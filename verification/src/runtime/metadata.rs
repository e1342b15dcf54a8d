//! Native metadata projection: the Green state of each file, as the label a
//! file browser shows. The projection is derived from the Atlas and rebuilt
//! from it on demand; deciding which tag each entity gets is the portable
//! half, writing it is the platform's.
use vstd::prelude::*;
use crate::atlas::{AtlasEntity, AtlasSnapshot, GreenCode};
use crate::model::CapabilityState;

verus! {

/// One tag to project onto one file.
#[derive(Clone, Debug, PartialEq, Eq)]
pub struct TagAssignment {
    pub relative_path: String,
    pub tag: String,
}

pub open spec fn tag_label_spec(code: GreenCode) -> Seq<char> {
    match code {
        GreenCode::Green => "Green"@,
        GreenCode::Yellow => "Yellow"@,
        GreenCode::Red => "Red"@,
        GreenCode::Unknown => "Unknown"@,
    }
}

/// The tag label for a Green code: the same on every platform.
pub fn tag_label(code: GreenCode) -> (r: &'static str)
    ensures
        r@ == tag_label_spec(code),
{
    match code {
        GreenCode::Green => "Green",
        GreenCode::Yellow => "Yellow",
        GreenCode::Red => "Red",
        GreenCode::Unknown => "Unknown",
    }
}

/// The tag an entity gets: `(path, label)` when it has both a file path and
/// an evaluated Green code.
pub open spec fn entity_tag(e: AtlasEntity) -> Option<(Seq<char>, Seq<char>)> {
    match (e.relative_path, e.green) {
        (Some(p), Some(g)) => Some((p@, tag_label_spec(g.overall))),
        _ => None,
    }
}

/// The projection of a list of entities, in entity order.
pub open spec fn project_spec(entities: Seq<AtlasEntity>) -> Seq<(Seq<char>, Seq<char>)>
    decreases entities.len(),
{
    if entities.len() == 0 {
        seq![]
    } else {
        project_spec(entities.drop_last()) + match entity_tag(entities.last()) {
            Some(t) => seq![t],
            None => seq![],
        }
    }
}

/// The assignments as plain values.
pub open spec fn assignments_view(v: Seq<TagAssignment>) -> Seq<(Seq<char>, Seq<char>)> {
    v.map_values(|a: TagAssignment| (a.relative_path@, a.tag@))
}

/// The metadata projection of a snapshot: one assignment per entity that has
/// both a file path and an evaluated Green code, in entity order.
pub fn project(snapshot: &AtlasSnapshot) -> (r: Vec<TagAssignment>)
    ensures
        assignments_view(r@) == project_spec(snapshot.entities@),
{
    let mut out: Vec<TagAssignment> = Vec::new();
    let mut i: usize = 0;
    while i < snapshot.entities.len()
        invariant
            0 <= i <= snapshot.entities.len(),
            assignments_view(out@) == project_spec(snapshot.entities@.take(i as int)),
        decreases snapshot.entities.len() - i,
    {
        let e = &snapshot.entities[i];
        let ghost before = assignments_view(out@);
        proof {
            let t = snapshot.entities@.take(i + 1);
            assert(t.drop_last() =~= snapshot.entities@.take(i as int));
            assert(t.last() == *e);
        }
        match (&e.relative_path, &e.green) {
            (Some(path), Some(green)) => {
                let a = TagAssignment {
                    relative_path: path.clone(),
                    tag: String::from_str(tag_label(green.overall)),
                };
                out.push(a);
                assert(assignments_view(out@) =~= before.push((a.relative_path@, a.tag@)));
            },
            _ => {
                assert(assignments_view(out@) =~= before + Seq::<(Seq<char>, Seq<char>)>::empty());
            },
        }
        i = i + 1;
    }
    assert(snapshot.entities@.take(snapshot.entities@.len() as int) =~= snapshot.entities@);
    out
}

/// Apply the projection as native metadata, returning how many files were
/// tagged: on a platform without an adapter nothing is projected, because
/// nothing could be.
pub fn apply(root: &str, snapshot: &AtlasSnapshot) -> (r: usize)
    ensures
        r == 0,
{
    let _assignments = project(snapshot);
    0
}

/// The metadata capability of a platform without an adapter.
pub fn capability() -> (r: CapabilityState)
    ensures
        r == CapabilityState::Unavailable,
{
    CapabilityState::Unavailable
}

} // verus!
