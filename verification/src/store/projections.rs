//! The folder structure of the distributed `ATLAS.idx` tree: which folder each
//! entity stands for, the parents inferred from folder nesting, and the folders
//! that receive a file of their own.
use vstd::prelude::*;
use crate::atlas::{AtlasEntity, ScopeScale};
use crate::order::{sorted_arrangement, sorted_distinct, sorted_distinct_strings, string_views};
use crate::text::{chars_of, rfind_char, rfind_char_exec, slice_chars, str_eq, string_of, strip_suffixes, strip_suffixes_exec};

verus! {

/// A folder path without trailing slashes; the empty path and `.` are the
/// project root.
pub open spec fn normalise_folder_spec(path: Seq<char>) -> Seq<char> {
    if path == "."@ || path.len() == 0 {
        "."@
    } else {
        strip_suffixes(path, seq!['/'])
    }
}

/// The folder that contains `folder`: everything before its last slash, or
/// the root when there is none (or only a leading one).
pub open spec fn parent_folder_spec(folder: Seq<char>) -> Seq<char> {
    if folder == "."@ {
        "."@
    } else {
        match rfind_char(folder, '/') {
            Some(i) => if i == 0 {
                "."@
            } else {
                folder.take(i)
            },
            None => "."@,
        }
    }
}

/// The root folder, `.`.
fn root_folder() -> (r: String)
    ensures
        r@ == "."@,
{
    let mut r = String::new();
    crate::text::push_char(&mut r, '.');
    proof {
        reveal_strlit(".");
    }
    assert(r@ =~= "."@);
    r
}

/// Normalise a folder path: `.` for the root, trailing slashes removed.
pub fn normalise_folder(path: &str) -> (r: String)
    ensures
        r@ == normalise_folder_spec(path@),
{
    if str_eq(path, ".") || chars_of(path).len() == 0 {
        root_folder()
    } else {
        let slash: Vec<char> = vec!['/'];
        assert(slash@ =~= seq!['/']);
        string_of(&strip_suffixes_exec(&chars_of(path), &slash))
    }
}

/// The parent of a folder path, `.` at the top.
pub fn parent_folder(folder: &str) -> (r: String)
    ensures
        r@ == parent_folder_spec(folder@),
{
    if str_eq(folder, ".") {
        return root_folder();
    }
    let cs = chars_of(folder);
    match rfind_char_exec(&cs, '/') {
        Some(i) => {
            if i == 0 {
                root_folder()
            } else {
                let p = slice_chars(&cs, 0, i);
                assert(p@ =~= folder@.take(i as int));
                string_of(&p)
            }
        },
        None => root_folder(),
    }
}

/// The folder an entity stands for, if any: none for a Moon or an entity
/// without a path; the root for a child of the Galaxy or the scanner's
/// reserved `root` path; otherwise its normalised path.
pub open spec fn folder_of(e: AtlasEntity, galaxy: Option<u128>) -> Option<Seq<char>> {
    if e.scale == ScopeScale::Moon {
        None
    } else {
        match e.relative_path {
            None => None,
            Some(p) => Some(
                if e.parent_id == galaxy || p@ == "root"@ {
                    "."@
                } else {
                    normalise_folder_spec(p@)
                },
            ),
        }
    }
}

/// One `(entity id, folder)` pair for each entity that stands for a folder,
/// in snapshot order.
pub open spec fn folder_paths_spec(es: Seq<AtlasEntity>, galaxy: Option<u128>) -> Seq<
    (u128, Seq<char>),
>
    decreases es.len(),
{
    if es.len() == 0 {
        seq![]
    } else {
        let rest = folder_paths_spec(es.drop_last(), galaxy);
        match folder_of(es.last(), galaxy) {
            Some(f) => rest.push((es.last().id, f)),
            None => rest,
        }
    }
}

/// The pairs as plain values.
pub open spec fn pairs_view(v: Seq<(u128, String)>) -> Seq<(u128, Seq<char>)> {
    v.map_values(|p: (u128, String)| (p.0, p.1@))
}

/// The folder recorded for `id`; the last pair wins, as in a map built from
/// the pairs in order.
pub open spec fn folder_for(pairs: Seq<(u128, Seq<char>)>, id: u128) -> Option<Seq<char>>
    decreases pairs.len(),
{
    if pairs.len() == 0 {
        None
    } else if pairs.last().0 == id {
        Some(pairs.last().1)
    } else {
        folder_for(pairs.drop_last(), id)
    }
}

/// The entity that stands for `folder`: the last entity whose recorded
/// folder it is.
pub open spec fn entity_for(es: Seq<AtlasEntity>, pairs: Seq<(u128, Seq<char>)>, folder: Seq<char>) -> Option<
    u128,
>
    decreases es.len(),
{
    if es.len() == 0 {
        None
    } else if folder_for(pairs, es.last().id) == Some(folder) {
        Some(es.last().id)
    } else {
        entity_for(es.drop_last(), pairs, folder)
    }
}

/// The parent an entity is given from folder nesting: the entity standing for
/// the parent of its folder, when it has a folder other than the root and
/// that parent folder is represented; otherwise its own parent.
pub open spec fn inferred_parent(es: Seq<AtlasEntity>, pairs: Seq<(u128, Seq<char>)>, e: AtlasEntity) -> Option<
    u128,
> {
    match folder_for(pairs, e.id) {
        Some(f) => if f == "."@ {
            e.parent_id
        } else {
            match entity_for(es, pairs, parent_folder_spec(f)) {
                Some(p) => Some(p),
                None => e.parent_id,
            }
        },
        None => e.parent_id,
    }
}

/// Compute the folder path each non-Moon entity with a path represents. An
/// entity whose parent is the Galaxy, or whose path is the scanner's reserved
/// `root`, is the project root (`.`).
pub fn folder_paths(entities: &Vec<AtlasEntity>, galaxy_id: Option<u128>) -> (r: Vec<(u128, String)>)
    ensures
        pairs_view(r@) == folder_paths_spec(entities@, galaxy_id),
{
    let mut out: Vec<(u128, String)> = Vec::new();
    let mut k: usize = 0;
    while k < entities.len()
        invariant
            0 <= k <= entities.len(),
            pairs_view(out@) == folder_paths_spec(entities@.take(k as int), galaxy_id),
        decreases entities.len() - k,
    {
        let e = &entities[k];
        let ghost before = out@;
        assert(entities@.take(k + 1).drop_last() =~= entities@.take(k as int));
        assert(entities@.take(k + 1).last() == entities@[k as int]);
        let is_moon = match e.scale {
            ScopeScale::Moon => true,
            _ => false,
        };
        if !is_moon {
            if let Some(path) = &e.relative_path {
                let same_parent = match (e.parent_id, galaxy_id) {
                    (Some(a), Some(b)) => a == b,
                    (None, None) => true,
                    _ => false,
                };
                let folder = if same_parent || str_eq(path.as_str(), "root") {
                    root_folder()
                } else {
                    normalise_folder(path.as_str())
                };
                out.push((e.id, folder));
                assert(pairs_view(out@) =~= pairs_view(before).push((e.id, folder@)));
            }
        }
        k = k + 1;
    }
    assert(entities@.take(entities@.len() as int) =~= entities@);
    out
}

/// The folder recorded for `id` among `pairs`, the last pair winning.
fn lookup_folder(pairs: &Vec<(u128, String)>, id: u128) -> (r: Option<&String>)
    ensures
        match r {
            Some(s) => folder_for(pairs_view(pairs@), id) == Some(s@),
            None => folder_for(pairs_view(pairs@), id) is None,
        },
{
    let mut j: usize = pairs.len();
    assert(pairs@.take(j as int) =~= pairs@);
    while j > 0
        invariant
            0 <= j <= pairs.len(),
            folder_for(pairs_view(pairs@), id) == folder_for(pairs_view(pairs@.take(j as int)), id),
        decreases j,
    {
        let ghost pre = pairs_view(pairs@.take(j as int));
        assert(pre.drop_last() =~= pairs_view(pairs@.take(j - 1)));
        if pairs[j - 1].0 == id {
            return Some(&pairs[j - 1].1);
        }
        j = j - 1;
    }
    None
}

/// The entity standing for `folder`, the last one winning.
fn lookup_entity(entities: &Vec<AtlasEntity>, pairs: &Vec<(u128, String)>, folder: &String) -> (r:
    Option<u128>)
    ensures
        r == entity_for(entities@, pairs_view(pairs@), folder@),
{
    let mut j: usize = entities.len();
    assert(entities@.take(j as int) =~= entities@);
    while j > 0
        invariant
            0 <= j <= entities.len(),
            entity_for(entities@, pairs_view(pairs@), folder@) == entity_for(
                entities@.take(j as int),
                pairs_view(pairs@),
                folder@,
            ),
        decreases j,
    {
        assert(entities@.take(j as int).drop_last() =~= entities@.take(j - 1));
        assert(entities@.take(j as int).last() == entities@[j - 1]);
        let id = entities[j - 1].id;
        if let Some(f) = lookup_folder(pairs, id) {
            if str_eq(f.as_str(), folder.as_str()) {
                return Some(id);
            }
        }
        j = j - 1;
    }
    None
}

/// Give each folder entity the entity of its parent folder as its parent,
/// where that folder is represented; everything else about the entities is
/// left as it was.
pub fn with_inferred_parents(entities: Vec<AtlasEntity>, folder_paths: &Vec<(u128, String)>) -> (r:
    Vec<AtlasEntity>)
    ensures
        r@.len() == entities@.len(),
        forall|i: int|
            0 <= i < r@.len() ==> (#[trigger] r@[i]).parent_id == inferred_parent(
                entities@,
                pairs_view(folder_paths@),
                entities@[i],
            ),
        forall|i: int|
            0 <= i < r@.len() ==> (#[trigger] r@[i]) == (AtlasEntity {
                parent_id: r@[i].parent_id,
                ..entities@[i]
            }),
{
    let ghost pv = pairs_view(folder_paths@);
    let mut parents: Vec<Option<u128>> = Vec::new();
    let mut k: usize = 0;
    while k < entities.len()
        invariant
            0 <= k <= entities.len(),
            pv == pairs_view(folder_paths@),
            parents@.len() == k,
            forall|i: int|
                0 <= i < k ==> #[trigger] parents@[i] == inferred_parent(
                    entities@,
                    pv,
                    entities@[i],
                ),
        decreases entities.len() - k,
    {
        let e = &entities[k];
        let mut p = e.parent_id;
        if let Some(f) = lookup_folder(folder_paths, e.id) {
            if !str_eq(f.as_str(), ".") {
                let pf = parent_folder(f.as_str());
                if let Some(pid) = lookup_entity(&entities, folder_paths, &pf) {
                    p = Some(pid);
                }
            }
        }
        parents.push(p);
        k = k + 1;
    }
    let ghost original = entities@;
    let mut rest = entities;
    let mut reversed: Vec<AtlasEntity> = Vec::new();
    while rest.len() > 0
        invariant
            rest@.len() + reversed@.len() == original.len(),
            forall|i: int| 0 <= i < rest@.len() ==> #[trigger] rest@[i] == original[i],
            forall|i: int|
                0 <= i < reversed@.len() ==> #[trigger] reversed@[i] == original[original.len() - 1
                    - i],
        decreases rest@.len(),
    {
        let e = rest.pop().unwrap();
        reversed.push(e);
    }
    let mut out: Vec<AtlasEntity> = Vec::new();
    while reversed.len() > 0
        invariant
            out@.len() + reversed@.len() == original.len(),
            parents@.len() == original.len(),
            forall|i: int|
                0 <= i < reversed@.len() ==> #[trigger] reversed@[i] == original[original.len() - 1
                    - i],
            forall|i: int|
                0 <= i < out@.len() ==> (#[trigger] out@[i]) == (AtlasEntity {
                    parent_id: parents@[i],
                    ..original[i]
                }),
        decreases reversed@.len(),
    {
        let mut e = reversed.pop().unwrap();
        let i = out.len();
        e.parent_id = parents[i];
        out.push(e);
    }
    out
}

/// The folders recorded in `pairs`, in pair order.
pub open spec fn recorded_folders(pairs: Seq<(u128, Seq<char>)>) -> Set<Seq<char>> {
    folder_list(pairs).to_set()
}

/// The folder of each pair, in order.
pub open spec fn folder_list(pairs: Seq<(u128, Seq<char>)>) -> Seq<Seq<char>> {
    pairs.map_values(|p: (u128, Seq<char>)| p.1)
}

/// The folders that receive an `ATLAS.idx`: every folder an entity stands
/// for, and the root, each once, in increasing order.
pub fn meaningful_folders(folder_paths: &Vec<(u128, String)>) -> (r: Vec<String>)
    ensures
        sorted_distinct(string_views(r@)),
        string_views(r@).to_set() == recorded_folders(pairs_view(folder_paths@)).insert("."@),
        string_views(r@).contains("."@),
        string_views(r@) == sorted_arrangement(
            recorded_folders(pairs_view(folder_paths@)).insert("."@),
        ),
{
    let mut all: Vec<String> = Vec::new();
    let mut k: usize = 0;
    while k < folder_paths.len()
        invariant
            0 <= k <= folder_paths.len(),
            string_views(all@) == folder_list(pairs_view(folder_paths@.take(k as int))),
        decreases folder_paths.len() - k,
    {
        let ghost before = string_views(all@);
        let f = String::from_str(folder_paths[k].1.as_str());
        all.push(f);
        assert(pairs_view(folder_paths@.take(k + 1)) =~= pairs_view(folder_paths@.take(k as int)).push(
            (folder_paths@[k as int].0, folder_paths@[k as int].1@),
        ));
        assert(string_views(all@) =~= before.push(folder_paths@[k as int].1@));
        assert(string_views(all@) =~= folder_list(pairs_view(folder_paths@.take(k + 1))));
        k = k + 1;
    }
    assert(folder_paths@.take(folder_paths@.len() as int) =~= folder_paths@);
    let ghost before = string_views(all@);
    all.push(root_folder());
    assert(string_views(all@) =~= before.push("."@));
    assert(string_views(all@).to_set() =~= recorded_folders(pairs_view(folder_paths@)).insert(
        "."@,
    )) by {
        assert forall|x: Seq<char>| string_views(all@).to_set().contains(x) <==> before.to_set().insert(
            "."@,
        ).contains(x) by {
            if string_views(all@).to_set().contains(x) {
                let i = choose|i: int| 0 <= i < string_views(all@).len() && string_views(all@)[i]
                    == x;
                if i < before.len() {
                    assert(before[i] == x);
                }
            }
            if before.to_set().contains(x) {
                let i = choose|i: int| 0 <= i < before.len() && before[i] == x;
                assert(string_views(all@)[i] == x);
            }
            if x == "."@ {
                assert(string_views(all@)[before.len() as int] == x);
            }
        }
    }
    let r = sorted_distinct_strings(&all);
    assert(string_views(r@).to_set().contains("."@));
    r
}

/// The id of the first Galaxy entity, if any.
pub open spec fn galaxy_of(es: Seq<AtlasEntity>) -> Option<u128>
    decreases es.len(),
{
    if es.len() == 0 {
        None
    } else if es[0].scale == ScopeScale::Galaxy {
        Some(es[0].id)
    } else {
        galaxy_of(es.drop_first())
    }
}

/// The Galaxy entity's id: folders directly under it are the project root.
pub fn galaxy_id(entities: &Vec<AtlasEntity>) -> (r: Option<u128>)
    ensures
        r == galaxy_of(entities@),
{
    let mut i: usize = 0;
    assert(entities@.skip(0) =~= entities@);
    while i < entities.len()
        invariant
            0 <= i <= entities@.len(),
            galaxy_of(entities@) == galaxy_of(entities@.skip(i as int)),
        decreases entities@.len() - i,
    {
        let ghost rest = entities@.skip(i as int);
        assert(rest[0] == entities@[i as int]);
        assert(rest.drop_first() =~= entities@.skip(i + 1));
        let is_galaxy = match entities[i].scale {
            ScopeScale::Galaxy => true,
            _ => false,
        };
        if is_galaxy {
            return Some(entities[i].id);
        }
        i = i + 1;
    }
    None
}

/// The folder-scoped files to write: each meaningful folder other than the
/// root (whose file is the complete, galaxy-scoped one) that an entity
/// stands for, with that entity, in folder order.
pub open spec fn folder_plan(
    es: Seq<AtlasEntity>,
    pairs: Seq<(u128, Seq<char>)>,
    folders: Seq<Seq<char>>,
) -> Seq<(Seq<char>, u128)>
    decreases folders.len(),
{
    if folders.len() == 0 {
        seq![]
    } else {
        let rest = folder_plan(es, pairs, folders.drop_last());
        let f = folders.last();
        if f == "."@ {
            rest
        } else {
            match entity_for(es, pairs, f) {
                Some(id) => rest.push((f, id)),
                None => rest,
            }
        }
    }
}

/// The plan as plain values.
pub open spec fn plan_view(v: Seq<(String, u128)>) -> Seq<(Seq<char>, u128)> {
    v.map_values(|p: (String, u128)| (p.0@, p.1))
}

/// Which folder-scoped `ATLAS.idx` files to write, and for which entity:
/// every meaningful folder but the root that some entity stands for.
pub fn folder_projections(
    entities: &Vec<AtlasEntity>,
    folder_paths: &Vec<(u128, String)>,
    meaningful: &Vec<String>,
) -> (r: Vec<(String, u128)>)
    ensures
        plan_view(r@) == folder_plan(entities@, pairs_view(folder_paths@), string_views(meaningful@)),
{
    let ghost pv = pairs_view(folder_paths@);
    let ghost fs = string_views(meaningful@);
    let mut out: Vec<(String, u128)> = Vec::new();
    let mut k: usize = 0;
    while k < meaningful.len()
        invariant
            0 <= k <= meaningful.len(),
            pv == pairs_view(folder_paths@),
            fs == string_views(meaningful@),
            plan_view(out@) == folder_plan(entities@, pv, fs.take(k as int)),
        decreases meaningful.len() - k,
    {
        let f = &meaningful[k];
        assert(fs.take(k + 1).drop_last() =~= fs.take(k as int));
        assert(fs.take(k + 1).last() == f@);
        let ghost before = out@;
        if !str_eq(f.as_str(), ".") {
            if let Some(id) = lookup_entity(entities, folder_paths, f) {
                out.push((f.clone(), id));
                assert(plan_view(out@) =~= plan_view(before).push((f@, id)));
            }
        }
        k = k + 1;
    }
    assert(fs.take(fs.len() as int) =~= fs);
    out
}

} // verus!
