use creature_context::atlas::{AtlasEntity, EntityKind, ScopeScale};
use creature_context::store::projections::{
    folder_paths, folder_projections, galaxy_id, meaningful_folders, normalise_folder,
    parent_folder, with_inferred_parents,
};

fn entity(id: u128, scale: ScopeScale, path: Option<&str>, parent: Option<u128>) -> AtlasEntity {
    AtlasEntity {
        id,
        scale,
        kind: EntityKind::Module,
        canonical_name: path.unwrap_or("galaxy").to_string(),
        relative_path: path.map(|p| p.to_string()),
        parent_id: parent,
        protected_decision_ids: vec![],
        sockets: vec![],
        source_spans: vec![],
        structural_fingerprint: String::new(),
        local_evidence: vec![],
        green: None,
        deterministic_summary: String::new(),
        inferred_summaries: vec![],
        snapshot_id: String::new(),
        observed_at: String::new(),
    }
}

#[test]
fn folder_paths_are_normalised() {
    assert_eq!(normalise_folder("."), ".");
    assert_eq!(normalise_folder(""), ".");
    assert_eq!(normalise_folder("src/"), "src");
    assert_eq!(normalise_folder("src/core//"), "src/core");
    assert_eq!(normalise_folder("src"), "src");
}

#[test]
fn the_parent_of_a_folder_is_everything_before_its_last_slash() {
    assert_eq!(parent_folder("."), ".");
    assert_eq!(parent_folder("src"), ".");
    assert_eq!(parent_folder("/src"), ".");
    assert_eq!(parent_folder("src/core"), "src");
    assert_eq!(parent_folder("a/b/c"), "a/b");
}

fn snapshot() -> Vec<AtlasEntity> {
    vec![
        entity(1, ScopeScale::Galaxy, None, None),
        entity(2, ScopeScale::System, Some("root"), None),
        entity(3, ScopeScale::Planet, Some("src/"), None),
        entity(4, ScopeScale::Planet, Some("src/core"), None),
        entity(5, ScopeScale::Moon, Some("src/core/lib.rs"), Some(4)),
        entity(6, ScopeScale::Planet, Some("docs"), Some(1)),
    ]
}

#[test]
fn each_folder_entity_stands_for_its_folder() {
    let pairs = folder_paths(&snapshot(), Some(1));
    assert_eq!(
        pairs,
        vec![
            (2, ".".to_string()),
            (3, "src".to_string()),
            (4, "src/core".to_string()),
            (6, ".".to_string()),
        ]
    );
}

#[test]
fn parents_are_inferred_from_folder_nesting() {
    let entities = snapshot();
    let pairs = folder_paths(&entities, Some(1));
    let inferred = with_inferred_parents(entities, &pairs);
    let parent = |id: u128| inferred.iter().find(|e| e.id == id).unwrap().parent_id;
    assert_eq!(parent(3), Some(6), "src's parent folder is the root, last represented by 6");
    assert_eq!(parent(4), Some(3));
    assert_eq!(parent(5), Some(4), "a Moon keeps its own parent");
    assert_eq!(parent(2), None, "the root keeps its own parent");
    assert_eq!(parent(6), Some(1));
    assert_eq!(inferred.len(), 6);
    assert_eq!(inferred[3].relative_path.as_deref(), Some("src/core"));
}

#[test]
fn every_represented_folder_and_the_root_are_meaningful() {
    let pairs = folder_paths(&snapshot(), Some(1));
    assert_eq!(meaningful_folders(&pairs), vec![".", "src", "src/core"]);
    assert_eq!(meaningful_folders(&vec![]), vec!["."]);
    let unordered = vec![(9, "z".to_string()), (8, "a".to_string()), (7, "a".to_string())];
    assert_eq!(meaningful_folders(&unordered), vec![".", "a", "z"]);
}

#[test]
fn each_meaningful_folder_but_the_root_gets_its_own_file() {
    let entities = snapshot();
    assert_eq!(galaxy_id(&entities), Some(1));
    let pairs = folder_paths(&entities, galaxy_id(&entities));
    let meaningful = meaningful_folders(&pairs);
    let plan = folder_projections(&entities, &pairs, &meaningful);
    assert_eq!(
        plan,
        vec![("src".to_string(), 3), ("src/core".to_string(), 4)]
    );
    assert_eq!(galaxy_id(&vec![]), None);
}
