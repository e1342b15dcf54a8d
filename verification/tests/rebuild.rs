use creature_context::store::rebuild::{check_portable_root, RebuildError, RebuildReport};

#[test]
fn a_galaxy_scoped_root_passes_the_scope_check() {
    let root = "@creature-context v:1 kind:atlas scale:galaxy project:p snapshot:s\n@entity id:x\n";
    assert!(check_portable_root(root).is_ok());
    let crlf = "@creature-context v:1 kind:atlas scale:galaxy project:p snapshot:s\r\n";
    assert!(check_portable_root(crlf).is_ok());
}

#[test]
fn a_folder_scoped_root_is_refused_before_decoding() {
    let folder = "@creature-context v:1 kind:atlas scale:folder project:p snapshot:s\n";
    assert!(matches!(
        check_portable_root(folder),
        Err(RebuildError::NotGalaxyScoped)
    ));
}

#[test]
fn only_the_header_line_decides_the_scope() {
    let late = "@creature-context v:1 kind:atlas scale:folder\nscale:galaxy\n";
    assert!(matches!(check_portable_root(late), Err(RebuildError::NotGalaxyScoped)));
    assert!(matches!(check_portable_root(""), Err(RebuildError::NotGalaxyScoped)));
    let orbit = "@creature-context v:1 kind:orbit scale:galaxy\n";
    assert!(matches!(check_portable_root(orbit), Err(RebuildError::NotGalaxyScoped)));
}

#[test]
fn a_report_states_what_was_restored() {
    let report = RebuildReport {
        snapshot_id: "snap".to_string(),
        entities: 3,
        edges: 2,
        records: 1,
        opaque_records: 0,
    };
    assert_eq!(report.clone(), report);
}
