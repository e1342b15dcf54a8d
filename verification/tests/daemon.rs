use creature_context::model::CapabilityState;
use creature_context::runtime::daemon;
use creature_context::runtime::daemon::{windows, DaemonError};

fn roots(paths: &[&str]) -> Vec<String> {
    paths.iter().map(|p| p.to_string()).collect()
}

#[test]
fn the_label_is_stable_per_project_and_distinct_between_projects() {
    let first = daemon::label_for("/home/me/alpha");
    let again = daemon::label_for("/home/me/alpha");
    let other = daemon::label_for("/home/me/beta");
    assert_eq!(first, again, "the same project must always get the same label");
    assert_ne!(first, other, "two projects must not share a label");
    assert!(first.starts_with("com.creature-context."), "unexpected label form: {first}");
    assert_eq!(first.len(), "com.creature-context.".len() + 16);
}

#[test]
fn the_label_is_the_digest_prefix_of_the_joined_roots() {
    let digest = blake3::hash(b"/a\0/b").to_hex().to_string();
    assert_eq!(
        daemon::label_for_roots(&roots(&["/b", "/a"])),
        format!("com.creature-context.{}", &digest[..16])
    );
    let single = blake3::hash(b"/home/me/alpha").to_hex().to_string();
    assert_eq!(
        daemon::label_for("/home/me/alpha"),
        format!("com.creature-context.{}", &single[..16])
    );
}

#[test]
fn a_root_set_has_one_stable_order_independent_label() {
    let forward = daemon::label_for_roots(&roots(&["/p/a", "/p/b"]));
    let reversed = daemon::label_for_roots(&roots(&["/p/b", "/p/a"]));
    let duplicated = daemon::label_for_roots(&roots(&["/p/a", "/p/b", "/p/a"]));
    let single = daemon::label_for_roots(&roots(&["/p/a"]));
    assert_eq!(forward, reversed, "order must not change the identity");
    assert_eq!(duplicated, forward, "a repeated root must not change it");
    assert_ne!(forward, single, "a different set of roots must be a different daemon");
    assert_eq!(single, daemon::label_for("/p/a"));
}

#[test]
fn the_daemon_logs_into_the_project() {
    assert_eq!(daemon::log_path("linux", "/home/me/alpha"), "/home/me/alpha/.creature/daemon.log");
    assert_eq!(daemon::log_path("macos", "/home/me/alpha/"), "/home/me/alpha/.creature/daemon.log");
    assert_eq!(
        daemon::log_path("windows", "C:\\work\\alpha"),
        "C:\\work\\alpha\\.creature\\daemon.log"
    );
}

#[test]
fn a_host_without_a_supervisor_adapter_refuses() {
    let rs = roots(&["/p/a"]);
    assert_eq!(daemon::capability("linux"), CapabilityState::Unavailable);
    assert!(matches!(
        daemon::definition_with_binary("linux", &rs, "/usr/local/bin/creature-context"),
        Err(DaemonError::Unsupported)
    ));
    assert!(matches!(daemon::install("macos", &rs, "/bin/cc"), Err(DaemonError::Unsupported)));
    assert!(matches!(daemon::uninstall("linux", &rs), Err(DaemonError::Unsupported)));
    assert!(matches!(daemon::status("linux", &rs, None), Err(DaemonError::Unsupported)));
}

#[test]
fn on_windows_the_definition_is_the_task_scheduler_one() {
    let rs = roots(&["C:/work/alpha"]);
    assert_eq!(daemon::capability("windows"), CapabilityState::ImplementedUnverified);
    let expected = windows::definition(&rs, "C:/bin/cc.exe").expect("definition");
    let got = daemon::definition_with_binary("windows", &rs, "C:/bin/cc.exe").expect("definition");
    assert_eq!(got, expected);
    assert_eq!(daemon::install("windows", &rs, "C:/bin/cc.exe").expect("install"), expected);
    assert_eq!(
        daemon::uninstall("windows", &rs).expect("uninstall"),
        daemon::label_for_roots(&rs)
    );
}

#[test]
fn status_of_an_uninstalled_project_is_not_installed() {
    let rs = roots(&["C:/work/alpha"]);
    let st = daemon::status("windows", &rs, None).expect("status");
    assert_eq!(st.label, daemon::label_for_roots(&rs));
    assert!(!st.installed);
    assert!(!st.loaded);
}

#[test]
fn status_reports_registration_and_a_running_instance() {
    let rs = roots(&["C:/work/alpha"]);
    let ready = daemon::status("windows", &rs, Some("Status: Ready".to_string())).unwrap();
    assert!(ready.installed && !ready.loaded);
    let running = daemon::status("windows", &rs, Some("Status: RUNNING".to_string())).unwrap();
    assert!(running.installed && running.loaded);
}

#[test]
fn the_definition_names_every_watched_root() {
    let rs = roots(&["C:/work/alpha", "C:/work/beta gamma"]);
    let definition = windows::definition(&rs, "C:/bin/creature-context.exe").expect("definition");
    let label = daemon::label_for_roots(&rs);
    assert_eq!(definition.label, label);
    assert_eq!(
        definition.unit_path,
        format!("C:/work/alpha\\.creature\\{label}.task.xml")
    );
    assert!(definition.contents.contains("<Command>C:/bin/creature-context.exe</Command>"));
    assert!(definition
        .contents
        .contains("<Arguments>run C:/work/alpha &quot;C:/work/beta gamma&quot;</Arguments>"));
    assert!(definition
        .contents
        .contains("<WorkingDirectory>C:/work/alpha</WorkingDirectory>"));
    assert!(definition.contents.contains(&format!("resident service ({label})")));
}

#[test]
fn a_definition_needs_at_least_one_root() {
    match windows::definition(&vec![], "C:/bin/cc.exe") {
        Err(DaemonError::Supervisor(m)) => assert_eq!(m, "no project roots given"),
        other => panic!("expected a refusal, got {other:?}"),
    }
}

#[test]
fn xml_metacharacters_are_escaped() {
    assert_eq!(
        windows::xml_escape(r#"a&b<c>d"e'f"#),
        "a&amp;b&lt;c&gt;d&quot;e&apos;f"
    );
    assert_eq!(windows::xml_escape("plain"), "plain");
}

#[test]
fn arguments_with_spaces_are_quoted() {
    assert_eq!(windows::quote_argument("C:/My Projects/x"), "\"C:/My Projects/x\"");
    assert_eq!(windows::quote_argument("C:/x"), "C:/x");
}

#[test]
fn the_task_file_is_utf16_with_a_byte_order_mark() {
    assert_eq!(windows::utf16le_with_bom("A€"), vec![0xFF, 0xFE, 0x41, 0x00, 0xAC, 0x20]);
    assert_eq!(windows::utf16le_with_bom("😀"), vec![0xFF, 0xFE, 0x3D, 0xD8, 0x00, 0xDE]);
    assert_eq!(windows::definition_dir("C:/work/alpha"), "C:/work/alpha\\.creature");
    assert_eq!(windows::definition_dir("C:\\work\\"), "C:\\work\\.creature");
    assert_eq!(windows::capability(), CapabilityState::ImplementedUnverified);
}
