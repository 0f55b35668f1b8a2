use vietime::apps::{
    binary_candidates, electron_app_facts, generic_app_facts, profiles, refine_kind, resolve_app,
    session_is_wayland, unknown_app_note, wants_electron_probe, which_path,
};
use vietime::checkers::AppKind;

#[test]
fn resolves_by_canonical_id() {
    let p = resolve_app("vscode").expect("vscode profile");
    assert_eq!(p.id, "vscode");
    assert_eq!(p.display_name, "Visual Studio Code");
}

#[test]
fn resolves_by_alias_case_insensitive() {
    assert_eq!(resolve_app("code").expect("alias").id, "vscode");
    assert_eq!(resolve_app("CODE").expect("upper").id, "vscode");
    assert_eq!(resolve_app("Code-OSS").expect("mixed").id, "vscode");
}

#[test]
fn resolves_full_path_via_basename() {
    let p = resolve_app("/usr/bin/code").expect("path");
    assert_eq!(p.id, "vscode");
    let p = resolve_app("/snap/bin/slack").expect("snap path");
    assert_eq!(p.id, "slack");
}

#[test]
fn unknown_input_returns_none() {
    assert!(resolve_app("notepad++").is_none());
    assert!(resolve_app("").is_none());
    assert!(resolve_app("   ").is_none());
}

#[test]
fn every_profile_has_a_unique_id() {
    let all = profiles();
    let mut ids: Vec<&str> = all.iter().map(|p| p.id).collect();
    ids.sort_unstable();
    let before = ids.len();
    ids.dedup();
    assert_eq!(ids.len(), before, "duplicate profile id in registry");
    assert_eq!(all.len(), 10);
}

#[test]
fn electron_profiles_have_app_electron_in_extra_detectors() {
    for p in profiles() {
        if matches!(p.kind_hint, AppKind::Electron | AppKind::Chromium) {
            assert!(
                p.extra_detectors.contains(&"app.electron"),
                "{} should list app.electron in extra_detectors",
                p.id
            );
        }
    }
}

#[test]
fn resolve_trims_and_handles_path_edge_cases() {
    assert_eq!(resolve_app("  Firefox-ESR \n").expect("trimmed alias").id, "firefox");
    assert_eq!(resolve_app("/opt/idea/bin/IDEA").expect("basename").id, "intellij");
    assert_eq!(resolve_app("/usr/bin/code/").expect("trailing slash").id, "vscode");
    assert_eq!(resolve_app("/usr/bin/code/.").expect("trailing dot").id, "vscode");
    assert!(resolve_app("/usr/bin/code/..").is_none());
    assert!(resolve_app("/").is_none());
    assert_eq!(resolve_app("visual studio code").expect("spaced alias").id, "vscode");
}

#[test]
fn binary_candidates_follow_hints_under_sysroot() {
    let p = resolve_app("firefox").expect("firefox");
    assert_eq!(
        binary_candidates(&p, None),
        vec!["/usr/bin/firefox", "/usr/lib/firefox/firefox", "/snap/bin/firefox"]
    );
    assert_eq!(
        binary_candidates(&p, Some("/tmp/root")),
        vec!["/tmp/root/usr/bin/firefox", "/tmp/root/usr/lib/firefox/firefox", "/tmp/root/snap/bin/firefox"]
    );
}

#[test]
fn which_path_takes_first_trimmed_line() {
    assert_eq!(which_path("/opt/vscode/bin/code\n").as_deref(), Some("/opt/vscode/bin/code"));
    assert_eq!(which_path("  /usr/local/bin/code  \n/other\n").as_deref(), Some("/usr/local/bin/code"));
    assert!(which_path("").is_none());
    assert!(which_path("   \n/usr/bin/x\n").is_none());
}

#[test]
fn refine_kind_reads_file_output() {
    assert!(matches!(
        refine_kind(&AppKind::Electron, Some("ELF 64-bit LSB executable, AppImage")),
        AppKind::AppImage
    ));
    assert!(matches!(
        refine_kind(&AppKind::Jvm, Some("POSIX shell script, ASCII text executable")),
        AppKind::Native
    ));
    assert!(matches!(
        refine_kind(&AppKind::Jvm, Some("Python script, UTF-8 text")),
        AppKind::Native
    ));
    assert!(matches!(refine_kind(&AppKind::Electron, Some("ELF 64-bit LSB pie executable")), AppKind::Electron));
    assert!(matches!(refine_kind(&AppKind::Chromium, None), AppKind::Chromium));
}

#[test]
fn generic_facts_note_missing_binary_and_version() {
    let p = resolve_app("slack").expect("slack");
    let (facts, notes) = generic_app_facts(&p, None, None, AppKind::Electron);
    assert_eq!(facts.app_id, "slack");
    assert_eq!(facts.binary_path, "");
    assert_eq!(notes, vec!["slack: binary not found on PATH or binary_hints"]);
    assert_eq!(facts.detector_notes, notes);
    let (facts, notes) =
        generic_app_facts(&p, Some("/usr/bin/slack".to_owned()), None, AppKind::Electron);
    assert_eq!(facts.binary_path, "/usr/bin/slack");
    assert_eq!(notes, vec!["slack: --version produced no parseable token"]);
    let (facts, notes) = generic_app_facts(
        &p,
        Some("/usr/bin/slack".to_owned()),
        Some("4.36.140".to_owned()),
        AppKind::AppImage,
    );
    assert!(notes.is_empty());
    assert_eq!(facts.version.as_deref(), Some("4.36.140"));
    assert!(matches!(facts.kind, AppKind::AppImage));
    assert!(facts.electron_version.is_none() && facts.uses_wayland.is_none());
    assert_eq!(unknown_app_note("notepad++"), "unknown app id: notepad++");
}

#[test]
fn electron_facts_only_when_something_was_learned() {
    let p = resolve_app("vscode").expect("vscode");
    assert!(wants_electron_probe(&p));
    assert!(!wants_electron_probe(&resolve_app("firefox").expect("firefox")));
    assert!(electron_app_facts(&p, "/usr/bin/code".to_owned(), None, None, false).is_none());
    let (facts, notes) = electron_app_facts(
        &p,
        "/usr/bin/code".to_owned(),
        Some("28.2.4".to_owned()),
        Some(false),
        true,
    )
    .expect("facts");
    assert_eq!(facts.electron_version.as_deref(), Some("28.2.4"));
    assert_eq!(facts.uses_wayland, Some(false));
    assert!(matches!(facts.kind, AppKind::Electron));
    assert_eq!(
        notes,
        vec![
            "vscode: electron version 28.2.4 (binary scan)",
            "vscode: running without --ozone-platform=wayland"
        ]
    );
    let (_, notes) =
        electron_app_facts(&p, "/usr/bin/code".to_owned(), None, Some(false), false).expect("facts");
    assert_eq!(notes, vec!["vscode: not running; inferring no Ozone flag"]);
    let (_, notes) =
        electron_app_facts(&p, "/usr/bin/code".to_owned(), None, Some(true), true).expect("facts");
    assert_eq!(notes, vec!["vscode: running with Ozone/Wayland"]);
    assert!(session_is_wayland(Some("Wayland")));
    assert!(!session_is_wayland(Some("x11")));
    assert!(!session_is_wayland(None));
}
