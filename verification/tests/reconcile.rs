use vietime::checkers::{AppFacts, AppKind, Issue, Severity};
use vietime::daemons::{merge_fcitx5_facts, merge_ibus_facts, Fcitx5Facts, IbusFacts};
use vietime::model::{ActiveFramework, ImFramework, SessionType};
use vietime::reconcile::PartialFacts;
use vietime::runtime::{cmdline_args, is_pid_dir, runs_binary, sort_anomalies, Anomaly};
use vietime::reconcile::{
    derive_active, populate_recommendations, reconcile_app_facts, reconcile_engine_registration,
    EngineFact,
};

fn ibus_facts(running: bool, engines: Vec<String>) -> IbusFacts {
    IbusFacts {
        version: None,
        daemon_running: running,
        daemon_pid: Some(1),
        config_dir: Some("/tmp".to_owned()),
        registered_engines: engines,
    }
}

fn fcitx5_facts(running: bool, ims: Vec<String>) -> Fcitx5Facts {
    Fcitx5Facts {
        version: None,
        daemon_running: running,
        daemon_pid: Some(2),
        config_dir: Some("/tmp".to_owned()),
        addons_enabled: vec![],
        input_methods_configured: ims,
    }
}

fn engine(name: &str, package: Option<&str>, framework: ImFramework, registered: bool) -> EngineFact {
    EngineFact {
        name: name.to_owned(),
        package: package.map(|p| p.to_owned()),
        version: None,
        framework,
        is_vietnamese: true,
        is_registered: registered,
    }
}

fn issue(id: &str, severity: Severity, title: &str, rec: Option<&str>) -> Issue {
    Issue {
        id: id.to_owned(),
        severity,
        title: title.to_owned(),
        detail: String::new(),
        facts_evidence: vec![],
        recommendation: rec.map(|r| r.to_owned()),
    }
}

fn app(
    id: &str,
    path: &str,
    version: Option<&str>,
    kind: AppKind,
    electron: Option<&str>,
    wayland: Option<bool>,
    notes: Vec<&str>,
) -> AppFacts {
    AppFacts {
        app_id: id.to_owned(),
        binary_path: path.to_owned(),
        version: version.map(|v| v.to_owned()),
        kind,
        electron_version: electron.map(|v| v.to_owned()),
        uses_wayland: wayland,
        detector_notes: notes.into_iter().map(|n| n.to_owned()).collect(),
    }
}

#[test]
fn active_framework_conflict_when_both_daemons_up() {
    let ibus = ibus_facts(true, vec![]);
    let fcitx5 = fcitx5_facts(true, vec![]);
    assert_eq!(derive_active(Some(&ibus), Some(&fcitx5)), ActiveFramework::Conflict);
}

#[test]
fn active_framework_none_when_no_daemons() {
    assert_eq!(derive_active(None, None), ActiveFramework::NoFramework);
}

#[test]
fn active_framework_follows_the_single_running_daemon() {
    let ibus_up = ibus_facts(true, vec![]);
    let ibus_down = ibus_facts(false, vec![]);
    let fcitx5_up = fcitx5_facts(true, vec![]);
    assert_eq!(derive_active(Some(&ibus_up), None), ActiveFramework::Ibus);
    assert_eq!(derive_active(Some(&ibus_down), Some(&fcitx5_up)), ActiveFramework::Fcitx5);
    assert_eq!(derive_active(Some(&ibus_down), None), ActiveFramework::NoFramework);
}

#[test]
fn reconcile_flips_registered_when_package_matches_ibus_listing() {
    let mut ibus = Some(IbusFacts {
        version: None,
        daemon_running: true,
        daemon_pid: None,
        config_dir: Some("/home/a/.config/ibus".to_owned()),
        registered_engines: vec!["bamboo".to_owned()],
    });
    let mut engines = vec![
        EngineFact {
            name: "bamboo".to_owned(),
            package: Some("ibus-bamboo".to_owned()),
            version: Some("0.8.2".to_owned()),
            framework: ImFramework::Ibus,
            is_vietnamese: true,
            is_registered: false,
        },
        EngineFact {
            name: "unikey".to_owned(),
            package: Some("ibus-unikey".to_owned()),
            version: Some("0.6.1".to_owned()),
            framework: ImFramework::Ibus,
            is_vietnamese: true,
            is_registered: false,
        },
    ];
    reconcile_engine_registration(&mut ibus, &None, &mut engines);
    assert!(engines[0].is_registered);
    assert!(!engines[1].is_registered);
    assert_eq!(ibus.as_ref().expect("ibus set").registered_engines, vec!["bamboo"]);
}

#[test]
fn reconcile_pushes_new_engines_into_ibus_registered_list() {
    let mut ibus = Some(IbusFacts {
        version: Some("1.5.29".to_owned()),
        daemon_running: true,
        daemon_pid: Some(1),
        config_dir: Some("/home/a/.config/ibus".to_owned()),
        registered_engines: vec![],
    });
    let mut engines = vec![engine("bamboo", None, ImFramework::Ibus, true)];
    reconcile_engine_registration(&mut ibus, &None, &mut engines);
    let facts = ibus.expect("ibus set");
    assert_eq!(facts.registered_engines, vec!["bamboo"]);
    assert_eq!(facts.version.as_deref(), Some("1.5.29"));
    assert_eq!(facts.daemon_pid, Some(1));
}

#[test]
fn reconcile_uses_fcitx5_profile_to_flip_package_engine_flag() {
    let fcitx5 = Some(Fcitx5Facts {
        version: None,
        daemon_running: true,
        daemon_pid: None,
        config_dir: Some("/home/a/.config/fcitx5".to_owned()),
        addons_enabled: vec![],
        input_methods_configured: vec!["bamboo".to_owned(), "keyboard-us".to_owned()],
    });
    let mut engines = vec![engine("bamboo", Some("fcitx5-bamboo"), ImFramework::Fcitx5, false)];
    let mut ibus: Option<IbusFacts> = None;
    reconcile_engine_registration(&mut ibus, &fcitx5, &mut engines);
    assert!(engines[0].is_registered);
    assert!(ibus.is_none());
}

#[test]
fn reconcile_does_not_cross_frameworks() {
    // An IBus listing of "bamboo" says nothing of the Fcitx5 engine of that name.
    let mut ibus = Some(ibus_facts(true, vec!["bamboo".to_owned()]));
    let mut engines = vec![engine("bamboo", Some("fcitx5-bamboo"), ImFramework::Fcitx5, false)];
    reconcile_engine_registration(&mut ibus, &None, &mut engines);
    assert!(!engines[0].is_registered);
    assert_eq!(ibus.expect("ibus set").registered_engines, vec!["bamboo"]);
}

#[test]
fn reconcile_registered_row_confirms_its_unregistered_twin() {
    let mut ibus: Option<IbusFacts> = None;
    let mut engines = vec![
        engine("unikey", Some("ibus-unikey"), ImFramework::Ibus, false),
        engine("unikey", None, ImFramework::Ibus, true),
    ];
    reconcile_engine_registration(&mut ibus, &None, &mut engines);
    assert!(engines[0].is_registered);
    assert!(engines[1].is_registered);
}

#[test]
fn reconcile_app_facts_merges_two_rows_for_same_app_id() {
    let generic = app(
        "vscode",
        "/usr/bin/code",
        Some("1.87.2"),
        AppKind::Electron,
        None,
        None,
        vec!["generic: ok"],
    );
    let electron = app(
        "vscode",
        "/usr/bin/code",
        None,
        AppKind::Electron,
        Some("28.2.4"),
        Some(true),
        vec!["electron: ok"],
    );
    let mut apps = vec![generic, electron];
    reconcile_app_facts(&mut apps);
    assert_eq!(apps.len(), 1);
    let a = &apps[0];
    assert_eq!(a.app_id, "vscode");
    assert_eq!(a.version.as_deref(), Some("1.87.2"));
    assert_eq!(a.electron_version.as_deref(), Some("28.2.4"));
    assert_eq!(a.uses_wayland, Some(true));
    assert_eq!(a.detector_notes.len(), 2);
}

#[test]
fn reconcile_app_facts_leaves_single_row_unchanged() {
    let mut apps = vec![app("firefox", "/usr/bin/firefox", Some("126.0"), AppKind::Native, None, None, vec![])];
    reconcile_app_facts(&mut apps);
    assert_eq!(apps.len(), 1);
    let a = &apps[0];
    assert_eq!(a.app_id, "firefox");
    assert_eq!(a.binary_path, "/usr/bin/firefox");
    assert_eq!(a.version.as_deref(), Some("126.0"));
    assert!(matches!(a.kind, AppKind::Native));
    assert!(a.electron_version.is_none());
    assert!(a.uses_wayland.is_none());
    assert!(a.detector_notes.is_empty());
}

#[test]
fn reconcile_app_facts_upgrades_kind_and_fills_empty_path() {
    let mut apps = vec![
        app("slack", "", None, AppKind::Native, None, None, vec!["a"]),
        app("firefox", "/usr/bin/firefox", None, AppKind::Native, None, None, vec![]),
        app("slack", "/usr/bin/slack", Some("4.0"), AppKind::Electron, None, Some(false), vec!["b"]),
        app("slack", "/opt/other", None, AppKind::Native, None, Some(true), vec!["c"]),
    ];
    reconcile_app_facts(&mut apps);
    assert_eq!(apps.len(), 2);
    assert_eq!(apps[0].app_id, "slack");
    assert_eq!(apps[1].app_id, "firefox");
    assert_eq!(apps[0].binary_path, "/usr/bin/slack");
    assert_eq!(apps[0].version.as_deref(), Some("4.0"));
    assert!(matches!(apps[0].kind, AppKind::Electron));
    assert_eq!(apps[0].uses_wayland, Some(false));
    assert_eq!(apps[0].detector_notes, vec!["a", "b", "c"]);
}

#[test]
fn reconcile_app_facts_appimage_beats_electron_but_not_the_reverse() {
    let mut apps = vec![
        app("x", "/a", None, AppKind::Electron, None, None, vec![]),
        app("x", "/b", None, AppKind::AppImage, None, None, vec![]),
        app("y", "/c", None, AppKind::AppImage, None, None, vec![]),
        app("y", "/d", None, AppKind::Electron, None, None, vec![]),
    ];
    reconcile_app_facts(&mut apps);
    assert_eq!(apps.len(), 2);
    assert!(matches!(apps[0].kind, AppKind::AppImage));
    assert_eq!(apps[0].binary_path, "/a");
    assert!(matches!(apps[1].kind, AppKind::AppImage));
}

#[test]
fn populate_recommendations_dedupes_and_sorts_vr_ids() {
    let issues = vec![
        issue("VD005", Severity::Warn, "x", Some("VR005")),
        issue("VD005", Severity::Warn, "y", Some("VR005")),
        issue("VD001", Severity::Critical, "z", Some("VR001")),
    ];
    let recs = populate_recommendations(&issues);
    assert_eq!(recs.len(), 2);
    assert_eq!(recs[0].id, "VR001");
    assert_eq!(recs[1].id, "VR005");
}

#[test]
fn populate_recommendations_skips_info_only_issues() {
    let issues = vec![issue("VD012", Severity::Info, "x", None)];
    let recs = populate_recommendations(&issues);
    assert!(recs.is_empty());
}

#[test]
fn populate_recommendations_drops_unknown_ids() {
    let issues = vec![
        issue("VD999", Severity::Warn, "x", Some("VR999")),
        issue("VD002", Severity::Error, "y", Some("VR002")),
    ];
    let recs = populate_recommendations(&issues);
    assert_eq!(recs.len(), 1);
    assert_eq!(recs[0].id, "VR002");
}

#[test]
fn merge_ibus_fills_empty_fields_from_incoming() {
    let mut base = Some(IbusFacts {
        version: Some("1.5.29".to_owned()),
        daemon_running: true,
        daemon_pid: Some(2341),
        config_dir: None,
        registered_engines: vec![],
    });
    let incoming = IbusFacts {
        version: None,
        daemon_running: false,
        daemon_pid: None,
        config_dir: None,
        registered_engines: vec!["bamboo".to_owned(), "xkb:us::eng".to_owned()],
    };
    merge_ibus_facts(&mut base, Some(incoming));
    let ibus = base.expect("ibus merged");
    assert_eq!(ibus.version.as_deref(), Some("1.5.29"));
    assert!(ibus.daemon_running);
    assert_eq!(ibus.daemon_pid, Some(2341));
    assert_eq!(ibus.registered_engines, vec!["bamboo", "xkb:us::eng"]);
}

#[test]
fn merge_fcitx5_keeps_base_lists_when_incoming_is_empty() {
    let mut base = Some(Fcitx5Facts {
        version: None,
        daemon_running: false,
        daemon_pid: None,
        config_dir: Some("/home/alice/.config/fcitx5".to_owned()),
        addons_enabled: vec!["unicode".to_owned()],
        input_methods_configured: vec!["bamboo".to_owned()],
    });
    let incoming = Fcitx5Facts {
        version: Some("5.1.12".to_owned()),
        daemon_running: true,
        daemon_pid: Some(777),
        config_dir: None,
        addons_enabled: vec![],
        input_methods_configured: vec![],
    };
    merge_fcitx5_facts(&mut base, Some(incoming));
    let f = base.expect("fcitx5 merged");
    assert_eq!(f.version.as_deref(), Some("5.1.12"));
    assert!(f.daemon_running);
    assert_eq!(f.daemon_pid, Some(777));
    assert_eq!(f.addons_enabled, vec!["unicode"]);
    assert_eq!(f.input_methods_configured, vec!["bamboo"]);
    assert_eq!(f.config_dir.as_deref(), Some("/home/alice/.config/fcitx5"));
}

#[test]
fn merge_ibus_adopts_incoming_when_base_is_none() {
    let mut base: Option<IbusFacts> = None;
    let incoming = IbusFacts {
        version: Some("1.5.29".to_owned()),
        daemon_running: true,
        daemon_pid: Some(100),
        config_dir: None,
        registered_engines: vec!["bamboo".to_owned()],
    };
    merge_ibus_facts(&mut base, Some(incoming));
    let ibus = base.expect("ibus now set");
    assert_eq!(ibus.version.as_deref(), Some("1.5.29"));
    assert!(ibus.daemon_running);
    assert_eq!(ibus.registered_engines, vec!["bamboo"]);
}

#[test]
fn merge_with_no_incoming_report_changes_nothing() {
    let mut base = Some(ibus_facts(false, vec!["unikey".to_owned()]));
    merge_ibus_facts(&mut base, None);
    let ibus = base.expect("ibus kept");
    assert!(!ibus.daemon_running);
    assert_eq!(ibus.registered_engines, vec!["unikey"]);
    let mut none: Option<Fcitx5Facts> = None;
    merge_fcitx5_facts(&mut none, None);
    assert!(none.is_none());
}

#[test]
fn anomalies_sort_by_detector_keeping_ties_in_order() {
    let a = |d: &str, r: &str| Anomaly { detector: d.to_owned(), reason: r.to_owned() };
    let out = sort_anomalies(vec![
        a("sys.session", "x"),
        a("fake.slow", "timed out"),
        a("panic.me", "panicked"),
        a("fake.slow", "second"),
    ]);
    let got: Vec<(&str, &str)> = out.iter().map(|x| (x.detector.as_str(), x.reason.as_str())).collect();
    assert_eq!(
        got,
        vec![("fake.slow", "timed out"), ("fake.slow", "second"), ("panic.me", "panicked"), ("sys.session", "x")]
    );
}

#[test]
fn proc_scan_splits_cmdline_and_matches_binary() {
    let args = cmdline_args(b"/usr/share/code/code\0--ozone-platform=wayland\0\0x\0");
    assert_eq!(args, vec![b"/usr/share/code/code".to_vec(), b"--ozone-platform=wayland".to_vec(), b"x".to_vec()]);
    assert!(cmdline_args(b"").is_empty());
    assert!(cmdline_args(b"\0\0").is_empty());
    assert!(is_pid_dir("1234"));
    assert!(!is_pid_dir("self"));
    assert!(runs_binary("/usr/bin/code", "/usr/bin/code"));
    assert!(runs_binary("code", "/usr/bin/code"));
    assert!(runs_binary("/opt/x/code", "/usr/bin/code"));
    assert!(!runs_binary("/usr/bin/codex", "/usr/bin/code"));
    assert!(!runs_binary("anything", "/"));
}

fn app_row(id: &str, bin: &str, kind: AppKind) -> AppFacts {
    AppFacts {
        app_id: id.to_owned(),
        binary_path: bin.to_owned(),
        version: None,
        kind,
        electron_version: None,
        uses_wayland: None,
        detector_notes: vec![],
    }
}

#[test]
fn merge_keeps_earlier_value_when_later_is_none() {
    let mut base = PartialFacts::empty();
    base.session = Some(SessionType::Wayland);
    base.merge_from(PartialFacts::empty());
    assert_eq!(base.session, Some(SessionType::Wayland));
}

#[test]
fn merge_overwrites_when_later_is_some() {
    let mut base = PartialFacts::empty();
    base.session = Some(SessionType::X11);
    let mut later = PartialFacts::empty();
    later.session = Some(SessionType::Wayland);
    base.merge_from(later);
    assert_eq!(base.session, Some(SessionType::Wayland));
}

#[test]
fn merge_concatenates_apps() {
    let mut base = PartialFacts::empty();
    base.apps.push(app_row("vscode", "/usr/bin/code", AppKind::Electron));
    let mut later = PartialFacts::empty();
    later.apps = vec![app_row("chrome", "/usr/bin/google-chrome", AppKind::Chromium)];
    base.merge_from(later);
    assert_eq!(base.apps.len(), 2);
    assert_eq!(base.apps[0].app_id, "vscode");
    assert_eq!(base.apps[1].app_id, "chrome");
}

#[test]
fn merge_concatenates_engines() {
    let mut base = PartialFacts::empty();
    base.engines.push(EngineFact {
        name: "bamboo".to_owned(),
        package: None,
        version: None,
        framework: ImFramework::Ibus,
        is_vietnamese: true,
        is_registered: true,
    });
    let mut later = PartialFacts::empty();
    later.engines = vec![EngineFact {
        name: "unikey".to_owned(),
        package: Some("ibus-unikey".to_owned()),
        version: Some("0.6.1".to_owned()),
        framework: ImFramework::Ibus,
        is_vietnamese: true,
        is_registered: false,
    }];
    base.merge_from(later);
    assert_eq!(base.engines.len(), 2);
    assert_eq!(base.engines[0].name, "bamboo");
    assert_eq!(base.engines[1].name, "unikey");
}

#[test]
fn merge_takes_the_locale_a_later_detector_found() {
    let mut base = PartialFacts::empty();
    base.kernel = Some("6.8".to_owned());
    let mut later = PartialFacts::empty();
    later.locale = Some("vi_VN.UTF-8".to_owned());
    base.merge_from(later);
    assert_eq!(base.locale.as_deref(), Some("vi_VN.UTF-8"));
    assert_eq!(base.kernel.as_deref(), Some("6.8"));
    let mut ib = PartialFacts::empty();
    ib.ibus = Some(ibus_facts(true, vec!["bamboo".to_owned()]));
    base.merge_from(ib);
    assert!(base.ibus.as_ref().unwrap().daemon_running);
}
