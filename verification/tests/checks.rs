use vietime::checkers::{
    sort_issues, source_label, AppFacts, AppKind, EnvSetting, EnvSource, Issue, Severity, Vd002,
    Vd006, Vd007, Vd008, Vd009, Vd010, Vd011, Vd012, Vd013, Vd014, Vd015,
};
use vietime::cli::{exit_from_status, rollback_allowed, snapshot_header, snapshot_row};
use vietime::host::{distro_family, os_release_value, pre_state_from, session_of};
use vietime::model::{
    ActiveFramework, Combo, DistroFamily, Engine, Goal, ImFramework, Plan, PreState, SessionType,
    Step,
};
use vietime::snapshot::{newest_first, Artifact, Manifest, SnapshotHandle, SnapshotMeta};

fn app(app_id: &str, kind: AppKind, uses_wayland: Option<bool>) -> AppFacts {
    AppFacts {
        app_id: app_id.to_owned(),
        binary_path: format!("/usr/bin/{app_id}"),
        version: None,
        kind,
        electron_version: None,
        uses_wayland,
        detector_notes: vec![],
    }
}

#[test]
fn vd002_fires_on_conflict_with_pids() {
    let out = Vd002.check_daemons(ActiveFramework::Conflict, Some(Some(111)), Some(Some(222)));
    assert_eq!(out.len(), 1);
    assert_eq!(out[0].id, "VD002");
    assert_eq!(out[0].severity, Severity::Error);
    assert_eq!(out[0].recommendation.as_deref(), Some("VR002"));
    assert_eq!(out[0].facts_evidence, vec!["ibus-daemon: running (pid 111)", "fcitx5: running (pid 222)"]);
    let no_pid = Vd002.check_daemons(ActiveFramework::Conflict, Some(None), None);
    assert_eq!(no_pid[0].facts_evidence, vec!["ibus-daemon: running"]);
    for active in [ActiveFramework::Ibus, ActiveFramework::Fcitx5, ActiveFramework::NoFramework] {
        assert!(Vd002.check_daemons(active, None, None).is_empty());
    }
}

#[test]
fn vd006_only_for_ibus_on_wayland() {
    assert_eq!(Vd006.check_session(Some(SessionType::Wayland), ActiveFramework::Ibus).len(), 1);
    assert!(Vd006.check_session(Some(SessionType::Wayland), ActiveFramework::Fcitx5).is_empty());
    assert!(Vd006.check_session(Some(SessionType::X11), ActiveFramework::Ibus).is_empty());
}

#[test]
fn vd007_per_electron_app_without_ozone() {
    let mut a = app("vscode", AppKind::Electron, Some(false));
    a.electron_version = Some("28.1.0".to_owned());
    let apps = vec![
        a,
        app("slack", AppKind::Electron, Some(true)),
        app("chrome", AppKind::Chromium, Some(false)),
        app("gedit", AppKind::Native, Some(false)),
        app("obsidian", AppKind::Electron, None),
    ];
    let out = Vd007.check_apps(&apps);
    assert_eq!(out.len(), 2);
    assert_eq!(out[0].title, "vscode (Electron 28.1.0) is missing Wayland Ozone flags");
    assert_eq!(out[1].title, "chrome is missing Wayland Ozone flags");
    assert_eq!(out[0].severity, Severity::Error);
}

#[test]
fn vd008_chrome_on_wayland_only() {
    let apps = vec![app("chrome", AppKind::Chromium, Some(false)), app("vscode", AppKind::Electron, Some(false))];
    let out = Vd008.check_apps(Some(SessionType::Wayland), &apps);
    assert_eq!(out.len(), 1);
    assert_eq!(out[0].facts_evidence[1], "chrome: --ozone-platform=wayland not set");
    assert!(Vd008.check_apps(Some(SessionType::X11), &apps).is_empty());
}

#[test]
fn vd010_vscode_snap() {
    let apps = vec![
        app("vscode", AppKind::Snap { name: "code".to_owned() }, None),
        app("chrome", AppKind::Snap { name: "chromium".to_owned() }, None),
        app("code", AppKind::Flatpak { sandbox_id: "com.visualstudio.code".to_owned() }, None),
    ];
    let out = Vd010.check_apps(&apps);
    assert_eq!(out.len(), 1);
    assert_eq!(out[0].facts_evidence, vec!["vscode: Snap package `code`", "binary: /usr/bin/vscode"]);
}

#[test]
fn vd011_flatpak_without_portal_hint() {
    let mut hinted = app("firefox", AppKind::Flatpak { sandbox_id: "org.mozilla.firefox".to_owned() }, None);
    hinted.detector_notes = vec!["GTK_IM_MODULE=ibus is exported in sandbox".to_owned()];
    let bare = app("gimp", AppKind::Flatpak { sandbox_id: "org.gimp.GIMP".to_owned() }, None);
    let out = Vd011.check_apps(&[hinted, bare, app("gedit", AppKind::Native, None)]);
    assert_eq!(out.len(), 1);
    assert_eq!(out[0].title, "Flatpak app `gimp` may not have access to the IM socket");
    assert_eq!(out[0].recommendation.as_deref(), Some("VR011"));
}

#[test]
fn vd012_vd014_vd015() {
    assert_eq!(Vd012.check_input_method(None).len(), 1);
    assert!(Vd012.check_input_method(Some("ibus")).is_empty());
    assert!(Vd014.check_locale(Some("en_US.UTF-8")).is_empty());
    let c = Vd014.check_locale(Some("C"));
    assert_eq!(c[0].facts_evidence, vec!["locale: C", "effective locale is not a UTF-8 one"]);
    let unset = Vd014.check_locale(None);
    assert_eq!(unset[0].facts_evidence, vec!["locale: (unset)", "no LC_ALL / LC_CTYPE / LANG set"]);
    let none = Vd015.check_engines(&[false, false]);
    assert_eq!(none[0].facts_evidence, vec!["engines observed: 2"]);
    assert_eq!(none[0].severity, Severity::Info);
    assert!(Vd015.check_engines(&[false, true]).is_empty());
}

fn mk_issue(id: &str, sev: Severity) -> Issue {
    Issue {
        id: id.to_owned(),
        severity: sev,
        title: id.to_owned(),
        detail: String::new(),
        facts_evidence: vec![],
        recommendation: None,
    }
}

#[test]
fn issues_sort_by_severity_desc_then_id_asc() {
    let issues = vec![
        mk_issue("VD012", Severity::Info),
        mk_issue("VD003", Severity::Error),
        mk_issue("VD001", Severity::Critical),
        mk_issue("VD004", Severity::Warn),
        mk_issue("VD002", Severity::Error),
    ];
    let ids: Vec<String> = sort_issues(issues).into_iter().map(|i| i.id).collect();
    assert_eq!(ids, vec!["VD001", "VD002", "VD003", "VD004", "VD012"]);
}

#[test]
fn exit_codes_and_rollback_gate() {
    assert_eq!(exit_from_status(Some(0)), 0);
    assert_eq!(exit_from_status(Some(2)), 2);
    assert_eq!(exit_from_status(Some(-1)), 70);
    assert_eq!(exit_from_status(Some(300)), 70);
    assert_eq!(exit_from_status(None), 70);
    assert!(rollback_allowed(false, false));
    assert!(!rollback_allowed(true, false));
    assert!(rollback_allowed(true, true));
}

#[test]
fn snapshot_table_rows() {
    assert_eq!(snapshot_header(), format!("{:<24} {:<12} goal", "id", "complete"));
    assert_eq!(
        snapshot_row("2026-04-26T12-34-56Z", true, "install fcitx5-bamboo"),
        format!("{:<24} {:<12} {}", "2026-04-26T12-34-56Z", "incomplete", "install fcitx5-bamboo")
    );
    let long = "x".repeat(30);
    assert_eq!(snapshot_row(&long, false, "g"), format!("{:<24} {:<12} {}", long, "ok", "g"));
}

#[test]
fn host_reading() {
    let text = "NAME=\"Ubuntu\"\nID=ubuntu\nID_LIKE=debian\nVERSION_ID=\"24.04\"\nPRETTY_NAME=\"Ubuntu 24.04 LTS\"\n";
    assert_eq!(os_release_value(text, "ID").as_deref(), Some("ubuntu"));
    assert_eq!(os_release_value(text, "VERSION_ID").as_deref(), Some("24.04"));
    assert_eq!(os_release_value(text, "MISSING"), None);
    let pre = pre_state_from(text, Some("wayland"));
    assert_eq!(pre.distro.family, DistroFamily::Debian);
    assert_eq!(pre.session, SessionType::Wayland);
    assert_eq!(pre.distro.pretty.as_deref(), Some("Ubuntu 24.04 LTS"));
    assert_eq!(distro_family("fedora", &vec![]), DistroFamily::Redhat);
    assert_eq!(distro_family("endeavouros", &vec!["arch".to_owned()]), DistroFamily::Arch);
    assert_eq!(distro_family("plan9", &vec![]), DistroFamily::Unknown);
    assert_eq!(session_of(None), SessionType::Unknown);
    assert_eq!(session_of(Some("x11")), SessionType::X11);
}

#[test]
fn manifest_and_handle() {
    let plan = Plan::new_skeleton(
        Goal::Install { combo: Combo::new(ImFramework::Fcitx5, Engine::Bamboo) },
        PreState::fixture_ubuntu_24_04(),
    );
    let m = Manifest::new(plan, "snap-1".to_owned());
    assert!(m.incomplete);
    assert_eq!(m.goal_summary(), "install fcitx5-bamboo");
    let mut h = SnapshotHandle::from_parts("/tmp/snap-1".to_owned(), m);
    h.record(Artifact::VerifyOk { step_index: 0, summary: "ok".to_owned() });
    assert_eq!(h.manifest().artifacts.len(), 1);
    assert!(h.find_step(0).is_none());
    h.mark_complete();
    assert!(!h.manifest().incomplete);
    assert_eq!(h.id(), "snap-1");

    let mut p2 = Plan::new_skeleton(
        Goal::Switch {
            from: Combo::new(ImFramework::Ibus, Engine::Unikey),
            to: Combo::new(ImFramework::Fcitx5, Engine::Bamboo),
        },
        PreState::fixture_fedora_40(),
    );
    p2.steps.push(Step::RunImConfig { mode: "fcitx5".to_owned() });
    let m2 = Manifest::new(p2, "s2".to_owned());
    assert_eq!(m2.goal_summary(), "switch ibus-unikey → fcitx5-bamboo");
    let h2 = SnapshotHandle::from_parts("/d".to_owned(), m2);
    assert!(matches!(h2.find_step(0), Some(Step::RunImConfig { .. })));
    let m3 = Manifest::new(
        Plan::new_skeleton(Goal::Uninstall { snapshot_id: Some("abc".to_owned()) }, PreState::fixture_fedora_40()),
        "s3".to_owned(),
    );
    assert_eq!(m3.goal_summary(), "uninstall (of abc)");
}

fn setting(value: Option<&str>, source: Option<EnvSource>) -> EnvSetting {
    EnvSetting { value: value.map(|v| v.to_owned()), source }
}

#[test]
fn fires_on_two_sources_with_disagreement() {
    // GTK from /etc/environment says fcitx, QT from the process says ibus.
    let gtk = setting(Some("fcitx"), Some(EnvSource::EtcEnvironment));
    let qt = setting(Some("ibus"), Some(EnvSource::Process));
    let xm = setting(None, None);
    let out = Vd009::new().check_env(true, &gtk, &qt, &xm);
    assert_eq!(out.len(), 1);
    assert_eq!(out[0].severity, Severity::Warn);
    assert_eq!(out[0].recommendation.as_deref(), Some("VR009"));
    assert_eq!(
        out[0].facts_evidence,
        vec!["GTK_IM_MODULE=fcitx (from /etc/environment)", "QT_IM_MODULE=ibus (from process env)"]
    );
}

#[test]
fn silent_when_single_source() {
    let gtk = setting(Some("ibus"), Some(EnvSource::EtcEnvironment));
    let qt = setting(Some("fcitx"), Some(EnvSource::EtcEnvironment));
    let xm = setting(None, None);
    assert!(Vd009::new().check_env(true, &gtk, &qt, &xm).is_empty());
}

#[test]
fn silent_when_aligned_even_across_sources() {
    let gtk = setting(Some("ibus"), Some(EnvSource::Process));
    let qt = setting(Some("ibus"), Some(EnvSource::EtcEnvironment));
    let xm = setting(None, None);
    assert!(Vd009::new().check_env(false, &gtk, &qt, &xm).is_empty());
}

#[test]
fn silent_when_no_im_vars() {
    let none = setting(None, None);
    assert!(Vd009::new().check_env(false, &none, &none, &none).is_empty());
}

#[test]
fn vd009_ignores_unknown_sources() {
    let gtk = setting(Some("fcitx"), Some(EnvSource::Unknown));
    let qt = setting(Some("ibus"), Some(EnvSource::Process));
    let xm = setting(Some("@im=ibus"), Some(EnvSource::Process));
    assert!(Vd009::new().check_env(true, &gtk, &qt, &xm).is_empty());
    let gtk = setting(Some("fcitx"), Some(EnvSource::HomeProfile));
    let out = Vd009::new().check_env(true, &gtk, &qt, &xm);
    assert_eq!(out.len(), 1);
    assert_eq!(out[0].facts_evidence.len(), 3);
    assert_eq!(out[0].facts_evidence[2], "XMODIFIERS=@im=ibus (from process env)");
    assert_eq!(source_label(EnvSource::SystemdUserEnv), "systemd --user");
}

#[test]
fn sort_keeps_tied_issues_in_found_order() {
    let mut a = mk_issue("VD005", Severity::Warn);
    a.title = "bamboo".to_owned();
    let mut b = mk_issue("VD005", Severity::Warn);
    b.title = "unikey".to_owned();
    let c = mk_issue("VD002", Severity::Error);
    let sorted = sort_issues(vec![a, c, b]);
    let titles: Vec<String> = sorted.iter().map(|i| i.title.clone()).collect();
    assert_eq!(sorted[0].id, "VD002");
    assert_eq!(titles[1..], ["bamboo".to_owned(), "unikey".to_owned()]);
}

#[test]
fn snapshot_listing_is_newest_first_and_stable() {
    let row = |id: &str, t: i64| SnapshotMeta { id: id.to_owned(), created_at: t, goal: "g".to_owned(), incomplete: false };
    let out = newest_first(vec![row("a", 10), row("b", 30), row("c", 10), row("d", 20)]);
    let ids: Vec<&str> = out.iter().map(|m| m.id.as_str()).collect();
    assert_eq!(ids, vec!["b", "d", "a", "c"]);
    assert!(newest_first(vec![]).is_empty());
}

fn addons(list: &[&str]) -> Vec<String> {
    list.iter().map(|s| (*s).to_owned()).collect()
}

#[test]
fn fires_on_wayland_without_wayland_im() {
    let a = addons(&["unicode"]);
    let out = Vd013::new().check_addons(ActiveFramework::Fcitx5, Some(&a), Some(SessionType::Wayland));
    assert_eq!(out.len(), 1);
    assert_eq!(out[0].recommendation.as_deref(), Some("VR013"));
    assert_eq!(out[0].title, "Fcitx5 is active but the `wayland-im` addon is not enabled");
    assert_eq!(out[0].facts_evidence, vec!["session: wayland", "addons_enabled: [unicode]"]);
    assert!(out[0].detail.starts_with("The Wayland session requires the `wayland-im` addon"));
}

#[test]
fn silent_on_wayland_with_wayland_im() {
    let a = addons(&["wayland-im", "unicode"]);
    assert!(Vd013::new().check_addons(ActiveFramework::Fcitx5, Some(&a), Some(SessionType::Wayland)).is_empty());
}

#[test]
fn accepts_case_insensitive_addon_name() {
    let a = addons(&["WaylandIM"]);
    assert!(Vd013::new().check_addons(ActiveFramework::Fcitx5, Some(&a), Some(SessionType::Wayland)).is_empty());
}

#[test]
fn fires_on_x11_without_xim() {
    let a = addons(&["unicode", "clipboard"]);
    let out = Vd013::new().check_addons(ActiveFramework::Fcitx5, Some(&a), Some(SessionType::X11));
    assert_eq!(out.len(), 1);
    assert_eq!(out[0].facts_evidence[1], "addons_enabled: [unicode, clipboard]");
}

#[test]
fn silent_when_active_is_ibus() {
    let a = addons(&[]);
    assert!(Vd013::new().check_addons(ActiveFramework::Ibus, Some(&a), Some(SessionType::Wayland)).is_empty());
}

#[test]
fn silent_on_tty_session() {
    let a = addons(&[]);
    assert!(Vd013::new().check_addons(ActiveFramework::Fcitx5, Some(&a), Some(SessionType::Tty)).is_empty());
    assert!(Vd013::new().check_addons(ActiveFramework::Fcitx5, None, Some(SessionType::X11)).is_empty());
    assert!(Vd013::new().check_addons(ActiveFramework::Fcitx5, Some(&a), None).is_empty());
}
