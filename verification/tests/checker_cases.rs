use vietime::checkers::{
    list_all, AppFacts, AppKind, Severity, Vd001, Vd002, Vd003, Vd004, Vd005, Vd006, Vd007, Vd008, Vd010, Vd011, Vd012, Vd014, Vd015,
};
use vietime::model::{ActiveFramework, ImFramework, SessionType};
use vietime::reconcile::EngineFact;
use vietime::recommendations::all as all_recommendations;

fn app_at(dir: &str, app_id: &str, kind: AppKind, uses_wayland: Option<bool>, notes: Vec<String>) -> AppFacts {
    AppFacts {
        app_id: app_id.to_owned(),
        binary_path: format!("{dir}/{app_id}"),
        version: None,
        kind,
        electron_version: None,
        uses_wayland,
        detector_notes: notes,
    }
}

fn bin_app(app_id: &str, kind: AppKind, uses_wayland: Option<bool>) -> AppFacts {
    app_at("/usr/bin", app_id, kind, uses_wayland, vec![])
}

// ---------------------------------------------------------------- VD002

#[test]
fn fires_on_conflict() {
    let out = Vd002::new().check_daemons(ActiveFramework::Conflict, Some(Some(111)), Some(Some(222)));
    assert_eq!(out.len(), 1);
    assert_eq!(out[0].id, "VD002");
    assert_eq!(out[0].severity, Severity::Error);
    assert_eq!(out[0].recommendation.as_deref(), Some("VR002"));
    let joined = out[0].facts_evidence.join("\n");
    assert!(joined.contains("pid 111"));
    assert!(joined.contains("pid 222"));
}

#[test]
fn silent_on_single_daemon() {
    for active in [ActiveFramework::Ibus, ActiveFramework::Fcitx5, ActiveFramework::NoFramework] {
        assert!(Vd002::new().check_daemons(active, None, None).is_empty(), "VD002 must not fire for {active:?}");
    }
}

#[test]
fn evidence_survives_missing_pids() {
    let out = Vd002::new().check_daemons(ActiveFramework::Conflict, Some(None), Some(None));
    assert_eq!(out.len(), 1);
    let joined = out[0].facts_evidence.join("\n");
    assert!(joined.contains("ibus-daemon: running"));
    assert!(joined.contains("fcitx5: running"));
    assert!(!joined.contains("pid"));
}

// ---------------------------------------------------------------- VD006

#[test]
fn fires_on_wayland_plus_ibus() {
    let out = Vd006::new().check_session(Some(SessionType::Wayland), ActiveFramework::Ibus);
    assert_eq!(out.len(), 1);
    assert_eq!(out[0].severity, Severity::Warn);
    assert_eq!(out[0].recommendation.as_deref(), Some("VR006"));
}

#[test]
fn silent_on_wayland_plus_fcitx5() {
    assert!(Vd006::new().check_session(Some(SessionType::Wayland), ActiveFramework::Fcitx5).is_empty());
}

#[test]
fn silent_on_x11_plus_ibus() {
    assert!(Vd006::new().check_session(Some(SessionType::X11), ActiveFramework::Ibus).is_empty());
}

// ---------------------------------------------------------------- VD007

#[test]
fn fires_when_electron_explicitly_not_ozone() {
    let out = Vd007::new().check_apps(&[bin_app("vscode", AppKind::Electron, Some(false))]);
    assert_eq!(out.len(), 1);
    assert_eq!(out[0].severity, Severity::Error);
    assert_eq!(out[0].recommendation.as_deref(), Some("VR007"));
    assert!(out[0].title.contains("vscode"));
}

#[test]
fn silent_when_uses_wayland_is_true() {
    assert!(Vd007::new().check_apps(&[bin_app("vscode", AppKind::Electron, Some(true))]).is_empty());
}

#[test]
fn silent_when_uses_wayland_is_none() {
    assert!(Vd007::new().check_apps(&[bin_app("vscode", AppKind::Electron, None)]).is_empty());
}

#[test]
fn silent_for_native_kind() {
    assert!(Vd007::new().check_apps(&[bin_app("firefox", AppKind::Native, Some(false))]).is_empty());
}

#[test]
fn fires_once_per_matching_electron_app() {
    let out = Vd007::new().check_apps(&[
        bin_app("vscode", AppKind::Electron, Some(false)),
        bin_app("slack", AppKind::Electron, Some(false)),
    ]);
    assert_eq!(out.len(), 2);
    let titles: Vec<&str> = out.iter().map(|i| i.title.as_str()).collect();
    assert!(titles.iter().any(|t| t.contains("vscode")));
    assert!(titles.iter().any(|t| t.contains("slack")));
}

// ---------------------------------------------------------------- VD008

#[test]
fn fires_on_chrome_chromium_wayland_not_ozone() {
    let out = Vd008::new().check_apps(Some(SessionType::Wayland), &[bin_app("chrome", AppKind::Chromium, Some(false))]);
    assert_eq!(out.len(), 1);
    assert_eq!(out[0].recommendation.as_deref(), Some("VR008"));
}

#[test]
fn silent_on_x11_session() {
    assert!(Vd008::new().check_apps(Some(SessionType::X11), &[bin_app("chrome", AppKind::Chromium, Some(false))]).is_empty());
}

#[test]
fn silent_when_ozone_flag_set() {
    assert!(Vd008::new().check_apps(Some(SessionType::Wayland), &[bin_app("chrome", AppKind::Chromium, Some(true))]).is_empty());
}

#[test]
fn silent_for_non_chrome_apps() {
    assert!(Vd008::new().check_apps(Some(SessionType::Wayland), &[bin_app("vscode", AppKind::Electron, Some(false))]).is_empty());
}

// ---------------------------------------------------------------- VD010

fn snap_app(app_id: &str, kind: AppKind) -> AppFacts {
    app_at("/snap/bin", app_id, kind, None, vec![])
}

#[test]
fn fires_when_vscode_is_snap() {
    let out = Vd010::new().check_apps(&[snap_app("vscode", AppKind::Snap { name: "code".to_owned() })]);
    assert_eq!(out.len(), 1);
    assert_eq!(out[0].severity, Severity::Warn);
    assert_eq!(out[0].recommendation.as_deref(), Some("VR010"));
}

#[test]
fn silent_when_vscode_is_native_deb() {
    assert!(Vd010::new().check_apps(&[snap_app("vscode", AppKind::Electron)]).is_empty());
}

#[test]
fn silent_when_vscode_is_flatpak() {
    let a = snap_app("vscode", AppKind::Flatpak { sandbox_id: "com.visualstudio.code".to_owned() });
    assert!(Vd010::new().check_apps(&[a]).is_empty());
}

#[test]
fn silent_when_app_is_not_vscode() {
    assert!(Vd010::new().check_apps(&[snap_app("chrome", AppKind::Snap { name: "chromium".to_owned() })]).is_empty());
}

// ---------------------------------------------------------------- VD011

fn flatpak_app(app_id: &str, kind: AppKind, notes: Vec<String>) -> AppFacts {
    app_at("/var/lib/flatpak/app", app_id, kind, None, notes)
}

#[test]
fn fires_on_flatpak_without_im_hint() {
    let a = flatpak_app(
        "firefox",
        AppKind::Flatpak { sandbox_id: "org.mozilla.firefox".to_owned() },
        vec!["wayland scale 1.0".to_owned()],
    );
    let out = Vd011::new().check_apps(&[a]);
    assert_eq!(out.len(), 1);
    assert_eq!(out[0].recommendation.as_deref(), Some("VR011"));
}

#[test]
fn silent_when_notes_mention_ibus() {
    let a = flatpak_app(
        "firefox",
        AppKind::Flatpak { sandbox_id: "org.mozilla.firefox".to_owned() },
        vec!["GTK_IM_MODULE=ibus is exported in sandbox".to_owned()],
    );
    assert!(Vd011::new().check_apps(&[a]).is_empty());
}

#[test]
fn silent_for_native_apps() {
    assert!(Vd011::new().check_apps(&[flatpak_app("firefox", AppKind::Native, vec![])]).is_empty());
}

#[test]
fn silent_when_no_apps() {
    assert!(Vd011::new().check_apps(&[]).is_empty());
}

// ---------------------------------------------------------------- VD012

#[test]
fn fires_when_input_method_unset() {
    let out = Vd012::new().check_input_method(None);
    assert_eq!(out.len(), 1);
    assert_eq!(out[0].severity, Severity::Info);
    assert!(out[0].recommendation.is_none());
}

#[test]
fn silent_when_input_method_set() {
    assert!(Vd012::new().check_input_method(Some("ibus")).is_empty());
}

// ---------------------------------------------------------------- VD014

#[test]
fn silent_on_en_us_utf_8() {
    assert!(Vd014::new().check_locale(Some("en_US.UTF-8")).is_empty());
}

#[test]
fn silent_on_vi_vn_utf8_no_dash() {
    assert!(Vd014::new().check_locale(Some("vi_VN.utf8")).is_empty());
}

#[test]
fn fires_on_c_locale() {
    let out = Vd014::new().check_locale(Some("C"));
    assert_eq!(out.len(), 1);
    assert_eq!(out[0].recommendation.as_deref(), Some("VR014"));
}

#[test]
fn fires_on_posix_locale() {
    assert_eq!(Vd014::new().check_locale(Some("POSIX")).len(), 1);
}

#[test]
fn fires_on_iso_latin1_locale() {
    assert_eq!(Vd014::new().check_locale(Some("en_US.ISO-8859-1")).len(), 1);
}

#[test]
fn fires_on_unset_locale() {
    let out = Vd014::new().check_locale(None);
    assert_eq!(out.len(), 1);
    assert!(out[0].facts_evidence.iter().any(|e| e.contains("unset")));
}

// ---------------------------------------------------------------- VD015

#[test]
fn fires_when_no_engines() {
    let out = Vd015::new().check_engines(&[]);
    assert_eq!(out.len(), 1);
    assert_eq!(out[0].severity, Severity::Info);
    assert!(out[0].recommendation.is_none());
}

#[test]
fn fires_when_only_non_vietnamese_engines() {
    assert_eq!(Vd015::new().check_engines(&[false, false]).len(), 1);
}

#[test]
fn silent_when_vietnamese_engine_present() {
    assert!(Vd015::new().check_engines(&[true]).is_empty());
}

// ---------------------------------------------------------------- registry

#[test]
fn list_all_returns_fifteen_checkers() {
    let all = list_all();
    assert_eq!(all.len(), 15, "Phase-1 ships exactly 15 checkers");
}

#[test]
fn list_all_ids_match_phase1_catalogue() {
    let got: Vec<&'static str> = list_all().iter().map(|c| c.id()).collect();
    assert_eq!(
        got,
        vec![
            "VD001", "VD002", "VD003", "VD004", "VD005", "VD006", "VD007", "VD008", "VD009",
            "VD010", "VD011", "VD012", "VD013", "VD014", "VD015",
        ]
    );
}

#[test]
fn every_listed_checker_has_a_matching_recommendation_or_is_info() {
    let fixes: std::collections::HashSet<&'static str> = [
        "VR001", "VR002", "VR003", "VR004", "VR005", "VR006", "VR007", "VR008", "VR009",
        "VR010", "VR011", "VR013", "VR014",
    ]
    .into_iter()
    .collect();
    for r in all_recommendations() {
        assert!(fixes.contains(r.id.as_str()), "unexpected VR id in catalogue: {}", r.id);
    }
}

// ---------------------------------------------------------------- VD001

fn vn_engine() -> EngineFact {
    EngineFact {
        name: "bamboo".to_owned(),
        package: Some("ibus-bamboo".to_owned()),
        version: None,
        framework: ImFramework::Ibus,
        is_vietnamese: true,
        is_registered: false,
    }
}

#[test]
fn fires_when_no_daemon_and_vn_engine_installed() {
    let out = Vd001::new().check_engines(ActiveFramework::NoFramework, &vec![vn_engine()]);
    assert_eq!(out.len(), 1);
    assert_eq!(out[0].id, "VD001");
    assert_eq!(out[0].severity, Severity::Critical);
    assert_eq!(out[0].recommendation.as_deref(), Some("VR001"));
    assert!(out[0].facts_evidence.iter().any(|e| e.contains("ibus-daemon")));
    assert!(out[0].facts_evidence.iter().any(|e| e.contains("bamboo")));
}

#[test]
fn silent_when_a_daemon_is_up() {
    for active in [ActiveFramework::Ibus, ActiveFramework::Fcitx5, ActiveFramework::Conflict] {
        assert!(Vd001::new().check_engines(active, &vec![vn_engine()]).is_empty(), "VD001 must not fire for {active:?}");
    }
}

#[test]
fn silent_when_no_vn_engine_even_without_daemon() {
    let e = EngineFact {
        name: "xkb:us::eng".to_owned(),
        package: None,
        version: None,
        framework: ImFramework::Ibus,
        is_vietnamese: false,
        is_registered: true,
    };
    assert!(Vd001::new().check_engines(ActiveFramework::NoFramework, &vec![e]).is_empty());
}

#[test]
fn evidence_names_engine_framework() {
    let e = EngineFact { framework: ImFramework::Fcitx5, ..vn_engine() };
    let out = Vd001::new().check_engines(ActiveFramework::NoFramework, &vec![e]);
    let joined = out[0].facts_evidence.join("\n");
    assert!(joined.contains("Fcitx5"), "evidence should cite framework display name: {joined}");
}

// ---------------------------------------------------------------- VD004

#[test]
fn fires_when_framework_active_and_sdl_unset() {
    let out = Vd004::new().check_sdl(ActiveFramework::Fcitx5, false);
    assert_eq!(out.len(), 1);
    assert_eq!(out[0].severity, Severity::Warn);
    assert_eq!(out[0].recommendation.as_deref(), Some("VR004"));
    assert!(out[0].detail.contains("`fcitx`"));
}

#[test]
fn silent_when_sdl_set() {
    assert!(Vd004::new().check_sdl(ActiveFramework::Ibus, true).is_empty());
}

#[test]
fn silent_when_no_framework_active() {
    assert!(Vd004::new().check_sdl(ActiveFramework::NoFramework, false).is_empty());
}

#[test]
fn silent_on_conflict() {
    assert!(Vd004::new().check_sdl(ActiveFramework::Conflict, false).is_empty());
}

// ---------------------------------------------------------------- VD005

fn engine(name: &str, package: Option<&str>, vn: bool, registered: bool, framework: ImFramework) -> EngineFact {
    EngineFact {
        name: name.to_owned(),
        package: package.map(|p| p.to_owned()),
        version: None,
        framework,
        is_vietnamese: vn,
        is_registered: registered,
    }
}

#[test]
fn fires_for_installed_unregistered_vn_engine() {
    let out = Vd005::new().check_engines(&vec![engine("bamboo", Some("ibus-bamboo"), true, false, ImFramework::Ibus)]);
    assert_eq!(out.len(), 1);
    assert_eq!(out[0].severity, Severity::Warn);
    assert_eq!(out[0].recommendation.as_deref(), Some("VR005"));
    assert!(out[0].title.contains("bamboo"));
}

#[test]
fn silent_when_registered() {
    assert!(Vd005::new().check_engines(&vec![engine("bamboo", Some("ibus-bamboo"), true, true, ImFramework::Ibus)]).is_empty());
}

#[test]
fn silent_for_non_vietnamese_engine() {
    assert!(Vd005::new().check_engines(&vec![engine("pinyin", Some("ibus-pinyin"), false, false, ImFramework::Ibus)]).is_empty());
}

#[test]
fn silent_when_no_package_origin_known() {
    assert!(Vd005::new().check_engines(&vec![engine("bamboo", None, true, false, ImFramework::Ibus)]).is_empty());
}

#[test]
fn multiple_engines_produce_multiple_issues() {
    let out = Vd005::new().check_engines(&vec![
        engine("bamboo", Some("ibus-bamboo"), true, false, ImFramework::Ibus),
        engine("unikey", Some("ibus-unikey"), true, false, ImFramework::Ibus),
    ]);
    assert_eq!(out.len(), 2);
    let titles: Vec<&str> = out.iter().map(|i| i.title.as_str()).collect();
    assert!(titles.iter().any(|t| t.contains("bamboo")));
    assert!(titles.iter().any(|t| t.contains("unikey")));
}

// ---------------------------------------------------------------- VD003

fn vars(pairs: &[(&str, &str)]) -> Vec<(String, String)> {
    pairs.iter().map(|(k, v)| ((*k).to_owned(), (*v).to_owned())).collect()
}

#[test]
fn fires_when_gtk_and_qt_disagree() {
    let v = vars(&[("GTK_IM_MODULE", "ibus"), ("QT_IM_MODULE", "fcitx"), ("XMODIFIERS", "@im=ibus")]);
    let named = vec![ImFramework::Ibus, ImFramework::Fcitx5, ImFramework::Ibus];
    let out = Vd003::new().check_env(ActiveFramework::NoFramework, &named, true, &v);
    assert_eq!(out.len(), 1);
    assert_eq!(out[0].severity, Severity::Error);
    assert_eq!(out[0].recommendation.as_deref(), Some("VR003"));
    let ev = out[0].facts_evidence.join("\n");
    assert!(ev.contains("GTK_IM_MODULE=ibus"));
    assert!(ev.contains("QT_IM_MODULE=fcitx"));
    assert_eq!(out[0].title, "IM environment variables disagree");
}

#[test]
fn fires_when_env_agrees_but_differs_from_active() {
    let v = vars(&[("GTK_IM_MODULE", "ibus"), ("QT_IM_MODULE", "ibus"), ("XMODIFIERS", "@im=ibus")]);
    let named = vec![ImFramework::Ibus, ImFramework::Ibus, ImFramework::Ibus];
    let out = Vd003::new().check_env(ActiveFramework::Fcitx5, &named, false, &v);
    assert_eq!(out.len(), 1);
    assert!(out[0].detail.contains("Fcitx5"));
    assert_eq!(out[0].facts_evidence.last().map(String::as_str), Some("active framework: Fcitx5"));
}

#[test]
fn silent_when_env_unset() {
    assert!(Vd003::new().check_env(ActiveFramework::NoFramework, &vec![], false, &vec![]).is_empty());
}

#[test]
fn silent_when_env_matches_active() {
    let v = vars(&[("GTK_IM_MODULE", "ibus"), ("QT_IM_MODULE", "ibus"), ("XMODIFIERS", "@im=ibus")]);
    let named = vec![ImFramework::Ibus, ImFramework::Ibus, ImFramework::Ibus];
    assert!(Vd003::new().check_env(ActiveFramework::Ibus, &named, false, &v).is_empty());
}

#[test]
fn silent_when_env_set_but_active_is_none() {
    let v = vars(&[("GTK_IM_MODULE", "fcitx"), ("QT_IM_MODULE", "fcitx"), ("XMODIFIERS", "@im=fcitx")]);
    let named = vec![ImFramework::Fcitx5, ImFramework::Fcitx5, ImFramework::Fcitx5];
    assert!(Vd003::new().check_env(ActiveFramework::NoFramework, &named, false, &v).is_empty());
}
