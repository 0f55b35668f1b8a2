use vietime::checkers::{has_im_portal_hint, is_utf8, Vd001, Vd003, Vd015};
use vietime::detectors::{
    merge_first_wins, resolve_home_subdir, select_sorted, DesktopDetector, ElectronAppDetector,
    EtcEnvironmentDetector, EtcProfileDDetector, Fcitx5ConfigDetector, Fcitx5DaemonDetector,
    GenericAppDetector, HomeProfileDetector, IbusDaemonDetector, IbusEnginesDetector,
    LocaleDetector, PackageEnginesDetector, ProcessEnvDetector, SessionDetector,
    SystemdEnvDetector,
};
use vietime::electron::{derive_uses_wayland, find_version_after_tag, is_ozone_wayland_flag};
use vietime::fcitx5_config::{addon_is_enabled, parse_profile_imes};
use vietime::ibus_engines::parse_engine_ids;
use vietime::recommendations::{all, lookup};
use vietime::checkers::{EnvSetting, EnvSource, Severity};
use vietime::daemons::{Fcitx5Facts, IbusFacts};
use vietime::model::ActiveFramework;
use vietime::reconcile::EngineFact;
use vietime::render::{
    build_env_rows, build_im, env_source_label, severity_badge, strip_atx_heading,
    strip_inline_ticks, strip_markdown, RenderOptions,
};
use vietime::resolve::{parse_first_pid, parse_ibus_version, parse_version_token};
use vietime::runtime::TokioCommandRunner;

#[test]
fn parse_version_picks_first_dotted_number() {
    assert_eq!(parse_version_token("1.87.2\nabcdef\nx64\n").as_deref(), Some("1.87.2"));
    assert_eq!(
        parse_version_token("Google Chrome 128.0.6613.119\n").as_deref(),
        Some("128.0.6613.119")
    );
    assert_eq!(parse_version_token("Mozilla Firefox 126.0\n").as_deref(), Some("126.0"));
}

#[test]
fn parse_version_returns_none_on_empty_or_alpha_output() {
    assert!(parse_version_token("").is_none());
    assert!(parse_version_token("unknown version\nno numbers here\n").is_none());
    // Integer-only tokens are not versions.
    assert!(parse_version_token("build 12345\n").is_none());
}

fn scan_electron_version_blocking_from(bytes: &[u8]) -> Option<String> {
    find_version_after_tag(bytes, b"Electron/").or_else(|| find_version_after_tag(bytes, b"Chrome/"))
}

#[test]
fn version_scanner_prefers_electron_over_chrome() {
    let hay = b"Electron/1.2.3\0Chrome/4.5.6\0";
    assert_eq!(scan_electron_version_blocking_from(hay).as_deref(), Some("1.2.3"));
}

#[test]
fn version_scanner_falls_back_to_chrome() {
    let hay = b"Chrome/128.0.6613.119\0";
    assert_eq!(scan_electron_version_blocking_from(hay).as_deref(), Some("128.0.6613.119"));
}

#[test]
fn version_scanner_none_on_empty() {
    assert!(scan_electron_version_blocking_from(b"").is_none());
    assert!(scan_electron_version_blocking_from(b"nothing interesting").is_none());
}

#[test]
fn parse_profile_promotes_default_im_to_front() {
    let body = "\
[Groups/0]
Name=Default
Default Layout=us
DefaultIM=bamboo

[Groups/0/Items/0]
Name=keyboard-us
Layout=

[Groups/0/Items/1]
Name=bamboo
Layout=
";
    let ims = parse_profile_imes(body);
    assert_eq!(ims, vec!["bamboo", "keyboard-us"]);
}

#[test]
fn parse_profile_ignores_other_groups() {
    let body = "\
[Groups/1/Items/0]
Name=should-not-show
";
    let ims = parse_profile_imes(body);
    assert!(ims.is_empty());
}

#[test]
fn addon_without_enabled_key_is_enabled_by_default() {
    let body = "[Addon]\nType=Frontend\n";
    assert!(addon_is_enabled(body));
}

#[test]
fn addon_with_enabled_false_is_disabled() {
    let body = "[Addon]\nEnabled=False\n";
    assert!(!addon_is_enabled(body));
}

// ---- recommendations

#[test]
fn lookup_finds_each_known_id() {
    for id in ["VR001", "VR002", "VR003", "VR004", "VR005", "VR006", "VR007", "VR008"] {
        let r = lookup(id).expect("recommendation must exist");
        assert_eq!(r.id, id);
        assert!(!r.title.is_empty());
        assert!(!r.description.is_empty());
    }
}

#[test]
fn lookup_returns_none_for_unknown_id() {
    assert!(lookup("VR999").is_none());
    assert!(lookup("").is_none());
}

#[test]
fn all_has_eight_entries() {
    assert_eq!(all().len(), 8);
}

#[test]
fn unattended_flags_match_spec() {
    assert!(!lookup("VR001").expect("VR001").safe_to_run_unattended);
    assert!(!lookup("VR002").expect("VR002").safe_to_run_unattended);
    assert!(!lookup("VR003").expect("VR003").safe_to_run_unattended);
    assert!(lookup("VR004").expect("VR004").safe_to_run_unattended);
    assert!(!lookup("VR005").expect("VR005").safe_to_run_unattended);
    assert!(!lookup("VR006").expect("VR006").safe_to_run_unattended);
    assert!(lookup("VR007").expect("VR007").safe_to_run_unattended);
    assert!(lookup("VR008").expect("VR008").safe_to_run_unattended);
}

#[test]
fn recommendation_commands_are_kept_in_order() {
    let r = lookup("VR002").expect("VR002");
    assert_eq!(r.commands.len(), 4);
    assert_eq!(r.commands[1], "pkill -x fcitx5");
    assert_eq!(r.references, vec!["https://wiki.archlinux.org/title/Input_method#Troubleshooting"]);
}

// ---- checkers' helpers

#[test]
fn checker_ids_follow_the_catalogue() {
    assert_eq!(Vd001::new().id(), "VD001");
    assert_eq!(Vd003::new().id(), "VD003");
    assert_eq!(Vd015::new().id(), "VD015");
}

#[test]
fn utf8_locale_detection() {
    assert!(is_utf8("en_US.UTF-8"));
    assert!(is_utf8("vi_VN.utf8"));
    assert!(!is_utf8("C"));
    assert!(!is_utf8("POSIX"));
    assert!(!is_utf8("en_US.ISO-8859-1"));
}

#[test]
fn portal_hint_in_notes() {
    assert!(has_im_portal_hint(&["talk-name=org.freedesktop.portal.IBus".to_owned()]));
    assert!(has_im_portal_hint(&["x".to_owned(), "env GTK_IM_MODULE".to_owned()]));
    assert!(!has_im_portal_hint(&["filesystem=home".to_owned()]));
    assert!(!has_im_portal_hint(&[]));
}

// ---- ibus

#[test]
fn engine_ids_from_mixed_listing() {
    let out = "\
Vietnamese - Bamboo - bamboo
Vietnamese - Unikey - unikey
English (US) - xkb:us::eng
Japanese - Mozc - mozc-jp
";
    assert_eq!(parse_engine_ids(out), vec!["bamboo", "unikey", "xkb:us::eng", "mozc-jp"]);
}

#[test]
fn engine_ids_skip_headers_blank_lines_and_repeats() {
    let out = "language: vi\nVietnamese:\n\n  bamboo\nVietnamese - Bamboo - bamboo\n";
    assert_eq!(parse_engine_ids(out), vec!["language: vi", "bamboo"]);
    assert!(parse_engine_ids("").is_empty());
}

// ---- resolve and electron

#[test]
fn ibus_version_and_pid() {
    assert_eq!(parse_ibus_version("IBus 1.5.29\n").as_deref(), Some("1.5.29"));
    assert_eq!(parse_ibus_version("no version\n"), None);
    assert_eq!(parse_first_pid("1234\n5678\n"), Some(1234));
    assert_eq!(parse_first_pid("  42  \n"), Some(42));
    assert_eq!(parse_first_pid("abc\n"), None);
    assert_eq!(parse_first_pid(""), None);
    assert_eq!(parse_first_pid("99999999999\n"), None);
}

#[test]
fn ozone_flags_and_wayland_derivation() {
    assert!(is_ozone_wayland_flag("--ozone-platform=wayland"));
    assert!(!is_ozone_wayland_flag("--ozone-platform=x11"));
    let with = vec![vec!["code".to_owned(), "--ozone-platform=wayland".to_owned()]];
    let without = vec![vec!["code".to_owned()]];
    assert_eq!(derive_uses_wayland(&with, true), Some(true));
    assert_eq!(derive_uses_wayland(&without, true), Some(false));
    assert_eq!(derive_uses_wayland(&without, false), Some(false));
    assert_eq!(derive_uses_wayland(&vec![], true), Some(false));
    assert_eq!(derive_uses_wayland(&vec![], false), None);
}

// ---- render

#[test]
fn strip_markdown_removes_headings_ticks_and_fences() {
    let md = "# Title\n\nRun `ibus-daemon`.  \n```\ncode\n```\n####### not a heading\n";
    assert_eq!(strip_markdown(md), "Title\n\nRun ibus-daemon.\ncode\n####### not a heading\n");
}

#[test]
fn atx_and_ticks_helpers() {
    assert_eq!(strip_atx_heading("  ## Issues"), "Issues");
    assert_eq!(strip_atx_heading("#hashtag"), "#hashtag");
    assert_eq!(strip_atx_heading("###"), "");
    assert_eq!(strip_inline_ticks("a `b` c`"), "a b c");
    let opts = RenderOptions { plain: true, verbose: false };
    assert!(opts.plain && !opts.verbose);
}

// ---- detectors

#[test]
fn detector_ids() {
    assert_eq!(DesktopDetector::new().id(), "sys.desktop");
    assert_eq!(HomeProfileDetector::new().id(), "env.home_profile");
    assert_eq!(EtcProfileDDetector::new().id(), "env.etc_profile_d");
    assert_eq!(LocaleDetector::new().timeout_millis(), 50);
    assert_eq!(SessionDetector::new().id(), "sys.session");
}

#[test]
fn home_subdir_resolution() {
    assert_eq!(resolve_home_subdir(None, None, ".profile"), None);
    assert_eq!(
        resolve_home_subdir(Some("/home/alice"), None, ".profile").as_deref(),
        Some("/home/alice/.profile")
    );
    assert_eq!(
        resolve_home_subdir(Some("/home/alice"), Some("/tmp/root"), ".config/fcitx5").as_deref(),
        Some("/tmp/root/home/alice/.config/fcitx5")
    );
}

#[test]
fn snippet_files_are_filtered_and_sorted() {
    let names: Vec<String> =
        ["20-fcitx.conf", "README", "10-ibus.conf", ".conf", "a.conf.bak", "05.conf"]
            .iter()
            .map(|s| s.to_string())
            .collect();
    assert_eq!(select_sorted(&names, "conf"), vec!["05.conf", "10-ibus.conf", "20-fcitx.conf"]);
}

#[test]
fn first_file_wins_on_merge() {
    let keys = ["GTK_IM_MODULE", "QT_IM_MODULE"];
    let mut acc: Vec<(String, String)> = Vec::new();
    let profile = vec![("GTK_IM_MODULE".to_owned(), "ibus".to_owned())];
    let bashrc = vec![
        ("GTK_IM_MODULE".to_owned(), "fcitx".to_owned()),
        ("QT_IM_MODULE".to_owned(), "fcitx".to_owned()),
        ("OTHER".to_owned(), "x".to_owned()),
    ];
    merge_first_wins(&mut acc, &profile, &keys);
    merge_first_wins(&mut acc, &bashrc, &keys);
    assert_eq!(
        acc,
        vec![
            ("GTK_IM_MODULE".to_owned(), "ibus".to_owned()),
            ("QT_IM_MODULE".to_owned(), "fcitx".to_owned()),
        ]
    );
}

#[test]
fn command_runner_keeps_its_timeout() {
    let r = TokioCommandRunner::with_timeout(std::time::Duration::from_secs(2));
    assert_eq!(r.timeout, std::time::Duration::from_secs(2));
}

// ---- daemons and packages

use vietime::daemons::{enabled_addons, fcitx5_config_facts, fcitx5_daemon_facts, ibus_daemon_facts};
use vietime::engine_packages::{engine_of_package, package_rows, rpm_engine_query_args, QueryTool};
use vietime::model::ImFramework;

#[test]
fn ibus_daemon_conclusion() {
    let (f, notes) = ibus_daemon_facts(false, Some("4242\n"), Some("IBus 1.5.29\n"), Some("/home/alice"), None);
    assert!(f.daemon_running);
    assert_eq!(f.config_dir.as_deref(), Some("/home/alice/.config/ibus"));
    assert_eq!(f.daemon_pid, Some(4242));
    assert_eq!(f.version.as_deref(), Some("1.5.29"));
    assert_eq!(notes, vec!["pgrep: ibus-daemon pid=4242"]);
    let (g, notes2) = ibus_daemon_facts(true, None, None, None, None);
    assert!(g.daemon_running);
    assert_eq!(g.config_dir, None);
    assert_eq!(g.daemon_pid, None);
    assert_eq!(notes2, vec!["dbus: org.freedesktop.IBus has owner"]);
    let (h, notes3) = ibus_daemon_facts(false, Some(""), None, Some("/home/bob"), Some("/tmp/root"));
    assert_eq!(h.config_dir.as_deref(), Some("/tmp/root/home/bob/.config/ibus"));
    assert!(!h.daemon_running);
    assert!(notes3.is_empty());
}

#[test]
fn fcitx5_daemon_and_config_conclusions() {
    let (f, notes) = fcitx5_daemon_facts(true, Some("7\n"), Some("fcitx5 5.1.7\n"), Some("/home/bob"), None);
    assert!(f.daemon_running);
    assert_eq!(f.config_dir.as_deref(), Some("/home/bob/.config/fcitx5"));
    assert_eq!(f.version.as_deref(), Some("5.1.7"));
    assert_eq!(notes, vec!["dbus: org.fcitx.Fcitx5 has owner", "pgrep: fcitx5 pid=7"]);
    let files = vec![
        ("waylandim.conf".to_owned(), Some("[Addon]\nEnabled=True\n".to_owned())),
        ("xim.conf".to_owned(), Some("[Addon]\nEnabled=False\n".to_owned())),
        ("clipboard.conf".to_owned(), None),
        ("notifications.conf".to_owned(), Some("[Addon]\n".to_owned())),
    ];
    let addons = enabled_addons(&files);
    assert_eq!(addons, vec!["waylandim", "notifications"]);
    let profile = "[Groups/0]\nDefaultIM=unikey\n[Groups/0/Items/0]\nName=keyboard-us\n";
    let (c, cnotes) = fcitx5_config_facts(Some(profile), addons, "/h/.config/fcitx5".to_owned()).expect("facts");
    assert_eq!(c.input_methods_configured, vec!["unikey", "keyboard-us"]);
    assert_eq!(cnotes, vec!["parsed /h/.config/fcitx5"]);
    assert!(fcitx5_config_facts(None, vec![], "/x".to_owned()).is_none());
}

#[test]
fn package_query_rows() {
    let dpkg = "ibus-bamboo\t0.8.2\nfcitx5-unikey 5.1.2\n\nweird\n";
    assert_eq!(
        package_rows(QueryTool::Dpkg, dpkg),
        vec![
            ("ibus-bamboo".to_owned(), "0.8.2".to_owned()),
            ("fcitx5-unikey".to_owned(), "5.1.2".to_owned())
        ]
    );
    let rpm = "ibus-bamboo\t0.8.2\npackage ibus-unikey is not installed\n";
    assert_eq!(package_rows(QueryTool::Rpm, rpm), vec![("ibus-bamboo".to_owned(), "0.8.2".to_owned())]);
    let pacman = "fcitx5-bamboo 1.0.5-1\nerror: package 'ibus-unikey' was not found\n";
    assert_eq!(
        package_rows(QueryTool::Pacman, pacman),
        vec![("fcitx5-bamboo".to_owned(), "1.0.5-1".to_owned())]
    );
    assert_eq!(rpm_engine_query_args()[3], "ibus-bamboo");
}

#[test]
fn engine_ids_from_package_names() {
    assert_eq!(engine_of_package("ibus-bamboo"), Some((ImFramework::Ibus, "bamboo".to_owned())));
    assert_eq!(engine_of_package("fcitx5-unikey"), Some((ImFramework::Fcitx5, "unikey".to_owned())));
    assert_eq!(engine_of_package("ibus-"), None);
    assert_eq!(engine_of_package("fcitx5-"), None);
    assert_eq!(engine_of_package("vim"), None);
}

#[test]
fn severity_badges_and_source_labels() {
    assert_eq!(severity_badge(Severity::Info), "info");
    assert_eq!(severity_badge(Severity::Warn), "warn");
    assert_eq!(severity_badge(Severity::Error), "error");
    assert_eq!(severity_badge(Severity::Critical), "critical");
    assert_eq!(env_source_label(EnvSource::Process), "process");
    assert_eq!(env_source_label(EnvSource::HomeProfile), "~/.profile or ~/.config/environment.d/");
    assert_eq!(env_source_label(EnvSource::SystemdUserEnv), "systemctl --user show-environment");
}

#[test]
fn env_rows_skip_unset_unsourced_and_mark_blanks() {
    let vars = vec![
        (
            "GTK_IM_MODULE".to_owned(),
            EnvSetting { value: Some("fcitx".to_owned()), source: Some(EnvSource::EtcEnvironment) },
        ),
        ("QT_IM_MODULE".to_owned(), EnvSetting { value: None, source: None }),
        ("XMODIFIERS".to_owned(), EnvSetting { value: Some(String::new()), source: Some(EnvSource::Pam) }),
        ("SDL_IM_MODULE".to_owned(), EnvSetting { value: Some("ibus".to_owned()), source: None }),
    ];
    let rows = build_env_rows(&vars);
    assert_eq!(rows.len(), 3);
    assert_eq!(rows[0].name, "GTK_IM_MODULE");
    assert_eq!(rows[0].value, "fcitx");
    assert_eq!(rows[0].source, "/etc/environment");
    assert_eq!(rows[1].name, "XMODIFIERS");
    assert_eq!(rows[1].value, "<unset>");
    assert_eq!(rows[1].source, "pam");
    assert_eq!(rows[2].value, "ibus");
    assert_eq!(rows[2].source, "(unknown)");
}

#[test]
fn im_section_names_framework_daemons_and_engines() {
    let ibus = Some(IbusFacts {
        version: Some("1.5.29".to_owned()),
        daemon_running: true,
        daemon_pid: Some(12),
        config_dir: None,
        registered_engines: vec![],
    });
    let fcitx5 = Some(Fcitx5Facts {
        version: None,
        daemon_running: false,
        daemon_pid: None,
        config_dir: None,
        addons_enabled: vec![],
        input_methods_configured: vec![],
    });
    let engines = vec![EngineFact {
        name: "bamboo".to_owned(),
        package: None,
        version: None,
        framework: ImFramework::Ibus,
        is_vietnamese: true,
        is_registered: true,
    }];
    let c = build_im(ActiveFramework::Ibus, &ibus, &fcitx5, &engines);
    assert_eq!(c.active, "IBus");
    assert_eq!(c.ibus.as_deref(), Some("running, version 1.5.29"));
    assert_eq!(c.fcitx5.as_deref(), Some("not running"));
    assert_eq!(c.engines, vec!["bamboo (Ibus)"]);
    let none = build_im(ActiveFramework::Conflict, &None, &None, &vec![]);
    assert_eq!(none.active, "conflict (both IBus and Fcitx5 active)");
    assert!(none.ibus.is_none() && none.fcitx5.is_none() && none.engines.is_empty());
}

#[test]
fn id_is_env_etc_environment() {
    assert_eq!(EtcEnvironmentDetector::new().id(), "env.etc_environment");
}

#[test]
fn id_is_env_etc_profile_d() {
    assert_eq!(EtcProfileDDetector::new().id(), "env.etc_profile_d");
}

#[test]
fn id_is_env_home_profile() {
    assert_eq!(HomeProfileDetector::new().id(), "env.home_profile");
}

#[test]
fn id_is_env_process() {
    assert_eq!(ProcessEnvDetector::new().id(), "env.process");
}

#[test]
fn id_is_env_systemd() {
    assert_eq!(SystemdEnvDetector::new().id(), "env.systemd");
}

#[test]
fn id_is_im_fcitx5_config() {
    assert_eq!(Fcitx5ConfigDetector::new().id(), "im.fcitx5.config");
}

#[test]
fn id_is_im_fcitx5_daemon() {
    assert_eq!(Fcitx5DaemonDetector::new().id(), "im.fcitx5.daemon");
}

#[test]
fn id_is_im_ibus_daemon() {
    assert_eq!(IbusDaemonDetector::new().id(), "im.ibus.daemon");
}

#[test]
fn id_is_im_ibus_engines() {
    assert_eq!(IbusEnginesDetector::new().id(), "im.ibus.engines");
}

#[test]
fn id_is_im_engines_packages() {
    assert_eq!(PackageEnginesDetector::new().id(), "im.engines.packages");
}

#[test]
fn app_detectors_ids_and_timeouts() {
    assert_eq!(GenericAppDetector::new().id(), "app.generic");
    assert_eq!(ElectronAppDetector::new().id(), "app.electron");
    assert_eq!(GenericAppDetector::new().timeout_millis(), 4000);
    assert_eq!(ElectronAppDetector::new().timeout_millis(), 4000);
    assert_eq!(SystemdEnvDetector::new().timeout_millis(), 3000);
    assert_eq!(PackageEnginesDetector::new().timeout_millis(), 5000);
}

#[test]
fn lc_all_wins_over_lc_ctype_and_lang() {
    let (locale, notes) = LocaleDetector::new().effective_locale(Some("en_US.UTF-8"), Some("C"), Some("vi_VN.UTF-8"));
    assert_eq!(locale.as_deref(), Some("en_US.UTF-8"));
    assert_eq!(notes, vec!["effective locale: en_US.UTF-8"]);
}

#[test]
fn falls_back_to_lc_ctype_when_lc_all_absent() {
    let (locale, _) = LocaleDetector::new().effective_locale(None, Some("en_US.UTF-8"), Some("vi_VN.UTF-8"));
    assert_eq!(locale.as_deref(), Some("en_US.UTF-8"));
}

#[test]
fn falls_back_to_lang_when_others_absent() {
    let (locale, _) = LocaleDetector::new().effective_locale(None, None, Some("vi_VN.UTF-8"));
    assert_eq!(locale.as_deref(), Some("vi_VN.UTF-8"));
}

#[test]
fn empty_string_is_treated_as_unset() {
    let (locale, _) = LocaleDetector::new().effective_locale(Some(""), None, Some("en_US.UTF-8"));
    assert_eq!(locale.as_deref(), Some("en_US.UTF-8"));
}

#[test]
fn none_when_no_vars_set() {
    let (locale, notes) = LocaleDetector::new().effective_locale(None, None, None);
    assert_eq!(locale, None);
    assert!(notes.iter().any(|n| n.contains("no LC_ALL")));
}

#[test]
fn only_conf_files_count_as_addons() {
    let on = Some("[Addon]\nEnabled=True\n".to_owned());
    let files = vec![
        ("README".to_owned(), on.clone()),
        (".conf".to_owned(), on.clone()),
        ("kimpanel.conf".to_owned(), on.clone()),
        ("x.conf.bak".to_owned(), on.clone()),
    ];
    assert_eq!(enabled_addons(&files), vec!["kimpanel"]);
}
