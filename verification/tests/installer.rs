use vietime::executor::{run_after, run_next, run_start, RunAction};
use vietime::snapshot::{restore_step, RestoreStep};
use std::str::FromStr;
use vietime::executor::{
    default_snapshots_root_for, dry_run_artifact, format_for, manager_tag, packages_to_install,
    parse_is_active, parse_is_enabled, parse_manager_tag, prompt_answer, prompt_outcome,
    rollback_plan, command_failure, doctor_verify_outcome, env_step_artifact, im_config_artifact,
    im_config_command, verify_stub_outcome, write_file_artifact, DoctorRun, EnvStepOutcome,
    ExecConfig, ExecError, Mode, PromptOutcome, RollbackAction, StderrReporter,
};
use vietime::envfile::Format;
use vietime::model::{
    join_path, Combo, Engine, EnvFile, Goal, ImFramework, PackageManager, Plan, PreState,
    PromptCondition, Step, VerifyCheck, ActiveFramework, DistroFamily,
};
use vietime::packageops::{
    apt_install_args, build_dpkg_query_args, parse_dpkg_query_output, AptOps, Sudo,
};
use vietime::planner::{default_fcitx5_profile, plan, validate_plan, PlanError};
use vietime::snapshot::{
    backup_artifact, backup_matches, parse_df_free_bytes, sanitise_path_for_backup, sha256_hex,
    sidecar_line, Artifact, SnapshotError, SnapshotStore,
};
use vietime::sudo::{
    is_system_path, plan_requires_sudo, preflight_step, PreflightAction, PreflightEvent,
    PreflightMode, SudoError,
};
use vietime::fcitx5_config::parse_profile_imes;

// ---- model

#[test]
fn env_file_resolves_paths_against_home() {
    let home = "/home/test";
    assert_eq!(EnvFile::EtcEnvironment.path(home), "/etc/environment".to_owned());
    assert_eq!(EnvFile::HomeProfile.path(home), "/home/test/.profile".to_owned());
    assert_eq!(
        EnvFile::ConfigEnvironmentD { filename: "90-vietime.conf".into() }.path(home),
        "/home/test/.config/environment.d/90-vietime.conf".to_owned()
    );
}

#[test]
fn combo_all_supported_has_four_unique() {
    let all = Combo::all_supported();
    assert_eq!(all.len(), 4);
    let uniq: std::collections::HashSet<_> = all.iter().copied().collect();
    assert_eq!(uniq.len(), 4, "all_supported() must not repeat");
}

#[test]
fn combo_slug_display_roundtrip() {
    for c in Combo::all_supported() {
        let slug = c.slug();
        let parsed: Combo = slug.parse().expect("valid slug parses back");
        assert_eq!(parsed, c);
    }
}

#[test]
fn combo_rejects_unknown_slug() {
    let err = Combo::from_str("fcitx5-telex").expect_err("should reject");
    let msg = err.message();
    assert!(msg.contains("fcitx5-telex"), "error mentions input: {msg}");
    assert!(msg.contains("fcitx5-bamboo"), "error lists supported: {msg}");
    assert_eq!(err.1, "fcitx5-bamboo, fcitx5-unikey, ibus-bamboo, ibus-unikey");
}

#[test]
fn combo_parse_is_case_insensitive_and_trims() {
    assert_eq!(
        Combo::from_str("  FCITX5-BAMBOO  ").unwrap(),
        Combo::new(ImFramework::Fcitx5, Engine::Bamboo)
    );
}

#[test]
fn step_kind_is_stable() {
    assert_eq!(Step::BackupFile { path: "/tmp/foo".into() }.kind(), "backup_file");
    assert_eq!(Step::Verify { check: VerifyCheck::EnvConsistent }.kind(), "verify");
}

#[test]
fn path_join_follows_path_rules() {
    assert_eq!(join_path("/home/a", ".profile"), "/home/a/.profile");
    assert_eq!(join_path("/home/a/", ".profile"), "/home/a/.profile");
    assert_eq!(join_path("/home/a", "/etc/x"), "/etc/x");
    assert_eq!(join_path("", "x"), "x");
}

// ---- planner

fn install_goal(framework: ImFramework, engine: Engine) -> Goal {
    Goal::Install { combo: Combo::new(framework, engine) }
}

#[test]
fn fixture_ubuntu_24_04_is_debian_family() {
    let pre = PreState::fixture_ubuntu_24_04();
    assert!(pre.distro.is_family(DistroFamily::Debian));
}

#[test]
fn fixture_fedora_is_redhat_family() {
    let pre = PreState::fixture_fedora_40();
    assert!(pre.distro.is_family(DistroFamily::Redhat));
}

#[test]
fn ubuntu_install_fcitx5_bamboo_has_expected_shape() {
    let pre = PreState::fixture_ubuntu_24_04();
    let plan = plan(pre, install_goal(ImFramework::Fcitx5, Engine::Bamboo)).expect("plan ok");
    assert_eq!(plan.schema_version, 1);
    assert!(plan.requires_sudo);
    assert!(plan.requires_logout);
    assert!(matches!(plan.steps[0], Step::BackupFile { .. }));
    assert!(matches!(plan.steps[1], Step::BackupFile { .. }));
    assert!(matches!(plan.steps[2], Step::BackupFile { .. }));
    let install_count =
        plan.steps.iter().filter(|s| matches!(s, Step::InstallPackages { .. })).count();
    assert_eq!(install_count, 1);
    let bamboo_mentioned = plan.steps.iter().any(|s| matches!(
        s,
        Step::InstallPackages { packages, .. } if packages.iter().any(|p| p == "fcitx5-bamboo")
    ));
    assert!(bamboo_mentioned);
    assert_eq!(plan.steps.iter().filter(|s| matches!(s, Step::RunImConfig { .. })).count(), 1);
    let disables_ibus = plan.steps.iter().any(|s| {
        matches!(s, Step::SystemctlUserDisable { unit } if unit == "ibus.service")
    });
    assert!(disables_ibus, "should disable ibus when it was active");
    assert_eq!(plan.steps.len(), 18);
}

#[test]
fn ubuntu_install_fcitx5_unikey_swaps_engine_package() {
    let pre = PreState::fixture_ubuntu_24_04();
    let plan = plan(pre, install_goal(ImFramework::Fcitx5, Engine::Unikey)).expect("plan ok");
    let has_unikey = plan.steps.iter().any(|s| matches!(
        s,
        Step::InstallPackages { packages, .. } if packages.iter().any(|p| p == "fcitx5-unikey")
    ));
    let has_bamboo = plan.steps.iter().any(|s| matches!(
        s,
        Step::InstallPackages { packages, .. } if packages.iter().any(|p| p == "fcitx5-bamboo")
    ));
    assert!(has_unikey);
    assert!(!has_bamboo);
}

#[test]
fn ubuntu_install_ibus_does_not_touch_fcitx5_unit_when_none_active() {
    let mut pre = PreState::fixture_ubuntu_24_04();
    pre.active_framework = ActiveFramework::NoFramework;
    let plan = plan(pre, install_goal(ImFramework::Ibus, Engine::Bamboo)).expect("plan ok");
    let touches_fcitx5 = plan.steps.iter().any(|s| {
        matches!(s, Step::SystemctlUserDisable { unit } if unit == "fcitx5.service")
    });
    assert!(!touches_fcitx5, "should not touch fcitx5.service when it wasn't active");
}

#[test]
fn fedora_fcitx5_bamboo_is_unsupported_this_week() {
    let err = plan(PreState::fixture_fedora_40(), install_goal(ImFramework::Fcitx5, Engine::Bamboo))
        .expect_err("should fail on Fedora");
    assert!(
        matches!(err, PlanError::UnsupportedCombo { family: DistroFamily::Redhat, .. }),
        "expected UnsupportedCombo, got {err:?}"
    );
}

#[test]
fn uninstall_goal_returns_unimplemented_this_week() {
    let err = plan(PreState::fixture_ubuntu_24_04(), Goal::Uninstall { snapshot_id: None })
        .expect_err("uninstall planner not yet wired");
    assert!(matches!(err, PlanError::UnimplementedGoal { goal: "uninstall", .. }));
}

#[test]
fn validate_plan_rejects_setenv_without_backup() {
    let mut bad = Plan::new_skeleton(
        install_goal(ImFramework::Fcitx5, Engine::Bamboo),
        PreState::fixture_ubuntu_24_04(),
    );
    bad.steps.push(Step::SetEnvVar {
        file: EnvFile::EtcEnvironment,
        key: "GTK_IM_MODULE".to_owned(),
        value: "fcitx".to_owned(),
    });
    let err = validate_plan(&bad).expect_err("should reject");
    match err {
        PlanError::MissingBackup { index, kind, target } => {
            assert_eq!(index, 0);
            assert_eq!(kind, "set_env_var");
            assert_eq!(target, "/etc/environment");
        }
        other => panic!("unexpected {other:?}"),
    }
}

#[test]
fn validate_plan_accepts_good_plan() {
    let good = plan(PreState::fixture_ubuntu_24_04(), install_goal(ImFramework::Fcitx5, Engine::Bamboo))
        .expect("plan ok");
    assert!(validate_plan(&good).is_ok());
}

#[test]
fn write_file_needs_a_backup_of_the_same_path() {
    let mut p = Plan::new_skeleton(
        install_goal(ImFramework::Ibus, Engine::Unikey),
        PreState::fixture_ubuntu_24_04(),
    );
    p.steps.push(Step::BackupFile { path: "/home/vietime/.profile".into() });
    p.steps.push(Step::WriteFile { path: "/home/vietime/.xinputrc".into(), content: String::new(), mode: 0 });
    assert!(matches!(validate_plan(&p), Err(PlanError::MissingBackup { index: 1, .. })));
    p.steps.insert(0, Step::BackupFile { path: "/home/vietime/.xinputrc".into() });
    assert!(matches!(validate_plan(&p), Err(PlanError::NoEnvVars)));
    p.steps.push(Step::SetEnvVar {
        file: EnvFile::HomeProfile,
        key: "GTK_IM_MODULE".into(),
        value: "ibus".into(),
    });
    assert!(validate_plan(&p).is_ok());
}

#[test]
fn empty_plan_is_refused_for_setting_no_env_var() {
    let p = Plan::new_skeleton(
        install_goal(ImFramework::Fcitx5, Engine::Bamboo),
        PreState::fixture_ubuntu_24_04(),
    );
    assert!(matches!(validate_plan(&p), Err(PlanError::NoEnvVars)));
}

#[test]
fn rollback_sets_an_enabled_and_active_unit_back() {
    let arts = vec![Artifact::ServiceChange {
        step_index: 0,
        unit: "fcitx5.service".into(),
        previous_enabled: Some(true),
        previous_active: Some(true),
    }];
    let got: Vec<String> = rollback_plan(&arts)
        .iter()
        .map(|a| match a {
            RollbackAction::Announce { artifact_index } => format!("announce {artifact_index}"),
            RollbackAction::EnableUnit { unit } => format!("enable {unit}"),
            RollbackAction::StartUnit { unit } => format!("start {unit}"),
            _ => "other".to_owned(),
        })
        .collect();
    assert_eq!(got, vec!["announce 0", "enable fcitx5.service", "start fcitx5.service"]);
}

#[test]
fn written_profile_puts_the_engine_first() {
    let text = default_fcitx5_profile(Engine::Unikey);
    assert!(text.contains("DefaultIM=unikey\n"));
    assert_eq!(parse_profile_imes(&text), vec!["unikey", "keyboard-us"]);
}

// ---- sudo

fn sample_plan_with_steps(steps: Vec<Step>) -> Plan {
    let mut p = Plan::new_skeleton(
        install_goal(ImFramework::Fcitx5, Engine::Bamboo),
        PreState::fixture_ubuntu_24_04(),
    );
    p.steps = steps;
    p
}

#[test]
fn install_packages_step_requires_sudo() {
    let plan = sample_plan_with_steps(vec![Step::InstallPackages {
        manager: PackageManager::Apt,
        packages: vec!["fcitx5".into()],
    }]);
    assert!(plan_requires_sudo(&plan));
}

#[test]
fn home_scope_envfile_does_not_require_sudo() {
    let plan = sample_plan_with_steps(vec![Step::SetEnvVar {
        file: EnvFile::HomeProfile,
        key: "GTK_IM_MODULE".into(),
        value: "fcitx".into(),
    }]);
    assert!(!plan_requires_sudo(&plan));
}

#[test]
fn etc_environment_setenv_requires_sudo() {
    let plan = sample_plan_with_steps(vec![Step::SetEnvVar {
        file: EnvFile::EtcEnvironment,
        key: "GTK_IM_MODULE".into(),
        value: "fcitx".into(),
    }]);
    assert!(plan_requires_sudo(&plan));
}

#[test]
fn systemctl_user_does_not_require_sudo() {
    let plan =
        sample_plan_with_steps(vec![Step::SystemctlUserEnable { unit: "fcitx5.service".into() }]);
    assert!(!plan_requires_sudo(&plan));
}

#[test]
fn verify_prompt_do_not_require_sudo() {
    let plan = sample_plan_with_steps(vec![
        Step::Verify { check: VerifyCheck::DaemonRunning { framework: ImFramework::Fcitx5 } },
        Step::Prompt { message: "Logout".into(), continue_if: PromptCondition::UserYes },
    ]);
    assert!(!plan_requires_sudo(&plan));
}

#[test]
fn system_paths() {
    assert!(is_system_path("/etc/default/im-config"));
    assert!(is_system_path("/usr/share/x"));
    assert!(is_system_path("/var/lib/x"));
    assert!(!is_system_path("/var/tmp/x"));
    assert!(!is_system_path("/tmp/x"));
    assert!(!is_system_path("/home/a/.profile"));
}

#[test]
fn preflight_dialogue() {
    let m = PreflightMode::Unattended;
    assert!(matches!(
        preflight_step(m, PreflightEvent::Begin { requires_sudo: false }),
        PreflightAction::Finish(Ok(Sudo::NoSudo))
    ));
    assert!(matches!(
        preflight_step(m, PreflightEvent::Begin { requires_sudo: true }),
        PreflightAction::ProbeSudo
    ));
    assert!(matches!(
        preflight_step(m, PreflightEvent::SudoPresent(false)),
        PreflightAction::Finish(Err(SudoError::SudoMissing))
    ));
    assert!(matches!(
        preflight_step(m, PreflightEvent::CacheValid(true)),
        PreflightAction::Finish(Ok(Sudo::Unattended))
    ));
    assert!(matches!(
        preflight_step(m, PreflightEvent::CacheValid(false)),
        PreflightAction::Finish(Err(SudoError::WouldPrompt))
    ));
    let i = PreflightMode::Interactive;
    assert!(matches!(preflight_step(i, PreflightEvent::CacheValid(false)), PreflightAction::PrimeCache));
    assert!(matches!(
        preflight_step(i, PreflightEvent::Primed(Ok(()))),
        PreflightAction::Finish(Ok(Sudo::Interactive))
    ));
}

// ---- package operations

#[test]
fn sudo_args_match_expected_prefix() {
    assert_eq!(Sudo::NoSudo.args(), &[] as &[&'static str]);
    assert_eq!(Sudo::Interactive.args(), &["sudo"]);
    assert_eq!(Sudo::Unattended.args(), &["sudo", "-n"]);
}

#[test]
fn dpkg_query_output_parses_installed_rows() {
    let stdout = "fcitx5\tinstalled\nfcitx5-bamboo\tnot-installed\ngit\tinstalled\n";
    let installed = parse_dpkg_query_output(stdout);
    assert_eq!(installed, vec!["fcitx5".to_owned(), "git".to_owned()]);
}

#[test]
fn dpkg_query_output_tolerates_garbage_lines() {
    let stdout = "\n\nfcitx5\tinstalled\nthis is garbage\n";
    let installed = parse_dpkg_query_output(stdout);
    assert_eq!(installed, vec!["fcitx5".to_owned()]);
}

#[test]
fn apt_manager_reports_apt() {
    assert_eq!(AptOps.manager(), PackageManager::Apt);
}

#[test]
fn dpkg_and_apt_arguments() {
    let pkgs = vec!["fcitx5".to_owned(), "git".to_owned()];
    assert_eq!(
        build_dpkg_query_args(&pkgs),
        vec!["-W", "-f=${Package}\t${db:Status-Status}\n", "fcitx5", "git"]
    );
    assert_eq!(apt_install_args(&pkgs), vec!["install", "-y", "--no-install-recommends", "fcitx5", "git"]);
    assert_eq!(parse_dpkg_query_output("fcitx5\t installed \n\tinstalled\n"), vec!["fcitx5"]);
}

// ---- snapshots

#[test]
fn sanitise_path_produces_backup_friendly_name() {
    assert_eq!(sanitise_path_for_backup("/etc/environment"), "etc_environment.bak");
    assert_eq!(
        sanitise_path_for_backup("/home/alice/.config/fcitx5/profile"),
        "home_alice_.config_fcitx5_profile.bak"
    );
}

#[test]
fn check_disk_space_passes_for_tiny_budget() {
    let store = SnapshotStore::new("/tmp/vietime-snapshots".to_owned());
    assert!(store.check_disk_space(1024, None).is_ok());
    assert!(store.check_disk_space(1024, Some(4096)).is_ok());
    match store.check_disk_space(1024, Some(10)) {
        Err(SnapshotError::DiskFull { need_bytes, free_bytes, .. }) => {
            assert_eq!((need_bytes, free_bytes), (1024, 10));
        }
        other => panic!("unexpected {other:?}"),
    }
}

#[test]
fn sha256_of_known_input() {
    assert_eq!(
        sha256_hex(b"abc"),
        "ba7816bf8f01cfea414140de5dae2223b00361a396177a9cb410ff61f20015ad"
    );
    assert_eq!(sha256_hex(b"").len(), 64);
}

#[test]
fn backup_artifacts_and_checks() {
    let (a, write) = backup_artifact(3, "/etc/environment", Some(&b"FOO=bar\n"[..]), None);
    assert!(write);
    match a {
        Artifact::BackupFile { step_index, original_path, backup_relpath, sha256, existed_before } => {
            assert_eq!(step_index, 3);
            assert_eq!(original_path, "/etc/environment");
            assert_eq!(backup_relpath, "files/etc_environment.bak");
            assert_eq!(sha256, sha256_hex(b"FOO=bar\n"));
            assert!(existed_before);
        }
        other => panic!("unexpected {other:?}"),
    }
    let (_, again) = backup_artifact(3, "/etc/environment", Some(&b"FOO=bar\n"[..]), Some(&b"FOO=bar\n"[..]));
    assert!(!again);
    let (missing, w) = backup_artifact(1, "/nope", None, None);
    assert!(!w);
    assert!(matches!(missing, Artifact::BackupFile { existed_before: false, .. }));
    assert_eq!(missing.step_index(), 1);
    assert!(backup_matches("", b"x"));
    assert!(backup_matches(&sha256_hex(b"x"), b"x"));
    assert!(!backup_matches(&sha256_hex(b"x"), b"y"));
    assert_eq!(sidecar_line("ab", "n.bak"), "ab  n.bak\n");
}

#[test]
fn df_output_is_read() {
    let out = "Filesystem     1024-blocks      Used Available Capacity Mounted on\n/dev/sda1 100 50 42 55% /\n";
    assert_eq!(parse_df_free_bytes(out), Some(42 * 1024));
    assert_eq!(parse_df_free_bytes("header only\n"), None);
    assert_eq!(parse_df_free_bytes("h\na b c notanumber\n"), None);
}

// ---- executor

#[test]
fn modes_and_config() {
    assert!(Mode::DryRun.is_dry_run());
    assert!(!Mode::Live.is_dry_run());
    assert_eq!(Mode::Live.preflight_mode(), PreflightMode::Interactive);
    assert_eq!(Mode::DryRun.preflight_mode(), PreflightMode::Unattended);
    let c = ExecConfig::for_home(Mode::Live, "/home/a".to_owned(), None)
        .with_assume_yes(true)
        .with_home("/home/b".to_owned());
    assert_eq!(c.snapshots_root, "/home/a/.config/vietime/snapshots");
    assert_eq!(c.home, "/home/b");
    assert!(c.assume_yes);
    assert_eq!(c.min_free_bytes, 10 * 1024 * 1024);
    assert_eq!(default_snapshots_root_for("/h", Some("/x")), "/x/vietime/snapshots");
    assert!(matches!(format_for(&EnvFile::HomeProfile), Format::PosixShellExport));
    assert!(matches!(format_for(&EnvFile::EtcEnvironment), Format::KeyValue));
}

#[test]
fn manager_tags_roundtrip() {
    for m in [
        PackageManager::Apt,
        PackageManager::Dnf,
        PackageManager::Pacman,
        PackageManager::Zypper,
        PackageManager::Xbps,
        PackageManager::Emerge,
    ] {
        assert_eq!(parse_manager_tag(manager_tag(m)), Some(m));
    }
    assert_eq!(parse_manager_tag("yum"), None);
}

#[test]
fn prompts() {
    let live = ExecConfig::for_home(Mode::Live, "/h".to_owned(), None);
    assert!(matches!(prompt_outcome(4, "Go?", PromptCondition::UserYes, &live), PromptOutcome::AskUser));
    match prompt_outcome(4, "Go?", PromptCondition::NonInteractive, &live) {
        PromptOutcome::Decided(Artifact::Skipped { step_index, reason }) => {
            assert_eq!(step_index, 4);
            assert_eq!(reason, "prompt (non-interactive): Go?");
        }
        other => panic!("unexpected {other:?}"),
    }
    let yes = live.clone().with_assume_yes(true);
    assert!(matches!(
        prompt_outcome(4, "Go?", PromptCondition::UserYes, &yes),
        PromptOutcome::Decided(Artifact::Skipped { .. })
    ));
    assert!(matches!(prompt_answer(4, "Go?", false), Err(ExecError::UserAborted { index: 4 })));
    assert!(matches!(prompt_answer(4, "Go?", true), Ok(Artifact::Skipped { .. })));
    match dry_run_artifact(2, &Step::RunImConfig { mode: "fcitx5".into() }) {
        Artifact::Skipped { reason, .. } => assert_eq!(reason, "dry-run: run_im_config"),
        other => panic!("unexpected {other:?}"),
    }
}

#[test]
fn rollback_undoes_newest_first_and_spares_old_packages() {
    let arts = vec![
        Artifact::BackupFile {
            step_index: 0,
            original_path: "/etc/environment".into(),
            backup_relpath: "files/etc_environment.bak".into(),
            sha256: String::new(),
            existed_before: true,
        },
        Artifact::InstalledPackages {
            step_index: 1,
            manager: "apt".into(),
            packages: vec!["fcitx5".into(), "git".into()],
            already_present: vec!["git".into()],
        },
        Artifact::ServiceChange {
            step_index: 2,
            unit: "ibus.service".into(),
            previous_enabled: Some(false),
            previous_active: Some(true),
        },
        Artifact::VerifyOk { step_index: 3, summary: "ok".into() },
    ];
    let plan = rollback_plan(&arts);
    let got: Vec<String> = plan
        .iter()
        .map(|a| match a {
            RollbackAction::Announce { artifact_index } => format!("announce {artifact_index}"),
            RollbackAction::Restore { artifact_index } => format!("restore {artifact_index}"),
            RollbackAction::Uninstall { packages, .. } => format!("uninstall {}", packages.join(",")),
            RollbackAction::EnableUnit { unit } => format!("enable {unit}"),
            RollbackAction::DisableUnit { unit } => format!("disable {unit}"),
            RollbackAction::StartUnit { unit } => format!("start {unit}"),
            RollbackAction::StopUnit { unit } => format!("stop {unit}"),
        })
        .collect();
    assert_eq!(
        got,
        vec![
            "announce 3",
            "announce 2",
            "disable ibus.service",
            "start ibus.service",
            "announce 1",
            "uninstall fcitx5",
            "announce 0",
            "restore 0"
        ]
    );
    assert_eq!(packages_to_install(&["a".to_owned(), "b".to_owned()], &["b".to_owned()]), vec!["a"]);
}

#[test]
fn systemctl_states() {
    assert_eq!(parse_is_enabled("enabled\n"), Some(true));
    assert_eq!(parse_is_enabled("static"), Some(true));
    assert_eq!(parse_is_enabled(" masked \n"), Some(false));
    assert_eq!(parse_is_enabled("weird"), None);
    assert_eq!(parse_is_active("activating\n"), Some(true));
    assert_eq!(parse_is_active("failed\n"), Some(false));
    assert_eq!(parse_is_active(""), None);
}

#[test]
fn reporter_lines() {
    let r = StderrReporter;
    let s = Step::BackupFile { path: "/x".into() };
    assert_eq!(r.step_start_line(3, &s), "[ 3] backup_file …");
    assert_eq!(r.step_done_line(12, &s), "[12] backup_file done");
    assert_eq!(r.step_failed_line(0, &s, "boom"), "[ 0] backup_file FAILED: boom");
    assert_eq!(r.rollback_started_line(7), "-- rolling back from step 7 --");
    assert_eq!(r.rollback_step_line(105), "[rollback] step 105");
}

#[test]
fn verify_stub_checks_pass_at_once_and_doctor_check_waits() {
    match verify_stub_outcome(4, &VerifyCheck::DaemonRunning { framework: ImFramework::Fcitx5 }) {
        Some(Artifact::VerifyOk { step_index, summary }) => {
            assert_eq!(step_index, 4);
            assert_eq!(summary, "daemon running (Fcitx5) — stub check, see INS-61");
        }
        _ => panic!("expected a VerifyOk"),
    }
    match verify_stub_outcome(5, &VerifyCheck::EngineRegistered { name: "bamboo".to_owned() }) {
        Some(Artifact::VerifyOk { step_index, summary }) => {
            assert_eq!(step_index, 5);
            assert_eq!(summary, "engine registered (bamboo) — stub check, see INS-61");
        }
        _ => panic!("expected a VerifyOk"),
    }
    match verify_stub_outcome(6, &VerifyCheck::EnvConsistent) {
        Some(Artifact::VerifyOk { summary, .. }) => {
            assert_eq!(summary, "env consistent — stub check, see INS-61")
        }
        _ => panic!("expected a VerifyOk"),
    }
    assert!(verify_stub_outcome(7, &VerifyCheck::DoctorCheckPasses).is_none());
}

#[test]
fn doctor_verify_outcome_covers_pass_fail_and_missing_doctor() {
    match doctor_verify_outcome(3, DoctorRun::Passed) {
        Ok(Artifact::VerifyOk { step_index, summary }) => {
            assert_eq!(step_index, 3);
            assert_eq!(summary, "vietime-doctor check passed");
        }
        _ => panic!("expected a VerifyOk"),
    }
    match doctor_verify_outcome(3, DoctorRun::Failed { code: Some(2), stderr: "  VD002 fired\n".to_owned() }) {
        Err(ExecError::VerifyFailed { reason }) => {
            assert_eq!(reason, "doctor exited with status 2; stderr: VD002 fired")
        }
        _ => panic!("expected VerifyFailed"),
    }
    match doctor_verify_outcome(3, DoctorRun::Failed { code: None, stderr: String::new() }) {
        Err(ExecError::VerifyFailed { reason }) => {
            assert_eq!(reason, "doctor exited with status -1; stderr: ")
        }
        _ => panic!("expected VerifyFailed"),
    }
    match doctor_verify_outcome(8, DoctorRun::NotStarted) {
        Ok(Artifact::Skipped { step_index, reason }) => {
            assert_eq!(step_index, 8);
            assert_eq!(reason, "vietime-doctor not on PATH; verification skipped");
        }
        _ => panic!("expected Skipped"),
    }
}

fn skipped_reason(a: Artifact) -> String {
    match a {
        Artifact::Skipped { reason, .. } => reason,
        _ => panic!("expected Skipped"),
    }
}

fn ok_summary(a: Artifact) -> String {
    match a {
        Artifact::VerifyOk { summary, .. } => summary,
        _ => panic!("expected VerifyOk"),
    }
}

#[test]
fn env_step_artifacts_carry_their_messages() {
    let path = "/home/u/.config/environment.d/90-vietime.conf";
    assert_eq!(skipped_reason(env_step_artifact(1, "GTK_IM_MODULE", path, EnvStepOutcome::AlreadySet)), "GTK_IM_MODULE already set");
    assert_eq!(
        ok_summary(env_step_artifact(1, "GTK_IM_MODULE", path, EnvStepOutcome::Written)),
        "set GTK_IM_MODULE in /home/u/.config/environment.d/90-vietime.conf"
    );
    assert_eq!(
        skipped_reason(env_step_artifact(2, "QT_IM_MODULE", path, EnvStepOutcome::FileMissing)),
        "/home/u/.config/environment.d/90-vietime.conf did not exist"
    );
    assert_eq!(skipped_reason(env_step_artifact(2, "QT_IM_MODULE", path, EnvStepOutcome::KeyAbsent)), "QT_IM_MODULE was not present");
    assert_eq!(
        ok_summary(env_step_artifact(2, "QT_IM_MODULE", path, EnvStepOutcome::Unset)),
        "unset QT_IM_MODULE from /home/u/.config/environment.d/90-vietime.conf"
    );
}

#[test]
fn im_config_runs_through_sudo_unless_told_not_to() {
    let (p, a) = im_config_command("fcitx5", Sudo::NoSudo);
    assert_eq!(p, "im-config");
    assert_eq!(a, vec!["-n", "fcitx5"]);
    let (p, a) = im_config_command("ibus", Sudo::Unattended);
    assert_eq!(p, "sudo");
    assert_eq!(a, vec!["im-config", "-n", "ibus"]);
    assert_eq!(ok_summary(im_config_artifact(3, "fcitx5")), "im-config -n fcitx5");
    assert_eq!(ok_summary(write_file_artifact(4, "/etc/x")), "wrote /etc/x");
    assert_eq!(
        command_failure("systemctl --user enable fcitx5.service", "  Failed to enable unit\n"),
        "systemctl --user enable fcitx5.service: Failed to enable unit"
    );
}

#[test]
fn install_fcitx5_bamboo_on_ubuntu_24_04_matches_golden() {
    let pre = PreState::fixture_ubuntu_24_04();
    let built = plan(pre, install_goal(ImFramework::Fcitx5, Engine::Bamboo))
        .expect("planner must succeed for a supported combo");
    let kinds: Vec<&str> = built.steps.iter().map(|s| s.kind()).collect();
    assert_eq!(
        kinds,
        vec![
            "backup_file",
            "backup_file",
            "backup_file",
            "install_packages",
            "run_im_config",
            "set_env_var",
            "set_env_var",
            "set_env_var",
            "set_env_var",
            "set_env_var",
            "write_file",
            "systemctl_user_enable",
            "systemctl_user_disable",
            "systemctl_user_start",
            "verify",
            "verify",
            "verify",
            "prompt",
        ]
    );
    match &built.steps[0] {
        Step::BackupFile { path } => assert_eq!(path, "/etc/environment"),
        _ => panic!("first step backs up /etc/environment"),
    }
    match &built.steps[3] {
        Step::InstallPackages { manager, packages } => {
            assert_eq!(*manager, PackageManager::Apt);
            assert_eq!(
                packages,
                &vec![
                    "fcitx5",
                    "fcitx5-frontend-gtk3",
                    "fcitx5-frontend-gtk4",
                    "fcitx5-frontend-qt5",
                    "fcitx5-module-xorg",
                    "fcitx5-bamboo"
                ]
            );
        }
        _ => panic!("fourth step installs the packages"),
    }
    let env: Vec<(String, String)> = built
        .steps
        .iter()
        .filter_map(|s| match s {
            Step::SetEnvVar { file: EnvFile::EtcEnvironment, key, value } => Some((key.clone(), value.clone())),
            _ => None,
        })
        .collect();
    assert_eq!(
        env,
        vec![
            ("GTK_IM_MODULE".to_owned(), "fcitx".to_owned()),
            ("QT_IM_MODULE".to_owned(), "fcitx".to_owned()),
            ("XMODIFIERS".to_owned(), "@im=fcitx".to_owned()),
            ("SDL_IM_MODULE".to_owned(), "fcitx".to_owned()),
            ("GLFW_IM_MODULE".to_owned(), "ibus".to_owned()),
        ]
    );
    match &built.steps[12] {
        Step::SystemctlUserDisable { unit } => assert_eq!(unit, "ibus.service"),
        _ => panic!("ibus is stopped on the fixture, where it was active"),
    }
}

#[test]
fn run_visits_steps_in_order_then_finishes() {
    let mut s = run_start();
    assert_eq!(run_next(false, 2, s), RunAction::Perform { index: 0 });
    s = run_after(s, true);
    assert_eq!(run_next(true, 2, s), RunAction::Preview { index: 1 });
    s = run_after(s, true);
    assert_eq!(run_next(false, 2, s), RunAction::Finish { steps_executed: 2 });
}

#[test]
fn failed_step_turns_the_run_to_rollback() {
    let s = run_after(run_start(), true);
    let s = run_after(s, false);
    assert_eq!(s.executed, 1);
    assert_eq!(run_next(false, 5, s), RunAction::RollBack);
}

#[test]
fn restore_puts_back_or_removes() {
    let existed = Artifact::BackupFile {
        step_index: 0,
        original_path: "/etc/environment".into(),
        backup_relpath: "files/etc__environment".into(),
        sha256: "ab".into(),
        existed_before: true,
    };
    match restore_step(&existed) {
        RestoreStep::PutBack { path, backup_relpath, sha256 } => {
            assert_eq!(path, "/etc/environment");
            assert_eq!(backup_relpath, "files/etc__environment");
            assert_eq!(sha256, "ab");
        }
        other => panic!("unexpected {other:?}"),
    }
    let created = Artifact::BackupFile {
        step_index: 0,
        original_path: "/home/a/.profile".into(),
        backup_relpath: String::new(),
        sha256: String::new(),
        existed_before: false,
    };
    assert!(matches!(restore_step(&created), RestoreStep::RemoveCreated { path } if path == "/home/a/.profile"));
    let other = Artifact::VerifyOk { step_index: 1, summary: "ok".into() };
    assert!(matches!(restore_step(&other), RestoreStep::Nothing));
}

#[test]
fn backups_match_paths_by_components() {
    let mut p = Plan::new_skeleton(
        install_goal(ImFramework::Ibus, Engine::Unikey),
        PreState::fixture_ubuntu_24_04(),
    );
    p.steps.push(Step::BackupFile { path: "/etc//environment/".into() });
    p.steps.push(Step::SetEnvVar {
        file: EnvFile::EtcEnvironment,
        key: "GTK_IM_MODULE".into(),
        value: "ibus".into(),
    });
    assert!(validate_plan(&p).is_ok());
    p.steps.push(Step::WriteFile { path: "/home/vietime/./.xinputrc".into(), content: String::new(), mode: 0 });
    assert!(matches!(validate_plan(&p), Err(PlanError::MissingBackup { index: 2, .. })));
    p.steps.insert(2, Step::BackupFile { path: "/home/vietime/.xinputrc".into() });
    assert!(validate_plan(&p).is_ok());
}

#[test]
fn plan_errors_say_what_went_wrong() {
    let err = plan(PreState::fixture_fedora_40(), install_goal(ImFramework::Fcitx5, Engine::Bamboo)).unwrap_err();
    assert_eq!(
        err.message(),
        "combo `fcitx5-bamboo` is not yet supported on distro family Redhat. See tasks/phase-2-installer.md INS-53 (Fedora/Arch) or INS-50/51."
    );
    let missing = PlanError::MissingBackup { index: 3, kind: "set_env_var", target: "/etc/environment".into() };
    assert_eq!(
        missing.message(),
        "plan invariant violated at step 3 (set_env_var): step mutates `/etc/environment` without a preceding BackupFile"
    );
}
