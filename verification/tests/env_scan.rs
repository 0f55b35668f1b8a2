use vietime::apps::{electron_probe, electron_target};
use vietime::detectors::{home_profile_paths, profile_d_paths, scan_env_files, ReadEnvFile};
use vietime::model::epoch_seconds;

const KEYS: [&str; 3] = ["GTK_IM_MODULE", "QT_IM_MODULE", "XMODIFIERS"];

fn file(path: &str, pairs: &[(&str, &str)]) -> ReadEnvFile {
    ReadEnvFile {
        path: path.to_owned(),
        assignments: Some(pairs.iter().map(|(k, v)| ((*k).to_owned(), (*v).to_owned())).collect()),
    }
}

fn get<'a>(vars: &'a [(String, String)], key: &str) -> Option<&'a str> {
    vars.iter().rev().find(|(k, _)| k == key).map(|(_, v)| v.as_str())
}

#[test]
fn profile_wins_over_bashrc_on_same_key() {
    let files = vec![
        file("/home/alice/.profile", &[("GTK_IM_MODULE", "ibus")]),
        file("/home/alice/.bashrc", &[("GTK_IM_MODULE", "fcitx"), ("QT_IM_MODULE", "fcitx")]),
        ReadEnvFile { path: "/home/alice/.zshrc".into(), assignments: None },
    ];
    let scan = scan_env_files(&files, &KEYS).expect("something read");
    assert_eq!(get(&scan.vars, "GTK_IM_MODULE"), Some("ibus"));
    assert_eq!(get(&scan.vars, "QT_IM_MODULE"), Some("fcitx"));
    assert_eq!(get(&scan.vars, "XMODIFIERS"), None);
    assert_eq!(scan.notes, vec!["parsed /home/alice/.profile", "parsed /home/alice/.bashrc"]);
}

#[test]
fn unwatched_keys_are_left_out() {
    let files = vec![file("/etc/profile.d/a.sh", &[("PATH", "/bin"), ("XMODIFIERS", "@im=fcitx")])];
    let scan = scan_env_files(&files, &KEYS).expect("something read");
    assert_eq!(scan.vars, vec![("XMODIFIERS".to_owned(), "@im=fcitx".to_owned())]);
}

#[test]
fn no_readable_file_means_no_report() {
    assert!(scan_env_files(&Vec::new(), &KEYS).is_none());
    let unreadable = vec![ReadEnvFile { path: "/home/x/.profile".into(), assignments: None }];
    assert!(scan_env_files(&unreadable, &KEYS).is_none());
    let empty = vec![file("/home/x/.profile", &[])];
    let scan = scan_env_files(&empty, &KEYS).expect("a file was read");
    assert!(scan.vars.is_empty());
    assert_eq!(scan.notes, vec!["parsed /home/x/.profile"]);
}

#[test]
fn home_profile_files_in_reading_order() {
    let names = vec!["20-b.conf".to_owned(), "notes.txt".to_owned(), "10-a.conf".to_owned()];
    let paths = home_profile_paths(Some("/home/alice"), Some("/tmp/root"), &names).expect("HOME set");
    assert_eq!(
        paths,
        vec![
            "/tmp/root/home/alice/.profile",
            "/tmp/root/home/alice/.bashrc",
            "/tmp/root/home/alice/.zshrc",
            "/tmp/root/home/alice/.config/environment.d/10-a.conf",
            "/tmp/root/home/alice/.config/environment.d/20-b.conf",
        ]
    );
    assert!(home_profile_paths(None, None, &names).is_none());
}

#[test]
fn profile_d_reads_only_sh_by_name() {
    let names = vec!["zz.sh".to_owned(), "README".to_owned(), "aa.sh".to_owned(), "x.csh".to_owned()];
    assert_eq!(profile_d_paths(None, &names), vec!["/etc/profile.d/aa.sh", "/etc/profile.d/zz.sh"]);
    assert_eq!(profile_d_paths(Some("/tmp/r"), &names), vec!["/tmp/r/etc/profile.d/aa.sh", "/tmp/r/etc/profile.d/zz.sh"]);
}

#[test]
fn electron_probe_reads_version_and_ozone_flag() {
    assert!(electron_target(None).is_none());
    assert!(electron_target(Some("no-such-app")).is_none());
    let p = electron_target(Some("vscode")).expect("vscode is an Electron app");
    let running = vec![vec!["/usr/bin/code".to_owned(), "--ozone-platform=wayland".to_owned()]];
    let (facts, notes) =
        electron_probe(&p, "/usr/bin/code".into(), b"xx Electron/28.2.1 yy", &running, Some("x11"))
            .expect("learned something");
    assert_eq!(facts.electron_version.as_deref(), Some("28.2.1"));
    assert_eq!(facts.uses_wayland, Some(true));
    assert_eq!(notes.len(), 2);
    assert!(electron_probe(&p, "/usr/bin/code".into(), b"", &Vec::new(), Some("x11")).is_none());
    let (f2, _) = electron_probe(&p, "/usr/bin/code".into(), b"", &Vec::new(), Some("Wayland")).unwrap();
    assert_eq!(f2.uses_wayland, Some(false));
    assert_eq!(f2.electron_version, None);
}

#[test]
fn clock_readings_become_signed_seconds() {
    assert_eq!(epoch_seconds(Ok(1_700_000_000)), 1_700_000_000);
    assert_eq!(epoch_seconds(Err(5)), -5);
    assert_eq!(epoch_seconds(Ok(u64::MAX)), i64::MAX);
    assert_eq!(epoch_seconds(Err(u64::MAX)), -i64::MAX);
}
