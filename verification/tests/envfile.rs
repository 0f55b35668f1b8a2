use vietime::envfile::{EnvFileDoc, EnvFileError, Format, MARKER_END, MARKER_START};
use vietime::executor::{set_env_var_update, unset_env_var_update, EnvRemoval, EnvUpdate};

#[test]
fn parse_roundtrips_key_value_file_without_block() {
    let src = "FOO=bar\nBAZ=qux\n";
    let doc = EnvFileDoc::parse(src, Format::KeyValue).unwrap();
    assert!(doc.managed().is_empty(), "no managed block → no managed keys");
    assert_eq!(doc.render(), "FOO=bar\nBAZ=qux\n", "idempotent on untouched file");
}

#[test]
fn set_appends_managed_block_if_none_exists() {
    let src = "FOO=bar\n";
    let mut doc = EnvFileDoc::parse(src, Format::KeyValue).unwrap();
    doc.set("GTK_IM_MODULE", "fcitx");
    let out = doc.render();
    assert!(out.contains("FOO=bar"), "preserves user content");
    assert!(out.contains(MARKER_START), "adds opening marker");
    assert!(out.contains(MARKER_END), "adds closing marker");
    assert!(out.contains("GTK_IM_MODULE=fcitx"), "writes new key");
}

#[test]
fn set_is_idempotent() {
    let src = "FOO=bar\n";
    let mut doc = EnvFileDoc::parse(src, Format::KeyValue).unwrap();
    doc.set("GTK_IM_MODULE", "fcitx");
    let first = doc.render();
    let mut doc2 = EnvFileDoc::parse(&first, Format::KeyValue).unwrap();
    doc2.set("GTK_IM_MODULE", "fcitx");
    assert_eq!(doc2.render(), first, "re-setting the same value is a no-op");
}

#[test]
fn set_overwrites_existing_key_without_duplicating() {
    let src = "FOO=bar\n";
    let mut doc = EnvFileDoc::parse(src, Format::KeyValue).unwrap();
    doc.set("GTK_IM_MODULE", "ibus");
    doc.set("GTK_IM_MODULE", "fcitx");
    let out = doc.render();
    assert_eq!(out.matches("GTK_IM_MODULE=").count(), 1, "one key per block");
    assert!(out.contains("GTK_IM_MODULE=fcitx"));
}

#[test]
fn unset_removes_key_from_managed_block() {
    let src = format!(
        "{MARKER_START}\n# managed\nGTK_IM_MODULE=fcitx\nQT_IM_MODULE=fcitx\n{MARKER_END}\n"
    );
    let mut doc = EnvFileDoc::parse(&src, Format::KeyValue).unwrap();
    assert!(doc.unset("GTK_IM_MODULE"));
    let out = doc.render();
    assert!(!out.contains("GTK_IM_MODULE"));
    assert!(out.contains("QT_IM_MODULE=fcitx"));
}

#[test]
fn unset_returns_false_for_missing_key() {
    let mut doc = EnvFileDoc::parse("", Format::KeyValue).unwrap();
    assert!(!doc.unset("NOTHING"), "returns false when key absent");
}

#[test]
fn unbalanced_marker_errors() {
    let src = format!("FOO=bar\n{MARKER_START}\nGTK_IM_MODULE=fcitx\n");
    let err = EnvFileDoc::parse(&src, Format::KeyValue).unwrap_err();
    assert!(matches!(err, EnvFileError::UnbalancedMarkers));
}

#[test]
fn multiple_managed_blocks_error() {
    let src = format!("{MARKER_START}\nA=1\n{MARKER_END}\n{MARKER_START}\nB=2\n{MARKER_END}\n");
    let err = EnvFileDoc::parse(&src, Format::KeyValue).unwrap_err();
    assert!(matches!(err, EnvFileError::MultipleManagedBlocks));
}

#[test]
fn posix_shell_export_format_roundtrips() {
    let src = "# user comment\nexport PATH=/usr/bin\n";
    let mut doc = EnvFileDoc::parse(src, Format::PosixShellExport).unwrap();
    doc.set("GTK_IM_MODULE", "fcitx");
    let out = doc.render();
    assert!(out.contains("# user comment"));
    assert!(out.contains("export PATH=/usr/bin"));
    assert!(out.contains("export GTK_IM_MODULE=fcitx"));
}

#[test]
fn prefix_and_suffix_preserved_byte_for_byte() {
    let src = format!(
        "# header\nUSER_VAR=1\n{MARKER_START}\nGTK_IM_MODULE=fcitx\n{MARKER_END}\n# footer\n"
    );
    let doc = EnvFileDoc::parse(&src, Format::KeyValue).unwrap();
    let out = doc.render();
    assert!(out.starts_with("# header\nUSER_VAR=1\n"));
    assert!(out.trim_end().ends_with("# footer"));
}

#[test]
fn invalid_assignment_in_block_errors() {
    let src = format!("{MARKER_START}\nthis is not a kv line\n{MARKER_END}\n");
    let err = EnvFileDoc::parse(&src, Format::KeyValue).unwrap_err();
    assert!(matches!(err, EnvFileError::InvalidAssignment { .. }));
}

#[test]
fn quoted_values_are_unquoted_on_parse() {
    let src = format!("{MARKER_START}\nGTK_IM_MODULE=\"fcitx\"\n{MARKER_END}\n");
    let doc = EnvFileDoc::parse(&src, Format::KeyValue).unwrap();
    assert_eq!(doc.managed().get("GTK_IM_MODULE"), Some(&"fcitx".to_owned()));
}

#[test]
fn empty_input_and_empty_set_produces_empty_output() {
    let doc = EnvFileDoc::parse("", Format::KeyValue).unwrap();
    assert_eq!(doc.render(), "\n", "empty file → single newline");
}

// ---- further cases

#[test]
fn invalid_assignment_reports_line_within_block() {
    let src = format!("{MARKER_START}\nA=1\nnot an assignment\n{MARKER_END}\n");
    match EnvFileDoc::parse(&src, Format::KeyValue) {
        Err(EnvFileError::InvalidAssignment { line, raw }) => {
            assert_eq!(line, 2);
            assert_eq!(raw, "not an assignment");
        }
        other => panic!("unexpected: {other:?}"),
    }
}

#[test]
fn end_marker_without_start_is_unbalanced() {
    let src = format!("A=1\n{MARKER_END}\n");
    let err = EnvFileDoc::parse(&src, Format::KeyValue).unwrap_err();
    assert!(matches!(err, EnvFileError::UnbalancedMarkers));
}

#[test]
fn rendered_block_reads_back_the_same_assignments() {
    let mut doc = EnvFileDoc::parse("X=1\n", Format::KeyValue).unwrap();
    doc.set("QT_IM_MODULE", "fcitx");
    doc.set("GTK_IM_MODULE", "fcitx");
    let text = doc.render();
    let back = EnvFileDoc::parse(&text, Format::KeyValue).unwrap();
    assert_eq!(back.managed().get("GTK_IM_MODULE"), Some(&"fcitx".to_owned()));
    assert_eq!(back.managed().get("QT_IM_MODULE"), Some(&"fcitx".to_owned()));
    assert_eq!(back.managed().len(), 2);
    assert_eq!(back.render(), text);
}

#[test]
fn later_assignment_of_a_key_wins_on_parse() {
    let src = format!("{MARKER_START}\nK=a\nK=b\n{MARKER_END}\n");
    let doc = EnvFileDoc::parse(&src, Format::KeyValue).unwrap();
    assert_eq!(doc.managed().get("K"), Some(&"b".to_owned()));
    assert_eq!(doc.managed().len(), 1);
}

#[test]
fn set_env_var_update_writes_then_reports_unchanged() {
    let first = match set_env_var_update("FOO=bar\n", Format::KeyValue, "GTK_IM_MODULE", "fcitx") {
        Ok(EnvUpdate::Write(s)) => s,
        other => panic!("unexpected: {other:?}"),
    };
    assert!(first.contains("GTK_IM_MODULE=fcitx"));
    assert!(matches!(
        set_env_var_update(&first, Format::KeyValue, "GTK_IM_MODULE", "fcitx"),
        Ok(EnvUpdate::Unchanged)
    ));
}

#[test]
fn set_env_var_update_refuses_broken_file() {
    let src = format!("{MARKER_START}\nA=1\n");
    assert!(matches!(
        set_env_var_update(&src, Format::KeyValue, "A", "2"),
        Err(EnvFileError::UnbalancedMarkers)
    ));
}

#[test]
fn unset_env_var_update_cases() {
    assert!(matches!(
        unset_env_var_update("FOO=bar\n", Format::KeyValue, "GTK_IM_MODULE"),
        Ok(EnvRemoval::NotPresent)
    ));
    let src = format!("{MARKER_START}\nGTK_IM_MODULE=fcitx\nQT_IM_MODULE=fcitx\n{MARKER_END}\n");
    match unset_env_var_update(&src, Format::KeyValue, "GTK_IM_MODULE") {
        Ok(EnvRemoval::Write(s)) => {
            assert!(!s.contains("GTK_IM_MODULE"));
            assert!(s.contains("QT_IM_MODULE=fcitx"));
        }
        other => panic!("unexpected: {other:?}"),
    }
}

#[test]
fn rendered_file_is_stable_under_reparse() {
    let src = "# header\nUSER=1\n\n\n# >>> VietIME managed start >>>\nB=2\nA=1\n# <<< VietIME managed end <<<\n# footer\n\n\n";
    let doc = EnvFileDoc::parse(src, Format::KeyValue).unwrap();
    let first = doc.render();
    let again = EnvFileDoc::parse(&first, Format::KeyValue).unwrap().render();
    assert_eq!(again, first);
    assert!(first.ends_with("# footer\n"));
}

#[test]
fn unset_after_set_restores_the_assignments() {
    let mut doc = EnvFileDoc::parse("X=1\n", Format::PosixShellExport).unwrap();
    let before = doc.render();
    doc.set("GTK_IM_MODULE", "fcitx");
    assert!(doc.unset("GTK_IM_MODULE"));
    assert!(doc.managed().is_empty());
    // The block stays, empty, so a later set lands in the same place.
    let out = doc.render();
    assert_ne!(out, before);
    assert!(out.contains("# >>> VietIME managed start >>>"));
    assert!(!out.contains("GTK_IM_MODULE"));
}

#[test]
fn setting_a_quoted_value_again_changes_nothing() {
    let src = "PATH=/usr/bin\n# comment\n";
    let mut d = EnvFileDoc::parse(src, Format::KeyValue).unwrap();
    d.set("GTK_IM_MODULE", "\"fcitx\"");
    let s1 = d.render();
    let mut d2 = EnvFileDoc::parse(&s1, Format::KeyValue).unwrap();
    d2.set("GTK_IM_MODULE", "\"fcitx\"");
    assert_eq!(d2.render(), s1);
}

#[test]
fn setting_a_key_twice_leaves_one_line() {
    let mut d = EnvFileDoc::parse("", Format::PosixShellExport).unwrap();
    d.set("QT_IM_MODULE", "ibus");
    d.set("QT_IM_MODULE", "fcitx");
    let out = d.render();
    assert_eq!(out.lines().filter(|l| l.contains("QT_IM_MODULE")).count(), 1);
    assert!(out.contains("export QT_IM_MODULE=fcitx\n"));
}
