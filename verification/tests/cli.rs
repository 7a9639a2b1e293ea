use nwnarmory::batch::Batch;
use nwnarmory::cli::{parse_command_line, Command};
use nwnarmory::model::BitmapMode;

fn args(v: &[&str]) -> Vec<String> {
    v.iter().map(|s| s.to_string()).collect()
}

#[test]
fn transform_command_with_options() {
    match parse_command_line(&args(&["-d", "rules.ini", "--rename-bitmap=tex", "src", "out"])) {
        Command::Transform { ini, source, dest, debug, mode, material } => {
            assert_eq!(ini, "rules.ini");
            assert_eq!(source, "src");
            assert_eq!(dest, "out");
            assert!(debug);
            assert!(matches!(mode, BitmapMode::RenameTo(ref n) if n == "tex"));
            assert!(matches!(material, BitmapMode::Keep));
        }
        _ => panic!("expected the transform mode"),
    }
    assert!(matches!(parse_command_line(&args(&["a", "b"])), Command::Usage));
}

#[test]
fn materialname_option() {
    match parse_command_line(&args(&["--rename-materialname", "rules.ini", "src", "out"])) {
        Command::Transform { ini, mode, material, .. } => {
            assert_eq!(ini, "rules.ini");
            assert!(matches!(mode, BitmapMode::Keep));
            assert!(matches!(material, BitmapMode::RenameToModel));
        }
        _ => panic!("expected the transform mode"),
    }
    match parse_command_line(&args(&["rules.ini", "--rename-materialname=mat01", "src", "out"])) {
        Command::Transform { material, .. } => {
            assert!(matches!(material, BitmapMode::RenameTo(ref n) if n == "mat01"));
        }
        _ => panic!("expected the transform mode"),
    }
}

#[test]
fn values_command() {
    match parse_command_line(&args(&["a.mdl", "-v", "b.mdl"])) {
        Command::Values { source, target } => {
            assert_eq!(source, "a.mdl");
            assert_eq!(target, "b.mdl");
        }
        _ => panic!("expected the values mode"),
    }
    assert!(matches!(parse_command_line(&args(&["--values", "a.mdl"])), Command::ValuesUsage));
}

#[test]
fn batch_grants_each_target_once_and_reports() {
    let mut b = Batch::new();
    assert!(b.reserve("same.mdl"));
    b.record_written();
    assert!(!b.reserve("same.mdl"));
    assert_eq!(b.summary(), "Done: 1 file(s) written, 1 skipped due to name collision, 0 file(s) failed.");
    assert_eq!(b.outcome().unwrap_err(), "batch completed with 1 collision(s) and 0 failure(s)");
    let mut ok = Batch::new();
    assert!(ok.reserve("a.mdl"));
    ok.record_written();
    assert!(ok.outcome().is_ok());
    ok.record_failed();
    assert!(ok.outcome().unwrap_err().contains("1 failure(s)"));
}
