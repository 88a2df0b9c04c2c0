use encscan::safety::{readability_verdict, ConversionSafety, FileAction, FileEvent, FileRun, FileStage, SafetyError};

#[test]
fn run_paths_carry_the_timestamp() {
    let s = ConversionSafety::new("/in", "/out", true, "20240101_120000");
    assert_eq!(s.get_backup_dir().unwrap(), "/out/backup_20240101_120000");
    assert_eq!(s.get_log_file(), "/out/conversion_log_20240101_120000.txt");
    let off = ConversionSafety::new("/in", "/out", false, "20240101_120000");
    assert!(off.get_backup_dir().is_none());
}

#[test]
fn backup_keeps_relative_path() {
    let s = ConversionSafety::new("/in", "/out", true, "t");
    assert_eq!(s.backup_path_for("/in/sub/f.txt").unwrap().unwrap(), "/out/backup_t/sub/f.txt");
    assert!(matches!(s.backup_path_for("/elsewhere/f.txt"), Err(SafetyError::BackupFailed(_))));
    let off = ConversionSafety::new("/in", "/out", false, "t");
    assert!(matches!(off.backup_path_for("/in/f.txt"), Ok(None)));
}

#[test]
fn verification_outcomes() {
    let s = ConversionSafety::new("/in", "/out", false, "t");
    assert!(matches!(s.verify_conversion(b""), Err(SafetyError::VerificationFailed(_))));
    assert!(s.verify_conversion(b"plain text\n\tok\r\n").is_ok());
    assert!(s.verify_conversion("caf\u{e9}\n".as_bytes()).is_ok());
    assert!(matches!(s.verify_conversion(b"bad\x01byte"), Err(SafetyError::VerificationFailed(_))));
    assert!(matches!(s.verify_conversion(b"a\x01b"), Err(SafetyError::VerificationFailed(_))));
    assert!(s.verify_conversion(&[0xFF, 0xFE, b'h', 0, b'i', 0, b'\n', 0]).is_ok());
}

#[test]
fn verdict_on_decoded_text() {
    assert!(readability_verdict(&"a\tb\n".chars().collect(), false).is_ok());
    assert!(readability_verdict(&"a\u{85}b".chars().collect(), false).is_ok());
    assert!(readability_verdict(&"a\u{7f}".chars().collect(), false).is_err());
    assert!(readability_verdict(&"ab".chars().collect(), true).is_err());
}

fn backed_up(s: &ConversionSafety, backup: Option<&str>) -> FileRun {
    let (run, action) = s.step(FileRun::start(), FileEvent::BackupTaken(backup.map(|b| b.to_string())), false);
    assert!(matches!(action, FileAction::Convert));
    assert_eq!(run.stage, FileStage::BackedUp);
    run
}

#[test]
fn failed_verification_restores_backup() {
    let s = ConversionSafety::new("/in", "/out", true, "t");
    let run = backed_up(&s, Some("/out/backup_t/f.txt"));
    let (run, action) = s.step(run, FileEvent::ConversionSucceeded, false);
    assert_eq!(run.stage, FileStage::Converted);
    assert!(matches!(action, FileAction::Verify));
    let (run, action) = s.step(run, FileEvent::VerificationError, false);
    assert_eq!(run.stage, FileStage::VerificationFailed);
    match action {
        FileAction::Restore(b) => assert_eq!(b, "/out/backup_t/f.txt"),
        _ => panic!("expected a restore"),
    }
    let (run, action) = s.step(run, FileEvent::RestoreDone, false);
    assert_eq!(run.stage, FileStage::RolledBack);
    assert!(matches!(action, FileAction::Finish));
}

#[test]
fn failures_without_backups_just_finish() {
    let off = ConversionSafety::new("/in", "/out", false, "t");
    let run = backed_up(&off, None);
    let (run, action) = off.step(run, FileEvent::ConversionError, false);
    assert_eq!(run.stage, FileStage::ConversionFailed);
    assert!(matches!(action, FileAction::Finish));
}

#[test]
fn successful_runs_and_skipped_verification() {
    let s = ConversionSafety::new("/in", "/out", true, "t");
    let run = backed_up(&s, Some("/out/backup_t/f.txt"));
    let (run, action) = s.step(run, FileEvent::ConversionSucceeded, true);
    assert_eq!(run.stage, FileStage::Verified);
    assert!(matches!(action, FileAction::Finish));
    let run = backed_up(&s, None);
    let (run, _) = s.step(run, FileEvent::ConversionSucceeded, false);
    let (run, action) = s.step(run, FileEvent::VerificationPassed, false);
    assert_eq!(run.stage, FileStage::Verified);
    assert!(matches!(action, FileAction::Finish));
    let (aborted, action) = s.step(FileRun::start(), FileEvent::BackupError, false);
    assert_eq!(aborted.stage, FileStage::BackupAborted);
    assert!(matches!(action, FileAction::Finish));
    let (same, action) = s.step(FileRun::start(), FileEvent::VerificationPassed, false);
    assert_eq!(same.stage, FileStage::Pending);
    assert!(matches!(action, FileAction::Finish));
}
