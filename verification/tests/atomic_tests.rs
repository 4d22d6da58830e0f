//! Tests of the atomic-write protocol model: a crash at any step leaves
//! the previous document intact.

use simple_preferences::atomic::BackendFiles;
use simple_preferences::atomic::WriteInterruption;
use simple_preferences::atomic::write_atomically;

fn files_with_old_document() -> BackendFiles {
    BackendFiles {
        destination: Some(b"previous document".to_vec()),
        temp: None,
    }
}

#[test]
fn crash_before_temp_write_keeps_old_document() {
    let mut files = files_with_old_document();
    let completed = write_atomically(
        &mut files,
        &b"new document".to_vec(),
        &WriteInterruption::BeforeTempWrite,
    );
    assert!(!completed);
    assert_eq!(files.destination, Some(b"previous document".to_vec()));
}

#[test]
fn crash_during_temp_write_keeps_old_document() {
    let mut files = files_with_old_document();
    let completed = write_atomically(
        &mut files,
        &b"new document".to_vec(),
        &WriteInterruption::DuringTempWrite(3),
    );
    assert!(!completed);
    // The temporary file may be partial, but the destination is untouched.
    assert_eq!(files.temp, Some(b"new".to_vec()));
    assert_eq!(files.destination, Some(b"previous document".to_vec()));
}

#[test]
fn crash_before_rename_keeps_old_document() {
    let mut files = files_with_old_document();
    let completed = write_atomically(
        &mut files,
        &b"new document".to_vec(),
        &WriteInterruption::BeforeRename,
    );
    assert!(!completed);
    assert_eq!(files.temp, Some(b"new document".to_vec()));
    assert_eq!(files.destination, Some(b"previous document".to_vec()));
}

#[test]
fn completed_write_replaces_document_and_removes_temp() {
    let mut files = files_with_old_document();
    let completed = write_atomically(
        &mut files,
        &b"new document".to_vec(),
        &WriteInterruption::RunsToCompletion,
    );
    assert!(completed);
    assert_eq!(files.destination, Some(b"new document".to_vec()));
    assert_eq!(files.temp, None);
}

#[test]
fn crash_on_first_run_leaves_no_document() {
    // First run: no destination yet. A crashed save must not conjure a
    // partial document into existence.
    let mut files = BackendFiles { destination: None, temp: None };
    let completed = write_atomically(
        &mut files,
        &b"new document".to_vec(),
        &WriteInterruption::DuringTempWrite(5),
    );
    assert!(!completed);
    assert_eq!(files.destination, None);
}
