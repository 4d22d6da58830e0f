//! The atomic-write protocol.
//!
//! A save never writes the destination file in place. The document is
//! written to a temporary file in the same directory, the temporary file is
//! synced, and only then renamed over the destination; the rename either
//! happens entirely or not at all. This module models the protocol over the
//! two files' contents and proves that a crash at any step leaves the
//! previous destination document untouched — a reader never sees a
//! truncated or partial document.

use vstd::prelude::*;

verus! {

/// The two files the protocol touches: the destination document and the
/// temporary file beside it. `None` is "no such file".
pub struct BackendFiles {
    /// The persisted document that readers load.
    pub destination: Option<Vec<u8>>,
    /// The temporary file the new contents are staged in.
    pub temp: Option<Vec<u8>>,
}

/// The contents of an optional file, as bytes.
pub open spec fn file_view(f: Option<Vec<u8>>) -> Option<Seq<u8>> {
    match f {
        Option::Some(b) => Option::Some(b@),
        Option::None => Option::None,
    }
}

/// Where a crash interrupts the protocol, if anywhere.
pub enum WriteInterruption {
    /// The process dies before anything is written.
    BeforeTempWrite,
    /// The process dies while writing the temporary file: only this many
    /// bytes of the new contents reached it.
    DuringTempWrite(usize),
    /// The temporary file is complete and synced, but the process dies
    /// before the rename.
    BeforeRename,
    /// No crash: the rename happens and the save completes.
    RunsToCompletion,
}

/// Runs the write-to-temp-then-rename protocol over the file model,
/// interrupted (or not) at the given point. Returns whether the save
/// completed.
///
/// Whatever the interruption, the destination afterwards holds either the
/// previous document, byte for byte, or the complete new contents — never
/// a truncated mixture. Only the temporary file may be left partial.
pub fn write_atomically(files: &mut BackendFiles, contents: &Vec<u8>, crash: &WriteInterruption)
    -> (completed: bool)
    ensures
        file_view(final(files).destination) == file_view(old(files).destination) || file_view(
            final(files).destination,
        ) == Option::Some(contents@),
        completed == (crash is RunsToCompletion),
        !completed ==> file_view(final(files).destination) == file_view(old(files).destination),
        completed ==> file_view(final(files).destination) == Option::Some(contents@),
        completed ==> final(files).temp is None,
{
    match crash {
        WriteInterruption::BeforeTempWrite => false,
        WriteInterruption::DuringTempWrite(n) => {
            let cut = if *n < contents.len() {
                *n
            } else {
                contents.len()
            };
            let mut partial: Vec<u8> = Vec::new();
            let mut i: usize = 0;
            while i < cut
                invariant
                    cut <= contents.len(),
                    i <= cut,
                    partial@ =~= contents@.take(i as int),
                decreases cut - i,
            {
                partial.push(contents[i]);
                i = i + 1;
            }
            files.temp = Option::Some(partial);
            false
        },
        WriteInterruption::BeforeRename => {
            files.temp = Option::Some(crate::value::clone_bytes(contents));
            false
        },
        WriteInterruption::RunsToCompletion => {
            files.destination = Option::Some(crate::value::clone_bytes(contents));
            files.temp = Option::None;
            true
        },
    }
}

} // verus!
