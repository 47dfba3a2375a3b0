//! Batch retrieval: pulling files from the device, one outcome per file.
//!
//! Each file is pulled on its own. Its size is asked for first, and counts
//! as 0 where it cannot be had; then the file is pulled once. What came of
//! either is recorded per file, so that one failure never hides the others.

use crate::errors::{heading, AppError, ErrorKind, ErrorView};
use crate::gateway::{output_of, result_view};
use crate::models::{MediaTransferResult, MediaTransferResultView};
use crate::number::{parse_decimal, parse_u64};
use crate::paths::{file_name_chars, file_name_of};
use crate::scan::{trim, trimmed};
use crate::text::{append_str, chars_of, string_of, texts};
use crate::thumbnail::{invalid_path, pull_arguments, pull_command};
use vstd::prelude::*;

verus! {

/// What was tried for one file of a batch, and what came of it.
#[derive(Debug)]
pub struct PullAttempt {
    /// The remote path of the file.
    pub source_path: String,
    /// The size of the file on the device, if it could be had.
    pub size_bytes: Option<u64>,
    /// The local path of the pulled file, or why the pull failed.
    pub outcome: Result<String, AppError>,
}

/// The arguments of the command that prints the size of `path`.
pub open spec fn size_arguments(serial: Seq<char>, path: Seq<char>) -> Seq<Seq<char>> {
    seq!["-s"@, serial, "shell"@, "stat"@, "-c"@, "%s"@, path]
}

/// The size that the output of the size command gives for `path`, or the
/// failure to read a number from it.
pub open spec fn size_from(output: Seq<char>, path: Seq<char>) -> Result<u64, ErrorView> {
    match parse_decimal(trim(output)) {
        Some(n) => Ok(n),
        None => Err(
            ErrorView {
                kind: ErrorKind::AdbExecutionFailed,
                detail: "Failed to parse file size for "@ + path,
            },
        ),
    }
}

/// The result that records the attempt.
pub open spec fn recorded(attempt: PullAttempt) -> MediaTransferResultView {
    MediaTransferResultView {
        source_path: attempt.source_path@,
        dest_path: match attempt.outcome {
            Ok(path) => Some(path@),
            Err(_) => None,
        },
        success: attempt.outcome is Ok,
        error: match attempt.outcome {
            Ok(_) => None,
            Err(e) => Some(heading(e@.kind) + e@.detail),
        },
        size_bytes: match attempt.size_bytes {
            Some(n) => n,
            None => 0,
        },
    }
}

/// The arguments with which the remote-control executable prints the size
/// of the file `path` on the device `serial`.
pub fn file_size_command(serial: &str, path: &str) -> (arguments: Vec<String>)
    ensures
        texts(arguments@) == size_arguments(serial@, path@),
{
    let mut arguments: Vec<String> = Vec::new();
    arguments.push("-s".to_owned());
    arguments.push(serial.to_owned());
    arguments.push("shell".to_owned());
    arguments.push("stat".to_owned());
    arguments.push("-c".to_owned());
    arguments.push("%s".to_owned());
    arguments.push(path.to_owned());
    proof {
        assert(texts(arguments@) =~= size_arguments(serial@, path@));
    }
    arguments
}

/// The size of the file `path` that the outcome of the size command gives:
/// the number it printed, the failure of the command, or the failure to
/// read a number from what it printed.
pub fn get_file_size(outcome: &Result<String, AppError>, path: &str) -> (size: Result<
    u64,
    AppError,
>)
    ensures
        match *outcome {
            Ok(output) => match size_from(output@, path@) {
                Ok(n) => size == Ok::<u64, AppError>(n),
                Err(e) => size matches Err(got) && got@ == e,
            },
            Err(failure) => size matches Err(got) && got@ == failure@,
        },
{
    match outcome {
        Ok(output) => {
            match parse_u64(&trimmed(&chars_of(output.as_str()))) {
                Some(n) => Ok(n),
                None => {
                    let mut detail = chars_of("Failed to parse file size for ");
                    append_str(&mut detail, path);
                    Err(AppError::AdbExecutionFailed(string_of(&detail)))
                },
            }
        },
        Err(failure) => Err(failure.duplicate()),
    }
}

/// The arguments with which the remote-control executable pulls the file
/// `remote_path` from the device `serial` to `local_path`, or the failure
/// of a remote path that names no file. `local_path` is where the file is
/// to lie: the destination directory and the file name of the remote path.
pub fn pull_media_file(serial: &str, remote_path: &str, local_path: &str) -> (r: Result<
    Vec<String>,
    AppError,
>)
    ensures
        match r {
            Ok(arguments) => file_name_of(remote_path@) is Some && texts(arguments@)
                == pull_arguments(serial@, remote_path@, local_path@),
            Err(e) => file_name_of(remote_path@) is None && e@ == invalid_path(),
        },
{
    match file_name_chars(&chars_of(remote_path)) {
        Some(_) => Ok(pull_command(serial, remote_path, local_path)),
        None => Err(AppError::InvalidPath("Invalid remote path".to_owned())),
    }
}

/// The result that records one attempt.
pub fn transfer_result(attempt: &PullAttempt) -> (result: MediaTransferResult)
    ensures
        result@ == recorded(*attempt),
{
    let size_bytes: u64 = match attempt.size_bytes {
        Some(n) => n,
        None => 0,
    };
    match &attempt.outcome {
        Ok(path) => MediaTransferResult {
            source_path: attempt.source_path.clone(),
            dest_path: Some(path.clone()),
            success: true,
            error: None,
            size_bytes,
        },
        Err(e) => MediaTransferResult {
            source_path: attempt.source_path.clone(),
            dest_path: None,
            success: false,
            error: Some(e.message()),
            size_bytes,
        },
    }
}

/// The results of a batch: one per attempt, in the order of the attempts,
/// each telling of its own attempt alone.
pub fn pull_media_files_batch(attempts: &Vec<PullAttempt>) -> (results: Vec<MediaTransferResult>)
    ensures
        results.len() == attempts.len(),
        forall|i: int| 0 <= i < attempts.len() ==> (#[trigger] results@[i])@ == recorded(attempts@[i]),
{
    let mut results: Vec<MediaTransferResult> = Vec::new();
    let mut i: usize = 0;
    while i < attempts.len()
        invariant
            i <= attempts.len(),
            results.len() == i,
            forall|k: int| 0 <= k < i ==> (#[trigger] results@[k])@ == recorded(attempts@[k]),
        decreases attempts.len() - i,
    {
        results.push(transfer_result(&attempts[i]));
        i += 1;
    }
    results
}

/// A failed pull is recorded as a failure with a message that is not empty,
/// a successful one as a success with the local path; neither says anything
/// about another attempt.
pub proof fn lemma_recorded_tells_outcome(attempt: PullAttempt)
    ensures
        recorded(attempt).success == (attempt.outcome is Ok),
        attempt.outcome is Ok ==> recorded(attempt).error is None && recorded(attempt).dest_path
            is Some,
        attempt.outcome is Err ==> recorded(attempt).dest_path is None && recorded(attempt).error
            is Some && recorded(attempt).error->0.len() > 0,
{
    reveal_strlit("ADB not found: ");
    reveal_strlit("ADB execution failed: ");
    reveal_strlit("Invalid path: ");
    reveal_strlit("IO error: ");
    reveal_strlit("Settings error: ");
    reveal_strlit("Device not found: ");
    reveal_strlit("scrcpy not found: ");
    reveal_strlit("Mirror error: ");
    reveal_strlit("Transfer error: ");
    reveal_strlit("Thumbnail not available: ");
}

} // verus!
