//! The remote command gateway: what a finished run of the remote-control
//! executable means to the caller.
//!
//! Running the executable is the application's business. What came of it is
//! handed over as plain values, and judged here: the captured output where
//! the process ran and reported success, a failure otherwise.

use crate::errors::{AppError, ErrorKind, ErrorView};
use crate::text::{append_str, chars_of, string_of};
use vstd::prelude::*;

verus! {

/// What a process left behind when it exited.
#[derive(Clone, Debug, PartialEq, Eq)]
pub struct ProcessOutput {
    /// Whether the exit status reported success.
    pub success: bool,
    /// The captured standard output, as text.
    pub stdout: String,
    /// The captured standard error, as text.
    pub stderr: String,
}

/// What the gateway returns for a finished run: the output of a process that
/// ran and succeeded, else a failure that carries the captured standard
/// error, or the reason why the process could not be started.
pub open spec fn judged(spawned: Result<ProcessOutput, String>) -> Result<Seq<char>, ErrorView> {
    match spawned {
        Ok(output) => {
            if output.success {
                Ok(output.stdout@)
            } else {
                Err(
                    ErrorView {
                        kind: ErrorKind::AdbExecutionFailed,
                        detail: "ADB command failed: "@ + output.stderr@,
                    },
                )
            }
        },
        Err(reason) => Err(
            ErrorView {
                kind: ErrorKind::AdbExecutionFailed,
                detail: "Failed to execute adb: "@ + reason@,
            },
        ),
    }
}

/// A result as its view.
pub open spec fn result_view(r: Result<String, AppError>) -> Result<Seq<char>, ErrorView> {
    match r {
        Ok(s) => Ok(s@),
        Err(e) => Err(e@),
    }
}

/// Judges a finished run of the remote-control executable. `spawned` is the
/// captured output, or the reason why the process could not be started.
pub fn command_result(spawned: Result<ProcessOutput, String>) -> (r: Result<String, AppError>)
    ensures
        result_view(r) == judged(spawned),
{
    match spawned {
        Ok(output) => {
            if output.success {
                Ok(output.stdout)
            } else {
                let mut detail = chars_of("ADB command failed: ");
                append_str(&mut detail, output.stderr.as_str());
                Err(AppError::AdbExecutionFailed(string_of(&detail)))
            }
        },
        Err(reason) => {
            let mut detail = chars_of("Failed to execute adb: ");
            append_str(&mut detail, reason.as_str());
            Err(AppError::AdbExecutionFailed(string_of(&detail)))
        },
    }
}

/// The output of a command that succeeded.
pub open spec fn output_of(outcome: Result<String, AppError>) -> Option<Seq<char>> {
    match outcome {
        Ok(s) => Some(s@),
        Err(_) => None,
    }
}

} // verus!
