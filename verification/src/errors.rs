//! The failures the library reports, each with a message and a hint for the
//! person in front of the application.

use crate::text::{append_str, chars_of, string_of};
use vstd::prelude::*;

verus! {

/// What went wrong, without the message.
#[derive(Clone, Copy, Debug, PartialEq, Eq, Structural)]
pub enum ErrorKind {
    AdbNotFound,
    AdbExecutionFailed,
    InvalidPath,
    IoError,
    SettingsError,
    DeviceNotFound,
    ScrcpyNotFound,
    MirrorError,
    TransferError,
    ThumbnailNotAvailable,
}

/// An application-level failure with its message.
#[derive(Clone, Debug, PartialEq, Eq)]
pub enum AppError {
    /// The remote-control executable was not found.
    AdbNotFound(String),
    /// A remote command could not be run or exited with a failure status.
    AdbExecutionFailed(String),
    /// A path has no file name.
    InvalidPath(String),
    /// A local file operation failed.
    IoError(String),
    /// Settings could not be loaded or saved.
    SettingsError(String),
    /// No device with the given serial.
    DeviceNotFound(String),
    /// The mirroring executable was not found.
    ScrcpyNotFound(String),
    /// A mirror session could not be started or stopped.
    MirrorError(String),
    /// A transfer failed or is unknown.
    TransferError(String),
    /// No strategy produced a thumbnail.
    ThumbnailNotAvailable(String),
}

/// An error as a kind and the characters of its message.
pub struct ErrorView {
    pub kind: ErrorKind,
    pub detail: Seq<char>,
}

impl View for AppError {
    type V = ErrorView;

    open spec fn view(&self) -> ErrorView {
        match self {
            AppError::AdbNotFound(m) => ErrorView { kind: ErrorKind::AdbNotFound, detail: m@ },
            AppError::AdbExecutionFailed(m) => ErrorView {
                kind: ErrorKind::AdbExecutionFailed,
                detail: m@,
            },
            AppError::InvalidPath(m) => ErrorView { kind: ErrorKind::InvalidPath, detail: m@ },
            AppError::IoError(m) => ErrorView { kind: ErrorKind::IoError, detail: m@ },
            AppError::SettingsError(m) => ErrorView { kind: ErrorKind::SettingsError, detail: m@ },
            AppError::DeviceNotFound(m) => ErrorView {
                kind: ErrorKind::DeviceNotFound,
                detail: m@,
            },
            AppError::ScrcpyNotFound(m) => ErrorView {
                kind: ErrorKind::ScrcpyNotFound,
                detail: m@,
            },
            AppError::MirrorError(m) => ErrorView { kind: ErrorKind::MirrorError, detail: m@ },
            AppError::TransferError(m) => ErrorView { kind: ErrorKind::TransferError, detail: m@ },
            AppError::ThumbnailNotAvailable(m) => ErrorView {
                kind: ErrorKind::ThumbnailNotAvailable,
                detail: m@,
            },
        }
    }
}

/// What stands before the message when an error of this kind is shown.
pub open spec fn heading(kind: ErrorKind) -> Seq<char> {
    match kind {
        ErrorKind::AdbNotFound => "ADB not found: "@,
        ErrorKind::AdbExecutionFailed => "ADB execution failed: "@,
        ErrorKind::InvalidPath => "Invalid path: "@,
        ErrorKind::IoError => "IO error: "@,
        ErrorKind::SettingsError => "Settings error: "@,
        ErrorKind::DeviceNotFound => "Device not found: "@,
        ErrorKind::ScrcpyNotFound => "scrcpy not found: "@,
        ErrorKind::MirrorError => "Mirror error: "@,
        ErrorKind::TransferError => "Transfer error: "@,
        ErrorKind::ThumbnailNotAvailable => "Thumbnail not available: "@,
    }
}

/// What the user is advised to do about an error of this kind.
pub open spec fn guidance(kind: ErrorKind) -> Seq<char> {
    match kind {
        ErrorKind::AdbNotFound => "Install Android SDK Platform Tools or set the ADB path manually in Settings."@,
        ErrorKind::AdbExecutionFailed => "Check if ADB is configured correctly and the device is connected."@,
        ErrorKind::InvalidPath => "The specified path does not exist or is not accessible."@,
        ErrorKind::IoError => "A file system operation failed. Check permissions."@,
        ErrorKind::SettingsError => "Failed to save or load settings. Try restarting the app."@,
        ErrorKind::DeviceNotFound => "No device found with this serial. Ensure cable is connected and USB debugging is enabled."@,
        ErrorKind::ScrcpyNotFound => "Install scrcpy or set the scrcpy path manually in Settings."@,
        ErrorKind::MirrorError => "Mirror operation failed. Ensure device is connected and authorized."@,
        ErrorKind::TransferError => "File transfer failed. Check device connection and storage permissions."@,
        ErrorKind::ThumbnailNotAvailable => "Thumbnail preview not available for this media file."@,
    }
}

impl AppError {
    /// The error of kind `kind` with the message `detail`.
    pub fn new(kind: ErrorKind, detail: String) -> (e: AppError)
        ensures
            e@ == (ErrorView { kind, detail: detail@ }),
    {
        match kind {
            ErrorKind::AdbNotFound => AppError::AdbNotFound(detail),
            ErrorKind::AdbExecutionFailed => AppError::AdbExecutionFailed(detail),
            ErrorKind::InvalidPath => AppError::InvalidPath(detail),
            ErrorKind::IoError => AppError::IoError(detail),
            ErrorKind::SettingsError => AppError::SettingsError(detail),
            ErrorKind::DeviceNotFound => AppError::DeviceNotFound(detail),
            ErrorKind::ScrcpyNotFound => AppError::ScrcpyNotFound(detail),
            ErrorKind::MirrorError => AppError::MirrorError(detail),
            ErrorKind::TransferError => AppError::TransferError(detail),
            ErrorKind::ThumbnailNotAvailable => AppError::ThumbnailNotAvailable(detail),
        }
    }

    /// A copy of this error.
    pub fn duplicate(&self) -> (copy: AppError)
        ensures
            copy@ == self@,
    {
        AppError::new(self.kind(), self.detail().clone())
    }

    /// The kind of this error.
    pub fn kind(&self) -> (k: ErrorKind)
        ensures
            k == self@.kind,
    {
        match self {
            AppError::AdbNotFound(_) => ErrorKind::AdbNotFound,
            AppError::AdbExecutionFailed(_) => ErrorKind::AdbExecutionFailed,
            AppError::InvalidPath(_) => ErrorKind::InvalidPath,
            AppError::IoError(_) => ErrorKind::IoError,
            AppError::SettingsError(_) => ErrorKind::SettingsError,
            AppError::DeviceNotFound(_) => ErrorKind::DeviceNotFound,
            AppError::ScrcpyNotFound(_) => ErrorKind::ScrcpyNotFound,
            AppError::MirrorError(_) => ErrorKind::MirrorError,
            AppError::TransferError(_) => ErrorKind::TransferError,
            AppError::ThumbnailNotAvailable(_) => ErrorKind::ThumbnailNotAvailable,
        }
    }

    /// The message of this error.
    pub fn detail(&self) -> (m: &String)
        ensures
            m@ == self@.detail,
    {
        match self {
            AppError::AdbNotFound(m) => m,
            AppError::AdbExecutionFailed(m) => m,
            AppError::InvalidPath(m) => m,
            AppError::IoError(m) => m,
            AppError::SettingsError(m) => m,
            AppError::DeviceNotFound(m) => m,
            AppError::ScrcpyNotFound(m) => m,
            AppError::MirrorError(m) => m,
            AppError::TransferError(m) => m,
            AppError::ThumbnailNotAvailable(m) => m,
        }
    }

    /// The error as it is shown: the heading of its kind, then its message.
    pub fn message(&self) -> (text: String)
        ensures
            text@ == heading(self@.kind) + self@.detail,
    {
        let head: &str = match self {
            AppError::AdbNotFound(_) => "ADB not found: ",
            AppError::AdbExecutionFailed(_) => "ADB execution failed: ",
            AppError::InvalidPath(_) => "Invalid path: ",
            AppError::IoError(_) => "IO error: ",
            AppError::SettingsError(_) => "Settings error: ",
            AppError::DeviceNotFound(_) => "Device not found: ",
            AppError::ScrcpyNotFound(_) => "scrcpy not found: ",
            AppError::MirrorError(_) => "Mirror error: ",
            AppError::TransferError(_) => "Transfer error: ",
            AppError::ThumbnailNotAvailable(_) => "Thumbnail not available: ",
        };
        let mut out = chars_of(head);
        append_str(&mut out, self.detail().as_str());
        string_of(&out)
    }

    /// What the user is advised to do about this error.
    pub fn user_guidance(&self) -> (text: &'static str)
        ensures
            text@ == guidance(self@.kind),
    {
        match self {
            AppError::AdbNotFound(_) => {
                "Install Android SDK Platform Tools or set the ADB path manually in Settings."
            },
            AppError::AdbExecutionFailed(_) => {
                "Check if ADB is configured correctly and the device is connected."
            },
            AppError::InvalidPath(_) => "The specified path does not exist or is not accessible.",
            AppError::IoError(_) => "A file system operation failed. Check permissions.",
            AppError::SettingsError(_) => {
                "Failed to save or load settings. Try restarting the app."
            },
            AppError::DeviceNotFound(_) => {
                "No device found with this serial. Ensure cable is connected and USB debugging is enabled."
            },
            AppError::ScrcpyNotFound(_) => {
                "Install scrcpy or set the scrcpy path manually in Settings."
            },
            AppError::MirrorError(_) => {
                "Mirror operation failed. Ensure device is connected and authorized."
            },
            AppError::TransferError(_) => {
                "File transfer failed. Check device connection and storage permissions."
            },
            AppError::ThumbnailNotAvailable(_) => {
                "Thumbnail preview not available for this media file."
            },
        }
    }
}

} // verus!
