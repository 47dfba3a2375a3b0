//! The records the library hands out: devices, sessions, settings, transfers,
//! folders and media items. Each record that holds text has a view in which
//! the text is a sequence of characters; contracts speak of the views.

use crate::text::chars_of;
use crate::text::lowercase_of;
use crate::text::same_chars;
use vstd::prelude::*;

verus! {

/// The characters of an optional string.
pub open spec fn opt_text(o: Option<String>) -> Option<Seq<char>> {
    match o {
        Some(s) => Some(s@),
        None => None,
    }
}

/// A copy of an optional string.
pub fn copy_opt(o: &Option<String>) -> (r: Option<String>)
    ensures
        r == *o,
{
    match o {
        Some(s) => Some(s.clone()),
        None => None,
    }
}

/// Whether `s` is the text `literal`.
pub fn str_is(s: &str, literal: &str) -> (r: bool)
    ensures
        r == (s@ == literal@),
{
    let a = chars_of(s);
    let b = chars_of(literal);
    same_chars(&a, &b)
}

/// How a device is connected.
#[derive(Clone, Copy, Debug, PartialEq, Eq, Structural)]
pub enum DeviceState {
    Ready,
    Unauthorized,
    Offline,
    Unknown,
}

/// The state that a lowercase state word stands for.
pub open spec fn device_state_of(word: Seq<char>) -> DeviceState {
    if word == "device"@ {
        DeviceState::Ready
    } else if word == "unauthorized"@ {
        DeviceState::Unauthorized
    } else if word == "offline"@ {
        DeviceState::Offline
    } else {
        DeviceState::Unknown
    }
}

impl DeviceState {
    /// The state that the lowercase word `word` stands for.
    pub fn from_lowercase(word: &str) -> (state: DeviceState)
        ensures
            state == device_state_of(word@),
    {
        if str_is(word, "device") {
            DeviceState::Ready
        } else if str_is(word, "unauthorized") {
            DeviceState::Unauthorized
        } else if str_is(word, "offline") {
            DeviceState::Offline
        } else {
            DeviceState::Unknown
        }
    }

    /// The state that `word` stands for, whatever its case.
    pub fn from_word(word: &str) -> (state: DeviceState)
        ensures
            state == device_state_of(lowercase_of(word@)),
    {
        let lower = word.to_lowercase();
        DeviceState::from_lowercase(lower.as_str())
    }
}

impl<'a> From<&'a str> for DeviceState {
    fn from(word: &'a str) -> (state: DeviceState) {
        DeviceState::from_word(word)
    }
}

impl<'a> vstd::std_specs::convert::FromSpecImpl<&'a str> for DeviceState {
    open spec fn obeys_from_spec() -> bool {
        true
    }

    open spec fn from_spec(word: &'a str) -> DeviceState {
        device_state_of(lowercase_of(word@))
    }
}

/// A connected device.
#[derive(Clone, Debug, PartialEq, Eq)]
pub struct Device {
    pub serial: String,
    pub state: DeviceState,
    pub model: Option<String>,
    pub manufacturer: Option<String>,
    pub android_version: Option<String>,
}

/// A device with its texts as sequences of characters.
pub struct DeviceView {
    pub serial: Seq<char>,
    pub state: DeviceState,
    pub model: Option<Seq<char>>,
    pub manufacturer: Option<Seq<char>>,
    pub android_version: Option<Seq<char>>,
}

impl View for Device {
    type V = DeviceView;

    open spec fn view(&self) -> DeviceView {
        DeviceView {
            serial: self.serial@,
            state: self.state,
            model: opt_text(self.model),
            manufacturer: opt_text(self.manufacturer),
            android_version: opt_text(self.android_version),
        }
    }
}

impl Device {
    /// A device of which only the serial and the state are known.
    pub fn new(serial: String, state: DeviceState) -> (device: Device)
        ensures
            device.serial == serial,
            device.state == state,
            device.model is None,
            device.manufacturer is None,
            device.android_version is None,
    {
        Device { serial, state, model: None, manufacturer: None, android_version: None }
    }

    /// A copy of this device.
    pub fn duplicate(&self) -> (copy: Device)
        ensures
            copy == *self,
    {
        Device {
            serial: self.serial.clone(),
            state: self.state,
            model: copy_opt(&self.model),
            manufacturer: copy_opt(&self.manufacturer),
            android_version: copy_opt(&self.android_version),
        }
    }
}

/// A running mirror session.
#[derive(Clone, Debug, PartialEq, Eq)]
pub struct MirrorSession {
    pub device_serial: String,
    pub process_id: u32,
    pub started_at: String,
}

/// A mirror session with its texts as sequences of characters.
pub struct MirrorSessionView {
    pub device_serial: Seq<char>,
    pub process_id: u32,
    pub started_at: Seq<char>,
}

impl View for MirrorSession {
    type V = MirrorSessionView;

    open spec fn view(&self) -> MirrorSessionView {
        MirrorSessionView {
            device_serial: self.device_serial@,
            process_id: self.process_id,
            started_at: self.started_at@,
        }
    }
}

/// The application's settings.
#[derive(Clone, Debug, PartialEq, Eq)]
pub struct Settings {
    /// The path the user configured for the remote-control executable.
    pub adb_path: Option<String>,
    /// The path in use after detection.
    pub adb_resolved_path: Option<String>,
    /// Whether a usable remote-control executable was found.
    pub adb_available: bool,
    /// The path the user configured for the mirroring executable.
    pub scrcpy_path: Option<String>,
    /// The path in use after detection.
    pub scrcpy_resolved_path: Option<String>,
    /// Whether a usable mirroring executable was found.
    pub scrcpy_available: bool,
    /// Where pushed files go on the device, below the shared storage root.
    pub default_device_dir: String,
    /// The path the user configured for the frame extractor.
    pub ffmpeg_path: Option<String>,
    /// The path in use after detection.
    pub ffmpeg_resolved_path: Option<String>,
    /// Whether a usable frame extractor was found.
    pub ffmpeg_available: bool,
}

/// Settings with their texts as sequences of characters.
pub struct SettingsView {
    pub adb_path: Option<Seq<char>>,
    pub adb_resolved_path: Option<Seq<char>>,
    pub adb_available: bool,
    pub scrcpy_path: Option<Seq<char>>,
    pub scrcpy_resolved_path: Option<Seq<char>>,
    pub scrcpy_available: bool,
    pub default_device_dir: Seq<char>,
    pub ffmpeg_path: Option<Seq<char>>,
    pub ffmpeg_resolved_path: Option<Seq<char>>,
    pub ffmpeg_available: bool,
}

impl View for Settings {
    type V = SettingsView;

    open spec fn view(&self) -> SettingsView {
        SettingsView {
            adb_path: opt_text(self.adb_path),
            adb_resolved_path: opt_text(self.adb_resolved_path),
            adb_available: self.adb_available,
            scrcpy_path: opt_text(self.scrcpy_path),
            scrcpy_resolved_path: opt_text(self.scrcpy_resolved_path),
            scrcpy_available: self.scrcpy_available,
            default_device_dir: self.default_device_dir@,
            ffmpeg_path: opt_text(self.ffmpeg_path),
            ffmpeg_resolved_path: opt_text(self.ffmpeg_resolved_path),
            ffmpeg_available: self.ffmpeg_available,
        }
    }
}

/// The settings of a fresh installation.
pub open spec fn initial_settings() -> SettingsView {
    SettingsView {
        adb_path: None,
        adb_resolved_path: None,
        adb_available: false,
        scrcpy_path: None,
        scrcpy_resolved_path: None,
        scrcpy_available: false,
        default_device_dir: "Download/GesuBridge"@,
        ffmpeg_path: None,
        ffmpeg_resolved_path: None,
        ffmpeg_available: false,
    }
}

impl Settings {
    /// The settings of a fresh installation: nothing configured, nothing
    /// detected, pushes go to `Download/GesuBridge`.
    pub fn new() -> (settings: Settings)
        ensures
            settings@ == initial_settings(),
    {
        Settings {
            adb_path: None,
            adb_resolved_path: None,
            adb_available: false,
            scrcpy_path: None,
            scrcpy_resolved_path: None,
            scrcpy_available: false,
            default_device_dir: "Download/GesuBridge".to_owned(),
            ffmpeg_path: None,
            ffmpeg_resolved_path: None,
            ffmpeg_available: false,
        }
    }
}

impl Default for Settings {
    /// Settings with nothing in them: as a fresh installation, but without
    /// a directory for pushes.
    fn default() -> (settings: Settings)
        ensures
            settings@ == (SettingsView { default_device_dir: Seq::empty(), ..initial_settings() }),
    {
        Settings {
            adb_path: None,
            adb_resolved_path: None,
            adb_available: false,
            scrcpy_path: None,
            scrcpy_resolved_path: None,
            scrcpy_available: false,
            default_device_dir: String::new(),
            ffmpeg_path: None,
            ffmpeg_resolved_path: None,
            ffmpeg_available: false,
        }
    }
}

/// Where a transfer stands.
#[derive(Clone, Copy, Debug, PartialEq, Eq, Structural)]
pub enum TransferStatus {
    Queued,
    Transferring,
    Complete,
    Failed,
    Cancelled,
}

/// One file pushed to a device.
#[derive(Clone, Debug, PartialEq, Eq)]
pub struct TransferItem {
    pub id: String,
    pub file_name: String,
    pub source_path: String,
    pub dest_path: String,
    pub size_bytes: u64,
    pub transferred_bytes: u64,
    pub status: TransferStatus,
    pub error: Option<String>,
    pub started_at: String,
}

/// A transfer with its texts as sequences of characters.
pub struct TransferItemView {
    pub id: Seq<char>,
    pub file_name: Seq<char>,
    pub source_path: Seq<char>,
    pub dest_path: Seq<char>,
    pub size_bytes: u64,
    pub transferred_bytes: u64,
    pub status: TransferStatus,
    pub error: Option<Seq<char>>,
    pub started_at: Seq<char>,
}

impl View for TransferItem {
    type V = TransferItemView;

    open spec fn view(&self) -> TransferItemView {
        TransferItemView {
            id: self.id@,
            file_name: self.file_name@,
            source_path: self.source_path@,
            dest_path: self.dest_path@,
            size_bytes: self.size_bytes,
            transferred_bytes: self.transferred_bytes,
            status: self.status,
            error: opt_text(self.error),
            started_at: self.started_at@,
        }
    }
}

impl TransferItem {
    /// A copy of this transfer.
    pub fn duplicate(&self) -> (copy: TransferItem)
        ensures
            copy == *self,
    {
        TransferItem {
            id: self.id.clone(),
            file_name: self.file_name.clone(),
            source_path: self.source_path.clone(),
            dest_path: self.dest_path.clone(),
            size_bytes: self.size_bytes,
            transferred_bytes: self.transferred_bytes,
            status: self.status,
            error: copy_opt(&self.error),
            started_at: self.started_at.clone(),
        }
    }
}

/// A folder on the device.
#[derive(Clone, Debug, PartialEq, Eq)]
pub struct FolderInfo {
    pub name: String,
    /// The full remote path of the folder.
    pub path: String,
    pub item_count: Option<u32>,
    /// Whether the folder is one of the well-known media folders.
    pub is_media_folder: bool,
}

/// A folder with its texts as sequences of characters.
pub struct FolderInfoView {
    pub name: Seq<char>,
    pub path: Seq<char>,
    pub item_count: Option<u32>,
    pub is_media_folder: bool,
}

impl View for FolderInfo {
    type V = FolderInfoView;

    open spec fn view(&self) -> FolderInfoView {
        FolderInfoView {
            name: self.name@,
            path: self.path@,
            item_count: self.item_count,
            is_media_folder: self.is_media_folder,
        }
    }
}

/// What kind of media a file holds.
#[derive(Clone, Copy, Debug, PartialEq, Eq, Structural)]
pub enum MediaType {
    Image,
    Video,
}

/// A media file on the device.
#[derive(Clone, Debug, PartialEq, Eq)]
pub struct MediaItem {
    /// The full remote path of the file.
    pub path: String,
    pub name: String,
    pub media_type: MediaType,
    pub size_bytes: u64,
    pub width: Option<u32>,
    pub height: Option<u32>,
    pub duration_ms: Option<u64>,
    /// Date and time from the listing, separated by one space.
    pub date_taken: Option<String>,
    pub thumbnail_url: Option<String>,
}

/// A media item with its texts as sequences of characters.
pub struct MediaItemView {
    pub path: Seq<char>,
    pub name: Seq<char>,
    pub media_type: MediaType,
    pub size_bytes: u64,
    pub width: Option<u32>,
    pub height: Option<u32>,
    pub duration_ms: Option<u64>,
    pub date_taken: Option<Seq<char>>,
    pub thumbnail_url: Option<Seq<char>>,
}

impl View for MediaItem {
    type V = MediaItemView;

    open spec fn view(&self) -> MediaItemView {
        MediaItemView {
            path: self.path@,
            name: self.name@,
            media_type: self.media_type,
            size_bytes: self.size_bytes,
            width: self.width,
            height: self.height,
            duration_ms: self.duration_ms,
            date_taken: opt_text(self.date_taken),
            thumbnail_url: opt_text(self.thumbnail_url),
        }
    }
}

impl MediaItem {
    /// A copy of this item.
    pub fn duplicate(&self) -> (copy: MediaItem)
        ensures
            copy == *self,
    {
        MediaItem {
            path: self.path.clone(),
            name: self.name.clone(),
            media_type: self.media_type,
            size_bytes: self.size_bytes,
            width: self.width,
            height: self.height,
            duration_ms: self.duration_ms,
            date_taken: copy_opt(&self.date_taken),
            thumbnail_url: copy_opt(&self.thumbnail_url),
        }
    }
}

/// Which media a listing returns.
#[derive(Clone, Copy, Debug, PartialEq, Eq, Structural)]
pub enum MediaFilter {
    All,
    Images,
    Videos,
}

impl Default for MediaFilter {
    fn default() -> (filter: MediaFilter)
        ensures
            filter == MediaFilter::All,
    {
        MediaFilter::All
    }
}

/// The outcome of pulling one file from the device.
#[derive(Clone, Debug, PartialEq, Eq)]
pub struct MediaTransferResult {
    pub source_path: String,
    pub dest_path: Option<String>,
    pub success: bool,
    pub error: Option<String>,
    pub size_bytes: u64,
}

/// A pull outcome with its texts as sequences of characters.
pub struct MediaTransferResultView {
    pub source_path: Seq<char>,
    pub dest_path: Option<Seq<char>>,
    pub success: bool,
    pub error: Option<Seq<char>>,
    pub size_bytes: u64,
}

impl View for MediaTransferResult {
    type V = MediaTransferResultView;

    open spec fn view(&self) -> MediaTransferResultView {
        MediaTransferResultView {
            source_path: self.source_path@,
            dest_path: opt_text(self.dest_path),
            success: self.success,
            error: opt_text(self.error),
            size_bytes: self.size_bytes,
        }
    }
}

} // verus!
