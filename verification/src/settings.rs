//! Settings with detection: which executables are in use, given what the
//! user configured and what was found on the machine.
//!
//! Looking for an executable and trying it out are the application's
//! business. What it found is handed over as plain values; the rules are
//! here: a configured path is used if it works and never replaced by a
//! detected one, and detection prefers the search path to the well-known
//! locations, of which the first that exists is taken.

use crate::errors::{AppError, ErrorKind, ErrorView};
use crate::models::{copy_opt, opt_text, Settings, SettingsView};
use crate::text::texts;
use vstd::prelude::*;

verus! {

/// What was found out about one executable.
#[derive(Clone, Debug, PartialEq, Eq)]
pub struct ToolProbe {
    /// Whether the configured path exists and the executable at it runs.
    pub configured_works: bool,
    /// The path that detection found, if any.
    pub detected: Option<String>,
}

/// A place where an executable may lie, and whether it lies there.
#[derive(Clone, Debug, PartialEq, Eq)]
pub struct Candidate {
    pub path: String,
    pub exists: bool,
}

/// From where a well-known location is reckoned.
#[derive(Clone, Copy, Debug, PartialEq, Eq, Structural)]
pub enum Anchor {
    /// The path is absolute.
    Absolute,
    /// The path is relative to the home directory of the user.
    Home,
}

/// A well-known location of an executable.
#[derive(Clone, Debug, PartialEq, Eq)]
pub struct Location {
    pub anchor: Anchor,
    pub path: String,
}

/// The path in use for an executable: the configured one if it works,
/// the detected one where none is configured.
pub open spec fn resolved(configured: Option<Seq<char>>, probe: ToolProbe) -> Option<Seq<char>> {
    match configured {
        Some(path) => if probe.configured_works {
            Some(path)
        } else {
            None
        },
        None => opt_text(probe.detected),
    }
}

/// `settings` with the paths in use filled in.
pub open spec fn detected(settings: SettingsView, adb: ToolProbe, scrcpy: ToolProbe)
    -> SettingsView {
    SettingsView {
        adb_resolved_path: resolved(settings.adb_path, adb),
        adb_available: resolved(settings.adb_path, adb) is Some,
        scrcpy_resolved_path: resolved(settings.scrcpy_path, scrcpy),
        scrcpy_available: resolved(settings.scrcpy_path, scrcpy) is Some,
        ..settings
    }
}

/// The path of the first candidate that exists.
pub open spec fn first_existing(candidates: Seq<Candidate>) -> Option<Seq<char>>
    decreases candidates.len(),
{
    if candidates.len() == 0 {
        None
    } else if candidates[0].exists {
        Some(candidates[0].path@)
    } else {
        first_existing(candidates.skip(1))
    }
}

/// The path that detection gives: the one found on the search path, else
/// the first candidate that exists.
pub open spec fn detection(on_search_path: Option<String>, candidates: Seq<Candidate>) -> Option<
    Seq<char>,
> {
    match on_search_path {
        Some(path) => Some(path@),
        None => first_existing(candidates),
    }
}

/// A location as its anchor and the characters of its path.
pub open spec fn location_views(locations: Seq<Location>) -> Seq<(Anchor, Seq<char>)> {
    locations.map_values(|l: Location| (l.anchor, l.path@))
}

/// The path in use for an executable.
pub fn resolve_tool(configured: &Option<String>, probe: &ToolProbe) -> (path: Option<String>)
    ensures
        opt_text(path) == resolved(opt_text(*configured), *probe),
{
    match configured {
        Some(path) => {
            if probe.configured_works {
                Some(path.clone())
            } else {
                None
            }
        },
        None => copy_opt(&probe.detected),
    }
}

/// `settings` with the paths in use for the remote-control executable and
/// the mirroring executable filled in, and whether either is available.
pub fn get_settings_with_detection(settings: Settings, adb: &ToolProbe, scrcpy: &ToolProbe) -> (r:
    Settings)
    ensures
        r@ == detected(settings@, *adb, *scrcpy),
{
    let adb_resolved = resolve_tool(&settings.adb_path, adb);
    let scrcpy_resolved = resolve_tool(&settings.scrcpy_path, scrcpy);
    let adb_available = adb_resolved.is_some();
    let scrcpy_available = scrcpy_resolved.is_some();
    Settings {
        adb_path: settings.adb_path,
        adb_resolved_path: adb_resolved,
        adb_available,
        scrcpy_path: settings.scrcpy_path,
        scrcpy_resolved_path: scrcpy_resolved,
        scrcpy_available,
        default_device_dir: settings.default_device_dir,
        ffmpeg_path: settings.ffmpeg_path,
        ffmpeg_resolved_path: settings.ffmpeg_resolved_path,
        ffmpeg_available: settings.ffmpeg_available,
    }
}

/// The path that detection gives. `on_search_path` is where the executable
/// was found on the search path, if it was; `candidates` are the well-known
/// locations with what was found there.
pub fn detect_path(on_search_path: Option<String>, candidates: &Vec<Candidate>) -> (path: Option<
    String,
>)
    ensures
        opt_text(path) == detection(on_search_path, candidates@),
{
    match on_search_path {
        Some(path) => Some(path),
        None => {
            let mut i: usize = 0;
            proof {
                assert(candidates@.skip(0) =~= candidates@);
            }
            while i < candidates.len()
                invariant
                    i <= candidates.len(),
                    on_search_path is None,
                    first_existing(candidates@) == first_existing(candidates@.skip(i as int)),
                decreases candidates.len() - i,
            {
                proof {
                    assert(candidates@.skip(i as int).skip(1) =~= candidates@.skip(i + 1));
                    assert(candidates@.skip(i as int)[0] == candidates@[i as int]);
                }
                if candidates[i].exists {
                    return Some(candidates[i].path.clone());
                }
                i += 1;
            }
            None
        },
    }
}

/// The well-known locations of the remote-control executable, in the order
/// in which they are tried.
pub fn adb_locations() -> (locations: Vec<Location>)
    ensures
        location_views(locations@) == seq![
            (Anchor::Absolute, "C:/platform-tools/adb.exe"@),
            (Anchor::Home, "AppData/Local/Android/Sdk/platform-tools/adb.exe"@),
            (Anchor::Absolute, "C:/Program Files/Android/Android Studio/platform-tools/adb.exe"@),
            (
                Anchor::Absolute,
                "C:/Program Files (x86)/Android/android-sdk/platform-tools/adb.exe"@,
            ),
        ],
{
    let mut locations: Vec<Location> = Vec::new();
    locations.push(
        Location { anchor: Anchor::Absolute, path: "C:/platform-tools/adb.exe".to_owned() },
    );
    locations.push(
        Location {
            anchor: Anchor::Home,
            path: "AppData/Local/Android/Sdk/platform-tools/adb.exe".to_owned(),
        },
    );
    locations.push(
        Location {
            anchor: Anchor::Absolute,
            path: "C:/Program Files/Android/Android Studio/platform-tools/adb.exe".to_owned(),
        },
    );
    locations.push(
        Location {
            anchor: Anchor::Absolute,
            path: "C:/Program Files (x86)/Android/android-sdk/platform-tools/adb.exe".to_owned(),
        },
    );
    proof {
        assert(location_views(locations@) =~= seq![
            (Anchor::Absolute, "C:/platform-tools/adb.exe"@),
            (Anchor::Home, "AppData/Local/Android/Sdk/platform-tools/adb.exe"@),
            (Anchor::Absolute, "C:/Program Files/Android/Android Studio/platform-tools/adb.exe"@),
            (
                Anchor::Absolute,
                "C:/Program Files (x86)/Android/android-sdk/platform-tools/adb.exe"@,
            ),
        ]);
    }
    locations
}

/// The well-known locations of the mirroring executable, in the order in
/// which they are tried.
pub fn scrcpy_locations() -> (locations: Vec<Location>)
    ensures
        location_views(locations@) == seq![
            (Anchor::Absolute, "C:/scrcpy/scrcpy.exe"@),
            (Anchor::Home, "scrcpy/scrcpy.exe"@),
            (Anchor::Absolute, "C:/Program Files/scrcpy/scrcpy.exe"@),
        ],
{
    let mut locations: Vec<Location> = Vec::new();
    locations.push(Location { anchor: Anchor::Absolute, path: "C:/scrcpy/scrcpy.exe".to_owned() });
    locations.push(Location { anchor: Anchor::Home, path: "scrcpy/scrcpy.exe".to_owned() });
    locations.push(
        Location { anchor: Anchor::Absolute, path: "C:/Program Files/scrcpy/scrcpy.exe".to_owned() },
    );
    proof {
        assert(location_views(locations@) =~= seq![
            (Anchor::Absolute, "C:/scrcpy/scrcpy.exe"@),
            (Anchor::Home, "scrcpy/scrcpy.exe"@),
            (Anchor::Absolute, "C:/Program Files/scrcpy/scrcpy.exe"@),
        ]);
    }
    locations
}

/// The remote-control executable in use, or the failure that none is.
pub fn require_adb(settings: &Settings) -> (r: Result<String, AppError>)
    ensures
        match r {
            Ok(path) => settings@.adb_resolved_path == Some(path@),
            Err(e) => settings@.adb_resolved_path is None && e@ == (ErrorView {
                kind: ErrorKind::AdbNotFound,
                detail: "ADB not found. Configure it in Settings."@,
            }),
        },
{
    match &settings.adb_resolved_path {
        Some(path) => Ok(path.clone()),
        None => Err(AppError::AdbNotFound("ADB not found. Configure it in Settings.".to_owned())),
    }
}

/// The mirroring executable in use, or the failure that none is.
pub fn require_scrcpy(settings: &Settings) -> (r: Result<String, AppError>)
    ensures
        match r {
            Ok(path) => settings@.scrcpy_resolved_path == Some(path@),
            Err(e) => settings@.scrcpy_resolved_path is None && e@ == (ErrorView {
                kind: ErrorKind::ScrcpyNotFound,
                detail: "scrcpy not found. Install scrcpy or set the path in Settings."@,
            }),
        },
{
    match &settings.scrcpy_resolved_path {
        Some(path) => Ok(path.clone()),
        None => Err(
            AppError::ScrcpyNotFound(
                "scrcpy not found. Install scrcpy or set the path in Settings.".to_owned(),
            ),
        ),
    }
}

} // verus!
