use media_bridge::errors::{AppError, ErrorKind};
use media_bridge::gateway::{command_result, ProcessOutput};
use media_bridge::ledger::{
    cancel_transfer, complete_push, failed_push, finish_push, generate_id,
    get_active_transfers, get_transfer_history, push_file, timestamp, TransferLedger,
};
use media_bridge::models::{Settings, TransferStatus};
use media_bridge::sessions::{
    camera_start_failed, camera_stop_failed, get_active_sessions, get_camera_sessions,
    mirror_start_failed, mirror_stop_failed, start_camera_mirror, start_mirror,
    stop_camera_mirror, stop_mirror, SessionRegistry,
};
use media_bridge::settings::{
    adb_locations, detect_path, get_settings_with_detection, require_adb, require_scrcpy,
    resolve_tool, scrcpy_locations, Anchor, Candidate, ToolProbe,
};
use media_bridge::transfer::{
    file_size_command, get_file_size, pull_media_file, pull_media_files_batch, transfer_result,
    PullAttempt,
};

fn exited(success: bool, stdout: &str, stderr: &str) -> Result<ProcessOutput, String> {
    Ok(ProcessOutput { success, stdout: stdout.to_string(), stderr: stderr.to_string() })
}

#[test]
fn gateway_judges_a_finished_run() {
    assert_eq!(command_result(exited(true, "out", "warn")), Ok("out".to_string()));
    assert_eq!(
        command_result(exited(false, "out", "device offline")),
        Err(AppError::AdbExecutionFailed("ADB command failed: device offline".to_string()))
    );
    assert_eq!(
        command_result(Err("No such file".to_string())),
        Err(AppError::AdbExecutionFailed("Failed to execute adb: No such file".to_string()))
    );
}

#[test]
fn errors_are_shown_with_their_heading() {
    let cases = [
        (AppError::AdbNotFound("m".to_string()), "ADB not found: m", ErrorKind::AdbNotFound),
        (
            AppError::AdbExecutionFailed("m".to_string()),
            "ADB execution failed: m",
            ErrorKind::AdbExecutionFailed,
        ),
        (AppError::InvalidPath("m".to_string()), "Invalid path: m", ErrorKind::InvalidPath),
        (AppError::IoError("m".to_string()), "IO error: m", ErrorKind::IoError),
        (AppError::SettingsError("m".to_string()), "Settings error: m", ErrorKind::SettingsError),
        (
            AppError::DeviceNotFound("m".to_string()),
            "Device not found: m",
            ErrorKind::DeviceNotFound,
        ),
        (
            AppError::ScrcpyNotFound("m".to_string()),
            "scrcpy not found: m",
            ErrorKind::ScrcpyNotFound,
        ),
        (AppError::MirrorError("m".to_string()), "Mirror error: m", ErrorKind::MirrorError),
        (AppError::TransferError("m".to_string()), "Transfer error: m", ErrorKind::TransferError),
        (
            AppError::ThumbnailNotAvailable("m".to_string()),
            "Thumbnail not available: m",
            ErrorKind::ThumbnailNotAvailable,
        ),
    ];
    for (error, shown, kind) in cases {
        assert_eq!(error.message(), shown);
        assert_eq!(error.kind(), kind);
        assert_eq!(error.detail(), "m");
        assert_eq!(AppError::new(kind, "m".to_string()), error);
        assert_eq!(error.duplicate(), error);
        assert!(!error.user_guidance().is_empty());
    }
    assert_eq!(
        AppError::ThumbnailNotAvailable(String::new()).user_guidance(),
        "Thumbnail preview not available for this media file."
    );
    assert_eq!(
        AppError::AdbNotFound(String::new()).user_guidance(),
        "Install Android SDK Platform Tools or set the ADB path manually in Settings."
    );
}

#[test]
fn batch_isolation() {
    let attempts = vec![
        PullAttempt {
            source_path: "/sdcard/a.jpg".to_string(),
            size_bytes: Some(10),
            outcome: Ok("/home/u/Downloads/a.jpg".to_string()),
        },
        PullAttempt {
            source_path: "/sdcard/missing.jpg".to_string(),
            size_bytes: None,
            outcome: Err(AppError::AdbExecutionFailed(
                "ADB command failed: remote object does not exist".to_string(),
            )),
        },
        PullAttempt {
            source_path: "/sdcard/c.jpg".to_string(),
            size_bytes: Some(30),
            outcome: Ok("/home/u/Downloads/c.jpg".to_string()),
        },
    ];
    let results = pull_media_files_batch(&attempts);
    assert_eq!(results.len(), 3);
    assert!(results[0].success);
    assert!(!results[1].success);
    assert!(results[2].success);
    assert_eq!(results[0].source_path, "/sdcard/a.jpg");
    assert_eq!(results[0].dest_path, Some("/home/u/Downloads/a.jpg".to_string()));
    assert_eq!(results[0].error, None);
    assert_eq!(results[0].size_bytes, 10);
    assert_eq!(results[1].source_path, "/sdcard/missing.jpg");
    assert_eq!(results[1].dest_path, None);
    assert_eq!(
        results[1].error,
        Some("ADB execution failed: ADB command failed: remote object does not exist".to_string())
    );
    assert_eq!(results[1].size_bytes, 0);
    assert_eq!(results[2].source_path, "/sdcard/c.jpg");
    assert_eq!(results[2].size_bytes, 30);
    assert_eq!(transfer_result(&attempts[2]), results[2]);
    assert_eq!(pull_media_files_batch(&Vec::new()).len(), 0);
}

#[test]
fn file_sizes() {
    assert_eq!(
        file_size_command("S", "/sdcard/a b.jpg"),
        vec!["-s", "S", "shell", "stat", "-c", "%s", "/sdcard/a b.jpg"]
    );
    assert_eq!(get_file_size(&Ok("12345\n".to_string()), "/p"), Ok(12345));
    assert_eq!(
        get_file_size(&Ok("stat: no such file".to_string()), "/p"),
        Err(AppError::AdbExecutionFailed("Failed to parse file size for /p".to_string()))
    );
    let failed = Err(AppError::AdbExecutionFailed("x".to_string()));
    assert_eq!(get_file_size(&failed, "/p"), Err(AppError::AdbExecutionFailed("x".to_string())));
}

#[test]
fn pull_of_one_file() {
    assert_eq!(
        pull_media_file("S", "/sdcard/a.jpg", "/tmp/a.jpg"),
        Ok(vec!["-s", "S", "pull", "/sdcard/a.jpg", "/tmp/a.jpg"]
            .into_iter()
            .map(|s| s.to_string())
            .collect::<Vec<String>>())
    );
    assert_eq!(
        pull_media_file("S", "/sdcard/..", "/tmp/x"),
        Err(AppError::InvalidPath("Invalid remote path".to_string()))
    );
}

#[test]
fn push_is_entered_and_finished() {
    let mut ledger = TransferLedger::new();
    let (item, arguments) = push_file(
        &mut ledger,
        "SER",
        "C:/Users/u/pic.jpg",
        Some("pic.jpg"),
        "Download/GesuBridge",
        1000,
        "transfer_1700000000000",
        "2023-11-14T22:13:20+00:00",
    );
    assert_eq!(item.id, "transfer_1700000000000");
    assert_eq!(item.file_name, "pic.jpg");
    assert_eq!(item.source_path, "C:/Users/u/pic.jpg");
    assert_eq!(item.dest_path, "/sdcard/Download/GesuBridge/pic.jpg");
    assert_eq!(item.size_bytes, 1000);
    assert_eq!(item.transferred_bytes, 0);
    assert_eq!(item.status, TransferStatus::Transferring);
    assert_eq!(item.error, None);
    assert_eq!(item.started_at, "2023-11-14T22:13:20+00:00");
    assert_eq!(
        arguments,
        vec!["-s", "SER", "push", "C:/Users/u/pic.jpg", "/sdcard/Download/GesuBridge/pic.jpg"]
    );
    assert_eq!(get_active_transfers(&ledger), vec![item.clone()]);
    assert_eq!(get_transfer_history(&ledger).len(), 0);

    let done = finish_push(&mut ledger, "transfer_1700000000000", exited(true, "", "")).unwrap();
    assert_eq!(done.status, TransferStatus::Complete);
    assert_eq!(done.transferred_bytes, 1000);
    assert_eq!(get_active_transfers(&ledger).len(), 0);
    assert_eq!(get_transfer_history(&ledger), vec![done]);
    assert_eq!(finish_push(&mut ledger, "transfer_1700000000000", exited(true, "", "")), None);
}

#[test]
fn push_failures_and_unknown_names() {
    let mut ledger = TransferLedger::new();
    let (item, _) = push_file(&mut ledger, "S", "/", None, "d", 0, "a", "t");
    assert_eq!(item.file_name, "unknown");
    assert_eq!(item.dest_path, "/sdcard/d/unknown");
    push_file(&mut ledger, "S", "/x", Some("x"), "d", 5, "b", "t");
    let failed = finish_push(&mut ledger, "a", exited(false, "", "no space")).unwrap();
    assert_eq!(failed.status, TransferStatus::Failed);
    assert_eq!(failed.error, Some("no space".to_string()));
    assert_eq!(failed.transferred_bytes, 0);
    let unstarted = finish_push(&mut ledger, "b", Err("not found".to_string())).unwrap();
    assert_eq!(unstarted.status, TransferStatus::Failed);
    assert_eq!(unstarted.error, Some("Failed to execute adb: not found".to_string()));
    let history = get_transfer_history(&ledger);
    assert_eq!(history.len(), 2);
    assert_eq!(history[0].id, "b");
    assert_eq!(history[1].id, "a");
}

#[test]
fn history_keeps_the_newest_fifty() {
    let mut ledger = TransferLedger::new();
    for i in 0..60u32 {
        let id = format!("t{}", i);
        push_file(&mut ledger, "S", "/x", Some("x"), "d", 1, &id, "t");
        finish_push(&mut ledger, &id, exited(true, "", ""));
    }
    let history = get_transfer_history(&ledger);
    assert_eq!(history.len(), 50);
    assert_eq!(history[0].id, "t59");
    assert_eq!(history[49].id, "t10");
}

#[test]
fn cancelling() {
    let mut ledger = TransferLedger::new();
    push_file(&mut ledger, "S", "/x", Some("x"), "d", 1, "one", "t");
    push_file(&mut ledger, "S", "/y", Some("y"), "d", 1, "two", "t");
    assert_eq!(cancel_transfer(&mut ledger, "one"), Ok(()));
    assert_eq!(get_active_transfers(&ledger).len(), 1);
    assert_eq!(get_active_transfers(&ledger)[0].id, "two");
    let history = get_transfer_history(&ledger);
    assert_eq!(history.len(), 1);
    assert_eq!(history[0].id, "one");
    assert_eq!(history[0].status, TransferStatus::Cancelled);
    assert_eq!(
        cancel_transfer(&mut ledger, "one"),
        Err(AppError::TransferError("Transfer one not found".to_string()))
    );
    assert_eq!(get_transfer_history(&ledger).len(), 1);
}

#[test]
fn transfer_ids_and_timestamps() {
    assert_eq!(generate_id(0), "transfer_0");
    assert_eq!(generate_id(1700000000123), "transfer_1700000000123");
    assert_eq!(generate_id(u128::MAX), format!("transfer_{}", u128::MAX));
    assert_eq!(timestamp(1431648000, 0), Some("2015-05-15T00:00:00+00:00".to_string()));
    assert_eq!(timestamp(0, 500_000_000), Some("1970-01-01T00:00:00.500+00:00".to_string()));
    assert_eq!(timestamp(i64::MAX as u64, 0), None);
    assert_eq!(timestamp(u64::MAX, 0), None);
}

#[test]
fn screen_mirror_sessions() {
    let mut registry = SessionRegistry::new();
    assert_eq!(
        start_mirror(&registry, "A", true),
        Ok(vec!["-s".to_string(), "A".to_string(), "--turn-screen-off".to_string()])
    );
    assert_eq!(start_mirror(&registry, "A", false), Ok(vec!["-s".to_string(), "A".to_string()]));
    let session = registry.record("A", 42, "2024-01-01T00:00:00+00:00");
    assert_eq!(session.device_serial, "A");
    assert_eq!(session.process_id, 42);
    assert_eq!(session.started_at, "2024-01-01T00:00:00+00:00");
    assert!(registry.has_session("A"));
    assert_eq!(registry.process("A"), Some(42));
    assert_eq!(
        start_mirror(&registry, "A", false),
        Err(AppError::MirrorError("Mirror session already active for device A".to_string()))
    );
    registry.record("B", 43, "later");
    let listed = get_active_sessions(&mut registry, &Vec::new());
    assert_eq!(listed.len(), 2);
    assert_eq!(listed[0].device_serial, "A");
    assert_eq!(listed[0].process_id, 42);
    assert_eq!(listed[0].started_at, "");
    assert_eq!(listed[1].device_serial, "B");

    assert_eq!(stop_mirror(&mut registry, "A"), Ok(42));
    assert_eq!(
        stop_mirror(&mut registry, "A"),
        Err(AppError::MirrorError("No active mirror session for device A".to_string()))
    );
    let listed = get_active_sessions(&mut registry, &vec!["B".to_string()]);
    assert_eq!(listed.len(), 0);
    assert!(!registry.has_session("B"));
}

#[test]
fn recording_replaces_the_session_of_a_device() {
    let mut registry = SessionRegistry::new();
    registry.record("A", 1, "t1");
    registry.record("B", 2, "t2");
    registry.record("A", 3, "t3");
    assert_eq!(registry.sessions.len(), 2);
    assert_eq!(registry.process("A"), Some(3));
    assert_eq!(registry.listing()[0].device_serial, "B");
}

#[test]
fn camera_mirror_sessions() {
    let mut registry = SessionRegistry::new();
    let args = |facing: &str, size: &str, no_audio: bool, orientation: &str| {
        start_camera_mirror(&SessionRegistry::new(), "A", facing, size, no_audio, orientation)
            .unwrap()
    };
    assert_eq!(
        args("back", "1920x1080", true, "portrait"),
        vec![
            "-s", "A", "--video-source=camera", "--camera-facing=back",
            "--camera-size=1920x1080", "--no-audio", "--orientation=90",
        ]
    );
    assert_eq!(
        args("front", "", false, "portrait"),
        vec!["-s", "A", "--video-source=camera", "--camera-facing=front", "--orientation=270"]
    );
    assert_eq!(
        args("front", "", false, "landscape"),
        vec!["-s", "A", "--video-source=camera", "--camera-facing=front"]
    );
    registry.record("A", 7, "t");
    assert_eq!(
        start_camera_mirror(&registry, "A", "back", "", false, "landscape"),
        Err(AppError::MirrorError("Camera session already active for device A".to_string()))
    );
    assert_eq!(get_camera_sessions(&mut registry, &Vec::new()).len(), 1);
    assert_eq!(stop_camera_mirror(&mut registry, "A"), Ok(7));
    assert_eq!(
        stop_camera_mirror(&mut registry, "A"),
        Err(AppError::MirrorError("No active camera session for device A".to_string()))
    );
}

#[test]
fn session_failures() {
    assert_eq!(
        mirror_start_failed("x"),
        AppError::MirrorError("Failed to start scrcpy: x".to_string())
    );
    assert_eq!(
        mirror_stop_failed("x"),
        AppError::MirrorError("Failed to stop scrcpy: x".to_string())
    );
    assert_eq!(
        camera_start_failed("x"),
        AppError::MirrorError("Failed to start camera: x".to_string())
    );
    assert_eq!(
        camera_stop_failed("x"),
        AppError::MirrorError("Failed to stop camera: x".to_string())
    );
}

#[test]
fn settings_of_a_fresh_installation() {
    let s = Settings::new();
    assert_eq!(s.adb_path, None);
    assert_eq!(s.adb_resolved_path, None);
    assert!(!s.adb_available);
    assert_eq!(s.scrcpy_path, None);
    assert!(!s.scrcpy_available);
    assert_eq!(s.default_device_dir, "Download/GesuBridge");
    assert_eq!(s.ffmpeg_path, None);
    assert!(!s.ffmpeg_available);
    let empty = Settings::default();
    assert_eq!(empty.default_device_dir, "");
    assert_eq!(empty.adb_path, None);
    assert!(!empty.adb_available);
}

#[test]
fn detection_rules() {
    let works = ToolProbe { configured_works: true, detected: Some("/found".to_string()) };
    let broken = ToolProbe { configured_works: false, detected: Some("/found".to_string()) };
    let nothing = ToolProbe { configured_works: false, detected: None };
    assert_eq!(resolve_tool(&Some("/mine".to_string()), &works), Some("/mine".to_string()));
    assert_eq!(resolve_tool(&Some("/mine".to_string()), &broken), None);
    assert_eq!(resolve_tool(&None, &broken), Some("/found".to_string()));
    assert_eq!(resolve_tool(&None, &nothing), None);

    let mut settings = Settings::new();
    settings.scrcpy_path = Some("/my/scrcpy".to_string());
    let detected = get_settings_with_detection(settings, &broken, &broken);
    assert_eq!(detected.adb_resolved_path, Some("/found".to_string()));
    assert!(detected.adb_available);
    assert_eq!(detected.scrcpy_resolved_path, None);
    assert!(!detected.scrcpy_available);
    assert_eq!(detected.scrcpy_path, Some("/my/scrcpy".to_string()));
    assert_eq!(detected.default_device_dir, "Download/GesuBridge");
    assert_eq!(require_adb(&detected), Ok("/found".to_string()));
    assert_eq!(
        require_scrcpy(&detected),
        Err(AppError::ScrcpyNotFound(
            "scrcpy not found. Install scrcpy or set the path in Settings.".to_string()
        ))
    );
    assert_eq!(
        require_adb(&Settings::new()),
        Err(AppError::AdbNotFound("ADB not found. Configure it in Settings.".to_string()))
    );
}

#[test]
fn detection_prefers_the_search_path() {
    let candidates = vec![
        Candidate { path: "/a".to_string(), exists: false },
        Candidate { path: "/b".to_string(), exists: true },
        Candidate { path: "/c".to_string(), exists: true },
    ];
    assert_eq!(detect_path(Some("/on/path".to_string()), &candidates), Some("/on/path".to_string()));
    assert_eq!(detect_path(None, &candidates), Some("/b".to_string()));
    assert_eq!(detect_path(None, &Vec::new()), None);
}

#[test]
fn well_known_locations() {
    let adb = adb_locations();
    assert_eq!(adb.len(), 4);
    assert_eq!(adb[0].path, "C:/platform-tools/adb.exe");
    assert_eq!(adb[1].anchor, Anchor::Home);
    assert_eq!(adb[1].path, "AppData/Local/Android/Sdk/platform-tools/adb.exe");
    assert_eq!(adb[3].anchor, Anchor::Absolute);
    let scrcpy = scrcpy_locations();
    assert_eq!(scrcpy.len(), 3);
    assert_eq!(scrcpy[1].path, "scrcpy/scrcpy.exe");
    assert_eq!(scrcpy[1].anchor, Anchor::Home);
    assert_eq!(scrcpy[2].path, "C:/Program Files/scrcpy/scrcpy.exe");
}

#[test]
fn a_push_under_an_active_identifier_takes_its_place() {
    let mut ledger = TransferLedger::new();
    push_file(&mut ledger, "S", "/old", Some("old"), "d", 1, "same", "t1");
    push_file(&mut ledger, "S", "/other", Some("other"), "d", 2, "else", "t2");
    let (newer, _) = push_file(&mut ledger, "S", "/new", Some("new"), "d", 3, "same", "t3");
    let active = get_active_transfers(&ledger);
    assert_eq!(active.len(), 2);
    assert_eq!(active[0].id, "else");
    assert_eq!(active[1], newer);
    assert_eq!(active[1].source_path, "/new");

    let done = complete_push(&mut ledger, &newer, exited(true, "", ""));
    assert_eq!(done.source_path, "/new");
    assert_eq!(done.status, TransferStatus::Complete);
    assert_eq!(done.transferred_bytes, 3);
    assert_eq!(done.error, None);
    let active = get_active_transfers(&ledger);
    assert_eq!(active.len(), 1);
    assert_eq!(active[0].id, "else");
    assert_eq!(get_transfer_history(&ledger), vec![done]);
}

#[test]
fn a_push_that_ends_after_its_cancellation_is_still_recorded() {
    let mut ledger = TransferLedger::new();
    let (item, _) = push_file(&mut ledger, "S", "/x", Some("x"), "d", 9, "one", "t");
    assert_eq!(cancel_transfer(&mut ledger, "one"), Ok(()));
    assert_eq!(finish_push(&mut ledger, "one", exited(true, "", "")), None);
    let done = complete_push(&mut ledger, &item, exited(false, "", "killed"));
    assert_eq!(done.status, TransferStatus::Failed);
    assert_eq!(done.error, Some("killed".to_string()));
    assert_eq!(done.transferred_bytes, 0);
    let history = get_transfer_history(&ledger);
    assert_eq!(history.len(), 2);
    assert_eq!(history[0], done);
    assert_eq!(history[1].status, TransferStatus::Cancelled);
    assert_eq!(get_active_transfers(&ledger).len(), 0);
}

#[test]
fn complete_push_caps_the_history() {
    let mut ledger = TransferLedger::new();
    for i in 0..55u32 {
        let id = format!("t{}", i);
        let (item, _) = push_file(&mut ledger, "S", "/x", Some("x"), "d", 1, &id, "t");
        complete_push(&mut ledger, &item, Err("gone".to_string()));
    }
    let history = get_transfer_history(&ledger);
    assert_eq!(history.len(), 50);
    assert_eq!(history[0].id, "t54");
    assert_eq!(history[0].error, Some("Failed to execute adb: gone".to_string()));
}

#[test]
fn record_of_a_push_that_could_not_begin() {
    let error = AppError::TransferError("no device".to_string());
    let item = failed_push(1700000000123, "/home/u/a.jpg", Some("a.jpg"), "Download", &error, "now");
    assert_eq!(item.id, "error_1700000000123");
    assert_eq!(item.file_name, "a.jpg");
    assert_eq!(item.source_path, "/home/u/a.jpg");
    assert_eq!(item.dest_path, "/sdcard/Download/");
    assert_eq!(item.size_bytes, 0);
    assert_eq!(item.transferred_bytes, 0);
    assert_eq!(item.status, TransferStatus::Failed);
    assert_eq!(item.error, Some("Transfer error: no device".to_string()));
    assert_eq!(item.started_at, "now");
    assert_eq!(failed_push(0, "/", None, "d", &error, "t").file_name, "unknown");
}
