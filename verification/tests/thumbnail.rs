use media_bridge::dataurl::{
    data_url, mime_type, mime_type_of_path, previews_inline, read_file_as_base64,
};
use media_bridge::errors::{AppError, ErrorKind};
use media_bridge::thumbnail::{
    cache_entry_name, frame_command, pull_command, Action, Event, Outcome, Stage,
    ThumbnailResolver,
};

fn strings(items: &[&str]) -> Vec<String> {
    items.iter().map(|s| s.to_string()).collect()
}

fn begin(path: &str) -> (ThumbnailResolver, Action) {
    ThumbnailResolver::begin("SER", path, "/cache/thumb.jpg", "/cache/orig", None).unwrap()
}

fn run(arguments: &[&str]) -> Action {
    Action::Run { arguments: strings(arguments) }
}

fn probe() -> Action {
    Action::ProbeCache { path: "/cache/thumb.jpg".to_string() }
}

fn deliver() -> Action {
    Action::Deliver { path: "/cache/thumb.jpg".to_string() }
}

fn not_found(name: &str) -> Action {
    Action::Fail {
        error: AppError::ThumbnailNotAvailable(format!("Thumbnail not found for {}", name)),
    }
}

const IMAGE_QUERY: [&str; 11] = [
    "-s", "SER", "shell", "content", "query", "--uri", "content://media/external/images/media",
    "--projection", "_id:_data", "--where", "_display_name='a.jpg'",
];

#[test]
fn cache_names() {
    assert_eq!(cache_entry_name("/sdcard/DCIM/IMG 1.jpg"), Ok("thumb_IMG_1.jpg.jpg".to_string()));
    assert_eq!(cache_entry_name("/a/b.mp4/"), Ok("thumb_b.mp4.jpg".to_string()));
    assert_eq!(
        cache_entry_name("/"),
        Err(AppError::InvalidPath("Invalid remote path".to_string()))
    );
}

#[test]
fn files_with_one_name_share_a_cache_entry() {
    assert_eq!(
        cache_entry_name("/sdcard/DCIM/IMG_0001.jpg"),
        cache_entry_name("/sdcard/Pictures/IMG_0001.jpg")
    );
}

#[test]
fn begin_refuses_a_path_without_file_name() {
    let r = ThumbnailResolver::begin("SER", "/sdcard/..", "/c", "/s", None);
    assert_eq!(r.err(), Some(AppError::InvalidPath("Invalid remote path".to_string())));
}

#[test]
fn cache_hit_short_circuits() {
    let (mut r, first) = begin("/sdcard/DCIM/a.jpg");
    assert_eq!(first, probe());
    assert_eq!(r.stage, Stage::CacheCheck);
    assert!(!r.is_done());
    assert_eq!(r.step(Event::Cache(true)), deliver());
    assert!(r.is_done());
    assert_eq!(r.stage, Stage::Done { outcome: Outcome::Delivered });
    assert_eq!(r.step(Event::Cache(false)), deliver());
}

#[test]
fn cache_hit_serves_even_an_unsupported_type() {
    let (mut r, _) = begin("/sdcard/notes.txt");
    assert_eq!(r.step(Event::Cache(true)), deliver());
}

#[test]
fn unsupported_type_fails_after_the_cache_check() {
    let (mut r, _) = begin("/sdcard/notes.txt");
    let failure = Action::Fail {
        error: AppError::ThumbnailNotAvailable("Unsupported file type for notes.txt".to_string()),
    };
    assert_eq!(r.step(Event::Cache(false)), failure);
    assert!(r.is_done());
    assert_eq!(r.step(Event::Local(true)), failure);
}

#[test]
fn provider_thumbnail_is_pulled_into_the_cache_slot() {
    let (mut r, _) = begin("/storage/emulated/0/DCIM/a.jpg");
    assert_eq!(r.variants, strings(&["/storage/emulated/0/DCIM/a.jpg"]));
    assert_eq!(r.step(Event::Cache(false)), run(&IMAGE_QUERY));
    assert_eq!(
        r.step(Event::Command(Some("Row: 0 _id=7, _data=/sdcard/DCIM/a.jpg\n".to_string()))),
        run(&[
            "-s", "SER", "shell", "content", "query", "--uri",
            "content://media/external/images/thumbnails", "--projection", "_data", "--where",
            "image_id=7",
        ])
    );
    assert_eq!(r.media_id, Some("7".to_string()));
    assert_eq!(
        r.step(Event::Command(Some("Row: 0 _data=/sdcard/.thumbnails/7.jpg".to_string()))),
        run(&["-s", "SER", "pull", "/sdcard/.thumbnails/7.jpg", "/cache/thumb.jpg"])
    );
    assert_eq!(r.step(Event::Command(Some(String::new()))), probe());
    assert_eq!(r.step(Event::Cache(true)), deliver());
}

#[test]
fn content_read_comes_before_the_local_fallback() {
    let (mut r, _) = begin("/sdcard/DCIM/a.jpg");
    assert_eq!(
        r.variants,
        strings(&["/sdcard/DCIM/a.jpg", "/storage/emulated/0/DCIM/a.jpg"])
    );
    assert_eq!(r.step(Event::Cache(false)), run(&IMAGE_QUERY));
    // The first variant gives no row; the second is asked for.
    assert_eq!(r.step(Event::Command(Some("No result found.".to_string()))), run(&IMAGE_QUERY));
    assert_eq!(r.stage, Stage::Discover { variant: 1 });
    let thumbnails = r.step(Event::Command(Some(
        "Row: 0 _id=12, _data=/storage/emulated/0/DCIM/a.jpg".to_string(),
    )));
    assert!(matches!(thumbnails, Action::Run { .. }));
    // The provider keeps no thumbnail: the slot is probed and found empty.
    assert_eq!(r.step(Event::Command(None)), probe());
    assert_eq!(
        r.step(Event::Cache(false)),
        run(&[
            "-s", "SER", "shell",
            "content read --uri content://media/external/images/thumbnails/12 > /data/local/tmp/gesu_thumb_12.jpg",
        ])
    );
    assert_eq!(
        r.step(Event::Command(None)),
        run(&["-s", "SER", "pull", "/data/local/tmp/gesu_thumb_12.jpg", "/cache/thumb.jpg"])
    );
    assert_eq!(
        r.step(Event::Command(Some("1 file pulled".to_string()))),
        run(&["-s", "SER", "shell", "rm", "/data/local/tmp/gesu_thumb_12.jpg"])
    );
    assert_eq!(r.step(Event::Command(None)), probe());
    assert_eq!(r.step(Event::Cache(true)), deliver());
    assert!(r.is_done());
}

#[test]
fn content_read_of_a_video_uses_the_video_uri() {
    let (mut r, _) = begin("/x/v.mp4");
    r.step(Event::Cache(false));
    r.step(Event::Command(Some("Row: 0 _id=5, _data=/x/v.mp4".to_string())));
    r.step(Event::Command(None));
    assert_eq!(
        r.step(Event::Cache(false)),
        run(&[
            "-s", "SER", "shell",
            "content read --uri content://media/external/video/media/5/thumbnail > /data/local/tmp/gesu_thumb_5.jpg",
        ])
    );
}

#[test]
fn failed_content_pull_is_cleaned_up_and_falls_back() {
    let (mut r, _) = begin("/x/a.jpg");
    r.step(Event::Cache(false));
    r.step(Event::Command(Some("Row: 0 _id=5, _data=/x/a.jpg".to_string())));
    r.step(Event::Command(None));
    r.step(Event::Cache(false));
    r.step(Event::Command(Some(String::new())));
    assert_eq!(
        r.step(Event::Command(None)),
        run(&["-s", "SER", "shell", "rm", "/data/local/tmp/gesu_thumb_5.jpg"])
    );
    assert_eq!(
        r.step(Event::Command(Some(String::new()))),
        run(&["-s", "SER", "pull", "/x/a.jpg", "/cache/orig"])
    );
    assert_eq!(r.stage, Stage::ImagePull);
}

#[test]
fn image_fallback() {
    let (mut r, _) = begin("/x/a.jpg");
    r.step(Event::Cache(false));
    // No identifier: straight to the local fallback.
    assert_eq!(r.step(Event::Command(None)), run(&["-s", "SER", "pull", "/x/a.jpg", "/cache/orig"]));
    assert_eq!(
        r.step(Event::Command(Some(String::new()))),
        Action::Downscale {
            source: "/cache/orig".to_string(),
            target: "/cache/thumb.jpg".to_string(),
            max_width: 256,
            max_height: 256,
        }
    );
    assert_eq!(r.step(Event::Local(true)), Action::Remove { path: "/cache/orig".to_string() });
    assert_eq!(r.step(Event::Local(false)), deliver());
}

#[test]
fn image_fallback_failures() {
    let (mut r, _) = begin("/x/a.jpg");
    r.step(Event::Cache(false));
    r.step(Event::Command(None));
    assert_eq!(r.step(Event::Command(None)), not_found("a.jpg"));
    assert_eq!(r.stage, Stage::Done { outcome: Outcome::NotFound });

    let (mut r, _) = begin("/x/a.jpg");
    r.step(Event::Cache(false));
    r.step(Event::Command(None));
    r.step(Event::Command(Some(String::new())));
    assert_eq!(r.step(Event::Local(false)), Action::Remove { path: "/cache/orig".to_string() });
    assert_eq!(r.step(Event::Local(true)), not_found("a.jpg"));
}

#[test]
fn video_fallback() {
    let (mut r, _) =
        ThumbnailResolver::begin("SER", "/x/v.MKV", "/cache/thumb.jpg", "/cache/orig", Some("/bin/ff"))
            .unwrap();
    r.step(Event::Cache(false));
    assert_eq!(
        r.step(Event::Command(None)),
        Action::ProbeExtractor { program: "/bin/ff".to_string() }
    );
    assert_eq!(r.step(Event::Local(true)), run(&["-s", "SER", "pull", "/x/v.MKV", "/cache/orig"]));
    assert_eq!(
        r.step(Event::Command(Some(String::new()))),
        Action::ExtractFrame {
            program: "/bin/ff".to_string(),
            arguments: strings(&[
                "-i", "/cache/orig", "-ss", "00:00:01.000", "-vframes", "1", "-vf",
                "scale=320:-1", "-y", "/cache/thumb.jpg",
            ]),
        }
    );
    assert_eq!(r.step(Event::Local(true)), Action::Remove { path: "/cache/orig".to_string() });
    assert_eq!(r.step(Event::Local(true)), deliver());
}

#[test]
fn video_fallback_without_extractor() {
    let (mut r, _) = begin("/x/v.mp4");
    r.step(Event::Cache(false));
    assert_eq!(
        r.step(Event::Command(None)),
        Action::ProbeExtractor { program: "ffmpeg".to_string() }
    );
    assert_eq!(r.step(Event::Local(false)), not_found("v.mp4"));
}

#[test]
fn a_report_of_another_kind_counts_as_failure() {
    let (mut r, _) = begin("/x/a.jpg");
    // A command report where a probe was asked for: no hit.
    assert!(matches!(r.step(Event::Command(Some(String::new()))), Action::Run { .. }));
    // A probe report where a command was asked for: no output.
    assert_eq!(r.step(Event::Cache(true)), run(&["-s", "SER", "pull", "/x/a.jpg", "/cache/orig"]));
}

#[test]
fn pull_and_frame_commands() {
    assert_eq!(pull_command("S", "/r", "/l"), strings(&["-s", "S", "pull", "/r", "/l"]));
    assert_eq!(frame_command("in.mp4", "out.jpg")[0], "-i");
    assert_eq!(frame_command("in.mp4", "out.jpg").len(), 10);
}

#[test]
fn data_urls() {
    assert_eq!(data_url("image/png", "QUJD"), "data:image/png;base64,QUJD");
    assert_eq!(
        read_file_as_base64("/cache/thumb_x.jpg", Ok(b"hello world~".to_vec())),
        Ok("data:image/jpeg;base64,aGVsbG8gd29ybGR+".to_string())
    );
    assert_eq!(
        read_file_as_base64("a.PNG", Ok(vec![0u8, 255u8])),
        Ok("data:image/png;base64,AP8=".to_string())
    );
    assert_eq!(
        read_file_as_base64("noext", Ok(Vec::new())),
        Ok("data:image/jpeg;base64,".to_string())
    );
    let failed = read_file_as_base64("a.png", Err("denied".to_string()));
    assert_eq!(failed, Err(AppError::IoError("Failed to read file: denied".to_string())));
    assert_eq!(failed.unwrap_err().kind(), ErrorKind::IoError);
}

#[test]
fn mime_types() {
    assert_eq!(mime_type("jpg"), "image/jpeg");
    assert_eq!(mime_type("jpeg"), "image/jpeg");
    assert_eq!(mime_type("png"), "image/png");
    assert_eq!(mime_type("gif"), "image/gif");
    assert_eq!(mime_type("webp"), "image/webp");
    assert_eq!(mime_type("bmp"), "image/jpeg");
    assert_eq!(mime_type_of_path("/a/b.GIF"), "image/gif");
    assert_eq!(mime_type_of_path("/a/b"), "image/jpeg");
    assert_eq!(mime_type_of_path("/a/b.webp"), "image/webp");
}

#[test]
fn inline_previews() {
    for name in ["a.jpg", "a.JPEG", "a.png", "a.gif", "a.webp", "a.bmp"] {
        assert!(previews_inline(name));
    }
    for name in ["a.heic", "a.mp4", "a", "a.txt"] {
        assert!(!previews_inline(name));
    }
}
