use media_bridge::catalog::{
    apply_filter, classify_name, list_folders, list_media_files, listing_command, media_folder,
    same_ignoring_ascii_case,
};
use media_bridge::models::{MediaFilter, MediaItem, MediaType};

const LISTING: &str = "total 48\n\
drwxrwx--- 2 u0_a1 media_rw 4096 2024-01-29 09:00 .\n\
drwxrwx--- 5 u0_a1 media_rw 4096 2024-01-29 09:00 ..\n\
-rw-rw---- 1 u0_a123 u0_a123 12345 2024-01-30 10:30 IMG_0001.jpg\r\n\
-rw-rw---- 1 u0_a123 u0_a123 777 2024-02-01 08:15 My Holiday Photo 1.PNG\n\
ls: /sdcard/DCIM/.secret: Permission denied\n\
-rw-rw---- 1 u0_a123 u0_a123 bad 2024-01-31 23:59 clip.mp4\n\
\n\
-rw-rw---- 1 u0_a123 u0_a123 10 2024-01-30 10:30 notes.txt\n\
drwxrwx--- 2 u0_a1 media_rw 4096 2024-01-29 09:00 Camera\n\
-rw-rw---- 1 u0_a123 u0_a123 5 2024-01-30\n";

fn names(items: &Vec<MediaItem>) -> Vec<String> {
    items.iter().map(|i| i.name.clone()).collect()
}

#[test]
fn listing_parse_returns_exactly_the_media_lines() {
    let items = list_media_files(LISTING, "/sdcard/DCIM", MediaFilter::All);
    assert_eq!(items.len(), 3);
    assert_eq!(names(&items), vec!["My Holiday Photo 1.PNG", "clip.mp4", "IMG_0001.jpg"]);

    let photo = &items[0];
    assert_eq!(photo.path, "/sdcard/DCIM/My Holiday Photo 1.PNG");
    assert_eq!(photo.media_type, MediaType::Image);
    assert_eq!(photo.size_bytes, 777);
    assert_eq!(photo.date_taken, Some("2024-02-01 08:15".to_string()));
    assert_eq!(photo.width, None);
    assert_eq!(photo.height, None);
    assert_eq!(photo.duration_ms, None);
    assert_eq!(photo.thumbnail_url, None);

    let clip = &items[1];
    assert_eq!(clip.media_type, MediaType::Video);
    assert_eq!(clip.size_bytes, 0);

    let img = &items[2];
    assert_eq!(img.size_bytes, 12345);
    assert_eq!(img.date_taken, Some("2024-01-30 10:30".to_string()));
}

#[test]
fn listing_joins_the_base_path_with_one_slash() {
    let line = "-rw-rw---- 1 o g 1 2024-01-30 10:30 a.jpg\n";
    assert_eq!(list_media_files(line, "/sdcard/DCIM/", MediaFilter::All)[0].path, "/sdcard/DCIM/a.jpg");
    assert_eq!(list_media_files(line, "/sdcard/DCIM", MediaFilter::All)[0].path, "/sdcard/DCIM/a.jpg");
    assert_eq!(list_media_files(line, "", MediaFilter::All)[0].path, "/a.jpg");
}

#[test]
fn listing_needs_a_name_after_seven_columns() {
    assert_eq!(list_media_files("-rw-rw---- 1 o g 1 2024-01-30 10:30", "/d", MediaFilter::All).len(), 0);
    assert_eq!(list_media_files("-rw-rw---- 1 o g 1 2024-01-30 10:30 a.gif", "/d", MediaFilter::All).len(), 1);
    assert_eq!(list_media_files("lrw-rw---- 1 o g 1 2024-01-30 10:30 a.gif", "/d", MediaFilter::All).len(), 0);
    assert_eq!(list_media_files("total 1 o g 1 2024-01-30 10:30 a.gif", "/d", MediaFilter::All).len(), 0);
    assert_eq!(list_media_files("", "/d", MediaFilter::All).len(), 0);
}

#[test]
fn listing_sizes() {
    let size = |column: &str| {
        let line = format!("-rw-rw---- 1 o g {} 2024-01-30 10:30 a.gif", column);
        list_media_files(&line, "/d", MediaFilter::All)[0].size_bytes
    };
    assert_eq!(size("0"), 0);
    assert_eq!(size("+42"), 42);
    assert_eq!(size("007"), 7);
    assert_eq!(size("18446744073709551615"), 18446744073709551615);
    assert_eq!(size("18446744073709551616"), 0);
    assert_eq!(size("-1"), 0);
    assert_eq!(size("1e3"), 0);
    assert_eq!(size("+"), 0);
}

#[test]
fn media_are_sorted_newest_first_and_ties_keep_their_order() {
    let listing = "-rw-rw---- 1 o g 1 2024-01-30 10:30 b.jpg\n\
-rw-rw---- 1 o g 1 2024-03-01 00:00 c.jpg\n\
-rw-rw---- 1 o g 1 2024-01-30 10:30 a.jpg\n\
-rw-rw---- 1 o g 1 2023-12-31 23:59 d.jpg\n";
    let items = list_media_files(listing, "/d", MediaFilter::All);
    assert_eq!(names(&items), vec!["c.jpg", "b.jpg", "a.jpg", "d.jpg"]);
}

#[test]
fn classification_by_extension() {
    for e in ["jpg", "jpeg", "png", "gif", "webp", "bmp", "heic", "heif"] {
        assert_eq!(classify_name(&format!("file.{}", e)), Some(MediaType::Image));
        assert_eq!(classify_name(&format!("file.{}", e.to_uppercase())), Some(MediaType::Image));
    }
    for e in ["mp4", "mkv", "avi", "mov", "webm", "3gp", "m4v"] {
        assert_eq!(classify_name(&format!("file.{}", e)), Some(MediaType::Video));
        assert_eq!(classify_name(&format!("file.{}", e.to_uppercase())), Some(MediaType::Video));
    }
    for name in ["file.txt", "file", "file.", ".jpg", "jpg", "file.jpg.bak", "file.mp3", "a.jpg/b"] {
        assert_eq!(classify_name(name), None);
    }
    assert_eq!(classify_name("/sdcard/DCIM/x.JpEg"), Some(MediaType::Image));
}

#[test]
fn unclassified_files_are_not_in_the_catalog() {
    let listing = "-rw-rw---- 1 o g 1 2024-01-30 10:30 a.txt\n-rw-rw---- 1 o g 1 2024-01-30 10:30 b\n";
    assert_eq!(list_media_files(listing, "/d", MediaFilter::All).len(), 0);
}

#[test]
fn filters() {
    let all = list_media_files(LISTING, "/sdcard/DCIM", MediaFilter::All);
    let images = list_media_files(LISTING, "/sdcard/DCIM", MediaFilter::Images);
    let videos = list_media_files(LISTING, "/sdcard/DCIM", MediaFilter::Videos);
    assert_eq!(names(&images), vec!["My Holiday Photo 1.PNG", "IMG_0001.jpg"]);
    assert_eq!(names(&videos), vec!["clip.mp4"]);

    assert_eq!(apply_filter(&all, MediaFilter::All), all);
    assert_eq!(apply_filter(&all, MediaFilter::Images), images);
    assert_eq!(apply_filter(&all, MediaFilter::Videos), videos);
    let once = apply_filter(&all, MediaFilter::Images);
    let twice = apply_filter(&once, MediaFilter::Images);
    assert_eq!(once, twice);
    assert_eq!(apply_filter(&images, MediaFilter::Videos).len(), 0);
    assert_eq!(apply_filter(&images, MediaFilter::Images), images);
    assert_eq!(apply_filter(&videos, MediaFilter::Videos), videos);
    assert_eq!(all.len(), images.len() + videos.len());
    for item in &all {
        assert!(images.contains(item) || videos.contains(item));
    }
    assert_eq!(MediaFilter::default(), MediaFilter::All);
}

fn folder_listing(names: &[&str]) -> String {
    let mut out = String::from("total 12\n");
    for n in names {
        out.push_str(&format!("drwxrwx--- 2 root sdcard_rw 4096 2024-01-29 09:00 {}\n", n));
    }
    out
}

#[test]
fn folders_media_first_then_by_name() {
    let folders = list_folders(&folder_listing(&["zeta", "DCIM", "alpha"]), None);
    let names: Vec<&str> = folders.iter().map(|f| f.name.as_str()).collect();
    assert_eq!(names, vec!["DCIM", "alpha", "zeta"]);
    assert!(folders[0].is_media_folder);
    assert!(!folders[1].is_media_folder);
    assert_eq!(folders[0].path, "/sdcard/DCIM");
    assert_eq!(folders[0].item_count, None);
}

#[test]
fn folders_sort_without_regard_to_case_and_keep_ties() {
    let folders = list_folders(
        &folder_listing(&["beta", "Alpha", "alpha", "Pictures", "download", "ALPHA"]),
        Some("/storage/x/"),
    );
    let names: Vec<&str> = folders.iter().map(|f| f.name.as_str()).collect();
    assert_eq!(names, vec!["download", "Pictures", "Alpha", "alpha", "ALPHA", "beta"]);
    assert_eq!(folders[1].path, "/storage/x/Pictures");
}

#[test]
fn folder_lines_that_are_skipped() {
    let listing = "total 3\n\
drwxrwx--- 2 r s 4096 2024-01-29 09:00 .\n\
drwxrwx--- 2 r s 4096 2024-01-29 09:00 ..\n\
drwxrwx--- 2 r s 4096 2024-01-29 09:00 .hidden\n\
-rw-rw---- 1 r s 4096 2024-01-29 09:00 file.jpg\n\
drwxrwx--- 2 r s 4096 2024-01-29 09:00\n\
ls: /sdcard/x: No such file or directory\n\
drwxrwx--- 2 r s 4096 2024-01-29 09:00 My Folder\n";
    let folders = list_folders(listing, Some("/sdcard"));
    assert_eq!(folders.len(), 1);
    assert_eq!(folders[0].name, "My Folder");
    assert_eq!(folders[0].path, "/sdcard/My Folder");
    assert!(!folders[0].is_media_folder);
}

#[test]
fn media_folders_by_name_or_path() {
    let chars = |s: &str| s.chars().collect::<Vec<char>>();
    assert!(media_folder(&chars("dcim"), &chars("/x/dcim")));
    assert!(media_folder(&chars("Camera"), &chars("/sdcard/DCIM/Camera")));
    assert!(media_folder(&chars("Media"), &chars("/sdcard/WhatsApp/Media")));
    assert!(media_folder(&chars("SCREENSHOTS"), &chars("/a/SCREENSHOTS")));
    assert!(media_folder(&chars("telegram"), &chars("/a/telegram")));
    assert!(media_folder(&chars("MOVIES"), &chars("/a/MOVIES")));
    assert!(!media_folder(&chars("camera"), &chars("/sdcard/dcim/camera")));
    assert!(!media_folder(&chars("Music"), &chars("/sdcard/Music")));
    assert!(same_ignoring_ascii_case(&chars("AbC"), &chars("aBc")));
    assert!(!same_ignoring_ascii_case(&chars("abc"), &chars("abd")));
    assert!(!same_ignoring_ascii_case(&chars("k"), &chars("\u{212A}")));
}

#[test]
fn listing_commands() {
    assert_eq!(
        listing_command("SER", "/sdcard/It's Me"),
        vec!["-s", "SER", "shell", "ls", "-la", "'/sdcard/It'\\''s Me'"]
    );
}
