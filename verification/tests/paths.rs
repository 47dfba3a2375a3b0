use media_bridge::paths::{
    extension, file_name, match_remote_paths, normalize_path, quote_remote_path,
    quote_sql_value, sanitize_filename, PathMatch,
};
use media_bridge::provider::{
    extract_value, find_id_matching_path, get_media_store_id, get_thumbnail_path,
    media_id_query, parse_data_path, thumbnail_query,
};
use media_bridge::errors::AppError;
use media_bridge::models::MediaType;

#[test]
fn test_sanitize_filename() {
    assert_eq!(sanitize_filename("test.jpg"), "test.jpg");
    assert_eq!(sanitize_filename("my file (1).jpg"), "my_file__1_.jpg");
    assert_eq!(sanitize_filename("photo-2024.png"), "photo-2024.png");
}

#[test]
fn test_normalize_path() {
    assert_eq!(normalize_path("/sdcard/DCIM/test.jpg"), "DCIM/test.jpg");
    assert_eq!(
        normalize_path("/storage/emulated/0/DCIM/test.jpg"),
        "DCIM/test.jpg"
    );
    assert_eq!(normalize_path("/simple/path.jpg"), "simple/path.jpg");
}

#[test]
fn test_find_id_matching_path() {
    let output = "Row: 0 _id=123, _data=/storage/emulated/0/DCIM/Camera/IMG.jpg";
    assert_eq!(
        find_id_matching_path(output, "/sdcard/DCIM/Camera/IMG.jpg"),
        Some("123".to_string())
    );

    // Mismatch
    assert_eq!(find_id_matching_path(output, "/sdcard/Other/IMG.jpg"), None);
}

#[test]
fn aliases_normalize_to_one_form() {
    assert_eq!(normalize_path("/sdcard/DCIM/a.jpg"), "DCIM/a.jpg");
    assert_eq!(normalize_path("/storage/emulated/0/DCIM/a.jpg"), "DCIM/a.jpg");
    assert_eq!(
        normalize_path("/sdcard/DCIM/a.jpg"),
        normalize_path("/storage/emulated/0/DCIM/a.jpg")
    );
}

#[test]
fn normalize_strips_only_a_prefix_and_leading_slashes() {
    assert_eq!(normalize_path("///a/b"), "a/b");
    assert_eq!(normalize_path("/sdcard//x"), "x");
    assert_eq!(normalize_path("/data/sdcard/x"), "data/sdcard/x");
    assert_eq!(normalize_path("/sdcard"), "sdcard");
    assert_eq!(normalize_path(""), "");
    assert_eq!(normalize_path(&normalize_path("/sdcard/a b/c")), "a b/c");
}

#[test]
fn quoting_for_the_remote_shell() {
    assert_eq!(quote_remote_path("/sdcard/DCIM"), "'/sdcard/DCIM'");
    assert_eq!(quote_remote_path("/sdcard/It's Me"), "'/sdcard/It'\\''s Me'");
    assert_eq!(quote_remote_path(""), "''");
    assert_eq!(quote_remote_path("''"), "''\\'''\\'''");
}

#[test]
fn quoting_for_sql() {
    assert_eq!(quote_sql_value("a'b"), "a''b");
    assert_eq!(quote_sql_value("plain"), "plain");
}

#[test]
fn path_matching_is_exact_or_by_suffix() {
    assert_eq!(match_remote_paths("/sdcard/a/b.jpg", "/storage/emulated/0/a/b.jpg"), PathMatch::Exact);
    assert_eq!(match_remote_paths("/sdcard/a/b.jpg", "b.jpg"), PathMatch::Suffix);
    assert_eq!(match_remote_paths("b.jpg", "/sdcard/a/b.jpg"), PathMatch::Suffix);
    assert_eq!(match_remote_paths("/sdcard/a/b.jpg", "/sdcard/a/c.jpg"), PathMatch::Different);
}

#[test]
fn file_names_follow_path_components() {
    assert_eq!(file_name("/sdcard/DCIM/a.jpg"), Some("a.jpg".to_string()));
    assert_eq!(file_name("a/b//"), Some("b".to_string()));
    assert_eq!(file_name("a/b/."), Some("b".to_string()));
    assert_eq!(file_name("a/b/./"), Some("b".to_string()));
    assert_eq!(file_name("a/.."), None);
    assert_eq!(file_name("/"), None);
    assert_eq!(file_name(""), None);
    assert_eq!(file_name("."), None);
    assert_eq!(file_name("..."), Some("...".to_string()));
    assert_eq!(file_name(".hidden"), Some(".hidden".to_string()));
}

#[test]
fn file_names_agree_with_std_on_posix_paths() {
    let samples = [
        "/sdcard/DCIM/a.jpg", "a/b//", "a/b/.", "a/..", "/", "", ".", "./", "./a", "a/./b", "..",
        "a//b///.//", "x.tar.gz", ".bashrc", "foo.", "dir.d/file", "/a/.b.c", "a b/c d.e f",
    ];
    for s in samples {
        let p = std::path::Path::new(s);
        let name = p.file_name().and_then(|n| n.to_str()).map(|n| n.to_string());
        let ext = p.extension().and_then(|n| n.to_str()).map(|n| n.to_string());
        assert_eq!(file_name(s), name);
        assert_eq!(extension(s), ext);
    }
}

#[test]
fn extensions() {
    assert_eq!(extension("a.JPG"), Some("JPG".to_string()));
    assert_eq!(extension("x.tar.gz"), Some("gz".to_string()));
    assert_eq!(extension(".bashrc"), None);
    assert_eq!(extension("foo."), Some("".to_string()));
    assert_eq!(extension("noext"), None);
    assert_eq!(extension("dir.d/file"), None);
}

#[test]
fn sanitize_keeps_letters_of_any_script() {
    assert_eq!(sanitize_filename("été_ß.jpg"), "été_ß.jpg");
    assert_eq!(sanitize_filename("a/b\\c:d"), "a_b_c_d");
}

#[test]
fn values_of_query_rows() {
    let line = "Row: 0 _id=123, _data=/storage/emulated/0/DCIM/Camera/IMG.jpg";
    assert_eq!(extract_value(line, "_id="), Some("123".to_string()));
    assert_eq!(
        extract_value(line, "_data="),
        Some("/storage/emulated/0/DCIM/Camera/IMG.jpg".to_string())
    );
    assert_eq!(extract_value(line, "missing="), None);
    assert_eq!(extract_value("k=  v  ,x", "k="), Some("v".to_string()));
}

#[test]
fn first_matching_row_gives_the_id() {
    let output = "Row: 0 _id=1, _data=/sdcard/x/IMG.jpg\r\nnoise\nRow: 1 _id=2, _data=/sdcard/DCIM/IMG.jpg\nRow: 2 _id=3, _data=/sdcard/DCIM/IMG.jpg\n";
    assert_eq!(find_id_matching_path(output, "/sdcard/DCIM/IMG.jpg"), Some("2".to_string()));
    assert_eq!(find_id_matching_path("", "/sdcard/DCIM/IMG.jpg"), None);
}

#[test]
fn data_path_of_thumbnail_rows() {
    assert_eq!(
        parse_data_path("Row: 0 _data=/sdcard/.thumbnails/1.jpg,,"),
        Some("/sdcard/.thumbnails/1.jpg".to_string())
    );
    assert_eq!(parse_data_path("Row: 0 _data=\nRow: 1 _data=/t.jpg"), Some("/t.jpg".to_string()));
    assert_eq!(parse_data_path("No result found."), None);
}

#[test]
fn failed_queries_give_nothing() {
    let failed: Result<String, AppError> = Err(AppError::AdbExecutionFailed("x".to_string()));
    assert_eq!(get_media_store_id(&failed, "/sdcard/a.jpg"), None);
    assert_eq!(get_thumbnail_path(&failed), None);
    let ok: Result<String, AppError> = Ok("Row: 0 _id=7, _data=/sdcard/a.jpg".to_string());
    assert_eq!(get_media_store_id(&ok, "/sdcard/a.jpg"), Some("7".to_string()));
    assert_eq!(get_thumbnail_path(&ok), Some("/sdcard/a.jpg".to_string()));
}

#[test]
fn query_commands() {
    assert_eq!(
        media_id_query("S1", "/sdcard/DCIM/It's.jpg", MediaType::Image),
        Some(
            vec![
                "-s", "S1", "shell", "content", "query", "--uri",
                "content://media/external/images/media", "--projection", "_id:_data", "--where",
                "_display_name='It''s.jpg'",
            ]
            .into_iter()
            .map(|s| s.to_string())
            .collect::<Vec<String>>()
        )
    );
    assert_eq!(media_id_query("S1", "/", MediaType::Video), None);
    assert_eq!(
        media_id_query("S1", "/a.mp4", MediaType::Video).map(|a| a[6].clone()),
        Some("content://media/external/video/media".to_string())
    );
    assert_eq!(
        thumbnail_query("S1", "42", MediaType::Video),
        vec![
            "-s", "S1", "shell", "content", "query", "--uri",
            "content://media/external/video/thumbnails", "--projection", "_data", "--where",
            "video_id=42",
        ]
    );
    assert_eq!(thumbnail_query("S1", "42", MediaType::Image)[10], "image_id=42");
    assert_eq!(
        thumbnail_query("S1", "42", MediaType::Image)[6],
        "content://media/external/images/thumbnails"
    );
}
