//! The content provider of the device: the queries that look a media file up
//! in its media store, and the reading of what they print.
//!
//! A query prints one row per line, such as
//! `Row: 0 _id=123, _data=/storage/emulated/0/DCIM/Camera/IMG.jpg`.

use crate::errors::AppError;
use crate::gateway::output_of;
use crate::models::MediaType;
use crate::paths::{
    file_name_chars, file_name_of, match_chars, same_remote_file, sql_quote_chars, sql_quoted,
    PathMatch,
};
use crate::scan::{lines, split_lines, strip_trailing, trim, trim_end_matches, trimmed};
use crate::text::{
    append, append_str, chars_of, find, find_in, matches_at, rows, slice_of, string_of, texts,
};
use vstd::prelude::*;

verus! {

/// `s` up to its first comma, or all of it.
pub open spec fn until_comma(s: Seq<char>) -> Seq<char> {
    match find(s, seq![',']) {
        Some(i) => s.take(i),
        None => s,
    }
}

/// The value that `line` gives for `key`: what follows the first occurrence
/// of the key, up to the next comma or the end of the line, trimmed.
pub open spec fn value_of(line: Seq<char>, key: Seq<char>) -> Option<Seq<char>> {
    match find(line, key) {
        Some(at) => Some(trim(until_comma(line.skip(at + key.len())))),
        None => None,
    }
}

/// The identifier of the row `line`, if the row is about the file `target`.
pub open spec fn row_id(line: Seq<char>, target: Seq<char>) -> Option<Seq<char>> {
    match (value_of(line, "_id="@), value_of(line, "_data="@)) {
        (Some(id), Some(data)) => if same_remote_file(data, target) {
            Some(id)
        } else {
            None
        },
        _ => None,
    }
}

/// The identifier of the first of the rows that is about the file `target`.
pub open spec fn first_row_id(rows: Seq<Seq<char>>, target: Seq<char>) -> Option<Seq<char>>
    decreases rows.len(),
{
    if rows.len() == 0 {
        None
    } else {
        match row_id(rows[0], target) {
            Some(id) => Some(id),
            None => first_row_id(rows.skip(1), target),
        }
    }
}

/// The identifier under which the query output `output` lists the file
/// `target`.
pub open spec fn matching_id(output: Seq<char>, target: Seq<char>) -> Option<Seq<char>> {
    first_row_id(lines(output), target)
}

/// The path that the row `line` gives: what follows `_data=`, without
/// trailing commas, if anything is left.
pub open spec fn row_path(line: Seq<char>) -> Option<Seq<char>> {
    match find(line, "_data="@) {
        Some(at) => {
            let path = trim_end_matches(line.skip(at + "_data="@.len()), ',');
            if path.len() > 0 {
                Some(path)
            } else {
                None
            }
        },
        None => None,
    }
}

/// The path that the first of the rows with a path gives.
pub open spec fn first_row_path(rows: Seq<Seq<char>>) -> Option<Seq<char>>
    decreases rows.len(),
{
    if rows.len() == 0 {
        None
    } else {
        match row_path(rows[0]) {
            Some(path) => Some(path),
            None => first_row_path(rows.skip(1)),
        }
    }
}

/// The table of the media store that lists media of the type `kind`.
pub open spec fn media_table(kind: MediaType) -> Seq<char> {
    match kind {
        MediaType::Video => "content://media/external/video/media"@,
        MediaType::Image => "content://media/external/images/media"@,
    }
}

/// The table of the media store that lists thumbnails of media of the type
/// `kind`.
pub open spec fn thumbnail_table(kind: MediaType) -> Seq<char> {
    match kind {
        MediaType::Video => "content://media/external/video/thumbnails"@,
        MediaType::Image => "content://media/external/images/thumbnails"@,
    }
}

/// The column of the thumbnail table that holds the identifier of the media
/// file.
pub open spec fn parent_column(kind: MediaType) -> Seq<char> {
    match kind {
        MediaType::Video => "video_id"@,
        MediaType::Image => "image_id"@,
    }
}

/// The arguments of the query for the rows of the file named `name`.
pub open spec fn id_query_arguments(serial: Seq<char>, name: Seq<char>, kind: MediaType) -> Seq<
    Seq<char>,
> {
    seq![
        "-s"@,
        serial,
        "shell"@,
        "content"@,
        "query"@,
        "--uri"@,
        media_table(kind),
        "--projection"@,
        "_id:_data"@,
        "--where"@,
        "_display_name='"@ + sql_quoted(name) + "'"@,
    ]
}

/// The arguments of the query for the thumbnail of the media file `id`.
pub open spec fn thumbnail_query_arguments(
    serial: Seq<char>,
    id: Seq<char>,
    kind: MediaType,
) -> Seq<Seq<char>> {
    seq![
        "-s"@,
        serial,
        "shell"@,
        "content"@,
        "query"@,
        "--uri"@,
        thumbnail_table(kind),
        "--projection"@,
        "_data"@,
        "--where"@,
        parent_column(kind) + "="@ + id,
    ]
}

/// The value that `line` gives for `key`.
pub fn value_chars(line: &Vec<char>, key: &Vec<char>) -> (value: Option<Vec<char>>)
    ensures
        match value {
            Some(v) => value_of(line@, key@) == Some(v@),
            None => value_of(line@, key@) is None,
        },
{
    let at = match find_in(line, key) {
        Some(at) => at,
        None => {
            return None;
        },
    };
    assert(matches_at(line@, at as int, key@));
    assert(at + key.len() <= line.len());
    let rest = slice_of(line, at + key.len(), line.len());
    proof {
        assert(rest@ =~= line@.skip(at + key@.len()));
    }
    let mut comma: Vec<char> = Vec::new();
    comma.push(',');
    proof {
        assert(comma@ =~= seq![',']);
    }
    let cut = match find_in(&rest, &comma) {
        Some(i) => {
            proof {
                assert(rest@.subrange(0, i as int) =~= rest@.take(i as int));
            }
            slice_of(&rest, 0, i)
        },
        None => rest,
    };
    Some(trimmed(&cut))
}

/// The value that `line` gives for `key`: what follows the first occurrence
/// of the key, up to the next comma or the end of the line, trimmed.
pub fn extract_value(line: &str, key: &str) -> (value: Option<String>)
    ensures
        match value {
            Some(v) => value_of(line@, key@) == Some(v@),
            None => value_of(line@, key@) is None,
        },
{
    match value_chars(&chars_of(line), &chars_of(key)) {
        Some(v) => Some(string_of(&v)),
        None => None,
    }
}

/// The identifier of the row `line`, if the row is about the file `target`.
fn row_id_of(line: &Vec<char>, target: &Vec<char>) -> (id: Option<Vec<char>>)
    ensures
        match id {
            Some(v) => row_id(line@, target@) == Some(v@),
            None => row_id(line@, target@) is None,
        },
{
    let id_key = chars_of("_id=");
    let data_key = chars_of("_data=");
    let id = value_chars(line, &id_key);
    let data = value_chars(line, &data_key);
    match (id, data) {
        (Some(id), Some(data)) => {
            if match_chars(&data, target) != PathMatch::Different {
                Some(id)
            } else {
                None
            }
        },
        _ => None,
    }
}

/// The identifier under which the query output `output` lists the file
/// `target_path`: that of the first row whose path is taken for the same
/// file.
pub fn find_id_matching_path(output: &str, target_path: &str) -> (id: Option<String>)
    ensures
        match id {
            Some(v) => matching_id(output@, target_path@) == Some(v@),
            None => matching_id(output@, target_path@) is None,
        },
{
    let all = split_lines(&chars_of(output));
    let target = chars_of(target_path);
    let mut i: usize = 0;
    proof {
        assert(rows(all@).skip(0) =~= rows(all@));
    }
    while i < all.len()
        invariant
            i <= all.len(),
            rows(all@) == lines(output@),
            target@ == target_path@,
            first_row_id(rows(all@), target@) == first_row_id(rows(all@).skip(i as int), target@),
        decreases all.len() - i,
    {
        proof {
            assert(rows(all@).skip(i as int)[0] == all@[i as int]@);
            assert(rows(all@).skip(i as int).skip(1) =~= rows(all@).skip(i + 1));
        }
        match row_id_of(&all[i], &target) {
            Some(id) => {
                return Some(string_of(&id));
            },
            None => {},
        }
        i += 1;
    }
    None
}

/// The path that the row `line` gives, if any.
fn row_path_of(line: &Vec<char>) -> (path: Option<Vec<char>>)
    ensures
        match path {
            Some(v) => row_path(line@) == Some(v@),
            None => row_path(line@) is None,
        },
{
    let key = chars_of("_data=");
    let at = match find_in(line, &key) {
        Some(at) => at,
        None => {
            return None;
        },
    };
    assert(matches_at(line@, at as int, key@));
    assert(at + key.len() <= line.len());
    let rest = slice_of(line, at + key.len(), line.len());
    proof {
        assert(rest@ =~= line@.skip(at + key@.len()));
    }
    let path = strip_trailing(&rest, ',');
    if path.len() > 0 {
        Some(path)
    } else {
        None
    }
}

/// The path that the query output `output` gives: that of the first row
/// that has one.
pub fn parse_data_path(output: &str) -> (path: Option<String>)
    ensures
        match path {
            Some(v) => first_row_path(lines(output@)) == Some(v@),
            None => first_row_path(lines(output@)) is None,
        },
{
    let all = split_lines(&chars_of(output));
    let mut i: usize = 0;
    proof {
        assert(rows(all@).skip(0) =~= rows(all@));
    }
    while i < all.len()
        invariant
            i <= all.len(),
            rows(all@) == lines(output@),
            first_row_path(rows(all@)) == first_row_path(rows(all@).skip(i as int)),
        decreases all.len() - i,
    {
        proof {
            assert(rows(all@).skip(i as int)[0] == all@[i as int]@);
            assert(rows(all@).skip(i as int).skip(1) =~= rows(all@).skip(i + 1));
        }
        match row_path_of(&all[i]) {
            Some(path) => {
                return Some(string_of(&path));
            },
            None => {},
        }
        i += 1;
    }
    None
}

/// The identifier that the outcome of an identifier query gives for the
/// file `remote_path`: none where the query failed or lists no row that is
/// about the file.
pub fn get_media_store_id(outcome: &Result<String, AppError>, remote_path: &str) -> (id: Option<
    String,
>)
    ensures
        match id {
            Some(v) => output_of(*outcome) matches Some(output) && matching_id(
                output,
                remote_path@,
            ) == Some(v@),
            None => match output_of(*outcome) {
                Some(output) => matching_id(output, remote_path@) is None,
                None => true,
            },
        },
{
    match outcome {
        Ok(output) => find_id_matching_path(output.as_str(), remote_path),
        Err(_) => None,
    }
}

/// The remote path of the thumbnail that the outcome of a thumbnail query
/// gives: none where the query failed or gives no path.
pub fn get_thumbnail_path(outcome: &Result<String, AppError>) -> (path: Option<String>)
    ensures
        match path {
            Some(v) => output_of(*outcome) matches Some(output) && first_row_path(lines(output))
                == Some(v@),
            None => match output_of(*outcome) {
                Some(output) => first_row_path(lines(output)) is None,
                None => true,
            },
        },
{
    match outcome {
        Ok(output) => parse_data_path(output.as_str()),
        Err(_) => None,
    }
}

/// The table of the media store that lists media of the type `kind`.
fn media_table_of(kind: MediaType) -> (uri: &'static str)
    ensures
        uri@ == media_table(kind),
{
    match kind {
        MediaType::Video => "content://media/external/video/media",
        MediaType::Image => "content://media/external/images/media",
    }
}

/// The arguments with which the remote-control executable asks the media
/// store of the device `serial` for the rows of the file that `remote_path`
/// names; none where the path names no file. The rows are asked for by file
/// name, so that the storage alias in front of the path does not matter.
pub fn media_id_query(serial: &str, remote_path: &str, kind: MediaType) -> (arguments: Option<
    Vec<String>,
>)
    ensures
        match arguments {
            Some(a) => file_name_of(remote_path@) matches Some(name) && texts(a@)
                == id_query_arguments(serial@, name, kind),
            None => file_name_of(remote_path@) is None,
        },
{
    let name = match file_name_chars(&chars_of(remote_path)) {
        Some(n) => n,
        None => {
            return None;
        },
    };
    let mut filter = chars_of("_display_name='");
    append(&mut filter, &sql_quote_chars(&name));
    append_str(&mut filter, "'");
    let mut arguments: Vec<String> = Vec::new();
    arguments.push("-s".to_owned());
    arguments.push(serial.to_owned());
    arguments.push("shell".to_owned());
    arguments.push("content".to_owned());
    arguments.push("query".to_owned());
    arguments.push("--uri".to_owned());
    arguments.push(media_table_of(kind).to_owned());
    arguments.push("--projection".to_owned());
    arguments.push("_id:_data".to_owned());
    arguments.push("--where".to_owned());
    arguments.push(string_of(&filter));
    proof {
        assert(texts(arguments@) =~= id_query_arguments(serial@, name@, kind));
    }
    Some(arguments)
}

/// The arguments with which the remote-control executable asks the media
/// store of the device `serial` for the thumbnail of the media file
/// `media_id`.
pub fn thumbnail_query(serial: &str, media_id: &str, kind: MediaType) -> (arguments: Vec<String>)
    ensures
        texts(arguments@) == thumbnail_query_arguments(serial@, media_id@, kind),
{
    let (table, column): (&str, &str) = match kind {
        MediaType::Video => ("content://media/external/video/thumbnails", "video_id"),
        MediaType::Image => ("content://media/external/images/thumbnails", "image_id"),
    };
    let mut filter = chars_of(column);
    append_str(&mut filter, "=");
    append_str(&mut filter, media_id);
    let mut arguments: Vec<String> = Vec::new();
    arguments.push("-s".to_owned());
    arguments.push(serial.to_owned());
    arguments.push("shell".to_owned());
    arguments.push("content".to_owned());
    arguments.push("query".to_owned());
    arguments.push("--uri".to_owned());
    arguments.push(table.to_owned());
    arguments.push("--projection".to_owned());
    arguments.push("_data".to_owned());
    arguments.push("--where".to_owned());
    arguments.push(string_of(&filter));
    proof {
        assert(texts(arguments@) =~= thumbnail_query_arguments(serial@, media_id@, kind));
    }
    arguments
}

} // verus!
