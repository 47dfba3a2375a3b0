//! Data URLs: image bytes handed to the caller inline, as
//! `data:<mime>;base64,<payload>`.

use crate::catalog::lowercase;
use crate::errors::{AppError, ErrorKind, ErrorView};
use crate::gateway::result_view;
use crate::paths::{extension_chars, extension_of};
use crate::text::{append_str, chars_of, lowercase_of, same_chars, string_of};
use vstd::prelude::*;

verus! {

/// The standard base64 encoding of `data`, with padding.
pub uninterp spec fn base64_standard(data: Seq<u8>) -> Seq<char>;

/// The encoder computes the length of its output in `usize`; `len` bytes can
/// be encoded where that length fits.
pub open spec fn encodable(len: nat) -> bool {
    (len / 3) * 4 + 4 <= usize::MAX
}

/// `Engine::encode` of the `base64` crate, on its `STANDARD` engine, returns
/// the base64 text of the bytes; the contract only gives that text the name
/// [`base64_standard`]. The call fails where the length of the text does not
/// fit in `usize`, which `requires` excludes.
#[verifier::external_body]
fn encode_standard(data: &Vec<u8>) -> (text: String)
    requires
        encodable(data@.len()),
    ensures
        text@ == base64_standard(data@),
{
    base64::Engine::encode(&base64::engine::general_purpose::STANDARD, data)
}

/// The MIME type that stands for a lowercase file extension.
pub open spec fn mime_of(extension: Seq<char>) -> Seq<char> {
    if extension == "png"@ {
        "image/png"@
    } else if extension == "gif"@ {
        "image/gif"@
    } else if extension == "webp"@ {
        "image/webp"@
    } else {
        "image/jpeg"@
    }
}

/// The MIME type of the file at `path`, judged by its extension; a file
/// without extension is taken for a JPEG.
pub open spec fn mime_of_path(path: Seq<char>) -> Seq<char> {
    match extension_of(path) {
        Some(e) => mime_of(lowercase_of(e)),
        None => "image/jpeg"@,
    }
}

/// A file with the lowercase extension `extension` is previewed inline, as
/// a data URL; any other is previewed from its local path.
pub open spec fn is_inline_extension(extension: Seq<char>) -> bool {
    extension == "jpg"@ || extension == "jpeg"@ || extension == "png"@ || extension == "gif"@
        || extension == "webp"@ || extension == "bmp"@
}

/// The file at `path` is previewed inline.
pub open spec fn is_inline(path: Seq<char>) -> bool {
    is_inline_extension(
        lowercase_of(
            match extension_of(path) {
                Some(e) => e,
                None => Seq::empty(),
            },
        ),
    )
}

/// The data URL of a payload of the type `mime`.
pub open spec fn data_url_of(mime: Seq<char>, payload: Seq<char>) -> Seq<char> {
    "data:"@ + mime + ";base64,"@ + payload
}

/// What reading a file as a data URL gives: the URL of its bytes, or the
/// failure to read or to encode it.
pub open spec fn file_as_data_url(path: Seq<char>, contents: Result<Vec<u8>, String>) -> Result<
    Seq<char>,
    ErrorView,
> {
    match contents {
        Ok(data) => if encodable(data@.len()) {
            Ok(data_url_of(mime_of_path(path), base64_standard(data@)))
        } else {
            Err(ErrorView { kind: ErrorKind::IoError, detail: "File too large to encode"@ })
        },
        Err(reason) => Err(
            ErrorView { kind: ErrorKind::IoError, detail: "Failed to read file: "@ + reason@ },
        ),
    }
}

/// The MIME type that stands for the lowercase extension `extension`.
pub fn mime_type(extension: &str) -> (mime: &'static str)
    ensures
        mime@ == mime_of(extension@),
{
    let e = chars_of(extension);
    if same_chars(&e, &chars_of("png")) {
        "image/png"
    } else if same_chars(&e, &chars_of("gif")) {
        "image/gif"
    } else if same_chars(&e, &chars_of("webp")) {
        "image/webp"
    } else {
        "image/jpeg"
    }
}

/// The MIME type of the file at `path`.
pub fn mime_type_of_path(path: &str) -> (mime: &'static str)
    ensures
        mime@ == mime_of_path(path@),
{
    match extension_chars(&chars_of(path)) {
        Some(e) => {
            let lower = string_of(&lowercase(&e));
            mime_type(lower.as_str())
        },
        None => "image/jpeg",
    }
}

/// Whether the pulled file at `path` is previewed inline, as a data URL,
/// rather than from its local path.
pub fn previews_inline(path: &str) -> (r: bool)
    ensures
        r == is_inline(path@),
{
    let extension = match extension_chars(&chars_of(path)) {
        Some(e) => e,
        None => Vec::new(),
    };
    let e = lowercase(&extension);
    same_chars(&e, &chars_of("jpg")) || same_chars(&e, &chars_of("jpeg")) || same_chars(
        &e,
        &chars_of("png"),
    ) || same_chars(&e, &chars_of("gif")) || same_chars(&e, &chars_of("webp")) || same_chars(
        &e,
        &chars_of("bmp"),
    )
}

/// The data URL of the payload `payload` of the type `mime`.
pub fn data_url(mime: &str, payload: &str) -> (url: String)
    ensures
        url@ == data_url_of(mime@, payload@),
{
    let mut out = chars_of("data:");
    append_str(&mut out, mime);
    append_str(&mut out, ";base64,");
    append_str(&mut out, payload);
    string_of(&out)
}

/// The bytes `data` of the file at `path` as a data URL.
pub fn encode_file(path: &str, data: &Vec<u8>) -> (url: String)
    requires
        encodable(data@.len()),
    ensures
        url@ == data_url_of(mime_of_path(path@), base64_standard(data@)),
{
    let payload = encode_standard(data);
    data_url(mime_type_of_path(path), payload.as_str())
}

/// The file at `path` as a data URL. `contents` is what reading the file
/// gave: its bytes, or the reason why it could not be read.
pub fn read_file_as_base64(path: &str, contents: Result<Vec<u8>, String>) -> (url: Result<
    String,
    AppError,
>)
    ensures
        result_view(url) == file_as_data_url(path@, contents),
{
    match contents {
        Ok(data) => {
            if data.len() / 3 <= (usize::MAX - 4) / 4 {
                Ok(encode_file(path, &data))
            } else {
                Err(AppError::IoError("File too large to encode".to_owned()))
            }
        },
        Err(reason) => {
            let mut detail = chars_of("Failed to read file: ");
            append_str(&mut detail, reason.as_str());
            Err(AppError::IoError(string_of(&detail)))
        },
    }
}

} // verus!
