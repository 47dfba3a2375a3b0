//! Thumbnail resolution: a still image for a remote media file, found by a
//! chain of strategies from the cheapest to the dearest.
//!
//! The chain is a state machine. The application does what the machine asks
//! for (probe the cache, run a remote command, work on a local file) and
//! reports what came of it; the machine decides what is tried next. Every
//! strategy writes to one cache slot, and a slot that holds a non-empty file
//! ends the resolution.
//!
//! 1. The cache slot is probed; a hit is delivered at once.
//! 2. A file that is neither image nor video has no thumbnail.
//! 3. The media store is asked for the identifier of the file, under the
//!    path as given and under its storage alias.
//! 4. With an identifier, the thumbnail that the media store keeps is pulled
//!    into the slot.
//! 5. Failing that, the thumbnail is read through the content provider into
//!    a file on the device, which is pulled into the slot and removed.
//! 6. Failing that, an image is pulled whole and scaled down locally.
//! 7. A video is pulled whole and a frame is extracted from it, if a frame
//!    extractor runs.
//! 8. Failing all, the resolution fails.

use crate::catalog::{classify, classify_chars};
use crate::dataurl::{
    base64_standard, data_url_of, encodable, file_as_data_url, mime_of, mime_of_path,
};
use crate::errors::{AppError, ErrorKind, ErrorView};
use crate::models::{opt_text, MediaType};
use crate::paths::{
    extension_of, extension_of_name, file_name_chars, file_name_of, last_index_of, last_segment,
    sanitize_chars, sanitized, storage_alias, storage_root,
};
use crate::provider::{
    find_id_matching_path, first_row_path, id_query_arguments, matching_id, media_id_query,
    parse_data_path, thumbnail_query, thumbnail_query_arguments,
};
use crate::scan::lines;
use crate::text::{
    append, append_str, chars_of, is_ascii_text, lowercase_of, slice_of, starts_with, string_of,
    texts,
};
use vstd::prelude::*;

verus! {

/// How a resolution ended.
#[derive(Clone, Copy, Debug, PartialEq, Eq, Structural)]
pub enum Outcome {
    /// The cache slot holds the thumbnail.
    Delivered,
    /// The file is neither image nor video.
    Unsupported,
    /// No strategy produced a thumbnail.
    NotFound,
}

/// Where a resolution stands: what was asked for last.
#[derive(Clone, Copy, Debug, PartialEq, Eq, Structural)]
pub enum Stage {
    /// The cache slot is being probed for the first time.
    CacheCheck,
    /// The media store is being asked for the identifier, under the path
    /// variant with this index.
    Discover { variant: usize },
    /// The media store is being asked for the thumbnail it keeps.
    ProviderQuery,
    /// The kept thumbnail is being pulled into the cache slot.
    ProviderPull,
    /// The cache slot is being probed after the provider strategy.
    ProviderVerify,
    /// The thumbnail is being read into a file on the device.
    ContentRead,
    /// That file is being pulled into the cache slot.
    ContentPull,
    /// That file is being removed from the device.
    ContentCleanup { pulled: bool },
    /// The cache slot is being probed after the content-read strategy.
    ContentVerify,
    /// The image itself is being pulled.
    ImagePull,
    /// The pulled image is being scaled down into the cache slot.
    ImageScale,
    /// The pulled image is being removed.
    ImageCleanup { made: bool },
    /// The frame extractor is being tried.
    ExtractorProbe,
    /// The video itself is being pulled.
    VideoPull,
    /// A frame is being extracted into the cache slot.
    FrameExtract,
    /// The pulled video is being removed.
    VideoCleanup { made: bool },
    /// The resolution is over.
    Done { outcome: Outcome },
}

/// What the application reports back.
#[derive(Clone, Debug, PartialEq, Eq)]
pub enum Event {
    /// Whether the probed file exists and is not empty.
    Cache(bool),
    /// The output of the remote command, or `None` if it failed.
    Command(Option<String>),
    /// Whether the local work succeeded.
    Local(bool),
}

/// An event with its text as a sequence of characters.
pub enum EventView {
    Cache(bool),
    Command(Option<Seq<char>>),
    Local(bool),
}

impl View for Event {
    type V = EventView;

    open spec fn view(&self) -> EventView {
        match self {
            Event::Cache(hit) => EventView::Cache(*hit),
            Event::Command(output) => EventView::Command(opt_text(*output)),
            Event::Local(ok) => EventView::Local(*ok),
        }
    }
}

/// What the application is asked to do next.
#[derive(Clone, Debug, PartialEq, Eq)]
pub enum Action {
    /// Report whether the file at `path` exists and is not empty.
    ProbeCache { path: String },
    /// Run the remote-control executable with these arguments.
    Run { arguments: Vec<String> },
    /// Decode the image at `source`, scale it down to fit the bounds, and
    /// save it at `target`.
    Downscale { source: String, target: String, max_width: u32, max_height: u32 },
    /// Report whether `program` can be run.
    ProbeExtractor { program: String },
    /// Run `program` with these arguments.
    ExtractFrame { program: String, arguments: Vec<String> },
    /// Remove the local file at `path`, whatever comes of it.
    Remove { path: String },
    /// The thumbnail is the file at `path`: read it and hand it out.
    Deliver { path: String },
    /// The resolution failed.
    Fail { error: AppError },
}

/// An action with its texts as sequences of characters.
pub enum ActionView {
    ProbeCache { path: Seq<char> },
    Run { arguments: Seq<Seq<char>> },
    Downscale { source: Seq<char>, target: Seq<char>, max_width: u32, max_height: u32 },
    ProbeExtractor { program: Seq<char> },
    ExtractFrame { program: Seq<char>, arguments: Seq<Seq<char>> },
    Remove { path: Seq<char> },
    Deliver { path: Seq<char> },
    Fail { error: ErrorView },
}

impl View for Action {
    type V = ActionView;

    open spec fn view(&self) -> ActionView {
        match self {
            Action::ProbeCache { path } => ActionView::ProbeCache { path: path@ },
            Action::Run { arguments } => ActionView::Run { arguments: texts(arguments@) },
            Action::Downscale { source, target, max_width, max_height } => ActionView::Downscale {
                source: source@,
                target: target@,
                max_width: *max_width,
                max_height: *max_height,
            },
            Action::ProbeExtractor { program } => ActionView::ProbeExtractor { program: program@ },
            Action::ExtractFrame { program, arguments } => ActionView::ExtractFrame {
                program: program@,
                arguments: texts(arguments@),
            },
            Action::Remove { path } => ActionView::Remove { path: path@ },
            Action::Deliver { path } => ActionView::Deliver { path: path@ },
            Action::Fail { error } => ActionView::Fail { error: error@ },
        }
    }
}

/// A resolution in progress.
#[derive(Clone, Debug, PartialEq, Eq)]
pub struct ThumbnailResolver {
    /// The device the file is on.
    pub serial: String,
    /// The remote path of the media file.
    pub remote_path: String,
    /// The file name of the media file.
    pub file_name: String,
    /// What the file is by its extension.
    pub kind: Option<MediaType>,
    /// The local path of the cache entry.
    pub cache_slot: String,
    /// The local path to which the media file itself is pulled where needed.
    pub scratch_path: String,
    /// The frame extractor.
    pub extractor: String,
    /// The remote paths under which the media store is asked for the file.
    pub variants: Vec<String>,
    /// The identifier that the media store gave.
    pub media_id: Option<String>,
    /// Where the resolution stands.
    pub stage: Stage,
}

/// A resolution with its texts as sequences of characters.
pub struct ResolverView {
    pub serial: Seq<char>,
    pub remote_path: Seq<char>,
    pub file_name: Seq<char>,
    pub kind: Option<MediaType>,
    pub cache_slot: Seq<char>,
    pub scratch_path: Seq<char>,
    pub extractor: Seq<char>,
    pub variants: Seq<Seq<char>>,
    pub media_id: Option<Seq<char>>,
    pub stage: Stage,
}

impl View for ThumbnailResolver {
    type V = ResolverView;

    open spec fn view(&self) -> ResolverView {
        ResolverView {
            serial: self.serial@,
            remote_path: self.remote_path@,
            file_name: self.file_name@,
            kind: self.kind,
            cache_slot: self.cache_slot@,
            scratch_path: self.scratch_path@,
            extractor: self.extractor@,
            variants: texts(self.variants@),
            media_id: opt_text(self.media_id),
            stage: self.stage,
        }
    }
}

/// The name of the cache entry of a file named `name`.
pub open spec fn cache_name(name: Seq<char>) -> Seq<char> {
    "thumb_"@ + sanitized(name) + ".jpg"@
}

/// The failure of a path that names no file.
pub open spec fn invalid_path() -> ErrorView {
    ErrorView { kind: ErrorKind::InvalidPath, detail: "Invalid remote path"@ }
}

/// The remote paths under which the media store is asked for `path`: the
/// path itself, and its twin under the storage root where it lies under the
/// storage alias and the twin names a file.
pub open spec fn path_variants(path: Seq<char>) -> Seq<Seq<char>> {
    let twin = storage_root() + path.skip(storage_alias().len() as int);
    if storage_alias().is_prefix_of(path) && file_name_of(twin) is Some {
        seq![path, twin]
    } else {
        seq![path]
    }
}

/// The arguments of the command that pulls `remote` to `local`.
pub open spec fn pull_arguments(serial: Seq<char>, remote: Seq<char>, local: Seq<char>) -> Seq<
    Seq<char>,
> {
    seq!["-s"@, serial, "pull"@, remote, local]
}

/// The content URI of the thumbnail of the media file `id`.
pub open spec fn thumbnail_uri(id: Seq<char>, kind: MediaType) -> Seq<char> {
    match kind {
        MediaType::Video => "content://media/external/video/media/"@ + id + "/thumbnail"@,
        MediaType::Image => "content://media/external/images/thumbnails/"@ + id,
    }
}

/// The file on the device into which the thumbnail of `id` is read.
pub open spec fn device_temp(id: Seq<char>) -> Seq<char> {
    "/data/local/tmp/gesu_thumb_"@ + id + ".jpg"@
}

/// The arguments of the command that reads the thumbnail of `id` into the
/// file on the device.
pub open spec fn content_read_arguments(serial: Seq<char>, id: Seq<char>, kind: MediaType) -> Seq<
    Seq<char>,
> {
    seq![
        "-s"@,
        serial,
        "shell"@,
        "content read --uri "@ + thumbnail_uri(id, kind) + " > "@ + device_temp(id),
    ]
}

/// The arguments of the command that removes the file on the device.
pub open spec fn cleanup_arguments(serial: Seq<char>, id: Seq<char>) -> Seq<Seq<char>> {
    seq!["-s"@, serial, "shell"@, "rm"@, device_temp(id)]
}

/// The arguments with which the frame extractor takes the frame at one
/// second from `source`, scaled to a width of 320, and writes it to
/// `target`.
pub open spec fn frame_arguments(source: Seq<char>, target: Seq<char>) -> Seq<Seq<char>> {
    seq![
        "-i"@,
        source,
        "-ss"@,
        "00:00:01.000"@,
        "-vframes"@,
        "1"@,
        "-vf"@,
        "scale=320:-1"@,
        "-y"@,
        target,
    ]
}

/// The event reports a non-empty cache slot.
pub open spec fn cache_hit(e: EventView) -> bool {
    e == EventView::Cache(true)
}

/// The output that the event reports, if it reports a command that
/// succeeded.
pub open spec fn command_output(e: EventView) -> Option<Seq<char>> {
    match e {
        EventView::Command(output) => output,
        _ => None,
    }
}

/// The event reports local work that succeeded.
pub open spec fn local_ok(e: EventView) -> bool {
    e == EventView::Local(true)
}

/// `s` at the stage `stage`.
pub open spec fn at_stage(s: ResolverView, stage: Stage) -> ResolverView {
    ResolverView { stage, ..s }
}

/// The resolution ends with the cache slot delivered.
pub open spec fn deliver(s: ResolverView) -> (ResolverView, ActionView) {
    (
        at_stage(s, Stage::Done { outcome: Outcome::Delivered }),
        ActionView::Deliver { path: s.cache_slot },
    )
}

/// The resolution ends because no strategy produced a thumbnail.
pub open spec fn give_up(s: ResolverView) -> (ResolverView, ActionView) {
    (
        at_stage(s, Stage::Done { outcome: Outcome::NotFound }),
        ActionView::Fail {
            error: ErrorView {
                kind: ErrorKind::ThumbnailNotAvailable,
                detail: "Thumbnail not found for "@ + s.file_name,
            },
        },
    )
}

/// The resolution ends because the file is neither image nor video.
pub open spec fn reject(s: ResolverView) -> (ResolverView, ActionView) {
    (
        at_stage(s, Stage::Done { outcome: Outcome::Unsupported }),
        ActionView::Fail {
            error: ErrorView {
                kind: ErrorKind::ThumbnailNotAvailable,
                detail: "Unsupported file type for "@ + s.file_name,
            },
        },
    )
}

/// The cache slot is probed, and the resolution moves to `stage`.
pub open spec fn probe(s: ResolverView, stage: Stage) -> (ResolverView, ActionView) {
    (at_stage(s, stage), ActionView::ProbeCache { path: s.cache_slot })
}

/// The local fallback begins: an image is pulled whole, for a video the
/// frame extractor is tried first.
pub open spec fn fall_back(s: ResolverView) -> (ResolverView, ActionView) {
    match s.kind {
        Some(MediaType::Image) => (
            at_stage(s, Stage::ImagePull),
            ActionView::Run { arguments: pull_arguments(s.serial, s.remote_path, s.scratch_path) },
        ),
        Some(MediaType::Video) => (
            at_stage(s, Stage::ExtractorProbe),
            ActionView::ProbeExtractor { program: s.extractor },
        ),
        None => give_up(s),
    }
}

/// The media store is asked for the identifier under the path variant
/// `variant`; where no variant is left, the local fallback begins.
pub open spec fn discover(s: ResolverView, variant: int) -> (ResolverView, ActionView) {
    if 0 <= variant < s.variants.len() && variant <= usize::MAX && s.kind is Some && file_name_of(
        s.variants[variant],
    ) is Some {
        (
            at_stage(s, Stage::Discover { variant: variant as usize }),
            ActionView::Run {
                arguments: id_query_arguments(
                    s.serial,
                    file_name_of(s.variants[variant])->0,
                    s.kind->0,
                ),
            },
        )
    } else {
        fall_back(s)
    }
}

/// The identifier that the event gives for the path variant `variant`.
pub open spec fn discovered(s: ResolverView, variant: int, e: EventView) -> Option<Seq<char>> {
    match command_output(e) {
        Some(output) => if 0 <= variant < s.variants.len() {
            matching_id(output, s.variants[variant])
        } else {
            None
        },
        None => None,
    }
}

/// With the identifier `id`, the media store is asked for the thumbnail it
/// keeps.
pub open spec fn ask_provider(s: ResolverView, id: Seq<char>) -> (ResolverView, ActionView) {
    match s.kind {
        Some(kind) => (
            ResolverView { media_id: Some(id), stage: Stage::ProviderQuery, ..s },
            ActionView::Run { arguments: thumbnail_query_arguments(s.serial, id, kind) },
        ),
        None => give_up(s),
    }
}

/// The thumbnail path that the event gives.
pub open spec fn provider_path(e: EventView) -> Option<Seq<char>> {
    match command_output(e) {
        Some(output) => first_row_path(lines(output)),
        None => None,
    }
}

/// The content-read strategy begins.
pub open spec fn read_content(s: ResolverView) -> (ResolverView, ActionView) {
    match (s.media_id, s.kind) {
        (Some(id), Some(kind)) => (
            at_stage(s, Stage::ContentRead),
            ActionView::Run { arguments: content_read_arguments(s.serial, id, kind) },
        ),
        _ => fall_back(s),
    }
}

/// The file on the device is pulled into the cache slot.
pub open spec fn pull_content(s: ResolverView) -> (ResolverView, ActionView) {
    match s.media_id {
        Some(id) => (
            at_stage(s, Stage::ContentPull),
            ActionView::Run { arguments: pull_arguments(s.serial, device_temp(id), s.cache_slot) },
        ),
        None => fall_back(s),
    }
}

/// The file on the device is removed, whether or not the pull succeeded.
pub open spec fn clean_content(s: ResolverView, pulled: bool) -> (ResolverView, ActionView) {
    match s.media_id {
        Some(id) => (
            at_stage(s, Stage::ContentCleanup { pulled }),
            ActionView::Run { arguments: cleanup_arguments(s.serial, id) },
        ),
        None => fall_back(s),
    }
}

/// What the resolution `s` does on the event `e`: where it stands next, and
/// what it asks for.
pub open spec fn next(s: ResolverView, e: EventView) -> (ResolverView, ActionView) {
    match s.stage {
        Stage::CacheCheck => if cache_hit(e) {
            deliver(s)
        } else if s.kind is None {
            reject(s)
        } else {
            discover(s, 0)
        },
        Stage::Discover { variant } => match discovered(s, variant as int, e) {
            Some(id) => ask_provider(s, id),
            None => discover(s, variant + 1),
        },
        Stage::ProviderQuery => match provider_path(e) {
            Some(path) => (
                at_stage(s, Stage::ProviderPull),
                ActionView::Run { arguments: pull_arguments(s.serial, path, s.cache_slot) },
            ),
            None => probe(s, Stage::ProviderVerify),
        },
        Stage::ProviderPull => probe(s, Stage::ProviderVerify),
        Stage::ProviderVerify => if cache_hit(e) {
            deliver(s)
        } else {
            read_content(s)
        },
        Stage::ContentRead => pull_content(s),
        Stage::ContentPull => clean_content(s, command_output(e) is Some),
        Stage::ContentCleanup { pulled } => if pulled {
            probe(s, Stage::ContentVerify)
        } else {
            fall_back(s)
        },
        Stage::ContentVerify => if cache_hit(e) {
            deliver(s)
        } else {
            fall_back(s)
        },
        Stage::ImagePull => if command_output(e) is Some {
            (
                at_stage(s, Stage::ImageScale),
                ActionView::Downscale {
                    source: s.scratch_path,
                    target: s.cache_slot,
                    max_width: 256,
                    max_height: 256,
                },
            )
        } else {
            give_up(s)
        },
        Stage::ImageScale => (
            at_stage(s, Stage::ImageCleanup { made: local_ok(e) }),
            ActionView::Remove { path: s.scratch_path },
        ),
        Stage::ImageCleanup { made } => if made {
            deliver(s)
        } else {
            give_up(s)
        },
        Stage::ExtractorProbe => if local_ok(e) {
            (
                at_stage(s, Stage::VideoPull),
                ActionView::Run {
                    arguments: pull_arguments(s.serial, s.remote_path, s.scratch_path),
                },
            )
        } else {
            give_up(s)
        },
        Stage::VideoPull => if command_output(e) is Some {
            (
                at_stage(s, Stage::FrameExtract),
                ActionView::ExtractFrame {
                    program: s.extractor,
                    arguments: frame_arguments(s.scratch_path, s.cache_slot),
                },
            )
        } else {
            give_up(s)
        },
        Stage::FrameExtract => (
            at_stage(s, Stage::VideoCleanup { made: local_ok(e) }),
            ActionView::Remove { path: s.scratch_path },
        ),
        Stage::VideoCleanup { made } => if made {
            deliver(s)
        } else {
            give_up(s)
        },
        Stage::Done { outcome } => match outcome {
            Outcome::Delivered => deliver(s),
            Outcome::Unsupported => reject(s),
            Outcome::NotFound => give_up(s),
        },
    }
}

/// The resolution of `remote_path` as it begins.
pub open spec fn initial(
    serial: Seq<char>,
    remote_path: Seq<char>,
    cache_slot: Seq<char>,
    scratch_path: Seq<char>,
    extractor: Option<Seq<char>>,
) -> ResolverView {
    ResolverView {
        serial,
        remote_path,
        file_name: file_name_of(remote_path)->0,
        kind: classify(remote_path),
        cache_slot,
        scratch_path,
        extractor: match extractor {
            Some(program) => program,
            None => "ffmpeg"@,
        },
        variants: path_variants(remote_path),
        media_id: None,
        stage: Stage::CacheCheck,
    }
}

/// How far a resolution has come; every step takes it further.
pub open spec fn progress(s: ResolverView) -> int {
    let n = s.variants.len() as int;
    match s.stage {
        Stage::CacheCheck => 0,
        Stage::Discover { variant } => 1 + if variant < n {
            variant as int
        } else {
            n
        },
        Stage::ProviderQuery => n + 2,
        Stage::ProviderPull => n + 3,
        Stage::ProviderVerify => n + 4,
        Stage::ContentRead => n + 5,
        Stage::ContentPull => n + 6,
        Stage::ContentCleanup { pulled } => n + 7,
        Stage::ContentVerify => n + 8,
        Stage::ImagePull => n + 9,
        Stage::ImageScale => n + 10,
        Stage::ImageCleanup { made } => n + 11,
        Stage::ExtractorProbe => n + 9,
        Stage::VideoPull => n + 10,
        Stage::FrameExtract => n + 11,
        Stage::VideoCleanup { made } => n + 12,
        Stage::Done { outcome } => n + 13,
    }
}

/// The action asks for a remote command.
pub open spec fn is_remote(a: ActionView) -> bool {
    a is Run
}

/// Text without a slash that is put behind a path lengthens its last
/// segment.
proof fn lemma_last_segment_grows(path: Seq<char>, more: Seq<char>)
    requires
        forall|i: int| 0 <= i < more.len() ==> more[i] != '/',
    ensures
        last_segment(path + more) == last_segment(path) + more,
    decreases more.len(),
{
    if more.len() == 0 {
        assert(path + more =~= path);
        assert(last_segment(path) + more =~= last_segment(path));
    } else {
        let front = more.drop_last();
        assert((path + more).last() == more.last());
        assert((path + more).drop_last() =~= path + front);
        lemma_last_segment_grows(path, front);
        assert((last_segment(path) + front).push(more.last()) =~= last_segment(path) + more);
    }
}

/// A file name that ends in `.jpg` behind at least one character has the
/// extension `jpg`.
proof fn lemma_jpg_extension(stem: Seq<char>)
    requires
        stem.len() > 0,
    ensures
        extension_of_name(stem + ".jpg"@) == Some("jpg"@),
{
    reveal_strlit(".jpg");
    reveal_strlit("jpg");
    let name = stem + ".jpg"@;
    let n = stem.len() as int;
    let s1 = name.drop_last();
    let s2 = s1.drop_last();
    let s3 = s2.drop_last();
    assert(name.last() == 'g');
    assert(s1.last() == 'p');
    assert(s2.last() == 'j');
    assert(s3.last() == '.');
    assert(last_index_of(s3, '.') == n);
    assert(last_index_of(s2, '.') == n);
    assert(last_index_of(s1, '.') == n);
    assert(last_index_of(name, '.') == n);
    assert(name.skip(n + 1) =~= "jpg"@);
}

/// A cache slot is a JPEG by its name, in whatever directory it lies:
/// `directory` is all that stands before the name of the cache entry.
pub proof fn lemma_cache_slot_is_jpeg(directory: Seq<char>, name: Seq<char>)
    ensures
        extension_of(directory + cache_name(name)) == Some("jpg"@),
        mime_of_path(directory + cache_name(name)) == "image/jpeg"@,
{
    reveal_strlit("thumb_");
    reveal_strlit(".jpg");
    reveal_strlit("jpg");
    reveal_strlit("png");
    reveal_strlit("gif");
    reveal_strlit("webp");
    let entry = cache_name(name);
    let slot = directory + entry;
    let safe = sanitized(name);
    assert forall|i: int| 0 <= i < entry.len() implies entry[i] != '/' by {
        if 6 <= i < 6 + safe.len() {
            assert(entry[i] == safe[i - 6]);
        }
    }
    lemma_last_segment_grows(directory, entry);
    let stem = last_segment(directory) + "thumb_"@ + safe;
    let segment = last_segment(slot);
    assert(segment =~= stem + ".jpg"@);
    assert(slot.last() == 'g');
    assert(segment.len() >= 10);
    assert(file_name_of(slot) == Some(segment));
    lemma_jpg_extension(stem);
    assert(is_ascii_text("jpg"@));
    assert(lowercase_of("jpg"@) =~= "jpg"@);
    assert("jpg"@[0] == 'j');
    assert(mime_of("jpg"@) == "image/jpeg"@);
}

/// What is read from a cache slot is handed out as a JPEG: the data URL of
/// the bytes of the slot, whatever the media file is and wherever the slot
/// lies.
pub proof fn lemma_cache_slot_as_data_url(directory: Seq<char>, name: Seq<char>, data: Vec<u8>)
    requires
        encodable(data@.len()),
    ensures
        file_as_data_url(directory + cache_name(name), Ok(data)) == Ok::<Seq<char>, ErrorView>(
            "data:image/jpeg;base64,"@ + base64_standard(data@),
        ),
{
    lemma_cache_slot_is_jpeg(directory, name);
    reveal_strlit("data:image/jpeg;base64,");
    reveal_strlit("data:");
    reveal_strlit("image/jpeg");
    reveal_strlit(";base64,");
    assert(data_url_of("image/jpeg"@, base64_standard(data@)) =~= "data:image/jpeg;base64,"@
        + base64_standard(data@));
}

/// Whenever a resolution delivers, what is read from the delivered path is
/// the content of the cache slot as a JPEG data URL. So it is after a cache
/// hit, whatever the device would answer, and so it is after the
/// content-read strategy has filled the slot.
pub proof fn lemma_delivery_is_cache_content(
    s: ResolverView,
    e: EventView,
    directory: Seq<char>,
    data: Vec<u8>,
)
    requires
        s.cache_slot == directory + cache_name(s.file_name),
        encodable(data@.len()),
    ensures
        next(s, e).1 matches ActionView::Deliver { path } ==> path == s.cache_slot
            && file_as_data_url(path, Ok(data)) == Ok::<Seq<char>, ErrorView>(
            "data:image/jpeg;base64,"@ + base64_standard(data@),
        ),
{
    lemma_cache_slot_as_data_url(directory, s.file_name, data);
}

/// A cache hit ends the resolution at once: the slot is delivered, and no
/// remote command is asked for, neither before the probe nor after it.
pub proof fn lemma_cache_hit_short_circuits(
    serial: Seq<char>,
    remote_path: Seq<char>,
    cache_slot: Seq<char>,
    scratch_path: Seq<char>,
    extractor: Option<Seq<char>>,
)
    ensures
        ({
            let s = initial(serial, remote_path, cache_slot, scratch_path, extractor);
            let (after, action) = next(s, EventView::Cache(true));
            &&& s.stage == Stage::CacheCheck
            &&& action == (ActionView::Deliver { path: cache_slot })
            &&& after.stage == (Stage::Done { outcome: Outcome::Delivered })
            &&& !is_remote(action)
        }),
{
}

/// Where the provider strategy leaves the cache slot empty and the
/// content-read strategy fills it, the content-read result is delivered and
/// no local fallback is asked for on the way: whatever the read and the
/// removal report, if the pull succeeds and the slot is then not empty.
pub proof fn lemma_content_read_precedes_fallback(
    s: ResolverView,
    read: EventView,
    pulled: Seq<char>,
    removed: EventView,
)
    requires
        s.stage == Stage::ProviderVerify,
        s.media_id is Some,
        s.kind is Some,
    ensures
        ({
            let (s1, a1) = next(s, EventView::Cache(false));
            let (s2, a2) = next(s1, read);
            let (s3, a3) = next(s2, EventView::Command(Some(pulled)));
            let (s4, a4) = next(s3, removed);
            let (s5, a5) = next(s4, EventView::Cache(true));
            &&& a1 == (ActionView::Run {
                arguments: content_read_arguments(s.serial, s.media_id->0, s.kind->0),
            })
            &&& a2 == (ActionView::Run {
                arguments: pull_arguments(s.serial, device_temp(s.media_id->0), s.cache_slot),
            })
            &&& a3 == (ActionView::Run { arguments: cleanup_arguments(s.serial, s.media_id->0) })
            &&& a4 == (ActionView::ProbeCache { path: s.cache_slot })
            &&& a5 == (ActionView::Deliver { path: s.cache_slot })
            &&& s5.stage == (Stage::Done { outcome: Outcome::Delivered })
            &&& a1 !is Downscale && a1 !is ProbeExtractor && a1 !is ExtractFrame && a1 !is Remove
            &&& a2 !is Downscale && a2 !is ProbeExtractor && a2 !is ExtractFrame && a2 !is Remove
            &&& a3 !is Downscale && a3 !is ProbeExtractor && a3 !is ExtractFrame && a3 !is Remove
        }),
{
}

/// Every step takes the resolution further, until it is over; it changes
/// nothing but the stage and the identifier.
pub proof fn lemma_step_advances(s: ResolverView, e: EventView)
    ensures
        s.stage !is Done ==> progress(next(s, e).0) > progress(s),
        s.stage is Done ==> next(s, e).0 == s,
        next(s, e).0 == (ResolverView {
            stage: next(s, e).0.stage,
            media_id: next(s, e).0.media_id,
            ..s
        }),
{
}

/// The thumbnail is delivered only from the cache slot, and a resolution
/// fails only by ending.
pub proof fn lemma_ends(s: ResolverView, e: EventView)
    ensures
        next(s, e).1 matches ActionView::Deliver { path } ==> path == s.cache_slot && next(
            s,
            e,
        ).0.stage == (Stage::Done { outcome: Outcome::Delivered }),
        next(s, e).1 is Fail ==> next(s, e).0.stage is Done,
        next(s, e).0.stage is Done ==> next(s, e).1 is Deliver || next(s, e).1 is Fail,
{
}

/// The local fallback is asked for only once the provider strategies are
/// exhausted: no step from the cache check, the provider query or the
/// probes of the slot that find it filled asks for it.
pub proof fn lemma_fallback_comes_last(s: ResolverView, e: EventView)
    requires
        s.kind is Some,
        s.media_id is Some || s.stage is CacheCheck || s.stage is Discover,
        s.variants.len() > 0,
        s.variants.len() <= usize::MAX,
        file_name_of(s.variants[0]) is Some,
    ensures
        ({
            let a = next(s, e).1;
            (s.stage is CacheCheck || s.stage is ProviderQuery || s.stage is ProviderPull
                || s.stage is ProviderVerify || s.stage is ContentRead || s.stage
                is ContentPull) ==> a !is Downscale && a !is ProbeExtractor && a !is ExtractFrame
                && a !is Remove
        }),
{
}

/// The name of the cache entry of the media file at `remote_path`, or the
/// failure of a path that names no file.
pub fn cache_entry_name(remote_path: &str) -> (name: Result<String, AppError>)
    ensures
        match name {
            Ok(n) => file_name_of(remote_path@) matches Some(file) && n@ == cache_name(file),
            Err(e) => file_name_of(remote_path@) is None && e@ == invalid_path(),
        },
{
    match file_name_chars(&chars_of(remote_path)) {
        Some(file) => {
            let mut out = chars_of("thumb_");
            append(&mut out, &sanitize_chars(&file));
            append_str(&mut out, ".jpg");
            Ok(string_of(&out))
        },
        None => Err(AppError::InvalidPath("Invalid remote path".to_owned())),
    }
}

/// The arguments of the command that pulls `remote` to `local`.
pub fn pull_command(serial: &str, remote: &str, local: &str) -> (arguments: Vec<String>)
    ensures
        texts(arguments@) == pull_arguments(serial@, remote@, local@),
{
    let mut arguments: Vec<String> = Vec::new();
    arguments.push("-s".to_owned());
    arguments.push(serial.to_owned());
    arguments.push("pull".to_owned());
    arguments.push(remote.to_owned());
    arguments.push(local.to_owned());
    proof {
        assert(texts(arguments@) =~= pull_arguments(serial@, remote@, local@));
    }
    arguments
}

/// The file on the device into which the thumbnail of `id` is read.
fn device_temp_of(id: &str) -> (path: String)
    ensures
        path@ == device_temp(id@),
{
    let mut out = chars_of("/data/local/tmp/gesu_thumb_");
    append_str(&mut out, id);
    append_str(&mut out, ".jpg");
    string_of(&out)
}

/// The arguments of the command that reads the thumbnail of `id` into the
/// file on the device.
fn content_read_command(serial: &str, id: &str, kind: MediaType) -> (arguments: Vec<String>)
    ensures
        texts(arguments@) == content_read_arguments(serial@, id@, kind),
{
    let mut line = chars_of("content read --uri ");
    match kind {
        MediaType::Video => {
            append_str(&mut line, "content://media/external/video/media/");
            append_str(&mut line, id);
            append_str(&mut line, "/thumbnail");
            proof {
                assert(line@ =~= "content read --uri "@ + thumbnail_uri(id@, kind));
            }
        },
        MediaType::Image => {
            append_str(&mut line, "content://media/external/images/thumbnails/");
            append_str(&mut line, id);
            proof {
                assert(line@ =~= "content read --uri "@ + thumbnail_uri(id@, kind));
            }
        },
    }
    append_str(&mut line, " > ");
    append_str(&mut line, device_temp_of(id).as_str());
    let mut arguments: Vec<String> = Vec::new();
    arguments.push("-s".to_owned());
    arguments.push(serial.to_owned());
    arguments.push("shell".to_owned());
    arguments.push(string_of(&line));
    proof {
        assert(texts(arguments@) =~= content_read_arguments(serial@, id@, kind));
    }
    arguments
}

/// The arguments of the command that removes the file on the device.
fn cleanup_command(serial: &str, id: &str) -> (arguments: Vec<String>)
    ensures
        texts(arguments@) == cleanup_arguments(serial@, id@),
{
    let mut arguments: Vec<String> = Vec::new();
    arguments.push("-s".to_owned());
    arguments.push(serial.to_owned());
    arguments.push("shell".to_owned());
    arguments.push("rm".to_owned());
    arguments.push(device_temp_of(id));
    proof {
        assert(texts(arguments@) =~= cleanup_arguments(serial@, id@));
    }
    arguments
}

/// The arguments with which the frame extractor takes one frame from
/// `source` and writes it to `target`.
pub fn frame_command(source: &str, target: &str) -> (arguments: Vec<String>)
    ensures
        texts(arguments@) == frame_arguments(source@, target@),
{
    let mut arguments: Vec<String> = Vec::new();
    arguments.push("-i".to_owned());
    arguments.push(source.to_owned());
    arguments.push("-ss".to_owned());
    arguments.push("00:00:01.000".to_owned());
    arguments.push("-vframes".to_owned());
    arguments.push("1".to_owned());
    arguments.push("-vf".to_owned());
    arguments.push("scale=320:-1".to_owned());
    arguments.push("-y".to_owned());
    arguments.push(target.to_owned());
    proof {
        assert(texts(arguments@) =~= frame_arguments(source@, target@));
    }
    arguments
}

/// The remote paths under which the media store is asked for `path`.
fn variants_of(path: &str) -> (variants: Vec<String>)
    ensures
        texts(variants@) == path_variants(path@),
{
    let p = chars_of(path);
    let alias = chars_of("/sdcard/");
    let mut variants: Vec<String> = Vec::new();
    variants.push(path.to_owned());
    if starts_with(&p, &alias) {
        let mut twin = chars_of("/storage/emulated/0/");
        let rest = slice_of(&p, alias.len(), p.len());
        proof {
            assert(rest@ =~= p@.skip(alias@.len() as int));
        }
        append(&mut twin, &rest);
        if file_name_chars(&twin).is_some() {
            variants.push(string_of(&twin));
            proof {
                assert(texts(variants@) =~= path_variants(path@));
            }
            return variants;
        }
    }
    proof {
        assert(texts(variants@) =~= path_variants(path@));
    }
    variants
}

impl ThumbnailResolver {
    /// Begins the resolution of the thumbnail of `remote_path` on the device
    /// `serial`, and asks for the cache slot to be probed.
    ///
    /// `cache_slot` is the local path of the cache entry, whose name
    /// [`cache_entry_name`] gives; `scratch_path` is the local path to which
    /// the file itself is pulled if it comes to that; `extractor` is the frame
    /// extractor, `ffmpeg` where none is given. A path that names no file is
    /// refused.
    pub fn begin(
        serial: &str,
        remote_path: &str,
        cache_slot: &str,
        scratch_path: &str,
        extractor: Option<&str>,
    ) -> (r: Result<(ThumbnailResolver, Action), AppError>)
        ensures
            match r {
                Ok((resolver, action)) => file_name_of(remote_path@) is Some && resolver@
                    == initial(
                    serial@,
                    remote_path@,
                    cache_slot@,
                    scratch_path@,
                    match extractor {
                        Some(program) => Some(program@),
                        None => None,
                    },
                ) && action@ == (ActionView::ProbeCache { path: cache_slot@ }),
                Err(e) => file_name_of(remote_path@) is None && e@ == invalid_path(),
            },
    {
        let path = chars_of(remote_path);
        let file_name = match file_name_chars(&path) {
            Some(name) => name,
            None => {
                return Err(AppError::InvalidPath("Invalid remote path".to_owned()));
            },
        };
        let resolver = ThumbnailResolver {
            serial: serial.to_owned(),
            remote_path: remote_path.to_owned(),
            file_name: string_of(&file_name),
            kind: classify_chars(&path),
            cache_slot: cache_slot.to_owned(),
            scratch_path: scratch_path.to_owned(),
            extractor: match extractor {
                Some(program) => program.to_owned(),
                None => "ffmpeg".to_owned(),
            },
            variants: variants_of(remote_path),
            media_id: None,
            stage: Stage::CacheCheck,
        };
        Ok((resolver, Action::ProbeCache { path: cache_slot.to_owned() }))
    }

    /// Whether the resolution is over.
    pub fn is_done(&self) -> (done: bool)
        ensures
            done == (self@.stage is Done),
    {
        match self.stage {
            Stage::Done { .. } => true,
            _ => false,
        }
    }

    fn end_delivered(&mut self) -> (action: Action)
        ensures
            (final(self)@, action@) == deliver(old(self)@),
    {
        self.stage = Stage::Done { outcome: Outcome::Delivered };
        Action::Deliver { path: self.cache_slot.clone() }
    }

    fn end_not_found(&mut self) -> (action: Action)
        ensures
            (final(self)@, action@) == give_up(old(self)@),
    {
        self.stage = Stage::Done { outcome: Outcome::NotFound };
        let mut detail = chars_of("Thumbnail not found for ");
        append_str(&mut detail, self.file_name.as_str());
        Action::Fail { error: AppError::ThumbnailNotAvailable(string_of(&detail)) }
    }

    fn end_unsupported(&mut self) -> (action: Action)
        ensures
            (final(self)@, action@) == reject(old(self)@),
    {
        self.stage = Stage::Done { outcome: Outcome::Unsupported };
        let mut detail = chars_of("Unsupported file type for ");
        append_str(&mut detail, self.file_name.as_str());
        Action::Fail { error: AppError::ThumbnailNotAvailable(string_of(&detail)) }
    }

    fn probe_then(&mut self, stage: Stage) -> (action: Action)
        ensures
            (final(self)@, action@) == probe(old(self)@, stage),
    {
        self.stage = stage;
        Action::ProbeCache { path: self.cache_slot.clone() }
    }

    fn pull_whole_file(&mut self, stage: Stage) -> (action: Action)
        ensures
            final(self)@ == at_stage(old(self)@, stage),
            action@ == (ActionView::Run {
                arguments: pull_arguments(
                    old(self)@.serial,
                    old(self)@.remote_path,
                    old(self)@.scratch_path,
                ),
            }),
    {
        self.stage = stage;
        Action::Run {
            arguments: pull_command(
                self.serial.as_str(),
                self.remote_path.as_str(),
                self.scratch_path.as_str(),
            ),
        }
    }

    fn begin_fallback(&mut self) -> (action: Action)
        ensures
            (final(self)@, action@) == fall_back(old(self)@),
    {
        match self.kind {
            Some(MediaType::Image) => self.pull_whole_file(Stage::ImagePull),
            Some(MediaType::Video) => {
                self.stage = Stage::ExtractorProbe;
                Action::ProbeExtractor { program: self.extractor.clone() }
            },
            None => self.end_not_found(),
        }
    }

    fn ask_for_id(&mut self, variant: usize) -> (action: Action)
        ensures
            (final(self)@, action@) == discover(old(self)@, variant as int),
    {
        if variant < self.variants.len() {
            proof {
                assert(texts(self.variants@)[variant as int] == self.variants@[variant as int]@);
            }
            match self.kind {
                Some(kind) => {
                    match media_id_query(
                        self.serial.as_str(),
                        self.variants[variant].as_str(),
                        kind,
                    ) {
                        Some(arguments) => {
                            self.stage = Stage::Discover { variant };
                            return Action::Run { arguments };
                        },
                        None => {},
                    }
                },
                None => {},
            }
        }
        self.begin_fallback()
    }

    fn found_id(&self, variant: usize, event: &Event) -> (id: Option<String>)
        ensures
            opt_text(id) == discovered(self@, variant as int, event@),
    {
        match event {
            Event::Command(Some(output)) => {
                if variant < self.variants.len() {
                    proof {
                        assert(texts(self.variants@)[variant as int]
                            == self.variants@[variant as int]@);
                    }
                    find_id_matching_path(output.as_str(), self.variants[variant].as_str())
                } else {
                    None
                }
            },
            _ => None,
        }
    }

    fn ask_for_thumbnail(&mut self, id: String) -> (action: Action)
        ensures
            (final(self)@, action@) == ask_provider(old(self)@, id@),
    {
        match self.kind {
            Some(kind) => {
                let arguments = thumbnail_query(self.serial.as_str(), id.as_str(), kind);
                self.media_id = Some(id);
                self.stage = Stage::ProviderQuery;
                Action::Run { arguments }
            },
            None => self.end_not_found(),
        }
    }

    fn begin_content_read(&mut self) -> (action: Action)
        ensures
            (final(self)@, action@) == read_content(old(self)@),
    {
        match (&self.media_id, self.kind) {
            (Some(id), Some(kind)) => {
                let arguments = content_read_command(self.serial.as_str(), id.as_str(), kind);
                self.stage = Stage::ContentRead;
                Action::Run { arguments }
            },
            _ => self.begin_fallback(),
        }
    }

    fn begin_content_pull(&mut self) -> (action: Action)
        ensures
            (final(self)@, action@) == pull_content(old(self)@),
    {
        match &self.media_id {
            Some(id) => {
                let temp = device_temp_of(id.as_str());
                let arguments = pull_command(
                    self.serial.as_str(),
                    temp.as_str(),
                    self.cache_slot.as_str(),
                );
                self.stage = Stage::ContentPull;
                Action::Run { arguments }
            },
            None => self.begin_fallback(),
        }
    }

    fn begin_content_cleanup(&mut self, pulled: bool) -> (action: Action)
        ensures
            (final(self)@, action@) == clean_content(old(self)@, pulled),
    {
        match &self.media_id {
            Some(id) => {
                let arguments = cleanup_command(self.serial.as_str(), id.as_str());
                self.stage = Stage::ContentCleanup { pulled };
                Action::Run { arguments }
            },
            None => self.begin_fallback(),
        }
    }

    /// Takes the report of what was asked for last, and says what is to be
    /// done next. A report of another kind than was asked for counts as a
    /// failure of what was asked for.
    pub fn step(&mut self, event: Event) -> (action: Action)
        ensures
            (final(self)@, action@) == next(old(self)@, event@),
    {
        let hit = match &event {
            Event::Cache(true) => true,
            _ => false,
        };
        let ran = match &event {
            Event::Command(Some(_)) => true,
            _ => false,
        };
        let worked = match &event {
            Event::Local(true) => true,
            _ => false,
        };
        assert(hit == cache_hit(event@));
        assert(ran == (command_output(event@) is Some));
        assert(worked == local_ok(event@));
        match self.stage {
            Stage::CacheCheck => {
                if hit {
                    self.end_delivered()
                } else if self.kind.is_none() {
                    self.end_unsupported()
                } else {
                    self.ask_for_id(0)
                }
            },
            Stage::Discover { variant } => {
                match self.found_id(variant, &event) {
                    Some(id) => self.ask_for_thumbnail(id),
                    None => {
                        if variant < usize::MAX {
                            self.ask_for_id(variant + 1)
                        } else {
                            self.begin_fallback()
                        }
                    },
                }
            },
            Stage::ProviderQuery => {
                let path = match &event {
                    Event::Command(Some(output)) => parse_data_path(output.as_str()),
                    _ => None,
                };
                match path {
                    Some(remote) => {
                        let arguments = pull_command(
                            self.serial.as_str(),
                            remote.as_str(),
                            self.cache_slot.as_str(),
                        );
                        self.stage = Stage::ProviderPull;
                        Action::Run { arguments }
                    },
                    None => self.probe_then(Stage::ProviderVerify),
                }
            },
            Stage::ProviderPull => self.probe_then(Stage::ProviderVerify),
            Stage::ProviderVerify => {
                if hit {
                    self.end_delivered()
                } else {
                    self.begin_content_read()
                }
            },
            Stage::ContentRead => self.begin_content_pull(),
            Stage::ContentPull => self.begin_content_cleanup(ran),
            Stage::ContentCleanup { pulled } => {
                if pulled {
                    self.probe_then(Stage::ContentVerify)
                } else {
                    self.begin_fallback()
                }
            },
            Stage::ContentVerify => {
                if hit {
                    self.end_delivered()
                } else {
                    self.begin_fallback()
                }
            },
            Stage::ImagePull => {
                if ran {
                    self.stage = Stage::ImageScale;
                    Action::Downscale {
                        source: self.scratch_path.clone(),
                        target: self.cache_slot.clone(),
                        max_width: 256,
                        max_height: 256,
                    }
                } else {
                    self.end_not_found()
                }
            },
            Stage::ImageScale => {
                self.stage = Stage::ImageCleanup { made: worked };
                Action::Remove { path: self.scratch_path.clone() }
            },
            Stage::ImageCleanup { made } => {
                if made {
                    self.end_delivered()
                } else {
                    self.end_not_found()
                }
            },
            Stage::ExtractorProbe => {
                if worked {
                    self.pull_whole_file(Stage::VideoPull)
                } else {
                    self.end_not_found()
                }
            },
            Stage::VideoPull => {
                if ran {
                    let arguments = frame_command(
                        self.scratch_path.as_str(),
                        self.cache_slot.as_str(),
                    );
                    self.stage = Stage::FrameExtract;
                    Action::ExtractFrame { program: self.extractor.clone(), arguments }
                } else {
                    self.end_not_found()
                }
            },
            Stage::FrameExtract => {
                self.stage = Stage::VideoCleanup { made: worked };
                Action::Remove { path: self.scratch_path.clone() }
            },
            Stage::VideoCleanup { made } => {
                if made {
                    self.end_delivered()
                } else {
                    self.end_not_found()
                }
            },
            Stage::Done { outcome } => {
                match outcome {
                    Outcome::Delivered => self.end_delivered(),
                    Outcome::Unsupported => self.end_unsupported(),
                    Outcome::NotFound => self.end_not_found(),
                }
            },
        }
    }
}

} // verus!
