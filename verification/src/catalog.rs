//! The media catalog: directory listings parsed into folders and media items,
//! classified by extension, filtered, and ordered for presentation.
//!
//! A listing is the text that `ls -la` prints on the device. Each entry line
//! has seven columns before the name: permissions, link count, owner, group,
//! size, date and time. The name is everything after them, so a name with
//! spaces in it arrives as several tokens and is put together again with
//! single spaces.

use crate::models::{FolderInfo, FolderInfoView, MediaFilter, MediaItem, MediaItemView, MediaType};
use crate::number::{parse_decimal, parse_u64};
use crate::order::{
    arrange, is_stable_order, key_views, lemma_precedes_asymmetric, lemma_precedes_left, placed,
    precedes, sort_by_keys, stable_order, stable_order_from, Key, SortKey,
};
use crate::paths::{extension_chars, extension_of, quote_chars, shell_quoted};
use crate::scan::{
    is_solid, join, join_from, lemma_tokens_are_solid, lines, split_lines, split_whitespace,
    tokens, trim, trimmed,
};
use crate::text::{
    append, chars_of, contains, copy_chars, has_substring, lowercase_of, rows, same_chars,
    starts_with, string_of, texts,
};
use vstd::prelude::*;

verus! {

/// The views of a vector of media items.
pub open spec fn media_views(items: Seq<MediaItem>) -> Seq<MediaItemView> {
    items.map_values(|m: MediaItem| m@)
}

/// The views of a vector of folders.
pub open spec fn folder_views(folders: Seq<FolderInfo>) -> Seq<FolderInfoView> {
    folders.map_values(|f: FolderInfo| f@)
}

/// `extension` is one of the image extensions.
pub open spec fn is_image_extension(extension: Seq<char>) -> bool {
    extension == "jpg"@ || extension == "jpeg"@ || extension == "png"@ || extension == "gif"@
        || extension == "webp"@ || extension == "bmp"@ || extension == "heic"@ || extension
        == "heif"@
}

/// `extension` is one of the video extensions.
pub open spec fn is_video_extension(extension: Seq<char>) -> bool {
    extension == "mp4"@ || extension == "mkv"@ || extension == "avi"@ || extension == "mov"@
        || extension == "webm"@ || extension == "3gp"@ || extension == "m4v"@
}

/// The media type that a lowercase extension stands for, if any.
pub open spec fn media_type_of(extension: Seq<char>) -> Option<MediaType> {
    if is_image_extension(extension) {
        Some(MediaType::Image)
    } else if is_video_extension(extension) {
        Some(MediaType::Video)
    } else {
        None
    }
}

/// The extension of `name`, or the empty text where it has none.
pub open spec fn extension_or_empty(name: Seq<char>) -> Seq<char> {
    match extension_of(name) {
        Some(e) => e,
        None => Seq::empty(),
    }
}

/// The media type of the file `name`, judged by its extension in lowercase.
pub open spec fn classify(name: Seq<char>) -> Option<MediaType> {
    media_type_of(lowercase_of(extension_or_empty(name)))
}

/// The filter lets media of type `kind` through.
pub open spec fn passes(filter: MediaFilter, kind: MediaType) -> bool {
    match filter {
        MediaFilter::All => true,
        MediaFilter::Images => kind == MediaType::Image,
        MediaFilter::Videos => kind == MediaType::Video,
    }
}

/// The items of `items` that the filter lets through, in order.
pub open spec fn filtered(items: Seq<MediaItemView>, filter: MediaFilter) -> Seq<MediaItemView>
    decreases items.len(),
{
    if items.len() == 0 {
        Seq::empty()
    } else if passes(filter, items.last().media_type) {
        filtered(items.drop_last(), filter).push(items.last())
    } else {
        filtered(items.drop_last(), filter)
    }
}

/// A trimmed line that is no entry: blank, the `total` header, or a complaint
/// of `ls` about a path it could not read.
pub open spec fn is_noise(line: Seq<char>) -> bool {
    line.len() == 0 || "total"@.is_prefix_of(line) || contains(
        line,
        "No such file or directory"@,
    ) || contains(line, "Permission denied"@)
}

/// The name that an entry line gives: the tokens after the seven columns,
/// joined with single spaces.
pub open spec fn entry_name(tokens: Seq<Seq<char>>) -> Seq<char> {
    join(tokens.skip(7), seq![' '])
}

/// The path of the entry `name` in the directory `base`.
pub open spec fn child_path(base: Seq<char>, name: Seq<char>) -> Seq<char> {
    if base.len() > 0 && base.last() == '/' {
        base + name
    } else {
        base + seq!['/'] + name
    }
}

/// The size that a size column gives; 0 where it is no number.
pub open spec fn size_of_column(column: Seq<char>) -> u64 {
    match parse_decimal(column) {
        Some(n) => n,
        None => 0,
    }
}

/// The tokens of an entry line whose permissions begin with `kind`, if `line`
/// is such a line with a name.
pub open spec fn entry_tokens(line: Seq<char>, kind: char) -> Option<Seq<Seq<char>>> {
    let tokens = split_whitespace(trim(line));
    if is_noise(trim(line)) || tokens.len() < 8 || tokens[0][0] != kind {
        None
    } else {
        Some(tokens)
    }
}

/// The media item that the listing line `line` of the directory `base`
/// describes, if it describes a file with a media extension.
pub open spec fn media_entry(line: Seq<char>, base: Seq<char>) -> Option<MediaItemView> {
    match entry_tokens(line, '-') {
        None => None,
        Some(tokens) => {
            let name = entry_name(tokens);
            match classify(name) {
                None => None,
                Some(kind) => Some(
                    MediaItemView {
                        path: child_path(base, name),
                        name,
                        media_type: kind,
                        size_bytes: size_of_column(tokens[4]),
                        width: None,
                        height: None,
                        duration_ms: None,
                        date_taken: Some(tokens[5] + seq![' '] + tokens[6]),
                        thumbnail_url: None,
                    },
                ),
            }
        },
    }
}

/// The media items that the lines describe, in the order of the lines.
pub open spec fn media_entries(lines: Seq<Seq<char>>, base: Seq<char>) -> Seq<MediaItemView>
    decreases lines.len(),
{
    if lines.len() == 0 {
        Seq::empty()
    } else {
        match media_entry(lines.last(), base) {
            Some(item) => media_entries(lines.drop_last(), base).push(item),
            None => media_entries(lines.drop_last(), base),
        }
    }
}

/// The media items that the listing `output` of the directory `base`
/// describes and the filter lets through, in the order of the listing.
pub open spec fn listed_media(output: Seq<char>, base: Seq<char>, filter: MediaFilter) -> Seq<
    MediaItemView,
> {
    filtered(media_entries(lines(output), base), filter)
}

/// What a media item is sorted by: its date, and items without one below
/// all that have one.
pub open spec fn date_key(item: MediaItemView) -> Key {
    match item.date_taken {
        Some(date) => Key { rank: 1, text: date },
        None => Key { rank: 0, text: Seq::empty() },
    }
}

/// The code of `c` with the ASCII capitals mapped to their small letters.
pub open spec fn ascii_folded(c: char) -> u32 {
    if 'A' <= c <= 'Z' {
        (c as u32 + 32) as u32
    } else {
        c as u32
    }
}

/// `a` and `b` are the same but for the case of ASCII letters.
pub open spec fn ascii_case_equal(a: Seq<char>, b: Seq<char>) -> bool {
    a.len() == b.len() && forall|i: int|
        0 <= i < a.len() ==> ascii_folded(#[trigger] a[i]) == ascii_folded(b[i])
}

/// The folder `name` at `path` goes by the well-known name `known`: its name
/// is that name in any case, or its path holds that name.
pub open spec fn goes_by(name: Seq<char>, path: Seq<char>, known: Seq<char>) -> bool {
    ascii_case_equal(name, known) || contains(path, known)
}

/// The folder `name` at `path` is one of the well-known media folders.
pub open spec fn is_media_folder(name: Seq<char>, path: Seq<char>) -> bool {
    goes_by(name, path, "DCIM"@) || goes_by(name, path, "Pictures"@) || goes_by(
        name,
        path,
        "Download"@,
    ) || goes_by(name, path, "Movies"@) || goes_by(name, path, "WhatsApp/Media"@) || goes_by(
        name,
        path,
        "Telegram"@,
    ) || goes_by(name, path, "Screenshots"@)
}

/// The folder that the listing line `line` of the directory `base`
/// describes, if it describes a directory whose name begins with no dot.
pub open spec fn folder_entry(line: Seq<char>, base: Seq<char>) -> Option<FolderInfoView> {
    match entry_tokens(line, 'd') {
        None => None,
        Some(tokens) => {
            let name = entry_name(tokens);
            if name.len() > 0 && name[0] == '.' {
                None
            } else {
                Some(
                    FolderInfoView {
                        name,
                        path: child_path(base, name),
                        item_count: None,
                        is_media_folder: is_media_folder(name, child_path(base, name)),
                    },
                )
            }
        },
    }
}

/// The folders that the lines describe, in the order of the lines.
pub open spec fn folder_entries(lines: Seq<Seq<char>>, base: Seq<char>) -> Seq<FolderInfoView>
    decreases lines.len(),
{
    if lines.len() == 0 {
        Seq::empty()
    } else {
        match folder_entry(lines.last(), base) {
            Some(folder) => folder_entries(lines.drop_last(), base).push(folder),
            None => folder_entries(lines.drop_last(), base),
        }
    }
}

/// What a folder is sorted by: media folders first, then the name in
/// lowercase.
pub open spec fn folder_key(folder: FolderInfoView) -> Key {
    Key {
        rank: if folder.is_media_folder {
            0
        } else {
            1
        },
        text: lowercase_of(folder.name),
    }
}

/// The directory that is listed where none is named.
pub open spec fn default_root() -> Seq<char> {
    "/sdcard"@
}

/// The arguments of the remote command that lists the directory `path` on
/// the device `serial`.
pub open spec fn listing_arguments(serial: Seq<char>, path: Seq<char>) -> Seq<Seq<char>> {
    seq!["-s"@, serial, "shell"@, "ls"@, "-la"@, shell_quoted(path)]
}

/// The keys by which the items are sorted.
pub open spec fn date_keys(items: Seq<MediaItemView>) -> Seq<Key> {
    items.map_values(|m: MediaItemView| date_key(m))
}

/// No item stands behind one that it must precede: the dates do not rise
/// along `items`, and items without a date stand last.
pub open spec fn in_date_order(items: Seq<MediaItemView>) -> bool {
    forall|i: int, j: int|
        0 <= i < j < items.len() ==> !precedes(
            date_key(#[trigger] items[j]),
            date_key(#[trigger] items[i]),
            true,
        )
}

/// The sorted items `sorted` with `item` put in: behind the items that are
/// newer, and ahead of all others. `item` was listed before all of `sorted`.
pub open spec fn placed_by_date(sorted: Seq<MediaItemView>, item: MediaItemView) -> Seq<
    MediaItemView,
>
    decreases sorted.len(),
{
    if sorted.len() == 0 || !precedes(date_key(sorted[0]), date_key(item), true) {
        seq![item] + sorted
    } else {
        seq![sorted[0]] + placed_by_date(sorted.skip(1), item)
    }
}

/// The items sorted by date, newest first and items without a date last;
/// items with one date stay in the order in which they were listed.
pub open spec fn newest_first(items: Seq<MediaItemView>) -> Seq<MediaItemView>
    decreases items.len(),
{
    if items.len() == 0 {
        Seq::empty()
    } else {
        placed_by_date(newest_first(items.skip(1)), items[0])
    }
}

/// Putting an index into an order of indices and then arranging the items
/// is putting the item into the arranged items.
proof fn lemma_arrange_placed(items: Seq<MediaItemView>, order: Seq<int>, at: int)
    requires
        0 <= at < items.len(),
        forall|k: int| 0 <= k < order.len() ==> 0 <= #[trigger] order[k] < items.len(),
    ensures
        arrange(items, placed(date_keys(items), order, at, true)) == placed_by_date(
            arrange(items, order),
            items[at],
        ),
        placed(date_keys(items), order, at, true).len() == order.len() + 1,
        forall|k: int|
            0 <= k < placed(date_keys(items), order, at, true).len() ==> {
                let i = #[trigger] placed(date_keys(items), order, at, true)[k];
                i == at || exists|j: int| 0 <= j < order.len() && order[j] == i
            },
    decreases order.len(),
{
    let keys = date_keys(items);
    let arranged = arrange(items, order);
    let result = placed(keys, order, at, true);
    if order.len() == 0 || !precedes(keys[order[0]], keys[at], true) {
        assert(arrange(items, seq![at] + order) =~= seq![items[at]] + arranged);
        assert forall|k: int| 0 <= k < result.len() implies {
            let i = #[trigger] result[k];
            i == at || exists|j: int| 0 <= j < order.len() && order[j] == i
        } by {
            if k > 0 {
                assert(result[k] == order[k - 1]);
            }
        }
    } else {
        let rest = order.skip(1);
        assert forall|k: int| 0 <= k < rest.len() implies 0 <= #[trigger] rest[k]
            < items.len() by {
            assert(rest[k] == order[k + 1]);
        }
        lemma_arrange_placed(items, rest, at);
        let inner = placed(keys, rest, at, true);
        assert(arranged[0] == items[order[0]]);
        assert(arranged.skip(1) =~= arrange(items, rest));
        assert(arrange(items, seq![order[0]] + inner) =~= seq![arranged[0]] + arrange(
            items,
            inner,
        ));
        assert forall|k: int| 0 <= k < result.len() implies {
            let i = #[trigger] result[k];
            i == at || exists|j: int| 0 <= j < order.len() && order[j] == i
        } by {
            if k == 0 {
                assert(result[0] == order[0]);
            } else {
                assert(result[k] == inner[k - 1]);
                let i = inner[k - 1];
                if i != at {
                    let j = choose|j: int| 0 <= j < rest.len() && rest[j] == i;
                    assert(order[j + 1] == i);
                }
            }
        }
    }
}

/// Arranging the items by the stable order of their keys sorts them newest
/// first.
proof fn lemma_arrange_newest_first(items: Seq<MediaItemView>, from: int)
    requires
        0 <= from <= items.len(),
    ensures
        arrange(items, stable_order_from(date_keys(items), from, true)) == newest_first(
            items.skip(from),
        ),
        forall|k: int|
            0 <= k < stable_order_from(date_keys(items), from, true).len() ==> from
                <= #[trigger] stable_order_from(date_keys(items), from, true)[k] < items.len(),
    decreases items.len() - from,
{
    let keys = date_keys(items);
    if from >= items.len() {
        assert(items.skip(from) =~= Seq::<MediaItemView>::empty());
        assert(arrange(items, Seq::<int>::empty()) =~= Seq::<MediaItemView>::empty());
    } else {
        let later = stable_order_from(keys, from + 1, true);
        lemma_arrange_newest_first(items, from + 1);
        lemma_arrange_placed(items, later, from);
        assert(items.skip(from).skip(1) =~= items.skip(from + 1));
        assert(items.skip(from)[0] == items[from]);
        let order = stable_order_from(keys, from, true);
        assert forall|k: int| 0 <= k < order.len() implies from <= #[trigger] order[k]
            < items.len() by {
            let i = order[k];
            if i != from {
                let j = choose|j: int| 0 <= j < later.len() && later[j] == i;
                assert(from + 1 <= later[j]);
            }
        }
    }
}

/// What a filter lets through begins with the first item if that passes,
/// and goes on with what it lets through of the rest.
pub proof fn lemma_filtered_first(items: Seq<MediaItemView>, filter: MediaFilter)
    requires
        items.len() > 0,
    ensures
        filtered(items, filter) == (if passes(filter, items[0].media_type) {
            seq![items[0]]
        } else {
            Seq::empty()
        }) + filtered(items.skip(1), filter),
    decreases items.len(),
{
    let head = if passes(filter, items[0].media_type) {
        seq![items[0]]
    } else {
        Seq::<MediaItemView>::empty()
    };
    if items.len() == 1 {
        assert(items.drop_last() =~= Seq::<MediaItemView>::empty());
        assert(items.skip(1) =~= Seq::<MediaItemView>::empty());
        assert(items.last() == items[0]);
        assert(filtered(items, filter) =~= head + filtered(items.skip(1), filter));
    } else {
        let front = items.drop_last();
        lemma_filtered_first(front, filter);
        assert(front[0] == items[0]);
        assert(front.skip(1) =~= items.skip(1).drop_last());
        assert(items.skip(1).last() == items.last());
        let middle = filtered(front.skip(1), filter);
        if passes(filter, items.last().media_type) {
            assert((head + middle).push(items.last()) =~= head + middle.push(items.last()));
        }
    }
}

/// What is put in among sorted items stays in date order.
proof fn lemma_skip_in_order(sorted: Seq<MediaItemView>)
    requires
        in_date_order(sorted),
        sorted.len() > 0,
    ensures
        in_date_order(sorted.skip(1)),
{
    let rest = sorted.skip(1);
    assert forall|i: int, j: int| 0 <= i < j < rest.len() implies !precedes(
        date_key(#[trigger] rest[j]),
        date_key(#[trigger] rest[i]),
        true,
    ) by {
        assert(rest[i] == sorted[i + 1]);
        assert(rest[j] == sorted[j + 1]);
    }
}

/// Where the first of sorted items need not stand before `item`, none of
/// them must.
proof fn lemma_none_precedes(sorted: Seq<MediaItemView>, item: MediaItemView)
    requires
        in_date_order(sorted),
        sorted.len() > 0,
        !precedes(date_key(sorted[0]), date_key(item), true),
    ensures
        forall|j: int|
            0 <= j < sorted.len() ==> !precedes(date_key(#[trigger] sorted[j]), date_key(item), true),
{
    assert forall|j: int| 0 <= j < sorted.len() implies !precedes(
        date_key(#[trigger] sorted[j]),
        date_key(item),
        true,
    ) by {
        if j > 0 && precedes(date_key(sorted[j]), date_key(item), true) {
            lemma_precedes_left(date_key(sorted[j]), date_key(item), date_key(sorted[0]), true);
            assert(!precedes(date_key(sorted[j]), date_key(sorted[0]), true));
        }
    }
}

/// Every item that a filter lets through is one of the items.
proof fn lemma_filtered_members(items: Seq<MediaItemView>, filter: MediaFilter)
    ensures
        forall|k: int|
            0 <= k < filtered(items, filter).len() ==> exists|j: int|
                0 <= j < items.len() && items[j] == #[trigger] filtered(items, filter)[k],
    decreases items.len(),
{
    if items.len() > 0 {
        let front = items.drop_last();
        lemma_filtered_members(front, filter);
        let f = filtered(items, filter);
        let ff = filtered(front, filter);
        assert forall|k: int| 0 <= k < f.len() implies exists|j: int|
            0 <= j < items.len() && items[j] == #[trigger] f[k] by {
            if k < ff.len() {
                assert(f[k] == ff[k]);
                let j = choose|j: int| 0 <= j < front.len() && front[j] == ff[k];
                assert(items[j] == front[j]);
            } else {
                assert(f[k] == items.last());
                assert(items[items.len() - 1] == f[k]);
            }
        }
    }
}

/// Putting an item in keeps sorted items in date order, and adds nothing
/// but the item.
proof fn lemma_placed_in_order(sorted: Seq<MediaItemView>, item: MediaItemView)
    requires
        in_date_order(sorted),
    ensures
        in_date_order(placed_by_date(sorted, item)),
        placed_by_date(sorted, item).len() == sorted.len() + 1,
        forall|k: int|
            0 <= k < placed_by_date(sorted, item).len() ==> {
                let x = #[trigger] placed_by_date(sorted, item)[k];
                x == item || exists|j: int| 0 <= j < sorted.len() && sorted[j] == x
            },
    decreases sorted.len(),
{
    let result = placed_by_date(sorted, item);
    if sorted.len() == 0 || !precedes(date_key(sorted[0]), date_key(item), true) {
        if sorted.len() > 0 {
            lemma_none_precedes(sorted, item);
        }
        assert forall|i: int, j: int| 0 <= i < j < result.len() implies !precedes(
            date_key(#[trigger] result[j]),
            date_key(#[trigger] result[i]),
            true,
        ) by {
            assert(result[j] == sorted[j - 1]);
            if i > 0 {
                assert(result[i] == sorted[i - 1]);
            }
        }
        assert forall|k: int| 0 <= k < result.len() implies {
            let x = #[trigger] result[k];
            x == item || exists|j: int| 0 <= j < sorted.len() && sorted[j] == x
        } by {
            if k > 0 {
                assert(result[k] == sorted[k - 1]);
            }
        }
    } else {
        let rest = sorted.skip(1);
        lemma_skip_in_order(sorted);
        lemma_placed_in_order(rest, item);
        let inner = placed_by_date(rest, item);
        lemma_precedes_asymmetric(date_key(sorted[0]), date_key(item), true);
        assert forall|k: int| 0 <= k < result.len() implies {
            let x = #[trigger] result[k];
            x == item || exists|j: int| 0 <= j < sorted.len() && sorted[j] == x
        } by {
            if k == 0 {
                assert(result[0] == sorted[0]);
            } else {
                assert(result[k] == inner[k - 1]);
                let x = inner[k - 1];
                if x != item {
                    let j = choose|j: int| 0 <= j < rest.len() && rest[j] == x;
                    assert(sorted[j + 1] == x);
                }
            }
        }
        assert forall|i: int, j: int| 0 <= i < j < result.len() implies !precedes(
            date_key(#[trigger] result[j]),
            date_key(#[trigger] result[i]),
            true,
        ) by {
            assert(result[j] == inner[j - 1]);
            if i == 0 {
                assert(result[0] == sorted[0]);
                let x = inner[j - 1];
                if x != item {
                    let k = choose|k: int| 0 <= k < rest.len() && rest[k] == x;
                    assert(sorted[k + 1] == x);
                }
            } else {
                assert(result[i] == inner[i - 1]);
            }
        }
    }
}

/// Sorted items are in date order.
pub proof fn lemma_newest_first_in_order(items: Seq<MediaItemView>)
    ensures
        in_date_order(newest_first(items)),
        newest_first(items).len() == items.len(),
    decreases items.len(),
{
    if items.len() > 0 {
        lemma_newest_first_in_order(items.skip(1));
        lemma_placed_in_order(newest_first(items.skip(1)), items[0]);
    }
}

/// Filtering after an item was put in is putting the item in after
/// filtering, if the filter lets the item through, and filtering alone if
/// it does not.
proof fn lemma_placed_filtered(
    sorted: Seq<MediaItemView>,
    item: MediaItemView,
    filter: MediaFilter,
)
    requires
        in_date_order(sorted),
    ensures
        filtered(placed_by_date(sorted, item), filter) == if passes(filter, item.media_type) {
            placed_by_date(filtered(sorted, filter), item)
        } else {
            filtered(sorted, filter)
        },
    decreases sorted.len(),
{
    let result = placed_by_date(sorted, item);
    let kept = filtered(sorted, filter);
    if sorted.len() == 0 || !precedes(date_key(sorted[0]), date_key(item), true) {
        lemma_filtered_first(result, filter);
        assert(result[0] == item);
        assert(result.skip(1) =~= sorted);
        if passes(filter, item.media_type) {
            if kept.len() > 0 {
                lemma_none_precedes(sorted, item);
                lemma_filtered_members(sorted, filter);
                let j = choose|j: int| 0 <= j < sorted.len() && sorted[j] == kept[0];
                assert(!precedes(date_key(sorted[j]), date_key(item), true));
            }
        } else {
            assert(Seq::<MediaItemView>::empty() + kept =~= kept);
        }
    } else {
        let rest = sorted.skip(1);
        lemma_skip_in_order(sorted);
        lemma_placed_filtered(rest, item, filter);
        let inner = placed_by_date(rest, item);
        lemma_filtered_first(result, filter);
        assert(result[0] == sorted[0]);
        assert(result.skip(1) =~= inner);
        lemma_filtered_first(sorted, filter);
        let kept_rest = filtered(rest, filter);
        if passes(filter, sorted[0].media_type) {
            assert(kept[0] == sorted[0]);
            assert(kept.skip(1) =~= kept_rest);
            if !passes(filter, item.media_type) {
            }
        } else {
            assert(Seq::<MediaItemView>::empty() + kept_rest =~= kept_rest);
            assert(Seq::<MediaItemView>::empty() + filtered(inner, filter) =~= filtered(
                inner,
                filter,
            ));
        }
    }
}

/// Filtering and sorting may be done in either order: what a filter lets
/// through of the sorted items is what it lets through, sorted.
pub proof fn lemma_filter_commutes_with_sort(items: Seq<MediaItemView>, filter: MediaFilter)
    ensures
        filtered(newest_first(items), filter) == newest_first(filtered(items, filter)),
    decreases items.len(),
{
    if items.len() > 0 {
        let rest = items.skip(1);
        lemma_filter_commutes_with_sort(rest, filter);
        lemma_newest_first_in_order(rest);
        lemma_placed_filtered(newest_first(rest), items[0], filter);
        lemma_filtered_first(items, filter);
        if passes(filter, items[0].media_type) {
            let kept = filtered(items, filter);
            assert(kept[0] == items[0]);
            assert(kept.skip(1) =~= filtered(rest, filter));
        } else {
            assert(Seq::<MediaItemView>::empty() + filtered(rest, filter) =~= filtered(
                rest,
                filter,
            ));
        }
    }
}

/// The listing under a filter is what the filter lets through of the
/// listing under the filter `All`, in the same order; so a filter applied
/// to its own listing changes nothing.
pub proof fn lemma_filtered_listing(output: Seq<char>, base: Seq<char>, filter: MediaFilter)
    ensures
        newest_first(listed_media(output, base, filter)) == filtered(
            newest_first(listed_media(output, base, MediaFilter::All)),
            filter,
        ),
        filtered(newest_first(listed_media(output, base, filter)), filter) == newest_first(
            listed_media(output, base, filter),
        ),
        filtered(newest_first(listed_media(output, base, MediaFilter::All)), MediaFilter::All)
            == newest_first(listed_media(output, base, MediaFilter::All)),
{
    let entries = media_entries(lines(output), base);
    lemma_filter_all(entries);
    lemma_filter_commutes_with_sort(entries, filter);
    lemma_filter_idempotent(entries, filter);
    lemma_filter_commutes_with_sort(filtered(entries, filter), filter);
    lemma_filter_all(newest_first(entries));
}

/// Putting an item in adds the item and nothing else.
proof fn lemma_placed_adds(sorted: Seq<MediaItemView>, item: MediaItemView)
    ensures
        placed_by_date(sorted, item).to_multiset() == sorted.to_multiset().insert(item),
    decreases sorted.len(),
{
    broadcast use vstd::multiset::group_multiset_axioms;

    if sorted.len() == 0 || !precedes(date_key(sorted[0]), date_key(item), true) {
        assert(seq![item] + sorted =~= sorted.insert(0, item));
        vstd::seq_lib::to_multiset_insert(sorted, 0, item);
    } else {
        let rest = sorted.skip(1);
        let inner = placed_by_date(rest, item);
        lemma_placed_adds(rest, item);
        assert(seq![sorted[0]] + inner =~= inner.insert(0, sorted[0]));
        vstd::seq_lib::to_multiset_insert(inner, 0, sorted[0]);
        assert(sorted =~= rest.insert(0, sorted[0]));
        vstd::seq_lib::to_multiset_insert(rest, 0, sorted[0]);
        assert(rest.to_multiset().insert(item).insert(sorted[0]) =~= rest.to_multiset().insert(
            sorted[0],
        ).insert(item));
    }
}

/// Sorting rearranges the items: it drops none and adds none.
pub proof fn lemma_newest_first_rearranges(items: Seq<MediaItemView>)
    ensures
        newest_first(items).to_multiset() == items.to_multiset(),
        newest_first(items).len() == items.len(),
    decreases items.len(),
{
    lemma_newest_first_in_order(items);
    if items.len() > 0 {
        let rest = items.skip(1);
        lemma_newest_first_rearranges(rest);
        lemma_placed_adds(newest_first(rest), items[0]);
        assert(items =~= rest.insert(0, items[0]));
        vstd::seq_lib::to_multiset_insert(rest, 0, items[0]);
    } else {
        assert(newest_first(items) =~= items);
    }
}

/// Every item is an image or a video: what the filters `Images` and
/// `Videos` let through is, taken together, all of the items.
pub proof fn lemma_images_and_videos(items: Seq<MediaItemView>)
    ensures
        filtered(items, MediaFilter::Images).to_multiset().add(
            filtered(items, MediaFilter::Videos).to_multiset(),
        ) == items.to_multiset(),
        filtered(items, MediaFilter::Images).len() + filtered(items, MediaFilter::Videos).len()
            == items.len(),
    decreases items.len(),
{
    broadcast use vstd::multiset::group_multiset_axioms;

    let images = filtered(items, MediaFilter::Images);
    let videos = filtered(items, MediaFilter::Videos);
    if items.len() > 0 {
        let front = items.drop_last();
        let last = items.last();
        lemma_images_and_videos(front);
        let front_images = filtered(front, MediaFilter::Images);
        let front_videos = filtered(front, MediaFilter::Videos);
        assert(items =~= front.push(last));
        vstd::seq_lib::to_multiset_build(front, last);
        if last.media_type == MediaType::Image {
            vstd::seq_lib::to_multiset_build(front_images, last);
            assert(front_images.to_multiset().insert(last).add(front_videos.to_multiset())
                =~= front_images.to_multiset().add(front_videos.to_multiset()).insert(last));
        } else {
            vstd::seq_lib::to_multiset_build(front_videos, last);
            assert(front_images.to_multiset().add(front_videos.to_multiset().insert(last))
                =~= front_images.to_multiset().add(front_videos.to_multiset()).insert(last));
        }
    } else {
        assert(images =~= items);
        assert(videos =~= items);
        assert(items.to_multiset().add(items.to_multiset()) =~= items.to_multiset()) by {
            items.to_multiset_ensures();
        }
    }
}

/// The listing under the filter `All` is a rearrangement of the listings
/// under `Images` and under `Videos` taken together: `All` drops no
/// classified item and adds none.
pub proof fn lemma_all_is_images_and_videos(output: Seq<char>, base: Seq<char>)
    ensures
        ({
            let all = newest_first(listed_media(output, base, MediaFilter::All));
            let images = newest_first(listed_media(output, base, MediaFilter::Images));
            let videos = newest_first(listed_media(output, base, MediaFilter::Videos));
            &&& all.to_multiset() == (images + videos).to_multiset()
            &&& all.len() == images.len() + videos.len()
        }),
{
    let entries = media_entries(lines(output), base);
    lemma_filter_all(entries);
    lemma_images_and_videos(entries);
    lemma_newest_first_rearranges(entries);
    lemma_newest_first_rearranges(filtered(entries, MediaFilter::Images));
    lemma_newest_first_rearranges(filtered(entries, MediaFilter::Videos));
    vstd::seq_lib::lemma_multiset_commutative(
        newest_first(filtered(entries, MediaFilter::Images)),
        newest_first(filtered(entries, MediaFilter::Videos)),
    );
}

/// Every image extension is classified as an image, every video extension as
/// a video, and nothing else is classified at all; no extension is both.
pub proof fn lemma_classification(extension: Seq<char>)
    ensures
        is_image_extension(extension) ==> media_type_of(extension) == Some(MediaType::Image),
        is_video_extension(extension) ==> media_type_of(extension) == Some(MediaType::Video),
        !is_image_extension(extension) && !is_video_extension(extension) ==> media_type_of(
            extension,
        ) is None,
        !(is_image_extension(extension) && is_video_extension(extension)),
{
    reveal_strlit("jpg");
    reveal_strlit("jpeg");
    reveal_strlit("png");
    reveal_strlit("gif");
    reveal_strlit("webp");
    reveal_strlit("bmp");
    reveal_strlit("heic");
    reveal_strlit("heif");
    reveal_strlit("mp4");
    reveal_strlit("mkv");
    reveal_strlit("avi");
    reveal_strlit("mov");
    reveal_strlit("webm");
    reveal_strlit("3gp");
    reveal_strlit("m4v");
    if is_image_extension(extension) && is_video_extension(extension) {
        assert(extension[0] == 'm' || extension[0] == 'a' || extension[0] == 'w' || extension[0]
            == '3');
        assert(extension[1] == 'e');
        assert(extension[2] == 'b');
        assert(extension[3] == 'p' || extension[3] == 'm');
        assert(false);
    }
}

/// A file whose extension is not a media extension is no entry of the
/// catalog.
pub proof fn lemma_unclassified_is_excluded(line: Seq<char>, base: Seq<char>)
    ensures
        match media_entry(line, base) {
            Some(item) => classify(item.name) == Some(item.media_type),
            None => true,
        },
        entry_tokens(line, '-') matches Some(tokens) && classify(entry_name(tokens)) is None
            ==> media_entry(line, base) is None,
{
}

/// Every item that a filter lets through has the type the filter asks for,
/// and filtering changes neither the items nor their order.
pub proof fn lemma_filtered_passes(items: Seq<MediaItemView>, filter: MediaFilter)
    ensures
        filtered(items, filter).len() <= items.len(),
        forall|k: int|
            0 <= k < filtered(items, filter).len() ==> passes(
                filter,
                (#[trigger] filtered(items, filter)[k]).media_type,
            ),
    decreases items.len(),
{
    if items.len() > 0 {
        lemma_filtered_passes(items.drop_last(), filter);
    }
}

/// Filtering items that all pass changes nothing.
pub proof fn lemma_filter_keeps_passing(items: Seq<MediaItemView>, filter: MediaFilter)
    requires
        forall|k: int| 0 <= k < items.len() ==> passes(filter, (#[trigger] items[k]).media_type),
    ensures
        filtered(items, filter) == items,
    decreases items.len(),
{
    if items.len() > 0 {
        let rest = items.drop_last();
        assert forall|k: int| 0 <= k < rest.len() implies passes(
            filter,
            (#[trigger] rest[k]).media_type,
        ) by {
            assert(rest[k] == items[k]);
        }
        lemma_filter_keeps_passing(rest, filter);
        assert(passes(filter, items[items.len() - 1].media_type));
        assert(rest.push(items.last()) =~= items);
    } else {
        assert(items =~= Seq::<MediaItemView>::empty());
    }
}

/// Applying a filter twice gives what applying it once gives.
pub proof fn lemma_filter_idempotent(items: Seq<MediaItemView>, filter: MediaFilter)
    ensures
        filtered(filtered(items, filter), filter) == filtered(items, filter),
{
    lemma_filtered_passes(items, filter);
    lemma_filter_keeps_passing(filtered(items, filter), filter);
}

/// The filter `All` changes nothing.
pub proof fn lemma_filter_all(items: Seq<MediaItemView>)
    ensures
        filtered(items, MediaFilter::All) == items,
{
    lemma_filter_keeps_passing(items, MediaFilter::All);
}

/// A filtered listing is the unfiltered listing with the filter applied,
/// and the listing under the filter `All` is the unfiltered listing.
pub proof fn lemma_listing_filter(output: Seq<char>, base: Seq<char>, filter: MediaFilter)
    ensures
        listed_media(output, base, MediaFilter::All) == media_entries(lines(output), base),
        listed_media(output, base, filter) == filtered(
            listed_media(output, base, MediaFilter::All),
            filter,
        ),
        filtered(listed_media(output, base, filter), filter) == listed_media(output, base, filter),
{
    lemma_filter_all(media_entries(lines(output), base));
    lemma_filter_idempotent(media_entries(lines(output), base), filter);
}

/// The lowercase form of `v`.
pub fn lowercase(v: &Vec<char>) -> (out: Vec<char>)
    ensures
        out@ == lowercase_of(v@),
{
    let s = string_of(v);
    let lower = s.as_str().to_lowercase();
    chars_of(lower.as_str())
}

/// Whether `s` holds the characters of `literal`.
fn is_text(s: &Vec<char>, literal: &str) -> (r: bool)
    ensures
        r == (s@ == literal@),
{
    let l = chars_of(literal);
    same_chars(s, &l)
}

/// The media type that the lowercase extension `extension` stands for.
pub fn media_type_for(extension: &Vec<char>) -> (kind: Option<MediaType>)
    ensures
        kind == media_type_of(extension@),
{
    if is_text(extension, "jpg") || is_text(extension, "jpeg") || is_text(extension, "png")
        || is_text(extension, "gif") || is_text(extension, "webp") || is_text(extension, "bmp")
        || is_text(extension, "heic") || is_text(extension, "heif") {
        Some(MediaType::Image)
    } else if is_text(extension, "mp4") || is_text(extension, "mkv") || is_text(extension, "avi")
        || is_text(extension, "mov") || is_text(extension, "webm") || is_text(extension, "3gp")
        || is_text(extension, "m4v") {
        Some(MediaType::Video)
    } else {
        None
    }
}

/// The media type of the file `name`, judged by its extension.
pub fn classify_chars(name: &Vec<char>) -> (kind: Option<MediaType>)
    ensures
        kind == classify(name@),
{
    let extension = match extension_chars(name) {
        Some(e) => e,
        None => Vec::new(),
    };
    let lower = lowercase(&extension);
    media_type_for(&lower)
}

/// The media type of the file `name`: image or video by its extension, in
/// whatever case it is written, or none.
pub fn classify_name(name: &str) -> (kind: Option<MediaType>)
    ensures
        kind == classify(name@),
{
    classify_chars(&chars_of(name))
}

/// Whether the filter lets media of type `kind` through.
pub fn filter_passes(filter: MediaFilter, kind: MediaType) -> (r: bool)
    ensures
        r == passes(filter, kind),
{
    match filter {
        MediaFilter::All => true,
        MediaFilter::Images => kind == MediaType::Image,
        MediaFilter::Videos => kind == MediaType::Video,
    }
}

/// The items that the filter lets through, in order.
pub fn apply_filter(items: &Vec<MediaItem>, filter: MediaFilter) -> (out: Vec<MediaItem>)
    ensures
        media_views(out@) == filtered(media_views(items@), filter),
{
    let mut out: Vec<MediaItem> = Vec::new();
    let mut i: usize = 0;
    proof {
        assert(media_views(items@.take(0)) =~= Seq::<MediaItemView>::empty());
        assert(media_views(out@) =~= Seq::<MediaItemView>::empty());
    }
    while i < items.len()
        invariant
            i <= items.len(),
            media_views(out@) == filtered(media_views(items@.take(i as int)), filter),
        decreases items.len() - i,
    {
        proof {
            let next = media_views(items@.take(i + 1));
            assert(next.drop_last() =~= media_views(items@.take(i as int)));
            assert(next.last() == items@[i as int]@);
        }
        if filter_passes(filter, items[i].media_type) {
            let copy = items[i].duplicate();
            proof {
                assert(media_views(out@.push(copy)) =~= media_views(out@).push(copy@));
            }
            out.push(copy);
        }
        i += 1;
    }
    proof {
        assert(items@.take(items.len() as int) =~= items@);
    }
    out
}

/// Whether the trimmed line `line` is no entry.
fn noise(line: &Vec<char>) -> (r: bool)
    ensures
        r == is_noise(line@),
{
    if line.len() == 0 {
        return true;
    }
    let total = chars_of("total");
    let missing = chars_of("No such file or directory");
    let denied = chars_of("Permission denied");
    starts_with(line, &total) || has_substring(line, &missing) || has_substring(line, &denied)
}

/// The tokens of `line` if it is an entry line of the kind `kind`.
fn entry_tokens_of(line: &Vec<char>, kind: char) -> (r: Option<Vec<Vec<char>>>)
    ensures
        match r {
            Some(t) => entry_tokens(line@, kind) == Some(rows(t@)) && t.len() >= 8,
            None => entry_tokens(line@, kind) is None,
        },
{
    let t = trimmed(line);
    if noise(&t) {
        return None;
    }
    let parts = tokens(&t);
    proof {
        assert(rows(parts@).len() == parts@.len());
    }
    if parts.len() < 8 {
        return None;
    }
    proof {
        assert(rows(parts@)[0] == parts@[0]@);
        lemma_tokens_are_solid(t@);
        assert(is_solid(split_whitespace(t@)[0]));
    }
    if parts[0][0] != kind {
        return None;
    }
    Some(parts)
}

/// The path of the entry `name` in the directory `base`.
fn child_path_of(base: &Vec<char>, name: &Vec<char>) -> (out: Vec<char>)
    ensures
        out@ == child_path(base@, name@),
{
    let mut out = copy_chars(base);
    if !(base.len() > 0 && base[base.len() - 1] == '/') {
        out.push('/');
        proof {
            assert(out@ =~= base@ + seq!['/']);
        }
    }
    append(&mut out, name);
    out
}

/// The media item that the listing line `line` describes, if any.
fn parse_media_line(line: &Vec<char>, base: &Vec<char>) -> (r: Option<MediaItem>)
    ensures
        match r {
            Some(item) => media_entry(line@, base@) == Some(item@),
            None => media_entry(line@, base@) is None,
        },
{
    let parts = match entry_tokens_of(line, '-') {
        Some(p) => p,
        None => {
            return None;
        },
    };
    proof {
        assert(rows(parts@).len() == parts@.len());
        assert(rows(parts@)[4] == parts@[4]@);
        assert(rows(parts@)[5] == parts@[5]@);
        assert(rows(parts@)[6] == parts@[6]@);
    }
    let name = join_from(&parts, 7);
    let kind = match classify_chars(&name) {
        Some(k) => k,
        None => {
            return None;
        },
    };
    let size_bytes: u64 = match parse_u64(&parts[4]) {
        Some(n) => n,
        None => 0,
    };
    let mut date = copy_chars(&parts[5]);
    date.push(' ');
    append(&mut date, &parts[6]);
    proof {
        assert(date@ =~= parts@[5]@ + seq![' '] + parts@[6]@);
    }
    let path = child_path_of(base, &name);
    Some(
        MediaItem {
            path: string_of(&path),
            name: string_of(&name),
            media_type: kind,
            size_bytes,
            width: None,
            height: None,
            duration_ms: None,
            date_taken: Some(string_of(&date)),
            thumbnail_url: None,
        },
    )
}

/// The key by which the item is sorted.
fn date_key_of(item: &MediaItem) -> (key: SortKey)
    ensures
        key@ == date_key(item@),
{
    match &item.date_taken {
        Some(date) => SortKey { rank: 1, text: chars_of(date.as_str()) },
        None => SortKey { rank: 0, text: Vec::new() },
    }
}

/// Arranging the views of items is the same as viewing the arranged items.
proof fn lemma_arrange_media(items: Seq<MediaItem>, order: Seq<int>)
    requires
        forall|k: int| 0 <= k < order.len() ==> 0 <= #[trigger] order[k] < items.len(),
    ensures
        media_views(arrange(items, order)) == arrange(media_views(items), order),
{
    assert(media_views(arrange(items, order)) =~= arrange(media_views(items), order));
}

/// The media files that a directory listing describes.
///
/// `output` is what `ls -la` printed for the directory `path`. Lines that
/// are no file entries are passed over, so are files that are neither image
/// nor video and files that `filter` does not let through. The result is
/// sorted by date, newest first; entries with the same date stay in the
/// order of the listing.
pub fn list_media_files(output: &str, path: &str, filter: MediaFilter) -> (items: Vec<MediaItem>)
    ensures
        media_views(items@) == newest_first(listed_media(output@, path@, filter)),
        exists|order: Seq<int>|
            is_stable_order(
                listed_media(output@, path@, filter).map_values(|m: MediaItemView| date_key(m)),
                order,
                true,
            ) && media_views(items@) == arrange(listed_media(output@, path@, filter), order),
{
    let text = chars_of(output);
    let base = chars_of(path);
    let all_lines = split_lines(&text);
    let mut found: Vec<MediaItem> = Vec::new();
    let mut keys: Vec<SortKey> = Vec::new();
    let ghost key_of = |m: MediaItemView| date_key(m);
    let mut i: usize = 0;
    proof {
        assert(rows(all_lines@).take(0) =~= Seq::<Seq<char>>::empty());
        assert(media_views(found@) =~= Seq::<MediaItemView>::empty());
        assert(key_views(keys@) =~= media_views(found@).map_values(key_of));
    }
    while i < all_lines.len()
        invariant
            i <= all_lines.len(),
            key_of == (|m: MediaItemView| date_key(m)),
            found.len() == keys.len(),
            media_views(found@) == filtered(
                media_entries(rows(all_lines@).take(i as int), base@),
                filter,
            ),
            key_views(keys@) == media_views(found@).map_values(key_of),
        decreases all_lines.len() - i,
    {
        proof {
            let next = rows(all_lines@).take(i + 1);
            assert(next.drop_last() =~= rows(all_lines@).take(i as int));
            assert(next.last() == all_lines@[i as int]@);
            let before = media_entries(rows(all_lines@).take(i as int), base@);
            match media_entry(all_lines@[i as int]@, base@) {
                Some(item) => {
                    assert(before.push(item).drop_last() =~= before);
                },
                None => {},
            }
        }
        match parse_media_line(&all_lines[i], &base) {
            Some(item) => {
                if filter_passes(filter, item.media_type) {
                    let key = date_key_of(&item);
                    proof {
                        assert(media_views(found@.push(item)) =~= media_views(found@).push(item@));
                        let old_keys = key_views(keys@);
                        let new_keys = key_views(keys@.push(key));
                        let new_views = media_views(found@.push(item)).map_values(key_of);
                        assert(new_keys.len() == new_views.len());
                        assert forall|k: int| 0 <= k < new_keys.len() implies new_keys[k]
                            == new_views[k] by {
                            if k < keys@.len() {
                                assert(new_keys[k] == old_keys[k]);
                                assert(old_keys[k] == media_views(found@).map_values(key_of)[k]);
                            }
                        }
                        assert(new_keys =~= new_views);
                    }
                    found.push(item);
                    keys.push(key);
                }
            },
            None => {},
        }
        i += 1;
    }
    proof {
        assert(rows(all_lines@).take(all_lines.len() as int) =~= rows(all_lines@));
    }
    let ghost unsorted = found@;
    let ghost unsorted_keys = key_views(keys@);
    let sorted = sort_by_keys(found, keys, true);
    proof {
        let listed = listed_media(output@, path@, filter);
        let order = stable_order(unsorted_keys, true);
        assert(unsorted_keys.len() == unsorted.len());
        lemma_arrange_media(unsorted, order);
        assert(unsorted_keys =~= date_keys(listed));
        assert(is_stable_order(
            listed.map_values(|m: MediaItemView| date_key(m)),
            order,
            true,
        ));
        lemma_arrange_newest_first(listed, 0);
        assert(listed.skip(0) =~= listed);
    }
    sorted
}

/// The code of `c` with the ASCII capitals mapped to their small letters.
fn ascii_fold(c: char) -> (code: u32)
    ensures
        code == ascii_folded(c),
{
    let code = c as u32;
    if 'A' <= c && c <= 'Z' {
        code + 32
    } else {
        code
    }
}

/// Whether `a` and `b` are the same but for the case of ASCII letters.
pub fn same_ignoring_ascii_case(a: &Vec<char>, b: &Vec<char>) -> (r: bool)
    ensures
        r == ascii_case_equal(a@, b@),
{
    if a.len() != b.len() {
        return false;
    }
    let mut i: usize = 0;
    while i < a.len()
        invariant
            i <= a.len(),
            a.len() == b.len(),
            forall|k: int| 0 <= k < i ==> ascii_folded(#[trigger] a@[k]) == ascii_folded(b@[k]),
        decreases a.len() - i,
    {
        if ascii_fold(a[i]) != ascii_fold(b[i]) {
            proof {
                assert(ascii_folded(a@[i as int]) != ascii_folded(b@[i as int]));
            }
            return false;
        }
        i += 1;
    }
    true
}

/// Whether the folder `name` at `path` goes by the well-known name `known`.
fn goes_by_name(name: &Vec<char>, path: &Vec<char>, known: &str) -> (r: bool)
    ensures
        r == goes_by(name@, path@, known@),
{
    let k = chars_of(known);
    same_ignoring_ascii_case(name, &k) || has_substring(path, &k)
}

/// Whether the folder `name` at `path` is one of the well-known media
/// folders.
pub fn media_folder(name: &Vec<char>, path: &Vec<char>) -> (r: bool)
    ensures
        r == is_media_folder(name@, path@),
{
    goes_by_name(name, path, "DCIM") || goes_by_name(name, path, "Pictures") || goes_by_name(
        name,
        path,
        "Download",
    ) || goes_by_name(name, path, "Movies") || goes_by_name(name, path, "WhatsApp/Media")
        || goes_by_name(name, path, "Telegram") || goes_by_name(name, path, "Screenshots")
}

/// The folder that the listing line `line` describes, if any.
fn parse_folder_line(line: &Vec<char>, base: &Vec<char>) -> (r: Option<FolderInfo>)
    ensures
        match r {
            Some(folder) => folder_entry(line@, base@) == Some(folder@),
            None => folder_entry(line@, base@) is None,
        },
{
    let parts = match entry_tokens_of(line, 'd') {
        Some(p) => p,
        None => {
            return None;
        },
    };
    let name = join_from(&parts, 7);
    if name.len() > 0 && name[0] == '.' {
        return None;
    }
    let path = child_path_of(base, &name);
    let is_media = media_folder(&name, &path);
    Some(
        FolderInfo {
            name: string_of(&name),
            path: string_of(&path),
            item_count: None,
            is_media_folder: is_media,
        },
    )
}

/// The key by which the folder is sorted.
fn folder_key_of(folder: &FolderInfo) -> (key: SortKey)
    ensures
        key@ == folder_key(folder@),
{
    let name = chars_of(folder.name.as_str());
    SortKey {
        rank: if folder.is_media_folder {
            0
        } else {
            1
        },
        text: lowercase(&name),
    }
}

/// Arranging the views of folders is the same as viewing the arranged
/// folders.
proof fn lemma_arrange_folders(folders: Seq<FolderInfo>, order: Seq<int>)
    requires
        forall|k: int| 0 <= k < order.len() ==> 0 <= #[trigger] order[k] < folders.len(),
    ensures
        folder_views(arrange(folders, order)) == arrange(folder_views(folders), order),
{
    assert(folder_views(arrange(folders, order)) =~= arrange(folder_views(folders), order));
}

/// The directory that a folder listing is about: `path`, or the shared
/// storage where none is given.
pub open spec fn listed_root(path: Option<&str>) -> Seq<char> {
    match path {
        Some(p) => p@,
        None => default_root(),
    }
}

/// The folders that a directory listing describes.
///
/// `output` is what `ls -la` printed for the directory `path`, or for
/// `/sdcard` where `path` is `None`. Lines that are no directory entries are
/// passed over, so are directories whose name begins with a dot. The
/// well-known media folders come first; within either group folders are
/// sorted by their name in lowercase, and folders whose lowercase names
/// agree stay in the order of the listing.
pub fn list_folders(output: &str, path: Option<&str>) -> (folders: Vec<FolderInfo>)
    ensures
        folder_views(folders@) == arrange(
            folder_entries(lines(output@), listed_root(path)),
            stable_order(
                folder_entries(lines(output@), listed_root(path)).map_values(
                    |f: FolderInfoView| folder_key(f),
                ),
                false,
            ),
        ),
        exists|order: Seq<int>|
            is_stable_order(
                folder_entries(lines(output@), listed_root(path)).map_values(
                    |f: FolderInfoView| folder_key(f),
                ),
                order,
                false,
            ) && folder_views(folders@) == arrange(
                folder_entries(lines(output@), listed_root(path)),
                order,
            ),
{
    let text = chars_of(output);
    let base = match path {
        Some(p) => chars_of(p),
        None => chars_of("/sdcard"),
    };
    let all_lines = split_lines(&text);
    let mut found: Vec<FolderInfo> = Vec::new();
    let mut keys: Vec<SortKey> = Vec::new();
    let ghost key_of = |f: FolderInfoView| folder_key(f);
    let mut i: usize = 0;
    proof {
        assert(rows(all_lines@).take(0) =~= Seq::<Seq<char>>::empty());
        assert(folder_views(found@) =~= Seq::<FolderInfoView>::empty());
        assert(key_views(keys@) =~= folder_views(found@).map_values(key_of));
    }
    while i < all_lines.len()
        invariant
            i <= all_lines.len(),
            key_of == (|f: FolderInfoView| folder_key(f)),
            found.len() == keys.len(),
            folder_views(found@) == folder_entries(rows(all_lines@).take(i as int), base@),
            key_views(keys@) == folder_views(found@).map_values(key_of),
        decreases all_lines.len() - i,
    {
        proof {
            let next = rows(all_lines@).take(i + 1);
            assert(next.drop_last() =~= rows(all_lines@).take(i as int));
            assert(next.last() == all_lines@[i as int]@);
        }
        match parse_folder_line(&all_lines[i], &base) {
            Some(folder) => {
                let key = folder_key_of(&folder);
                proof {
                    assert(folder_views(found@.push(folder)) =~= folder_views(found@).push(
                        folder@,
                    ));
                    let old_keys = key_views(keys@);
                    let new_keys = key_views(keys@.push(key));
                    let new_views = folder_views(found@.push(folder)).map_values(key_of);
                    assert(new_keys.len() == new_views.len());
                    assert forall|k: int| 0 <= k < new_keys.len() implies new_keys[k]
                        == new_views[k] by {
                        if k < keys@.len() {
                            assert(new_keys[k] == old_keys[k]);
                            assert(old_keys[k] == folder_views(found@).map_values(key_of)[k]);
                        }
                    }
                    assert(new_keys =~= new_views);
                }
                found.push(folder);
                keys.push(key);
            },
            None => {},
        }
        i += 1;
    }
    proof {
        assert(rows(all_lines@).take(all_lines.len() as int) =~= rows(all_lines@));
    }
    let ghost unsorted = found@;
    let ghost unsorted_keys = key_views(keys@);
    let sorted = sort_by_keys(found, keys, false);
    proof {
        let order = stable_order(unsorted_keys, false);
        assert(unsorted_keys.len() == unsorted.len());
        lemma_arrange_folders(unsorted, order);
        assert(is_stable_order(
            folder_entries(lines(output@), listed_root(path)).map_values(
                |f: FolderInfoView| folder_key(f),
            ),
            order,
            false,
        ));
    }
    sorted
}

/// The arguments with which the remote-control executable lists the
/// directory `path` on the device `serial`.
pub fn listing_command(serial: &str, path: &str) -> (arguments: Vec<String>)
    ensures
        texts(arguments@) == listing_arguments(serial@, path@),
{
    let mut arguments: Vec<String> = Vec::new();
    arguments.push("-s".to_owned());
    arguments.push(serial.to_owned());
    arguments.push("shell".to_owned());
    arguments.push("ls".to_owned());
    arguments.push("-la".to_owned());
    arguments.push(string_of(&quote_chars(&chars_of(path))));
    proof {
        assert(texts(arguments@) =~= listing_arguments(serial@, path@));
    }
    arguments
}

} // verus!
