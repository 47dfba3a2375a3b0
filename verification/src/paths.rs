//! Remote paths: quoting for the remote shell, the canonical form under which
//! the aliases of the shared storage root compare equal, and file names and
//! extensions.
//!
//! Remote paths are POSIX paths: components are separated by `/`.

use crate::scan::{replace, replace_all, strip_leading, trim_start_matches};
use crate::text::{
    alphanumeric, append, chars_of, ends_with, same_chars, slice_of, starts_with, string_of,
};
use vstd::prelude::*;

verus! {

/// `path` as one word of a remote shell command: in single quotes, each
/// single quote inside written as `'\''`.
pub open spec fn shell_quoted(path: Seq<char>) -> Seq<char> {
    seq!['\''] + replace_all(path, seq!['\''], seq!['\'', '\\', '\'', '\'']) + seq!['\'']
}

/// `value` with each single quote doubled, as inside an SQL string literal.
pub open spec fn sql_quoted(value: Seq<char>) -> Seq<char> {
    replace_all(value, seq!['\''], seq!['\'', '\''])
}

/// The prefix under which the device exposes its shared storage.
pub open spec fn storage_root() -> Seq<char> {
    "/storage/emulated/0/"@
}

/// The alias of the shared storage root.
pub open spec fn storage_alias() -> Seq<char> {
    "/sdcard/"@
}

/// `path` without the storage root or its alias in front.
pub open spec fn without_storage_prefix(path: Seq<char>) -> Seq<char> {
    if storage_root().is_prefix_of(path) {
        path.skip(storage_root().len() as int)
    } else if storage_alias().is_prefix_of(path) {
        path.skip(storage_alias().len() as int)
    } else {
        path
    }
}

/// The canonical form of `path`: relative to the shared storage root, with no
/// slash in front.
pub open spec fn normalized(path: Seq<char>) -> Seq<char> {
    trim_start_matches(without_storage_prefix(path), '/')
}

/// How two remote paths relate once normalized.
#[derive(Clone, Copy, Debug, PartialEq, Eq, Structural)]
pub enum PathMatch {
    /// The normalized paths are equal.
    Exact,
    /// One normalized path ends with the other; they are taken for the same
    /// file although this is only likely.
    Suffix,
    /// Neither.
    Different,
}

/// How `a` and `b` relate once normalized.
pub open spec fn path_match(a: Seq<char>, b: Seq<char>) -> PathMatch {
    let na = normalized(a);
    let nb = normalized(b);
    if na == nb {
        PathMatch::Exact
    } else if nb.is_suffix_of(na) || na.is_suffix_of(nb) {
        PathMatch::Suffix
    } else {
        PathMatch::Different
    }
}

/// `a` and `b` are taken for the same remote file.
pub open spec fn same_remote_file(a: Seq<char>, b: Seq<char>) -> bool {
    path_match(a, b) != PathMatch::Different
}

/// The characters of `path` after its last slash.
pub open spec fn last_segment(path: Seq<char>) -> Seq<char>
    decreases path.len(),
{
    if path.len() == 0 || path.last() == '/' {
        Seq::empty()
    } else {
        last_segment(path.drop_last()).push(path.last())
    }
}

/// The final component of `path`, if it names something: trailing slashes
/// and `.` components are passed over, and a path that ends in `..` or has no
/// component left has no file name.
pub open spec fn file_name_of(path: Seq<char>) -> Option<Seq<char>>
    decreases path.len(),
{
    if path.len() == 0 {
        None
    } else if path.last() == '/' {
        file_name_of(path.drop_last())
    } else if last_segment(path) == seq!['.'] {
        file_name_of(path.drop_last())
    } else if last_segment(path) == seq!['.', '.'] {
        None
    } else {
        Some(last_segment(path))
    }
}

/// The index of the last `c` in `s`, or -1.
pub open spec fn last_index_of(s: Seq<char>, c: char) -> int
    decreases s.len(),
{
    if s.len() == 0 {
        -1
    } else if s.last() == c {
        s.len() - 1
    } else {
        last_index_of(s.drop_last(), c)
    }
}

/// The extension of a file name: what follows its last dot, unless the name
/// has no dot or only the one it begins with.
pub open spec fn extension_of_name(name: Seq<char>) -> Option<Seq<char>> {
    let dot = last_index_of(name, '.');
    if dot <= 0 {
        None
    } else {
        Some(name.skip(dot + 1))
    }
}

/// The extension of the file that `path` names.
pub open spec fn extension_of(path: Seq<char>) -> Option<Seq<char>> {
    match file_name_of(path) {
        Some(name) => extension_of_name(name),
        None => None,
    }
}

/// A character that may stand in a cache file name.
pub open spec fn is_safe_char(c: char) -> bool {
    alphanumeric(c) || c == '.' || c == '-' || c == '_'
}

/// `name` with every character that is not alphanumeric, a dot, a hyphen or
/// an underscore replaced by an underscore.
pub open spec fn sanitized(name: Seq<char>) -> Seq<char> {
    name.map_values(
        |c: char|
            if is_safe_char(c) {
                c
            } else {
                '_'
            },
    )
}

/// A path under the storage alias and the same path under the storage root
/// have one canonical form.
pub proof fn lemma_aliases_normalize_alike(rest: Seq<char>)
    ensures
        normalized(storage_alias() + rest) == trim_start_matches(rest, '/'),
        normalized(storage_root() + rest) == trim_start_matches(rest, '/'),
{
    reveal_strlit("/storage/emulated/0/");
    reveal_strlit("/sdcard/");
    let a = storage_alias() + rest;
    let r = storage_root() + rest;
    assert(r.subrange(0, storage_root().len() as int) =~= storage_root());
    assert(r.skip(storage_root().len() as int) =~= rest);
    assert(a.subrange(0, storage_alias().len() as int) =~= storage_alias());
    assert(a.skip(storage_alias().len() as int) =~= rest);
    if storage_root().is_prefix_of(a) {
        assert(a.subrange(0, storage_root().len() as int)[2] == a[2]);
        assert(a[2] == storage_alias()[2]);
        assert(storage_root()[2] == 't');
    }
}

/// A canonical form begins with no slash.
pub proof fn lemma_trimmed_has_no_leading(s: Seq<char>, c: char)
    ensures
        trim_start_matches(s, c).len() > 0 ==> trim_start_matches(s, c)[0] != c,
    decreases s.len(),
{
    if s.len() > 0 && s[0] == c {
        lemma_trimmed_has_no_leading(s.skip(1), c);
    }
}

/// Normalizing a canonical form changes nothing.
pub proof fn lemma_normalized_is_canonical(path: Seq<char>)
    ensures
        normalized(normalized(path)) == normalized(path),
{
    reveal_strlit("/storage/emulated/0/");
    reveal_strlit("/sdcard/");
    let n = normalized(path);
    lemma_trimmed_has_no_leading(without_storage_prefix(path), '/');
    if storage_root().is_prefix_of(n) {
        assert(n.subrange(0, storage_root().len() as int)[0] == n[0]);
    }
    if storage_alias().is_prefix_of(n) {
        assert(n.subrange(0, storage_alias().len() as int)[0] == n[0]);
    }
}

/// `path` as one word of a remote shell command.
pub fn quote_chars(path: &Vec<char>) -> (out: Vec<char>)
    ensures
        out@ == shell_quoted(path@),
{
    let mut quote: Vec<char> = Vec::new();
    quote.push('\'');
    let mut escaped: Vec<char> = Vec::new();
    escaped.push('\'');
    escaped.push('\\');
    escaped.push('\'');
    escaped.push('\'');
    proof {
        assert(quote@ =~= seq!['\'']);
        assert(escaped@ =~= seq!['\'', '\\', '\'', '\'']);
    }
    let body = replace(path, &quote, &escaped);
    let mut out: Vec<char> = Vec::new();
    out.push('\'');
    append(&mut out, &body);
    out.push('\'');
    proof {
        assert(out@ =~= shell_quoted(path@));
    }
    out
}

/// `path` quoted for the remote shell, so that spaces and shell
/// metacharacters in it reach the remote command unaltered.
pub fn quote_remote_path(path: &str) -> (quoted: String)
    ensures
        quoted@ == shell_quoted(path@),
{
    string_of(&quote_chars(&chars_of(path)))
}

/// `value` with each single quote doubled.
pub fn sql_quote_chars(value: &Vec<char>) -> (out: Vec<char>)
    ensures
        out@ == sql_quoted(value@),
{
    let mut quote: Vec<char> = Vec::new();
    quote.push('\'');
    let mut doubled: Vec<char> = Vec::new();
    doubled.push('\'');
    doubled.push('\'');
    proof {
        assert(quote@ =~= seq!['\'']);
        assert(doubled@ =~= seq!['\'', '\'']);
    }
    replace(value, &quote, &doubled)
}

/// `value` escaped for use inside an SQL string literal.
pub fn quote_sql_value(value: &str) -> (quoted: String)
    ensures
        quoted@ == sql_quoted(value@),
{
    string_of(&sql_quote_chars(&chars_of(value)))
}

/// The canonical form of `path`.
pub fn normalize_chars(path: &Vec<char>) -> (out: Vec<char>)
    ensures
        out@ == normalized(path@),
{
    let root = chars_of("/storage/emulated/0/");
    let alias = chars_of("/sdcard/");
    let rest = if starts_with(path, &root) {
        proof {
            assert(path@.subrange(root@.len() as int, path@.len() as int) =~= path@.skip(
                root@.len() as int,
            ));
        }
        slice_of(path, root.len(), path.len())
    } else if starts_with(path, &alias) {
        proof {
            assert(path@.subrange(alias@.len() as int, path@.len() as int) =~= path@.skip(
                alias@.len() as int,
            ));
        }
        slice_of(path, alias.len(), path.len())
    } else {
        proof {
            assert(path@.subrange(0, path@.len() as int) =~= path@);
        }
        slice_of(path, 0, path.len())
    };
    strip_leading(&rest, '/')
}

/// The canonical form of `path`: the storage root or its alias removed from
/// the front, then any leading slashes.
pub fn normalize_path(path: &str) -> (canonical: String)
    ensures
        canonical@ == normalized(path@),
{
    string_of(&normalize_chars(&chars_of(path)))
}

/// How the remote paths `a` and `b` relate once normalized.
pub fn match_chars(a: &Vec<char>, b: &Vec<char>) -> (m: PathMatch)
    ensures
        m == path_match(a@, b@),
{
    let na = normalize_chars(a);
    let nb = normalize_chars(b);
    if same_chars(&na, &nb) {
        PathMatch::Exact
    } else if ends_with(&na, &nb) || ends_with(&nb, &na) {
        PathMatch::Suffix
    } else {
        PathMatch::Different
    }
}

/// How the remote paths `a` and `b` relate once normalized: equal, one the
/// end of the other, or different.
pub fn match_remote_paths(a: &str, b: &str) -> (m: PathMatch)
    ensures
        m == path_match(a@, b@),
{
    match_chars(&chars_of(a), &chars_of(b))
}

/// The start of the last segment of `path[..end]`.
fn segment_start(path: &Vec<char>, end: usize) -> (start: usize)
    requires
        end <= path.len(),
    ensures
        start <= end,
        path@.subrange(start as int, end as int) == last_segment(path@.take(end as int)),
        start == 0 || path@[start - 1] == '/',
{
    let mut start: usize = end;
    proof {
        assert(path@.subrange(end as int, end as int) =~= Seq::<char>::empty());
    }
    while start > 0 && path[start - 1] != '/'
        invariant
            start <= end <= path.len(),
            last_segment(path@.take(end as int)) == last_segment(path@.take(start as int))
                + path@.subrange(start as int, end as int),
        decreases start,
    {
        proof {
            let p = path@.take(start as int);
            assert(p.drop_last() =~= path@.take(start - 1));
            assert(last_segment(p.drop_last()).push(p.last()) + path@.subrange(
                start as int,
                end as int,
            ) =~= last_segment(p.drop_last()) + path@.subrange(start - 1, end as int));
        }
        start -= 1;
    }
    proof {
        assert(last_segment(path@.take(start as int)) =~= Seq::<char>::empty());
        assert(Seq::<char>::empty() + path@.subrange(start as int, end as int)
            =~= path@.subrange(start as int, end as int));
    }
    start
}

/// The final component of `path`, if it names something.
pub fn file_name_chars(path: &Vec<char>) -> (name: Option<Vec<char>>)
    ensures
        match name {
            Some(n) => file_name_of(path@) == Some(n@),
            None => file_name_of(path@) is None,
        },
{
    let mut end: usize = path.len();
    proof {
        assert(path@.take(end as int) =~= path@);
    }
    while end > 0
        invariant
            end <= path.len(),
            file_name_of(path@) == file_name_of(path@.take(end as int)),
        decreases end,
    {
        let ghost p = path@.take(end as int);
        proof {
            assert(p.drop_last() =~= path@.take(end - 1));
        }
        if path[end - 1] == '/' {
            end -= 1;
        } else {
            let start = segment_start(path, end);
            let len = end - start;
            if len == 1 && path[start] == '.' {
                proof {
                    assert(path@.subrange(start as int, end as int) =~= seq!['.']);
                }
                end -= 1;
            } else if len == 2 && path[start] == '.' && path[start + 1] == '.' {
                proof {
                    assert(path@.subrange(start as int, end as int) =~= seq!['.', '.']);
                    assert(seq!['.', '.'] != seq!['.']) by {
                        assert(seq!['.', '.'].len() != seq!['.'].len());
                    }
                }
                return None;
            } else {
                proof {
                    let seg = path@.subrange(start as int, end as int);
                    if seg == seq!['.'] {
                        assert(seg.len() == 1);
                        assert(seg[0] == '.');
                    }
                    if seg == seq!['.', '.'] {
                        assert(seg.len() == 2);
                        assert(seg[0] == '.');
                        assert(seg[1] == '.');
                    }
                }
                return Some(slice_of(path, start, end));
            }
        }
    }
    None
}

/// The extension of the file name `name`.
pub fn name_extension_chars(name: &Vec<char>) -> (ext: Option<Vec<char>>)
    ensures
        match ext {
            Some(e) => extension_of_name(name@) == Some(e@),
            None => extension_of_name(name@) is None,
        },
{
    let mut end: usize = name.len();
    proof {
        assert(name@.take(end as int) =~= name@);
    }
    while end > 0 && name[end - 1] != '.'
        invariant
            end <= name.len(),
            last_index_of(name@, '.') == last_index_of(name@.take(end as int), '.'),
        decreases end,
    {
        proof {
            assert(name@.take(end as int).drop_last() =~= name@.take(end - 1));
        }
        end -= 1;
    }
    if end <= 1 {
        None
    } else {
        proof {
            assert(name@.subrange(end as int, name@.len() as int) =~= name@.skip(end as int));
        }
        Some(slice_of(name, end, name.len()))
    }
}

/// The extension of the file that `path` names.
pub fn extension_chars(path: &Vec<char>) -> (ext: Option<Vec<char>>)
    ensures
        match ext {
            Some(e) => extension_of(path@) == Some(e@),
            None => extension_of(path@) is None,
        },
{
    match file_name_chars(path) {
        Some(name) => name_extension_chars(&name),
        None => None,
    }
}

/// The final component of the remote path `path`, if it names something.
pub fn file_name(path: &str) -> (name: Option<String>)
    ensures
        match name {
            Some(n) => file_name_of(path@) == Some(n@),
            None => file_name_of(path@) is None,
        },
{
    match file_name_chars(&chars_of(path)) {
        Some(n) => Some(string_of(&n)),
        None => None,
    }
}

/// The extension of the file that the remote path `path` names.
pub fn extension(path: &str) -> (ext: Option<String>)
    ensures
        match ext {
            Some(e) => extension_of(path@) == Some(e@),
            None => extension_of(path@) is None,
        },
{
    match extension_chars(&chars_of(path)) {
        Some(e) => Some(string_of(&e)),
        None => None,
    }
}

/// `name` made safe for use as part of a cache file name.
pub fn sanitize_chars(name: &Vec<char>) -> (out: Vec<char>)
    ensures
        out@ == sanitized(name@),
{
    let mut out: Vec<char> = Vec::new();
    let mut i: usize = 0;
    while i < name.len()
        invariant
            i <= name.len(),
            out@ == sanitized(name@.take(i as int)),
        decreases name.len() - i,
    {
        let c = name[i];
        let kept = if c.is_alphanumeric() || c == '.' || c == '-' || c == '_' {
            c
        } else {
            '_'
        };
        proof {
            assert(sanitized(name@.take(i + 1)) =~= sanitized(name@.take(i as int)).push(kept));
        }
        out.push(kept);
        i += 1;
    }
    proof {
        assert(name@.take(name.len() as int) =~= name@);
    }
    out
}

/// `name` with every character that is not alphanumeric, a dot, a hyphen or
/// an underscore replaced by an underscore.
pub fn sanitize_filename(name: &str) -> (safe: String)
    ensures
        safe@ == sanitized(name@),
{
    string_of(&sanitize_chars(&chars_of(name)))
}

} // verus!
