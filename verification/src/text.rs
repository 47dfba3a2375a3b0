//! Sequences of characters: conversion between strings and character
//! vectors, and the searching, trimming and splitting the parsers use.
//!
//! Every algorithm here works on `Vec<char>` and is specified over
//! `Seq<char>`. Four things are taken from the standard library without
//! proof: which characters are white space, which are alphanumeric, what the
//! lowercase form of a string is, and that pushing a character onto a string
//! appends it. What they are for ASCII characters is written out; beyond
//! ASCII, the alphanumeric characters and the lowercase forms are only
//! named.

use vstd::prelude::*;

verus! {

/// Whether `c` is white space: one of the twenty-five characters that have
/// the Unicode property `White_Space`. These are the controls from tab to
/// carriage return, the space, the next-line control, the no-break space,
/// the Ogham space mark, the spaces from en quad to hair space, the line and
/// paragraph separators, the narrow no-break space, the medium mathematical
/// space and the ideographic space.
pub open spec fn white_space(c: char) -> bool {
    ('\u{9}' <= c <= '\u{D}') || c == ' ' || c == '\u{85}' || c == '\u{A0}' || c == '\u{1680}' || (
    '\u{2000}' <= c <= '\u{200A}') || c == '\u{2028}' || c == '\u{2029}' || c == '\u{202F}' || c
        == '\u{205F}' || c == '\u{3000}'
}

/// `c` is one of the 128 ASCII characters.
pub open spec fn is_ascii_char(c: char) -> bool {
    c <= '\u{7F}'
}

/// Every character of `s` is an ASCII character.
pub open spec fn is_ascii_text(s: Seq<char>) -> bool {
    forall|i: int| 0 <= i < s.len() ==> is_ascii_char(#[trigger] s[i])
}

/// Whether a character beyond ASCII is alphabetic or numeric in the sense
/// of Unicode.
pub uninterp spec fn alphanumeric_beyond_ascii(c: char) -> bool;

/// Whether `c` is alphabetic or numeric in the sense of Unicode. Of the
/// ASCII characters these are the letters and the digits.
pub open spec fn alphanumeric(c: char) -> bool {
    if is_ascii_char(c) {
        ('a' <= c <= 'z') || ('A' <= c <= 'Z') || ('0' <= c <= '9')
    } else {
        alphanumeric_beyond_ascii(c)
    }
}

/// The lowercase form under the Unicode case mapping of a text that holds
/// a character beyond ASCII.
pub uninterp spec fn lowercase_beyond_ascii(s: Seq<char>) -> Seq<char>;

/// `c` with an ASCII capital replaced by its small letter.
pub open spec fn ascii_lowercase(c: char) -> char {
    if 'A' <= c <= 'Z' {
        ((c as u8) + 32) as u8 as char
    } else {
        c
    }
}

/// The lowercase form of `s` under the Unicode case mapping. In a text of
/// ASCII characters each capital is replaced by its small letter and
/// nothing else changes.
pub open spec fn lowercase_of(s: Seq<char>) -> Seq<char> {
    if is_ascii_text(s) {
        s.map_values(|c: char| ascii_lowercase(c))
    } else {
        lowercase_beyond_ascii(s)
    }
}

/// `char::is_whitespace` decides the Unicode property `White_Space`, which
/// twenty-five characters have; the contract lists them.
pub assume_specification[ char::is_whitespace ](c: char) -> (b: bool)
    ensures
        b == white_space(c),
;

/// `char::is_alphanumeric` decides whether a character is alphabetic or
/// numeric in the sense of Unicode. The contract says which ASCII
/// characters are, the letters and the digits, and gives the answer for any
/// other character only the name [`alphanumeric_beyond_ascii`].
pub assume_specification[ char::is_alphanumeric ](c: char) -> (b: bool)
    ensures
        b == alphanumeric(c),
        !is_ascii_char(c) ==> b == alphanumeric_beyond_ascii(c),
;

/// `str::to_lowercase` returns the lowercase form of a string slice under
/// the Unicode case mapping. The contract says what it is for a text of
/// ASCII characters, where only the capitals change, and gives the result
/// for any other text only the name [`lowercase_beyond_ascii`].
pub assume_specification[ str::to_lowercase ](s: &str) -> (lower: String)
    ensures
        lower@ == lowercase_of(s@),
        !is_ascii_text(s@) ==> lower@ == lowercase_beyond_ascii(s@),
;

/// `String::push` appends one character to the end of the string.
pub assume_specification[ String::push ](s: &mut String, ch: char)
    ensures
        final(s)@ == old(s)@.push(ch),
;

/// The views of a vector of character vectors.
pub open spec fn rows(v: Seq<Vec<char>>) -> Seq<Seq<char>> {
    v.map_values(|r: Vec<char>| r@)
}

/// The views of a vector of strings.
pub open spec fn texts(v: Seq<String>) -> Seq<Seq<char>> {
    v.map_values(|r: String| r@)
}

/// `needle` occurs in `s` at index `i`.
pub open spec fn matches_at(s: Seq<char>, i: int, needle: Seq<char>) -> bool {
    0 <= i && i + needle.len() <= s.len() && s.subrange(i, i + needle.len()) == needle
}

/// The index of the first occurrence of `needle` in `s` at or after `from`.
pub open spec fn find_from(s: Seq<char>, needle: Seq<char>, from: int) -> Option<int>
    decreases s.len() - from,
{
    if from < 0 || from + needle.len() > s.len() {
        None
    } else if matches_at(s, from, needle) {
        Some(from)
    } else if from >= s.len() {
        None
    } else {
        find_from(s, needle, from + 1)
    }
}

/// The index of the first occurrence of `needle` in `s`.
pub open spec fn find(s: Seq<char>, needle: Seq<char>) -> Option<int> {
    find_from(s, needle, 0)
}

/// `needle` occurs somewhere in `s`.
pub open spec fn contains(s: Seq<char>, needle: Seq<char>) -> bool {
    exists|i: int| matches_at(s, i, needle)
}

/// `find_from` returns the least matching index at or after `from`, and
/// `None` exactly when there is none.
pub proof fn lemma_find_from(s: Seq<char>, needle: Seq<char>, from: int)
    requires
        0 <= from,
    ensures
        match find_from(s, needle, from) {
            Some(i) => from <= i && matches_at(s, i, needle) && forall|j: int|
                from <= j < i ==> !matches_at(s, j, needle),
            None => forall|j: int| from <= j ==> !matches_at(s, j, needle),
        },
    decreases s.len() - from,
{
    if from + needle.len() > s.len() {
    } else if matches_at(s, from, needle) {
    } else if from >= s.len() {
        assert(s.subrange(from, from + needle.len()) =~= needle);
    } else {
        lemma_find_from(s, needle, from + 1);
    }
}

/// The views of a vector with one more row are the views with one more view.
pub proof fn lemma_rows_push(v: Seq<Vec<char>>, r: Vec<char>)
    ensures
        rows(v.push(r)) == rows(v).push(r@),
{
    assert(rows(v.push(r)) =~= rows(v).push(r@));
}

/// `find` succeeds exactly on the strings that contain the needle.
pub proof fn lemma_find_contains(s: Seq<char>, needle: Seq<char>)
    ensures
        find(s, needle) is Some <==> contains(s, needle),
{
    lemma_find_from(s, needle, 0);
}

/// The characters of `s`, in order.
pub fn chars_of(s: &str) -> (v: Vec<char>)
    ensures
        v@ == s@,
{
    let mut v: Vec<char> = Vec::new();
    for c in it: s.chars()
        invariant
            it.seq() == s@,
            v@ == s@.take(it.index() as int),
    {
        v.push(c);
    }
    v
}

/// The string made of the characters `v`.
pub fn string_of(v: &Vec<char>) -> (s: String)
    ensures
        s@ == v@,
{
    let mut s = String::new();
    let mut i: usize = 0;
    while i < v.len()
        invariant
            i <= v.len(),
            s@ == v@.take(i as int),
        decreases v.len() - i,
    {
        s.push(v[i]);
        i += 1;
    }
    s
}

/// A copy of `v`.
pub fn copy_chars(v: &Vec<char>) -> (out: Vec<char>)
    ensures
        out@ == v@,
{
    slice_of(v, 0, v.len())
}

/// The characters of `v` from index `from` up to, not including, `to`.
pub fn slice_of(v: &Vec<char>, from: usize, to: usize) -> (out: Vec<char>)
    requires
        from <= to <= v.len(),
    ensures
        out@ == v@.subrange(from as int, to as int),
{
    let mut out: Vec<char> = Vec::new();
    let mut i: usize = from;
    while i < to
        invariant
            from <= i <= to <= v.len(),
            out@ == v@.subrange(from as int, i as int),
        decreases to - i,
    {
        out.push(v[i]);
        i += 1;
    }
    out
}

/// Appends the characters `tail` to `out`.
pub fn append(out: &mut Vec<char>, tail: &Vec<char>)
    ensures
        final(out)@ == old(out)@ + tail@,
{
    let mut i: usize = 0;
    while i < tail.len()
        invariant
            i <= tail.len(),
            out@ == old(out)@ + tail@.take(i as int),
        decreases tail.len() - i,
    {
        out.push(tail[i]);
        i += 1;
    }
    proof {
        assert(tail@.take(tail.len() as int) =~= tail@);
    }
}

/// Appends the characters of `tail` to `out`.
pub fn append_str(out: &mut Vec<char>, tail: &str)
    ensures
        final(out)@ == old(out)@ + tail@,
{
    let t = chars_of(tail);
    append(out, &t);
}

/// Whether `a` and `b` hold the same characters.
pub fn same_chars(a: &Vec<char>, b: &Vec<char>) -> (r: bool)
    ensures
        r == (a@ == b@),
{
    if a.len() != b.len() {
        return false;
    }
    let mut i: usize = 0;
    while i < a.len()
        invariant
            i <= a.len(),
            a.len() == b.len(),
            a@.take(i as int) == b@.take(i as int),
        decreases a.len() - i,
    {
        if a[i] != b[i] {
            return false;
        }
        proof {
            assert(a@.take(i as int + 1) =~= a@.take(i as int).push(a@[i as int]));
            assert(b@.take(i as int + 1) =~= b@.take(i as int).push(b@[i as int]));
        }
        i += 1;
    }
    proof {
        assert(a@.take(a.len() as int) =~= a@);
        assert(b@.take(b.len() as int) =~= b@);
    }
    true
}

/// Whether `needle` occurs in `s` at index `i`.
pub fn occurs_at(s: &Vec<char>, i: usize, needle: &Vec<char>) -> (r: bool)
    ensures
        r == matches_at(s@, i as int, needle@),
{
    if i > s.len() || needle.len() > s.len() - i {
        return false;
    }
    let mut k: usize = 0;
    while k < needle.len()
        invariant
            k <= needle.len(),
            i + needle.len() <= s.len(),
            s@.subrange(i as int, i + k) == needle@.take(k as int),
        decreases needle.len() - k,
    {
        if s[i + k] != needle[k] {
            proof {
                assert(s@.subrange(i as int, i + needle.len())[k as int] != needle@[k as int]);
            }
            return false;
        }
        proof {
            assert(s@.subrange(i as int, i + k + 1) =~= s@.subrange(i as int, i + k).push(
                s@[i + k],
            ));
            assert(needle@.take(k as int + 1) =~= needle@.take(k as int).push(needle@[k as int]));
        }
        k += 1;
    }
    proof {
        assert(needle@.take(needle.len() as int) =~= needle@);
    }
    true
}

/// Whether `s` begins with `prefix`.
pub fn starts_with(s: &Vec<char>, prefix: &Vec<char>) -> (r: bool)
    ensures
        r == prefix@.is_prefix_of(s@),
{
    let r = occurs_at(s, 0, prefix);
    proof {
        if prefix@.len() <= s@.len() {
            assert(s@.subrange(0, 0 + prefix@.len() as int) =~= s@.subrange(0, prefix@.len() as int));
        }
    }
    r
}

/// Whether `s` ends with `suffix`.
pub fn ends_with(s: &Vec<char>, suffix: &Vec<char>) -> (r: bool)
    ensures
        r == suffix@.is_suffix_of(s@),
{
    if suffix.len() > s.len() {
        return false;
    }
    let start = s.len() - suffix.len();
    let r = occurs_at(s, start, suffix);
    proof {
        assert(s@.subrange(start as int, start + suffix@.len()) =~= s@.subrange(
            s@.len() - suffix@.len(),
            s@.len() as int,
        ));
    }
    r
}

/// The index of the first occurrence of `needle` in `s`, if there is one.
pub fn find_in(s: &Vec<char>, needle: &Vec<char>) -> (r: Option<usize>)
    ensures
        match r {
            Some(i) => find(s@, needle@) == Some(i as int) && matches_at(s@, i as int, needle@),
            None => find(s@, needle@) is None,
        },
{
    if needle.len() > s.len() {
        return None;
    }
    let last = s.len() - needle.len();
    let mut i: usize = 0;
    loop
        invariant
            i <= last,
            last == s.len() - needle.len(),
            find(s@, needle@) == find_from(s@, needle@, i as int),
        decreases last - i,
    {
        if occurs_at(s, i, needle) {
            return Some(i);
        }
        if i == last {
            proof {
                lemma_find_from(s@, needle@, i as int + 1);
                if find_from(s@, needle@, i as int + 1) is Some {
                    let j = find_from(s@, needle@, i as int + 1)->0;
                    assert(j + needle@.len() <= s@.len());
                }
            }
            return None;
        }
        i += 1;
    }
}

/// Whether `needle` occurs somewhere in `s`.
pub fn has_substring(s: &Vec<char>, needle: &Vec<char>) -> (r: bool)
    ensures
        r == contains(s@, needle@),
{
    proof {
        lemma_find_contains(s@, needle@);
    }
    find_in(s, needle).is_some()
}

} // verus!
