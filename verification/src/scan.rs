//! Trimming, replacing, and splitting text into lines and tokens.

use crate::text::{
    append, find, find_from, lemma_find_from, lemma_rows_push, matches_at, occurs_at, rows,
    slice_of, white_space,
};
use vstd::prelude::*;

verus! {

/// `s` with every occurrence of `from` replaced by `to`, found from left to
/// right without overlap. An empty `from` leaves `s` as it is.
pub open spec fn replace_all(s: Seq<char>, from: Seq<char>, to: Seq<char>) -> Seq<char>
    decreases s.len(),
{
    if from.len() == 0 || s.len() < from.len() {
        s
    } else if from.is_prefix_of(s) {
        to + replace_all(s.skip(from.len() as int), from, to)
    } else {
        seq![s[0]] + replace_all(s.skip(1), from, to)
    }
}

/// `s` without its leading run of the character `c`.
pub open spec fn trim_start_matches(s: Seq<char>, c: char) -> Seq<char>
    decreases s.len(),
{
    if s.len() > 0 && s[0] == c {
        trim_start_matches(s.skip(1), c)
    } else {
        s
    }
}

/// `s` without its trailing run of the character `c`.
pub open spec fn trim_end_matches(s: Seq<char>, c: char) -> Seq<char>
    decreases s.len(),
{
    if s.len() > 0 && s.last() == c {
        trim_end_matches(s.drop_last(), c)
    } else {
        s
    }
}

/// `s` without its leading white space.
pub open spec fn trim_start(s: Seq<char>) -> Seq<char>
    decreases s.len(),
{
    if s.len() > 0 && white_space(s[0]) {
        trim_start(s.skip(1))
    } else {
        s
    }
}

/// `s` without its trailing white space.
pub open spec fn trim_end(s: Seq<char>) -> Seq<char>
    decreases s.len(),
{
    if s.len() > 0 && white_space(s.last()) {
        trim_end(s.drop_last())
    } else {
        s
    }
}

/// `s` without leading and trailing white space.
pub open spec fn trim(s: Seq<char>) -> Seq<char> {
    trim_end(trim_start(s))
}

/// The length of the run of characters that are not white space with which
/// `s` begins.
pub open spec fn run_length(s: Seq<char>) -> nat
    decreases s.len(),
{
    if s.len() == 0 || white_space(s[0]) {
        0
    } else {
        1 + run_length(s.skip(1))
    }
}

/// The maximal runs of characters of `s` that are not white space, in order.
pub open spec fn split_whitespace(s: Seq<char>) -> Seq<Seq<char>>
    decreases s.len(),
{
    if s.len() == 0 {
        Seq::empty()
    } else if white_space(s[0]) {
        split_whitespace(s.skip(1))
    } else {
        let n = run_length(s) as int;
        if 0 < n <= s.len() {
            seq![s.take(n)] + split_whitespace(s.skip(n))
        } else {
            seq![s]
        }
    }
}

/// A line without the carriage return that ended it, if one did.
pub open spec fn strip_carriage_return(line: Seq<char>) -> Seq<char> {
    if line.len() > 0 && line.last() == '\r' {
        line.drop_last()
    } else {
        line
    }
}

/// The lines of `s`. A line ends at a line feed, or at a carriage return
/// directly followed by a line feed; neither belongs to the line. Text after
/// the last line feed is a line of its own unless it is empty.
pub open spec fn lines(s: Seq<char>) -> Seq<Seq<char>>
    decreases s.len(),
{
    if s.len() == 0 {
        Seq::empty()
    } else {
        match find(s, seq!['\n']) {
            Some(at) => if 0 <= at < s.len() {
                seq![strip_carriage_return(s.take(at))] + lines(s.skip(at + 1))
            } else {
                seq![s]
            },
            None => seq![s],
        }
    }
}

/// The parts joined, with `separator` between each two neighbours.
pub open spec fn join(parts: Seq<Seq<char>>, separator: Seq<char>) -> Seq<char>
    decreases parts.len(),
{
    if parts.len() == 0 {
        Seq::empty()
    } else if parts.len() == 1 {
        parts[0]
    } else {
        join(parts.drop_last(), separator) + separator + parts.last()
    }
}

/// `t` is not empty and holds no white space.
pub open spec fn is_solid(t: Seq<char>) -> bool {
    t.len() > 0 && forall|j: int| 0 <= j < t.len() ==> !white_space(#[trigger] t[j])
}

/// The run with which `s` begins lies in `s`, holds no white space, and
/// ends at white space or at the end of `s`.
pub proof fn lemma_run_length(s: Seq<char>)
    ensures
        run_length(s) <= s.len(),
        forall|j: int| 0 <= j < run_length(s) ==> !white_space(#[trigger] s[j]),
        run_length(s) < s.len() ==> white_space(s[run_length(s) as int]),
        s.len() > 0 && !white_space(s[0]) ==> run_length(s) > 0,
    decreases s.len(),
{
    if s.len() > 0 && !white_space(s[0]) {
        let rest = s.skip(1);
        lemma_run_length(rest);
        assert forall|j: int| 0 <= j < run_length(s) implies !white_space(#[trigger] s[j]) by {
            if j > 0 {
                assert(rest[j - 1] == s[j]);
            }
        }
        if run_length(s) < s.len() {
            assert(rest[run_length(rest) as int] == s[run_length(s) as int]);
        }
    }
}

/// No token holds white space, and none is empty.
pub proof fn lemma_tokens_are_solid(s: Seq<char>)
    ensures
        forall|k: int|
            0 <= k < split_whitespace(s).len() ==> is_solid(#[trigger] split_whitespace(s)[k]),
    decreases s.len(),
{
    if s.len() == 0 {
    } else if white_space(s[0]) {
        lemma_tokens_are_solid(s.skip(1));
        assert(split_whitespace(s) == split_whitespace(s.skip(1)));
    } else {
        lemma_run_length(s);
        let n = run_length(s) as int;
        let first = s.take(n);
        let rest = split_whitespace(s.skip(n));
        lemma_tokens_are_solid(s.skip(n));
        assert(split_whitespace(s) == seq![first] + rest);
        assert(is_solid(first)) by {
            assert forall|j: int| 0 <= j < first.len() implies !white_space(
                #[trigger] first[j],
            ) by {
                assert(first[j] == s[j]);
            }
        }
        assert forall|k: int| 0 <= k < split_whitespace(s).len() implies is_solid(
            #[trigger] split_whitespace(s)[k],
        ) by {
            if k == 0 {
                assert(split_whitespace(s)[0] == first);
            } else {
                assert(split_whitespace(s)[k] == rest[k - 1]);
            }
        }
    }
}

/// The first occurrence of `c` in `s` is at `at`, where `c` stands at `at`
/// and nowhere before.
pub proof fn lemma_first_char(s: Seq<char>, c: char, at: int)
    requires
        0 <= at < s.len(),
        s[at] == c,
        forall|j: int| 0 <= j < at ==> s[j] != c,
    ensures
        find(s, seq![c]) == Some(at),
{
    lemma_find_from(s, seq![c], 0);
    assert(s.subrange(at, at + 1) =~= seq![c]);
    assert(matches_at(s, at, seq![c]));
    match find_from(s, seq![c], 0) {
        Some(i) => {
            assert(s.subrange(i, i + 1)[0] == s[i]);
        },
        None => {},
    }
}

/// `c` does not occur in `s` where it stands nowhere in `s`.
pub proof fn lemma_no_char(s: Seq<char>, c: char)
    requires
        forall|j: int| 0 <= j < s.len() ==> s[j] != c,
    ensures
        find(s, seq![c]) is None,
{
    lemma_find_from(s, seq![c], 0);
    match find_from(s, seq![c], 0) {
        Some(i) => {
            assert(s.subrange(i, i + 1)[0] == s[i]);
        },
        None => {},
    }
}

/// `s` with every occurrence of `from` replaced by `to`.
pub fn replace(s: &Vec<char>, from: &Vec<char>, to: &Vec<char>) -> (out: Vec<char>)
    ensures
        out@ == replace_all(s@, from@, to@),
{
    if from.len() == 0 {
        return slice_of(s, 0, s.len());
    }
    let mut out: Vec<char> = Vec::new();
    let mut i: usize = 0;
    proof {
        assert(s@.skip(0) =~= s@);
        assert(out@ + replace_all(s@, from@, to@) =~= replace_all(s@, from@, to@));
    }
    while i < s.len()
        invariant
            i <= s.len(),
            from@.len() > 0,
            replace_all(s@, from@, to@) == out@ + replace_all(s@.skip(i as int), from@, to@),
        decreases s.len() - i,
    {
        let ghost rest = s@.skip(i as int);
        let ghost before = out@;
        if occurs_at(s, i, from) {
            proof {
                assert(rest.subrange(0, from@.len() as int) =~= s@.subrange(
                    i as int,
                    i + from@.len(),
                ));
                assert(from@.is_prefix_of(rest));
                assert(rest.skip(from@.len() as int) =~= s@.skip(i + from@.len()));
            }
            append(&mut out, to);
            i += from.len();
            proof {
                assert(before + (to@ + replace_all(s@.skip(i as int), from@, to@)) =~= out@
                    + replace_all(s@.skip(i as int), from@, to@));
            }
        } else {
            proof {
                if rest.len() >= from@.len() {
                    assert(rest.subrange(0, from@.len() as int) =~= s@.subrange(
                        i as int,
                        i + from@.len(),
                    ));
                    assert(!from@.is_prefix_of(rest));
                    assert(rest.skip(1) =~= s@.skip(i + 1));
                    assert(before + (seq![rest[0]] + replace_all(rest.skip(1), from@, to@))
                        =~= before.push(s@[i as int]) + replace_all(
                        s@.skip(i + 1),
                        from@,
                        to@,
                    ));
                } else {
                    lemma_replace_short(rest, from@, to@);
                    lemma_replace_short(s@.skip(i + 1), from@, to@);
                    assert(before + rest =~= before.push(s@[i as int]) + s@.skip(i + 1));
                }
            }
            out.push(s[i]);
            i += 1;
        }
    }
    proof {
        assert(s@.skip(s.len() as int) =~= Seq::<char>::empty());
        assert(out@ + Seq::<char>::empty() =~= out@);
    }
    out
}

/// A text shorter than the needle holds no occurrence of it.
pub proof fn lemma_replace_short(s: Seq<char>, from: Seq<char>, to: Seq<char>)
    requires
        s.len() < from.len(),
    ensures
        replace_all(s, from, to) == s,
{
}

/// `s` without its leading run of `c`.
pub fn strip_leading(s: &Vec<char>, c: char) -> (out: Vec<char>)
    ensures
        out@ == trim_start_matches(s@, c),
{
    let mut i: usize = 0;
    proof {
        assert(s@.skip(0) =~= s@);
    }
    while i < s.len() && s[i] == c
        invariant
            i <= s.len(),
            trim_start_matches(s@, c) == trim_start_matches(s@.skip(i as int), c),
        decreases s.len() - i,
    {
        proof {
            assert(s@.skip(i as int).skip(1) =~= s@.skip(i + 1));
        }
        i += 1;
    }
    slice_of(s, i, s.len())
}

/// `s` without its trailing run of `c`.
pub fn strip_trailing(s: &Vec<char>, c: char) -> (out: Vec<char>)
    ensures
        out@ == trim_end_matches(s@, c),
{
    let mut n: usize = s.len();
    proof {
        assert(s@.take(n as int) =~= s@);
    }
    while n > 0 && s[n - 1] == c
        invariant
            n <= s.len(),
            trim_end_matches(s@, c) == trim_end_matches(s@.take(n as int), c),
        decreases n,
    {
        proof {
            assert(s@.take(n as int).drop_last() =~= s@.take(n - 1));
        }
        n -= 1;
    }
    proof {
        assert(s@.take(n as int) =~= s@.subrange(0, n as int));
    }
    slice_of(s, 0, n)
}

/// `s` without leading and trailing white space.
pub fn trimmed(s: &Vec<char>) -> (out: Vec<char>)
    ensures
        out@ == trim(s@),
{
    let mut i: usize = 0;
    proof {
        assert(s@.skip(0) =~= s@);
    }
    while i < s.len() && s[i].is_whitespace()
        invariant
            i <= s.len(),
            trim_start(s@) == trim_start(s@.skip(i as int)),
        decreases s.len() - i,
    {
        proof {
            assert(s@.skip(i as int).skip(1) =~= s@.skip(i + 1));
        }
        i += 1;
    }
    let mut n: usize = s.len();
    proof {
        assert(s@.skip(i as int) =~= s@.subrange(i as int, n as int));
    }
    while n > i && s[n - 1].is_whitespace()
        invariant
            i <= n <= s.len(),
            trim(s@) == trim_end(s@.subrange(i as int, n as int)),
        decreases n,
    {
        proof {
            assert(s@.subrange(i as int, n as int).drop_last() =~= s@.subrange(i as int, n - 1));
        }
        n -= 1;
    }
    slice_of(s, i, n)
}

/// The tokens of `s`: its maximal runs of characters that are not white space.
pub fn tokens(s: &Vec<char>) -> (out: Vec<Vec<char>>)
    ensures
        rows(out@) == split_whitespace(s@),
{
    let mut out: Vec<Vec<char>> = Vec::new();
    let mut i: usize = 0;
    proof {
        assert(s@.skip(0) =~= s@);
        assert(rows(out@) + split_whitespace(s@) =~= split_whitespace(s@));
    }
    while i < s.len()
        invariant
            i <= s.len(),
            split_whitespace(s@) == rows(out@) + split_whitespace(s@.skip(i as int)),
        decreases s.len() - i,
    {
        let ghost rest = s@.skip(i as int);
        if s[i].is_whitespace() {
            proof {
                assert(rest.skip(1) =~= s@.skip(i + 1));
            }
            i += 1;
        } else {
            let mut j: usize = i;
            proof {
                assert(s@.skip(i as int) =~= rest);
            }
            while j < s.len() && !s[j].is_whitespace()
                invariant
                    i <= j <= s.len(),
                    rest == s@.skip(i as int),
                    run_length(rest) == (j - i) + run_length(s@.skip(j as int)),
                decreases s.len() - j,
            {
                proof {
                    assert(s@.skip(j as int).skip(1) =~= s@.skip(j + 1));
                }
                j += 1;
            }
            let token = slice_of(s, i, j);
            proof {
                lemma_run_length(rest);
                assert(run_length(s@.skip(j as int)) == 0);
                assert(token@ =~= rest.take(j - i));
                assert(rest.skip(j - i) =~= s@.skip(j as int));
                lemma_rows_push(out@, token);
                assert(rows(out@) + (seq![token@] + split_whitespace(s@.skip(j as int)))
                    =~= rows(out@).push(token@) + split_whitespace(s@.skip(j as int)));
            }
            out.push(token);
            i = j;
        }
    }
    proof {
        assert(s@.skip(s.len() as int) =~= Seq::<char>::empty());
        assert(rows(out@) + Seq::<Seq<char>>::empty() =~= rows(out@));
    }
    out
}

/// The lines of `s`.
pub fn split_lines(s: &Vec<char>) -> (out: Vec<Vec<char>>)
    ensures
        rows(out@) == lines(s@),
{
    let mut out: Vec<Vec<char>> = Vec::new();
    let mut start: usize = 0;
    let mut i: usize = 0;
    proof {
        assert(s@.skip(0) =~= s@);
        assert(rows(out@) + lines(s@) =~= lines(s@));
    }
    while i < s.len()
        invariant
            start <= i <= s.len(),
            lines(s@) == rows(out@) + lines(s@.skip(start as int)),
            forall|j: int| start <= j < i ==> s@[j] != '\n',
        decreases s.len() - i,
    {
        if s[i] == '\n' {
            let end: usize = if i > start && s[i - 1] == '\r' {
                i - 1
            } else {
                i
            };
            let line = slice_of(s, start, end);
            proof {
                let rest = s@.skip(start as int);
                lemma_first_char(rest, '\n', i - start);
                assert(rest.take(i - start) =~= s@.subrange(start as int, i as int));
                assert(line@ =~= strip_carriage_return(rest.take(i - start)));
                assert(rest.skip(i - start + 1) =~= s@.skip(i + 1));
                lemma_rows_push(out@, line);
                assert(rows(out@) + (seq![line@] + lines(s@.skip(i + 1))) =~= rows(out@).push(
                    line@,
                ) + lines(s@.skip(i + 1)));
            }
            out.push(line);
            start = i + 1;
        }
        i += 1;
    }
    if start < s.len() {
        let line = slice_of(s, start, s.len());
        proof {
            let rest = s@.skip(start as int);
            lemma_no_char(rest, '\n');
            assert(line@ =~= rest);
            lemma_rows_push(out@, line);
            assert(rows(out@) + seq![rest] =~= rows(out@).push(line@));
        }
        out.push(line);
    } else {
        proof {
            assert(s@.skip(start as int) =~= Seq::<char>::empty());
            assert(rows(out@) + Seq::<Seq<char>>::empty() =~= rows(out@));
        }
    }
    out
}

/// The parts from index `from` on, joined with single spaces.
pub fn join_from(parts: &Vec<Vec<char>>, from: usize) -> (out: Vec<char>)
    requires
        from <= parts.len(),
    ensures
        out@ == join(rows(parts@).skip(from as int), seq![' ']),
{
    let mut out: Vec<char> = Vec::new();
    let mut i: usize = from;
    let ghost all = rows(parts@).skip(from as int);
    while i < parts.len()
        invariant
            from <= i <= parts.len(),
            all == rows(parts@).skip(from as int),
            out@ == join(all.take(i - from), seq![' ']),
        decreases parts.len() - i,
    {
        proof {
            assert(all.take(i - from + 1).drop_last() =~= all.take(i - from));
            assert(all.take(i - from + 1).last() == parts@[i as int]@);
        }
        if i > from {
            out.push(' ');
            proof {
                assert(join(all.take(i - from), seq![' ']) + seq![' '] =~= join(
                    all.take(i - from),
                    seq![' '],
                ).push(' '));
            }
        } else {
            proof {
                assert(out@ + parts@[i as int]@ =~= parts@[i as int]@);
            }
        }
        append(&mut out, &parts[i]);
        i += 1;
    }
    proof {
        assert(all.take(parts.len() - from) =~= all);
    }
    out
}

} // verus!
