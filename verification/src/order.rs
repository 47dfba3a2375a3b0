//! Ordering of texts and a stable sort by key.
//!
//! Both listings are presented sorted: media by date, newest first, and
//! folders with the well-known media folders ahead of the others and by name
//! within each group. Either order is a comparison of keys made of a rank and
//! a text, and the sort keeps entries with equal keys in the order in which
//! they were listed.

use vstd::prelude::*;

verus! {

/// `a` comes before `b` in dictionary order, characters compared by code
/// point.
pub open spec fn text_less(a: Seq<char>, b: Seq<char>) -> bool
    decreases a.len(),
{
    if b.len() == 0 {
        false
    } else if a.len() == 0 {
        true
    } else if a[0] != b[0] {
        a[0] < b[0]
    } else {
        text_less(a.skip(1), b.skip(1))
    }
}

/// What an entry is sorted by.
pub struct Key {
    pub rank: int,
    pub text: Seq<char>,
}

/// A key with its text held as characters.
pub struct SortKey {
    pub rank: u8,
    pub text: Vec<char>,
}

impl View for SortKey {
    type V = Key;

    open spec fn view(&self) -> Key {
        Key { rank: self.rank as int, text: self.text@ }
    }
}

/// The views of a vector of keys.
pub open spec fn key_views(keys: Seq<SortKey>) -> Seq<Key> {
    keys.map_values(|k: SortKey| k@)
}

/// `a` is smaller than `b`: by rank, and by text where the ranks agree.
pub open spec fn key_less(a: Key, b: Key) -> bool {
    a.rank < b.rank || (a.rank == b.rank && text_less(a.text, b.text))
}

/// `a` must stand before `b` in the sorted result.
pub open spec fn precedes(a: Key, b: Key, descending: bool) -> bool {
    if descending {
        key_less(b, a)
    } else {
        key_less(a, b)
    }
}

/// `order` lists the indices of `keys` as a stable sort arranges them: each
/// index once, no key after one that it must precede, and keys of which
/// neither must precede the other in the order in which they came.
pub open spec fn is_stable_order(keys: Seq<Key>, order: Seq<int>, descending: bool) -> bool {
    &&& order.len() == keys.len()
    &&& forall|k: int| 0 <= k < order.len() ==> 0 <= #[trigger] order[k] < keys.len()
    &&& forall|i: int, j: int|
        0 <= i < j < order.len() ==> {
            ||| precedes(keys[#[trigger] order[i]], keys[#[trigger] order[j]], descending)
            ||| (!precedes(keys[order[j]], keys[order[i]], descending) && order[i] < order[j])
        }
}

/// The entries `items` in the order that `order` lists.
pub open spec fn arrange<T>(items: Seq<T>, order: Seq<int>) -> Seq<T> {
    Seq::new(order.len(), |k: int| items[order[k]])
}

/// The order `order` with the index `at` put in: behind the indices whose
/// keys must precede the key at `at`, and ahead of all others. The indices
/// of `order` are those of entries that came after the entry at `at`.
pub open spec fn placed(keys: Seq<Key>, order: Seq<int>, at: int, descending: bool) -> Seq<int>
    decreases order.len(),
{
    if order.len() == 0 || !precedes(keys[order[0]], keys[at], descending) {
        seq![at] + order
    } else {
        seq![order[0]] + placed(keys, order.skip(1), at, descending)
    }
}

/// The indices from `from` on, as a stable sort arranges them.
pub open spec fn stable_order_from(keys: Seq<Key>, from: int, descending: bool) -> Seq<int>
    decreases keys.len() - from,
{
    if from < 0 || from >= keys.len() {
        Seq::empty()
    } else {
        placed(keys, stable_order_from(keys, from + 1, descending), from, descending)
    }
}

/// The indices of `keys` as a stable sort arranges them.
pub open spec fn stable_order(keys: Seq<Key>, descending: bool) -> Seq<int> {
    stable_order_from(keys, 0, descending)
}

/// An index is put in at `p` where the keys of the `p` indices before must
/// precede its key and the key of the index at `p` need not.
pub proof fn lemma_placed_at(keys: Seq<Key>, order: Seq<int>, at: int, descending: bool, p: int)
    requires
        0 <= p <= order.len(),
        forall|i: int| 0 <= i < p ==> precedes(keys[#[trigger] order[i]], keys[at], descending),
        p < order.len() ==> !precedes(keys[order[p]], keys[at], descending),
    ensures
        placed(keys, order, at, descending) == order.insert(p, at),
    decreases p,
{
    if p == 0 {
        assert(order.insert(0, at) =~= seq![at] + order);
    } else {
        let rest = order.skip(1);
        assert(precedes(keys[order[0]], keys[at], descending));
        assert forall|i: int| 0 <= i < p - 1 implies precedes(
            keys[#[trigger] rest[i]],
            keys[at],
            descending,
        ) by {
            assert(rest[i] == order[i + 1]);
        }
        if p < order.len() {
            assert(rest[p - 1] == order[p]);
        }
        lemma_placed_at(keys, rest, at, descending, p - 1);
        assert(order.insert(p, at) =~= seq![order[0]] + rest.insert(p - 1, at));
    }
}

/// Dictionary order is asymmetric.
pub proof fn lemma_text_less_asymmetric(a: Seq<char>, b: Seq<char>)
    requires
        text_less(a, b),
    ensures
        !text_less(b, a),
    decreases a.len(),
{
    if a.len() > 0 && b.len() > 0 && a[0] == b[0] {
        lemma_text_less_asymmetric(a.skip(1), b.skip(1));
    }
}

/// If `a` is before `b` and `c` is not, then `a` is before `c`.
pub proof fn lemma_text_less_left(a: Seq<char>, b: Seq<char>, c: Seq<char>)
    requires
        text_less(a, b),
        !text_less(c, b),
    ensures
        text_less(a, c),
    decreases a.len(),
{
    if a.len() > 0 && b.len() > 0 && c.len() > 0 && a[0] == b[0] && c[0] == b[0] {
        lemma_text_less_left(a.skip(1), b.skip(1), c.skip(1));
    }
}

/// If `b` is after `a` and `c` is not, then `c` is before `b`.
pub proof fn lemma_text_less_right(a: Seq<char>, b: Seq<char>, c: Seq<char>)
    requires
        text_less(a, b),
        !text_less(a, c),
    ensures
        text_less(c, b),
    decreases a.len(),
{
    if a.len() > 0 && b.len() > 0 && c.len() > 0 && a[0] == b[0] && c[0] == a[0] {
        lemma_text_less_right(a.skip(1), b.skip(1), c.skip(1));
    }
}

/// No two keys must each precede the other.
pub proof fn lemma_precedes_asymmetric(a: Key, b: Key, descending: bool)
    requires
        precedes(a, b, descending),
    ensures
        !precedes(b, a, descending),
{
    if a.rank == b.rank {
        if descending {
            lemma_text_less_asymmetric(b.text, a.text);
        } else {
            lemma_text_less_asymmetric(a.text, b.text);
        }
    }
}

/// If `a` must precede `b` and `c` need not, then `a` must precede `c`.
pub proof fn lemma_precedes_left(a: Key, b: Key, c: Key, descending: bool)
    requires
        precedes(a, b, descending),
        !precedes(c, b, descending),
    ensures
        precedes(a, c, descending),
{
    if descending {
        if b.rank == a.rank && c.rank == b.rank {
            lemma_text_less_right(b.text, a.text, c.text);
        }
    } else {
        if a.rank == b.rank && c.rank == b.rank {
            lemma_text_less_left(a.text, b.text, c.text);
        }
    }
}

/// Whether `a` comes before `b` in dictionary order.
pub fn text_before(a: &Vec<char>, b: &Vec<char>) -> (r: bool)
    ensures
        r == text_less(a@, b@),
{
    let mut i: usize = 0;
    proof {
        assert(a@.skip(0) =~= a@);
        assert(b@.skip(0) =~= b@);
    }
    while i < a.len() && i < b.len()
        invariant
            i <= a.len(),
            i <= b.len(),
            text_less(a@, b@) == text_less(a@.skip(i as int), b@.skip(i as int)),
        decreases a.len() - i,
    {
        if a[i] != b[i] {
            return a[i] < b[i];
        }
        proof {
            assert(a@.skip(i as int).skip(1) =~= a@.skip(i + 1));
            assert(b@.skip(i as int).skip(1) =~= b@.skip(i + 1));
        }
        i += 1;
    }
    i < b.len()
}

/// Whether `a` must stand before `b` in the sorted result.
pub fn key_precedes(a: &SortKey, b: &SortKey, descending: bool) -> (r: bool)
    ensures
        r == precedes(a@, b@, descending),
{
    if descending {
        b.rank < a.rank || (b.rank == a.rank && text_before(&b.text, &a.text))
    } else {
        a.rank < b.rank || (a.rank == b.rank && text_before(&a.text, &b.text))
    }
}

/// Sorts `items` by the key that stands at the same index in `keys`. The sort
/// is stable: entries of which neither key must precede the other stay in the
/// order in which they came.
pub fn sort_by_keys<T>(items: Vec<T>, keys: Vec<SortKey>, descending: bool) -> (out: Vec<T>)
    requires
        items.len() == keys.len(),
    ensures
        out@ == arrange(items@, stable_order(key_views(keys@), descending)),
        is_stable_order(
            key_views(keys@),
            stable_order(key_views(keys@), descending),
            descending,
        ),
{
    let ghost items0 = items@;
    let ghost keys0 = key_views(keys@);
    let mut items = items;
    let mut keys = keys;
    let mut out: Vec<T> = Vec::new();
    let mut out_keys: Vec<SortKey> = Vec::new();
    let ghost mut order: Seq<int> = Seq::empty();
    proof {
        assert(key_views(keys@).take(keys.len() as int) =~= keys0);
    }
    while keys.len() > 0
        invariant
            items.len() == keys.len(),
            keys0.len() == items0.len(),
            keys.len() <= keys0.len(),
            items@ == items0.take(keys.len() as int),
            key_views(keys@) == keys0.take(keys.len() as int),
            out.len() == order.len(),
            out_keys.len() == order.len(),
            order.len() == keys0.len() - keys.len(),
            order == stable_order_from(keys0, keys.len() as int, descending),
            forall|k: int| 0 <= k < order.len() ==> keys.len() <= #[trigger] order[k] < keys0.len(),
            forall|k: int| 0 <= k < order.len() ==> out_keys@[k]@ == keys0[#[trigger] order[k]],
            forall|k: int| 0 <= k < order.len() ==> out@[k] == items0[#[trigger] order[k]],
            forall|i: int, j: int|
                0 <= i < j < order.len() ==> {
                    ||| precedes(keys0[#[trigger] order[i]], keys0[#[trigger] order[j]], descending)
                    ||| (!precedes(keys0[order[j]], keys0[order[i]], descending) && order[i]
                        < order[j])
                },
        decreases keys.len(),
    {
        let ghost m = keys.len() - 1;
        let ghost old_keys = keys@;
        let ghost old_order = order;
        let ghost old_out = out@;
        let ghost old_out_keys = out_keys@;
        let key = keys.pop().unwrap();
        let item = items.pop().unwrap();
        proof {
            assert(key_views(old_keys)[m] == key@);
            assert(keys0.take(m + 1)[m] == keys0[m]);
            assert(key@ == keys0[m]);
            assert(item == items0[m]);
            assert(items@ =~= items0.take(m));
            assert(key_views(keys@) =~= keys0.take(m));
        }
        let mut p: usize = 0;
        while p < out_keys.len() && key_precedes(&out_keys[p], &key, descending)
            invariant
                p <= out_keys.len(),
                out_keys.len() == order.len(),
                key@ == keys0[m],
                0 <= m < keys0.len(),
                forall|k: int| 0 <= k < order.len() ==> 0 <= #[trigger] order[k] < keys0.len(),
                forall|k: int|
                    0 <= k < order.len() ==> out_keys@[k]@ == keys0[#[trigger] order[k]],
                forall|i: int| 0 <= i < p ==> precedes(keys0[#[trigger] order[i]], keys0[m], descending),
            decreases out_keys.len() - p,
        {
            p += 1;
        }
        out_keys.insert(p, key);
        out.insert(p, item);
        proof {
            order = old_order.insert(p as int, m);
            lemma_placed_at(keys0, old_order, m, descending, p as int);
            assert forall|j: int| p <= j < old_order.len() implies !precedes(
                keys0[#[trigger] old_order[j]],
                keys0[m],
                descending,
            ) by {
                assert(!precedes(keys0[old_order[p as int]], keys0[m], descending));
                if j > p {
                    if precedes(keys0[old_order[j]], keys0[m], descending) {
                        lemma_precedes_left(
                            keys0[old_order[j]],
                            keys0[m],
                            keys0[old_order[p as int]],
                            descending,
                        );
                        if precedes(keys0[old_order[p as int]], keys0[old_order[j]], descending) {
                            lemma_precedes_asymmetric(
                                keys0[old_order[p as int]],
                                keys0[old_order[j]],
                                descending,
                            );
                        }
                    }
                }
            }
            assert forall|k: int| 0 <= k < order.len() implies keys.len() <= #[trigger] order[k]
                < keys0.len() by {
                if k < p {
                    assert(order[k] == old_order[k]);
                } else if k > p {
                    assert(order[k] == old_order[k - 1]);
                }
            }
            assert forall|k: int| 0 <= k < order.len() implies out_keys@[k]@
                == keys0[#[trigger] order[k]] by {
                if k < p {
                    assert(order[k] == old_order[k]);
                    assert(out_keys@[k] == old_out_keys[k]);
                } else if k > p {
                    assert(order[k] == old_order[k - 1]);
                    assert(out_keys@[k] == old_out_keys[k - 1]);
                }
            }
            assert forall|k: int| 0 <= k < order.len() implies out@[k]
                == items0[#[trigger] order[k]] by {
                if k < p {
                    assert(order[k] == old_order[k]);
                    assert(out@[k] == old_out[k]);
                } else if k > p {
                    assert(order[k] == old_order[k - 1]);
                    assert(out@[k] == old_out[k - 1]);
                }
            }
            assert forall|i: int, j: int| 0 <= i < j < order.len() implies {
                ||| precedes(keys0[#[trigger] order[i]], keys0[#[trigger] order[j]], descending)
                ||| (!precedes(keys0[order[j]], keys0[order[i]], descending) && order[i]
                    < order[j])
            } by {
                let oi = if i < p {
                    i
                } else {
                    i - 1
                };
                let oj = if j < p {
                    j
                } else {
                    j - 1
                };
                if i == p {
                    assert(order[i] == m);
                    assert(order[j] == old_order[j - 1]);
                    assert(!precedes(keys0[old_order[j - 1]], keys0[m], descending));
                    assert(old_order[j - 1] > m);
                } else if j == p {
                    assert(order[j] == m);
                    assert(order[i] == old_order[i]);
                } else {
                    assert(order[i] == old_order[oi]);
                    assert(order[j] == old_order[oj]);
                    assert(0 <= oi < oj < old_order.len());
                }
            }
        }
    }
    proof {
        assert(keys0.take(0) =~= Seq::<Key>::empty());
        assert(out@ =~= arrange(items0, order));
        assert(is_stable_order(keys0, order, descending));
    }
    out
}

} // verus!
