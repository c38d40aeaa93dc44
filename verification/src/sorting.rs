//! Sorting of a directory listing: the arrangement of its entries under a
//! sort key.
//!
//! Entries that the key does not tell apart keep the order in which they
//! were given.

use vstd::prelude::*;
use crate::display::{
    entry_order, entry_order_of, kind_order, lemma_text_order_flips, lemma_text_order_same,
    number_order, text_order, ListedEntry, Order, SortBy,
};

verus! {

/// Whether the entry at position `x` stands before the one at position `y`
/// once sorted: the key puts it first, or the key is indifferent and it
/// came first.
pub open spec fn stands_before(entries: Seq<ListedEntry>, by: SortBy, x: int, y: int) -> bool {
    let o = entry_order_of(entries[x], entries[y], by);
    o == Order::Before || (o == Order::Same && x < y)
}

/// Whether position `x` occurs in `r`.
pub open spec fn occurs(r: Seq<usize>, x: int) -> bool {
    exists|i: int| 0 <= i < r.len() && #[trigger] r[i] == x
}

/// Whether `r` arranges the positions below `n`: it holds each of them
/// once and nothing else.
pub open spec fn is_arrangement(r: Seq<usize>, n: int) -> bool {
    &&& r.len() == n
    &&& forall|i: int| 0 <= i < r.len() ==> (#[trigger] r[i]) < n
    &&& forall|i: int, j: int| 0 <= i < j < r.len() ==> r[i] != r[j]
    &&& forall|x: int| 0 <= x < n ==> occurs(r, x)
}

/// Whether `r` is the sorted arrangement of `entries`: an arrangement of
/// their positions in which each entry stands before all that follow.
pub open spec fn is_sorted_arrangement(entries: Seq<ListedEntry>, by: SortBy, r: Seq<usize>) -> bool {
    &&& is_arrangement(r, entries.len() as int)
    &&& forall|i: int, j: int|
        0 <= i < j < r.len() ==> stands_before(entries, by, r[i] as int, r[j] as int)
}

/// Of texts that follow one another, the first comes before the last.
pub proof fn lemma_text_order_chains(a: Seq<char>, b: Seq<char>, c: Seq<char>)
    requires
        text_order(a, b) == Order::Before,
        text_order(b, c) == Order::Before,
    ensures
        text_order(a, c) == Order::Before,
    decreases a.len(),
{
    if a.len() > 0 && b.len() > 0 && c.len() > 0 {
        if a[0] == b[0] && b[0] == c[0] {
            lemma_text_order_chains(a.drop_first(), b.drop_first(), c.drop_first());
        }
    }
}

/// The order of texts is transitive: what is not after its successor, which
/// is not after a third, is not after the third; and it is in the same
/// place as the third only if all three are.
pub proof fn lemma_text_order_transitive(a: Seq<char>, b: Seq<char>, c: Seq<char>)
    requires
        text_order(a, b) != Order::After,
        text_order(b, c) != Order::After,
    ensures
        text_order(a, c) != Order::After,
        text_order(a, c) == Order::Same ==> text_order(a, b) == Order::Same && text_order(b, c)
            == Order::Same,
{
    lemma_text_order_same(a, b);
    lemma_text_order_same(b, c);
    lemma_text_order_same(a, c);
    if text_order(a, b) == Order::Before && text_order(b, c) == Order::Before {
        lemma_text_order_chains(a, b, c);
    }
}

/// Swapping two entries swaps before and after under every key.
pub proof fn lemma_entry_order_flips(a: ListedEntry, b: ListedEntry, by: SortBy)
    ensures
        entry_order_of(a, b, by) == Order::After <==> entry_order_of(b, a, by) == Order::Before,
{
    lemma_text_order_flips(b.name@, a.name@);
}

/// The order of entries under a key is transitive.
pub proof fn lemma_entry_order_transitive(a: ListedEntry, b: ListedEntry, c: ListedEntry, by: SortBy)
    requires
        entry_order_of(a, b, by) != Order::After,
        entry_order_of(b, c, by) != Order::After,
    ensures
        entry_order_of(a, c, by) != Order::After,
        entry_order_of(a, c, by) == Order::Same ==> entry_order_of(a, b, by) == Order::Same
            && entry_order_of(b, c, by) == Order::Same,
{
    match by {
        SortBy::Name => {
            lemma_text_order_transitive(a.name@, b.name@, c.name@);
        },
        SortBy::Size => {},
        SortBy::Modified => {},
        SortBy::Type => {
            if a.is_dir == b.is_dir && b.is_dir == c.is_dir {
                lemma_text_order_transitive(a.name@, b.name@, c.name@);
            }
        },
    }
}

/// Standing before is transitive.
pub proof fn lemma_stands_before_transitive(
    entries: Seq<ListedEntry>,
    by: SortBy,
    x: int,
    y: int,
    z: int,
)
    requires
        stands_before(entries, by, x, y),
        stands_before(entries, by, y, z),
    ensures
        stands_before(entries, by, x, z),
{
    lemma_entry_order_transitive(entries[x], entries[y], entries[z], by);
}

/// Arranges the entries under a sort key: the positions of the entries in
/// sorted order. Entries that the key does not tell apart stay in the
/// order given.
pub fn sorted_positions(entries: &Vec<ListedEntry>, by: SortBy) -> (r: Vec<usize>)
    ensures
        is_sorted_arrangement(entries@, by, r@),
{
    let n: usize = entries.len();
    let mut r: Vec<usize> = Vec::new();
    let mut k: usize = 0;
    while k < n
        invariant
            k <= n,
            n == entries.len(),
            is_arrangement(r@, k as int),
            forall|i: int, j: int|
                0 <= i < j < r@.len() ==> stands_before(entries@, by, r@[i] as int, r@[j] as int),
        decreases n - k,
    {
        let mut p: usize = k;
        while p > 0 && entry_order(&entries[r[p - 1]], &entries[k], by) == Order::After
            invariant
                p <= k,
                k < n,
                n == entries.len(),
                is_arrangement(r@, k as int),
                forall|j: int|
                    p <= j < k ==> entry_order_of(entries@[r@[j] as int], entries@[k as int], by)
                        == Order::After,
            decreases p,
        {
            p = p - 1;
        }
        let ghost before = r@;
        r.insert(p, k);
        proof {
            assert forall|i: int, j: int| 0 <= i < j < r@.len() implies stands_before(
                entries@,
                by,
                r@[i] as int,
                r@[j] as int,
            ) by {
                if j < p {
                    assert(r@[i] == before[i] && r@[j] == before[j]);
                } else if j == p {
                    assert(r@[i] == before[i]);
                    assert(before[p - 1] < k);
                    assert(stands_before(entries@, by, before[p - 1] as int, k as int));
                    if i < p - 1 {
                        lemma_stands_before_transitive(
                            entries@,
                            by,
                            before[i] as int,
                            before[p - 1] as int,
                            k as int,
                        );
                    }
                } else if i == p {
                    assert(r@[j] == before[j - 1]);
                    lemma_entry_order_flips(entries@[before[j - 1] as int], entries@[k as int], by);
                } else if i < p {
                    assert(r@[i] == before[i] && r@[j] == before[j - 1]);
                } else {
                    assert(r@[i] == before[i - 1] && r@[j] == before[j - 1]);
                }
            }
            assert forall|i: int| 0 <= i < r@.len() implies (#[trigger] r@[i]) < k + 1 by {
                if i < p {
                    assert(r@[i] == before[i]);
                } else if i > p {
                    assert(r@[i] == before[i - 1]);
                }
            }
            assert forall|x: int| 0 <= x < k + 1 implies occurs(r@, x) by {
                if x == k {
                    assert(r@[p as int] == x);
                } else {
                    assert(occurs(before, x));
                    let i = choose|i: int| 0 <= i < before.len() && #[trigger] before[i] == x;
                    if i < p {
                        assert(r@[i] == x);
                    } else {
                        assert(r@[i + 1] == x);
                    }
                }
            }
            assert forall|i: int, j: int| 0 <= i < j < r@.len() implies r@[i] != r@[j] by {
                if i < p {
                    assert(r@[i] == before[i]);
                } else if i > p {
                    assert(r@[i] == before[i - 1]);
                }
                if j < p {
                    assert(r@[j] == before[j]);
                } else if j > p {
                    assert(r@[j] == before[j - 1]);
                }
            }
        }
        k = k + 1;
    }
    r
}

/// Of two entries, at most one stands before the other.
pub proof fn lemma_stands_before_one_way(entries: Seq<ListedEntry>, by: SortBy, x: int, y: int)
    ensures
        !(stands_before(entries, by, x, y) && stands_before(entries, by, y, x)),
{
    lemma_entry_order_flips(entries[x], entries[y], by);
    lemma_entry_order_flips(entries[y], entries[x], by);
}

proof fn lemma_arrangements_agree(
    entries: Seq<ListedEntry>,
    by: SortBy,
    a: Seq<usize>,
    b: Seq<usize>,
    m: int,
)
    requires
        is_sorted_arrangement(entries, by, a),
        is_sorted_arrangement(entries, by, b),
        0 <= m <= entries.len(),
    ensures
        forall|i: int| 0 <= i < m ==> a[i] == b[i],
    decreases m,
{
    if m > 0 {
        lemma_arrangements_agree(entries, by, a, b, m - 1);
        let i = m - 1;
        let x = a[i] as int;
        let y = b[i] as int;
        if x != y {
            assert(occurs(a, y));
            let j = choose|j: int| 0 <= j < a.len() && #[trigger] a[j] == y;
            if j < i {
                assert(b[j] == a[j]);
            }
            assert(stands_before(entries, by, a[i] as int, a[j] as int));
            assert(occurs(b, x));
            let h = choose|h: int| 0 <= h < b.len() && #[trigger] b[h] == x;
            if h < i {
                assert(a[h] == b[h]);
            }
            assert(stands_before(entries, by, b[i] as int, b[h] as int));
            lemma_stands_before_one_way(entries, by, x, y);
        }
    }
}

/// A listing has one sorted arrangement only: the key and the order given
/// decide the place of every entry.
pub proof fn lemma_sorted_arrangement_is_unique(
    entries: Seq<ListedEntry>,
    by: SortBy,
    a: Seq<usize>,
    b: Seq<usize>,
)
    requires
        is_sorted_arrangement(entries, by, a),
        is_sorted_arrangement(entries, by, b),
    ensures
        a == b,
{
    lemma_arrangements_agree(entries, by, a, b, entries.len() as int);
    assert(a =~= b);
}

} // verus!
