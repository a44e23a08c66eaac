//! Which entries an eviction pass keeps.
//!
//! Entries are ranked by when they were last used, the higher identifier
//! first among those used at the same moment. A pass that keeps `n` keeps
//! the entries that fewer than `n` others outrank.

use crate::frame_cache::FrameCacheItemView;
use vstd::prelude::*;

verus! {

/// `a` was used after `b`, or at the same moment and has the higher
/// identifier.
pub open spec fn newer(a: FrameCacheItemView, b: FrameCacheItemView) -> bool {
    a.last_used > b.last_used || (a.last_used == b.last_used && a.id > b.id)
}

/// Number of entries of `items` that outrank `e`.
pub open spec fn count_newer(items: Seq<FrameCacheItemView>, e: FrameCacheItemView) -> nat
    decreases items.len(),
{
    if items.len() == 0 {
        0
    } else {
        count_newer(items.drop_last(), e) + if newer(items.last(), e) {
            1nat
        } else {
            0nat
        }
    }
}

/// `e` is among the `n` most recently used of `items`.
pub open spec fn survives(items: Seq<FrameCacheItemView>, n: nat, e: FrameCacheItemView) -> bool {
    count_newer(items, e) < n
}

/// The test an eviction pass that keeps `n` of `items` puts to an entry.
pub open spec fn keeps(items: Seq<FrameCacheItemView>, n: nat) -> spec_fn(
    FrameCacheItemView,
) -> bool {
    |e: FrameCacheItemView| survives(items, n, e)
}

/// The `n` most recently used entries of `items`, in the order they stand.
pub open spec fn latest(items: Seq<FrameCacheItemView>, n: nat) -> Seq<FrameCacheItemView> {
    items.filter(keeps(items, n))
}

/// No two entries share an identifier.
pub open spec fn distinct_ids(items: Seq<FrameCacheItemView>) -> bool {
    forall|i: int, j: int|
        #![trigger items[i], items[j]]
        0 <= i < j < items.len() ==> items[i].id != items[j].id
}

/// Every other entry outranks entry `m`.
pub open spec fn is_oldest_at(items: Seq<FrameCacheItemView>, m: int) -> bool {
    &&& 0 <= m < items.len()
    &&& forall|j: int| 0 <= j < items.len() && j != m ==> newer(#[trigger] items[j], items[m])
}

proof fn lemma_count_bound(items: Seq<FrameCacheItemView>, e: FrameCacheItemView)
    ensures
        count_newer(items, e) <= items.len(),
    decreases items.len(),
{
    if items.len() > 0 {
        lemma_count_bound(items.drop_last(), e);
    }
}

proof fn lemma_count_below_len(items: Seq<FrameCacheItemView>, e: FrameCacheItemView, i: int)
    requires
        0 <= i < items.len(),
        !newer(items[i], e),
    ensures
        count_newer(items, e) < items.len(),
    decreases items.len(),
{
    if i == items.len() - 1 {
        lemma_count_bound(items.drop_last(), e);
    } else {
        lemma_count_below_len(items.drop_last(), e, i);
    }
}

proof fn lemma_count_all(items: Seq<FrameCacheItemView>, e: FrameCacheItemView)
    requires
        forall|j: int| 0 <= j < items.len() ==> newer(#[trigger] items[j], e),
    ensures
        count_newer(items, e) == items.len(),
    decreases items.len(),
{
    if items.len() > 0 {
        let front = items.drop_last();
        assert forall|j: int| 0 <= j < front.len() implies newer(#[trigger] front[j], e) by {
            assert(front[j] == items[j]);
        }
        lemma_count_all(front, e);
    }
}

proof fn lemma_count_remove(items: Seq<FrameCacheItemView>, m: int, e: FrameCacheItemView)
    requires
        0 <= m < items.len(),
    ensures
        count_newer(items, e) == count_newer(items.remove(m), e) + if newer(items[m], e) {
            1nat
        } else {
            0nat
        },
    decreases items.len(),
{
    if m == items.len() - 1 {
        assert(items.remove(m) =~= items.drop_last());
    } else {
        let rest = items.remove(m);
        assert(rest.drop_last() =~= items.drop_last().remove(m));
        assert(rest.last() == items.last());
        lemma_count_remove(items.drop_last(), m, e);
    }
}

proof fn lemma_filter_agree(
    s: Seq<FrameCacheItemView>,
    p: spec_fn(FrameCacheItemView) -> bool,
    q: spec_fn(FrameCacheItemView) -> bool,
)
    requires
        forall|j: int| 0 <= j < s.len() ==> p(#[trigger] s[j]) == q(s[j]),
    ensures
        s.filter(p) == s.filter(q),
    decreases s.len(),
{
    reveal(Seq::filter);
    if s.len() > 0 {
        let front = s.drop_last();
        assert forall|j: int| 0 <= j < front.len() implies p(#[trigger] front[j]) == q(
            front[j],
        ) by {
            assert(front[j] == s[j]);
        }
        lemma_filter_agree(front, p, q);
        assert(p(s.last()) == q(s.last())) by {
            assert(s.last() == s[s.len() - 1]);
        }
    }
}

proof fn lemma_filter_all(s: Seq<FrameCacheItemView>, p: spec_fn(FrameCacheItemView) -> bool)
    requires
        forall|j: int| 0 <= j < s.len() ==> p(#[trigger] s[j]),
    ensures
        s.filter(p) == s,
    decreases s.len(),
{
    reveal(Seq::filter);
    if s.len() > 0 {
        let front = s.drop_last();
        assert forall|j: int| 0 <= j < front.len() implies p(#[trigger] front[j]) by {
            assert(front[j] == s[j]);
        }
        lemma_filter_all(front, p);
        assert(p(s.last())) by {
            assert(s.last() == s[s.len() - 1]);
        }
        assert(front.push(s.last()) =~= s);
    }
}

proof fn lemma_filter_remove(
    s: Seq<FrameCacheItemView>,
    m: int,
    p: spec_fn(FrameCacheItemView) -> bool,
    q: spec_fn(FrameCacheItemView) -> bool,
)
    requires
        0 <= m < s.len(),
        !p(s[m]),
        forall|j: int| 0 <= j < s.len() && j != m ==> p(#[trigger] s[j]) == q(s[j]),
    ensures
        s.filter(p) == s.remove(m).filter(q),
    decreases s.len(),
{
    reveal(Seq::filter);
    let front = s.drop_last();
    if m == s.len() - 1 {
        assert(s.remove(m) =~= front);
        assert forall|j: int| 0 <= j < front.len() implies p(#[trigger] front[j]) == q(
            front[j],
        ) by {
            assert(front[j] == s[j]);
        }
        lemma_filter_agree(front, p, q);
    } else {
        let rest = s.remove(m);
        assert(rest.drop_last() =~= front.remove(m));
        assert(rest.last() == s.last());
        assert(s.last() == s[s.len() - 1]);
        assert forall|j: int| 0 <= j < front.len() && j != m implies p(#[trigger] front[j]) == q(
            front[j],
        ) by {
            assert(front[j] == s[j]);
        }
        lemma_filter_remove(front, m, p, q);
    }
}

/// With more than `n` entries, dropping the lowest ranked one changes
/// nothing about which `n` rank highest.
pub proof fn lemma_drop_oldest(items: Seq<FrameCacheItemView>, n: nat, m: int)
    requires
        items.len() > n,
        is_oldest_at(items, m),
    ensures
        latest(items.remove(m), n) == latest(items, n),
{
    let rest = items.remove(m);
    let p = keeps(items, n);
    let q = keeps(rest, n);
    assert(!p(items[m])) by {
        assert forall|j: int| 0 <= j < rest.len() implies newer(#[trigger] rest[j], items[m]) by {
            if j < m {
                assert(rest[j] == items[j]);
            } else {
                assert(rest[j] == items[j + 1]);
            }
        }
        lemma_count_all(rest, items[m]);
        lemma_count_remove(items, m, items[m]);
    }
    assert forall|j: int| 0 <= j < items.len() && j != m implies p(#[trigger] items[j]) == q(
        items[j],
    ) by {
        lemma_count_remove(items, m, items[j]);
    }
    lemma_filter_remove(items, m, p, q);
}

/// A pass that keeps at least as many entries as there are keeps them all.
pub proof fn lemma_all_survive(items: Seq<FrameCacheItemView>, n: nat)
    requires
        items.len() <= n,
    ensures
        latest(items, n) == items,
{
    let p = keeps(items, n);
    assert forall|j: int| 0 <= j < items.len() implies p(#[trigger] items[j]) by {
        lemma_count_below_len(items, items[j], j);
    }
    lemma_filter_all(items, p);
}

proof fn lemma_count_outranked(
    items: Seq<FrameCacheItemView>,
    d: FrameCacheItemView,
    e: FrameCacheItemView,
)
    requires
        newer(d, e),
    ensures
        count_newer(items, d) <= count_newer(items, e),
        (exists|i: int| 0 <= i < items.len() && items[i] == d) ==> count_newer(items, d)
            < count_newer(items, e),
    decreases items.len(),
{
    if items.len() > 0 {
        let front = items.drop_last();
        lemma_count_outranked(front, d, e);
        if exists|i: int| 0 <= i < items.len() && items[i] == d {
            let i = choose|i: int| 0 <= i < items.len() && items[i] == d;
            if i < front.len() {
                assert(front[i] == d);
            }
        }
    }
}

/// Among entries with distinct identifiers one is outranked by all others.
pub proof fn lemma_oldest_exists(items: Seq<FrameCacheItemView>) -> (m: int)
    requires
        distinct_ids(items),
        items.len() > 0,
    ensures
        is_oldest_at(items, m),
    decreases items.len(),
{
    if items.len() == 1 {
        0
    } else {
        let front = items.drop_last();
        assert forall|i: int, j: int| 0 <= i < j < front.len() implies (#[trigger] front[i]).id != (
        #[trigger] front[j]).id by {
            assert(front[i] == items[i] && front[j] == items[j]);
        }
        let a = lemma_oldest_exists(front);
        let last = items.len() - 1;
        assert(front[a] == items[a]);
        assert(items[a].id != items[last].id);
        let m = if newer(items[a], items[last]) {
            last
        } else {
            a
        };
        assert forall|j: int| 0 <= j < items.len() && j != m implies newer(
            #[trigger] items[j],
            items[m],
        ) by {
            if j < last && j != a {
                assert(front[j] == items[j]);
                assert(newer(front[j], front[a]));
            }
        }
        m
    }
}

/// A pass that keeps `n` leaves `n` entries, or all where there are fewer.
pub proof fn lemma_latest_len(items: Seq<FrameCacheItemView>, n: nat)
    requires
        distinct_ids(items),
    ensures
        latest(items, n).len() == if items.len() <= n {
            items.len()
        } else {
            n
        },
    decreases items.len(),
{
    if items.len() <= n {
        lemma_all_survive(items, n);
    } else {
        let m = lemma_oldest_exists(items);
        let rest = items.remove(m);
        assert forall|i: int, j: int| 0 <= i < j < rest.len() implies (#[trigger] rest[i]).id != (
        #[trigger] rest[j]).id by {
            let from = |k: int|
                if k < m {
                    k
                } else {
                    k + 1
                };
            assert(rest[i] == items[from(i)] && rest[j] == items[from(j)]);
        }
        lemma_drop_oldest(items, n, m);
        lemma_latest_len(rest, n);
    }
}

/// Every entry that a pass keeps was used later than every entry it drops,
/// or at the same moment and has the higher identifier.
pub proof fn lemma_kept_outrank_dropped(items: Seq<FrameCacheItemView>, n: nat, i: int, j: int)
    requires
        distinct_ids(items),
        0 <= i < items.len(),
        0 <= j < items.len(),
        survives(items, n, items[i]),
        !survives(items, n, items[j]),
    ensures
        newer(items[i], items[j]),
{
    if i < j {
        assert(items[i].id != items[j].id);
    } else if j < i {
        assert(items[j].id != items[i].id);
    }
    if newer(items[j], items[i]) {
        lemma_count_outranked(items, items[j], items[i]);
    }
}

} // verus!
