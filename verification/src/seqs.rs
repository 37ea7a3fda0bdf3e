//! First positions and filters over sequences.

use vstd::prelude::*;

verus! {

/// The least position whose element satisfies `p`.
pub open spec fn first_index<T>(s: Seq<T>, p: spec_fn(T) -> bool) -> Option<int>
    decreases s.len(),
{
    if s.len() == 0 {
        None
    } else if p(s.first()) {
        Some(0)
    } else {
        match first_index(s.drop_first(), p) {
            Some(i) => Some(i + 1),
            None => None,
        }
    }
}

/// `first_index` is the least position that satisfies `p`, and `None`
/// exactly where no element does.
pub proof fn lemma_first_index<T>(s: Seq<T>, p: spec_fn(T) -> bool)
    ensures
        match first_index(s, p) {
            Some(i) => 0 <= i < s.len() && p(s[i]) && forall|j: int|
                0 <= j < i ==> !p(#[trigger] s[j]),
            None => forall|j: int| 0 <= j < s.len() ==> !p(#[trigger] s[j]),
        },
    decreases s.len(),
{
    if s.len() == 0 {
    } else if p(s.first()) {
    } else {
        let rest = s.drop_first();
        lemma_first_index(rest, p);
        match first_index(rest, p) {
            Some(i) => {
                assert forall|j: int| 0 <= j < i + 1 implies !p(#[trigger] s[j]) by {
                    if j > 0 {
                        assert(s[j] == rest[j - 1]);
                    }
                }
            },
            None => {
                assert forall|j: int| 0 <= j < s.len() implies !p(#[trigger] s[j]) by {
                    if j > 0 {
                        assert(s[j] == rest[j - 1]);
                    }
                }
            },
        }
    }
}

/// A position that satisfies `p` and has none before it that does is the
/// first index.
pub proof fn lemma_first_index_is<T>(s: Seq<T>, p: spec_fn(T) -> bool, i: int)
    requires
        0 <= i < s.len(),
        p(s[i]),
        forall|j: int| 0 <= j < i ==> !p(#[trigger] s[j]),
    ensures
        first_index(s, p) == Some(i),
{
    lemma_first_index(s, p);
    match first_index(s, p) {
        Some(k) => {
            if k < i {
                assert(!p(s[k]));
            } else if k > i {
                assert(!p(s[i]));
            }
        },
        None => {
            assert(!p(s[i]));
        },
    }
}

/// No element satisfying `p` means no first index.
pub proof fn lemma_first_index_none<T>(s: Seq<T>, p: spec_fn(T) -> bool)
    requires
        forall|j: int| 0 <= j < s.len() ==> !p(#[trigger] s[j]),
    ensures
        first_index(s, p) is None,
{
    lemma_first_index(s, p);
    match first_index(s, p) {
        Some(k) => {
            assert(!p(s[k]));
        },
        None => {},
    }
}

/// Filtering one element more: the element at `i` is appended to the filter
/// of the first `i` elements exactly where it satisfies `p`.
pub proof fn lemma_filter_step<T>(s: Seq<T>, p: spec_fn(T) -> bool, i: int)
    requires
        0 <= i < s.len(),
    ensures
        s.take(i + 1).filter(p) == if p(s[i]) {
            s.take(i).filter(p).push(s[i])
        } else {
            s.take(i).filter(p)
        },
{
    reveal(Seq::filter);
    assert(s.take(i + 1).drop_last() =~= s.take(i));
}

/// A filter that every element passes keeps the sequence as it is.
pub proof fn lemma_filter_all<T>(s: Seq<T>, p: spec_fn(T) -> bool)
    requires
        forall|j: int| 0 <= j < s.len() ==> p(#[trigger] s[j]),
    ensures
        s.filter(p) == s,
    decreases s.len(),
{
    reveal(Seq::filter);
    if s.len() > 0 {
        let front = s.drop_last();
        lemma_filter_all(front, p);
    }
}

/// Two tests that agree on every element of a sequence filter it alike.
pub proof fn lemma_filter_same<T>(s: Seq<T>, p: spec_fn(T) -> bool, q: spec_fn(T) -> bool)
    requires
        forall|j: int| 0 <= j < s.len() ==> p(#[trigger] s[j]) == q(s[j]),
    ensures
        s.filter(p) == s.filter(q),
    decreases s.len(),
{
    reveal(Seq::filter);
    if s.len() > 0 {
        let front = s.drop_last();
        lemma_filter_same(front, p, q);
    }
}

/// Every element of a filtered sequence comes from the sequence and passes
/// the test, and every element of the sequence that passes it is kept.
pub proof fn lemma_filter_members<T>(s: Seq<T>, p: spec_fn(T) -> bool)
    ensures
        forall|i: int|
            0 <= i < s.filter(p).len() ==> p(#[trigger] s.filter(p)[i]) && s.contains(
                s.filter(p)[i],
            ),
        forall|j: int| 0 <= j < s.len() && p(s[j]) ==> s.filter(p).contains(#[trigger] s[j]),
    decreases s.len(),
{
    reveal(Seq::filter);
    if s.len() > 0 {
        let front = s.drop_last();
        lemma_filter_members(front, p);
        assert forall|i: int| 0 <= i < s.filter(p).len() implies p(#[trigger] s.filter(p)[i])
            && s.contains(s.filter(p)[i]) by {
            if i < front.filter(p).len() {
                assert(s.filter(p)[i] == front.filter(p)[i]);
                let k = choose|k: int| 0 <= k < front.len() && front[k] == front.filter(p)[i];
                assert(s[k] == front[k]);
            } else {
                assert(s.filter(p)[i] == s.last());
                assert(s[s.len() - 1] == s.last());
            }
        }
        assert forall|j: int| 0 <= j < s.len() && p(s[j]) implies s.filter(p).contains(
            #[trigger] s[j],
        ) by {
            if j < front.len() {
                assert(front[j] == s[j]);
                let k = choose|k: int|
                    0 <= k < front.filter(p).len() && front.filter(p)[k] == front[j];
                assert(s.filter(p)[k] == front.filter(p)[k]);
            } else {
                assert(s.filter(p)[s.filter(p).len() - 1] == s[j]);
            }
        }
    }
}

/// Whether `x` stands before `y` somewhere in the sequence.
pub open spec fn comes_before<T>(s: Seq<T>, x: T, y: T) -> bool {
    exists|a: int, b: int| 0 <= a < b < s.len() && s[a] == x && s[b] == y
}

/// A filter keeps the order of the elements: of two elements of the
/// filtered sequence, the one that comes first came first in the sequence.
pub proof fn lemma_filter_keeps_order<T>(s: Seq<T>, p: spec_fn(T) -> bool)
    ensures
        forall|i: int, j: int|
            0 <= i < j < s.filter(p).len() ==> comes_before(
                s,
                #[trigger] s.filter(p)[i],
                #[trigger] s.filter(p)[j],
            ),
    decreases s.len(),
{
    reveal(Seq::filter);
    if s.len() > 0 {
        let front = s.drop_last();
        let kept = front.filter(p);
        lemma_filter_keeps_order(front, p);
        lemma_filter_members(front, p);
        assert forall|i: int, j: int| 0 <= i < j < s.filter(p).len() implies comes_before(
            s,
            #[trigger] s.filter(p)[i],
            #[trigger] s.filter(p)[j],
        ) by {
            if j < kept.len() {
                assert(comes_before(front, kept[i], kept[j]));
                let (a, b) = choose|a: int, b: int|
                    0 <= a < b < front.len() && front[a] == kept[i] && front[b] == kept[j];
                assert(s[a] == front[a] && s[b] == front[b]);
            } else {
                assert(front.contains(kept[i]));
                let a = choose|a: int| 0 <= a < front.len() && front[a] == kept[i];
                assert(s[a] == front[a]);
                assert(s[s.len() - 1] == s.filter(p)[j]);
            }
        }
    }
}

} // verus!
