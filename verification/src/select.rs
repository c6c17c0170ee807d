//! Spec-level selection over sequences: first match, match count, ordered
//! filtering and summation, with the facts the executable scans rely on.
use vstd::prelude::*;
use vstd::assert_seqs_equal;

verus! {

/// Index of the first element satisfying `p`, or -1 when none does.
pub open spec fn find_first<A>(s: Seq<A>, p: spec_fn(A) -> bool) -> int
    decreases s.len(),
{
    if s.len() == 0 {
        -1
    } else if p(s[0]) {
        0
    } else {
        let r = find_first(s.drop_first(), p);
        if r == -1 {
            -1
        } else {
            r + 1
        }
    }
}

/// How many elements satisfy `p`.
pub open spec fn count_where<A>(s: Seq<A>, p: spec_fn(A) -> bool) -> int
    decreases s.len(),
{
    if s.len() == 0 {
        0
    } else {
        (if p(s[0]) {
            1int
        } else {
            0int
        }) + count_where(s.drop_first(), p)
    }
}

/// The elements satisfying `p`, keeping their order.
pub open spec fn filter_where<A>(s: Seq<A>, p: spec_fn(A) -> bool) -> Seq<A>
    decreases s.len(),
{
    if s.len() == 0 {
        Seq::empty()
    } else if p(s[0]) {
        seq![s[0]] + filter_where(s.drop_first(), p)
    } else {
        filter_where(s.drop_first(), p)
    }
}

/// Sum of `f` over the elements satisfying `p`.
pub open spec fn sum_where<A>(s: Seq<A>, p: spec_fn(A) -> bool, f: spec_fn(A) -> int) -> int
    decreases s.len(),
{
    if s.len() == 0 {
        0
    } else {
        (if p(s[0]) {
            f(s[0])
        } else {
            0int
        }) + sum_where(s.drop_first(), p, f)
    }
}

/// `find_first` lands on the first match, inside bounds, and fails exactly
/// when nothing matches.
pub proof fn lemma_find_first<A>(s: Seq<A>, p: spec_fn(A) -> bool)
    ensures
        -1 <= find_first(s, p) < s.len(),
        find_first(s, p) == -1 <==> (forall|i: int| 0 <= i < s.len() ==> !p(s[i])),
        find_first(s, p) >= 0 ==> p(s[find_first(s, p)]),
        forall|j: int| 0 <= j < find_first(s, p) ==> !p(s[j]),
    decreases s.len(),
{
    if s.len() > 0 && !p(s[0]) {
        lemma_find_first(s.drop_first(), p);
        let r = find_first(s.drop_first(), p);
        if r == -1 {
            assert forall|i: int| 0 <= i < s.len() implies !p(s[i]) by {
                if i >= 1 {
                    assert(s.drop_first()[i - 1] == s[i]);
                }
            }
        } else {
            assert(s.drop_first()[r] == s[r + 1]);
            assert forall|j: int| 0 <= j < r + 1 implies !p(s[j]) by {
                if j >= 1 {
                    assert(s.drop_first()[j - 1] == s[j]);
                }
            }
        }
    }
}

/// Match counts are bounded by the length, and zero exactly when nothing
/// matches.
pub proof fn lemma_count_where<A>(s: Seq<A>, p: spec_fn(A) -> bool)
    ensures
        0 <= count_where(s, p) <= s.len(),
        count_where(s, p) == 0 <==> (forall|i: int| 0 <= i < s.len() ==> !p(s[i])),
    decreases s.len(),
{
    if s.len() > 0 {
        lemma_count_where(s.drop_first(), p);
        if count_where(s, p) == 0 {
            assert forall|i: int| 0 <= i < s.len() implies !p(s[i]) by {
                if i >= 1 {
                    assert(s.drop_first()[i - 1] == s[i]);
                }
            }
        }
        if forall|i: int| 0 <= i < s.len() ==> !p(s[i]) {
            assert forall|i: int| 0 <= i < s.drop_first().len() implies !p(s.drop_first()[i]) by {
                assert(s.drop_first()[i] == s[i + 1]);
            }
        }
    }
}

/// Counting distributes over concatenation.
pub proof fn lemma_count_where_app<A>(a: Seq<A>, b: Seq<A>, p: spec_fn(A) -> bool)
    ensures
        count_where(a + b, p) == count_where(a, p) + count_where(b, p),
    decreases a.len(),
{
    if a.len() == 0 {
        assert_seqs_equal!(a + b == b);
    } else {
        assert_seqs_equal!((a + b).drop_first() == a.drop_first() + b);
        assert((a + b)[0] == a[0]);
        lemma_count_where_app(a.drop_first(), b, p);
    }
}

/// Summation distributes over concatenation.
pub proof fn lemma_sum_where_app<A>(a: Seq<A>, b: Seq<A>, p: spec_fn(A) -> bool, f: spec_fn(A) -> int)
    ensures
        sum_where(a + b, p, f) == sum_where(a, p, f) + sum_where(b, p, f),
    decreases a.len(),
{
    if a.len() == 0 {
        assert_seqs_equal!(a + b == b);
    } else {
        assert_seqs_equal!((a + b).drop_first() == a.drop_first() + b);
        assert((a + b)[0] == a[0]);
        lemma_sum_where_app(a.drop_first(), b, p, f);
    }
}

/// Filtering distributes over concatenation.
pub proof fn lemma_filter_where_app<A>(a: Seq<A>, b: Seq<A>, p: spec_fn(A) -> bool)
    ensures
        filter_where(a + b, p) == filter_where(a, p) + filter_where(b, p),
    decreases a.len(),
{
    if a.len() == 0 {
        assert_seqs_equal!(a + b == b);
        assert_seqs_equal!(filter_where(a, p) + filter_where(b, p) == filter_where(b, p));
    } else {
        assert_seqs_equal!((a + b).drop_first() == a.drop_first() + b);
        assert((a + b)[0] == a[0]);
        lemma_filter_where_app(a.drop_first(), b, p);
        if p(a[0]) {
            assert_seqs_equal!(
                seq![a[0]] + (filter_where(a.drop_first(), p) + filter_where(b, p))
                    == (seq![a[0]] + filter_where(a.drop_first(), p)) + filter_where(b, p));
        }
    }
}

/// A one-element sequence filters, counts and sums by the single element.
pub proof fn lemma_selection_singleton<A>(x: A, p: spec_fn(A) -> bool, f: spec_fn(A) -> int)
    ensures
        count_where(seq![x], p) == if p(x) {
            1int
        } else {
            0int
        },
        sum_where(seq![x], p, f) == if p(x) {
            f(x)
        } else {
            0int
        },
        filter_where(seq![x], p) == if p(x) {
            seq![x]
        } else {
            Seq::<A>::empty()
        },
{
    let e = Seq::<A>::empty();
    assert(seq![x].drop_first() =~= e);
    assert(count_where(e, p) == 0);
    assert(sum_where(e, p, f) == 0);
    assert(filter_where(e, p) =~= Seq::<A>::empty());
    assert(seq![x][0] == x);
    if p(x) {
        assert(filter_where(seq![x], p) =~= seq![x]);
    } else {
        assert(filter_where(seq![x], p) =~= Seq::<A>::empty());
    }
}

/// Counting after appending one element.
pub proof fn lemma_count_where_push<A>(s: Seq<A>, x: A, p: spec_fn(A) -> bool)
    ensures
        count_where(s.push(x), p) == count_where(s, p) + if p(x) {
            1int
        } else {
            0int
        },
{
    assert_seqs_equal!(s.push(x) == s + seq![x]);
    lemma_count_where_app(s, seq![x], p);
    lemma_selection_singleton(x, p, |a: A| 0int);
}

/// Summation after appending one element.
pub proof fn lemma_sum_where_push<A>(s: Seq<A>, x: A, p: spec_fn(A) -> bool, f: spec_fn(A) -> int)
    ensures
        sum_where(s.push(x), p, f) == sum_where(s, p, f) + if p(x) {
            f(x)
        } else {
            0int
        },
{
    assert_seqs_equal!(s.push(x) == s + seq![x]);
    lemma_sum_where_app(s, seq![x], p, f);
    lemma_selection_singleton(x, p, f);
}

/// Filtering after appending one element.
pub proof fn lemma_filter_where_push<A>(s: Seq<A>, x: A, p: spec_fn(A) -> bool)
    ensures
        filter_where(s.push(x), p) == filter_where(s, p) + if p(x) {
            seq![x]
        } else {
            Seq::<A>::empty()
        },
{
    assert_seqs_equal!(s.push(x) == s + seq![x]);
    lemma_filter_where_app(s, seq![x], p);
    lemma_selection_singleton(x, p, |a: A| 0int);
    if !p(x) {
        assert_seqs_equal!(
            filter_where(s, p) + Seq::<A>::empty() == filter_where(s, p));
    }
}

/// Counting after removing the element at a position.
pub proof fn lemma_count_where_remove<A>(s: Seq<A>, i: int, p: spec_fn(A) -> bool)
    requires
        0 <= i < s.len(),
    ensures
        count_where(s.remove(i), p) == count_where(s, p) - if p(s[i]) {
            1int
        } else {
            0int
        },
{
    let head = s.subrange(0, i);
    let tail = s.subrange(i + 1, s.len() as int);
    assert_seqs_equal!(s.remove(i) == head + tail);
    assert_seqs_equal!(s == (head + seq![s[i]]) + tail);
    lemma_count_where_app(head, tail, p);
    lemma_count_where_app(head + seq![s[i]], tail, p);
    lemma_count_where_app(head, seq![s[i]], p);
    lemma_selection_singleton(s[i], p, |a: A| 0int);
}

/// When at most one element matches, two matching positions coincide.
pub proof fn lemma_count_where_unique<A>(s: Seq<A>, p: spec_fn(A) -> bool, i: int, j: int)
    requires
        count_where(s, p) <= 1,
        0 <= i < s.len(),
        0 <= j < s.len(),
        p(s[i]),
        p(s[j]),
    ensures
        i == j,
    decreases s.len(),
{
    lemma_count_where(s, p);
    if i != j {
        let lo = if i < j {
            i
        } else {
            j
        };
        let hi = if i < j {
            j
        } else {
            i
        };
        lemma_count_where_remove(s, lo, p);
        lemma_count_where(s.remove(lo), p);
        assert(s.remove(lo)[hi - 1] == s[hi]);
    }
}

/// Every element of the filtered sequence satisfies `p` and occurs in `s`.
pub proof fn lemma_filter_where_membership<A>(s: Seq<A>, p: spec_fn(A) -> bool)
    ensures
        forall|k: int|
            0 <= k < filter_where(s, p).len() ==> p(#[trigger] filter_where(s, p)[k])
                && s.contains(filter_where(s, p)[k]),
    decreases s.len(),
{
    if s.len() > 0 {
        lemma_filter_where_membership(s.drop_first(), p);
        assert(forall|i: int|
            0 <= i < s.drop_first().len() ==> s.drop_first()[i] == s[i + 1]);
        assert forall|k: int| 0 <= k < filter_where(s, p).len() implies p(
            #[trigger] filter_where(s, p)[k],
        ) && s.contains(filter_where(s, p)[k]) by {
            let fs = filter_where(s, p);
            let frest = filter_where(s.drop_first(), p);
            if p(s[0]) {
                if k == 0 {
                    assert(fs[k] == s[0]);
                } else {
                    assert(fs[k] == frest[k - 1]);
                    let w = choose|w: int|
                        0 <= w < s.drop_first().len() && s.drop_first()[w] == frest[k - 1];
                    assert(s[w + 1] == fs[k]);
                }
            } else {
                assert(fs[k] == frest[k]);
                let w = choose|w: int|
                    0 <= w < s.drop_first().len() && s.drop_first()[w] == frest[k];
                assert(s[w + 1] == fs[k]);
            }
        }
    }
}

/// Filtering is the identity when every element passes.
pub proof fn lemma_filter_where_all<A>(s: Seq<A>, p: spec_fn(A) -> bool)
    requires
        forall|i: int| 0 <= i < s.len() ==> p(#[trigger] s[i]),
    ensures
        filter_where(s, p) == s,
    decreases s.len(),
{
    if s.len() == 0 {
        assert(filter_where(s, p) =~= s);
    } else {
        assert forall|i: int| 0 <= i < s.drop_first().len() implies p(
            #[trigger] s.drop_first()[i],
        ) by {
            assert(s.drop_first()[i] == s[i + 1]);
        }
        lemma_filter_where_all(s.drop_first(), p);
        assert(filter_where(s, p) =~= s);
    }
}

/// Filtering keeps exactly `count_where` elements.
pub proof fn lemma_filter_where_len<A>(s: Seq<A>, p: spec_fn(A) -> bool)
    ensures
        filter_where(s, p).len() == count_where(s, p),
    decreases s.len(),
{
    if s.len() > 0 {
        lemma_filter_where_len(s.drop_first(), p);
    }
}

} // verus!
