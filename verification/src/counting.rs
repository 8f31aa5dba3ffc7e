//! Counting, filtering and first-match search over sequences, with the
//! lemmas the queue store's contracts rest on.

use vstd::prelude::*;

verus! {

/// How many elements of `s` satisfy `p`.
pub open spec fn count_by<T>(s: Seq<T>, p: spec_fn(T) -> bool) -> int
    decreases s.len(),
{
    if s.len() == 0 {
        0
    } else {
        count_by(s.drop_last(), p) + if p(s.last()) {
            1int
        } else {
            0int
        }
    }
}

/// The subsequence of elements of `s` satisfying `p`, in order.
pub open spec fn keep<T>(s: Seq<T>, p: spec_fn(T) -> bool) -> Seq<T>
    decreases s.len(),
{
    if s.len() == 0 {
        Seq::empty()
    } else if p(s.last()) {
        keep(s.drop_last(), p).push(s.last())
    } else {
        keep(s.drop_last(), p)
    }
}

/// Index of the first element of `s` satisfying `p`, or `-1`.
pub open spec fn first_where<T>(s: Seq<T>, p: spec_fn(T) -> bool) -> int
    decreases s.len(),
{
    if s.len() == 0 {
        -1
    } else if p(s.first()) {
        0
    } else {
        let r = first_where(s.drop_first(), p);
        if r < 0 {
            -1
        } else {
            r + 1
        }
    }
}

pub proof fn lemma_count_bounds<T>(s: Seq<T>, p: spec_fn(T) -> bool)
    ensures
        0 <= count_by(s, p) <= s.len(),
    decreases s.len(),
{
    if s.len() > 0 {
        lemma_count_bounds(s.drop_last(), p);
    }
}

pub proof fn lemma_count_zero<T>(s: Seq<T>, p: spec_fn(T) -> bool)
    ensures
        (count_by(s, p) == 0) <==> (forall|i: int| 0 <= i < s.len() ==> !p(s[i])),
    decreases s.len(),
{
    lemma_count_bounds(s, p);
    if s.len() > 0 {
        let t = s.drop_last();
        lemma_count_zero(t, p);
        lemma_count_bounds(t, p);
        if count_by(s, p) == 0 {
            assert forall|i: int| 0 <= i < s.len() implies !p(s[i]) by {
                if i < s.len() - 1 {
                    assert(t[i] == s[i]);
                } else {
                    assert(s[i] == s.last());
                }
            }
        } else {
            if count_by(t, p) > 0 {
                assert(exists|i: int| 0 <= i < t.len() && p(t[i]));
                let i = choose|i: int| 0 <= i < t.len() && p(t[i]);
                assert(s[i] == t[i]);
                assert(p(s[i]));
            } else {
                assert(p(s.last()));
                assert(p(s[s.len() - 1]));
            }
        }
    }
}

pub proof fn lemma_count_update<T>(s: Seq<T>, p: spec_fn(T) -> bool, i: int, x: T)
    requires
        0 <= i < s.len(),
    ensures
        count_by(s.update(i, x), p) == count_by(s, p) - (if p(s[i]) {
            1int
        } else {
            0int
        }) + (if p(x) {
            1int
        } else {
            0int
        }),
    decreases s.len(),
{
    let u = s.update(i, x);
    if i == s.len() - 1 {
        assert(u.drop_last() =~= s.drop_last());
        assert(u.last() == x);
    } else {
        assert(u.drop_last() =~= s.drop_last().update(i, x));
        lemma_count_update(s.drop_last(), p, i, x);
        assert(s.drop_last()[i] == s[i]);
        assert(u.last() == s.last());
    }
}

pub proof fn lemma_count_push<T>(s: Seq<T>, p: spec_fn(T) -> bool, x: T)
    ensures
        count_by(s.push(x), p) == count_by(s, p) + (if p(x) {
            1int
        } else {
            0int
        }),
{
    assert(s.push(x).drop_last() =~= s);
    assert(s.push(x).last() == x);
}

/// Every element kept satisfies the predicate.
pub proof fn lemma_keep_all<T>(s: Seq<T>, p: spec_fn(T) -> bool)
    ensures
        forall|j: int| 0 <= j < keep(s, p).len() ==> p(#[trigger] keep(s, p)[j]),
    decreases s.len(),
{
    if s.len() > 0 {
        let t = s.drop_last();
        lemma_keep_all(t, p);
        assert forall|j: int| 0 <= j < keep(s, p).len() implies p(#[trigger] keep(s, p)[j]) by {
            if p(s.last()) {
                if j < keep(t, p).len() {
                    assert(keep(s, p)[j] == keep(t, p)[j]);
                } else {
                    assert(keep(s, p)[j] == s.last());
                }
            } else {
                assert(keep(s, p)[j] == keep(t, p)[j]);
            }
        }
    }
}

/// A sequence whose elements all satisfy `p` is left unchanged by `keep`.
pub proof fn lemma_keep_identity<T>(s: Seq<T>, p: spec_fn(T) -> bool)
    requires
        forall|i: int| 0 <= i < s.len() ==> p(#[trigger] s[i]),
    ensures
        keep(s, p) == s,
    decreases s.len(),
{
    if s.len() > 0 {
        let t = s.drop_last();
        assert(forall|i: int| 0 <= i < t.len() ==> p(#[trigger] t[i]));
        lemma_keep_identity(t, p);
        assert(p(s[s.len() - 1]));
        assert(keep(s, p) =~= t.push(s.last()));
        assert(t.push(s.last()) =~= s);
    } else {
        assert(keep(s, p) =~= s);
    }
}

/// Filtering is idempotent: a second pass keeps everything the first kept.
pub proof fn lemma_keep_idempotent<T>(s: Seq<T>, p: spec_fn(T) -> bool)
    ensures
        keep(keep(s, p), p) == keep(s, p),
{
    lemma_keep_all(s, p);
    lemma_keep_identity(keep(s, p), p);
}

/// Filtering never increases any count.
pub proof fn lemma_keep_count_le<T>(s: Seq<T>, p: spec_fn(T) -> bool, q: spec_fn(T) -> bool)
    ensures
        count_by(keep(s, q), p) <= count_by(s, p),
    decreases s.len(),
{
    if s.len() > 0 {
        let t = s.drop_last();
        lemma_keep_count_le(t, p, q);
        if q(s.last()) {
            lemma_count_push(keep(t, q), p, s.last());
        } else {
            lemma_count_bounds(keep(t, q), p);
        }
    }
}

/// Every kept element occurs in the sequence it was kept from.
pub proof fn lemma_keep_elems<T>(s: Seq<T>, p: spec_fn(T) -> bool)
    ensures
        forall|j: int|
            0 <= j < keep(s, p).len() ==> exists|k: int|
                0 <= k < s.len() && #[trigger] keep(s, p)[j] == s[k],
    decreases s.len(),
{
    if s.len() > 0 {
        let t = s.drop_last();
        lemma_keep_elems(t, p);
        assert forall|j: int| 0 <= j < keep(s, p).len() implies exists|k: int|
            0 <= k < s.len() && #[trigger] keep(s, p)[j] == s[k] by {
            if j < keep(t, p).len() {
                let k = choose|k: int| 0 <= k < t.len() && keep(t, p)[j] == t[k];
                assert(t[k] == s[k]);
                assert(keep(s, p)[j] == s[k]);
            } else {
                assert(p(s.last()));
                assert(keep(s, p)[j] == s[s.len() - 1]);
            }
        }
    }
}

/// Two sequences on which `p` agrees pointwise have the same first match.
pub proof fn lemma_first_where_congruent<T>(s: Seq<T>, u: Seq<T>, p: spec_fn(T) -> bool)
    requires
        s.len() == u.len(),
        forall|k: int| 0 <= k < s.len() ==> p(s[k]) == p(u[k]),
    ensures
        first_where(s, p) == first_where(u, p),
    decreases s.len(),
{
    if s.len() > 0 {
        assert(p(s.first()) == p(u.first()));
        if !p(s.first()) {
            let st = s.drop_first();
            let ut = u.drop_first();
            assert(forall|k: int| 0 <= k < st.len() ==> st[k] == s[k + 1]);
            assert(forall|k: int| 0 <= k < ut.len() ==> ut[k] == u[k + 1]);
            lemma_first_where_congruent(st, ut, p);
        }
    }
}

pub proof fn lemma_first_where<T>(s: Seq<T>, p: spec_fn(T) -> bool)
    ensures
        -1 <= first_where(s, p) < s.len(),
        first_where(s, p) >= 0 ==> p(s[first_where(s, p)]),
        forall|k: int| 0 <= k < first_where(s, p) ==> !p(s[k]),
        first_where(s, p) == -1 ==> forall|k: int| 0 <= k < s.len() ==> !p(s[k]),
    decreases s.len(),
{
    if s.len() > 0 {
        if !p(s.first()) {
            let t = s.drop_first();
            lemma_first_where(t, p);
            let r = first_where(t, p);
            if r >= 0 {
                assert(t[r] == s[r + 1]);
                assert forall|k: int| 0 <= k < first_where(s, p) implies !p(s[k]) by {
                    if k == 0 {
                        assert(s[0] == s.first());
                    } else {
                        assert(t[k - 1] == s[k]);
                    }
                }
            } else {
                assert forall|k: int| 0 <= k < s.len() implies !p(s[k]) by {
                    if k == 0 {
                        assert(s[0] == s.first());
                    } else {
                        assert(t[k - 1] == s[k]);
                    }
                }
            }
        }
    }
}

} // verus!
