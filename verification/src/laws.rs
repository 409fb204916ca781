use vstd::prelude::*;

use crate::model::{one_indices, padded, set_all, zero_indices};

verus! {

/// Law: packing a sequence no longer than the width keeps it as a prefix and
/// pads every remaining position with false.
pub proof fn lemma_pack_keeps_short_input(s: Seq<bool>, n: nat)
    requires
        s.len() <= n,
    ensures
        padded(s, n).len() == n,
        padded(s, n).take(s.len() as int) == s,
        forall|i: int| s.len() <= i < n ==> !padded(s, n)[i],
{
    assert(padded(s, n).take(s.len() as int) =~= s);
}

/// Law: packing a sequence longer than the width gives the same result as
/// packing only its first `n` elements.
pub proof fn lemma_pack_truncates_long_input(s: Seq<bool>, n: nat)
    requires
        s.len() >= n,
    ensures
        padded(s, n) == padded(s.take(n as int), n),
{
    assert(padded(s, n) =~= padded(s.take(n as int), n));
}

/// Law: after setting index `i` to `b`, reading index `i` gives `b`, and
/// every other valid index is unchanged.
pub proof fn lemma_set_then_get(s: Seq<bool>, i: int, b: bool)
    requires
        0 <= i < s.len(),
    ensures
        s.update(i, b)[i] == b,
        forall|j: int| 0 <= j < s.len() && j != i ==> s.update(i, b)[j] == s[j],
{
}

/// Law: packing any all-true input at least as long as the width gives the
/// all-true sequence of that width, the same array `all_one` builds.
pub proof fn lemma_pack_all_true(s: Seq<bool>, n: nat)
    requires
        n <= s.len(),
        forall|i: int| 0 <= i < s.len() ==> s[i],
    ensures
        padded(s, n) == Seq::new(n, |i: int| true),
{
    assert(padded(s, n) =~= Seq::new(n, |i: int| true));
}

/// An element is in a nonempty sequence iff it is the head or in the tail.
proof fn lemma_contains_head_tail(t: Seq<int>, i: int)
    requires
        t.len() > 0,
    ensures
        t.contains(i) <==> (t[0] == i || t.drop_first().contains(i)),
{
    if t.contains(i) {
        let j = choose|j: int| 0 <= j < t.len() && t[j] == i;
        if j != 0 {
            assert(t.drop_first()[j - 1] == i);
            assert(t.drop_first().contains(i));
        }
    }
    if t[0] == i {
        assert(t.contains(i));
    }
    if t.drop_first().contains(i) {
        let j = choose|j: int| 0 <= j < t.drop_first().len() && t.drop_first()[j] == i;
        assert(t[j + 1] == i);
        assert(t.contains(i));
    }
}

/// Law: an index is among the ones indices from `c` exactly when it is at or
/// after `c` and its bit is true.
pub proof fn lemma_one_indices_membership(s: Seq<bool>, c: int, i: int)
    requires
        0 <= c,
        0 <= i < s.len(),
    ensures
        one_indices(s, c).contains(i) <==> (c <= i && s[i]),
    decreases s.len() - c,
{
    if c >= s.len() {
        assert(!one_indices(s, c).contains(i));
    } else {
        lemma_one_indices_membership(s, c + 1, i);
        if s[c] {
            let t = one_indices(s, c);
            assert(t == seq![c] + one_indices(s, c + 1));
            lemma_contains_head_tail(t, i);
            assert(t[0] == c);
            assert(t.drop_first() =~= one_indices(s, c + 1));
        } else {
            assert(one_indices(s, c) == one_indices(s, c + 1));
        }
    }
}

/// Every ones index from `c` lies in `[c, s.len())`.
pub proof fn lemma_one_indices_bounds(s: Seq<bool>, c: int)
    requires
        0 <= c,
    ensures
        forall|a: int|
            0 <= a < one_indices(s, c).len() ==> c <= #[trigger] one_indices(s, c)[a] < s.len(),
    decreases s.len() - c,
{
    if c >= s.len() {
    } else {
        lemma_one_indices_bounds(s, c + 1);
        if s[c] {
            assert forall|a: int|
                0 <= a < one_indices(s, c).len() implies c <= #[trigger] one_indices(s, c)[a]
                < s.len() by {
                if a == 0 {
                    assert(one_indices(s, c)[0] == c);
                } else {
                    assert(one_indices(s, c)[a] == one_indices(s, c + 1)[a - 1]);
                }
            }
        } else {
            assert forall|a: int|
                0 <= a < one_indices(s, c).len() implies c <= #[trigger] one_indices(s, c)[a]
                < s.len() by {
                assert(one_indices(s, c)[a] == one_indices(s, c + 1)[a]);
            }
        }
    }
}

/// Law: the ones indices are strictly ascending.
pub proof fn lemma_one_indices_ascending(s: Seq<bool>, c: int)
    requires
        0 <= c,
    ensures
        forall|a: int, b: int|
            0 <= a < b < one_indices(s, c).len() ==> #[trigger] one_indices(s, c)[a]
                < #[trigger] one_indices(s, c)[b],
    decreases s.len() - c,
{
    if c >= s.len() {
    } else {
        lemma_one_indices_ascending(s, c + 1);
        lemma_one_indices_bounds(s, c + 1);
        if s[c] {
            assert forall|a: int, b: int|
                0 <= a < b < one_indices(s, c).len() implies #[trigger] one_indices(s, c)[a]
                < #[trigger] one_indices(s, c)[b] by {
                assert(one_indices(s, c)[b] == one_indices(s, c + 1)[b - 1]);
                if a == 0 {
                    assert(one_indices(s, c)[0] == c);
                } else {
                    assert(one_indices(s, c)[a] == one_indices(s, c + 1)[a - 1]);
                }
            }
        } else {
            assert forall|a: int, b: int|
                0 <= a < b < one_indices(s, c).len() implies #[trigger] one_indices(s, c)[a]
                < #[trigger] one_indices(s, c)[b] by {
                assert(one_indices(s, c)[a] == one_indices(s, c + 1)[a]);
                assert(one_indices(s, c)[b] == one_indices(s, c + 1)[b]);
            }
        }
    }
}

/// Law: an index is among the zero indices from `c` exactly when it is at or
/// after `c` and its bit is false.
pub proof fn lemma_zero_indices_membership(s: Seq<bool>, c: int, i: int)
    requires
        0 <= c,
        0 <= i < s.len(),
    ensures
        zero_indices(s, c).contains(i) <==> (c <= i && !s[i]),
    decreases s.len() - c,
{
    if c >= s.len() {
        assert(!zero_indices(s, c).contains(i));
    } else {
        lemma_zero_indices_membership(s, c + 1, i);
        if !s[c] {
            let t = zero_indices(s, c);
            assert(t == seq![c] + zero_indices(s, c + 1));
            lemma_contains_head_tail(t, i);
            assert(t[0] == c);
            assert(t.drop_first() =~= zero_indices(s, c + 1));
        } else {
            assert(zero_indices(s, c) == zero_indices(s, c + 1));
        }
    }
}

/// Every zero index from `c` lies in `[c, s.len())`.
pub proof fn lemma_zero_indices_bounds(s: Seq<bool>, c: int)
    requires
        0 <= c,
    ensures
        forall|a: int|
            0 <= a < zero_indices(s, c).len() ==> c <= #[trigger] zero_indices(s, c)[a] < s.len(),
    decreases s.len() - c,
{
    if c >= s.len() {
    } else {
        lemma_zero_indices_bounds(s, c + 1);
        if !s[c] {
            assert forall|a: int|
                0 <= a < zero_indices(s, c).len() implies c <= #[trigger] zero_indices(s, c)[a]
                < s.len() by {
                if a == 0 {
                    assert(zero_indices(s, c)[0] == c);
                } else {
                    assert(zero_indices(s, c)[a] == zero_indices(s, c + 1)[a - 1]);
                }
            }
        } else {
            assert forall|a: int|
                0 <= a < zero_indices(s, c).len() implies c <= #[trigger] zero_indices(s, c)[a]
                < s.len() by {
                assert(zero_indices(s, c)[a] == zero_indices(s, c + 1)[a]);
            }
        }
    }
}

/// Law: the zero indices are strictly ascending.
pub proof fn lemma_zero_indices_ascending(s: Seq<bool>, c: int)
    requires
        0 <= c,
    ensures
        forall|a: int, b: int|
            0 <= a < b < zero_indices(s, c).len() ==> #[trigger] zero_indices(s, c)[a]
                < #[trigger] zero_indices(s, c)[b],
    decreases s.len() - c,
{
    if c >= s.len() {
    } else {
        lemma_zero_indices_ascending(s, c + 1);
        lemma_zero_indices_bounds(s, c + 1);
        if !s[c] {
            assert forall|a: int, b: int|
                0 <= a < b < zero_indices(s, c).len() implies #[trigger] zero_indices(s, c)[a]
                < #[trigger] zero_indices(s, c)[b] by {
                assert(zero_indices(s, c)[b] == zero_indices(s, c + 1)[b - 1]);
                if a == 0 {
                    assert(zero_indices(s, c)[0] == c);
                } else {
                    assert(zero_indices(s, c)[a] == zero_indices(s, c + 1)[a - 1]);
                }
            }
        } else {
            assert forall|a: int, b: int|
                0 <= a < b < zero_indices(s, c).len() implies #[trigger] zero_indices(s, c)[a]
                < #[trigger] zero_indices(s, c)[b] by {
                assert(zero_indices(s, c)[a] == zero_indices(s, c + 1)[a]);
                assert(zero_indices(s, c)[b] == zero_indices(s, c + 1)[b]);
            }
        }
    }
}

/// Law: each valid index is among the ones indices or the zero indices,
/// never both: the two scans partition the index range.
pub proof fn lemma_ones_zeroes_partition(s: Seq<bool>, i: int)
    requires
        0 <= i < s.len(),
    ensures
        one_indices(s, 0).contains(i) <==> s[i],
        zero_indices(s, 0).contains(i) <==> !s[i],
{
    lemma_one_indices_membership(s, 0, i);
    lemma_zero_indices_membership(s, 0, i);
}

/// Setting a list of in-range indices to true sets exactly those indices.
proof fn lemma_set_all_effect(base: Seq<bool>, idxs: Seq<int>, i: int)
    requires
        0 <= i < base.len(),
        forall|j: int| 0 <= j < idxs.len() ==> 0 <= #[trigger] idxs[j] < base.len(),
    ensures
        set_all(base, idxs).len() == base.len(),
        set_all(base, idxs)[i] == (base[i] || idxs.contains(i)),
    decreases idxs.len(),
{
    if idxs.len() == 0 {
    } else {
        let b2 = base.update(idxs[0], true);
        assert forall|j: int|
            0 <= j < idxs.drop_first().len() implies 0 <= #[trigger] idxs.drop_first()[j]
            < b2.len() by {
            assert(idxs.drop_first()[j] == idxs[j + 1]);
        }
        lemma_set_all_effect(b2, idxs.drop_first(), i);
        lemma_contains_head_tail(idxs, i);
    }
}

/// Law: re-setting every ones index to true on the all-false sequence of the
/// same width rebuilds the original sequence.
pub proof fn lemma_ones_rebuild(s: Seq<bool>)
    ensures
        set_all(Seq::new(s.len(), |i: int| false), one_indices(s, 0)) == s,
{
    let base = Seq::new(s.len(), |i: int| false);
    lemma_one_indices_bounds(s, 0);
    if s.len() > 0 {
        lemma_set_all_effect(base, one_indices(s, 0), 0);
    }
    assert forall|i: int| 0 <= i < s.len() implies set_all(base, one_indices(s, 0))[i] == s[i] by {
        lemma_set_all_effect(base, one_indices(s, 0), i);
        lemma_one_indices_membership(s, 0, i);
    }
    assert(set_all(base, one_indices(s, 0)) =~= s);
}

/// Scanning from `c`, the first set index `j` heads the ones indices, and
/// the remaining ones indices continue after it: the step the ones iterator
/// takes.
pub proof fn lemma_one_indices_step(s: Seq<bool>, c: int, j: int)
    requires
        0 <= c <= j < s.len(),
        s[j],
        forall|k: int| c <= k < j ==> !s[k],
    ensures
        one_indices(s, c) == seq![j] + one_indices(s, j + 1),
    decreases j - c,
{
    if c < j {
        lemma_one_indices_step(s, c + 1, j);
    }
}

/// With no set index at or after `c`, the ones indices from `c` are empty:
/// the step on which the ones iterator ends.
pub proof fn lemma_one_indices_exhausted(s: Seq<bool>, c: int)
    requires
        0 <= c,
        forall|k: int| c <= k < s.len() ==> !s[k],
    ensures
        one_indices(s, c) == Seq::<int>::empty(),
    decreases s.len() - c,
{
    if c < s.len() {
        lemma_one_indices_exhausted(s, c + 1);
    }
}

/// Scanning from `c`, the first clear index `j` heads the zero indices, and
/// the remaining zero indices continue after it: the step the zeroes
/// iterator takes.
pub proof fn lemma_zero_indices_step(s: Seq<bool>, c: int, j: int)
    requires
        0 <= c <= j < s.len(),
        !s[j],
        forall|k: int| c <= k < j ==> s[k],
    ensures
        zero_indices(s, c) == seq![j] + zero_indices(s, j + 1),
    decreases j - c,
{
    if c < j {
        lemma_zero_indices_step(s, c + 1, j);
    }
}

/// With no clear index at or after `c`, the zero indices from `c` are empty:
/// the step on which the zeroes iterator ends.
pub proof fn lemma_zero_indices_exhausted(s: Seq<bool>, c: int)
    requires
        0 <= c,
        forall|k: int| c <= k < s.len() ==> s[k],
    ensures
        zero_indices(s, c) == Seq::<int>::empty(),
    decreases s.len() - c,
{
    if c < s.len() {
        lemma_zero_indices_exhausted(s, c + 1);
    }
}

} // verus!
