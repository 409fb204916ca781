use vstd::prelude::*;

verus! {

/// The packing of an input sequence into a width of `n` bits: the first `n`
/// elements of `s` in order, truncating excess input and padding missing
/// input with `false`.
pub open spec fn padded(s: Seq<bool>, n: nat) -> Seq<bool> {
    Seq::new(n, |i: int| 0 <= i < s.len() && s[i])
}

/// The binary digit for one bit.
pub open spec fn digit_of(b: bool) -> char {
    if b {
        '1'
    } else {
        '0'
    }
}

/// All binary digits of a bit sequence, most significant bit first.
pub open spec fn full_digits(s: Seq<bool>) -> Seq<char> {
    Seq::new(s.len(), |k: int| digit_of(s[s.len() - 1 - k]))
}

/// Binary digits with leading zeroes removed, keeping at least one digit:
/// how an unsigned integer renders in base 2.
pub open spec fn trimmed_digits(d: Seq<char>) -> Seq<char>
    decreases d.len(),
{
    if d.len() <= 1 {
        d
    } else if d[0] == '0' {
        trimmed_digits(d.drop_first())
    } else {
        d
    }
}

/// The ascending indices in `[c, s.len())` whose bit is true.
pub open spec fn one_indices(s: Seq<bool>, c: int) -> Seq<int>
    decreases s.len() - c,
{
    if c < 0 || c >= s.len() {
        Seq::empty()
    } else if s[c] {
        seq![c] + one_indices(s, c + 1)
    } else {
        one_indices(s, c + 1)
    }
}

/// The ascending indices in `[c, s.len())` whose bit is false.
pub open spec fn zero_indices(s: Seq<bool>, c: int) -> Seq<int>
    decreases s.len() - c,
{
    if c < 0 || c >= s.len() {
        Seq::empty()
    } else if !s[c] {
        seq![c] + zero_indices(s, c + 1)
    } else {
        zero_indices(s, c + 1)
    }
}

/// The result of setting every index in `idxs`, in order, to true in `base`.
pub open spec fn set_all(base: Seq<bool>, idxs: Seq<int>) -> Seq<bool>
    decreases idxs.len(),
{
    if idxs.len() == 0 {
        base
    } else {
        set_all(base.update(idxs[0], true), idxs.drop_first())
    }
}

/// The binary rendering of a bit sequence whose bits at and above `h` are all
/// false, and whose bit `h - 1` is set unless `h` is 1: exactly the digits
/// for indices `h - 1` down to 0.
pub proof fn lemma_trim_shape(s: Seq<bool>, h: int)
    requires
        1 <= h <= s.len(),
        forall|k: int| h <= k < s.len() ==> !s[k],
        h > 1 ==> s[h - 1],
    ensures
        trimmed_digits(full_digits(s)) == Seq::new(h as nat, |k: int| digit_of(s[h - 1 - k])),
    decreases s.len(),
{
    let d = full_digits(s);
    let n = s.len() as int;
    if h == n {
        if n == 1 {
            assert(trimmed_digits(d) == d);
            assert(d =~= Seq::new(h as nat, |k: int| digit_of(s[h - 1 - k])));
        } else {
            assert(d[0] == digit_of(s[n - 1]));
            assert(d[0] == '1');
            assert(trimmed_digits(d) == d);
            assert(d =~= Seq::new(h as nat, |k: int| digit_of(s[h - 1 - k])));
        }
    } else {
        let s2 = s.take(n - 1);
        assert forall|k: int| h <= k < s2.len() implies !s2[k] by {
            assert(s2[k] == s[k]);
        }
        lemma_trim_shape(s2, h);
        assert forall|k: int| 0 <= k < n - 1 implies d.drop_first()[k] == full_digits(s2)[k] by {
            assert(d.drop_first()[k] == d[k + 1]);
            assert(d[k + 1] == digit_of(s[n - 1 - (k + 1)]));
            assert(full_digits(s2)[k] == digit_of(s2[n - 2 - k]));
            assert(s2[n - 2 - k] == s[n - 2 - k]);
        }
        assert(d.drop_first() =~= full_digits(s2));
        assert(d[0] == digit_of(s[n - 1]));
        assert(d[0] == '0');
        assert(trimmed_digits(d) == trimmed_digits(d.drop_first()));
        assert(Seq::new(h as nat, |k: int| digit_of(s2[h - 1 - k])) =~= Seq::new(
            h as nat,
            |k: int| digit_of(s[h - 1 - k]),
        ));
    }
}

} // verus!
