use vstd::prelude::*;

use crate::base::Base;

verus! {

/// An array for bit values (0 or 1) which holds all its data in a single integer.
///
/// The following types are supported as a base:
/// - `u8`
/// - `u16`
/// - `u32`
/// - `u64`
/// - `u128`
///
/// Important: access by index requires a valid index. `get` and `set` demand
/// `index < max_len` as a precondition; no bound check is performed at run
/// time, and a caller is responsible for staying in range.
#[derive(Clone, Copy, Debug, PartialEq, Eq)]
pub struct BitArray<B: Base>(B);

impl<B: Base> View for BitArray<B> {
    type V = Seq<bool>;

    closed spec fn view(&self) -> Seq<bool> {
        Seq::new(B::spec_max_len() as nat, |i: int| self.0.spec_bit(i))
    }
}

impl<B: Base> Default for BitArray<B> {
    /// The array with every bit false.
    fn default() -> (r: Self)
        ensures
            r@ == Seq::new(B::spec_max_len() as nat, |i: int| false),
    {
        let r = BitArray(B::zero());
        proof {
            assert(r@ =~= Seq::new(B::spec_max_len() as nat, |i: int| false));
        }
        r
    }
}

impl<B: Base> BitArray<B> {
    /// Create a new BitArray from a slice of bool values.
    ///
    /// The first element maps to index 0, the second to index 1, and so on.
    /// If the slice holds fewer elements than [`Base::max_len`], any
    /// remaining bit defaults to false. If it holds more, any additional
    /// element is ignored.
    pub fn new(bits: &[bool]) -> (r: Self)
        ensures
            r@ == crate::model::padded(bits@, B::spec_max_len() as nat),
    {
        let mut arr = Self::default();
        let n: u8 = B::max_len();
        let len: usize = bits.len();
        let mut i: u8 = 0;
        while i < n && (i as usize) < len
            invariant
                i <= n,
                n == B::spec_max_len(),
                len == bits@.len(),
                i as int <= len,
                arr@ == Seq::new(n as nat, |k: int| 0 <= k < i && k < bits@.len() && bits@[k]),
            decreases n - i,
        {
            arr.set(i, bits[i as usize]);
            i = i + 1;
            proof {
                assert(arr@ =~= Seq::new(
                    n as nat,
                    |k: int| 0 <= k < i && k < bits@.len() && bits@[k],
                ));
            }
        }
        proof {
            assert(arr@ =~= crate::model::padded(bits@, B::spec_max_len() as nat));
        }
        arr
    }

    /// Create a new BitArray where every bit is 1.
    pub fn all_one() -> (r: Self)
        ensures
            r@ == Seq::new(B::spec_max_len() as nat, |i: int| true),
    {
        let r = BitArray(B::max());
        proof {
            assert(r@ =~= Seq::new(B::spec_max_len() as nat, |i: int| true));
        }
        r
    }

    /// Get the bit value of the array at the given index.
    ///
    /// The index must be in range: no bound check is performed.
    pub fn get(&self, index: u8) -> (b: bool)
        requires
            index < B::spec_max_len(),
        ensures
            b == self@[index as int],
    {
        // Bitwise AND with data and the desired index, which
        // will leave a number with a single bit set or zero if the bit was not set.
        // If anything greater than zero remained, the bit was set (true), otherwise not (false)
        let masked = self.0.bit_and(B::one_at_index(index));
        let b = masked.is_positive();
        proof {
            if self.0.spec_bit(index as int) {
                assert(masked.spec_bit(index as int));
            }
        }
        b
    }

    /// Set the bit at the given index to the given bit.
    ///
    /// The index must be in range: no bound check is performed.
    pub fn set(&mut self, index: u8, bit: bool)
        requires
            index < B::spec_max_len(),
        ensures
            final(self)@ == old(self)@.update(index as int, bit),
    {
        if bit {
            // perform bitwise OR with a 1 shifted to the desired index, which will switch it to 1
            self.0 = self.0.bit_or(B::one_at_index(index));
        } else {
            // perform bitwise AND with a number where every bit is switched to 1 except the desired
            // one, which will switch it to 0
            self.0 = self.0.bit_and(B::one_at_index(index).bit_not());
        }
        proof {
            assert(self@ =~= old(self)@.update(index as int, bit));
        }
    }

    /// Render the underlying value in binary (base-2) digit form, most
    /// significant bit first, with no forced leading zeroes: exactly how the
    /// packed unsigned integer renders in base 2.
    pub fn to_binary_string(&self) -> (r: String)
        ensures
            r@ == crate::model::trimmed_digits(crate::model::full_digits(self@)),
    {
        let n: u8 = B::max_len();
        let mut h: u8 = n;
        while h > 1 && !self.get(h - 1)
            invariant
                1 <= h <= n,
                n == B::spec_max_len(),
                self@.len() == n,
                forall|k: int| h <= k < n ==> !self@[k],
            decreases h,
        {
            h = h - 1;
        }
        let mut out = String::from_str("");
        proof {
            reveal_strlit("");
            assert(out@ =~= Seq::new((h - h) as nat, |k: int| crate::model::digit_of(self@[h - 1 - k])));
        }
        let mut j: u8 = h;
        while j > 0
            invariant
                j <= h <= n,
                n == B::spec_max_len(),
                self@.len() == n,
                out@ == Seq::new((h - j) as nat, |k: int| crate::model::digit_of(self@[h - 1 - k])),
            decreases j,
        {
            j = j - 1;
            if self.get(j) {
                out.append("1");
            } else {
                out.append("0");
            }
            proof {
                reveal_strlit("1");
                reveal_strlit("0");
                assert(out@ =~= Seq::new(
                    (h - j) as nat,
                    |k: int| crate::model::digit_of(self@[h - 1 - k]),
                ));
            }
        }
        proof {
            crate::model::lemma_trim_shape(self@, h as int);
            assert(out@ =~= crate::model::trimmed_digits(crate::model::full_digits(self@)));
        }
        out
    }

    /// The view of an array spans exactly `max_len` bit positions.
    pub proof fn view_len(&self)
        ensures
            self@.len() == B::spec_max_len(),
    {
    }

    /// The packed value of the array, bit `i` of which is the bit at index `i`.
    pub fn to_raw(&self) -> (r: B)
        ensures
            forall|i: int| 0 <= i < B::spec_max_len() ==> (#[trigger] r.spec_bit(i) == self@[i]),
    {
        self.0
    }

    /// The array whose bit at index `i` is bit `i` of the given packed value.
    pub fn from_raw(value: B) -> (r: Self)
        ensures
            r@ == Seq::new(B::spec_max_len() as nat, |i: int| value.spec_bit(i)),
    {
        let r = BitArray(value);
        proof {
            assert(r@ =~= Seq::new(B::spec_max_len() as nat, |i: int| value.spec_bit(i)));
        }
        r
    }
}

} // verus!
