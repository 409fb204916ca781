use vstd::prelude::*;

verus! {

/// Defines a base for a [`crate::BitArray`]. This base holds the data for the array.
///
/// The trait is sealed: exactly `u8`, `u16`, `u32`, `u64` and `u128`
/// implement it, so every array has one of five known capacities.
///
/// At the specification level a base value is a row of bits: `spec_bit(i)`
/// tells whether bit `i` is set, with index 0 at the least significant bit,
/// and `spec_max_len()` gives the number of bit positions.
pub trait Base: Copy + crate::sealed::BaseSealed + Sized {
    /// The number of bits a value of this base holds.
    spec fn spec_max_len() -> u8;

    /// Whether bit `i` of this value is set (index 0 is the least
    /// significant bit). False outside `[0, spec_max_len())`.
    spec fn spec_bit(self, i: int) -> bool;

    /// Return the maximum amount of bits this base can hold.
    fn max_len() -> (r: u8)
        ensures
            r == Self::spec_max_len(),
            r >= 1,
    ;

    /// Returns the max value of this base: every bit set.
    fn max() -> (r: Self)
        ensures
            forall|i: int| 0 <= i < Self::spec_max_len() ==> #[trigger] r.spec_bit(i),
    ;

    /// Return the representation of zero for this base: no bit set.
    fn zero() -> (r: Self)
        ensures
            forall|i: int| 0 <= i < Self::spec_max_len() ==> !(#[trigger] r.spec_bit(i)),
    ;

    /// Return the representation of one for this base: only bit 0 set.
    fn one() -> (r: Self)
        ensures
            forall|i: int| 0 <= i < Self::spec_max_len() ==> (#[trigger] r.spec_bit(i) <==> i == 0),
    ;

    /// Return the representation of a one at the given index for this base:
    /// only bit `index` set.
    fn one_at_index(index: u8) -> (r: Self)
        requires
            index < Self::spec_max_len(),
        ensures
            forall|i: int| 0 <= i < Self::spec_max_len() ==> (#[trigger] r.spec_bit(i) <==> i == index),
    ;

    /// Bitwise AND of two base values.
    fn bit_and(self, other: Self) -> (r: Self)
        ensures
            forall|i: int|
                0 <= i < Self::spec_max_len() ==> (#[trigger] r.spec_bit(i) == (self.spec_bit(i)
                    && other.spec_bit(i))),
    ;

    /// Bitwise OR of two base values.
    fn bit_or(self, other: Self) -> (r: Self)
        ensures
            forall|i: int|
                0 <= i < Self::spec_max_len() ==> (#[trigger] r.spec_bit(i) == (self.spec_bit(i)
                    || other.spec_bit(i))),
    ;

    /// Bitwise complement of a base value.
    fn bit_not(self) -> (r: Self)
        ensures
            forall|i: int|
                0 <= i < Self::spec_max_len() ==> (#[trigger] r.spec_bit(i) == !self.spec_bit(i)),
    ;

    /// Whether this value is strictly greater than zero, i.e. some bit is set.
    fn is_positive(self) -> (r: bool)
        ensures
            r == exists|i: int| 0 <= i < Self::spec_max_len() && #[trigger] self.spec_bit(i),
    ;
}

/// All the per-bit readings of the `u8` operations, proved once by bit
/// blasting and bridged to the [`Base`] contracts in the impl below.
proof fn u8_bit_facts(x: u8, y: u8, index: u8)
    by (bit_vector)
    requires
        index < 8,
    ensures
        forall|j: u8| j < 8 ==> (#[trigger] (0xffu8 >> j) & 1u8) == 1u8,
        forall|j: u8| j < 8 ==> (#[trigger] (0u8 >> j) & 1u8) == 0u8,
        forall|j: u8| j < 8 ==> (((#[trigger] ((1u8 << index) >> j)) & 1u8 == 1u8) <==> j == index),
        forall|j: u8|
            j < 8 ==> ((((#[trigger] ((x & y) >> j)) & 1u8) == 1u8) == (((x >> j) & 1u8 == 1u8) && (
            (y >> j) & 1u8 == 1u8))),
        forall|j: u8|
            j < 8 ==> ((((#[trigger] ((x | y) >> j)) & 1u8) == 1u8) == (((x >> j) & 1u8 == 1u8) || (
            (y >> j) & 1u8 == 1u8))),
        forall|j: u8|
            j < 8 ==> ((((#[trigger] ((!x) >> j)) & 1u8) == 1u8) == !((x >> j) & 1u8 == 1u8)),
{
}

/// A `u8` is positive exactly when one of its eight bits is set: the witness
/// is found by stripping low bits one at a time.
proof fn u8_positive_fact(x: u8)
    ensures
        (x > 0) == (exists|j: u8| j < 8 && (#[trigger] (x >> j)) & 1u8 == 1u8),
    decreases x,
{
    if x > 0 {
        if x & 1u8 == 1u8 {
            assert((x >> 0u8) & 1u8 == 1u8) by (bit_vector)
                requires
                    x & 1u8 == 1u8,
            ;
        } else {
            assert(x >> 1u8 > 0 && x >> 1u8 < x) by (bit_vector)
                requires
                    x > 0 && x & 1u8 != 1u8,
            ;
            u8_positive_fact(x >> 1u8);
            let j = choose|j: u8| j < 8 && (#[trigger] ((x >> 1u8) >> j)) & 1u8 == 1u8;
            assert(j < 7) by (bit_vector)
                requires
                    j < 8 && ((x >> 1u8) >> j) & 1u8 == 1u8,
            ;
            let j1: u8 = (j + 1) as u8;
            assert((x >> j1) & 1u8 == 1u8) by (bit_vector)
                requires
                    j1 == j + 1 && j < 7 && ((x >> 1u8) >> j) & 1u8 == 1u8,
            ;
        }
    } else {
        assert forall|j: u8| j < 8 implies (#[trigger] (x >> j)) & 1u8 != 1u8 by {
            assert(x == 0 ==> (x >> j) & 1u8 == 0u8) by (bit_vector);
        }
    }
}

impl crate::sealed::BaseSealed for u8 {

}

impl Base for u8 {
    open spec fn spec_max_len() -> u8 {
        8
    }

    open spec fn spec_bit(self, i: int) -> bool {
        0 <= i < 8 && (self >> (i as u8)) & 1u8 == 1u8
    }

    fn max_len() -> (r: u8) {
        8
    }

    fn max() -> (r: Self) {
        let r: u8 = u8::MAX;
        proof {
            u8_bit_facts(0, 0, 0);
            assert forall|i: int| 0 <= i < Self::spec_max_len() implies #[trigger] r.spec_bit(i) by {
                let j: u8 = i as u8;
                assert((0xffu8 >> j) & 1u8 == 1u8);
            }
        }
        r
    }

    fn zero() -> (r: Self) {
        let r: u8 = 0;
        proof {
            u8_bit_facts(0, 0, 0);
            assert forall|i: int| 0 <= i < Self::spec_max_len() implies !(#[trigger] r.spec_bit(i)) by {
                let j: u8 = i as u8;
                assert((0u8 >> j) & 1u8 == 0u8);
            }
        }
        r
    }

    fn one() -> (r: Self) {
        let r: u8 = 1;
        proof {
            u8_bit_facts(0, 0, 0);
            assert forall|i: int| 0 <= i < Self::spec_max_len() implies (#[trigger] r.spec_bit(i)
                <==> i == 0) by {
                let j: u8 = i as u8;
                assert((((1u8 << 0u8) >> j) & 1u8 == 1u8) <==> j == 0);
                assert((1u8 << 0u8) == 1u8) by (bit_vector);
            }
        }
        r
    }

    fn one_at_index(index: u8) -> (r: Self) {
        let r: u8 = 1u8 << index;
        proof {
            u8_bit_facts(0, 0, index);
            assert forall|i: int| 0 <= i < Self::spec_max_len() implies (#[trigger] r.spec_bit(i)
                <==> i == index) by {
                let j: u8 = i as u8;
                assert((((1u8 << index) >> j) & 1u8 == 1u8) <==> j == index);
            }
        }
        r
    }

    fn bit_and(self, other: Self) -> (r: Self) {
        let r: u8 = self & other;
        proof {
            u8_bit_facts(self, other, 0);
            assert forall|i: int| 0 <= i < Self::spec_max_len() implies (#[trigger] r.spec_bit(i)
                == (self.spec_bit(i) && other.spec_bit(i))) by {
                let j: u8 = i as u8;
                assert((((self & other) >> j) & 1u8 == 1u8) == (((self >> j) & 1u8 == 1u8) && ((
                other >> j) & 1u8 == 1u8)));
            }
        }
        r
    }

    fn bit_or(self, other: Self) -> (r: Self) {
        let r: u8 = self | other;
        proof {
            u8_bit_facts(self, other, 0);
            assert forall|i: int| 0 <= i < Self::spec_max_len() implies (#[trigger] r.spec_bit(i)
                == (self.spec_bit(i) || other.spec_bit(i))) by {
                let j: u8 = i as u8;
                assert((((self | other) >> j) & 1u8 == 1u8) == (((self >> j) & 1u8 == 1u8) || ((
                other >> j) & 1u8 == 1u8)));
            }
        }
        r
    }

    fn bit_not(self) -> (r: Self) {
        let r: u8 = !self;
        proof {
            u8_bit_facts(self, 0, 0);
            assert forall|i: int| 0 <= i < Self::spec_max_len() implies (#[trigger] r.spec_bit(i)
                == !self.spec_bit(i)) by {
                let j: u8 = i as u8;
                assert((((!self) >> j) & 1u8 == 1u8) == !((self >> j) & 1u8 == 1u8));
            }
        }
        r
    }

    fn is_positive(self) -> (r: bool) {
        let r: bool = self > 0;
        proof {
            u8_positive_fact(self);
            if r {
                let j = choose|j: u8| j < 8 && (#[trigger] (self >> j)) & 1u8 == 1u8;
                assert(self.spec_bit(j as int));
            } else {
                assert forall|i: int| 0 <= i < Self::spec_max_len() implies !(
                #[trigger] self.spec_bit(i)) by {
                    let j: u8 = i as u8;
                    assert(!(j < 8 && (self >> j) & 1u8 == 1u8));
                }
            }
        }
        r
    }
}


/// All the per-bit readings of the `u16` operations, proved once by bit
/// blasting and bridged to the [`Base`] contracts in the impl below.
proof fn u16_bit_facts(x: u16, y: u16, index: u16)
    by (bit_vector)
    requires
        index < 16,
    ensures
        forall|j: u16| j < 16 ==> (#[trigger] (0xffffu16 >> j) & 1u16) == 1u16,
        forall|j: u16| j < 16 ==> (#[trigger] (0u16 >> j) & 1u16) == 0u16,
        forall|j: u16| j < 16 ==> (((#[trigger] ((1u16 << index) >> j)) & 1u16 == 1u16) <==> j == index),
        forall|j: u16|
            j < 16 ==> ((((#[trigger] ((x & y) >> j)) & 1u16) == 1u16) == (((x >> j) & 1u16 == 1u16) && (
            (y >> j) & 1u16 == 1u16))),
        forall|j: u16|
            j < 16 ==> ((((#[trigger] ((x | y) >> j)) & 1u16) == 1u16) == (((x >> j) & 1u16 == 1u16) || (
            (y >> j) & 1u16 == 1u16))),
        forall|j: u16|
            j < 16 ==> ((((#[trigger] ((!x) >> j)) & 1u16) == 1u16) == !((x >> j) & 1u16 == 1u16)),
{
}

/// A `u16` is positive exactly when one of its bits is set: the witness is
/// found by stripping low bits one at a time.
proof fn u16_positive_fact(x: u16)
    ensures
        (x > 0) == (exists|j: u16| j < 16 && (#[trigger] (x >> j)) & 1u16 == 1u16),
    decreases x,
{
    if x > 0 {
        if x & 1u16 == 1u16 {
            assert((x >> 0u16) & 1u16 == 1u16) by (bit_vector)
                requires
                    x & 1u16 == 1u16,
            ;
        } else {
            assert(x >> 1u16 > 0 && x >> 1u16 < x) by (bit_vector)
                requires
                    x > 0 && x & 1u16 != 1u16,
            ;
            u16_positive_fact(x >> 1u16);
            let j = choose|j: u16| j < 16 && (#[trigger] ((x >> 1u16) >> j)) & 1u16 == 1u16;
            assert(j < 15) by (bit_vector)
                requires
                    j < 16 && ((x >> 1u16) >> j) & 1u16 == 1u16,
            ;
            let j1: u16 = (j + 1) as u16;
            assert((x >> j1) & 1u16 == 1u16) by (bit_vector)
                requires
                    j1 == j + 1 && j < 15 && ((x >> 1u16) >> j) & 1u16 == 1u16,
            ;
        }
    } else {
        assert forall|j: u16| j < 16 implies (#[trigger] (x >> j)) & 1u16 != 1u16 by {
            assert(x == 0 ==> (x >> j) & 1u16 == 0u16) by (bit_vector);
        }
    }
}

impl crate::sealed::BaseSealed for u16 {

}

impl Base for u16 {
    open spec fn spec_max_len() -> u8 {
        16
    }

    open spec fn spec_bit(self, i: int) -> bool {
        0 <= i < 16 && (self >> (i as u16)) & 1u16 == 1u16
    }

    fn max_len() -> (r: u8) {
        16
    }

    fn max() -> (r: Self) {
        let r: u16 = u16::MAX;
        proof {
            u16_bit_facts(0, 0, 0);
            assert forall|i: int| 0 <= i < Self::spec_max_len() implies #[trigger] r.spec_bit(i) by {
                let j: u16 = i as u16;
                assert((0xffffu16 >> j) & 1u16 == 1u16);
            }
        }
        r
    }

    fn zero() -> (r: Self) {
        let r: u16 = 0;
        proof {
            u16_bit_facts(0, 0, 0);
            assert forall|i: int| 0 <= i < Self::spec_max_len() implies !(#[trigger] r.spec_bit(i)) by {
                let j: u16 = i as u16;
                assert((0u16 >> j) & 1u16 == 0u16);
            }
        }
        r
    }

    fn one() -> (r: Self) {
        let r: u16 = 1;
        proof {
            u16_bit_facts(0, 0, 0);
            assert forall|i: int| 0 <= i < Self::spec_max_len() implies (#[trigger] r.spec_bit(i)
                <==> i == 0) by {
                let j: u16 = i as u16;
                assert((((1u16 << 0u16) >> j) & 1u16 == 1u16) <==> j == 0);
                assert((1u16 << 0u16) == 1u16) by (bit_vector);
            }
        }
        r
    }

    fn one_at_index(index: u8) -> (r: Self) {
        let idx: u16 = index as u16;
        let r: u16 = 1u16 << idx;
        proof {
            u16_bit_facts(0, 0, idx);
            assert forall|i: int| 0 <= i < Self::spec_max_len() implies (#[trigger] r.spec_bit(i)
                <==> i == index) by {
                let j: u16 = i as u16;
                assert((((1u16 << idx) >> j) & 1u16 == 1u16) <==> j == idx);
            }
        }
        r
    }

    fn bit_and(self, other: Self) -> (r: Self) {
        let r: u16 = self & other;
        proof {
            u16_bit_facts(self, other, 0);
            assert forall|i: int| 0 <= i < Self::spec_max_len() implies (#[trigger] r.spec_bit(i)
                == (self.spec_bit(i) && other.spec_bit(i))) by {
                let j: u16 = i as u16;
                assert((((self & other) >> j) & 1u16 == 1u16) == (((self >> j) & 1u16 == 1u16) && ((
                other >> j) & 1u16 == 1u16)));
            }
        }
        r
    }

    fn bit_or(self, other: Self) -> (r: Self) {
        let r: u16 = self | other;
        proof {
            u16_bit_facts(self, other, 0);
            assert forall|i: int| 0 <= i < Self::spec_max_len() implies (#[trigger] r.spec_bit(i)
                == (self.spec_bit(i) || other.spec_bit(i))) by {
                let j: u16 = i as u16;
                assert((((self | other) >> j) & 1u16 == 1u16) == (((self >> j) & 1u16 == 1u16) || ((
                other >> j) & 1u16 == 1u16)));
            }
        }
        r
    }

    fn bit_not(self) -> (r: Self) {
        let r: u16 = !self;
        proof {
            u16_bit_facts(self, 0, 0);
            assert forall|i: int| 0 <= i < Self::spec_max_len() implies (#[trigger] r.spec_bit(i)
                == !self.spec_bit(i)) by {
                let j: u16 = i as u16;
                assert((((!self) >> j) & 1u16 == 1u16) == !((self >> j) & 1u16 == 1u16));
            }
        }
        r
    }

    fn is_positive(self) -> (r: bool) {
        let r: bool = self > 0;
        proof {
            u16_positive_fact(self);
            if r {
                let j = choose|j: u16| j < 16 && (#[trigger] (self >> j)) & 1u16 == 1u16;
                assert(self.spec_bit(j as int));
            } else {
                assert forall|i: int| 0 <= i < Self::spec_max_len() implies !(
                #[trigger] self.spec_bit(i)) by {
                    let j: u16 = i as u16;
                    assert(!(j < 16 && (self >> j) & 1u16 == 1u16));
                }
            }
        }
        r
    }
}

/// All the per-bit readings of the `u32` operations, proved once by bit
/// blasting and bridged to the [`Base`] contracts in the impl below.
proof fn u32_bit_facts(x: u32, y: u32, index: u32)
    by (bit_vector)
    requires
        index < 32,
    ensures
        forall|j: u32| j < 32 ==> (#[trigger] (0xffff_ffffu32 >> j) & 1u32) == 1u32,
        forall|j: u32| j < 32 ==> (#[trigger] (0u32 >> j) & 1u32) == 0u32,
        forall|j: u32| j < 32 ==> (((#[trigger] ((1u32 << index) >> j)) & 1u32 == 1u32) <==> j == index),
        forall|j: u32|
            j < 32 ==> ((((#[trigger] ((x & y) >> j)) & 1u32) == 1u32) == (((x >> j) & 1u32 == 1u32) && (
            (y >> j) & 1u32 == 1u32))),
        forall|j: u32|
            j < 32 ==> ((((#[trigger] ((x | y) >> j)) & 1u32) == 1u32) == (((x >> j) & 1u32 == 1u32) || (
            (y >> j) & 1u32 == 1u32))),
        forall|j: u32|
            j < 32 ==> ((((#[trigger] ((!x) >> j)) & 1u32) == 1u32) == !((x >> j) & 1u32 == 1u32)),
{
}

/// A `u32` is positive exactly when one of its bits is set: the witness is
/// found by stripping low bits one at a time.
proof fn u32_positive_fact(x: u32)
    ensures
        (x > 0) == (exists|j: u32| j < 32 && (#[trigger] (x >> j)) & 1u32 == 1u32),
    decreases x,
{
    if x > 0 {
        if x & 1u32 == 1u32 {
            assert((x >> 0u32) & 1u32 == 1u32) by (bit_vector)
                requires
                    x & 1u32 == 1u32,
            ;
        } else {
            assert(x >> 1u32 > 0 && x >> 1u32 < x) by (bit_vector)
                requires
                    x > 0 && x & 1u32 != 1u32,
            ;
            u32_positive_fact(x >> 1u32);
            let j = choose|j: u32| j < 32 && (#[trigger] ((x >> 1u32) >> j)) & 1u32 == 1u32;
            assert(j < 31) by (bit_vector)
                requires
                    j < 32 && ((x >> 1u32) >> j) & 1u32 == 1u32,
            ;
            let j1: u32 = (j + 1) as u32;
            assert((x >> j1) & 1u32 == 1u32) by (bit_vector)
                requires
                    j1 == j + 1 && j < 31 && ((x >> 1u32) >> j) & 1u32 == 1u32,
            ;
        }
    } else {
        assert forall|j: u32| j < 32 implies (#[trigger] (x >> j)) & 1u32 != 1u32 by {
            assert(x == 0 ==> (x >> j) & 1u32 == 0u32) by (bit_vector);
        }
    }
}

impl crate::sealed::BaseSealed for u32 {

}

impl Base for u32 {
    open spec fn spec_max_len() -> u8 {
        32
    }

    open spec fn spec_bit(self, i: int) -> bool {
        0 <= i < 32 && (self >> (i as u32)) & 1u32 == 1u32
    }

    fn max_len() -> (r: u8) {
        32
    }

    fn max() -> (r: Self) {
        let r: u32 = u32::MAX;
        proof {
            u32_bit_facts(0, 0, 0);
            assert forall|i: int| 0 <= i < Self::spec_max_len() implies #[trigger] r.spec_bit(i) by {
                let j: u32 = i as u32;
                assert((0xffff_ffffu32 >> j) & 1u32 == 1u32);
            }
        }
        r
    }

    fn zero() -> (r: Self) {
        let r: u32 = 0;
        proof {
            u32_bit_facts(0, 0, 0);
            assert forall|i: int| 0 <= i < Self::spec_max_len() implies !(#[trigger] r.spec_bit(i)) by {
                let j: u32 = i as u32;
                assert((0u32 >> j) & 1u32 == 0u32);
            }
        }
        r
    }

    fn one() -> (r: Self) {
        let r: u32 = 1;
        proof {
            u32_bit_facts(0, 0, 0);
            assert forall|i: int| 0 <= i < Self::spec_max_len() implies (#[trigger] r.spec_bit(i)
                <==> i == 0) by {
                let j: u32 = i as u32;
                assert((((1u32 << 0u32) >> j) & 1u32 == 1u32) <==> j == 0);
                assert((1u32 << 0u32) == 1u32) by (bit_vector);
            }
        }
        r
    }

    fn one_at_index(index: u8) -> (r: Self) {
        let idx: u32 = index as u32;
        let r: u32 = 1u32 << idx;
        proof {
            u32_bit_facts(0, 0, idx);
            assert forall|i: int| 0 <= i < Self::spec_max_len() implies (#[trigger] r.spec_bit(i)
                <==> i == index) by {
                let j: u32 = i as u32;
                assert((((1u32 << idx) >> j) & 1u32 == 1u32) <==> j == idx);
            }
        }
        r
    }

    fn bit_and(self, other: Self) -> (r: Self) {
        let r: u32 = self & other;
        proof {
            u32_bit_facts(self, other, 0);
            assert forall|i: int| 0 <= i < Self::spec_max_len() implies (#[trigger] r.spec_bit(i)
                == (self.spec_bit(i) && other.spec_bit(i))) by {
                let j: u32 = i as u32;
                assert((((self & other) >> j) & 1u32 == 1u32) == (((self >> j) & 1u32 == 1u32) && ((
                other >> j) & 1u32 == 1u32)));
            }
        }
        r
    }

    fn bit_or(self, other: Self) -> (r: Self) {
        let r: u32 = self | other;
        proof {
            u32_bit_facts(self, other, 0);
            assert forall|i: int| 0 <= i < Self::spec_max_len() implies (#[trigger] r.spec_bit(i)
                == (self.spec_bit(i) || other.spec_bit(i))) by {
                let j: u32 = i as u32;
                assert((((self | other) >> j) & 1u32 == 1u32) == (((self >> j) & 1u32 == 1u32) || ((
                other >> j) & 1u32 == 1u32)));
            }
        }
        r
    }

    fn bit_not(self) -> (r: Self) {
        let r: u32 = !self;
        proof {
            u32_bit_facts(self, 0, 0);
            assert forall|i: int| 0 <= i < Self::spec_max_len() implies (#[trigger] r.spec_bit(i)
                == !self.spec_bit(i)) by {
                let j: u32 = i as u32;
                assert((((!self) >> j) & 1u32 == 1u32) == !((self >> j) & 1u32 == 1u32));
            }
        }
        r
    }

    fn is_positive(self) -> (r: bool) {
        let r: bool = self > 0;
        proof {
            u32_positive_fact(self);
            if r {
                let j = choose|j: u32| j < 32 && (#[trigger] (self >> j)) & 1u32 == 1u32;
                assert(self.spec_bit(j as int));
            } else {
                assert forall|i: int| 0 <= i < Self::spec_max_len() implies !(
                #[trigger] self.spec_bit(i)) by {
                    let j: u32 = i as u32;
                    assert(!(j < 32 && (self >> j) & 1u32 == 1u32));
                }
            }
        }
        r
    }
}

/// All the per-bit readings of the `u64` operations, proved once by bit
/// blasting and bridged to the [`Base`] contracts in the impl below.
proof fn u64_bit_facts(x: u64, y: u64, index: u64)
    by (bit_vector)
    requires
        index < 64,
    ensures
        forall|j: u64| j < 64 ==> (#[trigger] (0xffff_ffff_ffff_ffffu64 >> j) & 1u64) == 1u64,
        forall|j: u64| j < 64 ==> (#[trigger] (0u64 >> j) & 1u64) == 0u64,
        forall|j: u64| j < 64 ==> (((#[trigger] ((1u64 << index) >> j)) & 1u64 == 1u64) <==> j == index),
        forall|j: u64|
            j < 64 ==> ((((#[trigger] ((x & y) >> j)) & 1u64) == 1u64) == (((x >> j) & 1u64 == 1u64) && (
            (y >> j) & 1u64 == 1u64))),
        forall|j: u64|
            j < 64 ==> ((((#[trigger] ((x | y) >> j)) & 1u64) == 1u64) == (((x >> j) & 1u64 == 1u64) || (
            (y >> j) & 1u64 == 1u64))),
        forall|j: u64|
            j < 64 ==> ((((#[trigger] ((!x) >> j)) & 1u64) == 1u64) == !((x >> j) & 1u64 == 1u64)),
{
}

/// A `u64` is positive exactly when one of its bits is set: the witness is
/// found by stripping low bits one at a time.
proof fn u64_positive_fact(x: u64)
    ensures
        (x > 0) == (exists|j: u64| j < 64 && (#[trigger] (x >> j)) & 1u64 == 1u64),
    decreases x,
{
    if x > 0 {
        if x & 1u64 == 1u64 {
            assert((x >> 0u64) & 1u64 == 1u64) by (bit_vector)
                requires
                    x & 1u64 == 1u64,
            ;
        } else {
            assert(x >> 1u64 > 0 && x >> 1u64 < x) by (bit_vector)
                requires
                    x > 0 && x & 1u64 != 1u64,
            ;
            u64_positive_fact(x >> 1u64);
            let j = choose|j: u64| j < 64 && (#[trigger] ((x >> 1u64) >> j)) & 1u64 == 1u64;
            assert(j < 63) by (bit_vector)
                requires
                    j < 64 && ((x >> 1u64) >> j) & 1u64 == 1u64,
            ;
            let j1: u64 = (j + 1) as u64;
            assert((x >> j1) & 1u64 == 1u64) by (bit_vector)
                requires
                    j1 == j + 1 && j < 63 && ((x >> 1u64) >> j) & 1u64 == 1u64,
            ;
        }
    } else {
        assert forall|j: u64| j < 64 implies (#[trigger] (x >> j)) & 1u64 != 1u64 by {
            assert(x == 0 ==> (x >> j) & 1u64 == 0u64) by (bit_vector);
        }
    }
}

impl crate::sealed::BaseSealed for u64 {

}

impl Base for u64 {
    open spec fn spec_max_len() -> u8 {
        64
    }

    open spec fn spec_bit(self, i: int) -> bool {
        0 <= i < 64 && (self >> (i as u64)) & 1u64 == 1u64
    }

    fn max_len() -> (r: u8) {
        64
    }

    fn max() -> (r: Self) {
        let r: u64 = u64::MAX;
        proof {
            u64_bit_facts(0, 0, 0);
            assert forall|i: int| 0 <= i < Self::spec_max_len() implies #[trigger] r.spec_bit(i) by {
                let j: u64 = i as u64;
                assert((0xffff_ffff_ffff_ffffu64 >> j) & 1u64 == 1u64);
            }
        }
        r
    }

    fn zero() -> (r: Self) {
        let r: u64 = 0;
        proof {
            u64_bit_facts(0, 0, 0);
            assert forall|i: int| 0 <= i < Self::spec_max_len() implies !(#[trigger] r.spec_bit(i)) by {
                let j: u64 = i as u64;
                assert((0u64 >> j) & 1u64 == 0u64);
            }
        }
        r
    }

    fn one() -> (r: Self) {
        let r: u64 = 1;
        proof {
            u64_bit_facts(0, 0, 0);
            assert forall|i: int| 0 <= i < Self::spec_max_len() implies (#[trigger] r.spec_bit(i)
                <==> i == 0) by {
                let j: u64 = i as u64;
                assert((((1u64 << 0u64) >> j) & 1u64 == 1u64) <==> j == 0);
                assert((1u64 << 0u64) == 1u64) by (bit_vector);
            }
        }
        r
    }

    fn one_at_index(index: u8) -> (r: Self) {
        let idx: u64 = index as u64;
        let r: u64 = 1u64 << idx;
        proof {
            u64_bit_facts(0, 0, idx);
            assert forall|i: int| 0 <= i < Self::spec_max_len() implies (#[trigger] r.spec_bit(i)
                <==> i == index) by {
                let j: u64 = i as u64;
                assert((((1u64 << idx) >> j) & 1u64 == 1u64) <==> j == idx);
            }
        }
        r
    }

    fn bit_and(self, other: Self) -> (r: Self) {
        let r: u64 = self & other;
        proof {
            u64_bit_facts(self, other, 0);
            assert forall|i: int| 0 <= i < Self::spec_max_len() implies (#[trigger] r.spec_bit(i)
                == (self.spec_bit(i) && other.spec_bit(i))) by {
                let j: u64 = i as u64;
                assert((((self & other) >> j) & 1u64 == 1u64) == (((self >> j) & 1u64 == 1u64) && ((
                other >> j) & 1u64 == 1u64)));
            }
        }
        r
    }

    fn bit_or(self, other: Self) -> (r: Self) {
        let r: u64 = self | other;
        proof {
            u64_bit_facts(self, other, 0);
            assert forall|i: int| 0 <= i < Self::spec_max_len() implies (#[trigger] r.spec_bit(i)
                == (self.spec_bit(i) || other.spec_bit(i))) by {
                let j: u64 = i as u64;
                assert((((self | other) >> j) & 1u64 == 1u64) == (((self >> j) & 1u64 == 1u64) || ((
                other >> j) & 1u64 == 1u64)));
            }
        }
        r
    }

    fn bit_not(self) -> (r: Self) {
        let r: u64 = !self;
        proof {
            u64_bit_facts(self, 0, 0);
            assert forall|i: int| 0 <= i < Self::spec_max_len() implies (#[trigger] r.spec_bit(i)
                == !self.spec_bit(i)) by {
                let j: u64 = i as u64;
                assert((((!self) >> j) & 1u64 == 1u64) == !((self >> j) & 1u64 == 1u64));
            }
        }
        r
    }

    fn is_positive(self) -> (r: bool) {
        let r: bool = self > 0;
        proof {
            u64_positive_fact(self);
            if r {
                let j = choose|j: u64| j < 64 && (#[trigger] (self >> j)) & 1u64 == 1u64;
                assert(self.spec_bit(j as int));
            } else {
                assert forall|i: int| 0 <= i < Self::spec_max_len() implies !(
                #[trigger] self.spec_bit(i)) by {
                    let j: u64 = i as u64;
                    assert(!(j < 64 && (self >> j) & 1u64 == 1u64));
                }
            }
        }
        r
    }
}

/// All the per-bit readings of the `u128` operations, proved once by bit
/// blasting and bridged to the [`Base`] contracts in the impl below.
proof fn u128_bit_facts(x: u128, y: u128, index: u128)
    by (bit_vector)
    requires
        index < 128,
    ensures
        forall|j: u128| j < 128 ==> (#[trigger] (0xffff_ffff_ffff_ffff_ffff_ffff_ffff_ffffu128 >> j) & 1u128) == 1u128,
        forall|j: u128| j < 128 ==> (#[trigger] (0u128 >> j) & 1u128) == 0u128,
        forall|j: u128| j < 128 ==> (((#[trigger] ((1u128 << index) >> j)) & 1u128 == 1u128) <==> j == index),
        forall|j: u128|
            j < 128 ==> ((((#[trigger] ((x & y) >> j)) & 1u128) == 1u128) == (((x >> j) & 1u128 == 1u128) && (
            (y >> j) & 1u128 == 1u128))),
        forall|j: u128|
            j < 128 ==> ((((#[trigger] ((x | y) >> j)) & 1u128) == 1u128) == (((x >> j) & 1u128 == 1u128) || (
            (y >> j) & 1u128 == 1u128))),
        forall|j: u128|
            j < 128 ==> ((((#[trigger] ((!x) >> j)) & 1u128) == 1u128) == !((x >> j) & 1u128 == 1u128)),
{
}

/// A `u128` is positive exactly when one of its bits is set: the witness is
/// found by stripping low bits one at a time.
proof fn u128_positive_fact(x: u128)
    ensures
        (x > 0) == (exists|j: u128| j < 128 && (#[trigger] (x >> j)) & 1u128 == 1u128),
    decreases x,
{
    if x > 0 {
        if x & 1u128 == 1u128 {
            assert((x >> 0u128) & 1u128 == 1u128) by (bit_vector)
                requires
                    x & 1u128 == 1u128,
            ;
        } else {
            assert(x >> 1u128 > 0 && x >> 1u128 < x) by (bit_vector)
                requires
                    x > 0 && x & 1u128 != 1u128,
            ;
            u128_positive_fact(x >> 1u128);
            let j = choose|j: u128| j < 128 && (#[trigger] ((x >> 1u128) >> j)) & 1u128 == 1u128;
            assert(j < 127) by (bit_vector)
                requires
                    j < 128 && ((x >> 1u128) >> j) & 1u128 == 1u128,
            ;
            let j1: u128 = (j + 1) as u128;
            assert((x >> j1) & 1u128 == 1u128) by (bit_vector)
                requires
                    j1 == j + 1 && j < 127 && ((x >> 1u128) >> j) & 1u128 == 1u128,
            ;
        }
    } else {
        assert forall|j: u128| j < 128 implies (#[trigger] (x >> j)) & 1u128 != 1u128 by {
            assert(x == 0 ==> (x >> j) & 1u128 == 0u128) by (bit_vector);
        }
    }
}

impl crate::sealed::BaseSealed for u128 {

}

impl Base for u128 {
    open spec fn spec_max_len() -> u8 {
        128
    }

    open spec fn spec_bit(self, i: int) -> bool {
        0 <= i < 128 && (self >> (i as u128)) & 1u128 == 1u128
    }

    fn max_len() -> (r: u8) {
        128
    }

    fn max() -> (r: Self) {
        let r: u128 = u128::MAX;
        proof {
            u128_bit_facts(0, 0, 0);
            assert forall|i: int| 0 <= i < Self::spec_max_len() implies #[trigger] r.spec_bit(i) by {
                let j: u128 = i as u128;
                assert((0xffff_ffff_ffff_ffff_ffff_ffff_ffff_ffffu128 >> j) & 1u128 == 1u128);
            }
        }
        r
    }

    fn zero() -> (r: Self) {
        let r: u128 = 0;
        proof {
            u128_bit_facts(0, 0, 0);
            assert forall|i: int| 0 <= i < Self::spec_max_len() implies !(#[trigger] r.spec_bit(i)) by {
                let j: u128 = i as u128;
                assert((0u128 >> j) & 1u128 == 0u128);
            }
        }
        r
    }

    fn one() -> (r: Self) {
        let r: u128 = 1;
        proof {
            u128_bit_facts(0, 0, 0);
            assert forall|i: int| 0 <= i < Self::spec_max_len() implies (#[trigger] r.spec_bit(i)
                <==> i == 0) by {
                let j: u128 = i as u128;
                assert((((1u128 << 0u128) >> j) & 1u128 == 1u128) <==> j == 0);
                assert((1u128 << 0u128) == 1u128) by (bit_vector);
            }
        }
        r
    }

    fn one_at_index(index: u8) -> (r: Self) {
        let idx: u128 = index as u128;
        let r: u128 = 1u128 << idx;
        proof {
            u128_bit_facts(0, 0, idx);
            assert forall|i: int| 0 <= i < Self::spec_max_len() implies (#[trigger] r.spec_bit(i)
                <==> i == index) by {
                let j: u128 = i as u128;
                assert((((1u128 << idx) >> j) & 1u128 == 1u128) <==> j == idx);
            }
        }
        r
    }

    fn bit_and(self, other: Self) -> (r: Self) {
        let r: u128 = self & other;
        proof {
            u128_bit_facts(self, other, 0);
            assert forall|i: int| 0 <= i < Self::spec_max_len() implies (#[trigger] r.spec_bit(i)
                == (self.spec_bit(i) && other.spec_bit(i))) by {
                let j: u128 = i as u128;
                assert((((self & other) >> j) & 1u128 == 1u128) == (((self >> j) & 1u128 == 1u128) && ((
                other >> j) & 1u128 == 1u128)));
            }
        }
        r
    }

    fn bit_or(self, other: Self) -> (r: Self) {
        let r: u128 = self | other;
        proof {
            u128_bit_facts(self, other, 0);
            assert forall|i: int| 0 <= i < Self::spec_max_len() implies (#[trigger] r.spec_bit(i)
                == (self.spec_bit(i) || other.spec_bit(i))) by {
                let j: u128 = i as u128;
                assert((((self | other) >> j) & 1u128 == 1u128) == (((self >> j) & 1u128 == 1u128) || ((
                other >> j) & 1u128 == 1u128)));
            }
        }
        r
    }

    fn bit_not(self) -> (r: Self) {
        let r: u128 = !self;
        proof {
            u128_bit_facts(self, 0, 0);
            assert forall|i: int| 0 <= i < Self::spec_max_len() implies (#[trigger] r.spec_bit(i)
                == !self.spec_bit(i)) by {
                let j: u128 = i as u128;
                assert((((!self) >> j) & 1u128 == 1u128) == !((self >> j) & 1u128 == 1u128));
            }
        }
        r
    }

    fn is_positive(self) -> (r: bool) {
        let r: bool = self > 0;
        proof {
            u128_positive_fact(self);
            if r {
                let j = choose|j: u128| j < 128 && (#[trigger] (self >> j)) & 1u128 == 1u128;
                assert(self.spec_bit(j as int));
            } else {
                assert forall|i: int| 0 <= i < Self::spec_max_len() implies !(
                #[trigger] self.spec_bit(i)) by {
                    let j: u128 = i as u128;
                    assert(!(j < 128 && (self >> j) & 1u128 == 1u128));
                }
            }
        }
        r
    }
}

} // verus!
