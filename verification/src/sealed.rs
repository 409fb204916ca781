use vstd::prelude::*;

verus! {

/// Used to seal the [`crate::Base`] trait: only the five unsigned integer
/// widths declared in this crate may implement it.
pub trait BaseSealed {

}

} // verus!
