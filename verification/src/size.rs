//! The capacity that each bitmap type announces.
use vstd::prelude::*;

verus! {

/// A bitmap whose number of bits is fixed by its type.
pub trait BitmapSize {
    /// The number of bits in the bitmap.
    const MAP_LENGTH: usize;
}

} // verus!
