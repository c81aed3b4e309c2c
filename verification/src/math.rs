//! Vector operations shared by the vector types.

use vstd::prelude::*;

verus! {

/// Operations every vector type offers.
pub trait Vector {
    /// The vector scaled to unit length.
    fn normalize(self) -> Self;

    /// The component-wise product with `other`.
    fn dot(self, other: Self) -> Self;
}

} // verus!
