//! Errors of the geometry layer.
use vstd::prelude::*;

verus! {

/// Why an operation on points, vectors or matrices failed.
#[derive(PartialEq, Eq, Structural, Clone, Copy, Debug)]
pub enum MathError {
    /// Operands of incompatible sizes.
    DimensionMismatch,
    /// A non-square matrix where a square one is needed, or not 2x2 where 2x2 is needed.
    InvalidShape,
    /// A zero norm or a zero determinant where a division by it is needed.
    DegenerateValue,
    /// An intermediate or final value is not representable by the scalar type.
    Overflow,
}

} // verus!
