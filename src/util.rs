//! Helpers shared by the geometry and animation layers.
use vstd::prelude::*;
use crate::error::MathError;
use crate::number::{Number, fits, floor_sqrt, trunc_div};

verus! {

/// What `quadsolve` returns for the coefficients `a`, `b`, `c`.
pub open spec fn quadsolve_model<T: Number>(a: int, b: int, c: int) -> Result<(int, int), MathError> {
    let bb = b * b;
    let a4 = a * 4;
    let a4c = a4 * c;
    let delta = bb - a4c;
    let s = floor_sqrt(delta);
    let nb = -b;
    let a2 = a * 2;
    if !(fits::<T>(bb) && fits::<T>(a4) && fits::<T>(a4c) && fits::<T>(delta) && fits::<T>(nb)
        && fits::<T>(nb + s) && fits::<T>(nb - s) && fits::<T>(a2)) {
        Err(MathError::Overflow)
    } else if a2 == 0 {
        Err(MathError::DegenerateValue)
    } else if !(fits::<T>(trunc_div(nb + s, a2)) && fits::<T>(trunc_div(nb - s, a2))) {
        Err(MathError::Overflow)
    } else {
        Ok((trunc_div(nb + s, a2), trunc_div(nb - s, a2)))
    }
}

/// The view of a pair result.
pub open spec fn pair_result<T: Number>(r: Result<(T, T), MathError>) -> Result<(int, int), MathError> {
    match r {
        Ok((x, y)) => Ok((x.val(), y.val())),
        Err(e) => Err(e),
    }
}

/// Returns the solutions of `a x^2 + b x + c = 0` by the quadratic formula, in integer
/// arithmetic: the square root of the discriminant is rounded down (zero when it is
/// negative) and the division rounds toward zero.
///
/// Returns an Err if `a` is zero, or an intermediate value is not representable.
pub fn quadsolve<T: Number>(a: T, b: T, c: T) -> (r: Result<(T, T), MathError>)
    ensures
        pair_result(r) == quadsolve_model::<T>(a.val(), b.val(), c.val()),
{
    proof {
        T::lemma_bounds();
    }
    let four = T::from_i32(4);
    let two = T::from_i32(2);
    let bb = match b.checked_mul(b) {
        Some(x) => x,
        None => return Err(MathError::Overflow),
    };
    let a4 = match a.checked_mul(four) {
        Some(x) => x,
        None => return Err(MathError::Overflow),
    };
    let a4c = match a4.checked_mul(c) {
        Some(x) => x,
        None => return Err(MathError::Overflow),
    };
    let delta = match bb.checked_sub(a4c) {
        Some(x) => x,
        None => return Err(MathError::Overflow),
    };
    let s = delta.sqrt();
    let nb = match b.checked_neg() {
        Some(x) => x,
        None => return Err(MathError::Overflow),
    };
    let p = match nb.checked_add(s) {
        Some(x) => x,
        None => return Err(MathError::Overflow),
    };
    let q = match nb.checked_sub(s) {
        Some(x) => x,
        None => return Err(MathError::Overflow),
    };
    let a2 = match a.checked_mul(two) {
        Some(x) => x,
        None => return Err(MathError::Overflow),
    };
    proof {
        T::lemma_range(bb);
        T::lemma_range(a4);
        T::lemma_range(a4c);
        T::lemma_range(delta);
        T::lemma_range(nb);
        T::lemma_range(p);
        T::lemma_range(q);
        T::lemma_range(a2);
    }
    if a2.is_zero() {
        return Err(MathError::DegenerateValue);
    }
    let x1 = match p.checked_div(a2) {
        Some(x) => x,
        None => return Err(MathError::Overflow),
    };
    let x2 = match q.checked_div(a2) {
        Some(x) => x,
        None => return Err(MathError::Overflow),
    };
    proof {
        T::lemma_range(x1);
        T::lemma_range(x2);
    }
    Ok((x1, x2))
}

} // verus!
