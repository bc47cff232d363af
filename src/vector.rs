//! An n-dimensional vector and its operations.
use vstd::prelude::*;
use crate::error::MathError;
use crate::number::{
    Number, fits, floor_sqrt, trunc_div, lemma_floor_sqrt_exists, lemma_trunc_div_shrinks,
};

verus! {

/// The sum of `a[i] * b[i]` over the first `n` positions.
pub open spec fn dot_prefix(a: Seq<int>, b: Seq<int>, n: nat) -> int
    decreases n,
{
    if n == 0 {
        0
    } else {
        dot_prefix(a, b, (n - 1) as nat) + a[n - 1] * b[n - 1]
    }
}

/// The dot product of two sequences of equal length.
pub open spec fn dot_spec(a: Seq<int>, b: Seq<int>) -> int {
    dot_prefix(a, b, a.len())
}

/// Whether accumulating the first `n` products left to right keeps every product
/// and every partial sum representable by `T`.
pub open spec fn dot_fits<T: Number>(a: Seq<int>, b: Seq<int>, n: nat) -> bool
    decreases n,
{
    if n == 0 {
        true
    } else {
        dot_fits::<T>(a, b, (n - 1) as nat) && fits::<T>(a[n - 1] * b[n - 1]) && fits::<T>(
            dot_prefix(a, b, n),
        )
    }
}

/// What `dot` returns.
pub open spec fn dot_model<T: Number>(a: Seq<int>, b: Seq<int>) -> Result<int, MathError> {
    if a.len() != b.len() {
        Err(MathError::DimensionMismatch)
    } else if !dot_fits::<T>(a, b, a.len()) {
        Err(MathError::Overflow)
    } else {
        Ok(dot_spec(a, b))
    }
}

/// The Euclidean norm rounded down, where the sum of squares is representable.
pub open spec fn norm_model<T: Number>(v: Seq<int>) -> Result<int, MathError> {
    match dot_model::<T>(v, v) {
        Ok(s) => Ok(floor_sqrt(s)),
        Err(e) => Err(e),
    }
}

/// What `normalize` returns: each coordinate divided by the norm, rounded toward zero.
pub open spec fn normalize_model<T: Number>(v: Seq<int>) -> Result<Seq<int>, MathError> {
    match norm_model::<T>(v) {
        Ok(n) => if n == 0 {
            Err(MathError::DegenerateValue)
        } else {
            Ok(v.map_values(|x: int| trunc_div(x, n)))
        },
        Err(e) => Err(e),
    }
}

/// Coordinate-wise sum of two sequences of equal length.
pub open spec fn add_spec(a: Seq<int>, b: Seq<int>) -> Seq<int> {
    Seq::new(a.len(), |i: int| a[i] + b[i])
}

/// What `add` returns.
pub open spec fn add_model<T: Number>(a: Seq<int>, b: Seq<int>) -> Result<Seq<int>, MathError> {
    if a.len() != b.len() {
        Err(MathError::DimensionMismatch)
    } else if !(forall|i: int| 0 <= i < a.len() ==> fits::<T>(#[trigger] add_spec(a, b)[i])) {
        Err(MathError::Overflow)
    } else {
        Ok(add_spec(a, b))
    }
}

/// The three coordinates of the cross product of two 3D sequences.
pub open spec fn cross_spec(a: Seq<int>, b: Seq<int>) -> Seq<int> {
    seq![
        a[1] * b[2] - a[2] * b[1],
        a[2] * b[0] - a[0] * b[2],
        a[0] * b[1] - a[1] * b[0],
    ]
}

/// Whether the cross product, evaluated product by product, stays representable by `T`.
pub open spec fn cross_fits<T: Number>(a: Seq<int>, b: Seq<int>) -> bool {
    &&& fits::<T>(a[1] * b[2]) && fits::<T>(a[2] * b[1]) && fits::<T>(a[1] * b[2] - a[2] * b[1])
    &&& fits::<T>(a[2] * b[0]) && fits::<T>(a[0] * b[2]) && fits::<T>(a[2] * b[0] - a[0] * b[2])
    &&& fits::<T>(a[0] * b[1]) && fits::<T>(a[1] * b[0]) && fits::<T>(a[0] * b[1] - a[1] * b[0])
}

/// What `cross` returns.
pub open spec fn cross_model<T: Number>(a: Seq<int>, b: Seq<int>) -> Result<Seq<int>, MathError> {
    if a.len() != b.len() || a.len() != 3 {
        Err(MathError::DimensionMismatch)
    } else if !cross_fits::<T>(a, b) {
        Err(MathError::Overflow)
    } else {
        Ok(cross_spec(a, b))
    }
}

/// What `scale` returns for a scalar of type `U`.
pub open spec fn scale_model<U: Number>(s: int, v: Seq<int>) -> Result<Seq<int>, MathError> {
    if forall|i: int| 0 <= i < v.len() ==> fits::<U>(#[trigger] v[i]) && fits::<U>(s * v[i]) {
        Ok(v.map_values(|x: int| s * x))
    } else {
        Err(MathError::Overflow)
    }
}

/// The view of a scalar result.
pub open spec fn scalar_result<T: Number>(r: Result<T, MathError>) -> Result<int, MathError> {
    match r {
        Ok(x) => Ok(x.val()),
        Err(e) => Err(e),
    }
}

/// The view of a sequence of scalars.
pub open spec fn seq_view<T: Number>(s: Seq<T>) -> Seq<int> {
    s.map_values(|x: T| x.val())
}

/// The dot product is symmetric: for sequences of equal length, `a . b` and `b . a` are
/// the same value, and one is representable exactly when the other is.
pub proof fn lemma_dot_commutative<T: Number>(a: Seq<int>, b: Seq<int>)
    requires
        a.len() == b.len(),
    ensures
        dot_model::<T>(a, b) == dot_model::<T>(b, a),
{
    lemma_dot_prefix_commutative::<T>(a, b, a.len());
}

/// The partial dot products and their representability do not depend on the order of the operands.
pub proof fn lemma_dot_prefix_commutative<T: Number>(a: Seq<int>, b: Seq<int>, n: nat)
    ensures
        dot_prefix(a, b, n) == dot_prefix(b, a, n),
        dot_fits::<T>(a, b, n) == dot_fits::<T>(b, a, n),
    decreases n,
{
    if n > 0 {
        lemma_dot_prefix_commutative::<T>(a, b, (n - 1) as nat);
        assert(a[n - 1] * b[n - 1] == b[n - 1] * a[n - 1]) by (nonlinear_arith);
    }
}

/// Dividing a multiple of a positive number by it, rounded toward zero, is exact.
proof fn lemma_trunc_div_exact(x: int, n: int)
    requires
        n > 0,
        x % n == 0,
    ensures
        trunc_div(x, n) * n == x,
{
    vstd::arithmetic::div_mod::lemma_fundamental_div_mod(x, n);
    let q = x / n;
    assert(x == n * q);
    if x < 0 {
        assert(-x == n * (-q)) by (nonlinear_arith)
            requires x == n * q;
        vstd::arithmetic::div_mod::lemma_div_multiples_vanish(-q, n);
        assert(trunc_div(x, n) == q);
    }
    assert(q * n == n * q) by (nonlinear_arith);
}

/// Scaling every coordinate by `n` scales every partial sum of squares by `n * n`.
proof fn lemma_scaled_squares(v: Seq<int>, w: Seq<int>, n: int, k: nat)
    requires
        v.len() == w.len(),
        k <= v.len(),
        forall|i: int| 0 <= i < v.len() ==> #[trigger] v[i] == w[i] * n,
    ensures
        dot_prefix(v, v, k) == n * n * dot_prefix(w, w, k),
        dot_prefix(w, w, k) >= 0,
    decreases k,
{
    if k > 0 {
        lemma_scaled_squares(v, w, n, (k - 1) as nat);
        let a = w[k - 1];
        let p = dot_prefix(w, w, (k - 1) as nat);
        assert(v[k - 1] * v[k - 1] == n * n * (a * a)) by (nonlinear_arith)
            requires v[k - 1] == a * n;
        assert(n * n * p + n * n * (a * a) == n * n * (p + a * a)) by (nonlinear_arith);
        assert(a * a >= 0) by (nonlinear_arith);
    }
}

/// With `n > 0`, a partial sum of squares of the scaled-down sequence lies between zero and
/// the corresponding partial sum of the original, and so does each square.
proof fn lemma_scaled_fits<T: Number>(v: Seq<int>, w: Seq<int>, n: int, k: nat)
    requires
        v.len() == w.len(),
        k <= v.len(),
        n > 0,
        forall|i: int| 0 <= i < v.len() ==> #[trigger] v[i] == w[i] * n,
        dot_fits::<T>(v, v, k),
    ensures
        dot_fits::<T>(w, w, k),
    decreases k,
{
    if k > 0 {
        lemma_scaled_fits::<T>(v, w, n, (k - 1) as nat);
        lemma_scaled_squares(v, w, n, k);
        let a = w[k - 1];
        let pw = dot_prefix(w, w, k);
        let pv = dot_prefix(v, v, k);
        assert(0 <= a * a <= v[k - 1] * v[k - 1]) by (nonlinear_arith)
            requires v[k - 1] == a * n, n > 0;
        assert(pw <= pv) by (nonlinear_arith)
            requires pv == n * n * pw, pw >= 0, n > 0;
        T::lemma_bounds();
    }
}

/// A non-zero vector whose sum of squares is representable, and whose coordinates are
/// multiples of its norm, normalizes to a vector of norm one.
pub proof fn lemma_normalize_unit<T: Number>(v: Seq<int>)
    requires
        v.len() > 0,
        exists|i: int| 0 <= i < v.len() && #[trigger] v[i] != 0,
        dot_fits::<T>(v, v, v.len()),
        forall|i: int| 0 <= i < v.len() ==> #[trigger] v[i] % floor_sqrt(dot_spec(v, v)) == 0,
    ensures
        normalize_model::<T>(v) is Ok,
        norm_model::<T>(normalize_model::<T>(v)->Ok_0) == Ok::<int, MathError>(1),
{
    let s = dot_spec(v, v);
    let i0 = choose|i: int| 0 <= i < v.len() && #[trigger] v[i] != 0;
    lemma_square_sum_positive(v, i0, v.len());
    crate::number::lemma_floor_sqrt_exists(s);
    let n = floor_sqrt(s);
    assert(crate::number::is_floor_sqrt(s, n));
    assert(n > 0) by (nonlinear_arith)
        requires s >= 1, s < (n + 1) * (n + 1), n >= 0;
    let w = v.map_values(|x: int| trunc_div(x, n));
    assert forall|i: int| 0 <= i < v.len() implies #[trigger] v[i] == w[i] * n by {
        lemma_trunc_div_exact(v[i], n);
    }
    lemma_scaled_squares(v, w, n, v.len());
    lemma_scaled_fits::<T>(v, w, n, v.len());
    let ws = dot_spec(w, w);
    assert(1 <= ws < 4) by (nonlinear_arith)
        requires s == n * n * ws, n * n <= s, s < (n + 1) * (n + 1), n >= 1, ws >= 0;
    crate::number::lemma_floor_sqrt_unique(ws, 1);
    assert(normalize_model::<T>(v) == Ok::<Seq<int>, MathError>(w));
}

/// The sum of squares up to `k` is at least the square at any earlier position.
proof fn lemma_square_sum_positive(v: Seq<int>, i: int, k: nat)
    requires
        0 <= i < k <= v.len(),
        v[i] != 0,
    ensures
        dot_prefix(v, v, k) >= 1,
    decreases k,
{
    let a = v[k - 1];
    assert(a * a >= 0) by (nonlinear_arith);
    if i < k - 1 {
        lemma_square_sum_positive(v, i, (k - 1) as nat);
    } else {
        lemma_squares_nonneg(v, (k - 1) as nat);
        assert(a * a >= 1) by (nonlinear_arith)
            requires a != 0;
    }
}

/// Every partial sum of squares is non-negative.
proof fn lemma_squares_nonneg(v: Seq<int>, k: nat)
    requires
        k <= v.len(),
    ensures
        dot_prefix(v, v, k) >= 0,
    decreases k,
{
    if k > 0 {
        lemma_squares_nonneg(v, (k - 1) as nat);
        let a = v[k - 1];
        assert(a * a >= 0) by (nonlinear_arith);
    }
}

/// Normalizing the zero vector fails with a degenerate value.
pub proof fn lemma_normalize_zero<T: Number>(v: Seq<int>)
    requires
        v.len() > 0,
        forall|i: int| 0 <= i < v.len() ==> #[trigger] v[i] == 0,
    ensures
        normalize_model::<T>(v) == Err::<Seq<int>, MathError>(MathError::DegenerateValue),
{
    lemma_zero_squares::<T>(v, v.len());
    crate::number::lemma_floor_sqrt_unique(0, 0);
}

/// The partial sums of squares of the zero vector are zero, and fit every number type.
proof fn lemma_zero_squares<T: Number>(v: Seq<int>, k: nat)
    requires
        k <= v.len(),
        forall|i: int| 0 <= i < v.len() ==> #[trigger] v[i] == 0,
    ensures
        dot_prefix(v, v, k) == 0,
        dot_fits::<T>(v, v, k),
    decreases k,
{
    T::lemma_bounds();
    if k > 0 {
        lemma_zero_squares::<T>(v, (k - 1) as nat);
        assert(v[k - 1] == 0);
    }
}

/// A fitting prefix of products fits on every shorter prefix too.
pub proof fn lemma_dot_fits_prefix<T: Number>(a: Seq<int>, b: Seq<int>, k: nat, n: nat)
    requires
        k <= n,
        dot_fits::<T>(a, b, n),
    ensures
        dot_fits::<T>(a, b, k),
    decreases n,
{
    if k < n {
        lemma_dot_fits_prefix::<T>(a, b, k, (n - 1) as nat);
    }
}

/// Accumulates `a[i] * b[i]` over all positions, failing on the first unrepresentable value.
pub fn dot_values<T: Number>(a: &Vec<T>, b: &Vec<T>) -> (r: Result<T, MathError>)
    requires
        a.len() == b.len(),
    ensures
        scalar_result(r) == dot_model::<T>(seq_view(a@), seq_view(b@)),
{
    let ghost av = seq_view(a@);
    let ghost bv = seq_view(b@);
    let n = a.len();
    let mut acc = T::zero();
    let mut k: usize = 0;
    while k < n
        invariant
            n == a.len() == b.len(),
            av == seq_view(a@),
            bv == seq_view(b@),
            k <= n,
            acc.val() == dot_prefix(av, bv, k as nat),
            dot_fits::<T>(av, bv, k as nat),
        decreases n - k,
    {
        let p = match a[k].checked_mul(b[k]) {
            Some(p) => p,
            None => {
                proof {
                    if dot_fits::<T>(av, bv, n as nat) {
                        lemma_dot_fits_prefix::<T>(av, bv, (k + 1) as nat, n as nat);
                    }
                }
                return Err(MathError::Overflow);
            },
        };
        acc = match acc.checked_add(p) {
            Some(s) => s,
            None => {
                proof {
                    if dot_fits::<T>(av, bv, n as nat) {
                        lemma_dot_fits_prefix::<T>(av, bv, (k + 1) as nat, n as nat);
                    }
                }
                return Err(MathError::Overflow);
            },
        };
        proof {
            T::lemma_range(p);
            T::lemma_range(acc);
        }
        k = k + 1;
    }
    Ok(acc)
}

/// A copy of a sequence of scalars.
pub fn copy_values<T: Number>(v: &Vec<T>) -> (r: Vec<T>)
    ensures
        r@ == v@,
{
    let mut out: Vec<T> = Vec::new();
    let mut i: usize = 0;
    while i < v.len()
        invariant
            i <= v.len(),
            out@ == v@.subrange(0, i as int),
        decreases v.len() - i,
    {
        out.push(v[i]);
        i = i + 1;
    }
    assert(out@ =~= v@);
    out
}

/// An n-dimensional vector: a non-empty sequence of coordinates.
#[derive(Debug)]
pub struct Vector<T: Number> {
    values: Vec<T>,
}

impl<T: Number> View for Vector<T> {
    type V = Seq<int>;

    closed spec fn view(&self) -> Seq<int> {
        seq_view(self.values@)
    }
}

impl<T: Number> Clone for Vector<T> {
    fn clone(&self) -> (r: Self)
        ensures
            r@ == self@,
    {
        proof {
            use_type_invariant(self);
        }
        Vector { values: copy_values(&self.values) }
    }
}

impl<T: Number> Vector<T> {
    #[verifier::type_invariant]
    spec fn inv(self) -> bool {
        self.values.len() > 0
    }

    /// Creates a new Vector with the specified values.
    ///
    /// Returns None if the coordinates vector is empty and a Some otherwise.
    pub fn new(values: Vec<T>) -> (r: Option<Self>)
        ensures
            match r {
                Some(v) => values@.len() > 0 && v@ == seq_view(values@),
                None => values@.len() == 0,
            },
    {
        if values.len() == 0 {
            return None;
        }
        Some(Vector { values })
    }

    /// Creates a new Vector on the origin with the specified dimensions.
    ///
    /// Returns a None if the dimension is 0 and a Some with the Vector otherwise.
    pub fn origin(dimensions: u32) -> (r: Option<Self>)
        ensures
            match r {
                Some(v) => dimensions > 0 && v@ == Seq::new(dimensions as nat, |i: int| 0int),
                None => dimensions == 0,
            },
    {
        if dimensions == 0 {
            return None;
        }
        let mut values: Vec<T> = Vec::new();
        let mut i: u32 = 0;
        while i < dimensions
            invariant
                i <= dimensions,
                values.len() == i,
                forall|j: int| 0 <= j < i ==> (#[trigger] values@[j]).val() == 0,
            decreases dimensions - i,
        {
            values.push(T::zero());
            i = i + 1;
        }
        let r = Vector { values };
        assert(r@ =~= Seq::new(dimensions as nat, |i: int| 0int));
        Some(r)
    }

    /// Creates a vector with the specified dimensions and random coordinates.
    ///
    /// Returns a None if the dimension is 0 and a Some with the vector otherwise.
    pub fn random(dimensions: u32) -> (r: Option<Self>)
        ensures
            match r {
                Some(v) => dimensions > 0 && v@.len() == dimensions,
                None => dimensions == 0,
            },
    {
        if dimensions == 0 {
            return None;
        }
        let mut values: Vec<T> = Vec::new();
        let mut i: u32 = 0;
        while i < dimensions
            invariant
                i <= dimensions,
                values.len() == i,
            decreases dimensions - i,
        {
            values.push(T::from_i32(random_i32()));
            i = i + 1;
        }
        Some(Vector { values })
    }

    /// The 2D vector `(x, y)`.
    pub fn from_pair(x: T, y: T) -> (r: Vector<T>)
        ensures
            r@ == seq![x.val(), y.val()],
    {
        let r = Vector { values: vec![x, y] };
        assert(r@ =~= seq![x.val(), y.val()]);
        r
    }

    /// Returns a reference to the vector's coordinates.
    pub fn values(&self) -> (r: &Vec<T>)
        ensures
            seq_view(r@) == self@,
            r@.len() > 0,
    {
        proof {
            use_type_invariant(self);
        }
        &self.values
    }

    /// Returns the vector's dimensions.
    pub fn get_dimensions(&self) -> (r: usize)
        ensures
            r == self@.len(),
            r > 0,
    {
        proof {
            use_type_invariant(self);
        }
        self.values.len()
    }

    /// Calculates the dot product of two vectors.
    ///
    /// Returns an Err if the vectors have different dimensions, or if a product or a
    /// partial sum is not representable.
    pub fn dot(&self, rhs: Vector<T>) -> (r: Result<T, MathError>)
        ensures
            scalar_result(r) == dot_model::<T>(self@, rhs@),
    {
        if self.values.len() != rhs.values.len() {
            return Err(MathError::DimensionMismatch);
        }
        dot_values(&self.values, &rhs.values)
    }

    /// Calculates the norm of a vector, rounded down to an integer.
    pub fn norm(&self) -> (r: T)
        requires
            dot_fits::<T>(self@, self@, self@.len()),
        ensures
            norm_model::<T>(self@) == Ok::<int, MathError>(r.val()),
    {
        match dot_values(&self.values, &self.values) {
            Ok(s) => s.sqrt(),
            // The precondition rules this branch out.
            Err(_) => T::zero(),
        }
    }

    /// Normalizes a vector: each coordinate is divided by the norm, rounded toward zero.
    ///
    /// Returns an Err if the norm is 0, or if the sum of squares is not representable.
    pub fn normalize(&self) -> (r: Result<Vector<T>, MathError>)
        ensures
            match r {
                Ok(v) => normalize_model::<T>(self@) == Ok::<Seq<int>, MathError>(v@),
                Err(e) => normalize_model::<T>(self@) == Err::<Seq<int>, MathError>(e),
            },
    {
        let s = match dot_values(&self.values, &self.values) {
            Ok(s) => s,
            Err(e) => return Err(e),
        };
        let n = s.sqrt();
        if n.is_zero() {
            return Err(MathError::DegenerateValue);
        }
        proof {
            lemma_floor_sqrt_exists(s.val());
        }
        let len = self.values.len();
        let mut out: Vec<T> = Vec::new();
        let mut i: usize = 0;
        while i < len
            invariant
                len == self.values.len(),
                i <= len,
                out.len() == i,
                n.val() > 0,
                forall|j: int| 0 <= j < i ==> (#[trigger] out@[j]).val() == trunc_div(self.values@[j].val(), n.val()),
            decreases len - i,
        {
            let q = match self.values[i].checked_div(n) {
                Some(q) => q,
                None => {
                    proof {
                        lemma_trunc_div_shrinks(self.values@[i as int].val(), n.val());
                        T::lemma_range(self.values[i as int]);
                        T::lemma_bounds();
                    }
                    return Err(MathError::Overflow);
                },
            };
            out.push(q);
            i = i + 1;
        }
        let r = Vector { values: out };
        assert(r@ =~= self@.map_values(|x: int| trunc_div(x, n.val())));
        Ok(r)
    }

    /// Adds two vectors coordinate by coordinate.
    ///
    /// Returns an Err if the dimensions are different or a sum is not representable.
    pub fn add(self, rhs: Vector<T>) -> (r: Result<Vector<T>, MathError>)
        ensures
            match r {
                Ok(v) => add_model::<T>(self@, rhs@) == Ok::<Seq<int>, MathError>(v@),
                Err(e) => add_model::<T>(self@, rhs@) == Err::<Seq<int>, MathError>(e),
            },
    {
        proof {
            use_type_invariant(&self);
        }
        if self.values.len() != rhs.values.len() {
            return Err(MathError::DimensionMismatch);
        }
        let len = self.values.len();
        let mut out: Vec<T> = Vec::new();
        let mut i: usize = 0;
        while i < len
            invariant
                len == self.values.len() == rhs.values.len() > 0,
                i <= len,
                out.len() == i,
                forall|j: int|
                    0 <= j < i ==> (#[trigger] out@[j]).val() == self.values@[j].val()
                        + rhs.values@[j].val(),
            decreases len - i,
        {
            let x = match self.values[i].checked_add(rhs.values[i]) {
                Some(x) => x,
                None => {
                    assert(add_spec(self@, rhs@)[i as int] == self.values@[i as int].val()
                        + rhs.values@[i as int].val());
                    return Err(MathError::Overflow);
                },
            };
            out.push(x);
            i = i + 1;
        }
        let r = Vector { values: out };
        assert(r@ =~= add_spec(self@, rhs@));
        assert forall|j: int| 0 <= j < self@.len() implies fits::<T>(
            #[trigger] add_spec(self@, rhs@)[j],
        ) by {
            T::lemma_range(r.values@[j]);
        }
        Ok(r)
    }

    /// Performs a cross product between two 3D vectors.
    ///
    /// Returns an Err if the dimensions differ or are not 3, or a value is not representable.
    pub fn cross(self, rhs: Vector<T>) -> (r: Result<Vector<T>, MathError>)
        ensures
            match r {
                Ok(v) => cross_model::<T>(self@, rhs@) == Ok::<Seq<int>, MathError>(v@),
                Err(e) => cross_model::<T>(self@, rhs@) == Err::<Seq<int>, MathError>(e),
            },
    {
        if self.values.len() != rhs.values.len() || self.values.len() != 3 {
            return Err(MathError::DimensionMismatch);
        }
        let a = &self.values;
        let b = &rhs.values;
        let ghost av = self@;
        let ghost bv = rhs@;
        assert(forall|i: int| 0 <= i < 3 ==> av[i] == (#[trigger] a@[i]).val());
        assert(forall|i: int| 0 <= i < 3 ==> bv[i] == (#[trigger] b@[i]).val());
        let l1 = match Self::cross_terms(a[1], b[2], a[2], b[1]) {
            Some(x) => x,
            None => return Err(MathError::Overflow),
        };
        let l2 = match Self::cross_terms(a[2], b[0], a[0], b[2]) {
            Some(x) => x,
            None => return Err(MathError::Overflow),
        };
        let l3 = match Self::cross_terms(a[0], b[1], a[1], b[0]) {
            Some(x) => x,
            None => return Err(MathError::Overflow),
        };
        proof {
            T::lemma_range(l1);
            T::lemma_range(l2);
            T::lemma_range(l3);
        }
        let out = Vector { values: vec![l1, l2, l3] };
        assert(out@ =~= cross_spec(av, bv));
        Ok(out)
    }

    /// `p * q - s * t`, or `None` where a product or the difference is not representable.
    fn cross_terms(p: T, q: T, s: T, t: T) -> (r: Option<T>)
        ensures
            match r {
                Some(x) => fits::<T>(p.val() * q.val()) && fits::<T>(s.val() * t.val())
                    && x.val() == p.val() * q.val() - s.val() * t.val(),
                None => !(fits::<T>(p.val() * q.val()) && fits::<T>(s.val() * t.val()) && fits::<T>(
                    p.val() * q.val() - s.val() * t.val(),
                )),
            },
    {
        match (p.checked_mul(q), s.checked_mul(t)) {
            (Some(x), Some(y)) => {
                proof {
                    T::lemma_range(x);
                    T::lemma_range(y);
                }
                x.checked_sub(y)
            },
            _ => None,
        }
    }

    /// Multiplies a vector by a scalar; the result has the scalar's type.
    ///
    /// Returns an Err if a coordinate or a product is not representable by that type.
    pub fn scale<U: Number>(&self, scalar: U) -> (r: Result<Vector<U>, MathError>)
        ensures
            match r {
                Ok(v) => scale_model::<U>(scalar.val(), self@) == Ok::<Seq<int>, MathError>(v@),
                Err(e) => scale_model::<U>(scalar.val(), self@) == Err::<Seq<int>, MathError>(e),
            },
    {
        proof {
            use_type_invariant(self);
        }
        let len = self.values.len();
        let mut out: Vec<U> = Vec::new();
        let mut i: usize = 0;
        while i < len
            invariant
                len == self.values.len() > 0,
                i <= len,
                out.len() == i,
                forall|j: int| 0 <= j < i ==> fits::<U>(#[trigger] self@[j]),
                forall|j: int| 0 <= j < i ==> (#[trigger] out@[j]).val() == scalar.val() * self@[j],
            decreases len - i,
        {
            assert(self@[i as int] == self.values@[i as int].val());
            let x = match U::checked_from_i64(self.values[i].to_i64()) {
                Some(x) => x,
                None => {
                    assert(!fits::<U>(self@[i as int]));
                    return Err(MathError::Overflow);
                },
            };
            let y = match scalar.checked_mul(x) {
                Some(y) => y,
                None => {
                    assert(!fits::<U>(scalar.val() * self@[i as int]));
                    return Err(MathError::Overflow);
                },
            };
            proof {
                U::lemma_range(x);
            }
            let ghost prev = out@;
            out.push(y);
            assert forall|j: int| 0 <= j < i implies (#[trigger] out@[j]) == prev[j] by {}
            assert(out@[i as int].val() == scalar.val() * self@[i as int]);
            assert(fits::<U>(self@[i as int]));
            i = i + 1;
        }
        let r = Vector { values: out };
        assert forall|j: int| 0 <= j < self@.len() implies fits::<U>(#[trigger] self@[j]) && fits::<U>(
            scalar.val() * self@[j],
        ) by {
            U::lemma_range(r.values@[j]);
        }
        assert(r@ =~= self@.map_values(|x: int| scalar.val() * x));
        Ok(r)
    }
}

} // verus!

verus! {

/// Relies on rand::random: a value from the thread-local generator; nothing is promised of it.
#[verifier::external_body]
pub(crate) fn random_i32() -> i32 {
    rand::random::<i32>()
}

} // verus!
