//! A rectangular matrix and its operations, including 2x2 decompositions.
use vstd::prelude::*;
use crate::error::MathError;
use crate::number::{Number, fits, floor_sqrt, trunc_div};
use crate::util::{pair_result, quadsolve, quadsolve_model};
use crate::vector::{
    Vector, copy_values, dot_fits, dot_prefix, dot_spec, dot_values, normalize_model,
    seq_view, scalar_result, lemma_dot_prefix_commutative,
};

verus! {

/// Whether `m` is a non-empty matrix whose rows are non-empty and of equal length.
pub open spec fn is_matrix(m: Seq<Seq<int>>) -> bool {
    &&& m.len() > 0
    &&& m[0].len() > 0
    &&& forall|i: int| 0 <= i < m.len() ==> (#[trigger] m[i]).len() == m[0].len()
}

/// Whether `m` is a square matrix.
pub open spec fn is_square(m: Seq<Seq<int>>) -> bool {
    is_matrix(m) && m.len() == m[0].len()
}

/// Whether `m` is a 2x2 matrix.
pub open spec fn is_2x2(m: Seq<Seq<int>>) -> bool {
    is_matrix(m) && m.len() == 2 && m[0].len() == 2
}

/// Column `j` of `m`.
pub open spec fn col_of(m: Seq<Seq<int>>, j: int) -> Seq<int> {
    Seq::new(m.len(), |k: int| m[k][j])
}

/// The `n` x `n` identity matrix.
pub open spec fn identity_spec(n: nat) -> Seq<Seq<int>> {
    Seq::new(n, |i: int| Seq::new(n, |j: int| if i == j { 1int } else { 0int }))
}

/// The transpose of `m`.
pub open spec fn transpose_spec(m: Seq<Seq<int>>) -> Seq<Seq<int>> {
    Seq::new(m[0].len(), |j: int| col_of(m, j))
}

/// The product of `a` and `b`, where the columns of `a` match the rows of `b`.
pub open spec fn mat_mul_spec(a: Seq<Seq<int>>, b: Seq<Seq<int>>) -> Seq<Seq<int>> {
    Seq::new(a.len(), |i: int| Seq::new(b[0].len(), |j: int| dot_spec(a[i], col_of(b, j))))
}

/// Whether every entry of the product is accumulated within the range of `T`.
pub open spec fn mat_mul_fits<T: Number>(a: Seq<Seq<int>>, b: Seq<Seq<int>>) -> bool {
    forall|i: int, j: int|
        0 <= i < a.len() && 0 <= j < b[0].len() ==> #[trigger] dot_fits::<T>(
            a[i],
            col_of(b, j),
            a[i].len(),
        )
}

/// What the matrix product returns.
pub open spec fn mat_mul_model<T: Number>(a: Seq<Seq<int>>, b: Seq<Seq<int>>) -> Result<
    Seq<Seq<int>>,
    MathError,
> {
    if a[0].len() != b.len() {
        Err(MathError::DimensionMismatch)
    } else if !mat_mul_fits::<T>(a, b) {
        Err(MathError::Overflow)
    } else {
        Ok(mat_mul_spec(a, b))
    }
}

/// What the product of a matrix and a vector returns.
pub open spec fn mat_vec_model<T: Number>(a: Seq<Seq<int>>, v: Seq<int>) -> Result<
    Seq<int>,
    MathError,
> {
    if a[0].len() != v.len() {
        Err(MathError::DimensionMismatch)
    } else if !(forall|i: int| 0 <= i < a.len() ==> #[trigger] dot_fits::<T>(a[i], v, v.len())) {
        Err(MathError::Overflow)
    } else {
        Ok(Seq::new(a.len(), |i: int| dot_spec(a[i], v)))
    }
}

/// What scaling a matrix by a scalar of type `U` returns.
pub open spec fn mat_scale_model<U: Number>(s: int, m: Seq<Seq<int>>) -> Result<
    Seq<Seq<int>>,
    MathError,
> {
    if forall|i: int, j: int|
        0 <= i < m.len() && 0 <= j < m[i].len() ==> fits::<U>(#[trigger] m[i][j]) && fits::<U>(
            s * m[i][j],
        ) {
        Ok(Seq::new(m.len(), |i: int| m[i].map_values(|x: int| s * x)))
    } else {
        Err(MathError::Overflow)
    }
}

/// The minor of `m` without its first row and without column `col`.
pub open spec fn minor(m: Seq<Seq<int>>, col: int) -> Seq<Seq<int>> {
    Seq::new(
        (m.len() - 1) as nat,
        |i: int|
            Seq::new(
                (m[i + 1].len() - 1) as nat,
                |j: int|
                    if j < col {
                        m[i + 1][j]
                    } else {
                        m[i + 1][j + 1]
                    },
            ),
    )
}

/// The sign of the cofactor of column `col` in the first row.
pub open spec fn cofactor_sign(col: int) -> int {
    if col % 2 == 0 {
        1
    } else {
        -1
    }
}

/// The determinant of a square matrix by cofactor expansion along the first row.
pub open spec fn det_spec(m: Seq<Seq<int>>) -> int
    decreases m.len(), m.len() + 1,
{
    if m.len() <= 1 {
        m[0][0]
    } else {
        det_terms(m, m.len())
    }
}

/// The sum of the first `c` terms of the cofactor expansion of `m`.
pub open spec fn det_terms(m: Seq<Seq<int>>, c: nat) -> int
    decreases m.len(), c,
{
    if c == 0 || m.len() <= 1 {
        0
    } else {
        det_terms(m, (c - 1) as nat) + cofactor_sign(c - 1) * m[0][c - 1] * det_spec(
            minor(m, c - 1),
        )
    }
}

/// Whether the cofactor expansion of `m` stays within the range of `T` at every step.
pub open spec fn det_fits<T: Number>(m: Seq<Seq<int>>) -> bool
    decreases m.len(), m.len() + 1,
{
    if m.len() <= 1 {
        true
    } else {
        det_terms_fit::<T>(m, m.len())
    }
}

/// Whether the first `c` terms of the cofactor expansion stay within the range of `T`.
pub open spec fn det_terms_fit<T: Number>(m: Seq<Seq<int>>, c: nat) -> bool
    decreases m.len(), c,
{
    if c == 0 || m.len() <= 1 {
        true
    } else {
        let col = c - 1;
        &&& det_terms_fit::<T>(m, (c - 1) as nat)
        &&& det_fits::<T>(minor(m, col))
        &&& fits::<T>(cofactor_sign(col) * m[0][col])
        &&& fits::<T>(cofactor_sign(col) * m[0][col] * det_spec(minor(m, col)))
        &&& fits::<T>(det_terms(m, c))
    }
}

/// What `determinant` returns.
pub open spec fn det_model<T: Number>(m: Seq<Seq<int>>) -> Result<int, MathError> {
    if !is_square(m) {
        Err(MathError::InvalidShape)
    } else if !det_fits::<T>(m) {
        Err(MathError::Overflow)
    } else {
        Ok(det_spec(m))
    }
}

/// What `eigenvalues_2d` returns: the roots of `x^2 - (a + d) x + (ad - bc)`.
pub open spec fn eig_model<T: Number>(m: Seq<Seq<int>>) -> Result<(int, int), MathError> {
    if !is_2x2(m) {
        Err(MathError::InvalidShape)
    } else {
        let (a, b, c, d) = (m[0][0], m[0][1], m[1][0], m[1][1]);
        let bc = b * c;
        let ad = a * d;
        if !(fits::<T>(-a) && fits::<T>(-a - d) && fits::<T>(bc) && fits::<T>(-bc) && fits::<T>(ad)
            && fits::<T>(-bc + ad)) {
            Err(MathError::Overflow)
        } else {
            quadsolve_model::<T>(1, -a - d, -bc + ad)
        }
    }
}

/// What `eigenvectors_2d` returns: `(l1 - a, b)` and `(l2 - d, c)`, normalized.
pub open spec fn eigvec_model<T: Number>(m: Seq<Seq<int>>) -> Result<(Seq<int>, Seq<int>), MathError> {
    match eig_model::<T>(m) {
        Err(e) => Err(e),
        Ok((l1, l2)) => {
            let (a, b, c, d) = (m[0][0], m[0][1], m[1][0], m[1][1]);
            if !fits::<T>(l1 - a) {
                Err(MathError::Overflow)
            } else {
                match normalize_model::<T>(seq![l1 - a, b]) {
                    Err(e) => Err(e),
                    Ok(v1) => if !fits::<T>(l2 - d) {
                        Err(MathError::Overflow)
                    } else {
                        match normalize_model::<T>(seq![l2 - d, c]) {
                            Err(e) => Err(e),
                            Ok(v2) => Ok((v1, v2)),
                        }
                    },
                }
            }
        },
    }
}

/// What `invert_2d` returns: the adjugate scaled by `1 / det`, rounded toward zero.
pub open spec fn invert_model<T: Number>(m: Seq<Seq<int>>) -> Result<Seq<Seq<int>>, MathError> {
    if !is_2x2(m) {
        Err(MathError::InvalidShape)
    } else {
        let (a, b, c, d) = (m[0][0], m[0][1], m[1][0], m[1][1]);
        if !(fits::<T>(-b) && fits::<T>(-c)) {
            Err(MathError::Overflow)
        } else {
            match det_model::<T>(m) {
                Err(e) => Err(e),
                Ok(det) => if det == 0 {
                    Err(MathError::DegenerateValue)
                } else {
                    mat_scale_model::<T>(trunc_div(1, det), seq![seq![d, -b], seq![-c, a]])
                },
            }
        }
    }
}

/// The matrix whose columns are `v1` and `v2`.
pub open spec fn columns_2d(v1: Seq<int>, v2: Seq<int>) -> Seq<Seq<int>> {
    seq![seq![v1[0], v2[0]], seq![v1[1], v2[1]]]
}

/// What `svd_2d` returns: `U` from the eigenvectors of `AtA`, `Sigma` from the square roots
/// of its eigenvalues, and `V` the inverse of `U`.
pub open spec fn svd_model<T: Number>(m: Seq<Seq<int>>) -> Result<
    (Seq<Seq<int>>, Seq<Seq<int>>, Seq<Seq<int>>),
    MathError,
> {
    if !is_2x2(m) {
        Err(MathError::InvalidShape)
    } else {
        match mat_mul_model::<T>(transpose_spec(m), m) {
            Err(e) => Err(e),
            Ok(ata) => match eig_model::<T>(ata) {
                Err(e) => Err(e),
                Ok((l1, l2)) => match eigvec_model::<T>(ata) {
                    Err(e) => Err(e),
                    Ok((v1, v2)) => match invert_model::<T>(columns_2d(v1, v2)) {
                        Err(e) => Err(e),
                        Ok(v) => Ok(
                            (
                                columns_2d(v1, v2),
                                seq![seq![floor_sqrt(l1), 0], seq![0, floor_sqrt(l2)]],
                                v,
                            ),
                        ),
                    },
                },
            },
        }
    }
}

/// What `polar_decomposition_2d` returns: `S = U Sigma V` and `Q = A S^-1`.
pub open spec fn polar_model<T: Number>(m: Seq<Seq<int>>) -> Result<
    (Seq<Seq<int>>, Seq<Seq<int>>),
    MathError,
> {
    match svd_model::<T>(m) {
        Err(e) => Err(e),
        Ok((u, sigma, v)) => match mat_mul_model::<T>(u, sigma) {
            Err(e) => Err(e),
            Ok(us) => match mat_mul_model::<T>(us, v) {
                Err(e) => Err(e),
                Ok(s) => match invert_model::<T>(s) {
                    Err(e) => Err(e),
                    Ok(si) => match mat_mul_model::<T>(m, si) {
                        Err(e) => Err(e),
                        Ok(q) => Ok((q, s)),
                    },
                },
            },
        },
    }
}

/// Transposing twice gives back the matrix.
pub proof fn lemma_transpose_involution(m: Seq<Seq<int>>)
    requires
        is_matrix(m),
    ensures
        transpose_spec(transpose_spec(m)) == m,
{
    let t = transpose_spec(m);
    assert(t[0].len() == m.len());
    assert forall|i: int| 0 <= i < m.len() implies #[trigger] transpose_spec(t)[i] == m[i] by {
        assert(transpose_spec(t)[i] =~= m[i]);
    }
    assert(transpose_spec(t) =~= m);
}

/// The dot product of the unit row `e_i` with a sequence of representable values picks
/// out its `i`-th value, without any overflow on the way.
proof fn lemma_unit_dot<T: Number>(e: Seq<int>, c: Seq<int>, i: int, k: nat)
    requires
        e.len() == c.len(),
        0 <= i < e.len(),
        k <= e.len(),
        forall|j: int| 0 <= j < e.len() ==> #[trigger] e[j] == (if j == i { 1int } else { 0int }),
        forall|j: int| 0 <= j < c.len() ==> fits::<T>(#[trigger] c[j]),
    ensures
        dot_prefix(e, c, k) == (if i < k { c[i] } else { 0 }),
        dot_fits::<T>(e, c, k),
    decreases k,
{
    T::lemma_bounds();
    if k > 0 {
        lemma_unit_dot::<T>(e, c, i, (k - 1) as nat);
        let j = k - 1;
        if j == i {
            assert(e[j] * c[j] == c[j]);
        } else {
            assert(e[j] * c[j] == 0);
        }
    }
}

/// Multiplying a square matrix of representable entries by the identity, on either side,
/// succeeds and gives back the matrix.
pub proof fn lemma_identity_mul<T: Number>(a: Seq<Seq<int>>)
    requires
        is_square(a),
        forall|i: int, j: int| 0 <= i < a.len() && 0 <= j < a.len() ==> fits::<T>(#[trigger] a[i][j]),
    ensures
        mat_mul_model::<T>(identity_spec(a.len()), a) == Ok::<Seq<Seq<int>>, MathError>(a),
        mat_mul_model::<T>(a, identity_spec(a.len())) == Ok::<Seq<Seq<int>>, MathError>(a),
{
    let n = a.len();
    let id = identity_spec(n);
    assert forall|i: int, j: int| 0 <= i < n && 0 <= j < n implies #[trigger] dot_fits::<T>(
        id[i],
        col_of(a, j),
        id[i].len(),
    ) && dot_spec(id[i], col_of(a, j)) == a[i][j] by {
        assert(a[i].len() == n);
        lemma_unit_dot::<T>(id[i], col_of(a, j), i, n);
    }
    assert forall|i: int, j: int| 0 <= i < n && 0 <= j < n implies #[trigger] dot_fits::<T>(
        a[i],
        col_of(id, j),
        a[i].len(),
    ) && dot_spec(a[i], col_of(id, j)) == a[i][j] by {
        assert(a[i].len() == n);
        assert(col_of(id, j) =~= id[j]);
        assert forall|k: int| 0 <= k < n implies fits::<T>(#[trigger] a[i][k]) by {}
        lemma_unit_dot::<T>(id[j], a[i], j, n);
        lemma_dot_prefix_commutative::<T>(a[i], id[j], n);
    }
    assert forall|i: int| 0 <= i < n implies #[trigger] mat_mul_spec(id, a)[i] == a[i] by {
        assert(a[i].len() == n);
        assert forall|j: int| 0 <= j < n implies #[trigger] mat_mul_spec(id, a)[i][j] == a[i][j] by {
            assert(dot_fits::<T>(id[i], col_of(a, j), id[i].len()));
        }
        assert(mat_mul_spec(id, a)[i] =~= a[i]);
    }
    assert(mat_mul_spec(id, a) =~= a);
    assert forall|i: int| 0 <= i < n implies #[trigger] mat_mul_spec(a, id)[i] == a[i] by {
        assert(a[i].len() == n);
        assert forall|j: int| 0 <= j < n implies #[trigger] mat_mul_spec(a, id)[i][j] == a[i][j] by {
            assert(dot_fits::<T>(a[i], col_of(id, j), a[i].len()));
        }
        assert(mat_mul_spec(a, id)[i] =~= a[i]);
    }
    assert(mat_mul_spec(a, id) =~= a);
}

/// Whether every entry of the square matrix `m` is 0 or 1, with at most one 1 in each row
/// and in each column.
pub open spec fn is_partial_permutation(m: Seq<Seq<int>>) -> bool {
    &&& is_square(m)
    &&& forall|i: int, j: int|
        0 <= i < m.len() && 0 <= j < m.len() ==> #[trigger] m[i][j] == 0 || m[i][j] == 1
    &&& forall|i: int, j1: int, j2: int|
        0 <= i < m.len() && 0 <= j1 < m.len() && 0 <= j2 < m.len() && #[trigger] m[i][j1] == 1
            && #[trigger] m[i][j2] == 1 ==> j1 == j2
    &&& forall|i1: int, i2: int, j: int|
        0 <= i1 < m.len() && 0 <= i2 < m.len() && 0 <= j < m.len() && #[trigger] m[i1][j] == 1
            && #[trigger] m[i2][j] == 1 ==> i1 == i2
}

/// Removing the first row and a column of a partial permutation matrix leaves one.
proof fn lemma_minor_partial_permutation(m: Seq<Seq<int>>, col: int)
    requires
        is_partial_permutation(m),
        m.len() >= 2,
        0 <= col < m.len(),
    ensures
        is_partial_permutation(minor(m, col)),
{
    let n = m.len();
    let mm = minor(m, col);
    assert forall|i: int| 0 <= i < mm.len() implies (#[trigger] mm[i]).len() == mm[0].len() by {
        assert(m[i + 1].len() == n);
        assert(m[1].len() == n);
    }
    assert(m[1].len() == n);
    assert forall|i: int, j: int| 0 <= i < mm.len() && 0 <= j < mm.len() implies #[trigger] mm[i][j]
        == (if j < col { m[i + 1][j] } else { m[i + 1][j + 1] }) by {
        assert(m[i + 1].len() == n);
    }
    assert forall|i: int, j1: int, j2: int|
        0 <= i < mm.len() && 0 <= j1 < mm.len() && 0 <= j2 < mm.len() && #[trigger] mm[i][j1] == 1
            && #[trigger] mm[i][j2] == 1 implies j1 == j2 by {
        let f1 = if j1 < col { j1 } else { j1 + 1 };
        let f2 = if j2 < col { j2 } else { j2 + 1 };
        assert(m[i + 1][f1] == 1 && m[i + 1][f2] == 1);
    }
    assert forall|i1: int, i2: int, j: int|
        0 <= i1 < mm.len() && 0 <= i2 < mm.len() && 0 <= j < mm.len() && #[trigger] mm[i1][j] == 1
            && #[trigger] mm[i2][j] == 1 implies i1 == i2 by {
        let f = if j < col { j } else { j + 1 };
        assert(m[i1 + 1][f] == 1 && m[i2 + 1][f] == 1);
    }
}

/// The cofactor expansion of a partial permutation matrix stays within -1 .. 1, and so
/// within the range of every number type.
proof fn lemma_partial_permutation_terms<T: Number>(m: Seq<Seq<int>>, c: nat)
    requires
        is_partial_permutation(m),
        c <= m.len(),
    ensures
        det_terms_fit::<T>(m, c),
        -1 <= det_terms(m, c) <= 1,
        det_terms(m, c) != 0 ==> exists|j: int| 0 <= j < c && #[trigger] m[0][j] == 1,
    decreases m.len(), c,
{
    T::lemma_bounds();
    if c == 0 || m.len() <= 1 {
    } else {
        let col = c - 1;
        lemma_partial_permutation_terms::<T>(m, (c - 1) as nat);
        let mm = minor(m, col);
        lemma_minor_partial_permutation(m, col);
        if mm.len() <= 1 {
            assert(mm[0][0] == 0 || mm[0][0] == 1);
            assert(det_fits::<T>(mm));
        } else {
            lemma_partial_permutation_terms::<T>(mm, mm.len());
            assert(det_fits::<T>(mm));
        }
        let d = det_spec(mm);
        let x = m[0][col];
        let s = cofactor_sign(col);
        assert(x == 0 || x == 1);
        assert(-1 <= s * x <= 1) by (nonlinear_arith)
            requires -1 <= s <= 1, 0 <= x <= 1;
        assert(-1 <= s * x * d <= 1) by (nonlinear_arith)
            requires -1 <= s <= 1, 0 <= x <= 1, -1 <= d <= 1;
        if x == 0 {
            assert(s * x * d == 0) by (nonlinear_arith)
                requires x == 0;
        } else {
            if det_terms(m, (c - 1) as nat) != 0 {
                let j = choose|j: int| 0 <= j < c - 1 && #[trigger] m[0][j] == 1;
                assert(m[0][j] == 1 && m[0][col] == 1);
            }
        }
    }
}

/// The determinant of a partial permutation matrix is -1, 0 or 1, and computing it
/// overflows no number type.
proof fn lemma_partial_permutation_det<T: Number>(m: Seq<Seq<int>>)
    requires
        is_partial_permutation(m),
    ensures
        det_fits::<T>(m),
        -1 <= det_spec(m) <= 1,
{
    if m.len() <= 1 {
        assert(m[0][0] == 0 || m[0][0] == 1);
    } else {
        lemma_partial_permutation_terms::<T>(m, m.len());
    }
}

/// The first `c` cofactor terms of the `n` x `n` identity sum to 1.
proof fn lemma_identity_terms(n: nat, c: nat)
    requires
        n >= 2,
        1 <= c <= n,
        det_spec(identity_spec((n - 1) as nat)) == 1,
    ensures
        det_terms(identity_spec(n), c) == 1,
    decreases c,
{
    let id = identity_spec(n);
    if c == 1 {
        assert(minor(id, 0) =~~= identity_spec((n - 1) as nat));
        assert(det_terms(id, 0) == 0);
        assert(cofactor_sign(0) == 1);
        assert(id[0][0] == 1);
    } else {
        lemma_identity_terms(n, (c - 1) as nat);
        assert(id[0][c - 1] == 0);
        let d = det_spec(minor(id, c - 1));
        let s = cofactor_sign(c - 1);
        assert(s * 0 * d == 0) by (nonlinear_arith);
    }
}

proof fn lemma_det_identity_spec(n: nat)
    requires
        n >= 1,
    ensures
        det_spec(identity_spec(n)) == 1,
    decreases n,
{
    if n > 1 {
        lemma_det_identity_spec((n - 1) as nat);
        lemma_identity_terms(n, n);
    }
}

/// The determinant of the identity of any size `n > 0` is one, and computing it
/// overflows no number type.
pub proof fn lemma_det_identity<T: Number>(n: nat)
    requires
        n >= 1,
    ensures
        det_model::<T>(identity_spec(n)) == Ok::<int, MathError>(1),
{
    let id = identity_spec(n);
    assert(id[0].len() == n);
    assert forall|i: int| 0 <= i < n implies (#[trigger] id[i]).len() == id[0].len() by {}
    assert(is_partial_permutation(id));
    lemma_partial_permutation_det::<T>(id);
    lemma_det_identity_spec(n);
}

/// The view of a matrix result.
pub open spec fn mat_result<T: Number>(r: Result<Matrix<T>, MathError>) -> Result<
    Seq<Seq<int>>,
    MathError,
> {
    match r {
        Ok(m) => Ok(m@),
        Err(e) => Err(e),
    }
}

/// The view of a vector result.
pub open spec fn vec_result<T: Number>(r: Result<Vector<T>, MathError>) -> Result<
    Seq<int>,
    MathError,
> {
    match r {
        Ok(v) => Ok(v@),
        Err(e) => Err(e),
    }
}

/// A fitting cofactor expansion fits on every shorter run of terms too.
pub proof fn lemma_det_terms_fit_prefix<T: Number>(m: Seq<Seq<int>>, k: nat, n: nat)
    requires
        k <= n,
        det_terms_fit::<T>(m, n),
    ensures
        det_terms_fit::<T>(m, k),
    decreases n,
{
    if k < n {
        lemma_det_terms_fit_prefix::<T>(m, k, (n - 1) as nat);
    }
}

/// Whether the stored rows form an `n` x `n` square with `n = rows.len() >= 1`.
pub open spec fn square_rows<T: Number>(rows: Seq<Vec<T>>) -> bool {
    rows.len() >= 1 && forall|i: int| 0 <= i < rows.len() ==> (#[trigger] rows[i]).len() == rows.len()
}

/// The rows of the minor without the first row and without column `col`.
fn minor_rows<T: Number>(rows: &Vec<Vec<T>>, col: usize) -> (r: Vec<Vec<T>>)
    requires
        square_rows(rows@),
        rows.len() >= 2,
        col < rows.len(),
    ensures
        square_rows(r@),
        r.len() == rows.len() - 1,
        rows_view(r@) == minor(rows_view(rows@), col as int),
{
    let n = rows.len();
    let ghost m = rows_view(rows@);
    let mut out: Vec<Vec<T>> = Vec::new();
    let mut i: usize = 1;
    while i < n
        invariant
            n == rows.len() >= 2,
            col < n,
            m == rows_view(rows@),
            square_rows(rows@),
            1 <= i <= n,
            out.len() == i - 1,
            forall|k: int| 0 <= k < i - 1 ==> (#[trigger] out@[k]).len() == n - 1,
            forall|k: int| 0 <= k < i - 1 ==> #[trigger] seq_view(out@[k]@) == minor(m, col as int)[k],
        decreases n - i,
    {
        let mut row: Vec<T> = Vec::new();
        let mut j: usize = 0;
        while j < n
            invariant
                n == rows.len() >= 2,
                col < n,
                1 <= i < n,
                square_rows(rows@),
                j <= n,
                row.len() == (if j <= col { j as int } else { j - 1 }),
                forall|jj: int|
                    0 <= jj < row.len() ==> (#[trigger] row@[jj]) == (if jj < col {
                        rows@[i as int]@[jj]
                    } else {
                        rows@[i as int]@[jj + 1]
                    }),
            decreases n - j,
        {
            if j != col {
                row.push(rows[i][j]);
            }
            j = j + 1;
        }
        assert(m[i as int] == seq_view(rows@[i as int]@));
        assert(seq_view(row@) =~= minor(m, col as int)[i - 1]);
        out.push(row);
        i = i + 1;
    }
    assert(rows_view(out@) =~= minor(m, col as int));
    out
}

/// The determinant of stored square rows, by cofactor expansion along the first row.
fn det_rows<T: Number>(rows: &Vec<Vec<T>>) -> (r: Result<T, MathError>)
    requires
        square_rows(rows@),
    ensures
        scalar_result(r) == (if det_fits::<T>(rows_view(rows@)) {
            Ok::<int, MathError>(det_spec(rows_view(rows@)))
        } else {
            Err::<int, MathError>(MathError::Overflow)
        }),
    decreases rows.len(),
{
    let n = rows.len();
    let ghost m = rows_view(rows@);
    assert(m[0] == seq_view(rows@[0]@));
    if n == 1 {
        return Ok(rows[0][0]);
    }
    let mut acc = T::zero();
    let mut col: usize = 0;
    while col < n
        invariant
            n == rows.len() >= 2,
            m == rows_view(rows@),
            m.len() == n,
            m[0] == seq_view(rows@[0]@),
            square_rows(rows@),
            col <= n,
            acc.val() == det_terms(m, col as nat),
            det_terms_fit::<T>(m, col as nat),
        decreases n - col,
    {
        proof {
            if det_fits::<T>(m) {
                lemma_det_terms_fit_prefix::<T>(m, (col + 1) as nat, n as nat);
            }
        }
        let sub = minor_rows(rows, col);
        let d = match det_rows(&sub) {
            Ok(d) => d,
            Err(_) => return Err(MathError::Overflow),
        };
        proof {
            T::lemma_bounds();
        }
        let sign = if col % 2 == 0 {
            T::one()
        } else {
            match T::one().checked_neg() {
                Some(s) => s,
                None => return Err(MathError::Overflow),
            }
        };
        let sv = match sign.checked_mul(rows[0][col]) {
            Some(x) => x,
            None => return Err(MathError::Overflow),
        };
        let term = match sv.checked_mul(d) {
            Some(x) => x,
            None => return Err(MathError::Overflow),
        };
        acc = match acc.checked_add(term) {
            Some(x) => x,
            None => return Err(MathError::Overflow),
        };
        proof {
            T::lemma_range(sv);
            T::lemma_range(term);
            T::lemma_range(acc);
        }
        col = col + 1;
    }
    Ok(acc)
}

/// A matrix: a non-empty sequence of non-empty rows of equal length, stored row by row.
#[derive(Debug)]
pub struct Matrix<T: Number> {
    values: Vec<Vec<T>>,
}

/// The view of stored rows.
pub open spec fn rows_view<T: Number>(rows: Seq<Vec<T>>) -> Seq<Seq<int>> {
    rows.map_values(|row: Vec<T>| seq_view(row@))
}

impl<T: Number> View for Matrix<T> {
    type V = Seq<Seq<int>>;

    closed spec fn view(&self) -> Seq<Seq<int>> {
        rows_view(self.values@)
    }
}

/// Column `j` of the stored rows.
fn column<T: Number>(rows: &Vec<Vec<T>>, j: usize) -> (r: Vec<T>)
    requires
        forall|k: int| 0 <= k < rows.len() ==> j < (#[trigger] rows@[k]).len(),
    ensures
        seq_view(r@) == col_of(rows_view(rows@), j as int),
{
    let mut out: Vec<T> = Vec::new();
    let mut k: usize = 0;
    while k < rows.len()
        invariant
            k <= rows.len(),
            forall|k: int| 0 <= k < rows.len() ==> j < (#[trigger] rows@[k]).len(),
            out.len() == k,
            forall|i: int| 0 <= i < k ==> #[trigger] out@[i] == rows@[i]@[j as int],
        decreases rows.len() - k,
    {
        out.push(rows[k][j]);
        k = k + 1;
    }
    assert(seq_view(out@) =~= col_of(rows_view(rows@), j as int));
    out
}

/// A copy of the stored rows.
fn copy_rows<T: Number>(rows: &Vec<Vec<T>>) -> (r: Vec<Vec<T>>)
    ensures
        r@.len() == rows@.len(),
        forall|i: int| 0 <= i < rows.len() ==> #[trigger] r@[i]@ == rows@[i]@,
{
    let mut out: Vec<Vec<T>> = Vec::new();
    let mut i: usize = 0;
    while i < rows.len()
        invariant
            i <= rows.len(),
            out.len() == i,
            forall|k: int| 0 <= k < i ==> #[trigger] out@[k]@ == rows@[k]@,
        decreases rows.len() - i,
    {
        out.push(copy_values(&rows[i]));
        i = i + 1;
    }
    out
}

impl<T: Number> Clone for Matrix<T> {
    fn clone(&self) -> (r: Self)
        ensures
            r@ == self@,
    {
        proof {
            use_type_invariant(self);
        }
        let values = copy_rows(&self.values);
        let r = Matrix { values };
        assert(r@ =~= self@);
        r
    }
}

impl<T: Number> Matrix<T> {
    #[verifier::type_invariant]
    spec fn inv(self) -> bool {
        &&& self.values.len() > 0
        &&& self.values@[0].len() > 0
        &&& forall|i: int|
            0 <= i < self.values.len() ==> (#[trigger] self.values@[i]).len()
                == self.values@[0].len()
    }

    /// A matrix made of the given rows, which satisfy the invariant.
    fn from_rows(values: Vec<Vec<T>>) -> (r: Self)
        requires
            is_matrix(rows_view(values@)),
        ensures
            r@ == rows_view(values@),
    {
        assert(rows_view(values@)[0].len() == values@[0]@.len());
        assert forall|i: int| 0 <= i < values.len() implies (#[trigger] values@[i]).len()
            == values@[0].len() by {
            assert(rows_view(values@)[i].len() == values@[i]@.len());
        }
        Matrix { values }
    }

    /// The 2x2 matrix with rows `(a, b)` and `(c, d)`.
    fn from_2d(a: T, b: T, c: T, d: T) -> (r: Self)
        ensures
            r@ == seq![seq![a.val(), b.val()], seq![c.val(), d.val()]],
    {
        let values = vec![vec![a, b], vec![c, d]];
        assert(rows_view(values@) =~~= seq![seq![a.val(), b.val()], seq![c.val(), d.val()]]);
        Self::from_rows(values)
    }

    /// The four entries of a 2x2 matrix, row by row.
    fn entries_2d(&self) -> (r: (T, T, T, T))
        requires
            is_2x2(self@),
        ensures
            r.0.val() == self@[0][0] && r.1.val() == self@[0][1],
            r.2.val() == self@[1][0] && r.3.val() == self@[1][1],
    {
        proof {
            use_type_invariant(self);
        }
        assert(self@[0].len() == self.values@[0]@.len());
        assert(self@[1].len() == self.values@[1]@.len());
        (self.values[0][0], self.values[0][1], self.values[1][0], self.values[1][1])
    }

    /// Every matrix is non-empty and rectangular.
    fn lemma_view(&self)
        ensures
            is_matrix(self@),
            self@.len() == self.values.len(),
            forall|i: int| 0 <= i < self@.len() ==> #[trigger] self@[i] == seq_view(self.values@[i]@),
    {
        proof {
            use_type_invariant(self);
            assert forall|i: int| 0 <= i < self@.len() implies (#[trigger] self@[i]).len()
                == self@[0].len() by {
                assert(self@[i] == seq_view(self.values@[i]@));
            }
        }
    }

    /// Creates a new Matrix with the specified rows.
    ///
    /// Returns a None if there are no rows, the first row is empty, or the rows differ in length.
    pub fn new(values: Vec<Vec<T>>) -> (r: Option<Self>)
        ensures
            match r {
                Some(m) => is_matrix(rows_view(values@)) && m@ == rows_view(values@),
                None => !is_matrix(rows_view(values@)),
            },
    {
        if values.len() == 0 {
            return None;
        }
        let first_length = values[0].len();
        if first_length == 0 {
            assert(rows_view(values@)[0].len() == 0);
            return None;
        }
        let mut i: usize = 0;
        while i < values.len()
            invariant
                i <= values.len(),
                first_length == values@[0].len(),
                forall|k: int| 0 <= k < i ==> (#[trigger] values@[k]).len() == first_length,
            decreases values.len() - i,
        {
            if values[i].len() != first_length {
                assert(rows_view(values@)[i as int].len() != rows_view(values@)[0].len());
                return None;
            }
            i = i + 1;
        }
        assert forall|k: int| 0 <= k < values.len() implies (#[trigger] rows_view(values@)[k]).len()
            == rows_view(values@)[0].len() by {
            assert(rows_view(values@)[k] == seq_view(values@[k]@));
        }
        Some(Self::from_rows(values))
    }

    /// Creates an identity matrix of size n x n.
    ///
    /// Returns a None if the dimension is 0 and a Some with the matrix otherwise.
    pub fn identity(dimensions: usize) -> (r: Option<Self>)
        ensures
            match r {
                Some(m) => dimensions > 0 && m@ == identity_spec(dimensions as nat),
                None => dimensions == 0,
            },
    {
        if dimensions == 0 {
            return None;
        }
        let mut values: Vec<Vec<T>> = Vec::new();
        let mut i: usize = 0;
        while i < dimensions
            invariant
                i <= dimensions,
                values.len() == i,
                forall|k: int| 0 <= k < i ==> #[trigger] seq_view(values@[k]@) == identity_spec(dimensions as nat)[k],
            decreases dimensions - i,
        {
            let mut row: Vec<T> = Vec::new();
            let mut j: usize = 0;
            while j < dimensions
                invariant
                    j <= dimensions,
                    i < dimensions,
                    row.len() == j,
                    forall|k: int| 0 <= k < j ==> (#[trigger] row@[k]).val() == if k == i { 1int } else { 0int },
                decreases dimensions - j,
            {
                if j == i {
                    row.push(T::one());
                } else {
                    row.push(T::zero());
                }
                j = j + 1;
            }
            assert(seq_view(row@) =~= identity_spec(dimensions as nat)[i as int]);
            values.push(row);
            i = i + 1;
        }
        assert(rows_view(values@) =~= identity_spec(dimensions as nat));
        Some(Self::from_rows(values))
    }

    /// Returns the dimensions of this matrix as (rows, columns).
    pub fn get_dimensions(&self) -> (r: (usize, usize))
        ensures
            r.0 == self@.len(),
            r.1 == self@[0].len(),
            r.0 > 0 && r.1 > 0,
            is_matrix(self@),
    {
        self.lemma_view();
        (self.values.len(), self.values[0].len())
    }

    /// Transposes a matrix.
    pub fn transpose(&self) -> (r: Matrix<T>)
        ensures
            r@ == transpose_spec(self@),
    {
        self.lemma_view();
        let cols = self.values[0].len();
        let mut out: Vec<Vec<T>> = Vec::new();
        let mut j: usize = 0;
        while j < cols
            invariant
                is_matrix(self@),
                cols == self@[0].len(),
                self@.len() == self.values.len(),
                forall|i: int| 0 <= i < self@.len() ==> #[trigger] self@[i] == seq_view(self.values@[i]@),
                j <= cols,
                out.len() == j,
                forall|k: int| 0 <= k < j ==> #[trigger] seq_view(out@[k]@) == col_of(self@, k),
            decreases cols - j,
        {
            assert forall|k: int| 0 <= k < self.values.len() implies j < (#[trigger] self.values@[k]).len() by {
                assert(self@[k].len() == self.values@[k]@.len());
            }
            let c = column(&self.values, j);
            out.push(c);
            j = j + 1;
        }
        assert(rows_view(out@) =~= transpose_spec(self@));
        Self::from_rows(out)
    }

    /// Multiplies two matrices together.
    ///
    /// Returns an Err if the columns of the left matrix do not match the rows of the right
    /// one, or an entry of the product is not representable.
    pub fn mul(self, rhs: Matrix<T>) -> (r: Result<Matrix<T>, MathError>)
        ensures
            mat_result(r) == mat_mul_model::<T>(self@, rhs@),
    {
        self.lemma_view();
        rhs.lemma_view();
        if self.values[0].len() != rhs.values.len() {
            return Err(MathError::DimensionMismatch);
        }
        let n = self.values.len();
        let p = rhs.values[0].len();
        let ghost a = self@;
        let ghost b = rhs@;
        let mut out: Vec<Vec<T>> = Vec::new();
        let mut i: usize = 0;
        while i < n
            invariant
                is_matrix(a),
                is_matrix(b),
                a == self@,
                b == rhs@,
                a[0].len() == b.len(),
                n == a.len() == self.values.len(),
                p == b[0].len(),
                b.len() == rhs.values.len(),
                forall|k: int| 0 <= k < a.len() ==> #[trigger] a[k] == seq_view(self.values@[k]@),
                forall|k: int| 0 <= k < b.len() ==> #[trigger] b[k] == seq_view(rhs.values@[k]@),
                i <= n,
                out.len() == i,
                forall|k: int| 0 <= k < i ==> #[trigger] seq_view(out@[k]@) == mat_mul_spec(a, b)[k],
                forall|k: int, j: int|
                    0 <= k < i && 0 <= j < p ==> #[trigger] dot_fits::<T>(a[k], col_of(b, j), a[k].len()),
            decreases n - i,
        {
            let mut row: Vec<T> = Vec::new();
            let mut j: usize = 0;
            while j < p
                invariant
                    is_matrix(a),
                    is_matrix(b),
                    a == self@,
                    b == rhs@,
                    a[0].len() == b.len(),
                    n == a.len() == self.values.len(),
                    p == b[0].len(),
                    b.len() == rhs.values.len(),
                    forall|k: int| 0 <= k < a.len() ==> #[trigger] a[k] == seq_view(self.values@[k]@),
                    forall|k: int| 0 <= k < b.len() ==> #[trigger] b[k] == seq_view(rhs.values@[k]@),
                    i < n,
                    j <= p,
                    row.len() == j,
                    forall|jj: int| 0 <= jj < j ==> (#[trigger] row@[jj]).val() == dot_spec(a[i as int], col_of(b, jj)),
                    forall|jj: int|
                        0 <= jj < j ==> #[trigger] dot_fits::<T>(a[i as int], col_of(b, jj), a[i as int].len()),
                decreases p - j,
            {
                assert forall|k: int| 0 <= k < rhs.values.len() implies j < (#[trigger] rhs.values@[k]).len() by {
                    assert(b[k].len() == rhs.values@[k]@.len());
                }
                let c = column(&rhs.values, j);
                assert(a[i as int].len() == self.values@[i as int]@.len());
                assert(seq_view(c@).len() == c@.len());
                let x = match dot_values(&self.values[i], &c) {
                    Ok(x) => x,
                    Err(e) => {
                        assert(col_of(b, j as int).len() == a[i as int].len());
                        assert(!dot_fits::<T>(a[i as int], col_of(b, j as int), a[i as int].len()));
                        assert(!mat_mul_fits::<T>(a, b));
                        return Err(MathError::Overflow);
                    },
                };
                row.push(x);
                j = j + 1;
            }
            assert(seq_view(row@) =~= mat_mul_spec(a, b)[i as int]);
            assert forall|k: int, jj: int|
                0 <= k < i + 1 && 0 <= jj < p implies #[trigger] dot_fits::<T>(a[k], col_of(b, jj), a[k].len()) by {
            }
            out.push(row);
            i = i + 1;
        }
        assert(rows_view(out@) =~= mat_mul_spec(a, b));
        assert(mat_mul_fits::<T>(a, b));
        assert(is_matrix(rows_view(out@))) by {
            assert(rows_view(out@)[0].len() == p);
        }
        Ok(Self::from_rows(out))
    }

    /// Calculates the determinant by cofactor expansion along the first row.
    ///
    /// Returns an Err if the matrix is not square, or a step of the expansion is not
    /// representable.
    pub fn determinant(&self) -> (r: Result<T, MathError>)
        ensures
            scalar_result(r) == det_model::<T>(self@),
    {
        self.lemma_view();
        if self.values.len() != self.values[0].len() {
            return Err(MathError::InvalidShape);
        }
        proof {
            use_type_invariant(self);
        }
        det_rows(&self.values)
    }

    /// Multiplies a vector by a matrix.
    ///
    /// Returns an Err if the number of columns differs from the vector's dimension, or a
    /// coordinate of the product is not representable.
    pub fn mul_vector(self, rhs: Vector<T>) -> (r: Result<Vector<T>, MathError>)
        ensures
            vec_result(r) == mat_vec_model::<T>(self@, rhs@),
    {
        self.lemma_view();
        let v = rhs.values();
        if self.values[0].len() != v.len() {
            return Err(MathError::DimensionMismatch);
        }
        let ghost a = self@;
        let ghost vv = rhs@;
        let n = self.values.len();
        let mut out: Vec<T> = Vec::new();
        let mut i: usize = 0;
        while i < n
            invariant
                is_matrix(a),
                a == self@,
                vv == rhs@,
                seq_view(v@) == vv,
                a[0].len() == v.len(),
                n == a.len() == self.values.len(),
                forall|k: int| 0 <= k < a.len() ==> #[trigger] a[k] == seq_view(self.values@[k]@),
                i <= n,
                out.len() == i,
                forall|k: int| 0 <= k < i ==> (#[trigger] out@[k]).val() == dot_spec(a[k], vv),
                forall|k: int| 0 <= k < i ==> #[trigger] dot_fits::<T>(a[k], vv, vv.len()),
            decreases n - i,
        {
            assert(a[i as int].len() == self.values@[i as int]@.len());
            let x = match dot_values(&self.values[i], v) {
                Ok(x) => x,
                Err(e) => {
                    assert(!dot_fits::<T>(a[i as int], vv, vv.len()));
                    return Err(MathError::Overflow);
                },
            };
            out.push(x);
            i = i + 1;
        }
        assert(seq_view(out@) =~= Seq::new(a.len(), |i: int| dot_spec(a[i], vv)));
        match Vector::new(out) {
            Some(r) => Ok(r),
            None => Err(MathError::DimensionMismatch),
        }
    }

    /// Scales a matrix by a scalar; the result has the scalar's type.
    ///
    /// Returns an Err if an entry or a product is not representable by that type.
    pub fn scale<U: Number>(&self, scalar: U) -> (r: Result<Matrix<U>, MathError>)
        ensures
            mat_result(r) == mat_scale_model::<U>(scalar.val(), self@),
    {
        self.lemma_view();
        let ghost m = self@;
        let n = self.values.len();
        let mut out: Vec<Vec<U>> = Vec::new();
        let mut i: usize = 0;
        while i < n
            invariant
                is_matrix(m),
                m == self@,
                n == m.len() == self.values.len(),
                forall|k: int| 0 <= k < m.len() ==> #[trigger] m[k] == seq_view(self.values@[k]@),
                i <= n,
                out.len() == i,
                forall|k: int| 0 <= k < i ==> #[trigger] seq_view(out@[k]@) == m[k].map_values(|x: int| scalar.val() * x),
                forall|k: int, j: int| 0 <= k < i && 0 <= j < m[k].len() ==> fits::<U>(#[trigger] m[k][j]) && fits::<U>(scalar.val() * m[k][j]),
            decreases n - i,
        {
            let row = &self.values[i];
            let len = row.len();
            let mut new_row: Vec<U> = Vec::new();
            let mut j: usize = 0;
            assert(m[i as int].len() == len);
            while j < len
                invariant
                    i < n,
                    n == m.len(),
                    m == self@,
                    len == row.len(),
                    m[i as int] == seq_view(row@),
                    j <= len,
                    new_row.len() == j,
                    forall|jj: int| 0 <= jj < j ==> fits::<U>(#[trigger] m[i as int][jj]),
                    forall|jj: int| 0 <= jj < j ==> (#[trigger] new_row@[jj]).val() == scalar.val() * m[i as int][jj],
                decreases len - j,
            {
                assert(m[i as int][j as int] == row@[j as int].val());
                let x = match U::checked_from_i64(row[j].to_i64()) {
                    Some(x) => x,
                    None => {
                        assert(0 <= j < m[i as int].len());
                        assert(!fits::<U>(m[i as int][j as int]));
                        assert(mat_scale_model::<U>(scalar.val(), m) is Err);
                        return Err(MathError::Overflow);
                    },
                };
                proof {
                    U::lemma_range(x);
                }
                let y = match scalar.checked_mul(x) {
                    Some(y) => y,
                    None => {
                        assert(0 <= j < m[i as int].len());
                        assert(!fits::<U>(scalar.val() * m[i as int][j as int]));
                        assert(mat_scale_model::<U>(scalar.val(), m) is Err);
                        return Err(MathError::Overflow);
                    },
                };
                proof {
                    U::lemma_range(x);
                }
                new_row.push(y);
                j = j + 1;
            }
            assert forall|jj: int| 0 <= jj < len implies fits::<U>(scalar.val() * #[trigger] m[i as int][jj]) by {
                U::lemma_range(new_row@[jj]);
            }
            assert(seq_view(new_row@) =~= m[i as int].map_values(|x: int| scalar.val() * x));
            out.push(new_row);
            i = i + 1;
        }
        assert(rows_view(out@) =~= Seq::new(m.len(), |i: int| m[i].map_values(|x: int| scalar.val() * x)));
        assert(is_matrix(rows_view(out@))) by {
            assert forall|k: int| 0 <= k < out.len() implies (#[trigger] rows_view(out@)[k]).len() == rows_view(out@)[0].len() by {
                assert(m[k].len() == m[0].len());
            }
        }
        Ok(Matrix::<U>::from_rows(out))
    }

    /// Calculates the eigenvalues of a 2x2 matrix with the quadratic formula on the
    /// characteristic polynomial.
    ///
    /// Returns an Err if the matrix is not 2x2, or a value is not representable.
    pub fn eigenvalues_2d(self) -> (r: Result<(T, T), MathError>)
        ensures
            pair_result(r) == eig_model::<T>(self@),
    {
        let (rows, cols) = self.get_dimensions();
        if rows != 2 || cols != 2 {
            return Err(MathError::InvalidShape);
        }
        let (a, b, c, d) = self.entries_2d();
        let na = match a.checked_neg() {
            Some(x) => x,
            None => return Err(MathError::Overflow),
        };
        let tr = match na.checked_sub(d) {
            Some(x) => x,
            None => return Err(MathError::Overflow),
        };
        let bc = match b.checked_mul(c) {
            Some(x) => x,
            None => return Err(MathError::Overflow),
        };
        let nbc = match bc.checked_neg() {
            Some(x) => x,
            None => return Err(MathError::Overflow),
        };
        let ad = match a.checked_mul(d) {
            Some(x) => x,
            None => return Err(MathError::Overflow),
        };
        let det = match nbc.checked_add(ad) {
            Some(x) => x,
            None => return Err(MathError::Overflow),
        };
        proof {
            T::lemma_range(na);
            T::lemma_range(tr);
            T::lemma_range(bc);
            T::lemma_range(nbc);
            T::lemma_range(ad);
            T::lemma_range(det);
        }
        quadsolve(T::one(), tr, det)
    }

    /// Calculates the eigenvectors `(l1 - a, b)` and `(l2 - d, c)` of a 2x2 matrix, normalized.
    ///
    /// Returns an Err if the matrix is not 2x2, a vector has norm zero (as when the
    /// eigenvalues coincide), or a value is not representable.
    pub fn eigenvectors_2d(self) -> (r: Result<(Vector<T>, Vector<T>), MathError>)
        ensures
            match r {
                Ok((v1, v2)) => eigvec_model::<T>(self@) == Ok::<(Seq<int>, Seq<int>), MathError>((v1@, v2@)),
                Err(e) => eigvec_model::<T>(self@) == Err::<(Seq<int>, Seq<int>), MathError>(e),
            },
    {
        let ghost m = self@;
        let (l1, l2) = match self.clone().eigenvalues_2d() {
            Ok(p) => p,
            Err(e) => return Err(e),
        };
        let (a, b, c, d) = self.entries_2d();
        let x1 = match l1.checked_sub(a) {
            Some(x) => x,
            None => return Err(MathError::Overflow),
        };
        proof {
            T::lemma_range(x1);
        }
        let v1 = match Vector::new(vec![x1, b]) {
            Some(v) => v,
            None => return Err(MathError::DimensionMismatch),
        };
        assert(v1@ =~= seq![l1.val() - a.val(), b.val()]);
        let n1 = match v1.normalize() {
            Ok(v) => v,
            Err(e) => return Err(e),
        };
        let x2 = match l2.checked_sub(d) {
            Some(x) => x,
            None => return Err(MathError::Overflow),
        };
        proof {
            T::lemma_range(x2);
        }
        let v2 = match Vector::new(vec![x2, c]) {
            Some(v) => v,
            None => return Err(MathError::DimensionMismatch),
        };
        assert(v2@ =~= seq![l2.val() - d.val(), c.val()]);
        let n2 = match v2.normalize() {
            Ok(v) => v,
            Err(e) => return Err(e),
        };
        proof {
            T::lemma_range(x1);
            T::lemma_range(x2);
        }
        Ok((n1, n2))
    }

    /// Calculates the inverse of a 2x2 matrix: its adjugate scaled by `1 / det`, rounded
    /// toward zero.
    ///
    /// Returns an Err if the matrix is not 2x2, its determinant is 0, or a value is not
    /// representable.
    pub fn invert_2d(self) -> (r: Result<Matrix<T>, MathError>)
        ensures
            mat_result(r) == invert_model::<T>(self@),
    {
        let (rows, cols) = self.get_dimensions();
        if rows != 2 || cols != 2 {
            return Err(MathError::InvalidShape);
        }
        let (a, b, c, d) = self.entries_2d();
        let nb = match b.checked_neg() {
            Some(x) => x,
            None => return Err(MathError::Overflow),
        };
        let nc = match c.checked_neg() {
            Some(x) => x,
            None => return Err(MathError::Overflow),
        };
        let adj = Self::from_2d(d, nb, nc, a);
        proof {
            T::lemma_range(nb);
            T::lemma_range(nc);
        }
        let det = match self.determinant() {
            Ok(x) => x,
            Err(e) => return Err(e),
        };
        if det.is_zero() {
            return Err(MathError::DegenerateValue);
        }
        proof {
            T::lemma_bounds();
        }
        let q = match T::one().checked_div(det) {
            Some(x) => x,
            None => {
                assert(trunc_div(1, det.val()) == 0 || trunc_div(1, det.val()) == 1 || trunc_div(1, det.val()) == -1) by (nonlinear_arith)
                    requires det.val() != 0;
                return Err(MathError::Overflow);
            },
        };
        adj.scale(q)
    }

    /// Performs the singular value decomposition of a 2x2 matrix from the eigen-decomposition
    /// of `AtA`: returns `U`, `Sigma` and `V = U^-1`.
    ///
    /// Returns an Err if the matrix is not 2x2 or a step of the decomposition fails.
    pub fn svd_2d(self) -> (r: Result<(Matrix<T>, Matrix<T>, Matrix<T>), MathError>)
        ensures
            match r {
                Ok((u, s, v)) => svd_model::<T>(self@) == Ok::<
                    (Seq<Seq<int>>, Seq<Seq<int>>, Seq<Seq<int>>),
                    MathError,
                >((u@, s@, v@)),
                Err(e) => svd_model::<T>(self@) == Err::<
                    (Seq<Seq<int>>, Seq<Seq<int>>, Seq<Seq<int>>),
                    MathError,
                >(e),
            },
    {
        let (rows, cols) = self.get_dimensions();
        if rows != 2 || cols != 2 {
            return Err(MathError::InvalidShape);
        }
        let ata = match self.transpose().mul(self.clone()) {
            Ok(x) => x,
            Err(e) => return Err(e),
        };
        let (l1, l2) = match ata.clone().eigenvalues_2d() {
            Ok(p) => p,
            Err(e) => return Err(e),
        };
        let sigma = Self::from_2d(l1.sqrt(), T::zero(), T::zero(), l2.sqrt());
        let (v1, v2) = match ata.eigenvectors_2d() {
            Ok(p) => p,
            Err(e) => return Err(e),
        };
        let p1 = v1.values();
        let p2 = v2.values();
        assert(v1@.len() == 2 && v2@.len() == 2);
        assert(seq_view(p1@)[0] == p1@[0].val() && seq_view(p1@)[1] == p1@[1].val());
        assert(seq_view(p2@)[0] == p2@[0].val() && seq_view(p2@)[1] == p2@[1].val());
        let u = Self::from_2d(p1[0], p2[0], p1[1], p2[1]);
        assert(u@ == columns_2d(v1@, v2@));
        let v = match u.clone().invert_2d() {
            Ok(x) => x,
            Err(e) => return Err(e),
        };
        Ok((u, sigma, v))
    }

    /// Performs the polar decomposition of a 2x2 matrix through its SVD: returns the
    /// rotation part `Q = A S^-1` and the scaling part `S = U Sigma V`.
    ///
    /// Returns an Err if the matrix is not 2x2 or a step of the decomposition fails.
    pub fn polar_decomposition_2d(self) -> (r: Result<(Matrix<T>, Matrix<T>), MathError>)
        ensures
            match r {
                Ok((q, s)) => polar_model::<T>(self@) == Ok::<(Seq<Seq<int>>, Seq<Seq<int>>), MathError>((q@, s@)),
                Err(e) => polar_model::<T>(self@) == Err::<(Seq<Seq<int>>, Seq<Seq<int>>), MathError>(e),
            },
    {
        let (u, sigma, v) = match self.clone().svd_2d() {
            Ok(t) => t,
            Err(e) => return Err(e),
        };
        let us = match u.mul(sigma) {
            Ok(x) => x,
            Err(e) => return Err(e),
        };
        let s = match us.mul(v) {
            Ok(x) => x,
            Err(e) => return Err(e),
        };
        let si = match s.clone().invert_2d() {
            Ok(x) => x,
            Err(e) => return Err(e),
        };
        let q = match self.mul(si) {
            Ok(x) => x,
            Err(e) => return Err(e),
        };
        Ok((q, s))
    }

    /// Creates a matrix of the specified dimensions with random entries.
    ///
    /// Returns None if the number of rows or columns is 0 and Some with the matrix otherwise.
    pub fn random(dimensions: (usize, usize)) -> (r: Option<Self>)
        ensures
            match r {
                Some(m) => dimensions.0 > 0 && dimensions.1 > 0 && m@.len() == dimensions.0
                    && m@[0].len() == dimensions.1 && is_matrix(m@),
                None => dimensions.0 == 0 || dimensions.1 == 0,
            },
    {
        let (rows, cols) = dimensions;
        if rows == 0 || cols == 0 {
            return None;
        }
        let mut values: Vec<Vec<T>> = Vec::new();
        let mut i: usize = 0;
        while i < rows
            invariant
                i <= rows,
                cols > 0,
                values.len() == i,
                forall|k: int| 0 <= k < i ==> (#[trigger] values@[k]).len() == cols,
            decreases rows - i,
        {
            let mut row: Vec<T> = Vec::new();
            let mut j: usize = 0;
            while j < cols
                invariant
                    j <= cols,
                    row.len() == j,
                decreases cols - j,
            {
                row.push(T::from_i32(crate::vector::random_i32()));
                j = j + 1;
            }
            values.push(row);
            i = i + 1;
        }
        assert forall|k: int| 0 <= k < values.len() implies (#[trigger] rows_view(values@)[k]).len()
            == rows_view(values@)[0].len() by {
            assert(rows_view(values@)[k].len() == values@[k].len());
        }
        Some(Self::from_rows(values))
    }

    /// Returns a reference to the matrix's rows.
    pub fn values(&self) -> (r: &Vec<Vec<T>>)
        ensures
            rows_view(r@) == self@,
    {
        &self.values
    }
}

} // verus!
