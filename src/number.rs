//! The scalar abstraction shared by points, vectors and matrices.
use vstd::prelude::*;

verus! {

/// Whether `v` is representable by the scalar type `T`.
pub open spec fn fits<T: Number>(v: int) -> bool {
    T::min_val() <= v <= T::max_val()
}

/// The absolute value of an integer.
pub open spec fn abs_int(v: int) -> int {
    if v < 0 { -v } else { v }
}

/// Whether `r` is the integer square root of `v`, rounded down.
pub open spec fn is_floor_sqrt(v: int, r: int) -> bool {
    0 <= r && r * r <= v && v < (r + 1) * (r + 1)
}

/// The square root of `v` rounded down; zero for every `v <= 0`.
pub open spec fn floor_sqrt(v: int) -> int {
    if v <= 0 {
        0
    } else {
        choose|r: int| is_floor_sqrt(v, r)
    }
}

/// `x` raised to a natural power.
pub open spec fn pow_nat(x: int, e: nat) -> int
    decreases e,
{
    if e == 0 {
        1
    } else {
        x * pow_nat(x, (e - 1) as nat)
    }
}

/// `x` raised to an integer power. A negative power is `1 / x^k` truncated toward zero,
/// with `max` standing for the unbounded result at `x == 0`.
pub open spec fn pow_int(x: int, e: int, max: int) -> int {
    if e >= 0 {
        pow_nat(x, e as nat)
    } else if x == 0 {
        max
    } else if x == 1 {
        1
    } else if x == -1 {
        pow_nat(-1, (-e) as nat)
    } else {
        0
    }
}

/// Integer division rounded toward zero, as machine division does.
pub open spec fn trunc_div(x: int, d: int) -> int {
    if x >= 0 && d > 0 {
        x / d
    } else if x < 0 && d < 0 {
        (-x) / (-d)
    } else if x < 0 && d > 0 {
        -((-x) / d)
    } else if x >= 0 && d < 0 {
        -(x / (-d))
    } else {
        0
    }
}

/// A signed number type: zero and one, checked arithmetic, integer square root and powers.
///
/// Each value stands for the mathematical integer `val()`, and each type represents
/// a contiguous range of integers that holds the range of `i32` and lies within that of `i64`.
pub trait Number: Sized + Copy {
    /// The integer this value stands for.
    spec fn val(self) -> int;

    /// The smallest representable integer.
    spec fn min_val() -> int;

    /// The largest representable integer.
    spec fn max_val() -> int;

    proof fn lemma_range(x: Self)
        ensures
            Self::min_val() <= x.val() <= Self::max_val(),
    ;

    proof fn lemma_bounds()
        ensures
            Self::min_val() <= i32::MIN,
            i32::MAX <= Self::max_val(),
            i64::MIN <= Self::min_val(),
            Self::max_val() <= i64::MAX,
    ;

    proof fn lemma_val_injective(x: Self, y: Self)
        ensures
            x.val() == y.val() <==> x == y,
    ;

    /// Returns the value 0 for that type.
    fn zero() -> (r: Self)
        ensures
            r.val() == 0,
    ;

    /// Returns the value 1 for that type.
    fn one() -> (r: Self)
        ensures
            r.val() == 1,
    ;

    /// Checks if a value is 0.
    fn is_zero(self) -> (r: bool)
        ensures
            r == (self.val() == 0),
    ;

    /// Returns the absolute value of that number.
    fn abs(self) -> (r: Self)
        requires
            (Self::min_val() <= abs_int(self.val()) <= Self::max_val()),
        ensures
            r.val() == abs_int(self.val()),
    ;

    /// Returns the square root of that number, truncated to its integer part
    /// (zero for negative numbers).
    fn sqrt(self) -> (r: Self)
        ensures
            r.val() == floor_sqrt(self.val()),
    ;

    /// Raises a value to an integer power.
    fn pow(self, exponent: i32) -> (r: Self)
        requires
            exponent < 0 || forall|k: nat| k <= exponent ==> (Self::min_val() <= #[trigger] pow_nat(self.val(), k) <= Self::max_val()),
        ensures
            r.val() == pow_int(self.val(), exponent as int, Self::max_val()),
    ;

    /// Converts an i64 into this type.
    fn from_i64(value: i64) -> (r: Self)
        requires
            (Self::min_val() <= value as int <= Self::max_val()),
        ensures
            r.val() == value,
    ;

    /// Converts an i64 into this type, or `None` where it is not representable.
    fn checked_from_i64(value: i64) -> (r: Option<Self>)
        ensures
            match r {
                Some(x) => x.val() == value,
                None => !(Self::min_val() <= value as int <= Self::max_val()),
            },
    ;

    /// Converts an i32 into this type.
    fn from_i32(value: i32) -> (r: Self)
        ensures
            r.val() == value,
    ;

    /// Converts this value into an i64.
    fn to_i64(self) -> (r: i64)
        ensures
            r as int == self.val(),
    ;

    /// Checks if a value is positive.
    fn is_positive(&self) -> (r: bool)
        ensures
            r == (self.val() > 0),
    ;

    /// Checks if a value is negative.
    fn is_negative(&self) -> (r: bool)
        ensures
            r == (self.val() < 0),
    ;

    /// The sum, or `None` where it is not representable.
    fn checked_add(self, rhs: Self) -> (r: Option<Self>)
        ensures
            match r {
                Some(x) => x.val() == self.val() + rhs.val(),
                None => !(Self::min_val() <= self.val() + rhs.val() <= Self::max_val()),
            },
    ;

    /// The difference, or `None` where it is not representable.
    fn checked_sub(self, rhs: Self) -> (r: Option<Self>)
        ensures
            match r {
                Some(x) => x.val() == self.val() - rhs.val(),
                None => !(Self::min_val() <= self.val() - rhs.val() <= Self::max_val()),
            },
    ;

    /// The product, or `None` where it is not representable.
    fn checked_mul(self, rhs: Self) -> (r: Option<Self>)
        ensures
            match r {
                Some(x) => x.val() == self.val() * rhs.val(),
                None => !(Self::min_val() <= self.val() * rhs.val() <= Self::max_val()),
            },
    ;

    /// The quotient rounded toward zero, or `None` for a zero divisor or an
    /// unrepresentable quotient.
    fn checked_div(self, rhs: Self) -> (r: Option<Self>)
        ensures
            match r {
                Some(x) => rhs.val() != 0 && x.val() == trunc_div(self.val(), rhs.val()),
                None => rhs.val() == 0 || !(Self::min_val() <= trunc_div(self.val(), rhs.val()) <= Self::max_val()),
            },
    ;

    /// The negation, or `None` where it is not representable.
    fn checked_neg(self) -> (r: Option<Self>)
        ensures
            match r {
                Some(x) => x.val() == -self.val(),
                None => !(Self::min_val() <= -self.val() <= Self::max_val()),
            },
    ;
}

/// There is at most one integer square root rounded down.
pub proof fn lemma_floor_sqrt_unique(v: int, r: int)
    requires
        is_floor_sqrt(v, r),
    ensures
        floor_sqrt(v) == r,
{
    if v <= 0 {
        assert(r * r >= 0) by (nonlinear_arith);
        if r > 0 {
            assert(r * r > 0) by (nonlinear_arith) requires r > 0;
        }
    } else {
        let s = choose|s: int| is_floor_sqrt(v, s);
        assert(is_floor_sqrt(v, s));
        if s < r {
            assert((s + 1) * (s + 1) <= r * r) by (nonlinear_arith)
                requires 0 <= s, s + 1 <= r;
        } else if r < s {
            assert((r + 1) * (r + 1) <= s * s) by (nonlinear_arith)
                requires 0 <= r, r + 1 <= s;
        }
    }
}

/// Every non-negative integer has a square root rounded down.
pub proof fn lemma_floor_sqrt_exists(v: int)
    requires
        v >= 0,
    ensures
        is_floor_sqrt(v, floor_sqrt(v)),
        floor_sqrt(v) >= 0,
    decreases v,
{
    if v == 0 {
    } else {
        lemma_floor_sqrt_exists(v - 1);
        let r = floor_sqrt(v - 1);
        if (r + 1) * (r + 1) <= v {
            assert(v < (r + 2) * (r + 2)) by (nonlinear_arith)
                requires v - 1 < (r + 1) * (r + 1), r >= 0;
            lemma_floor_sqrt_unique(v, r + 1);
        } else {
            lemma_floor_sqrt_unique(v, r);
        }
    }
}

/// Dividing by a positive number does not grow the magnitude.
pub proof fn lemma_trunc_div_shrinks(x: int, d: int)
    requires
        d > 0,
    ensures
        abs_int(trunc_div(x, d)) <= abs_int(x),
        x >= 0 ==> trunc_div(x, d) >= 0,
        x < 0 ==> trunc_div(x, d) <= 0,
{
    if x >= 0 {
        assert(x / d <= x) by (nonlinear_arith) requires x >= 0, d > 0;
        assert(x / d >= 0) by (nonlinear_arith) requires x >= 0, d > 0;
    } else {
        assert((-x) / d <= -x) by (nonlinear_arith) requires -x >= 0, d > 0;
        assert((-x) / d >= 0) by (nonlinear_arith) requires -x >= 0, d > 0;
    }
}

/// The square root of `v` rounded down.
pub fn floor_sqrt_u64(v: u64) -> (r: u64)
    ensures
        is_floor_sqrt(v as int, r as int),
        r as int == floor_sqrt(v as int),
        r <= v,
{
    let mut lo: u64 = 0;
    let mut hi: u64 = 0x1_0000_0000;
    assert(v < hi * hi) by (nonlinear_arith)
        requires hi == 0x1_0000_0000u64, v <= u64::MAX;
    while hi - lo > 1
        invariant
            lo < hi <= 0x1_0000_0000,
            lo * lo <= v,
            v < hi * hi,
        decreases hi - lo,
    {
        let mid: u64 = lo + (hi - lo) / 2;
        assert((mid as u128) * (mid as u128) <= 0x1_0000_0000_0000_0000u128) by (nonlinear_arith)
            requires mid <= 0x1_0000_0000u64;
        let sq: u128 = (mid as u128) * (mid as u128);
        if sq <= v as u128 {
            lo = mid;
        } else {
            hi = mid;
        }
    }
    assert(hi == lo + 1);
    proof {
        lemma_floor_sqrt_unique(v as int, lo as int);
        if lo >= 1 {
            assert(lo <= lo * lo) by (nonlinear_arith) requires lo >= 1;
        }
    }
    lo
}

/// `x^k` for `k <= e`, computed by repeated multiplication.
fn pow_loop(x: i64, e: u32, min: i64, max: i64) -> (r: i64)
    requires
        forall|k: nat| k <= e ==> min <= #[trigger] pow_nat(x as int, k) <= max,
    ensures
        r as int == pow_nat(x as int, e as nat),
{
    let mut acc: i64 = 1;
    let mut i: u32 = 0;
    assert(pow_nat(x as int, 0) == 1);
    while i < e
        invariant
            i <= e,
            acc as int == pow_nat(x as int, i as nat),
            forall|k: nat| k <= e ==> min <= #[trigger] pow_nat(x as int, k) <= max,
        decreases e - i,
    {
        assert(pow_nat(x as int, (i + 1) as nat) == x * pow_nat(x as int, i as nat));
        assert(min <= pow_nat(x as int, (i + 1) as nat) <= max);
        acc = x * acc;
        i = i + 1;
    }
    acc
}

/// `(-1)^k`: one for an even power, minus one for an odd one.
proof fn lemma_pow_minus_one(e: nat)
    ensures
        pow_nat(-1, e) == 1 || pow_nat(-1, e) == -1,
        pow_nat(-1, e) == (if e % 2 == 0 { 1int } else { -1int }),
    decreases e,
{
    if e > 0 {
        lemma_pow_minus_one((e - 1) as nat);
    }
}

/// The truncated value of `x^e` for a negative `e`, given the largest representable value.
fn pow_negative(x: i64, e: i32, max: i64) -> (r: i64)
    requires
        e < 0,
    ensures
        r as int == pow_int(x as int, e as int, max as int),
        r == max || -1 <= r <= 1,
{
    proof {
        lemma_pow_minus_one((-e) as nat);
    }
    if x == 0 {
        max
    } else if x == 1 {
        1
    } else if x == -1 {
        if e % 2 == 0 {
            1
        } else {
            -1
        }
    } else {
        0
    }
}

impl Number for i32 {
    open spec fn val(self) -> int {
        self as int
    }

    open spec fn min_val() -> int {
        i32::MIN as int
    }

    open spec fn max_val() -> int {
        i32::MAX as int
    }

    proof fn lemma_range(x: Self) {
    }

    proof fn lemma_bounds() {
    }

    proof fn lemma_val_injective(x: Self, y: Self) {
    }

    fn zero() -> (r: Self) {
        0
    }

    fn one() -> (r: Self) {
        1
    }

    fn is_zero(self) -> (r: bool) {
        self == 0
    }

    fn abs(self) -> (r: Self) {
        if self < 0 {
            -self
        } else {
            self
        }
    }

    fn sqrt(self) -> (r: Self) {
        if self <= 0 {
            0
        } else {
            floor_sqrt_u64(self as u64) as i32
        }
    }

    fn pow(self, exponent: i32) -> (r: Self) {
        if exponent < 0 {
            pow_negative(self as i64, exponent, i32::MAX as i64) as i32
        } else {
            proof {
                assert forall|k: nat| k <= exponent as u32 implies i32::MIN <= #[trigger] pow_nat(
                    self as i64 as int,
                    k,
                ) <= i32::MAX by {
                    assert(pow_nat(self.val(), k) == pow_nat(self as i64 as int, k));
                }
            }
            pow_loop(self as i64, exponent as u32, i32::MIN as i64, i32::MAX as i64) as i32
        }
    }

    fn from_i64(value: i64) -> (r: Self) {
        value as i32
    }

    fn checked_from_i64(value: i64) -> (r: Option<Self>) {
        if i32::MIN as i64 <= value && value <= i32::MAX as i64 {
            Some(value as i32)
        } else {
            None
        }
    }

    fn from_i32(value: i32) -> (r: Self) {
        value
    }

    fn to_i64(self) -> (r: i64) {
        self as i64
    }

    fn is_positive(&self) -> (r: bool) {
        *self > 0
    }

    fn is_negative(&self) -> (r: bool) {
        *self < 0
    }

    fn checked_add(self, rhs: Self) -> (r: Option<Self>) {
        i32::checked_add(self, rhs)
    }

    fn checked_sub(self, rhs: Self) -> (r: Option<Self>) {
        i32::checked_sub(self, rhs)
    }

    fn checked_mul(self, rhs: Self) -> (r: Option<Self>) {
        i32::checked_mul(self, rhs)
    }

    fn checked_div(self, rhs: Self) -> (r: Option<Self>) {
        i32::checked_div(self, rhs)
    }

    fn checked_neg(self) -> (r: Option<Self>) {
        i32::checked_sub(0, self)
    }
}

impl Number for i64 {
    open spec fn val(self) -> int {
        self as int
    }

    open spec fn min_val() -> int {
        i64::MIN as int
    }

    open spec fn max_val() -> int {
        i64::MAX as int
    }

    proof fn lemma_range(x: Self) {
    }

    proof fn lemma_bounds() {
    }

    proof fn lemma_val_injective(x: Self, y: Self) {
    }

    fn zero() -> (r: Self) {
        0
    }

    fn one() -> (r: Self) {
        1
    }

    fn is_zero(self) -> (r: bool) {
        self == 0
    }

    fn abs(self) -> (r: Self) {
        if self < 0 {
            -self
        } else {
            self
        }
    }

    fn sqrt(self) -> (r: Self) {
        if self <= 0 {
            0
        } else {
            floor_sqrt_u64(self as u64) as i64
        }
    }

    fn pow(self, exponent: i32) -> (r: Self) {
        if exponent < 0 {
            pow_negative(self, exponent, i64::MAX)
        } else {
            proof {
                assert forall|k: nat| k <= exponent as u32 implies i64::MIN <= #[trigger] pow_nat(
                    self as int,
                    k,
                ) <= i64::MAX by {
                    assert(pow_nat(self.val(), k) == pow_nat(self as int, k));
                }
            }
            pow_loop(self, exponent as u32, i64::MIN, i64::MAX)
        }
    }

    fn from_i64(value: i64) -> (r: Self) {
        value
    }

    fn checked_from_i64(value: i64) -> (r: Option<Self>) {
        Some(value)
    }

    fn from_i32(value: i32) -> (r: Self) {
        value as i64
    }

    fn to_i64(self) -> (r: i64) {
        self
    }

    fn is_positive(&self) -> (r: bool) {
        *self > 0
    }

    fn is_negative(&self) -> (r: bool) {
        *self < 0
    }

    fn checked_add(self, rhs: Self) -> (r: Option<Self>) {
        i64::checked_add(self, rhs)
    }

    fn checked_sub(self, rhs: Self) -> (r: Option<Self>) {
        i64::checked_sub(self, rhs)
    }

    fn checked_mul(self, rhs: Self) -> (r: Option<Self>) {
        i64::checked_mul(self, rhs)
    }

    fn checked_div(self, rhs: Self) -> (r: Option<Self>) {
        i64::checked_div(self, rhs)
    }

    fn checked_neg(self) -> (r: Option<Self>) {
        i64::checked_sub(0, self)
    }
}

} // verus!
