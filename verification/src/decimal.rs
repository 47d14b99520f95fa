//! Exact decimal numbers: a 96-bit signed mantissa and a scale of at most 28.
//!
//! The arithmetic is done by the `rust_decimal` crate. The functions of this module that
//! call it carry contracts which are trusted; everything else is proved.

use std::cmp::Ordering;
use vstd::prelude::*;
use vstd::std_specs::cmp::{PartialEqSpec, PartialEqSpecImpl, PartialOrdSpec, PartialOrdSpecImpl};

verus! {

/// The largest number of digits behind the decimal point.
pub const MAX_SCALE: u32 = 28;

/// The largest mantissa: 2^96 - 1.
pub const MAX_MANTISSA: i128 = 0xFFFF_FFFF_FFFF_FFFF_FFFF_FFFF;

/// 10^n.
pub open spec fn pow10(n: nat) -> int
    decreases n,
{
    if n == 0 {
        1
    } else {
        10 * pow10((n - 1) as nat)
    }
}

/// Absolute value.
pub open spec fn abs(x: int) -> int {
    if x < 0 {
        -x
    } else {
        x
    }
}

/// A decimal number as mathematics sees it: `mantissa / 10^scale`.
pub struct DecimalView {
    pub mantissa: int,
    pub scale: nat,
}

impl DecimalView {
    /// The mantissa fits in 96 bits and the scale does not exceed 28.
    pub open spec fn valid(self) -> bool {
        abs(self.mantissa) <= MAX_MANTISSA && self.scale <= MAX_SCALE
    }

    /// The number in units of 10^-28, which every valid decimal is a multiple of.
    pub open spec fn units(self) -> int {
        self.mantissa * pow10((MAX_SCALE - self.scale) as nat)
    }
}

/// The number of 10^-28 units in 1.
pub open spec fn one_unit() -> int {
    pow10(MAX_SCALE as nat)
}

/// The larger of two scales.
pub open spec fn wider(a: nat, b: nat) -> nat {
    if a >= b {
        a
    } else {
        b
    }
}

/// Adding `a` and `b` does not overflow: the exact sum, rounded half to even to an integer,
/// has a magnitude that still fits in 96 bits.
pub open spec fn sum_in_range(a: DecimalView, b: DecimalView) -> bool {
    2 * abs(a.units() + b.units()) < (2 * MAX_MANTISSA + 1) * one_unit()
}

/// What `rust_decimal::Decimal::checked_add` returns for two decimals.
pub uninterp spec fn decimal_sum(a: DecimalView, b: DecimalView) -> Option<DecimalView>;

/// The quotient of two magnitudes, rounded half to even.
pub open spec fn half_even(n: int, d: int) -> int {
    let quotient = n / d;
    let remainder = n % d;
    if 2 * remainder > d || (2 * remainder == d && quotient % 2 == 1) {
        quotient + 1
    } else {
        quotient
    }
}

/// `d` with at most `dp` digits behind the point, ties rounded to even.
pub open spec fn rounded(d: DecimalView, dp: nat) -> DecimalView {
    if d.scale <= dp {
        d
    } else {
        let magnitude = half_even(abs(d.mantissa), pow10((d.scale - dp) as nat));
        DecimalView { mantissa: if d.mantissa < 0 { -magnitude } else { magnitude }, scale: dp }
    }
}

/// The decimal is one of the integers 1, 10, 100, ...
pub open spec fn is_power_of_ten(d: DecimalView) -> bool {
    d.scale == 0 && exists|exponent: nat| d.mantissa == #[trigger] pow10(exponent)
}

/// The integer part of `units / 10^28`: digits behind the point are dropped.
pub open spec fn integer_part(units: int) -> int {
    if units < 0 {
        -((-units) / one_unit())
    } else {
        units / one_unit()
    }
}

/// A decimal number `mantissa / 10^scale`.
#[derive(Clone, Copy, Debug)]
pub struct Decimal {
    mantissa: i128,
    scale: u32,
}

impl View for Decimal {
    type V = DecimalView;

    closed spec fn view(&self) -> DecimalView {
        DecimalView { mantissa: self.mantissa as int, scale: self.scale as nat }
    }
}

/// The view of an optional decimal.
pub open spec fn optional_view(d: Option<Decimal>) -> Option<DecimalView> {
    match d {
        Some(d) => Some(d@),
        None => None,
    }
}

impl Decimal {
    /// Every decimal is valid.
    #[verifier::type_invariant]
    pub open spec fn well_formed(self) -> bool {
        self@.valid()
    }

    /// The decimal `num / 10^scale`.
    pub fn new(num: i64, scale: u32) -> (d: Decimal)
        requires
            scale <= MAX_SCALE,
        ensures
            d@ == (DecimalView { mantissa: num as int, scale: scale as nat }),
    {
        Decimal { mantissa: num as i128, scale }
    }

    /// The decimal `num / 10^scale`, for a mantissa of up to 96 bits.
    pub fn from_i128_with_scale(num: i128, scale: u32) -> (d: Decimal)
        requires
            -MAX_MANTISSA <= num <= MAX_MANTISSA,
            scale <= MAX_SCALE,
        ensures
            d@ == (DecimalView { mantissa: num as int, scale: scale as nat }),
    {
        Decimal { mantissa: num, scale }
    }

    /// The decimal 0.
    pub fn zero() -> (d: Decimal)
        ensures
            d@ == (DecimalView { mantissa: 0, scale: 0 }),
    {
        Decimal { mantissa: 0, scale: 0 }
    }

    /// The signed integer that the number is made of.
    pub fn mantissa(&self) -> (r: i128)
        ensures
            r == self@.mantissa,
            self@.valid(),
    {
        proof {
            use_type_invariant(self);
        }
        self.mantissa
    }

    /// The number of digits behind the decimal point.
    pub fn scale(&self) -> (r: u32)
        ensures
            r == self@.scale,
            self@.valid(),
    {
        proof {
            use_type_invariant(self);
        }
        self.scale
    }

    /// Calls `rust_decimal::Decimal::cmp`. Trusted: the two numbers are ordered by their
    /// values, whatever their scales.
    #[verifier::external_body]
    fn order(&self, other: &Decimal) -> (r: Ordering)
        ensures
            r == value_order(self@, other@),
    {
        rust_decimal::Decimal::from_i128_with_scale(self.mantissa, self.scale).cmp(
            &rust_decimal::Decimal::from_i128_with_scale(other.mantissa, other.scale),
        )
    }

    /// Calls `rust_decimal::Decimal::checked_add`. Trusted: the sum is missing exactly when
    /// it overflows; it has no more digits behind the point than the longer operand; and it
    /// is exact wherever the exact sum fits in 96 bits at that number of digits. How a sum
    /// that does not fit is rounded is not stated beyond its being `decimal_sum`.
    #[verifier::external_body]
    pub(crate) fn checked_add(&self, other: &Decimal) -> (r: Option<Decimal>)
        ensures
            optional_view(r) == decimal_sum(self@, other@),
            r is Some <==> sum_in_range(self@, other@),
            r matches Some(sum) ==> {
                &&& sum@.valid()
                &&& sum@.scale <= wider(self@.scale, other@.scale)
                &&& abs(self@.units() + other@.units()) <= MAX_MANTISSA * pow10(
                    (MAX_SCALE - wider(self@.scale, other@.scale)) as nat,
                ) ==> sum@.units() == self@.units() + other@.units()
            },
    {
        let sum = rust_decimal::Decimal::from_i128_with_scale(self.mantissa, self.scale).checked_add(
            rust_decimal::Decimal::from_i128_with_scale(other.mantissa, other.scale),
        )?;
        Some(Decimal { mantissa: sum.mantissa(), scale: sum.scale() })
    }

    /// Calls the multiplication of `rust_decimal::Decimal`. Trusted: multiplying by a power
    /// of ten is exact where the product does not exceed the largest decimal. How many
    /// digits the product shows behind the point is not stated.
    #[verifier::external_body]
    pub(crate) fn times_power_of_ten(&self, power: &Decimal) -> (r: Decimal)
        requires
            is_power_of_ten(power@),
            abs(self@.units()) * power@.mantissa <= MAX_MANTISSA * one_unit(),
        ensures
            r@.units() == self@.units() * power@.mantissa,
    {
        let product = rust_decimal::Decimal::from_i128_with_scale(self.mantissa, self.scale)
            * rust_decimal::Decimal::from_i128_with_scale(power.mantissa, power.scale);
        Decimal { mantissa: product.mantissa(), scale: product.scale() }
    }

    /// Calls `rust_decimal::Decimal::round_dp`. Trusted: the number keeps its digits if it
    /// has at most `dp` behind the point, and is otherwise rounded half to even to `dp`.
    #[verifier::external_body]
    pub(crate) fn round_dp(&self, dp: u32) -> (r: Decimal)
        ensures
            r@ == rounded(self@, dp as nat),
    {
        let d = rust_decimal::Decimal::from_i128_with_scale(self.mantissa, self.scale).round_dp(dp);
        Decimal { mantissa: d.mantissa(), scale: d.scale() }
    }

    /// Calls `rust_decimal::Decimal::to_i64`. Trusted: digits behind the point are dropped,
    /// and the result is missing exactly when what remains is outside `i64`.
    #[verifier::external_body]
    pub(crate) fn to_i64(&self) -> (r: Option<i64>)
        ensures
            r == (if i64::MIN <= integer_part(self@.units()) <= i64::MAX {
                Some(integer_part(self@.units()) as i64)
            } else {
                None
            }),
    {
        rust_decimal::prelude::ToPrimitive::to_i64(
            &rust_decimal::Decimal::from_i128_with_scale(self.mantissa, self.scale),
        )
    }
}

/// How two decimals compare by value.
pub open spec fn value_order(a: DecimalView, b: DecimalView) -> Ordering {
    if a.units() < b.units() {
        Ordering::Less
    } else if a.units() == b.units() {
        Ordering::Equal
    } else {
        Ordering::Greater
    }
}

impl PartialEq for Decimal {
    fn eq(&self, other: &Decimal) -> (r: bool) {
        match self.order(other) {
            Ordering::Equal => true,
            _ => false,
        }
    }
}

impl PartialEqSpecImpl for Decimal {
    open spec fn obeys_eq_spec() -> bool {
        true
    }

    open spec fn eq_spec(&self, other: &Decimal) -> bool {
        self@.units() == other@.units()
    }
}

impl PartialOrd for Decimal {
    fn partial_cmp(&self, other: &Decimal) -> (r: Option<Ordering>) {
        Some(self.order(other))
    }
}

impl PartialOrdSpecImpl for Decimal {
    open spec fn obeys_partial_cmp_spec() -> bool {
        true
    }

    open spec fn partial_cmp_spec(&self, other: &Decimal) -> Option<Ordering> {
        Some(value_order(self@, other@))
    }
}

/// 10^n is positive and grows with n.
pub proof fn pow10_grows(m: nat, n: nat)
    requires
        m <= n,
    ensures
        1 <= pow10(m) <= pow10(n),
    decreases n,
{
    if m == n {
        if n > 0 {
            pow10_grows((n - 1) as nat, (n - 1) as nat);
        }
    } else {
        pow10_grows(m, (n - 1) as nat);
    }
}

/// 10^(m + n) = 10^m * 10^n.
pub proof fn pow10_splits(m: nat, n: nat)
    ensures
        pow10(m + n) == pow10(m) * pow10(n),
    decreases m,
{
    if m > 0 {
        pow10_splits((m - 1) as nat, n);
        let p = pow10((m - 1) as nat);
        let q = pow10(n);
        assert(10 * (p * q) == (10 * p) * q) by (nonlinear_arith);
    }
}

/// A magnitude is rounded to one of its two neighbours, and kept if it is a multiple.
proof fn half_even_is_near(n: int, d: int)
    requires
        0 <= n,
        0 < d,
    ensures
        n / d <= half_even(n, d) <= n / d + 1,
        n % d == 0 ==> half_even(n, d) == n / d,
{
}

/// Rounding a magnitude does not carry it past an integer.
proof fn half_even_keeps_order(n: int, d: int, k: int)
    requires
        0 <= n,
        0 < d,
    ensures
        k * d <= n ==> k <= half_even(n, d),
        n <= k * d ==> half_even(n, d) <= k,
{
    half_even_is_near(n, d);
    vstd::arithmetic::div_mod::lemma_fundamental_div_mod(n, d);
    vstd::arithmetic::div_mod::lemma_mod_bound(n, d);
    let q = n / d;
    let r = n % d;
    if k * d <= n {
        assert(k <= q) by (nonlinear_arith)
            requires
                k * d <= n,
                n == d * q + r,
                0 <= r < d,
        ;
    }
    if n <= k * d {
        assert(q <= k && (r > 0 ==> q + 1 <= k)) by (nonlinear_arith)
            requires
                n <= k * d,
                n == d * q + r,
                0 <= r < d,
        ;
    }
}

/// Rounding to `dp` digits does not carry a number past one that has at most `dp` digits
/// behind the point.
pub proof fn rounding_keeps_order(d: DecimalView, bound: DecimalView, dp: nat)
    requires
        d.valid(),
        bound.valid(),
        bound.scale <= dp,
    ensures
        bound.units() <= d.units() ==> bound.units() <= rounded(d, dp).units(),
        d.units() <= bound.units() ==> rounded(d, dp).units() <= bound.units(),
{
    if d.scale > dp {
        let p = pow10((d.scale - dp) as nat);
        let q = pow10((MAX_SCALE - d.scale) as nat);
        let t = pow10((dp - bound.scale) as nat);
        let whole = pow10((MAX_SCALE - dp) as nat);
        let k = bound.mantissa * t;
        let m = d.mantissa;
        pow10_splits((d.scale - dp) as nat, (MAX_SCALE - d.scale) as nat);
        pow10_splits((dp - bound.scale) as nat, (MAX_SCALE - dp) as nat);
        pow10_grows(0, (d.scale - dp) as nat);
        pow10_grows(0, (MAX_SCALE - d.scale) as nat);
        pow10_grows(0, (MAX_SCALE - dp) as nat);
        assert(whole == p * q);
        assert(bound.units() == bound.mantissa * (t * whole));
        assert(bound.mantissa * (t * whole) == k * whole) by (nonlinear_arith)
            requires
                k == bound.mantissa * t,
        ;
        assert(k * whole == (k * p) * q) by (nonlinear_arith)
            requires
                whole == p * q,
        ;
        half_even_keeps_order(abs(m), p, if m < 0 { -k } else { k });
        let r = rounded(d, dp).mantissa;
        if bound.units() <= d.units() {
            assert(k * p <= m) by (nonlinear_arith)
                requires
                    (k * p) * q <= m * q,
                    q >= 1,
            ;
            assert((-k) * p >= -m) by (nonlinear_arith)
                requires
                    k * p <= m,
            ;
            assert(k * whole <= r * whole) by (nonlinear_arith)
                requires
                    k <= r,
                    whole >= 1,
            ;
        }
        if d.units() <= bound.units() {
            assert(m <= k * p) by (nonlinear_arith)
                requires
                    m * q <= (k * p) * q,
                    q >= 1,
            ;
            assert((-k) * p <= -m) by (nonlinear_arith)
                requires
                    m <= k * p,
            ;
            assert(r * whole <= k * whole) by (nonlinear_arith)
                requires
                    r <= k,
                    whole >= 1,
            ;
        }
    }
}

/// A rounded magnitude is within one half of the quotient, and even where it is exactly one
/// half away.
proof fn half_even_is_nearest(n: int, d: int)
    requires
        0 <= n,
        0 < d,
    ensures
        2 * abs(half_even(n, d) * d - n) <= d,
        2 * abs(half_even(n, d) * d - n) == d ==> half_even(n, d) % 2 == 0,
        0 <= half_even(n, d),
{
    vstd::arithmetic::div_mod::lemma_fundamental_div_mod(n, d);
    vstd::arithmetic::div_mod::lemma_mod_bound(n, d);
    vstd::arithmetic::div_mod::lemma_div_pos_is_pos(n, d);
    let q = n / d;
    let r = n % d;
    assert(q * d - n == -r && (q + 1) * d - n == d - r) by (nonlinear_arith)
        requires
            n == d * q + r,
    ;
}

/// Rounding to `dp` digits gives the nearest number with that many digits behind the point, of
/// two equally near ones that with the even last digit; a number that has no more digits stays
/// as it is.
pub proof fn rounding_gives_the_nearest(d: DecimalView, dp: nat)
    requires
        d.valid(),
        dp <= MAX_SCALE,
    ensures
        d.scale <= dp ==> rounded(d, dp) == d,
        d.scale > dp ==> rounded(d, dp).scale == dp,
        2 * abs(rounded(d, dp).units() - d.units()) <= pow10((MAX_SCALE - dp) as nat),
        2 * abs(rounded(d, dp).units() - d.units()) == pow10((MAX_SCALE - dp) as nat)
            ==> rounded(d, dp).mantissa % 2 == 0,
{
    pow10_grows(0, (MAX_SCALE - dp) as nat);
    if d.scale > dp {
        let p = pow10((d.scale - dp) as nat);
        let q = pow10((MAX_SCALE - d.scale) as nat);
        let whole = pow10((MAX_SCALE - dp) as nat);
        pow10_splits((d.scale - dp) as nat, (MAX_SCALE - d.scale) as nat);
        pow10_grows(0, (d.scale - dp) as nat);
        pow10_grows(0, (MAX_SCALE - d.scale) as nat);
        let m = d.mantissa;
        let h = half_even(abs(m), p);
        let r = rounded(d, dp).mantissa;
        half_even_is_nearest(abs(m), p);
        let off = h * p - abs(m);
        assert(r * whole - m * q == if m < 0 { -(off * q) } else { off * q }) by (nonlinear_arith)
            requires
                whole == p * q,
                off == h * p - (if m < 0 { -m } else { m }),
                r == (if m < 0 { -h } else { h }),
        ;
        assert(abs(off * q) == abs(off) * q) by (nonlinear_arith)
            requires
                q >= 1,
                abs(off * q) == (if off * q < 0 { -(off * q) } else { off * q }),
                abs(off) == (if off < 0 { -off } else { off }),
        ;
        let a = abs(off);
        assert(2 * (a * q) <= whole && (2 * (a * q) == whole ==> 2 * a == p)) by (nonlinear_arith)
            requires
                whole == p * q,
                2 * a <= p,
                q >= 1,
        ;
    }
}

/// The contents of a decimal are what its fields hold.
proof fn contents_are_the_digits(d: Decimal)
    ensures
        d@.mantissa == d.mantissa,
        d@.scale == d.scale,
        optional_view(Some(d)) == Some(d@),
        optional_view(None) is None,
{
}

/// Decimals are equal exactly when they have the same value, and ordered as their values are,
/// however many digits they show.
pub proof fn decimals_are_ordered_by_value(a: Decimal, b: Decimal)
    ensures
        PartialEqSpec::eq_spec(&a, &b) <==> a@.units() == b@.units(),
        PartialOrdSpec::partial_cmp_spec(&a, &b) == Some(Ordering::Less) <==> a@.units() < b@.units(),
        PartialOrdSpec::partial_cmp_spec(&a, &b) == Some(Ordering::Equal) <==> a@.units() == b@.units(),
        PartialOrdSpec::partial_cmp_spec(&a, &b) == Some(Ordering::Greater) <==> a@.units() > b@.units(),
{
}

/// The value of a decimal is its mantissa shifted by its scale: moving the point by one place
/// divides by ten, and only the scales up to 28 and the mantissas of up to 96 bits are valid.
pub proof fn values_follow_mantissa_and_scale(d: DecimalView)
    ensures
        d.scale < 28 ==> d.units() == 10 * (DecimalView { scale: d.scale + 1, ..d }).units(),
        d.scale == 28 ==> d.units() == d.mantissa,
        d.valid() <==> -0xFFFF_FFFF_FFFF_FFFF_FFFF_FFFF <= d.mantissa
            <= 0xFFFF_FFFF_FFFF_FFFF_FFFF_FFFF && d.scale <= 28,
{
    if d.scale < 28 {
        let p = pow10((27 - d.scale) as nat);
        let m = d.mantissa;
        assert(pow10((28 - d.scale) as nat) == 10 * p);
        assert(m * (10 * p) == 10 * (m * p)) by (nonlinear_arith);
    }
}

} // verus!
