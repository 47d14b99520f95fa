//! Decimals on the wire: a 64-bit integer that counts units of 10^-8.

use crate::decimal::{
    abs, integer_part, one_unit, pow10, pow10_grows, pow10_splits, Decimal, DecimalView,
    MAX_MANTISSA, MAX_SCALE,
};
use crate::models::FIXED_POINT_SCALE;
use vstd::prelude::*;

verus! {

/// The number of digits behind the point on the wire.
pub const WIRE_SCALE: u32 = 8;

/// The decimal can be scaled by 10^8 without overflow.
pub open spec fn can_scale(d: DecimalView) -> bool {
    abs(d.units()) * FIXED_POINT_SCALE <= MAX_MANTISSA * one_unit()
}

/// The wire form of a decimal: its value times 10^8 without what remains behind the point,
/// or 0 if that does not fit in 64 bits.
pub open spec fn wire_value(d: DecimalView) -> i64 {
    let scaled = integer_part(d.units() * FIXED_POINT_SCALE);
    if i64::MIN <= scaled <= i64::MAX {
        scaled as i64
    } else {
        0
    }
}

/// The decimal that a wire form stands for.
pub open spec fn wire_decimal(val: i64) -> DecimalView {
    DecimalView { mantissa: val as int, scale: WIRE_SCALE as nat }
}

/// 10^8 is the fixed-point scale.
proof fn scale_is_power()
    ensures
        pow10(WIRE_SCALE as nat) == FIXED_POINT_SCALE,
{
    reveal_with_fuel(pow10, 9);
}

/// Whether a decimal can be scaled by 10^8 without overflow.
pub fn can_serialize(decimal: &Decimal) -> (r: bool)
    ensures
        r == can_scale(decimal@),
{
    let mantissa: i128 = decimal.mantissa();
    let scale: u32 = decimal.scale();
    proof {
        scale_is_power();
        pow10_grows(0, MAX_SCALE as nat);
    }
    let ghost whole = one_unit();
    let ghost m = abs(mantissa as int);
    if scale >= WIRE_SCALE {
        proof {
            let p = pow10((MAX_SCALE - scale) as nat);
            let q = pow10((MAX_SCALE - WIRE_SCALE) as nat);
            pow10_grows((MAX_SCALE - scale) as nat, (MAX_SCALE - WIRE_SCALE) as nat);
            pow10_splits(WIRE_SCALE as nat, (MAX_SCALE - WIRE_SCALE) as nat);
            let f = FIXED_POINT_SCALE as int;
            magnitude_of_product(mantissa as int, p);
            assert((m * p) * f <= MAX_MANTISSA * whole) by (nonlinear_arith)
                requires
                    0 <= m <= MAX_MANTISSA,
                    1 <= p <= q,
                    whole == f * q,
                    f >= 1,
            ;
        }
        return true;
    }
    let mut power: i128 = 1;
    for i in 0..(WIRE_SCALE - scale)
        invariant
            scale < WIRE_SCALE,
            power == pow10(i as nat),
            power <= 100_000_000,
            pow10(WIRE_SCALE as nat) == FIXED_POINT_SCALE,
    {
        proof {
            pow10_grows((i + 1) as nat, WIRE_SCALE as nat);
        }
        power = power * 10;
    }
    let magnitude: i128 = if mantissa < 0 {
        -mantissa
    } else {
        mantissa
    };
    proof {
        let p = pow10((MAX_SCALE - scale) as nat);
        let t = power as int;
        let f = FIXED_POINT_SCALE as int;
        pow10_grows(0, (MAX_SCALE - scale) as nat);
        pow10_grows(0, (WIRE_SCALE - scale) as nat);
        pow10_splits((WIRE_SCALE - scale) as nat, MAX_SCALE as nat);
        pow10_splits(WIRE_SCALE as nat, (MAX_SCALE - scale) as nat);
        magnitude_of_product(mantissa as int, p);
        assert((m * p) * f == (m * t) * whole) by (nonlinear_arith)
            requires
                t * whole == f * p,
        ;
        assert((m * t) * whole <= MAX_MANTISSA * whole <==> m * t <= MAX_MANTISSA) by (nonlinear_arith)
            requires
                whole >= 1,
        ;
        assert(m * t <= 0x1_0000_0000_0000_0000_0000_0000 * 100_000_000) by (nonlinear_arith)
            requires
                0 <= m <= 0x1_0000_0000_0000_0000_0000_0000,
                0 <= t <= 100_000_000,
        ;
        assert(0 <= m * t) by (nonlinear_arith)
            requires
                0 <= m,
                0 <= t,
        ;
    }
    magnitude * power <= MAX_MANTISSA
}

/// The magnitude of a product with a positive factor.
proof fn magnitude_of_product(m: int, p: int)
    requires
        p >= 1,
    ensures
        abs(m * p) == abs(m) * p,
{
    assert(abs(m * p) == abs(m) * p) by (nonlinear_arith)
        requires
            p >= 1,
            abs(m * p) == (if m * p < 0 { -(m * p) } else { m * p }),
            abs(m) == (if m < 0 { -m } else { m }),
    ;
}

/// Turns a decimal into its wire form.
pub fn serialize(decimal: &Decimal) -> (r: i64)
    requires
        can_scale(decimal@),
    ensures
        r == wire_value(decimal@),
{
    let factor = Decimal::new(100_000_000, 0);
    proof {
        scale_is_power();
        assert(factor@.mantissa == pow10(WIRE_SCALE as nat));
    }
    let scaled = decimal.times_power_of_ten(&factor);
    match scaled.to_i64() {
        Some(val) => val,
        None => 0,
    }
}

/// Turns a wire form into the decimal that it stands for.
pub fn deserialize(val: i64) -> (r: Decimal)
    ensures
        r@ == wire_decimal(val),
        can_scale(r@),
{
    proof {
        wire_round_trip(val);
    }
    Decimal::new(val, WIRE_SCALE)
}

/// What is read from the wire is written back unchanged: every 64-bit integer survives.
pub proof fn wire_round_trip(val: i64)
    ensures
        can_scale(wire_decimal(val)),
        wire_value(wire_decimal(val)) == val,
{
    scale_is_power();
    pow10_splits(WIRE_SCALE as nat, (MAX_SCALE - WIRE_SCALE) as nat);
    pow10_grows(0, MAX_SCALE as nat);
    let p = pow10((MAX_SCALE - WIRE_SCALE) as nat);
    let q = FIXED_POINT_SCALE as int;
    let whole = one_unit();
    let v = val as int;
    assert(whole == q * p);
    assert((v * p) * q == v * whole) by (nonlinear_arith)
        requires
            whole == q * p,
    ;
    assert(abs(v * p) * q == abs(v) * whole) by (nonlinear_arith)
        requires
            whole == q * p,
            p >= 1,
            q >= 1,
            abs(v * p) == (if v * p < 0 { -(v * p) } else { v * p }),
            abs(v) == (if v < 0 { -v } else { v }),
    ;
    assert(abs(v) * whole <= MAX_MANTISSA * whole) by (nonlinear_arith)
        requires
            abs(v) <= MAX_MANTISSA,
            whole >= 1,
    ;
    if v < 0 {
        assert(v * whole < 0) by (nonlinear_arith)
            requires
                v < 0,
                whole >= 1,
        ;
        assert(-(v * whole) == (-v) * whole) by (nonlinear_arith);
        vstd::arithmetic::div_mod::lemma_div_by_multiple(-v, whole);
    } else {
        assert(v * whole >= 0) by (nonlinear_arith)
            requires
                v >= 0,
                whole >= 1,
        ;
        vstd::arithmetic::div_mod::lemma_div_by_multiple(v, whole);
    }
}

/// What is written to the wire is read back with the same value: a decimal with at most
/// eight digits behind the point whose scaled value fits in 64 bits survives.
pub proof fn decimal_round_trip(d: DecimalView)
    requires
        d.valid(),
        d.scale <= WIRE_SCALE,
        i64::MIN <= d.mantissa * pow10((WIRE_SCALE - d.scale) as nat) <= i64::MAX,
    ensures
        can_scale(d),
        wire_decimal(wire_value(d)).units() == d.units(),
{
    let m = d.mantissa;
    let t = pow10((WIRE_SCALE - d.scale) as nat);
    let p = pow10((MAX_SCALE - WIRE_SCALE) as nat);
    let val = (m * t) as i64;
    pow10_splits((WIRE_SCALE - d.scale) as nat, (MAX_SCALE - WIRE_SCALE) as nat);
    assert(m * (t * p) == (m * t) * p) by (nonlinear_arith);
    assert(wire_decimal(val).units() == d.units());
    wire_round_trip(val);
}

/// The wire form counts whole units of 10^-8 towards zero: it is the last of them that the
/// decimal reaches, and 0 where that does not fit in 64 bits. A wire form stands for exactly
/// as many units as it counts.
pub proof fn wire_form_counts_whole_units(d: DecimalView, val: i64)
    ensures
        ({
            let w = wire_value(d) as int;
            let unit = pow10(20);
            &&& 0 <= d.units() < 0x8000_0000_0000_0000 * unit ==> w * unit <= d.units() < (w + 1) * unit
            &&& -(0x8000_0000_0000_0000 + 1) * unit < d.units() < 0 ==> (w - 1) * unit < d.units()
                <= w * unit
            &&& d.units() >= 0x8000_0000_0000_0000 * unit || d.units() <= -(0x8000_0000_0000_0000
                + 1) * unit ==> w == 0
        }),
        wire_decimal(val).units() == val * pow10(20),
        wire_decimal(val).scale == 8,
        can_scale(d) <==> abs(d.units()) * 100_000_000 <= 0xFFFF_FFFF_FFFF_FFFF_FFFF_FFFF * pow10(28),
{
    scale_is_power();
    pow10_splits(8, 20);
    pow10_grows(0, 20);
    let u = abs(d.units());
    let f = FIXED_POINT_SCALE as int;
    let p = pow10(20);
    let whole = one_unit();
    let x = u * f;
    let q = x / whole;
    let r = x % whole;
    assert(whole == f * p);
    assert(whole >= 1) by (nonlinear_arith)
        requires
            whole == f * p,
            f >= 1,
            p >= 1,
    ;
    assert(x >= 0) by (nonlinear_arith)
        requires
            x == u * f,
            u >= 0,
            f >= 1,
    ;
    vstd::arithmetic::div_mod::lemma_fundamental_div_mod(x, whole);
    vstd::arithmetic::div_mod::lemma_mod_bound(x, whole);
    assert(q * p <= u < (q + 1) * p && q >= 0) by (nonlinear_arith)
        requires
            u * f == whole * q + r,
            0 <= r < whole,
            whole == f * p,
            f >= 1,
            p >= 1,
            u >= 0,
    ;
    let s = d.units() * f;
    if d.units() < 0 {
        assert(s == -x && s < 0) by (nonlinear_arith)
            requires
                s == d.units() * f,
                x == (-d.units()) * f,
                d.units() < 0,
                f >= 1,
        ;
        assert(integer_part(s) == -q);
        assert((-q) * p >= -u && (-q - 1) * p < -u) by (nonlinear_arith)
            requires
                q * p <= u < (q + 1) * p,
        ;
    } else {
        assert(integer_part(s) == q);
    }
    let limit: int = 0x8000_0000_0000_0000;
    assert((u < limit * p ==> q < limit) && (u >= limit * p ==> q >= limit)) by (nonlinear_arith)
        requires
            q * p <= u < (q + 1) * p,
            p >= 1,
    ;
    assert((u < (limit + 1) * p ==> q <= limit) && (u >= (limit + 1) * p ==> q > limit)) by (nonlinear_arith)
        requires
            q * p <= u < (q + 1) * p,
            p >= 1,
    ;
    assert(-(limit + 1) * p == -((limit + 1) * p)) by (nonlinear_arith);
}

} // verus!
