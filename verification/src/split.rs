//! The share of an input that a swap takes.
//!
//! A share is a double-precision number and is kept as its 64 bits. What the routing rules ask of
//! shares (signs, bounds, sums) is decided on the bits, by the rules of IEEE 754.
use vstd::prelude::*;

use crate::amount::Amount;

verus! {

/// The bits of positive infinity: larger magnitudes are not numbers.
pub const INFINITY_BITS: u64 = 0x7ff0_0000_0000_0000;

/// The bits of one.
pub const ONE_BITS: u64 = 0x3ff0_0000_0000_0000;

/// The bit of the sign; also negative zero.
pub const SIGN_BIT: u64 = 0x8000_0000_0000_0000;

/// 2^52, the number of doubles between two neighbouring powers of two.
pub const BINADE: u64 = 0x10_0000_0000_0000;

/// A share of an input, by the bits of its double-precision number.
#[derive(Debug, Clone, Copy, PartialEq, Eq, Structural)]
pub struct Split {
    pub bits: u64,
}

/// A positive or zero double in units of 2^-1074, the distance between the smallest ones.
pub open spec fn units(bits: u64) -> nat {
    if bits < 2 * BINADE {
        bits as nat
    } else {
        ((BINADE + bits % BINADE) * vstd::arithmetic::power2::pow2((bits / BINADE - 1) as nat)) as nat
    }
}

/// The number of units in one.
pub open spec fn units_of_one() -> nat {
    vstd::arithmetic::power2::pow2(1074)
}

/// The distance between the doubles around a number of units: the numbers below 2^53 are all
/// doubles, and the distance doubles with each power of two from there.
pub open spec fn spacing(n: nat) -> nat
    decreases n,
{
    if n < 2 * BINADE {
        1
    } else {
        2 * spacing(n / 2)
    }
}

/// A number of units, rounded to the nearest double, and to the even one of two at the same
/// distance.
pub open spec fn rounded(n: nat) -> nat {
    let d = spacing(n);
    let q = n / d;
    let r = n % d;
    if 2 * r > d || (2 * r == d && q % 2 == 1) {
        (q + 1) * d
    } else {
        q * d
    }
}

/// The sum of positive shares in floating point, from the left, in units.
pub open spec fn sum_units(shares: Seq<Split>) -> nat
    decreases shares.len(),
{
    if shares.len() == 0 {
        0
    } else {
        rounded(sum_units(shares.drop_last()) + units(shares.last().bits))
    }
}

impl Split {
    /// The share zero: all that is left.
    pub fn zero() -> (r: Self)
        ensures
            r == (Split { bits: 0 }),
    {
        Split { bits: 0 }
    }

    pub fn from_bits(bits: u64) -> (r: Self)
        ensures
            r.bits == bits,
    {
        Split { bits }
    }

    pub fn to_bits(&self) -> (r: u64)
        ensures
            r == self.bits,
    {
        self.bits
    }

    pub open spec fn spec_is_nan(self) -> bool {
        self.bits % SIGN_BIT > INFINITY_BITS
    }

    /// `self == 0`: either zero.
    pub open spec fn spec_is_zero(self) -> bool {
        self.bits % SIGN_BIT == 0
    }

    /// `self > 0`
    pub open spec fn spec_is_positive(self) -> bool {
        0 < self.bits <= INFINITY_BITS
    }

    /// `self < 0`
    pub open spec fn spec_is_negative(self) -> bool {
        SIGN_BIT < self.bits <= SIGN_BIT + INFINITY_BITS
    }

    /// `self >= 1`
    pub open spec fn spec_is_at_least_one(self) -> bool {
        ONE_BITS <= self.bits <= INFINITY_BITS
    }

    pub fn is_nan(&self) -> (r: bool)
        ensures
            r == self.spec_is_nan(),
    {
        self.bits % SIGN_BIT > INFINITY_BITS
    }

    pub fn is_zero(&self) -> (r: bool)
        ensures
            r == self.spec_is_zero(),
    {
        self.bits % SIGN_BIT == 0
    }

    pub fn is_positive(&self) -> (r: bool)
        ensures
            r == self.spec_is_positive(),
    {
        0 < self.bits && self.bits <= INFINITY_BITS
    }

    pub fn is_negative(&self) -> (r: bool)
        ensures
            r == self.spec_is_negative(),
    {
        SIGN_BIT < self.bits && self.bits <= SIGN_BIT + INFINITY_BITS
    }

    pub fn is_at_least_one(&self) -> (r: bool)
        ensures
            r == self.spec_is_at_least_one(),
    {
        ONE_BITS <= self.bits && self.bits <= INFINITY_BITS
    }
}

/// 2^exponent.
fn power_of_two(exponent: u64) -> (r: Amount)
    ensures
        r@ == vstd::arithmetic::power2::pow2(exponent as nat),
{
    proof {
        vstd::arithmetic::power2::lemma2_to64();
    }
    let mut power: Amount = Amount::from_u64(1);
    let mut k: u64 = 0;
    while k < exponent
        invariant
            k <= exponent,
            power@ == vstd::arithmetic::power2::pow2(k as nat),
        decreases exponent - k,
    {
        power = power.plus(&power);
        k += 1;
        proof {
            vstd::arithmetic::power2::lemma_pow2_unfold(k as nat);
        }
    }
    power
}

/// A positive or zero double in units of 2^-1074.
fn to_units(bits: u64) -> (r: Amount)
    ensures
        r@ == units(bits),
{
    if bits < 2 * BINADE {
        Amount::from_u64(bits)
    } else {
        let significand: Amount = Amount::from_u64(BINADE + bits % BINADE);
        significand.times(&power_of_two(bits / BINADE - 1))
    }
}

/// A number of units, rounded to the nearest double.
fn round_units(n: &Amount) -> (r: Amount)
    ensures
        r@ == rounded(n@),
{
    let two: Amount = Amount::from_u64(2);
    let limit: Amount = Amount::from_u64(2 * BINADE);
    let mut d: Amount = Amount::from_u64(1);
    let mut rest: Amount = n.clone();
    while !rest.less_than(&limit)
        invariant
            two@ == 2,
            limit@ == 2 * BINADE,
            d@ * spacing(rest@) == spacing(n@),
            d@ > 0,
        decreases rest@,
    {
        let ghost before = rest@;
        let ghost width = d@;
        rest = rest.divided_by(&two);
        d = d.plus(&d);
        assert(d@ * spacing(rest@) == width * spacing(before)) by (nonlinear_arith)
            requires
                d@ == width + width,
                spacing(before) == 2 * spacing(rest@),
        ;
    }
    assert(d@ == spacing(n@)) by (nonlinear_arith)
        requires
            d@ * spacing(rest@) == spacing(n@),
            spacing(rest@) == 1,
    ;
    let q: Amount = n.divided_by(&d);
    let below: Amount = q.times(&d);
    proof {
        vstd::arithmetic::div_mod::lemma_fundamental_div_mod(n@ as int, d@ as int);
        vstd::arithmetic::mul::lemma_mul_is_commutative(q@ as int, d@ as int);
    }
    let r: Amount = n.minus(&below);
    let twice: Amount = r.plus(&r);
    let half: Amount = q.divided_by(&two);
    let even: bool = half.plus(&half) == q;
    if d.less_than(&twice) || (twice == d && !even) {
        proof {
            vstd::arithmetic::mul::lemma_mul_is_distributive_add(d@ as int, q@ as int, 1);
            vstd::arithmetic::mul::lemma_mul_is_commutative(q@ as int + 1, d@ as int);
        }
        below.plus(&d)
    } else {
        below
    }
}

/// The sum of positive shares in floating point, from the left, in units.
pub fn add_up(shares: &Vec<Split>) -> (r: Amount)
    ensures
        r@ == sum_units(shares@),
{
    let mut sum: Amount = Amount::zero();
    let mut i: usize = 0;
    while i < shares.len()
        invariant
            i <= shares@.len(),
            sum@ == sum_units(shares@.take(i as int)),
        decreases shares@.len() - i,
    {
        sum = round_units(&sum.plus(&to_units(shares[i].bits)));
        i += 1;
        assert(shares@.take(i as int).drop_last() == shares@.take(i - 1));
    }
    assert(shares@.take(i as int) == shares@);
    sum
}

/// The bits of one stand for the units of one.
pub proof fn one_is_made_of_its_units()
    ensures
        units(ONE_BITS) == units_of_one(),
{
    vstd::arithmetic::power2::lemma2_to64_rest();
    vstd::arithmetic::power2::lemma_pow2_adds(52, 1022);
}

/// One, in units.
pub fn one() -> (r: Amount)
    ensures
        r@ == units_of_one(),
{
    power_of_two(1074)
}

/// The kinds of shares, by their bits: zero of either sign, what lies above or below it, what is at least
/// one, and what is no number.
pub proof fn kinds_of_shares(share: Split)
    ensures
        share.spec_is_zero() <==> share.bits == 0 || share.bits == 0x8000_0000_0000_0000,
        share.spec_is_positive() <==> 0 < share.bits <= 0x7ff0_0000_0000_0000,
        share.spec_is_at_least_one() <==> 0x3ff0_0000_0000_0000 <= share.bits
            <= 0x7ff0_0000_0000_0000,
        share.spec_is_negative() <==> 0x8000_0000_0000_0000 < share.bits <= 0xfff0_0000_0000_0000,
        share.spec_is_nan() <==> 0x7ff0_0000_0000_0000 < share.bits < 0x8000_0000_0000_0000
            || 0xfff0_0000_0000_0000 < share.bits,
{
}

/// The first doubles are one unit apart, and from there each binade is twice as wide as the one before:
/// the units of neighbours differ by the width of their binade.
pub proof fn units_step_by_binades(bits: u64)
    requires
        bits < 0x7ff0_0000_0000_0000,
    ensures
        bits < 0x20_0000_0000_0000 ==> units(bits) == bits,
        0x10_0000_0000_0000 <= bits && bits + 1 < 0x7ff0_0000_0000_0000 ==> units((bits + 1) as u64)
            == units(bits) + vstd::arithmetic::power2::pow2(
            (bits as nat / 0x10_0000_0000_0000 - 1) as nat,
        ),
{
    let width = 0x10_0000_0000_0000int;
    let e = bits as int / width;
    if bits >= 0x10_0000_0000_0000 && bits + 1 < 0x7ff0_0000_0000_0000 {
        let p = vstd::arithmetic::power2::pow2((e - 1) as nat) as int;
        vstd::arithmetic::power2::lemma_pow2_unfold(e as nat);
        vstd::arithmetic::power2::lemma2_to64();
        let r = bits as int % width;
        if bits < 0x20_0000_0000_0000 {
            assert(e == 1);
            assert(p == 1);
        }
        if bits >= 0x20_0000_0000_0000 {
            assert(units(bits) == (width + r) * p);
        } else {
            assert(units(bits) == (width + r) * p) by (nonlinear_arith)
                requires
                    p == 1,
                    units(bits) == width + r,
            ;
        }
        if r + 1 < width {
            assert((bits + 1) / width == e && (bits + 1) % width == r + 1);
            assert(units((bits + 1) as u64) == (width + r + 1) * p) by {
                if bits + 1 < 0x20_0000_0000_0000 {
                    assert((width + r + 1) * p == width + r + 1) by (nonlinear_arith)
                        requires
                            p == 1,
                    ;
                }
            }
            assert((width + r + 1) * p == (width + r) * p + p) by (nonlinear_arith);
        } else {
            assert((bits + 1) / width == e + 1 && (bits + 1) % width == 0);
            let q = vstd::arithmetic::power2::pow2(e as nat) as int;
            assert(units((bits + 1) as u64) == (width + 0) * q);
            assert(width * q == (width + r) * p + p) by (nonlinear_arith)
                requires
                    q == 2 * p,
                    r == width - 1,
            ;
        }
    }
}

proof fn spacing_is_a_power(n: nat) -> (e: nat)
    ensures
        spacing(n) == vstd::arithmetic::power2::pow2(e),
        n < 0x20_0000_0000_0000 ==> e == 0,
        n >= 0x20_0000_0000_0000 ==> e > 0 && 0x10_0000_0000_0000 * spacing(n) <= n,
        n < 0x20_0000_0000_0000 * spacing(n),
    decreases n,
{
    vstd::arithmetic::power2::lemma2_to64();
    if n < 2 * BINADE {
        0
    } else {
        let e = spacing_is_a_power(n / 2);
        vstd::arithmetic::power2::lemma_pow2_unfold(e + 1);
        if n / 2 < 0x20_0000_0000_0000 {
            assert(spacing(n / 2) == 1);
        }
        e + 1
    }
}

/// Sums of shares are rounded to the nearest double: below 2^53 units nothing is rounded, and above to
/// the nearest multiple of the width of the binade, of two at the same distance to the even one.
pub proof fn sums_are_rounded_to_the_nearest_double(n: nat)
    ensures
        n < 0x20_0000_0000_0000 ==> rounded(n) == n,
        exists|e: nat|
            {
                let d = #[trigger] vstd::arithmetic::power2::pow2(e);
                &&& n >= 0x20_0000_0000_0000 ==> 0x10_0000_0000_0000 * d <= n
                &&& n < 0x20_0000_0000_0000 * d
                &&& rounded(n) % d == 0
                &&& 2 * (rounded(n) - n) <= d
                &&& 2 * (n - rounded(n)) <= d
                &&& 2 * (rounded(n) - n) == d || 2 * (n - rounded(n)) == d ==> rounded(n) / d % 2 == 0
            },
{
    let e = spacing_is_a_power(n);
    let d = vstd::arithmetic::power2::pow2(e);
    vstd::arithmetic::power2::lemma_pow2_pos(e);
    vstd::arithmetic::power2::lemma2_to64();
    let q = n / d;
    let r = n % d;
    vstd::arithmetic::div_mod::lemma_fundamental_div_mod(n as int, d as int);
    vstd::arithmetic::div_mod::lemma_mod_multiples_basic(q as int, d as int);
    vstd::arithmetic::div_mod::lemma_mod_multiples_basic(q as int + 1, d as int);
    vstd::arithmetic::div_mod::lemma_div_multiples_vanish(q as int, d as int);
    vstd::arithmetic::div_mod::lemma_div_multiples_vanish(q as int + 1, d as int);
    assert(d * q == q * d && d * (q + 1) == (q + 1) * d && (q + 1) * d == q * d + d)
        by (nonlinear_arith);
    if n < 0x20_0000_0000_0000 {
        assert(d == 1);
        assert(n % 1 == 0 && n / 1 == n);
    }
    assert(d == vstd::arithmetic::power2::pow2(e));
}

/// Shares add up from the left: nothing makes nothing, and each further share is added to what the
/// others make, and rounded.
pub proof fn shares_add_up_from_the_left(shares: Seq<Split>, share: Split)
    ensures
        sum_units(Seq::<Split>::empty()) == 0,
        sum_units(shares.push(share)) == rounded(sum_units(shares) + units(share.bits)),
        sum_units(shares) + units(share.bits) < 0x20_0000_0000_0000 ==> sum_units(shares.push(share))
            == sum_units(shares) + units(share.bits),
{
    assert(shares.push(share).drop_last() =~= shares);
    sums_are_rounded_to_the_nearest_double(sum_units(shares) + units(share.bits));
}

/// Less than one, as a share, is less than the units of one.
pub proof fn units_of_one_are_a_power_of_two()
    ensures
        units_of_one() == vstd::arithmetic::power2::pow2(1074),
        units(0x3ff0_0000_0000_0000) == vstd::arithmetic::power2::pow2(1074),
{
    one_is_made_of_its_units();
}

} // verus!
