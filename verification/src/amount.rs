//! Token amounts of any size.
//!
//! An [`Amount`] is a natural number. It keeps the base 2^32 digits of the number and hands the
//! arithmetic to `num_bigint`; contracts speak of the number itself, which is the view of the type.
use std::sync::Arc;

use vstd::prelude::*;

verus! {

/// The number whose base 2^32 digits are `digits`, least significant digit first.
pub open spec fn digits_value(digits: Seq<u32>) -> nat
    decreases digits.len(),
{
    if digits.len() == 0 {
        0
    } else {
        digits[0] as nat + 0x1_0000_0000 * digits_value(digits.drop_first())
    }
}

/// `num_bigint::BigUint`, `&a + &b`: the sum of the two numbers.
#[verifier::external_body]
fn sum_of_digits(a: &Vec<u32>, b: &Vec<u32>) -> (r: Vec<u32>)
    ensures
        digits_value(r@) == digits_value(a@) + digits_value(b@),
{
    (&num_bigint::BigUint::from_slice(a) + &num_bigint::BigUint::from_slice(b)).to_u32_digits()
}

/// `num_bigint::BigUint`, `&a - &b`: the difference of the two numbers. The operator panics when
/// `b` is the larger one, so that case is left out.
#[verifier::external_body]
fn difference_of_digits(a: &Vec<u32>, b: &Vec<u32>) -> (r: Vec<u32>)
    requires
        digits_value(b@) <= digits_value(a@),
    ensures
        digits_value(r@) == digits_value(a@) - digits_value(b@),
{
    (&num_bigint::BigUint::from_slice(a) - &num_bigint::BigUint::from_slice(b)).to_u32_digits()
}

/// `num_bigint::BigUint`, `&a * &b`: the product of the two numbers.
#[verifier::external_body]
fn product_of_digits(a: &Vec<u32>, b: &Vec<u32>) -> (r: Vec<u32>)
    ensures
        digits_value(r@) == digits_value(a@) * digits_value(b@),
{
    (&num_bigint::BigUint::from_slice(a) * &num_bigint::BigUint::from_slice(b)).to_u32_digits()
}

/// `num_bigint::BigUint`, `&a / &b`: the quotient of the two numbers, rounded down. The operator
/// panics on a zero divisor, so that case is left out.
#[verifier::external_body]
fn quotient_of_digits(a: &Vec<u32>, b: &Vec<u32>) -> (r: Vec<u32>)
    requires
        digits_value(b@) > 0,
    ensures
        digits_value(r@) == digits_value(a@) / digits_value(b@),
{
    (&num_bigint::BigUint::from_slice(a) / &num_bigint::BigUint::from_slice(b)).to_u32_digits()
}

/// `num_bigint::BigUint`, `a <= b`: the order of the two numbers.
#[verifier::external_body]
fn digits_at_most(a: &Vec<u32>, b: &Vec<u32>) -> (r: bool)
    ensures
        r == (digits_value(a@) <= digits_value(b@)),
{
    num_bigint::BigUint::from_slice(a) <= num_bigint::BigUint::from_slice(b)
}

/// The digits of a number's text: all of it but a leading plus sign.
pub open spec fn decimal_digits(text: Seq<char>) -> Seq<char> {
    if text.len() > 0 && text[0] == '+' {
        text.skip(1)
    } else {
        text
    }
}

/// The number that a decimal text stands for. It may have a plus sign before its digits, and
/// underscores after the first of them.
pub open spec fn decimal_number(text: Seq<char>) -> Option<nat> {
    let digits = decimal_digits(text);
    if digits.len() > 0 && digits[0] != '_' && (forall|i: int|
        0 <= i < digits.len() ==> crate::text::is_number_char(#[trigger] digits[i], 10)) {
        Some(crate::text::number_value(digits, 10))
    } else {
        None
    }
}

/// `num_bigint::BigUint`, `to_string`: the decimal text of the number, without leading zeros.
#[verifier::external_body]
fn text_of_digits(digits: &Vec<u32>) -> (r: String)
    ensures
        r@ == crate::text::decimal_text(digits_value(digits@)),
{
    num_bigint::BigUint::from_slice(digits).to_string()
}

/// `num_bigint::BigUint`, `from_str` through `str::parse`: reads a decimal number. It takes a plus sign
/// before the digits and underscores after the first of them, and fails on anything else.
#[verifier::external_body]
fn digits_of_text(text: &str) -> (r: Option<Vec<u32>>)
    ensures
        match r {
            Some(digits) => decimal_number(text@) == Some(digits_value(digits@)),
            None => decimal_number(text@) is None,
        },
{
    match text.parse::<num_bigint::BigUint>() {
        Ok(number) => Some(number.to_u32_digits()),
        Err(_) => None,
    }
}

/// A token amount: a natural number of any size.
///
/// The digits are shared, so a copy of an amount is the amount itself.
#[derive(Debug)]
pub struct Amount {
    digits: Arc<Vec<u32>>,
}

impl View for Amount {
    type V = nat;

    closed spec fn view(&self) -> nat {
        digits_value(self.digits@)
    }
}

impl Clone for Amount {
    fn clone(&self) -> (r: Self)
        ensures
            r == *self,
    {
        Amount { digits: self.digits.clone() }
    }
}

impl Amount {
    /// The number with the given base 2^32 digits, least significant digit first.
    pub fn from_digits(digits: Vec<u32>) -> (r: Self)
        ensures
            r@ == digits_value(digits@),
    {
        Amount { digits: Arc::new(digits) }
    }

    /// The base 2^32 digits of the number, least significant digit first.
    pub fn to_digits(&self) -> (r: Vec<u32>)
        ensures
            digits_value(r@) == self@,
    {
        let mut r: Vec<u32> = Vec::new();
        let n: usize = self.digits.len();
        let mut i: usize = 0;
        while i < n
            invariant
                n == self.digits@.len(),
                i <= n,
                r@ == self.digits@.take(i as int),
            decreases n - i,
        {
            r.push(self.digits[i]);
            i += 1;
        }
        assert(r@ == self.digits@);
        r
    }

    pub fn zero() -> (r: Self)
        ensures
            r@ == 0,
    {
        Amount { digits: Arc::new(Vec::new()) }
    }

    pub fn from_u64(n: u64) -> (r: Self)
        ensures
            r@ == n,
    {
        let low: u32 = (n % 0x1_0000_0000) as u32;
        let high: u32 = (n / 0x1_0000_0000) as u32;
        let mut digits: Vec<u32> = Vec::new();
        if n > 0 {
            digits.push(low);
        }
        if high > 0 {
            digits.push(high);
        }
        proof {
            reveal_with_fuel(digits_value, 3);
            if high > 0 {
                assert(digits@.drop_first() == seq![high]);
                assert(seq![high].drop_first() == Seq::<u32>::empty());
            } else if n > 0 {
                assert(digits@.drop_first() == Seq::<u32>::empty());
            }
        }
        Amount { digits: Arc::new(digits) }
    }

    pub fn plus(&self, other: &Amount) -> (r: Amount)
        ensures
            r@ == self@ + other@,
    {
        Amount { digits: Arc::new(sum_of_digits(&self.digits, &other.digits)) }
    }

    /// The difference, for an `other` that is not the larger number.
    pub fn minus(&self, other: &Amount) -> (r: Amount)
        requires
            other@ <= self@,
        ensures
            r@ == self@ - other@,
    {
        Amount { digits: Arc::new(difference_of_digits(&self.digits, &other.digits)) }
    }

    pub fn times(&self, other: &Amount) -> (r: Amount)
        ensures
            r@ == self@ * other@,
    {
        Amount { digits: Arc::new(product_of_digits(&self.digits, &other.digits)) }
    }

    /// The quotient, rounded down.
    pub fn divided_by(&self, other: &Amount) -> (r: Amount)
        requires
            other@ > 0,
        ensures
            r@ == self@ / other@,
    {
        Amount { digits: Arc::new(quotient_of_digits(&self.digits, &other.digits)) }
    }

    pub fn at_most(&self, other: &Amount) -> (r: bool)
        ensures
            r == (self@ <= other@),
    {
        digits_at_most(&self.digits, &other.digits)
    }

    pub fn less_than(&self, other: &Amount) -> (r: bool)
        ensures
            r == (self@ < other@),
    {
        !digits_at_most(&other.digits, &self.digits)
    }

    /// The decimal text of the number.
    pub fn to_text(&self) -> (r: String)
        ensures
            r@ == crate::text::decimal_text(self@),
    {
        text_of_digits(&self.digits)
    }

    /// Reads a decimal number.
    pub fn parse(text: &str) -> (r: Option<Self>)
        ensures
            match r {
                Some(amount) => decimal_number(text@) == Some(amount@),
                None => decimal_number(text@) is None,
            },
    {
        match digits_of_text(text) {
            Some(digits) => Some(Amount { digits: Arc::new(digits) }),
            None => None,
        }
    }

    pub fn is_zero(&self) -> (r: bool)
        ensures
            r == (self@ == 0),
    {
        self.at_most(&Amount::zero())
    }
}

impl PartialEq for Amount {
    fn eq(&self, other: &Self) -> (r: bool) {
        self.at_most(other) && other.at_most(self)
    }
}

impl vstd::std_specs::cmp::PartialEqSpecImpl for Amount {
    open spec fn obeys_eq_spec() -> bool {
        true
    }

    open spec fn eq_spec(&self, other: &Self) -> bool {
        self@ == other@
    }
}

impl Eq for Amount {
}

proof fn decimal_text_is_number(n: nat)
    ensures
        crate::text::decimal_text(n).len() > 0,
        crate::text::number_value(crate::text::decimal_text(n), 10) == n,
        forall|i: int|
            0 <= i < crate::text::decimal_text(n).len() ==> '0' <= #[trigger] crate::text::decimal_text(
                n,
            )[i] <= '9',
    decreases n,
{
    reveal_strlit("0123456789abcdef");
    reveal_with_fuel(crate::text::number_value, 2);
    let text = crate::text::decimal_text(n);
    if n >= 10 {
        decimal_text_is_number(n / 10);
        assert(text.drop_last() == crate::text::decimal_text(n / 10));
        assert forall|i: int| 0 <= i < text.len() implies '0' <= #[trigger] text[i] <= '9' by {
            if i < text.len() - 1 {
                assert(text[i] == crate::text::decimal_text(n / 10)[i]);
            }
        }
    } else {
        assert(text.drop_last() == Seq::<char>::empty());
    }
}

/// An amount of any size is read back from its text.
pub proof fn amount_text_round_trip(n: nat)
    ensures
        decimal_number(crate::text::decimal_text(n)) == Some(n),
{
    let text = crate::text::decimal_text(n);
    decimal_text_is_number(n);
    assert('0' <= text[0] <= '9');
    assert forall|i: int| 0 <= i < text.len() implies crate::text::is_number_char(
        #[trigger] text[i],
        10,
    ) by {
        assert('0' <= text[i] <= '9');
    }
}

/// A digit more at the end counts for the next power of 2^32.
pub proof fn digits_count_by_their_place(digits: Seq<u32>, digit: u32)
    ensures
        digits_value(seq![]) == 0,
        digits_value(digits.push(digit)) == digits_value(digits) + digit
            * vstd::arithmetic::power::pow(0x1_0000_0000, digits.len()),
    decreases digits.len(),
{
    let base: int = 0x1_0000_0000;
    vstd::arithmetic::power::lemma_pow0(base);
    if digits.len() == 0 {
        assert(digits.push(digit).drop_first() =~= seq![]);
        assert(digits_value(digits.push(digit)) == digit as nat + 0x1_0000_0000 * digits_value(
            Seq::<u32>::empty(),
        ));
    } else {
        let rest = digits.drop_first();
        digits_count_by_their_place(rest, digit);
        assert(digits.push(digit).drop_first() =~= rest.push(digit));
        reveal(vstd::arithmetic::power::pow);
        let power = vstd::arithmetic::power::pow(base, rest.len());
        assert(vstd::arithmetic::power::pow(base, digits.len()) == base * power);
        assert(base * (digits_value(rest) + digit * power) == base * digits_value(rest) + digit * (
        base * power)) by (nonlinear_arith);
    }
}

/// A decimal text stands for a number exactly where it holds digits, after one plus sign or none, with
/// underscores behind the first of them.
pub proof fn decimal_texts_are_digits(text: Seq<char>, digits: Seq<char>)
    requires
        text == seq!['+'] + digits || (text == digits && !(text.len() > 0 && text[0] == '+')),
    ensures
        decimal_number(text) is Some <==> digits.len() > 0 && '0' <= digits[0] <= '9' && forall|i: int|
            0 <= i < digits.len() ==> '0' <= #[trigger] digits[i] <= '9' || digits[i] == '_',
{
    if text == seq!['+'] + digits {
        assert(text.skip(1) =~= digits);
    }
    assert(decimal_digits(text) == digits);
    assert forall|i: int| 0 <= i < digits.len() implies crate::text::is_number_char(
        #[trigger] digits[i],
        10,
    ) == ('0' <= digits[i] <= '9' || digits[i] == '_') by {
    }
    if decimal_number(text) is Some {
        assert(crate::text::is_number_char(digits[0], 10));
        assert forall|i: int| 0 <= i < digits.len() implies '0' <= #[trigger] digits[i] <= '9'
            || digits[i] == '_' by {
            assert(crate::text::is_number_char(digits[i], 10));
        }
    }
}

} // verus!
