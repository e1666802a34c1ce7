//! Byte strings: addresses, signatures, calldata.
use std::sync::Arc;

use vstd::prelude::*;
use vstd::string::StringExecFns;

use crate::text::hex;

verus! {

/// The value of a digit in base 16, in either case.
pub open spec fn hex_digit_value(c: char) -> Option<int> {
    if '0' <= c <= '9' {
        Some(c as int - '0' as int)
    } else if 'a' <= c <= 'f' {
        Some(c as int - 'a' as int + 10)
    } else if 'A' <= c <= 'F' {
        Some(c as int - 'A' as int + 10)
    } else {
        None
    }
}

/// A text without its leading `0x`, where it has one.
pub open spec fn without_prefix(text: Seq<char>) -> Seq<char> {
    if text.len() >= 2 && text[0] == '0' && text[1] == 'x' {
        text.skip(2)
    } else {
        text
    }
}

/// Whether a text is made of pairs of digits in base 16.
pub open spec fn is_hex_text(text: Seq<char>) -> bool {
    &&& text.len() % 2 == 0
    &&& forall|i: int| 0 <= i < text.len() ==> hex_digit_value(#[trigger] text[i]) is Some
}

/// The bytes that pairs of digits in base 16 stand for.
pub open spec fn hex_bytes(text: Seq<char>) -> Seq<u8> {
    Seq::new(
        text.len() / 2,
        |i: int|
            (16 * hex_digit_value(text[2 * i])->Some_0 + hex_digit_value(text[2 * i + 1])->Some_0)
                as u8,
    )
}

/// The place of the first byte that is no digit in base 16.
pub open spec fn first_bad_digit(bytes: Seq<u8>) -> nat
    decreases bytes.len(),
{
    if bytes.len() == 0 || hex_digit_value(bytes[0] as char) is None {
        0
    } else {
        1 + first_bad_digit(bytes.drop_first())
    }
}

/// The first byte of a text that is no digit in base 16, as a character.
pub open spec fn bad_digit(text: Seq<char>) -> char {
    let bytes = vstd::utf8::encode_utf8(without_prefix(text));
    bytes[first_bad_digit(bytes) as int] as char
}

/// A character in quotes, as `{:?}` of std's formatting writes it.
pub uninterp spec fn quoted_char(c: char) -> Seq<char>;

/// What is wrong with a text that bytes cannot be read from, where its first bad digit is quoted like
/// this: there is an odd number of digits, or one is none. Both go by the bytes of the text.
pub open spec fn failure_text(text: Seq<char>, quoted: Seq<char>) -> Seq<char> {
    let bytes = vstd::utf8::encode_utf8(without_prefix(text));
    "Failed to parse bytes: Invalid hex: "@ + if bytes.len() % 2 != 0 {
        "Odd number of digits"@
    } else {
        "Invalid character "@ + quoted + " at position "@ + crate::text::decimal_text(
            first_bad_digit(bytes),
        )
    }
}

/// What is wrong with a text that bytes cannot be read from.
pub open spec fn parse_failure_text(text: Seq<char>) -> Seq<char> {
    failure_text(text, quoted_char(bad_digit(text)))
}

/// `tycho_common::Bytes`, `from_str` through `str::parse`: reads bytes from text in base 16, with or
/// without a leading `0x`. It succeeds exactly on pairs of digits, in either case; else it says whether
/// there is an odd number of digits, or which is the first that is none and where it stands. How that
/// character is quoted is left to std.
#[verifier::external_body]
fn bytes_of_text(text: &str) -> (r: Result<Vec<u8>, String>)
    ensures
        r is Ok <==> is_hex_text(without_prefix(text@)),
        r matches Ok(bytes) ==> bytes@ == hex_bytes(without_prefix(text@)),
        r matches Err(reason) ==> reason@ == failure_text(text@, quoted_char(bad_digit(text@))),
{
    match text.parse::<tycho_common::Bytes>() {
        Ok(bytes) => Ok(bytes.to_vec()),
        Err(error) => Err(error.to_string()),
    }
}

/// A string of bytes. The contents are shared, so a copy is the string itself.
#[derive(Debug)]
pub struct Bytes {
    data: Arc<Vec<u8>>,
}

/// A token or account address.
pub type Address = Bytes;

impl View for Bytes {
    type V = Seq<u8>;

    closed spec fn view(&self) -> Seq<u8> {
        self.data@
    }
}

impl Clone for Bytes {
    fn clone(&self) -> (r: Self)
        ensures
            r == *self,
    {
        Bytes { data: self.data.clone() }
    }
}

impl Bytes {
    pub fn new(data: Vec<u8>) -> (r: Self)
        ensures
            r@ == data@,
    {
        Bytes { data: Arc::new(data) }
    }

    /// `length` zero bytes.
    pub fn zero(length: usize) -> (r: Self)
        ensures
            r@ == Seq::new(length as nat, |i: int| 0u8),
    {
        let mut data: Vec<u8> = Vec::new();
        let mut i: usize = 0;
        while i < length
            invariant
                i <= length,
                data@ == Seq::new(i as nat, |j: int| 0u8),
            decreases length - i,
        {
            data.push(0);
            i += 1;
        }
        Bytes { data: Arc::new(data) }
    }

    /// Reads bytes from text in base 16, with or without a leading `0x`; else says what is wrong.
    pub fn parse(text: &str) -> (r: Result<Self, String>)
        ensures
            r is Ok <==> is_hex_text(without_prefix(text@)),
            r matches Ok(bytes) ==> bytes@ == hex_bytes(without_prefix(text@)),
            r matches Err(reason) ==> reason@ == parse_failure_text(text@),
    {
        match bytes_of_text(text) {
            Ok(data) => Ok(Bytes { data: Arc::new(data) }),
            Err(reason) => Err(reason),
        }
    }

    pub fn len(&self) -> (r: usize)
        ensures
            r == self@.len(),
    {
        self.data.len()
    }

    pub fn is_empty(&self) -> (r: bool)
        ensures
            r == (self@.len() == 0),
    {
        self.data.len() == 0
    }

    pub fn get(&self, i: usize) -> (r: u8)
        requires
            i < self@.len(),
        ensures
            r == self@[i as int],
    {
        self.data[i]
    }

    pub fn as_vec(&self) -> (r: &Vec<u8>)
        ensures
            r@ == self@,
    {
        &self.data
    }

    /// Whether the two strings hold the same bytes.
    pub fn same(&self, other: &Bytes) -> (r: bool)
        ensures
            r == (self@ == other@),
    {
        let n: usize = self.data.len();
        if n != other.data.len() {
            return false;
        }
        let mut i: usize = 0;
        while i < n
            invariant
                i <= n,
                n == self.data@.len(),
                n == other.data@.len(),
                forall|j: int| 0 <= j < i ==> self.data@[j] == other.data@[j],
            decreases n - i,
        {
            if self.data[i] != other.data[i] {
                return false;
            }
            i += 1;
        }
        assert(self.data@ == other.data@);
        true
    }

    /// The bytes in base 16 after a leading `0x`.
    pub fn to_text(&self) -> (r: String)
        ensures
            r@ == "0x"@ + crate::text::hex_text(self@),
    {
        String::from_str("0x").concat(hex(&self.data).as_str())
    }

    /// The text of [`Bytes::to_text`], marked as bytes.
    pub fn to_debug_text(&self) -> (r: String)
        ensures
            r@ == "Bytes(0x"@ + crate::text::hex_text(self@) + ")"@,
    {
        String::from_str("Bytes(0x").concat(hex(&self.data).as_str()).concat(")")
    }
}

impl PartialEq for Bytes {
    fn eq(&self, other: &Self) -> (r: bool) {
        self.same(other)
    }
}

impl vstd::std_specs::cmp::PartialEqSpecImpl for Bytes {
    open spec fn obeys_eq_spec() -> bool {
        true
    }

    open spec fn eq_spec(&self, other: &Self) -> bool {
        self@ == other@
    }
}

impl Eq for Bytes {
}

/// Whether a string of bytes is in a list.
pub open spec fn among(list: Seq<Bytes>, bytes: Seq<u8>) -> bool {
    exists|i: int| 0 <= i < list.len() && #[trigger] list[i]@ == bytes
}

/// Whether a string of bytes is in a part of a list.
pub fn is_among_part(list: &Vec<Bytes>, from: usize, to: usize, bytes: &Bytes) -> (r: bool)
    requires
        from <= to <= list@.len(),
    ensures
        r == among(list@.subrange(from as int, to as int), bytes@),
{
    let ghost part = list@.subrange(from as int, to as int);
    let mut i: usize = from;
    while i < to
        invariant
            from <= i <= to,
            to <= list@.len(),
            part == list@.subrange(from as int, to as int),
            forall|j: int| 0 <= j < i - from ==> #[trigger] part[j]@ != bytes@,
        decreases to - i,
    {
        if list[i].same(bytes) {
            assert(part[i - from]@ == bytes@);
            return true;
        }
        i += 1;
    }
    false
}

/// Whether a string of bytes is in a list.
pub fn is_among(list: &Vec<Bytes>, bytes: &Bytes) -> (r: bool)
    ensures
        r == among(list@, bytes@),
{
    assert(list@.subrange(0, list@.len() as int) == list@);
    is_among_part(list, 0, list.len(), bytes)
}

/// The text of bytes stands for those bytes.
pub proof fn hex_text_round_trip(bytes: Seq<u8>)
    ensures
        is_hex_text(crate::text::hex_text(bytes)),
        hex_bytes(crate::text::hex_text(bytes)) == bytes,
    decreases bytes.len(),
{
    if bytes.len() > 0 {
        let front = bytes.drop_last();
        let text = crate::text::hex_text(bytes);
        let byte = bytes.last();
        hex_text_round_trip(front);
        digit_value_round_trip(byte as int / 16);
        digit_value_round_trip(byte as int % 16);
        assert(crate::text::hex_text(front).len() == 2 * front.len()) by {
            assert(hex_bytes(crate::text::hex_text(front)).len() == front.len());
        }
        assert forall|i: int| 0 <= i < text.len() implies hex_digit_value(#[trigger] text[i]) is Some by {
            if i < crate::text::hex_text(front).len() {
                assert(text[i] == crate::text::hex_text(front)[i]);
            }
        }
        assert forall|i: int| 0 <= i < bytes.len() implies hex_bytes(text)[i] == bytes[i] by {
            if i < front.len() {
                assert(text[2 * i] == crate::text::hex_text(front)[2 * i]);
                assert(text[2 * i + 1] == crate::text::hex_text(front)[2 * i + 1]);
                assert(hex_bytes(crate::text::hex_text(front))[i] == front[i]);
            }
        }
        assert(hex_bytes(text) =~= bytes);
    } else {
        assert(hex_bytes(crate::text::hex_text(bytes)) =~= bytes);
    }
}

proof fn digit_value_round_trip(digit: int)
    requires
        0 <= digit < 16,
    ensures
        hex_digit_value(crate::text::digit_char(digit)) == Some(digit),
{
    reveal_strlit("0123456789abcdef");
}

/// A leading `0x` says nothing of the bytes: a text stands for the same with it and without.
pub proof fn prefix_is_optional(text: Seq<char>)
    ensures
        without_prefix(seq!['0', 'x'] + text) == text,
        !(text.len() >= 2 && text[0] == '0' && text[1] == 'x') ==> without_prefix(text) == text,
{
    assert((seq!['0', 'x'] + text).skip(2) =~= text);
}

/// Digits count from zero to fifteen, a letter in either case alike.
pub proof fn digits_count_in_either_case(c: char)
    ensures
        hex_digit_value('0') == Some(0int),
        hex_digit_value('9') == Some(9int),
        hex_digit_value('a') == Some(10int) && hex_digit_value('A') == Some(10int),
        hex_digit_value('f') == Some(15int) && hex_digit_value('F') == Some(15int),
        hex_digit_value(c) is Some <==> '0' <= c <= '9' || 'a' <= c <= 'f' || 'A' <= c <= 'F',
        hex_digit_value(c) is Some ==> 0 <= hex_digit_value(c)->Some_0 < 16,
        '0' <= c < '9' || 'a' <= c < 'f' || 'A' <= c < 'F' ==> hex_digit_value((c as u32 + 1) as char)
            == Some(hex_digit_value(c)->Some_0 + 1),
{
}

/// Two digits make a byte, the first counting sixteenfold, and texts end to end make bytes end to end.
pub proof fn pairs_of_digits_make_bytes(text: Seq<char>, i: int)
    requires
        is_hex_text(text),
        0 <= i < text.len() / 2,
    ensures
        hex_bytes(text).len() * 2 == text.len(),
        hex_bytes(text)[i] == 16 * hex_digit_value(text[2 * i])->Some_0 + hex_digit_value(
            text[2 * i + 1],
        )->Some_0,
{
    let high = hex_digit_value(text[2 * i]);
    let low = hex_digit_value(text[2 * i + 1]);
    assert(high is Some && low is Some);
}

/// The first bad digit is one, and there is none before it.
pub proof fn first_bad_digit_is_first(bytes: Seq<u8>, i: int)
    requires
        0 <= i <= first_bad_digit(bytes),
        i < bytes.len(),
    ensures
        first_bad_digit(bytes) <= bytes.len(),
        i < first_bad_digit(bytes) ==> hex_digit_value(bytes[i] as char) is Some,
        i == first_bad_digit(bytes) ==> hex_digit_value(bytes[i] as char) is None,
    decreases bytes.len(),
{
    if hex_digit_value(bytes[0] as char) is Some {
        let rest = bytes.drop_first();
        if i > 0 {
            first_bad_digit_is_first(rest, i - 1);
            assert(rest[i - 1] == bytes[i]);
        } else if rest.len() > 0 {
            first_bad_digit_is_first(rest, 0);
        }
    }
}

} // verus!
