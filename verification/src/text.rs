//! Text of numbers and bytes.
use vstd::prelude::*;
use vstd::string::{StrSliceExecFns, StringExecFns};

verus! {

/// The character of a digit in base 16, in lower case.
pub open spec fn digit_char(digit: int) -> char {
    "0123456789abcdef"@[digit]
}

/// The decimal text of a number, without leading zeros.
pub open spec fn decimal_text(n: nat) -> Seq<char>
    decreases n,
{
    if n < 10 {
        seq![digit_char(n as int)]
    } else {
        decimal_text(n / 10).push(digit_char((n % 10) as int))
    }
}

/// The text of bytes in base 16: two digits for each byte, the upper half first.
pub open spec fn hex_text(bytes: Seq<u8>) -> Seq<char>
    decreases bytes.len(),
{
    if bytes.len() == 0 {
        seq![]
    } else {
        hex_text(bytes.drop_last()).push(digit_char(bytes.last() as int / 16)).push(
            digit_char(bytes.last() as int % 16),
        )
    }
}

/// The texts of `parts`, with `separator` between neighbours.
pub open spec fn joined(parts: Seq<Seq<char>>, separator: Seq<char>) -> Seq<char>
    decreases parts.len(),
{
    if parts.len() == 0 {
        seq![]
    } else if parts.len() == 1 {
        parts[0]
    } else {
        joined(parts.drop_last(), separator) + separator + parts.last()
    }
}

/// The value of a digit: letters of either case follow the decimal digits.
pub open spec fn digit_value(c: char) -> Option<nat> {
    if '0' <= c <= '9' {
        Some((c as nat - '0' as nat) as nat)
    } else if 'a' <= c <= 'z' {
        Some((c as nat - 'a' as nat + 10) as nat)
    } else if 'A' <= c <= 'Z' {
        Some((c as nat - 'A' as nat + 10) as nat)
    } else {
        None
    }
}

/// A character may stand in a number: an underscore, or a digit of its base.
pub open spec fn is_number_char(c: char, base: nat) -> bool {
    c == '_' || (digit_value(c) matches Some(v) && v < base)
}

/// The number that digits stand for. Underscores are skipped.
pub open spec fn number_value(digits: Seq<char>, base: nat) -> nat
    decreases digits.len(),
{
    if digits.len() == 0 {
        0
    } else if digits.last() == '_' {
        number_value(digits.drop_last(), base)
    } else {
        base * number_value(digits.drop_last(), base) + digit_value(digits.last())->Some_0
    }
}

/// A text in quotes, as `{:?}` of std's formatting writes it.
pub uninterp spec fn quoted_text(text: Seq<char>) -> Seq<char>;

/// Calls `format!` with `{:?}` on a text: writes it in quotes, which depends on the text alone. Which
/// characters are escaped, and how, is left to std.
#[verifier::external_body]
pub(crate) fn quoted(text: &str) -> (r: String)
    ensures
        r@ == quoted_text(text@),
{
    format!("{:?}", text)
}

/// Appends one digit to a text.
fn push_digit(text: &mut String, digit: u8)
    requires
        digit < 16,
    ensures
        final(text)@ == old(text)@.push(digit_char(digit as int)),
{
    proof {
        reveal_strlit("0123456789abcdef");
    }
    let digits: &str = "0123456789abcdef";
    let from: usize = digit as usize;
    let one: &str = digits.substring_ascii(from, from + 1);
    assert(one@ == seq![digit_char(digit as int)]);
    text.append(one);
    assert(text@ == old(text)@ + one@);
}

/// The decimal text of a number.
pub fn decimal(n: u64) -> (r: String)
    ensures
        r@ == decimal_text(n as nat),
    decreases n,
{
    if n < 10 {
        let mut text: String = String::new();
        push_digit(&mut text, n as u8);
        assert(text@ == decimal_text(n as nat));
        text
    } else {
        let mut text: String = decimal(n / 10);
        push_digit(&mut text, (n % 10) as u8);
        text
    }
}

/// The text of bytes in base 16.
pub fn hex(bytes: &Vec<u8>) -> (r: String)
    ensures
        r@ == hex_text(bytes@),
{
    let mut text: String = String::new();
    let mut i: usize = 0;
    while i < bytes.len()
        invariant
            i <= bytes@.len(),
            text@ == hex_text(bytes@.take(i as int)),
        decreases bytes@.len() - i,
    {
        let byte: u8 = bytes[i];
        push_digit(&mut text, byte / 16);
        push_digit(&mut text, byte % 16);
        i += 1;
        proof {
            assert(bytes@.take(i as int).drop_last() == bytes@.take(i - 1));
        }
    }
    assert(bytes@.take(i as int) == bytes@);
    text
}

/// The texts of `parts`, with `separator` between neighbours.
pub fn join(parts: &Vec<String>, separator: &str) -> (r: String)
    ensures
        r@ == joined(parts@.map_values(|p: String| p@), separator@),
{
    let ghost texts: Seq<Seq<char>> = parts@.map_values(|p: String| p@);
    let mut text: String = String::new();
    let mut i: usize = 0;
    while i < parts.len()
        invariant
            i <= parts@.len(),
            texts == parts@.map_values(|p: String| p@),
            text@ == joined(texts.take(i as int), separator@),
        decreases parts@.len() - i,
    {
        if i > 0 {
            text.append(separator);
        }
        text.append(parts[i].as_str());
        i += 1;
        proof {
            let done = texts.take(i as int);
            assert(done.drop_last() == texts.take(i - 1));
            assert(done.last() == parts@[i - 1]@);
            if i == 1 {
                assert(text@ == done[0]);
            }
        }
    }
    assert(texts.take(i as int) == texts);
    text
}

/// Whether `part` stands at a place in a text.
pub open spec fn stands_at(text: Seq<char>, part: Seq<char>, at: int) -> bool {
    0 <= at && at + part.len() <= text.len() && text.subrange(at, at + part.len()) == part
}

/// Whether `part` stands somewhere in a text.
pub open spec fn has_part(text: Seq<char>, part: Seq<char>) -> bool {
    exists|at: int| stands_at(text, part, at)
}

/// Whether `part` stands at a place in a text.
pub fn is_at(text: &str, part: &str, at: usize) -> (r: bool)
    ensures
        r == stands_at(text@, part@, at as int),
{
    let n: usize = text.unicode_len();
    let m: usize = part.unicode_len();
    if m > n || at > n - m {
        return false;
    }
    let mut j: usize = 0;
    while j < m
        invariant
            n == text@.len(),
            m == part@.len(),
            j <= m,
            at + m <= n,
            forall|k: int| 0 <= k < j ==> text@[at + k] == #[trigger] part@[k],
        decreases m - j,
    {
        if text.get_char(at + j) != part.get_char(j) {
            assert(text@.subrange(at as int, at + m)[j as int] != part@[j as int]);
            return false;
        }
        j += 1;
    }
    assert(text@.subrange(at as int, at + m) =~= part@);
    true
}

/// Whether `part` stands somewhere in a text.
pub fn contains(text: &str, part: &str) -> (r: bool)
    ensures
        r == has_part(text@, part@),
{
    let n: usize = text.unicode_len();
    let mut at: usize = 0;
    while at < n
        invariant
            n == text@.len(),
            at <= n,
            forall|k: int| 0 <= k < at ==> !stands_at(text@, part@, k),
        decreases n - at,
    {
        if is_at(text, part, at) {
            return true;
        }
        at += 1;
    }
    is_at(text, part, n)
}

/// Whether a text starts with `part`.
pub fn starts_with(text: &str, part: &str) -> (r: bool)
    ensures
        r == stands_at(text@, part@, 0),
{
    is_at(text, part, 0)
}

/// The texts of names.
pub open spec fn names_of(names: Seq<String>) -> Seq<Seq<char>> {
    names.map_values(|n: String| n@)
}

/// Whether a name is among others.
pub open spec fn is_named(names: Seq<String>, name: Seq<char>) -> bool {
    exists|i: int| 0 <= i < names.len() && #[trigger] names[i]@ == name
}

/// A name is among others where its text is among theirs.
pub proof fn named_by_text(names: Seq<String>, name: Seq<char>)
    ensures
        is_named(names, name) == names_of(names).contains(name),
{
    let texts = names_of(names);
    if is_named(names, name) {
        let i = choose|i: int| 0 <= i < names.len() && #[trigger] names[i]@ == name;
        assert(texts[i] == name);
    }
    if texts.contains(name) {
        let i = choose|i: int| 0 <= i < texts.len() && texts[i] == name;
        assert(names[i]@ == name);
    }
}

/// Whether a name is among others.
pub fn name_is_among(names: &Vec<String>, name: &String) -> (r: bool)
    ensures
        r == is_named(names@, name@),
{
    let mut i: usize = 0;
    while i < names.len()
        invariant
            i <= names@.len(),
            forall|j: int| 0 <= j < i ==> #[trigger] names@[j]@ != name@,
        decreases names@.len() - i,
    {
        if names[i] == *name {
            assert(names@[i as int]@ == name@);
            return true;
        }
        i += 1;
    }
    false
}

/// A text has a part exactly where it is that part with something before and something after it, or
/// nothing.
pub proof fn parts_stand_between_others(text: Seq<char>, part: Seq<char>)
    ensures
        has_part(text, part) <==> exists|before: Seq<char>, after: Seq<char>|
            text == #[trigger] (before + part + after),
{
    if has_part(text, part) {
        let at = choose|at: int| stands_at(text, part, at);
        let before = text.subrange(0, at);
        let after = text.subrange(at + part.len(), text.len() as int);
        assert(text =~= before + text.subrange(at, at + part.len()) + after);
    }
    if exists|before: Seq<char>, after: Seq<char>| text == #[trigger] (before + part + after) {
        let (before, after) = choose|before: Seq<char>, after: Seq<char>|
            text == #[trigger] (before + part + after);
        let at = before.len() as int;
        assert(text.subrange(at, at + part.len()) =~= part);
        assert(stands_at(text, part, at));
    }
}

/// The number that decimal digits stand for, by their characters.
pub open spec fn value_of_digits(text: Seq<char>) -> nat
    decreases text.len(),
{
    if text.len() == 0 {
        0
    } else {
        (10 * value_of_digits(text.drop_last()) + (text.last() as int - '0' as int)) as nat
    }
}

/// The decimal text of a number is made of decimal digits, has no leading zero, and stands for the
/// number.
pub proof fn decimal_text_stands_for_its_number(n: nat)
    ensures
        decimal_text(n).len() > 0,
        forall|i: int| 0 <= i < decimal_text(n).len() ==> '0' <= #[trigger] decimal_text(n)[i] <= '9',
        value_of_digits(decimal_text(n)) == n,
        n > 0 ==> decimal_text(n)[0] != '0',
        n == 0 ==> decimal_text(n).len() == 1,
    decreases n,
{
    reveal_strlit("0123456789abcdef");
    if n < 10 {
        assert(decimal_text(n).drop_last() =~= Seq::<char>::empty());
        reveal_with_fuel(value_of_digits, 2);
    } else {
        let rest = decimal_text(n / 10);
        decimal_text_stands_for_its_number(n / 10);
        assert(decimal_text(n).drop_last() =~= rest);
        assert forall|i: int| 0 <= i < decimal_text(n).len() implies '0' <= #[trigger] decimal_text(
            n,
        )[i] <= '9' by {
            if i < rest.len() {
                assert(decimal_text(n)[i] == rest[i]);
            }
        }
        assert(decimal_text(n)[0] == rest[0]);
    }
}

/// Joined texts: nothing of none, a text of one, and each further text follows after the separator.
pub proof fn further_parts_follow_the_separator(
    parts: Seq<Seq<char>>,
    part: Seq<char>,
    separator: Seq<char>,
)
    ensures
        joined(Seq::<Seq<char>>::empty(), separator) == Seq::<char>::empty(),
        parts.len() == 0 ==> joined(parts.push(part), separator) == part,
        parts.len() > 0 ==> joined(parts.push(part), separator) == joined(parts, separator) + separator
            + part,
{
    assert(parts.push(part).drop_last() =~= parts);
}

/// A digit counts for its place: from zero in the decimal digits, and from ten in the letters, in either
/// case alike.
pub proof fn digits_count_by_their_place(c: char)
    ensures
        '0' <= c <= '9' ==> digit_value(c) == Some((c as int - 48) as nat),
        'a' <= c <= 'z' ==> digit_value(c) == Some((c as int - 97 + 10) as nat),
        'A' <= c <= 'Z' ==> digit_value(c) == Some((c as int - 65 + 10) as nat),
        digit_value(c) is Some ==> '0' <= c <= '9' || 'a' <= c <= 'z' || 'A' <= c <= 'Z',
{
}

/// A further digit makes a number as many times larger as its base and adds its own value; a further
/// underscore changes nothing.
pub proof fn numbers_grow_digit_by_digit(digits: Seq<char>, base: nat, c: char)
    ensures
        number_value(seq![], base) == 0,
        number_value(digits.push('_'), base) == number_value(digits, base),
        c != '_' && digit_value(c) is Some ==> number_value(digits.push(c), base) == base
            * number_value(digits, base) + digit_value(c)->Some_0,
{
    assert(digits.push('_').drop_last() =~= digits);
    assert(digits.push(c).drop_last() =~= digits);
}

/// A further byte adds two digits in base 16, the higher one first.
pub proof fn bytes_are_two_digits(bytes: Seq<u8>, byte: u8)
    ensures
        hex_text(seq![]).len() == 0,
        hex_text(bytes.push(byte)).len() == hex_text(bytes).len() + 2,
        hex_text(bytes.push(byte)).take(hex_text(bytes).len() as int) == hex_text(bytes),
        hex_text(bytes.push(byte))[hex_text(bytes).len() as int] == "0123456789abcdef"@[byte as int
            / 16],
        hex_text(bytes.push(byte)).last() == "0123456789abcdef"@[byte as int % 16],
{
    assert(bytes.push(byte).drop_last() =~= bytes);
    assert(hex_text(bytes.push(byte)).take(hex_text(bytes).len() as int) =~= hex_text(bytes));
}

} // verus!
