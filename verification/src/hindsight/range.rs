//! Which blocks to look at.
use vstd::prelude::*;
use vstd::string::{StrSliceExecFns, StringExecFns};

use crate::text::decimal;

verus! {

/// Largest distance between the first and the last block of a range.
pub const MAX_RANGE: u64 = 1000;

/// Why a text is no range of blocks.
#[derive(Debug)]
pub enum RangeError {
    /// It is not two texts with a dash between them.
    Format { range: String },
    /// The text before the dash is no block number.
    InvalidStart { text: String },
    /// The text after the dash is no block number.
    InvalidEnd { text: String },
    /// It ends before it starts.
    Reversed { start: u64, end: u64 },
    /// It is too long.
    TooLarge { blocks: u64 },
}

/// Why a text is no range of blocks, as text.
pub enum RangeErrorView {
    Format { range: Seq<char> },
    InvalidStart { text: Seq<char> },
    InvalidEnd { text: Seq<char> },
    Reversed { start: u64, end: u64 },
    TooLarge { blocks: u64 },
}

impl View for RangeError {
    type V = RangeErrorView;

    open spec fn view(&self) -> RangeErrorView {
        match self {
            RangeError::Format { range } => RangeErrorView::Format { range: range@ },
            RangeError::InvalidStart { text } => RangeErrorView::InvalidStart { text: text@ },
            RangeError::InvalidEnd { text } => RangeErrorView::InvalidEnd { text: text@ },
            RangeError::Reversed { start, end } => RangeErrorView::Reversed {
                start: *start,
                end: *end,
            },
            RangeError::TooLarge { blocks } => RangeErrorView::TooLarge { blocks: *blocks },
        }
    }
}

impl RangeError {
    /// The error in words.
    pub fn message(&self) -> (r: String)
        ensures
            r@ == match self@ {
                RangeErrorView::Format { range } => {
                    "invalid range format: expected START-END, got '"@ + range + "'"@
                },
                RangeErrorView::InvalidStart { text } => "invalid start block: "@ + text,
                RangeErrorView::InvalidEnd { text } => "invalid end block: "@ + text,
                RangeErrorView::Reversed { start, end } => "end block ("@
                    + crate::text::decimal_text(end as nat) + ") must be >= start block ("@
                    + crate::text::decimal_text(start as nat) + ")"@,
                RangeErrorView::TooLarge { blocks } => "range too large: "@
                    + crate::text::decimal_text(blocks as nat) + " blocks (max 1000)"@,
            },
    {
        match self {
            RangeError::Format { range } => {
                "invalid range format: expected START-END, got '".to_string().concat(
                    range.as_str(),
                ).concat("'")
            },
            RangeError::InvalidStart { text } => {
                "invalid start block: ".to_string().concat(text.as_str())
            },
            RangeError::InvalidEnd { text } => {
                "invalid end block: ".to_string().concat(text.as_str())
            },
            RangeError::Reversed { start, end } => {
                "end block (".to_string().concat(decimal(*end).as_str()).concat(
                    ") must be >= start block (",
                ).concat(decimal(*start).as_str()).concat(")")
            },
            RangeError::TooLarge { blocks } => {
                "range too large: ".to_string().concat(decimal(*blocks).as_str()).concat(
                    " blocks (max 1000)",
                )
            },
        }
    }
}

/// A character is a decimal digit.
pub open spec fn is_digit(c: char) -> bool {
    '0' <= c <= '9'
}

/// The number that decimal digits stand for.
pub open spec fn decimal_value(digits: Seq<char>) -> nat
    decreases digits.len(),
{
    if digits.len() == 0 {
        0
    } else {
        10 * decimal_value(digits.drop_last()) + (digits.last() as nat - '0' as nat) as nat
    }
}

/// The digits of a number's text: all of it but a leading plus sign.
pub open spec fn unsigned(text: Seq<char>) -> Seq<char> {
    if text.len() > 0 && text[0] == '+' {
        text.skip(1)
    } else {
        text
    }
}

/// The block number that a text stands for: digits, with or without a plus sign before them.
pub open spec fn block_number(text: Seq<char>) -> Option<u64> {
    let digits = unsigned(text);
    if digits.len() > 0 && (forall|i: int| 0 <= i < digits.len() ==> is_digit(#[trigger] digits[i]))
        && decimal_value(digits) <= u64::MAX {
        Some(decimal_value(digits) as u64)
    } else {
        None
    }
}

/// Where the only dash of a text stands.
pub open spec fn is_only_dash(text: Seq<char>, at: int) -> bool {
    &&& 0 <= at < text.len()
    &&& text[at] == '-'
    &&& forall|i: int| 0 <= i < text.len() && i != at ==> #[trigger] text[i] != '-'
}

/// What a range of two block numbers comes to.
pub open spec fn blocks_between(start: u64, end: u64) -> Result<Seq<u64>, RangeErrorView> {
    if end < start {
        Err(RangeErrorView::Reversed { start, end })
    } else if end - start > MAX_RANGE {
        Err(RangeErrorView::TooLarge { blocks: (end - start) as u64 })
    } else {
        Ok(Seq::new((end - start + 1) as nat, |i: int| (start + i) as u64))
    }
}

/// What a text with one dash comes to.
pub open spec fn range_at(text: Seq<char>, dash: int) -> Result<Seq<u64>, RangeErrorView> {
    let before = text.take(dash);
    let after = text.skip(dash + 1);
    match block_number(before) {
        None => Err(RangeErrorView::InvalidStart { text: before }),
        Some(start) => match block_number(after) {
            None => Err(RangeErrorView::InvalidEnd { text: after }),
            Some(end) => blocks_between(start, end),
        },
    }
}

/// What a text comes to, as a range of blocks.
pub open spec fn range_of(text: Seq<char>) -> Result<Seq<u64>, RangeErrorView> {
    if exists|at: int| is_only_dash(text, at) {
        range_at(text, choose|at: int| is_only_dash(text, at))
    } else {
        Err(RangeErrorView::Format { range: text })
    }
}

/// A result of reading a range, as text.
pub open spec fn outcome_of(r: Result<Vec<u64>, RangeError>) -> Result<Seq<u64>, RangeErrorView> {
    match r {
        Ok(blocks) => Ok(blocks@),
        Err(error) => Err(error@),
    }
}

/// Reads a block number.
fn parse_block_number(text: &str) -> (r: Option<u64>)
    ensures
        r == block_number(text@),
{
    let n: usize = text.unicode_len();
    let ghost digits = unsigned(text@);
    let first: usize = if n > 0 && text.get_char(0) == '+' {
        1
    } else {
        0
    };
    assert(digits == text@.skip(first as int));
    if n == first {
        return None;
    }
    let mut value: u64 = 0;
    let mut overflow: bool = false;
    let mut i: usize = first;
    while i < n
        invariant
            n == text@.len(),
            first <= i <= n,
            digits == unsigned(text@),
            digits == text@.skip(first as int),
            forall|j: int| 0 <= j < i - first ==> is_digit(#[trigger] digits[j]),
            !overflow ==> value == decimal_value(digits.take(i - first)),
            overflow ==> decimal_value(digits.take(i - first)) > u64::MAX,
        decreases n - i,
    {
        let c: char = text.get_char(i);
        assert(c == digits[i - first]);
        if !('0' <= c && c <= '9') {
            assert(!is_digit(digits[i - first]));
            return None;
        }
        let digit: u64 = (c as u64) - ('0' as u64);
        assert(digits.take(i - first + 1).drop_last() == digits.take(i - first));
        if !overflow {
            if value > (u64::MAX - digit) / 10 {
                overflow = true;
            } else {
                value = 10 * value + digit;
            }
        }
        i += 1;
    }
    assert(digits.take(i - first) == digits);
    if overflow {
        None
    } else {
        Some(value)
    }
}

/// The blocks from a first to a last one.
fn list_blocks(start: u64, end: u64) -> (r: Result<Vec<u64>, RangeError>)
    ensures
        outcome_of(r) == blocks_between(start, end),
{
    if end < start {
        return Err(RangeError::Reversed { start, end });
    }
    if end - start > MAX_RANGE {
        return Err(RangeError::TooLarge { blocks: end - start });
    }
    let mut blocks: Vec<u64> = Vec::new();
    let count: u64 = end - start + 1;
    let mut k: u64 = 0;
    while k < count
        invariant
            k <= count,
            count == end - start + 1,
            blocks@ == Seq::new(k as nat, |i: int| (start + i) as u64),
        decreases count - k,
    {
        blocks.push(start + k);
        k += 1;
    }
    Ok(blocks)
}

/// Reads a range of blocks, such as "21000000-21000010": all blocks from the first to the last.
pub fn parse_range(range: &str) -> (r: Result<Vec<u64>, RangeError>)
    ensures
        outcome_of(r) == range_of(range@),
{
    let ghost text = range@;
    let n: usize = range.unicode_len();
    let mut dash: usize = n;
    let mut i: usize = 0;
    while i < n
        invariant
            n == text.len(),
            text == range@,
            i <= n,
            dash < n ==> dash < i && text[dash as int] == '-',
            dash <= n,
            forall|j: int| 0 <= j < i && j != dash ==> #[trigger] text[j] != '-',
        decreases n - i,
    {
        if range.get_char(i) == '-' {
            if dash < n {
                proof {
                    assert forall|at: int| !is_only_dash(text, at) by {
                        if is_only_dash(text, at) {
                            if at == dash {
                                assert(text[i as int] == '-');
                            } else {
                                assert(text[dash as int] == '-');
                            }
                        }
                    }
                }
                return Err(RangeError::Format { range: range.to_string() });
            }
            dash = i;
        }
        i += 1;
    }
    if dash == n {
        assert forall|at: int| !is_only_dash(text, at) by {}
        return Err(RangeError::Format { range: range.to_string() });
    }
    proof {
        assert(is_only_dash(text, dash as int));
        let at = choose|at: int| is_only_dash(text, at);
        assert(is_only_dash(text, at));
        assert(text[at] == '-');
        assert(at == dash);
        assert(text.subrange(0, dash as int) == text.take(dash as int));
        assert(text.subrange(dash + 1, n as int) == text.skip(dash + 1));
    }
    let before: &str = range.substring_char(0, dash);
    let after: &str = range.substring_char(dash + 1, n);
    let start: u64 = match parse_block_number(before) {
        Some(start) => start,
        None => {
            return Err(RangeError::InvalidStart { text: before.to_string() });
        },
    };
    let end: u64 = match parse_block_number(after) {
        Some(end) => end,
        None => {
            return Err(RangeError::InvalidEnd { text: after.to_string() });
        },
    };
    list_blocks(start, end)
}

/// Which blocks a caller asks for.
#[derive(Debug)]
pub enum BlockChoice {
    /// These.
    Blocks(Vec<u64>),
    /// The latest one.
    Latest,
}

/// The blocks that a caller asks for: a range before a single block, and the latest where neither is
/// given.
pub fn resolve_blocks(block: Option<u64>, range: Option<&str>) -> (r: Result<
    BlockChoice,
    RangeError,
>)
    ensures
        match range {
            Some(text) => match r {
                Ok(choice) => choice matches BlockChoice::Blocks(blocks) && range_of(text@) == Ok::<
                    Seq<u64>,
                    RangeErrorView,
                >(blocks@),
                Err(error) => range_of(text@) == Err::<Seq<u64>, RangeErrorView>(error@),
            },
            None => match block {
                Some(number) => r matches Ok(BlockChoice::Blocks(blocks)) && blocks@ == seq![number],
                None => r matches Ok(BlockChoice::Latest),
            },
        },
{
    match range {
        Some(text) => match parse_range(text) {
            Ok(blocks) => Ok(BlockChoice::Blocks(blocks)),
            Err(error) => Err(error),
        },
        None => match block {
            Some(number) => {
                let mut blocks: Vec<u64> = Vec::new();
                blocks.push(number);
                Ok(BlockChoice::Blocks(blocks))
            },
            None => Ok(BlockChoice::Latest),
        },
    }
}

proof fn decimal_text_is_read(n: nat)
    ensures
        decimal_value(crate::text::decimal_text(n)) == n,
        crate::text::decimal_text(n).len() > 0,
        forall|i: int|
            0 <= i < crate::text::decimal_text(n).len() ==> is_digit(
                #[trigger] crate::text::decimal_text(n)[i],
            ),
    decreases n,
{
    reveal_strlit("0123456789abcdef");
    reveal_with_fuel(decimal_value, 2);
    let text = crate::text::decimal_text(n);
    if n >= 10 {
        decimal_text_is_read(n / 10);
        assert(text.drop_last() == crate::text::decimal_text(n / 10));
        assert forall|i: int| 0 <= i < text.len() implies is_digit(#[trigger] text[i]) by {
            if i < text.len() - 1 {
                assert(text[i] == crate::text::decimal_text(n / 10)[i]);
            }
        }
    } else {
        assert(text.drop_last() == Seq::<char>::empty());
    }
}

/// The text of two block numbers with a dash between them is read as those numbers: it gives the blocks
/// from the first to the last.
pub proof fn range_text_is_read(start: u64, end: u64)
    ensures
        range_of(
            crate::text::decimal_text(start as nat) + "-"@ + crate::text::decimal_text(end as nat),
        ) == blocks_between(start, end),
{
    reveal_strlit("-");
    let first = crate::text::decimal_text(start as nat);
    let last = crate::text::decimal_text(end as nat);
    decimal_text_is_read(start as nat);
    decimal_text_is_read(end as nat);
    let text = first + "-"@ + last;
    let dash = first.len() as int;
    assert(text[dash] == '-');
    assert forall|i: int| 0 <= i < text.len() && i != dash implies #[trigger] text[i] != '-' by {
        if i < dash {
            assert(is_digit(first[i]));
        } else {
            assert(is_digit(last[i - dash - 1]));
        }
    }
    assert(is_only_dash(text, dash));
    let at = choose|at: int| is_only_dash(text, at);
    assert(is_only_dash(text, at));
    assert(text[at] == '-');
    assert(at == dash);
    assert(text.take(dash) == first);
    assert(text.skip(dash + 1) == last);
    assert(is_digit(first[0]));
    assert(is_digit(last[0]));
}

/// A range that is read has at least one block and ends after it starts; its blocks follow each other.
pub proof fn range_is_contiguous(text: Seq<char>)
    ensures
        range_of(text) matches Ok(blocks) ==> {
            &&& 1 <= blocks.len() <= MAX_RANGE + 1
            &&& forall|i: int| 0 <= i < blocks.len() ==> #[trigger] blocks[i] == blocks[0] + i
        },
{
}

/// A range of two block numbers is read exactly where it does not end before it starts nor a thousand
/// blocks behind that; it begins with the first and ends with the last.
pub proof fn ranges_run_from_start_to_end(start: u64, end: u64)
    ensures
        end < start ==> blocks_between(start, end) == Err::<Seq<u64>, RangeErrorView>(
            RangeErrorView::Reversed { start, end },
        ),
        end > start + 1000 ==> blocks_between(start, end) == Err::<Seq<u64>, RangeErrorView>(
            RangeErrorView::TooLarge { blocks: (end - start) as u64 },
        ),
        start <= end <= start + 1000 ==> (blocks_between(start, end) matches Ok(blocks) && blocks.len()
            == end - start + 1 && blocks[0] == start && blocks.last() == end),
{
}

/// A text without a dash, or with more than one, is no range.
pub proof fn ranges_have_one_dash(text: Seq<char>, i: int, j: int)
    requires
        (forall|k: int| 0 <= k < text.len() ==> #[trigger] text[k] != '-') || (0 <= i < j < text.len()
            && text[i] == '-' && text[j] == '-'),
    ensures
        range_of(text) == Err::<Seq<u64>, RangeErrorView>(RangeErrorView::Format { range: text }),
{
    if exists|at: int| is_only_dash(text, at) {
        let at = choose|at: int| is_only_dash(text, at);
        assert(text[at] == '-');
        if i != at {
            assert(text[i] != '-');
        } else {
            assert(text[j] != '-');
        }
    }
}

/// What stands before the only dash of a text has to be a block number, and then what stands behind it.
pub proof fn ranges_are_two_block_numbers(before: Seq<char>, after: Seq<char>)
    requires
        forall|k: int| 0 <= k < before.len() ==> #[trigger] before[k] != '-',
        forall|k: int| 0 <= k < after.len() ==> #[trigger] after[k] != '-',
    ensures
        block_number(before) is None ==> range_of(before + seq!['-'] + after) == Err::<
            Seq<u64>,
            RangeErrorView,
        >(RangeErrorView::InvalidStart { text: before }),
        block_number(before) is Some && block_number(after) is None ==> range_of(
            before + seq!['-'] + after,
        ) == Err::<Seq<u64>, RangeErrorView>(RangeErrorView::InvalidEnd { text: after }),
        block_number(before) is Some && block_number(after) is Some ==> range_of(
            before + seq!['-'] + after,
        ) == blocks_between(block_number(before)->Some_0, block_number(after)->Some_0),
{
    let text = before + seq!['-'] + after;
    let dash = before.len() as int;
    assert(is_only_dash(text, dash)) by {
        assert forall|i: int| 0 <= i < text.len() && i != dash implies #[trigger] text[i] != '-' by {
            if i < dash {
                assert(text[i] == before[i]);
            } else {
                assert(text[i] == after[i - dash - 1]);
            }
        }
    }
    let at = choose|at: int| is_only_dash(text, at);
    assert(at == dash) by {
        if at != dash {
            assert(text[dash] != '-');
        }
    }
    assert(text.take(dash) =~= before);
    assert(text.skip(dash + 1) =~= after);
}

/// A digit more makes a number ten times as large and adds its own value; a plus sign before it changes
/// nothing, and anything but digits is no block number.
pub proof fn block_numbers_are_decimal(digits: Seq<char>, c: char)
    ensures
        decimal_value(seq![]) == 0,
        '0' <= c <= '9' ==> decimal_value(digits.push(c)) == 10 * decimal_value(digits) + (c as int
            - 48),
        !(digits.len() > 0 && digits[0] == '+') ==> block_number(seq!['+'] + digits) == block_number(
            digits,
        ),
        digits.len() > 0 && !('0' <= c <= '9') ==> block_number(digits.push(c)) is None,
        block_number(seq![]) is None,
        block_number(digits) matches Some(n) ==> decimal_value(unsigned(digits)) == n,
{
    assert(digits.push(c).drop_last() =~= digits);
    assert((seq!['+'] + digits).skip(1) =~= digits);
    if digits.len() > 0 && !('0' <= c <= '9') {
        let text = digits.push(c);
        let rest = unsigned(text);
        assert(rest.last() == c);
        assert(!is_digit(rest[rest.len() - 1]));
    }
}

/// A range is preferred to a block, a block to the latest one, and nothing else is asked for.
pub proof fn ranges_are_preferred_to_blocks(
    block: Option<u64>,
    range: Option<&str>,
    r: Result<BlockChoice, RangeError>,
)
    requires
        call_ensures(resolve_blocks, (block, range), r),
    ensures
        range matches Some(text) ==> (r is Ok <==> range_of(text@) is Ok),
        range is Some && r is Ok ==> (r->Ok_0 matches BlockChoice::Blocks(blocks) && blocks@
            == range_of(range->Some_0@)->Ok_0),
        range is Some && r is Err ==> r->Err_0@ == range_of(range->Some_0@)->Err_0,
        range is None && block is Some ==> (r matches Ok(BlockChoice::Blocks(blocks)) && blocks@.len()
            == 1 && blocks@[0] == block->Some_0),
        range is None && block is None ==> (r matches Ok(BlockChoice::Latest)),
{
}

/// An error of a range is told with what was read.
pub proof fn range_errors_are_told(error: RangeError, r: String)
    requires
        call_ensures(RangeError::message, (&error,), r),
    ensures
        error matches RangeError::Format { range } ==> r@
            == "invalid range format: expected START-END, got '"@ + range@ + "'"@,
        error matches RangeError::InvalidStart { text } ==> r@ == "invalid start block: "@ + text@,
        error matches RangeError::InvalidEnd { text } ==> r@ == "invalid end block: "@ + text@,
        error matches RangeError::Reversed { start, end } ==> r@ == "end block ("@
            + crate::text::decimal_text(end as nat) + ") must be >= start block ("@
            + crate::text::decimal_text(start as nat) + ")"@,
        error matches RangeError::TooLarge { blocks } ==> r@ == "range too large: "@
            + crate::text::decimal_text(blocks as nat) + " blocks (max 1000)"@,
{
}

} // verus!
