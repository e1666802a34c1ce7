//! Reading a solver's quotes, and summing up how they compare.
use alloy::primitives::U256;
use vstd::prelude::*;
use vstd::string::StringExecFns;

use crate::amount::Amount;
use crate::hindsight::compare::{BpsDelta, Outcome, SolvedAmount, Verdict};
use crate::hindsight::resolve::Comparison;

verus! {

/// The base that a number's text is written in, by its prefix.
pub open spec fn base_of(text: Seq<char>) -> nat {
    if text.len() < 2 || text[0] != '0' {
        10
    } else if text[1] == 'x' || text[1] == 'X' {
        16
    } else if text[1] == 'o' || text[1] == 'O' {
        8
    } else if text[1] == 'b' || text[1] == 'B' {
        2
    } else {
        10
    }
}

/// A number's text without its prefix.
pub open spec fn digits_of(text: Seq<char>) -> Seq<char> {
    if base_of(text) == 10 {
        text
    } else {
        text.skip(2)
    }
}

/// The 256-bit number that a text stands for.
pub open spec fn u256_of(text: Seq<char>) -> Option<nat> {
    let base = base_of(text);
    let digits = digits_of(text);
    if (forall|i: int| 0 <= i < digits.len() ==> crate::text::is_number_char(
        #[trigger] digits[i],
        base,
    ))
        && crate::text::number_value(digits, base) < vstd::arithmetic::power::pow(256, 32) {
        Some(crate::text::number_value(digits, base))
    } else {
        None
    }
}

/// `alloy::primitives::U256`, `from_str` through `str::parse`, and `to_be_bytes`: reads a 256-bit number
/// in base 16, 8 or 2 after `0x`, `0o` or `0b`, and else in base 10, and gives its bytes, most
/// significant byte first. Underscores are skipped; an empty text is zero. It fails on any other
/// character, and on a number that is too large.
#[verifier::external_body]
fn u256_bytes(text: &str) -> (r: Option<Vec<u8>>)
    ensures
        match r {
            Some(bytes) => u256_of(text@) == Some(
                crate::encoding::call::big_endian_value(bytes@),
            ),
            None => u256_of(text@) is None,
        },
{
    match text.parse::<U256>() {
        Ok(number) => Some(number.to_be_bytes_vec()),
        Err(_) => None,
    }
}

/// The number that bytes stand for, most significant byte first.
fn amount_of_bytes(bytes: &Vec<u8>) -> (r: Amount)
    ensures
        r@ == crate::encoding::call::big_endian_value(bytes@),
{
    let base: Amount = Amount::from_u64(256);
    let mut sum: Amount = Amount::zero();
    let mut i: usize = 0;
    while i < bytes.len()
        invariant
            i <= bytes@.len(),
            base@ == 256,
            sum@ == crate::encoding::call::big_endian_value(bytes@.take(i as int)),
        decreases bytes@.len() - i,
    {
        sum = base.times(&sum).plus(&Amount::from_u64(bytes[i] as u64));
        i += 1;
        assert(bytes@.take(i as int).drop_last() == bytes@.take(i - 1));
    }
    assert(bytes@.take(i as int) == bytes@);
    sum
}

/// Reads a 256-bit number.
pub fn parse_u256(text: &str) -> (r: Option<Amount>)
    ensures
        match r {
            Some(amount) => u256_of(text@) == Some(amount@),
            None => u256_of(text@) is None,
        },
{
    match u256_bytes(text) {
        Some(bytes) => Some(amount_of_bytes(&bytes)),
        None => None,
    }
}

/// A solver's answer, as far as it is compared.
#[derive(Debug)]
pub struct AggregatorQuote {
    /// Whether the solver has found a quote.
    pub success: bool,
    /// What became of the request, in words.
    pub status: String,
    pub amount_out: Option<String>,
    pub amount_out_net_gas: Option<String>,
    pub gas_units: Option<u64>,
}

/// The number in an optional text.
pub open spec fn optional_u256(text: Option<String>) -> Option<nat> {
    match text {
        Some(t) => u256_of(t@),
        None => None,
    }
}

/// Whether an outcome is what an answer comes to.
pub open spec fn is_outcome_of(quote: AggregatorQuote, outcome: Outcome) -> bool {
    if !quote.success {
        outcome == Outcome::Unsolvable(quote.status)
    } else {
        match optional_u256(quote.amount_out) {
            None => outcome matches Outcome::Unsolvable(reason) && reason@ == "missing amount_out"@,
            Some(amount) => {
                &&& outcome matches Outcome::Solved(solved)
                &&& solved.amount_out@ == amount
                &&& solved.amount_out_net_gas@ == match optional_u256(quote.amount_out_net_gas) {
                    Some(net) => net,
                    None => amount,
                }
                &&& solved.gas_estimate@ == match quote.gas_units {
                    Some(gas) => gas as nat,
                    None => 0,
                }
                &&& solved.quote_json is None
            },
        }
    }
}

/// Reads an optional number.
fn parse_optional(text: &Option<String>) -> (r: Option<Amount>)
    ensures
        match r {
            Some(amount) => optional_u256(*text) == Some(amount@),
            None => optional_u256(*text) is None,
        },
{
    match text {
        Some(t) => parse_u256(t.as_str()),
        None => None,
    }
}

/// What a solver's answer comes to. Without an output net of gas, the output itself stands for it.
pub fn quote_to_outcome(quote: AggregatorQuote) -> (r: Outcome)
    ensures
        is_outcome_of(quote, r),
{
    if !quote.success {
        return Outcome::Unsolvable(quote.status);
    }
    let amount_out: Amount = match parse_optional(&quote.amount_out) {
        Some(amount) => amount,
        None => {
            return Outcome::Unsolvable("missing amount_out".to_string());
        },
    };
    let amount_out_net_gas: Amount = match parse_optional(&quote.amount_out_net_gas) {
        Some(net) => net,
        None => amount_out.clone(),
    };
    let gas_estimate: Amount = match quote.gas_units {
        Some(gas) => Amount::from_u64(gas),
        None => Amount::zero(),
    };
    Outcome::Solved(
        SolvedAmount { amount_out, amount_out_net_gas, gas_estimate, quote_json: None },
    )
}

/// What a request comes to that got no answer.
pub fn failed_request(error: &str) -> (r: Outcome)
    ensures
        r matches Outcome::Unsolvable(reason) && reason@ == "request failed: "@ + error@,
{
    Outcome::Unsolvable("request failed: ".to_string().concat(error))
}

/// How a set of trades compares.
#[derive(Debug)]
pub struct Summary {
    pub total: usize,
    pub wins: usize,
    pub losses: usize,
    pub unsolvable: usize,
    /// Median delta of the output, over the trades that can be compared.
    pub median_raw_bps: Option<BpsDelta>,
    /// Median delta of the output net of gas.
    pub median_net_bps: Option<BpsDelta>,
}

/// The number of trades with a verdict.
pub open spec fn count(comparisons: Seq<Comparison>, verdict: Verdict) -> nat
    decreases comparisons.len(),
{
    if comparisons.len() == 0 {
        0
    } else {
        count(comparisons.drop_last(), verdict) + if comparisons.last().verdict == verdict {
            1nat
        } else {
            0
        }
    }
}

/// The deltas of the outputs of trades that can be compared.
pub open spec fn raw_deltas(comparisons: Seq<Comparison>) -> Seq<BpsDelta>
    decreases comparisons.len(),
{
    if comparisons.len() == 0 {
        seq![]
    } else {
        let before = raw_deltas(comparisons.drop_last());
        match comparisons.last().deltas.raw_bps {
            Some(delta) => before.push(delta),
            None => before,
        }
    }
}

/// The deltas of the outputs net of gas of trades that can be compared.
pub open spec fn net_deltas(comparisons: Seq<Comparison>) -> Seq<BpsDelta>
    decreases comparisons.len(),
{
    if comparisons.len() == 0 {
        seq![]
    } else {
        let before = net_deltas(comparisons.drop_last());
        match comparisons.last().deltas.net_bps {
            Some(delta) => before.push(delta),
            None => before,
        }
    }
}

/// Whether deltas are in ascending order.
pub open spec fn is_sorted(deltas: Seq<BpsDelta>) -> bool {
    forall|i: int, j: int|
        0 <= i <= j < deltas.len() ==> !crate::hindsight::compare::falls_below(
            #[trigger] deltas[j],
            #[trigger] deltas[i],
        )
}

/// Whether a delta stands in the middle of others, in ascending order; of an even number of them it is
/// the upper one.
pub open spec fn is_median(deltas: Seq<BpsDelta>, median: Option<BpsDelta>) -> bool {
    if deltas.len() == 0 {
        median is None
    } else {
        exists|sorted: Seq<BpsDelta>| #[trigger]
            is_sorted(sorted) && sorted.to_multiset() == deltas.to_multiset() && sorted.len()
                == deltas.len() && median == Some(sorted[deltas.len() as int / 2])
    }
}

/// What did settle of deltas is not zero.
pub open spec fn are_proper(deltas: Seq<BpsDelta>) -> bool {
    forall|i: int| 0 <= i < deltas.len() ==> (#[trigger] deltas[i]).spec_settled() > 0
}

/// The order of deltas is transitive.
proof fn order_is_transitive(a: BpsDelta, b: BpsDelta, c: BpsDelta)
    requires
        a.spec_settled() > 0,
        b.spec_settled() > 0,
        c.spec_settled() > 0,
        !crate::hindsight::compare::falls_below(b, a),
        !crate::hindsight::compare::falls_below(c, b),
    ensures
        !crate::hindsight::compare::falls_below(c, a),
{
    fractions_are_ordered(
        a.spec_gain(),
        a.spec_settled() as int,
        b.spec_gain(),
        b.spec_settled() as int,
        c.spec_gain(),
        c.spec_settled() as int,
    );
}

proof fn fractions_are_ordered(p: int, a: int, q: int, b: int, r: int, c: int)
    requires
        a > 0,
        b > 0,
        c > 0,
        p * b <= q * a,
        q * c <= r * b,
    ensures
        p * c <= r * a,
{
    assert((p * b) * c <= (q * a) * c) by (nonlinear_arith)
        requires
            p * b <= q * a,
            c > 0,
    ;
    assert((q * c) * a <= (r * b) * a) by (nonlinear_arith)
        requires
            q * c <= r * b,
            a > 0,
    ;
    assert((q * a) * c == (q * c) * a) by (nonlinear_arith);
    assert((p * b) * c == (p * c) * b) by (nonlinear_arith);
    assert((r * b) * a == (r * a) * b) by (nonlinear_arith);
    assert(p * c <= r * a) by (nonlinear_arith)
        requires
            (p * c) * b <= (r * a) * b,
            b > 0,
    ;
}

/// Puts a delta into others in ascending order, behind those that are not above it.
fn insert_sorted(sorted: &mut Vec<BpsDelta>, delta: BpsDelta)
    requires
        is_sorted(old(sorted)@),
        are_proper(old(sorted)@),
        delta.spec_settled() > 0,
    ensures
        is_sorted(final(sorted)@),
        are_proper(final(sorted)@),
        final(sorted)@.len() == old(sorted)@.len() + 1,
        final(sorted)@.to_multiset() == old(sorted)@.to_multiset().insert(delta),
{
    let ghost before = sorted@;
    let mut at: usize = 0;
    while at < sorted.len() && !delta.is_below(&sorted[at])
        invariant
            at <= sorted@.len(),
            sorted@ == before,
            forall|i: int|
                0 <= i < at ==> !crate::hindsight::compare::falls_below(delta, #[trigger] before[i]),
        decreases sorted@.len() - at,
    {
        at += 1;
    }
    let ghost value = delta;
    sorted.insert(at, delta);
    proof {
        let after = sorted@;
        assert(after == before.insert(at as int, value));
        vstd::seq_lib::to_multiset_insert(before, at as int, value);
        assert forall|i: int| 0 <= i < after.len() implies (#[trigger] after[i]).spec_settled()
            > 0 by {
            if i < at {
                assert(after[i] == before[i]);
            } else if i > at {
                assert(after[i] == before[i - 1]);
            }
        }
        assert forall|i: int, j: int|
            0 <= i <= j < after.len() implies !crate::hindsight::compare::falls_below(
            #[trigger] after[j],
            #[trigger] after[i],
        ) by {
            if i < at && j < at {
                assert(after[i] == before[i] && after[j] == before[j]);
            } else if i < at && j == at {
                assert(after[i] == before[i]);
            } else if i < at && j > at {
                assert(after[i] == before[i] && after[j] == before[j - 1]);
            } else if i == at && j > at {
                assert(after[j] == before[j - 1]);
                assert(crate::hindsight::compare::falls_below(value, before[at as int]));
                assert(!crate::hindsight::compare::falls_below(before[j - 1], before[at as int]));
                order_is_transitive(value, before[at as int], before[j - 1]);
            } else if i > at {
                assert(after[i] == before[i - 1] && after[j] == before[j - 1]);
            }
        }
    }
}

/// The delta in the middle of others.
fn median(deltas: &Vec<BpsDelta>) -> (r: Option<BpsDelta>)
    ensures
        is_median(deltas@, r),
{
    if deltas.len() == 0 {
        return None;
    }
    let mut sorted: Vec<BpsDelta> = Vec::new();
    let mut i: usize = 0;
    proof {
        broadcast use vstd::seq_lib::group_to_multiset_ensures;

        assert(deltas@.take(0) == Seq::<BpsDelta>::empty());
        assert(sorted@ == Seq::<BpsDelta>::empty());
    }
    while i < deltas.len()
        invariant
            i <= deltas@.len(),
            sorted@.len() == i,
            is_sorted(sorted@),
            are_proper(sorted@),
            sorted@.to_multiset() == deltas@.take(i as int).to_multiset(),
        decreases deltas@.len() - i,
    {
        let delta: BpsDelta = deltas[i].clone();
        let _ = delta.settled();
        insert_sorted(&mut sorted, delta);
        proof {
            broadcast use vstd::seq_lib::group_to_multiset_ensures;

            assert(deltas@.take(i + 1) == deltas@.take(i as int).push(deltas@[i as int]));
        }
        i += 1;
    }
    assert(deltas@.take(i as int) == deltas@);
    let middle: usize = sorted.len() / 2;
    Some(sorted[middle].clone())
}

/// Sums up how trades compare.
pub fn summarize(comparisons: &Vec<Comparison>) -> (r: Summary)
    ensures
        r.total == comparisons@.len(),
        r.wins == count(comparisons@, Verdict::Win),
        r.losses == count(comparisons@, Verdict::Loss),
        r.unsolvable == count(comparisons@, Verdict::Unsolvable),
        is_median(raw_deltas(comparisons@), r.median_raw_bps),
        is_median(net_deltas(comparisons@), r.median_net_bps),
{
    let mut wins: usize = 0;
    let mut losses: usize = 0;
    let mut unsolvable: usize = 0;
    let mut raw: Vec<BpsDelta> = Vec::new();
    let mut net: Vec<BpsDelta> = Vec::new();
    let mut i: usize = 0;
    while i < comparisons.len()
        invariant
            i <= comparisons@.len(),
            wins == count(comparisons@.take(i as int), Verdict::Win),
            losses == count(comparisons@.take(i as int), Verdict::Loss),
            unsolvable == count(comparisons@.take(i as int), Verdict::Unsolvable),
            wins <= i,
            losses <= i,
            unsolvable <= i,
            raw@ == raw_deltas(comparisons@.take(i as int)),
            net@ == net_deltas(comparisons@.take(i as int)),
        decreases comparisons@.len() - i,
    {
        let comparison: &Comparison = &comparisons[i];
        assert(comparisons@.take(i + 1).drop_last() == comparisons@.take(i as int));
        match comparison.verdict {
            Verdict::Win => {
                wins += 1;
            },
            Verdict::Loss => {
                losses += 1;
            },
            Verdict::Unsolvable => {
                unsolvable += 1;
            },
        }
        match &comparison.deltas.raw_bps {
            Some(delta) => {
                raw.push(delta.clone());
            },
            None => {},
        }
        match &comparison.deltas.net_bps {
            Some(delta) => {
                net.push(delta.clone());
            },
            None => {},
        }
        i += 1;
    }
    assert(comparisons@.take(i as int) == comparisons@);
    Summary {
        total: comparisons.len(),
        wins,
        losses,
        unsolvable,
        median_raw_bps: median(&raw),
        median_net_bps: median(&net),
    }
}

/// Every trade is a win, a loss or unsolvable, and only one of them.
pub proof fn verdicts_add_up(comparisons: Seq<Comparison>)
    ensures
        count(comparisons, Verdict::Win) + count(comparisons, Verdict::Loss) + count(
            comparisons,
            Verdict::Unsolvable,
        ) == comparisons.len(),
    decreases comparisons.len(),
{
    if comparisons.len() > 0 {
        verdicts_add_up(comparisons.drop_last());
    }
}

/// A number is in base 16 after `0x`, in base 8 after `0o`, in base 2 after `0b`, a letter in either case
/// alike, and else in base 10 with all of its text as digits.
pub proof fn prefixes_tell_the_base(text: Seq<char>)
    ensures
        base_of(seq!['0', 'x'] + text) == 16 && digits_of(seq!['0', 'x'] + text) == text,
        base_of(seq!['0', 'X'] + text) == 16 && digits_of(seq!['0', 'X'] + text) == text,
        base_of(seq!['0', 'o'] + text) == 8 && digits_of(seq!['0', 'o'] + text) == text,
        base_of(seq!['0', 'O'] + text) == 8 && digits_of(seq!['0', 'O'] + text) == text,
        base_of(seq!['0', 'b'] + text) == 2 && digits_of(seq!['0', 'b'] + text) == text,
        base_of(seq!['0', 'B'] + text) == 2 && digits_of(seq!['0', 'B'] + text) == text,
        (text.len() < 2 || text[0] != '0' || '0' <= text[1] <= '9') ==> base_of(text) == 10
            && digits_of(text) == text,
{
    assert((seq!['0', 'x'] + text).skip(2) =~= text);
    assert((seq!['0', 'X'] + text).skip(2) =~= text);
    assert((seq!['0', 'o'] + text).skip(2) =~= text);
    assert((seq!['0', 'O'] + text).skip(2) =~= text);
    assert((seq!['0', 'b'] + text).skip(2) =~= text);
    assert((seq!['0', 'B'] + text).skip(2) =~= text);
}

/// An answer without a quote is unsolvable in its own words, and so is one without a readable output. Any
/// other is solved with that output; without a readable output net of gas the output stands for it, and
/// without gas there is none.
pub proof fn answers_come_to_what_they_say(quote: AggregatorQuote, outcome: Outcome)
    requires
        is_outcome_of(quote, outcome),
    ensures
        outcome is Solved <==> quote.success && quote.amount_out is Some && u256_of(
            quote.amount_out->Some_0@,
        ) is Some,
        !quote.success ==> outcome == Outcome::Unsolvable(quote.status),
        quote.success && outcome is Unsolvable ==> outcome->Unsolvable_0@ == "missing amount_out"@,
        outcome matches Outcome::Solved(solved) ==> {
            &&& u256_of(quote.amount_out->Some_0@) == Some(solved.amount_out@)
            &&& quote.amount_out_net_gas is None ==> solved.amount_out_net_gas@ == solved.amount_out@
            &&& quote.amount_out_net_gas matches Some(text) ==> solved.amount_out_net_gas@ == (match u256_of(
                text@,
            ) {
                Some(net) => net,
                None => solved.amount_out@,
            })
            &&& quote.gas_units is None ==> solved.gas_estimate@ == 0
            &&& quote.gas_units is Some ==> solved.gas_estimate@ == quote.gas_units->Some_0
        },
{
}

/// A further trade adds one to the number of those with its verdict and nothing to the others.
pub proof fn verdicts_are_counted_one_by_one(
    comparisons: Seq<Comparison>,
    added: Comparison,
    verdict: Verdict,
)
    ensures
        count(seq![], verdict) == 0,
        added.verdict == verdict ==> count(comparisons.push(added), verdict) == count(
            comparisons,
            verdict,
        ) + 1,
        added.verdict != verdict ==> count(comparisons.push(added), verdict) == count(
            comparisons,
            verdict,
        ),
{
    assert(comparisons.push(added).drop_last() =~= comparisons);
}

/// A further trade adds its deltas, each where it has one, behind those before: before gas to the ones,
/// net of gas to the others.
pub proof fn deltas_are_collected_in_order(comparisons: Seq<Comparison>, added: Comparison)
    ensures
        raw_deltas(seq![]).len() == 0 && net_deltas(seq![]).len() == 0,
        added.deltas.raw_bps is None ==> raw_deltas(comparisons.push(added)) == raw_deltas(comparisons),
        added.deltas.raw_bps matches Some(delta) ==> raw_deltas(comparisons.push(added)) == raw_deltas(
            comparisons,
        ).push(delta),
        added.deltas.net_bps is None ==> net_deltas(comparisons.push(added)) == net_deltas(comparisons),
        added.deltas.net_bps matches Some(delta) ==> net_deltas(comparisons.push(added)) == net_deltas(
            comparisons,
        ).push(delta),
{
    assert(comparisons.push(added).drop_last() =~= comparisons);
}

/// The median is one of the deltas. In an order of all of them in which none is a smaller share of what
/// settled than one before it, it stands at half their number, counted from zero.
pub proof fn median_stands_in_the_middle(deltas: Seq<BpsDelta>, median: Option<BpsDelta>) -> (sorted:
    Seq<BpsDelta>)
    requires
        is_median(deltas, median),
    ensures
        median is None <==> deltas.len() == 0,
        median is Some ==> {
            &&& sorted.to_multiset() == deltas.to_multiset()
            &&& sorted.len() == deltas.len()
            &&& median->Some_0 == sorted[deltas.len() as int / 2]
            &&& forall|i: int, j: int|
                0 <= i <= j < sorted.len() ==> (#[trigger] sorted[i]).spec_gain() * (
                #[trigger] sorted[j]).spec_settled() <= sorted[j].spec_gain()
                    * sorted[i].spec_settled()
        },
{
    if deltas.len() == 0 {
        seq![]
    } else {
        let sorted = choose|sorted: Seq<BpsDelta>| #[trigger]
            is_sorted(sorted) && sorted.to_multiset() == deltas.to_multiset() && sorted.len()
                == deltas.len() && median == Some(sorted[deltas.len() as int / 2]);
        assert forall|i: int, j: int| 0 <= i <= j < sorted.len() implies (
        #[trigger] sorted[i]).spec_gain() * (#[trigger] sorted[j]).spec_settled()
            <= sorted[j].spec_gain() * sorted[i].spec_settled() by {
            assert(!crate::hindsight::compare::falls_below(sorted[j], sorted[i]));
        }
        sorted
    }
}

/// A request without an answer is unsolvable for the reason it failed.
pub proof fn failed_requests_are_unsolvable(error: &str, r: Outcome)
    requires
        call_ensures(failed_request, (error,), r),
    ensures
        r matches Outcome::Unsolvable(reason) && reason@ == "request failed: "@ + error@,
{
}

/// A summary counts every trade once, under its verdict, and has medians exactly where deltas are.
pub proof fn summaries_count_every_trade(comparisons: Vec<Comparison>, r: Summary)
    requires
        call_ensures(summarize, (&comparisons,), r),
    ensures
        r.total == comparisons@.len(),
        r.wins + r.losses + r.unsolvable == r.total,
        r.wins == count(comparisons@, Verdict::Win),
        r.unsolvable == count(comparisons@, Verdict::Unsolvable),
        r.median_raw_bps is None <==> raw_deltas(comparisons@).len() == 0,
        r.median_net_bps is None <==> net_deltas(comparisons@).len() == 0,
{
    verdicts_add_up(comparisons@);
}

} // verus!
