//! What is measured of compared trades.
use vstd::prelude::*;
use vstd::string::StringExecFns;

use crate::bytes::Address;
use crate::hindsight::compare::{BpsDelta, Outcome, Verdict};
use crate::hindsight::resolve::Comparison;

verus! {

/// The label of a verdict.
pub open spec fn label_of(verdict: Verdict) -> Seq<char> {
    match verdict {
        Verdict::Win => "win"@,
        Verdict::Loss => "loss"@,
        Verdict::Unsolvable => "unsolvable"@,
    }
}

/// The label of a verdict.
pub fn outcome_label(verdict: Verdict) -> (r: &'static str)
    ensures
        r@ == label_of(verdict),
{
    match verdict {
        Verdict::Win => "win",
        Verdict::Loss => "loss",
        Verdict::Unsolvable => "unsolvable",
    }
}

/// The label of a pair of tokens: their addresses in base 16, with an arrow between them.
pub open spec fn pair_text(token_in: Seq<u8>, token_out: Seq<u8>) -> Seq<char> {
    "0x"@ + crate::text::hex_text(token_in) + "->"@ + ("0x"@ + crate::text::hex_text(token_out))
}

/// The label of a pair of tokens.
pub fn pair_label(token_in: &Address, token_out: &Address) -> (r: String)
    ensures
        r@ == pair_text(token_in@, token_out@),
{
    token_in.to_text().concat("->").concat(token_out.to_text().as_str())
}

/// A share, as a fraction.
#[derive(Debug, Clone, Copy, PartialEq, Eq, Structural)]
pub struct Ratio {
    pub part: usize,
    pub whole: usize,
}

/// The share of trades that can be compared, of all that were seen; zero where none were.
pub fn coverage_ratio(total: usize, comparable: usize) -> (r: Ratio)
    ensures
        r.whole > 0,
        r == if total == 0 {
            Ratio { part: 0, whole: 1 }
        } else {
            Ratio { part: comparable, whole: total }
        },
{
    if total == 0 {
        Ratio { part: 0, whole: 1 }
    } else {
        Ratio { part: comparable, whole: total }
    }
}

/// What is measured of a trade.
#[derive(Debug)]
pub struct Record {
    pub client: String,
    pub aggregator: String,
    pub pair: String,
    pub chain: String,
    pub outcome: &'static str,
    /// Whether the volume of the trade is recorded.
    pub volume: bool,
    /// The delta net of gas to record.
    pub savings_bps: Option<BpsDelta>,
    /// Whether the savings of the trade are recorded.
    pub savings: bool,
    /// Whether the improvement of the trade is recorded.
    pub improvement: bool,
}

/// Whether a solver would have improved a trade: it has a quote, and delivers more net of gas.
pub open spec fn improves(comparison: Comparison) -> bool {
    comparison.outcome matches Outcome::Solved(solved) && solved.amount_out_net_gas@
        > comparison.settled_amount_out@
}

/// Whether a record says what is to be measured of a trade, whose output token has a price or not.
pub open spec fn is_record_of(
    comparison: Comparison,
    chain: Seq<char>,
    priced: bool,
    record: Record,
) -> bool {
    &&& record.client == comparison.client
    &&& record.aggregator == comparison.aggregator
    &&& record.pair@ == pair_text(comparison.token_in@, comparison.token_out@)
    &&& record.chain@ == chain
    &&& record.outcome@ == label_of(comparison.verdict)
    &&& record.volume == priced
    &&& record.savings_bps == comparison.deltas.net_bps
    &&& record.savings == (priced && comparison.outcome is Solved)
    &&& record.improvement == (priced && improves(comparison))
}

/// What to measure of a trade. Volume counts for every trade with a price, solved or not; savings only
/// for solved ones; improvement only where the solver delivers more, since a client would go elsewhere
/// otherwise.
pub fn record(comparison: &Comparison, chain: &str, priced: bool) -> (r: Record)
    ensures
        is_record_of(*comparison, chain@, priced, r),
{
    let (solved, better): (bool, bool) = match &comparison.outcome {
        Outcome::Solved(solved) => (
            true,
            comparison.settled_amount_out.less_than(&solved.amount_out_net_gas),
        ),
        Outcome::Unsolvable(_) => (false, false),
    };
    Record {
        client: comparison.client.clone(),
        aggregator: comparison.aggregator.clone(),
        pair: pair_label(&comparison.token_in, &comparison.token_out),
        chain: chain.to_string(),
        outcome: outcome_label(comparison.verdict),
        volume: priced,
        savings_bps: match &comparison.deltas.net_bps {
            Some(delta) => Some(delta.clone()),
            None => None,
        },
        savings: priced && solved,
        improvement: priced && better,
    }
}

/// The label of a pair tells its direction: the other way round it is another label.
pub proof fn pair_label_is_directional(a: Seq<u8>, b: Seq<u8>)
    requires
        a.len() == b.len(),
        a != b,
    ensures
        pair_text(a, b) != pair_text(b, a),
{
    crate::bytes::hex_text_round_trip(a);
    crate::bytes::hex_text_round_trip(b);
    let x = crate::text::hex_text(a);
    let y = crate::text::hex_text(b);
    assert(crate::bytes::hex_bytes(x).len() == crate::bytes::hex_bytes(y).len());
    assert(x.len() == y.len());
    if pair_text(a, b) == pair_text(b, a) {
        reveal_strlit("0x");
        assert(pair_text(a, b).subrange(2, 2 + x.len() as int) =~= x);
        assert(pair_text(b, a).subrange(2, 2 + y.len() as int) =~= y);
        assert(x == y);
    }
}

/// Each verdict has its label.
pub proof fn verdicts_have_their_labels(verdict: Verdict)
    ensures
        verdict == Verdict::Win ==> label_of(verdict) == "win"@,
        verdict == Verdict::Loss ==> label_of(verdict) == "loss"@,
        verdict == Verdict::Unsolvable ==> label_of(verdict) == "unsolvable"@,
{
}

/// Volume is measured of every trade with a price; savings of those that have a quote; improvement of
/// those whose quote delivers more than what settled, net of gas. The delta net of gas is recorded with
/// or without a price, and the trade is told by its parties, its tokens and its verdict.
pub proof fn trades_are_measured_by_price_and_quote(
    comparison: Comparison,
    chain: Seq<char>,
    priced: bool,
    record: Record,
)
    requires
        is_record_of(comparison, chain, priced, record),
    ensures
        record.volume <==> priced,
        record.savings <==> priced && comparison.outcome is Solved,
        record.improvement ==> record.savings,
        comparison.outcome matches Outcome::Solved(solved) ==> (record.improvement <==> priced
            && solved.amount_out_net_gas@ > comparison.settled_amount_out@),
        record.savings_bps == comparison.deltas.net_bps,
        record.client == comparison.client && record.aggregator == comparison.aggregator,
        record.chain@ == chain,
        record.pair@ == "0x"@ + crate::text::hex_text(comparison.token_in@) + "->"@ + ("0x"@
            + crate::text::hex_text(comparison.token_out@)),
        comparison.verdict == Verdict::Win ==> record.outcome@ == "win"@,
        comparison.verdict == Verdict::Loss ==> record.outcome@ == "loss"@,
        comparison.verdict == Verdict::Unsolvable ==> record.outcome@ == "unsolvable"@,
{
}

/// Of no trades none can be compared; of any others the share is what can be compared of all.
pub proof fn coverage_is_a_share_of_all(total: usize, comparable: usize, r: Ratio)
    requires
        call_ensures(coverage_ratio, (total, comparable), r),
    ensures
        r.whole > 0,
        total > 0 ==> r.part == comparable && r.whole == total,
        total == 0 ==> r.part == 0,
{
}

} // verus!
