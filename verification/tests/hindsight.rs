use fynd_core::amount::Amount;
use fynd_core::bytes::{Address, Bytes};
use fynd_core::hindsight::compare::{
    compare, served, verdict, BpsDelta, Deltas, Outcome, SolvedAmount, Verdict,
};
use fynd_core::hindsight::price::{price_of, wrapped_token};
use fynd_core::hindsight::range::{parse_range, resolve_blocks, BlockChoice, RangeError};
use fynd_core::hindsight::receipts::{
    decode_trade, find_maker_trade, is_contract, maker_candidates, match_receipt, MakerSearch,
    MakerTrade, Movement, Receipt,
};
use fynd_core::hindsight::resolve::{
    build_range, compare_trade, Comparison, DecodedTrade, RangeAction, RangeEvent, RangeRun,
    RangeStage,
};
use fynd_core::hindsight::summary::{
    failed_request, parse_u256, quote_to_outcome, summarize, AggregatorQuote,
};
use fynd_core::hindsight::telemetry::{
    coverage_ratio, outcome_label, pair_label, record, Ratio,
};
use fynd_core::table::Table;
use fynd_core::types::chain::Real;

/// A quote for less than half of what settled does not serve a trade.
const MIN_FILL_BPS: u64 = 5_000;

fn amount(n: u64) -> Amount {
    Amount::from_u64(n)
}

fn repeat_byte(byte: u8) -> Address {
    Bytes::new(vec![byte; 20])
}

fn addr(n: u8) -> Address {
    let mut data = vec![0; 20];
    data[19] = n;
    Bytes::new(data)
}

fn solved(amount_out: u64, net: u64) -> Outcome {
    Outcome::Solved(SolvedAmount {
        amount_out: amount(amount_out),
        amount_out_net_gas: amount(net),
        gas_estimate: amount(21_000),
        quote_json: None,
    })
}

fn unsolvable(reason: &str) -> Outcome {
    Outcome::Unsolvable(reason.to_string())
}

fn bps(delta: &Option<BpsDelta>) -> f64 {
    let delta = delta.as_ref().unwrap();
    let gain: f64 = delta.gain().magnitude.to_text().parse().unwrap();
    let settled: f64 = delta.settled().to_text().parse().unwrap();
    let share = gain / settled * 10_000.0;
    if delta.gain().negative {
        -share
    } else {
        share
    }
}

fn is_none(deltas: &Deltas) -> bool {
    deltas.raw_bps.is_none() && deltas.net_bps.is_none()
}

#[test]
fn parse_range_valid() {
    let blocks = parse_range("100-105").unwrap();
    assert_eq!(blocks, vec![100, 101, 102, 103, 104, 105]);
}

#[test]
fn parse_range_single_block() {
    let blocks = parse_range("100-100").unwrap();
    assert_eq!(blocks, vec![100]);
}

#[test]
fn parse_range_invalid_format() {
    assert!(parse_range("100").is_err());
    assert!(parse_range("100-200-300").is_err());
}

#[test]
fn parse_range_reversed() {
    assert!(parse_range("200-100").is_err());
}

#[test]
fn parse_range_too_large() {
    assert!(parse_range("0-1001").is_err());
}

fn range_error(text: &str) -> String {
    parse_range(text).unwrap_err().message()
}

#[test]
fn range_errors_say_what_is_wrong() {
    assert_eq!(range_error("100"), "invalid range format: expected START-END, got '100'");
    assert_eq!(range_error("1-2-3"), "invalid range format: expected START-END, got '1-2-3'");
    assert_eq!(range_error("a-5"), "invalid start block: a");
    assert_eq!(range_error("-5"), "invalid start block: ");
    assert_eq!(range_error("5-b"), "invalid end block: b");
    assert_eq!(
        range_error("5-18446744073709551616"),
        "invalid end block: 18446744073709551616"
    );
    assert_eq!(range_error("200-100"), "end block (100) must be >= start block (200)");
    assert_eq!(range_error("0-1001"), "range too large: 1001 blocks (max 1000)");
    assert!(matches!(parse_range("7"), Err(RangeError::Format { .. })));
}

#[test]
fn range_edges() {
    assert_eq!(parse_range("0-1000").unwrap().len(), 1001);
    assert_eq!(
        parse_range("18446744073709551614-18446744073709551615").unwrap(),
        vec![u64::MAX - 1, u64::MAX]
    );
    assert_eq!(parse_range("+7-0008").unwrap(), vec![7, 8]);
}

#[test]
fn a_range_goes_before_a_block() {
    match resolve_blocks(Some(5), Some("7-8")).unwrap() {
        BlockChoice::Blocks(blocks) => assert_eq!(blocks, vec![7, 8]),
        other => panic!("{other:?}"),
    }
    match resolve_blocks(Some(5), None).unwrap() {
        BlockChoice::Blocks(blocks) => assert_eq!(blocks, vec![5]),
        other => panic!("{other:?}"),
    }
    assert!(matches!(resolve_blocks(None, None).unwrap(), BlockChoice::Latest));
    assert!(resolve_blocks(Some(5), Some("8-7")).is_err());
}

#[test]
fn compare_fynd_better_is_positive() {
    let d = compare(&solved(10_100, 10_050), &amount(10_000));
    assert!((bps(&d.raw_bps) - 100.0).abs() < 0.01);
    assert!((bps(&d.net_bps) - 50.0).abs() < 0.01);
}

#[test]
fn compare_fynd_worse_is_negative() {
    let d = compare(&solved(9_900, 9_800), &amount(10_000));
    assert!(bps(&d.raw_bps) < 0.0);
    assert!(bps(&d.net_bps) < 0.0);
}

#[test]
fn compare_unsolvable_is_none() {
    let d = compare(&unsolvable("no route"), &amount(10_000));
    assert!(is_none(&d));
}

#[test]
fn compare_zero_settled_is_none() {
    let d = compare(&solved(10_000, 10_000), &Amount::zero());
    assert!(d.raw_bps.is_none());
}

#[test]
fn verdict_win_only_when_net_positive() {
    assert_eq!(verdict(&solved(10_100, 10_050), &amount(10_000)), Verdict::Win);
}

#[test]
fn verdict_loss_when_net_not_better() {
    // Raw is better but net of gas is worse: gas ate the edge.
    assert_eq!(verdict(&solved(10_100, 9_990), &amount(10_000)), Verdict::Loss);
}

#[test]
fn verdict_unsolvable_passthrough() {
    assert_eq!(verdict(&unsolvable("missing token"), &amount(10_000)), Verdict::Unsolvable);
}

#[test]
fn verdict_at_the_edge() {
    assert_eq!(verdict(&solved(10_000, 10_000), &amount(10_000)), Verdict::Loss);
    assert_eq!(verdict(&solved(10_001, 10_001), &amount(10_000)), Verdict::Win);
    // Nothing settled: there is nothing to compare with.
    assert_eq!(verdict(&solved(10_000, 10_000), &Amount::zero()), Verdict::Loss);
}

#[test]
fn a_fill_is_partial_below_the_least_share() {
    assert!(matches!(
        served(solved(5_000, 4_000), &amount(10_000), MIN_FILL_BPS),
        Outcome::Solved(_)
    ));
    match served(solved(4_999, 4_000), &amount(10_000), MIN_FILL_BPS) {
        Outcome::Unsolvable(reason) => assert_eq!(reason, "partial fill"),
        other => panic!("{other:?}"),
    }
}

fn trade(settled: u64) -> DecodedTrade {
    DecodedTrade {
        tx_hash: "0xabc".to_string(),
        block_number: 21_000_000,
        client: "relay".to_string(),
        aggregator: "tycho".to_string(),
        sender: Bytes::zero(20),
        token_in: repeat_byte(0x11),
        token_out: repeat_byte(0x22),
        amount_in: amount(1_000),
        amount_out: amount(settled),
    }
}

#[test]
fn compare_trade_win_carries_identity() {
    let cmp = compare_trade(&trade(10_000), solved(10_200, 10_100), MIN_FILL_BPS);
    assert_eq!(cmp.verdict, Verdict::Win);
    assert_eq!(cmp.client, "relay");
    assert_eq!(cmp.settled_amount_out, amount(10_000));
    assert!(bps(&cmp.deltas.raw_bps) > 0.0);
}

#[test]
fn compare_trade_unsolvable() {
    let cmp = compare_trade(&trade(10_000), unsolvable("no route"), MIN_FILL_BPS);
    assert_eq!(cmp.verdict, Verdict::Unsolvable);
    assert!(is_none(&cmp.deltas));
}

#[test]
fn compare_trade_loss_when_gas_eats_edge() {
    // Raw better but net of gas worse.
    let cmp = compare_trade(&trade(10_000), solved(10_100, 9_980), MIN_FILL_BPS);
    assert_eq!(cmp.verdict, Verdict::Loss);
}

#[test]
fn build_range_headline_is_top() {
    let range =
        build_range(&trade(10_000), solved(10_200, 10_100), solved(10_010, 9_990), MIN_FILL_BPS);
    assert_eq!(range.verdict, Verdict::Win);
    assert!(bps(&range.top.deltas.raw_bps) > bps(&range.back.deltas.raw_bps));
    let (top, back) = (range.top.deltas.raw_bps.unwrap(), range.back.deltas.raw_bps.unwrap());
    assert!(back.is_below(&top) && !top.is_below(&back));
}

#[test]
fn build_range_partial_fill_is_coverage_miss() {
    // Only a tenth of what settled is filled: not covered, and no loss.
    let range =
        build_range(&trade(10_000), solved(1_000, 990), solved(1_000, 990), MIN_FILL_BPS);
    assert_eq!(range.verdict, Verdict::Unsolvable);
    assert!(is_none(&range.top.deltas));
    assert!(matches!(range.top.outcome, Outcome::Unsolvable(_)));
}

#[test]
fn resolve_block_range_pairs_top_and_back() {
    // Better before the block, worse after it.
    let trades = vec![trade(10_000), trade(10_000)];
    let (mut run, mut action) = RangeRun::start(trades, MIN_FILL_BPS);
    let mut advanced = false;
    let mut steps = 0;
    loop {
        steps += 1;
        action = match action {
            RangeAction::Solve(_) if advanced => {
                run.step(RangeEvent::Solved(solved(9_900, 9_800)))
            }
            RangeAction::Solve(_) => run.step(RangeEvent::Solved(solved(10_200, 10_100))),
            RangeAction::Advance => {
                advanced = true;
                run.step(RangeEvent::Advanced)
            }
            RangeAction::Finish => break,
            other => panic!("{other:?}"),
        };
    }
    assert_eq!(steps, 6);
    assert_eq!(run.ranges.len(), 2);
    for range in &run.ranges {
        assert_eq!(range.top.verdict, Verdict::Win);
        assert_eq!(range.back.verdict, Verdict::Loss);
        assert!(bps(&range.top.deltas.raw_bps) > bps(&range.back.deltas.raw_bps));
    }
}

#[test]
fn trades_are_solved_in_order_before_and_after() {
    let trades = vec![trade(10_000), trade(20_000), trade(30_000)];
    let (mut run, mut action) = RangeRun::start(trades, MIN_FILL_BPS);
    let mut course = vec![];
    loop {
        let event = match action {
            RangeAction::Solve(trade) => {
                course.push(Some(trade));
                // Every solve brings an amount of its own.
                let out = 100_000 + course.len() as u64;
                RangeEvent::Solved(solved(out, out))
            }
            RangeAction::Advance => {
                course.push(None);
                RangeEvent::Advanced
            }
            RangeAction::Finish => break,
            other => panic!("{other:?}"),
        };
        action = run.step(event);
    }
    assert_eq!(course, vec![Some(0), Some(1), Some(2), None, Some(0), Some(1), Some(2)]);
    let solved_at = |outcome: &Outcome| match outcome {
        Outcome::Solved(solved) => solved.amount_out.clone(),
        other => panic!("{other:?}"),
    };
    assert_eq!(run.ranges.len(), 3);
    for (i, range) in run.ranges.iter().enumerate() {
        let place = i as u64 + 1;
        assert_eq!(range.settled_amount_out, amount(10_000 * place));
        assert_eq!(solved_at(&range.top.outcome), amount(100_000 + place));
        assert_eq!(solved_at(&range.back.outcome), amount(100_004 + place));
    }
}

#[test]
fn a_solver_that_cannot_be_stepped_ends_a_block() {
    let (mut run, action) = RangeRun::start(vec![], MIN_FILL_BPS);
    assert!(matches!(action, RangeAction::Advance));
    match run.step(RangeEvent::AdvanceFailed("stream ended".to_string())) {
        RangeAction::Fail(text) => assert_eq!(text, "stream ended"),
        other => panic!("{other:?}"),
    }
    assert_eq!(run.stage, RangeStage::Failed);
    assert!(matches!(run.step(RangeEvent::Advanced), RangeAction::Ignore));
}

fn quote(amount_out: Option<&str>, net: Option<&str>, success: bool) -> AggregatorQuote {
    AggregatorQuote {
        success,
        status: if success { "success".to_string() } else { "no_route".to_string() },
        amount_out: amount_out.map(str::to_string),
        amount_out_net_gas: net.map(str::to_string),
        gas_units: Some(120_000),
    }
}

fn expect_solved(outcome: Outcome) -> SolvedAmount {
    match outcome {
        Outcome::Solved(s) => s,
        Outcome::Unsolvable(_) => panic!("expected solved"),
    }
}

#[test]
fn quote_to_outcome_solved() {
    let s = expect_solved(quote_to_outcome(quote(Some("10000"), Some("9900"), true)));
    assert_eq!(s.amount_out, amount(10_000));
    assert_eq!(s.amount_out_net_gas, amount(9_900));
    assert_eq!(s.gas_estimate, amount(120_000));
}

#[test]
fn quote_to_outcome_net_falls_back_to_raw() {
    let s = expect_solved(quote_to_outcome(quote(Some("10000"), None, true)));
    assert_eq!(s.amount_out_net_gas, amount(10_000));
    let s = expect_solved(quote_to_outcome(quote(Some("10000"), Some("no number"), true)));
    assert_eq!(s.amount_out_net_gas, amount(10_000));
}

#[test]
fn quote_to_outcome_unsuccessful_is_unsolvable() {
    assert!(matches!(quote_to_outcome(quote(None, None, false)), Outcome::Unsolvable(_)));
    match quote_to_outcome(quote(Some("10000"), None, false)) {
        Outcome::Unsolvable(reason) => assert_eq!(reason, "no_route"),
        other => panic!("{other:?}"),
    }
}

#[test]
fn quote_to_outcome_missing_amount_is_unsolvable() {
    assert!(matches!(quote_to_outcome(quote(None, None, true)), Outcome::Unsolvable(_)));
    match quote_to_outcome(quote(Some("ten"), None, true)) {
        Outcome::Unsolvable(reason) => assert_eq!(reason, "missing amount_out"),
        other => panic!("{other:?}"),
    }
}

#[test]
fn a_failed_request_is_unsolvable() {
    match failed_request("timed out") {
        Outcome::Unsolvable(reason) => assert_eq!(reason, "request failed: timed out"),
        other => panic!("{other:?}"),
    }
}

#[test]
fn numbers_are_read_in_four_bases() {
    assert_eq!(parse_u256("10000"), Some(amount(10_000)));
    assert_eq!(parse_u256("0xff"), Some(amount(255)));
    assert_eq!(parse_u256("0XfF"), Some(amount(255)));
    assert_eq!(parse_u256("0o17"), Some(amount(15)));
    assert_eq!(parse_u256("0b101"), Some(amount(5)));
    assert_eq!(parse_u256("1_000"), Some(amount(1_000)));
    assert_eq!(parse_u256(""), Some(Amount::zero()));
    assert_eq!(parse_u256("0x"), Some(Amount::zero()));
    assert_eq!(parse_u256("0"), Some(Amount::zero()));
    assert_eq!(parse_u256("12a"), None);
    assert_eq!(parse_u256("-1"), None);
    assert_eq!(parse_u256("+1"), None);
    assert_eq!(parse_u256(" 1"), None);
    assert_eq!(parse_u256("\u{e9}"), None);
    assert_eq!(parse_u256("0\u{e9}1"), None);
    let max = "115792089237316195423570985008687907853269984665640564039457584007913129639935";
    assert_eq!(parse_u256(max).unwrap().to_text(), max);
    let above = "115792089237316195423570985008687907853269984665640564039457584007913129639936";
    assert_eq!(parse_u256(above), None);
}

fn compared(
    verdict: Verdict,
    raw: Option<BpsDelta>,
    net: Option<BpsDelta>,
) -> Comparison {
    Comparison {
        tx_hash: "0xabc".to_string(),
        block_number: 21_000_000,
        client: "relay".to_string(),
        aggregator: "tycho".to_string(),
        token_in: repeat_byte(0x11),
        token_out: repeat_byte(0x22),
        amount_in: Amount::zero(),
        settled_amount_out: Amount::zero(),
        outcome: unsolvable("x"),
        deltas: Deltas { raw_bps: raw, net_bps: net },
        verdict,
    }
}

/// A delta of so many basis points.
fn delta(points: i64) -> Option<BpsDelta> {
    BpsDelta::new(&amount((10_000 + points) as u64), &amount(10_000))
}

#[test]
fn summarize_counts_and_medians() {
    let comparisons = vec![
        compared(Verdict::Win, delta(100), delta(80)),
        compared(Verdict::Win, delta(50), delta(40)),
        compared(Verdict::Loss, delta(-30), delta(-50)),
        compared(Verdict::Unsolvable, None, None),
    ];
    let s = summarize(&comparisons);
    assert_eq!(s.total, 4);
    assert_eq!(s.wins, 2);
    assert_eq!(s.losses, 1);
    assert_eq!(s.unsolvable, 1);
    // Median of [-30, 50, 100] = 50.
    assert_eq!(bps(&s.median_raw_bps), 50.0);
    assert_eq!(bps(&s.median_net_bps), 40.0);
}

#[test]
fn summarize_empty() {
    let s = summarize(&vec![]);
    assert_eq!((s.total, s.wins, s.losses, s.unsolvable), (0, 0, 0, 0));
    assert!(s.median_raw_bps.is_none() && s.median_net_bps.is_none());
}

#[test]
fn the_upper_middle_is_the_median_of_an_even_number() {
    let comparisons = vec![
        compared(Verdict::Win, delta(100), None),
        compared(Verdict::Loss, delta(-10), None),
    ];
    assert_eq!(bps(&summarize(&comparisons).median_raw_bps), 100.0);
}

#[test]
fn outcome_labels() {
    assert_eq!(outcome_label(Verdict::Win), "win");
    assert_eq!(outcome_label(Verdict::Loss), "loss");
    assert_eq!(outcome_label(Verdict::Unsolvable), "unsolvable");
}

#[test]
fn pair_label_is_directional_hex() {
    let label = pair_label(&repeat_byte(0x11), &repeat_byte(0x22));
    assert!(label.starts_with("0x"));
    assert!(label.contains("->"));
    // Direction matters.
    assert_ne!(label, pair_label(&repeat_byte(0x22), &repeat_byte(0x11)));
    assert_eq!(
        pair_label(&repeat_byte(0xab), &addr(1)),
        format!("0x{}->0x{}01", "ab".repeat(20), "00".repeat(19))
    );
}

fn value(ratio: Ratio) -> f64 {
    ratio.part as f64 / ratio.whole as f64
}

#[test]
fn coverage_ratio_math() {
    assert_eq!(value(coverage_ratio(0, 0)), 0.0);
    assert_eq!(value(coverage_ratio(10, 4)), 0.4);
    assert_eq!(value(coverage_ratio(5, 5)), 1.0);
}

#[test]
fn record_emits_labeled_metrics() {
    let r = record(&compared(Verdict::Win, None, delta(42)), "ethereum", false);
    assert_eq!(r.outcome, "win");
    assert_eq!(r.client, "relay");
    assert_eq!(r.aggregator, "tycho");
    assert_eq!(r.chain, "ethereum");
    assert_eq!(r.pair, pair_label(&repeat_byte(0x11), &repeat_byte(0x22)));
    assert_eq!(bps(&r.savings_bps), 42.0);
    assert!(!r.volume && !r.savings && !r.improvement);
}

fn stablecoin_trade(verdict: Verdict, points: i64, out: u64, net: u64) -> Comparison {
    let mut cmp = compared(verdict, None, delta(points));
    cmp.token_out = Bytes::parse("0xa0b86991c6218b36c1d19d4a2e9eb0ce3606eb48").unwrap();
    cmp.settled_amount_out = amount(1_000_000_000);
    cmp.outcome = Outcome::Solved(SolvedAmount {
        amount_out: amount(out),
        amount_out_net_gas: amount(net),
        gas_estimate: amount(120_000),
        quote_json: None,
    });
    cmp
}

#[test]
fn record_emits_usd_for_stablecoin_out() {
    let cmp = stablecoin_trade(Verdict::Win, 10, 1_010_000_000, 1_005_000_000);
    let r = record(&cmp, "ethereum", true);
    assert!(r.savings);
    assert!(r.volume);
    // The output net of gas beats what settled.
    assert!(r.improvement);
}

#[test]
fn record_skips_improvement_when_fynd_worse() {
    let cmp = stablecoin_trade(Verdict::Loss, -10, 995_000_000, 990_000_000);
    let r = record(&cmp, "ethereum", true);
    assert!(r.savings && r.volume);
    // A client would go elsewhere.
    assert!(!r.improvement);
}

#[test]
fn record_skips_savings_when_unsolvable() {
    let r = record(&compared(Verdict::Unsolvable, None, None), "ethereum", true);
    assert_eq!(r.outcome, "unsolvable");
    assert!(r.savings_bps.is_none());
    assert!(!r.savings && !r.improvement);
    // The volume is observed all the same.
    assert!(r.volume);
}

fn price(value: f64) -> Real {
    Real { bits: value.to_bits() }
}

#[test]
fn native_and_wrapped_stand_for_each_other() {
    let mut prices = Table::new();
    prices.insert(wrapped_token(), price(1.5));
    assert_eq!(price_of(&prices, &Bytes::zero(20)), Some(price(1.5)));
    assert_eq!(price_of(&prices, &repeat_byte(0x42)), None);
    let mut prices = Table::new();
    prices.insert(Bytes::zero(20), price(2.0));
    assert_eq!(price_of(&prices, &wrapped_token()), Some(price(2.0)));
    // A price that is none is not replaced by the other's.
    prices.insert(wrapped_token(), price(0.0));
    assert_eq!(price_of(&prices, &wrapped_token()), None);
    assert_eq!(wrapped_token().to_text(), "0xc02aaa39b223fe8d0a0e5c4f27ead9083c756cc2");
}

#[test]
fn a_price_is_above_zero_and_finite() {
    let token = repeat_byte(0x42);
    let lookup = |p: f64| {
        let mut prices = Table::new();
        prices.insert(token.clone(), price(p));
        price_of(&prices, &token).is_some()
    };
    assert!(lookup(2e-9) && lookup(f64::MIN_POSITIVE) && lookup(f64::MAX) && lookup(5e-324));
    assert!(!lookup(0.0) && !lookup(-0.0) && !lookup(-1.0));
    assert!(!lookup(f64::INFINITY) && !lookup(f64::NEG_INFINITY) && !lookup(f64::NAN));
}

fn make_transfer(token: u8, from: u8, to: u8, value: u64) -> Movement {
    Movement { token: addr(token), from: addr(from), to: addr(to), amount: amount(value) }
}

fn known_names() -> Table<Address, String> {
    let mut names = Table::new();
    names.insert(repeat_byte(0xc0), "relay".to_string());
    names
}

fn parts(trade: &MakerTrade) -> (Address, Amount, Address, Amount) {
    (
        trade.token_in.clone(),
        trade.amount_in.clone(),
        trade.token_out.clone(),
        trade.amount_out.clone(),
    )
}

#[test]
fn maker_candidates_finds_swap_sides_excluding_filler() {
    // The maker sells token 10 for token 11; the pool is the counterparty. The filler is excluded.
    let (maker, pool, filler) = (addr(100), addr(101), addr(102));
    let logs = vec![make_transfer(10, 100, 101, 1000), make_transfer(11, 101, 100, 2000)];
    let found = maker_candidates(&logs, &vec![], &vec![filler], &known_names());
    assert_eq!(found.len(), 2);
    assert_eq!(found[0].0, maker);
    assert_eq!(parts(&found[0].1), (addr(10), amount(1000), addr(11), amount(2000)));
    // The pool nets the inverse swap.
    assert_eq!(found[1].0, pool);
    assert_eq!(parts(&found[1].1), (addr(11), amount(2000), addr(10), amount(1000)));
}

#[test]
fn maker_candidates_drops_excluded_and_known() {
    let (maker, pool) = (addr(100), addr(101));
    let logs = vec![make_transfer(10, 100, 101, 1000), make_transfer(11, 101, 100, 2000)];
    // Excluding the maker leaves only the pool.
    let candidates = maker_candidates(&logs, &vec![], &vec![maker], &known_names());
    assert_eq!(candidates.len(), 1);
    assert_eq!(candidates[0].0, pool);
    let mut names = known_names();
    names.insert(addr(101), "pool".to_string());
    assert!(maker_candidates(&logs, &vec![], &vec![addr(100)], &names).is_empty());
}

#[test]
fn native_legs_count_under_the_zero_address() {
    let logs = vec![make_transfer(10, 100, 101, 1000)];
    let native = vec![(addr(101), addr(100), amount(7))];
    let found = maker_candidates(&logs, &native, &vec![], &known_names());
    assert_eq!(parts(&found[0].1), (addr(10), amount(1000), Bytes::zero(20), amount(7)));
}

#[test]
fn only_clean_swaps_are_trades() {
    let logs = vec![
        make_transfer(10, 1, 2, 1000),
        make_transfer(11, 2, 1, 500),
        make_transfer(11, 1, 3, 100),
    ];
    assert_eq!(
        parts(&decode_trade(&logs, &addr(1)).unwrap()),
        (addr(10), amount(1000), addr(11), amount(400))
    );
    // An account that only receives has made no swap.
    assert!(decode_trade(&logs, &addr(3)).is_none());
    let mut logs = logs;
    logs.push(make_transfer(12, 2, 1, 1));
    // More of two tokens.
    assert!(decode_trade(&logs, &addr(1)).is_none());
}

fn receipt(status: bool, to: Option<Address>, emitters: Vec<Address>) -> Receipt {
    Receipt { status, to, emitters }
}

#[test]
fn receipts_are_matched_by_entry_point_or_log() {
    let names = known_names();
    let mut aggregators = Table::new();
    aggregators.insert(repeat_byte(0xa0), "1inch".to_string());
    let settlers = vec![repeat_byte(0xc0)];
    let entry = Some(repeat_byte(0xc0));
    let matched =
        match_receipt(&receipt(true, entry.clone(), vec![]), &names, &aggregators, &vec![])
            .unwrap();
    assert_eq!(matched.entry_point, repeat_byte(0xc0));
    assert!(!matched.intent_fill);
    let matched =
        match_receipt(&receipt(true, entry.clone(), vec![]), &names, &aggregators, &settlers)
            .unwrap();
    assert!(matched.intent_fill);
    // A filler called its own contract.
    let via_log = receipt(true, Some(addr(9)), vec![addr(8), repeat_byte(0xa0)]);
    let matched = match_receipt(&via_log, &names, &aggregators, &settlers).unwrap();
    assert_eq!(matched.entry_point, addr(9));
    assert!(matched.intent_fill);
    let unknown = receipt(true, Some(addr(9)), vec![addr(8)]);
    assert!(match_receipt(&unknown, &names, &aggregators, &settlers).is_none());
    let failed = receipt(false, entry, vec![]);
    assert!(match_receipt(&failed, &names, &aggregators, &settlers).is_none());
    let created = receipt(true, None, vec![repeat_byte(0xa0)]);
    assert!(match_receipt(&created, &names, &aggregators, &settlers).is_none());
}

#[test]
fn the_maker_is_the_first_account_without_code() {
    let logs = vec![make_transfer(10, 100, 101, 1000), make_transfer(11, 101, 100, 2000)];
    let candidates = maker_candidates(&logs, &vec![], &vec![], &known_names());
    let mut contracts = Table::new();
    assert_eq!(find_maker_trade(&candidates, &contracts), MakerSearch::FetchCode(0));
    contracts.insert(addr(100), is_contract(Some(5)));
    assert_eq!(find_maker_trade(&candidates, &contracts), MakerSearch::FetchCode(1));
    contracts.insert(addr(101), is_contract(Some(0)));
    assert_eq!(find_maker_trade(&candidates, &contracts), MakerSearch::Found(1));
    // Where the code cannot be fetched, the account is not taken for a maker.
    contracts.insert(addr(101), is_contract(None));
    assert_eq!(find_maker_trade(&candidates, &contracts), MakerSearch::NotFound);
}
