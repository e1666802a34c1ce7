use fynd_core::amount::Amount;
use fynd_core::bytes::{Address, Bytes};
use fynd_core::error::AlgorithmError;
use fynd_core::split::Split;
use fynd_core::table::Table;
use fynd_core::types::chain::Chain;
use fynd_core::types::options::{
    default_transfer_type, ClientFeeParams, EncodingOptions, QuoteOptions, SolveParams,
    UserTransferType,
};
use fynd_core::types::order::{generate_order_id, Order, OrderSide, OrderValidationError};
use fynd_core::types::quote::{
    BlockInfo, FeeBreakdown, OrderQuote, Quote, QuoteStatus, RouteResult, SignedAmount, SurplusInfo,
    Transaction,
};
use fynd_core::types::route::{
    ProtocolComponent, Route, RouteValidationError, SplitFault, Swap, Token,
};
use std::sync::Arc;

fn amount(n: u64) -> Amount {
    Amount::from_u64(n)
}

fn make_address(byte: u8) -> Address {
    Bytes::new(vec![byte; 20])
}

fn make_order(token_in: u8, token_out: u8, n: u64) -> Order {
    Order::new(
        make_address(token_in),
        make_address(token_out),
        amount(n),
        OrderSide::Sell,
        make_address(0xAA),
    )
}

fn make_swap(token_in: u8, token_out: u8, amount_in: u64, amount_out: u64) -> Swap {
    Swap::new(
        "pool-1".to_string(),
        "uniswap_v2".to_string(),
        make_address(token_in),
        make_address(token_out),
        amount(amount_in),
        amount(amount_out),
        amount(100_000),
        ProtocolComponent {
            id: "test-pool".to_string(),
            protocol_system: "uniswap_v2".to_string(),
            tokens: Arc::new(vec![make_address(token_in), make_address(token_out)]),
        },
    )
}

fn share(x: f64) -> Split {
    Split::from_bits(x.to_bits())
}

fn make_split_swap(token_in: u8, token_out: u8, split: f64) -> Swap {
    make_swap(token_in, token_out, 1000, 990).with_split(share(split))
}

fn make_route(swaps: Vec<(u8, u8)>) -> Route {
    route_of(swaps.into_iter().map(|(a, b)| make_swap(a, b, 1000, 990)).collect())
}

fn route_of(swaps: Vec<Swap>) -> Route {
    Route::new(swaps, Table::new())
}

fn make_quote(amount_out: u64) -> OrderQuote {
    OrderQuote::new(
        "order-1".to_string(),
        QuoteStatus::Success,
        amount(1_000),
        amount(amount_out),
        amount(100_000),
        amount(amount_out),
        BlockInfo::new(1, "0x1".to_string(), 1),
        "test".to_string(),
        make_address(0xAA),
        make_address(0xAA),
        "1".to_string(),
    )
}

#[test]
fn test_order_is_sell() {
    let order = make_order(0x01, 0x02, 1000);
    assert!(order.is_sell());
}

#[test]
fn order_effective_receiver() {
    let order = make_order(0x01, 0x02, 1000);
    assert!(order.effective_receiver() == make_address(0xAA));
    let order = order.with_receiver(make_address(0xBB));
    assert!(order.effective_receiver() == make_address(0xBB));
}

#[test]
fn order_validation() {
    assert!(make_order(0x01, 0x02, 1000).validate().is_ok());
    assert_eq!(make_order(0x01, 0x01, 1000).validate(), Err(OrderValidationError::SameTokens));
    assert_eq!(make_order(0x01, 0x02, 0).validate(), Err(OrderValidationError::ZeroAmount));
    assert_eq!(make_order(0x01, 0x01, 0).validate(), Err(OrderValidationError::SameTokens));
    assert_eq!(
        OrderValidationError::SameTokens.message(),
        "token_in and token_out must be different"
    );
    assert_eq!(OrderValidationError::ZeroAmount.message(), "amount must be non-zero");
}

#[test]
fn test_order_id_auto_generated() {
    let id = generate_order_id();
    assert!(!id.is_empty());
    assert!(id.contains('-')); // UUIDs contain dashes
}

#[test]
fn order_ids_have_the_shape_of_identifiers() {
    let order = make_order(0x01, 0x02, 1000);
    let groups: Vec<usize> = order.id().split('-').map(|g| g.len()).collect();
    assert_eq!(groups, vec![8, 4, 4, 4, 12]);
    for _ in 0..100 {
        let id: Vec<char> = generate_order_id().chars().collect();
        assert_eq!(id[14], '4');
        assert!(['8', '9', 'a', 'b'].contains(&id[19]));
    }
    let named = order.with_id("mine".to_string());
    assert_eq!(named.id(), "mine");
}

#[test]
fn surplus_round_trips_through_getters() {
    let committed = amount(990);
    let eg = amount(15);
    let quote = make_quote(990).with_surplus(SurplusInfo::new(eg.clone(), committed.clone()));

    assert_eq!(quote.eg_amount(), Some(&eg));
    assert_eq!(quote.committed_amount_out(), Some(&committed));
}

#[test]
fn public_quote_has_no_surplus() {
    let quote = make_quote(990);
    assert_eq!(quote.eg_amount(), None);
    assert_eq!(quote.committed_amount_out(), None);
}

#[test]
fn quotes_carry_what_they_are_given() {
    let mut quote = make_quote(990).with_gas_price(amount(7)).with_price_impact_bps(-12);
    assert_eq!(quote.gas_price(), Some(&amount(7)));
    assert_eq!(quote.price_impact_bps(), Some(-12));
    assert_eq!(quote.solved_against(), "1");
    quote.set_status(QuoteStatus::PriceCheckFailed);
    assert_eq!(quote.status(), QuoteStatus::PriceCheckFailed);
    quote.set_gas_estimate(amount(5));
    assert!(*quote.gas_estimate() == amount(5));
    quote.set_amount_out_net_gas(amount(980));
    assert!(*quote.amount_out_net_gas() == amount(980));
    quote.set_transaction(Transaction::new(make_address(3), amount(1), Bytes::new(vec![1, 2])));
    assert_eq!(quote.transaction().unwrap().data(), &vec![1, 2]);
    assert_eq!(quote.transaction().unwrap().client_fee_signature_offset(), None);
    quote.set_fee_breakdown(FeeBreakdown::new(amount(1), amount(2), amount(3), amount(4)));
    assert!(*quote.fee_breakdown().unwrap().max_slippage() == amount(3));
    let total = Quote::new(vec![quote], amount(500_000), 10);
    assert!(*total.total_gas_estimate() == amount(500_000));
    assert_eq!(total.into_orders().len(), 1);
}

#[test]
fn failures_become_statuses() {
    assert_eq!(
        QuoteStatus::from(AlgorithmError::InsufficientLiquidity),
        QuoteStatus::InsufficientLiquidity
    );
    assert_eq!(
        QuoteStatus::from(AlgorithmError::Timeout { elapsed_ms: 5 }),
        QuoteStatus::Timeout
    );
    assert_eq!(
        QuoteStatus::from(AlgorithmError::Other("x".to_string())),
        QuoteStatus::NoRouteFound
    );
}

#[test]
fn negative_net_output_counts_as_zero() {
    let net = SignedAmount { negative: true, magnitude: amount(5) };
    assert!(net.or_zero().is_zero());
    let result = RouteResult::new(
        make_route(vec![(1, 2)]),
        SignedAmount { negative: false, magnitude: amount(5) },
        amount(9),
    );
    assert!(result.net_amount_out().or_zero() == amount(5));
    assert!(*result.gas_price() == amount(9));
    assert_eq!(result.into_route().hop_count(), 1);
}

#[test]
fn options_keep_what_is_set() {
    let options = EncodingOptions::new(10_000);
    assert_eq!(options.slippage(), 10_000);
    assert_eq!(*options.transfer_type(), default_transfer_type());
    assert!(options.client_fee_params().is_none());
    let fee = ClientFeeParams::new(100, make_address(0xBB), amount(500_000), 1_893_456_000, Bytes::new(vec![0xAB; 65]));
    let options = options
        .with_client_fee_params(fee)
        .with_transfer_type(UserTransferType::UseVaultsFunds);
    assert_eq!(options.client_fee_params().unwrap().bps(), 100);
    assert_eq!(*options.transfer_type(), UserTransferType::UseVaultsFunds);
    let request = QuoteOptions::default()
        .with_timeout_ms(7)
        .with_min_responses(2)
        .with_state_label("pending".to_string());
    assert_eq!(request.timeout_ms(), Some(7));
    assert_eq!(request.min_responses(), Some(2));
    assert_eq!(request.state_label(), Some(&"pending".to_string()));
    assert_eq!(SolveParams::default().state_label(), None);
}

#[test]
fn route_hop_count() {
    assert_eq!(make_route(vec![]).hop_count(), 0);
    assert_eq!(make_route(vec![(1, 2)]).hop_count(), 1);
    assert_eq!(make_route(vec![(1, 2), (2, 3)]).hop_count(), 2);
    assert_eq!(make_route(vec![(1, 2), (2, 3), (3, 4)]).hop_count(), 3);
}

#[test]
fn route_boundary_tokens() {
    assert!(make_route(vec![]).input_token().is_none());
    assert!(make_route(vec![]).output_token().is_none());
    assert!(make_route(vec![(1, 2)]).input_token() == Some(make_address(1)));
    assert!(make_route(vec![(1, 2)]).output_token() == Some(make_address(2)));
    assert!(make_route(vec![(1, 2), (2, 3)]).input_token() == Some(make_address(1)));
    assert!(make_route(vec![(1, 2), (2, 3)]).output_token() == Some(make_address(3)));
}

#[test]
fn route_intermediate_tokens() {
    assert!(make_route(vec![]).intermediate_tokens().is_empty());
    assert!(make_route(vec![(1, 2)]).intermediate_tokens().is_empty());
    assert!(make_route(vec![(1, 2), (2, 3)]).intermediate_tokens() == vec![make_address(2)]);
    assert!(
        make_route(vec![(1, 2), (2, 3), (3, 4)]).intermediate_tokens()
            == vec![make_address(2), make_address(3)]
    );
}

#[test]
fn route_total_gas() {
    for n in 0..4u8 {
        let swaps = (0..n).map(|i| (i, i + 1)).collect();
        assert!(make_route(swaps).total_gas() == amount(100_000 * n as u64));
    }
}

#[test]
fn route_validation() {
    assert!(make_route(vec![(1, 2)]).validate().is_ok());
    assert!(make_route(vec![(1, 2), (2, 3)]).validate().is_ok());
    assert!(make_route(vec![(1, 2), (2, 1)]).validate().is_ok());
    assert!(matches!(make_route(vec![]).validate(), Err(RouteValidationError::EmptyRoute)));
    assert!(matches!(
        make_route(vec![(1, 2), (3, 4)]).validate(),
        Err(RouteValidationError::DisconnectedSwaps { .. })
    ));
    assert!(matches!(
        make_route(vec![(1, 2), (2, 3), (3, 2)]).validate(),
        Err(RouteValidationError::UnsupportedCycle { .. })
    ));
    assert!(matches!(
        make_route(vec![(1, 2), (2, 1), (1, 3)]).validate(),
        Err(RouteValidationError::UnsupportedCycle { .. })
    ));
}

#[test]
fn test_validate_interior_split_valid() {
    let route = route_of(vec![
        make_split_swap(0x01, 0x02, 0.0),
        make_split_swap(0x02, 0x03, 0.5),
        make_split_swap(0x02, 0x03, 0.0),
    ]);
    assert!(route.validate().is_ok());
}

#[test]
fn test_validate_interior_split_no_remainder() {
    let route = route_of(vec![
        make_split_swap(0x01, 0x02, 0.0),
        make_split_swap(0x02, 0x03, 0.5),
        make_split_swap(0x02, 0x03, 0.3),
    ]);
    let err = route.validate().unwrap_err();
    assert!(matches!(err, RouteValidationError::InvalidSplit { .. }));
    assert!(matches!(
        err,
        RouteValidationError::InvalidSplit { reason: SplitFault::LastNotZero { .. } }
    ));
}

#[test]
fn test_validate_interior_split_sum_exceeds_one() {
    let route = route_of(vec![
        make_split_swap(0x01, 0x02, 0.0),
        make_split_swap(0x02, 0x03, 0.6),
        make_split_swap(0x02, 0x03, 0.5),
        make_split_swap(0x02, 0x03, 0.0),
    ]);
    let err = route.validate().unwrap_err();
    assert!(matches!(err, RouteValidationError::InvalidSplit { .. }));
    assert!(matches!(
        err,
        RouteValidationError::InvalidSplit { reason: SplitFault::SumNotBelowOne { .. } }
    ));
}

#[test]
fn split_shares_must_lie_between_zero_and_one() {
    for bad in [0.0, -0.5, 1.0, 2.0] {
        let route = route_of(vec![
            make_split_swap(0x01, 0x02, bad),
            make_split_swap(0x01, 0x02, 0.5),
            make_split_swap(0x01, 0x02, 0.0),
        ]);
        assert!(matches!(
            route.validate(),
            Err(RouteValidationError::InvalidSplit {
                reason: SplitFault::OutOfRange { index: 0, .. }
            })
        ));
    }
}

#[test]
fn test_validate_source_split_valid() {
    let route = route_of(vec![
        make_split_swap(0x01, 0x02, 0.5),
        make_split_swap(0x01, 0x03, 0.0),
        make_swap(0x02, 0x04, 490, 480),
        make_swap(0x03, 0x04, 490, 480),
    ]);
    assert!(route.validate().is_ok());
}

#[test]
fn test_validate_split_single_swap_nonzero_split() {
    let route = route_of(vec![make_split_swap(0x01, 0x02, 0.5)]);
    let err = route.validate().unwrap_err();
    assert!(matches!(err, RouteValidationError::InvalidSplit { .. }));
    assert!(matches!(
        err,
        RouteValidationError::InvalidSplit { reason: SplitFault::SingleNotZero { .. } }
    ));
}

#[test]
fn test_validate_split_unreachable_branch_collection() {
    let route = route_of(vec![
        make_split_swap(0x01, 0x02, 0.5), // A→B
        make_split_swap(0x01, 0x02, 0.0), // A→B (remainder)
        make_swap(0x03, 0x04, 490, 480),  // C→D (unreachable)
    ]);
    let err = route.validate().unwrap_err();
    assert!(matches!(err, RouteValidationError::DisconnectedSplitStart { .. }));
}

#[test]
fn test_validate_split_dead_end() {
    let route = route_of(vec![
        make_split_swap(0x01, 0x02, 0.5), // A→B
        make_split_swap(0x01, 0x03, 0.0), // A→C
        make_swap(0x02, 0x04, 490, 480),  // B→D (dead end)
        make_swap(0x03, 0x05, 490, 480),  // C→E (terminal)
    ]);
    let err = route.validate().unwrap_err();
    assert!(matches!(err, RouteValidationError::DisconnectedSplitEnd { .. }));
}

#[test]
fn test_validate_split_cycle() {
    let route = route_of(vec![
        make_swap(0x01, 0x02, 1000, 990),                       // A→B
        make_swap(0x02, 0x03, 990, 980).with_split(share(0.5)), // B→C
        make_swap(0x02, 0x04, 490, 480).with_split(share(0.0)), // B→D remainder
        make_swap(0x03, 0x02, 980, 970),                        // C→B (cycle)
        make_swap(0x04, 0x02, 480, 470),                        // D→B (cycle)
    ]);
    let err = route.validate().unwrap_err();
    assert!(matches!(err, RouteValidationError::UnsupportedCycle { .. }));
}

#[test]
fn test_validate_split_round_trip_valid() {
    let route = route_of(vec![
        make_split_swap(0x01, 0x02, 0.5), // A→B
        make_split_swap(0x01, 0x03, 0.0), // A→C
        make_swap(0x02, 0x04, 490, 480),  // B→D
        make_swap(0x03, 0x04, 490, 480),  // C→D
        make_swap(0x04, 0x01, 960, 950),  // D→A (round-trip)
    ]);
    assert!(route.validate().is_ok());
}

#[test]
fn test_validate_split_round_trip_valid_from_multiple_branch_collections() {
    let route = route_of(vec![
        make_swap(0x01, 0x02, 960, 950),  // A→B
        make_split_swap(0x02, 0x03, 0.4), // B→C
        make_split_swap(0x02, 0x04, 0.0), // B→D
        make_swap(0x03, 0x01, 960, 950),  // C→A (round-trip)
        make_swap(0x04, 0x01, 960, 950),  // D→A (round-trip)
    ]);
    assert!(route.validate().is_ok());
}

#[test]
fn test_validate_split_single_branch_collection_round_trip() {
    let route = route_of(vec![
        make_split_swap(0x01, 0x01, 0.5), // A→A
        make_split_swap(0x01, 0x01, 0.0), // A→A (remainder)
    ]);
    let err = route.validate().unwrap_err();
    assert!(matches!(err, RouteValidationError::UnsupportedCycle { .. }));
}

#[test]
fn test_validate_split_topology_with_all_zero_splits() {
    let route = route_of(vec![
        make_split_swap(0x01, 0x02, 0.0), // A→B
        make_split_swap(0x01, 0x03, 0.0), // A→C
        make_swap(0x02, 0x04, 490, 480),  // B→D
        make_swap(0x03, 0x04, 490, 480),  // C→D
    ]);
    assert!(matches!(route.validate(), Err(RouteValidationError::DisconnectedSwaps { .. })));
}

#[test]
fn test_is_split_detection() {
    // A → B                     (no split)
    let route_single = make_route(vec![(0x01, 0x02)]);
    assert!(!route_single.is_split());

    // A → B → C                 (no split)
    let route_multi = make_route(vec![(0x01, 0x02), (0x02, 0x03)]);
    assert!(!route_multi.is_split());

    let route_interior = route_of(vec![
        make_swap(0x01, 0x02, 1000, 990),                       // A→B, no split
        make_swap(0x02, 0x03, 594, 580).with_split(share(0.6)), // B→C via P2, 60%
        make_swap(0x02, 0x03, 396, 385),                        // B→C via P3, remainder
    ]);
    assert!(route_interior.is_split());

    let route_source = route_of(vec![
        make_swap(0x01, 0x02, 600, 590).with_split(share(0.6)), // A→B, 60%
        make_swap(0x02, 0x03, 590, 580),                        // B→C
        make_swap(0x01, 0x04, 400, 390),                        // A→D, remainder
        make_swap(0x04, 0x03, 390, 380),                        // D→C
    ]);
    assert!(route_source.is_split());
}

#[test]
fn path_description() {
    let named = |pairs: Vec<(u8, &str)>| {
        let mut tokens = Table::new();
        for (byte, symbol) in pairs {
            let token =
                Token { address: make_address(byte), symbol: symbol.to_string(), decimals: 18 };
            tokens.insert(make_address(byte), token);
        }
        tokens
    };
    assert_eq!(make_route(vec![]).path_description(&named(vec![])), "");
    assert_eq!(
        make_route(vec![(1, 2)]).path_description(&named(vec![(1, "WETH"), (2, "USDC")])),
        "WETH -> USDC"
    );
    assert_eq!(
        make_route(vec![(1, 2), (2, 3)])
            .path_description(&named(vec![(1, "WETH"), (2, "USDC"), (3, "DAI")])),
        "WETH -> USDC -> DAI"
    );
    assert_eq!(
        make_route(vec![(1, 2), (2, 1)])
            .path_description(&named(vec![(1, "WETH"), (2, "USDC")])),
        "WETH -> USDC -> WETH"
    );
    assert_eq!(
        make_route(vec![(1, 2)]).path_description(&named(vec![])),
        "Bytes(0x0101010101010101010101010101010101010101) -> Bytes(0x0202020202020202020202020202020202020202)"
    );
}

#[test]
fn a_route_gives_its_swaps_back() {
    let committed = make_swap(0x02, 0x03, 990, 980).with_committed_amount_out(amount(975));
    let route = route_of(vec![make_swap(0x01, 0x02, 1000, 990), committed]);
    let swaps = route.into_swaps();
    assert_eq!(swaps.len(), 2);
    assert_eq!(swaps[0].committed_amount_out(), None);
    assert_eq!(swaps[1].committed_amount_out(), Some(&amount(975)));
    assert_eq!(swaps[1].token_out(), &make_address(0x03));
}

#[test]
fn route_errors_are_told_in_words() {
    let text = |byte: u8| make_address(byte).to_text();
    let error = make_route(vec![]).validate().unwrap_err();
    assert_eq!(error.message(""), "route must contain at least one swap");
    let error = make_route(vec![(1, 2), (3, 4)]).validate().unwrap_err();
    assert_eq!(
        error.message(""),
        format!("swaps are not connected: {} != {}", text(2), text(3))
    );
    let error = make_route(vec![(1, 2), (2, 3), (3, 2)]).validate().unwrap_err();
    assert_eq!(
        error.message(""),
        format!(
            "unsupported cycle: token {} appears more than once in route {} -> ... -> {} \
             (only first == last cycles are supported)",
            text(2),
            text(1),
            text(2)
        )
    );
    let single = route_of(vec![make_split_swap(1, 2, 0.5)]).validate().unwrap_err();
    assert_eq!(
        single.message(&0.5f64.to_string()),
        format!(
            "invalid split route: single swap for token_in {} must have split == 0.0, got 0.5",
            text(1)
        )
    );
    let range = route_of(vec![make_split_swap(1, 2, 1.5), make_split_swap(1, 2, 0.0)]);
    assert_eq!(
        range.validate().unwrap_err().message("1.5"),
        format!(
            "invalid split route: swap 0 for token_in {} must have 0.0 < split < 1.0, got 1.5",
            text(1)
        )
    );
    let last = route_of(vec![make_split_swap(1, 2, 0.5), make_split_swap(1, 2, 0.5)]);
    assert_eq!(
        last.validate().unwrap_err().message("0.5"),
        format!(
            "invalid split route: last branch in collection for token_in {} must have \
             split == 0.0 (remainder), got 0.5",
            text(1)
        )
    );
    let sum = route_of(vec![
        make_split_swap(1, 2, 0.5),
        make_split_swap(1, 2, 0.5),
        make_split_swap(1, 2, 0.0),
    ]);
    assert_eq!(
        sum.validate().unwrap_err().message("1"),
        format!("invalid split route: split sum for token_in {} must be < 1.0, got 1", text(1))
    );
    let end = route_of(vec![
        make_split_swap(1, 2, 0.5),
        make_split_swap(1, 3, 0.0),
        make_split_swap(3, 4, 0.0),
    ]);
    assert_eq!(
        end.validate().unwrap_err().message(""),
        format!(
            "disconnected split end: {} is not consumed by any later step in the route and is \
             not the terminal token {}",
            text(2),
            text(4)
        )
    );
    let start = route_of(vec![
        make_split_swap(1, 2, 0.5),
        make_split_swap(1, 2, 0.0),
        make_split_swap(5, 2, 0.0),
    ]);
    assert_eq!(
        start.validate().unwrap_err().message(""),
        format!(
            "disconnected split start: input {} is not reachable from start token {}",
            text(5),
            text(1)
        )
    );
}

#[test]
fn the_native_token_is_the_zero_address() {
    for chain in [Chain::Ethereum, Chain::Base, Chain::Bsc, Chain::Polygon, Chain::Starknet] {
        assert_eq!(chain.native_token(), Bytes::zero(20));
    }
}
