use alloy::primitives::{aliases::U48, keccak256, Address as EvmAddress, U160, U256};
use alloy::sol_types::SolValue;
use fynd_core::amount::Amount;
use fynd_core::bytes::{Address, Bytes};
use fynd_core::encoding::encoder::{
    assemble_input, check_call, check_plan, encode_input, encode_tycho_router_call, plan_encoding,
    select_function, EncodedSolution, Encoder, RouterFunction,
};
use fynd_core::encoding::fees::{calculate_fee_breakdown, FeeRates, RouterFees};
use fynd_core::encoding::solution::Solution;
use fynd_core::error::{EncodingError, SolveError};
use fynd_core::table::Table;
use fynd_core::types::chain::Chain;
use fynd_core::types::options::{
    ClientFeeParams, EncodingOptions, PermitDetails, PermitSingle, UserTransferType,
};
use fynd_core::types::quote::{BlockInfo, OrderQuote, QuoteStatus};
use fynd_core::types::route::{ProtocolComponent, Route, Swap, Token};
use std::sync::Arc;

const FEE_SCALE: u64 = 100_000_000;
const SINGLE_SWAP: &str = "singleSwap(uint256,address,address,uint256,address,(uint16,address,uint256,uint256,bytes),bytes)";
const SPLIT_SWAP: &str = "splitSwap(uint256,address,address,uint256,uint256,address,(uint16,address,uint256,uint256,bytes),bytes)";

fn amount(n: u64) -> Amount {
    Amount::from_u64(n)
}

fn make_address(byte: u8) -> Address {
    Bytes::new(vec![byte; 20])
}

fn make_token(address: Address) -> Token {
    Token { address, symbol: "T".to_string(), decimals: 18 }
}

fn make_route_swap(token_in: &Address, token_out: &Address) -> Swap {
    let pool = "0xB4e16d0168e52d35CaCD2c6185b44281Ec28C9Dc";
    Swap::new(
        pool.to_string(),
        "uniswap_v2".to_string(),
        token_in.clone(),
        token_out.clone(),
        amount(1000),
        amount(990),
        amount(50_000),
        ProtocolComponent {
            id: pool.to_string(),
            protocol_system: "uniswap_v2".to_string(),
            tokens: Arc::new(vec![token_in.clone(), token_out.clone()]),
        },
    )
}

fn make_route_with_tokens(pairs: &[(Address, Address)]) -> Route {
    let mut tokens = Table::new();
    let mut swaps = Vec::new();
    for (token_in, token_out) in pairs {
        tokens.insert(token_in.clone(), make_token(token_in.clone()));
        tokens.insert(token_out.clone(), make_token(token_out.clone()));
        swaps.push(make_route_swap(token_in, token_out));
    }
    Route::new(swaps, tokens)
}

fn make_order_quote_with(status: QuoteStatus, amount_out: u64) -> OrderQuote {
    OrderQuote::new(
        "test-order".to_string(),
        status,
        amount(1000),
        amount(amount_out),
        amount(100_000),
        amount(amount_out),
        BlockInfo::new(1, "0x123".to_string(), 1000),
        "test".to_string(),
        make_address(0xAA),
        make_address(0xAA),
        "1".to_string(),
    )
}

fn make_order_quote(amount_out: u64) -> OrderQuote {
    make_order_quote_with(QuoteStatus::Success, amount_out)
}

fn quote_with_route(amount_out: u64) -> OrderQuote {
    make_order_quote(amount_out)
        .with_route(make_route_with_tokens(&[(make_address(0x01), make_address(0x02))]))
}

fn router_fees() -> RouterFees {
    RouterFees::new(FEE_SCALE, 100_000, 20_000_000, Table::new())
}

fn encoded(signature: &str) -> EncodedSolution {
    EncodedSolution {
        swaps: vec![1, 2, 3],
        interacting_with: make_address(0x77),
        function_signature: signature.to_string(),
        n_tokens: 3,
        estimated_gas: amount(123_456),
        client_fee_signature_offset: 420,
    }
}

fn make_client_fee(bps: u16) -> ClientFeeParams {
    ClientFeeParams::new(bps, make_address(0xBB), amount(0), 1_893_456_000, Bytes::new(vec![]))
}

fn encoder(fees: &RouterFees) -> Encoder {
    let mut custom = Table::new();
    for (client, own) in &fees.custom.entries {
        custom.insert(client.clone(), *own);
    }
    let fees = RouterFees::new(fees.max_fee_units, fees.on_output, fees.on_client_fee, custom);
    Encoder::new(Chain::Ethereum, Ok(make_address(0x77)), fees).unwrap()
}

fn encode(
    quotes: Vec<OrderQuote>,
    options: &EncodingOptions,
    fees: &RouterFees,
    signature: &str,
) -> Result<Vec<OrderQuote>, SolveError> {
    let plan = plan_encoding(&quotes, options)?;
    let encoded_solutions: Vec<_> = plan.iter().map(|_| encoded(signature)).collect();
    assert!(check_plan(&plan, &encoded_solutions, options, fees));
    encoder(fees).encode(quotes, &plan, &encoded_solutions, options)
}

fn evm(byte: u8) -> EvmAddress {
    EvmAddress::from([byte; 20])
}

#[test]
fn test_encoder_new_fails_on_unsupported_chain() {
    let missing = Err("no router address for chain".to_string());
    let result = Encoder::new(Chain::Starknet, missing, router_fees());
    assert!(matches!(
        result,
        Err(SolveError::FailedEncoding(text)) if text == "no router address for chain"
    ));
    let made = encoder(&router_fees());
    assert_eq!(*made.router_address(), make_address(0x77));
    assert_eq!(made.router_fees().on_output, 100_000);
}

#[test]
fn test_try_from_without_route_errors() {
    let quote = make_order_quote(990);
    let result = Solution::try_from(&quote);
    assert!(result.is_err());
    assert!(matches!(
        result,
        Err(SolveError::FailedEncoding(text)) if text == "successful quote must have a route"
    ));
}

#[test]
fn test_try_from_non_success_errors() {
    let quote = make_order_quote_with(QuoteStatus::NoRouteFound, 990);
    let result = Solution::try_from(&quote);
    assert!(result.is_err());
    assert!(matches!(
        result,
        Err(SolveError::FailedEncoding(text))
            if text == "cannot convert quote with status NoRouteFound to Solution"
    ));
}

#[test]
fn test_try_from_maps_tokens_and_amounts() {
    let quote = quote_with_route(990);
    let solution = Solution::try_from(&quote).unwrap();
    assert_eq!(solution.token_in, make_address(0x01));
    assert_eq!(solution.token_out, make_address(0x02));
    assert_eq!(solution.amount_in, *quote.amount_in());
    assert_eq!(solution.min_amount_out, *quote.amount_out());
    assert_eq!(solution.swaps.len(), 1);
    assert_eq!(solution.swaps[0].estimated_gas, amount(50_000));
    assert_eq!(solution.swaps[0].estimated_amount_in, amount(1000));
    assert_eq!(solution.user_transfer_type, UserTransferType::TransferFrom);
}

#[test]
fn test_try_from_multi_hop_uses_boundary_swap_tokens() {
    let quote = make_order_quote(990).with_route(make_route_with_tokens(&[
        (make_address(0x01), make_address(0x02)),
        (make_address(0x02), make_address(0x03)),
    ]));
    let solution = Solution::try_from(&quote).unwrap();
    assert_eq!(solution.token_in, make_address(0x01));
    assert_eq!(solution.token_out, make_address(0x03));
    assert_eq!(solution.swaps.len(), 2);
}

#[test]
fn try_from_names_a_token_that_is_missing() {
    let route = Route::new(
        vec![make_route_swap(&make_address(0x01), &make_address(0x02))],
        Table::new(),
    );
    let result = Solution::try_from(&make_order_quote(990).with_route(route));
    match result {
        Err(SolveError::FailedEncoding(text)) => assert_eq!(
            text,
            "token Bytes(0x0101010101010101010101010101010101010101) not found in route's token map; algorithm must populate Route::with_tokens for every swap token"
        ),
        other => panic!("{other:?}"),
    }
    let empty = Route::new(vec![], Table::new());
    assert!(matches!(
        Solution::try_from(&make_order_quote(990).with_route(empty)),
        Err(SolveError::FailedEncoding(text)) if text == "route has no input token"
    ));
}

#[test]
fn test_encode_skips_non_successful_solutions() {
    let quote = make_order_quote_with(QuoteStatus::NoRouteFound, 990);
    let result =
        encode(vec![quote], &EncodingOptions::new(10_000), &router_fees(), SINGLE_SWAP).unwrap();
    assert!(result[0].transaction().is_none());
}

#[test]
fn test_encode_sets_transaction_on_successful_solution() {
    let quotes = vec![make_order_quote_with(QuoteStatus::Timeout, 1), quote_with_route(990)];
    let result =
        encode(quotes, &EncodingOptions::new(10_000), &router_fees(), SINGLE_SWAP).unwrap();
    assert!(result[0].transaction().is_none());
    assert!(result[1].transaction().is_some());
    let tx = result[1].transaction().unwrap();
    assert!(tx.data().len() > 4);
    assert_eq!(*tx.to(), make_address(0x77));
    assert_eq!(*result[1].gas_estimate(), amount(123_456));
}

#[test]
fn calldata_is_the_selector_and_the_arguments() {
    let fees = RouterFees::new(FEE_SCALE, 0, 0, Table::new());
    let result =
        encode(vec![quote_with_route(990)], &EncodingOptions::new(0), &fees, SINGLE_SWAP).unwrap();
    let mut expected = keccak256(SINGLE_SWAP.as_bytes())[..4].to_vec();
    let args = (
        U256::from(1000),
        evm(0x01),
        evm(0x02),
        U256::from(990),
        evm(0xAA),
        (0u16, EvmAddress::ZERO, U256::ZERO, U256::MAX, Vec::<u8>::new()),
        vec![1u8, 2, 3],
    );
    expected.extend(args.abi_encode_params());
    assert_eq!(*result[0].transaction().unwrap().data(), expected);
}

#[test]
fn split_calldata_carries_the_number_of_tokens() {
    let fees = RouterFees::new(FEE_SCALE, 0, 0, Table::new());
    let options = EncodingOptions::new(0).with_client_fee_params(ClientFeeParams::new(
        0,
        make_address(0xBB),
        amount(77),
        1_893_456_000,
        Bytes::new(vec![0xAB; 3]),
    ));
    let result = encode(vec![quote_with_route(990)], &options, &fees, SPLIT_SWAP).unwrap();
    let mut signature = vec![0xABu8; 3];
    signature.resize(65, 0);
    let mut expected = keccak256(SPLIT_SWAP.as_bytes())[..4].to_vec();
    let args = (
        U256::from(1000),
        evm(0x01),
        evm(0x02),
        U256::from(990),
        U256::from(3),
        evm(0xAA),
        (0u16, evm(0xBB), U256::from(77), U256::from(1_893_456_000u64), signature),
        vec![1u8, 2, 3],
    );
    expected.extend(args.abi_encode_params());
    assert_eq!(*result[0].transaction().unwrap().data(), expected);
}

fn permit_options() -> EncodingOptions {
    let details = PermitDetails::new(make_address(0x01), amount(1000), amount(5), amount(6));
    EncodingOptions::new(0)
        .with_transfer_type(UserTransferType::TransferFromPermit2)
        .with_permit(PermitSingle::new(details, make_address(0x55), amount(7)))
        .with_signature(Bytes::new(vec![0xCD; 65]))
}

#[test]
fn permit_calldata_carries_the_permit() {
    let fees = RouterFees::new(FEE_SCALE, 0, 0, Table::new());
    let permit = (
        (evm(0x01), U160::from(1000), U48::from(5), U48::from(6)),
        evm(0x55),
        U256::from(7),
    );
    let client = (0u16, EvmAddress::ZERO, U256::ZERO, U256::MAX, Vec::<u8>::new());
    let result =
        encode(vec![quote_with_route(990)], &permit_options(), &fees, "singleSwapPermit2()")
            .unwrap();
    let mut expected = keccak256("singleSwapPermit2()".as_bytes())[..4].to_vec();
    expected.extend(
        (
            U256::from(1000),
            evm(0x01),
            evm(0x02),
            U256::from(990),
            evm(0xAA),
            client.clone(),
            permit,
            vec![0xCDu8; 65],
            vec![1u8, 2, 3],
        )
            .abi_encode_params(),
    );
    assert_eq!(*result[0].transaction().unwrap().data(), expected);

    let result =
        encode(vec![quote_with_route(990)], &permit_options(), &fees, "splitSwapPermit2()")
            .unwrap();
    let mut expected = keccak256("splitSwapPermit2()".as_bytes())[..4].to_vec();
    expected.extend(
        (
            U256::from(1000),
            evm(0x01),
            evm(0x02),
            U256::from(990),
            U256::from(3),
            evm(0xAA),
            client,
            permit,
            vec![0xCDu8; 65],
            vec![1u8, 2, 3],
        )
            .abi_encode_params(),
    );
    assert_eq!(*result[0].transaction().unwrap().data(), expected);
}

#[test]
fn native_input_is_paid_with_the_call() {
    let fees = RouterFees::new(FEE_SCALE, 0, 0, Table::new());
    let quote = make_order_quote(990)
        .with_route(make_route_with_tokens(&[(Bytes::zero(20), make_address(0x02))]));
    let result = encode(vec![quote], &EncodingOptions::new(0), &fees, SINGLE_SWAP).unwrap();
    let tx = result[0].transaction().unwrap();
    assert_eq!(*tx.value(), amount(1000));
    assert_eq!(tx.data()[4 + 32 + 12..4 + 64], [0xEE; 20]);
    let result =
        encode(vec![quote_with_route(990)], &EncodingOptions::new(0), &fees, SINGLE_SWAP).unwrap();
    assert_eq!(*result[0].transaction().unwrap().value(), Amount::zero());
}

#[test]
fn test_encode_with_client_fee_params() {
    let fee = ClientFeeParams::new(
        100,
        make_address(0xBB),
        amount(0),
        1_893_456_000,
        Bytes::new(vec![0xAB; 65]),
    );
    let options = EncodingOptions::new(10_000).with_client_fee_params(fee);
    let result =
        encode(vec![quote_with_route(990)], &options, &router_fees(), SINGLE_SWAP).unwrap();
    let with_fee = result[0].transaction().unwrap();
    assert!(with_fee.data().len() > 4);
    let hash = result[0].fee_breakdown().unwrap().swaps_hash().unwrap();
    assert_eq!(*hash, keccak256([1u8, 2, 3]).0);
    let plain =
        encode(vec![quote_with_route(990)], &EncodingOptions::new(10_000), &router_fees(), SINGLE_SWAP)
            .unwrap();
    // Calldata with fee params should be longer than without
    assert!(with_fee.data().len() > plain[0].transaction().unwrap().data().len());
    assert_eq!(plain[0].fee_breakdown().unwrap().swaps_hash(), None);
}

#[test]
fn test_encode_without_client_fee_produces_transaction() {
    let result =
        encode(vec![quote_with_route(990)], &EncodingOptions::new(10_000), &router_fees(), SINGLE_SWAP)
            .unwrap();
    assert!(result[0].transaction().is_some());
}

#[test]
fn test_encode_with_client_fee_returns_signature_offset() {
    let options = EncodingOptions::new(10_000).with_client_fee_params(make_client_fee(100));
    let result =
        encode(vec![quote_with_route(990)], &options, &router_fees(), SINGLE_SWAP).unwrap();
    let tx = result[0].transaction().unwrap();
    assert_eq!(tx.client_fee_signature_offset(), Some(420));
}

#[test]
fn test_encode_without_client_fee_has_no_signature_offset() {
    let result =
        encode(vec![quote_with_route(990)], &EncodingOptions::new(10_000), &router_fees(), SINGLE_SWAP)
            .unwrap();
    assert!(result[0].transaction().unwrap().client_fee_signature_offset().is_none());
}

#[test]
fn test_signature_offset_allows_patching() {
    let real_sig = vec![0xFF; 65];
    let options = EncodingOptions::new(10_000).with_client_fee_params(make_client_fee(100));
    let result =
        encode(vec![quote_with_route(990)], &options, &router_fees(), SINGLE_SWAP).unwrap();
    let tx = result[0].transaction().unwrap();
    let offset = tx.client_fee_signature_offset().unwrap();
    let mut calldata = tx.data().to_vec();
    calldata[offset..offset + 65].copy_from_slice(&real_sig);
    assert_eq!(&calldata[offset..offset + 65], &real_sig[..]);
}

#[test]
fn test_calculate_fee_breakdown() {
    // 10 bps router fee on output, 20% router share of the client fee, 1% client fee.
    let rates = FeeRates::new(100_000, 20_000_000, FEE_SCALE);
    let breakdown = calculate_fee_breakdown(&amount(1_000_000), 100, 0, rates).unwrap();
    // total client fee = 1% of 1_000_000 = 10_000; router takes 20% of it = 2_000.
    // router fee on output = 0.1% of 1_000_000 = 1_000.
    assert_eq!(*breakdown.client_fee(), amount(8_000));
    assert_eq!(*breakdown.router_fee(), amount(3_000));
    assert_eq!(*breakdown.min_amount_received(), amount(989_000));
}

#[test]
fn test_calculate_fee_breakdown_zero_fees() {
    let rates = FeeRates::new(0, 0, FEE_SCALE);
    let breakdown = calculate_fee_breakdown(&amount(1_000_000), 0, 0, rates).unwrap();
    assert_eq!(*breakdown.client_fee(), Amount::zero());
    assert_eq!(*breakdown.router_fee(), Amount::zero());
    assert_eq!(*breakdown.min_amount_received(), amount(1_000_000));
}

#[test]
fn test_calculate_fee_breakdown_fee_too_high() {
    // 100% client fee plus any router fee on output exceeds the maximum.
    let rates = FeeRates::new(1, 0, FEE_SCALE);
    let result = calculate_fee_breakdown(&amount(1_000_000), 10_000, 0, rates);
    assert!(result.is_err());
    assert_eq!(
        result.unwrap_err().message(),
        "Fatal error: client fee (10000 bps) plus router fee on output (1 fee units) exceed the 100000000 fee-unit cap (100%); the router would revert"
    );
    let rates = FeeRates::new(0, 100_000_001, FEE_SCALE);
    assert!(matches!(
        calculate_fee_breakdown(&amount(1), 0, 0, rates),
        Err(EncodingError::ClientShareTooHigh { .. })
    ));
}

#[test]
fn a_cap_of_nothing_is_exceeded_by_any_fee() {
    let rates = FeeRates::new(1, 0, 0);
    assert!(rates.is_usable());
    let message = calculate_fee_breakdown(&amount(1_000_000), 0, 0, rates).unwrap_err().message();
    assert!(message.contains("router fee on output (1 fee units) exceed the 0 fee-unit cap"));
    let rates = FeeRates::new(0, 1, 0);
    assert!(rates.is_usable());
    assert!(matches!(
        calculate_fee_breakdown(&amount(1_000_000), 0, 0, rates),
        Err(EncodingError::ClientShareTooHigh { .. })
    ));
    assert!(!FeeRates::new(0, 0, 0).is_usable());
}

#[test]
fn a_cap_of_nothing_fails_only_what_is_encoded() {
    let fees = RouterFees::new(0, 100_000, 0, Table::new());
    let options = EncodingOptions::new(0);
    let unsolved = vec![make_order_quote_with(QuoteStatus::NoRouteFound, 990)];
    let result = encode(unsolved, &options, &fees, SINGLE_SWAP).unwrap();
    assert!(result[0].transaction().is_none());
    assert!(matches!(
        encode(vec![quote_with_route(990)], &options, &fees, SINGLE_SWAP),
        Err(SolveError::FailedEncoding(text)) if text.contains("exceed the 0 fee-unit cap")
    ));
    let nothing = RouterFees::new(0, 0, 0, Table::new());
    let solution = Solution::try_from(&quote_with_route(990)).unwrap();
    assert!(check_call(&solution, &options, &fees));
    assert!(!check_call(&solution, &options, &nothing));
}

#[test]
fn slippage_takes_its_share_of_what_is_left() {
    let rates = FeeRates::new(100_000, 20_000_000, FEE_SCALE);
    let breakdown = calculate_fee_breakdown(&amount(1_000_000), 100, 5_000, rates).unwrap();
    // 0.5% of 989_000
    assert_eq!(*breakdown.max_slippage(), amount(4_945));
    assert_eq!(*breakdown.min_amount_received(), amount(984_055));
}

#[test]
fn test_encode_uses_custom_fees_for_client_fee_receiver() {
    // Default 1% router fee on output; receiver 0xBB pays no router fees at all.
    let mut custom = Table::new();
    custom.insert(make_address(0xBB), (0u32, 0u32));
    let fees = RouterFees::new(FEE_SCALE, 1_000_000, 20_000_000, custom);
    let options = EncodingOptions::new(0).with_client_fee_params(make_client_fee(100));
    let result =
        encode(vec![quote_with_route(1_000_000_000)], &options, &fees, SINGLE_SWAP).unwrap();
    let breakdown = result[0].fee_breakdown().unwrap();
    assert_eq!(*breakdown.router_fee(), Amount::zero());
    // Client keeps the full 1% fee since the router's share is overridden to zero.
    assert_eq!(*breakdown.client_fee(), amount(10_000_000));
}

#[test]
fn test_encode_falls_back_to_sender() {
    // The order sender (0xAA) has a custom zero router fee on output; client-fee share
    // inherits the 20% default.
    let mut custom = Table::new();
    custom.insert(make_address(0xAA), (0u32, 20_000_000u32));
    let fees = RouterFees::new(FEE_SCALE, 1_000_000, 20_000_000, custom);
    let result =
        encode(vec![quote_with_route(1_000_000_000)], &EncodingOptions::new(0), &fees, SINGLE_SWAP)
            .unwrap();
    assert_eq!(*result[0].fee_breakdown().unwrap().router_fee(), Amount::zero());
}

#[test]
fn test_encode_unknown_client() {
    let fees = RouterFees::new(FEE_SCALE, 1_000_000, 20_000_000, Table::new());
    let result =
        encode(vec![quote_with_route(1_000_000_000)], &EncodingOptions::new(0), &fees, SINGLE_SWAP)
            .unwrap();
    // 1% of 1_000_000_000.
    assert_eq!(*result[0].fee_breakdown().unwrap().router_fee(), amount(10_000_000));
}

#[test]
fn functions_are_selected_by_signature() {
    let select = |s: &str, permit: bool| select_function(&s.to_string(), permit);
    assert!(matches!(select("singleSwap(..)", false), Ok(RouterFunction::Swap)));
    assert!(matches!(select("sequentialSwap(..)", false), Ok(RouterFunction::Swap)));
    assert!(matches!(select("splitSwap(..)", false), Ok(RouterFunction::SplitSwap)));
    assert!(matches!(select("singleSwapPermit2(..)", true), Ok(RouterFunction::PermitSwap)));
    assert!(matches!(select("splitSwapPermit2(..)", true), Ok(RouterFunction::PermitSplitSwap)));
    assert!(matches!(select("singleSwapPermit2(..)", false), Err(EncodingError::MissingPermit)));
    let unknown = select("burn()", false).unwrap_err();
    assert_eq!(
        unknown.message(),
        "Fatal error: unsupported function signature for Tycho router: burn()"
    );
}

#[test]
fn encoding_errors_are_told_apart() {
    let quote = quote_with_route(990);
    let fees = router_fees();
    let solution = Solution::try_from(&quote).unwrap();
    let encode_one = |solution: &Solution, options: &EncodingOptions, signature: &str| {
        encode_tycho_router_call(Chain::Ethereum, &encoded(signature), solution, options, &fees)
    };
    let options = EncodingOptions::new(0);
    let short = Solution { receiver: Bytes::new(vec![1, 2]), ..solution };
    assert!(matches!(
        encode_one(&short, &options, SINGLE_SWAP),
        Err(EncodingError::InvalidAddress { .. })
    ));
    let solution = Solution::try_from(&quote).unwrap();
    assert!(matches!(
        encode_one(&solution, &options, "singleSwapPermit2()"),
        Err(EncodingError::MissingPermit)
    ));
    let details = PermitDetails::new(make_address(1), amount(1), amount(1), amount(1));
    let unsigned = EncodingOptions::new(0).with_permit(PermitSingle::new(
        details,
        make_address(2),
        amount(1),
    ));
    assert!(matches!(
        encode_one(&solution, &unsigned, "singleSwapPermit2()"),
        Err(EncodingError::MissingPermitSignature)
    ));
    assert!(matches!(
        encode_one(&solution, &options, "burn()"),
        Err(EncodingError::UnsupportedFunction { .. })
    ));
    let failed = encode(vec![quote_with_route(990)], &options, &fees, "burn()");
    assert!(matches!(failed, Err(SolveError::FailedEncoding(_))));
}

/// The first number that does not fit into so many bytes.
fn limit(bytes: u32) -> Amount {
    (0..bytes).fold(amount(1), |n, _| n.times(&amount(256)))
}

fn solution_of(amount_in: Amount, min_amount_out: Amount) -> Solution {
    let solution = Solution::try_from(&quote_with_route(990)).unwrap();
    Solution { amount_in, min_amount_out, ..solution }
}

fn permit_expiring(token: Address, expiration: Amount) -> EncodingOptions {
    let details = PermitDetails::new(token, amount(1), expiration, amount(1));
    EncodingOptions::new(0).with_permit(PermitSingle::new(details, make_address(2), amount(1)))
}

#[test]
fn numbers_must_fit_the_contract() {
    let fees = router_fees();
    let options = EncodingOptions::new(0);
    let largest = || limit(32).minus(&amount(1));
    assert!(check_call(&solution_of(largest(), amount(990)), &options, &fees));
    assert!(!check_call(&solution_of(limit(32), amount(990)), &options, &fees));
    let solution = solution_of(amount(1000), amount(990));
    assert!(check_call(&solution, &EncodingOptions::new(1_000_000), &fees));
    assert!(!check_call(&solution, &EncodingOptions::new(1_002_000), &fees));
    // Of 990, a tolerance just above the whole is still no more than the whole.
    assert!(check_call(&solution, &EncodingOptions::new(1_000_001), &fees));
    assert!(check_call(&solution, &permit_expiring(make_address(1), amount((1 << 48) - 1)), &fees));
    assert!(!check_call(&solution, &permit_expiring(make_address(1), amount(1 << 48)), &fees));
    let client = |most: Amount| {
        EncodingOptions::new(0).with_client_fee_params(ClientFeeParams::new(
            0,
            make_address(0xBB),
            most,
            1,
            Bytes::new(vec![]),
        ))
    };
    assert!(check_call(&solution, &client(largest()), &fees));
    assert!(!check_call(&solution, &client(limit(32)), &fees));
}

#[test]
fn only_what_the_user_receives_must_fit() {
    // The output itself is too large for a word; what fees and slippage leave of it is not.
    let large = solution_of(amount(1000), limit(32));
    assert!(check_call(&large, &EncodingOptions::new(0), &router_fees()));
    let no_fees = RouterFees::new(FEE_SCALE, 0, 0, Table::new());
    assert!(!check_call(&large, &EncodingOptions::new(0), &no_fees));
    assert!(check_call(&large, &EncodingOptions::new(1), &no_fees));
    let (_, fees) = encode_tycho_router_call(
        Chain::Ethereum,
        &encoded(SINGLE_SWAP),
        &large,
        &EncodingOptions::new(500_000),
        &no_fees,
    )
    .unwrap();
    let half = limit(31).times(&amount(128));
    assert_eq!(*fees.min_amount_received(), half);
}

#[test]
fn faults_come_before_numbers_that_do_not_fit() {
    let too_high = RouterFees::new(0, 1, 0, Table::new());
    let large = solution_of(amount(1000), limit(33));
    let options = EncodingOptions::new(2_000_000);
    let call = |solution: &Solution, options: &EncodingOptions, fees: &RouterFees| {
        assert!(check_call(solution, options, fees));
        encode_tycho_router_call(Chain::Ethereum, &encoded(SINGLE_SWAP), solution, options, fees)
    };
    assert!(matches!(
        call(&large, &options, &too_high),
        Err(EncodingError::FeeTooHigh { .. })
    ));
    // A bad receiver is found before the permit is read, and a bad permitted token before its numbers.
    let fees = router_fees();
    let solution = solution_of(amount(1000), amount(990));
    let short = Solution { receiver: Bytes::new(vec![1, 2]), ..solution };
    assert!(matches!(
        call(&short, &permit_expiring(make_address(1), limit(40)), &fees),
        Err(EncodingError::InvalidAddress { .. })
    ));
    let solution = solution_of(amount(1000), amount(990));
    assert!(matches!(
        call(&solution, &permit_expiring(Bytes::new(vec![1]), limit(40)), &fees),
        Err(EncodingError::InvalidAddress { .. })
    ));
}

#[test]
fn a_plan_is_checked_up_to_the_first_fault() {
    let fees = router_fees();
    let options = EncodingOptions::new(0);
    let plan = || {
        vec![
            (0, solution_of(amount(1000), amount(990))),
            (1, solution_of(limit(32), amount(990))),
        ]
    };
    let both = vec![encoded(SINGLE_SWAP), encoded(SINGLE_SWAP)];
    assert!(!check_plan(&plan(), &both, &options, &fees));
    // The first cannot be encoded, so that the second is not reached.
    let unknown = vec![encoded("burn()"), encoded(SINGLE_SWAP)];
    assert!(check_plan(&plan(), &unknown, &options, &fees));
    let quotes = vec![quote_with_route(990), quote_with_route(990)];
    assert!(matches!(
        encoder(&fees).encode(quotes, &plan(), &unknown, &options),
        Err(SolveError::FailedEncoding(_))
    ));
    // For the second there is no encoded solution.
    assert!(check_plan(&plan(), &vec![encoded(SINGLE_SWAP)], &options, &fees));
}

#[test]
fn a_leading_offset_is_dropped_from_the_arguments() {
    let hash = [7u8; 32];
    let mut args = vec![0u8; 31];
    args.push(32);
    // Only an offset that something follows is dropped.
    assert_eq!(assemble_input(&hash, &args).len(), 4 + 32);
    args.push(9);
    assert_eq!(assemble_input(&hash, &args), vec![7, 7, 7, 7, 9]);
    assert_eq!(assemble_input(&hash, &vec![1, 2]), vec![7, 7, 7, 7, 1, 2]);
    let selector = keccak256("transfer(address,uint256)".as_bytes())[..4].to_vec();
    assert_eq!(selector, vec![0xa9, 0x05, 0x9c, 0xbb]);
    assert_eq!(encode_input("transfer(address,uint256)", &vec![]), selector);
}
