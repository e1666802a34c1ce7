use fynd_core::bytes::{Address, Bytes};
use fynd_core::feed::config::{DataFeedError, TychoFeedConfig};
use fynd_core::feed::market_data::{
    MarketEvent, MarketState, PairComponent, SynchronizerState, Topology, Update,
};
use fynd_core::feed::permission::{
    filter_component_ids, permissioned_ids, ComponentScope, PermissionContext, PermissionPolicy,
};
use fynd_core::feed::run::{FeedAction, FeedEvent, FeedMode, FeedRun, Stage};
use fynd_core::feed::update::handle_tycho_message;
use fynd_core::table::Table;
use fynd_core::types::chain::{Chain, Real};
use fynd_core::types::quote::BlockInfo;
use fynd_core::types::route::{ProtocolComponent, Token};
use std::sync::Arc;

const COMPONENT: &str = "0xaaaaaaaaaaaaaaaaaaaaaaaaaaaaaaaaaaaaaaaa";
const OTHER: &str = "0xbbbbbbbbbbbbbbbbbbbbbbbbbbbbbbbbbbbbbbbb";

fn token(address: &str, symbol: &str) -> Token {
    Token { address: Bytes::parse(address).unwrap(), symbol: symbol.to_string(), decimals: 18 }
}

fn token1() -> Token {
    token("0x1111111111111111111111111111111111111111", "TKN1")
}

fn token2() -> Token {
    token("0x2222222222222222222222222222222222222222", "TKN2")
}

fn pair(id: &str, tokens: Vec<Token>) -> PairComponent {
    PairComponent {
        id: id.to_string(),
        protocol_system: "uniswap_v2".to_string(),
        tokens: Arc::new(tokens),
    }
}

fn update(new: Vec<PairComponent>, removed: Vec<&str>, states: Vec<(&str, u64)>) -> Update {
    let mut new_pairs = Table::new();
    for component in new {
        new_pairs.insert(component.id.clone(), component);
    }
    let mut table = Table::new();
    for (id, state) in states {
        table.insert(id.to_string(), state);
    }
    Update {
        block_number_or_timestamp: 12345,
        new_pairs,
        removed_pairs: removed.into_iter().map(str::to_string).collect(),
        states: table,
        sync_states: vec![],
    }
}

type Parts = (Vec<(String, Vec<Address>)>, Vec<String>, Vec<String>);

fn parts(event: MarketEvent) -> Parts {
    let MarketEvent::MarketUpdated { added_components, removed_components, updated_components } =
        event;
    let added = added_components
        .entries
        .into_iter()
        .map(|(id, tokens)| (id, tokens.iter().cloned().collect()))
        .collect();
    (added, removed_components, updated_components)
}

fn has(market: &MarketState, id: &str) -> bool {
    market.get_component(&id.to_string()).is_some()
}

#[test]
fn test_handle_message_adds_new_components() {
    let mut market = MarketState::new();
    let message = update(vec![pair(COMPONENT, vec![token1(), token2()])], vec![], vec![]);
    let event = handle_tycho_message(&mut market, &message).expect("Should receive event");
    let component = market.get_component(&COMPONENT.to_string()).unwrap();
    assert_eq!(component.id, COMPONENT);
    assert_eq!(component.protocol_system, "uniswap_v2");
    assert_eq!(*component.tokens, vec![token1().address, token2().address]);
    let (added, removed, updated) = parts(event);
    assert_eq!(added, vec![(COMPONENT.to_string(), vec![token1().address, token2().address])]);
    assert!(removed.is_empty() && updated.is_empty());
}

#[test]
fn test_handle_message_removes_components() {
    let mut market = MarketState::new();
    let first = update(vec![pair(COMPONENT, vec![token1(), token2()])], vec![], vec![]);
    assert!(handle_tycho_message(&mut market, &first).is_some());
    assert!(has(&market, COMPONENT));
    let second = update(vec![], vec![COMPONENT], vec![]);
    let event = handle_tycho_message(&mut market, &second).unwrap();
    assert!(!has(&market, COMPONENT));
    let (added, removed, updated) = parts(event);
    assert!(added.is_empty() && updated.is_empty());
    assert_eq!(removed, vec![COMPONENT.to_string()]);
}

#[test]
fn test_handle_message_updates_states() {
    let mut market = MarketState::new();
    let first =
        update(vec![pair(COMPONENT, vec![token1(), token2()])], vec![], vec![(COMPONENT, 1)]);
    let (added, _, updated) = parts(handle_tycho_message(&mut market, &first).unwrap());
    assert_eq!(added.len(), 1);
    // A new component is not an updated one.
    assert!(updated.is_empty());
    assert_eq!(market.get_simulation_state(&COMPONENT.to_string()), Some(&1));
    let second = update(vec![], vec![], vec![(COMPONENT, 2)]);
    let (added, removed, updated) = parts(handle_tycho_message(&mut market, &second).unwrap());
    assert!(added.is_empty() && removed.is_empty());
    assert_eq!(updated, vec![COMPONENT.to_string()]);
    assert_eq!(market.get_simulation_state(&COMPONENT.to_string()), Some(&2));
}

#[test]
fn test_handle_message_multiple_operations() {
    let mut market = MarketState::new();
    let first = update(vec![pair(COMPONENT, vec![token1()])], vec![], vec![]);
    assert!(handle_tycho_message(&mut market, &first).is_some());
    let second = update(vec![pair(OTHER, vec![token1(), token2()])], vec![COMPONENT], vec![]);
    let (added, removed, updated) = parts(handle_tycho_message(&mut market, &second).unwrap());
    assert!(has(&market, OTHER));
    assert!(!has(&market, COMPONENT));
    assert_eq!(added, vec![(OTHER.to_string(), vec![token1().address, token2().address])]);
    assert_eq!(removed, vec![COMPONENT.to_string()]);
    assert!(updated.is_empty());
}

#[test]
fn test_handle_message_empty_update() {
    let mut market = MarketState::new();
    assert!(handle_tycho_message(&mut market, &update(vec![], vec![], vec![])).is_none());
}

#[test]
fn handle_message_ok_when_no_subscribers() {
    // The market is updated and the event made, whoever listens to it.
    let mut market = MarketState::new();
    let message = update(vec![pair(COMPONENT, vec![token1(), token2()])], vec![], vec![]);
    assert!(handle_tycho_message(&mut market, &message).is_some());
    assert!(has(&market, COMPONENT));
}

#[test]
fn a_component_added_and_removed_at_once_is_gone() {
    let mut market = MarketState::new();
    let message = update(vec![pair(COMPONENT, vec![token1()])], vec![COMPONENT], vec![]);
    assert!(handle_tycho_message(&mut market, &message).is_some());
    assert!(!has(&market, COMPONENT));
}

#[test]
fn the_latest_block_counts() {
    let ready = |n: u64| {
        SynchronizerState::Ready(BlockInfo::new(n, format!("0x{n}"), n))
    };
    let mut market = MarketState::new();
    let mut message = update(vec![], vec![], vec![]);
    message.sync_states = vec![
        ("a".to_string(), ready(7)),
        ("b".to_string(), ready(9)),
        ("c".to_string(), SynchronizerState::Behind("stale".to_string())),
        ("d".to_string(), ready(8)),
    ];
    assert!(handle_tycho_message(&mut market, &message).is_none());
    assert_eq!(market.last_updated().unwrap().number(), 9);
    assert!(matches!(
        market.sync_states.get(&"c".to_string()),
        Some(SynchronizerState::Behind(reason)) if reason == "stale"
    ));
    // An update without a block leaves the block as it is.
    handle_tycho_message(&mut market, &update(vec![], vec![], vec![]));
    assert_eq!(market.last_updated().unwrap().number(), 9);
}

fn component(id: &str, protocol: &str) -> ProtocolComponent {
    ProtocolComponent {
        id: id.to_string(),
        protocol_system: protocol.to_string(),
        tokens: Arc::new(vec![token1().address, token2().address]),
    }
}

fn permissioned_component(id: &str) -> ProtocolComponent {
    component(id, "vm:permissioned")
}

fn public_component(id: &str) -> ProtocolComponent {
    component(id, "uniswap_v2")
}

fn is_exclusive(c: &ProtocolComponent) -> bool {
    c.protocol_system == "vm:permissioned"
}

fn permission_market() -> MarketState {
    let mut market = MarketState::new();
    market.upsert_components(&vec![public_component("pub-1"), permissioned_component("perm-1")]);
    market
}

#[test]
fn is_permissioned_reflects_predicate() {
    let policy = PermissionPolicy::new(is_exclusive);
    assert!(policy.is_permissioned(&permissioned_component("perm-1")));
    assert!(!policy.is_permissioned(&public_component("pub-1")));
}

#[test]
fn filter_topology_excludes_permissioned() {
    let policy = PermissionPolicy::new(is_exclusive);
    let market = permission_market();
    let public = PermissionContext::new(ComponentScope::ExcludePermissioned, Some(policy));
    let public_view = public.filter_topology(&market, market.component_topology());
    assert!(public_view.contains(&"pub-1".to_string()));
    assert!(!public_view.contains(&"perm-1".to_string()));

    let surplus: PermissionContext<fn(&ProtocolComponent) -> bool> =
        PermissionContext::include_all();
    let surplus_view = surplus.filter_topology(&market, market.component_topology());
    assert_eq!(surplus_view.entries.len(), market.component_topology().entries.len());
}

#[test]
fn scope_event_excludes_permissioned() {
    let policy = PermissionPolicy::new(is_exclusive);
    let market = permission_market();
    let mut added: Topology = Table::new();
    added.insert("pub-1".to_string(), Arc::new(vec![]));
    added.insert("perm-1".to_string(), Arc::new(vec![]));
    let both = vec!["pub-1".to_string(), "perm-1".to_string()];
    let event = MarketEvent::MarketUpdated {
        added_components: added,
        removed_components: both.clone(),
        updated_components: both,
    };
    let public = PermissionContext::new(ComponentScope::ExcludePermissioned, Some(policy));
    let (added, removed, updated) = parts(public.scope_event(&market, event));
    assert_eq!(added.len(), 1);
    assert_eq!(added[0].0, "pub-1");
    assert_eq!(removed, vec!["pub-1".to_string()]);
    assert_eq!(updated, vec!["pub-1".to_string()]);
}

#[test]
fn nothing_is_filtered_without_a_policy() {
    let market = permission_market();
    let open: PermissionContext<fn(&ProtocolComponent) -> bool> =
        PermissionContext::new(ComponentScope::ExcludePermissioned, None);
    assert!(open.active_policy().is_none());
    assert_eq!(open.filter_topology(&market, market.component_topology()).entries.len(), 2);
}

#[test]
fn unknown_ids_are_public() {
    let policy = PermissionPolicy::new(is_exclusive);
    let ids = vec!["perm-1".to_string(), "nobody".to_string()];
    let left = filter_component_ids(&policy, &permission_market(), &ids);
    assert_eq!(left, vec!["nobody".to_string()]);
    let found = permissioned_ids(
        &policy,
        &vec![public_component("pub-1"), permissioned_component("perm-1")],
    );
    assert_eq!(found, vec!["perm-1".to_string()]);
}

fn stage_of(action: &FeedAction) -> Option<Stage> {
    match action {
        FeedAction::Proceed { stage, .. } => Some(*stage),
        _ => None,
    }
}

fn feed_over(names: &[&str]) -> TychoFeedConfig {
    TychoFeedConfig::new(
        "ws://test".to_string(),
        Chain::Ethereum,
        None,
        false,
        protocols(names),
        Real { bits: 10.0f64.to_bits() },
    )
}

/// A plain feed that listens to its streams.
fn listening(names: &[&str]) -> FeedRun {
    let (mut run, _) = FeedRun::start(FeedMode::Plain, &feed_over(names), 0);
    while run.stage != Stage::Listen {
        run.step(FeedEvent::Done);
    }
    run
}

fn protocols(names: &[&str]) -> Vec<String> {
    names.iter().map(|n| n.to_string()).collect()
}

#[test]
fn a_plain_feed_runs_its_course() {
    let (mut run, action) = FeedRun::start(FeedMode::Plain, &feed_over(&["uniswap_v2"]), 0);
    assert_eq!(stage_of(&action), Some(Stage::LoadTokens));
    assert_eq!(stage_of(&run.step(FeedEvent::Done)), Some(Stage::RegisterExchanges));
    assert_eq!(stage_of(&run.step(FeedEvent::Done)), Some(Stage::BuildStream));
    assert_eq!(stage_of(&run.step(FeedEvent::Done)), Some(Stage::Listen));
    assert!(matches!(run.step(FeedEvent::ProtocolUpdate), FeedAction::Handle));
    assert!(matches!(
        run.step(FeedEvent::ProtocolEnded),
        FeedAction::Reconnect { after_ms: 5_000, cause: None }
    ));
    assert_eq!(run.stage, Stage::LoadTokens);
    assert!(matches!(run.step(FeedEvent::ProtocolUpdate), FeedAction::Ignore));
    assert_eq!(stage_of(&run.step(FeedEvent::Done)), Some(Stage::RegisterExchanges));
    assert_eq!(stage_of(&run.step(FeedEvent::Done)), Some(Stage::BuildStream));
    assert_eq!(stage_of(&run.step(FeedEvent::Done)), Some(Stage::Listen));
    assert!(matches!(run.step(FeedEvent::ProtocolUpdate), FeedAction::Handle));
}

#[test]
fn quote_streams_are_set_up_last() {
    let (mut run, _) = FeedRun::start(FeedMode::Plain, &feed_over(&["rfq:bebop"]), 0);
    // There is no protocol stream to build where all protocols answer requests for quotes.
    assert_eq!(stage_of(&run.step(FeedEvent::Done)), Some(Stage::RegisterRfq));
    assert_eq!(stage_of(&run.step(FeedEvent::Done)), Some(Stage::Listen));
    assert!(matches!(run.step(FeedEvent::RfqUpdate), FeedAction::Handle));
    let (mut run, _) =
        FeedRun::start(FeedMode::Plain, &feed_over(&["uniswap_v2", "rfq:bebop"]), 0);
    for expected in [
        Stage::RegisterExchanges,
        Stage::BuildStream,
        Stage::RegisterRfq,
        Stage::Listen,
    ] {
        assert_eq!(stage_of(&run.step(FeedEvent::Done)), Some(expected));
    }
}

#[test]
fn a_pending_feed_hands_out_its_processor() {
    let (mut run, _) = FeedRun::start(FeedMode::Pending, &feed_over(&["uniswap_v2"]), 2);
    for expected in [
        Stage::RegisterExchanges,
        Stage::RegisterIndexer(0),
        Stage::RegisterIndexer(1),
        Stage::BuildStream,
    ] {
        assert_eq!(stage_of(&run.step(FeedEvent::Done)), Some(expected));
    }
    match run.step(FeedEvent::Done) {
        FeedAction::Proceed { stage, deliver_pending, deliver_controller } => {
            assert_eq!(stage, Stage::Listen);
            assert!(deliver_pending && !deliver_controller);
        }
        other => panic!("{other:?}"),
    }
}

#[test]
fn waiters_are_told_of_a_failure() {
    let (mut run, _) = FeedRun::start(FeedMode::PendingStepped, &feed_over(&["uniswap_v2"]), 0);
    match run.step(FeedEvent::Failed("connection refused".to_string())) {
        FeedAction::Fail { error, tell_pending, tell_controller } => {
            assert!(matches!(&error, DataFeedError::StreamError(_)));
            assert_eq!(error.message(), "stream error: connection refused");
            assert_eq!(tell_pending, Some("stream error: connection refused".to_string()));
            assert_eq!(tell_controller, tell_pending);
        }
        other => panic!("{other:?}"),
    }
    assert_eq!(run.stage, Stage::Stopped);
}

#[test]
fn a_feed_that_loses_its_streams_sets_them_up_anew() {
    let names = ["uniswap_v2", "rfq:bebop"];
    let cases = [
        (FeedEvent::ProtocolEnded, None),
        (FeedEvent::RfqEnded, None),
        (FeedEvent::ProtocolFailed("reset".to_string()), Some("stream error: reset")),
        (FeedEvent::RfqTaskEnded, Some("stream error: RFQ stream task ended unexpectedly")),
        (FeedEvent::RfqTaskFailed("x".to_string()), Some("stream error: RFQ stream error: x")),
        (FeedEvent::RfqTaskPanicked("y".to_string()), Some("stream error: RFQ task panicked: y")),
    ];
    for (event, expected) in cases {
        let mut run = listening(&names);
        match run.step(event) {
            FeedAction::Reconnect { after_ms, cause } => {
                assert_eq!(after_ms, 5_000);
                assert_eq!(cause.map(|error| error.message()), expected.map(str::to_string));
            }
            other => panic!("{other:?}"),
        }
        assert_eq!(run.stage, Stage::LoadTokens);
        assert!(run.connected);
    }
}

#[test]
fn a_feed_that_has_listened_never_ends() {
    let mut run = listening(&["uniswap_v2"]);
    run.step(FeedEvent::ProtocolEnded);
    // The attempts to set the streams up anew may fail as often as they like.
    for _ in 0..3 {
        match run.step(FeedEvent::Failed("connection refused".to_string())) {
            FeedAction::Reconnect { after_ms: 5_000, cause: Some(error) } => {
                assert_eq!(error.message(), "stream error: connection refused");
            }
            other => panic!("{other:?}"),
        }
    }
    run.step(FeedEvent::Done);
    let refusal = DataFeedError::Config("no exchange".to_string());
    assert!(matches!(run.step(FeedEvent::Refused(refusal)), FeedAction::Reconnect { .. }));
    assert_eq!(run.stage, Stage::LoadTokens);
    while run.stage != Stage::Listen {
        run.step(FeedEvent::Done);
    }
    assert!(matches!(run.step(FeedEvent::ProtocolUpdate), FeedAction::Handle));
}

#[test]
fn the_reconnect_delay_is_configured() {
    let config = feed_over(&["uniswap_v2"]).reconnect_delay(250);
    let (mut run, _) = FeedRun::start(FeedMode::Plain, &config, 0);
    for _ in 0..3 {
        run.step(FeedEvent::Done);
    }
    assert!(matches!(
        run.step(FeedEvent::ProtocolEnded),
        FeedAction::Reconnect { after_ms: 250, cause: None }
    ));
}

#[test]
fn a_processor_is_handed_out_once() {
    let (mut run, _) = FeedRun::start(FeedMode::PendingStepped, &feed_over(&["uniswap_v2"]), 0);
    let mut delivered = 0;
    for _ in 0..2 {
        while run.stage != Stage::Listen {
            if let FeedAction::Proceed { deliver_pending: true, deliver_controller: true, .. } =
                run.step(FeedEvent::Done)
            {
                delivered += 1;
            }
        }
        run.step(FeedEvent::ProtocolEnded);
    }
    assert_eq!(delivered, 1);
}

#[test]
fn feed_configuration() {
    let config = TychoFeedConfig::new(
        "ws://test".to_string(),
        Chain::Ethereum,
        None,
        false,
        protocols(&["uniswap_v2"]),
        Real { bits: 10.0f64.to_bits() },
    );
    assert_eq!(config.min_token_quality, 100);
    assert_eq!(config.reconnect_delay_ms, 5_000);
    assert_eq!(f64::from_bits(config.tvl_buffer_ratio.bits), 1.1);
    assert_eq!(config.traded_n_days_ago, None);
    let config = config.traded_n_days_ago(3).partial_blocks(true).min_token_quality(50);
    assert_eq!(config.traded_n_days_ago, Some(3));
    assert!(config.partial_blocks);
    assert_eq!(config.min_token_quality, 50);
    let request = config.token_request(Some("from environment".to_string()));
    assert_eq!(request.api_key, Some("from environment".to_string()));
    assert!(request.no_tls);
    assert_eq!(request.min_quality, 50);
    let settings = config.stream_settings();
    assert_eq!(settings.auth_key, None);
    assert_eq!(settings.min_token_quality, 50);
    assert!(settings.partial_blocks && settings.no_tls);
    assert_eq!(settings.protocols, protocols(&["uniswap_v2"]));
    assert_eq!(DataFeedError::Config("x".to_string()).message(), "configuration error: x");
    assert_eq!(DataFeedError::EventChannelError("x".to_string()).message(), "event send error: x");
}
