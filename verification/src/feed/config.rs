//! Configuration and errors of the market data feed.
use vstd::prelude::*;
use vstd::string::StringExecFns;

use crate::types::chain::{Chain, Real};

verus! {

/// 1.1, by its bits.
pub const DEFAULT_TVL_BUFFER_RATIO_BITS: u64 = 0x3ff1_9999_9999_999a;

/// Configuration of the feed.
#[derive(Debug)]
pub struct TychoFeedConfig {
    /// WebSocket URL.
    pub tycho_url: String,
    /// Blockchain to connect to.
    pub chain: Chain,
    /// API key.
    pub tycho_api_key: Option<String>,
    /// Use TLS for the WebSocket connection.
    pub use_tls: bool,
    /// Names of the protocols to index, such as "uniswap_v2".
    pub protocols: Vec<String>,
    /// TVL filter in native token. Components below are ignored.
    pub min_tvl: Real,
    /// Minimum token quality filter.
    pub min_token_quality: i32,
    /// Components are added when their TVL reaches `min_tvl` and removed when it drops below
    /// `min_tvl` divided by this ratio.
    pub tvl_buffer_ratio: Real,
    /// Reconnect delay on connection failure, in milliseconds.
    pub reconnect_delay_ms: u64,
    /// Only include tokens traded within this many days.
    pub traded_n_days_ago: Option<u64>,
    /// Component IDs to exclude from the stream.
    pub blocklisted_components: Vec<String>,
    /// Enable updates in the middle of a block.
    pub partial_blocks: bool,
}

impl TychoFeedConfig {
    /// Creates a configuration with defaults for what is not given.
    pub fn new(
        tycho_url: String,
        chain: Chain,
        tycho_api_key: Option<String>,
        use_tls: bool,
        protocols: Vec<String>,
        min_tvl: Real,
    ) -> (r: Self)
        ensures
            r == (TychoFeedConfig {
                tycho_url,
                chain,
                tycho_api_key,
                use_tls,
                protocols,
                min_tvl,
                min_token_quality: 100,
                tvl_buffer_ratio: Real { bits: DEFAULT_TVL_BUFFER_RATIO_BITS },
                reconnect_delay_ms: 5000,
                traded_n_days_ago: None,
                blocklisted_components: r.blocklisted_components,
                partial_blocks: false,
            }),
            r.blocklisted_components@.len() == 0,
    {
        TychoFeedConfig {
            tycho_url,
            chain,
            tycho_api_key,
            use_tls,
            protocols,
            min_tvl,
            min_token_quality: 100,
            tvl_buffer_ratio: Real { bits: DEFAULT_TVL_BUFFER_RATIO_BITS },
            reconnect_delay_ms: 5000,
            traded_n_days_ago: None,
            blocklisted_components: Vec::new(),
            partial_blocks: false,
        }
    }

    /// Sets the ratio between the upper and the lower bound of the TVL filter.
    pub fn tvl_buffer_ratio(self, tvl_buffer_ratio: Real) -> (r: Self)
        ensures
            r == (TychoFeedConfig { tvl_buffer_ratio, ..self }),
    {
        TychoFeedConfig { tvl_buffer_ratio, ..self }
    }

    /// Sets the reconnect delay in milliseconds.
    pub fn reconnect_delay(self, reconnect_delay_ms: u64) -> (r: Self)
        ensures
            r == (TychoFeedConfig { reconnect_delay_ms, ..self }),
    {
        TychoFeedConfig { reconnect_delay_ms, ..self }
    }

    /// Sets the minimum token quality.
    pub fn min_token_quality(self, min_token_quality: i32) -> (r: Self)
        ensures
            r == (TychoFeedConfig { min_token_quality, ..self }),
    {
        TychoFeedConfig { min_token_quality, ..self }
    }

    /// Leaves out tokens that were not traded within so many days.
    pub fn traded_n_days_ago(self, days: u64) -> (r: Self)
        ensures
            r == (TychoFeedConfig { traded_n_days_ago: Some(days), ..self }),
    {
        TychoFeedConfig { traded_n_days_ago: Some(days), ..self }
    }

    /// Sets the components to leave out.
    pub fn blocklisted_components(self, components: Vec<String>) -> (r: Self)
        ensures
            r == (TychoFeedConfig { blocklisted_components: components, ..self }),
    {
        TychoFeedConfig { blocklisted_components: components, ..self }
    }

    /// Enables or disables updates in the middle of a block.
    pub fn partial_blocks(self, enabled: bool) -> (r: Self)
        ensures
            r == (TychoFeedConfig { partial_blocks: enabled, ..self }),
    {
        TychoFeedConfig { partial_blocks: enabled, ..self }
    }
}

/// What tokens are asked for before the streams are set up.
#[derive(Debug)]
pub struct TokenRequest {
    pub url: String,
    pub no_tls: bool,
    pub api_key: Option<String>,
    pub chain: Chain,
    pub min_quality: i32,
    pub traded_n_days_ago: Option<u64>,
}

/// What the protocol stream is built with.
#[derive(Debug)]
pub struct StreamSettings {
    pub url: String,
    pub chain: Chain,
    pub auth_key: Option<String>,
    pub no_tls: bool,
    pub min_token_quality: u32,
    /// Components come in at this TVL.
    pub min_tvl: Real,
    /// Components go below `min_tvl` divided by this.
    pub tvl_buffer_ratio: Real,
    pub blocklist: Vec<String>,
    pub protocols: Vec<String>,
    /// Updates come in the middle of a block.
    pub partial_blocks: bool,
}

fn copy_texts(texts: &Vec<String>) -> (r: Vec<String>)
    ensures
        r@ == texts@,
{
    let mut copies: Vec<String> = Vec::new();
    let mut i: usize = 0;
    while i < texts.len()
        invariant
            i <= texts@.len(),
            copies@ == texts@.take(i as int),
        decreases texts@.len() - i,
    {
        copies.push(texts[i].clone());
        i += 1;
    }
    assert(texts@.take(i as int) == texts@);
    copies
}

fn copy_text(text: &Option<String>) -> (r: Option<String>)
    ensures
        r == *text,
{
    match text {
        Some(t) => Some(t.clone()),
        None => None,
    }
}

impl TychoFeedConfig {
    /// What tokens to ask for. Where the configuration has no API key, the one of the environment
    /// stands in for it.
    pub fn token_request(&self, environment_key: Option<String>) -> (r: TokenRequest)
        ensures
            r == (TokenRequest {
                url: self.tycho_url,
                no_tls: !self.use_tls,
                api_key: if self.tycho_api_key is Some {
                    self.tycho_api_key
                } else {
                    environment_key
                },
                chain: self.chain,
                min_quality: self.min_token_quality,
                traded_n_days_ago: self.traded_n_days_ago,
            }),
    {
        TokenRequest {
            url: self.tycho_url.clone(),
            no_tls: !self.use_tls,
            api_key: match &self.tycho_api_key {
                Some(key) => Some(key.clone()),
                None => environment_key,
            },
            chain: self.chain,
            min_quality: self.min_token_quality,
            traded_n_days_ago: self.traded_n_days_ago,
        }
    }

    /// What to build the protocol stream with, whatever the feed hands out beside its updates.
    pub fn stream_settings(&self) -> (r: StreamSettings)
        ensures
            r.blocklist@ == self.blocklisted_components@,
            r.protocols@ == self.protocols@,
            r == (StreamSettings {
                url: self.tycho_url,
                chain: self.chain,
                auth_key: self.tycho_api_key,
                no_tls: !self.use_tls,
                min_token_quality: self.min_token_quality as u32,
                min_tvl: self.min_tvl,
                tvl_buffer_ratio: self.tvl_buffer_ratio,
                blocklist: r.blocklist,
                protocols: r.protocols,
                partial_blocks: self.partial_blocks,
            }),
    {
        StreamSettings {
            url: self.tycho_url.clone(),
            chain: self.chain,
            auth_key: copy_text(&self.tycho_api_key),
            no_tls: !self.use_tls,
            min_token_quality: self.min_token_quality as u32,
            min_tvl: self.min_tvl,
            tvl_buffer_ratio: self.tvl_buffer_ratio,
            blocklist: copy_texts(&self.blocklisted_components),
            protocols: copy_texts(&self.protocols),
            partial_blocks: self.partial_blocks,
        }
    }
}

/// Errors of the feed.
#[derive(Debug)]
pub enum DataFeedError {
    /// Configuration error.
    Config(String),
    /// Update error.
    StreamError(String),
    /// Event send error.
    EventChannelError(String),
}

/// The text of an error of the feed.
pub enum FeedErrorView {
    Config(Seq<char>),
    StreamError(Seq<char>),
    EventChannelError(Seq<char>),
}

impl View for DataFeedError {
    type V = FeedErrorView;

    open spec fn view(&self) -> FeedErrorView {
        match self {
            DataFeedError::Config(text) => FeedErrorView::Config(text@),
            DataFeedError::StreamError(text) => FeedErrorView::StreamError(text@),
            DataFeedError::EventChannelError(text) => FeedErrorView::EventChannelError(text@),
        }
    }
}

impl FeedErrorView {
    /// The message of the error.
    pub open spec fn message(self) -> Seq<char> {
        match self {
            FeedErrorView::Config(text) => "configuration error: "@ + text,
            FeedErrorView::StreamError(text) => "stream error: "@ + text,
            FeedErrorView::EventChannelError(text) => "event send error: "@ + text,
        }
    }
}

impl DataFeedError {
    /// The message of the error.
    pub fn message(&self) -> (r: String)
        ensures
            r@ == self@.message(),
    {
        match self {
            DataFeedError::Config(text) => "configuration error: ".to_string().concat(
                text.as_str(),
            ),
            DataFeedError::StreamError(text) => "stream error: ".to_string().concat(text.as_str()),
            DataFeedError::EventChannelError(text) => "event send error: ".to_string().concat(
                text.as_str(),
            ),
        }
    }
}

/// Tokens are asked for with the configured key, and with the one of the environment only where none is
/// configured; over TLS exactly where the feed uses it; and for what the feed filters by.
pub proof fn configured_keys_come_first(
    config: TychoFeedConfig,
    environment_key: Option<String>,
    r: TokenRequest,
)
    requires
        call_ensures(TychoFeedConfig::token_request, (&config, environment_key), r),
    ensures
        config.tycho_api_key is Some ==> r.api_key == config.tycho_api_key,
        config.tycho_api_key is None ==> r.api_key == environment_key,
        r.no_tls != config.use_tls,
        r.url == config.tycho_url && r.chain == config.chain,
        r.min_quality == config.min_token_quality,
        r.traded_n_days_ago == config.traded_n_days_ago,
{
}

/// The protocol stream is built with what is configured: the same protocols and blocklist, the same bounds
/// for the value of components, and TLS exactly where the feed uses it.
pub proof fn streams_are_built_as_configured(config: TychoFeedConfig, r: StreamSettings)
    requires
        call_ensures(TychoFeedConfig::stream_settings, (&config,), r),
    ensures
        r.protocols@ == config.protocols@ && r.blocklist@ == config.blocklisted_components@,
        r.min_tvl == config.min_tvl && r.tvl_buffer_ratio == config.tvl_buffer_ratio,
        r.no_tls != config.use_tls,
        r.auth_key == config.tycho_api_key,
        r.url == config.tycho_url && r.chain == config.chain,
        config.min_token_quality >= 0 ==> r.min_token_quality == config.min_token_quality,
        r.partial_blocks == config.partial_blocks,
{
}

/// Each error of the feed is told with its kind before its text.
pub proof fn feed_errors_name_their_kind(error: DataFeedError, r: String)
    requires
        call_ensures(DataFeedError::message, (&error,), r),
    ensures
        error matches DataFeedError::Config(text) ==> r@ == "configuration error: "@ + text@,
        error matches DataFeedError::StreamError(text) ==> r@ == "stream error: "@ + text@,
        error matches DataFeedError::EventChannelError(text) ==> r@ == "event send error: "@ + text@,
{
}

} // verus!
