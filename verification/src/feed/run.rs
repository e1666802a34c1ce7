//! The course of a feed: setting its streams up, then listening to them, for good. When a stream that was
//! listened to ends or fails, the feed waits and sets its streams up anew.
use vstd::prelude::*;
use vstd::string::StringExecFns;

use crate::feed::config::{DataFeedError, TychoFeedConfig};
use crate::text::starts_with;

verus! {

/// What a feed hands out beside its updates.
#[derive(Debug, Clone, Copy, PartialEq, Eq, Structural)]
pub enum FeedMode {
    /// Nothing.
    Plain,
    /// A processor for pending blocks.
    Pending,
    /// A controller that lets blocks through one by one.
    Stepped,
    /// Both.
    PendingStepped,
}

/// Where a feed stands.
#[derive(Debug, Clone, Copy, PartialEq, Eq, Structural)]
pub enum Stage {
    /// Tokens are being loaded.
    LoadTokens,
    /// Exchanges are being registered with the protocol stream.
    RegisterExchanges,
    /// An indexer for pending blocks is being registered.
    RegisterIndexer(usize),
    /// The protocol stream is being built.
    BuildStream,
    /// The stream of quote requests is being set up.
    RegisterRfq,
    /// The streams are running.
    Listen,
    /// The feed has ended.
    Stopped,
}

/// What happens to a feed.
#[derive(Debug)]
pub enum FeedEvent {
    /// The work of the stage is done.
    Done,
    /// The work of the stage has failed outside.
    Failed(String),
    /// The work of the stage was refused.
    Refused(DataFeedError),
    /// The protocol stream has delivered an update.
    ProtocolUpdate,
    /// The protocol stream has failed.
    ProtocolFailed(String),
    /// The protocol stream has ended.
    ProtocolEnded,
    /// The stream of quote requests has delivered an update.
    RfqUpdate,
    /// The stream of quote requests has ended.
    RfqEnded,
    /// The task of the stream of quote requests has ended.
    RfqTaskEnded,
    /// The task of the stream of quote requests has failed.
    RfqTaskFailed(String),
    /// The task of the stream of quote requests has panicked.
    RfqTaskPanicked(String),
}

/// What is to be done.
#[derive(Debug)]
pub enum FeedAction {
    /// Do the work of the stage. Before it, hand out the processor and the controller where told to.
    Proceed { stage: Stage, deliver_pending: bool, deliver_controller: bool },
    /// Apply the update.
    Handle,
    /// Wait so many milliseconds, then do the work of loading tokens: the streams are set up anew. The
    /// cause is what has become of them; there is none where a stream has just ended.
    Reconnect { after_ms: u64, cause: Option<DataFeedError> },
    /// End with an error, and tell those who wait for the processor or the controller.
    Fail { error: DataFeedError, tell_pending: Option<String>, tell_controller: Option<String> },
    /// Nothing.
    Ignore,
}

/// A feed in its course.
#[derive(Debug)]
pub struct FeedRun {
    pub mode: FeedMode,
    /// Number of indexers for pending blocks.
    pub indexers: usize,
    /// Whether all protocols answer requests for quotes.
    pub all_rfq: bool,
    /// Whether any protocol answers requests for quotes.
    pub any_rfq: bool,
    /// How long to wait before streams are set up anew, in milliseconds.
    pub reconnect_delay_ms: u64,
    /// Whether the feed has listened to its streams before.
    pub connected: bool,
    pub stage: Stage,
}

/// The text of an event.
pub enum FeedEventView {
    Done,
    Failed(Seq<char>),
    Refused(crate::feed::config::FeedErrorView),
    ProtocolUpdate,
    ProtocolFailed(Seq<char>),
    ProtocolEnded,
    RfqUpdate,
    RfqEnded,
    RfqTaskEnded,
    RfqTaskFailed(Seq<char>),
    RfqTaskPanicked(Seq<char>),
}

impl View for FeedEvent {
    type V = FeedEventView;

    open spec fn view(&self) -> FeedEventView {
        match self {
            FeedEvent::Done => FeedEventView::Done,
            FeedEvent::Failed(text) => FeedEventView::Failed(text@),
            FeedEvent::Refused(error) => FeedEventView::Refused(error@),
            FeedEvent::ProtocolUpdate => FeedEventView::ProtocolUpdate,
            FeedEvent::ProtocolFailed(text) => FeedEventView::ProtocolFailed(text@),
            FeedEvent::ProtocolEnded => FeedEventView::ProtocolEnded,
            FeedEvent::RfqUpdate => FeedEventView::RfqUpdate,
            FeedEvent::RfqEnded => FeedEventView::RfqEnded,
            FeedEvent::RfqTaskEnded => FeedEventView::RfqTaskEnded,
            FeedEvent::RfqTaskFailed(text) => FeedEventView::RfqTaskFailed(text@),
            FeedEvent::RfqTaskPanicked(text) => FeedEventView::RfqTaskPanicked(text@),
        }
    }
}

/// The text of an action.
pub enum FeedActionView {
    Proceed { stage: Stage, deliver_pending: bool, deliver_controller: bool },
    Handle,
    Reconnect { after_ms: u64, cause: Option<crate::feed::config::FeedErrorView> },
    Fail {
        error: crate::feed::config::FeedErrorView,
        tell_pending: Option<Seq<char>>,
        tell_controller: Option<Seq<char>>,
    },
    Ignore,
}

pub open spec fn text_of(text: Option<String>) -> Option<Seq<char>> {
    match text {
        Some(t) => Some(t@),
        None => None,
    }
}

impl View for FeedAction {
    type V = FeedActionView;

    open spec fn view(&self) -> FeedActionView {
        match self {
            FeedAction::Proceed { stage, deliver_pending, deliver_controller } => {
                FeedActionView::Proceed {
                    stage: *stage,
                    deliver_pending: *deliver_pending,
                    deliver_controller: *deliver_controller,
                }
            },
            FeedAction::Handle => FeedActionView::Handle,
            FeedAction::Reconnect { after_ms, cause } => FeedActionView::Reconnect {
                after_ms: *after_ms,
                cause: match cause {
                    Some(e) => Some(e@),
                    None => None,
                },
            },
            FeedAction::Fail { error, tell_pending, tell_controller } => FeedActionView::Fail {
                error: error@,
                tell_pending: text_of(*tell_pending),
                tell_controller: text_of(*tell_controller),
            },
            FeedAction::Ignore => FeedActionView::Ignore,
        }
    }
}

/// Whether a protocol answers requests for quotes.
pub open spec fn is_rfq(protocol: Seq<char>) -> bool {
    crate::text::stands_at(protocol, "rfq:"@, 0)
}

pub open spec fn all_are_rfq(protocols: Seq<String>) -> bool {
    forall|i: int| 0 <= i < protocols.len() ==> is_rfq((#[trigger] protocols[i])@)
}

pub open spec fn any_is_rfq(protocols: Seq<String>) -> bool {
    exists|i: int| 0 <= i < protocols.len() && is_rfq((#[trigger] protocols[i])@)
}

impl FeedMode {
    pub open spec fn spec_has_pending(self) -> bool {
        self == FeedMode::Pending || self == FeedMode::PendingStepped
    }

    pub open spec fn spec_has_controller(self) -> bool {
        self == FeedMode::Stepped || self == FeedMode::PendingStepped
    }

    /// Whether a processor for pending blocks is handed out.
    pub fn has_pending(&self) -> (r: bool)
        ensures
            r == self.spec_has_pending(),
    {
        *self == FeedMode::Pending || *self == FeedMode::PendingStepped
    }

    /// Whether a controller is handed out.
    pub fn has_controller(&self) -> (r: bool)
        ensures
            r == self.spec_has_controller(),
    {
        *self == FeedMode::Stepped || *self == FeedMode::PendingStepped
    }
}

/// What those are told who wait for the processor or the controller, when a stage fails with an error.
/// After the stream is built nobody waits any more.
pub open spec fn notice(
    mode: FeedMode,
    stage: Stage,
    error: crate::feed::config::FeedErrorView,
) -> Option<Seq<char>> {
    match stage {
        Stage::LoadTokens | Stage::RegisterExchanges | Stage::RegisterIndexer(_) => Some(
            error.message(),
        ),
        Stage::BuildStream => match error {
            crate::feed::config::FeedErrorView::StreamError(text) if mode.spec_has_controller() => {
                Some(text)
            },
            _ => Some(error.message()),
        },
        _ => None,
    }
}

/// The end of a feed by an error in a stage.
pub open spec fn failing(
    mode: FeedMode,
    stage: Stage,
    error: crate::feed::config::FeedErrorView,
) -> FeedActionView {
    FeedActionView::Fail {
        error,
        tell_pending: if mode.spec_has_pending() {
            notice(mode, stage, error)
        } else {
            None
        },
        tell_controller: if mode.spec_has_controller() {
            notice(mode, stage, error)
        } else {
            None
        },
    }
}

impl FeedRun {
    /// The stage after one whose work is done.
    ///
    /// A plain feed over protocols that all answer requests for quotes has no protocol stream; other
    /// feeds always have one.
    pub open spec fn stage_after(self) -> Stage {
        let streams = if self.any_rfq {
            Stage::RegisterRfq
        } else {
            Stage::Listen
        };
        match self.stage {
            Stage::LoadTokens => if self.mode == FeedMode::Plain && self.all_rfq {
                streams
            } else {
                Stage::RegisterExchanges
            },
            Stage::RegisterExchanges => if self.mode.spec_has_pending() && self.indexers > 0 {
                Stage::RegisterIndexer(0)
            } else {
                Stage::BuildStream
            },
            Stage::RegisterIndexer(i) => if i + 1 < self.indexers {
                Stage::RegisterIndexer((i + 1) as usize)
            } else {
                Stage::BuildStream
            },
            Stage::BuildStream => streams,
            Stage::RegisterRfq => Stage::Listen,
            Stage::Listen => Stage::Listen,
            Stage::Stopped => Stage::Stopped,
        }
    }

    /// Setting the streams up anew, after they have ended or failed.
    pub open spec fn reconnecting(
        self,
        cause: Option<crate::feed::config::FeedErrorView>,
    ) -> (Stage, FeedActionView) {
        (
            Stage::LoadTokens,
            FeedActionView::Reconnect { after_ms: self.reconnect_delay_ms, cause },
        )
    }

    /// What an error leads to: the end of a feed that has never listened, and else a new attempt.
    pub open spec fn failed(self, error: crate::feed::config::FeedErrorView) -> (
        Stage,
        FeedActionView,
    ) {
        if self.connected {
            self.reconnecting(Some(error))
        } else {
            (Stage::Stopped, failing(self.mode, self.stage, error))
        }
    }

    /// What an event leads to: the next stage, and what is to be done. The processor and the controller
    /// are handed out when the stream is built for the first time.
    pub open spec fn reaction(self, event: FeedEventView) -> (Stage, FeedActionView) {
        let setting_up = self.stage != Stage::Listen && self.stage != Stage::Stopped;
        let listening = self.stage == Stage::Listen;
        let delivers = self.stage == Stage::BuildStream && !self.connected;
        let lost = |text: Seq<char>|
            self.reconnecting(Some(crate::feed::config::FeedErrorView::StreamError(text)));
        match event {
            FeedEventView::Done if setting_up => (
                self.stage_after(),
                FeedActionView::Proceed {
                    stage: self.stage_after(),
                    deliver_pending: delivers && self.mode.spec_has_pending(),
                    deliver_controller: delivers && self.mode.spec_has_controller(),
                },
            ),
            FeedEventView::Failed(text) if setting_up => self.failed(
                crate::feed::config::FeedErrorView::StreamError(text),
            ),
            FeedEventView::Refused(error) if setting_up => self.failed(error),
            FeedEventView::ProtocolUpdate if listening => (self.stage, FeedActionView::Handle),
            FeedEventView::RfqUpdate if listening => (self.stage, FeedActionView::Handle),
            FeedEventView::ProtocolFailed(text) if listening => lost(text),
            FeedEventView::ProtocolEnded if listening => self.reconnecting(None),
            FeedEventView::RfqEnded if listening => self.reconnecting(None),
            FeedEventView::RfqTaskEnded if listening => lost("RFQ stream task ended unexpectedly"@),
            FeedEventView::RfqTaskFailed(text) if listening => lost("RFQ stream error: "@ + text),
            FeedEventView::RfqTaskPanicked(text) if listening => lost("RFQ task panicked: "@ + text),
            _ => (self.stage, FeedActionView::Ignore),
        }
    }

    /// The feed after an event.
    pub open spec fn after(self, event: FeedEventView) -> FeedRun {
        let stage = self.reaction(event).0;
        let listens = self.stage == Stage::Listen || stage == Stage::Listen;
        FeedRun { stage, connected: self.connected || listens, ..self }
    }

    /// Starts a feed as it is configured. A controller needs a protocol stream, so it is refused where all
    /// protocols answer requests for quotes.
    pub fn start(mode: FeedMode, config: &TychoFeedConfig, indexers: usize) -> (r: (Self, FeedAction))
        ensures
            r.0.mode == mode,
            r.0.indexers == indexers,
            r.0.all_rfq == all_are_rfq(config.protocols@),
            r.0.any_rfq == any_is_rfq(config.protocols@),
            r.0.reconnect_delay_ms == config.reconnect_delay_ms,
            !r.0.connected,
            if mode.spec_has_controller() && all_are_rfq(config.protocols@) {
                let text = "step controller requires at least one non-RFQ protocol"@;
                &&& r.0.stage == Stage::Stopped
                &&& r.1@ == (FeedActionView::Fail {
                    error: crate::feed::config::FeedErrorView::Config(text),
                    tell_pending: if mode.spec_has_pending() {
                        Some(text)
                    } else {
                        None
                    },
                    tell_controller: Some(text),
                })
            } else {
                &&& r.0.stage == Stage::LoadTokens
                &&& r.1@ == (FeedActionView::Proceed {
                    stage: Stage::LoadTokens,
                    deliver_pending: false,
                    deliver_controller: false,
                })
            },
    {
        let mut all_rfq: bool = true;
        let mut any_rfq: bool = false;
        let mut i: usize = 0;
        while i < config.protocols.len()
            invariant
                i <= config.protocols@.len(),
                all_rfq == forall|j: int| 0 <= j < i ==> is_rfq((#[trigger] config.protocols@[j])@),
                any_rfq == exists|j: int| 0 <= j < i && is_rfq((#[trigger] config.protocols@[j])@),
            decreases config.protocols@.len() - i,
        {
            let rfq: bool = starts_with(config.protocols[i].as_str(), "rfq:");
            assert(rfq == is_rfq(config.protocols@[i as int]@));
            all_rfq = all_rfq && rfq;
            any_rfq = any_rfq || rfq;
            i += 1;
        }
        let refused: bool = mode.has_controller() && all_rfq;
        let stage: Stage = if refused { Stage::Stopped } else { Stage::LoadTokens };
        let run = FeedRun {
            mode,
            indexers,
            all_rfq,
            any_rfq,
            reconnect_delay_ms: config.reconnect_delay_ms,
            connected: false,
            stage,
        };
        if refused {
            let text: String = "step controller requires at least one non-RFQ protocol".to_string();
            let tell_pending: Option<String> = if mode.has_pending() {
                Some(text.clone())
            } else {
                None
            };
            let tell_controller: Option<String> = Some(text.clone());
            (
                run,
                FeedAction::Fail { error: DataFeedError::Config(text), tell_pending, tell_controller },
            )
        } else {
            (
                run,
                FeedAction::Proceed { stage, deliver_pending: false, deliver_controller: false },
            )
        }
    }

    /// The end of the feed by an error in its stage.
    fn fail(&self, error: DataFeedError) -> (r: FeedAction)
        ensures
            r@ == failing(self.mode, self.stage, error@),
    {
        let text: Option<String> = match self.stage {
            Stage::LoadTokens | Stage::RegisterExchanges | Stage::RegisterIndexer(_) => Some(
                error.message(),
            ),
            Stage::BuildStream => match &error {
                DataFeedError::StreamError(text) => if self.mode.has_controller() {
                    Some(text.clone())
                } else {
                    Some(error.message())
                },
                _ => Some(error.message()),
            },
            _ => None,
        };
        let copy: Option<String> = match &text {
            Some(t) => Some(t.clone()),
            None => None,
        };
        FeedAction::Fail {
            error,
            tell_pending: if self.mode.has_pending() {
                text
            } else {
                None
            },
            tell_controller: if self.mode.has_controller() {
                copy
            } else {
                None
            },
        }
    }

    fn next_stage(&self) -> (r: Stage)
        ensures
            r == self.stage_after(),
    {
        let streams: Stage = if self.any_rfq { Stage::RegisterRfq } else { Stage::Listen };
        match self.stage {
            Stage::LoadTokens => if self.mode == FeedMode::Plain && self.all_rfq {
                streams
            } else {
                Stage::RegisterExchanges
            },
            Stage::RegisterExchanges => if self.mode.has_pending() && self.indexers > 0 {
                Stage::RegisterIndexer(0)
            } else {
                Stage::BuildStream
            },
            Stage::RegisterIndexer(i) => if i < self.indexers && i + 1 < self.indexers {
                Stage::RegisterIndexer(i + 1)
            } else {
                Stage::BuildStream
            },
            Stage::BuildStream => streams,
            Stage::RegisterRfq => Stage::Listen,
            Stage::Listen => Stage::Listen,
            Stage::Stopped => Stage::Stopped,
        }
    }

    /// Has the streams set up anew.
    fn reconnect(&mut self, cause: Option<DataFeedError>) -> (r: FeedAction)
        ensures
            *final(self) == (FeedRun { stage: Stage::LoadTokens, connected: true, ..*old(self) }),
            r@ == old(self).reconnecting(
                match cause {
                    Some(e) => Some(e@),
                    None => None,
                },
            ).1,
    {
        self.stage = Stage::LoadTokens;
        self.connected = true;
        FeedAction::Reconnect { after_ms: self.reconnect_delay_ms, cause }
    }

    /// Has the streams set up anew after one of them has failed.
    fn lose(&mut self, text: String) -> (r: FeedAction)
        ensures
            *final(self) == (FeedRun { stage: Stage::LoadTokens, connected: true, ..*old(self) }),
            r@ == old(self).reconnecting(
                Some(crate::feed::config::FeedErrorView::StreamError(text@)),
            ).1,
    {
        self.reconnect(Some(DataFeedError::StreamError(text)))
    }

    /// Ends a feed that has never listened, and tries again with another.
    fn give_up(&mut self, error: DataFeedError) -> (r: FeedAction)
        ensures
            *final(self) == (FeedRun { stage: old(self).failed(error@).0, ..*old(self) }),
            r@ == old(self).failed(error@).1,
    {
        if self.connected {
            self.reconnect(Some(error))
        } else {
            let action: FeedAction = self.fail(error);
            self.stage = Stage::Stopped;
            action
        }
    }

    /// Takes note of an event and says what is to be done. A feed that has listened never ends: when its
    /// streams end or fail, they are set up anew after a while.
    pub fn step(&mut self, event: FeedEvent) -> (r: FeedAction)
        ensures
            *final(self) == old(self).after(event@),
            r@ == old(self).reaction(event@).1,
            old(self).stage == Stage::Listen ==> final(self).stage != Stage::Stopped,
    {
        let setting_up: bool = self.stage != Stage::Listen && self.stage != Stage::Stopped;
        if setting_up {
            match event {
                FeedEvent::Done => {
                    let delivers: bool = self.stage == Stage::BuildStream && !self.connected;
                    let stage: Stage = self.next_stage();
                    self.stage = stage;
                    self.connected = self.connected || stage == Stage::Listen;
                    FeedAction::Proceed {
                        stage,
                        deliver_pending: delivers && self.mode.has_pending(),
                        deliver_controller: delivers && self.mode.has_controller(),
                    }
                },
                FeedEvent::Failed(text) => self.give_up(DataFeedError::StreamError(text)),
                FeedEvent::Refused(error) => self.give_up(error),
                _ => FeedAction::Ignore,
            }
        } else if self.stage == Stage::Listen {
            match event {
                FeedEvent::ProtocolUpdate | FeedEvent::RfqUpdate => {
                    self.connected = true;
                    FeedAction::Handle
                },
                FeedEvent::ProtocolEnded | FeedEvent::RfqEnded => self.reconnect(None),
                FeedEvent::ProtocolFailed(text) => self.lose(text),
                FeedEvent::RfqTaskEnded => {
                    self.lose("RFQ stream task ended unexpectedly".to_string())
                },
                FeedEvent::RfqTaskFailed(cause) => {
                    self.lose("RFQ stream error: ".to_string().concat(cause.as_str()))
                },
                FeedEvent::RfqTaskPanicked(cause) => {
                    self.lose("RFQ task panicked: ".to_string().concat(cause.as_str()))
                },
                _ => {
                    self.connected = true;
                    FeedAction::Ignore
                },
            }
        } else {
            FeedAction::Ignore
        }
    }
}

/// The number of stages of setting up that are still ahead.
pub open spec fn stages_ahead(run: FeedRun) -> nat {
    match run.stage {
        Stage::LoadTokens => run.indexers as nat + 5,
        Stage::RegisterExchanges => run.indexers as nat + 4,
        Stage::RegisterIndexer(i) => if i < run.indexers {
            (run.indexers - i) as nat + 3
        } else {
            3
        },
        Stage::BuildStream => 2,
        Stage::RegisterRfq => 1,
        _ => 0,
    }
}

/// Setting up comes to an end: every stage whose work is done brings the feed closer to listening.
pub proof fn setup_makes_progress(run: FeedRun)
    requires
        stages_ahead(run) > 0,
    ensures
        stages_ahead(FeedRun { stage: run.stage_after(), ..run }) < stages_ahead(run),
{
}

/// While the stream is built for the first time, a failure reaches everyone who waits for a processor or
/// a controller.
pub proof fn failing_setup_reaches_waiters(
    run: FeedRun,
    event: FeedEventView,
)
    requires
        stages_ahead(run) > 1,
        !run.connected,
        event is Failed || event is Refused,
    ensures
        run.reaction(event).1 matches FeedActionView::Fail { tell_pending, tell_controller, .. }
            && (tell_pending is Some) == run.mode.spec_has_pending() && (tell_controller is Some)
            == run.mode.spec_has_controller(),
        run.reaction(event).0 == Stage::Stopped,
{
}

/// A feed that listens, or has listened and is being set up anew, goes on for good: no event ends it.
/// What ends or breaks its streams has them set up anew, after the configured delay.
pub proof fn connected_feed_never_ends(run: FeedRun, event: FeedEventView)
    requires
        run.stage == Stage::Listen || (run.connected && run.stage != Stage::Stopped),
    ensures
        run.after(event).stage != Stage::Stopped,
        run.after(event).connected,
        !(run.reaction(event).1 is Fail),
        run.stage == Stage::Listen && run.after(event).stage != Stage::Listen ==> {
            &&& run.after(event).stage == Stage::LoadTokens
            &&& run.reaction(event).1 matches FeedActionView::Reconnect { after_ms, .. }
                && after_ms == run.reconnect_delay_ms
        },
{
}

/// Whatever befalls a stream that is listened to leads back to setting up.
pub proof fn lost_streams_are_set_up_anew(run: FeedRun, event: FeedEventView)
    requires
        run.stage == Stage::Listen,
        event is ProtocolEnded || event is ProtocolFailed || event is RfqEnded || event is RfqTaskEnded
            || event is RfqTaskFailed || event is RfqTaskPanicked,
    ensures
        run.after(event).stage == Stage::LoadTokens,
        run.reaction(event).1 matches FeedActionView::Reconnect { after_ms, .. } && after_ms
            == run.reconnect_delay_ms,
{
}

/// The processor and the controller are handed out once: a feed that has listened hands nothing out.
pub proof fn connected_feed_hands_nothing_out(run: FeedRun, event: FeedEventView)
    requires
        run.connected,
    ensures
        run.reaction(event).1 matches FeedActionView::Proceed { deliver_pending, deliver_controller, .. }
            ==> !deliver_pending && !deliver_controller,
{
}

/// Setting up goes through its stages in order: tokens, exchanges, each indexer for pending blocks where
/// there is a processor for them, the protocol stream, the stream of quote requests where any protocol
/// answers them, and listening. Only a plain feed whose protocols all answer requests for quotes goes
/// without a protocol stream.
pub proof fn streams_are_set_up_in_order(run: FeedRun)
    ensures
        run.stage == Stage::LoadTokens ==> run.after(FeedEventView::Done).stage == (if run.mode
            == FeedMode::Plain && run.all_rfq {
            if run.any_rfq {
                Stage::RegisterRfq
            } else {
                Stage::Listen
            }
        } else {
            Stage::RegisterExchanges
        }),
        run.stage == Stage::RegisterExchanges ==> run.after(FeedEventView::Done).stage == (if (run.mode
            == FeedMode::Pending || run.mode == FeedMode::PendingStepped) && run.indexers > 0 {
            Stage::RegisterIndexer(0)
        } else {
            Stage::BuildStream
        }),
        run.stage matches Stage::RegisterIndexer(i) ==> (i + 1 < run.indexers ==> run.after(
            FeedEventView::Done,
        ).stage == Stage::RegisterIndexer((i + 1) as usize)) && (i + 1 >= run.indexers ==> run.after(
            FeedEventView::Done,
        ).stage == Stage::BuildStream),
        run.stage == Stage::BuildStream ==> run.after(FeedEventView::Done).stage == (if run.any_rfq {
            Stage::RegisterRfq
        } else {
            Stage::Listen
        }),
        run.stage == Stage::RegisterRfq ==> run.after(FeedEventView::Done).stage == Stage::Listen,
        run.stage == Stage::Stopped ==> run.after(FeedEventView::Done).stage == Stage::Stopped,
{
}

/// The processor and the controller are handed out when the protocol stream is first built, each where
/// the feed has it, and at no other time.
pub proof fn extras_are_handed_out_with_the_stream(run: FeedRun, event: FeedEventView)
    ensures
        run.reaction(event).1 matches FeedActionView::Proceed {
            stage,
            deliver_pending,
            deliver_controller,
        } ==> {
            &&& event is Done
            &&& stage == run.after(event).stage
            &&& deliver_pending <==> run.stage == Stage::BuildStream && !run.connected && (run.mode
                == FeedMode::Pending || run.mode == FeedMode::PendingStepped)
            &&& deliver_controller <==> run.stage == Stage::BuildStream && !run.connected && (run.mode
                == FeedMode::Stepped || run.mode == FeedMode::PendingStepped)
        },
        event is Done && run.stage != Stage::Listen && run.stage != Stage::Stopped ==> run.reaction(
            event,
        ).1 is Proceed,
{
}

/// Updates are applied exactly while the feed listens, and leave it listening.
pub proof fn updates_are_applied_while_listening(run: FeedRun, event: FeedEventView)
    ensures
        run.reaction(event).1 is Handle <==> run.stage == Stage::Listen && (event is ProtocolUpdate
            || event is RfqUpdate),
        run.reaction(event).1 is Handle ==> run.after(event).stage == Stage::Listen,
        run.after(event).mode == run.mode && run.after(event).indexers == run.indexers && run.after(
            event,
        ).all_rfq == run.all_rfq && run.after(event).any_rfq == run.any_rfq && run.after(
            event,
        ).reconnect_delay_ms == run.reconnect_delay_ms,
{
}

/// What has become of a lost stream is told as the cause of setting up anew: nothing where a stream has
/// just ended, and else an error of the stream in words.
pub proof fn causes_of_lost_streams_are_told(run: FeedRun, event: FeedEventView)
    requires
        run.stage == Stage::Listen,
    ensures
        run.reaction(event).1 matches FeedActionView::Reconnect { after_ms, cause } ==> {
            &&& after_ms == run.reconnect_delay_ms
            &&& cause is None <==> event is ProtocolEnded || event is RfqEnded
            &&& event matches FeedEventView::ProtocolFailed(text) ==> cause == Some(
                crate::feed::config::FeedErrorView::StreamError(text),
            )
            &&& event is RfqTaskEnded ==> cause == Some(
                crate::feed::config::FeedErrorView::StreamError("RFQ stream task ended unexpectedly"@),
            )
            &&& event matches FeedEventView::RfqTaskFailed(text) ==> cause == Some(
                crate::feed::config::FeedErrorView::StreamError("RFQ stream error: "@ + text),
            )
            &&& event matches FeedEventView::RfqTaskPanicked(text) ==> cause == Some(
                crate::feed::config::FeedErrorView::StreamError("RFQ task panicked: "@ + text),
            )
        },
{
}

/// A failure while streams are set up for the first time ends the feed with it: an outside failure as an
/// error of the stream, a refusal as it is. While they are set up anew it starts over, after the delay.
pub proof fn failing_setup_ends_only_a_first_attempt(run: FeedRun, event: FeedEventView)
    requires
        run.stage != Stage::Listen && run.stage != Stage::Stopped,
        event is Failed || event is Refused,
    ensures
        ({
            let error = match event {
                FeedEventView::Failed(text) => crate::feed::config::FeedErrorView::StreamError(text),
                FeedEventView::Refused(e) => e,
                _ => arbitrary(),
            };
            &&& !run.connected ==> run.after(event).stage == Stage::Stopped && (run.reaction(event).1
                matches FeedActionView::Fail { error: told, .. } && told == error)
            &&& run.connected ==> run.after(event).stage == Stage::LoadTokens && run.reaction(event).1
                == (FeedActionView::Reconnect {
                after_ms: run.reconnect_delay_ms,
                cause: Some(error),
            })
        }),
{
}

/// Those who wait for a controller are told of a stream that could not be built in the words of the
/// failure itself; everybody else, and of every other failure, by the message of the error.
pub proof fn waiters_are_told_the_message(run: FeedRun, event: FeedEventView)
    requires
        !run.connected,
        run.stage == Stage::LoadTokens || run.stage == Stage::RegisterExchanges
            || run.stage is RegisterIndexer || run.stage == Stage::BuildStream,
    ensures
        event matches FeedEventView::Failed(text) ==> ({
            let told = if run.stage == Stage::BuildStream && (run.mode == FeedMode::Stepped || run.mode
                == FeedMode::PendingStepped) {
                text
            } else {
                "stream error: "@ + text
            };
            &&& run.reaction(event).1 matches FeedActionView::Fail { tell_pending, tell_controller, .. }
            &&& tell_pending is Some ==> tell_pending == Some(told)
            &&& tell_controller is Some ==> tell_controller == Some(told)
        }),
        event matches FeedEventView::Refused(crate::feed::config::FeedErrorView::Config(text)) ==> ({
            let told = "configuration error: "@ + text;
            &&& run.reaction(event).1 matches FeedActionView::Fail { tell_pending, tell_controller, .. }
            &&& tell_pending is Some ==> tell_pending == Some(told)
            &&& tell_controller is Some ==> tell_controller == Some(told)
        }),
{
}

/// A protocol answers requests for quotes exactly where its name begins so.
pub proof fn rfq_protocols_are_known_by_their_prefix(protocol: Seq<char>)
    ensures
        is_rfq(protocol) <==> protocol.len() >= 4 && protocol[0] == 'r' && protocol[1] == 'f'
            && protocol[2] == 'q' && protocol[3] == ':',
{
    reveal_strlit("rfq:");
    if protocol.len() >= 4 && protocol[0] == 'r' && protocol[1] == 'f' && protocol[2] == 'q'
        && protocol[3] == ':' {
        assert(protocol.subrange(0, 4) =~= "rfq:"@);
    }
    if is_rfq(protocol) {
        assert(protocol.subrange(0, 4) == "rfq:"@);
        assert(protocol.subrange(0, 4)[0] == 'r' && protocol.subrange(0, 4)[1] == 'f'
            && protocol.subrange(0, 4)[2] == 'q' && protocol.subrange(0, 4)[3] == ':');
    }
}

/// A feed starts with loading tokens, unless it is to hand out a controller and all its protocols answer
/// requests for quotes: then it is refused, and those who wait are told why.
pub proof fn controllers_need_a_protocol_stream(
    mode: FeedMode,
    config: TychoFeedConfig,
    indexers: usize,
    r: (FeedRun, FeedAction),
)
    requires
        call_ensures(FeedRun::start, (mode, &config, indexers), r),
    ensures
        ({
            let stepped = mode == FeedMode::Stepped || mode == FeedMode::PendingStepped;
            let only_rfq = forall|i: int|
                0 <= i < config.protocols@.len() ==> is_rfq((#[trigger] config.protocols@[i])@);
            let text = "step controller requires at least one non-RFQ protocol"@;
            &&& stepped && only_rfq ==> r.0.stage == Stage::Stopped && r.1@ == (FeedActionView::Fail {
                error: crate::feed::config::FeedErrorView::Config(text),
                tell_pending: if mode == FeedMode::PendingStepped {
                    Some(text)
                } else {
                    None
                },
                tell_controller: Some(text),
            })
            &&& !(stepped && only_rfq) ==> r.0.stage == Stage::LoadTokens && r.1@ == (
            FeedActionView::Proceed {
                stage: Stage::LoadTokens,
                deliver_pending: false,
                deliver_controller: false,
            })
            &&& r.0.mode == mode && r.0.indexers == indexers && !r.0.connected
            &&& r.0.reconnect_delay_ms == config.reconnect_delay_ms
            &&& r.0.all_rfq <==> only_rfq
            &&& r.0.any_rfq <==> exists|i: int|
                0 <= i < config.protocols@.len() && is_rfq((#[trigger] config.protocols@[i])@)
        }),
{
}

} // verus!
