//! The change watcher, as a state machine.
//!
//! The watcher registers its interest in the source, waits for a change, extracts a new
//! snapshot and starts over. Whatever fails on the way leads into a pause and from
//! there back to registering. The machine decides; its driver does what each state asks
//! for and reports what came of it.

use vstd::prelude::*;
use crate::config::Config;
use crate::source::{attempt, extract, ExtractionError};
use crate::text::optional_text;

verus! {

/// The length of the pause after a failure, in seconds.
pub const BACKOFF_SECONDS: u64 = 10;

/// Where the watcher stands.
#[derive(Debug, Clone, Copy, PartialEq, Eq, Structural)]
pub enum WatchState {
    Registering,
    WaitingForEvent,
    Extracting,
    ErrorBackoff,
}

/// What the driver has to do in a state.
#[derive(Debug, Clone, Copy, PartialEq, Eq, Structural)]
pub enum WatchAction {
    /// Register interest in modifications of the source.
    Register,
    /// Block until a modification is reported.
    AwaitChange,
    /// Read the source.
    ReadSource,
    /// Sleep for so many seconds.
    Pause(u64),
}

/// What the driver reports back.
#[derive(Debug)]
pub enum WatchEvent {
    /// The interest was registered.
    Registered,
    /// A modification was reported.
    Changed,
    /// The source was read, and these are its bytes.
    Source(Vec<u8>),
    /// The pause is over.
    Rested,
    /// What was asked for could not be done.
    Failed,
}

/// The outcome of a step: the state to go on from and, after an extraction that
/// succeeded, the snapshot to publish.
#[derive(Debug)]
pub struct WatchStep {
    pub next: WatchState,
    pub publish: Option<String>,
}

/// What the driver has to do in `state`.
pub open spec fn action_in(state: WatchState) -> WatchAction {
    match state {
        WatchState::Registering => WatchAction::Register,
        WatchState::WaitingForEvent => WatchAction::AwaitChange,
        WatchState::Extracting => WatchAction::ReadSource,
        WatchState::ErrorBackoff => WatchAction::Pause(BACKOFF_SECONDS),
    }
}

/// The event that tells of the success of what `state` asks for.
pub open spec fn answers(state: WatchState, event: WatchEvent) -> bool {
    match state {
        WatchState::Registering => event is Registered,
        WatchState::WaitingForEvent => event is Changed,
        WatchState::Extracting => event is Source,
        WatchState::ErrorBackoff => event is Rested,
    }
}

/// The extraction that a step makes: on the bytes that were read, while extracting.
pub open spec fn extraction_in(state: WatchState, event: WatchEvent, cfg: Config) -> Result<
    Seq<char>,
    ExtractionError,
> {
    match (state, event) {
        (WatchState::Extracting, WatchEvent::Source(bytes)) => attempt(Some(bytes@), cfg),
        _ => Err(ExtractionError::SourceUnavailable),
    }
}

/// The state after a step. The pause always leads back to registering. From the other
/// states the expected event leads one state on, an extraction only where it succeeds;
/// anything else leads into the pause.
pub open spec fn next_state(state: WatchState, event: WatchEvent, cfg: Config) -> WatchState {
    match state {
        WatchState::ErrorBackoff => WatchState::Registering,
        WatchState::Registering => if event is Registered {
            WatchState::WaitingForEvent
        } else {
            WatchState::ErrorBackoff
        },
        WatchState::WaitingForEvent => if event is Changed {
            WatchState::Extracting
        } else {
            WatchState::ErrorBackoff
        },
        WatchState::Extracting => if extraction_in(state, event, cfg) is Ok {
            WatchState::Registering
        } else {
            WatchState::ErrorBackoff
        },
    }
}

/// The snapshot that a step publishes: the one it extracted, if it did.
pub open spec fn published(state: WatchState, event: WatchEvent, cfg: Config) -> Option<
    Seq<char>,
> {
    match extraction_in(state, event, cfg) {
        Ok(snapshot) => Some(snapshot),
        Err(_) => None,
    }
}

impl WatchState {
    /// The state in which the watcher starts.
    pub fn start() -> (state: WatchState)
        ensures
            state == WatchState::Registering,
    {
        WatchState::Registering
    }

    /// What the driver has to do now.
    pub fn action(&self) -> (action: WatchAction)
        ensures
            action == action_in(*self),
    {
        match self {
            WatchState::Registering => WatchAction::Register,
            WatchState::WaitingForEvent => WatchAction::AwaitChange,
            WatchState::Extracting => WatchAction::ReadSource,
            WatchState::ErrorBackoff => WatchAction::Pause(BACKOFF_SECONDS),
        }
    }
}

/// One step of the watcher: takes what the driver reports in `state` and says how to go
/// on, extracting a new snapshot from the bytes of the source where those are reported.
pub fn monitor_input(cfg: &Config, state: WatchState, event: &WatchEvent) -> (step: WatchStep)
    ensures
        step.next == next_state(state, *event, *cfg),
        optional_text(step.publish) == published(state, *event, *cfg),
{
    match state {
        WatchState::ErrorBackoff => WatchStep { next: WatchState::Registering, publish: None },
        WatchState::Registering => match event {
            WatchEvent::Registered => WatchStep {
                next: WatchState::WaitingForEvent,
                publish: None,
            },
            _ => WatchStep { next: WatchState::ErrorBackoff, publish: None },
        },
        WatchState::WaitingForEvent => match event {
            WatchEvent::Changed => WatchStep { next: WatchState::Extracting, publish: None },
            _ => WatchStep { next: WatchState::ErrorBackoff, publish: None },
        },
        WatchState::Extracting => match event {
            WatchEvent::Source(bytes) => match extract(Some(bytes.as_slice()), cfg) {
                Ok(snapshot) => WatchStep {
                    next: WatchState::Registering,
                    publish: Some(snapshot),
                },
                Err(_) => WatchStep { next: WatchState::ErrorBackoff, publish: None },
            },
            _ => WatchStep { next: WatchState::ErrorBackoff, publish: None },
        },
    }
}

/// The happy path: registered, changed, extracted, and registering again with a
/// snapshot to publish.
pub proof fn lemma_round_trip(cfg: Config, bytes: Vec<u8>)
    requires
        attempt(Some(bytes@), cfg) is Ok,
    ensures
        next_state(WatchState::Registering, WatchEvent::Registered, cfg)
            == WatchState::WaitingForEvent,
        next_state(WatchState::WaitingForEvent, WatchEvent::Changed, cfg)
            == WatchState::Extracting,
        next_state(WatchState::Extracting, WatchEvent::Source(bytes), cfg)
            == WatchState::Registering,
        published(WatchState::Extracting, WatchEvent::Source(bytes), cfg) is Some,
{
}

/// Any failure is followed by a pause of the fixed length and then by a new
/// registration; nothing is published on the way.
pub proof fn lemma_failure_backs_off(cfg: Config, state: WatchState, event: WatchEvent, later: WatchEvent)
    requires
        state != WatchState::ErrorBackoff,
        !answers(state, event) || (state == WatchState::Extracting && extraction_in(
            state,
            event,
            cfg,
        ) is Err),
    ensures
        next_state(state, event, cfg) == WatchState::ErrorBackoff,
        published(state, event, cfg) is None,
        action_in(WatchState::ErrorBackoff) == WatchAction::Pause(10),
        next_state(WatchState::ErrorBackoff, later, cfg) == WatchState::Registering,
        published(WatchState::ErrorBackoff, later, cfg) is None,
{
}

/// There is no terminal state: every step asks for an action, and a snapshot is
/// published only by an extraction that succeeded.
pub proof fn lemma_publishes_only_extractions(cfg: Config, state: WatchState, event: WatchEvent)
    ensures
        published(state, event, cfg) is Some ==> state == WatchState::Extracting && event is Source
            && next_state(state, event, cfg) == WatchState::Registering,
{
}

} // verus!
