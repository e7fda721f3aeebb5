//! The schedule by which the snapshot is refreshed: what to do at each
//! event, and what becomes of the result of a fetch.

use crate::block::candidate;
use crate::error::ExtractionError;
use crate::extract::{any_malformed, block_reading, script_selector, texts_selected};
use crate::finder::{scraped, WindFinder};
use crate::series::{Observation, WindData};
use crate::status::Rule;
use crate::store::TimeIndexedStore;
use vstd::prelude::*;

verus! {

/// The period between two refreshes unless another is asked for: one hour.
pub const DEFAULT_PERIOD_SECONDS: u64 = 3600;

/// Where the refresher stands.
#[derive(Clone, Copy, Debug, PartialEq, Eq, Structural)]
pub enum Phase {
    /// Not started, or stopped: nothing is fetched.
    Stopped,
    /// Started, and waiting for the next tick.
    Waiting,
    /// Started, with a fetch under way.
    Fetching,
}

/// What happens to the refresher from outside.
#[derive(Clone, Copy, Debug, PartialEq, Eq, Structural)]
pub enum Event {
    /// The schedule is started.
    Start,
    /// The schedule is stopped.
    Stop,
    /// The period has run out.
    Tick,
    /// A refresh is asked for at once.
    TriggerNow,
}

/// What the one who drives the refresher has to do next.
#[derive(Clone, Copy, Debug, PartialEq, Eq, Structural)]
pub enum Action {
    /// Nothing.
    Idle,
    /// Fetch the page and hand the outcome to `complete`.
    Fetch,
}

/// Why a refresh failed.
#[derive(Clone, Copy, Debug, PartialEq, Eq, Structural)]
pub enum RefreshError {
    /// The page could not be fetched.
    Transport,
    /// The page was fetched and could not be read.
    Extraction(ExtractionError),
}

/// What became of the outcome of a fetch.
#[derive(Clone, Copy, Debug, PartialEq, Eq, Structural)]
pub enum Completion {
    /// The new series is in the store.
    Replaced,
    /// No fetch was under way, so the outcome was dropped.
    Dropped,
    /// The refresh failed, and the store is as it was.
    Failed(RefreshError),
}

/// The phase after `event`. Starting begins with a fetch; a tick or a
/// trigger begins one where none is under way; stopping ends the schedule.
pub open spec fn phase_after(phase: Phase, event: Event) -> Phase {
    match event {
        Event::Start => if phase == Phase::Stopped {
            Phase::Fetching
        } else {
            phase
        },
        Event::Stop => Phase::Stopped,
        Event::Tick | Event::TriggerNow => if phase == Phase::Waiting {
            Phase::Fetching
        } else {
            phase
        },
    }
}

/// What is to be done on `event`: a fetch exactly where the event begins
/// one.
pub open spec fn action_on(phase: Phase, event: Event) -> Action {
    if phase != Phase::Fetching && phase_after(phase, event) == Phase::Fetching {
        Action::Fetch
    } else {
        Action::Idle
    }
}

/// What a fetch yields under a status rule: `fetched` is the text of the
/// page, or `None` where the fetch failed.
pub open spec fn reading(rule: Rule, fetched: Option<Seq<char>>) -> Result<
    Seq<Observation>,
    RefreshError,
> {
    match fetched {
        None => Err(RefreshError::Transport),
        Some(document) => match scraped(document, rule) {
            Ok(series) => Ok(series),
            Err(e) => Err(RefreshError::Extraction(e)),
        },
    }
}

/// What becomes of the outcome of a fetch: it counts only where a fetch was
/// under way.
pub open spec fn completion(phase: Phase, outcome: Result<Seq<Observation>, RefreshError>)
    -> Completion {
    if phase != Phase::Fetching {
        Completion::Dropped
    } else {
        match outcome {
            Ok(_) => Completion::Replaced,
            Err(e) => Completion::Failed(e),
        }
    }
}

/// What the store holds after the outcome of a fetch came in: the new
/// series where a fetch was under way and succeeded, and what it held
/// before in every other case.
pub open spec fn held_after(
    phase: Phase,
    held: Option<Seq<Observation>>,
    outcome: Result<Seq<Observation>, RefreshError>,
) -> Option<Seq<Observation>> {
    match outcome {
        Ok(series) => if phase == Phase::Fetching {
            Some(series)
        } else {
            held
        },
        Err(_) => held,
    }
}

/// What a series or an error says.
pub open spec fn outcome_said(outcome: Result<WindData, RefreshError>) -> Result<
    Seq<Observation>,
    RefreshError,
> {
    match outcome {
        Ok(series) => Ok(series@),
        Err(e) => Err(e),
    }
}

/// What a fetch yields: the series of the page where the fetch succeeded
/// and the page can be read, and the reason where not. `fetched` is the
/// text of the page, or `None` where the fetch failed.
pub fn read_fetched(finder: &WindFinder, fetched: Option<&str>) -> (outcome: Result<
    WindData,
    RefreshError,
>)
    ensures
        outcome_said(outcome) == reading(
            finder.policy.rule(),
            match fetched {
                Some(document) => Some(document@),
                None => None,
            },
        ),
{
    match fetched {
        None => Err(RefreshError::Transport),
        Some(document) => match finder.scrape(document) {
            Ok(series) => Ok(series),
            Err(e) => Err(RefreshError::Extraction(e)),
        },
    }
}

/// The schedule of refreshes: it can be started, stopped and triggered, and
/// it has at most one fetch under way.
#[derive(Clone, Copy, Debug)]
pub struct Refresher {
    pub phase: Phase,
    pub period_seconds: u64,
}

impl Refresher {
    /// A stopped refresher with a period of one hour.
    pub fn new() -> (r: Refresher)
        ensures
            r.phase == Phase::Stopped,
            r.period_seconds == DEFAULT_PERIOD_SECONDS,
    {
        Refresher { phase: Phase::Stopped, period_seconds: DEFAULT_PERIOD_SECONDS }
    }

    /// A stopped refresher with the given period.
    pub fn with_period(period_seconds: u64) -> (r: Refresher)
        ensures
            r.phase == Phase::Stopped,
            r.period_seconds == period_seconds,
    {
        Refresher { phase: Phase::Stopped, period_seconds }
    }

    /// Takes in an event and says what is to be done.
    pub fn handle(&mut self, event: Event) -> (action: Action)
        ensures
            final(self).phase == phase_after(old(self).phase, event),
            final(self).period_seconds == old(self).period_seconds,
            action == action_on(old(self).phase, event),
    {
        let before: Phase = self.phase;
        let after: Phase = match event {
            Event::Start => match before {
                Phase::Stopped => Phase::Fetching,
                _ => before,
            },
            Event::Stop => Phase::Stopped,
            Event::Tick | Event::TriggerNow => match before {
                Phase::Waiting => Phase::Fetching,
                _ => before,
            },
        };
        self.phase = after;
        match (before, after) {
            (Phase::Stopped, Phase::Fetching) => Action::Fetch,
            (Phase::Waiting, Phase::Fetching) => Action::Fetch,
            _ => Action::Idle,
        }
    }

    /// Takes in the outcome of a fetch.
    ///
    /// Where a fetch was under way, a new series replaces what the store
    /// held, and on a failure the store is left as it was; the refresher
    /// then waits for the next tick. Where no fetch was under way, as after
    /// a stop, the outcome is dropped and nothing changes.
    pub fn complete(&mut self, store: &mut TimeIndexedStore, outcome: Result<WindData, RefreshError>)
        -> (done: Completion)
        ensures
            done == completion(old(self).phase, outcome_said(outcome)),
            final(store)@ == held_after(old(self).phase, old(store)@, outcome_said(outcome)),
            final(self).period_seconds == old(self).period_seconds,
            final(self).phase == (if old(self).phase == Phase::Fetching {
                Phase::Waiting
            } else {
                old(self).phase
            }),
    {
        match self.phase {
            Phase::Fetching => {},
            _ => {
                return Completion::Dropped;
            },
        }
        self.phase = Phase::Waiting;
        match outcome {
            Ok(series) => {
                store.replace(series);
                Completion::Replaced
            },
            Err(e) => Completion::Failed(e),
        }
    }
}

/// A page whose data block does not decode changes nothing: the reading
/// reports malformed data, whatever else the page holds, and the store holds
/// afterwards what it held before, wherever the refresher stood.
pub proof fn lemma_malformed_block_keeps_snapshot(
    rule: Rule,
    document: Seq<char>,
    phase: Phase,
    held: Option<Seq<Observation>>,
)
    requires
        any_malformed(texts_selected(document, script_selector())),
    ensures
        reading(rule, Some(document)) == Err::<Seq<Observation>, RefreshError>(
            RefreshError::Extraction(ExtractionError::MalformedData),
        ),
        held_after(phase, held, reading(rule, Some(document))) == held,
        completion(phase, reading(rule, Some(document))) != Completion::Replaced,
{
    let scripts = texts_selected(document, script_selector());
    let at = choose|i: int| 0 <= i < scripts.len() && (#[trigger] block_reading(scripts[i])) is Err;
    assert(candidate(scripts[at]));
}

/// Any refresh that fails changes nothing: after a failed outcome the store
/// holds what it held before.
pub proof fn lemma_failure_keeps_snapshot(
    phase: Phase,
    held: Option<Seq<Observation>>,
    error: RefreshError,
)
    ensures
        held_after(phase, held, Err(error)) == held,
        completion(phase, Err(error)) != Completion::Replaced,
{
}

} // verus!
