//! The search for an account in a chosen shard.
//!
//! Candidates come from outside, one at a time. The search takes the first
//! one whose identifier lies in the target shard and reports every other one
//! as a miss. It ends early when the caller interrupts it or when no candidate
//! can be had.

use crate::topology::{get_shard, shard_of, well_formed};
use vstd::prelude::*;

verus! {

/// A generated account: the phrase from which its keys can be recovered, and
/// the identifier derived from them.
#[derive(Clone, Debug)]
pub struct Candidate {
    /// The recovery phrase.
    pub mnemonic: String,
    /// The account identifier, as text.
    pub account_id: String,
}

/// What happened since the search last asked for a candidate.
#[derive(Clone, Debug)]
pub enum SearchEvent {
    /// A candidate was generated.
    Generated(Candidate),
    /// No candidate could be generated.
    GenerationFailed,
    /// The caller asked the search to stop.
    Interrupted,
}

/// Why a search ended without a candidate.
#[derive(Clone, Copy, Debug, PartialEq, Eq, Structural)]
pub enum SearchError {
    /// The caller interrupted it.
    Cancelled,
    /// The generator failed.
    CandidateGenerationFailed,
    /// The allowed number of misses was used up.
    Exhausted,
}

/// What the search does with an event.
#[derive(Clone, Debug)]
pub enum SearchAction {
    /// The candidate lies in the target shard: the search ends with it.
    Accept(Candidate),
    /// The candidate lies in the given shard, or in none: the search reports
    /// the miss and asks for another candidate.
    Retry(Option<u64>),
    /// The search ends without a candidate.
    Stop(SearchError),
}

/// The action that `event` calls for in a search for `target_shard` among `topology`.
pub open spec fn action_for(topology: Seq<u64>, target_shard: u64, event: SearchEvent)
    -> SearchAction {
    match event {
        SearchEvent::Generated(candidate) => {
            let actual = shard_of(topology, candidate.account_id@);
            if actual == Some(target_shard) {
                SearchAction::Accept(candidate)
            } else {
                SearchAction::Retry(actual)
            }
        },
        SearchEvent::GenerationFailed => SearchAction::Stop(SearchError::CandidateGenerationFailed),
        SearchEvent::Interrupted => SearchAction::Stop(SearchError::Cancelled),
    }
}

/// One step of the search: decides what `event` means for a search for
/// `target_shard` among `net_shards`.
pub fn search_step(net_shards: &Vec<u64>, target_shard: u64, event: SearchEvent) -> (action:
    SearchAction)
    requires
        well_formed(net_shards@),
    ensures
        action == action_for(net_shards@, target_shard, event),
        event is Interrupted ==> action == SearchAction::Stop(SearchError::Cancelled),
{
    match event {
        SearchEvent::Generated(candidate) => {
            let actual = get_shard(net_shards, candidate.account_id.as_str());
            match actual {
                Some(shard) if shard == target_shard => SearchAction::Accept(candidate),
                _ => SearchAction::Retry(actual),
            }
        },
        SearchEvent::GenerationFailed => SearchAction::Stop(SearchError::CandidateGenerationFailed),
        SearchEvent::Interrupted => SearchAction::Stop(SearchError::Cancelled),
    }
}

/// How a search ended, and what it went through.
pub struct SearchReport {
    /// The accepted candidate, or why there is none.
    pub result: Result<Candidate, SearchError>,
    /// Number of candidates that were turned down.
    pub misses: u64,
    /// The events that the search drew, in their order.
    pub events: Ghost<Seq<SearchEvent>>,
}

/// Searches for an account in `target_shard`, a shard of `net_shards`.
///
/// `next_event` is asked for one event after another. The first candidate
/// that lies in the target shard ends the search and is its result. Every
/// other candidate is handed to `report_miss`, as the shard it lies in or as
/// `None` where it lies in none, and counted. An interruption or a failure of
/// the generator ends the search at once, and so does the miss that brings
/// the count to `max_attempts`.
pub fn search<G, R>(
    net_shards: &Vec<u64>,
    target_shard: u64,
    max_attempts: u64,
    next_event: G,
    report_miss: R,
) -> (report: SearchReport) where G: Fn() -> SearchEvent, R: Fn(Option<u64>) -> ()
    requires
        well_formed(net_shards@),
        call_requires(next_event, ()),
        forall|actual: Option<u64>| call_requires(report_miss, (actual,)),
    ensures
        report.misses <= max_attempts,
        forall|k: int|
            0 <= k < report.events@.len() ==> call_ensures(
                next_event,
                (),
                #[trigger] report.events@[k],
            ),
        forall|k: int|
            #![trigger report.events@[k]]
            0 <= k < report.misses ==> {
                let action = action_for(net_shards@, target_shard, report.events@[k]);
                action is Retry && call_ensures(report_miss, (action->Retry_0,), ())
            },
        forall|k: int|
            0 <= k < report.events@.len() && #[trigger] report.events@[k] is Interrupted ==> k
                == report.misses && report.result == Err::<Candidate, SearchError>(
                SearchError::Cancelled,
            ),
        match report.result {
            Ok(candidate) => report.events@.len() == report.misses + 1 && action_for(
                net_shards@,
                target_shard,
                report.events@.last(),
            ) == SearchAction::Accept(candidate),
            Err(SearchError::Exhausted) => report.events@.len() == report.misses
                && report.misses == max_attempts,
            Err(reason) => report.events@.len() == report.misses + 1 && action_for(
                net_shards@,
                target_shard,
                report.events@.last(),
            ) == SearchAction::Stop(reason),
        },
{
    let mut misses: u64 = 0;
    let ghost mut events: Seq<SearchEvent> = Seq::empty();
    while misses < max_attempts
        invariant
            misses <= max_attempts,
            well_formed(net_shards@),
            call_requires(next_event, ()),
            forall|actual: Option<u64>| call_requires(report_miss, (actual,)),
            events.len() == misses,
            forall|k: int| 0 <= k < events.len() ==> call_ensures(next_event, (), #[trigger] events[k]),
            forall|k: int|
                #![trigger events[k]]
                0 <= k < misses ==> {
                    let action = action_for(net_shards@, target_shard, events[k]);
                    action is Retry && call_ensures(report_miss, (action->Retry_0,), ())
                },
        decreases max_attempts - misses,
    {
        let event = next_event();
        proof {
            events = events.push(event);
        }
        match search_step(net_shards, target_shard, event) {
            SearchAction::Accept(candidate) => {
                return SearchReport { result: Ok(candidate), misses, events: Ghost(events) };
            },
            SearchAction::Retry(actual) => {
                report_miss(actual);
                misses += 1;
            },
            SearchAction::Stop(reason) => {
                return SearchReport { result: Err(reason), misses, events: Ghost(events) };
            },
        }
    }
    SearchReport { result: Err(SearchError::Exhausted), misses, events: Ghost(events) }
}

} // verus!
