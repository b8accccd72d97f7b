//! The supervisor: how many anomalies in a row the monitor bears.

use vstd::prelude::*;
use crate::anomaly::{anomaly_views, AnomalyRecord, AnomalyView};
use crate::inspect::{root_text, verdict, verify_file, LiveFile, LiveFileView};
use crate::model::{Baseline, EntryView};
use crate::monitor::{FileEvent, FileEventView};
use crate::scanner::relative_to;

verus! {

/// The number of consecutive anomalies at which the monitor fails closed.
pub const MAX_CONSECUTIVE_ANOMALIES: usize = 5;

/// The state of the monitor between two events.
#[derive(Debug, Clone, Copy, PartialEq, Eq)]
pub enum SupervisorState {
    /// Running, with this many anomalies in a row behind it.
    Idle(usize),
    /// Terminated; no event is processed any more.
    FailClosed,
}

impl SupervisorState {
    /// A running state counts fewer anomalies than the threshold.
    pub open spec fn well_formed(self) -> bool {
        match self {
            SupervisorState::Idle(n) => n < MAX_CONSECUTIVE_ANOMALIES,
            SupervisorState::FailClosed => true,
        }
    }

    /// The state when monitoring starts.
    pub fn new() -> (r: Self)
        ensures
            r == SupervisorState::Idle(0),
            r.well_formed(),
    {
        SupervisorState::Idle(0)
    }

    /// Whether the monitor has terminated.
    pub fn is_fail_closed(&self) -> (r: bool)
        ensures
            r == (*self == SupervisorState::FailClosed),
    {
        match self {
            SupervisorState::FailClosed => true,
            SupervisorState::Idle(_) => false,
        }
    }

    /// The state after one more event.
    pub fn step(self, anomalous: bool) -> (r: Self)
        ensures
            r == after_event(self, anomalous),
            r.well_formed(),
    {
        match self {
            SupervisorState::FailClosed => SupervisorState::FailClosed,
            SupervisorState::Idle(n) => {
                if !anomalous {
                    SupervisorState::Idle(0)
                } else if n >= MAX_CONSECUTIVE_ANOMALIES - 1 {
                    SupervisorState::FailClosed
                } else {
                    SupervisorState::Idle(n + 1)
                }
            },
        }
    }
}

/// The state after an event: a clean one resets the count, an anomalous one
/// raises it, and at the threshold the monitor fails closed for good.
pub open spec fn after_event(state: SupervisorState, anomalous: bool) -> SupervisorState {
    match state {
        SupervisorState::FailClosed => SupervisorState::FailClosed,
        SupervisorState::Idle(n) => if !anomalous {
            SupervisorState::Idle(0)
        } else if n + 1 >= MAX_CONSECUTIVE_ANOMALIES {
            SupervisorState::FailClosed
        } else {
            SupervisorState::Idle((n + 1) as usize)
        },
    }
}

/// The state after a sequence of events, each told by whether it was anomalous.
pub open spec fn after_events(state: SupervisorState, events: Seq<bool>) -> SupervisorState
    decreases events.len(),
{
    if events.len() == 0 {
        state
    } else {
        after_event(after_events(state, events.drop_last()), events.last())
    }
}

/// Whether five events in a row, starting at `i`, are anomalous.
pub open spec fn anomalous_run_at(events: Seq<bool>, i: int) -> bool {
    &&& 0 <= i
    &&& i + MAX_CONSECUTIVE_ANOMALIES <= events.len()
    &&& forall|k: int| i <= k < i + MAX_CONSECUTIVE_ANOMALIES ==> #[trigger] events[k]
}

/// The number of anomalous events at the end of the sequence.
pub open spec fn trailing_anomalies(events: Seq<bool>) -> nat
    decreases events.len(),
{
    if events.len() == 0 || !events.last() {
        0
    } else {
        1 + trailing_anomalies(events.drop_last())
    }
}

/// The last `trailing_anomalies` events are anomalous, and the one before
/// them is not.
pub proof fn trailing_anomalies_bounds(events: Seq<bool>)
    ensures
        trailing_anomalies(events) <= events.len(),
        forall|k: int| events.len() - trailing_anomalies(events) <= k < events.len() ==> #[trigger] events[k],
        trailing_anomalies(events) < events.len() ==> !events[events.len() - trailing_anomalies(events) - 1],
    decreases events.len(),
{
    if events.len() > 0 && events.last() {
        let rest = events.drop_last();
        trailing_anomalies_bounds(rest);
        assert forall|k: int| events.len() - trailing_anomalies(events) <= k < events.len() implies #[trigger] events[k] by {
            if k < rest.len() {
                assert(rest[k]);
            }
        }
        if trailing_anomalies(events) < events.len() {
            assert(!rest[rest.len() - trailing_anomalies(rest) - 1]);
        }
    }
}

/// From the start, the monitor has failed closed exactly when five events in
/// a row were anomalous; while it runs, its count is the number of anomalous
/// events at the end of the sequence.
pub proof fn fail_closed_iff_anomalous_run(events: Seq<bool>)
    ensures
        after_events(SupervisorState::Idle(0), events) == SupervisorState::FailClosed <==> exists|i: int| anomalous_run_at(events, i),
        after_events(SupervisorState::Idle(0), events) != SupervisorState::FailClosed ==> after_events(SupervisorState::Idle(0), events) == SupervisorState::Idle(trailing_anomalies(events) as usize) && trailing_anomalies(events) < MAX_CONSECUTIVE_ANOMALIES,
    decreases events.len(),
{
    let start = SupervisorState::Idle(0);
    if events.len() > 0 {
        let rest = events.drop_last();
        fail_closed_iff_anomalous_run(rest);
        trailing_anomalies_bounds(rest);
        trailing_anomalies_bounds(events);
        let n = events.len() as int;
        if exists|i: int| anomalous_run_at(rest, i) {
            let i = choose|i: int| anomalous_run_at(rest, i);
            assert forall|k: int| i <= k < i + MAX_CONSECUTIVE_ANOMALIES implies #[trigger] events[k] by {
                assert(rest[k]);
            }
            assert(anomalous_run_at(events, i));
        } else {
            let t = trailing_anomalies(rest) as int;
            if events.last() && t + 1 >= MAX_CONSECUTIVE_ANOMALIES {
                assert(anomalous_run_at(events, n - MAX_CONSECUTIVE_ANOMALIES));
            } else {
                assert forall|i: int| !anomalous_run_at(events, i) by {
                    if anomalous_run_at(events, i) {
                        if i + MAX_CONSECUTIVE_ANOMALIES < n {
                            assert forall|k: int| i <= k < i + MAX_CONSECUTIVE_ANOMALIES implies #[trigger] rest[k] by {
                                assert(events[k]);
                            }
                            assert(anomalous_run_at(rest, i));
                        } else {
                            assert(events[n - 1]);
                            assert(events.last());
                            assert(t < rest.len());
                            assert(!rest[rest.len() - t - 1]);
                            assert(events[rest.len() - t - 1]);
                        }
                    }
                }
            }
        }
    }
}

/// A clean event brings a running monitor back to a count of zero, whatever
/// came before.
pub proof fn clean_event_resets(state: SupervisorState)
    requires
        state != SupervisorState::FailClosed,
    ensures
        after_event(state, false) == SupervisorState::Idle(0),
{
}

/// An event together with what was found of its file.
#[derive(Debug, PartialEq, Eq)]
pub struct Observation {
    pub event: FileEvent,
    pub live: LiveFile,
}

/// An observation as mathematical values.
pub struct ObservationView {
    pub event: FileEventView,
    pub live: LiveFileView,
}

impl View for Observation {
    type V = ObservationView;

    open spec fn view(&self) -> ObservationView {
        ObservationView { event: self.event@, live: self.live@ }
    }
}

/// The views of a sequence of observations, in the same order.
pub open spec fn observation_views(observations: Seq<Observation>) -> Seq<ObservationView> {
    Seq::new(observations.len(), |i: int| observations[i]@)
}

/// What a run of the monitor came to.
#[derive(Debug, PartialEq, Eq)]
pub struct MonitorReport {
    /// The state at the end: failed closed, or running when the events ended.
    pub state: SupervisorState,
    /// How many events were processed.
    pub processed: usize,
    /// The anomalies that were met, in the order of their events.
    pub anomalies: Vec<AnomalyRecord>,
}

/// The anomaly of one observation against a baseline, if there is one.
pub open spec fn observed(baseline: Seq<EntryView>, o: ObservationView) -> Option<AnomalyView> {
    verdict(baseline, relative_to(o.event.path, root_text()), o.live)
}

/// For each of the first `n` observations, whether it is anomalous.
pub open spec fn outcomes(baseline: Seq<EntryView>, observations: Seq<ObservationView>, n: int) -> Seq<bool> {
    Seq::new(n as nat, |i: int| observed(baseline, observations[i]) is Some)
}

/// The anomalies of the first `n` observations, in order.
pub open spec fn reported(baseline: Seq<EntryView>, observations: Seq<ObservationView>, n: int) -> Seq<AnomalyView>
    decreases n,
{
    if n <= 0 {
        Seq::empty()
    } else {
        match observed(baseline, observations[n - 1]) {
            Some(a) => reported(baseline, observations, n - 1).push(a),
            None => reported(baseline, observations, n - 1),
        }
    }
}

/// Runs the monitor over a stream of events, one at a time and in order.
///
/// Each event's file is checked against the baseline. The run stops at the
/// event that makes the fifth anomaly in a row, failed closed; otherwise it
/// ends with the stream, still running.
pub fn run_monitor_mode(baseline: &Baseline, observations: &Vec<Observation>) -> (r: MonitorReport)
    ensures
        r.processed <= observations@.len(),
        r.state == after_events(
            SupervisorState::Idle(0),
            outcomes(baseline@.entries, observation_views(observations@), r.processed as int),
        ),
        r.state.well_formed(),
        r.state != SupervisorState::FailClosed ==> r.processed == observations@.len(),
        r.state == SupervisorState::FailClosed ==> r.processed > 0 && after_events(
            SupervisorState::Idle(0),
            outcomes(baseline@.entries, observation_views(observations@), r.processed - 1),
        ) != SupervisorState::FailClosed,
        anomaly_views(r.anomalies@) == reported(baseline@.entries, observation_views(observations@), r.processed as int),
{
    let ghost b = baseline@.entries;
    let ghost obs = observation_views(observations@);
    let mut state = SupervisorState::new();
    let mut anomalies: Vec<AnomalyRecord> = Vec::new();
    let mut i: usize = 0;
    assert(outcomes(b, obs, 0) =~= Seq::<bool>::empty());
    while i < observations.len()
        invariant
            i <= observations.len(),
            b == baseline@.entries,
            obs == observation_views(observations@),
            state.well_formed(),
            state != SupervisorState::FailClosed,
            state == after_events(SupervisorState::Idle(0), outcomes(b, obs, i as int)),
            anomaly_views(anomalies@) == reported(b, obs, i as int),
        decreases observations.len() - i,
    {
        let o = &observations[i];
        assert(obs[i as int] == o@);
        let ghost before = anomaly_views(anomalies@);
        let found = verify_file(o.event.path.as_str(), &baseline.entries, &o.live);
        let anomalous = found.is_some();
        match found {
            Some(a) => {
                anomalies.push(a);
                assert(anomaly_views(anomalies@) =~= before.push(a@));
            },
            None => {},
        }
        state = state.step(anomalous);
        proof {
            let next = outcomes(b, obs, i + 1);
            assert(next.drop_last() =~= outcomes(b, obs, i as int));
            assert(next.last() == anomalous);
        }
        i += 1;
        if state.is_fail_closed() {
            return MonitorReport { state, processed: i, anomalies };
        }
    }
    MonitorReport { state, processed: i, anomalies }
}

} // verus!
