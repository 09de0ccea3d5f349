//! Forwarding one request with its delay.
//!
//! Half of the total delay is spent before the request goes upstream and half
//! after the reply has come back. The exchange is a state machine: the caller
//! reports what has happened, and is told what to do next. The caller does the
//! waiting and the forwarding; the order of those steps is decided here.

use vstd::prelude::*;

verus! {

/// Where the exchange of one request stands.
#[derive(Debug, Clone, Copy, PartialEq, Eq, Structural)]
pub enum Phase {
    /// The request has arrived; its delay is not known yet.
    Received,
    /// The delay is known, and its first half is being waited out.
    OutboundDelay,
    /// The request is with the upstream host.
    Forwarding,
    /// The reply has come back, and the second half of the delay is being
    /// waited out.
    InboundDelay,
    /// The reply has been handed to the client.
    Responded,
    /// The upstream host could not be reached; the client was told so.
    Failed,
}

/// What the caller reports to the exchange.
#[derive(Debug, Clone, Copy, PartialEq, Eq, Structural)]
pub enum Event {
    /// The delay of the request has been determined.
    DelayResolved { total_delay_ns: u64 },
    /// A wait that the exchange asked for is over.
    Woke,
    /// The upstream host has replied.
    UpstreamReplied,
    /// The request could not be carried to the upstream host and back.
    UpstreamFailed,
}

/// What the exchange asks the caller to do next.
#[derive(Debug, Clone, Copy, PartialEq, Eq, Structural)]
pub enum Action {
    /// Wait for this many nanoseconds, without holding up other requests.
    Sleep { nanos: u64 },
    /// Send the request upstream exactly as it was received.
    Forward,
    /// Hand the upstream reply to the client exactly as it was received.
    Respond,
    /// Hand the upstream error to the client.
    Fail,
}

/// The exchange of one request.
#[derive(Debug, Clone, Copy, PartialEq, Eq, Structural)]
pub struct Exchange {
    /// Where the exchange stands.
    pub phase: Phase,
    /// The total delay of the request in nanoseconds; zero until it is known.
    pub total_delay_ns: u64,
}

/// The delay of one direction: half of the total, rounded down.
pub open spec fn spec_one_way_delay_ns(total_delay_ns: u64) -> u64 {
    total_delay_ns / 2
}

/// The exchange of a request that has just arrived.
pub open spec fn spec_received() -> Exchange {
    Exchange { phase: Phase::Received, total_delay_ns: 0 }
}

/// One step of an exchange: where it stands afterwards, and what it asks for.
pub struct Step {
    pub after: Exchange,
    pub action: Action,
}

/// A run of an exchange: where it stands at the end, and what it has asked
/// for on the way.
pub struct Run {
    pub last: Exchange,
    pub actions: Seq<Action>,
}

/// The step that `event` makes from `exchange`, or `None` where the event
/// cannot happen there.
pub open spec fn spec_step(exchange: Exchange, event: Event) -> Option<Step> {
    let total = exchange.total_delay_ns;
    let wait = Action::Sleep { nanos: spec_one_way_delay_ns(total) };
    match (exchange.phase, event) {
        (Phase::Received, Event::DelayResolved { total_delay_ns }) => if total_delay_ns > 0 {
            Some(
                Step {
                    after: Exchange { phase: Phase::OutboundDelay, total_delay_ns },
                    action: Action::Sleep { nanos: spec_one_way_delay_ns(total_delay_ns) },
                },
            )
        } else {
            Some(
                Step {
                    after: Exchange { phase: Phase::Forwarding, total_delay_ns },
                    action: Action::Forward,
                },
            )
        },
        (Phase::OutboundDelay, Event::Woke) => Some(
            Step { after: Exchange { phase: Phase::Forwarding, ..exchange }, action: Action::Forward },
        ),
        (Phase::Forwarding, Event::UpstreamReplied) => if total > 0 {
            Some(Step { after: Exchange { phase: Phase::InboundDelay, ..exchange }, action: wait })
        } else {
            Some(
                Step {
                    after: Exchange { phase: Phase::Responded, ..exchange },
                    action: Action::Respond,
                },
            )
        },
        (Phase::Forwarding, Event::UpstreamFailed) => Some(
            Step { after: Exchange { phase: Phase::Failed, ..exchange }, action: Action::Fail },
        ),
        (Phase::InboundDelay, Event::Woke) => Some(
            Step { after: Exchange { phase: Phase::Responded, ..exchange }, action: Action::Respond },
        ),
        _ => None,
    }
}

/// The exchange after a sequence of events and the actions that were asked
/// for on the way, or `None` where one of the events cannot happen in its
/// turn.
pub open spec fn spec_run(exchange: Exchange, events: Seq<Event>) -> Option<Run>
    decreases events.len(),
{
    if events.len() == 0 {
        Some(Run { last: exchange, actions: Seq::empty() })
    } else {
        match spec_run(exchange, events.drop_last()) {
            Some(run) => match spec_step(run.last, events.last()) {
                Some(step) => Some(Run { last: step.after, actions: run.actions.push(step.action) }),
                None => None,
            },
            None => None,
        }
    }
}

/// The nanoseconds that a sequence of actions spends waiting.
pub open spec fn spec_slept_ns(actions: Seq<Action>) -> nat
    decreases actions.len(),
{
    if actions.len() == 0 {
        0
    } else {
        spec_slept_ns(actions.drop_last()) + match actions.last() {
            Action::Sleep { nanos } => nanos as nat,
            _ => 0,
        }
    }
}

/// How far an exchange has come: each step takes it further.
pub open spec fn spec_progress(phase: Phase) -> nat {
    match phase {
        Phase::Received => 0,
        Phase::OutboundDelay => 1,
        Phase::Forwarding => 2,
        Phase::InboundDelay => 3,
        Phase::Responded => 4,
        Phase::Failed => 4,
    }
}

/// The actions that have been asked for by the time an exchange stands at
/// `exchange`, in their order: the outbound wait if there is a delay, the
/// forwarding, then the inbound wait if there is a delay and the reply, or
/// else the failure.
pub open spec fn spec_actions_so_far(exchange: Exchange) -> Seq<Action> {
    let wait = Action::Sleep { nanos: spec_one_way_delay_ns(exchange.total_delay_ns) };
    let delayed = exchange.total_delay_ns > 0;
    match exchange.phase {
        Phase::Received => Seq::empty(),
        Phase::OutboundDelay => seq![wait],
        Phase::Forwarding => if delayed {
            seq![wait, Action::Forward]
        } else {
            seq![Action::Forward]
        },
        Phase::InboundDelay => seq![wait, Action::Forward, wait],
        Phase::Responded => if delayed {
            seq![wait, Action::Forward, wait, Action::Respond]
        } else {
            seq![Action::Forward, Action::Respond]
        },
        Phase::Failed => if delayed {
            seq![wait, Action::Forward, Action::Fail]
        } else {
            seq![Action::Forward, Action::Fail]
        },
    }
}

/// Whether `exchange` can be reached from a request that has just arrived:
/// it has not been resolved yet and holds no delay, or it waits and has a
/// delay to wait for, or it is past the point where that matters.
pub open spec fn spec_reachable(exchange: Exchange) -> bool {
    match exchange.phase {
        Phase::Received => exchange.total_delay_ns == 0,
        Phase::OutboundDelay => exchange.total_delay_ns > 0,
        Phase::InboundDelay => exchange.total_delay_ns > 0,
        _ => true,
    }
}

/// The two halves of a delay add up to the delay, or to one nanosecond less
/// where the delay is odd.
pub proof fn lemma_halves_make_the_total(total_delay_ns: u64)
    ensures
        total_delay_ns - 1 <= 2 * spec_one_way_delay_ns(total_delay_ns) <= total_delay_ns,
{
}

/// Every step takes the exchange further and keeps the delay once it is
/// known, so no phase is entered twice: nothing is retried, and an exchange
/// that has responded or failed takes no further step.
pub proof fn lemma_step_advances(exchange: Exchange, event: Event)
    requires
        spec_step(exchange, event) is Some,
    ensures
        spec_progress(spec_step(exchange, event).unwrap().after.phase) > spec_progress(
            exchange.phase,
        ),
        exchange.phase != Phase::Received ==> spec_step(
            exchange,
            event,
        ).unwrap().after.total_delay_ns == exchange.total_delay_ns,
        exchange.phase != Phase::Responded,
        exchange.phase != Phase::Failed,
{
}

/// Whatever the caller reports, the actions it is asked for come in one
/// order: the outbound wait before the forwarding, the forwarding before the
/// inbound wait, the inbound wait before the reply; and after a failure
/// nothing follows. Both waits are half of the total delay, and a request
/// without a delay is never made to wait.
pub proof fn lemma_run_actions(events: Seq<Event>)
    requires
        spec_run(spec_received(), events) is Some,
    ensures
        spec_reachable(spec_run(spec_received(), events).unwrap().last),
        spec_run(spec_received(), events).unwrap().actions == spec_actions_so_far(
            spec_run(spec_received(), events).unwrap().last,
        ),
    decreases events.len(),
{
    if events.len() > 0 {
        lemma_run_actions(events.drop_last());
        let before = spec_run(spec_received(), events.drop_last()).unwrap();
        let step = spec_step(before.last, events.last()).unwrap();
        assert(before.actions.push(step.action) =~= spec_actions_so_far(step.after));
    }
}

/// By the time the client has its reply, the waits asked for add up to the
/// total delay, or to one nanosecond less where the delay is odd.
pub proof fn lemma_waits_make_the_total(events: Seq<Event>)
    requires
        spec_run(spec_received(), events) is Some,
        spec_run(spec_received(), events).unwrap().last.phase == Phase::Responded,
    ensures
        spec_run(spec_received(), events).unwrap().last.total_delay_ns - 1 <= spec_slept_ns(
            spec_run(spec_received(), events).unwrap().actions,
        ) <= spec_run(spec_received(), events).unwrap().last.total_delay_ns,
{
    lemma_run_actions(events);
    let last = spec_run(spec_received(), events).unwrap().last;
    let actions = spec_run(spec_received(), events).unwrap().actions;
    let half = spec_one_way_delay_ns(last.total_delay_ns);
    reveal_with_fuel(spec_slept_ns, 5);
    if last.total_delay_ns > 0 {
        assert(actions.drop_last() =~= seq![
            Action::Sleep { nanos: half },
            Action::Forward,
            Action::Sleep { nanos: half },
        ]);
        assert(actions.drop_last().drop_last() =~= seq![
            Action::Sleep { nanos: half },
            Action::Forward,
        ]);
        assert(actions.drop_last().drop_last().drop_last() =~= seq![Action::Sleep { nanos: half }]);
        assert(spec_slept_ns(actions) == 2 * half);
    } else {
        assert(actions.drop_last() =~= seq![Action::Forward]);
        assert(spec_slept_ns(actions) == 0);
    }
}

/// The delay of one direction: half of the total, rounded down.
pub fn one_way_delay_ns(total_delay_ns: u64) -> (nanos: u64)
    ensures
        nanos == spec_one_way_delay_ns(total_delay_ns),
        total_delay_ns - 1 <= 2 * nanos <= total_delay_ns,
{
    total_delay_ns / 2
}

impl Exchange {
    /// The exchange of a request that has just arrived.
    pub fn new() -> (exchange: Self)
        ensures
            exchange == spec_received(),
    {
        Exchange { phase: Phase::Received, total_delay_ns: 0 }
    }

    /// Whether the exchange is over: the client has its reply or its error.
    pub fn is_finished(&self) -> (done: bool)
        ensures
            done == (self.phase == Phase::Responded || self.phase == Phase::Failed),
            done ==> forall|event: Event| spec_step(*self, event) is None,
    {
        match self.phase {
            Phase::Responded => true,
            Phase::Failed => true,
            _ => false,
        }
    }

    /// Takes the step that `event` makes and returns the action to perform
    /// next. Where the event cannot happen in this phase, the exchange stays
    /// as it is and `None` is returned.
    pub fn step(&mut self, event: Event) -> (r: Option<Action>)
        ensures
            match spec_step(*old(self), event) {
                Some(step) => *final(self) == step.after && r == Some(step.action),
                None => *final(self) == *old(self) && r is None,
            },
    {
        match (self.phase, event) {
            (Phase::Received, Event::DelayResolved { total_delay_ns }) => {
                self.total_delay_ns = total_delay_ns;
                if total_delay_ns > 0 {
                    self.phase = Phase::OutboundDelay;
                    Some(Action::Sleep { nanos: one_way_delay_ns(total_delay_ns) })
                } else {
                    self.phase = Phase::Forwarding;
                    Some(Action::Forward)
                }
            },
            (Phase::OutboundDelay, Event::Woke) => {
                self.phase = Phase::Forwarding;
                Some(Action::Forward)
            },
            (Phase::Forwarding, Event::UpstreamReplied) => {
                if self.total_delay_ns > 0 {
                    self.phase = Phase::InboundDelay;
                    Some(Action::Sleep { nanos: one_way_delay_ns(self.total_delay_ns) })
                } else {
                    self.phase = Phase::Responded;
                    Some(Action::Respond)
                }
            },
            (Phase::Forwarding, Event::UpstreamFailed) => {
                self.phase = Phase::Failed;
                Some(Action::Fail)
            },
            (Phase::InboundDelay, Event::Woke) => {
                self.phase = Phase::Responded;
                Some(Action::Respond)
            },
            _ => None,
        }
    }
}

} // verus!
