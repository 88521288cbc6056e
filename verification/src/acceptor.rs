//! The listener's side of the relay: what to do with each connection that
//! comes in and each session that ends.

use crate::gate::{
    lemma_arrive_keeps_wf, lemma_leave_keeps_wf, Admission, Departure, Gate, GateModel,
};
use vstd::prelude::*;

verus! {

/// Where the acceptor stands.
#[derive(Clone, Copy, Debug, PartialEq, Eq, Structural)]
pub enum AcceptorState {
    /// The listening socket is being bound.
    Binding,
    /// Connections are being accepted.
    Listening,
    /// Binding failed: the relay cannot start.
    Failed,
}

/// What the caller reports to the acceptor.
#[derive(Clone, Copy, Debug, PartialEq, Eq, Structural)]
pub enum AcceptorEvent {
    /// The listening socket is bound.
    Bound,
    /// The listening socket could not be bound.
    BindFailed,
    /// A connection was accepted.
    Accepted,
    /// Accepting a connection failed.
    AcceptFailed,
    /// The session of the connection with this identifier is over.
    SessionFinished(u64),
}

/// What the caller has to do next for the acceptor.
#[derive(Clone, Copy, Debug, PartialEq, Eq, Structural)]
pub enum AcceptorAction {
    /// Go on accepting.
    Listen,
    /// Start the session of the connection with this identifier, which
    /// holds a permit now, and go on accepting.
    Serve(u64),
    /// Keep the connection just accepted under this identifier until its
    /// turn comes, and go on accepting.
    Park(u64),
    /// Drop the connection just accepted and go on accepting.
    Refuse,
    /// Stop: the relay cannot run.
    Abort,
    /// The event changes nothing.
    Nothing,
}

/// The identifier after `id`; after the largest comes zero.
pub open spec fn next_id(id: u64) -> u64 {
    if id == u64::MAX {
        0
    } else {
        (id + 1) as u64
    }
}

/// Mathematical state of an acceptor.
pub struct AcceptorModel {
    pub state: AcceptorState,
    pub gate: GateModel,
    /// The identifier that the next connection gets.
    pub next_id: u64,
}

impl AcceptorModel {
    /// The permits and the waiting line are consistent.
    pub open spec fn wf(self) -> bool {
        self.gate.wf()
    }

    /// An acceptor that has not bound its socket yet.
    pub open spec fn start(max_connections: nat) -> AcceptorModel {
        AcceptorModel {
            state: AcceptorState::Binding,
            gate: GateModel::start(max_connections),
            next_id: 0,
        }
    }

    /// What a listening acceptor does with a connection it accepted.
    pub open spec fn accepted(self) -> (AcceptorModel, AcceptorAction) {
        let id = self.next_id;
        let after = AcceptorModel {
            gate: self.gate.arrive(id),
            next_id: next_id(id),
            ..self
        };
        match self.gate.admission(id) {
            Admission::Admitted => (after, AcceptorAction::Serve(id)),
            Admission::Queued => (after, AcceptorAction::Park(id)),
            Admission::AlreadyKnown => (after, AcceptorAction::Refuse),
        }
    }

    /// What a listening acceptor does when a session is over.
    pub open spec fn finished(self, id: u64) -> (AcceptorModel, AcceptorAction) {
        let after = AcceptorModel { gate: self.gate.leave(id), ..self };
        match self.gate.departure(id) {
            Departure::Handed(next) => (after, AcceptorAction::Serve(next)),
            _ => (after, AcceptorAction::Listen),
        }
    }

    /// The transition function: the state after `event` and the action it
    /// calls for. An event that does not fit the state changes nothing.
    pub open spec fn step(self, event: AcceptorEvent) -> (AcceptorModel, AcceptorAction) {
        match (self.state, event) {
            (AcceptorState::Binding, AcceptorEvent::Bound) => (
                AcceptorModel { state: AcceptorState::Listening, ..self },
                AcceptorAction::Listen,
            ),
            (AcceptorState::Binding, AcceptorEvent::BindFailed) => (
                AcceptorModel { state: AcceptorState::Failed, ..self },
                AcceptorAction::Abort,
            ),
            (AcceptorState::Listening, AcceptorEvent::Accepted) => self.accepted(),
            (AcceptorState::Listening, AcceptorEvent::AcceptFailed) => (
                self,
                AcceptorAction::Listen,
            ),
            (AcceptorState::Listening, AcceptorEvent::SessionFinished(id)) => self.finished(id),
            _ => (self, AcceptorAction::Nothing),
        }
    }

    /// The acceptor after `events` in order.
    pub open spec fn run(self, events: Seq<AcceptorEvent>) -> AcceptorModel
        decreases events.len(),
    {
        if events.len() == 0 {
            self
        } else {
            self.step(events[0]).0.run(events.drop_first())
        }
    }
}

/// Decides, for a listener, which connections are served and when. Every
/// acceptor that `new` makes is well formed, and `step` keeps it so.
#[derive(Debug)]
pub struct Acceptor {
    state: AcceptorState,
    gate: Gate,
    next_id: u64,
}

impl View for Acceptor {
    type V = AcceptorModel;

    closed spec fn view(&self) -> AcceptorModel {
        AcceptorModel { state: self.state, gate: self.gate@, next_id: self.next_id }
    }
}

impl Acceptor {
    /// An acceptor that serves up to `max_connections` connections at
    /// once. It needs to serve at least one.
    pub fn new(max_connections: usize) -> (a: Option<Acceptor>)
        ensures
            max_connections == 0 <==> a.is_none(),
            a.is_some() ==> a.unwrap()@ == AcceptorModel::start(max_connections as nat)
                && a.unwrap()@.wf(),
    {
        match Gate::new(max_connections) {
            Some(gate) => Some(Acceptor { state: AcceptorState::Binding, gate, next_id: 0 }),
            None => None,
        }
    }

    /// Where the acceptor stands.
    pub fn state(&self) -> (s: AcceptorState)
        ensures
            s == self@.state,
    {
        self.state
    }

    /// Number of sessions that are being served.
    pub fn active_count(&self) -> (n: usize)
        ensures
            n == self@.gate.active.len(),
            self@.wf() ==> n <= self@.gate.capacity,
    {
        self.gate.active_count()
    }

    /// Number of connections that wait for their turn.
    pub fn waiting_count(&self) -> (n: usize)
        ensures
            n == self@.gate.waiting.len(),
    {
        self.gate.waiting_count()
    }

    /// Takes in one event and answers with the action to perform.
    pub fn step(&mut self, event: AcceptorEvent) -> (action: AcceptorAction)
        requires
            old(self)@.wf(),
        ensures
            (final(self)@, action) == old(self)@.step(event),
            final(self)@.wf(),
            final(self)@.gate.active.len() <= final(self)@.gate.capacity,
    {
        match self.state {
            AcceptorState::Binding => match event {
                AcceptorEvent::Bound => {
                    self.state = AcceptorState::Listening;
                    AcceptorAction::Listen
                },
                AcceptorEvent::BindFailed => {
                    self.state = AcceptorState::Failed;
                    AcceptorAction::Abort
                },
                _ => AcceptorAction::Nothing,
            },
            AcceptorState::Listening => match event {
                AcceptorEvent::Accepted => {
                    let id: u64 = self.next_id;
                    self.next_id = if id == u64::MAX {
                        0
                    } else {
                        id + 1
                    };
                    match self.gate.arrive(id) {
                        Admission::Admitted => AcceptorAction::Serve(id),
                        Admission::Queued => AcceptorAction::Park(id),
                        Admission::AlreadyKnown => AcceptorAction::Refuse,
                    }
                },
                AcceptorEvent::AcceptFailed => AcceptorAction::Listen,
                AcceptorEvent::SessionFinished(id) => match self.gate.leave(id) {
                    Departure::Handed(next) => AcceptorAction::Serve(next),
                    _ => AcceptorAction::Listen,
                },
                _ => AcceptorAction::Nothing,
            },
            AcceptorState::Failed => AcceptorAction::Nothing,
        }
    }
}

/// One step keeps the acceptor well formed, and a session is only ever
/// started for a connection that holds a permit.
pub proof fn lemma_step_keeps_wf(m: AcceptorModel, event: AcceptorEvent)
    requires
        m.wf(),
    ensures
        m.step(event).0.wf(),
        m.step(event).0.gate.capacity == m.gate.capacity,
        m.step(event).0.gate.active.len() <= m.gate.capacity,
        forall|id: u64|
            m.step(event).1 == AcceptorAction::Serve(id) ==> m.step(event).0.gate.active.contains(
                id,
            ),
        forall|id: u64|
            m.step(event).1 == AcceptorAction::Park(id) ==> m.step(event).0.gate.waiting.contains(
                id,
            ) && m.gate.active.len() == m.gate.capacity,
{
    match (m.state, event) {
        (AcceptorState::Listening, AcceptorEvent::Accepted) => {
            let id = m.next_id;
            lemma_arrive_keeps_wf(m.gate, id);
            let after = m.gate.arrive(id);
            match m.gate.admission(id) {
                Admission::Admitted => {
                    assert(after.active[after.active.len() - 1] == id);
                },
                Admission::Queued => {
                    assert(after.waiting[after.waiting.len() - 1] == id);
                },
                Admission::AlreadyKnown => {},
            }
        },
        (AcceptorState::Listening, AcceptorEvent::SessionFinished(id)) => {
            lemma_leave_keeps_wf(m.gate, id);
            let after = m.gate.leave(id);
            match m.gate.departure(id) {
                Departure::Handed(next) => {
                    assert(after.active[after.active.len() - 1] == next);
                },
                _ => {},
            }
        },
        _ => {},
    }
}

/// Whatever happens at the listener, in whatever order, no more sessions
/// are served at once than there are permits.
pub proof fn lemma_never_serves_too_many(m: AcceptorModel, events: Seq<AcceptorEvent>)
    requires
        m.wf(),
    ensures
        m.run(events).wf(),
        m.run(events).gate.capacity == m.gate.capacity,
        m.run(events).gate.active.len() <= m.gate.capacity,
    decreases events.len(),
{
    if events.len() > 0 {
        lemma_step_keeps_wf(m, events[0]);
        lemma_never_serves_too_many(m.step(events[0]).0, events.drop_first());
    }
}

/// A failed accept changes nothing and leaves the acceptor listening; only
/// a failed bind stops it, and then for good.
pub proof fn lemma_only_bind_failure_stops(m: AcceptorModel, event: AcceptorEvent)
    ensures
        m.state == AcceptorState::Listening ==> m.step(event).0.state == AcceptorState::Listening,
        m.state == AcceptorState::Listening ==> m.step(AcceptorEvent::AcceptFailed) == (
            m,
            AcceptorAction::Listen,
        ),
        m.step(event).1 == AcceptorAction::Abort <==> (m.state == AcceptorState::Binding && event
            == AcceptorEvent::BindFailed),
        m.state == AcceptorState::Failed ==> m.step(event) == (m, AcceptorAction::Nothing),
{
}

} // verus!
