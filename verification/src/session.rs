//! The life of one accepted connection, from admission to teardown.

use crate::pump::{Direction, PumpEnd, PumpReport};
use vstd::prelude::*;

verus! {

/// Where a session stands.
#[derive(Clone, Copy, Debug, PartialEq, Eq, Structural)]
pub enum SessionState {
    /// Accepted, waiting for a permit.
    Accepted,
    /// Holding a permit; the handshake response is being written.
    Handshaking,
    /// The destination is being dialled.
    Dialing,
    /// Both pumps are running.
    Forwarding,
    /// The sockets are being closed.
    Closing,
    /// Everything is closed and the permit is back.
    Done,
}

impl SessionState {
    /// Position of the state in the order in which a session passes them.
    pub open spec fn rank(self) -> nat {
        match self {
            SessionState::Accepted => 0,
            SessionState::Handshaking => 1,
            SessionState::Dialing => 2,
            SessionState::Forwarding => 3,
            SessionState::Closing => 4,
            SessionState::Done => 5,
        }
    }

    /// The states in which the session occupies a slot of the admission gate.
    pub open spec fn holds_permit(self) -> bool {
        self == SessionState::Handshaking || self == SessionState::Dialing || self
            == SessionState::Forwarding || self == SessionState::Closing
    }
}

/// What went wrong in a session.
#[derive(Clone, Copy, Debug, PartialEq, Eq, Structural)]
pub enum SessionError {
    /// The handshake response could not be written to the client.
    HandshakeWrite,
    /// The destination could not be reached.
    Dial,
    /// The pump in this direction failed to read.
    Read(Direction),
    /// The pump in this direction failed to write.
    Write(Direction),
}

/// How a session ended, or would end if it closed now.
#[derive(Clone, Copy, Debug, PartialEq, Eq, Structural)]
pub enum Outcome {
    Normal,
    TimedOut,
    Errored(SessionError),
}

/// What the caller reports to a session.
#[derive(Clone, Copy, Debug, PartialEq, Eq, Structural)]
pub enum SessionEvent {
    /// The admission gate granted a permit.
    PermitAcquired,
    /// The handshake response was written completely.
    HandshakeWritten,
    /// Writing the handshake response failed.
    HandshakeFailed,
    /// The connection to the destination is open.
    Dialed,
    /// The destination refused, was unreachable or could not be resolved.
    DialFailed,
    /// The pump in this direction stopped.
    PumpFinished(Direction, PumpReport),
    /// Nothing has moved for longer than the idle timeout.
    IdleTimeout,
    /// Both sockets are closed.
    Closed,
}

/// What the caller has to do next for a session.
#[derive(Clone, Copy, Debug, PartialEq, Eq, Structural)]
pub enum SessionAction {
    /// Write the handshake response to the client.
    WriteHandshake,
    /// Open the connection to the destination.
    Dial,
    /// Start both pumps and the idle timer.
    StartPumps,
    /// Tell the pump in this direction to stop.
    CancelPump(Direction),
    /// Cancel whatever pump is still running, shut down the write halves
    /// and close every socket the session owns.
    CloseSockets,
    /// Give the permit back and log the outcome.
    ReleasePermit,
    /// Nothing to do but wait for the next event.
    Nothing,
}

/// The session error that a failed pump stands for.
pub open spec fn pump_error(direction: Direction, end: PumpEnd) -> Option<SessionError> {
    match end {
        PumpEnd::ReadFailed => Some(SessionError::Read(direction)),
        PumpEnd::WriteFailed => Some(SessionError::Write(direction)),
        _ => None,
    }
}

/// Mathematical state of a session.
pub struct SessionModel {
    pub state: SessionState,
    /// The first thing that went wrong, if anything did.
    pub outcome: Outcome,
    /// Report of the pump towards the destination, once it has stopped.
    pub to_destination: Option<PumpReport>,
    /// Report of the pump towards the client, once it has stopped.
    pub to_client: Option<PumpReport>,
}

impl SessionModel {
    /// A session that was just accepted.
    pub open spec fn start() -> SessionModel {
        SessionModel {
            state: SessionState::Accepted,
            outcome: Outcome::Normal,
            to_destination: None,
            to_client: None,
        }
    }

    /// The report of the pump in `direction`, if it has stopped.
    pub open spec fn report(self, direction: Direction) -> Option<PumpReport> {
        match direction {
            Direction::ClientToDestination => self.to_destination,
            Direction::DestinationToClient => self.to_client,
        }
    }

    /// This session in another state.
    pub open spec fn moved(self, state: SessionState) -> SessionModel {
        SessionModel { state, ..self }
    }

    /// This session with `outcome` noted, unless something was noted before:
    /// the first cause wins.
    pub open spec fn noted(self, outcome: Outcome) -> SessionModel {
        if self.outcome == Outcome::Normal {
            SessionModel { outcome, ..self }
        } else {
            self
        }
    }

    /// This session with the report of the pump in `direction` filed.
    pub open spec fn filed(self, direction: Direction, report: PumpReport) -> SessionModel {
        let with_report = match direction {
            Direction::ClientToDestination => SessionModel {
                to_destination: Some(report),
                ..self
            },
            Direction::DestinationToClient => SessionModel { to_client: Some(report), ..self },
        };
        match pump_error(direction, report.end) {
            Some(e) => with_report.noted(Outcome::Errored(e)),
            None => with_report,
        }
    }

    /// What a forwarding session does when a pump reports that it stopped.
    pub open spec fn pump_finished(self, direction: Direction, report: PumpReport) -> (
        SessionModel,
        SessionAction,
    ) {
        if self.report(direction).is_some() {
            (self, SessionAction::Nothing)
        } else if self.report(direction.spec_opposite()).is_some() {
            (
                self.filed(direction, report).moved(SessionState::Closing),
                SessionAction::CloseSockets,
            )
        } else if report.end.spec_is_error() {
            (self.filed(direction, report), SessionAction::CancelPump(direction.spec_opposite()))
        } else {
            (self.filed(direction, report), SessionAction::Nothing)
        }
    }

    /// The transition function: the state after `event` and the action it
    /// calls for. An event that does not fit the state changes nothing.
    pub open spec fn step(self, event: SessionEvent) -> (SessionModel, SessionAction) {
        match (self.state, event) {
            (SessionState::Accepted, SessionEvent::PermitAcquired) => (
                self.moved(SessionState::Handshaking),
                SessionAction::WriteHandshake,
            ),
            (SessionState::Handshaking, SessionEvent::HandshakeWritten) => (
                self.moved(SessionState::Dialing),
                SessionAction::Dial,
            ),
            (SessionState::Handshaking, SessionEvent::HandshakeFailed) => (
                self.noted(Outcome::Errored(SessionError::HandshakeWrite)).moved(
                    SessionState::Closing,
                ),
                SessionAction::CloseSockets,
            ),
            (SessionState::Dialing, SessionEvent::Dialed) => (
                self.moved(SessionState::Forwarding),
                SessionAction::StartPumps,
            ),
            (SessionState::Dialing, SessionEvent::DialFailed) => (
                self.noted(Outcome::Errored(SessionError::Dial)).moved(SessionState::Closing),
                SessionAction::CloseSockets,
            ),
            (SessionState::Forwarding, SessionEvent::PumpFinished(direction, report)) => {
                self.pump_finished(direction, report)
            },
            (SessionState::Forwarding, SessionEvent::IdleTimeout) => (
                self.noted(Outcome::TimedOut).moved(SessionState::Closing),
                SessionAction::CloseSockets,
            ),
            (SessionState::Closing, SessionEvent::Closed) => (
                self.moved(SessionState::Done),
                SessionAction::ReleasePermit,
            ),
            _ => (self, SessionAction::Nothing),
        }
    }

    /// The session fed with `events` in order: the state it ends in and the
    /// actions it called for, one per event.
    pub open spec fn run(self, events: Seq<SessionEvent>) -> (SessionModel, Seq<SessionAction>)
        decreases events.len(),
    {
        if events.len() == 0 {
            (self, Seq::empty())
        } else {
            let (next, action) = self.step(events[0]);
            let (end, rest) = next.run(events.drop_first());
            (end, seq![action] + rest)
        }
    }
}

/// How often `actions` gives the permit back.
pub open spec fn releases(actions: Seq<SessionAction>) -> nat
    decreases actions.len(),
{
    if actions.len() == 0 {
        0
    } else if actions[0] == SessionAction::ReleasePermit {
        1 + releases(actions.drop_first())
    } else {
        releases(actions.drop_first())
    }
}

/// State of one accepted connection.
#[derive(Clone, Copy, Debug)]
pub struct Session {
    state: SessionState,
    outcome: Outcome,
    to_destination: Option<PumpReport>,
    to_client: Option<PumpReport>,
}

impl View for Session {
    type V = SessionModel;

    closed spec fn view(&self) -> SessionModel {
        SessionModel {
            state: self.state,
            outcome: self.outcome,
            to_destination: self.to_destination,
            to_client: self.to_client,
        }
    }
}

impl Session {
    /// A session for a connection that was just accepted.
    pub fn new() -> (s: Session)
        ensures
            s@ == SessionModel::start(),
    {
        Session {
            state: SessionState::Accepted,
            outcome: Outcome::Normal,
            to_destination: None,
            to_client: None,
        }
    }

    /// Where the session stands.
    pub fn state(&self) -> (s: SessionState)
        ensures
            s == self@.state,
    {
        self.state
    }

    /// The first thing that went wrong so far, `Normal` if nothing did.
    pub fn outcome(&self) -> (o: Outcome)
        ensures
            o == self@.outcome,
    {
        self.outcome
    }

    /// Whether the session occupies a slot of the admission gate.
    pub fn holds_permit(&self) -> (b: bool)
        ensures
            b == self@.state.holds_permit(),
    {
        match self.state {
            SessionState::Accepted => false,
            SessionState::Done => false,
            _ => true,
        }
    }

    /// The report of the pump in `direction`: `None` while it runs, and for
    /// good if the session closed before the pump reported.
    pub fn pump_report(&self, direction: Direction) -> (r: Option<PumpReport>)
        ensures
            r == self@.report(direction),
    {
        match direction {
            Direction::ClientToDestination => self.to_destination,
            Direction::DestinationToClient => self.to_client,
        }
    }

    /// Bytes written in `direction`, if the pump has reported them.
    pub fn bytes_transferred(&self, direction: Direction) -> (n: Option<u64>)
        ensures
            n == match self@.report(direction) {
                Some(r) => Some(r.bytes),
                None => None,
            },
    {
        match self.pump_report(direction) {
            Some(r) => Some(r.bytes),
            None => None,
        }
    }

    /// Takes in one event and answers with the action to perform.
    pub fn step(&mut self, event: SessionEvent) -> (action: SessionAction)
        ensures
            (final(self)@, action) == old(self)@.step(event),
    {
        match self.state {
            SessionState::Accepted => match event {
                SessionEvent::PermitAcquired => {
                    self.state = SessionState::Handshaking;
                    SessionAction::WriteHandshake
                },
                _ => SessionAction::Nothing,
            },
            SessionState::Handshaking => match event {
                SessionEvent::HandshakeWritten => {
                    self.state = SessionState::Dialing;
                    SessionAction::Dial
                },
                SessionEvent::HandshakeFailed => {
                    self.note(Outcome::Errored(SessionError::HandshakeWrite));
                    self.state = SessionState::Closing;
                    SessionAction::CloseSockets
                },
                _ => SessionAction::Nothing,
            },
            SessionState::Dialing => match event {
                SessionEvent::Dialed => {
                    self.state = SessionState::Forwarding;
                    SessionAction::StartPumps
                },
                SessionEvent::DialFailed => {
                    self.note(Outcome::Errored(SessionError::Dial));
                    self.state = SessionState::Closing;
                    SessionAction::CloseSockets
                },
                _ => SessionAction::Nothing,
            },
            SessionState::Forwarding => match event {
                SessionEvent::PumpFinished(direction, report) => self.on_pump_finished(
                    direction,
                    report,
                ),
                SessionEvent::IdleTimeout => {
                    self.note(Outcome::TimedOut);
                    self.state = SessionState::Closing;
                    SessionAction::CloseSockets
                },
                _ => SessionAction::Nothing,
            },
            SessionState::Closing => match event {
                SessionEvent::Closed => {
                    self.state = SessionState::Done;
                    SessionAction::ReleasePermit
                },
                _ => SessionAction::Nothing,
            },
            SessionState::Done => SessionAction::Nothing,
        }
    }

    fn note(&mut self, outcome: Outcome)
        ensures
            final(self)@ == old(self)@.noted(outcome),
    {
        match self.outcome {
            Outcome::Normal => {
                self.outcome = outcome;
            },
            _ => {},
        }
    }

    fn file(&mut self, direction: Direction, report: PumpReport)
        ensures
            final(self)@ == old(self)@.filed(direction, report),
    {
        match direction {
            Direction::ClientToDestination => {
                self.to_destination = Some(report);
            },
            Direction::DestinationToClient => {
                self.to_client = Some(report);
            },
        }
        match report.end {
            PumpEnd::ReadFailed => self.note(Outcome::Errored(SessionError::Read(direction))),
            PumpEnd::WriteFailed => self.note(Outcome::Errored(SessionError::Write(direction))),
            _ => {},
        }
    }

    fn on_pump_finished(&mut self, direction: Direction, report: PumpReport) -> (action:
        SessionAction)
        ensures
            (final(self)@, action) == old(self)@.pump_finished(direction, report),
    {
        if self.pump_report(direction).is_some() {
            SessionAction::Nothing
        } else if self.pump_report(direction.opposite()).is_some() {
            self.file(direction, report);
            self.state = SessionState::Closing;
            SessionAction::CloseSockets
        } else if report.end.is_error() {
            self.file(direction, report);
            SessionAction::CancelPump(direction.opposite())
        } else {
            self.file(direction, report);
            SessionAction::Nothing
        }
    }
}

/// No step takes a session back to an earlier state, and a step asks for
/// the permit to be released exactly when it takes the session to `Done`.
pub proof fn lemma_step_moves_forward(m: SessionModel, event: SessionEvent)
    ensures
        m.state.rank() <= m.step(event).0.state.rank(),
        (m.step(event).1 == SessionAction::ReleasePermit) <==> (m.state != SessionState::Done
            && m.step(event).0.state == SessionState::Done),
        m.step(event).1 == SessionAction::ReleasePermit ==> m.state.holds_permit(),
        m.step(event).1 == SessionAction::Dial ==> m.state == SessionState::Handshaking,
        m.step(event).1 == SessionAction::StartPumps ==> m.state == SessionState::Dialing,
        m.state == SessionState::Done ==> m.step(event) == (m, SessionAction::Nothing),
{
}

/// Over any sequence of events a session gives its permit back at most
/// once, and exactly once if it reaches `Done` in the course of them.
pub proof fn lemma_permit_released_once(m: SessionModel, events: Seq<SessionEvent>)
    ensures
        m.run(events).1.len() == events.len(),
        m.state.rank() <= m.run(events).0.state.rank(),
        releases(m.run(events).1) == if m.state != SessionState::Done && m.run(events).0.state
            == SessionState::Done {
            1nat
        } else {
            0nat
        },
    decreases events.len(),
{
    if events.len() > 0 {
        let (next, action) = m.step(events[0]);
        let (end, rest) = next.run(events.drop_first());
        lemma_step_moves_forward(m, events[0]);
        lemma_permit_released_once(next, events.drop_first());
        let all = seq![action] + rest;
        assert(all.drop_first() =~= rest);
        assert(all[0] == action);
    }
}

/// When the destination cannot be reached the session goes straight to
/// closing its sockets, without starting a pump, and gives the permit back
/// as soon as they are closed.
pub proof fn lemma_dial_failure_ends_session(m: SessionModel)
    requires
        m.state == SessionState::Dialing,
    ensures
        m.run(seq![SessionEvent::DialFailed, SessionEvent::Closed]).1 == seq![
            SessionAction::CloseSockets,
            SessionAction::ReleasePermit,
        ],
        m.run(seq![SessionEvent::DialFailed, SessionEvent::Closed]).0.state == SessionState::Done,
        m.outcome == Outcome::Normal ==> m.run(
            seq![SessionEvent::DialFailed, SessionEvent::Closed],
        ).0.outcome == Outcome::Errored(SessionError::Dial),
{
    lemma_run_two(m, SessionEvent::DialFailed, SessionEvent::Closed);
}

/// When the handshake response cannot be written the session closes
/// without dialling and gives the permit back.
pub proof fn lemma_handshake_failure_ends_session(m: SessionModel)
    requires
        m.state == SessionState::Handshaking,
    ensures
        m.run(seq![SessionEvent::HandshakeFailed, SessionEvent::Closed]).1 == seq![
            SessionAction::CloseSockets,
            SessionAction::ReleasePermit,
        ],
        m.run(seq![SessionEvent::HandshakeFailed, SessionEvent::Closed]).0.state
            == SessionState::Done,
        m.outcome == Outcome::Normal ==> m.run(
            seq![SessionEvent::HandshakeFailed, SessionEvent::Closed],
        ).0.outcome == Outcome::Errored(SessionError::HandshakeWrite),
{
    lemma_run_two(m, SessionEvent::HandshakeFailed, SessionEvent::Closed);
}

/// When the idle timeout fires on a forwarding session, whatever its pumps
/// have reported so far, the session closes its sockets and gives the
/// permit back; it ends as timed out unless an error was noted before.
pub proof fn lemma_idle_timeout_ends_session(m: SessionModel)
    requires
        m.state == SessionState::Forwarding,
    ensures
        m.run(seq![SessionEvent::IdleTimeout, SessionEvent::Closed]).1 == seq![
            SessionAction::CloseSockets,
            SessionAction::ReleasePermit,
        ],
        m.run(seq![SessionEvent::IdleTimeout, SessionEvent::Closed]).0.state == SessionState::Done,
        m.outcome == Outcome::Normal ==> m.run(
            seq![SessionEvent::IdleTimeout, SessionEvent::Closed],
        ).0.outcome == Outcome::TimedOut,
{
    lemma_run_two(m, SessionEvent::IdleTimeout, SessionEvent::Closed);
}

/// A session whose pumps both stop closes when the second one reports,
/// whichever comes first and however they ended.
pub proof fn lemma_both_pumps_close_session(
    m: SessionModel,
    first: Direction,
    a: PumpReport,
    b: PumpReport,
)
    requires
        m.state == SessionState::Forwarding,
        m.to_destination.is_none(),
        m.to_client.is_none(),
    ensures
        ({
            let (mid, act1) = m.step(SessionEvent::PumpFinished(first, a));
            let (end, act2) = mid.step(SessionEvent::PumpFinished(first.spec_opposite(), b));
            &&& mid.state == SessionState::Forwarding
            &&& act1 == if a.end.spec_is_error() {
                SessionAction::CancelPump(first.spec_opposite())
            } else {
                SessionAction::Nothing
            }
            &&& end.state == SessionState::Closing
            &&& act2 == SessionAction::CloseSockets
            &&& end.report(first) == Some(a)
            &&& end.report(first.spec_opposite()) == Some(b)
        }),
{
}

/// Unfolds a run over two events into its two steps.
proof fn lemma_run_two(m: SessionModel, e1: SessionEvent, e2: SessionEvent)
    ensures
        m.run(seq![e1, e2]) == (
            m.step(e1).0.step(e2).0,
            seq![m.step(e1).1, m.step(e1).0.step(e2).1],
        ),
{
    let events = seq![e1, e2];
    let tail = events.drop_first();
    assert(tail =~= seq![e2]);
    let m1 = m.step(e1).0;
    let m2 = m1.step(e2).0;
    assert(tail.drop_first() =~= Seq::<SessionEvent>::empty());
    assert(m2.run(tail.drop_first()) == (m2, Seq::<SessionAction>::empty()));
    assert(m1.run(tail).1 =~= seq![m1.step(e2).1]);
    assert(m1.run(tail).0 == m2);
    assert(m.run(events).1 =~= seq![m.step(e1).1, m1.step(e2).1]);
}

} // verus!
