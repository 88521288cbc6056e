use relay_core::gate::{Admission, Departure, Gate};
use relay_core::session::{Session, SessionAction, SessionEvent, SessionState};

#[test]
fn gate_needs_a_permit() {
    assert!(Gate::new(0).is_none());
    let g = Gate::new(3).unwrap();
    assert_eq!(g.capacity(), 3);
    assert_eq!(g.active_count(), 0);
    assert_eq!(g.waiting_count(), 0);
}

#[test]
fn gate_admits_up_to_capacity_and_queues_the_rest() {
    let mut g = Gate::new(3).unwrap();
    for id in 0u64..3 {
        assert_eq!(g.arrive(id), Admission::Admitted);
    }
    assert_eq!(g.arrive(3), Admission::Queued);
    assert_eq!(g.arrive(4), Admission::Queued);
    assert_eq!(g.active_count(), 3);
    assert_eq!(g.waiting_count(), 2);
    assert!(g.is_active(2));
    assert!(!g.is_active(3));
    assert!(g.is_waiting(3));
    assert!(!g.is_waiting(0));
}

#[test]
fn gate_never_exceeds_capacity() {
    let mut g = Gate::new(4).unwrap();
    let mut x: u64 = 12345;
    for _ in 0..2000 {
        x = x.wrapping_mul(6364136223846793005).wrapping_add(1442695040888963407);
        let id = (x >> 33) % 16;
        if (x >> 20) % 2 == 0 {
            g.arrive(id);
        } else {
            g.leave(id);
        }
        assert!(g.active_count() <= 4);
        if g.waiting_count() > 0 {
            assert_eq!(g.active_count(), 4);
        }
    }
}

#[test]
fn freed_permit_goes_to_the_longest_waiting() {
    let mut g = Gate::new(1).unwrap();
    assert_eq!(g.arrive(10), Admission::Admitted);
    assert_eq!(g.arrive(20), Admission::Queued);
    assert_eq!(g.arrive(30), Admission::Queued);
    assert_eq!(g.leave(10), Departure::Handed(20));
    assert!(g.is_active(20));
    assert!(!g.is_active(10));
    assert_eq!(g.leave(20), Departure::Handed(30));
    assert_eq!(g.leave(30), Departure::Freed);
    assert_eq!(g.active_count(), 0);
    assert_eq!(g.waiting_count(), 0);
}

#[test]
fn permit_cannot_be_given_back_twice() {
    let mut g = Gate::new(2).unwrap();
    g.arrive(1);
    g.arrive(2);
    assert_eq!(g.leave(1), Departure::Freed);
    assert_eq!(g.leave(1), Departure::NotHeld);
    assert_eq!(g.active_count(), 1);
    assert_eq!(g.arrive(3), Admission::Admitted);
    assert_eq!(g.arrive(4), Admission::Queued);
}

#[test]
fn connection_is_counted_once() {
    let mut g = Gate::new(2).unwrap();
    assert_eq!(g.arrive(7), Admission::Admitted);
    assert_eq!(g.arrive(7), Admission::AlreadyKnown);
    assert_eq!(g.active_count(), 1);
    assert_eq!(g.arrive(8), Admission::Admitted);
    assert_eq!(g.arrive(9), Admission::Queued);
    assert_eq!(g.arrive(9), Admission::AlreadyKnown);
    assert_eq!(g.waiting_count(), 1);
}

#[test]
fn waiting_connection_can_withdraw() {
    let mut g = Gate::new(1).unwrap();
    g.arrive(1);
    g.arrive(2);
    g.arrive(3);
    assert_eq!(g.leave(2), Departure::Withdrawn);
    assert_eq!(g.waiting_count(), 1);
    assert_eq!(g.leave(1), Departure::Handed(3));
}

#[test]
fn second_connection_waits_for_the_first_to_finish() {
    let mut gate = Gate::new(1).unwrap();
    let mut first = Session::new();
    let mut second = Session::new();

    assert_eq!(gate.arrive(1), Admission::Admitted);
    assert_eq!(first.step(SessionEvent::PermitAcquired), SessionAction::WriteHandshake);
    assert_eq!(first.step(SessionEvent::HandshakeWritten), SessionAction::Dial);
    assert_eq!(first.step(SessionEvent::Dialed), SessionAction::StartPumps);

    assert_eq!(gate.arrive(2), Admission::Queued);
    assert_eq!(second.step(SessionEvent::HandshakeWritten), SessionAction::Nothing);
    assert_eq!(second.step(SessionEvent::Dialed), SessionAction::Nothing);
    assert_eq!(second.state(), SessionState::Accepted);
    assert!(!second.holds_permit());
    assert!(!gate.is_active(2));

    assert_eq!(first.step(SessionEvent::IdleTimeout), SessionAction::CloseSockets);
    assert!(!gate.is_active(2));
    assert_eq!(first.step(SessionEvent::Closed), SessionAction::ReleasePermit);
    assert_eq!(gate.leave(1), Departure::Handed(2));

    assert!(gate.is_active(2));
    assert_eq!(second.step(SessionEvent::PermitAcquired), SessionAction::WriteHandshake);
    assert_eq!(second.step(SessionEvent::HandshakeWritten), SessionAction::Dial);
    assert_eq!(second.state(), SessionState::Dialing);
    assert_eq!(gate.active_count(), 1);
}
