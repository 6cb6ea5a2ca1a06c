use pingpong::connection::{Event, Interest, ReadOutcome, WriteOutcome};
use pingpong::server::{AcceptOutcome, Action, ListenerAction, Pong, Token, MAX_CONNECTIONS};
use pingpong::table::{CapacityExceeded, ConnectionTable};

fn readable(s: &[u8]) -> Event {
    Event::Readable(ReadOutcome::Data(s.to_vec()))
}

#[test]
fn handles_start_at_one_and_the_lowest_free_is_reused() {
    let mut t = ConnectionTable::new(4);
    assert_eq!(t.insert(), Ok(1));
    assert_eq!(t.insert(), Ok(2));
    assert_eq!(t.insert(), Ok(3));
    t.remove(2);
    assert_eq!(t.count(), 2);
    assert!(!t.has(2));
    assert!(!t.has(0));
    assert_eq!(t.insert(), Ok(2));
    assert_eq!(t.insert(), Ok(4));
    assert_eq!(t.insert(), Err(CapacityExceeded));
    assert_eq!(t.count(), 4);
    assert_eq!(t.capacity(), 4);
}

#[test]
fn connections_beyond_capacity_are_rejected_and_the_others_still_served() {
    let mut p = Pong::with_capacity(2);
    assert_eq!(p.on_accept(AcceptOutcome::Accepted), ListenerAction::Register(1));
    assert_eq!(p.on_accept(AcceptOutcome::Accepted), ListenerAction::Register(2));
    assert_eq!(p.ready(1, readable(b"one")), Action::Reregister(Interest::Readable));
    assert_eq!(p.on_accept(AcceptOutcome::Accepted), ListenerAction::Reject);
    assert_eq!(p.on_accept(AcceptOutcome::Accepted), ListenerAction::Reject);
    assert_eq!(p.count(), 2);
    assert_eq!(p.ready(1, readable(b"\n")), Action::Reregister(Interest::Writable));
    assert_eq!(p.pending(1), b"one\n".to_vec());
    assert_eq!(p.ready(2, readable(b"two\n")), Action::Reregister(Interest::Writable));
    assert_eq!(p.pending(2), b"two\n".to_vec());
    assert_eq!(
        p.ready(1, Event::Writable(WriteOutcome::Sent(4))),
        Action::Reregister(Interest::Readable)
    );
}

#[test]
fn default_capacity_admits_exactly_max_connections() {
    let mut p = Pong::new();
    for h in 1..=MAX_CONNECTIONS {
        assert_eq!(p.on_accept(AcceptOutcome::Accepted), ListenerAction::Register(h));
    }
    assert_eq!(p.on_accept(AcceptOutcome::Accepted), ListenerAction::Reject);
    assert_eq!(p.count(), MAX_CONNECTIONS);
}

#[test]
fn closed_connections_are_removed_and_their_handle_freed() {
    let mut p = Pong::with_capacity(3);
    p.on_accept(AcceptOutcome::Accepted);
    p.on_accept(AcceptOutcome::Accepted);
    assert_eq!(p.ready(1, Event::Readable(ReadOutcome::Ended)), Action::Remove);
    assert_eq!(p.count(), 1);
    assert_eq!(p.interest(2), Interest::Readable);
    assert_eq!(p.on_accept(AcceptOutcome::Accepted), ListenerAction::Register(1));
    assert_eq!(p.ready(2, Event::Readable(ReadOutcome::Fault)), Action::Remove);
    assert_eq!(p.count(), 1);
}

#[test]
fn listener_outcomes() {
    let mut p = Pong::with_capacity(1);
    assert_eq!(p.on_accept(AcceptOutcome::NotReady), ListenerAction::Wait);
    assert_eq!(p.on_accept(AcceptOutcome::Fault), ListenerAction::Shutdown);
    assert_eq!(p.count(), 0);
}

#[test]
fn raw_handle_zero_is_the_listener() {
    assert_eq!(Token::from_raw(0), Token::Listener);
    assert_eq!(Token::from_raw(7), Token::Connection(7));
    assert_eq!(Token::Listener.to_raw(), 0);
    assert_eq!(Token::Connection(5).to_raw(), 5);
}
