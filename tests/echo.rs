use pingpong::connection::{Connection, Event, Interest, ReadOutcome, WriteOutcome};
use pingpong::state::{find_newline, State};

fn data(s: &[u8]) -> ReadOutcome {
    ReadOutcome::Data(s.to_vec())
}

/// Sends all pending bytes, at most `chunk` per write, collecting them.
fn drain(c: &mut Connection, chunk: usize, out: &mut Vec<u8>) {
    while c.get_event_set() == Interest::Writable {
        let p = c.pending();
        let n = p.len().min(chunk);
        out.extend_from_slice(&p[..n]);
        c.write(WriteOutcome::Sent(n));
    }
}

#[test]
fn hello_is_echoed_and_connection_stays_open() {
    let mut c = Connection::new(1);
    assert_eq!(c.read(data(b"hello\n")), Interest::Writable);
    assert_eq!(c.pending(), b"hello\n".to_vec());
    assert_eq!(c.write(WriteOutcome::Sent(6)), Interest::Readable);
    assert!(!c.is_closed());
    assert!(matches!(&c.state, State::Reading(b) if b.is_empty()));
}

#[test]
fn two_lines_in_one_read_are_echoed_in_turn() {
    let mut c = Connection::new(1);
    assert_eq!(c.read(data(b"a\nb\n")), Interest::Writable);
    assert_eq!(c.pending(), b"a\n".to_vec());
    // The second line is ready without another read.
    assert_eq!(c.write(WriteOutcome::Sent(2)), Interest::Writable);
    assert_eq!(c.pending(), b"b\n".to_vec());
    assert_eq!(c.write(WriteOutcome::Sent(2)), Interest::Readable);
}

#[test]
fn unterminated_input_is_flushed_on_close() {
    let mut c = Connection::new(1);
    assert_eq!(c.read(data(b"partial")), Interest::Readable);
    assert!(c.pending().is_empty());
    assert_eq!(c.read(ReadOutcome::Ended), Interest::Writable);
    assert_eq!(c.pending(), b"partial".to_vec());
    assert_eq!(c.write(WriteOutcome::Sent(7)), Interest::Readable);
    assert_eq!(c.read(ReadOutcome::Ended), Interest::Nothing);
    assert!(c.is_closed());
}

#[test]
fn end_of_stream_on_empty_buffer_closes_at_once() {
    let mut c = Connection::new(3);
    assert_eq!(c.read(ReadOutcome::Ended), Interest::Nothing);
    assert!(c.is_closed());
    assert!(c.pending().is_empty());
}

#[test]
fn chunked_input_round_trips() {
    let input: &[u8] = b"first line\nsecond\n\nthird without end";
    for read_chunk in 1..8 {
        for write_chunk in 1..5 {
            let mut c = Connection::new(1);
            let mut out = Vec::new();
            for piece in input.chunks(read_chunk) {
                c.read(data(piece));
                drain(&mut c, write_chunk, &mut out);
            }
            c.read(ReadOutcome::Ended);
            drain(&mut c, write_chunk, &mut out);
            c.read(ReadOutcome::Ended);
            assert!(c.is_closed());
            assert_eq!(out, input.to_vec());
        }
    }
}

#[test]
fn partial_write_advances_the_cursor() {
    let mut c = Connection::new(1);
    c.read(data(b"abcdef\nxy"));
    assert_eq!(c.write(WriteOutcome::Sent(3)), Interest::Writable);
    assert_eq!(c.pending(), b"def\n".to_vec());
    assert_eq!(c.write(WriteOutcome::Sent(0)), Interest::Writable);
    assert_eq!(c.write(WriteOutcome::WouldBlock), Interest::Writable);
    assert_eq!(c.pending(), b"def\n".to_vec());
    assert_eq!(c.write(WriteOutcome::Sent(4)), Interest::Readable);
    assert!(matches!(&c.state, State::Reading(b) if b == b"xy"));
}

#[test]
fn would_block_read_changes_nothing() {
    let mut c = Connection::new(1);
    c.read(data(b"ab"));
    assert_eq!(c.read(ReadOutcome::WouldBlock), Interest::Readable);
    assert!(matches!(&c.state, State::Reading(b) if b == b"ab"));
}

#[test]
fn socket_faults_close_the_connection() {
    let mut c = Connection::new(1);
    c.read(data(b"ab"));
    assert_eq!(c.read(ReadOutcome::Fault), Interest::Nothing);
    assert!(c.is_closed());

    let mut d = Connection::new(2);
    d.read(data(b"ab\n"));
    assert_eq!(d.write(WriteOutcome::Fault), Interest::Nothing);
    assert!(d.is_closed());
}

#[test]
fn mismatched_events_change_nothing() {
    let mut c = Connection::new(1);
    assert_eq!(c.ready(Event::Writable(WriteOutcome::Sent(0))), Interest::Readable);
    c.ready(Event::Readable(data(b"x\ny")));
    assert_eq!(c.ready(Event::Readable(data(b"z"))), Interest::Writable);
    assert_eq!(c.pending(), b"x\n".to_vec());
    assert_eq!(c.ready(Event::Writable(WriteOutcome::Sent(2))), Interest::Readable);
    assert!(matches!(&c.state, State::Reading(b) if b == b"y"));
}

#[test]
fn find_newline_gives_the_first_terminator() {
    assert_eq!(find_newline(&b"ab\ncd\n".to_vec()), Some(2));
    assert_eq!(find_newline(&b"\n".to_vec()), Some(0));
    assert_eq!(find_newline(&b"abc".to_vec()), None);
    assert_eq!(find_newline(&Vec::new()), None);
}
