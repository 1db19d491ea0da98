//! Dispatch fan-out, reset semantics, rate limiting and the
//! connection lifecycle.

use twitchchat::dispatcher::{Dispatcher, Polled};
use twitchchat::encoder::Command;
use twitchchat::irc::RawMessage;
use twitchchat::messages::{convert, Channel, MessageKind, NamesEnd, TypedMessage};
use twitchchat::rate_limit::{Acquire, BlockingStrategy, RateLimiter};
use twitchchat::runner::{
    prepare_quit, prepare_write, Runner, RunnerEvent, RunnerState, Status, WriteError,
};

#[test]
fn fan_out_delivers_once_to_each_subscriber() {
    let mut d = Dispatcher::new();
    let p1 = d.subscribe(MessageKind::Privmsg);
    let p2 = d.subscribe(MessageKind::Privmsg);
    let r1 = d.subscribe(MessageKind::Raw);

    let raw = RawMessage::parse(b":user!user@host PRIVMSG #chan :hello").unwrap();
    d.dispatch(&raw);

    for id in [p1, p2] {
        match d.poll(id) {
            Polled::Msg(TypedMessage::Privmsg { channel, text }) => {
                assert_eq!(channel, b"#chan".to_vec());
                assert_eq!(text, b"hello".to_vec());
            }
            _ => panic!("expected one privmsg"),
        }
        // exactly one delivery per subscriber
        assert!(matches!(d.poll(id), Polled::Pending));
    }
    match d.poll(r1) {
        Polled::Msg(TypedMessage::Raw(m)) => assert_eq!(m.command(), b"PRIVMSG"),
        _ => panic!("expected the raw message"),
    }
    assert!(matches!(d.poll(r1), Polled::Pending));
}

#[test]
fn dispatch_skips_shapes_that_do_not_match() {
    let mut d = Dispatcher::new();
    let joins = d.subscribe(MessageKind::Join);
    let raw = RawMessage::parse(b"PING :token").unwrap();
    d.dispatch(&raw);
    assert!(matches!(d.poll(joins), Polled::Pending));
}

#[test]
fn delivery_is_fifo_per_subscriber() {
    let mut d = Dispatcher::new();
    let pings = d.subscribe(MessageKind::Ping);
    for token in [&b"a"[..], &b"b"[..]] {
        let mut line = b"PING :".to_vec();
        line.extend_from_slice(token);
        let raw = RawMessage::parse(&line).unwrap();
        d.dispatch(&raw);
    }
    match d.poll(pings) {
        Polled::Msg(TypedMessage::Ping { token }) => assert_eq!(token, b"a".to_vec()),
        _ => panic!("expected the first ping"),
    }
    match d.poll(pings) {
        Polled::Msg(TypedMessage::Ping { token }) => assert_eq!(token, b"b".to_vec()),
        _ => panic!("expected the second ping"),
    }
}

#[test]
fn closed_subscriber_gets_nothing_and_others_proceed() {
    let mut d = Dispatcher::new();
    let a = d.subscribe(MessageKind::Ping);
    let b = d.subscribe(MessageKind::Ping);
    d.close(a);
    let raw = RawMessage::parse(b"PING :x").unwrap();
    d.dispatch(&raw);
    assert!(matches!(d.poll(a), Polled::Ended));
    assert!(matches!(d.poll(b), Polled::Msg(_)));
}

#[test]
fn reset_ends_every_earlier_sequence() {
    let mut d = Dispatcher::new();
    let before = d.subscribe(MessageKind::Privmsg);
    let raw = RawMessage::parse(b"PRIVMSG #c :queued").unwrap();
    d.dispatch(&raw);
    d.reset();

    // a fresh subscription works; the old handle only ever ends
    let after = d.subscribe(MessageKind::Privmsg);
    d.dispatch(&raw);
    assert!(matches!(d.poll(before), Polled::Ended));
    assert!(matches!(d.poll(after), Polled::Msg(_)));
    assert!(matches!(d.poll(before), Polled::Ended));
}

#[test]
fn rate_limit_window_of_twenty() {
    // capacity 20 per 30 s, NoBlock: the 21st acquire in the window fails
    let mut l = RateLimiter::full(20, 30_000, 0);
    for _ in 0..20 {
        assert_eq!(l.acquire_at(1, 10, BlockingStrategy::NoBlock), Acquire::Granted);
    }
    assert_eq!(l.acquire_at(1, 20, BlockingStrategy::NoBlock), Acquire::RateLimited);
    // once the window has elapsed the bucket is full again
    assert_eq!(l.acquire_at(1, 30_020, BlockingStrategy::NoBlock), Acquire::Granted);
}

#[test]
fn rate_limit_refills_in_proportion_to_elapsed_time() {
    let mut l = RateLimiter::full(10, 1_000, 0);
    for _ in 0..10 {
        assert_eq!(l.acquire_at(1, 0, BlockingStrategy::NoBlock), Acquire::Granted);
    }
    // 300 ms of a 1 s period earns 3 of 10 tokens
    assert_eq!(l.acquire_at(3, 300, BlockingStrategy::NoBlock), Acquire::Granted);
    assert_eq!(l.acquire_at(1, 300, BlockingStrategy::NoBlock), Acquire::RateLimited);
}

#[test]
fn rate_limit_block_names_the_deadline() {
    let mut l = RateLimiter::full(10, 1_000, 0);
    for _ in 0..10 {
        assert_eq!(l.acquire_at(1, 0, BlockingStrategy::NoBlock), Acquire::Granted);
    }
    // one token refills in 100 ms; the deadline is exact, and a retry
    // at the deadline succeeds
    assert_eq!(l.acquire_at(1, 0, BlockingStrategy::Block), Acquire::WaitUntil(100));
    assert_eq!(l.acquire_at(1, 100, BlockingStrategy::Block), Acquire::Granted);
}

#[test]
fn runner_reaches_running_through_the_handshake() {
    let mut r = Runner::new(5_000, 0);
    assert!(r.on_event(RunnerEvent::TransportConnected, 0).is_none());
    assert!(r.on_event(RunnerEvent::RegistrationSent, 1).is_none());
    assert!(r.on_event(RunnerEvent::ReadyReceived, 2).is_none());
    assert!(r.on_event(RunnerEvent::MessageRead, 3).is_none());
}

fn running_runner() -> Runner {
    let mut r = Runner::new(5_000, 0);
    r.on_event(RunnerEvent::TransportConnected, 0);
    r.on_event(RunnerEvent::RegistrationSent, 0);
    r.on_event(RunnerEvent::ReadyReceived, 0);
    r
}

#[test]
fn clean_close_terminates_with_eof() {
    let mut r = running_runner();
    assert_eq!(r.on_event(RunnerEvent::RemoteClosed, 10), Some(Status::Eof));
}

#[test]
fn silence_beyond_the_idle_window_terminates_with_timed_out() {
    let mut r = running_runner();
    r.on_event(RunnerEvent::MessageRead, 100);
    assert!(!r.idle_expired(4_000));
    assert!(r.idle_expired(5_100));
    assert_eq!(r.on_event(RunnerEvent::IdleTimeout, 5_100), Some(Status::TimedOut));
}

#[test]
fn quit_terminates_with_cancelled() {
    let mut r = running_runner();
    assert!(r.on_event(RunnerEvent::CancelRequested, 10).is_none());
    assert_eq!(r.on_event(RunnerEvent::QuitFlushed, 11), Some(Status::Cancelled));
}

#[test]
fn terminated_state_never_moves() {
    let mut r = running_runner();
    r.on_event(RunnerEvent::RemoteClosed, 10);
    assert_eq!(r.on_event(RunnerEvent::MessageRead, 11), Some(Status::Eof));
    assert_eq!(r.on_event(RunnerEvent::CancelRequested, 12), Some(Status::Eof));
}

#[test]
fn ignored_events_leave_the_state_in_place() {
    let mut r = Runner::new(5_000, 0);
    // still connecting: a read or a flush means nothing yet
    assert_eq!(r.current_state(), RunnerState::Connecting);
    assert!(r.on_event(RunnerEvent::QuitFlushed, 0).is_none());
    assert_eq!(r.current_state(), RunnerState::Connecting);
    assert!(r.on_event(RunnerEvent::TransportConnected, 0).is_none());
    assert_eq!(r.current_state(), RunnerState::Registering);
}

#[test]
fn writer_pipeline_validates_then_gates_then_encodes() {
    let mut l = RateLimiter::full(2, 1_000, 0);
    let ok = Command::Privmsg { channel: b"#c".to_vec(), text: b"hi".to_vec() };
    let bytes = prepare_write(&ok, &mut l, 0, BlockingStrategy::NoBlock).unwrap();
    assert_eq!(bytes, b"PRIVMSG #c :hi\r\n".to_vec());

    // an invalid command is refused before it costs a token
    let bad = Command::Join { channel: b"nohash".to_vec() };
    assert!(matches!(
        prepare_write(&bad, &mut l, 1, BlockingStrategy::NoBlock),
        Err(WriteError::Invalid(_))
    ));

    // drain, then the limiter answers
    let _ = prepare_write(&ok, &mut l, 1, BlockingStrategy::NoBlock).unwrap();
    assert!(matches!(
        prepare_write(&ok, &mut l, 1, BlockingStrategy::NoBlock),
        Err(WriteError::RateLimited)
    ));
    assert!(matches!(
        prepare_write(&ok, &mut l, 1, BlockingStrategy::Block),
        Err(WriteError::WaitUntil(_))
    ));

    // quit bypasses the limiter even now
    assert_eq!(prepare_quit(), b"QUIT\r\n".to_vec());
}

#[test]
fn conversion_is_fallible_and_exact() {
    let raw = RawMessage::parse(b":n!u@h JOIN #chan").unwrap();
    match convert(&raw, MessageKind::Join).unwrap() {
        TypedMessage::Join { nick, channel } => {
            assert_eq!(nick, b"n".to_vec());
            assert_eq!(channel, b"#chan".to_vec());
        }
        _ => panic!("expected a join"),
    }
    // a shape the message does not have is refused, not mangled
    assert!(convert(&raw, MessageKind::Privmsg).is_err());
    // a join without a prefix lacks its required nick
    let bare = RawMessage::parse(b"JOIN #chan").unwrap();
    assert!(convert(&bare, MessageKind::Join).is_err());
}

#[test]
fn names_end_getters() {
    let n = NamesEnd::new(String::from("museun"), Channel::new(String::from("#museun")));
    assert_eq!(n.user(), "museun");
    assert_eq!(n.channel().name(), "#museun");
}
