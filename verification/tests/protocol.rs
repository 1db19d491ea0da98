//! Decoding and encoding: tag parsing, fragmentation, round trips,
//! and the per-line error cases.

use twitchchat::decoder::Decoder;
use twitchchat::encoder::{encode, validate, Command, ValidationError};
use twitchchat::irc::{DecodeError, RawMessage};

#[test]
fn tag_parsing_full_line() {
    let line = b"@badge-info=;badges=broadcaster/1;color=#FF0000 :user!user@user.tmi.twitch.tv PRIVMSG #chan :hello";
    let raw = RawMessage::parse(line).unwrap();
    assert_eq!(raw.command(), b"PRIVMSG");
    assert_eq!(raw.nick().unwrap(), b"user");
    assert_eq!(raw.user_part().unwrap(), b"user");
    assert_eq!(raw.host_part().unwrap(), b"user.tmi.twitch.tv");
    assert_eq!(raw.params_len(), 1);
    assert_eq!(raw.param(0), b"#chan");
    assert_eq!(raw.trailing().unwrap(), b"hello");
    assert_eq!(raw.tags_len(), 3);
    assert_eq!(raw.tag(b"color").unwrap(), b"#FF0000");
    assert_eq!(raw.tag(b"badges").unwrap(), b"broadcaster/1");
    // key present, value empty
    assert_eq!(raw.tag(b"badge-info").unwrap(), b"");
    assert!(raw.tag(b"absent").is_none());
}

#[test]
fn tag_without_equals_sign_has_empty_value() {
    let raw = RawMessage::parse(b"@flag PING :x").unwrap();
    assert_eq!(raw.tag(b"flag").unwrap(), b"");
}

#[test]
fn tag_values_pass_escapes_through_raw() {
    // IRCv3 escape sequences are kept as they stand, not unescaped.
    let raw = RawMessage::parse(b"@msg=a\\sb PING :x").unwrap();
    assert_eq!(raw.tag(b"msg").unwrap(), b"a\\sb");
}

#[test]
fn command_only_line() {
    let raw = RawMessage::parse(b"QUIT").unwrap();
    assert_eq!(raw.command(), b"QUIT");
    assert_eq!(raw.params_len(), 0);
    assert!(raw.trailing().is_none());
    assert!(raw.nick().is_none());
    assert_eq!(raw.tags_len(), 0);
}

#[test]
fn prefix_without_user_or_host() {
    let raw = RawMessage::parse(b":nick PART #ch").unwrap();
    assert_eq!(raw.nick().unwrap(), b"nick");
    assert!(raw.user_part().is_none());
    assert!(raw.host_part().is_none());
    assert_eq!(raw.param(0), b"#ch");
}

#[test]
fn trailing_may_contain_spaces_and_colons() {
    let raw = RawMessage::parse(b"PRIVMSG #ch :hello there: again").unwrap();
    assert_eq!(raw.trailing().unwrap(), b"hello there: again");
}

#[test]
fn empty_line_is_empty_message() {
    assert_eq!(RawMessage::parse(b"").unwrap_err(), DecodeError::EmptyMessage);
}

#[test]
fn prefix_only_line_is_empty_message() {
    assert_eq!(
        RawMessage::parse(b":nick!u@h ").unwrap_err(),
        DecodeError::EmptyMessage
    );
}

#[test]
fn fragmentation_two_deliveries_equal_one() {
    let mut split = Decoder::new(1024);
    split.feed(b"PRIVMSG #ch");
    assert!(split.next_message().is_none());
    split.feed(b"an :hi\r\n");
    let from_parts = split.next_message().unwrap().unwrap();

    let mut whole = Decoder::new(1024);
    whole.feed(b"PRIVMSG #chan :hi\r\n");
    let from_whole = whole.next_message().unwrap().unwrap();

    assert_eq!(from_parts.command(), from_whole.command());
    assert_eq!(from_parts.params_len(), from_whole.params_len());
    assert_eq!(from_parts.param(0), from_whole.param(0));
    assert_eq!(from_parts.trailing().unwrap(), from_whole.trailing().unwrap());
    assert_eq!(from_parts.param(0), b"#chan");
    assert_eq!(from_parts.trailing().unwrap(), b"hi");
}

#[test]
fn decoder_yields_lines_in_arrival_order() {
    let mut d = Decoder::new(1024);
    d.feed(b"PING :a\r\nPING :b\r\nPING :c\r\n");
    for expected in [b"a", b"b", b"c"] {
        let raw = d.next_message().unwrap().unwrap();
        assert_eq!(raw.trailing().unwrap(), expected);
    }
    assert!(d.next_message().is_none());
}

#[test]
fn decoder_accepts_bare_lf_terminator() {
    let mut d = Decoder::new(1024);
    d.feed(b"PING :x\n");
    let raw = d.next_message().unwrap().unwrap();
    assert_eq!(raw.command(), b"PING");
}

#[test]
fn too_long_line_fails_alone_and_decoding_goes_on() {
    let mut d = Decoder::new(8);
    d.feed(b"PRIVMSG #chan :spam\r\nPING :a\r\n");
    assert_eq!(d.next_message().unwrap().unwrap_err(), DecodeError::LineTooLong);
    let raw = d.next_message().unwrap().unwrap();
    assert_eq!(raw.command(), b"PING");
}

#[test]
fn blank_line_is_skipped_and_decoding_goes_on() {
    let mut d = Decoder::new(1024);
    d.feed(b"\r\nPING :a\r\n");
    assert_eq!(d.next_message().unwrap().unwrap_err(), DecodeError::EmptyMessage);
    assert_eq!(d.next_message().unwrap().unwrap().command(), b"PING");
}

fn round_trip(c: &Command) -> RawMessage {
    let bytes = encode(c);
    let mut d = Decoder::new(1024);
    d.feed(&bytes);
    d.next_message().unwrap().unwrap()
}

#[test]
fn round_trip_privmsg() {
    let raw = round_trip(&Command::Privmsg {
        channel: b"#museun".to_vec(),
        text: b"hello world".to_vec(),
    });
    assert_eq!(raw.command(), b"PRIVMSG");
    assert_eq!(raw.params_len(), 1);
    assert_eq!(raw.param(0), b"#museun");
    assert_eq!(raw.trailing().unwrap(), b"hello world");
}

#[test]
fn round_trip_join() {
    let raw = round_trip(&Command::Join { channel: b"#museun".to_vec() });
    assert_eq!(raw.command(), b"JOIN");
    assert_eq!(raw.params_len(), 1);
    assert_eq!(raw.param(0), b"#museun");
    assert!(raw.trailing().is_none());
}

#[test]
fn round_trip_part() {
    let raw = round_trip(&Command::Part { channel: b"#museun".to_vec() });
    assert_eq!(raw.command(), b"PART");
    assert_eq!(raw.param(0), b"#museun");
}

#[test]
fn round_trip_ping_and_pong() {
    let raw = round_trip(&Command::Ping { token: b"123456789".to_vec() });
    assert_eq!(raw.command(), b"PING");
    assert_eq!(raw.params_len(), 0);
    assert_eq!(raw.trailing().unwrap(), b"123456789");

    let raw = round_trip(&Command::Pong { token: b"123456789".to_vec() });
    assert_eq!(raw.command(), b"PONG");
    assert_eq!(raw.trailing().unwrap(), b"123456789");
}

#[test]
fn round_trip_quit() {
    let raw = round_trip(&Command::Quit);
    assert_eq!(raw.command(), b"QUIT");
    assert_eq!(raw.params_len(), 0);
    assert!(raw.trailing().is_none());
}

#[test]
fn encode_wire_form_is_exact() {
    let bytes = encode(&Command::Privmsg {
        channel: b"#chan".to_vec(),
        text: b"hi".to_vec(),
    });
    assert_eq!(bytes, b"PRIVMSG #chan :hi\r\n".to_vec());
    assert_eq!(encode(&Command::Quit), b"QUIT\r\n".to_vec());
}

#[test]
fn validation_refuses_bad_channels() {
    let bad = Command::Privmsg { channel: b"chan".to_vec(), text: b"hi".to_vec() };
    assert_eq!(validate(&bad).unwrap_err(), ValidationError::InvalidChannel);
    let empty = Command::Join { channel: b"".to_vec() };
    assert_eq!(validate(&empty).unwrap_err(), ValidationError::InvalidChannel);
    let spaced = Command::Part { channel: b"#a b".to_vec() };
    assert_eq!(validate(&spaced).unwrap_err(), ValidationError::InvalidChannel);
}

#[test]
fn validation_refuses_line_breaks_in_text() {
    let bad = Command::Privmsg { channel: b"#ok".to_vec(), text: b"a\r\nQUIT".to_vec() };
    assert_eq!(validate(&bad).unwrap_err(), ValidationError::InvalidText);
    let bad_token = Command::Ping { token: b"a\nb".to_vec() };
    assert_eq!(validate(&bad_token).unwrap_err(), ValidationError::InvalidText);
}

#[test]
fn validation_accepts_well_formed_commands() {
    assert!(validate(&Command::Privmsg {
        channel: b"#chan".to_vec(),
        text: b"spaces are fine".to_vec(),
    })
    .is_ok());
    assert!(validate(&Command::Quit).is_ok());
}
