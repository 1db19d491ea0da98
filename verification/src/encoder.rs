//! Outgoing commands: validation, wire-format encoding, and the
//! round-trip guarantee that what is encoded decodes back to exactly
//! the raw message the command describes.

use crate::irc::{lemma_find_from_is, parse_line, AT, COLON, CR, LF, SPACE};
use crate::messages::{cmd_join, cmd_part, cmd_ping, cmd_privmsg};
use vstd::prelude::*;

verus! {

/// Command token `PONG`.
pub open spec fn cmd_pong() -> Seq<u8> {
    seq![80u8, 79u8, 78u8, 71u8]
}

/// Command token `QUIT`.
pub open spec fn cmd_quit() -> Seq<u8> {
    seq![81u8, 85u8, 73u8, 84u8]
}

/// `#`, the first byte of a channel name.
pub const HASH: u8 = 35;

/// Mathematical model of one outgoing command.
pub enum CommandSpec {
    Privmsg { channel: Seq<u8>, text: Seq<u8> },
    Join { channel: Seq<u8> },
    Part { channel: Seq<u8> },
    Ping { token: Seq<u8> },
    Pong { token: Seq<u8> },
    Quit,
}

/// One outgoing command.
pub enum Command {
    Privmsg { channel: Vec<u8>, text: Vec<u8> },
    Join { channel: Vec<u8> },
    Part { channel: Vec<u8> },
    Ping { token: Vec<u8> },
    Pong { token: Vec<u8> },
    Quit,
}

impl View for Command {
    type V = CommandSpec;

    open spec fn view(&self) -> CommandSpec {
        match self {
            Command::Privmsg { channel, text } => CommandSpec::Privmsg {
                channel: channel@,
                text: text@,
            },
            Command::Join { channel } => CommandSpec::Join { channel: channel@ },
            Command::Part { channel } => CommandSpec::Part { channel: channel@ },
            Command::Ping { token } => CommandSpec::Ping { token: token@ },
            Command::Pong { token } => CommandSpec::Pong { token: token@ },
            Command::Quit => CommandSpec::Quit,
        }
    }
}

/// A channel name: nonempty, starts with `#`, and free of the bytes
/// that would cut the token or the line short.
pub open spec fn valid_channel(ch: Seq<u8>) -> bool {
    &&& ch.len() > 0
    &&& ch[0] == HASH
    &&& forall|i: int|
        0 <= i < ch.len() ==> ch[i] != SPACE && ch[i] != CR && ch[i] != LF
}

/// Trailing text: spaces are fine, line terminators are not.
pub open spec fn valid_text(t: Seq<u8>) -> bool {
    forall|i: int| 0 <= i < t.len() ==> t[i] != CR && t[i] != LF
}

/// When an outgoing command is well-formed.
pub open spec fn valid_command(c: CommandSpec) -> bool {
    match c {
        CommandSpec::Privmsg { channel, text } => valid_channel(channel) && valid_text(text),
        CommandSpec::Join { channel } => valid_channel(channel),
        CommandSpec::Part { channel } => valid_channel(channel),
        CommandSpec::Ping { token } => valid_text(token),
        CommandSpec::Pong { token } => valid_text(token),
        CommandSpec::Quit => true,
    }
}

/// A malformed outgoing command, refused before anything is sent.
#[derive(Clone, Copy, Debug, PartialEq, Eq, Structural)]
pub enum ValidationError {
    /// The channel is empty, does not start with `#`, or holds a
    /// space or line terminator.
    InvalidChannel,
    /// The text or token holds a line terminator.
    InvalidText,
}

/// The payload bytes of one command, terminator not included.
pub open spec fn encode_spec(c: CommandSpec) -> Seq<u8> {
    match c {
        CommandSpec::Privmsg { channel, text } => cmd_privmsg() + seq![SPACE] + channel + seq![
            SPACE,
            COLON,
        ] + text,
        CommandSpec::Join { channel } => cmd_join() + seq![SPACE] + channel,
        CommandSpec::Part { channel } => cmd_part() + seq![SPACE] + channel,
        CommandSpec::Ping { token } => cmd_ping() + seq![SPACE, COLON] + token,
        CommandSpec::Pong { token } => cmd_pong() + seq![SPACE, COLON] + token,
        CommandSpec::Quit => cmd_quit(),
    }
}

/// The full wire form: payload plus CRLF.
pub open spec fn encode_wire_spec(c: CommandSpec) -> Seq<u8> {
    encode_spec(c) + seq![CR, LF]
}

/// Append `s` to `out`.
fn push_bytes(out: &mut Vec<u8>, s: &[u8])
    ensures
        final(out)@ == old(out)@ + s@,
{
    let mut i: usize = 0;
    while i < s.len()
        invariant
            0 <= i <= s@.len(),
            out@ == old(out)@ + s@.subrange(0, i as int),
        decreases s@.len() - i,
    {
        out.push(s[i]);
        proof {
            assert(old(out)@ + s@.subrange(0, i as int) + seq![s@[i as int]] =~= old(out)@
                + s@.subrange(0, i + 1));
        }
        i = i + 1;
    }
    proof {
        assert(s@.subrange(0, s@.len() as int) =~= s@);
    }
}

/// Whether `v` is free of CR and LF.
fn no_line_break(v: &[u8]) -> (r: bool)
    ensures
        r == valid_text(v@),
{
    let mut i: usize = 0;
    while i < v.len()
        invariant
            0 <= i <= v@.len(),
            forall|k: int| 0 <= k < i ==> v@[k] != CR && v@[k] != LF,
        decreases v@.len() - i,
    {
        if v[i] == CR || v[i] == LF {
            return false;
        }
        i = i + 1;
    }
    true
}

/// Whether `ch` is a well-formed channel name.
pub fn check_channel(ch: &[u8]) -> (r: bool)
    ensures
        r == valid_channel(ch@),
{
    if ch.len() == 0 || ch[0] != HASH {
        return false;
    }
    let mut i: usize = 0;
    while i < ch.len()
        invariant
            0 <= i <= ch@.len(),
            forall|k: int| 0 <= k < i ==> ch@[k] != SPACE && ch@[k] != CR && ch@[k] != LF,
        decreases ch@.len() - i,
    {
        if ch[i] == SPACE || ch[i] == CR || ch[i] == LF {
            return false;
        }
        i = i + 1;
    }
    true
}

/// Validate one outgoing command: `Ok` exactly on the well-formed
/// ones; a bad channel is reported before a bad text.
pub fn validate(c: &Command) -> (r: Result<(), ValidationError>)
    ensures
        r is Ok <==> valid_command(c@),
        match r {
            Ok(_) => true,
            Err(e) => match c@ {
                CommandSpec::Privmsg { channel, text } => if !valid_channel(channel) {
                    e == ValidationError::InvalidChannel
                } else {
                    e == ValidationError::InvalidText
                },
                CommandSpec::Join { channel } => e == ValidationError::InvalidChannel,
                CommandSpec::Part { channel } => e == ValidationError::InvalidChannel,
                CommandSpec::Ping { token } => e == ValidationError::InvalidText,
                CommandSpec::Pong { token } => e == ValidationError::InvalidText,
                CommandSpec::Quit => false,
            },
        },
{
    match c {
        Command::Privmsg { channel, text } => {
            if !check_channel(channel.as_slice()) {
                Err(ValidationError::InvalidChannel)
            } else if !no_line_break(text.as_slice()) {
                Err(ValidationError::InvalidText)
            } else {
                Ok(())
            }
        },
        Command::Join { channel } => {
            if check_channel(channel.as_slice()) {
                Ok(())
            } else {
                Err(ValidationError::InvalidChannel)
            }
        },
        Command::Part { channel } => {
            if check_channel(channel.as_slice()) {
                Ok(())
            } else {
                Err(ValidationError::InvalidChannel)
            }
        },
        Command::Ping { token } => {
            if no_line_break(token.as_slice()) {
                Ok(())
            } else {
                Err(ValidationError::InvalidText)
            }
        },
        Command::Pong { token } => {
            if no_line_break(token.as_slice()) {
                Ok(())
            } else {
                Err(ValidationError::InvalidText)
            }
        },
        Command::Quit => Ok(()),
    }
}

/// The bytes of `PONG`.
pub fn pong_bytes() -> (v: Vec<u8>)
    ensures
        v@ == cmd_pong(),
{
    let mut v: Vec<u8> = Vec::new();
    v.push(80);
    v.push(79);
    v.push(78);
    v.push(71);
    proof {
        assert(v@ =~= cmd_pong());
    }
    v
}

/// The bytes of `QUIT`.
pub fn quit_bytes() -> (v: Vec<u8>)
    ensures
        v@ == cmd_quit(),
{
    let mut v: Vec<u8> = Vec::new();
    v.push(81);
    v.push(85);
    v.push(73);
    v.push(84);
    proof {
        assert(v@ =~= cmd_quit());
    }
    v
}

/// Encode one command to its full wire form, CRLF included.
pub fn encode(c: &Command) -> (v: Vec<u8>)
    ensures
        v@ == encode_wire_spec(c@),
{
    let mut v: Vec<u8> = Vec::new();
    match c {
        Command::Privmsg { channel, text } => {
            let cmd = crate::messages::privmsg_bytes();
            push_bytes(&mut v, cmd.as_slice());
            v.push(SPACE);
            push_bytes(&mut v, channel.as_slice());
            v.push(SPACE);
            v.push(COLON);
            push_bytes(&mut v, text.as_slice());
        },
        Command::Join { channel } => {
            let cmd = crate::messages::join_bytes();
            push_bytes(&mut v, cmd.as_slice());
            v.push(SPACE);
            push_bytes(&mut v, channel.as_slice());
        },
        Command::Part { channel } => {
            let cmd = crate::messages::part_bytes();
            push_bytes(&mut v, cmd.as_slice());
            v.push(SPACE);
            push_bytes(&mut v, channel.as_slice());
        },
        Command::Ping { token } => {
            let cmd = crate::messages::ping_bytes();
            push_bytes(&mut v, cmd.as_slice());
            v.push(SPACE);
            v.push(COLON);
            push_bytes(&mut v, token.as_slice());
        },
        Command::Pong { token } => {
            let cmd = pong_bytes();
            push_bytes(&mut v, cmd.as_slice());
            v.push(SPACE);
            v.push(COLON);
            push_bytes(&mut v, token.as_slice());
        },
        Command::Quit => {
            let cmd = quit_bytes();
            push_bytes(&mut v, cmd.as_slice());
        },
    }
    v.push(CR);
    v.push(LF);
    proof {
        assert(v@ =~= encode_wire_spec(c@));
    }
    v
}

/// A command token for these lemmas: nonempty, opens neither a tag
/// section nor a prefix, and holds no space.
pub open spec fn plain_cmd(cmd: Seq<u8>) -> bool {
    &&& cmd.len() > 0
    &&& cmd[0] != AT
    &&& cmd[0] != COLON
    &&& forall|i: int| 0 <= i < cmd.len() ==> cmd[i] != SPACE
}

/// Parsing `cmd` alone yields that command and nothing else.
pub proof fn lemma_parse_cmd_only(cmd: Seq<u8>)
    requires
        plain_cmd(cmd),
    ensures
        parse_line(cmd) is Some,
        parse_line(cmd).unwrap().command == cmd,
        parse_line(cmd).unwrap().params.len() == 0,
        parse_line(cmd).unwrap().trailing is None,
        parse_line(cmd).unwrap().tags.len() == 0,
        parse_line(cmd).unwrap().nick is None,
{
    lemma_find_from_is(cmd, 0, SPACE, cmd.len() as int);
    assert(cmd.subrange(0, cmd.len() as int) =~= cmd);
}

/// Parsing `cmd SP param` yields the command and that one parameter.
pub proof fn lemma_parse_cmd_param(cmd: Seq<u8>, param: Seq<u8>)
    requires
        plain_cmd(cmd),
        param.len() > 0,
        param[0] != COLON,
        forall|i: int| 0 <= i < param.len() ==> param[i] != SPACE,
    ensures
        ({
            let line = cmd + seq![SPACE] + param;
            let r = parse_line(line);
            &&& r is Some
            &&& r.unwrap().command == cmd
            &&& r.unwrap().params =~= seq![param]
            &&& r.unwrap().trailing is None
            &&& r.unwrap().tags.len() == 0
            &&& r.unwrap().nick is None
        }),
{
    let line = cmd + seq![SPACE] + param;
    lemma_find_from_is(line, 0, SPACE, cmd.len() as int);
    assert(line.subrange(0, cmd.len() as int) =~= cmd);
    let after = line.subrange(cmd.len() as int + 1, line.len() as int);
    assert(after =~= param);
    lemma_find_from_is(param, 0, SPACE, param.len() as int);
    assert(param.subrange(0, param.len() as int) =~= param);
}

/// Parsing `cmd SP :text` yields the command and that trailing text.
pub proof fn lemma_parse_cmd_trailing(cmd: Seq<u8>, text: Seq<u8>)
    requires
        plain_cmd(cmd),
        valid_text(text),
    ensures
        ({
            let line = cmd + seq![SPACE, COLON] + text;
            let r = parse_line(line);
            &&& r is Some
            &&& r.unwrap().command == cmd
            &&& r.unwrap().params.len() == 0
            &&& r.unwrap().trailing == Some(text)
            &&& r.unwrap().tags.len() == 0
            &&& r.unwrap().nick is None
        }),
{
    let line = cmd + seq![SPACE, COLON] + text;
    lemma_find_from_is(line, 0, SPACE, cmd.len() as int);
    assert(line.subrange(0, cmd.len() as int) =~= cmd);
    let after = line.subrange(cmd.len() as int + 1, line.len() as int);
    assert(after =~= seq![COLON] + text);
    assert(after[0] == COLON);
    assert(after.subrange(1, after.len() as int) =~= text);
}

/// Parsing `cmd SP param SP :text` yields the command, the parameter
/// and the trailing text.
pub proof fn lemma_parse_cmd_param_trailing(cmd: Seq<u8>, param: Seq<u8>, text: Seq<u8>)
    requires
        plain_cmd(cmd),
        param.len() > 0,
        param[0] != COLON,
        forall|i: int| 0 <= i < param.len() ==> param[i] != SPACE,
        valid_text(text),
    ensures
        ({
            let line = cmd + seq![SPACE] + param + seq![SPACE, COLON] + text;
            let r = parse_line(line);
            &&& r is Some
            &&& r.unwrap().command == cmd
            &&& r.unwrap().params =~= seq![param]
            &&& r.unwrap().trailing == Some(text)
            &&& r.unwrap().tags.len() == 0
            &&& r.unwrap().nick is None
        }),
{
    reveal_with_fuel(crate::irc::parse_params, 3);
    let line = cmd + seq![SPACE] + param + seq![SPACE, COLON] + text;
    lemma_find_from_is(line, 0, SPACE, cmd.len() as int);
    assert(line.subrange(0, cmd.len() as int) =~= cmd);
    let after = line.subrange(cmd.len() as int + 1, line.len() as int);
    assert(after =~= param + seq![SPACE, COLON] + text);
    assert(after[0] != COLON);
    lemma_find_from_is(after, 0, SPACE, param.len() as int);
    assert(after.subrange(0, param.len() as int) =~= param);
    let rest = after.subrange(param.len() as int + 1, after.len() as int);
    assert(rest =~= seq![COLON] + text);
    assert(rest[0] == COLON);
    assert(rest.subrange(1, rest.len() as int) =~= text);
    assert(crate::irc::parse_params(rest).1 == Some(text));
    assert(crate::irc::parse_params(after).0 =~= seq![param]);
}

/// Round trip: a validated command, encoded and decoded again, is the
/// raw message its fields describe — same command token, same
/// parameters, same trailing text, no tags and no prefix.
pub proof fn lemma_round_trip(c: CommandSpec)
    requires
        valid_command(c),
    ensures
        ({
            let r = parse_line(encode_spec(c));
            &&& r is Some
            &&& r.unwrap().tags.len() == 0
            &&& r.unwrap().nick is None
            &&& match c {
                CommandSpec::Privmsg { channel, text } => r.unwrap().command == cmd_privmsg()
                    && r.unwrap().params =~= seq![channel] && r.unwrap().trailing == Some(text),
                CommandSpec::Join { channel } => r.unwrap().command == cmd_join()
                    && r.unwrap().params =~= seq![channel] && r.unwrap().trailing is None,
                CommandSpec::Part { channel } => r.unwrap().command == cmd_part()
                    && r.unwrap().params =~= seq![channel] && r.unwrap().trailing is None,
                CommandSpec::Ping { token } => r.unwrap().command == cmd_ping()
                    && r.unwrap().params.len() == 0 && r.unwrap().trailing == Some(token),
                CommandSpec::Pong { token } => r.unwrap().command == cmd_pong()
                    && r.unwrap().params.len() == 0 && r.unwrap().trailing == Some(token),
                CommandSpec::Quit => r.unwrap().command == cmd_quit() && r.unwrap().params.len()
                    == 0 && r.unwrap().trailing is None,
            }
        }),
{
    match c {
        CommandSpec::Privmsg { channel, text } => {
            lemma_parse_cmd_param_trailing(cmd_privmsg(), channel, text);
            assert(cmd_privmsg() + seq![SPACE] + channel + seq![SPACE, COLON] + text
                =~= encode_spec(c));
        },
        CommandSpec::Join { channel } => {
            lemma_parse_cmd_param(cmd_join(), channel);
        },
        CommandSpec::Part { channel } => {
            lemma_parse_cmd_param(cmd_part(), channel);
        },
        CommandSpec::Ping { token } => {
            lemma_parse_cmd_trailing(cmd_ping(), token);
        },
        CommandSpec::Pong { token } => {
            lemma_parse_cmd_trailing(cmd_pong(), token);
        },
        CommandSpec::Quit => {
            lemma_parse_cmd_only(cmd_quit());
        },
    }
}

} // verus!
