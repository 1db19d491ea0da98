//! Typed messages: a closed set of shapes produced from raw messages
//! by fallible conversion.  A conversion that does not match yields
//! `InvalidMessage` and changes nothing; the exhaustive catalog of
//! protocol shapes is open-ended, the ones here are the set this
//! engine routes.

use crate::irc::{RawMessage, RawSpec};
use vstd::prelude::*;
use vstd::slice::slice_to_vec;

verus! {

/// Command token `PRIVMSG`.
pub open spec fn cmd_privmsg() -> Seq<u8> {
    seq![80u8, 82u8, 73u8, 86u8, 77u8, 83u8, 71u8]
}

/// Command token `JOIN`.
pub open spec fn cmd_join() -> Seq<u8> {
    seq![74u8, 79u8, 73u8, 78u8]
}

/// Command token `PART`.
pub open spec fn cmd_part() -> Seq<u8> {
    seq![80u8, 65u8, 82u8, 84u8]
}

/// Command token `PING`.
pub open spec fn cmd_ping() -> Seq<u8> {
    seq![80u8, 73u8, 78u8, 71u8]
}

/// Command token `NOTICE`.
pub open spec fn cmd_notice() -> Seq<u8> {
    seq![78u8, 79u8, 84u8, 73u8, 67u8, 69u8]
}

/// Numeric `001`, the registration-complete notice.
pub open spec fn cmd_ready() -> Seq<u8> {
    seq![48u8, 48u8, 49u8]
}

/// The bytes of `PRIVMSG`.
pub fn privmsg_bytes() -> (v: Vec<u8>)
    ensures
        v@ == cmd_privmsg(),
{
    let mut v: Vec<u8> = Vec::new();
    v.push(80);
    v.push(82);
    v.push(73);
    v.push(86);
    v.push(77);
    v.push(83);
    v.push(71);
    proof {
        assert(v@ =~= cmd_privmsg());
    }
    v
}

/// The bytes of `JOIN`.
pub fn join_bytes() -> (v: Vec<u8>)
    ensures
        v@ == cmd_join(),
{
    let mut v: Vec<u8> = Vec::new();
    v.push(74);
    v.push(79);
    v.push(73);
    v.push(78);
    proof {
        assert(v@ =~= cmd_join());
    }
    v
}

/// The bytes of `PART`.
pub fn part_bytes() -> (v: Vec<u8>)
    ensures
        v@ == cmd_part(),
{
    let mut v: Vec<u8> = Vec::new();
    v.push(80);
    v.push(65);
    v.push(82);
    v.push(84);
    proof {
        assert(v@ =~= cmd_part());
    }
    v
}

/// The bytes of `PING`.
pub fn ping_bytes() -> (v: Vec<u8>)
    ensures
        v@ == cmd_ping(),
{
    let mut v: Vec<u8> = Vec::new();
    v.push(80);
    v.push(73);
    v.push(78);
    v.push(71);
    proof {
        assert(v@ =~= cmd_ping());
    }
    v
}

/// The bytes of `NOTICE`.
pub fn notice_bytes() -> (v: Vec<u8>)
    ensures
        v@ == cmd_notice(),
{
    let mut v: Vec<u8> = Vec::new();
    v.push(78);
    v.push(79);
    v.push(84);
    v.push(73);
    v.push(67);
    v.push(69);
    proof {
        assert(v@ =~= cmd_notice());
    }
    v
}

/// The bytes of `001`.
pub fn ready_bytes() -> (v: Vec<u8>)
    ensures
        v@ == cmd_ready(),
{
    let mut v: Vec<u8> = Vec::new();
    v.push(48);
    v.push(48);
    v.push(49);
    proof {
        assert(v@ =~= cmd_ready());
    }
    v
}

/// Identifier of one typed shape; `Raw` matches every message.
#[derive(Clone, Copy, Debug, PartialEq, Eq, Structural)]
pub enum MessageKind {
    Raw,
    Privmsg,
    Join,
    Part,
    Ping,
    Notice,
    IrcReady,
}

/// A raw message did not match the requested typed shape.
#[derive(Clone, Copy, Debug, PartialEq, Eq, Structural)]
pub struct InvalidMessage;

/// Mathematical model of one typed message.
pub enum TypedSpec {
    Raw(RawSpec),
    Privmsg { channel: Seq<u8>, text: Seq<u8> },
    Join { nick: Seq<u8>, channel: Seq<u8> },
    Part { nick: Seq<u8>, channel: Seq<u8> },
    Ping { token: Seq<u8> },
    Notice { target: Seq<u8>, text: Seq<u8> },
    IrcReady { nick: Seq<u8> },
}

/// One concrete typed message.
pub enum TypedMessage {
    Raw(RawMessage),
    Privmsg { channel: Vec<u8>, text: Vec<u8> },
    Join { nick: Vec<u8>, channel: Vec<u8> },
    Part { nick: Vec<u8>, channel: Vec<u8> },
    Ping { token: Vec<u8> },
    Notice { target: Vec<u8>, text: Vec<u8> },
    IrcReady { nick: Vec<u8> },
}

impl View for TypedMessage {
    type V = TypedSpec;

    open spec fn view(&self) -> TypedSpec {
        match self {
            TypedMessage::Raw(r) => TypedSpec::Raw(r@),
            TypedMessage::Privmsg { channel, text } => TypedSpec::Privmsg {
                channel: channel@,
                text: text@,
            },
            TypedMessage::Join { nick, channel } => TypedSpec::Join {
                nick: nick@,
                channel: channel@,
            },
            TypedMessage::Part { nick, channel } => TypedSpec::Part {
                nick: nick@,
                channel: channel@,
            },
            TypedMessage::Ping { token } => TypedSpec::Ping { token: token@ },
            TypedMessage::Notice { target, text } => TypedSpec::Notice {
                target: target@,
                text: text@,
            },
            TypedMessage::IrcReady { nick } => TypedSpec::IrcReady { nick: nick@ },
        }
    }
}

/// Which typed message, if any, the raw message `r` yields for shape
/// `k`.  `Raw` always matches; each other shape asks for its command
/// and its required fields.
pub open spec fn convert_spec(r: RawSpec, k: MessageKind) -> Option<TypedSpec> {
    match k {
        MessageKind::Raw => Some(TypedSpec::Raw(r)),
        MessageKind::Privmsg => if r.command == cmd_privmsg() && r.params.len() >= 1
            && r.trailing is Some {
            Some(TypedSpec::Privmsg { channel: r.params[0], text: r.trailing.unwrap() })
        } else {
            None
        },
        MessageKind::Join => if r.command == cmd_join() && r.params.len() >= 1
            && r.nick is Some {
            Some(TypedSpec::Join { nick: r.nick.unwrap(), channel: r.params[0] })
        } else {
            None
        },
        MessageKind::Part => if r.command == cmd_part() && r.params.len() >= 1
            && r.nick is Some {
            Some(TypedSpec::Part { nick: r.nick.unwrap(), channel: r.params[0] })
        } else {
            None
        },
        MessageKind::Ping => if r.command == cmd_ping() && r.trailing is Some {
            Some(TypedSpec::Ping { token: r.trailing.unwrap() })
        } else if r.command == cmd_ping() && r.params.len() >= 1 {
            Some(TypedSpec::Ping { token: r.params[0] })
        } else {
            None
        },
        MessageKind::Notice => if r.command == cmd_notice() && r.params.len() >= 1
            && r.trailing is Some {
            Some(TypedSpec::Notice { target: r.params[0], text: r.trailing.unwrap() })
        } else {
            None
        },
        MessageKind::IrcReady => if r.command == cmd_ready() && r.params.len() >= 1 {
            Some(TypedSpec::IrcReady { nick: r.params[0] })
        } else {
            None
        },
    }
}

/// The typed message that `raw` yields for shape `kind`, or
/// `InvalidMessage` exactly when the shape does not match.
pub fn convert(raw: &RawMessage, kind: MessageKind) -> (r: Result<TypedMessage, InvalidMessage>)
    requires
        raw.wf(),
    ensures
        match r {
            Ok(t) => convert_spec(raw@, kind) == Some(t@),
            Err(_) => convert_spec(raw@, kind) is None,
        },
{
    match kind {
        MessageKind::Raw => Ok(TypedMessage::Raw(raw.duplicate())),
        MessageKind::Privmsg => {
            let cmd = privmsg_bytes();
            if crate::irc::bytes_eq(raw.command(), cmd.as_slice()) && raw.params_len() >= 1 {
                match raw.trailing() {
                    Some(t) => Ok(TypedMessage::Privmsg {
                        channel: slice_to_vec(raw.param(0)),
                        text: slice_to_vec(t),
                    }),
                    None => Err(InvalidMessage),
                }
            } else {
                Err(InvalidMessage)
            }
        },
        MessageKind::Join => {
            let cmd = join_bytes();
            if crate::irc::bytes_eq(raw.command(), cmd.as_slice()) && raw.params_len() >= 1 {
                match raw.nick() {
                    Some(n) => Ok(TypedMessage::Join {
                        nick: slice_to_vec(n),
                        channel: slice_to_vec(raw.param(0)),
                    }),
                    None => Err(InvalidMessage),
                }
            } else {
                Err(InvalidMessage)
            }
        },
        MessageKind::Part => {
            let cmd = part_bytes();
            if crate::irc::bytes_eq(raw.command(), cmd.as_slice()) && raw.params_len() >= 1 {
                match raw.nick() {
                    Some(n) => Ok(TypedMessage::Part {
                        nick: slice_to_vec(n),
                        channel: slice_to_vec(raw.param(0)),
                    }),
                    None => Err(InvalidMessage),
                }
            } else {
                Err(InvalidMessage)
            }
        },
        MessageKind::Ping => {
            let cmd = ping_bytes();
            if crate::irc::bytes_eq(raw.command(), cmd.as_slice()) {
                match raw.trailing() {
                    Some(t) => Ok(TypedMessage::Ping { token: slice_to_vec(t) }),
                    None => if raw.params_len() >= 1 {
                        Ok(TypedMessage::Ping { token: slice_to_vec(raw.param(0)) })
                    } else {
                        Err(InvalidMessage)
                    },
                }
            } else {
                Err(InvalidMessage)
            }
        },
        MessageKind::Notice => {
            let cmd = notice_bytes();
            if crate::irc::bytes_eq(raw.command(), cmd.as_slice()) && raw.params_len() >= 1 {
                match raw.trailing() {
                    Some(t) => Ok(TypedMessage::Notice {
                        target: slice_to_vec(raw.param(0)),
                        text: slice_to_vec(t),
                    }),
                    None => Err(InvalidMessage),
                }
            } else {
                Err(InvalidMessage)
            }
        },
        MessageKind::IrcReady => {
            let cmd = ready_bytes();
            if crate::irc::bytes_eq(raw.command(), cmd.as_slice()) && raw.params_len() >= 1 {
                Ok(TypedMessage::IrcReady { nick: slice_to_vec(raw.param(0)) })
            } else {
                Err(InvalidMessage)
            }
        },
    }
}

/// A channel name.
pub struct Channel {
    name: String,
}

impl Channel {
    /// The channel's name.
    pub closed spec fn name_spec(self) -> Seq<char> {
        self.name@
    }

    pub fn new(name: String) -> (c: Channel)
        ensures
            c.name_spec() == name@,
    {
        Channel { name }
    }

    /// The channel's name, as text.
    pub fn name(&self) -> (r: &str)
        ensures
            r@ == self.name_spec(),
    {
        self.name.as_str()
    }
}

/// End of the list of chatters of a channel.
pub struct NamesEnd {
    user: String,
    channel: Channel,
}

impl NamesEnd {
    /// The user the listing was produced for.
    pub closed spec fn user_spec(self) -> Seq<char> {
        self.user@
    }

    /// The channel the listing belongs to.
    pub closed spec fn channel_spec(self) -> Channel {
        self.channel
    }

    pub fn new(user: String, channel: Channel) -> (n: NamesEnd)
        ensures
            n.user_spec() == user@,
            n.channel_spec() == channel,
    {
        NamesEnd { user, channel }
    }

    /// Your user for this event.
    pub fn user(&self) -> (r: &str)
        ensures
            r@ == self.user_spec(),
    {
        self.user.as_str()
    }

    /// The channel this event happened on.
    pub fn channel(&self) -> (r: &Channel)
        ensures
            *r == self.channel_spec(),
    {
        &self.channel
    }
}

} // verus!
