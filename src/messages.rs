//! The typed message layer: each variant reads its fields from a decoded
//! frame and says exactly when it can.
use vstd::prelude::*;

use crate::irc::{prefix_nick, tag_lookup, Frame, IrcMessage};
use crate::text::{
    after, before, decimal_value, find_char, index_of, is_decimal, lemma_index_of_bounds, parse_u64,
    split, split_owned, str_eq, to_chars,
};
use crate::trovo::{badge_parts, color_tag, kind_is, parse_color, white, Badge, RGB};

verus! {

/// Why a frame does not make a given typed message.
#[derive(Debug, Clone, PartialEq, Eq)]
pub enum MessageError {
    /// The frame holds another command.
    ExpectedCommand,
    /// The argument at `index` is missing.
    ExpectedArg { index: usize },
    /// The trailing data is missing.
    ExpectedData,
    /// The prefix names no user.
    ExpectedNick,
    /// A required tag is missing.
    ExpectedTag { name: String },
    /// A tag holds a value that cannot be read.
    CannotParseTag { name: String },
}

/// The sender's nickname, when the prefix names a user.
pub open spec fn nick_of(f: Frame) -> Option<Seq<char>> {
    match f.prefix {
        Some(p) => prefix_nick(p),
        None => None,
    }
}

/// An optional string, as characters.
pub open spec fn opt_chars(o: Option<String>) -> Option<Seq<char>> {
    match o {
        Some(s) => Some(s@),
        None => None,
    }
}

/// An optional tag value read as a number: `None` when it is absent, not a
/// number, or too large.
pub open spec fn opt_number(o: Option<Seq<char>>) -> Option<u64> {
    match o {
        Some(v) => if is_decimal(v) && decimal_value(v) <= u64::MAX { Some(decimal_value(v) as u64) } else { None },
        None => None,
    }
}

fn expect_command(msg: &IrcMessage, cmd: &str) -> (r: Result<(), MessageError>)
    ensures
        r is Ok <==> msg@.command == cmd@,
        r matches Err(e) ==> e == MessageError::ExpectedCommand,
{
    if str_eq(msg.command(), cmd) {
        Ok(())
    } else {
        Err(MessageError::ExpectedCommand)
    }
}

fn expect_arg(msg: &IrcMessage, i: usize) -> (r: Result<String, MessageError>)
    ensures
        r is Ok <==> i < msg@.args.len(),
        r matches Ok(a) ==> a@ == msg@.args[i as int],
        r matches Err(e) ==> e == (MessageError::ExpectedArg { index: i }),
{
    match msg.arg(i) {
        Some(a) => Ok(a.to_owned()),
        None => Err(MessageError::ExpectedArg { index: i }),
    }
}

fn expect_data(msg: &IrcMessage) -> (r: Result<String, MessageError>)
    ensures
        r is Ok <==> msg@.data is Some,
        r matches Ok(d) ==> d@ == msg@.data->0,
        r matches Err(e) ==> e == MessageError::ExpectedData,
{
    match msg.data() {
        Some(d) => Ok(d.to_owned()),
        None => Err(MessageError::ExpectedData),
    }
}

fn opt_data(msg: &IrcMessage) -> (r: Option<String>)
    ensures
        opt_chars(r) == msg@.data,
{
    match msg.data() {
        Some(d) => Some(d.to_owned()),
        None => None,
    }
}

fn expect_nick(msg: &IrcMessage) -> (r: Result<String, MessageError>)
    ensures
        r is Ok <==> nick_of(msg@) is Some,
        r matches Ok(n) ==> n@ == nick_of(msg@)->0,
        r matches Err(e) ==> e == MessageError::ExpectedNick,
{
    match msg.nick() {
        Some(n) => Ok(n.to_owned()),
        None => Err(MessageError::ExpectedNick),
    }
}

fn opt_tag(msg: &IrcMessage, key: &str) -> (r: Option<String>)
    ensures
        opt_chars(r) == tag_lookup(msg@.tags, key@),
{
    match msg.tag(key) {
        Some(v) => Some(v.to_owned()),
        None => None,
    }
}

fn tag_number(msg: &IrcMessage, key: &str) -> (r: Option<u64>)
    ensures
        r == opt_number(tag_lookup(msg@.tags, key@)),
{
    match msg.tag(key) {
        Some(v) => parse_u64(v),
        None => None,
    }
}

/// The connection is registered: the server names the nickname it assigned.
#[derive(Debug, Clone)]
pub struct IrcReady {
    /// The frame it was read from.
    pub raw: IrcMessage,
    /// The nickname the server assigned.
    pub nickname: String,
}

impl IrcReady {
    /// `m` is what a `IrcReady` read from `msg` holds.
    pub open spec fn read_from(msg: IrcMessage, m: IrcReady) -> bool {
        m.raw == msg && m.nickname@ == msg@.args[0]
    }

    /// Reads a `001` frame.
    pub fn from_irc(msg: IrcMessage) -> (r: Result<IrcReady, MessageError>)
        ensures
            r is Ok <==> msg@.command == "001"@ && msg@.args.len() > 0,
            r matches Ok(m) ==> IrcReady::read_from(msg, m),
            r matches Err(e) ==> e == (if msg@.command != "001"@ { MessageError::ExpectedCommand } else { MessageError::ExpectedArg { index: 0 } }),
    {
        if let Err(e) = expect_command(&msg, "001") {
            return Err(e);
        }
        let nickname = match expect_arg(&msg, 0) {
            Ok(v) => v,
            Err(e) => {
                return Err(e);
            },
        };
        Ok(IrcReady { raw: msg, nickname })
    }

    /// The nickname the server assigned.
    pub fn nickname(&self) -> (r: &str)
        ensures
            r@ == self.nickname@,
    {
        self.nickname.as_str()
    }
}

/// The end of the message of the day: the session is ready.
#[derive(Debug, Clone)]
pub struct Ready {
    /// The frame it was read from.
    pub raw: IrcMessage,
    /// The name the server calls the user.
    pub username: String,
}

impl Ready {
    /// `m` is what a `Ready` read from `msg` holds.
    pub open spec fn read_from(msg: IrcMessage, m: Ready) -> bool {
        m.raw == msg && m.username@ == msg@.args[0]
    }

    /// Reads a `376` frame.
    pub fn from_irc(msg: IrcMessage) -> (r: Result<Ready, MessageError>)
        ensures
            r is Ok <==> msg@.command == "376"@ && msg@.args.len() > 0,
            r matches Ok(m) ==> Ready::read_from(msg, m),
            r matches Err(e) ==> e == (if msg@.command != "376"@ { MessageError::ExpectedCommand } else { MessageError::ExpectedArg { index: 0 } }),
    {
        if let Err(e) = expect_command(&msg, "376") {
            return Err(e);
        }
        let username = match expect_arg(&msg, 0) {
            Ok(v) => v,
            Err(e) => {
                return Err(e);
            },
        };
        Ok(Ready { raw: msg, username })
    }

    /// The name the server calls the user.
    pub fn username(&self) -> (r: &str)
        ensures
            r@ == self.username@,
    {
        self.username.as_str()
    }
}

/// A user's messages were purged (a ban or a timeout), or the whole chat was cleared.
#[derive(Debug, Clone)]
pub struct ClearChat {
    /// The frame it was read from.
    pub raw: IrcMessage,
    /// The channel.
    pub channel: String,
    /// The user whose messages were purged, if one was.
    pub name: Option<String>,
}

impl ClearChat {
    /// `m` is what a `ClearChat` read from `msg` holds.
    pub open spec fn read_from(msg: IrcMessage, m: ClearChat) -> bool {
        m.raw == msg && m.channel@ == msg@.args[0] && opt_chars(m.name) == msg@.data
    }

    /// Reads a `CLEARCHAT` frame.
    pub fn from_irc(msg: IrcMessage) -> (r: Result<ClearChat, MessageError>)
        ensures
            r is Ok <==> msg@.command == "CLEARCHAT"@ && msg@.args.len() > 0,
            r matches Ok(m) ==> ClearChat::read_from(msg, m),
            r matches Err(e) ==> e == (if msg@.command != "CLEARCHAT"@ { MessageError::ExpectedCommand } else { MessageError::ExpectedArg { index: 0 } }),
    {
        if let Err(e) = expect_command(&msg, "CLEARCHAT") {
            return Err(e);
        }
        let channel = match expect_arg(&msg, 0) {
            Ok(v) => v,
            Err(e) => {
                return Err(e);
            },
        };
        let name = opt_data(&msg);
        Ok(ClearChat { raw: msg, channel, name })
    }

    /// The channel.
    pub fn channel(&self) -> (r: &str)
        ensures
            r@ == self.channel@,
    {
        self.channel.as_str()
    }

    /// The user whose messages were purged, if one was.
    pub fn name(&self) -> (r: Option<&str>)
        ensures
            opt_chars(self.name) == match r {
                Some(s) => Some(s@),
                None => None::<Seq<char>>,
            },
    {
        match &self.name {
            Some(s) => Some(s.as_str()),
            None => None,
        }
    }
}

/// One message was removed.
#[derive(Debug, Clone)]
pub struct ClearMsg {
    /// The frame it was read from.
    pub raw: IrcMessage,
    /// The channel.
    pub channel: String,
    /// The text of the removed message, if given.
    pub message: Option<String>,
}

impl ClearMsg {
    /// `m` is what a `ClearMsg` read from `msg` holds.
    pub open spec fn read_from(msg: IrcMessage, m: ClearMsg) -> bool {
        m.raw == msg && m.channel@ == msg@.args[0] && opt_chars(m.message) == msg@.data
    }

    /// Reads a `CLEARMSG` frame.
    pub fn from_irc(msg: IrcMessage) -> (r: Result<ClearMsg, MessageError>)
        ensures
            r is Ok <==> msg@.command == "CLEARMSG"@ && msg@.args.len() > 0,
            r matches Ok(m) ==> ClearMsg::read_from(msg, m),
            r matches Err(e) ==> e == (if msg@.command != "CLEARMSG"@ { MessageError::ExpectedCommand } else { MessageError::ExpectedArg { index: 0 } }),
    {
        if let Err(e) = expect_command(&msg, "CLEARMSG") {
            return Err(e);
        }
        let channel = match expect_arg(&msg, 0) {
            Ok(v) => v,
            Err(e) => {
                return Err(e);
            },
        };
        let message = opt_data(&msg);
        Ok(ClearMsg { raw: msg, channel, message })
    }

    /// The channel.
    pub fn channel(&self) -> (r: &str)
        ensures
            r@ == self.channel@,
    {
        self.channel.as_str()
    }

    /// The text of the removed message, if given.
    pub fn message(&self) -> (r: Option<&str>)
        ensures
            opt_chars(self.message) == match r {
                Some(s) => Some(s@),
                None => None::<Seq<char>>,
            },
    {
        match &self.message {
            Some(s) => Some(s.as_str()),
            None => None,
        }
    }
}

/// A user joined a channel.
#[derive(Debug, Clone)]
pub struct Join {
    /// The frame it was read from.
    pub raw: IrcMessage,
    /// The channel.
    pub channel: String,
    /// The user.
    pub name: String,
}

impl Join {
    /// `m` is what a `Join` read from `msg` holds.
    pub open spec fn read_from(msg: IrcMessage, m: Join) -> bool {
        m.raw == msg && m.channel@ == msg@.args[0] && m.name@ == nick_of(msg@)->0
    }

    /// Reads a `JOIN` frame.
    pub fn from_irc(msg: IrcMessage) -> (r: Result<Join, MessageError>)
        ensures
            r is Ok <==> msg@.command == "JOIN"@ && msg@.args.len() > 0 && nick_of(msg@) is Some,
            r matches Ok(m) ==> Join::read_from(msg, m),
            r matches Err(e) ==> e == (if msg@.command != "JOIN"@ { MessageError::ExpectedCommand } else if !(msg@.args.len() > 0) { MessageError::ExpectedArg { index: 0 } } else { MessageError::ExpectedNick }),
    {
        if let Err(e) = expect_command(&msg, "JOIN") {
            return Err(e);
        }
        let channel = match expect_arg(&msg, 0) {
            Ok(v) => v,
            Err(e) => {
                return Err(e);
            },
        };
        let name = match expect_nick(&msg) {
            Ok(v) => v,
            Err(e) => {
                return Err(e);
            },
        };
        Ok(Join { raw: msg, channel, name })
    }

    /// The channel.
    pub fn channel(&self) -> (r: &str)
        ensures
            r@ == self.channel@,
    {
        self.channel.as_str()
    }

    /// The user.
    pub fn name(&self) -> (r: &str)
        ensures
            r@ == self.name@,
    {
        self.name.as_str()
    }
}

/// A user left a channel.
#[derive(Debug, Clone)]
pub struct Part {
    /// The frame it was read from.
    pub raw: IrcMessage,
    /// The channel.
    pub channel: String,
    /// The user.
    pub name: String,
}

impl Part {
    /// `m` is what a `Part` read from `msg` holds.
    pub open spec fn read_from(msg: IrcMessage, m: Part) -> bool {
        m.raw == msg && m.channel@ == msg@.args[0] && m.name@ == nick_of(msg@)->0
    }

    /// Reads a `PART` frame.
    pub fn from_irc(msg: IrcMessage) -> (r: Result<Part, MessageError>)
        ensures
            r is Ok <==> msg@.command == "PART"@ && msg@.args.len() > 0 && nick_of(msg@) is Some,
            r matches Ok(m) ==> Part::read_from(msg, m),
            r matches Err(e) ==> e == (if msg@.command != "PART"@ { MessageError::ExpectedCommand } else if !(msg@.args.len() > 0) { MessageError::ExpectedArg { index: 0 } } else { MessageError::ExpectedNick }),
    {
        if let Err(e) = expect_command(&msg, "PART") {
            return Err(e);
        }
        let channel = match expect_arg(&msg, 0) {
            Ok(v) => v,
            Err(e) => {
                return Err(e);
            },
        };
        let name = match expect_nick(&msg) {
            Ok(v) => v,
            Err(e) => {
                return Err(e);
            },
        };
        Ok(Part { raw: msg, channel, name })
    }

    /// The channel.
    pub fn channel(&self) -> (r: &str)
        ensures
            r@ == self.channel@,
    {
        self.channel.as_str()
    }

    /// The user.
    pub fn name(&self) -> (r: &str)
        ensures
            r@ == self.name@,
    {
        self.name.as_str()
    }
}

/// A notice from the server.
#[derive(Debug, Clone)]
pub struct Notice {
    /// The frame it was read from.
    pub raw: IrcMessage,
    /// The channel, or `*`.
    pub channel: String,
    /// The notice's text.
    pub message: String,
}

impl Notice {
    /// `m` is what a `Notice` read from `msg` holds.
    pub open spec fn read_from(msg: IrcMessage, m: Notice) -> bool {
        m.raw == msg && m.channel@ == msg@.args[0] && m.message@ == msg@.data->0
    }

    /// Reads a `NOTICE` frame.
    pub fn from_irc(msg: IrcMessage) -> (r: Result<Notice, MessageError>)
        ensures
            r is Ok <==> msg@.command == "NOTICE"@ && msg@.args.len() > 0 && msg@.data is Some,
            r matches Ok(m) ==> Notice::read_from(msg, m),
            r matches Err(e) ==> e == (if msg@.command != "NOTICE"@ { MessageError::ExpectedCommand } else if !(msg@.args.len() > 0) { MessageError::ExpectedArg { index: 0 } } else { MessageError::ExpectedData }),
    {
        if let Err(e) = expect_command(&msg, "NOTICE") {
            return Err(e);
        }
        let channel = match expect_arg(&msg, 0) {
            Ok(v) => v,
            Err(e) => {
                return Err(e);
            },
        };
        let message = match expect_data(&msg) {
            Ok(v) => v,
            Err(e) => {
                return Err(e);
            },
        };
        Ok(Notice { raw: msg, channel, message })
    }

    /// The channel, or `*`.
    pub fn channel(&self) -> (r: &str)
        ensures
            r@ == self.channel@,
    {
        self.channel.as_str()
    }

    /// The notice's text.
    pub fn message(&self) -> (r: &str)
        ensures
            r@ == self.message@,
    {
        self.message.as_str()
    }
}

/// The server asks for a `PONG` with the same token.
#[derive(Debug, Clone)]
pub struct Ping {
    /// The frame it was read from.
    pub raw: IrcMessage,
    /// The token to send back.
    pub token: String,
}

impl Ping {
    /// `m` is what a `Ping` read from `msg` holds.
    pub open spec fn read_from(msg: IrcMessage, m: Ping) -> bool {
        m.raw == msg && m.token@ == msg@.data->0
    }

    /// Reads a `PING` frame.
    pub fn from_irc(msg: IrcMessage) -> (r: Result<Ping, MessageError>)
        ensures
            r is Ok <==> msg@.command == "PING"@ && msg@.data is Some,
            r matches Ok(m) ==> Ping::read_from(msg, m),
            r matches Err(e) ==> e == (if msg@.command != "PING"@ { MessageError::ExpectedCommand } else { MessageError::ExpectedData }),
    {
        if let Err(e) = expect_command(&msg, "PING") {
            return Err(e);
        }
        let token = match expect_data(&msg) {
            Ok(v) => v,
            Err(e) => {
                return Err(e);
            },
        };
        Ok(Ping { raw: msg, token })
    }

    /// The token to send back.
    pub fn token(&self) -> (r: &str)
        ensures
            r@ == self.token@,
    {
        self.token.as_str()
    }
}

/// The server answers a `PING`.
#[derive(Debug, Clone)]
pub struct Pong {
    /// The frame it was read from.
    pub raw: IrcMessage,
    /// The token that was sent.
    pub token: String,
}

impl Pong {
    /// `m` is what a `Pong` read from `msg` holds.
    pub open spec fn read_from(msg: IrcMessage, m: Pong) -> bool {
        m.raw == msg && m.token@ == msg@.data->0
    }

    /// Reads a `PONG` frame.
    pub fn from_irc(msg: IrcMessage) -> (r: Result<Pong, MessageError>)
        ensures
            r is Ok <==> msg@.command == "PONG"@ && msg@.data is Some,
            r matches Ok(m) ==> Pong::read_from(msg, m),
            r matches Err(e) ==> e == (if msg@.command != "PONG"@ { MessageError::ExpectedCommand } else { MessageError::ExpectedData }),
    {
        if let Err(e) = expect_command(&msg, "PONG") {
            return Err(e);
        }
        let token = match expect_data(&msg) {
            Ok(v) => v,
            Err(e) => {
                return Err(e);
            },
        };
        Ok(Pong { raw: msg, token })
    }

    /// The token that was sent.
    pub fn token(&self) -> (r: &str)
        ensures
            r@ == self.token@,
    {
        self.token.as_str()
    }
}

/// A chat message.
#[derive(Debug, Clone)]
pub struct Privmsg {
    /// The frame it was read from.
    pub raw: IrcMessage,
    /// The channel.
    pub channel: String,
    /// The sender.
    pub name: String,
    /// The text.
    pub data: String,
}

impl Privmsg {
    /// `m` is what a `Privmsg` read from `msg` holds.
    pub open spec fn read_from(msg: IrcMessage, m: Privmsg) -> bool {
        m.raw == msg && m.channel@ == msg@.args[0] && m.name@ == nick_of(msg@)->0 && m.data@ == msg@.data->0
    }

    /// Reads a `PRIVMSG` frame.
    pub fn from_irc(msg: IrcMessage) -> (r: Result<Privmsg, MessageError>)
        ensures
            r is Ok <==> msg@.command == "PRIVMSG"@ && msg@.args.len() > 0 && nick_of(msg@) is Some && msg@.data is Some,
            r matches Ok(m) ==> Privmsg::read_from(msg, m),
            r matches Err(e) ==> e == (if msg@.command != "PRIVMSG"@ { MessageError::ExpectedCommand } else if !(msg@.args.len() > 0) { MessageError::ExpectedArg { index: 0 } } else if !(nick_of(msg@) is Some) { MessageError::ExpectedNick } else { MessageError::ExpectedData }),
    {
        if let Err(e) = expect_command(&msg, "PRIVMSG") {
            return Err(e);
        }
        let channel = match expect_arg(&msg, 0) {
            Ok(v) => v,
            Err(e) => {
                return Err(e);
            },
        };
        let name = match expect_nick(&msg) {
            Ok(v) => v,
            Err(e) => {
                return Err(e);
            },
        };
        let data = match expect_data(&msg) {
            Ok(v) => v,
            Err(e) => {
                return Err(e);
            },
        };
        Ok(Privmsg { raw: msg, channel, name, data })
    }

    /// The channel.
    pub fn channel(&self) -> (r: &str)
        ensures
            r@ == self.channel@,
    {
        self.channel.as_str()
    }

    /// The sender.
    pub fn name(&self) -> (r: &str)
        ensures
            r@ == self.name@,
    {
        self.name.as_str()
    }

    /// The text.
    pub fn data(&self) -> (r: &str)
        ensures
            r@ == self.data@,
    {
        self.data.as_str()
    }
}

/// The server is about to restart: reconnect and rejoin.
#[derive(Debug, Clone)]
pub struct Reconnect {
    /// The frame it was read from.
    pub raw: IrcMessage,
}

impl Reconnect {
    /// `m` is what a `Reconnect` read from `msg` holds.
    pub open spec fn read_from(msg: IrcMessage, m: Reconnect) -> bool {
        m.raw == msg
    }

    /// Reads a `RECONNECT` frame.
    pub fn from_irc(msg: IrcMessage) -> (r: Result<Reconnect, MessageError>)
        ensures
            r is Ok <==> msg@.command == "RECONNECT"@,
            r matches Ok(m) ==> Reconnect::read_from(msg, m),
            r matches Err(e) ==> e == (MessageError::ExpectedCommand),
    {
        if let Err(e) = expect_command(&msg, "RECONNECT") {
            return Err(e);
        }
        Ok(Reconnect { raw: msg })
    }
}

/// A channel's chat settings.
#[derive(Debug, Clone)]
pub struct RoomState {
    /// The frame it was read from.
    pub raw: IrcMessage,
    /// The channel.
    pub channel: String,
}

impl RoomState {
    /// `m` is what a `RoomState` read from `msg` holds.
    pub open spec fn read_from(msg: IrcMessage, m: RoomState) -> bool {
        m.raw == msg && m.channel@ == msg@.args[0]
    }

    /// Reads a `ROOMSTATE` frame.
    pub fn from_irc(msg: IrcMessage) -> (r: Result<RoomState, MessageError>)
        ensures
            r is Ok <==> msg@.command == "ROOMSTATE"@ && msg@.args.len() > 0,
            r matches Ok(m) ==> RoomState::read_from(msg, m),
            r matches Err(e) ==> e == (if msg@.command != "ROOMSTATE"@ { MessageError::ExpectedCommand } else { MessageError::ExpectedArg { index: 0 } }),
    {
        if let Err(e) = expect_command(&msg, "ROOMSTATE") {
            return Err(e);
        }
        let channel = match expect_arg(&msg, 0) {
            Ok(v) => v,
            Err(e) => {
                return Err(e);
            },
        };
        Ok(RoomState { raw: msg, channel })
    }

    /// The channel.
    pub fn channel(&self) -> (r: &str)
        ensures
            r@ == self.channel@,
    {
        self.channel.as_str()
    }
}

/// A service event in a channel (a subscription, a raid).
#[derive(Debug, Clone)]
pub struct UserNotice {
    /// The frame it was read from.
    pub raw: IrcMessage,
    /// The channel.
    pub channel: String,
    /// The user's message, if any.
    pub message: Option<String>,
}

impl UserNotice {
    /// `m` is what a `UserNotice` read from `msg` holds.
    pub open spec fn read_from(msg: IrcMessage, m: UserNotice) -> bool {
        m.raw == msg && m.channel@ == msg@.args[0] && opt_chars(m.message) == msg@.data
    }

    /// Reads a `USERNOTICE` frame.
    pub fn from_irc(msg: IrcMessage) -> (r: Result<UserNotice, MessageError>)
        ensures
            r is Ok <==> msg@.command == "USERNOTICE"@ && msg@.args.len() > 0,
            r matches Ok(m) ==> UserNotice::read_from(msg, m),
            r matches Err(e) ==> e == (if msg@.command != "USERNOTICE"@ { MessageError::ExpectedCommand } else { MessageError::ExpectedArg { index: 0 } }),
    {
        if let Err(e) = expect_command(&msg, "USERNOTICE") {
            return Err(e);
        }
        let channel = match expect_arg(&msg, 0) {
            Ok(v) => v,
            Err(e) => {
                return Err(e);
            },
        };
        let message = opt_data(&msg);
        Ok(UserNotice { raw: msg, channel, message })
    }

    /// The channel.
    pub fn channel(&self) -> (r: &str)
        ensures
            r@ == self.channel@,
    {
        self.channel.as_str()
    }

    /// The user's message, if any.
    pub fn message(&self) -> (r: Option<&str>)
        ensures
            opt_chars(self.message) == match r {
                Some(s) => Some(s@),
                None => None::<Seq<char>>,
            },
    {
        match &self.message {
            Some(s) => Some(s.as_str()),
            None => None,
        }
    }
}

/// The user's settings in a channel.
#[derive(Debug, Clone)]
pub struct UserState {
    /// The frame it was read from.
    pub raw: IrcMessage,
    /// The channel.
    pub channel: String,
}

impl UserState {
    /// `m` is what a `UserState` read from `msg` holds.
    pub open spec fn read_from(msg: IrcMessage, m: UserState) -> bool {
        m.raw == msg && m.channel@ == msg@.args[0]
    }

    /// Reads a `USERSTATE` frame.
    pub fn from_irc(msg: IrcMessage) -> (r: Result<UserState, MessageError>)
        ensures
            r is Ok <==> msg@.command == "USERSTATE"@ && msg@.args.len() > 0,
            r matches Ok(m) ==> UserState::read_from(msg, m),
            r matches Err(e) ==> e == (if msg@.command != "USERSTATE"@ { MessageError::ExpectedCommand } else { MessageError::ExpectedArg { index: 0 } }),
    {
        if let Err(e) = expect_command(&msg, "USERSTATE") {
            return Err(e);
        }
        let channel = match expect_arg(&msg, 0) {
            Ok(v) => v,
            Err(e) => {
                return Err(e);
            },
        };
        Ok(UserState { raw: msg, channel })
    }

    /// The channel.
    pub fn channel(&self) -> (r: &str)
        ensures
            r@ == self.channel@,
    {
        self.channel.as_str()
    }
}

/// A private message to the user.
#[derive(Debug, Clone)]
pub struct Whisper {
    /// The frame it was read from.
    pub raw: IrcMessage,
    /// The sender.
    pub name: String,
    /// The text.
    pub data: String,
}

impl Whisper {
    /// `m` is what a `Whisper` read from `msg` holds.
    pub open spec fn read_from(msg: IrcMessage, m: Whisper) -> bool {
        m.raw == msg && m.name@ == nick_of(msg@)->0 && m.data@ == msg@.data->0
    }

    /// Reads a `WHISPER` frame.
    pub fn from_irc(msg: IrcMessage) -> (r: Result<Whisper, MessageError>)
        ensures
            r is Ok <==> msg@.command == "WHISPER"@ && nick_of(msg@) is Some && msg@.data is Some,
            r matches Ok(m) ==> Whisper::read_from(msg, m),
            r matches Err(e) ==> e == (if msg@.command != "WHISPER"@ { MessageError::ExpectedCommand } else if !(nick_of(msg@) is Some) { MessageError::ExpectedNick } else { MessageError::ExpectedData }),
    {
        if let Err(e) = expect_command(&msg, "WHISPER") {
            return Err(e);
        }
        let name = match expect_nick(&msg) {
            Ok(v) => v,
            Err(e) => {
                return Err(e);
            },
        };
        let data = match expect_data(&msg) {
            Ok(v) => v,
            Err(e) => {
                return Err(e);
            },
        };
        Ok(Whisper { raw: msg, name, data })
    }

    /// The sender.
    pub fn name(&self) -> (r: &str)
        ensures
            r@ == self.name@,
    {
        self.name.as_str()
    }

    /// The text.
    pub fn data(&self) -> (r: &str)
        ensures
            r@ == self.data@,
    {
        self.data.as_str()
    }
}

/// The badges that a comma-separated badge list holds, as (kind name, data);
/// pieces without a `/` are skipped.
pub open spec fn badge_list(pieces: Seq<Seq<char>>) -> Seq<(Seq<char>, Seq<char>)>
    decreases pieces.len(),
{
    if pieces.len() == 0 {
        Seq::empty()
    } else {
        let init = badge_list(pieces.drop_last());
        match badge_parts(pieces.last()) {
            Some(b) => init.push(b),
            None => init,
        }
    }
}

/// `r` holds the badges `expected` describes, in order.
pub open spec fn badges_match(r: Seq<Badge>, expected: Seq<(Seq<char>, Seq<char>)>) -> bool {
    &&& r.len() == expected.len()
    &&& forall|i: int| 0 <= i < r.len() ==> {
        let (name, data) = #[trigger] expected[i];
        kind_is(r[i].kind, name) && r[i].data@ == data
    }
}

/// The badges of a tag value such as `moderator/1,subscriber/12`.
pub fn parse_badges(s: &str) -> (r: Vec<Badge>)
    ensures
        badges_match(r@, badge_list(split(s@, ','))),
{
    let pieces = split_owned(s, ',');
    let ghost all = split(s@, ',');
    let mut out: Vec<Badge> = Vec::new();
    let mut i: usize = 0;
    while i < pieces.len()
        invariant
            i <= pieces@.len(),
            pieces@.len() == all.len(),
            all == split(s@, ','),
            forall|j: int| 0 <= j < pieces@.len() ==> (#[trigger] pieces@[j])@ == all[j],
            badges_match(out@, badge_list(all.subrange(0, i as int))),
        decreases pieces.len() - i,
    {
        let ghost pre = all.subrange(0, i + 1);
        assert(pre.drop_last() =~= all.subrange(0, i as int));
        assert(pre.last() == pieces@[i as int]@);
        match Badge::parse(pieces[i].as_str()) {
            Some(b) => {
                out.push(b);
            },
            None => {},
        }
        i = i + 1;
    }
    assert(all.subrange(0, i as int) =~= all);
    out
}

/// One emote in a message: its id and the character ranges it covers
/// (first and last position, both included).
#[derive(Debug, Clone, PartialEq, Eq)]
pub struct Emote {
    pub id: String,
    pub ranges: Vec<(u64, u64)>,
}

/// A range `a-b` of two numbers.
pub open spec fn range_of(r: Seq<char>) -> Option<(u64, u64)> {
    let a = before(r, '-');
    let b = after(r, '-');
    if index_of(r, '-') < r.len() && is_decimal(a) && is_decimal(b) && decimal_value(a) <= u64::MAX
        && decimal_value(b) <= u64::MAX {
        Some((decimal_value(a) as u64, decimal_value(b) as u64))
    } else {
        None
    }
}

/// Every range of a list, or `None` when one of them cannot be read.
pub open spec fn ranges_of(rs: Seq<Seq<char>>) -> Option<Seq<(u64, u64)>>
    decreases rs.len(),
{
    if rs.len() == 0 {
        Some(Seq::empty())
    } else {
        match (ranges_of(rs.drop_last()), range_of(rs.last())) {
            (Some(v), Some(x)) => Some(v.push(x)),
            _ => None,
        }
    }
}

/// An emote `id:a-b,c-d`; `None` without a `:` or with a range that cannot
/// be read.
pub open spec fn emote_of(p: Seq<char>) -> Option<(Seq<char>, Seq<(u64, u64)>)> {
    if index_of(p, ':') < p.len() {
        match ranges_of(split(after(p, ':'), ',')) {
            Some(v) => Some((before(p, ':'), v)),
            None => None,
        }
    } else {
        None
    }
}

/// The emotes of an `emotes` tag's pieces, skipping those that cannot be
/// read.
pub open spec fn emote_list(pieces: Seq<Seq<char>>) -> Seq<(Seq<char>, Seq<(u64, u64)>)>
    decreases pieces.len(),
{
    if pieces.len() == 0 {
        Seq::empty()
    } else {
        let init = emote_list(pieces.drop_last());
        match emote_of(pieces.last()) {
            Some(e) => init.push(e),
            None => init,
        }
    }
}

fn parse_range(r: &str) -> (out: Option<(u64, u64)>)
    ensures
        out == range_of(r@),
{
    let (a, b) = first_and_rest_at(r, '-');
    match b {
        Some(b) => match (parse_u64(a), parse_u64(b)) {
            (Some(x), Some(y)) => Some((x, y)),
            _ => None,
        },
        None => None,
    }
}

fn parse_emote(p: &str) -> (out: Option<Emote>)
    ensures
        match emote_of(p@) {
            Some((id, ranges)) => out matches Some(e) && e.id@ == id && e.ranges@ == ranges,
            None => out is None,
        },
{
    let (id, tail) = first_and_rest_at(p, ':');
    let rest = match tail {
        Some(r) => r,
        None => {
            return None;
        },
    };
    let pieces = split_owned(rest, ',');
    let ghost all = split(rest@, ',');
    let mut ranges: Vec<(u64, u64)> = Vec::new();
    let mut i: usize = 0;
    while i < pieces.len()
        invariant
            i <= pieces@.len(),
            pieces@.len() == all.len(),
            all == split(rest@, ','),
            rest@ == after(p@, ':'),
            index_of(p@, ':') < p@.len(),
            forall|j: int| 0 <= j < pieces@.len() ==> (#[trigger] pieces@[j])@ == all[j],
            ranges_of(all.subrange(0, i as int)) == Some(ranges@),
        decreases pieces.len() - i,
    {
        let ghost pre = all.subrange(0, i + 1);
        assert(pre.drop_last() =~= all.subrange(0, i as int));
        assert(pre.last() == pieces@[i as int]@);
        match parse_range(pieces[i].as_str()) {
            Some(x) => {
                ranges.push(x);
            },
            None => {
                proof {
                    assert(range_of(pre.last()) is None);
                    assert(ranges_of(pre) is None);
                    lemma_ranges_prefix_none(all, i as int + 1);
                }
                return None;
            },
        }
        i = i + 1;
    }
    assert(all.subrange(0, i as int) =~= all);
    Some(Emote { id: id.to_owned(), ranges })
}

proof fn lemma_ranges_prefix_none(rs: Seq<Seq<char>>, k: int)
    requires
        0 <= k <= rs.len(),
        ranges_of(rs.subrange(0, k)) is None,
    ensures
        ranges_of(rs) is None,
    decreases rs.len() - k,
{
    if k < rs.len() {
        let pre = rs.subrange(0, k + 1);
        assert(pre.drop_last() =~= rs.subrange(0, k));
        lemma_ranges_prefix_none(rs, k + 1);
    } else {
        assert(rs.subrange(0, k) =~= rs);
    }
}

/// The emotes of an `emotes` tag value such as `25:0-4,12-16/1902:6-10`;
/// pieces that cannot be read are skipped.
pub fn parse_emotes(s: &str) -> (r: Vec<Emote>)
    ensures
        r@.len() == emote_list(split(s@, '/')).len(),
        forall|i: int| 0 <= i < r@.len() ==> {
            let (id, ranges) = #[trigger] emote_list(split(s@, '/'))[i];
            r@[i].id@ == id && r@[i].ranges@ == ranges
        },
{
    let pieces = split_owned(s, '/');
    let ghost all = split(s@, '/');
    let mut out: Vec<Emote> = Vec::new();
    let mut i: usize = 0;
    while i < pieces.len()
        invariant
            i <= pieces@.len(),
            pieces@.len() == all.len(),
            all == split(s@, '/'),
            forall|j: int| 0 <= j < pieces@.len() ==> (#[trigger] pieces@[j])@ == all[j],
            out@.len() == emote_list(all.subrange(0, i as int)).len(),
            forall|j: int| 0 <= j < out@.len() ==> {
                let (id, ranges) = #[trigger] emote_list(all.subrange(0, i as int))[j];
                out@[j].id@ == id && out@[j].ranges@ == ranges
            },
        decreases pieces.len() - i,
    {
        let ghost pre = all.subrange(0, i + 1);
        assert(pre.drop_last() =~= all.subrange(0, i as int));
        assert(pre.last() == pieces@[i as int]@);
        match parse_emote(pieces[i].as_str()) {
            Some(e) => {
                out.push(e);
            },
            None => {},
        }
        i = i + 1;
    }
    assert(all.subrange(0, i as int) =~= all);
    out
}

/// A capability request was answered.
#[derive(Debug, Clone)]
pub struct Cap {
    /// The frame it was read from.
    pub raw: IrcMessage,
    /// The capability.
    pub capability: String,
    /// Whether it was granted (`ACK`) rather than refused.
    pub acknowledged: bool,
}

impl Cap {
    /// `m` is what a `Cap` read from `msg` holds.
    pub open spec fn read_from(msg: IrcMessage, m: Cap) -> bool {
        m.raw == msg && m.capability@ == msg@.data->0 && m.acknowledged == (msg@.args[1] == "ACK"@)
    }

    /// Reads a `CAP` frame.
    pub fn from_irc(msg: IrcMessage) -> (r: Result<Cap, MessageError>)
        ensures
            r is Ok <==> msg@.command == "CAP"@ && msg@.data is Some && msg@.args.len() > 1,
            r matches Ok(m) ==> Cap::read_from(msg, m),
            r matches Err(e) ==> e == (if msg@.command != "CAP"@ { MessageError::ExpectedCommand } else if msg@.data is None { MessageError::ExpectedData } else { MessageError::ExpectedArg { index: 1 } }),
    {
        if let Err(e) = expect_command(&msg, "CAP") {
            return Err(e);
        }
        let capability = match expect_data(&msg) {
            Ok(v) => v,
            Err(e) => {
                return Err(e);
            },
        };
        let reply = match expect_arg(&msg, 1) {
            Ok(v) => v,
            Err(e) => {
                return Err(e);
            },
        };
        let acknowledged = str_eq(reply.as_str(), "ACK");
        Ok(Cap { raw: msg, capability, acknowledged })
    }

    /// The capability.
    pub fn capability(&self) -> (r: &str)
        ensures
            r@ == self.capability@,
    {
        self.capability.as_str()
    }

    /// Whether the capability was granted.
    pub fn acknowledged(&self) -> (r: bool)
        ensures
            r == self.acknowledged,
    {
        self.acknowledged
    }
}

impl ClearChat {
    /// How long the user is timed out, in seconds; `None` for a permanent
    /// ban (or when the tag cannot be read).
    pub fn ban_duration(&self) -> (r: Option<u64>)
        ensures
            r == opt_number(tag_lookup(self.raw@.tags, "ban-duration"@)),
    {
        tag_number(&self.raw, "ban-duration")
    }
}

/// The color a message's `color` tag gives: white when it is missing or
/// cannot be read.
pub open spec fn color_or_white(tag: Option<Seq<char>>) -> RGB {
    match tag {
        Some(c) => match color_tag(c) {
            Some(rgb) => rgb,
            None => white(),
        },
        None => white(),
    }
}

/// The emote sets an `emote-sets` tag lists; `0` alone when it is missing.
pub open spec fn emote_sets_of(tag: Option<Seq<char>>) -> Seq<Seq<char>> {
    match tag {
        Some(v) => split(v, ','),
        None => seq!["0"@],
    }
}

/// The badges a `badges` tag lists; none when it is missing.
pub open spec fn badges_of(tag: Option<Seq<char>>) -> Seq<(Seq<char>, Seq<char>)> {
    match tag {
        Some(v) => badge_list(split(v, ',')),
        None => Seq::empty(),
    }
}

fn emote_sets_from(msg: &IrcMessage) -> (r: Vec<String>)
    ensures
        r@.len() == emote_sets_of(tag_lookup(msg@.tags, "emote-sets"@)).len(),
        forall|i: int| 0 <= i < r@.len() ==> (#[trigger] r@[i])@ == emote_sets_of(tag_lookup(msg@.tags, "emote-sets"@))[i],
{
    match msg.tag("emote-sets") {
        Some(v) => split_owned(v, ','),
        None => {
            let mut r: Vec<String> = Vec::new();
            r.push("0".to_owned());
            r
        },
    }
}

fn badges_from(msg: &IrcMessage) -> (r: Vec<Badge>)
    ensures
        badges_match(r@, badges_of(tag_lookup(msg@.tags, "badges"@))),
{
    match msg.tag("badges") {
        Some(v) => parse_badges(v),
        None => Vec::new(),
    }
}

/// The user's identity, sent after registration when tags are enabled.
#[derive(Debug, Clone)]
pub struct GlobalUserState {
    /// The frame it was read from.
    pub raw: IrcMessage,
    /// The user's id.
    pub user_id: String,
    /// The display name, if set.
    pub display_name: Option<String>,
    /// The chat color; white when unset.
    pub color: RGB,
}

impl GlobalUserState {
    /// `m` is what a `GlobalUserState` read from `msg` holds.
    pub open spec fn read_from(msg: IrcMessage, m: GlobalUserState) -> bool {
        m.raw == msg && m.user_id@ == tag_lookup(msg@.tags, "user-id"@)->0
                && opt_chars(m.display_name) == tag_lookup(msg@.tags, "display-name"@)
                && m.color == color_or_white(tag_lookup(msg@.tags, "color"@))
    }

    /// Reads a `GLOBALUSERSTATE` frame: `user-id` is required, and `color`,
    /// when present, must be readable.
    pub fn from_irc(msg: IrcMessage) -> (r: Result<GlobalUserState, MessageError>)
        ensures
            r is Ok <==> msg@.command == "GLOBALUSERSTATE"@ && tag_lookup(msg@.tags, "user-id"@) is Some
                && (tag_lookup(msg@.tags, "color"@) matches Some(c) ==> color_tag(c) is Some),
            r matches Ok(m) ==> GlobalUserState::read_from(msg, m),
            r matches Err(e) ==> if msg@.command != "GLOBALUSERSTATE"@ {
                e == MessageError::ExpectedCommand
            } else if tag_lookup(msg@.tags, "user-id"@) is None {
                e matches MessageError::ExpectedTag { name } && name@ == "user-id"@
            } else {
                e matches MessageError::CannotParseTag { name } && name@ == "color"@
            },
    {
        if let Err(e) = expect_command(&msg, "GLOBALUSERSTATE") {
            return Err(e);
        }
        let user_id = match opt_tag(&msg, "user-id") {
            Some(v) => v,
            None => {
                return Err(MessageError::ExpectedTag { name: "user-id".to_owned() });
            },
        };
        let display_name = opt_tag(&msg, "display-name");
        let color = match msg.tag("color") {
            Some(c) => match parse_color(c) {
                Some(rgb) => rgb,
                None => {
                    return Err(MessageError::CannotParseTag { name: "color".to_owned() });
                },
            },
            None => RGB(255, 255, 255),
        };
        Ok(GlobalUserState { raw: msg, user_id, display_name, color })
    }

    /// The emote sets the user may use; `0` alone when the tag is missing.
    pub fn emote_sets(&self) -> (r: Vec<String>)
        ensures
            r@.len() == emote_sets_of(tag_lookup(self.raw@.tags, "emote-sets"@)).len(),
            forall|i: int| 0 <= i < r@.len() ==> (#[trigger] r@[i])@ == emote_sets_of(tag_lookup(self.raw@.tags, "emote-sets"@))[i],
    {
        emote_sets_from(&self.raw)
    }

    /// The user's badges.
    pub fn badges(&self) -> (r: Vec<Badge>)
        ensures
            badges_match(r@, badges_of(tag_lookup(self.raw@.tags, "badges"@))),
    {
        badges_from(&self.raw)
    }

    /// The user's id.
    pub fn user_id(&self) -> (r: &str)
        ensures
            r@ == self.user_id@,
    {
        self.user_id.as_str()
    }

    /// The display name, if set.
    pub fn display_name(&self) -> (r: Option<&str>)
        ensures
            opt_chars(self.display_name) == match r {
                Some(s) => Some(s@),
                None => None::<Seq<char>>,
            },
    {
        match &self.display_name {
            Some(s) => Some(s.as_str()),
            None => None,
        }
    }

    /// The chat color.
    pub fn color(&self) -> (r: RGB)
        ensures
            r == self.color,
    {
        self.color
    }
}

/// A message's text is an action (`/me`): it is wrapped in `\u{1}ACTION ` and
/// `\u{1}`.
pub open spec fn is_action_text(d: Seq<char>) -> bool {
    d.len() >= 9 && d.subrange(0, 8) == "\u{1}ACTION "@ && d.last() == '\u{1}'
}

impl Privmsg {
    /// The value of the tag named `key`.
    pub fn tag(&self, key: &str) -> (r: Option<&str>)
        ensures
            r is Some <==> tag_lookup(self.raw@.tags, key@) is Some,
            r matches Some(v) ==> v@ == tag_lookup(self.raw@.tags, key@)->0,
    {
        self.raw.tag(key)
    }

    /// The sender's display name, if set.
    pub fn display_name(&self) -> (r: Option<&str>)
        ensures
            r is Some <==> tag_lookup(self.raw@.tags, "display-name"@) is Some,
            r matches Some(v) ==> v@ == tag_lookup(self.raw@.tags, "display-name"@)->0,
    {
        self.raw.tag("display-name")
    }

    /// The sender's user id.
    pub fn user_id(&self) -> (r: Option<&str>)
        ensures
            r is Some <==> tag_lookup(self.raw@.tags, "user-id"@) is Some,
            r matches Some(v) ==> v@ == tag_lookup(self.raw@.tags, "user-id"@)->0,
    {
        self.raw.tag("user-id")
    }

    /// The message's id.
    pub fn id(&self) -> (r: Option<&str>)
        ensures
            r is Some <==> tag_lookup(self.raw@.tags, "id"@) is Some,
            r matches Some(v) ==> v@ == tag_lookup(self.raw@.tags, "id"@)->0,
    {
        self.raw.tag("id")
    }

    /// The channel's id.
    pub fn room_id(&self) -> (r: Option<&str>)
        ensures
            r is Some <==> tag_lookup(self.raw@.tags, "room-id"@) is Some,
            r matches Some(v) ==> v@ == tag_lookup(self.raw@.tags, "room-id"@)->0,
    {
        self.raw.tag("room-id")
    }

    /// The sender's chat color; white when unset or unreadable.
    pub fn color(&self) -> (r: RGB)
        ensures
            r == color_or_white(tag_lookup(self.raw@.tags, "color"@)),
    {
        match self.raw.tag("color") {
            Some(c) => match parse_color(c) {
                Some(rgb) => rgb,
                None => RGB(255, 255, 255),
            },
            None => RGB(255, 255, 255),
        }
    }

    /// The bits cheered with the message, if any.
    pub fn bits(&self) -> (r: Option<u64>)
        ensures
            r == opt_number(tag_lookup(self.raw@.tags, "bits"@)),
    {
        tag_number(&self.raw, "bits")
    }

    /// The sender's badges.
    pub fn badges(&self) -> (r: Vec<Badge>)
        ensures
            badges_match(r@, badges_of(tag_lookup(self.raw@.tags, "badges"@))),
    {
        badges_from(&self.raw)
    }

    /// The emote sets named by the `emote-sets` tag.
    pub fn emote_sets(&self) -> (r: Vec<String>)
        ensures
            r@.len() == emote_sets_of(tag_lookup(self.raw@.tags, "emote-sets"@)).len(),
            forall|i: int| 0 <= i < r@.len() ==> (#[trigger] r@[i])@ == emote_sets_of(tag_lookup(self.raw@.tags, "emote-sets"@))[i],
    {
        emote_sets_from(&self.raw)
    }

    /// The emotes the message uses.
    pub fn emotes(&self) -> (r: Vec<Emote>)
        ensures
            tag_lookup(self.raw@.tags, "emotes"@) is None ==> r@.len() == 0,
            tag_lookup(self.raw@.tags, "emotes"@) matches Some(v) ==> {
                &&& r@.len() == emote_list(split(v, '/')).len()
                &&& forall|i: int| 0 <= i < r@.len() ==> {
                    let (id, ranges) = #[trigger] emote_list(split(v, '/'))[i];
                    r@[i].id@ == id && r@[i].ranges@ == ranges
                }
            },
    {
        match self.raw.tag("emotes") {
            Some(v) => parse_emotes(v),
            None => Vec::new(),
        }
    }

    /// Whether the message is an action (`/me`).
    pub fn is_action(&self) -> (r: bool)
        ensures
            r == is_action_text(self.data@),
    {
        let d = self.data.as_str();
        let n = d.unicode_len();
        if n < 9 {
            return false;
        }
        str_eq(d.substring_char(0, 8), "\u{1}ACTION ") && d.get_char(n - 1) == '\u{1}'
    }
}

/// The target token and the viewer-count token of a hosting frame: from the
/// trailing data (`:target viewers`) when there is some, else from the
/// second and third arguments.
pub open spec fn host_tokens(f: Frame) -> Option<(Seq<char>, Option<Seq<char>>)> {
    match f.data {
        Some(d) => Some((before(d, ' '), if index_of(d, ' ') < d.len() { Some(after(d, ' ')) } else { None })),
        None => if f.args.len() > 1 {
            Some((f.args[1], if f.args.len() > 2 { Some(f.args[2]) } else { None }))
        } else {
            None
        },
    }
}

/// The command names a hosting frame; the misspelled `HOSTARGET` is
/// accepted too.
pub open spec fn is_host_command(c: Seq<char>) -> bool {
    c == "HOSTTARGET"@ || c == "HOSTARGET"@
}

/// A channel started or stopped hosting another.
#[derive(Debug, Clone)]
pub struct HostTarget {
    /// The frame it was read from.
    pub raw: IrcMessage,
    /// The hosting channel.
    pub source: String,
    /// The hosted channel; `None` when hosting stopped (`-`).
    pub target: Option<String>,
    /// The number of viewers, if given.
    pub viewers: Option<u64>,
}

fn first_and_rest(d: &str) -> (r: (&str, Option<&str>))
    ensures
        r.0@ == before(d@, ' '),
        match r.1 {
            Some(v) => index_of(d@, ' ') < d@.len() && v@ == after(d@, ' '),
            None => index_of(d@, ' ') >= d@.len(),
        },
{
    first_and_rest_at(d, ' ')
}

/// What precedes the first `sep` in `d`, and what follows it if there is one.
fn first_and_rest_at(d: &str, sep: char) -> (r: (&str, Option<&str>))
    ensures
        r.0@ == before(d@, sep),
        match r.1 {
            Some(v) => index_of(d@, sep) < d@.len() && v@ == after(d@, sep),
            None => index_of(d@, sep) >= d@.len(),
        },
{
    let c = to_chars(d);
    let n = c.len();
    let sp = find_char(&c, sep, 0, n);
    proof {
        assert(c@.subrange(0, n as int) =~= d@);
        lemma_index_of_bounds(d@, sep);
    }
    if sp < n {
        (d.substring_char(0, sp), Some(d.substring_char(sp + 1, n)))
    } else {
        (d.substring_char(0, sp), None)
    }
}

impl HostTarget {
    /// `m` is what a `HostTarget` read from `msg` holds.
    pub open spec fn read_from(msg: IrcMessage, m: HostTarget) -> bool {
        {
                let (target, viewers) = host_tokens(msg@)->0;
                &&& m.raw == msg
                &&& m.source@ == msg@.args[0]
                &&& opt_chars(m.target) == (if target == "-"@ { None } else { Some(target) })
                &&& m.viewers == opt_number(viewers)
            }
    }

    /// Reads a `HOSTTARGET` frame.
    pub fn from_irc(msg: IrcMessage) -> (r: Result<HostTarget, MessageError>)
        ensures
            r is Ok <==> is_host_command(msg@.command) && msg@.args.len() > 0 && host_tokens(msg@) is Some,
            r matches Ok(m) ==> HostTarget::read_from(msg, m),
            r matches Err(e) ==> e == (if !is_host_command(msg@.command) { MessageError::ExpectedCommand } else if msg@.args.len() == 0 { MessageError::ExpectedArg { index: 0 } } else { MessageError::ExpectedArg { index: 1 } }),
    {
        if !str_eq(msg.command(), "HOSTTARGET") && !str_eq(msg.command(), "HOSTARGET") {
            return Err(MessageError::ExpectedCommand);
        }
        let source = match expect_arg(&msg, 0) {
            Ok(v) => v,
            Err(e) => {
                return Err(e);
            },
        };
        let (target, viewers) = match msg.data() {
            Some(d) => first_and_rest(d),
            None => match msg.arg(1) {
                Some(t) => (t, msg.arg(2)),
                None => {
                    return Err(MessageError::ExpectedArg { index: 1 });
                },
            },
        };
        let target = if str_eq(target, "-") { None } else { Some(target.to_owned()) };
        let viewers = match viewers {
            Some(v) => parse_u64(v),
            None => None,
        };
        Ok(HostTarget { raw: msg, source, target, viewers })
    }
}

/// Whether a user gained or lost operator status.
#[derive(Debug, Clone, Copy, PartialEq, Eq, Structural)]
pub enum ModeStatus {
    /// `+o`
    Gained,
    /// `-o`
    Lost,
}

/// A user gained or lost operator status in a channel.
#[derive(Debug, Clone)]
pub struct Mode {
    /// The frame it was read from.
    pub raw: IrcMessage,
    /// The channel.
    pub channel: String,
    /// Gained or lost.
    pub status: ModeStatus,
    /// The user.
    pub name: String,
}

impl Mode {
    /// `m` is what a `Mode` read from `msg` holds.
    pub open spec fn read_from(msg: IrcMessage, m: Mode) -> bool {
        m.raw == msg && m.channel@ == msg@.args[0] && m.name@ == msg@.args[2]
                && (m.status == ModeStatus::Gained <==> msg@.args[1] == "+o"@)
    }

    /// Reads a `MODE` frame: `MODE <channel> +o|-o <user>`.
    pub fn from_irc(msg: IrcMessage) -> (r: Result<Mode, MessageError>)
        ensures
            r is Ok <==> msg@.command == "MODE"@ && msg@.args.len() > 2 && (msg@.args[1] == "+o"@ || msg@.args[1] == "-o"@),
            r matches Ok(m) ==> Mode::read_from(msg, m),
            r matches Err(e) ==> e == (if msg@.command != "MODE"@ { MessageError::ExpectedCommand }
                else if msg@.args.len() == 0 { MessageError::ExpectedArg { index: 0 } }
                else if msg@.args.len() == 1 || !(msg@.args[1] == "+o"@ || msg@.args[1] == "-o"@) { MessageError::ExpectedArg { index: 1 } }
                else { MessageError::ExpectedArg { index: 2 } }),
    {
        if let Err(e) = expect_command(&msg, "MODE") {
            return Err(e);
        }
        let channel = match expect_arg(&msg, 0) {
            Ok(v) => v,
            Err(e) => {
                return Err(e);
            },
        };
        let status = match msg.arg(1) {
            Some(s) => if str_eq(s, "+o") {
                ModeStatus::Gained
            } else if str_eq(s, "-o") {
                ModeStatus::Lost
            } else {
                return Err(MessageError::ExpectedArg { index: 1 });
            },
            None => {
                return Err(MessageError::ExpectedArg { index: 1 });
            },
        };
        let name = match expect_arg(&msg, 2) {
            Ok(v) => v,
            Err(e) => {
                return Err(e);
            },
        };
        Ok(Mode { raw: msg, channel, status, name })
    }
}

/// The start of a names list (`353`): some of the users in a channel.
#[derive(Debug, Clone)]
pub struct NamesStart {
    /// The frame it was read from.
    pub raw: IrcMessage,
    /// The user the list was sent to.
    pub user: String,
    /// The channel.
    pub channel: String,
    /// The users listed.
    pub users: Vec<String>,
}

/// The end of a names list (`366`).
#[derive(Debug, Clone)]
pub struct NamesEnd {
    /// The frame it was read from.
    pub raw: IrcMessage,
    /// The user the list was sent to.
    pub user: String,
    /// The channel.
    pub channel: String,
}

/// A piece of a channel's names list; callers join the starts up to the end.
#[derive(Debug, Clone)]
pub enum Names {
    Start(NamesStart),
    End(NamesEnd),
}

impl Names {
    /// `m` is what a names frame `msg` holds.
    pub open spec fn read_from(msg: IrcMessage, m: Names) -> bool {
        match m {
            Names::Start(m) => msg@.command == "353"@ && m.raw == msg && m.user@ == msg@.args[0]
                && m.channel@ == msg@.args[2] && m.users@.len() == split(msg@.data->0, ' ').len()
                && forall|i: int| 0 <= i < m.users@.len() ==> (#[trigger] m.users@[i])@ == split(msg@.data->0, ' ')[i],
            Names::End(m) => msg@.command == "366"@ && m.raw == msg && m.user@ == msg@.args[0]
                && m.channel@ == msg@.args[1],
        }
    }

    /// Reads a `353` (`<user> = <channel> :<users>`) or `366`
    /// (`<user> <channel> :...`) frame.
    pub fn from_irc(msg: IrcMessage) -> (r: Result<Names, MessageError>)
        ensures
            r is Ok <==> (msg@.command == "353"@ && msg@.args.len() > 2 && msg@.data is Some)
                || (msg@.command == "366"@ && msg@.args.len() > 1),
            r matches Ok(Names::Start(m)) ==> msg@.command == "353"@ && m.raw == msg && m.user@ == msg@.args[0]
                && m.channel@ == msg@.args[2] && m.users@.len() == split(msg@.data->0, ' ').len()
                && forall|i: int| 0 <= i < m.users@.len() ==> (#[trigger] m.users@[i])@ == split(msg@.data->0, ' ')[i],
            r matches Ok(Names::End(m)) ==> msg@.command == "366"@ && m.raw == msg && m.user@ == msg@.args[0]
                && m.channel@ == msg@.args[1],
            r matches Err(e) ==> e == (if msg@.command != "353"@ && msg@.command != "366"@ { MessageError::ExpectedCommand }
                else if msg@.args.len() == 0 { MessageError::ExpectedArg { index: 0 } }
                else if msg@.args.len() == 1 { MessageError::ExpectedArg { index: 1 } }
                else if msg@.command == "353"@ && msg@.args.len() == 2 { MessageError::ExpectedArg { index: 2 } }
                else { MessageError::ExpectedData }),
    {
        proof {
            reveal_strlit("353");
            reveal_strlit("366");
            assert("353"@[1] != "366"@[1]);
        }
        let start = str_eq(msg.command(), "353");
        if !start && !str_eq(msg.command(), "366") {
            return Err(MessageError::ExpectedCommand);
        }
        let user = match expect_arg(&msg, 0) {
            Ok(v) => v,
            Err(e) => {
                return Err(e);
            },
        };
        let second = match expect_arg(&msg, 1) {
            Ok(v) => v,
            Err(e) => {
                return Err(e);
            },
        };
        if !start {
            return Ok(Names::End(NamesEnd { raw: msg, user, channel: second }));
        }
        let channel = match expect_arg(&msg, 2) {
            Ok(v) => v,
            Err(e) => {
                return Err(e);
            },
        };
        let users = match msg.data() {
            Some(d) => split_owned(d, ' '),
            None => {
                return Err(MessageError::ExpectedData);
            },
        };
        Ok(Names::Start(NamesStart { raw: msg, user, channel, users }))
    }
}

/// Which subscription a message goes to: one kind per typed variant, plus
/// `All` (every message, typed) and `Raw` (every frame, untyped).
#[derive(Debug, Clone, Copy, PartialEq, Eq, Hash, Structural)]
pub enum EventKind {
    IrcReady,
    Ready,
    Cap,
    ClearChat,
    ClearMsg,
    GlobalUserState,
    HostTarget,
    Join,
    Mode,
    Names,
    Notice,
    Part,
    Ping,
    Pong,
    Privmsg,
    Reconnect,
    RoomState,
    UserNotice,
    UserState,
    Whisper,
    All,
    Raw,
}

/// The kind a command token selects; unknown commands select `Raw`.
pub open spec fn kind_of_command(c: Seq<char>) -> EventKind {
    if c == "001"@ {
        EventKind::IrcReady
    }     else if c == "376"@ {
        EventKind::Ready
    }     else if c == "CAP"@ {
        EventKind::Cap
    }     else if c == "CLEARCHAT"@ {
        EventKind::ClearChat
    }     else if c == "CLEARMSG"@ {
        EventKind::ClearMsg
    }     else if c == "GLOBALUSERSTATE"@ {
        EventKind::GlobalUserState
    }     else if c == "HOSTTARGET"@ {
        EventKind::HostTarget
    }     else if c == "HOSTARGET"@ {
        EventKind::HostTarget
    }     else if c == "JOIN"@ {
        EventKind::Join
    }     else if c == "MODE"@ {
        EventKind::Mode
    }     else if c == "353"@ {
        EventKind::Names
    }     else if c == "366"@ {
        EventKind::Names
    }     else if c == "NOTICE"@ {
        EventKind::Notice
    }     else if c == "PART"@ {
        EventKind::Part
    }     else if c == "PING"@ {
        EventKind::Ping
    }     else if c == "PONG"@ {
        EventKind::Pong
    }     else if c == "PRIVMSG"@ {
        EventKind::Privmsg
    }     else if c == "RECONNECT"@ {
        EventKind::Reconnect
    }     else if c == "ROOMSTATE"@ {
        EventKind::RoomState
    }     else if c == "USERNOTICE"@ {
        EventKind::UserNotice
    }     else if c == "USERSTATE"@ {
        EventKind::UserState
    }     else if c == "WHISPER"@ {
        EventKind::Whisper
    } else {
        EventKind::Raw
    }
}

/// The kind a command token selects.
pub fn kind_of(command: &str) -> (r: EventKind)
    ensures
        r == kind_of_command(command@),
{
    if str_eq(command, "001") {
        return EventKind::IrcReady;
    }
    if str_eq(command, "376") {
        return EventKind::Ready;
    }
    if str_eq(command, "CAP") {
        return EventKind::Cap;
    }
    if str_eq(command, "CLEARCHAT") {
        return EventKind::ClearChat;
    }
    if str_eq(command, "CLEARMSG") {
        return EventKind::ClearMsg;
    }
    if str_eq(command, "GLOBALUSERSTATE") {
        return EventKind::GlobalUserState;
    }
    if str_eq(command, "HOSTTARGET") {
        return EventKind::HostTarget;
    }
    if str_eq(command, "HOSTARGET") {
        return EventKind::HostTarget;
    }
    if str_eq(command, "JOIN") {
        return EventKind::Join;
    }
    if str_eq(command, "MODE") {
        return EventKind::Mode;
    }
    if str_eq(command, "353") {
        return EventKind::Names;
    }
    if str_eq(command, "366") {
        return EventKind::Names;
    }
    if str_eq(command, "NOTICE") {
        return EventKind::Notice;
    }
    if str_eq(command, "PART") {
        return EventKind::Part;
    }
    if str_eq(command, "PING") {
        return EventKind::Ping;
    }
    if str_eq(command, "PONG") {
        return EventKind::Pong;
    }
    if str_eq(command, "PRIVMSG") {
        return EventKind::Privmsg;
    }
    if str_eq(command, "RECONNECT") {
        return EventKind::Reconnect;
    }
    if str_eq(command, "ROOMSTATE") {
        return EventKind::RoomState;
    }
    if str_eq(command, "USERNOTICE") {
        return EventKind::UserNotice;
    }
    if str_eq(command, "USERSTATE") {
        return EventKind::UserState;
    }
    if str_eq(command, "WHISPER") {
        return EventKind::Whisper;
    }
    EventKind::Raw
}

/// Every typed message, plus `Raw` for frames that no variant reads.
#[derive(Debug, Clone)]
pub enum Message {
    IrcReady(IrcReady),
    Ready(Ready),
    Cap(Cap),
    ClearChat(ClearChat),
    ClearMsg(ClearMsg),
    GlobalUserState(GlobalUserState),
    HostTarget(HostTarget),
    Join(Join),
    Mode(Mode),
    Names(Names),
    Notice(Notice),
    Part(Part),
    Ping(Ping),
    Pong(Pong),
    Privmsg(Privmsg),
    Reconnect(Reconnect),
    RoomState(RoomState),
    UserNotice(UserNotice),
    UserState(UserState),
    Whisper(Whisper),
    Raw(IrcMessage),
}

/// The kind of a message: its variant's kind.
pub open spec fn message_kind(m: Message) -> EventKind {
    match m {
        Message::IrcReady(_) => EventKind::IrcReady,
        Message::Ready(_) => EventKind::Ready,
        Message::Cap(_) => EventKind::Cap,
        Message::ClearChat(_) => EventKind::ClearChat,
        Message::ClearMsg(_) => EventKind::ClearMsg,
        Message::GlobalUserState(_) => EventKind::GlobalUserState,
        Message::HostTarget(_) => EventKind::HostTarget,
        Message::Join(_) => EventKind::Join,
        Message::Mode(_) => EventKind::Mode,
        Message::Names(_) => EventKind::Names,
        Message::Notice(_) => EventKind::Notice,
        Message::Part(_) => EventKind::Part,
        Message::Ping(_) => EventKind::Ping,
        Message::Pong(_) => EventKind::Pong,
        Message::Privmsg(_) => EventKind::Privmsg,
        Message::Reconnect(_) => EventKind::Reconnect,
        Message::RoomState(_) => EventKind::RoomState,
        Message::UserNotice(_) => EventKind::UserNotice,
        Message::UserState(_) => EventKind::UserState,
        Message::Whisper(_) => EventKind::Whisper,
        Message::Raw(_) => EventKind::Raw,
    }
}

/// A frame that the variant of `k` can read.
pub open spec fn readable(k: EventKind, f: Frame) -> bool {
    match k {
        EventKind::IrcReady => f.command == "001"@ && f.args.len() > 0,
        EventKind::Ready => f.command == "376"@ && f.args.len() > 0,
        EventKind::Cap => f.command == "CAP"@ && f.data is Some && f.args.len() > 1,
        EventKind::ClearChat => f.command == "CLEARCHAT"@ && f.args.len() > 0,
        EventKind::ClearMsg => f.command == "CLEARMSG"@ && f.args.len() > 0,
        EventKind::GlobalUserState => f.command == "GLOBALUSERSTATE"@ && tag_lookup(f.tags, "user-id"@) is Some && (tag_lookup(f.tags, "color"@) matches Some(c) ==> color_tag(c) is Some),
        EventKind::HostTarget => is_host_command(f.command) && f.args.len() > 0 && host_tokens(f) is Some,
        EventKind::Join => f.command == "JOIN"@ && f.args.len() > 0 && nick_of(f) is Some,
        EventKind::Mode => f.command == "MODE"@ && f.args.len() > 2 && (f.args[1] == "+o"@ || f.args[1] == "-o"@),
        EventKind::Names => (f.command == "353"@ && f.args.len() > 2 && f.data is Some) || (f.command == "366"@ && f.args.len() > 1),
        EventKind::Notice => f.command == "NOTICE"@ && f.args.len() > 0 && f.data is Some,
        EventKind::Part => f.command == "PART"@ && f.args.len() > 0 && nick_of(f) is Some,
        EventKind::Ping => f.command == "PING"@ && f.data is Some,
        EventKind::Pong => f.command == "PONG"@ && f.data is Some,
        EventKind::Privmsg => f.command == "PRIVMSG"@ && f.args.len() > 0 && nick_of(f) is Some && f.data is Some,
        EventKind::Reconnect => f.command == "RECONNECT"@,
        EventKind::RoomState => f.command == "ROOMSTATE"@ && f.args.len() > 0,
        EventKind::UserNotice => f.command == "USERNOTICE"@ && f.args.len() > 0,
        EventKind::UserState => f.command == "USERSTATE"@ && f.args.len() > 0,
        EventKind::Whisper => f.command == "WHISPER"@ && nick_of(f) is Some && f.data is Some,
        _ => false,
    }
}

/// `r` is what reading `msg` as a typed message gives: the variant its
/// command selects with that variant's fields when the variant can read it,
/// else the frame itself.
pub open spec fn parsed_from(msg: IrcMessage, r: Message) -> bool {
    &&& (readable(kind_of_command(msg@.command), msg@) ==> message_kind(r) == kind_of_command(msg@.command))
    &&& (!readable(kind_of_command(msg@.command), msg@) ==> (r matches Message::Raw(m) && m@ == msg@ && m.line() == msg.line()))
    &&& (r matches Message::IrcReady(m) ==> IrcReady::read_from(msg, m))
    &&& (r matches Message::Ready(m) ==> Ready::read_from(msg, m))
    &&& (r matches Message::Cap(m) ==> Cap::read_from(msg, m))
    &&& (r matches Message::ClearChat(m) ==> ClearChat::read_from(msg, m))
    &&& (r matches Message::ClearMsg(m) ==> ClearMsg::read_from(msg, m))
    &&& (r matches Message::GlobalUserState(m) ==> GlobalUserState::read_from(msg, m))
    &&& (r matches Message::HostTarget(m) ==> HostTarget::read_from(msg, m))
    &&& (r matches Message::Join(m) ==> Join::read_from(msg, m))
    &&& (r matches Message::Mode(m) ==> Mode::read_from(msg, m))
    &&& (r matches Message::Names(m) ==> Names::read_from(msg, m))
    &&& (r matches Message::Notice(m) ==> Notice::read_from(msg, m))
    &&& (r matches Message::Part(m) ==> Part::read_from(msg, m))
    &&& (r matches Message::Ping(m) ==> Ping::read_from(msg, m))
    &&& (r matches Message::Pong(m) ==> Pong::read_from(msg, m))
    &&& (r matches Message::Privmsg(m) ==> Privmsg::read_from(msg, m))
    &&& (r matches Message::Reconnect(m) ==> Reconnect::read_from(msg, m))
    &&& (r matches Message::RoomState(m) ==> RoomState::read_from(msg, m))
    &&& (r matches Message::UserNotice(m) ==> UserNotice::read_from(msg, m))
    &&& (r matches Message::UserState(m) ==> UserState::read_from(msg, m))
    &&& (r matches Message::Whisper(m) ==> Whisper::read_from(msg, m))
}

impl Message {
    /// The kind of this message.
    pub fn kind(&self) -> (r: EventKind)
        ensures
            r == message_kind(*self),
    {
        match self {
            Message::IrcReady(_) => EventKind::IrcReady,
            Message::Ready(_) => EventKind::Ready,
            Message::Cap(_) => EventKind::Cap,
            Message::ClearChat(_) => EventKind::ClearChat,
            Message::ClearMsg(_) => EventKind::ClearMsg,
            Message::GlobalUserState(_) => EventKind::GlobalUserState,
            Message::HostTarget(_) => EventKind::HostTarget,
            Message::Join(_) => EventKind::Join,
            Message::Mode(_) => EventKind::Mode,
            Message::Names(_) => EventKind::Names,
            Message::Notice(_) => EventKind::Notice,
            Message::Part(_) => EventKind::Part,
            Message::Ping(_) => EventKind::Ping,
            Message::Pong(_) => EventKind::Pong,
            Message::Privmsg(_) => EventKind::Privmsg,
            Message::Reconnect(_) => EventKind::Reconnect,
            Message::RoomState(_) => EventKind::RoomState,
            Message::UserNotice(_) => EventKind::UserNotice,
            Message::UserState(_) => EventKind::UserState,
            Message::Whisper(_) => EventKind::Whisper,
            Message::Raw(_) => EventKind::Raw,
        }
    }

    /// Reads a frame as the variant its command selects; a frame that the
    /// variant cannot read, or whose command selects none, stays `Raw`.
    pub fn parse(msg: IrcMessage) -> (r: Message)
        ensures
            parsed_from(msg, r),
    {
        let kind = kind_of(msg.command());
        let keep = msg.clone();
        match kind {
            EventKind::IrcReady => match IrcReady::from_irc(msg) {
                Ok(m) => Message::IrcReady(m),
                Err(_) => Message::Raw(keep),
            },
            EventKind::Ready => match Ready::from_irc(msg) {
                Ok(m) => Message::Ready(m),
                Err(_) => Message::Raw(keep),
            },
            EventKind::Cap => match Cap::from_irc(msg) {
                Ok(m) => Message::Cap(m),
                Err(_) => Message::Raw(keep),
            },
            EventKind::ClearChat => match ClearChat::from_irc(msg) {
                Ok(m) => Message::ClearChat(m),
                Err(_) => Message::Raw(keep),
            },
            EventKind::ClearMsg => match ClearMsg::from_irc(msg) {
                Ok(m) => Message::ClearMsg(m),
                Err(_) => Message::Raw(keep),
            },
            EventKind::GlobalUserState => match GlobalUserState::from_irc(msg) {
                Ok(m) => Message::GlobalUserState(m),
                Err(_) => Message::Raw(keep),
            },
            EventKind::HostTarget => match HostTarget::from_irc(msg) {
                Ok(m) => Message::HostTarget(m),
                Err(_) => Message::Raw(keep),
            },
            EventKind::Join => match Join::from_irc(msg) {
                Ok(m) => Message::Join(m),
                Err(_) => Message::Raw(keep),
            },
            EventKind::Mode => match Mode::from_irc(msg) {
                Ok(m) => Message::Mode(m),
                Err(_) => Message::Raw(keep),
            },
            EventKind::Names => match Names::from_irc(msg) {
                Ok(m) => Message::Names(m),
                Err(_) => Message::Raw(keep),
            },
            EventKind::Notice => match Notice::from_irc(msg) {
                Ok(m) => Message::Notice(m),
                Err(_) => Message::Raw(keep),
            },
            EventKind::Part => match Part::from_irc(msg) {
                Ok(m) => Message::Part(m),
                Err(_) => Message::Raw(keep),
            },
            EventKind::Ping => match Ping::from_irc(msg) {
                Ok(m) => Message::Ping(m),
                Err(_) => Message::Raw(keep),
            },
            EventKind::Pong => match Pong::from_irc(msg) {
                Ok(m) => Message::Pong(m),
                Err(_) => Message::Raw(keep),
            },
            EventKind::Privmsg => match Privmsg::from_irc(msg) {
                Ok(m) => Message::Privmsg(m),
                Err(_) => Message::Raw(keep),
            },
            EventKind::Reconnect => match Reconnect::from_irc(msg) {
                Ok(m) => Message::Reconnect(m),
                Err(_) => Message::Raw(keep),
            },
            EventKind::RoomState => match RoomState::from_irc(msg) {
                Ok(m) => Message::RoomState(m),
                Err(_) => Message::Raw(keep),
            },
            EventKind::UserNotice => match UserNotice::from_irc(msg) {
                Ok(m) => Message::UserNotice(m),
                Err(_) => Message::Raw(keep),
            },
            EventKind::UserState => match UserState::from_irc(msg) {
                Ok(m) => Message::UserState(m),
                Err(_) => Message::Raw(keep),
            },
            EventKind::Whisper => match Whisper::from_irc(msg) {
                Ok(m) => Message::Whisper(m),
                Err(_) => Message::Raw(keep),
            },
            _ => Message::Raw(msg),
        }
    }
}

/// A message that marks a stage of readiness, and the command that sends it.
pub trait ReadyMessage {
    /// Whether the message comes only when capabilities were requested.
    fn requires_caps() -> bool;

    /// The command token of the message.
    fn command() -> (r: &'static str);
}

impl ReadyMessage for IrcReady {
    fn requires_caps() -> bool {
        false
    }

    fn command() -> (r: &'static str) {
        "001"
    }
}

impl ReadyMessage for Ready {
    fn requires_caps() -> bool {
        false
    }

    fn command() -> (r: &'static str) {
        "376"
    }
}

impl ReadyMessage for GlobalUserState {
    fn requires_caps() -> bool {
        true
    }

    fn command() -> (r: &'static str) {
        "GLOBALUSERSTATE"
    }
}

} // verus!
