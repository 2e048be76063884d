//! A client library for a line-oriented, tag-carrying IRC chat protocol.
//!
//! The wire decoder turns CRLF-terminated frames into [`irc::IrcMessage`]s,
//! the typed layer projects those into [`messages::Message`] variants, the
//! encoder renders outbound commands, the rate limiter paces them and the
//! dispatcher fans parsed messages out to subscribers.
use vstd::prelude::*;

pub mod text;
pub mod irc;
pub mod line;
pub mod render;
pub mod trovo;
pub mod messages;
pub mod commands;
pub mod rate;
pub mod channel;
pub mod dispatcher;
pub mod runner;
pub mod client;

verus! {

/// The IRC address for plain connections.
pub const TROVO_IRC_ADDRESS: &'static str = "irc.chat.trovo.tv:6667";

/// The IRC address for TLS connections.
pub const TROVO_IRC_ADDRESS_TLS: &'static str = "irc.chat.trovo.tv:6697";

/// The WebSocket address for plain connections.
pub const TROVO_WS_ADDRESS: &'static str = "ws://irc-ws.chat.trovo.tv:80";

/// The WebSocket address for TLS connections.
pub const TROVO_WS_ADDRESS_TLS: &'static str = "wss://irc-ws.chat.trovo.tv:443";

/// The TLS domain name of the chat service.
pub const TROVO_TLS_DOMAIN: &'static str = "irc.chat.trovo.tv";

/// The reserved nickname (and password) for read-only sessions.
pub const JUSTINFAN1234: &'static str = "justinfan1234";

/// The anonymous login: a nickname and a password.
pub const ANONYMOUS_LOGIN: (&'static str, &'static str) = (JUSTINFAN1234, JUSTINFAN1234);

} // verus!
