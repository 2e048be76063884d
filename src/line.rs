//! A quick classification of single lines, for callers that only need to
//! tell pings, capability replies and the ready numerics from the rest.
use vstd::prelude::*;

use crate::irc::{decode_first, decode_one, Frame, IrcMessage};
use crate::text::{str_eq, trim, trimmed};

verus! {

/// A line, classified.
#[derive(Debug, Clone)]
pub enum Message {
    /// The server asks for a `PONG` with this token.
    Ping { token: String },
    /// A capability was granted (or refused).
    Cap { acknowledge: bool, cap: String },
    /// Registration succeeded (`001`); the nickname assigned.
    Connected { name: String },
    /// The message of the day ended (`376`); the nickname assigned.
    Ready { name: String },
    /// Anything else.
    Unknown(IrcMessage),
}

/// What a line classifies as, over frames: `None` for blank lines, lines
/// that do not decode, and the known commands that lack their parts.
pub open spec fn classify(f: Frame) -> Option<int> {
    if f.command == "PING"@ {
        if f.data is Some { Some(0) } else { None }
    } else if f.command == "CAP"@ {
        if f.data is Some { Some(1) } else { None }
    } else if f.command == "001"@ {
        if f.args.len() > 0 { Some(2) } else { None }
    } else if f.command == "376"@ {
        if f.args.len() > 0 { Some(3) } else { None }
    } else {
        Some(4)
    }
}

impl Message {
    /// Classifies one line (surrounding whitespace is ignored).
    pub fn parse(input: &str) -> (r: Option<Message>)
        ensures
            trim(input@).len() == 0 ==> r is None,
            trim(input@).len() > 0 ==> match decode_first(trim(input@) + "\r\n"@) {
                Err(_) => r is None,
                Ok(f) => (r is Some <==> classify(f) is Some) && match r {
                    Some(Message::Ping { token }) => f.command == "PING"@ && token@ == f.data->0,
                    Some(Message::Cap { acknowledge, cap }) => f.command == "CAP"@ && cap@ == f.data->0
                        && acknowledge == (f.args.len() > 1 && f.args[1] == "ACK"@),
                    Some(Message::Connected { name }) => f.command == "001"@ && name@ == f.args[0],
                    Some(Message::Ready { name }) => f.command == "376"@ && name@ == f.args[0],
                    Some(Message::Unknown(m)) => classify(f) == Some(4int) && m@ == f,
                    None => true,
                },
            },
    {
        let t = trimmed(input);
        if t.unicode_len() == 0 {
            return None;
        }
        let mut line = String::new();
        line.append(t);
        line.append("\r\n");
        let m = match decode_one(line.as_str()) {
            Ok((_, m)) => m,
            Err(_) => {
                return None;
            },
        };
        let cmd = m.command();
        if str_eq(cmd, "PING") {
            match m.data() {
                Some(d) => Some(Message::Ping { token: d.to_owned() }),
                None => None,
            }
        } else if str_eq(cmd, "CAP") {
            let acknowledge = match m.arg(1) {
                Some(a) => str_eq(a, "ACK"),
                None => false,
            };
            match m.data() {
                Some(d) => Some(Message::Cap { acknowledge, cap: d.to_owned() }),
                None => None,
            }
        } else if str_eq(cmd, "001") {
            match m.arg(0) {
                Some(a) => Some(Message::Connected { name: a.to_owned() }),
                None => None,
            }
        } else if str_eq(cmd, "376") {
            match m.arg(0) {
                Some(a) => Some(Message::Ready { name: a.to_owned() }),
                None => None,
            }
        } else {
            Some(Message::Unknown(m))
        }
    }
}

} // verus!
