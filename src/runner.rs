//! The runner's decisions, apart from its I/O: framing what the socket
//! delivers, the one-way status of a session, read timeouts, automatic
//! replies to pings, and the handles that send commands and ask it to stop.
use vstd::prelude::*;

use async_channel::Sender;

use crate::commands::{pong, to_wire, Encodable};
use crate::irc::{decode, decode_all, result_frame, IrcMessage, ParseError};
use crate::messages::Message;
use crate::text::{crlf_index, find_crlf, lemma_crlf_index_bounds, to_chars};
use crate::trovo::Error;

verus! {

/// How a session ended.
#[derive(Debug, Clone, Copy, PartialEq, Eq, Structural)]
pub enum Status {
    /// The server closed the connection.
    Eof,
    /// A stop was requested.
    Canceled,
    /// Nothing was read for too long.
    Timeout,
    /// Reading or writing the socket failed.
    Io,
}

/// Where the complete frames of `s` end: just after its last CRLF (0 when
/// there is none).
pub open spec fn frames_end(s: Seq<char>) -> nat
    decreases s.len(),
{
    let i = crlf_index(s);
    if 0 <= i && i + 2 <= s.len() {
        (i + 2 + frames_end(s.subrange(i + 2, s.len() as int))) as nat
    } else {
        0
    }
}

proof fn lemma_frames_end_bound(s: Seq<char>)
    ensures
        frames_end(s) <= s.len(),
    decreases s.len(),
{
    let i = crlf_index(s);
    if 0 <= i && i + 2 <= s.len() {
        lemma_frames_end_bound(s.subrange(i + 2, s.len() as int));
    }
}

fn complete_len(s: &str) -> (r: usize)
    ensures
        r == frames_end(s@),
{
    let n = s.unicode_len();
    let mut off: usize = 0;
    proof {
        assert(s@.subrange(0, n as int) =~= s@);
    }
    loop
        invariant
            n == s@.len(),
            off <= n,
            frames_end(s@) == off + frames_end(s@.subrange(off as int, n as int)),
        decreases n - off,
    {
        let rest = s.substring_char(off, n);
        let c = to_chars(rest);
        let pos = find_crlf(&c);
        proof {
            lemma_crlf_index_bounds(rest@);
        }
        if pos >= c.len() {
            return off;
        }
        proof {
            assert(rest@.subrange(pos + 2, rest@.len() as int) =~= s@.subrange(off + pos + 2, n as int));
        }
        off = off + pos + 2;
    }
}

/// What has arrived of a frame that is not complete yet.
pub struct LineBuffer {
    pending: String,
}

impl LineBuffer {
    /// The characters held back.
    pub closed spec fn pending(&self) -> Seq<char> {
        self.pending@
    }

    /// An empty buffer.
    pub fn new() -> (r: LineBuffer)
        ensures
            r.pending() == Seq::<char>::empty(),
    {
        LineBuffer { pending: String::new() }
    }

    /// Adds `text` after what is held back, decodes every frame that is now
    /// complete, in order, and holds back the rest.
    pub fn push(&mut self, text: &str) -> (r: Vec<Result<IrcMessage, ParseError>>)
        ensures
            ({
                let all = old(self).pending() + text@;
                let e = frames_end(all) as int;
                &&& r@.len() == decode_all(all.subrange(0, e)).len()
                &&& forall|i: int| 0 <= i < r@.len() ==> result_frame(#[trigger] r@[i]) == decode_all(all.subrange(0, e))[i]
                &&& final(self).pending() == all.subrange(e, all.len() as int)
            }),
    {
        let mut all = String::new();
        all.append(self.pending.as_str());
        all.append(text);
        let e = complete_len(all.as_str());
        let n = all.as_str().unicode_len();
        proof {
            lemma_frames_end_bound(all@);
        }
        let out = decode(all.as_str().substring_char(0, e));
        self.pending = all.as_str().substring_char(e, n).to_owned();
        out
    }
}

/// The state of one session. Once it has ended it stays ended, with the
/// status it ended with.
pub struct Session {
    buffer: LineBuffer,
    last_read: u64,
    read_timeout: u64,
    status: Option<Status>,
}

impl Session {
    /// How the session ended, if it has.
    pub closed spec fn ended(&self) -> Option<Status> {
        self.status
    }

    /// What has arrived of a frame that is not complete yet.
    pub closed spec fn pending(&self) -> Seq<char> {
        self.buffer.pending()
    }

    /// When something was last read.
    pub closed spec fn last_read(&self) -> nat {
        self.last_read as nat
    }

    /// How long a silence ends the session.
    pub closed spec fn read_timeout(&self) -> nat {
        self.read_timeout as nat
    }

    /// A session started at `now` that times out after `read_timeout`
    /// milliseconds without input.
    pub fn new(now: u64, read_timeout: u64) -> (r: Session)
        ensures
            r.ended() is None,
            r.pending() == Seq::<char>::empty(),
            r.last_read() == now,
            r.read_timeout() == read_timeout,
    {
        Session { buffer: LineBuffer::new(), last_read: now, read_timeout, status: None }
    }

    /// How the session ended, if it has.
    pub fn status(&self) -> (r: Option<Status>)
        ensures
            r == self.ended(),
    {
        self.status
    }

    fn end(&mut self, s: Status) -> (r: Status)
        ensures
            final(self).ended() == Some(r),
            old(self).ended() matches Some(e) ==> r == e,
            old(self).ended() is None ==> r == s,
            final(self).last_read() == old(self).last_read(),
            final(self).read_timeout() == old(self).read_timeout(),
    {
        match self.status {
            Some(e) => e,
            None => {
                self.status = Some(s);
                s
            },
        }
    }

    /// A stop was requested: the session ends as canceled (or stays as it
    /// ended).
    pub fn on_quit(&mut self) -> (r: Status)
        ensures
            final(self).ended() == Some(r),
            old(self).ended() matches Some(e) ==> r == e,
            old(self).ended() is None ==> r == Status::Canceled,
    {
        self.end(Status::Canceled)
    }

    /// The socket delivered `text` at `now`: the frames it completes. An
    /// empty read is the end of the stream. Nothing is read after the end.
    pub fn on_read(&mut self, text: &str, now: u64) -> (r: Vec<Result<IrcMessage, ParseError>>)
        ensures
            old(self).ended() is Some ==> r@.len() == 0 && final(self).ended() == old(self).ended(),
            old(self).ended() is None && text@.len() == 0 ==> r@.len() == 0 && final(self).ended() == Some(Status::Eof),
            old(self).ended() is None && text@.len() > 0 ==> final(self).ended() is None && final(self).last_read() == now
                && ({
                    let all = old(self).pending() + text@;
                    let e = frames_end(all) as int;
                    &&& r@.len() == decode_all(all.subrange(0, e)).len()
                    &&& forall|i: int| 0 <= i < r@.len() ==> result_frame(#[trigger] r@[i]) == decode_all(all.subrange(0, e))[i]
                    &&& final(self).pending() == all.subrange(e, all.len() as int)
                }),
            final(self).read_timeout() == old(self).read_timeout(),
    {
        if self.status.is_some() {
            return Vec::new();
        }
        if text.unicode_len() == 0 {
            self.end(Status::Eof);
            return Vec::new();
        }
        self.last_read = now;
        self.buffer.push(text)
    }

    /// A clock tick at `now`: the session times out when nothing has been
    /// read for `read_timeout` milliseconds.
    pub fn on_tick(&mut self, now: u64) -> (r: Option<Status>)
        ensures
            old(self).ended() is Some ==> r == old(self).ended() && final(self).ended() == old(self).ended(),
            old(self).ended() is None ==> (r == Some(Status::Timeout) <==> now >= old(self).last_read() + old(self).read_timeout()),
            old(self).ended() is None ==> (r is None <==> final(self).ended() is None),
            r is Some ==> final(self).ended() == r,
    {
        if self.status.is_some() {
            return self.status;
        }
        if now >= self.last_read && now - self.last_read >= self.read_timeout {
            Some(self.end(Status::Timeout))
        } else {
            None
        }
    }

    /// The socket could not be written or read: the session ends.
    pub fn on_io_error(&mut self) -> (r: Status)
        ensures
            final(self).ended() == Some(r),
            old(self).ended() matches Some(e) ==> r == e,
            old(self).ended() is None ==> r == Status::Io,
    {
        self.end(Status::Io)
    }
}

/// The reply a message calls for: a `PONG` with the token of a `PING`.
pub fn auto_reply(msg: &Message) -> (r: Option<String>)
    ensures
        msg matches Message::Ping(p) ==> r is Some && r->0@ == "PONG :"@ + p.token@ + "\r\n"@,
        !(msg is Ping) ==> r is None,
{
    match msg {
        Message::Ping(p) => Some(to_wire(&pong(p.token.as_str()))),
        _ => None,
    }
}

/// A handle that queues outbound lines to the runner.
#[derive(Clone)]
pub struct Writer {
    sender: Sender<String>,
}

impl Writer {
    /// A writer into `sender`.
    pub fn new(sender: Sender<String>) -> Writer {
        Writer { sender }
    }

    /// Queues a wire line; `ClientDisconnected` when the runner is gone.
    pub fn send_line(&self, line: String) -> (r: Result<(), Error>)
        ensures
            r matches Err(e) ==> e == Error::ClientDisconnected,
    {
        match self.sender.try_send(line) {
            Ok(()) => Ok(()),
            Err(_) => Err(Error::ClientDisconnected),
        }
    }

    /// Queues the wire form of `cmd`.
    pub fn encode<E: Encodable>(&self, cmd: &E) -> (r: Result<(), Error>)
        ensures
            r matches Err(e) ==> e == Error::ClientDisconnected,
    {
        self.send_line(to_wire(cmd))
    }
}

/// Handles for a running session: a writer, and a way to ask it to stop.
#[derive(Clone)]
pub struct Control {
    writer: Writer,
    quit: Sender<()>,
}

impl Control {
    /// Handles over `writer` and the quit channel `quit`.
    pub fn new(writer: Writer, quit: Sender<()>) -> Control {
        Control { writer, quit }
    }

    /// The writer; clone it to send from elsewhere.
    pub fn writer(&mut self) -> &mut Writer {
        &mut self.writer
    }

    /// Asks the runner to stop; asking again changes nothing.
    pub fn stop(&self) {
        let _ = self.quit.close();
    }
}

} // verus!
