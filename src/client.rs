//! Registration with the server and what it reveals about the user: the
//! lines that register, the capabilities acknowledged, the nickname
//! assigned, and the identity sent once registration completes.
use vstd::prelude::*;

use crate::irc::IrcMessage;
use crate::messages::{
    badges_match, badges_of, emote_sets_of, kind_of_command, message_kind, opt_chars, opt_number, readable,
    EventKind, GlobalUserState, Message,
};
use crate::irc::tag_lookup;
use crate::runner::Writer;
use crate::text::{parse_u64, str_eq};
use crate::trovo::{Capability, Error, LocalUser, Token, TokenGen, UserConfig};

verus! {

/// The request line for a capability.
pub open spec fn cap_request(c: Capability) -> Seq<char> {
    match c {
        Capability::Membership => "CAP REQ :trovo.tv/membership"@,
        Capability::Tags => "CAP REQ :trovo.tv/tags"@,
        Capability::Commands => "CAP REQ :trovo.tv/commands"@,
        Capability::ChatRooms => "CAP REQ :trovo.tv/tags trovo.tv/commands"@,
    }
}

/// The lines that register: one request per capability, then `PASS` with
/// the token and `NICK` with the nickname.
pub open spec fn registration(config: UserConfig) -> Seq<Seq<char>> {
    config.caps@.map_values(|c: Capability| cap_request(c) + "\r\n"@) + seq![
        "PASS "@ + config.token@ + "\r\n"@,
        "NICK "@ + config.nick@ + "\r\n"@,
    ]
}

/// The lines that register with `config`.
pub fn registration_lines(config: &UserConfig) -> (r: Vec<String>)
    ensures
        r@.len() == registration(*config).len(),
        forall|i: int| 0 <= i < r@.len() ==> (#[trigger] r@[i])@ == registration(*config)[i],
{
    let mut out: Vec<String> = Vec::new();
    let mut i: usize = 0;
    while i < config.caps.len()
        invariant
            i <= config.caps@.len(),
            out@.len() == i,
            forall|j: int| 0 <= j < i ==> (#[trigger] out@[j])@ == cap_request(config.caps@[j]) + "\r\n"@,
        decreases config.caps.len() - i,
    {
        let mut line = String::new();
        line.append(config.caps[i].encode_as_str());
        line.append("\r\n");
        out.push(line);
        i = i + 1;
    }
    let mut pass = String::new();
    pass.append("PASS ");
    pass.append(config.token.as_str());
    pass.append("\r\n");
    out.push(pass);
    let mut nick = String::new();
    nick.append("NICK ");
    nick.append(config.nick.as_str());
    nick.append("\r\n");
    out.push(nick);
    out
}

/// The capability an acknowledged name stands for.
pub open spec fn cap_named(name: Seq<char>) -> Option<Capability> {
    if name == "trovo.tv/membership"@ {
        Some(Capability::Membership)
    } else if name == "trovo.tv/tags"@ {
        Some(Capability::Tags)
    } else if name == "trovo.tv/commands"@ {
        Some(Capability::Commands)
    } else {
        None
    }
}

fn cap_of(name: &str) -> (r: Option<Capability>)
    ensures
        r == cap_named(name@),
{
    if str_eq(name, "trovo.tv/membership") {
        Some(Capability::Membership)
    } else if str_eq(name, "trovo.tv/tags") {
        Some(Capability::Tags)
    } else if str_eq(name, "trovo.tv/commands") {
        Some(Capability::Commands)
    } else {
        None
    }
}

/// `s` without the occurrences of `t`.
pub open spec fn without(s: Seq<Token>, t: Token) -> Seq<Token>
    decreases s.len(),
{
    if s.len() == 0 {
        s
    } else if s.last() == t {
        without(s.drop_last(), t)
    } else {
        without(s.drop_last(), t).push(s.last())
    }
}

/// The filters of `s` but those registered as `t`.
pub open spec fn filters_without(s: Seq<(Token, EventKind)>, t: Token) -> Seq<(Token, EventKind)>
    decreases s.len(),
{
    if s.len() == 0 {
        s
    } else if s.last().0 == t {
        filters_without(s.drop_last(), t)
    } else {
        filters_without(s.drop_last(), t).push(s.last())
    }
}

/// The tokens of the filters of `s` that take kind `k`, in order.
pub open spec fn filters_for(s: Seq<(Token, EventKind)>, k: EventKind) -> Seq<Token>
    decreases s.len(),
{
    if s.len() == 0 {
        Seq::empty()
    } else if s.last().1 == k {
        filters_for(s.drop_last(), k).push(s.last().0)
    } else {
        filters_for(s.drop_last(), k)
    }
}

/// The notice text with which the server refuses a nickname and token.
pub open spec fn bad_auth(text: Seq<char>) -> bool {
    text == "Improperly formatted auth"@ || text == "Login authentication failed"@
}

/// A session's registration: what was acknowledged and assigned, the
/// identity once known, and the handlers registered by kind.
pub struct Client {
    writer: Writer,
    caps: Vec<Capability>,
    nickname: Option<String>,
    ready_name: Option<String>,
    identity: Option<LocalUser>,
    tokens: TokenGen,
    filters: Vec<(Token, EventKind)>,
    handlers: Vec<Token>,
}

impl Client {
    /// The capabilities acknowledged so far, in order.
    pub closed spec fn acknowledged(&self) -> Seq<Capability> {
        self.caps@
    }

    /// The nickname the server assigned, once it has.
    pub closed spec fn assigned(&self) -> Option<Seq<char>> {
        match self.nickname {
            Some(n) => Some(n@),
            None => None,
        }
    }

    /// The registered catch-all handlers.
    pub closed spec fn handler_tokens(&self) -> Seq<Token> {
        self.handlers@
    }

    /// The registered filters, each with the kind it takes.
    pub closed spec fn filter_tokens(&self) -> Seq<(Token, EventKind)> {
        self.filters@
    }

    /// Whether the identity has been received.
    pub closed spec fn has_identity(&self) -> bool {
        self.identity is Some
    }

    /// The identity, once received.
    pub closed spec fn identity(&self) -> Option<LocalUser> {
        self.identity
    }

    /// The name the end of the message of the day (`376`) gave, once it came.
    pub closed spec fn ready(&self) -> Option<Seq<char>> {
        match self.ready_name {
            Some(n) => Some(n@),
            None => None,
        }
    }

    /// A client that sends through `writer`.
    pub fn new(writer: Writer) -> (r: Client)
        ensures
            r.acknowledged() == Seq::<Capability>::empty(),
            r.assigned() is None,
            !r.has_identity(),
            r.handler_tokens() == Seq::<Token>::empty(),
            r.filter_tokens() == Seq::<(Token, EventKind)>::empty(),
    {
        Client {
            writer,
            caps: Vec::new(),
            nickname: None,
            ready_name: None,
            identity: None,
            tokens: TokenGen(0),
            filters: Vec::new(),
            handlers: Vec::new(),
        }
    }

    /// Sends the registration lines for `config`; `ClientDisconnected` when
    /// the runner is gone.
    pub fn register(&mut self, config: &UserConfig) -> (r: Result<(), Error>)
        ensures
            r matches Err(e) ==> e == Error::ClientDisconnected,
    {
        let lines = registration_lines(config);
        let mut i: usize = 0;
        while i < lines.len()
            invariant
                i <= lines@.len(),
            decreases lines.len() - i,
        {
            if let Err(e) = self.writer.send_line(lines[i].clone()) {
                return Err(e);
            }
            i = i + 1;
        }
        Ok(())
    }

    /// Reads one decoded frame during registration and after: refusals of
    /// the login fail with `InvalidRegistration`; acknowledged capabilities,
    /// the assigned nickname and the identity are recorded.
    pub fn read_message(&mut self, msg: IrcMessage) -> (r: Result<Message, Error>)
        ensures
            r matches Ok(m) ==> match m {
                Message::Cap(c) => if c.acknowledged && cap_named(c.capability@) is Some {
                    final(self).acknowledged() == old(self).acknowledged().push(cap_named(c.capability@)->0)
                } else {
                    final(self).acknowledged() == old(self).acknowledged()
                },
                Message::IrcReady(i) => final(self).assigned() == Some(i.nickname@),
                Message::Ready(rd) => final(self).ready() == Some(rd.username@),
                Message::GlobalUserState(g) => (final(self).identity() matches Some(u)
                    && identity_of(u, g, old(self).acknowledged())),
                _ => true,
            },
            r is Err <==> refused(msg@) || ready_too_early(msg@, old(self).acknowledged(), old(self).has_identity()),
            r matches Err(e) ==> (refused(msg@) ==> e == Error::InvalidRegistration),
            r matches Err(e) ==> (!refused(msg@) ==> (e matches Error::CapabilityRequired(v) && v@ == missing_caps(old(self).acknowledged()))),
            r matches Ok(m) ==> (readable(kind_of_command(msg@.command), msg@) ==> message_kind(m) == kind_of_command(msg@.command)),
            r matches Ok(m) ==> (!readable(kind_of_command(msg@.command), msg@) ==> (m matches Message::Raw(raw) && raw@ == msg@)),
            final(self).handler_tokens() == old(self).handler_tokens(),
            final(self).filter_tokens() == old(self).filter_tokens(),
    {
        proof {
            reveal_strlit("NOTICE");
            reveal_strlit("376");
            assert("NOTICE"@ != "376"@) by {
                assert("NOTICE"@.len() != "376"@.len());
            }
        }
        if str_eq(msg.command(), "376") && msg.arg_count() > 0 && self.identity.is_none() {
            let missing = missing_of(&self.caps);
            if missing.len() > 0 {
                return Err(Error::CapabilityRequired(missing));
            }
        }
        if str_eq(msg.command(), "NOTICE") && msg.arg_count() > 0 {
            if let Some(text) = msg.data() {
                if str_eq(text, "Improperly formatted auth") || str_eq(text, "Login authentication failed") {
                    return Err(Error::InvalidRegistration);
                }
            }
        }
        let m = Message::parse(msg);
        match &m {
            Message::Cap(c) => {
                if c.acknowledged {
                    if let Some(cap) = cap_of(c.capability.as_str()) {
                        self.caps.push(cap);
                    }
                }
            },
            Message::IrcReady(i) => {
                self.nickname = Some(i.nickname.clone());
            },
            Message::Ready(rd) => {
                self.ready_name = Some(rd.username.clone());
            },
            Message::GlobalUserState(g) => {
                self.identity = Some(local_user(g, &self.caps));
            },
            _ => {},
        }
        Ok(m)
    }

    /// The identity, once the server has sent it.
    pub fn wait_for_ready(&self) -> (r: Option<&LocalUser>)
        ensures
            match r {
                Some(u) => self.identity() == Some(*u),
                None => self.identity() is None,
            },
    {
        match &self.identity {
            Some(u) => Some(u),
            None => None,
        }
    }

    /// The nickname the server assigned (`001`), once it has.
    pub fn nickname(&self) -> (r: Option<String>)
        ensures
            match r {
                Some(n) => self.assigned() == Some(n@),
                None => self.assigned() is None,
            },
    {
        match &self.nickname {
            Some(n) => Some(n.clone()),
            None => None,
        }
    }

    /// The name given at the end of the message of the day (`376`), once it
    /// came: registration with the plain IRC server is complete.
    pub fn wait_for_irc_ready(&self) -> (r: Option<String>)
        ensures
            match r {
                Some(n) => self.ready() == Some(n@),
                None => self.ready() is None,
            },
    {
        match &self.ready_name {
            Some(n) => Some(n.clone()),
            None => None,
        }
    }

    /// Registers a filter for messages of kind `kind`; the token removes it
    /// again.
    pub fn on(&mut self, kind: EventKind) -> (r: Token)
        ensures
            final(self).filter_tokens() == old(self).filter_tokens().push((r, kind)),
            final(self).handler_tokens() == old(self).handler_tokens(),
    {
        let t = self.tokens.next();
        self.filters.push((t, kind));
        t
    }

    /// Removes the filter `tok`; whether it was registered.
    pub fn off(&mut self, tok: Token) -> (r: bool)
        ensures
            r <==> exists|i: int| 0 <= i < old(self).filter_tokens().len() && old(self).filter_tokens()[i].0 == tok,
            final(self).filter_tokens() == filters_without(old(self).filter_tokens(), tok),
            final(self).handler_tokens() == old(self).handler_tokens(),
    {
        let mut kept: Vec<(Token, EventKind)> = Vec::new();
        let mut found = false;
        let mut i: usize = 0;
        while i < self.filters.len()
            invariant
                self.filters@ == old(self).filters@,
                i <= self.filters@.len(),
                kept@ == filters_without(self.filters@.subrange(0, i as int), tok),
                found <==> exists|j: int| 0 <= j < i && self.filters@[j].0 == tok,
            decreases self.filters.len() - i,
        {
            proof {
                let pre = self.filters@.subrange(0, i + 1);
                assert(pre.drop_last() =~= self.filters@.subrange(0, i as int));
            }
            if self.filters[i].0 == tok {
                found = true;
            } else {
                kept.push(self.filters[i]);
            }
            i = i + 1;
        }
        assert(self.filters@.subrange(0, i as int) =~= self.filters@);
        proof {
            let orig = old(self).filter_tokens();
            if found {
                let j = choose|j: int| 0 <= j < i && self.filters@[j].0 == tok;
                assert(orig[j].0 == tok);
            } else {
                assert forall|j: int| 0 <= j < orig.len() implies orig[j].0 != tok by {
                    assert(self.filters@[j] == orig[j]);
                }
            }
        }
        self.filters = kept;
        found
    }

    /// Registers a handler that takes every message; the token removes it
    /// again.
    pub fn handler(&mut self) -> (r: Token)
        ensures
            final(self).handler_tokens() == old(self).handler_tokens().push(r),
            final(self).filter_tokens() == old(self).filter_tokens(),
    {
        let t = self.tokens.next();
        self.handlers.push(t);
        t
    }

    /// Removes the handler `tok`; whether it was registered.
    pub fn remove_handler(&mut self, tok: Token) -> (r: bool)
        ensures
            r <==> old(self).handler_tokens().contains(tok),
            final(self).handler_tokens() == without(old(self).handler_tokens(), tok),
            final(self).filter_tokens() == old(self).filter_tokens(),
    {
        let mut kept: Vec<Token> = Vec::new();
        let mut found = false;
        let mut i: usize = 0;
        while i < self.handlers.len()
            invariant
                i <= self.handlers@.len(),
                kept@ == without(self.handlers@.subrange(0, i as int), tok),
                found <==> exists|j: int| 0 <= j < i && self.handlers@[j] == tok,
            decreases self.handlers.len() - i,
        {
            proof {
                let pre = self.handlers@.subrange(0, i + 1);
                assert(pre.drop_last() =~= self.handlers@.subrange(0, i as int));
            }
            if self.handlers[i] == tok {
                found = true;
            } else {
                kept.push(self.handlers[i]);
            }
            i = i + 1;
        }
        assert(self.handlers@.subrange(0, i as int) =~= self.handlers@);
        self.handlers = kept;
        found
    }

    /// Who a message of kind `kind` goes to: the filters for that kind, in
    /// order of registration, then every handler.
    pub fn targets(&self, kind: EventKind) -> (r: Vec<Token>)
        ensures
            r@ == filters_for(self.filter_tokens(), kind) + self.handler_tokens(),
    {
        let mut out: Vec<Token> = Vec::new();
        let mut i: usize = 0;
        while i < self.filters.len()
            invariant
                i <= self.filters@.len(),
                out@ == filters_for(self.filters@.subrange(0, i as int), kind),
            decreases self.filters.len() - i,
        {
            proof {
                let pre = self.filters@.subrange(0, i + 1);
                assert(pre.drop_last() =~= self.filters@.subrange(0, i as int));
            }
            if self.filters[i].1 == kind {
                out.push(self.filters[i].0);
            }
            i = i + 1;
        }
        assert(self.filters@.subrange(0, i as int) =~= self.filters@);
        let ghost base = out@;
        let mut j: usize = 0;
        while j < self.handlers.len()
            invariant
                j <= self.handlers@.len(),
                out@ == base + self.handlers@.subrange(0, j as int),
            decreases self.handlers.len() - j,
        {
            out.push(self.handlers[j]);
            j = j + 1;
            assert(out@ =~= base + self.handlers@.subrange(0, j as int));
        }
        assert(self.handlers@.subrange(0, j as int) =~= self.handlers@);
        out
    }

    /// A clone of the writer.
    pub fn writer(&self) -> (r: Writer) {
        self.writer.clone()
    }
}

/// What the read loop does with one outcome: a frame that could not be read
/// is skipped, and any other error ends the loop with that error.
pub fn run_step(outcome: Result<Message, Error>) -> (r: Option<Error>)
    ensures
        match outcome {
            Ok(_) => r is None,
            Err(Error::InvalidMessage(_)) => r is None,
            Err(e) => r == Some(e),
        },
{
    match outcome {
        Ok(_) => None,
        Err(Error::InvalidMessage(_)) => None,
        Err(e) => Some(e),
    }
}

/// The numbers among `sets`, in order; pieces that are not numbers are
/// left out.
pub open spec fn numbers_in(sets: Seq<Seq<char>>) -> Seq<u64>
    decreases sets.len(),
{
    if sets.len() == 0 {
        Seq::empty()
    } else {
        match opt_number(Some(sets.last())) {
            Some(v) => numbers_in(sets.drop_last()).push(v),
            None => numbers_in(sets.drop_last()),
        }
    }
}

/// `u` is the identity that `g` reports, with the capabilities `caps`: the
/// user id read as a number (0 when it is not one), the display name, the
/// color, the badges, the emote sets that are numbers, and the capabilities.
pub open spec fn identity_of(u: LocalUser, g: GlobalUserState, caps: Seq<Capability>) -> bool {
    &&& u.user_id == match opt_number(Some(g.user_id@)) {
        Some(v) => v,
        None => 0,
    }
    &&& opt_chars(u.display_name) == opt_chars(g.display_name)
    &&& u.color == Some(g.color)
    &&& badges_match(u.badges@, badges_of(tag_lookup(g.raw@.tags, "badges"@)))
    &&& u.emote_sets@ == numbers_in(emote_sets_of(tag_lookup(g.raw@.tags, "emote-sets"@)))
    &&& u.caps@ == caps
}

/// The capabilities that must be acknowledged before the message of the day
/// ends, and are not: tags, then commands.
pub open spec fn missing_caps(caps: Seq<Capability>) -> Seq<Capability> {
    (if caps.contains(Capability::Tags) { Seq::empty() } else { seq![Capability::Tags] })
        + (if caps.contains(Capability::Commands) { Seq::empty() } else { seq![Capability::Commands] })
}

/// The server refuses the login with this frame.
pub open spec fn refused(f: crate::irc::Frame) -> bool {
    f.command == "NOTICE"@ && f.args.len() > 0 && f.data is Some && bad_auth(f.data->0)
}

/// The message of the day ends (`376`) before the identity came, with a
/// needed capability missing.
pub open spec fn ready_too_early(f: crate::irc::Frame, caps: Seq<Capability>, has_identity: bool) -> bool {
    f.command == "376"@ && f.args.len() > 0 && !has_identity && missing_caps(caps).len() > 0
}

fn contains_cap(caps: &Vec<Capability>, c: Capability) -> (r: bool)
    ensures
        r == caps@.contains(c),
{
    let mut i: usize = 0;
    while i < caps.len()
        invariant
            i <= caps@.len(),
            forall|j: int| 0 <= j < i ==> caps@[j] != c,
        decreases caps.len() - i,
    {
        if caps[i] == c {
            return true;
        }
        i = i + 1;
    }
    false
}

fn missing_of(caps: &Vec<Capability>) -> (r: Vec<Capability>)
    ensures
        r@ == missing_caps(caps@),
{
    let mut r: Vec<Capability> = Vec::new();
    if !contains_cap(caps, Capability::Tags) {
        r.push(Capability::Tags);
    }
    if !contains_cap(caps, Capability::Commands) {
        r.push(Capability::Commands);
    }
    assert(r@ =~= missing_caps(caps@));
    r
}

/// The identity a `GLOBALUSERSTATE` reports, with the capabilities
/// acknowledged so far.
fn local_user(g: &GlobalUserState, caps: &Vec<Capability>) -> (r: LocalUser)
    ensures
        identity_of(r, *g, caps@),
{
    let user_id = match parse_u64(g.user_id.as_str()) {
        Some(v) => v,
        None => 0,
    };
    let sets = g.emote_sets();
    let ghost all = emote_sets_of(tag_lookup(g.raw@.tags, "emote-sets"@));
    let mut emote_sets: Vec<u64> = Vec::new();
    let mut i: usize = 0;
    while i < sets.len()
        invariant
            i <= sets@.len(),
            sets@.len() == all.len(),
            forall|j: int| 0 <= j < sets@.len() ==> (#[trigger] sets@[j])@ == all[j],
            emote_sets@ == numbers_in(all.subrange(0, i as int)),
        decreases sets.len() - i,
    {
        let ghost pre = all.subrange(0, i + 1);
        assert(pre.drop_last() =~= all.subrange(0, i as int));
        assert(pre.last() == sets@[i as int]@);
        if let Some(v) = parse_u64(sets[i].as_str()) {
            emote_sets.push(v);
        }
        i = i + 1;
    }
    assert(all.subrange(0, i as int) =~= all);
    let display_name = match &g.display_name {
        Some(n) => Some(n.clone()),
        None => None,
    };
    let mut kept: Vec<Capability> = Vec::new();
    let mut k: usize = 0;
    while k < caps.len()
        invariant
            k <= caps@.len(),
            kept@ == caps@.subrange(0, k as int),
        decreases caps.len() - k,
    {
        kept.push(caps[k]);
        k = k + 1;
        assert(kept@ =~= caps@.subrange(0, k as int));
    }
    assert(caps@.subrange(0, k as int) =~= caps@);
    LocalUser { user_id, display_name, color: Some(g.color), badges: g.badges(), emote_sets, caps: kept }
}

} // verus!
