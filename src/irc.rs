//! The wire decoder: CRLF-delimited frames parsed into tags, prefix,
//! command, arguments and trailing data, kept as index spans over the frame.
use vstd::prelude::*;

use crate::text::{
    after, before, crlf_index, find_char, find_crlf, index_of, lemma_crlf_index_bounds,
    lemma_index_of_bounds, split, str_eq, to_chars,
};

verus! {

/// Why a frame could not be decoded.
#[derive(Debug, Clone, Copy, PartialEq, Eq, Structural)]
pub enum ParseError {
    /// No CRLF was found: the frame is not complete yet.
    Incomplete,
    /// The frame has no command token.
    EmptyCommand,
    /// A tag of the tag segment has no key.
    MalformedTags,
}

/// A range `start..end` of character positions in a frame.
#[derive(Debug, Clone, Copy, PartialEq, Eq, Structural)]
pub struct Span {
    pub start: usize,
    pub end: usize,
}

/// The parts of a frame, as character sequences.
pub struct Frame {
    pub tags: Seq<(Seq<char>, Seq<char>)>,
    pub prefix: Option<Seq<char>>,
    pub command: Seq<char>,
    pub args: Seq<Seq<char>>,
    pub data: Option<Seq<char>>,
}

/// A tag `key=value`; a key without `=` has an empty value.
pub open spec fn tag_of(p: Seq<char>) -> (Seq<char>, Seq<char>) {
    (before(p, '='), after(p, '='))
}

pub open spec fn tags_well_keyed(pieces: Seq<Seq<char>>) -> bool {
    forall|i: int| 0 <= i < pieces.len() ==> before(#[trigger] pieces[i], '=').len() > 0
}

/// A segment opened by `mark` and closed by a space: its body and what follows.
pub open spec fn segment(s: Seq<char>, mark: char) -> (Option<Seq<char>>, Seq<char>) {
    if s.len() > 0 && s[0] == mark {
        (Some(before(s.drop_first(), ' ')), after(s.drop_first(), ' '))
    } else {
        (None, s)
    }
}

/// Space-delimited arguments up to the first one that begins with `:`, which
/// opens the trailing data.
pub open spec fn parse_args(s: Seq<char>) -> (Seq<Seq<char>>, Option<Seq<char>>)
    decreases s.len(),
{
    if s.len() == 0 {
        (Seq::empty(), None)
    } else if s[0] == ':' {
        (Seq::empty(), Some(s.drop_first()))
    } else {
        let i = index_of(s, ' ');
        if 0 <= i < s.len() {
            let rest = parse_args(s.subrange(i + 1, s.len() as int));
            (seq![s.subrange(0, i)] + rest.0, rest.1)
        } else {
            (seq![s], None)
        }
    }
}

/// The tag pieces of a tag segment.
pub open spec fn tag_pieces(seg: Option<Seq<char>>) -> Seq<Seq<char>> {
    match seg {
        Some(t) => split(t, ';'),
        None => Seq::empty(),
    }
}

/// A line (a frame without its CRLF) parsed.
pub open spec fn parse_line(l: Seq<char>) -> Result<Frame, ParseError> {
    let (tag_seg, r1) = segment(l, '@');
    let (prefix, r2) = segment(r1, ':');
    let command = before(r2, ' ');
    let (args, data) = parse_args(after(r2, ' '));
    let pieces = tag_pieces(tag_seg);
    if !tags_well_keyed(pieces) {
        Err(ParseError::MalformedTags)
    } else if command.len() == 0 {
        Err(ParseError::EmptyCommand)
    } else {
        Ok(Frame { tags: pieces.map_values(|p: Seq<char>| tag_of(p)), prefix, command, args, data })
    }
}

/// The first frame of `s` parsed, or `Incomplete` when `s` holds no CRLF.
pub open spec fn decode_first(s: Seq<char>) -> Result<Frame, ParseError> {
    let i = crlf_index(s);
    if i < s.len() {
        parse_line(s.subrange(0, i))
    } else {
        Err(ParseError::Incomplete)
    }
}

/// Where decoding goes on after the first frame: the position after its
/// CRLF, or 0 when nothing follows it.
pub open spec fn next_offset(s: Seq<char>) -> int {
    let i = crlf_index(s);
    if i + 2 == s.len() {
        0
    } else {
        i + 2
    }
}

/// Every frame of `s` decoded in order; a trailing partial frame yields
/// `Incomplete`.
pub open spec fn decode_all(s: Seq<char>) -> Seq<Result<Frame, ParseError>>
    decreases s.len(),
{
    let i = crlf_index(s);
    if s.len() == 0 {
        Seq::empty()
    } else if 0 <= i && i + 2 <= s.len() {
        seq![parse_line(s.subrange(0, i))] + decode_all(s.subrange(i + 2, s.len() as int))
    } else {
        seq![Err(ParseError::Incomplete)]
    }
}

pub open spec fn span_text(text: Seq<char>, sp: Span) -> Seq<char> {
    text.subrange(sp.start as int, sp.end as int)
}

pub open spec fn span_in(sp: Span, len: int) -> bool {
    sp.start <= sp.end <= len
}

/// The spans of a parsed frame.
#[derive(Debug)]
struct Spans {
    tags: Vec<(Span, Span)>,
    prefix: Option<Span>,
    command: Span,
    args: Vec<Span>,
    data: Option<Span>,
}

spec fn opt_span_text(text: Seq<char>, sp: Option<Span>) -> Option<Seq<char>> {
    match sp {
        Some(s) => Some(span_text(text, s)),
        None => None,
    }
}

spec fn opt_span_in(sp: Option<Span>, len: int) -> bool {
    match sp {
        Some(s) => span_in(s, len),
        None => true,
    }
}

impl Spans {
    spec fn ok(&self, len: int) -> bool {
        &&& forall|i: int| 0 <= i < self.tags@.len() ==> span_in((#[trigger] self.tags@[i]).0, len) && span_in(self.tags@[i].1, len)
        &&& opt_span_in(self.prefix, len)
        &&& span_in(self.command, len)
        &&& forall|i: int| 0 <= i < self.args@.len() ==> span_in(#[trigger] self.args@[i], len)
        &&& opt_span_in(self.data, len)
    }

    spec fn frame(&self, text: Seq<char>) -> Frame {
        Frame {
            tags: self.tags@.map_values(|p: (Span, Span)| (span_text(text, p.0), span_text(text, p.1))),
            prefix: opt_span_text(text, self.prefix),
            command: span_text(text, self.command),
            args: self.args@.map_values(|a: Span| span_text(text, a)),
            data: opt_span_text(text, self.data),
        }
    }
}

/// Reads the segment opened by `mark` at `pos`, if there is one: its span and
/// where the rest begins.
fn take_segment(c: &Vec<char>, pos: usize, n: usize, mark: char) -> (r: (Option<Span>, usize))
    requires
        pos <= n <= c@.len(),
    ensures
        pos <= r.1 <= n,
        opt_span_in(r.0, n as int),
        r.0 matches Some(sp) ==> pos < sp.start,
        segment(c@.subrange(pos as int, n as int), mark) == (opt_span_text(c@, r.0), c@.subrange(r.1 as int, n as int)),
{
    if pos < n && c[pos] == mark {
        let sp = find_char(c, ' ', pos + 1, n);
        let next = if sp < n { sp + 1 } else { n };
        proof {
            let s = c@.subrange(pos as int, n as int);
            let t = c@.subrange(pos + 1, n as int);
            assert(s.drop_first() =~= t);
            lemma_index_of_bounds(t, ' ');
            assert(before(t, ' ') =~= c@.subrange(pos + 1, sp as int));
            assert(after(t, ' ') =~= c@.subrange(next as int, n as int));
        }
        (Some(Span { start: pos + 1, end: sp }), next)
    } else {
        (None, pos)
    }
}

spec fn args_text(text: Seq<char>, args: Seq<Span>) -> Seq<Seq<char>> {
    args.map_values(|a: Span| span_text(text, a))
}

spec fn tags_text(text: Seq<char>, tags: Seq<(Span, Span)>) -> Seq<(Seq<char>, Seq<char>)> {
    tags.map_values(|p: (Span, Span)| (span_text(text, p.0), span_text(text, p.1)))
}

/// Reads the arguments and trailing data in `start..n`.
fn take_args(c: &Vec<char>, start: usize, n: usize) -> (r: (Vec<Span>, Option<Span>))
    requires
        start <= n <= c@.len(),
    ensures
        forall|i: int| 0 <= i < r.0@.len() ==> span_in(#[trigger] r.0@[i], n as int),
        opt_span_in(r.1, n as int),
        parse_args(c@.subrange(start as int, n as int)) == (args_text(c@, r.0@), opt_span_text(c@, r.1)),
{
    let mut args: Vec<Span> = Vec::new();
    let mut pos = start;
    loop
        invariant
            start <= pos <= n <= c@.len(),
            forall|i: int| 0 <= i < args@.len() ==> span_in(#[trigger] args@[i], n as int),
            parse_args(c@.subrange(start as int, n as int)) == (args_text(c@, args@) + parse_args(c@.subrange(pos as int, n as int)).0, parse_args(c@.subrange(pos as int, n as int)).1),
        decreases n - pos,
    {
        let ghost s = c@.subrange(pos as int, n as int);
        if pos == n {
            assert(s.len() == 0);
            assert(args_text(c@, args@) + parse_args(s).0 =~= args_text(c@, args@));
            return (args, None);
        }
        if c[pos] == ':' {
            assert(s.drop_first() =~= c@.subrange(pos + 1, n as int));
            assert(args_text(c@, args@) + parse_args(s).0 =~= args_text(c@, args@));
            return (args, Some(Span { start: pos + 1, end: n }));
        }
        let sp = find_char(c, ' ', pos, n);
        let ghost old_args = args@;
        args.push(Span { start: pos, end: sp });
        proof {
            lemma_index_of_bounds(s, ' ');
            assert(s.subrange(0, sp - pos) =~= c@.subrange(pos as int, sp as int));
            assert(args_text(c@, args@) =~= args_text(c@, old_args).push(c@.subrange(pos as int, sp as int)));
        }
        if sp == n {
            assert(args_text(c@, old_args) + seq![s] =~= args_text(c@, args@));
            return (args, None);
        }
        proof {
            assert(s.subrange(sp - pos + 1, s.len() as int) =~= c@.subrange(sp + 1, n as int));
            let rest = parse_args(c@.subrange(sp + 1, n as int));
            assert(args_text(c@, old_args) + (seq![c@.subrange(pos as int, sp as int)] + rest.0) =~= args_text(c@, args@) + rest.0);
        }
        pos = sp + 1;
    }
}

/// Reads the tags of the tag segment `ts..te`; `None` when one has no key.
fn take_tags(c: &Vec<char>, ts: usize, te: usize) -> (r: Option<Vec<(Span, Span)>>)
    requires
        ts <= te <= c@.len(),
    ensures
        r is None <==> !tags_well_keyed(split(c@.subrange(ts as int, te as int), ';')),
        r matches Some(v) ==> {
            &&& forall|i: int| 0 <= i < v@.len() ==> span_in((#[trigger] v@[i]).0, te as int) && span_in(v@[i].1, te as int)
            &&& tags_text(c@, v@) == split(c@.subrange(ts as int, te as int), ';').map_values(|p: Seq<char>| tag_of(p))
        },
{
    let mut tags: Vec<(Span, Span)> = Vec::new();
    let mut pos = ts;
    let ghost mut done: Seq<Seq<char>> = Seq::empty();
    loop
        invariant
            ts <= pos <= te <= c@.len(),
            split(c@.subrange(ts as int, te as int), ';') == done + split(c@.subrange(pos as int, te as int), ';'),
            tags_well_keyed(done),
            forall|i: int| 0 <= i < tags@.len() ==> span_in((#[trigger] tags@[i]).0, te as int) && span_in(tags@[i].1, te as int),
            tags_text(c@, tags@) == done.map_values(|p: Seq<char>| tag_of(p)),
        decreases te - pos,
    {
        let ghost s = c@.subrange(pos as int, te as int);
        let j = find_char(c, ';', pos, te);
        let eq = find_char(c, '=', pos, j);
        let ghost piece = c@.subrange(pos as int, j as int);
        proof {
            lemma_index_of_bounds(s, ';');
            assert(s.subrange(0, j - pos) =~= piece);
            assert(c@.subrange(pos as int, j as int) =~= piece);
            lemma_index_of_bounds(piece, '=');
            assert(before(piece, '=') =~= c@.subrange(pos as int, eq as int));
            assert(split(s, ';')[0] == piece);
            assert((done + split(s, ';'))[done.len() as int] == piece);
        }
        if eq == pos {
            return None;
        }
        let value = if eq < j { Span { start: eq + 1, end: j } } else { Span { start: j, end: j } };
        let ghost old_tags = tags@;
        let ghost old_done = done;
        tags.push((Span { start: pos, end: eq }, value));
        proof {
            assert(after(piece, '=') =~= span_text(c@, value));
            done = done.push(piece);
            assert forall|i: int| 0 <= i < done.len() implies before(#[trigger] done[i], '=').len() > 0 by {
                if i < old_done.len() {
                    assert(done[i] == old_done[i]);
                }
            }
            assert(tags_text(c@, tags@) =~= tags_text(c@, old_tags).push((c@.subrange(pos as int, eq as int), span_text(c@, value))));
            assert(done.map_values(|p: Seq<char>| tag_of(p)) =~= old_done.map_values(|p: Seq<char>| tag_of(p)).push(tag_of(piece)));
            assert(tags_text(c@, tags@) =~= done.map_values(|p: Seq<char>| tag_of(p)));
        }
        if j == te {
            assert(split(s, ';') =~= seq![piece]);
            assert(old_done + split(s, ';') =~= done);
            return Some(tags);
        }
        proof {
            assert(s.subrange(j - pos + 1, s.len() as int) =~= c@.subrange(j + 1, te as int));
            assert(old_done + split(s, ';') =~= done + split(c@.subrange(j + 1, te as int), ';'));
        }
        pos = j + 1;
    }
}

proof fn lemma_frame_same_prefix(sp: Spans, a: Seq<char>, b: Seq<char>, n: int)
    requires
        sp.ok(n),
        n <= a.len(),
        n <= b.len(),
        a.subrange(0, n) == b.subrange(0, n),
    ensures
        sp.frame(a) == sp.frame(b),
{
    assert forall|x: int, y: int| 0 <= x <= y <= n implies a.subrange(x, y) == b.subrange(x, y) by {
        assert(a.subrange(x, y) =~= a.subrange(0, n).subrange(x, y));
        assert(b.subrange(x, y) =~= b.subrange(0, n).subrange(x, y));
    }
    assert(sp.frame(a).tags =~= sp.frame(b).tags);
    assert(sp.frame(a).args =~= sp.frame(b).args);
}

/// Parses the line `c[0..n]` into spans over `c`.
fn parse_spans(c: &Vec<char>, n: usize) -> (r: Result<Spans, ParseError>)
    requires
        n <= c@.len(),
    ensures
        match r {
            Ok(sp) => sp.ok(n as int) && parse_line(c@.subrange(0, n as int)) == Ok::<Frame, ParseError>(sp.frame(c@)),
            Err(e) => parse_line(c@.subrange(0, n as int)) == Err::<Frame, ParseError>(e),
        },
{
    let (tag_seg, after_tags) = take_segment(c, 0, n, '@');
    let (prefix, after_prefix) = take_segment(c, after_tags, n, ':');
    let cmd_end = find_char(c, ' ', after_prefix, n);
    let rest = if cmd_end < n { cmd_end + 1 } else { n };
    let ghost r2 = c@.subrange(after_prefix as int, n as int);
    proof {
        lemma_index_of_bounds(r2, ' ');
        assert(before(r2, ' ') =~= c@.subrange(after_prefix as int, cmd_end as int));
        assert(after(r2, ' ') =~= c@.subrange(rest as int, n as int));
    }
    let tags = match tag_seg {
        Some(ts) => match take_tags(c, ts.start, ts.end) {
            Some(t) => t,
            None => {
                return Err(ParseError::MalformedTags);
            },
        },
        None => Vec::new(),
    };
    if cmd_end == after_prefix {
        return Err(ParseError::EmptyCommand);
    }
    let (args, data) = take_args(c, rest, n);
    let r = Spans { tags, prefix, command: Span { start: after_prefix, end: cmd_end }, args, data };
    proof {
        let pieces = tag_pieces(opt_span_text(c@, tag_seg));
        assert(tags_text(c@, r.tags@) =~= pieces.map_values(|p: Seq<char>| tag_of(p)));
        assert(r.frame(c@).tags =~= tags_text(c@, r.tags@));
        assert(r.frame(c@).args =~= args_text(c@, r.args@));
    }
    Ok(r)
}

/// One decoded frame: the frame's text (with its CRLF) and the spans of its
/// tags, prefix, command, arguments and trailing data.
#[derive(Debug)]
pub struct IrcMessage {
    raw: String,
    spans: Spans,
}

/// The value of the last tag named `key`: when a key repeats, the last wins.
pub open spec fn tag_lookup(tags: Seq<(Seq<char>, Seq<char>)>, key: Seq<char>) -> Option<Seq<char>>
    decreases tags.len(),
{
    if tags.len() == 0 {
        None
    } else if tags.last().0 == key {
        Some(tags.last().1)
    } else {
        tag_lookup(tags.drop_last(), key)
    }
}

/// The nickname of a user prefix (`nick!user@host`); a server prefix has none.
pub open spec fn prefix_nick(p: Seq<char>) -> Option<Seq<char>> {
    if index_of(p, '!') < p.len() {
        Some(before(p, '!'))
    } else {
        None
    }
}

impl Spans {
    fn copy(&self) -> (r: Self)
        ensures
            r.tags@ == self.tags@,
            r.prefix == self.prefix,
            r.command == self.command,
            r.args@ == self.args@,
            r.data == self.data,
    {
        let mut tags: Vec<(Span, Span)> = Vec::new();
        let mut i: usize = 0;
        while i < self.tags.len()
            invariant
                i <= self.tags@.len(),
                tags@ == self.tags@.subrange(0, i as int),
            decreases self.tags@.len() - i,
        {
            tags.push(self.tags[i]);
            i = i + 1;
            assert(tags@ =~= self.tags@.subrange(0, i as int));
        }
        assert(self.tags@.subrange(0, i as int) =~= self.tags@);
        let r = Spans {
            tags,
            prefix: self.prefix,
            command: self.command,
            args: self.args.clone(),
            data: self.data,
        };
        assert(r.tags@ =~= self.tags@);
        assert(r.args@ =~= self.args@);
        r
    }
}

impl Clone for IrcMessage {
    fn clone(&self) -> (r: Self)
        ensures
            r@ == self@,
            r.line() == self.line(),
    {
        proof {
            use_type_invariant(self);
        }
        let r = IrcMessage { raw: self.raw.clone(), spans: self.spans.copy() };
        assert(r@.tags =~= self@.tags);
        assert(r@.args =~= self@.args);
        r
    }
}

impl View for IrcMessage {
    type V = Frame;

    closed spec fn view(&self) -> Frame {
        self.spans.frame(self.raw@)
    }
}

impl IrcMessage {
    #[verifier::type_invariant]
    spec fn inv(&self) -> bool {
        self.spans.ok(self.raw@.len() as int)
    }

    /// The frame's text, CRLF included.
    pub closed spec fn line(&self) -> Seq<char> {
        self.raw@
    }

    /// The frame's text, CRLF included.
    pub fn raw(&self) -> (r: &str)
        ensures
            r@ == self.line(),
    {
        self.raw.as_str()
    }

    fn text(&self, sp: Span) -> (r: &str)
        requires
            span_in(sp, self.raw@.len() as int),
        ensures
            r@ == span_text(self.raw@, sp),
    {
        self.raw.as_str().substring_char(sp.start, sp.end)
    }

    /// The command token.
    pub fn command(&self) -> (r: &str)
        ensures
            r@ == self@.command,
    {
        proof {
            use_type_invariant(self);
        }
        self.text(self.spans.command)
    }

    /// The number of arguments.
    pub fn arg_count(&self) -> (r: usize)
        ensures
            r == self@.args.len(),
    {
        self.spans.args.len()
    }

    /// The argument at `i`, if there is one.
    pub fn arg(&self, i: usize) -> (r: Option<&str>)
        ensures
            r is Some <==> i < self@.args.len(),
            r matches Some(a) ==> a@ == self@.args[i as int],
    {
        proof {
            use_type_invariant(self);
        }
        if i < self.spans.args.len() {
            Some(self.text(self.spans.args[i]))
        } else {
            None
        }
    }

    /// The trailing data, if there is any.
    pub fn data(&self) -> (r: Option<&str>)
        ensures
            r is Some <==> self@.data is Some,
            r matches Some(d) ==> d@ == self@.data->0,
    {
        proof {
            use_type_invariant(self);
        }
        match self.spans.data {
            Some(sp) => Some(self.text(sp)),
            None => None,
        }
    }

    /// The prefix (what follows the leading `:`), if there is one.
    pub fn prefix(&self) -> (r: Option<&str>)
        ensures
            r is Some <==> self@.prefix is Some,
            r matches Some(p) ==> p@ == self@.prefix->0,
    {
        proof {
            use_type_invariant(self);
        }
        match self.spans.prefix {
            Some(sp) => Some(self.text(sp)),
            None => None,
        }
    }

    /// The nickname of the sender, when the prefix names a user.
    pub fn nick(&self) -> (r: Option<&str>)
        ensures
            r is Some <==> (self@.prefix is Some && prefix_nick(self@.prefix->0) is Some),
            r matches Some(n) ==> n@ == prefix_nick(self@.prefix->0)->0,
    {
        proof {
            use_type_invariant(self);
        }
        match self.spans.prefix {
            Some(sp) => {
                let c = to_chars(self.raw.as_str());
                let bang = find_char(&c, '!', sp.start, sp.end);
                proof {
                    let p = span_text(self.raw@, sp);
                    assert(c@.subrange(sp.start as int, sp.end as int) =~= p);
                    lemma_index_of_bounds(p, '!');
                    assert(before(p, '!') =~= span_text(self.raw@, Span { start: sp.start, end: bang }));
                }
                if bang < sp.end {
                    Some(self.text(Span { start: sp.start, end: bang }))
                } else {
                    None
                }
            },
            None => None,
        }
    }

    /// The tag at `i`: its key and its value.
    pub fn tag_at(&self, i: usize) -> (r: (&str, &str))
        requires
            i < self@.tags.len(),
        ensures
            r.0@ == self@.tags[i as int].0,
            r.1@ == self@.tags[i as int].1,
    {
        proof {
            use_type_invariant(self);
        }
        let (k, v) = self.spans.tags[i];
        (self.text(k), self.text(v))
    }

    /// The number of tags.
    pub fn tag_count(&self) -> (r: usize)
        ensures
            r == self@.tags.len(),
    {
        self.spans.tags.len()
    }

    /// The value of the tag named `key`; the last one when the key repeats.
    pub fn tag(&self, key: &str) -> (r: Option<&str>)
        ensures
            r is Some <==> tag_lookup(self@.tags, key@) is Some,
            r matches Some(v) ==> v@ == tag_lookup(self@.tags, key@)->0,
    {
        proof {
            use_type_invariant(self);
        }
        let ghost all = self@.tags;
        let mut i = self.spans.tags.len();
        assert(all.subrange(0, i as int) =~= all);
        while i > 0
            invariant
                i <= self.spans.tags@.len(),
                all == self@.tags,
                self.spans.ok(self.raw@.len() as int),
                all.len() == self.spans.tags@.len(),
                tag_lookup(all, key@) == tag_lookup(all.subrange(0, i as int), key@),
            decreases i,
        {
            let (k, v) = self.spans.tags[i - 1];
            let name = self.text(k);
            proof {
                let pre = all.subrange(0, i as int);
                assert(pre.last() == all[i - 1]);
                assert(pre.drop_last() =~= all.subrange(0, i - 1));
            }
            if str_eq(name, key) {
                return Some(self.text(v));
            }
            i = i - 1;
        }
        None
    }
}

/// Decodes the first frame of `input`: the offset at which the next frame
/// begins (0 when nothing follows) and the message.
pub fn decode_one(input: &str) -> (r: Result<(usize, IrcMessage), ParseError>)
    ensures
        match r {
            Ok((next, msg)) => decode_first(input@) == Ok::<Frame, ParseError>(msg@) && next == next_offset(input@)
                && msg.line() == input@.subrange(0, crlf_index(input@) + 2),
            Err(e) => decode_first(input@) == Err::<Frame, ParseError>(e),
        },
        r is Err && r->Err_0 == ParseError::Incomplete <==> crlf_index(input@) == input@.len(),
{
    let c = to_chars(input);
    let pos = find_crlf(&c);
    proof {
        lemma_crlf_index_bounds(input@);
    }
    if pos >= c.len() {
        return Err(ParseError::Incomplete);
    }
    let spans = match parse_spans(&c, pos) {
        Ok(s) => s,
        Err(e) => {
            return Err(e);
        },
    };
    let raw = input.substring_char(0, pos + 2).to_owned();
    let next = if pos + 2 == c.len() { 0 } else { pos + 2 };
    proof {
        assert(raw@ =~= c@.subrange(0, pos + 2));
        assert(raw@.subrange(0, pos as int) =~= c@.subrange(0, pos as int));
        lemma_frame_same_prefix(spans, raw@, c@, pos as int);
    }
    Ok((next, IrcMessage { raw, spans }))
}

/// What a decoding result says, over frames.
pub open spec fn result_frame(r: Result<IrcMessage, ParseError>) -> Result<Frame, ParseError> {
    match r {
        Ok(m) => Ok(m@),
        Err(e) => Err(e),
    }
}

/// Decodes every frame of `input` in order. A trailing partial frame yields
/// one `Incomplete` at the end.
pub fn decode(input: &str) -> (r: Vec<Result<IrcMessage, ParseError>>)
    ensures
        r@.len() == decode_all(input@).len(),
        forall|i: int| 0 <= i < r@.len() ==> result_frame(#[trigger] r@[i]) == decode_all(input@)[i],
{
    let n = input.unicode_len();
    let mut out: Vec<Result<IrcMessage, ParseError>> = Vec::new();
    let mut off: usize = 0;
    let ghost s = input@;
    assert(s.subrange(0, n as int) =~= s);
    loop
        invariant
            n == s.len(),
            s == input@,
            off <= n,
            decode_all(s).len() == out@.len() + decode_all(s.subrange(off as int, n as int)).len(),
            forall|i: int| 0 <= i < out@.len() ==> result_frame(#[trigger] out@[i]) == decode_all(s)[i],
            forall|i: int| 0 <= i < decode_all(s.subrange(off as int, n as int)).len() ==>
                decode_all(s)[out@.len() + i] == #[trigger] decode_all(s.subrange(off as int, n as int))[i],
        decreases n - off,
    {
        if off == n {
            return out;
        }
        let rest = input.substring_char(off, n);
        let rc = to_chars(rest);
        let pos = find_crlf(&rc);
        proof {
            lemma_crlf_index_bounds(rest@);
        }
        if pos >= rc.len() {
            let ghost k: int = out@.len() as int;
            out.push(Err(ParseError::Incomplete));
            assert(result_frame(out@[k as int]) == decode_all(s)[k as int]);
            return out;
        }
        let item = match decode_one(rest) {
            Ok((_, m)) => Ok(m),
            Err(e) => Err(e),
        };
        let ghost k: int = out@.len() as int;
        let ghost tail = s.subrange(off + pos + 2, n as int);
        proof {
            assert(rest@.subrange(pos + 2, rest@.len() as int) =~= tail);
            assert(decode_all(rest@) == seq![parse_line(rest@.subrange(0, pos as int))] + decode_all(tail));
            assert(decode_all(rest@)[0] == result_frame(item));
            assert forall|i: int| 0 <= i < decode_all(tail).len() implies
                decode_all(s)[k + 1 + i] == #[trigger] decode_all(tail)[i] by {
                assert(decode_all(rest@)[i + 1] == decode_all(tail)[i]);
            }
        }
        out.push(item);
        off = off + pos + 2;
    }
}

} // verus!
