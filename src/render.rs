//! Rendering frames back to the wire, and the round trip between rendering
//! and decoding.
use vstd::prelude::*;

use crate::irc::{
    decode_all, decode_first, parse_args, parse_line, segment, tag_of, tag_pieces,
    tags_well_keyed, Frame, IrcMessage, ParseError,
};
use crate::text::{
    after, before, index_of, lemma_crlf_index_is, lemma_index_of_bounds,
    lemma_index_of_is, split,
};

verus! {

/// No character of `s` is `c`.
pub open spec fn free_of(s: Seq<char>, c: char) -> bool {
    forall|i: int| 0 <= i < s.len() ==> #[trigger] s[i] != c
}

/// Tags rendered as `key=value` pieces joined by `;`.
pub open spec fn join_tags(tags: Seq<(Seq<char>, Seq<char>)>) -> Seq<char>
    decreases tags.len(),
{
    if tags.len() == 0 {
        Seq::empty()
    } else if tags.len() == 1 {
        tags[0].0 + seq!['='] + tags[0].1
    } else {
        tags[0].0 + seq!['='] + tags[0].1 + seq![';'] + join_tags(tags.drop_first())
    }
}

/// Arguments and trailing data as they follow the command's space.
pub open spec fn render_rest(args: Seq<Seq<char>>, data: Option<Seq<char>>) -> Seq<char>
    decreases args.len(),
{
    if args.len() == 0 {
        match data {
            Some(d) => seq![':'] + d,
            None => Seq::empty(),
        }
    } else if args.len() == 1 && data is None {
        args[0]
    } else {
        args[0] + seq![' '] + render_rest(args.drop_first(), data)
    }
}

/// A frame rendered as one line, without its CRLF.
pub open spec fn render_line(f: Frame) -> Seq<char> {
    (if f.tags.len() > 0 { seq!['@'] + join_tags(f.tags) + seq![' '] } else { Seq::empty() })
        + (match f.prefix {
        Some(p) => seq![':'] + p + seq![' '],
        None => Seq::empty(),
    }) + f.command + (if f.args.len() == 0 && f.data is None {
        Seq::empty()
    } else {
        seq![' '] + render_rest(f.args, f.data)
    })
}

/// A frame rendered with its CRLF.
pub open spec fn render(f: Frame) -> Seq<char> {
    render_line(f) + seq!['\r', '\n']
}

/// A frame whose rendering decodes back to it: keys are non-empty and free of
/// space, `;`, `=`; values free of space and `;`; the prefix free of space;
/// the command non-empty, free of space and not opened by `@` or `:`;
/// arguments non-empty, free of space and not opened by `:`; and no part
/// holds a carriage return.
pub open spec fn well_formed(f: Frame) -> bool {
    &&& forall|i: int| 0 <= i < f.tags.len() ==> {
        let (k, v) = #[trigger] f.tags[i];
        &&& k.len() > 0
        &&& free_of(k, ' ') && free_of(k, ';') && free_of(k, '=') && free_of(k, '\r')
        &&& free_of(v, ' ') && free_of(v, ';') && free_of(v, '\r')
    }
    &&& f.prefix matches Some(p) ==> free_of(p, ' ') && free_of(p, '\r')
    &&& f.command.len() > 0 && free_of(f.command, ' ') && free_of(f.command, '\r')
    &&& f.command[0] != '@' && f.command[0] != ':'
    &&& forall|i: int| 0 <= i < f.args.len() ==> {
        let a = #[trigger] f.args[i];
        a.len() > 0 && free_of(a, ' ') && free_of(a, '\r') && a[0] != ':'
    }
    &&& f.data matches Some(d) ==> free_of(d, '\r')
}

proof fn lemma_index_of_after_free(a: Seq<char>, b: Seq<char>, c: char)
    requires
        free_of(a, c),
    ensures
        index_of(a + b, c) == a.len() + index_of(b, c),
{
    let s = a + b;
    lemma_index_of_bounds(b, c);
    let i = a.len() + index_of(b, c);
    assert forall|j: int| 0 <= j < i implies s[j] != c by {
        if j >= a.len() {
            assert(s[j] == b[j - a.len()]);
        }
    }
    if i < s.len() {
        assert(s[i] == b[index_of(b, c)]);
    }
    lemma_index_of_is(s, c, i);
}

/// `a`, then `c`, then `b`, with no `c` in `a`: before and after the first `c`.
proof fn lemma_cut(a: Seq<char>, b: Seq<char>, c: char)
    requires
        free_of(a, c),
    ensures
        index_of(a + seq![c] + b, c) == a.len(),
        before(a + seq![c] + b, c) == a,
        after(a + seq![c] + b, c) == b,
{
    let s = a + seq![c] + b;
    assert(s =~= a + (seq![c] + b));
    lemma_index_of_after_free(a, seq![c] + b, c);
    assert((seq![c] + b)[0] == c);
    lemma_index_of_is(seq![c] + b, c, 0);
    assert(before(s, c) =~= a);
    assert(after(s, c) =~= b);
}

/// `a` with no `c`: all of it precedes the (absent) first `c`.
proof fn lemma_no_cut(a: Seq<char>, c: char)
    requires
        free_of(a, c),
    ensures
        index_of(a, c) == a.len(),
        before(a, c) == a,
        after(a, c) == Seq::<char>::empty(),
{
    lemma_index_of_is(a, c, a.len() as int);
    assert(before(a, c) =~= a);
}

proof fn lemma_free_concat(a: Seq<char>, b: Seq<char>, c: char)
    requires
        free_of(a, c),
        free_of(b, c),
    ensures
        free_of(a + b, c),
{
    assert forall|i: int| 0 <= i < (a + b).len() implies #[trigger] (a + b)[i] != c by {
        if i >= a.len() {
            assert((a + b)[i] == b[i - a.len()]);
        }
    }
}

spec fn tag_text(t: (Seq<char>, Seq<char>)) -> Seq<char> {
    t.0 + seq!['='] + t.1
}

spec fn tag_free_of(t: (Seq<char>, Seq<char>), c: char) -> bool {
    free_of(t.0, c) && free_of(t.1, c)
}

proof fn lemma_tag_text_free(t: (Seq<char>, Seq<char>), c: char)
    requires
        tag_free_of(t, c),
        c != '=',
    ensures
        free_of(tag_text(t), c),
{
    lemma_free_concat(t.0, seq!['='], c);
    lemma_free_concat(t.0 + seq!['='], t.1, c);
}

proof fn lemma_join_free(tags: Seq<(Seq<char>, Seq<char>)>, c: char)
    requires
        forall|i: int| 0 <= i < tags.len() ==> tag_free_of(#[trigger] tags[i], c),
        c != '=',
        c != ';',
    ensures
        free_of(join_tags(tags), c),
    decreases tags.len(),
{
    if tags.len() == 1 {
        lemma_tag_text_free(tags[0], c);
        assert(join_tags(tags) == tag_text(tags[0]));
    } else if tags.len() > 1 {
        let rest = tags.drop_first();
        assert forall|i: int| 0 <= i < rest.len() implies tag_free_of(#[trigger] rest[i], c) by {
            assert(rest[i] == tags[i + 1]);
        }
        lemma_join_free(rest, c);
        lemma_tag_text_free(tags[0], c);
        lemma_free_concat(tag_text(tags[0]), seq![';'], c);
        lemma_free_concat(tag_text(tags[0]) + seq![';'], join_tags(rest), c);
        assert(join_tags(tags) == tag_text(tags[0]) + seq![';'] + join_tags(rest));
    }
}

proof fn lemma_split_join(tags: Seq<(Seq<char>, Seq<char>)>)
    requires
        tags.len() >= 1,
        forall|i: int| 0 <= i < tags.len() ==> tag_free_of(#[trigger] tags[i], ';'),
    ensures
        split(join_tags(tags), ';') == tags.map_values(|t: (Seq<char>, Seq<char>)| tag_text(t)),
    decreases tags.len(),
{
    lemma_tag_text_free(tags[0], ';');
    if tags.len() == 1 {
        lemma_no_cut(tag_text(tags[0]), ';');
        assert(join_tags(tags) == tag_text(tags[0]));
        assert(split(join_tags(tags), ';') =~= tags.map_values(|t: (Seq<char>, Seq<char>)| tag_text(t)));
    } else {
        let rest = tags.drop_first();
        assert forall|i: int| 0 <= i < rest.len() implies tag_free_of(#[trigger] rest[i], ';') by {
            assert(rest[i] == tags[i + 1]);
        }
        lemma_split_join(rest);
        let j = join_tags(tags);
        assert(j == tag_text(tags[0]) + seq![';'] + join_tags(rest));
        lemma_cut(tag_text(tags[0]), join_tags(rest), ';');
        assert(j.subrange(0, tag_text(tags[0]).len() as int) =~= tag_text(tags[0]));
        assert(j.subrange(tag_text(tags[0]).len() as int + 1, j.len() as int) =~= join_tags(rest));
        assert(split(j, ';') =~= tags.map_values(|t: (Seq<char>, Seq<char>)| tag_text(t)));
    }
}

proof fn lemma_args_round(args: Seq<Seq<char>>, data: Option<Seq<char>>)
    requires
        args.len() > 0 || data is Some,
        forall|i: int| 0 <= i < args.len() ==> {
            let a = #[trigger] args[i];
            a.len() > 0 && free_of(a, ' ') && a[0] != ':'
        },
    ensures
        parse_args(render_rest(args, data)) == (args, data),
    decreases args.len(),
{
    let r = render_rest(args, data);
    if args.len() == 0 {
        assert(r.drop_first() =~= data->0);
    } else if args.len() == 1 && data is None {
        lemma_no_cut(args[0], ' ');
        assert(seq![r] =~= args);
    } else {
        let tail = args.drop_first();
        assert forall|i: int| 0 <= i < tail.len() implies {
            let a = #[trigger] tail[i];
            a.len() > 0 && free_of(a, ' ') && a[0] != ':'
        } by {
            assert(tail[i] == args[i + 1]);
        }
        lemma_args_round(tail, data);
        let rr = render_rest(tail, data);
        lemma_cut(args[0], rr, ' ');
        assert(r[0] == args[0][0]);
        assert(r.subrange(0, args[0].len() as int) =~= args[0]);
        assert(r.subrange(args[0].len() as int + 1, r.len() as int) =~= rr);
        assert(seq![args[0]] + tail =~= args);
    }
}

spec fn tags_part(f: Frame) -> Seq<char> {
    if f.tags.len() > 0 {
        seq!['@'] + join_tags(f.tags) + seq![' ']
    } else {
        Seq::empty()
    }
}

spec fn prefix_part(f: Frame) -> Seq<char> {
    match f.prefix {
        Some(p) => seq![':'] + p + seq![' '],
        None => Seq::empty(),
    }
}

spec fn args_part(f: Frame) -> Seq<char> {
    if f.args.len() == 0 && f.data is None {
        Seq::empty()
    } else {
        seq![' '] + render_rest(f.args, f.data)
    }
}

proof fn lemma_tag_segment(f: Frame)
    requires
        well_formed(f),
    ensures
        segment(render_line(f), '@') == (if f.tags.len() > 0 { Some(join_tags(f.tags)) } else { None::<Seq<char>> }, prefix_part(f) + (f.command + args_part(f))),
{
    let l = render_line(f);
    let rest2 = f.command + args_part(f);
    let rest1 = prefix_part(f) + rest2;
    assert(l =~= tags_part(f) + rest1);
    if f.tags.len() > 0 {
        assert forall|i: int| 0 <= i < f.tags.len() implies tag_free_of(#[trigger] f.tags[i], ' ') by {}
        lemma_join_free(f.tags, ' ');
        let j = join_tags(f.tags);
        assert(l.drop_first() =~= j + seq![' '] + rest1);
        lemma_cut(j, rest1, ' ');
    } else {
        assert(l =~= rest1);
        if f.prefix is Some {
            assert(rest1[0] == ':');
        } else {
            assert(rest1 =~= rest2);
            assert(rest1[0] == f.command[0]);
        }
    }
}

proof fn lemma_prefix_segment(f: Frame)
    requires
        well_formed(f),
    ensures
        segment(prefix_part(f) + (f.command + args_part(f)), ':') == (f.prefix, f.command + args_part(f)),
{
    let rest2 = f.command + args_part(f);
    let rest1 = prefix_part(f) + rest2;
    match f.prefix {
        Some(p) => {
            assert(rest1.drop_first() =~= p + seq![' '] + rest2);
            lemma_cut(p, rest2, ' ');
        },
        None => {
            assert(rest1 =~= rest2);
            assert(rest2[0] == f.command[0]);
        },
    }
}

proof fn lemma_command_args(f: Frame)
    requires
        well_formed(f),
    ensures
        before(f.command + args_part(f), ' ') == f.command,
        parse_args(after(f.command + args_part(f), ' ')) == (f.args, f.data),
{
    let rest2 = f.command + args_part(f);
    if f.args.len() == 0 && f.data is None {
        assert(rest2 =~= f.command);
        lemma_no_cut(f.command, ' ');
        assert(f.args =~= Seq::<Seq<char>>::empty());
    } else {
        let r = render_rest(f.args, f.data);
        assert(rest2 =~= f.command + seq![' '] + r);
        lemma_cut(f.command, r, ' ');
        lemma_args_round(f.args, f.data);
    }
}

proof fn lemma_tag_pieces(f: Frame)
    requires
        well_formed(f),
    ensures
        tags_well_keyed(tag_pieces(if f.tags.len() > 0 { Some(join_tags(f.tags)) } else { None::<Seq<char>> })),
        tag_pieces(if f.tags.len() > 0 { Some(join_tags(f.tags)) } else { None::<Seq<char>> }).map_values(|p: Seq<char>| tag_of(p)) == f.tags,
{
    let pieces = tag_pieces(if f.tags.len() > 0 { Some(join_tags(f.tags)) } else { None::<Seq<char>> });
    if f.tags.len() > 0 {
        assert forall|i: int| 0 <= i < f.tags.len() implies tag_free_of(#[trigger] f.tags[i], ';') by {}
        lemma_split_join(f.tags);
        assert forall|i: int| 0 <= i < pieces.len() implies tag_of(#[trigger] pieces[i]) == f.tags[i] by {
            assert(pieces[i] == tag_text(f.tags[i]));
            lemma_cut(f.tags[i].0, f.tags[i].1, '=');
        }
        assert(tags_well_keyed(pieces));
    }
    assert(pieces.map_values(|p: Seq<char>| tag_of(p)) =~= f.tags);
}

/// A well-formed frame's line parses back to the frame.
proof fn lemma_parse_render_line(f: Frame)
    requires
        well_formed(f),
    ensures
        parse_line(render_line(f)) == Ok::<Frame, ParseError>(f),
{
    lemma_tag_segment(f);
    lemma_prefix_segment(f);
    lemma_command_args(f);
    lemma_tag_pieces(f);
}

proof fn lemma_rest_free(args: Seq<Seq<char>>, data: Option<Seq<char>>, c: char)
    requires
        forall|i: int| 0 <= i < args.len() ==> free_of(#[trigger] args[i], c),
        data matches Some(d) ==> free_of(d, c),
        c != ' ',
        c != ':',
    ensures
        free_of(render_rest(args, data), c),
    decreases args.len(),
{
    if args.len() == 0 {
        if let Some(d) = data {
            lemma_free_concat(seq![':'], d, c);
        }
    } else if !(args.len() == 1 && data is None) {
        let tail = args.drop_first();
        assert forall|i: int| 0 <= i < tail.len() implies free_of(#[trigger] tail[i], c) by {
            assert(tail[i] == args[i + 1]);
        }
        lemma_rest_free(tail, data, c);
        lemma_free_concat(args[0], seq![' '], c);
        lemma_free_concat(args[0] + seq![' '], render_rest(tail, data), c);
    }
}

proof fn lemma_line_free_of_cr(f: Frame)
    requires
        well_formed(f),
    ensures
        free_of(render_line(f), '\r'),
{
    let c = '\r';
    if f.tags.len() > 0 {
        assert forall|i: int| 0 <= i < f.tags.len() implies tag_free_of(#[trigger] f.tags[i], c) by {}
        lemma_join_free(f.tags, c);
        lemma_free_concat(seq!['@'], join_tags(f.tags), c);
        lemma_free_concat(seq!['@'] + join_tags(f.tags), seq![' '], c);
    }
    if let Some(p) = f.prefix {
        lemma_free_concat(seq![':'], p, c);
        lemma_free_concat(seq![':'] + p, seq![' '], c);
    }
    if !(f.args.len() == 0 && f.data is None) {
        assert forall|i: int| 0 <= i < f.args.len() implies free_of(#[trigger] f.args[i], c) by {}
        lemma_rest_free(f.args, f.data, c);
        lemma_free_concat(seq![' '], render_rest(f.args, f.data), c);
    }
    lemma_free_concat(tags_part(f), prefix_part(f), c);
    lemma_free_concat(tags_part(f) + prefix_part(f), f.command, c);
    lemma_free_concat(tags_part(f) + prefix_part(f) + f.command, args_part(f), c);
    assert(render_line(f) == tags_part(f) + prefix_part(f) + f.command + args_part(f));
}

/// Decoding the rendering of a well-formed frame gives that frame back, as
/// the only frame of the text, and rendering what was decoded gives the text
/// again: encoding a decoded well-formed frame reproduces it exactly.
pub proof fn lemma_round_trip(f: Frame)
    requires
        well_formed(f),
    ensures
        decode_first(render(f)) == Ok::<Frame, ParseError>(f),
        decode_all(render(f)) == seq![Ok::<Frame, ParseError>(f)],
        render(decode_first(render(f))->Ok_0) == render(f),
{
    let l = render_line(f);
    let s = render(f);
    lemma_line_free_of_cr(f);
    assert forall|j: int| 0 <= j < l.len() && j + 1 < s.len() implies !(#[trigger] s[j] == '\r' && s[j + 1] == '\n') by {
        assert(s[j] == l[j]);
    }
    lemma_crlf_index_is(s, l.len() as int);
    assert(s.subrange(0, l.len() as int) =~= l);
    lemma_parse_render_line(f);
    assert(s.subrange(l.len() as int + 2, s.len() as int) =~= Seq::<char>::empty());
    assert(decode_all(Seq::<char>::empty()) =~= Seq::<Result<Frame, ParseError>>::empty());
    assert(decode_all(s) =~= seq![Ok::<Frame, ParseError>(f)]);
}

proof fn lemma_join_push(s: Seq<(Seq<char>, Seq<char>)>, x: (Seq<char>, Seq<char>))
    requires
        s.len() >= 1,
    ensures
        join_tags(s.push(x)) == join_tags(s) + seq![';'] + tag_text(x),
    decreases s.len(),
{
    let t = s.push(x);
    assert(t.drop_first() =~= s.drop_first().push(x));
    if s.len() == 1 {
        assert(s.drop_first().push(x) =~= seq![x]);
        assert(join_tags(seq![x]) == tag_text(x));
        assert(join_tags(t) =~= join_tags(s) + seq![';'] + tag_text(x));
    } else {
        lemma_join_push(s.drop_first(), x);
        assert(join_tags(t) =~= join_tags(s) + seq![';'] + tag_text(x));
    }
}

/// Each argument preceded by a space.
spec fn spaced(args: Seq<Seq<char>>) -> Seq<char>
    decreases args.len(),
{
    if args.len() == 0 {
        Seq::empty()
    } else {
        spaced(args.drop_last()) + seq![' '] + args.last()
    }
}

spec fn data_part(data: Option<Seq<char>>) -> Seq<char> {
    match data {
        Some(d) => seq![' ', ':'] + d,
        None => Seq::empty(),
    }
}

proof fn lemma_spaced_front(a: Seq<char>, t: Seq<Seq<char>>)
    ensures
        spaced(seq![a] + t) == seq![' '] + a + spaced(t),
    decreases t.len(),
{
    let s = seq![a] + t;
    if t.len() == 0 {
        assert(s.drop_last() =~= Seq::<Seq<char>>::empty());
        assert(s.last() == a);
        assert(spaced(Seq::<Seq<char>>::empty()) == Seq::<char>::empty());
        assert(spaced(s) == spaced(s.drop_last()) + seq![' '] + s.last());
        assert(spaced(s) =~= seq![' '] + a + spaced(t));
    } else {
        lemma_spaced_front(a, t.drop_last());
        assert(s.drop_last() =~= seq![a] + t.drop_last());
        assert(s.last() == t.last());
        assert(spaced(s) == spaced(s.drop_last()) + seq![' '] + s.last());
        assert(spaced(t) == spaced(t.drop_last()) + seq![' '] + t.last());
        assert(spaced(s) =~= seq![' '] + a + spaced(t));
    }
}

proof fn lemma_args_text(args: Seq<Seq<char>>, data: Option<Seq<char>>)
    requires
        args.len() > 0 || data is Some,
    ensures
        seq![' '] + render_rest(args, data) == spaced(args) + data_part(data),
    decreases args.len(),
{
    if args.len() == 0 {
        assert(spaced(args) == Seq::<char>::empty());
        assert(render_rest(args, data) == seq![':'] + data->0);
        assert(seq![' '] + render_rest(args, data) =~= spaced(args) + data_part(data));
    } else if args.len() == 1 && data is None {
        assert(args.drop_last() =~= Seq::<Seq<char>>::empty());
        assert(spaced(Seq::<Seq<char>>::empty()) == Seq::<char>::empty());
        assert(args.last() == args[0]);
        assert(spaced(args) == spaced(args.drop_last()) + seq![' '] + args.last());
        assert(render_rest(args, data) == args[0]);
        assert(seq![' '] + render_rest(args, data) =~= spaced(args) + data_part(data));
    } else {
        let tail = args.drop_first();
        lemma_args_text(tail, data);
        assert(args =~= seq![args[0]] + tail);
        lemma_spaced_front(args[0], tail);
        let rr = render_rest(tail, data);
        assert(render_rest(args, data) == args[0] + seq![' '] + rr);
        assert(spaced(args) == seq![' '] + args[0] + spaced(tail));
        assert(seq![' '] + render_rest(args, data) =~= seq![' '] + args[0] + (seq![' '] + rr));
        assert(seq![' '] + rr == spaced(tail) + data_part(data));
        assert(seq![' '] + args[0] + (spaced(tail) + data_part(data)) =~= spaced(args) + data_part(data));
    }
}

impl IrcMessage {
    fn encode_tags(&self, buf: &mut String)
        ensures
            final(buf)@ == old(buf)@ + tags_part(self@),
    {
        let ghost f = self@;
        proof {
            reveal_strlit("@");
            reveal_strlit(" ");
        }
        let n = self.tag_count();
        if n == 0 {
            assert(old(buf)@ + tags_part(f) =~= old(buf)@);
            return;
        }
        buf.append("@");
        let mut i: usize = 0;
        while i < n
            invariant
                f == self@,
                n == f.tags.len(),
                i <= n,
                i == 0 ==> buf@ == old(buf)@ + seq!['@'],
                i > 0 ==> buf@ == old(buf)@ + seq!['@'] + join_tags(f.tags.subrange(0, i as int)),
            decreases n - i,
        {
            let (k, v) = self.tag_at(i);
            if i > 0 {
                buf.append(";");
            }
            buf.append(k);
            buf.append("=");
            buf.append(v);
            proof {
                reveal_strlit(";");
                reveal_strlit("=");
                let t = f.tags.subrange(0, i + 1);
                if i == 0 {
                    assert(join_tags(t) == tag_text(f.tags[0]));
                    assert(buf@ =~= old(buf)@ + seq!['@'] + join_tags(t));
                } else {
                    assert(t =~= f.tags.subrange(0, i as int).push(f.tags[i as int]));
                    lemma_join_push(f.tags.subrange(0, i as int), f.tags[i as int]);
                    assert(buf@ =~= old(buf)@ + seq!['@'] + join_tags(t));
                }
            }
            i = i + 1;
        }
        buf.append(" ");
        assert(f.tags.subrange(0, n as int) =~= f.tags);
        assert(buf@ =~= old(buf)@ + tags_part(f));
    }

    fn encode_rest(&self, buf: &mut String)
        ensures
            final(buf)@ == old(buf)@ + args_part(self@),
    {
        let ghost f = self@;
        let m = self.arg_count();
        let mut i: usize = 0;
        assert(spaced(f.args.subrange(0, 0)) == Seq::<char>::empty());
        assert(old(buf)@ + Seq::<char>::empty() =~= old(buf)@);
        while i < m
            invariant
                f == self@,
                m == f.args.len(),
                i <= m,
                buf@ == old(buf)@ + spaced(f.args.subrange(0, i as int)),
            decreases m - i,
        {
            let a = self.arg(i).unwrap();
            buf.append(" ");
            buf.append(a);
            proof {
                reveal_strlit(" ");
                let t = f.args.subrange(0, i + 1);
                assert(t.drop_last() =~= f.args.subrange(0, i as int));
                assert(buf@ =~= old(buf)@ + spaced(t));
            }
            i = i + 1;
        }
        let ghost after_args = buf@;
        if let Some(d) = self.data() {
            buf.append(" :");
            buf.append(d);
        }
        proof {
            reveal_strlit(" :");
            assert(buf@ =~= after_args + data_part(f.data));
            assert(f.args.subrange(0, m as int) =~= f.args);
            if !(f.args.len() == 0 && f.data is None) {
                lemma_args_text(f.args, f.data);
            } else {
                assert(f.args =~= Seq::<Seq<char>>::empty());
            }
            assert(buf@ =~= old(buf)@ + args_part(f));
        }
    }

    /// Appends the frame rendered from its parts: for a frame whose text is
    /// the rendering of its parts (every well-formed one), this is the text.
    pub fn encode(&self, buf: &mut String)
        ensures
            final(buf)@ == old(buf)@ + render(self@),
    {
        let ghost f = self@;
        self.encode_tags(buf);
        let ghost after_tags = buf@;
        if let Some(p) = self.prefix() {
            buf.append(":");
            buf.append(p);
            buf.append(" ");
        }
        proof {
            reveal_strlit(":");
            reveal_strlit(" ");
            assert(buf@ =~= after_tags + prefix_part(f));
        }
        buf.append(self.command());
        self.encode_rest(buf);
        let ghost before_end = buf@;
        buf.append("\r\n");
        proof {
            reveal_strlit("\r\n");
            assert(before_end =~= old(buf)@ + (tags_part(f) + prefix_part(f) + f.command + args_part(f)));
            assert(render_line(f) == tags_part(f) + prefix_part(f) + f.command + args_part(f));
            assert(buf@ =~= old(buf)@ + render(f));
        }
    }
}

} // verus!
