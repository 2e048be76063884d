//! Character-level helpers shared by the decoder, the typed layer and the
//! encoder: searching, splitting, and decimal numbers.
use vstd::prelude::*;

verus! {

/// The position of the first `c` in `s`, or `s.len()` when there is none.
pub open spec fn index_of(s: Seq<char>, c: char) -> int
    decreases s.len(),
{
    if s.len() == 0 {
        0
    } else if s[0] == c {
        0
    } else {
        1 + index_of(s.drop_first(), c)
    }
}

/// What follows the first `c` in `s` (empty when there is no `c`).
pub open spec fn after(s: Seq<char>, c: char) -> Seq<char> {
    let i = index_of(s, c);
    if i < s.len() {
        s.subrange(i + 1, s.len() as int)
    } else {
        Seq::empty()
    }
}

/// What precedes the first `c` in `s` (all of `s` when there is no `c`).
pub open spec fn before(s: Seq<char>, c: char) -> Seq<char> {
    s.subrange(0, index_of(s, c))
}

/// `s` cut at every `c`, as `str::split` does.
pub open spec fn split(s: Seq<char>, c: char) -> Seq<Seq<char>>
    decreases s.len(),
{
    let i = index_of(s, c);
    if 0 <= i < s.len() {
        seq![s.subrange(0, i)] + split(s.subrange(i + 1, s.len() as int), c)
    } else {
        seq![s]
    }
}

pub proof fn lemma_index_of_bounds(s: Seq<char>, c: char)
    ensures
        0 <= index_of(s, c) <= s.len(),
        index_of(s, c) < s.len() ==> s[index_of(s, c)] == c,
        forall|j: int| 0 <= j < index_of(s, c) ==> s[j] != c,
    decreases s.len(),
{
    if s.len() > 0 && s[0] != c {
        lemma_index_of_bounds(s.drop_first(), c);
        assert forall|j: int| 0 <= j < index_of(s, c) implies s[j] != c by {
            if j > 0 {
                assert(s[j] == s.drop_first()[j - 1]);
            }
        }
    }
}

/// `index_of` is pinned down by the first occurrence.
pub proof fn lemma_index_of_is(s: Seq<char>, c: char, i: int)
    requires
        0 <= i <= s.len(),
        i < s.len() ==> s[i] == c,
        forall|j: int| 0 <= j < i ==> s[j] != c,
    ensures
        index_of(s, c) == i,
    decreases s.len(),
{
    if s.len() > 0 && i > 0 {
        assert forall|j: int| 0 <= j < i - 1 implies s.drop_first()[j] != c by {
            assert(s[j + 1] != c);
        }
        lemma_index_of_is(s.drop_first(), c, i - 1);
    }
}

/// The characters of `s`, for random access while scanning.
pub fn to_chars(s: &str) -> (r: Vec<char>)
    ensures
        r@ == s@,
{
    let mut r: Vec<char> = Vec::new();
    for c in it: s.chars()
        invariant
            it.seq() == s@,
            r@ == it.seq().subrange(0, it.index() as int),
    {
        r.push(c);
    }
    r
}

/// The first position at or after `from` holding `c`, or `end` when none of
/// `s[from..end]` is `c`.
pub fn find_char(s: &Vec<char>, c: char, from: usize, end: usize) -> (r: usize)
    requires
        from <= end <= s@.len(),
    ensures
        from <= r <= end,
        r == from + index_of(s@.subrange(from as int, end as int), c),
{
    let mut i = from;
    while i < end
        invariant
            from <= i <= end <= s@.len(),
            forall|j: int| from <= j < i ==> s@[j] != c,
        ensures
            from <= i <= end,
            i < end ==> s@[i as int] == c,
            forall|j: int| from <= j < i ==> s@[j] != c,
        decreases end - i,
    {
        if s[i] == c {
            break;
        }
        i = i + 1;
    }
    proof {
        let t = s@.subrange(from as int, end as int);
        assert forall|j: int| 0 <= j < i - from implies t[j] != c by {
            assert(t[j] == s@[from + j]);
        }
        lemma_index_of_is(t, c, i - from);
    }
    i
}

/// The position of the first CRLF in `s`, or `s.len()` when there is none.
pub open spec fn crlf_index(s: Seq<char>) -> int
    decreases s.len(),
{
    if s.len() < 2 {
        s.len() as int
    } else if s[0] == '\r' && s[1] == '\n' {
        0
    } else {
        1 + crlf_index(s.drop_first())
    }
}

pub proof fn lemma_crlf_index_bounds(s: Seq<char>)
    ensures
        0 <= crlf_index(s) <= s.len(),
        crlf_index(s) < s.len() ==> crlf_index(s) + 1 < s.len() && s[crlf_index(s)] == '\r'
            && s[crlf_index(s) + 1] == '\n',
        forall|j: int| 0 <= j < crlf_index(s) && j + 1 < s.len() ==> !(#[trigger] s[j] == '\r' && s[j + 1] == '\n'),
    decreases s.len(),
{
    if s.len() >= 2 && !(s[0] == '\r' && s[1] == '\n') {
        lemma_crlf_index_bounds(s.drop_first());
        assert forall|j: int| 0 <= j < crlf_index(s) && j + 1 < s.len() implies !(#[trigger] s[j] == '\r' && s[j + 1] == '\n') by {
            if j > 0 {
                assert(s[j] == s.drop_first()[j - 1]);
                assert(s[j + 1] == s.drop_first()[j]);
            }
        }
    }
}

pub proof fn lemma_crlf_index_is(s: Seq<char>, i: int)
    requires
        0 <= i <= s.len(),
        i < s.len() ==> i + 1 < s.len() && s[i] == '\r' && s[i + 1] == '\n',
        i == s.len() ==> s.len() < 2 || !(s[s.len() - 2] == '\r' && s[s.len() - 1] == '\n'),
        forall|j: int| 0 <= j < i && j + 1 < s.len() ==> !(#[trigger] s[j] == '\r' && s[j + 1] == '\n'),
    ensures
        crlf_index(s) == i,
    decreases s.len(),
{
    if s.len() >= 2 && i > 0 {
        let t = s.drop_first();
        assert forall|j: int| 0 <= j < i - 1 && j + 1 < t.len() implies !(#[trigger] t[j] == '\r' && t[j + 1] == '\n') by {
            assert(s[j + 1] == t[j] && s[j + 2] == t[j + 1]);
        }
        if i == s.len() {
            if t.len() >= 2 {
                assert(t[t.len() - 2] == s[s.len() - 2] && t[t.len() - 1] == s[s.len() - 1]);
            }
        }
        lemma_crlf_index_is(t, i - 1);
    }
}

/// The position of the first CRLF in `s`, or `s.len()` when there is none.
pub fn find_crlf(s: &Vec<char>) -> (r: usize)
    ensures
        r == crlf_index(s@),
{
    let n = s.len();
    let mut i: usize = 0;
    while n > 0 && i < n - 1
        invariant
            n == s@.len(),
            i <= n,
            forall|j: int| 0 <= j < i && j + 1 < n ==> !(#[trigger] s@[j] == '\r' && s@[j + 1] == '\n'),
        ensures
            i + 1 < n ==> s@[i as int] == '\r' && s@[i + 1] == '\n',
            i + 1 >= n ==> forall|j: int| 0 <= j && j + 1 < n ==> !(#[trigger] s@[j] == '\r' && s@[j + 1] == '\n'),
            forall|j: int| 0 <= j < i && j + 1 < n ==> !(#[trigger] s@[j] == '\r' && s@[j + 1] == '\n'),
        decreases n - i,
    {
        if s[i] == '\r' && s[i + 1] == '\n' {
            break;
        }
        i = i + 1;
    }
    if n > 0 && i < n - 1 {
        proof {
            lemma_crlf_index_is(s@, i as int);
        }
        i
    } else {
        proof {
            lemma_crlf_index_is(s@, n as int);
        }
        n
    }
}

/// Whether two strings hold the same characters.
pub fn str_eq(a: &str, b: &str) -> (r: bool)
    ensures
        r == (a@ == b@),
{
    let x = to_chars(a);
    let y = to_chars(b);
    if x.len() != y.len() {
        return false;
    }
    let mut i: usize = 0;
    while i < x.len()
        invariant
            x@ == a@,
            y@ == b@,
            x@.len() == y@.len(),
            i <= x@.len(),
            forall|j: int| 0 <= j < i ==> x@[j] == y@[j],
        decreases x.len() - i,
    {
        if x[i] != y[i] {
            return false;
        }
        i = i + 1;
    }
    assert(x@ =~= y@);
    true
}

pub open spec fn is_space(c: char) -> bool {
    c == ' ' || c == '\t' || c == '\r' || c == '\n'
}

/// How many whitespace characters open `s`.
pub open spec fn leading_space(s: Seq<char>) -> nat
    decreases s.len(),
{
    if s.len() > 0 && is_space(s[0]) {
        1 + leading_space(s.drop_first())
    } else {
        0
    }
}

/// How many whitespace characters close `s`.
pub open spec fn trailing_space(s: Seq<char>) -> nat
    decreases s.len(),
{
    if s.len() > 0 && is_space(s.last()) {
        1 + trailing_space(s.drop_last())
    } else {
        0
    }
}

/// `s` without surrounding whitespace.
pub open spec fn trim(s: Seq<char>) -> Seq<char> {
    let a = leading_space(s);
    let t = s.subrange(a as int, s.len() as int);
    t.subrange(0, t.len() - trailing_space(t))
}

proof fn lemma_leading(s: Seq<char>, i: int)
    requires
        0 <= i <= s.len(),
        forall|j: int| 0 <= j < i ==> is_space(#[trigger] s[j]),
        i == s.len() || !is_space(s[i]),
    ensures
        leading_space(s) == i,
    decreases s.len(),
{
    if i > 0 {
        assert forall|j: int| 0 <= j < i - 1 implies is_space(#[trigger] s.drop_first()[j]) by {
            assert(s.drop_first()[j] == s[j + 1]);
        }
        lemma_leading(s.drop_first(), i - 1);
    }
}

proof fn lemma_trailing(s: Seq<char>, i: int)
    requires
        0 <= i <= s.len(),
        forall|j: int| i <= j < s.len() ==> is_space(#[trigger] s[j]),
        i == 0 || !is_space(s[i - 1]),
    ensures
        trailing_space(s) == s.len() - i,
    decreases s.len(),
{
    if i < s.len() {
        assert forall|j: int| i <= j < s.len() - 1 implies is_space(#[trigger] s.drop_last()[j]) by {
            assert(s.drop_last()[j] == s[j]);
        }
        lemma_trailing(s.drop_last(), i);
    }
}

/// `input` without surrounding whitespace.
pub fn trimmed(input: &str) -> (r: &str)
    ensures
        r@ == trim(input@),
{
    let c = to_chars(input);
    let n = c.len();
    let mut a: usize = 0;
    while a < n && (c[a] == ' ' || c[a] == '\t' || c[a] == '\r' || c[a] == '\n')
        invariant
            a <= n == c@.len(),
            forall|j: int| 0 <= j < a ==> is_space(#[trigger] c@[j]),
        decreases n - a,
    {
        a = a + 1;
    }
    proof {
        lemma_leading(input@, a as int);
    }
    let mut b: usize = n;
    while b > a && (c[b - 1] == ' ' || c[b - 1] == '\t' || c[b - 1] == '\r' || c[b - 1] == '\n')
        invariant
            a <= b <= n == c@.len(),
            forall|j: int| b <= j < n ==> is_space(#[trigger] c@[j]),
        decreases b,
    {
        b = b - 1;
    }
    proof {
        let t = input@.subrange(a as int, n as int);
        assert forall|j: int| b - a <= j < t.len() implies is_space(#[trigger] t[j]) by {
            assert(t[j] == c@[a + j]);
        }
        if b > a {
            assert(t[b - a - 1] == c@[b - 1]);
        }
        lemma_trailing(t, b - a);
        assert(t.subrange(0, b - a) =~= input@.subrange(a as int, b as int));
    }
    input.substring_char(a, b)
}

/// The value of a decimal digit character.
pub open spec fn digit_value(c: char) -> int {
    c as int - '0' as int
}

pub open spec fn is_digit(c: char) -> bool {
    '0' <= c && c <= '9'
}

/// The number that a string of decimal digits spells.
pub open spec fn decimal_value(s: Seq<char>) -> nat
    decreases s.len(),
{
    if s.len() == 0 {
        0
    } else {
        (decimal_value(s.drop_last()) * 10 + digit_value(s.last())) as nat
    }
}

/// `s` spells a number: it is non-empty and every character is a digit.
pub open spec fn is_decimal(s: Seq<char>) -> bool {
    s.len() > 0 && forall|i: int| 0 <= i < s.len() ==> is_digit(#[trigger] s[i])
}

/// Reads `s` as an unsigned decimal number; `None` when `s` is not a number
/// or the number does not fit in 64 bits.
pub fn parse_u64(s: &str) -> (r: Option<u64>)
    ensures
        r is Some <==> is_decimal(s@) && decimal_value(s@) <= u64::MAX,
        r matches Some(v) ==> v == decimal_value(s@),
{
    let c = to_chars(s);
    if c.len() == 0 {
        return None;
    }
    let mut acc: u64 = 0;
    let mut i: usize = 0;
    while i < c.len()
        invariant
            c@ == s@,
            i <= c@.len(),
            forall|j: int| 0 <= j < i ==> is_digit(#[trigger] c@[j]),
            acc == decimal_value(c@.subrange(0, i as int)),
        decreases c.len() - i,
    {
        let ch = c[i];
        if !('0' <= ch && ch <= '9') {
            return None;
        }
        let d = (ch as u32 - '0' as u32) as u64;
        proof {
            let t = c@.subrange(0, i + 1);
            assert(t.drop_last() =~= c@.subrange(0, i as int));
            assert(t.last() == ch);
        }
        if acc > (u64::MAX - d) / 10 {
            proof {
                let a = acc as int;
                let dd = d as int;
                assert(a * 10 + dd > u64::MAX) by (nonlinear_arith)
                    requires
                        a > (u64::MAX - dd) / 10,
                        0 <= dd <= 9,
                ;
                if is_decimal(c@) {
                    lemma_decimal_prefix_le(c@, i + 1);
                }
            }
            return None;
        }
        acc = acc * 10 + d;
        i = i + 1;
    }
    assert(c@.subrange(0, i as int) =~= c@);
    Some(acc)
}

/// A number's digits never spell less than any of their prefixes.
pub proof fn lemma_decimal_prefix_le(s: Seq<char>, k: int)
    requires
        0 <= k <= s.len(),
        is_decimal(s),
    ensures
        decimal_value(s.subrange(0, k)) <= decimal_value(s),
    decreases s.len() - k,
{
    if k < s.len() {
        lemma_decimal_prefix_le(s, k + 1);
        let t = s.subrange(0, k + 1);
        assert(t.drop_last() =~= s.subrange(0, k));
        assert(is_digit(s[k]));
        assert(decimal_value(t) == decimal_value(s.subrange(0, k)) * 10 + digit_value(s[k]));
    } else {
        assert(s.subrange(0, k) =~= s);
    }
}

/// The pieces of `s` cut at every `sep`, as owned strings.
pub fn split_owned(s: &str, sep: char) -> (r: Vec<String>)
    ensures
        r@.len() == split(s@, sep).len(),
        forall|i: int| 0 <= i < r@.len() ==> (#[trigger] r@[i])@ == split(s@, sep)[i],
{
    let c = to_chars(s);
    let n = c.len();
    let mut out: Vec<String> = Vec::new();
    let mut pos: usize = 0;
    let ghost all = split(s@, sep);
    assert(c@.subrange(0, n as int) =~= s@);
    loop
        invariant
            c@ == s@,
            n == c@.len(),
            pos <= n,
            all == split(s@, sep),
            all.len() == out@.len() + split(c@.subrange(pos as int, n as int), sep).len(),
            forall|i: int| 0 <= i < out@.len() ==> (#[trigger] out@[i])@ == all[i],
            forall|i: int| 0 <= i < split(c@.subrange(pos as int, n as int), sep).len() ==>
                all[out@.len() + i] == #[trigger] split(c@.subrange(pos as int, n as int), sep)[i],
        decreases n - pos,
    {
        let ghost t = c@.subrange(pos as int, n as int);
        let j = find_char(&c, sep, pos, n);
        proof {
            lemma_index_of_bounds(t, sep);
            assert(t.subrange(0, j - pos) =~= c@.subrange(pos as int, j as int));
            if j < n {
                assert(t.subrange(j - pos + 1, t.len() as int) =~= c@.subrange(j + 1, n as int));
            } else {
                assert(t =~= c@.subrange(pos as int, j as int));
            }
            assert(split(t, sep)[0] == c@.subrange(pos as int, j as int));
            assert(all[out@.len() as int] == split(t, sep)[0]);
        }
        let piece = s.substring_char(pos, j).to_owned();
        let ghost k = out@.len() as int;
        out.push(piece);
        if j == n {
            assert(split(t, sep) == seq![t]);
            assert(t =~= c@.subrange(pos as int, j as int));
            assert(out@[k]@ == all[k]);
            return out;
        }
        proof {
            let rest = c@.subrange(j + 1, n as int);
            assert(t.subrange(j - pos + 1, t.len() as int) =~= rest);
            assert(split(t, sep) == seq![c@.subrange(pos as int, j as int)] + split(rest, sep));
            assert(out@[k]@ == all[k]);
            assert forall|i: int| 0 <= i < split(rest, sep).len() implies
                all[out@.len() + i] == #[trigger] split(rest, sep)[i] by {
                assert(split(t, sep)[i + 1] == split(rest, sep)[i]);
            }
        }
        pos = j + 1;
    }
}

} // verus!
