use vstd::prelude::*;

use crate::json::push_char;

verus! {

/// `parts` joined by `sep`.
pub open spec fn join(parts: Seq<Seq<char>>, sep: Seq<char>) -> Seq<char>
    decreases parts.len(),
{
    if parts.len() == 0 {
        Seq::empty()
    } else if parts.len() == 1 {
        parts[0]
    } else {
        join(parts.drop_last(), sep) + sep + parts.last()
    }
}

pub open spec fn strs_view(s: Seq<String>) -> Seq<Seq<char>> {
    s.map_values(|x: String| x@)
}

/// The strings of `parts` joined by `sep`.
pub fn join_strings(parts: &Vec<String>, sep: &str) -> (r: String)
    ensures
        r@ == join(strs_view(parts@), sep@),
{
    let mut r = String::new();
    let mut i: usize = 0;
    while i < parts.len()
        invariant
            i <= parts.len(),
            r@ == join(strs_view(parts@).subrange(0, i as int), sep@),
        decreases parts.len() - i,
    {
        let ghost sv = strs_view(parts@);
        if i > 0 {
            r.append(sep);
        }
        r.append(parts[i].as_str());
        proof {
            assert(sv.subrange(0, i as int + 1).drop_last() =~= sv.subrange(0, i as int));
            if i == 0 {
                assert(sv.subrange(0, 1)[0] == sv[0]);
                assert(r@ =~= sv[0]);
            }
        }
        i = i + 1;
    }
    proof {
        assert(strs_view(parts@).subrange(0, parts@.len() as int) =~= strs_view(parts@));
    }
    r
}

/// `a`, then `b`.
pub fn concat2(a: &str, b: &str) -> (r: String)
    ensures
        r@ == a@ + b@,
{
    let mut r = String::from_str(a);
    r.append(b);
    r
}

/// `a`, then `b`, then `c`.
pub fn concat3(a: &str, b: &str, c: &str) -> (r: String)
    ensures
        r@ == a@ + b@ + c@,
{
    let mut r = String::from_str(a);
    r.append(b);
    r.append(c);
    r
}

pub open spec fn is_whitespace(c: char) -> bool {
    c == ' ' || c == '\t' || c == '\n' || c == '\r' || c == '\x0B' || c == '\x0C'
        || c == '\u{85}' || c == '\u{A0}' || c == '\u{1680}' || ('\u{2000}' <= c && c <= '\u{200A}')
        || c == '\u{2028}' || c == '\u{2029}' || c == '\u{202F}' || c == '\u{205F}' || c == '\u{3000}'
}

/// Whether `c` is white space in Unicode's sense, as `char::is_whitespace` says.
pub fn char_is_whitespace(c: char) -> (r: bool)
    ensures
        r == is_whitespace(c),
{
    c == ' ' || c == '\t' || c == '\n' || c == '\r' || c == '\x0B' || c == '\x0C'
        || c == '\u{85}' || c == '\u{A0}' || c == '\u{1680}' || ('\u{2000}' <= c && c <= '\u{200A}')
        || c == '\u{2028}' || c == '\u{2029}' || c == '\u{202F}' || c == '\u{205F}' || c == '\u{3000}'
}

/// Whether every character of `s` is white space (so `s.trim()` is empty).
pub open spec fn is_blank(s: Seq<char>) -> bool {
    forall|i: int| 0 <= i < s.len() ==> is_whitespace(#[trigger] s[i])
}

/// The characters of `s`.
pub fn chars_of(s: &str) -> (r: Vec<char>)
    ensures
        r@ == s@,
{
    let mut out: Vec<char> = Vec::new();
    for c in it: s.chars()
        invariant
            out@ == it.seq().subrange(0, it.index() as int),
            it.seq() == s@,
    {
        out.push(c);
        proof {
            assert(it.seq().subrange(0, it.index() + 1) =~= it.seq().subrange(0, it.index() as int).push(c));
        }
    }
    out
}

/// The string made of `cs[from..to]`.
pub fn string_of(cs: &Vec<char>, from: usize, to: usize) -> (r: String)
    requires
        from <= to <= cs@.len(),
    ensures
        r@ == cs@.subrange(from as int, to as int),
{
    let mut r = String::new();
    let mut i = from;
    while i < to
        invariant
            from <= i <= to,
            to <= cs@.len(),
            r@ == cs@.subrange(from as int, i as int),
        decreases to - i,
    {
        push_char(&mut r, cs[i]);
        proof {
            assert(cs@.subrange(from as int, i as int + 1) =~= cs@.subrange(from as int, i as int).push(cs@[i as int]));
        }
        i = i + 1;
    }
    r
}

/// Whether `s` is empty or all white space.
pub fn blank(s: &str) -> (r: bool)
    ensures
        r == is_blank(s@),
{
    let cs = chars_of(s);
    let mut i: usize = 0;
    while i < cs.len()
        invariant
            i <= cs@.len(),
            cs@ == s@,
            forall|j: int| 0 <= j < i ==> is_whitespace(#[trigger] cs@[j]),
        decreases cs.len() - i,
    {
        if !char_is_whitespace(cs[i]) {
            return false;
        }
        i = i + 1;
    }
    true
}


/// The number of leading white-space characters of `s`.
pub open spec fn leading_ws(s: Seq<char>) -> int
    decreases s.len(),
{
    if s.len() == 0 {
        0
    } else if is_whitespace(s[0]) {
        1 + leading_ws(s.drop_first())
    } else {
        0
    }
}

/// The number of trailing white-space characters of `s`.
pub open spec fn trailing_ws(s: Seq<char>) -> int
    decreases s.len(),
{
    if s.len() == 0 {
        0
    } else if is_whitespace(s.last()) {
        1 + trailing_ws(s.drop_last())
    } else {
        0
    }
}

/// `s` without leading and trailing white space, as `str::trim` gives it.
pub open spec fn trim(s: Seq<char>) -> Seq<char> {
    let a = leading_ws(s);
    if a == s.len() {
        Seq::empty()
    } else {
        s.subrange(a, s.len() - trailing_ws(s))
    }
}

pub(crate) proof fn lemma_leading_ws(s: Seq<char>, i: int)
    requires
        0 <= i <= s.len(),
        forall|j: int| 0 <= j < i ==> is_whitespace(#[trigger] s[j]),
        i < s.len() ==> !is_whitespace(s[i]),
    ensures
        leading_ws(s) == i,
    decreases s.len(),
{
    if s.len() > 0 && i > 0 {
        assert forall|j: int| 0 <= j < i - 1 implies is_whitespace(#[trigger] s.drop_first()[j]) by {
            assert(s.drop_first()[j] == s[j + 1]);
        }
        lemma_leading_ws(s.drop_first(), i - 1);
    }
}

pub(crate) proof fn lemma_trailing_ws(s: Seq<char>, e: int)
    requires
        0 <= e <= s.len(),
        forall|j: int| e <= j < s.len() ==> is_whitespace(#[trigger] s[j]),
        e > 0 ==> !is_whitespace(s[e - 1]),
    ensures
        trailing_ws(s) == s.len() - e,
    decreases s.len(),
{
    if s.len() > 0 && e < s.len() {
        assert forall|j: int| e <= j < s.len() - 1 implies is_whitespace(#[trigger] s.drop_last()[j]) by {
            assert(s.drop_last()[j] == s[j]);
        }
        lemma_trailing_ws(s.drop_last(), e);
    }
}

/// Text that is its own trim starts and ends with characters that are not
/// white space.
pub(crate) proof fn lemma_trimmed_ends(x: Seq<char>)
    requires
        trim(x) == x,
        x.len() > 0,
    ensures
        !is_whitespace(x[0]),
        !is_whitespace(x.last()),
{
    lemma_trailing_ws_bounds(x);
    lemma_leading_ws_bounds(x);
    let a = leading_ws(x);
    let t = trailing_ws(x);
    assert(a < x.len());
    assert(trim(x).len() == x.len() - t - a);
    assert(a == 0 && t == 0);
    if is_whitespace(x[0]) {
        lemma_leading_ws_bounds(x.drop_first());
        assert(a >= 1);
    }
    if is_whitespace(x.last()) {
        lemma_trailing_ws_bounds(x.drop_last());
        assert(t >= 1);
    }
}

/// A text trims to nothing exactly when it is blank.
pub proof fn law_trim_empty_iff_blank(s: Seq<char>)
    ensures
        (trim(s).len() == 0) == is_blank(s),
{
    let a = leading_ws(s);
    lemma_leading_ws_bounds(s);
    if a == s.len() {
        assert(is_blank(s));
    } else {
        lemma_trailing_ws_bounds(s);
        assert(!is_whitespace(s[a]));
        assert(!is_blank(s));
        assert(s.len() - trailing_ws(s) > a);
    }
}

pub(crate) proof fn lemma_leading_ws_bounds(s: Seq<char>)
    ensures
        0 <= leading_ws(s) <= s.len(),
        forall|j: int| 0 <= j < leading_ws(s) ==> is_whitespace(#[trigger] s[j]),
        leading_ws(s) < s.len() ==> !is_whitespace(s[leading_ws(s)]),
    decreases s.len(),
{
    if s.len() > 0 {
        lemma_leading_ws_bounds(s.drop_first());
        if is_whitespace(s[0]) {
            assert forall|j: int| 0 <= j < leading_ws(s) implies is_whitespace(#[trigger] s[j]) by {
                if j > 0 {
                    assert(s[j] == s.drop_first()[j - 1]);
                }
            }
        }
    }
}

pub(crate) proof fn lemma_trailing_ws_bounds(s: Seq<char>)
    ensures
        0 <= trailing_ws(s) <= s.len(),
        forall|j: int| s.len() - trailing_ws(s) <= j < s.len() ==> is_whitespace(#[trigger] s[j]),
        trailing_ws(s) < s.len() ==> !is_whitespace(s[s.len() - trailing_ws(s) - 1]),
        leading_ws(s) < s.len() ==> leading_ws(s) < s.len() - trailing_ws(s),
    decreases s.len(),
{
    lemma_leading_ws_bounds(s);
    if s.len() > 0 {
        lemma_trailing_ws_bounds(s.drop_last());
        if is_whitespace(s.last()) {
            assert forall|j: int| s.len() - trailing_ws(s) <= j < s.len() implies is_whitespace(#[trigger] s[j]) by {
                if j < s.len() - 1 {
                    assert(s[j] == s.drop_last()[j]);
                }
            }
        }
    }
}

/// `s` without leading and trailing white space.
pub fn trim_str(s: &str) -> (r: String)
    ensures
        r@ == trim(s@),
{
    let cs = chars_of(s);
    let n = cs.len();
    let mut a: usize = 0;
    while a < n && char_is_whitespace(cs[a])
        invariant
            a <= n,
            n == cs@.len(),
            cs@ == s@,
            forall|j: int| 0 <= j < a ==> is_whitespace(#[trigger] cs@[j]),
        decreases n - a,
    {
        a = a + 1;
    }
    proof { lemma_leading_ws(s@, a as int); }
    if a == n {
        return String::new();
    }
    let mut e: usize = n;
    while e > a && char_is_whitespace(cs[e - 1])
        invariant
            a < n,
            a <= e <= n,
            n == cs@.len(),
            cs@ == s@,
            !is_whitespace(cs@[a as int]),
            forall|j: int| e <= j < n ==> is_whitespace(#[trigger] cs@[j]),
        decreases e,
    {
        e = e - 1;
    }
    proof { lemma_trailing_ws(s@, e as int); }
    string_of(&cs, a, e)
}

/// The pieces of `s` between newline characters (one more than there are
/// newlines).
pub open spec fn split_newlines(s: Seq<char>) -> Seq<Seq<char>>
    decreases s.len(),
{
    if s.len() == 0 {
        seq![Seq::empty()]
    } else {
        let prev = split_newlines(s.drop_last());
        if s.last() == '\n' {
            prev.push(Seq::empty())
        } else {
            prev.update(prev.len() - 1, prev.last().push(s.last()))
        }
    }
}

pub proof fn lemma_split_newlines_len(s: Seq<char>)
    ensures
        split_newlines(s).len() >= 1,
    decreases s.len(),
{
    if s.len() > 0 {
        lemma_split_newlines_len(s.drop_last());
    }
}

/// The pieces of `s` between newline characters.
pub fn split_on_newlines(s: &str) -> (r: Vec<String>)
    ensures
        strs_view(r@) == split_newlines(s@),
{
    let cs = chars_of(s);
    let mut out: Vec<String> = Vec::new();
    let mut cur = String::new();
    let mut i: usize = 0;
    while i < cs.len()
        invariant
            i <= cs@.len(),
            cs@ == s@,
            strs_view(out@).push(cur@) == split_newlines(cs@.subrange(0, i as int)),
        decreases cs.len() - i,
    {
        let ghost prev = split_newlines(cs@.subrange(0, i as int));
        proof {
            assert(cs@.subrange(0, i as int + 1).drop_last() =~= cs@.subrange(0, i as int));
            lemma_split_newlines_len(cs@.subrange(0, i as int));
        }
        if cs[i] == '\n' {
            let done = cur;
            out.push(done);
            cur = String::new();
            proof {
                assert(strs_view(out@).push(cur@) =~= prev.push(Seq::empty()));
            }
        } else {
            let ghost old_out = strs_view(out@);
            push_char(&mut cur, cs[i]);
            proof {
                assert(strs_view(out@).push(cur@) =~= prev.update(prev.len() - 1, prev.last().push(cs@[i as int])));
            }
        }
        i = i + 1;
    }
    out.push(cur);
    proof {
        assert(cs@.subrange(0, cs@.len() as int) =~= cs@);
        assert(strs_view(out@) =~= split_newlines(s@));
    }
    out
}

} // verus!
