use vstd::prelude::*;

use crate::json::{find_member, obj_get, JsonNumber, JsonValue, JsonView, NumberView};
use crate::markdown::{lines_of, starts_with, text_lines};
use crate::text::{blank, chars_of, is_blank, join, join_strings, string_of, strs_view, trim_str};

verus! {

/// The position of the first blank line break ("\n\n") in `s`.
pub open spec fn first_break(s: Seq<char>) -> Option<int>
    decreases s.len(),
{
    if s.len() < 2 {
        None
    } else {
        match first_break(s.drop_last()) {
            Some(i) => Some(i),
            None => if s[s.len() - 2] == '\n' && s[s.len() - 1] == '\n' { Some(s.len() - 2) } else { None },
        }
    }
}

proof fn lemma_first_break(s: Seq<char>, i: int)
    requires
        0 <= i,
        i + 2 <= s.len() ==> s[i] == '\n' && s[i + 1] == '\n',
        forall|j: int| 0 <= j < i && j + 1 < s.len() ==> !(#[trigger] s[j] == '\n' && s[j + 1] == '\n'),
        i + 2 > s.len() ==> i + 1 >= s.len(),
    ensures
        first_break(s) == if i + 2 <= s.len() { Some(i) } else { None::<int> },
    decreases s.len(),
{
    if s.len() >= 2 {
        let d = s.drop_last();
        if i + 2 <= d.len() {
            assert(d[i] == s[i] && d[i + 1] == s[i + 1]);
            assert forall|j: int| 0 <= j < i && j + 1 < d.len() implies !(#[trigger] d[j] == '\n' && d[j + 1] == '\n') by {
                assert(d[j] == s[j] && d[j + 1] == s[j + 1]);
            }
            lemma_first_break(d, i);
        } else {
            assert forall|j: int| 0 <= j < d.len() - 1 && j + 1 < d.len() implies !(#[trigger] d[j] == '\n' && d[j + 1] == '\n') by {
                assert(d[j] == s[j] && d[j + 1] == s[j + 1]);
            }
            lemma_first_break(d, d.len() - 1);
            if i + 2 > s.len() {
                assert(!(s[s.len() - 2] == '\n' && s[s.len() - 1] == '\n'));
            }
        }
    }
}

/// The frames a buffer holds and what is left of it: each piece before a
/// blank line break is a frame (blank ones are dropped); what follows the
/// last break stays in the buffer.
pub open spec fn sse_drain(s: Seq<char>) -> (Seq<Seq<char>>, Seq<char>)
    decreases s.len(),
{
    match first_break(s) {
        Some(i) => if 0 <= i && i + 2 <= s.len() {
            let frame = s.take(i);
            let next = sse_drain(s.skip(i + 2));
            (if is_blank(frame) { next.0 } else { seq![frame] + next.0 }, next.1)
        } else {
            (Seq::empty(), s)
        },
        None => (Seq::empty(), s),
    }
}

proof fn lemma_first_break_found(s: Seq<char>)
    ensures
        first_break(s) matches Some(i) ==> {
            &&& 0 <= i && i + 2 <= s.len()
            &&& s[i] == '\n' && s[i + 1] == '\n'
            &&& forall|j: int| 0 <= j < i ==> !(#[trigger] s[j] == '\n' && s[j + 1] == '\n')
        },
        first_break(s) is None ==> forall|j: int| 0 <= j && j + 1 < s.len() ==> !(#[trigger] s[j] == '\n' && s[j + 1] == '\n'),
    decreases s.len(),
{
    if s.len() >= 2 {
        let d = s.drop_last();
        let n = s.len();
        lemma_first_break_found(d);
        match first_break(d) {
            Some(i) => {
                assert(d[i] == s[i] && d[i + 1] == s[i + 1]);
                assert forall|j: int| 0 <= j < i implies !(#[trigger] s[j] == '\n' && s[j + 1] == '\n') by {
                    assert(d[j] == s[j] && d[j + 1] == s[j + 1]);
                }
            },
            None => {
                assert forall|j: int| 0 <= j && j + 1 < n - 1 implies !(#[trigger] s[j] == '\n' && s[j + 1] == '\n') by {
                    assert(d[j] == s[j] && d[j + 1] == s[j + 1]);
                }
            },
        }
    }
}

proof fn lemma_first_break_extends(a: Seq<char>, b: Seq<char>)
    requires
        first_break(a) is Some,
    ensures
        first_break(a + b) == first_break(a),
{
    lemma_first_break_found(a);
    let i = first_break(a)->0;
    let ab = a + b;
    assert(ab[i] == a[i] && ab[i + 1] == a[i + 1]);
    assert forall|j: int| 0 <= j < i && j + 1 < ab.len() implies !(#[trigger] ab[j] == '\n' && ab[j + 1] == '\n') by {
        assert(ab[j] == a[j] && ab[j + 1] == a[j + 1]);
    }
    lemma_first_break(ab, i);
}

/// Frames can be drained as the bytes arrive: draining a first piece, then
/// what it left together with the next piece, gives the frames and the rest
/// that draining both pieces at once gives.
pub proof fn law_drain_in_pieces(a: Seq<char>, b: Seq<char>)
    ensures
        sse_drain(a).0 + sse_drain(sse_drain(a).1 + b).0 == sse_drain(a + b).0,
        sse_drain(sse_drain(a).1 + b).1 == sse_drain(a + b).1,
    decreases a.len(),
{
    lemma_first_break_found(a);
    match first_break(a) {
        Some(i) => {
            lemma_first_break_extends(a, b);
            let rest = a.skip(i + 2);
            assert((a + b).take(i) =~= a.take(i));
            assert((a + b).skip(i + 2) =~= rest + b);
            law_drain_in_pieces(rest, b);
            let frame = a.take(i);
            if is_blank(frame) {
            } else {
                assert(seq![frame] + sse_drain(rest).0 + sse_drain(sse_drain(rest).1 + b).0
                    =~= seq![frame] + (sse_drain(rest).0 + sse_drain(sse_drain(rest).1 + b).0));
            }
        },
        None => {
            assert(Seq::<Seq<char>>::empty() + sse_drain(a + b).0 =~= sse_drain(a + b).0);
        },
    }
}

/// What draining leaves in the buffer holds no blank line break.
pub proof fn law_drained_rest_has_no_break(s: Seq<char>)
    ensures
        first_break(sse_drain(s).1) is None,
    decreases s.len(),
{
    lemma_first_break_found(s);
    match first_break(s) {
        Some(i) => {
            law_drained_rest_has_no_break(s.skip(i + 2));
        },
        None => {},
    }
}

fn find_break(cs: &Vec<char>, from: usize) -> (r: Option<usize>)
    requires
        from <= cs@.len(),
    ensures
        match r {
            Some(x) => from <= x && x + 2 <= cs@.len() && first_break(cs@.skip(from as int)) == Some(x - from),
            None => first_break(cs@.skip(from as int)) is None,
        },
{
    let ghost t = cs@.skip(from as int);
    let n = cs.len();
    if n - from < 2 {
        proof {
            assert forall|j: int| 0 <= j < 0 && j + 1 < t.len() implies !(#[trigger] t[j] == '\n' && t[j + 1] == '\n') by {}
            lemma_first_break(t, if t.len() > 0 { t.len() - 1 } else { 0 });
        }
        return None;
    }
    let last = n - 2;
    let mut i: usize = from;
    while i <= last
        invariant
            from <= i <= last + 1,
            last + 2 == n,
            n == cs@.len(),
            t == cs@.skip(from as int),
            forall|j: int| 0 <= j < i - from && j + 1 < t.len() ==> !(#[trigger] t[j] == '\n' && t[j + 1] == '\n'),
        decreases last + 1 - i,
    {
        if cs[i] == '\n' && cs[i + 1] == '\n' {
            proof {
                assert(t[i - from] == cs@[i as int] && t[i - from + 1] == cs@[i + 1]);
                lemma_first_break(t, i - from);
            }
            return Some(i);
        }
        proof { assert(t[i - from] == cs@[i as int] && t[i - from + 1] == cs@[i + 1]); }
        i = i + 1;
    }
    proof {
        assert forall|j: int| 0 <= j < t.len() - 1 && j + 1 < t.len() implies !(#[trigger] t[j] == '\n' && t[j + 1] == '\n') by {
            assert(j < i - from);
        }
        lemma_first_break(t, t.len() - 1);
    }
    None
}

/// Takes the complete frames out of `buffer`; see `sse_drain`.
pub fn drain_sse_frames(buffer: &mut String) -> (r: Vec<String>)
    ensures
        strs_view(r@) == sse_drain(old(buffer)@).0,
        final(buffer)@ == sse_drain(old(buffer)@).1,
{
    let cs = chars_of(buffer.as_str());
    let ghost s0 = cs@;
    let mut frames: Vec<String> = Vec::new();
    let mut pos: usize = 0;
    let n = cs.len();
    proof { assert(s0.skip(0) =~= s0); }
    loop
        invariant
            pos <= cs@.len(),
            n == cs@.len(),
            s0 == cs@,
            s0 == old(buffer)@,
            ({
                let tail = sse_drain(s0.skip(pos as int));
                sse_drain(s0) == (strs_view(frames@) + tail.0, tail.1)
            }),
        decreases cs@.len() - pos,
    {
        match find_break(&cs, pos) {
            None => {
                let rest = string_of(&cs, pos, cs.len());
                proof {
                    assert(rest@ =~= s0.skip(pos as int));
                    assert(strs_view(frames@) + Seq::<Seq<char>>::empty() =~= strs_view(frames@));
                }
                *buffer = rest;
                return frames;
            },
            Some(i) => {
                let ghost t = s0.skip(pos as int);
                let frame = string_of(&cs, pos, i);
                proof {
                    assert(frame@ =~= t.take(i - pos));
                    assert(t.skip(i - pos + 2) =~= s0.skip(i + 2));
                }
                let ghost before = strs_view(frames@);
                if !blank(frame.as_str()) {
                    frames.push(frame);
                    proof {
                        assert(strs_view(frames@) =~= before.push(frames@.last()@));
                        let next = sse_drain(s0.skip(i + 2));
                        assert(before + (seq![frames@.last()@] + next.0) =~= strs_view(frames@) + next.0);
                    }
                }
                proof { assert(i + 2 <= n); }
                pos = i + 2;
            },
        }
    }
}

/// The data of a frame: the text after `data:` on each line that has it,
/// leading spaces dropped, joined by newlines.
pub open spec fn frame_data(frame: Seq<char>) -> Seq<char> {
    join(data_lines(text_lines(frame)), "\n"@)
}

pub open spec fn data_lines(lines: Seq<Seq<char>>) -> Seq<Seq<char>>
    decreases lines.len(),
{
    if lines.len() == 0 {
        Seq::empty()
    } else {
        let prev = data_lines(lines.drop_last());
        let l = lines.last();
        if starts_with(l, "data:"@) { prev.push(trim_start(l.skip(5))) } else { prev }
    }
}

/// `s` without leading white space.
pub open spec fn trim_start(s: Seq<char>) -> Seq<char> {
    s.skip(crate::text::leading_ws(s))
}

/// The payload of a frame, or none when it is empty or the end marker
/// `[DONE]`.
pub open spec fn frame_payload(frame: Seq<char>) -> Option<Seq<char>> {
    let d = frame_data(frame);
    if d.len() == 0 || d == "[DONE]"@ { None } else { Some(d) }
}

fn trim_start_str(s: &str) -> (r: String)
    ensures
        r@ == trim_start(s@),
{
    let cs = chars_of(s);
    let mut a: usize = 0;
    while a < cs.len() && crate::text::char_is_whitespace(cs[a])
        invariant
            a <= cs@.len(),
            cs@ == s@,
            forall|j: int| 0 <= j < a ==> crate::text::is_whitespace(#[trigger] cs@[j]),
        decreases cs.len() - a,
    {
        a = a + 1;
    }
    proof { crate::text::lemma_leading_ws(s@, a as int); }
    string_of(&cs, a, cs.len())
}

fn starts_with_string(s: &String, p: &str) -> (r: bool)
    ensures
        r == starts_with(s@, p@),
{
    let sc = chars_of(s.as_str());
    let pc = chars_of(p);
    if pc.len() > sc.len() {
        return false;
    }
    let mut i: usize = 0;
    while i < pc.len()
        invariant
            pc@.len() <= sc@.len(),
            i <= pc@.len(),
            sc@ == s@,
            pc@ == p@,
            forall|j: int| 0 <= j < i ==> #[trigger] sc@[j] == pc@[j],
        decreases pc.len() - i,
    {
        if sc[i] != pc[i] {
            proof { assert(s@.take(p@.len() as int)[i as int] != p@[i as int]); }
            return false;
        }
        i = i + 1;
    }
    proof { assert(s@.take(p@.len() as int) =~= p@); }
    true
}

/// The payload of a frame; see `frame_payload`.
pub fn sse_frame_payload(frame: &str) -> (r: Option<String>)
    ensures
        crate::message::opt_str(r) == frame_payload(frame@),
{
    let lines = lines_of(frame);
    let ghost lv = strs_view(lines@);
    let mut data: Vec<String> = Vec::new();
    let mut i: usize = 0;
    proof { assert(strs_view(data@) =~= data_lines(lv.take(0))); }
    while i < lines.len()
        invariant
            i <= lines@.len(),
            lv == strs_view(lines@),
            strs_view(data@) == data_lines(lv.take(i as int)),
        decreases lines.len() - i,
    {
        proof {
            assert(lv.take(i as int + 1).drop_last() =~= lv.take(i as int));
            assert(lv.take(i as int + 1).last() == lines@[i as int]@);
        }
        if starts_with_string(&lines[i], "data:") {
            proof { reveal_strlit("data:"); }
            let cs = chars_of(lines[i].as_str());
            let after = string_of(&cs, 5, cs.len());
            proof { assert(after@ =~= lines@[i as int]@.skip(5)); }
            let t = trim_start_str(after.as_str());
            let ghost before = data@;
            data.push(t);
            proof { assert(strs_view(data@) =~= strs_view(before).push(data@.last()@)); }
        }
        i = i + 1;
    }
    proof { assert(lv.take(lv.len() as int) =~= lv); }
    let payload = join_strings(&data, "\n");
    let is_done = payload == String::from_str("[DONE]");
    if payload.as_str().is_empty() || is_done {
        None
    } else {
        Some(payload)
    }
}

/// The data of one stream line: what follows `data: ` on a trimmed line,
/// none for an empty line, a line without it, or the end marker.
pub open spec fn line_data(line: Seq<char>) -> Option<Seq<char>> {
    let t = crate::text::trim(line);
    if t.len() == 0 || t == "data: [DONE]"@ {
        None
    } else if starts_with(t, "data: "@) {
        Some(t.skip(6))
    } else {
        None
    }
}

/// The data of one stream line; see `line_data`. The caller parses it as JSON.
pub fn sse_line_data(line: &str) -> (r: Option<String>)
    ensures
        crate::message::opt_str(r) == line_data(line@),
{
    let t = trim_str(line);
    if t.as_str().is_empty() || t == String::from_str("data: [DONE]") {
        return None;
    }
    if starts_with_string(&t, "data: ") {
        proof { reveal_strlit("data: "); }
        let cs = chars_of(t.as_str());
        let rest = string_of(&cs, 6, cs.len());
        proof { assert(rest@ =~= t@.skip(6)); }
        Some(rest)
    } else {
        None
    }
}


// ---------------------------------------------------------------------------
// Error replies of an API
// ---------------------------------------------------------------------------

/// `v[key]` as serde_json indexes: the member of an object, null otherwise.
pub open spec fn index_json(v: JsonView, key: Seq<char>) -> JsonView {
    match v {
        JsonView::Object(ms) => match obj_get(ms, key) {
            Some(x) => x,
            None => JsonView::Null,
        },
        _ => JsonView::Null,
    }
}

/// A number as an `i64`, when it is an integer that fits.
pub open spec fn json_as_i64(v: JsonView) -> Option<i64> {
    match v {
        JsonView::Number(NumberView::PosInt(n)) => if n <= i64::MAX { Some(n as i64) } else { None },
        JsonView::Number(NumberView::NegInt(n)) => Some(n),
        _ => None,
    }
}

/// The number of bytes of a character in UTF-8.
pub open spec fn utf8_width(c: char) -> nat {
    if (c as u32) < 0x80 {
        1
    } else if (c as u32) < 0x800 {
        2
    } else if (c as u32) < 0x10000 {
        3
    } else {
        4
    }
}

/// The number of bytes of a text in UTF-8.
pub open spec fn utf8_len(s: Seq<char>) -> nat
    decreases s.len(),
{
    if s.len() == 0 {
        0
    } else {
        utf8_len(s.drop_last()) + utf8_width(s.last())
    }
}

/// The code and the message of an API's error reply. A reply that is JSON
/// gives its `error.code`, or else the byte length of its `error.type`, or
/// else 0, cut to 16 bits; and its `error.message`, or else `error` itself
/// when that is a string, or else the whole body. Any other reply gives the
/// HTTP status and the body.
pub open spec fn api_error(parsed: Option<JsonView>, body: Seq<char>, status: u16) -> (u16, Seq<char>) {
    match parsed {
        Some(v) => {
            let err = index_json(v, "error"@);
            let code: i64 = match json_as_i64(index_json(err, "code"@)) {
                Some(c) => c,
                None => match index_json(err, "type"@) {
                    JsonView::Str(t) => utf8_len(t) as i64,
                    _ => 0,
                },
            };
            let message = match index_json(err, "message"@) {
                JsonView::Str(m) => m,
                _ => match err {
                    JsonView::Str(m) => m,
                    _ => body,
                },
            };
            (code as u16, message)
        },
        None => (status, body),
    }
}

fn index_value<'a>(v: &'a JsonValue, key: &str) -> (r: Option<&'a JsonValue>)
    ensures
        match r {
            Some(x) => index_json(v@, key@) == x@,
            None => index_json(v@, key@) == JsonView::Null,
        },
{
    match v {
        JsonValue::Object(ms) => match find_member(ms, key) {
            Some(i) => Some(&ms[i].1),
            None => None,
        },
        _ => None,
    }
}

fn utf8_length(s: &str) -> (r: usize)
    requires
        utf8_len(s@) <= usize::MAX,
    ensures
        r == utf8_len(s@),
{
    let cs = chars_of(s);
    let mut n: usize = 0;
    let mut i: usize = 0;
    while i < cs.len()
        invariant
            i <= cs@.len(),
            cs@ == s@,
            utf8_len(s@) <= usize::MAX,
            n == utf8_len(cs@.take(i as int)),
        decreases cs@.len() - i,
    {
        let c = cs[i];
        let code = c as u32;
        let w: usize = if code < 0x80 { 1 } else if code < 0x800 { 2 } else if code < 0x10000 { 3 } else { 4 };
        proof {
            assert(cs@.take(i + 1).drop_last() =~= cs@.take(i as int));
            assert(cs@.take(i + 1).last() == c);
            assert(w == utf8_width(c));
            assert(utf8_len(cs@.take(i + 1)) == n + w);
            lemma_utf8_len_prefix(cs@, i + 1);
        }
        n = n + w;
        i = i + 1;
    }
    proof { assert(cs@.take(cs@.len() as int) =~= cs@); }
    n
}

proof fn lemma_utf8_len_prefix(s: Seq<char>, k: int)
    requires
        0 <= k <= s.len(),
    ensures
        utf8_len(s.take(k)) <= utf8_len(s),
    decreases s.len() - k,
{
    if k < s.len() {
        lemma_utf8_len_prefix(s, k + 1);
        assert(s.take(k + 1).drop_last() =~= s.take(k));
    } else {
        assert(s.take(k) =~= s);
    }
}

/// The code and the message of an API's error reply; see `api_error`. The
/// caller parses the body as JSON and hands over what it got.
pub fn api_error_parts(parsed: Option<JsonValue>, body: &str, status: u16) -> (r: (u16, String))
    requires
        parsed matches Some(v) ==> (index_json(index_json(v@, "error"@), "type"@) matches JsonView::Str(t)
            ==> utf8_len(t) <= i64::MAX && utf8_len(t) <= usize::MAX),
    ensures
        (r.0, r.1@) == api_error(match parsed { Some(v) => Some(v@), None => None }, body@, status),
{
    match parsed {
        None => (status, String::from_str(body)),
        Some(v) => {
            let err = index_value(&v, "error");
            let null = JsonValue::Null;
            let err: &JsonValue = match err {
                Some(e) => e,
                None => &null,
            };
            let code: i64 = match index_value(err, "code") {
                Some(JsonValue::Number(JsonNumber::PosInt(n))) if *n <= i64::MAX as u64 => *n as i64,
                Some(JsonValue::Number(JsonNumber::NegInt(n))) => *n,
                _ => match index_value(err, "type") {
                    Some(JsonValue::Str(t)) => utf8_length(t.as_str()) as i64,
                    _ => 0,
                },
            };
            let message = match index_value(err, "message") {
                Some(JsonValue::Str(m)) => m.clone(),
                _ => match err {
                    JsonValue::Str(m) => m.clone(),
                    _ => String::from_str(body),
                },
            };
            (code as u16, message)
        },
    }
}

} // verus!
