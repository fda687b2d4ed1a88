use vstd::prelude::*;

use crate::message::{call_name, calls_view, content_of, Message, MessageView, ToolCallView};
use crate::text::{blank, chars_of, concat3, is_blank, join, join_strings, split_newlines, split_on_newlines, string_of, strs_view, trim, trim_str};

verus! {

// ---------------------------------------------------------------------------
// Messages as Markdown
// ---------------------------------------------------------------------------

/// A bullet per tool call: its name in bold, its id as code.
pub open spec fn call_list_md(cs: Seq<ToolCallView>) -> Seq<char>
    decreases cs.len(),
{
    if cs.len() == 0 {
        Seq::empty()
    } else {
        call_list_md(cs.drop_last()) + "- **"@ + call_name(cs.last()) + "** (`"@ + cs.last().id + "`)\n"@
    }
}

/// A message as a Markdown section: a heading by role, a blank line, the
/// text; an assistant's tool calls listed under their own heading.
pub open spec fn message_md(m: MessageView) -> Seq<char> {
    match m {
        MessageView::System { content } => "## 🤖 System\n\n"@ + content + "\n"@,
        MessageView::User { content } => "## 👤 User\n\n"@ + content + "\n"@,
        MessageView::Assistant { content, tool_calls, .. } => "## 🤖 Assistant\n\n"@ + content + "\n"@ + match tool_calls {
            Some(cs) => if cs.len() > 0 { "\n### Tool Calls\n\n"@ + call_list_md(cs) } else { Seq::empty() },
            None => Seq::empty(),
        },
        MessageView::Tool { tool_call_id, content } => "## 🔧 Tool Result (`"@ + tool_call_id + "`)\n\n"@ + content + "\n"@,
    }
}

/// A call's bullet in a transcript: its name in bold, its id as code, and a
/// line break.
pub open spec fn call_bullet(c: ToolCallView) -> Seq<char> {
    "- **"@ + call_name(c) + "** (`"@ + c.id + "`)\n"@
}

/// The number of line breaks in `s`.
pub open spec fn line_count(s: Seq<char>) -> nat
    decreases s.len(),
{
    if s.len() == 0 {
        0
    } else {
        line_count(s.drop_last()) + if s.last() == '\n' { 1nat } else { 0nat }
    }
}

proof fn lemma_line_count_concat(a: Seq<char>, b: Seq<char>)
    ensures
        line_count(a + b) == line_count(a) + line_count(b),
    decreases b.len(),
{
    if b.len() == 0 {
        assert(a + b =~= a);
    } else {
        assert((a + b).drop_last() =~= a + b.drop_last());
        assert((a + b).last() == b.last());
        lemma_line_count_concat(a, b.drop_last());
    }
}

proof fn lemma_call_list_contains(cs: Seq<ToolCallView>, i: int)
    requires
        0 <= i < cs.len(),
    ensures
        contains_text(call_list_md(cs), call_bullet(cs[i])),
    decreases cs.len(),
{
    let d = cs.drop_last();
    assert(call_list_md(cs) =~= call_list_md(d) + call_bullet(cs.last()));
    if i == cs.len() - 1 {
        lemma_contains_self(call_bullet(cs.last()));
    } else {
        lemma_call_list_contains(d, i);
        assert(d[i] == cs[i]);
    }
    lemma_contains_concat(call_list_md(d), call_bullet(cs.last()), call_bullet(cs[i]));
}

proof fn lemma_call_list_lines(cs: Seq<ToolCallView>)
    requires
        forall|i: int| 0 <= i < cs.len() ==> line_count(call_name(#[trigger] cs[i])) == 0 && line_count(cs[i].id) == 0,
    ensures
        line_count(call_list_md(cs)) == cs.len(),
    decreases cs.len(),
{
    if cs.len() > 0 {
        let d = cs.drop_last();
        assert forall|i: int| 0 <= i < d.len() implies line_count(call_name(#[trigger] d[i])) == 0 && line_count(d[i].id) == 0 by {
            assert(d[i] == cs[i]);
        }
        lemma_call_list_lines(d);
        let c = cs.last();
        assert(c == cs[cs.len() - 1]);
        reveal_strlit("- **");
        reveal_strlit("** (`");
        reveal_strlit("`)\n");
        reveal_with_fuel(line_count, 6);
        assert(line_count("- **"@) == 0);
        assert(line_count("** (`"@) == 0);
        assert(line_count("`)\n"@) == 1);
        lemma_line_count_concat("- **"@, call_name(c));
        lemma_line_count_concat("- **"@ + call_name(c), "** (`"@);
        lemma_line_count_concat("- **"@ + call_name(c) + "** (`"@, c.id);
        lemma_line_count_concat("- **"@ + call_name(c) + "** (`"@ + c.id, "`)\n"@);
        assert(call_list_md(cs) =~= call_list_md(d) + call_bullet(c));
        lemma_line_count_concat(call_list_md(d), call_bullet(c));
    } else {
        assert(line_count(call_list_md(cs)) == 0);
    }
}

/// The bullet list of calls is made call by call: the list of one call is its
/// bullet, and the list of two runs of calls is the first run's list followed
/// by the second's.
pub proof fn law_call_list_by_parts(a: Seq<ToolCallView>, b: Seq<ToolCallView>, c: ToolCallView)
    ensures
        call_list_md(seq![c]) == call_bullet(c),
        call_list_md(a + b) == call_list_md(a) + call_list_md(b),
    decreases b.len(),
{
    assert(seq![c].drop_last() =~= Seq::<ToolCallView>::empty());
    assert(seq![c].last() == c);
    assert(call_list_md(seq![c].drop_last()) == Seq::<char>::empty());
    assert(call_list_md(seq![c]) =~= call_bullet(c));
    if b.len() == 0 {
        assert(a + b =~= a);
        assert(call_list_md(b) == Seq::<char>::empty());
        assert(call_list_md(a) + call_list_md(b) =~= call_list_md(a));
    } else {
        law_call_list_by_parts(a, b.drop_last(), c);
        assert((a + b).drop_last() =~= a + b.drop_last());
        assert((a + b).last() == b.last());
        assert(call_list_md(a + b) =~= call_list_md(a + b.drop_last()) + call_bullet(b.last()));
        assert(call_list_md(b) =~= call_list_md(b.drop_last()) + call_bullet(b.last()));
        assert(call_list_md(a + b) =~= call_list_md(a) + call_list_md(b));
    }
}

/// An assistant's section lists every one of its tool calls as a bullet,
/// and, when names and ids hold no line break, the list has exactly one line
/// per call.
pub proof fn law_markdown_lists_every_call(content: Seq<char>, reasoning: Option<Seq<char>>, cs: Seq<ToolCallView>)
    requires
        cs.len() > 0,
    ensures
        forall|i: int| 0 <= i < cs.len() ==> contains_text(
            message_md(MessageView::Assistant { content, reasoning_content: reasoning, tool_calls: Some(cs) }),
            call_bullet(#[trigger] cs[i]),
        ),
        (forall|i: int| 0 <= i < cs.len() ==> line_count(call_name(#[trigger] cs[i])) == 0 && line_count(cs[i].id) == 0)
            ==> line_count(call_list_md(cs)) == cs.len(),
{
    let m = MessageView::Assistant { content, reasoning_content: reasoning, tool_calls: Some(cs) };
    let head = "## 🤖 Assistant\n\n"@ + content + "\n"@;
    let tail = "\n### Tool Calls\n\n"@ + call_list_md(cs);
    assert(message_md(m) == head + tail);
    assert forall|i: int| 0 <= i < cs.len() implies contains_text(message_md(m), call_bullet(#[trigger] cs[i])) by {
        lemma_call_list_contains(cs, i);
        lemma_contains_concat("\n### Tool Calls\n\n"@, call_list_md(cs), call_bullet(cs[i]));
        lemma_contains_concat(head, tail, call_bullet(cs[i]));
    }
    if forall|i: int| 0 <= i < cs.len() ==> line_count(call_name(#[trigger] cs[i])) == 0 && line_count(cs[i].id) == 0 {
        lemma_call_list_lines(cs);
    }
}

/// `msg` as a Markdown section; see `message_md`.
pub fn message_to_markdown(msg: &Message) -> (r: String)
    ensures
        r@ == message_md(msg@),
{
    match msg {
        Message::System { content } => concat3("## 🤖 System\n\n", content.as_str(), "\n"),
        Message::User { content } => concat3("## 👤 User\n\n", content.as_str(), "\n"),
        Message::Assistant { content, tool_calls, .. } => {
            let mut md = concat3("## 🤖 Assistant\n\n", content.as_str(), "\n");
            let ghost head = md@;
            match tool_calls {
                Some(calls) => {
                    if calls.len() > 0 {
                        md.append("\n### Tool Calls\n\n");
                        let ghost cv = calls_view(calls@);
                        let ghost base = md@;
                        let mut i: usize = 0;
                        proof { assert(call_list_md(cv.take(0)) =~= Seq::<char>::empty()); assert(md@ =~= base + call_list_md(cv.take(0))); }
                        while i < calls.len()
                            invariant
                                i <= calls@.len(),
                                cv == calls_view(calls@),
                                md@ == base + call_list_md(cv.take(i as int)),
                            decreases calls@.len() - i,
                        {
                            proof {
                                assert(cv.take(i as int + 1).drop_last() =~= cv.take(i as int));
                                assert(cv.take(i as int + 1).last() == calls@[i as int]@);
                            }
                            let name = calls[i].get_name();
                            md.append("- **");
                            md.append(name.as_str());
                            md.append("** (`");
                            md.append(calls[i].id.as_str());
                            md.append("`)\n");
                            i = i + 1;
                        }
                        proof { assert(cv.take(cv.len() as int) =~= cv); }
                    }
                },
                None => {},
            }
            md
        },
        Message::Tool { tool_call_id, content } => {
            let mut md = concat3("## 🔧 Tool Result (`", tool_call_id.as_str(), "`)\n\n");
            md.append(content.as_str());
            md.append("\n");
            md
        },
    }
}

// ---------------------------------------------------------------------------
// Reading a section back
// ---------------------------------------------------------------------------

/// The position of the first `c` in `s`.
pub open spec fn first_index(s: Seq<char>, c: char) -> Option<int>
    decreases s.len(),
{
    if s.len() == 0 {
        None
    } else {
        match first_index(s.drop_last(), c) {
            Some(i) => Some(i),
            None => if s.last() == c { Some(s.len() - 1) } else { None },
        }
    }
}

proof fn lemma_first_index(s: Seq<char>, c: char, i: int)
    requires
        0 <= i <= s.len(),
        forall|j: int| 0 <= j < i ==> #[trigger] s[j] != c,
        i < s.len() ==> s[i] == c,
    ensures
        first_index(s, c) == if i < s.len() { Some(i) } else { None::<int> },
    decreases s.len(),
{
    if s.len() > 0 {
        if i < s.len() - 1 {
            lemma_first_index(s.drop_last(), c, i);
        } else {
            lemma_first_index(s.drop_last(), c, s.len() - 1);
        }
    }
}

fn find_char(cs: &Vec<char>, from: usize, c: char) -> (r: Option<usize>)
    requires
        from <= cs@.len(),
    ensures
        match r {
            Some(x) => from <= x < cs@.len() && first_index(cs@.skip(from as int), c) == Some(x - from),
            None => first_index(cs@.skip(from as int), c) is None,
        },
{
    let ghost t = cs@.skip(from as int);
    let mut i: usize = from;
    while i < cs.len()
        invariant
            from <= i <= cs@.len(),
            t == cs@.skip(from as int),
            forall|j: int| 0 <= j < i - from ==> #[trigger] t[j] != c,
        decreases cs.len() - i,
    {
        if cs[i] == c {
            proof {
                assert(t[i - from] == cs@[i as int]);
                lemma_first_index(t, c, i - from);
            }
            return Some(i);
        }
        proof { assert(t[i - from] == cs@[i as int]); }
        i = i + 1;
    }
    proof { lemma_first_index(t, c, t.len() as int); }
    None
}

/// The text between the first two backquotes of a heading.
pub open spec fn tool_call_id_of(header: Seq<char>) -> Option<Seq<char>> {
    match first_index(header, '`') {
        Some(a) => match first_index(header.skip(a + 1), '`') {
            Some(b) => Some(header.subrange(a + 1, a + 1 + b)),
            None => None,
        },
        None => None,
    }
}

/// The id between the first two backquotes of `header`; see `tool_call_id_of`.
pub fn extract_tool_call_id(header: &str) -> (r: Option<String>)
    ensures
        crate::message::opt_str(r) == tool_call_id_of(header@),
{
    let cs = chars_of(header);
    proof { assert(cs@.skip(0) =~= cs@); }
    let start = match find_char(&cs, 0, '`') {
        Some(a) => a,
        None => {
            return None;
        },
    };
    let len = cs.len();
    proof {
        assert(start < len);
        assert(first_index(header@, '`') == Some(start as int));
    }
    let next = start + 1;
    let end = match find_char(&cs, next, '`') {
        Some(b) => b,
        None => {
            proof { assert(first_index(header@.skip(start + 1), '`') is None); }
            return None;
        },
    };
    proof {
        let b = first_index(header@.skip(start + 1), '`');
        assert(b == Some(end - next));
        assert(tool_call_id_of(header@) == Some(header@.subrange(start + 1, end as int)));
    }
    Some(string_of(&cs, next, end))
}

/// The lines of `s` as `str::lines` gives them: split at newlines, a
/// carriage return before a newline dropped, and no empty last line.
pub open spec fn text_lines(s: Seq<char>) -> Seq<Seq<char>> {
    let pieces = split_newlines(s);
    let kept = if pieces.last().len() == 0 { pieces.drop_last() } else { pieces };
    kept.map_values(|p: Seq<char>| if p.len() > 0 && p.last() == '\r' { p.drop_last() } else { p })
}

/// The lines of `s`; see `text_lines`.
pub fn lines_of(s: &str) -> (r: Vec<String>)
    ensures
        strs_view(r@) == text_lines(s@),
{
    let pieces = split_on_newlines(s);
    let ghost pv = strs_view(pieces@);
    proof { crate::text::lemma_split_newlines_len(s@); }
    let n = pieces.len();
    let last_empty = pieces[n - 1].as_str().is_empty();
    let keep = if last_empty { n - 1 } else { n };
    let mut out: Vec<String> = Vec::new();
    let mut i: usize = 0;
    while i < keep
        invariant
            keep <= n,
            n == pieces@.len(),
            pv == strs_view(pieces@),
            i <= keep,
            out@.len() == i,
            forall|j: int| 0 <= j < i ==> (#[trigger] out@[j])@ == (if pv[j].len() > 0 && pv[j].last() == '\r' { pv[j].drop_last() } else { pv[j] }),
        decreases keep - i,
    {
        let cs = chars_of(pieces[i].as_str());
        let line = if cs.len() > 0 && cs[cs.len() - 1] == '\r' {
            string_of(&cs, 0, cs.len() - 1)
        } else {
            pieces[i].clone()
        };
        proof {
            assert(pv[i as int] == pieces@[i as int]@);
            if cs@.len() > 0 && cs@[cs@.len() - 1] == '\r' {
                assert(cs@.subrange(0, cs@.len() - 1) =~= pv[i as int].drop_last());
            }
        }
        out.push(line);
        i = i + 1;
    }
    proof {
        let kept = if pv.last().len() == 0 { pv.drop_last() } else { pv };
        assert(pv.last() == pieces@[n - 1]@);
        assert(kept.len() == keep);
        assert(strs_view(out@) =~= text_lines(s@));
    }
    out
}

/// Whether `s` begins with `p`.
pub open spec fn starts_with(s: Seq<char>, p: Seq<char>) -> bool {
    p.len() <= s.len() && s.take(p.len() as int) == p
}

/// Whether `p` occurs in `s`.
pub open spec fn contains_text(s: Seq<char>, p: Seq<char>) -> bool {
    exists|i: int| 0 <= i && i + p.len() <= s.len() && #[trigger] s.subrange(i, i + p.len()) == p
}

/// Text found in `a` is found in `a` followed by `b`, and text found in `b`
/// is found in `a` followed by `b`.
pub proof fn lemma_contains_concat(a: Seq<char>, b: Seq<char>, p: Seq<char>)
    ensures
        contains_text(a, p) ==> contains_text(a + b, p),
        contains_text(b, p) ==> contains_text(a + b, p),
{
    if contains_text(a, p) {
        let i = choose|i: int| 0 <= i && i + p.len() <= a.len() && #[trigger] a.subrange(i, i + p.len()) == p;
        assert((a + b).subrange(i, i + p.len()) =~= a.subrange(i, i + p.len()));
    }
    if contains_text(b, p) {
        let i = choose|i: int| 0 <= i && i + p.len() <= b.len() && #[trigger] b.subrange(i, i + p.len()) == p;
        assert((a + b).subrange(a.len() + i, a.len() + i + p.len()) =~= b.subrange(i, i + p.len()));
    }
}

/// Every text is found in itself.
pub proof fn lemma_contains_self(p: Seq<char>)
    ensures
        contains_text(p, p),
{
    assert(p.subrange(0int, 0int + p.len()) =~= p);
}

/// Each part of a joined text is found in it.
pub proof fn lemma_join_contains(parts: Seq<Seq<char>>, sep: Seq<char>, k: int)
    requires
        0 <= k < parts.len(),
    ensures
        contains_text(join(parts, sep), parts[k]),
    decreases parts.len(),
{
    if parts.len() == 1 {
        lemma_contains_self(parts[0]);
    } else if k == parts.len() - 1 {
        lemma_contains_self(parts.last());
        lemma_contains_concat(join(parts.drop_last(), sep) + sep, parts.last(), parts[k]);
    } else {
        lemma_join_contains(parts.drop_last(), sep, k);
        assert(parts.drop_last()[k] == parts[k]);
        lemma_contains_concat(join(parts.drop_last(), sep), sep, parts[k]);
        lemma_contains_concat(join(parts.drop_last(), sep) + sep, parts.last(), parts[k]);
    }
}

pub(crate) fn starts_with_str(s: &str, p: &str) -> (r: bool)
    ensures
        r == starts_with(s@, p@),
{
    let sc = chars_of(s);
    let pc = chars_of(p);
    if pc.len() > sc.len() {
        return false;
    }
    let mut i: usize = 0;
    while i < pc.len()
        invariant
            pc@.len() <= sc@.len(),
            i <= pc@.len(),
            sc@ == s@,
            pc@ == p@,
            forall|j: int| 0 <= j < i ==> #[trigger] sc@[j] == pc@[j],
        decreases pc.len() - i,
    {
        if sc[i] != pc[i] {
            proof { assert(s@.take(p@.len() as int)[i as int] != p@[i as int]); }
            return false;
        }
        i = i + 1;
    }
    proof { assert(s@.take(p@.len() as int) =~= p@); }
    true
}

fn contains_str(s: &str, p: &str) -> (r: bool)
    ensures
        r == contains_text(s@, p@),
{
    let sc = chars_of(s);
    let pc = chars_of(p);
    if pc.len() > sc.len() {
        return false;
    }
    let slen = sc.len();
    let last = slen - pc.len();
    let mut i: usize = 0;
    while i <= last
        invariant
            pc@.len() <= sc@.len(),
            last == sc@.len() - pc@.len(),
            slen == sc@.len(),
            i <= last + 1,
            sc@ == s@,
            pc@ == p@,
            forall|k: int| 0 <= k < i ==> #[trigger] s@.subrange(k, k + p@.len()) != p@,
        decreases last + 1 - i,
    {
        let mut j: usize = 0;
        while j < pc.len() && sc[i + j] == pc[j]
            invariant
                i <= last,
                last == sc@.len() - pc@.len(),
                slen == sc@.len(),
                i + pc@.len() <= slen,
                j <= pc@.len(),
                sc@ == s@,
                pc@ == p@,
                forall|m: int| 0 <= m < j ==> #[trigger] sc@[i + m] == pc@[m],
            decreases pc.len() - j,
        {
            j = j + 1;
        }
        if j == pc.len() {
            proof {
                assert forall|m: int| 0 <= m < p@.len() implies #[trigger] s@.subrange(i as int, i + p@.len())[m] == p@[m] by {
                    assert(sc@[i + m] == pc@[m]);
                }
                assert(s@.subrange(i as int, i + p@.len()) =~= p@);
            }
            return true;
        }
        proof { assert(s@.subrange(i as int, i + p@.len())[j as int] == sc@[i + j]); }
        if i == last {
            proof {
                assert forall|k: int| 0 <= k && k + p@.len() <= s@.len() implies #[trigger] s@.subrange(k, k + p@.len()) != p@ by {
                    assert(k <= i);
                }
            }
            return false;
        }
        i = i + 1;
    }
    false
}

/// The position of the first line that starts a section (`## `).
pub open spec fn header_index(lines: Seq<Seq<char>>) -> Option<int>
    decreases lines.len(),
{
    if lines.len() == 0 {
        None
    } else {
        match header_index(lines.drop_last()) {
            Some(i) => Some(i),
            None => if starts_with(lines.last(), "## "@) { Some(lines.len() - 1) } else { None },
        }
    }
}

/// The position of the first blank line at or after `from`.
pub open spec fn blank_index(lines: Seq<Seq<char>>, from: int) -> Option<int>
    decreases lines.len() - from,
{
    if from < 0 || from >= lines.len() {
        None
    } else if is_blank(lines[from]) {
        Some(from)
    } else {
        blank_index(lines, from + 1)
    }
}

/// The lines from `from` up to the first that starts a subsection or a
/// comment.
pub open spec fn body_lines(lines: Seq<Seq<char>>, from: int) -> Seq<Seq<char>>
    decreases lines.len() - from,
{
    if from < 0 || from >= lines.len() || starts_with(lines[from], "### "@) || starts_with(lines[from], "<!-- "@) {
        Seq::empty()
    } else {
        seq![lines[from]] + body_lines(lines, from + 1)
    }
}

/// The message a Markdown section holds: its role from the first heading,
/// its text from the first blank line after it up to a subsection or comment,
/// trimmed; a tool result's id between backquotes in the heading.
pub open spec fn section_message(section: Seq<char>) -> Option<MessageView> {
    let lines = text_lines(section);
    match header_index(lines) {
        None => None,
        Some(h) => {
            let header = trim(lines[h]);
            let start = match blank_index(lines, h) { Some(b) => b, None => h + 1 } + 1;
            let content = if start < lines.len() { trim(join(body_lines(lines, start), "\n"@)) } else { Seq::empty() };
            if contains_text(header, "System"@) {
                Some(MessageView::System { content })
            } else if contains_text(header, "User"@) {
                Some(MessageView::User { content })
            } else if contains_text(header, "Assistant"@) {
                Some(MessageView::Assistant { content, reasoning_content: None, tool_calls: None })
            } else if contains_text(header, "Tool"@) {
                Some(MessageView::Tool {
                    tool_call_id: match tool_call_id_of(header) { Some(id) => id, None => Seq::empty() },
                    content,
                })
            } else {
                None
            }
        },
    }
}

proof fn lemma_header_index(lines: Seq<Seq<char>>, i: int)
    requires
        0 <= i <= lines.len(),
        forall|j: int| 0 <= j < i ==> !starts_with(#[trigger] lines[j], "## "@),
        i < lines.len() ==> starts_with(lines[i], "## "@),
    ensures
        header_index(lines) == if i < lines.len() { Some(i) } else { None::<int> },
    decreases lines.len(),
{
    if lines.len() > 0 {
        if i < lines.len() - 1 {
            lemma_header_index(lines.drop_last(), i);
        } else {
            lemma_header_index(lines.drop_last(), lines.len() - 1);
        }
    }
}

/// The message a Markdown section holds; see `section_message`.
pub fn parse_message_from_section(section: &str) -> (r: Option<Message>)
    ensures
        crate::message::opt_message(r) == section_message(section@),
{
    let lines = lines_of(section);
    let ghost lv = strs_view(lines@);
    let n = lines.len();
    let mut h: usize = 0;
    while h < n && !starts_with_str(lines[h].as_str(), "## ")
        invariant
            h <= n,
            n == lines@.len(),
            lv == strs_view(lines@),
            forall|j: int| 0 <= j < h ==> !starts_with(#[trigger] lv[j], "## "@),
        decreases n - h,
    {
        proof { assert(lv[h as int] == lines@[h as int]@); }
        h = h + 1;
    }
    if h == n {
        proof { lemma_header_index(lv, n as int); }
        return None;
    }
    proof {
        assert(lv[h as int] == lines@[h as int]@);
        lemma_header_index(lv, h as int);
    }
    let header = trim_str(lines[h].as_str());
    let mut b: usize = h;
    while b < n && !blank(lines[b].as_str())
        invariant
            h <= b <= n,
            n == lines@.len(),
            lv == strs_view(lines@),
            blank_index(lv, h as int) == blank_index(lv, b as int),
        decreases n - b,
    {
        proof { assert(lv[b as int] == lines@[b as int]@); }
        b = b + 1;
    }
    proof {
        if b < n {
            assert(lv[b as int] == lines@[b as int]@);
        }
    }
    let before_start: usize = if b < n { b } else { h + 1 };
    let content = if before_start < n - 1 {
        let start = before_start + 1;
        let mut e: usize = start;
        while e < n && !starts_with_str(lines[e].as_str(), "### ") && !starts_with_str(lines[e].as_str(), "<!-- ")
            invariant
                start <= e <= n,
                n == lines@.len(),
                lv == strs_view(lines@),
                body_lines(lv, start as int) == lv.subrange(start as int, e as int) + body_lines(lv, e as int),
            decreases n - e,
        {
            proof {
                assert(lv[e as int] == lines@[e as int]@);
                assert(lv.subrange(start as int, e as int + 1) =~= lv.subrange(start as int, e as int) + seq![lv[e as int]]);
            }
            e = e + 1;
        }
        proof {
            if e < n {
                assert(lv[e as int] == lines@[e as int]@);
            }
            assert(body_lines(lv, e as int) =~= Seq::<Seq<char>>::empty());
        }
        let mut body: Vec<String> = Vec::new();
        let mut k: usize = start;
        while k < e
            invariant
                start <= k <= e,
                e <= n,
                n == lines@.len(),
                lv == strs_view(lines@),
                strs_view(body@) == lv.subrange(start as int, k as int),
            decreases e - k,
        {
            let ghost prev = body@;
            body.push(lines[k].clone());
            proof {
                assert(lv[k as int] == lines@[k as int]@);
                assert(strs_view(body@) =~= strs_view(prev).push(lines@[k as int]@));
                assert(strs_view(body@) =~= lv.subrange(start as int, k as int + 1));
            }
            k = k + 1;
        }
        proof { assert(lv.subrange(start as int, e as int) + Seq::<Seq<char>>::empty() =~= lv.subrange(start as int, e as int)); }
        let joined = join_strings(&body, "\n");
        trim_str(joined.as_str())
    } else {
        String::new()
    };
    if contains_str(header.as_str(), "System") {
        Some(Message::System { content })
    } else if contains_str(header.as_str(), "User") {
        Some(Message::User { content })
    } else if contains_str(header.as_str(), "Assistant") {
        Some(Message::Assistant { content, reasoning_content: None, tool_calls: None })
    } else if contains_str(header.as_str(), "Tool") {
        let id = match extract_tool_call_id(header.as_str()) {
            Some(s) => s,
            None => String::new(),
        };
        Some(Message::Tool { tool_call_id: id, content })
    } else {
        None
    }
}


// ---------------------------------------------------------------------------
// Reading back what was written
// ---------------------------------------------------------------------------

pub(crate) proof fn lemma_split_at_newline(x: Seq<char>, y: Seq<char>)
    ensures
        split_newlines(x + seq!['\n'] + y) == split_newlines(x) + split_newlines(y),
    decreases y.len(),
{
    crate::text::lemma_split_newlines_len(x);
    if y.len() == 0 {
        assert(x + seq!['\n'] + y =~= x + seq!['\n']);
        assert((x + seq!['\n']).drop_last() =~= x);
        assert(split_newlines(x).push(Seq::<char>::empty()) =~= split_newlines(x) + split_newlines(y));
    } else {
        let y0 = y.drop_last();
        lemma_split_at_newline(x, y0);
        crate::text::lemma_split_newlines_len(y0);
        let s = x + seq!['\n'] + y;
        assert(s.drop_last() =~= x + seq!['\n'] + y0);
        assert(s.last() == y.last());
        let a = split_newlines(x);
        let b = split_newlines(y0);
        if y.last() == '\n' {
            assert((a + b).push(Seq::<char>::empty()) =~= a + b.push(Seq::<char>::empty()));
        } else {
            assert((a + b).update((a + b).len() - 1, (a + b).last().push(y.last()))
                =~= a + b.update(b.len() - 1, b.last().push(y.last())));
        }
    }
}

pub(crate) proof fn lemma_split_single_line(h: Seq<char>)
    requires
        forall|i: int| 0 <= i < h.len() ==> h[i] != '\n',
    ensures
        split_newlines(h) == seq![h],
    decreases h.len(),
{
    if h.len() == 0 {
        assert(h =~= Seq::<char>::empty());
    } else {
        lemma_split_single_line(h.drop_last());
        assert(h.drop_last().push(h.last()) =~= h);
        assert(h.last() != '\n');
        assert(seq![h.drop_last()].update(0, h.drop_last().push(h.last())) =~= seq![h]);
    }
}

proof fn lemma_join_push_last(p: Seq<Seq<char>>, c: char)
    requires
        p.len() >= 1,
    ensures
        join(p.update(p.len() - 1, p.last().push(c)), seq!['\n']) == join(p, seq!['\n']).push(c),
{
    let q = p.update(p.len() - 1, p.last().push(c));
    if p.len() > 1 {
        assert(q.drop_last() =~= p.drop_last());
        assert(join(p.drop_last(), seq!['\n']) + seq!['\n'] + p.last().push(c)
            =~= (join(p.drop_last(), seq!['\n']) + seq!['\n'] + p.last()).push(c));
    }
}

/// Joining the lines of a text with line breaks gives the text back.
proof fn lemma_join_split(s: Seq<char>)
    ensures
        join(split_newlines(s), seq!['\n']) == s,
    decreases s.len(),
{
    if s.len() == 0 {
        assert(s =~= Seq::<char>::empty());
    } else {
        let p = s.drop_last();
        lemma_join_split(p);
        crate::text::lemma_split_newlines_len(p);
        let ps = split_newlines(p);
        if s.last() == '\n' {
            assert(ps.push(Seq::<char>::empty()).drop_last() =~= ps);
            assert(join(ps, seq!['\n']) + seq!['\n'] + Seq::<char>::empty() =~= s);
        } else {
            lemma_join_push_last(ps, s.last());
            assert(p.push(s.last()) =~= s);
        }
    }
}

/// No carriage return in `c` comes right before a line break.
pub open spec fn no_crlf(c: Seq<char>) -> bool {
    forall|i: int| 0 <= i < c.len() - 1 && #[trigger] c[i] == '\r' ==> c[i + 1] != '\n'
}

/// The pieces of a text between its line breaks: none but the last ends in
/// a carriage return when no carriage return comes before a line break, and
/// the last ends as the text does.
proof fn lemma_split_tails(s: Seq<char>)
    requires
        no_crlf(s),
    ensures
        forall|k: int| 0 <= k < split_newlines(s).len() - 1 && (#[trigger] split_newlines(s)[k]).len() > 0
            ==> split_newlines(s)[k].last() != '\r',
        split_newlines(s).last().len() > 0 ==> split_newlines(s).last().last() == s.last(),
    decreases s.len(),
{
    if s.len() > 0 {
        let p = s.drop_last();
        assert forall|i: int| 0 <= i < p.len() - 1 && #[trigger] p[i] == '\r' implies p[i + 1] != '\n' by {
            assert(s[i] == p[i] && s[i + 1] == p[i + 1]);
        }
        lemma_split_tails(p);
        crate::text::lemma_split_newlines_len(p);
        let ps = split_newlines(p);
        if s.last() == '\n' {
            let q = ps.push(Seq::<char>::empty());
            assert forall|k: int| 0 <= k < q.len() - 1 && (#[trigger] q[k]).len() > 0 implies q[k].last() != '\r' by {
                assert(q[k] == ps[k]);
                if k == ps.len() - 1 {
                    assert(ps.last().last() == p.last());
                    assert(p.last() == s[s.len() - 2]);
                    assert(s[s.len() - 1] == '\n');
                }
            }
        } else {
            let q = ps.update(ps.len() - 1, ps.last().push(s.last()));
            assert forall|k: int| 0 <= k < q.len() - 1 && (#[trigger] q[k]).len() > 0 implies q[k].last() != '\r' by {
                assert(q[k] == ps[k]);
            }
        }
    } else {
        assert(split_newlines(s) =~= seq![Seq::<char>::empty()]);
    }
}

/// The pieces of a text none of whose carriage returns comes before a line
/// break or ends it do not end in one.
pub(crate) proof fn lemma_split_no_cr(s: Seq<char>)
    requires
        no_crlf(s),
        s.len() > 0 ==> s.last() != '\r',
    ensures
        forall|k: int| 0 <= k < split_newlines(s).len() && (#[trigger] split_newlines(s)[k]).len() > 0
            ==> split_newlines(s)[k].last() != '\r',
{
    lemma_split_tails(s);
    crate::text::lemma_split_newlines_len(s);
}

proof fn lemma_body_to_end(lines: Seq<Seq<char>>, from: int)
    requires
        0 <= from <= lines.len(),
        forall|k: int| from <= k < lines.len() ==> !starts_with(#[trigger] lines[k], "### "@) && !starts_with(lines[k], "<!-- "@),
    ensures
        body_lines(lines, from) == lines.subrange(from, lines.len() as int),
    decreases lines.len() - from,
{
    if from < lines.len() {
        lemma_body_to_end(lines, from + 1);
        assert(seq![lines[from]] + lines.subrange(from + 1, lines.len() as int) =~= lines.subrange(from, lines.len() as int));
    } else {
        assert(lines.subrange(from, lines.len() as int) =~= Seq::<Seq<char>>::empty());
    }
}

/// Text that a Markdown section carries through unchanged: trimmed, with no
/// carriage return before a line break, and with no line that opens a
/// subsection or a comment.
pub open spec fn md_safe_text(c: Seq<char>) -> bool {
    &&& trim(c) == c
    &&& no_crlf(c)
    &&& forall|k: int| 0 <= k < split_newlines(c).len() ==> !starts_with(#[trigger] split_newlines(c)[k], "### "@)
        && !starts_with(split_newlines(c)[k], "<!-- "@)
}

/// The lines of a section made of the heading `h`, a blank line and the text
/// `c`: the heading, the blank line, then the lines of `c`.
proof fn lemma_section_lines(h: Seq<char>, c: Seq<char>)
    requires
        forall|i: int| 0 <= i < h.len() ==> h[i] != '\n',
        h.len() > 0 ==> h.last() != '\r',
        no_crlf(c),
        c.len() > 0 ==> c.last() != '\r',
    ensures
        text_lines(h + seq!['\n', '\n'] + c + seq!['\n']) == seq![h, Seq::<char>::empty()] + split_newlines(c),
{
    let e = Seq::<char>::empty();
    let section = h + seq!['\n', '\n'] + c + seq!['\n'];
    let y = e + seq!['\n'] + (c + seq!['\n'] + e);
    assert(section =~= h + seq!['\n'] + y);
    lemma_split_at_newline(h, y);
    lemma_split_at_newline(e, c + seq!['\n'] + e);
    lemma_split_at_newline(c, e);
    lemma_split_single_line(h);
    assert(split_newlines(e) =~= seq![e]);
    let pieces = split_newlines(section);
    assert(pieces =~= seq![h, e] + split_newlines(c) + seq![e]);
    let kept = pieces.drop_last();
    assert(kept =~= seq![h, e] + split_newlines(c));
    lemma_split_no_cr(c);
    let f = |p: Seq<char>| if p.len() > 0 && p.last() == '\r' { p.drop_last() } else { p };
    assert forall|k: int| 0 <= k < kept.len() implies #[trigger] f(kept[k]) == kept[k] by {
        if k >= 2 {
            assert(kept[k] == split_newlines(c)[k - 2]);
        }
    }
    assert(kept.map_values(f) =~= kept);
}

/// The message a section with heading `h` and text `c` holds: its role is
/// the first the heading names.
pub open spec fn heading_message(h: Seq<char>, c: Seq<char>) -> Option<MessageView> {
    if contains_text(h, "System"@) {
        Some(MessageView::System { content: c })
    } else if contains_text(h, "User"@) {
        Some(MessageView::User { content: c })
    } else if contains_text(h, "Assistant"@) {
        Some(MessageView::Assistant { content: c, reasoning_content: None, tool_calls: None })
    } else if contains_text(h, "Tool"@) {
        Some(MessageView::Tool {
            tool_call_id: match tool_call_id_of(h) { Some(id) => id, None => Seq::empty() },
            content: c,
        })
    } else {
        None
    }
}

/// A heading line as sections are written: one line, starting with `## `
/// and ending in a character that is not white space.
pub open spec fn heading_ok(h: Seq<char>) -> bool {
    &&& forall|i: int| 0 <= i < h.len() ==> h[i] != '\n'
    &&& starts_with(h, "## "@)
    &&& !crate::text::is_whitespace(h.last())
}

/// A section whose lines are some lines that open no section, then the
/// heading `h`, a blank line and the lines of safe text `c`, reads back as
/// the message the heading names, with text `c`.
pub(crate) proof fn lemma_lines_read(section: Seq<char>, pre: Seq<Seq<char>>, h: Seq<char>, c: Seq<char>)
    requires
        text_lines(section) == pre + seq![h, Seq::<char>::empty()] + split_newlines(c),
        forall|j: int| 0 <= j < pre.len() ==> !starts_with(#[trigger] pre[j], "## "@),
        heading_ok(h),
        md_safe_text(c),
    ensures
        section_message(section) == heading_message(h, c),
{
    reveal_strlit("## ");
    reveal_strlit("\n");
    let lines = text_lines(section);
    let k = pre.len() as int;
    let e = Seq::<char>::empty();
    crate::text::lemma_split_newlines_len(c);
    assert(lines[k] == h);
    assert(lines[k + 1] == e);
    assert forall|j: int| 0 <= j < k implies !starts_with(#[trigger] lines[j], "## "@) by {
        assert(lines[j] == pre[j]);
    }
    lemma_header_index(lines, k);
    assert(h.take(3)[0] == h[0]);
    assert(h[0] == '#');
    assert(!is_blank(lines[k])) by {
        assert(lines[k][0] == '#');
    }
    assert(blank_index(lines, k + 1) == Some(k + 1));
    assert(blank_index(lines, k) == Some(k + 1));
    assert forall|q: int| k + 2 <= q < lines.len() implies !starts_with(#[trigger] lines[q], "### "@) && !starts_with(lines[q], "<!-- "@) by {
        assert(lines[q] == split_newlines(c)[q - k - 2]);
    }
    lemma_body_to_end(lines, k + 2);
    assert(lines.subrange(k + 2, lines.len() as int) =~= split_newlines(c));
    lemma_join_split(c);
    assert("\n"@ =~= seq!['\n']);
    assert(join(body_lines(lines, k + 2), "\n"@) == c);
    crate::text::lemma_leading_ws(h, 0);
    assert(h.drop_last().len() + 1 == h.len());
    assert(crate::text::trailing_ws(h) == 0);
    assert(h.subrange(0, h.len() as int) =~= h);
    assert(trim(h) == h);
}

/// A section whose lines are some lines that open no section and then the
/// heading `h` reads back as the message the heading names, with no text.
pub(crate) proof fn lemma_heading_only_reads(section: Seq<char>, pre: Seq<Seq<char>>, h: Seq<char>)
    requires
        text_lines(section) == pre + seq![h],
        forall|j: int| 0 <= j < pre.len() ==> !starts_with(#[trigger] pre[j], "## "@),
        heading_ok(h),
    ensures
        section_message(section) == heading_message(h, Seq::<char>::empty()),
{
    reveal_strlit("## ");
    let lines = text_lines(section);
    let k = pre.len() as int;
    assert(lines[k] == h);
    assert forall|j: int| 0 <= j < k implies !starts_with(#[trigger] lines[j], "## "@) by {
        assert(lines[j] == pre[j]);
    }
    lemma_header_index(lines, k);
    assert(h.take(3)[0] == h[0]);
    assert(!is_blank(lines[k])) by {
        assert(lines[k][0] == '#');
    }
    assert(blank_index(lines, k + 1) is None);
    assert(blank_index(lines, k) is None);
    crate::text::lemma_leading_ws(h, 0);
    assert(h.drop_last().len() + 1 == h.len());
    assert(crate::text::trailing_ws(h) == 0);
    assert(h.subrange(0, h.len() as int) =~= h);
    assert(trim(h) == h);
}

/// A section made of a heading `h`, a blank line and safe text `c` reads
/// back as the message the heading names, with text `c`.
proof fn lemma_heading_reads(h: Seq<char>, c: Seq<char>)
    requires
        heading_ok(h),
        md_safe_text(c),
    ensures
        section_message(h + seq!['\n', '\n'] + c + seq!['\n']) == heading_message(h, c),
{
    if c.len() > 0 {
        crate::text::lemma_trimmed_ends(c);
    }
    lemma_section_lines(h, c);
    assert(seq![h, Seq::<char>::empty()] + split_newlines(c) =~= Seq::<Seq<char>>::empty() + seq![h, Seq::<char>::empty()] + split_newlines(c));
    lemma_lines_read(h + seq!['\n', '\n'] + c + seq!['\n'], Seq::<Seq<char>>::empty(), h, c);
}

/// No position of `h` below `n` holds the character `c`, so no text that
/// starts with `c` occurs in `h` before `n`.
proof fn lemma_absent_from(h: Seq<char>, p: Seq<char>, n: int)
    requires
        p.len() > 0,
        0 <= n,
        h.len() < n + p.len(),
        forall|i: int| 0 <= i < n && i < h.len() ==> h[i] != p[0],
    ensures
        !contains_text(h, p),
{
    assert forall|i: int| 0 <= i && i + p.len() <= h.len() implies #[trigger] h.subrange(i, i + p.len()) != p by {
        assert(h.subrange(i, i + p.len())[0] == h[i]);
    }
}

/// `p` does not occur in `pre + id + post` when its first character is in
/// neither `pre` nor `post`, it does not occur in `id`, and no character of
/// it is the first of `post`.
proof fn lemma_absent_around(pre: Seq<char>, id: Seq<char>, post: Seq<char>, p: Seq<char>)
    requires
        p.len() > 0,
        post.len() > 0,
        forall|i: int| 0 <= i < pre.len() ==> pre[i] != p[0],
        forall|i: int| 0 <= i < post.len() ==> post[i] != p[0],
        forall|k: int| 0 <= k < p.len() ==> p[k] != post[0],
        !contains_text(id, p),
    ensures
        !contains_text(pre + id + post, p),
{
    let h = pre + id + post;
    let n: int = (pre.len() + id.len()) as int;
    assert forall|i: int| 0 <= i && i + p.len() <= h.len() implies #[trigger] h.subrange(i, i + p.len()) != p by {
        assert(h.subrange(i, i + p.len())[0] == h[i]);
        if i < pre.len() {
            assert(h[i] == pre[i]);
        } else if i >= n {
            assert(h[i] == post[i - n]);
        } else if i + p.len() <= n {
            let j = i - pre.len();
            assert(h.subrange(i, i + p.len()) =~= id.subrange(j, j + p.len()));
        } else {
            let k = n - i;
            assert(h.subrange(i, i + p.len())[k] == h[n]);
            assert(h[n] == post[0]);
        }
    }
}

/// A tool call id that a Markdown heading carries through unchanged: no
/// backquote, no line break, and none of the words that name another role.
pub open spec fn md_safe_id(id: Seq<char>) -> bool {
    &&& forall|i: int| 0 <= i < id.len() ==> id[i] != '`' && id[i] != '\n'
    &&& !contains_text(id, "System"@)
    &&& !contains_text(id, "User"@)
    &&& !contains_text(id, "Assistant"@)
}

/// The messages that a Markdown section carries through unchanged: text that
/// is `md_safe_text`; an assistant message without reasoning and tool calls;
/// a tool result whose id is `md_safe_id`.
pub open spec fn md_round_trips(m: MessageView) -> bool {
    match m {
        MessageView::System { content } => md_safe_text(content),
        MessageView::User { content } => md_safe_text(content),
        MessageView::Assistant { content, reasoning_content, tool_calls } =>
            md_safe_text(content) && reasoning_content is None && tool_calls is None,
        MessageView::Tool { tool_call_id, content } => md_safe_text(content) && md_safe_id(tool_call_id),
    }
}

/// Such a message is written as its heading, a blank line, its text and a
/// line break, and its heading names it.
pub(crate) proof fn lemma_md_shape(m: MessageView) -> (h: Seq<char>)
    requires
        md_round_trips(m),
    ensures
        heading_ok(h),
        message_md(m) == h + seq!['\n', '\n'] + content_of(m) + seq!['\n'],
        heading_message(h, content_of(m)) == Some(m),
{
    reveal_strlit("## ");
    reveal_strlit("\n");
    reveal_strlit("System");
    reveal_strlit("User");
    reveal_strlit("Assistant");
    match m {
        MessageView::System { content } => {
            reveal_strlit("## 🤖 System\n\n");
            reveal_strlit("## 🤖 System");
            let h = "## 🤖 System"@;
            assert(message_md(m) =~= h + seq!['\n', '\n'] + content + seq!['\n']);
            assert(h.take(3) =~= "## "@);
            assert(contains_text(h, "System"@)) by {
                assert(h.subrange(5int, 5int + "System"@.len()) =~= "System"@);
            }
            h
        },
        MessageView::User { content } => {
            reveal_strlit("## 👤 User\n\n");
            reveal_strlit("## 👤 User");
            let h = "## 👤 User"@;
            assert(message_md(m) =~= h + seq!['\n', '\n'] + content + seq!['\n']);
            assert(h.take(3) =~= "## "@);
            lemma_absent_from(h, "System"@, 4);
            assert(contains_text(h, "User"@)) by {
                assert(h.subrange(5int, 5int + "User"@.len()) =~= "User"@);
            }
            h
        },
        MessageView::Assistant { content, .. } => {
            reveal_strlit("## 🤖 Assistant\n\n");
            reveal_strlit("## 🤖 Assistant");
            let h = "## 🤖 Assistant"@;
            assert(message_md(m) =~= h + seq!['\n', '\n'] + content + seq!['\n']);
            assert(h.take(3) =~= "## "@);
            lemma_absent_from(h, "System"@, 9);
            lemma_absent_from(h, "User"@, 11);
            assert(contains_text(h, "Assistant"@)) by {
                assert(h.subrange(5int, 5int + "Assistant"@.len()) =~= "Assistant"@);
            }
            h
        },
        MessageView::Tool { tool_call_id, content } => {
            reveal_strlit("## 🔧 Tool Result (`");
            reveal_strlit("`)\n\n");
            reveal_strlit("Tool");
            let pre = "## 🔧 Tool Result (`"@;
            let post = seq!['`', ')'];
            let h = pre + tool_call_id + post;
            assert(message_md(m) =~= h + seq!['\n', '\n'] + content + seq!['\n']);
            assert(h.take(3) =~= "## "@);
            assert forall|i: int| 0 <= i < h.len() implies h[i] != '\n' by {
                if i >= pre.len() && i < pre.len() + tool_call_id.len() {
                    assert(h[i] == tool_call_id[i - pre.len()]);
                }
            }
            lemma_absent_around(pre, tool_call_id, post, "System"@);
            lemma_absent_around(pre, tool_call_id, post, "User"@);
            lemma_absent_around(pre, tool_call_id, post, "Assistant"@);
            assert(contains_text(h, "Tool"@)) by {
                assert(h.subrange(5int, 5int + "Tool"@.len()) =~= "Tool"@);
            }
            lemma_first_index(h, '`', 18);
            let rest = h.skip(19);
            assert(rest =~= tool_call_id + post);
            assert forall|j: int| 0 <= j < tool_call_id.len() implies #[trigger] rest[j] != '`' by {
                assert(rest[j] == tool_call_id[j]);
            }
            lemma_first_index(rest, '`', tool_call_id.len() as int);
            assert(h.subrange(19, 19 + tool_call_id.len() as int) =~= tool_call_id);
            h
        },
    }
}

/// Writing a message as Markdown and reading the section back gives the
/// message again, when the section carries it through unchanged (see
/// `md_round_trips`).
pub proof fn law_markdown_round_trip(m: MessageView)
    requires
        md_round_trips(m),
    ensures
        section_message(message_md(m)) == Some(m),
{
    let h = lemma_md_shape(m);
    lemma_heading_reads(h, content_of(m));
}

/// Trimming a section before reading it back changes nothing: a message that
/// a section carries through unchanged (see `md_round_trips`) reads back from
/// the trimmed section as well.
pub proof fn law_markdown_round_trip_trimmed(m: MessageView)
    requires
        md_round_trips(m),
    ensures
        section_message(trim(message_md(m))) == Some(m),
{
    let h = lemma_md_shape(m);
    let c = content_of(m);
    let md = message_md(m);
    let e = Seq::<char>::empty();
    reveal_strlit("## ");
    assert(h[0] == "## "@[0]);
    assert(md[0] == h[0]);
    crate::text::lemma_leading_ws(md, 0);
    if c.len() > 0 {
        crate::text::lemma_trimmed_ends(c);
        let x = h + seq!['\n', '\n'] + c;
        assert(md =~= x.push('\n'));
        assert(md[md.len() - 2] == c.last());
        crate::text::lemma_trailing_ws(md, md.len() - 1);
        assert(trim(md) =~= x);
        assert(md.drop_last() =~= x);
        assert(split_newlines(md) == split_newlines(x).push(e));
        crate::text::lemma_split_newlines_len(x.drop_last());
        assert(x.last() == c.last());
        assert(split_newlines(x).last().len() > 0);
        assert(split_newlines(x).push(e).drop_last() =~= split_newlines(x));
        assert(text_lines(md) == text_lines(x));
        lemma_heading_reads(h, c);
    } else {
        assert(c =~= e);
        assert(md =~= h + seq!['\n', '\n', '\n']);
        assert forall|j: int| h.len() <= j < md.len() implies crate::text::is_whitespace(#[trigger] md[j]) by {
            assert(md[j] == '\n');
        }
        assert(md[h.len() - 1] == h.last());
        crate::text::lemma_trailing_ws(md, h.len() as int);
        assert(trim(md) =~= h);
        lemma_split_single_line(h);
        let lines = seq![h];
        assert(text_lines(h) =~= lines);
        lemma_header_index(lines, 0);
        assert(!crate::text::is_blank(h)) by {
            assert(!crate::text::is_whitespace(h[0]));
        }
        assert(blank_index(lines, 0) == blank_index(lines, 1));
        crate::text::lemma_leading_ws(h, 0);
        crate::text::lemma_trailing_ws(h, h.len() as int);
        assert(trim(h) =~= h);
    }
}

} // verus!
