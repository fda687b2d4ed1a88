use vstd::prelude::*;

use crate::markdown::{heading_ok, lines_of, md_round_trips, message_md, message_to_markdown, parse_message_from_section, section_message, starts_with, starts_with_str, text_lines};
use crate::message::{content_of, opt_str, Message, MessageView};
use crate::text::{chars_of, concat3, is_whitespace, split_newlines, string_of, strs_view, trim, trim_str};

verus! {

// ---------------------------------------------------------------------------
// Memos as Markdown
// ---------------------------------------------------------------------------

/// A memo as it is written: its id, its time and, unless it is the usual
/// one, its importance, all as text, and its message.
#[derive(Debug)]
pub struct MemoText {
    pub id: String,
    pub timestamp: String,
    pub importance: Option<String>,
    pub message: Message,
}

pub struct MemoTextView {
    pub id: Seq<char>,
    pub timestamp: Seq<char>,
    pub importance: Option<Seq<char>>,
    pub message: MessageView,
}

impl View for MemoText {
    type V = MemoTextView;

    open spec fn view(&self) -> MemoTextView {
        MemoTextView { id: self.id@, timestamp: self.timestamp@, importance: opt_str(self.importance), message: self.message@ }
    }
}

/// What a Markdown section says of a memo: the id, time and importance its
/// comments give, as text, and its message.
#[derive(Debug)]
pub struct MemoSection {
    pub id: Option<String>,
    pub timestamp: Option<String>,
    pub importance: Option<String>,
    pub message: Message,
}

pub struct MemoSectionView {
    pub id: Option<Seq<char>>,
    pub timestamp: Option<Seq<char>>,
    pub importance: Option<Seq<char>>,
    pub message: MessageView,
}

impl View for MemoSection {
    type V = MemoSectionView;

    open spec fn view(&self) -> MemoSectionView {
        MemoSectionView {
            id: opt_str(self.id),
            timestamp: opt_str(self.timestamp),
            importance: opt_str(self.importance),
            message: self.message@,
        }
    }
}

/// A memo as a Markdown block: a comment per piece of metadata, the message's
/// section, and a rule.
pub open spec fn memo_md(e: MemoTextView) -> Seq<char> {
    meta_md(e) + message_md(e.message) + "\n---\n\n"@
}

/// The comment lines of a memo: its id, its time and, when given, its
/// importance.
pub open spec fn meta_md(e: MemoTextView) -> Seq<char> {
    "<!-- id: "@ + e.id + " -->\n"@ + "<!-- timestamp: "@ + e.timestamp + " -->\n"@
        + (match e.importance {
            Some(x) => "<!-- importance: "@ + x + " -->\n"@,
            None => Seq::empty(),
        })
}

/// Memos as Markdown: their blocks, one after the other.
pub open spec fn memos_md(es: Seq<MemoTextView>) -> Seq<char>
    decreases es.len(),
{
    if es.len() == 0 {
        Seq::empty()
    } else {
        memo_md(es[0]) + memos_md(es.drop_first())
    }
}

/// `memo` as a Markdown block; see `memo_md`.
pub fn memo_to_markdown(memo: &MemoText) -> (r: String)
    ensures
        r@ == memo_md(memo@),
{
    let mut md = concat3("<!-- id: ", memo.id.as_str(), " -->\n");
    md.append("<!-- timestamp: ");
    md.append(memo.timestamp.as_str());
    md.append(" -->\n");
    match &memo.importance {
        Some(x) => {
            md.append("<!-- importance: ");
            md.append(x.as_str());
            md.append(" -->\n");
        },
        None => {},
    }
    let section = message_to_markdown(&memo.message);
    md.append(section.as_str());
    md.append("\n---\n\n");
    proof {
        assert(md@ =~= memo_md(memo@));
    }
    md
}

proof fn lemma_memos_md_push(es: Seq<MemoTextView>, e: MemoTextView)
    ensures
        memos_md(es.push(e)) == memos_md(es) + memo_md(e),
    decreases es.len(),
{
    assert(es.push(e)[0] == if es.len() == 0 { e } else { es[0] });
    if es.len() == 0 {
        assert(es.push(e).drop_first() =~= Seq::<MemoTextView>::empty());
        assert(memos_md(Seq::<MemoTextView>::empty()) == Seq::<char>::empty());
        assert(memos_md(es.push(e)) =~= memo_md(e));
    } else {
        assert(es.push(e).drop_first() =~= es.drop_first().push(e));
        lemma_memos_md_push(es.drop_first(), e);
        assert(memos_md(es.push(e)) =~= memos_md(es) + memo_md(e));
    }
}

/// `memos` as Markdown; see `memos_md`.
pub fn memos_to_markdown(memos: &Vec<MemoText>) -> (r: String)
    ensures
        r@ == memos_md(memos@.map_values(|m: MemoText| m@)),
{
    let ghost mv = memos@.map_values(|m: MemoText| m@);
    let mut md = String::new();
    let mut i: usize = 0;
    proof { assert(mv.take(0) =~= Seq::<MemoTextView>::empty()); }
    while i < memos.len()
        invariant
            i <= memos@.len(),
            mv == memos@.map_values(|m: MemoText| m@),
            md@ == memos_md(mv.take(i as int)),
        decreases memos.len() - i,
    {
        let block = memo_to_markdown(&memos[i]);
        proof {
            assert(mv.take(i as int + 1) =~= mv.take(i as int).push(mv[i as int]));
            lemma_memos_md_push(mv.take(i as int), mv[i as int]);
        }
        md.append(block.as_str());
        i = i + 1;
    }
    proof { assert(mv.take(memos@.len() as int) =~= mv); }
    md
}

// ---------------------------------------------------------------------------
// Reading memos back
// ---------------------------------------------------------------------------

/// Whether a rule line ("\n---\n") starts at `i` in `s`.
pub open spec fn rule_at(s: Seq<char>, i: int) -> bool {
    &&& 0 <= i && i + 5 <= s.len()
    &&& s[i] == '\n' && s[i + 1] == '-' && s[i + 2] == '-' && s[i + 3] == '-' && s[i + 4] == '\n'
}

/// Where the first rule line starts in `s`.
pub open spec fn first_rule(s: Seq<char>) -> Option<int>
    decreases s.len(),
{
    if s.len() < 5 {
        None
    } else {
        match first_rule(s.drop_last()) {
            Some(i) => Some(i),
            None => if rule_at(s, s.len() - 5) { Some(s.len() - 5) } else { None },
        }
    }
}

proof fn lemma_rule_at_prefix(s: Seq<char>, t: Seq<char>, j: int)
    requires
        t.len() <= s.len(),
        forall|k: int| 0 <= k < t.len() ==> s[k] == t[k],
        j + 5 <= t.len(),
    ensures
        rule_at(s, j) == rule_at(t, j),
{
    if 0 <= j {
        assert(s[j] == t[j] && s[j + 1] == t[j + 1] && s[j + 2] == t[j + 2] && s[j + 3] == t[j + 3] && s[j + 4] == t[j + 4]);
    }
}

/// The first rule starts at `i` when one starts there and none before; there
/// is none when none starts anywhere.
proof fn lemma_first_rule(s: Seq<char>, i: int)
    requires
        0 <= i,
        i + 5 <= s.len() ==> rule_at(s, i),
        i + 5 > s.len() ==> i + 4 >= s.len(),
        forall|j: int| 0 <= j < i ==> !#[trigger] rule_at(s, j),
    ensures
        first_rule(s) == if i + 5 <= s.len() { Some(i) } else { None::<int> },
    decreases s.len(),
{
    if s.len() >= 5 {
        let d = s.drop_last();
        assert forall|j: int| 0 <= j && j + 5 <= d.len() implies rule_at(s, j) == #[trigger] rule_at(d, j) by {
            lemma_rule_at_prefix(s, d, j);
        }
        if i + 5 <= d.len() {
            lemma_first_rule(d, i);
        } else {
            assert forall|j: int| 0 <= j < d.len() - 4 implies !#[trigger] rule_at(d, j) by {
                assert(j < i);
                assert(!rule_at(s, j));
            }
            lemma_first_rule(d, d.len() - 4);
        }
    }
}

/// What `first_rule` finds is a rule with none before it, and when it finds
/// none there is none.
proof fn lemma_first_rule_found(s: Seq<char>)
    ensures
        first_rule(s) matches Some(i) ==> rule_at(s, i) && forall|j: int| 0 <= j < i ==> !#[trigger] rule_at(s, j),
        first_rule(s) is None ==> forall|j: int| !#[trigger] rule_at(s, j),
    decreases s.len(),
{
    if s.len() >= 5 {
        let d = s.drop_last();
        lemma_first_rule_found(d);
        assert forall|j: int| 0 <= j && j + 5 <= d.len() implies rule_at(s, j) == #[trigger] rule_at(d, j) by {
            lemma_rule_at_prefix(s, d, j);
        }
        match first_rule(d) {
            Some(i) => {
                assert forall|j: int| 0 <= j < i implies !#[trigger] rule_at(s, j) by {
                    assert(!rule_at(d, j));
                }
            },
            None => {
                assert forall|j: int| #[trigger] rule_at(s, j) implies j == s.len() - 5 by {
                    if j + 5 <= d.len() {
                        assert(rule_at(d, j));
                    }
                }
            },
        }
    }
}

/// The pieces of `s` between rule lines, as `str::split` gives them.
pub open spec fn rule_pieces(s: Seq<char>) -> Seq<Seq<char>>
    decreases s.len(),
{
    match first_rule(s) {
        Some(i) => if 0 <= i && i + 5 <= s.len() {
            seq![s.take(i)] + rule_pieces(s.skip(i + 5))
        } else {
            seq![s]
        },
        None => seq![s],
    }
}

fn find_rule(cs: &Vec<char>, from: usize) -> (r: Option<usize>)
    requires
        from <= cs@.len(),
    ensures
        match r {
            Some(x) => from <= x && x + 5 <= cs@.len() && first_rule(cs@.skip(from as int)) == Some(x - from),
            None => first_rule(cs@.skip(from as int)) is None,
        },
{
    let ghost t = cs@.skip(from as int);
    let n = cs.len();
    if n - from < 5 {
        proof { lemma_first_rule(t, t.len() as int); }
        return None;
    }
    let last = n - 5;
    let mut i: usize = from;
    while i <= last
        invariant
            from <= i <= last + 1,
            last + 5 == n,
            n == cs@.len(),
            t == cs@.skip(from as int),
            forall|j: int| 0 <= j < i - from ==> !#[trigger] rule_at(t, j),
        decreases last + 1 - i,
    {
        let k = i - from;
        proof {
            assert(t[k as int] == cs@[i as int] && t[k + 1] == cs@[i + 1] && t[k + 2] == cs@[i + 2]
                && t[k + 3] == cs@[i + 3] && t[k + 4] == cs@[i + 4]);
        }
        if cs[i] == '\n' && cs[i + 1] == '-' && cs[i + 2] == '-' && cs[i + 3] == '-' && cs[i + 4] == '\n' {
            proof { lemma_first_rule(t, k as int); }
            return Some(i);
        }
        i = i + 1;
    }
    proof { lemma_first_rule(t, t.len() - 4); }
    None
}

/// The pieces of `s` between rule lines; see `rule_pieces`.
pub fn split_rules(s: &str) -> (r: Vec<String>)
    ensures
        strs_view(r@) == rule_pieces(s@),
{
    let cs = chars_of(s);
    let ghost s0 = cs@;
    let mut out: Vec<String> = Vec::new();
    let mut pos: usize = 0;
    let n = cs.len();
    proof { assert(s0.skip(0) =~= s0); }
    loop
        invariant
            pos <= cs@.len(),
            n == cs@.len(),
            s0 == cs@,
            s0 == s@,
            rule_pieces(s0) == strs_view(out@) + rule_pieces(s0.skip(pos as int)),
        decreases cs@.len() - pos,
    {
        match find_rule(&cs, pos) {
            None => {
                let rest = string_of(&cs, pos, n);
                proof {
                    assert(rest@ =~= s0.skip(pos as int));
                    assert(strs_view(out@.push(rest)) =~= strs_view(out@) + seq![rest@]);
                }
                out.push(rest);
                return out;
            },
            Some(i) => {
                let ghost t = s0.skip(pos as int);
                let piece = string_of(&cs, pos, i);
                proof {
                    assert(piece@ =~= t.take(i - pos));
                    assert(t.skip(i - pos + 5) =~= s0.skip(i + 5));
                    assert(strs_view(out@.push(piece)) =~= strs_view(out@) + seq![piece@]);
                }
                out.push(piece);
                pos = i + 5;
            },
        }
    }
}

/// `s` with `p` taken off its start as often as it is there, as
/// `str::trim_start_matches` gives it.
pub open spec fn strip_prefixes(s: Seq<char>, p: Seq<char>) -> Seq<char>
    decreases s.len(),
{
    if p.len() > 0 && starts_with(s, p) {
        strip_prefixes(s.skip(p.len() as int), p)
    } else {
        s
    }
}

/// Whether `s` ends with `p`.
pub open spec fn ends_with(s: Seq<char>, p: Seq<char>) -> bool {
    p.len() <= s.len() && s.skip(s.len() - p.len()) == p
}

/// `s` with `p` taken off its end as often as it is there, as
/// `str::trim_end_matches` gives it.
pub open spec fn strip_suffixes(s: Seq<char>, p: Seq<char>) -> Seq<char>
    decreases s.len(),
{
    if p.len() > 0 && ends_with(s, p) {
        strip_suffixes(s.take(s.len() - p.len()), p)
    } else {
        s
    }
}

/// The value a metadata comment line holds after `key`.
pub open spec fn comment_value(line: Seq<char>, key: Seq<char>) -> Seq<char> {
    trim(strip_suffixes(strip_prefixes(line, key), "-->"@))
}

fn starts_at(cs: &Vec<char>, from: usize, p: &Vec<char>) -> (r: bool)
    requires
        from <= cs@.len(),
    ensures
        r == starts_with(cs@.skip(from as int), p@),
{
    if p.len() > cs.len() - from {
        return false;
    }
    let ghost t = cs@.skip(from as int);
    let mut i: usize = 0;
    while i < p.len()
        invariant
            from <= cs@.len(),
            cs@.len() <= usize::MAX,
            p@.len() <= cs@.len() - from,
            t == cs@.skip(from as int),
            i <= p@.len(),
            forall|j: int| 0 <= j < i ==> #[trigger] t[j] == p@[j],
        decreases p.len() - i,
    {
        let k = from + i;
        proof { assert(t[i as int] == cs@[k as int]); }
        if cs[k] != p[i] {
            proof { assert(t.take(p@.len() as int)[i as int] == t[i as int]); }
            return false;
        }
        i = i + 1;
    }
    proof {
        assert forall|j: int| 0 <= j < p@.len() implies #[trigger] t.take(p@.len() as int)[j] == p@[j] by {
            assert(t.take(p@.len() as int)[j] == t[j]);
        }
        assert(t.take(p@.len() as int) =~= p@);
    }
    true
}

fn ends_at(cs: &Vec<char>, to: usize, p: &Vec<char>) -> (r: bool)
    requires
        to <= cs@.len(),
    ensures
        r == ends_with(cs@.take(to as int), p@),
{
    if p.len() > to {
        return false;
    }
    let start = to - p.len();
    let ghost t = cs@.take(to as int).skip(start as int);
    let mut i: usize = 0;
    while i < p.len()
        invariant
            start + p@.len() == to,
            to <= cs@.len(),
            t == cs@.take(to as int).skip(start as int),
            i <= p@.len(),
            forall|j: int| 0 <= j < i ==> #[trigger] t[j] == p@[j],
        decreases p.len() - i,
    {
        let k = start + i;
        proof { assert(t[i as int] == cs@[k as int]); }
        if cs[k] != p[i] {
            return false;
        }
        i = i + 1;
    }
    proof { assert(t =~= p@); }
    true
}

/// The value of a metadata comment line after `key`; see `comment_value`.
fn comment_value_of(line: &str, key: &str) -> (r: String)
    requires
        key@.len() > 0,
    ensures
        r@ == comment_value(line@, key@),
{
    let cs = chars_of(line);
    let kc = chars_of(key);
    let close = chars_of("-->");
    proof { reveal_strlit("-->"); }
    let mut a: usize = 0;
    let n = cs.len();
    proof { assert(line@.skip(0) =~= line@); assert(n == cs@.len()); }
    while starts_at(&cs, a, &kc)
        invariant
            a <= cs@.len(),
            cs@.len() <= usize::MAX,
            cs@ == line@,
            kc@ == key@,
            kc@.len() > 0,
            strip_prefixes(line@, key@) == strip_prefixes(cs@.skip(a as int), key@),
        decreases cs@.len() - a,
    {
        proof {
            assert(cs@.skip(a as int).len() == cs@.len() - a);
            assert(cs@.skip(a as int).skip(kc@.len() as int) =~= cs@.skip(a + kc@.len()));
        }
        a = a + kc.len();
    }
    let mut b: usize = cs.len();
    proof { assert(cs@.take(b as int).skip(a as int) =~= cs@.skip(a as int)); }
    while b - a >= close.len() && ends_at(&cs, b, &close)
        invariant
            a <= b <= cs@.len(),
            close@ == "-->"@,
            close@.len() == 3,
            strip_suffixes(strip_prefixes(line@, key@), "-->"@) == strip_suffixes(cs@.take(b as int).skip(a as int), "-->"@),
        decreases b,
    {
        proof {
            let u = cs@.take(b as int).skip(a as int);
            assert(u.skip(u.len() - 3) =~= cs@.take(b as int).skip(b - 3));
            assert(ends_with(u, "-->"@));
            assert(u.take(u.len() - 3) =~= cs@.take(b - 3).skip(a as int));
        }
        b = b - close.len();
    }
    proof {
        let u = cs@.take(b as int).skip(a as int);
        if b >= a + 3 {
            assert(u.skip(u.len() - 3) =~= cs@.take(b as int).skip(b - 3));
        }
    }
    let inner = string_of(&cs, a, b);
    proof { assert(inner@ =~= cs@.take(b as int).skip(a as int)); }
    trim_str(inner.as_str())
}

/// The metadata the comment lines of a section give: each trimmed line that
/// starts a comment names its piece, and a later one wins.
pub open spec fn memo_meta(lines: Seq<Seq<char>>) -> (Option<Seq<char>>, Option<Seq<char>>, Option<Seq<char>>)
    decreases lines.len(),
{
    if lines.len() == 0 {
        (None, None, None)
    } else {
        let prev = memo_meta(lines.drop_last());
        let line = trim(lines.last());
        if starts_with(line, "<!-- id:"@) {
            (Some(comment_value(line, "<!-- id:"@)), prev.1, prev.2)
        } else if starts_with(line, "<!-- timestamp:"@) {
            (prev.0, Some(comment_value(line, "<!-- timestamp:"@)), prev.2)
        } else if starts_with(line, "<!-- importance:"@) {
            (prev.0, prev.1, Some(comment_value(line, "<!-- importance:"@)))
        } else {
            prev
        }
    }
}

/// The memo a piece of Markdown holds: none when it is blank or holds no
/// message, else its metadata and message.
pub open spec fn memo_section(piece: Seq<char>) -> Option<MemoSectionView> {
    let section = trim(piece);
    if section.len() == 0 {
        None
    } else {
        match section_message(section) {
            Some(m) => {
                let meta = memo_meta(text_lines(section));
                Some(MemoSectionView { id: meta.0, timestamp: meta.1, importance: meta.2, message: m })
            },
            None => None,
        }
    }
}

/// The memos of the pieces that hold one, in order.
pub open spec fn read_memos(pieces: Seq<Seq<char>>) -> Seq<MemoSectionView>
    decreases pieces.len(),
{
    if pieces.len() == 0 {
        Seq::empty()
    } else {
        let prev = read_memos(pieces.drop_last());
        match memo_section(pieces.last()) {
            Some(x) => prev.push(x),
            None => prev,
        }
    }
}

/// The memos of a Markdown text: its pieces between rule lines that hold a
/// message.
pub open spec fn markdown_memos(markdown: Seq<char>) -> Seq<MemoSectionView> {
    read_memos(rule_pieces(markdown))
}

fn section_meta(section: &str) -> (r: (Option<String>, Option<String>, Option<String>))
    ensures
        (opt_str(r.0), opt_str(r.1), opt_str(r.2)) == memo_meta(text_lines(section@)),
{
    let lines = lines_of(section);
    let ghost lv = strs_view(lines@);
    let mut id: Option<String> = None;
    let mut timestamp: Option<String> = None;
    let mut importance: Option<String> = None;
    let mut i: usize = 0;
    proof {
        reveal_strlit("<!-- id:");
        reveal_strlit("<!-- timestamp:");
        reveal_strlit("<!-- importance:");
    }
    while i < lines.len()
        invariant
            i <= lines@.len(),
            lv == strs_view(lines@),
            lv == text_lines(section@),
            (opt_str(id), opt_str(timestamp), opt_str(importance)) == memo_meta(lv.take(i as int)),
        decreases lines.len() - i,
    {
        let line = trim_str(lines[i].as_str());
        proof {
            reveal_strlit("<!-- id:");
            reveal_strlit("<!-- timestamp:");
            reveal_strlit("<!-- importance:");
            assert(lv.take(i as int + 1).drop_last() =~= lv.take(i as int));
            assert(lv.take(i as int + 1).last() == lines@[i as int]@);
        }
        if starts_with_str(line.as_str(), "<!-- id:") {
            id = Some(comment_value_of(line.as_str(), "<!-- id:"));
        } else if starts_with_str(line.as_str(), "<!-- timestamp:") {
            timestamp = Some(comment_value_of(line.as_str(), "<!-- timestamp:"));
        } else if starts_with_str(line.as_str(), "<!-- importance:") {
            importance = Some(comment_value_of(line.as_str(), "<!-- importance:"));
        }
        i = i + 1;
    }
    proof { assert(lv.take(lines@.len() as int) =~= lv); }
    (id, timestamp, importance)
}

/// The memo of a piece of Markdown; see `memo_section`.
fn read_memo(piece: &str) -> (r: Option<MemoSection>)
    ensures
        match r {
            Some(x) => memo_section(piece@) == Some(x@),
            None => memo_section(piece@) is None,
        },
{
    let section = trim_str(piece);
    if section.as_str().is_empty() {
        return None;
    }
    match parse_message_from_section(section.as_str()) {
        Some(message) => {
            let (id, timestamp, importance) = section_meta(section.as_str());
            Some(MemoSection { id, timestamp, importance, message })
        },
        None => None,
    }
}

/// The memos a Markdown text holds; see `markdown_memos`.
pub fn memos_from_markdown(markdown: &str) -> (r: Vec<MemoSection>)
    ensures
        r@.map_values(|m: MemoSection| m@) == markdown_memos(markdown@),
{
    let pieces = split_rules(markdown);
    let ghost pv = strs_view(pieces@);
    let mut out: Vec<MemoSection> = Vec::new();
    let mut i: usize = 0;
    proof { assert(out@.map_values(|m: MemoSection| m@) =~= read_memos(pv.take(0))); }
    while i < pieces.len()
        invariant
            i <= pieces@.len(),
            pv == strs_view(pieces@),
            pv == rule_pieces(markdown@),
            out@.map_values(|m: MemoSection| m@) == read_memos(pv.take(i as int)),
        decreases pieces.len() - i,
    {
        proof {
            assert(pv.take(i as int + 1).drop_last() =~= pv.take(i as int));
            assert(pv.take(i as int + 1).last() == pieces@[i as int]@);
        }
        match read_memo(pieces[i].as_str()) {
            Some(x) => {
                proof {
                    assert(out@.push(x).map_values(|m: MemoSection| m@) =~= out@.map_values(|m: MemoSection| m@).push(x@));
                }
                out.push(x);
            },
            None => {},
        }
        i = i + 1;
    }
    proof { assert(pv.take(pieces@.len() as int) =~= pv); }
    out
}


// ---------------------------------------------------------------------------
// Reading back what was written
// ---------------------------------------------------------------------------

/// Metadata text that a comment line carries through unchanged: one line,
/// trimmed.
pub open spec fn meta_text_ok(x: Seq<char>) -> bool {
    &&& forall|i: int| 0 <= i < x.len() ==> x[i] != '\n'
    &&& trim(x) == x
}

/// Text that starts and ends with characters that are not white space is
/// its own trim.
proof fn lemma_trim_fixed(s: Seq<char>)
    requires
        s.len() > 0,
        !is_whitespace(s[0]),
        !is_whitespace(s.last()),
    ensures
        trim(s) == s,
{
    crate::text::lemma_leading_ws(s, 0);
    crate::text::lemma_trailing_ws(s, s.len() as int);
    assert(s.subrange(0, s.len() as int) =~= s);
}

/// Line breaks around such text trim away.
proof fn lemma_trim_wrapped(lead: Seq<char>, s: Seq<char>, tail: Seq<char>)
    requires
        lead == Seq::<char>::empty() || lead == seq!['\n'],
        tail == seq!['\n'] || tail == seq!['\n', '\n', '\n'],
        s.len() > 0,
        !is_whitespace(s[0]),
        !is_whitespace(s.last()),
    ensures
        trim(lead + s + tail) == s,
{
    let t = lead + s + tail;
    let a = lead.len() as int;
    let b = t.len() - tail.len();
    assert forall|j: int| 0 <= j < a implies is_whitespace(#[trigger] t[j]) by {
        assert(t[j] == '\n');
    }
    assert(t[a] == s[0]);
    crate::text::lemma_leading_ws(t, a);
    assert forall|j: int| b <= j < t.len() implies is_whitespace(#[trigger] t[j]) by {
        assert(t[j] == tail[j - b]);
    }
    assert(t[b - 1] == s.last());
    crate::text::lemma_trailing_ws(t, b);
    assert(t.subrange(a, b) =~= s);
}

/// Trimmed text between two spaces trims back to itself.
proof fn lemma_trim_padded(x: Seq<char>)
    requires
        trim(x) == x,
    ensures
        trim(seq![' '] + x + seq![' ']) == x,
{
    let t = seq![' '] + x + seq![' '];
    if x.len() == 0 {
        assert forall|j: int| 0 <= j < 2 implies is_whitespace(#[trigger] t[j]) by {}
        crate::text::lemma_leading_ws(t, 2);
    } else {
        crate::text::lemma_trimmed_ends(x);
        assert(t[1] == x[0]);
        crate::text::lemma_leading_ws(t, 1);
        assert(t[t.len() - 2] == x.last());
        crate::text::lemma_trailing_ws(t, t.len() - 1);
        assert(t.subrange(1, t.len() - 1) =~= x);
    }
}

/// The comment line written for `x` after `key` gives `x` back.
proof fn lemma_comment_value(key: Seq<char>, x: Seq<char>)
    requires
        key.len() > 0,
        key[0] == '<',
        meta_text_ok(x),
    ensures
        comment_value(key + seq![' '] + x + " -->"@, key) == x,
{
    reveal_strlit(" -->");
    reveal_strlit("-->");
    let line = key + seq![' '] + x + " -->"@;
    let rest = seq![' '] + x + " -->"@;
    assert(line.take(key.len() as int) =~= key);
    assert(line.skip(key.len() as int) =~= rest);
    assert(!starts_with(rest, key)) by {
        if key.len() <= rest.len() {
            assert(rest.take(key.len() as int)[0] == rest[0]);
        }
    }
    assert(strip_prefixes(rest, key) == rest);
    assert(strip_prefixes(line, key) == rest);
    let inner = seq![' '] + x + seq![' '];
    assert(rest.skip(rest.len() - 3) =~= "-->"@);
    assert(rest.take(rest.len() - 3) =~= inner);
    assert(!ends_with(inner, "-->"@)) by {
        if inner.len() >= 3 {
            assert(inner.skip(inner.len() - 3)[2] == inner.last());
        }
    }
    assert(strip_suffixes(inner, "-->"@) == inner);
    assert(strip_suffixes(rest, "-->"@) == inner);
    lemma_trim_padded(x);
}

/// Whether a trimmed line starts a metadata comment.
pub open spec fn meta_line(line: Seq<char>) -> bool {
    let t = trim(line);
    starts_with(t, "<!-- id:"@) || starts_with(t, "<!-- timestamp:"@) || starts_with(t, "<!-- importance:"@)
}

/// Lines that start no metadata comment leave the metadata as it was.
proof fn lemma_meta_after(a: Seq<Seq<char>>, b: Seq<Seq<char>>)
    requires
        forall|k: int| 0 <= k < b.len() ==> !meta_line(#[trigger] b[k]),
    ensures
        memo_meta(a + b) == memo_meta(a),
    decreases b.len(),
{
    if b.len() == 0 {
        assert(a + b =~= a);
    } else {
        assert((a + b).drop_last() =~= a + b.drop_last());
        assert((a + b).last() == b.last());
        assert(!meta_line(b[b.len() - 1]));
        lemma_meta_after(a, b.drop_last());
    }
}


/// A line without a break, a break, and more text: the line comes first.
proof fn lemma_line_first(l: Seq<char>, y: Seq<char>)
    requires
        forall|i: int| 0 <= i < l.len() ==> l[i] != '\n',
    ensures
        crate::text::split_newlines(l + seq!['\n'] + y) == seq![l] + crate::text::split_newlines(y),
{
    crate::markdown::lemma_split_at_newline(l, y);
    crate::markdown::lemma_split_single_line(l);
}

/// The comment line written for `x` after `key`.
pub open spec fn comment_line(key: Seq<char>, x: Seq<char>) -> Seq<char> {
    key + x + " -->"@
}

/// The comment lines of a memo, without their line breaks.
pub open spec fn meta_lines(e: MemoTextView) -> Seq<Seq<char>> {
    seq![comment_line("<!-- id: "@, e.id), comment_line("<!-- timestamp: "@, e.timestamp)]
        + match e.importance {
            Some(x) => seq![comment_line("<!-- importance: "@, x)],
            None => Seq::empty(),
        }
}

/// A comment line holds no line break when its value holds none, and ends
/// in `>`.
proof fn lemma_comment_line_plain(key: Seq<char>, x: Seq<char>)
    requires
        forall|i: int| 0 <= i < key.len() ==> key[i] != '\n',
        meta_text_ok(x),
    ensures
        forall|i: int| 0 <= i < comment_line(key, x).len() ==> #[trigger] comment_line(key, x)[i] != '\n',
        comment_line(key, x).last() == '>',
{
    reveal_strlit(" -->");
    let l = comment_line(key, x);
    assert forall|i: int| 0 <= i < l.len() implies #[trigger] l[i] != '\n' by {
        if i < key.len() {
            assert(l[i] == key[i]);
        } else if i < key.len() + x.len() {
            assert(l[i] == x[i - key.len()]);
        } else {
            assert(l[i] == " -->"@[i - key.len() - x.len()]);
        }
    }
}

/// No rule line ("---") sits among the lines of `c`.
pub open spec fn no_rule_line(c: Seq<char>) -> bool {
    forall|j: int| !#[trigger] rule_at(seq!['\n'] + c + seq!['\n'], j)
}

/// The memos that Markdown carries through unchanged: metadata that is one
/// trimmed line each, and a message that its section carries through
/// (`md_round_trips`) whose text holds no rule line and no line that,
/// trimmed, starts a metadata comment.
pub open spec fn memo_round_trips(e: MemoTextView) -> bool {
    &&& meta_text_ok(e.id)
    &&& meta_text_ok(e.timestamp)
    &&& (e.importance matches Some(x) ==> meta_text_ok(x))
    &&& md_round_trips(e.message)
    &&& no_rule_line(content_of(e.message))
    &&& forall|k: int| 0 <= k < split_newlines(content_of(e.message)).len()
        ==> !meta_line(#[trigger] split_newlines(content_of(e.message))[k])
}

/// What reading back the block of `e` gives.
pub open spec fn memo_read_back(e: MemoTextView) -> MemoSectionView {
    MemoSectionView { id: Some(e.id), timestamp: Some(e.timestamp), importance: e.importance, message: e.message }
}

/// The lines of text whose pieces between breaks end neither in a carriage
/// return nor, for the last, empty are those pieces.
proof fn lemma_lines_from_pieces(s: Seq<char>)
    requires
        split_newlines(s).last().len() > 0,
        forall|k: int| 0 <= k < split_newlines(s).len() && (#[trigger] split_newlines(s)[k]).len() > 0
            ==> split_newlines(s)[k].last() != '\r',
    ensures
        text_lines(s) == split_newlines(s),
{
    let pieces = split_newlines(s);
    let f = |p: Seq<char>| if p.len() > 0 && p.last() == '\r' { p.drop_last() } else { p };
    assert forall|k: int| 0 <= k < pieces.len() implies #[trigger] f(pieces[k]) == pieces[k] by {}
    assert(pieces.map_values(f) =~= pieces);
}

/// The comment lines of a memo followed by a line without a break split
/// into the comment lines and that line.
proof fn lemma_meta_lines_split(e: MemoTextView, t: Seq<char>)
    requires
        meta_text_ok(e.id),
        meta_text_ok(e.timestamp),
        e.importance matches Some(x) ==> meta_text_ok(x),
        forall|i: int| 0 <= i < t.len() ==> t[i] != '\n',
    ensures
        split_newlines(meta_md(e) + t) == meta_lines(e) + seq![t],
{
    reveal_strlit("<!-- id: ");
    reveal_strlit("<!-- timestamp: ");
    reveal_strlit("<!-- importance: ");
    reveal_strlit(" -->");
    reveal_strlit(" -->\n");
    crate::markdown::lemma_split_single_line(t);
    let l1 = comment_line("<!-- id: "@, e.id);
    let l2 = comment_line("<!-- timestamp: "@, e.timestamp);
    lemma_comment_line_plain("<!-- id: "@, e.id);
    lemma_comment_line_plain("<!-- timestamp: "@, e.timestamp);
    let r = match e.importance {
        Some(x) => comment_line("<!-- importance: "@, x) + seq!['\n'] + t,
        None => t,
    };
    let rl = match e.importance {
        Some(x) => seq![comment_line("<!-- importance: "@, x), t],
        None => seq![t],
    };
    match e.importance {
        Some(x) => {
            lemma_comment_line_plain("<!-- importance: "@, x);
            lemma_line_first(comment_line("<!-- importance: "@, x), t);
            assert(seq![comment_line("<!-- importance: "@, x)] + seq![t] =~= rl);
        },
        None => {},
    }
    assert(split_newlines(r) == rl);
    lemma_line_first(l2, r);
    lemma_line_first(l1, l2 + seq!['\n'] + r);
    assert(meta_md(e) + t =~= l1 + seq!['\n'] + (l2 + seq!['\n'] + r));
    assert(split_newlines(meta_md(e) + t) =~= meta_lines(e) + seq![t]);
}

/// Each comment line of a memo ends in `>`.
proof fn lemma_meta_lines_end(e: MemoTextView)
    requires
        meta_text_ok(e.id),
        meta_text_ok(e.timestamp),
        e.importance matches Some(x) ==> meta_text_ok(x),
    ensures
        forall|j: int| 0 <= j < meta_lines(e).len() ==> (#[trigger] meta_lines(e)[j]).last() == '>',
{
    reveal_strlit("<!-- id: ");
    reveal_strlit("<!-- timestamp: ");
    reveal_strlit("<!-- importance: ");
    lemma_comment_line_plain("<!-- id: "@, e.id);
    lemma_comment_line_plain("<!-- timestamp: "@, e.timestamp);
    match e.importance {
        Some(x) => lemma_comment_line_plain("<!-- importance: "@, x),
        None => {},
    }
}

/// The lines of a memo's block before its rule: its comment lines, the
/// heading, a blank line and the lines of the text.
proof fn lemma_block_lines(e: MemoTextView, h: Seq<char>, c: Seq<char>)
    requires
        meta_text_ok(e.id),
        meta_text_ok(e.timestamp),
        e.importance matches Some(x) ==> meta_text_ok(x),
        heading_ok(h),
        c.len() > 0,
        trim(c) == c,
        crate::markdown::no_crlf(c),
    ensures
        text_lines(meta_md(e) + h + seq!['\n', '\n'] + c) == meta_lines(e) + seq![h, Seq::<char>::empty()] + split_newlines(c),
{
    reveal_strlit("<!-- id: ");
    reveal_strlit("<!-- timestamp: ");
    reveal_strlit("<!-- importance: ");
    reveal_strlit(" -->");
    reveal_strlit(" -->\n");
    let e0 = Seq::<char>::empty();
    let t = h + seq!['\n', '\n'] + c;
    lemma_line_first(h, seq!['\n'] + c);
    assert(h + seq!['\n'] + (seq!['\n'] + c) =~= t);
    crate::markdown::lemma_split_at_newline(e0, c);
    assert(e0 + seq!['\n'] + c =~= seq!['\n'] + c);
    assert(split_newlines(e0) =~= seq![e0]);
    let lt = split_newlines(t);
    assert(lt =~= seq![h, e0] + split_newlines(c));
    let l1 = comment_line("<!-- id: "@, e.id);
    let l2 = comment_line("<!-- timestamp: "@, e.timestamp);
    lemma_comment_line_plain("<!-- id: "@, e.id);
    lemma_comment_line_plain("<!-- timestamp: "@, e.timestamp);
    let r = match e.importance {
        Some(x) => comment_line("<!-- importance: "@, x) + seq!['\n'] + t,
        None => t,
    };
    let rl = match e.importance {
        Some(x) => seq![comment_line("<!-- importance: "@, x)] + lt,
        None => lt,
    };
    match e.importance {
        Some(x) => {
            lemma_comment_line_plain("<!-- importance: "@, x);
            lemma_line_first(comment_line("<!-- importance: "@, x), t);
        },
        None => {},
    }
    assert(split_newlines(r) == rl);
    lemma_line_first(l2, r);
    lemma_line_first(l1, l2 + seq!['\n'] + r);
    let x = meta_md(e) + t;
    assert(x =~= l1 + seq!['\n'] + (l2 + seq!['\n'] + r));
    assert(split_newlines(x) =~= meta_lines(e) + seq![h, e0] + split_newlines(c));
    crate::text::lemma_split_newlines_len(c.drop_last());
    crate::text::lemma_trimmed_ends(c);
    assert(split_newlines(c).last().len() > 0);
    crate::markdown::lemma_split_no_cr(c);
    let pieces = split_newlines(x);
    lemma_meta_lines_end(e);
    assert forall|k: int| 0 <= k < pieces.len() && (#[trigger] pieces[k]).len() > 0 implies pieces[k].last() != '\r' by {
        let n = meta_lines(e).len();
        if k < n {
            assert(pieces[k] == meta_lines(e)[k]);
        } else if k == n {
            assert(pieces[k] == h);
        } else if k > n + 1 {
            assert(pieces[k] == split_newlines(c)[k - n - 2]);
        }
    }
    lemma_lines_from_pieces(x);
    assert(meta_md(e) + h + seq!['\n', '\n'] + c =~= x);
}


/// The comment line written for `x` after `key` is its own trim and starts
/// with `key`.
proof fn lemma_comment_line_trim(key: Seq<char>, x: Seq<char>)
    requires
        key.len() > 0,
        key[0] == '<',
    ensures
        trim(comment_line(key, x)) == comment_line(key, x),
        starts_with(comment_line(key, x), key),
{
    reveal_strlit(" -->");
    let l = comment_line(key, x);
    assert(l[0] == key[0]);
    assert(l.last() == '>');
    lemma_trim_fixed(l);
    assert(l.take(key.len() as int) =~= key);
}

/// The comment lines of a memo give back its metadata.
proof fn lemma_meta_lines_value(e: MemoTextView)
    requires
        meta_text_ok(e.id),
        meta_text_ok(e.timestamp),
        e.importance matches Some(x) ==> meta_text_ok(x),
    ensures
        memo_meta(meta_lines(e)) == (Some(e.id), Some(e.timestamp), e.importance),
{
    reveal_strlit("<!-- id: ");
    reveal_strlit("<!-- timestamp: ");
    reveal_strlit("<!-- importance: ");
    reveal_strlit("<!-- id:");
    reveal_strlit("<!-- timestamp:");
    reveal_strlit("<!-- importance:");
    let l1 = comment_line("<!-- id: "@, e.id);
    let l2 = comment_line("<!-- timestamp: "@, e.timestamp);
    lemma_comment_line_trim("<!-- id: "@, e.id);
    lemma_comment_line_trim("<!-- timestamp: "@, e.timestamp);
    assert(starts_with(l1, "<!-- id:"@)) by {
        assert(l1.take(8) =~= "<!-- id: "@.take(8));
        assert("<!-- id: "@.take(8) =~= "<!-- id:"@);
    }
    assert(l1 =~= "<!-- id:"@ + seq![' '] + e.id + " -->"@);
    lemma_comment_value("<!-- id:"@, e.id);
    assert(!starts_with(l2, "<!-- id:"@)) by {
        assert(l2.take(8)[5] == 't');
    }
    assert(starts_with(l2, "<!-- timestamp:"@)) by {
        assert(l2.take(15) =~= "<!-- timestamp:"@);
    }
    assert(l2 =~= "<!-- timestamp:"@ + seq![' '] + e.timestamp + " -->"@);
    lemma_comment_value("<!-- timestamp:"@, e.timestamp);
    let two = seq![l1, l2];
    assert(seq![l1].drop_last() =~= Seq::<Seq<char>>::empty());
    assert(seq![l1].last() == l1);
    assert(memo_meta(Seq::<Seq<char>>::empty()) == (None::<Seq<char>>, None::<Seq<char>>, None::<Seq<char>>));
    assert(two.drop_last() =~= seq![l1]);
    assert(two.last() == l2);
    assert(memo_meta(seq![l1]) == (Some(e.id), None::<Seq<char>>, None::<Seq<char>>));
    assert(memo_meta(two) == (Some(e.id), Some(e.timestamp), None::<Seq<char>>));
    match e.importance {
        Some(x) => {
            let l3 = comment_line("<!-- importance: "@, x);
            lemma_comment_line_trim("<!-- importance: "@, x);
            assert(!starts_with(l3, "<!-- id:"@)) by {
                assert(l3.take(8)[6] == 'm');
            }
            assert(!starts_with(l3, "<!-- timestamp:"@)) by {
                if 15 <= l3.len() {
                    assert(l3.take(15)[5] == 'i');
                }
            }
            assert(starts_with(l3, "<!-- importance:"@)) by {
                assert(l3.take(16) =~= "<!-- importance:"@);
            }
            assert(l3 =~= "<!-- importance:"@ + seq![' '] + x + " -->"@);
            lemma_comment_value("<!-- importance:"@, x);
            assert(meta_lines(e) =~= seq![l1, l2, l3]);
            assert(seq![l1, l2, l3].drop_last() =~= two);
        },
        None => {
            assert(meta_lines(e) =~= two);
        },
    }
}

/// A trimmed line that starts a metadata comment starts a comment.
proof fn lemma_meta_line_is_comment(line: Seq<char>)
    requires
        meta_line(line),
    ensures
        starts_with(trim(line), "<!-- "@),
{
    reveal_strlit("<!-- ");
    reveal_strlit("<!-- id:");
    reveal_strlit("<!-- timestamp:");
    reveal_strlit("<!-- importance:");
    let t = trim(line);
    if starts_with(t, "<!-- id:"@) {
        assert(t.take(5) =~= t.take(8).take(5));
        assert("<!-- id:"@.take(5) =~= "<!-- "@);
    } else if starts_with(t, "<!-- timestamp:"@) {
        assert(t.take(5) =~= t.take(15).take(5));
        assert("<!-- timestamp:"@.take(5) =~= "<!-- "@);
    } else {
        assert(t.take(5) =~= t.take(16).take(5));
        assert("<!-- importance:"@.take(5) =~= "<!-- "@);
    }
}

/// No comment line of a memo opens a section.
proof fn lemma_meta_lines_open_none(e: MemoTextView)
    ensures
        forall|j: int| 0 <= j < meta_lines(e).len() ==> !starts_with(#[trigger] meta_lines(e)[j], "## "@),
{
    reveal_strlit("## ");
    reveal_strlit("<!-- id: ");
    reveal_strlit("<!-- timestamp: ");
    reveal_strlit("<!-- importance: ");
    let pre = meta_lines(e);
    assert forall|j: int| 0 <= j < pre.len() implies !starts_with(#[trigger] pre[j], "## "@) by {
        let key = if j == 0 { "<!-- id: "@ } else if j == 1 { "<!-- timestamp: "@ } else { "<!-- importance: "@ };
        assert(pre[j][0] == key[0]);
        if 3 <= pre[j].len() {
            assert(pre[j].take(3)[0] == pre[j][0]);
        }
    }
}

/// The heading, the blank line after it and the lines of text that trimmed
/// start no comment start no metadata comment.
proof fn lemma_body_not_meta(h: Seq<char>, c: Seq<char>, rest: Seq<Seq<char>>)
    requires
        heading_ok(h),
        forall|k: int| 0 <= k < split_newlines(c).len() ==> !meta_line(#[trigger] split_newlines(c)[k]),
        rest == seq![h, Seq::<char>::empty()] + split_newlines(c),
    ensures
        forall|k: int| 0 <= k < rest.len() ==> !meta_line(#[trigger] rest[k]),
{
    let e0 = Seq::<char>::empty();
    reveal_strlit("<!-- id:");
    reveal_strlit("<!-- timestamp:");
    reveal_strlit("<!-- importance:");
    lemma_heading_not_meta(h);
    assert forall|k: int| 0 <= k < rest.len() implies !meta_line(#[trigger] rest[k]) by {
        if k == 0 {
            assert(rest[0] == h);
        } else if k == 1 {
            assert(rest[1] == e0);
            assert(trim(e0) =~= e0);
        } else {
            assert(rest[k] == split_newlines(c)[k - 2]);
        }
    }
}

/// A heading line starts no metadata comment.
proof fn lemma_heading_not_meta(h: Seq<char>)
    requires
        heading_ok(h),
    ensures
        !meta_line(h),
{
    reveal_strlit("## ");
    reveal_strlit("<!-- ");
    assert(h[0] == '#') by {
        assert(h.take(3)[0] == h[0]);
    }
    lemma_trim_fixed(h);
    if meta_line(h) {
        lemma_meta_line_is_comment(h);
        assert(h.take(5)[0] == h[0]);
    }
}

/// The block of a memo whose text is not empty, up to its rule, after a
/// line break or nothing, reads back as the memo.
proof fn lemma_block_section_text(e: MemoTextView, lead: Seq<char>)
    requires
        memo_round_trips(e),
        content_of(e.message).len() > 0,
        lead == Seq::<char>::empty() || lead == seq!['\n'],
    ensures
        memo_section(lead + meta_md(e) + message_md(e.message)) == Some(memo_read_back(e)),
{
    reveal_strlit("<!-- id: ");
    let m = e.message;
    let c = content_of(m);
    let h = crate::markdown::lemma_md_shape(m);
    let x = meta_md(e) + h + seq!['\n', '\n'] + c;
    assert(lead + meta_md(e) + message_md(m) =~= lead + x + seq!['\n']);
    crate::text::lemma_trimmed_ends(c);
    assert(x[0] == '<');
    assert(x.last() == c.last());
    lemma_trim_wrapped(lead, x, seq!['\n']);
    lemma_block_lines(e, h, c);
    let pre = meta_lines(e);
    lemma_meta_lines_open_none(e);
    crate::markdown::lemma_lines_read(x, pre, h, c);
    lemma_meta_lines_value(e);
    let rest = seq![h, Seq::<char>::empty()] + split_newlines(c);
    lemma_body_not_meta(h, c, rest);
    lemma_meta_after(pre, rest);
    assert(text_lines(x) =~= pre + rest);
}

/// The block of a memo whose text is empty, up to its rule, after a line
/// break or nothing, reads back as the memo.
proof fn lemma_block_section_empty(e: MemoTextView, lead: Seq<char>)
    requires
        memo_round_trips(e),
        content_of(e.message).len() == 0,
        lead == Seq::<char>::empty() || lead == seq!['\n'],
    ensures
        memo_section(lead + meta_md(e) + message_md(e.message)) == Some(memo_read_back(e)),
{
    reveal_strlit("<!-- id: ");
    reveal_strlit("## ");
    let m = e.message;
    let c = content_of(m);
    let h = crate::markdown::lemma_md_shape(m);
    let x = meta_md(e) + h;
    assert(lead + meta_md(e) + message_md(m) =~= lead + x + seq!['\n', '\n', '\n']);
    lemma_meta_breaks(e);
    assert(x[0] == '<');
    assert(x.last() == h.last());
    lemma_trim_wrapped(lead, x, seq!['\n', '\n', '\n']);
    let pre = meta_lines(e);
    lemma_meta_lines_split(e, h);
    assert(h.take(3)[0] == h[0]);
    lemma_meta_lines_end(e);
    assert forall|k: int| 0 <= k < split_newlines(x).len() && (#[trigger] split_newlines(x)[k]).len() > 0
        implies split_newlines(x)[k].last() != '\r' by {
        if k < pre.len() {
            assert(split_newlines(x)[k] == pre[k]);
        } else {
            assert(split_newlines(x)[k] == h);
        }
    }
    lemma_lines_from_pieces(x);
    lemma_meta_lines_open_none(e);
    crate::markdown::lemma_heading_only_reads(x, pre, h);
    lemma_meta_lines_value(e);
    lemma_heading_not_meta(h);
    assert forall|k: int| 0 <= k < seq![h].len() implies !meta_line(#[trigger] seq![h][k]) by {}
    lemma_meta_after(pre, seq![h]);
    assert(c =~= Seq::<char>::empty());
}

/// The block of a memo up to its rule, after a line break or nothing, reads
/// back as the memo.
proof fn lemma_block_section(e: MemoTextView, lead: Seq<char>)
    requires
        memo_round_trips(e),
        lead == Seq::<char>::empty() || lead == seq!['\n'],
    ensures
        memo_section(lead + meta_md(e) + message_md(e.message)) == Some(memo_read_back(e)),
{
    if content_of(e.message).len() > 0 {
        lemma_block_section_text(e, lead);
    } else {
        lemma_block_section_empty(e, lead);
    }
}

/// A message that its section carries through is written as its heading, a
/// blank line, its text and a line break.
proof fn lemma_md_form(m: MessageView) -> (h: Seq<char>)
    requires
        md_round_trips(m),
    ensures
        heading_ok(h),
        message_md(m) == h + seq!['\n', '\n'] + content_of(m) + seq!['\n'],
{
    crate::markdown::lemma_md_shape(m)
}

/// Whether no line break in `x` is followed by a dash.
pub open spec fn breaks_ok(x: Seq<char>) -> bool {
    forall|i: int| 0 <= i < x.len() - 1 && #[trigger] x[i] == '\n' ==> x[i + 1] != '-'
}

proof fn lemma_breaks_line(l: Seq<char>)
    requires
        forall|i: int| 0 <= i < l.len() ==> l[i] != '\n',
    ensures
        breaks_ok(l + seq!['\n']),
{
    let x = l + seq!['\n'];
    assert forall|i: int| 0 <= i < x.len() - 1 && #[trigger] x[i] == '\n' implies x[i + 1] != '-' by {
        assert(x[i] == l[i]);
    }
}

proof fn lemma_breaks_concat(x: Seq<char>, y: Seq<char>)
    requires
        breaks_ok(x),
        breaks_ok(y),
        x.len() > 0 && y.len() > 0 && x.last() == '\n' ==> y[0] != '-',
    ensures
        breaks_ok(x + y),
{
    let z = x + y;
    assert forall|i: int| 0 <= i < z.len() - 1 && #[trigger] z[i] == '\n' implies z[i + 1] != '-' by {
        if i < x.len() - 1 {
            assert(z[i] == x[i] && z[i + 1] == x[i + 1]);
        } else if i == x.len() - 1 {
            assert(z[i] == x.last());
            assert(z[i + 1] == y[0]);
        } else {
            assert(z[i] == y[i - x.len()] && z[i + 1] == y[i - x.len() + 1]);
        }
    }
}

/// In the comment lines of a memo no line break is followed by a dash; they
/// start with `<` and end with a line break.
proof fn lemma_meta_breaks(e: MemoTextView)
    requires
        meta_text_ok(e.id),
        meta_text_ok(e.timestamp),
        e.importance matches Some(x) ==> meta_text_ok(x),
    ensures
        breaks_ok(meta_md(e)),
        meta_md(e)[0] == '<',
        meta_md(e).last() == '\n',
{
    reveal_strlit("<!-- id: ");
    reveal_strlit("<!-- timestamp: ");
    reveal_strlit("<!-- importance: ");
    reveal_strlit(" -->\n");
    reveal_strlit(" -->");
    let l1 = comment_line("<!-- id: "@, e.id) + seq!['\n'];
    let l2 = comment_line("<!-- timestamp: "@, e.timestamp) + seq!['\n'];
    lemma_comment_line_plain("<!-- id: "@, e.id);
    lemma_comment_line_plain("<!-- timestamp: "@, e.timestamp);
    lemma_breaks_line(comment_line("<!-- id: "@, e.id));
    lemma_breaks_line(comment_line("<!-- timestamp: "@, e.timestamp));
    match e.importance {
        Some(x) => {
            let l3 = comment_line("<!-- importance: "@, x) + seq!['\n'];
            lemma_comment_line_plain("<!-- importance: "@, x);
            lemma_breaks_line(comment_line("<!-- importance: "@, x));
            lemma_breaks_concat(l2, l3);
            lemma_breaks_concat(l1, l2 + l3);
            assert(meta_md(e) =~= l1 + (l2 + l3));
        },
        None => {
            lemma_breaks_concat(l1, l2);
            assert(meta_md(e) =~= l1 + l2);
        },
    }
}

/// In the comment lines of a memo, followed by a heading and a blank line,
/// no line break is followed by a dash.
proof fn lemma_block_breaks(e: MemoTextView, lead: Seq<char>, h: Seq<char>)
    requires
        meta_text_ok(e.id),
        meta_text_ok(e.timestamp),
        e.importance matches Some(x) ==> meta_text_ok(x),
        heading_ok(h),
        lead == Seq::<char>::empty() || lead == seq!['\n'],
    ensures
        breaks_ok(lead + meta_md(e) + h + seq!['\n', '\n']),
{
    reveal_strlit("## ");
    assert(h.take(3)[0] == h[0]);
    lemma_meta_breaks(e);
    let hl = h + seq!['\n'];
    lemma_breaks_line(h);
    let nl = seq!['\n'];
    assert(breaks_ok(nl));
    lemma_breaks_concat(hl, nl);
    lemma_breaks_concat(meta_md(e), hl + nl);
    let body = meta_md(e) + (hl + nl);
    if lead.len() > 0 {
        lemma_breaks_concat(lead, body);
    }
    assert(lead + meta_md(e) + h + seq!['\n', '\n'] =~= lead + body);
}

/// In `pre + q + rest`, where no line break of `pre` and the one after it is
/// followed by a dash, `q` is a line break, text without rule lines and a
/// line break, and `rest` starts with a rule line, the first rule is the one
/// after `q`.
proof fn lemma_first_rule_after(pre: Seq<char>, c: Seq<char>, rest: Seq<char>)
    requires
        breaks_ok(pre + seq!['\n']),
        no_rule_line(c),
        rule_at(rest, 0),
    ensures
        first_rule(pre + (seq!['\n'] + c + seq!['\n']) + rest) == Some((pre.len() + c.len() + 2) as int),
{
    let q = seq!['\n'] + c + seq!['\n'];
    let s = pre + q + rest;
    let pn = pre + seq!['\n'];
    let p0 = pre.len() as int;
    let t = p0 + q.len();
    assert(s[t] == rest[0] && s[t + 1] == rest[1] && s[t + 2] == rest[2] && s[t + 3] == rest[3] && s[t + 4] == rest[4]);
    assert(rule_at(s, t));
    assert(s[t - 1] == '\n');
    assert forall|j: int| 0 <= j < t implies !#[trigger] rule_at(s, j) by {
        if j < p0 {
            assert(s[j] == pn[j] && s[j + 1] == pn[j + 1]);
        } else if j + 5 <= t {
            assert(s[j] == q[j - p0] && s[j + 1] == q[j - p0 + 1] && s[j + 2] == q[j - p0 + 2]
                && s[j + 3] == q[j - p0 + 3] && s[j + 4] == q[j - p0 + 4]);
            assert(!rule_at(q, j - p0));
        }
    }
    lemma_first_rule(s, t);
}

/// Splitting at rule lines takes the block of a memo off the front: the
/// first piece is its comments and section, the rest starts with the line
/// break after its rule.
proof fn lemma_block_split(e: MemoTextView, lead: Seq<char>, r: Seq<char>)
    requires
        memo_round_trips(e),
        lead == Seq::<char>::empty() || lead == seq!['\n'],
    ensures
        rule_pieces(lead + memo_md(e) + r) == seq![lead + meta_md(e) + message_md(e.message)] + rule_pieces(seq!['\n'] + r),
{
    reveal_strlit("\n---\n\n");
    let m = e.message;
    let c = content_of(m);
    let h = lemma_md_form(m);
    let pre = lead + meta_md(e) + h + seq!['\n'];
    let q = seq!['\n'] + c + seq!['\n'];
    let tail = "\n---\n\n"@ + r;
    let s = lead + memo_md(e) + r;
    assert(s =~= pre + q + tail);
    assert(rule_at(tail, 0));
    lemma_block_breaks(e, lead, h);
    assert(pre + seq!['\n'] =~= lead + meta_md(e) + h + seq!['\n', '\n']);
    lemma_first_rule_after(pre, c, tail);
    let t = (pre.len() + c.len() + 2) as int;
    assert(s.take(t) =~= lead + meta_md(e) + message_md(m));
    assert(s.skip(t + 5) =~= seq!['\n'] + r);
}

proof fn lemma_read_memos_prepend(x: Seq<char>, rest: Seq<Seq<char>>)
    ensures
        read_memos(seq![x] + rest) == (match memo_section(x) {
            Some(v) => seq![v],
            None => Seq::empty(),
        }) + read_memos(rest),
    decreases rest.len(),
{
    let head = match memo_section(x) {
        Some(v) => seq![v],
        None => Seq::<MemoSectionView>::empty(),
    };
    if rest.len() == 0 {
        assert(seq![x] + rest =~= seq![x]);
        assert(seq![x].drop_last() =~= Seq::<Seq<char>>::empty());
        assert(seq![x].last() == x);
        assert(read_memos(Seq::<Seq<char>>::empty()) =~= Seq::<MemoSectionView>::empty());
        assert(read_memos(seq![x]) =~= head);
        assert(head + read_memos(rest) =~= head);
    } else {
        assert((seq![x] + rest).drop_last() =~= seq![x] + rest.drop_last());
        assert((seq![x] + rest).last() == rest.last());
        lemma_read_memos_prepend(x, rest.drop_last());
        match memo_section(rest.last()) {
            Some(v) => {
                assert(head + read_memos(rest.drop_last()).push(v) =~= (head + read_memos(rest.drop_last())).push(v));
            },
            None => {},
        }
    }
}

/// Nothing but a line break, or nothing, holds no memo.
proof fn lemma_no_memos(lead: Seq<char>)
    requires
        lead == Seq::<char>::empty() || lead == seq!['\n'],
    ensures
        read_memos(rule_pieces(lead)) == Seq::<MemoSectionView>::empty(),
{
    assert(first_rule(lead) is None);
    assert(rule_pieces(lead) == seq![lead]);
    if lead.len() > 0 {
        assert(is_whitespace(lead[0]));
        crate::text::lemma_leading_ws(lead, 1);
    }
    assert(trim(lead).len() == 0);
    assert(memo_section(lead) is None);
    assert(seq![lead].drop_last() =~= Seq::<Seq<char>>::empty());
    assert(seq![lead].last() == lead);
    assert(read_memos(Seq::<Seq<char>>::empty()) =~= Seq::<MemoSectionView>::empty());
}

proof fn lemma_memos_from(es: Seq<MemoTextView>, lead: Seq<char>)
    requires
        forall|k: int| 0 <= k < es.len() ==> memo_round_trips(#[trigger] es[k]),
        lead == Seq::<char>::empty() || lead == seq!['\n'],
    ensures
        read_memos(rule_pieces(lead + memos_md(es))) == es.map_values(|e: MemoTextView| memo_read_back(e)),
    decreases es.len(),
{
    if es.len() == 0 {
        assert(lead + memos_md(es) =~= lead);
        lemma_no_memos(lead);
        assert(es.map_values(|e: MemoTextView| memo_read_back(e)) =~= Seq::<MemoSectionView>::empty());
    } else {
        let e = es[0];
        let rest = es.drop_first();
        let r = memos_md(rest);
        assert(lead + memos_md(es) =~= lead + memo_md(e) + r);
        assert(memo_round_trips(es[0]));
        lemma_block_split(e, lead, r);
        lemma_block_section(e, lead);
        assert forall|k: int| 0 <= k < rest.len() implies memo_round_trips(#[trigger] rest[k]) by {
            assert(rest[k] == es[k + 1]);
        }
        lemma_memos_from(rest, seq!['\n']);
        let piece = lead + meta_md(e) + message_md(e.message);
        lemma_read_memos_prepend(piece, rule_pieces(seq!['\n'] + r));
        assert(es.map_values(|e: MemoTextView| memo_read_back(e))
            =~= seq![memo_read_back(e)] + rest.map_values(|e: MemoTextView| memo_read_back(e)));
    }
}

/// Writing memos as Markdown and reading the text back gives each memo's
/// id, time, importance and message again, in order, when Markdown carries
/// each through unchanged (see `memo_round_trips`).
pub proof fn law_memos_round_trip(es: Seq<MemoTextView>)
    requires
        forall|k: int| 0 <= k < es.len() ==> memo_round_trips(#[trigger] es[k]),
    ensures
        markdown_memos(memos_md(es)) == es.map_values(|e: MemoTextView| memo_read_back(e)),
{
    lemma_memos_from(es, Seq::<char>::empty());
    assert(Seq::<char>::empty() + memos_md(es) =~= memos_md(es));
}

} // verus!
