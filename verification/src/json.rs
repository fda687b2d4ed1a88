use vstd::prelude::*;

verus! {

/// A JSON number as the library holds it: an unsigned integer, a negative
/// integer, or the text of any other number (a fraction or an exponent form).
#[derive(Debug)]
pub enum JsonNumber {
    PosInt(u64),
    NegInt(i64),
    Other(String),
}

/// A JSON document held as plain values.  Object members keep their order.
#[derive(Debug)]
pub enum JsonValue {
    Null,
    Bool(bool),
    Number(JsonNumber),
    Str(String),
    Array(Vec<JsonValue>),
    Object(Vec<(String, JsonValue)>),
}

pub enum NumberView {
    PosInt(u64),
    NegInt(i64),
    Other(Seq<char>),
}

pub enum JsonView {
    Null,
    Bool(bool),
    Number(NumberView),
    Str(Seq<char>),
    Array(Seq<JsonView>),
    Object(Seq<(Seq<char>, JsonView)>),
}

impl View for JsonNumber {
    type V = NumberView;

    open spec fn view(&self) -> NumberView {
        match self {
            JsonNumber::PosInt(n) => NumberView::PosInt(*n),
            JsonNumber::NegInt(n) => NumberView::NegInt(*n),
            JsonNumber::Other(s) => NumberView::Other(s@),
        }
    }
}

pub open spec fn json_view(v: JsonValue) -> JsonView
    decreases v, 0int,
{
    match v {
        JsonValue::Null => JsonView::Null,
        JsonValue::Bool(b) => JsonView::Bool(b),
        JsonValue::Number(n) => JsonView::Number(n@),
        JsonValue::Str(s) => JsonView::Str(s@),
        JsonValue::Array(items) => JsonView::Array(json_seq_view(items@)),
        JsonValue::Object(members) => JsonView::Object(members_view(members@)),
    }
}

pub open spec fn json_seq_view(s: Seq<JsonValue>) -> Seq<JsonView>
    decreases s, 1int,
{
    if s.len() == 0 {
        Seq::empty()
    } else {
        json_seq_view(s.drop_last()).push(json_view(s.last()))
    }
}

pub open spec fn members_view(s: Seq<(String, JsonValue)>) -> Seq<(Seq<char>, JsonView)>
    decreases s, 1int,
{
    if s.len() == 0 {
        Seq::empty()
    } else {
        members_view(s.drop_last()).push((s.last().0@, json_view(s.last().1)))
    }
}

impl View for JsonValue {
    type V = JsonView;

    open spec fn view(&self) -> JsonView {
        json_view(*self)
    }
}


pub proof fn lemma_json_seq_view(s: Seq<JsonValue>)
    ensures
        json_seq_view(s).len() == s.len(),
        forall|i: int| 0 <= i < s.len() ==> #[trigger] json_seq_view(s)[i] == json_view(s[i]),
    decreases s.len(),
{
    if s.len() > 0 {
        lemma_json_seq_view(s.drop_last());
    }
}

pub proof fn lemma_members_view(s: Seq<(String, JsonValue)>)
    ensures
        members_view(s).len() == s.len(),
        forall|i: int| 0 <= i < s.len() ==> #[trigger] members_view(s)[i] == (s[i].0@, json_view(s[i].1)),
    decreases s.len(),
{
    if s.len() > 0 {
        lemma_members_view(s.drop_last());
    }
}

impl Clone for JsonNumber {
    fn clone(&self) -> (r: Self)
        ensures r@ == self@,
    {
        match self {
            JsonNumber::PosInt(n) => JsonNumber::PosInt(*n),
            JsonNumber::NegInt(n) => JsonNumber::NegInt(*n),
            JsonNumber::Other(s) => JsonNumber::Other(s.clone()),
        }
    }
}

impl Clone for JsonValue {
    fn clone(&self) -> (r: Self)
        ensures r@ == self@,
        decreases self,
    {
        match self {
            JsonValue::Null => JsonValue::Null,
            JsonValue::Bool(b) => JsonValue::Bool(*b),
            JsonValue::Number(n) => JsonValue::Number(n.clone()),
            JsonValue::Str(s) => JsonValue::Str(s.clone()),
            JsonValue::Array(items) => {
                let mut out: Vec<JsonValue> = Vec::new();
                let mut i: usize = 0;
                while i < items.len()
                    invariant
                        i <= items.len(),
                        out@.len() == i,
                        *self == JsonValue::Array(*items),
                        forall|j: int| 0 <= j < i ==> #[trigger] json_view(out@[j]) == json_view(items@[j]),
                    decreases items.len() - i,
                {
                    proof {
                                                assert(decreases_to!(*self => (*self)->Array_0));
                        assert(decreases_to!(*items => items@));
                        assert(decreases_to!(items@ => items@[i as int]));
                    }
                    let c = items[i].clone();
                    out.push(c);
                    i = i + 1;
                }
                proof {
                    lemma_json_seq_view(out@);
                    lemma_json_seq_view(items@);
                    assert(json_seq_view(out@) =~= json_seq_view(items@));
                }
                JsonValue::Array(out)
            },
            JsonValue::Object(members) => {
                let mut out: Vec<(String, JsonValue)> = Vec::new();
                let mut i: usize = 0;
                while i < members.len()
                    invariant
                        i <= members.len(),
                        out@.len() == i,
                        *self == JsonValue::Object(*members),
                        forall|j: int| 0 <= j < i ==> #[trigger] out@[j].0@ == members@[j].0@
                            && json_view(out@[j].1) == json_view(members@[j].1),
                    decreases members.len() - i,
                {
                    proof {
                                                assert(decreases_to!(*self => (*self)->Object_0));
                        assert(decreases_to!(*members => members@));
                        assert(decreases_to!(members@ => members@[i as int]));
                        assert(decreases_to!(members@[i as int] => members@[i as int].1));
                    }
                    let k = members[i].0.clone();
                    let v = members[i].1.clone();
                    out.push((k, v));
                    i = i + 1;
                }
                proof {
                    lemma_members_view(out@);
                    lemma_members_view(members@);
                    assert(members_view(out@) =~= members_view(members@));
                }
                JsonValue::Object(out)
            },
        }
    }
}


// ---------------------------------------------------------------------------
// Text of a JSON value, in the compact form
// ---------------------------------------------------------------------------

/// A hexadecimal digit, in lower case.
pub open spec fn hex_digit(d: nat) -> char {
    if d < 10 {
        digit_char(d)
    } else if d == 10 {
        'a'
    } else if d == 11 {
        'b'
    } else if d == 12 {
        'c'
    } else if d == 13 {
        'd'
    } else if d == 14 {
        'e'
    } else {
        'f'
    }
}

/// How a character stands inside a JSON string literal: the quote and the
/// backslash escaped, the control characters below U+0020 by their short
/// escape or as `\u00` and two hexadecimal digits, everything else as it is.
pub open spec fn escaped_char(c: char) -> Seq<char> {
    if c == '"' {
        seq!['\\', '"']
    } else if c == '\\' {
        seq!['\\', '\\']
    } else if c == '\x08' {
        seq!['\\', 'b']
    } else if c == '\t' {
        seq!['\\', 't']
    } else if c == '\n' {
        seq!['\\', 'n']
    } else if c == '\x0C' {
        seq!['\\', 'f']
    } else if c == '\r' {
        seq!['\\', 'r']
    } else if (c as nat) < 0x20 {
        seq!['\\', 'u', '0', '0', hex_digit((c as nat) / 16), hex_digit((c as nat) % 16)]
    } else {
        seq![c]
    }
}

/// The characters of `s`, each as it stands inside a JSON string literal.
pub open spec fn escaped(s: Seq<char>) -> Seq<char>
    decreases s.len(),
{
    if s.len() == 0 {
        Seq::empty()
    } else {
        escaped(s.drop_last()) + escaped_char(s.last())
    }
}

/// The quoted and escaped JSON string literal for `s`, as serde_json writes it.
pub open spec fn json_quoted(s: Seq<char>) -> Seq<char> {
    seq!['"'] + escaped(s) + seq!['"']
}

/// Writes `s` as a JSON string literal, with serde_json's `to_string`: a
/// quote, each character as `escaped_char` gives it (serde_json's escape
/// table), and a quote. Serializing a string cannot fail, so the error arm
/// is never taken.
#[verifier::external_body]
pub(crate) fn json_quote(s: &str) -> (r: String)
    ensures
        r@ == json_quoted(s@),
{
    match serde_json::to_string(s) {
        Ok(t) => t,
        Err(_) => String::new(),
    }
}

/// Appends one character.
#[verifier::external_body]
pub(crate) fn push_char(s: &mut String, c: char)
    ensures
        final(s)@ == old(s)@.push(c),
{
    s.push(c)
}

pub open spec fn digit_char(d: nat) -> char {
    if d == 0 { '0' } else if d == 1 { '1' } else if d == 2 { '2' } else if d == 3 { '3' }
    else if d == 4 { '4' } else if d == 5 { '5' } else if d == 6 { '6' } else if d == 7 { '7' }
    else if d == 8 { '8' } else { '9' }
}

/// The decimal digits of `n`, most significant first.
pub open spec fn decimal(n: nat) -> Seq<char>
    decreases n,
{
    if n < 10 {
        seq![digit_char(n)]
    } else {
        decimal(n / 10).push(digit_char(n % 10))
    }
}

fn digit(d: u64) -> (c: char)
    requires
        d < 10,
    ensures
        c == digit_char(d as nat),
{
    if d == 0 { '0' } else if d == 1 { '1' } else if d == 2 { '2' } else if d == 3 { '3' }
    else if d == 4 { '4' } else if d == 5 { '5' } else if d == 6 { '6' } else if d == 7 { '7' }
    else if d == 8 { '8' } else { '9' }
}

/// The decimal text of `n`.
pub fn decimal_string(n: u64) -> (r: String)
    ensures
        r@ == decimal(n as nat),
    decreases n,
{
    if n < 10 {
        let mut s = String::new();
        push_char(&mut s, digit(n));
        s
    } else {
        let mut s = decimal_string(n / 10);
        push_char(&mut s, digit(n % 10));
        s
    }
}

pub open spec fn number_text(n: NumberView) -> Seq<char> {
    match n {
        NumberView::PosInt(u) => decimal(u as nat),
        NumberView::NegInt(i) => if i < 0 {
            seq!['-'] + decimal((-(i as int)) as nat)
        } else {
            decimal(i as nat)
        },
        NumberView::Other(t) => t,
    }
}

/// The compact JSON text of a value (no spaces; members in their order).
pub open spec fn json_text(v: JsonView) -> Seq<char>
    decreases v, 0int,
{
    match v {
        JsonView::Null => seq!['n', 'u', 'l', 'l'],
        JsonView::Bool(b) => if b { seq!['t', 'r', 'u', 'e'] } else { seq!['f', 'a', 'l', 's', 'e'] },
        JsonView::Number(n) => number_text(n),
        JsonView::Str(s) => json_quoted(s),
        JsonView::Array(items) => seq!['['] + items_text(items) + seq![']'],
        JsonView::Object(ms) => seq!['{'] + members_text(ms) + seq!['}'],
    }
}

pub open spec fn items_text(items: Seq<JsonView>) -> Seq<char>
    decreases items, 1int,
{
    if items.len() == 0 {
        Seq::empty()
    } else if items.len() == 1 {
        json_text(items[0])
    } else {
        items_text(items.drop_last()) + seq![','] + json_text(items.last())
    }
}

pub open spec fn member_text(m: (Seq<char>, JsonView)) -> Seq<char>
    decreases m, 0int,
{
    json_quoted(m.0) + seq![':'] + json_text(m.1)
}

pub open spec fn members_text(ms: Seq<(Seq<char>, JsonView)>) -> Seq<char>
    decreases ms, 1int,
{
    if ms.len() == 0 {
        Seq::empty()
    } else if ms.len() == 1 {
        member_text(ms[0])
    } else {
        members_text(ms.drop_last()) + seq![','] + member_text(ms.last())
    }
}

fn append_string(s: &mut String, t: &String)
    ensures
        final(s)@ == old(s)@ + t@,
{
    s.append(t.as_str());
}

/// The compact JSON text of `v`, as serde_json's `to_string` writes it.
pub fn json_to_text(v: &JsonValue) -> (r: String)
    ensures
        r@ == json_text(v@),
    decreases v,
{
    match v {
        JsonValue::Null => {
            let r = String::from_str("null");
            proof { reveal_strlit("null"); }
            r
        },
        JsonValue::Bool(b) => {
            if *b {
                let r = String::from_str("true");
                proof { reveal_strlit("true"); }
                r
            } else {
                let r = String::from_str("false");
                proof { reveal_strlit("false"); }
                r
            }
        },
        JsonValue::Number(n) => match n {
            JsonNumber::PosInt(u) => decimal_string(*u),
            JsonNumber::NegInt(i) => {
                if *i < 0 {
                    let mag: u64 = if *i == i64::MIN { 9223372036854775808u64 } else { (-*i) as u64 };
                    let mut r = String::new();
                    push_char(&mut r, '-');
                    let d = decimal_string(mag);
                    append_string(&mut r, &d);
                    proof { assert(r@ =~= seq!['-'] + d@); }
                    r
                } else {
                    decimal_string(*i as u64)
                }
            },
            JsonNumber::Other(t) => t.clone(),
        },
        JsonValue::Str(s) => json_quote(s.as_str()),
        JsonValue::Array(items) => {
            let mut r = String::new();
            push_char(&mut r, '[');
            let mut i: usize = 0;
            while i < items.len()
                invariant
                    i <= items.len(),
                    *v == JsonValue::Array(*items),
                    r@ == seq!['['] + items_text(json_seq_view(items@).subrange(0, i as int)),
                decreases items.len() - i,
            {
                proof {
                    assert(decreases_to!(*v => (*v)->Array_0));
                    assert(decreases_to!(*items => items@));
                    assert(decreases_to!(items@ => items@[i as int]));
                    lemma_json_seq_view(items@);
                }
                let ghost before = r@;
                if i > 0 {
                    push_char(&mut r, ',');
                }
                let t = json_to_text(&items[i]);
                append_string(&mut r, &t);
                proof {
                    let sv = json_seq_view(items@);
                    assert(sv.subrange(0, i as int + 1).drop_last() =~= sv.subrange(0, i as int));
                    if i == 0 {
                        assert(sv.subrange(0, 1)[0] == sv[0]);
                    }
                    assert(r@ =~= seq!['['] + items_text(sv.subrange(0, i as int + 1)));
                }
                i = i + 1;
            }
            push_char(&mut r, ']');
            proof {
                lemma_json_seq_view(items@);
                assert(json_seq_view(items@).subrange(0, items@.len() as int) =~= json_seq_view(items@));
            }
            r
        },
        JsonValue::Object(ms) => {
            let mut r = String::new();
            push_char(&mut r, '{');
            let mut i: usize = 0;
            while i < ms.len()
                invariant
                    i <= ms.len(),
                    *v == JsonValue::Object(*ms),
                    r@ == seq!['{'] + members_text(members_view(ms@).subrange(0, i as int)),
                decreases ms.len() - i,
            {
                proof {
                    assert(decreases_to!(*v => (*v)->Object_0));
                    assert(decreases_to!(*ms => ms@));
                    assert(decreases_to!(ms@ => ms@[i as int]));
                    assert(decreases_to!(ms@[i as int] => ms@[i as int].1));
                    lemma_members_view(ms@);
                }
                if i > 0 {
                    push_char(&mut r, ',');
                }
                let k = json_quote(ms[i].0.as_str());
                append_string(&mut r, &k);
                push_char(&mut r, ':');
                let t = json_to_text(&ms[i].1);
                append_string(&mut r, &t);
                proof {
                    let sv = members_view(ms@);
                    assert(sv.subrange(0, i as int + 1).drop_last() =~= sv.subrange(0, i as int));
                    if i == 0 {
                        assert(sv.subrange(0, 1)[0] == sv[0]);
                    }
                    assert(member_text(sv[i as int]) =~= k@ + seq![':'] + t@);
                    assert(r@ =~= seq!['{'] + members_text(sv.subrange(0, i as int + 1)));
                }
                i = i + 1;
            }
            push_char(&mut r, '}');
            proof {
                lemma_members_view(ms@);
                assert(members_view(ms@).subrange(0, ms@.len() as int) =~= members_view(ms@));
            }
            r
        },
    }
}

// ---------------------------------------------------------------------------
// Object members
// ---------------------------------------------------------------------------

/// The value of the first member named `key`.
pub open spec fn obj_get(ms: Seq<(Seq<char>, JsonView)>, key: Seq<char>) -> Option<JsonView>
    decreases ms.len(),
{
    if ms.len() == 0 {
        None
    } else if ms[0].0 == key {
        Some(ms[0].1)
    } else {
        obj_get(ms.drop_first(), key)
    }
}

pub proof fn lemma_obj_get(ms: Seq<(Seq<char>, JsonView)>, key: Seq<char>, i: int)
    requires
        0 <= i <= ms.len(),
        forall|j: int| 0 <= j < i ==> (#[trigger] ms[j]).0 != key,
        i < ms.len() ==> ms[i].0 == key,
    ensures
        obj_get(ms, key) == if i < ms.len() { Some(ms[i].1) } else { None::<JsonView> },
    decreases ms.len(),
{
    if ms.len() > 0 && i > 0 {
        assert forall|j: int| 0 <= j < i - 1 implies (#[trigger] ms.drop_first()[j]).0 != key by {
            assert(ms.drop_first()[j] == ms[j + 1]);
        }
        lemma_obj_get(ms.drop_first(), key, i - 1);
    }
}

/// A copy of an object's members.
pub fn copy_members(ms: &Vec<(String, JsonValue)>) -> (r: Vec<(String, JsonValue)>)
    ensures
        members_view(r@) == members_view(ms@),
{
    let mut out: Vec<(String, JsonValue)> = Vec::new();
    let mut i: usize = 0;
    while i < ms.len()
        invariant
            i <= ms@.len(),
            out@.len() == i,
            forall|j: int| 0 <= j < i ==> (#[trigger] out@[j]).0@ == ms@[j].0@ && out@[j].1@ == ms@[j].1@,
        decreases ms@.len() - i,
    {
        out.push((ms[i].0.clone(), ms[i].1.clone()));
        i = i + 1;
    }
    proof {
        lemma_members_view(out@);
        lemma_members_view(ms@);
        assert(members_view(out@) =~= members_view(ms@));
    }
    out
}

/// The position of the first member named `key`.
pub fn find_member(ms: &Vec<(String, JsonValue)>, key: &str) -> (r: Option<usize>)
    ensures
        match r {
            Some(i) => i < ms@.len() && ms@[i as int].0@ == key@
                && obj_get(members_view(ms@), key@) == Some(json_view(ms@[i as int].1)),
            None => obj_get(members_view(ms@), key@) is None,
        },
{
    let key_s = String::from_str(key);
    let mut i: usize = 0;
    while i < ms.len()
        invariant
            i <= ms.len(),
            key_s@ == key@,
            forall|j: int| 0 <= j < i ==> (#[trigger] ms@[j]).0@ != key@,
        decreases ms.len() - i,
    {
        if ms[i].0 == key_s {
            proof {
                lemma_members_view(ms@);
                assert forall|j: int| 0 <= j < i implies (#[trigger] members_view(ms@)[j]).0 != key@ by {
                    assert(ms@[j].0@ != key@);
                }
                lemma_obj_get(members_view(ms@), key@, i as int);
            }
            return Some(i);
        }
        i = i + 1;
    }
    proof {
        lemma_members_view(ms@);
        assert forall|j: int| 0 <= j < ms@.len() implies (#[trigger] members_view(ms@)[j]).0 != key@ by {
            assert(ms@[j].0@ != key@);
        }
        lemma_obj_get(members_view(ms@), key@, ms@.len() as int);
    }
    None
}


// ---------------------------------------------------------------------------
// Inserting into objects the way a sorted map does
// ---------------------------------------------------------------------------

/// Lexicographic order of character sequences (by code point), as `String`'s
/// `Ord` orders them.
pub open spec fn key_lt(a: Seq<char>, b: Seq<char>) -> bool
    decreases a.len(),
{
    if a.len() == 0 {
        b.len() > 0
    } else if b.len() == 0 {
        false
    } else if a[0] != b[0] {
        (a[0] as u32) < (b[0] as u32)
    } else {
        key_lt(a.drop_first(), b.drop_first())
    }
}

/// Whether `a` sorts before `b`.
pub fn string_lt(a: &str, b: &str) -> (r: bool)
    ensures
        r == key_lt(a@, b@),
{
    let ac = crate::text::chars_of(a);
    let bc = crate::text::chars_of(b);
    let mut i: usize = 0;
    proof {
        assert(a@.subrange(0, a@.len() as int) =~= a@);
        assert(b@.subrange(0, b@.len() as int) =~= b@);
    }
    while i < ac.len() && i < bc.len() && ac[i] == bc[i]
        invariant
            i <= ac@.len(),
            i <= bc@.len(),
            ac@ == a@,
            bc@ == b@,
            key_lt(a@, b@) == key_lt(a@.subrange(i as int, a@.len() as int), b@.subrange(i as int, b@.len() as int)),
        decreases ac.len() - i,
    {
        proof {
            let sa = a@.subrange(i as int, a@.len() as int);
            let sb = b@.subrange(i as int, b@.len() as int);
            assert(sa.drop_first() =~= a@.subrange(i as int + 1, a@.len() as int));
            assert(sb.drop_first() =~= b@.subrange(i as int + 1, b@.len() as int));
        }
        i = i + 1;
    }
    if i == ac.len() {
        i < bc.len()
    } else if i == bc.len() {
        false
    } else {
        (ac[i] as u32) < (bc[i] as u32)
    }
}

/// The position of the first member whose key sorts after `k`.
pub open spec fn sorted_position(ms: Seq<(Seq<char>, JsonView)>, k: Seq<char>) -> int
    decreases ms.len(),
{
    if ms.len() == 0 {
        0
    } else if key_lt(k, ms[0].0) {
        0
    } else {
        1 + sorted_position(ms.drop_first(), k)
    }
}

/// The position of the first member named `k`.
pub open spec fn key_position(ms: Seq<(Seq<char>, JsonView)>, k: Seq<char>) -> Option<int>
    decreases ms.len(),
{
    if ms.len() == 0 {
        None
    } else if ms[0].0 == k {
        Some(0)
    } else {
        match key_position(ms.drop_first(), k) {
            Some(i) => Some(i + 1),
            None => None,
        }
    }
}

/// `ms` with `k` set to `v`: the value of an existing member replaced, or a
/// new member placed before the first key that sorts after `k` (so a sorted
/// object stays sorted).
pub open spec fn obj_insert(ms: Seq<(Seq<char>, JsonView)>, k: Seq<char>, v: JsonView) -> Seq<(Seq<char>, JsonView)> {
    match key_position(ms, k) {
        Some(i) => ms.update(i, (k, v)),
        None => ms.insert(sorted_position(ms, k), (k, v)),
    }
}

/// Every member of `b` set into `a`, in order.
pub open spec fn obj_insert_all(a: Seq<(Seq<char>, JsonView)>, b: Seq<(Seq<char>, JsonView)>) -> Seq<(Seq<char>, JsonView)>
    decreases b.len(),
{
    if b.len() == 0 {
        a
    } else {
        let prev = obj_insert_all(a, b.drop_last());
        obj_insert(prev, b.last().0, b.last().1)
    }
}

proof fn lemma_key_position(ms: Seq<(Seq<char>, JsonView)>, k: Seq<char>, i: int)
    requires
        0 <= i <= ms.len(),
        forall|j: int| 0 <= j < i ==> (#[trigger] ms[j]).0 != k,
        i < ms.len() ==> ms[i].0 == k,
    ensures
        key_position(ms, k) == if i < ms.len() { Some(i) } else { None::<int> },
    decreases ms.len(),
{
    if ms.len() > 0 && i > 0 {
        assert forall|j: int| 0 <= j < i - 1 implies (#[trigger] ms.drop_first()[j]).0 != k by {
            assert(ms.drop_first()[j] == ms[j + 1]);
        }
        lemma_key_position(ms.drop_first(), k, i - 1);
    }
}

proof fn lemma_sorted_position(ms: Seq<(Seq<char>, JsonView)>, k: Seq<char>, i: int)
    requires
        0 <= i <= ms.len(),
        forall|j: int| 0 <= j < i ==> !key_lt(k, (#[trigger] ms[j]).0),
        i < ms.len() ==> key_lt(k, ms[i].0),
    ensures
        sorted_position(ms, k) == i,
    decreases ms.len(),
{
    if ms.len() > 0 && i > 0 {
        assert forall|j: int| 0 <= j < i - 1 implies !key_lt(k, (#[trigger] ms.drop_first()[j]).0) by {
            assert(ms.drop_first()[j] == ms[j + 1]);
        }
        lemma_sorted_position(ms.drop_first(), k, i - 1);
    }
}

/// Sets `k` to `v` in the members; see `obj_insert`.
pub fn object_insert(ms: &mut Vec<(String, JsonValue)>, k: String, v: JsonValue)
    ensures
        members_view(final(ms)@) == obj_insert(members_view(old(ms)@), k@, v@),
{
    let ghost mv = members_view(ms@);
    proof { lemma_members_view(ms@); }
    let mut i: usize = 0;
    while i < ms.len()
        invariant
            i <= ms.len(),
            mv == members_view(ms@),
            mv == members_view(old(ms)@),
            mv.len() == ms@.len(),
            forall|j: int| 0 <= j < ms@.len() ==> #[trigger] mv[j] == (ms@[j].0@, json_view(ms@[j].1)),
            forall|j: int| 0 <= j < i ==> (#[trigger] mv[j]).0 != k@,
        decreases ms.len() - i,
    {
        if ms[i].0 == k {
            proof { lemma_key_position(mv, k@, i as int); }
            let ghost kv = k@;
            let ghost vv = v@;
            ms.set(i, (k, v));
            proof {
                lemma_members_view(ms@);
                assert(members_view(ms@) =~= mv.update(i as int, (kv, vv)));
                assert(key_position(mv, k@) == Some(i as int));
                assert(obj_insert(mv, k@, v@) == mv.update(i as int, (k@, v@)));
            }
            return;
        }
        i = i + 1;
    }
    proof { lemma_key_position(mv, k@, mv.len() as int); }
    let mut p: usize = 0;
    while p < ms.len()
        invariant_except_break
            p <= ms.len(),
            mv == members_view(ms@),
            mv == members_view(old(ms)@),
            mv.len() == ms@.len(),
            forall|j: int| 0 <= j < ms@.len() ==> #[trigger] mv[j] == (ms@[j].0@, json_view(ms@[j].1)),
            forall|j: int| 0 <= j < p ==> !key_lt(k@, (#[trigger] mv[j]).0),
        ensures
            p <= ms.len(),
            mv == members_view(ms@),
            mv == members_view(old(ms)@),
            mv.len() == ms@.len(),
            forall|j: int| 0 <= j < ms@.len() ==> #[trigger] mv[j] == (ms@[j].0@, json_view(ms@[j].1)),
            forall|j: int| 0 <= j < p ==> !key_lt(k@, (#[trigger] mv[j]).0),
            p < ms.len() ==> key_lt(k@, mv[p as int].0),
        decreases ms.len() - p,
    {
        if string_lt(k.as_str(), ms[p].0.as_str()) {
            break;
        }
        p = p + 1;
    }
    proof { lemma_sorted_position(mv, k@, p as int); }
    let ghost kv = k@;
    let ghost vv = v@;
    ms.insert(p, (k, v));
    proof {
        lemma_members_view(ms@);
        assert(members_view(ms@) =~= mv.insert(p as int, (kv, vv)));
    }
}

} // verus!
