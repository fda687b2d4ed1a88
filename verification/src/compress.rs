use vstd::prelude::*;

use crate::codec::{encode_message, message_json};
use crate::context::{first_named, conversation_of, decode_messages, decoded_messages, first_conversation, layers_view, strings_view, Context, KindView, Layer, LayerKind, LayerView, MetaView};
use crate::json::{json_seq_view, json_view, lemma_json_seq_view, JsonValue, JsonView};
use crate::memory::{MemoryError, MemoryStore};
use crate::message::{call_arguments, call_name, messages_view, opt_str, Message, MessageView, ToolCallView};
use crate::text::{split_newlines, split_on_newlines, blank, chars_of, concat2, concat3, is_blank, join, join_strings, string_of, strs_view, trim, trim_str};
use crate::json::{decimal, decimal_string, json_text, json_to_text, obj_get};
use crate::codec::get_field;
use crate::models::ChatError;

verus! {

/// Why compressing a context failed.
#[derive(Debug)]
pub enum CompressionError {
    InvalidConversationLayer(String),
    IncompatibleLayerAction { layer: String, action: String },
    EmptySummary,
    Memory(MemoryError),
    Chat(ChatError),
}

// ---------------------------------------------------------------------------
// Rules
// ---------------------------------------------------------------------------

/// Which layers a rule applies to.
#[derive(Debug)]
pub struct LayerSelector {
    pub name: Option<String>,
    pub kind: Option<LayerKind>,
    pub tags: Vec<String>,
    pub include_readonly: bool,
}

/// What a rule does to a layer it selects.
#[derive(Debug)]
pub enum LayerAction {
    Drop,
    Clear,
    TrimArray { keep_head: usize, keep_tail: usize },
    Replace { value: JsonValue },
}

#[derive(Debug)]
pub struct LayerRule {
    pub selector: LayerSelector,
    pub action: LayerAction,
}

/// How the conversation is thinned out.
#[derive(Debug, Clone, Copy)]
pub struct ConversationRule {
    pub keep_recent_messages: usize,
    pub keep_recent_tool_results: usize,
    pub clear_reasoning: bool,
    pub keep_recent_reasoning_turns: usize,
}

/// Rules applied layer by layer, then to the conversation.
#[derive(Debug)]
pub struct RuleCompression {
    pub layer_rules: Vec<LayerRule>,
    pub conversation: Option<ConversationRule>,
}

pub struct SelectorView {
    pub name: Option<Seq<char>>,
    pub kind: Option<KindView>,
    pub tags: Seq<Seq<char>>,
    pub include_readonly: bool,
}

pub enum ActionView {
    Drop,
    Clear,
    TrimArray { keep_head: usize, keep_tail: usize },
    Replace { value: JsonView },
}

pub struct RuleView {
    pub layer_rules: Seq<(SelectorView, ActionView)>,
    pub conversation: Option<ConversationRule>,
}

pub open spec fn opt_kind(o: Option<LayerKind>) -> Option<KindView> {
    match o {
        Some(k) => Some(k@),
        None => None,
    }
}

impl View for LayerSelector {
    type V = SelectorView;

    open spec fn view(&self) -> SelectorView {
        SelectorView {
            name: crate::message::opt_str(self.name),
            kind: opt_kind(self.kind),
            tags: strings_view(self.tags@),
            include_readonly: self.include_readonly,
        }
    }
}

impl View for LayerAction {
    type V = ActionView;

    open spec fn view(&self) -> ActionView {
        match self {
            LayerAction::Drop => ActionView::Drop,
            LayerAction::Clear => ActionView::Clear,
            LayerAction::TrimArray { keep_head, keep_tail } => ActionView::TrimArray { keep_head: *keep_head, keep_tail: *keep_tail },
            LayerAction::Replace { value } => ActionView::Replace { value: value@ },
        }
    }
}

pub open spec fn layer_rules_view(s: Seq<LayerRule>) -> Seq<(SelectorView, ActionView)> {
    s.map_values(|r: LayerRule| (r.selector@, r.action@))
}

impl View for RuleCompression {
    type V = RuleView;

    open spec fn view(&self) -> RuleView {
        RuleView { layer_rules: layer_rules_view(self.layer_rules@), conversation: self.conversation }
    }
}

/// Whether `s` selects `l`: a read-only layer only when the selector takes
/// them, the name and kind when it gives them, and every tag it lists.
pub open spec fn selector_matches(s: SelectorView, l: LayerView) -> bool {
    &&& !(l.meta.readonly && !s.include_readonly)
    &&& (s.name is Some ==> l.name == s.name->0)
    &&& (s.kind is Some ==> l.kind == s.kind->0)
    &&& forall|i: int| 0 <= i < s.tags.len() ==> l.meta.tags.contains(#[trigger] s.tags[i])
}

/// A selector that names a kind never selects a layer of another kind, and
/// one that names a layer never selects a layer of another name.
pub proof fn law_selector_respects_kind_and_name(s: SelectorView, l: LayerView)
    ensures
        (s.kind is Some && l.kind != s.kind->0) ==> !selector_matches(s, l),
        (s.name is Some && l.name != s.name->0) ==> !selector_matches(s, l),
{
}

/// A selector never selects a layer that lacks one of its tags, nor a
/// read-only layer unless it takes them; one that names nothing and takes
/// read-only layers selects every layer.
pub proof fn law_selector_tags_and_readonly(s: SelectorView, l: LayerView, t: Seq<char>)
    ensures
        (s.tags.contains(t) && !l.meta.tags.contains(t)) ==> !selector_matches(s, l),
        (l.meta.readonly && !s.include_readonly) ==> !selector_matches(s, l),
        (s.name is None && s.kind is None && s.tags.len() == 0 && s.include_readonly) ==> selector_matches(s, l),
{
}

/// The layers left after dropping those of kind `k` (read-only ones only
/// when `readonly_too`), in order.
pub open spec fn without_kind(ls: Seq<LayerView>, k: KindView, readonly_too: bool) -> Seq<LayerView>
    decreases ls.len(),
{
    if ls.len() == 0 {
        ls
    } else if ls.last().kind == k && (readonly_too || !ls.last().meta.readonly) {
        without_kind(ls.drop_last(), k, readonly_too)
    } else {
        without_kind(ls.drop_last(), k, readonly_too).push(ls.last())
    }
}

proof fn lemma_drop_by_kind(ls: Seq<LayerView>, s: SelectorView, k: KindView)
    requires
        s.name is None,
        s.kind == Some(k),
        s.tags.len() == 0,
    ensures
        compress_layers(ls, seq![(s, ActionView::Drop)]) == LayersOutcome::Layers(without_kind(ls, k, s.include_readonly)),
    decreases ls.len(),
{
    if ls.len() > 0 {
        lemma_drop_by_kind(ls.drop_last(), s, k);
        let rules = seq![(s, ActionView::Drop)];
        assert(rules.drop_last() =~= Seq::<(SelectorView, ActionView)>::empty());
        assert(apply_rules(ls.last(), rules.drop_last()) == ActionOutcome::Kept(ls.last()));
        assert(rules.last() == (s, ActionView::Drop));
        let l = ls.last();
        assert(selector_matches(s, l) == (l.kind == k && (s.include_readonly || !l.meta.readonly)));
    } else {
        assert(ls =~= Seq::<LayerView>::empty());
    }
}

/// A rule that drops the layers of one kind, and has no conversation rule,
/// leaves exactly the layers of the other kinds (and the read-only layers of
/// that kind, unless the selector takes read-only layers), in order.
pub proof fn law_drop_by_kind_keeps_other_kinds(ls: Seq<LayerView>, s: SelectorView, k: KindView)
    requires
        s.name is None,
        s.kind == Some(k),
        s.tags.len() == 0,
    ensures
        rule_outcome(ls, RuleView { layer_rules: seq![(s, ActionView::Drop)], conversation: None }, None)
            == RuleOutcome::Done(without_kind(ls, k, s.include_readonly)),
        forall|j: int| 0 <= j < ls.len() && (#[trigger] ls[j]).kind != k
            ==> without_kind(ls, k, s.include_readonly).contains(ls[j]),
{
    lemma_drop_by_kind(ls, s, k);
    assert forall|j: int| 0 <= j < ls.len() && (#[trigger] ls[j]).kind != k
        implies without_kind(ls, k, s.include_readonly).contains(ls[j]) by {
        lemma_without_kind_keeps(ls, k, s.include_readonly, j);
    }
}

proof fn lemma_without_kind_keeps(ls: Seq<LayerView>, k: KindView, readonly_too: bool, j: int)
    requires
        0 <= j < ls.len(),
        ls[j].kind != k,
    ensures
        without_kind(ls, k, readonly_too).contains(ls[j]),
    decreases ls.len(),
{
    let rest = without_kind(ls.drop_last(), k, readonly_too);
    if j == ls.len() - 1 {
        assert(without_kind(ls, k, readonly_too) == rest.push(ls.last()));
        assert(rest.push(ls.last())[rest.len() as int] == ls[j]);
    } else {
        lemma_without_kind_keeps(ls.drop_last(), k, readonly_too, j);
        assert(ls.drop_last()[j] == ls[j]);
        let w = choose|w: int| 0 <= w < rest.len() && rest[w] == ls[j];
        if ls.last().kind == k && (readonly_too || !ls.last().meta.readonly) {
        } else {
            assert(rest.push(ls.last())[w] == ls[j]);
        }
    }
}

fn contains_string(v: &Vec<String>, s: &String) -> (r: bool)
    ensures
        r == strings_view(v@).contains(s@),
{
    let mut i: usize = 0;
    while i < v.len()
        invariant
            i <= v.len(),
            forall|j: int| 0 <= j < i ==> (#[trigger] v@[j])@ != s@,
        decreases v.len() - i,
    {
        if v[i] == *s {
            proof { assert(strings_view(v@)[i as int] == s@); }
            return true;
        }
        i = i + 1;
    }
    proof {
        if strings_view(v@).contains(s@) {
            let k = choose|k: int| 0 <= k < strings_view(v@).len() && strings_view(v@)[k] == s@;
            assert(v@[k]@ == s@);
        }
    }
    false
}

impl LayerSelector {
    /// Whether this selector picks `layer`.
    pub fn matches(&self, layer: &Layer) -> (r: bool)
        ensures
            r == selector_matches(self@, layer@),
    {
        if layer.meta.readonly && !self.include_readonly {
            return false;
        }
        match &self.name {
            Some(name) => {
                if layer.name != *name {
                    return false;
                }
            },
            None => {},
        }
        match &self.kind {
            Some(kind) => {
                if !(layer.kind == *kind) {
                    return false;
                }
            },
            None => {},
        }
        let mut i: usize = 0;
        while i < self.tags.len()
            invariant
                i <= self.tags.len(),
                forall|j: int| 0 <= j < i ==> layer@.meta.tags.contains(#[trigger] self@.tags[j]),
            decreases self.tags.len() - i,
        {
            proof { assert(self@.tags[i as int] == self.tags@[i as int]@); }
            if !contains_string(&layer.meta.tags, &self.tags[i]) {
                return false;
            }
            i = i + 1;
        }
        true
    }
}

pub open spec fn action_label(a: ActionView) -> Seq<char> {
    match a {
        ActionView::Drop => "drop"@,
        ActionView::Clear => "clear"@,
        ActionView::TrimArray { .. } => "trim_array"@,
        ActionView::Replace { .. } => "replace"@,
    }
}

impl LayerAction {
    /// The action's name.
    pub fn label(&self) -> (r: &'static str)
        ensures
            r@ == action_label(self@),
    {
        match self {
            LayerAction::Drop => "drop",
            LayerAction::Clear => "clear",
            LayerAction::TrimArray { .. } => "trim_array",
            LayerAction::Replace { .. } => "replace",
        }
    }
}

/// The empty value of the same shape: null for scalars, an empty string,
/// array or object otherwise.
pub open spec fn cleared_json(v: JsonView) -> JsonView {
    match v {
        JsonView::Str(_) => JsonView::Str(Seq::empty()),
        JsonView::Array(_) => JsonView::Array(Seq::empty()),
        JsonView::Object(_) => JsonView::Object(Seq::empty()),
        _ => JsonView::Null,
    }
}

pub fn clear_value(value: &JsonValue) -> (r: JsonValue)
    ensures
        r@ == cleared_json(value@),
{
    let r = match value {
        JsonValue::Null => JsonValue::Null,
        JsonValue::Bool(_) => JsonValue::Null,
        JsonValue::Number(_) => JsonValue::Null,
        JsonValue::Str(_) => JsonValue::Str(String::new()),
        JsonValue::Array(_) => JsonValue::Array(Vec::new()),
        JsonValue::Object(_) => JsonValue::Object(Vec::new()),
    };
    proof {
        lemma_json_seq_view(Seq::<JsonValue>::empty());
        crate::json::lemma_members_view(Seq::<(String, JsonValue)>::empty());
    }
    r
}

/// What one action makes of a layer.
pub enum ActionOutcome {
    Kept(LayerView),
    Dropped,
    Incompatible(Seq<char>, Seq<char>),
}

/// The array with its first `head` and last `tail` items kept, or unchanged
/// when those cover it.
pub open spec fn trimmed_items(items: Seq<JsonView>, head: usize, tail: usize) -> Seq<JsonView> {
    if head + tail >= items.len() {
        items
    } else {
        items.take(head as int) + items.skip(items.len() - tail)
    }
}

pub open spec fn action_outcome(l: LayerView, a: ActionView) -> ActionOutcome {
    match a {
        ActionView::Drop => ActionOutcome::Dropped,
        ActionView::Clear => ActionOutcome::Kept(LayerView { data: cleared_json(l.data), ..l }),
        ActionView::TrimArray { keep_head, keep_tail } => match l.data {
            JsonView::Array(items) => ActionOutcome::Kept(
                LayerView { data: JsonView::Array(trimmed_items(items, keep_head, keep_tail)), ..l },
            ),
            _ => ActionOutcome::Incompatible(l.name, action_label(a)),
        },
        ActionView::Replace { value } => ActionOutcome::Kept(LayerView { data: value, ..l }),
    }
}

enum LayerDisposition {
    Keep,
    Drop,
}

fn apply_layer_action(layer: &mut Layer, action: &LayerAction) -> (r: Result<LayerDisposition, CompressionError>)
    ensures
        match action_outcome(old(layer)@, action@) {
            ActionOutcome::Kept(l) => r matches Ok(LayerDisposition::Keep) && final(layer)@ == l,
            ActionOutcome::Dropped => r matches Ok(LayerDisposition::Drop) && final(layer)@ == old(layer)@,
            ActionOutcome::Incompatible(name, label) => final(layer)@ == old(layer)@ && match r {
                Err(CompressionError::IncompatibleLayerAction { layer: n, action: a }) => n@ == name && a@ == label,
                _ => false,
            },
        },
{
    match action {
        LayerAction::Drop => Ok(LayerDisposition::Drop),
        LayerAction::Clear => {
            layer.data = clear_value(&layer.data);
            Ok(LayerDisposition::Keep)
        },
        LayerAction::TrimArray { keep_head, keep_tail } => {
            let trimmed = match &layer.data {
                JsonValue::Array(items) => {
                    let n = items.len();
                    proof { lemma_json_seq_view(items@); }
                    if keep_head.saturating_add(*keep_tail) >= n {
                        return Ok(LayerDisposition::Keep);
                    }
                    let ghost sv = json_seq_view(items@);
                    let mut out: Vec<JsonValue> = Vec::new();
                    let mut i: usize = 0;
                    while i < *keep_head
                        invariant
                            i <= *keep_head,
                            *keep_head + *keep_tail < n,
                            n == items@.len(),
                            sv == json_seq_view(items@),
                            sv.len() == n,
                            forall|k: int| 0 <= k < n ==> #[trigger] sv[k] == json_view(items@[k]),
                            json_seq_view(out@) == sv.take(i as int),
                        decreases *keep_head - i,
                    {
                        let ghost before = out@;
                        out.push(items[i].clone());
                        proof {
                            assert(out@.drop_last() =~= before);
                            assert(json_seq_view(out@) =~= sv.take(i as int + 1));
                        }
                        i = i + 1;
                    }
                    let start = n - *keep_tail;
                    let mut j: usize = start;
                    while j < n
                        invariant
                            start <= j <= n,
                            start == n - *keep_tail,
                            *keep_head + *keep_tail < n,
                            n == items@.len(),
                            sv == json_seq_view(items@),
                            sv.len() == n,
                            forall|k: int| 0 <= k < n ==> #[trigger] sv[k] == json_view(items@[k]),
                            json_seq_view(out@) == sv.take(*keep_head as int) + sv.subrange(start as int, j as int),
                        decreases n - j,
                    {
                        let ghost before = out@;
                        out.push(items[j].clone());
                        proof {
                            assert(out@.drop_last() =~= before);
                            assert(json_seq_view(out@) =~= sv.take(*keep_head as int) + sv.subrange(start as int, j as int + 1));
                        }
                        j = j + 1;
                    }
                    proof {
                        assert(sv.subrange(start as int, n as int) =~= sv.skip(n - *keep_tail));
                    }
                    out
                },
                _ => {
                    let label = action.label();
                    return Err(CompressionError::IncompatibleLayerAction {
                        layer: layer.name.clone(),
                        action: String::from_str(label),
                    });
                },
            };
            layer.data = JsonValue::Array(trimmed);
            Ok(LayerDisposition::Keep)
        },
        LayerAction::Replace { value } => {
            layer.data = value.clone();
            Ok(LayerDisposition::Keep)
        },
    }
}


/// What the rules, applied in order, make of a layer: a dropped or refused
/// layer stays so.
pub open spec fn apply_rules(l: LayerView, rules: Seq<(SelectorView, ActionView)>) -> ActionOutcome
    decreases rules.len(),
{
    if rules.len() == 0 {
        ActionOutcome::Kept(l)
    } else {
        match apply_rules(l, rules.drop_last()) {
            ActionOutcome::Kept(c) => if selector_matches(rules.last().0, c) {
                action_outcome(c, rules.last().1)
            } else {
                ActionOutcome::Kept(c)
            },
            other => other,
        }
    }
}

proof fn lemma_apply_rules_stuck(l: LayerView, rules: Seq<(SelectorView, ActionView)>, k: int)
    requires
        0 <= k <= rules.len(),
        !(apply_rules(l, rules.take(k)) is Kept),
    ensures
        apply_rules(l, rules) == apply_rules(l, rules.take(k)),
    decreases rules.len(),
{
    if k == rules.len() {
        assert(rules.take(k) =~= rules);
    } else {
        assert(rules.drop_last().take(k) =~= rules.take(k));
        lemma_apply_rules_stuck(l, rules.drop_last(), k);
    }
}

/// The layers after the layer rules: each layer in order, dropped layers left
/// out; the first refusal ends it.
pub enum LayersOutcome {
    Layers(Seq<LayerView>),
    Incompatible(Seq<char>, Seq<char>),
}

pub open spec fn compress_layers(ls: Seq<LayerView>, rules: Seq<(SelectorView, ActionView)>) -> LayersOutcome
    decreases ls.len(),
{
    if ls.len() == 0 {
        LayersOutcome::Layers(Seq::empty())
    } else {
        match compress_layers(ls.drop_last(), rules) {
            LayersOutcome::Layers(acc) => match apply_rules(ls.last(), rules) {
                ActionOutcome::Kept(c) => LayersOutcome::Layers(acc.push(c)),
                ActionOutcome::Dropped => LayersOutcome::Layers(acc),
                ActionOutcome::Incompatible(n, a) => LayersOutcome::Incompatible(n, a),
            },
            other => other,
        }
    }
}

proof fn lemma_compress_layers_stuck(ls: Seq<LayerView>, rules: Seq<(SelectorView, ActionView)>, k: int)
    requires
        0 <= k <= ls.len(),
        compress_layers(ls.take(k), rules) is Incompatible,
    ensures
        compress_layers(ls, rules) == compress_layers(ls.take(k), rules),
    decreases ls.len(),
{
    if k == ls.len() {
        assert(ls.take(k) =~= ls);
    } else {
        assert(ls.drop_last().take(k) =~= ls.take(k));
        lemma_compress_layers_stuck(ls.drop_last(), rules, k);
    }
}

fn apply_layer_rules(layer: Layer, rules: &Vec<LayerRule>) -> (r: Result<Option<Layer>, CompressionError>)
    ensures
        match apply_rules(layer@, layer_rules_view(rules@)) {
            ActionOutcome::Kept(c) => r is Ok && r->Ok_0 is Some && r->Ok_0->0@ == c,
            ActionOutcome::Dropped => r matches Ok(None),
            ActionOutcome::Incompatible(name, label) => match r {
                Err(CompressionError::IncompatibleLayerAction { layer: n, action: a }) => n@ == name && a@ == label,
                _ => false,
            },
        },
{
    let ghost rv = layer_rules_view(rules@);
    let ghost l0 = layer@;
    let mut current = layer;
    let mut k: usize = 0;
    proof {
        assert(rv.take(0) =~= Seq::<(SelectorView, ActionView)>::empty());
    }
    while k < rules.len()
        invariant
            k <= rules.len(),
            rv == layer_rules_view(rules@),
            rv.len() == rules@.len(),
            l0 == layer@,
            apply_rules(l0, rv.take(k as int)) == ActionOutcome::Kept(current@),
        decreases rules.len() - k,
    {
        let ghost before = current@;
        proof {
            assert(rv.take(k as int + 1).drop_last() =~= rv.take(k as int));
            assert(rv.take(k as int + 1).last() == (rules@[k as int].selector@, rules@[k as int].action@));
        }
        if rules[k].selector.matches(&current) {
            proof {
                assert(apply_rules(l0, rv.take(k as int + 1)) == action_outcome(before, rules@[k as int].action@));
            }
            match apply_layer_action(&mut current, &rules[k].action) {
                Ok(LayerDisposition::Keep) => {},
                Ok(LayerDisposition::Drop) => {
                    proof { lemma_apply_rules_stuck(l0, rv, k as int + 1); }
                    return Ok(None);
                },
                Err(e) => {
                    proof { lemma_apply_rules_stuck(l0, rv, k as int + 1); }
                    return Err(e);
                },
            }
        }
        k = k + 1;
    }
    proof {
        assert(rv.take(rv.len() as int) =~= rv);
    }
    Ok(Some(current))
}

fn compress_layer_list(layers: &Vec<Layer>, rules: &Vec<LayerRule>) -> (r: Result<Vec<Layer>, CompressionError>)
    ensures
        match compress_layers(layers_view(layers@), layer_rules_view(rules@)) {
            LayersOutcome::Layers(ls) => r is Ok && layers_view(r->Ok_0@) == ls,
            LayersOutcome::Incompatible(name, label) => match r {
                Err(CompressionError::IncompatibleLayerAction { layer: n, action: a }) => n@ == name && a@ == label,
                _ => false,
            },
        },
{
    let ghost lv = layers_view(layers@);
    let ghost rv = layer_rules_view(rules@);
    let mut out: Vec<Layer> = Vec::new();
    let mut i: usize = 0;
    proof {
        assert(lv.take(0) =~= Seq::<LayerView>::empty());
        assert(layers_view(out@) =~= Seq::<LayerView>::empty());
    }
    while i < layers.len()
        invariant
            i <= layers.len(),
            lv == layers_view(layers@),
            rv == layer_rules_view(rules@),
            lv.len() == layers@.len(),
            compress_layers(lv.take(i as int), rv) == LayersOutcome::Layers(layers_view(out@)),
        decreases layers.len() - i,
    {
        proof {
            assert(lv.take(i as int + 1).drop_last() =~= lv.take(i as int));
            assert(lv.take(i as int + 1).last() == layers@[i as int]@);
        }
        let ghost before = out@;
        match apply_layer_rules(layers[i].clone(), rules) {
            Ok(Some(l)) => {
                out.push(l);
                proof { assert(layers_view(out@) =~= layers_view(before).push(out@.last()@)); }
            },
            Ok(None) => {},
            Err(e) => {
                proof { lemma_compress_layers_stuck(lv, rv, i as int + 1); }
                return Err(e);
            },
        }
        i = i + 1;
    }
    proof {
        assert(lv.take(lv.len() as int) =~= lv);
    }
    Ok(out)
}


// ---------------------------------------------------------------------------
// The conversation
// ---------------------------------------------------------------------------

/// The number of system messages at the head of `ms`.
pub open spec fn system_prefix_len(ms: Seq<MessageView>) -> nat
    decreases ms.len(),
{
    if ms.len() > 0 && ms[0] is System {
        1 + system_prefix_len(ms.drop_first())
    } else {
        0
    }
}

proof fn lemma_system_prefix_len(ms: Seq<MessageView>, n: int)
    requires
        0 <= n <= ms.len(),
        forall|j: int| 0 <= j < n ==> #[trigger] ms[j] is System,
        n < ms.len() ==> !(ms[n] is System),
    ensures
        system_prefix_len(ms) == n,
    decreases n,
{
    if n > 0 {
        let t = ms.drop_first();
        assert forall|j: int| 0 <= j < n - 1 implies #[trigger] t[j] is System by {
            assert(t[j] == ms[j + 1]);
        }
        if n < ms.len() {
            assert(t[n - 1] == ms[n]);
        }
        lemma_system_prefix_len(t, n - 1);
    }
}

/// The last `limit` messages, or all of them when `limit` is unbounded or
/// covers them.
pub open spec fn recent_messages(ms: Seq<MessageView>, limit: usize) -> Seq<MessageView> {
    if limit == usize::MAX || ms.len() <= limit {
        ms
    } else {
        ms.skip(ms.len() - limit)
    }
}

/// How many of `flags[i..]` are set.
pub open spec fn count_from(flags: Seq<bool>, i: int) -> nat
    decreases flags.len() - i,
{
    if 0 <= i < flags.len() {
        (if flags[i] { 1nat } else { 0nat }) + count_from(flags, i + 1)
    } else {
        0
    }
}

proof fn lemma_count_from_bound(flags: Seq<bool>, i: int)
    requires
        0 <= i <= flags.len(),
    ensures
        count_from(flags, i) <= flags.len() - i,
    decreases flags.len() - i,
{
    if i < flags.len() {
        lemma_count_from_bound(flags, i + 1);
    }
}

/// Whether position `j` is set and among the last `keep` set positions.
pub open spec fn kept_recent(flags: Seq<bool>, j: int, keep: usize) -> bool {
    flags[j] && count_from(flags, j + 1) < keep
}

pub open spec fn has_reasoning(m: MessageView) -> bool {
    match m {
        MessageView::Assistant { reasoning_content: Some(r), .. } => !is_blank(r),
        _ => false,
    }
}

pub open spec fn tool_flags(ms: Seq<MessageView>) -> Seq<bool> {
    ms.map_values(|m: MessageView| m is Tool)
}

pub open spec fn reasoning_flags(ms: Seq<MessageView>) -> Seq<bool> {
    ms.map_values(|m: MessageView| has_reasoning(m))
}

/// Whether the tool result at `i` loses its content: it is not among the last
/// `keep` tool results.
pub open spec fn cleared_tool(ms: Seq<MessageView>, keep: usize, i: int) -> bool {
    ms[i] is Tool && !kept_recent(tool_flags(ms), i, keep)
}

/// How many tool results before position `i` lose their content.
pub open spec fn cleared_before(ms: Seq<MessageView>, keep: usize, i: int) -> nat
    decreases i,
{
    if i <= 0 {
        0
    } else {
        cleared_before(ms, keep, i - 1) + (if cleared_tool(ms, keep, i - 1) { 1nat } else { 0nat })
    }
}

proof fn lemma_cleared_before_bound(ms: Seq<MessageView>, keep: usize, i: int)
    requires
        0 <= i,
    ensures
        cleared_before(ms, keep, i) <= i,
    decreases i,
{
    if i > 0 {
        lemma_cleared_before_bound(ms, keep, i - 1);
    }
}

/// The text that stands for the `k`-th cleared tool result: a fixed marker,
/// or the given text.
pub open spec fn placeholder(ph: Option<Seq<Seq<char>>>, k: nat) -> Seq<char> {
    match ph {
        Some(s) => s[k as int],
        None => "[Tool result cleared]"@,
    }
}

/// Message `i` of the retained messages after compaction.
pub open spec fn compact_message(ms: Seq<MessageView>, rule: ConversationRule, ph: Option<Seq<Seq<char>>>, i: int) -> MessageView {
    match ms[i] {
        MessageView::Tool { tool_call_id, content } => if cleared_tool(ms, rule.keep_recent_tool_results, i) {
            MessageView::Tool {
                tool_call_id,
                content: placeholder(ph, cleared_before(ms, rule.keep_recent_tool_results, i)),
            }
        } else {
            ms[i]
        },
        MessageView::Assistant { content, reasoning_content, tool_calls } => if rule.clear_reasoning
            && has_reasoning(ms[i]) && !kept_recent(reasoning_flags(ms), i, rule.keep_recent_reasoning_turns) {
            MessageView::Assistant {
                content: if is_blank(content) { "[Reasoning cleared]"@ } else { content },
                reasoning_content: None,
                tool_calls,
            }
        } else {
            ms[i]
        },
        _ => ms[i],
    }
}

/// The messages a conversation rule keeps, after the leading system messages.
pub open spec fn retained_messages(ms: Seq<MessageView>, rule: ConversationRule) -> Seq<MessageView> {
    recent_messages(ms.skip(system_prefix_len(ms) as int), rule.keep_recent_messages)
}

/// The conversation after a rule: the leading system messages, then the last
/// messages it keeps, with old tool results and old reasoning cleared.
pub open spec fn compressed_conversation(ms: Seq<MessageView>, rule: ConversationRule, ph: Option<Seq<Seq<char>>>) -> Seq<MessageView> {
    let rest = retained_messages(ms, rule);
    ms.take(system_prefix_len(ms) as int) + Seq::new(rest.len(), |i: int| compact_message(rest, rule, ph, i))
}

pub fn is_system_message(message: &Message) -> (r: bool)
    ensures
        r == (message@ is System),
{
    match message {
        Message::System { .. } => true,
        _ => false,
    }
}

pub fn is_user_message(message: &Message) -> (r: bool)
    ensures
        r == (message@ is User),
{
    match message {
        Message::User { .. } => true,
        _ => false,
    }
}

pub fn is_tool_message(message: &Message) -> (r: bool)
    ensures
        r == (message@ is Tool),
{
    match message {
        Message::Tool { .. } => true,
        _ => false,
    }
}

/// Whether `message` is an assistant message with reasoning that is not blank.
pub fn has_reasoning_content(message: &Message) -> (r: bool)
    ensures
        r == has_reasoning(message@),
{
    match message {
        Message::Assistant { reasoning_content: Some(text), .. } => !blank(text.as_str()),
        _ => false,
    }
}

fn copy_range(v: &Vec<Message>, from: usize, to: usize) -> (r: Vec<Message>)
    requires
        from <= to <= v@.len(),
    ensures
        messages_view(r@) == messages_view(v@).subrange(from as int, to as int),
{
    let mut out: Vec<Message> = Vec::new();
    let mut i: usize = from;
    while i < to
        invariant
            from <= i <= to,
            to <= v@.len(),
            out@.len() == i - from,
            forall|j: int| 0 <= j < i - from ==> #[trigger] out@[j]@ == v@[from + j]@,
        decreases to - i,
    {
        out.push(v[i].clone());
        i = i + 1;
    }
    proof {
        assert(messages_view(out@) =~= messages_view(v@).subrange(from as int, to as int));
    }
    out
}

/// The leading system messages, and the rest.
pub fn split_leading_system_messages(messages: &Vec<Message>) -> (r: (Vec<Message>, Vec<Message>))
    ensures
        messages_view(r.0@) == messages_view(messages@).take(system_prefix_len(messages_view(messages@)) as int),
        messages_view(r.1@) == messages_view(messages@).skip(system_prefix_len(messages_view(messages@)) as int),
{
    let ghost mv = messages_view(messages@);
    let mut n: usize = 0;
    while n < messages.len() && is_system_message(&messages[n])
        invariant
            n <= messages.len(),
            mv == messages_view(messages@),
            forall|j: int| 0 <= j < n ==> #[trigger] mv[j] is System,
        decreases messages.len() - n,
    {
        n = n + 1;
    }
    proof { lemma_system_prefix_len(mv, n as int); }
    (copy_range(messages, 0, n), copy_range(messages, n, messages.len()))
}

/// The last `limit` messages; all of them when `limit` is `usize::MAX` or
/// covers them.
pub fn trim_recent_messages(messages: Vec<Message>, limit: usize) -> (r: Vec<Message>)
    ensures
        messages_view(r@) == recent_messages(messages_view(messages@), limit),
{
    if limit == usize::MAX || messages.len() <= limit {
        return messages;
    }
    let skip = messages.len() - limit;
    copy_range(&messages, skip, messages.len())
}

/// For each position, whether it is set and among the last `keep` set ones.
pub fn recent_matching_indices(flags: &Vec<bool>, keep: usize) -> (r: Vec<bool>)
    ensures
        r@.len() == flags@.len(),
        forall|j: int| 0 <= j < flags@.len() ==> #[trigger] r@[j] == kept_recent(flags@, j, keep),
{
    let n = flags.len();
    let mut mask: Vec<bool> = Vec::new();
    let mut k: usize = 0;
    while k < n
        invariant
            k <= n,
            n == flags@.len(),
            mask@.len() == k,
            forall|j: int| 0 <= j < k ==> !#[trigger] mask@[j],
        decreases n - k,
    {
        mask.push(false);
        k = k + 1;
    }
    let mut count: usize = 0;
    let mut i: usize = n;
    while i > 0
        invariant
            i <= n,
            n == flags@.len(),
            mask@.len() == n,
            count == count_from(flags@, i as int),
            forall|j: int| 0 <= j < i ==> !#[trigger] mask@[j],
            forall|j: int| i <= j < n ==> #[trigger] mask@[j] == kept_recent(flags@, j, keep),
        decreases i,
    {
        i = i - 1;
        proof {
            lemma_count_from_bound(flags@, i as int);
            assert(count_from(flags@, i as int) == (if flags@[i as int] { 1nat } else { 0nat }) + count_from(flags@, i as int + 1));
        }
        if flags[i] {
            if count < keep {
                mask.set(i, true);
            }
            count = count + 1;
        }
    }
    mask
}

fn message_flags(messages: &Vec<Message>, tools: bool) -> (r: Vec<bool>)
    ensures
        r@ == if tools { tool_flags(messages_view(messages@)) } else { reasoning_flags(messages_view(messages@)) },
{
    let mut out: Vec<bool> = Vec::new();
    let mut i: usize = 0;
    while i < messages.len()
        invariant
            i <= messages.len(),
            out@.len() == i,
            forall|j: int| 0 <= j < i ==> #[trigger] out@[j] == if tools { messages@[j]@ is Tool } else { has_reasoning(messages@[j]@) },
        decreases messages.len() - i,
    {
        let f = if tools { is_tool_message(&messages[i]) } else { has_reasoning_content(&messages[i]) };
        out.push(f);
        i = i + 1;
    }
    proof {
        if tools {
            assert(out@ =~= tool_flags(messages_view(messages@)));
        } else {
            assert(out@ =~= reasoning_flags(messages_view(messages@)));
        }
    }
    out
}


pub open spec fn ph_view(o: Option<&Vec<String>>) -> Option<Seq<Seq<char>>> {
    match o {
        Some(v) => Some(strings_view(v@)),
        None => None,
    }
}

proof fn lemma_cleared_before_mono(ms: Seq<MessageView>, keep: usize, i: int, j: int)
    requires
        0 <= i <= j,
    ensures
        cleared_before(ms, keep, i) <= cleared_before(ms, keep, j),
    decreases j - i,
{
    if i < j {
        lemma_cleared_before_mono(ms, keep, i, j - 1);
    }
}

fn compact_retained(prefix: Vec<Message>, rest: &Vec<Message>, rule: &ConversationRule, placeholders: Option<&Vec<String>>) -> (r: Vec<Message>)
    requires
        placeholders is Some ==> placeholders->0@.len() >= cleared_before(messages_view(rest@), rule.keep_recent_tool_results, rest@.len() as int),
    ensures
        messages_view(r@) == messages_view(prefix@) + Seq::new(
            rest@.len(),
            |i: int| compact_message(messages_view(rest@), *rule, ph_view(placeholders), i),
        ),
{
    let ghost rv = messages_view(rest@);
    let ghost ph = ph_view(placeholders);
    let ghost pv = messages_view(prefix@);
    let keep = rule.keep_recent_tool_results;
    let tool_flags_v = message_flags(rest, true);
    let tool_mask = recent_matching_indices(&tool_flags_v, keep);
    let reason_flags_v = message_flags(rest, false);
    let reason_mask = recent_matching_indices(&reason_flags_v, rule.keep_recent_reasoning_turns);
    let mut out = prefix;
    let mut cleared: usize = 0;
    let mut i: usize = 0;
    proof {
        assert(messages_view(out@) =~= pv + Seq::new(0, |j: int| compact_message(rv, *rule, ph, j)));
    }
    while i < rest.len()
        invariant
            i <= rest.len(),
            rv == messages_view(rest@),
            ph == ph_view(placeholders),
            keep == rule.keep_recent_tool_results,
            placeholders is Some ==> placeholders->0@.len() >= cleared_before(rv, keep, rest@.len() as int),
            tool_mask@.len() == rest@.len(),
            reason_mask@.len() == rest@.len(),
            forall|j: int| 0 <= j < rest@.len() ==> #[trigger] tool_mask@[j] == kept_recent(tool_flags(rv), j, keep),
            forall|j: int| 0 <= j < rest@.len() ==> #[trigger] reason_mask@[j] == kept_recent(reasoning_flags(rv), j, rule.keep_recent_reasoning_turns),
            cleared == cleared_before(rv, keep, i as int),
            messages_view(out@) == pv + Seq::new(i as nat, |j: int| compact_message(rv, *rule, ph, j)),
        decreases rest.len() - i,
    {
        proof {
            lemma_cleared_before_bound(rv, keep, i as int);
            lemma_cleared_before_mono(rv, keep, i as int + 1, rest@.len() as int);
            assert(rv[i as int] == rest@[i as int]@);
        }
        let m = match &rest[i] {
            Message::Tool { tool_call_id, content } => {
                if tool_mask[i] {
                    rest[i].clone()
                } else {
                    let text = match placeholders {
                        Some(v) => v[cleared].clone(),
                        None => String::from_str("[Tool result cleared]"),
                    };
                    cleared = cleared + 1;
                    Message::Tool { tool_call_id: tool_call_id.clone(), content: text }
                }
            },
            Message::Assistant { content, reasoning_content, tool_calls } => {
                if rule.clear_reasoning && has_reasoning_content(&rest[i]) && !reason_mask[i] {
                    let c = if blank(content.as_str()) {
                        String::from_str("[Reasoning cleared]")
                    } else {
                        content.clone()
                    };
                    Message::Assistant {
                        content: c,
                        reasoning_content: None,
                        tool_calls: crate::message::copy_opt_calls(tool_calls),
                    }
                } else {
                    rest[i].clone()
                }
            },
            _ => rest[i].clone(),
        };
        proof {
            assert(m@ == compact_message(rv, *rule, ph, i as int));
        }
        let ghost before = out@;
        out.push(m);
        proof {
            assert(messages_view(out@) =~= messages_view(before).push(m@));
            assert(pv + Seq::new((i + 1) as nat, |j: int| compact_message(rv, *rule, ph, j))
                =~= (pv + Seq::new(i as nat, |j: int| compact_message(rv, *rule, ph, j))).push(m@));
        }
        i = i + 1;
    }
    out
}

/// The conversation after `rule`: the leading system messages stay; of the
/// rest only the last `keep_recent_messages` stay, tool results older than the
/// last `keep_recent_tool_results` lose their content to a marker, and, when
/// asked, reasoning older than the last `keep_recent_reasoning_turns` is
/// dropped.
pub fn compress_conversation_messages(messages: Vec<Message>, rule: &ConversationRule) -> (r: Vec<Message>)
    ensures
        messages_view(r@) == compressed_conversation(messages_view(messages@), *rule, None),
{
    let (prefix, rest) = split_leading_system_messages(&messages);
    let retained = trim_recent_messages(rest, rule.keep_recent_messages);
    let r = compact_retained(prefix, &retained, rule, None);
    proof {
        let ms = messages_view(messages@);
        assert(messages_view(r@) =~= compressed_conversation(ms, *rule, None));
    }
    r
}


// ---------------------------------------------------------------------------
// Archiving cleared tool results
// ---------------------------------------------------------------------------

pub open spec fn is_ascii_alphanumeric(c: char) -> bool {
    ('0' <= c && c <= '9') || ('a' <= c && c <= 'z') || ('A' <= c && c <= 'Z')
}

pub open spec fn identifier_char(c: char) -> char {
    if is_ascii_alphanumeric(c) || c == '-' || c == '_' { c } else { '_' }
}

/// `s` without its leading and trailing underscores.
pub open spec fn strip_underscores(s: Seq<char>) -> Seq<char>
    decreases s.len(),
{
    if s.len() > 0 && s[0] == '_' {
        strip_underscores(s.drop_first())
    } else if s.len() > 0 && s.last() == '_' {
        strip_underscores(s.drop_last())
    } else {
        s
    }
}

/// `id` made safe for a file name: other characters than ASCII letters,
/// digits, `-` and `_` become `_`, outer underscores go, and "tool" stands
/// for what is left empty.
pub open spec fn sanitized(id: Seq<char>) -> Seq<char> {
    let t = strip_underscores(id.map_values(|c: char| identifier_char(c)));
    if t.len() == 0 { "tool"@ } else { t }
}

proof fn lemma_strip_all(t: Seq<char>)
    requires
        forall|j: int| 0 <= j < t.len() ==> #[trigger] t[j] == '_',
    ensures
        strip_underscores(t) == Seq::<char>::empty(),
    decreases t.len(),
{
    if t.len() > 0 {
        assert forall|j: int| 0 <= j < t.len() - 1 implies #[trigger] t.drop_first()[j] == '_' by {
            assert(t.drop_first()[j] == t[j + 1]);
        }
        lemma_strip_all(t.drop_first());
    } else {
        assert(t =~= Seq::<char>::empty());
    }
}

proof fn lemma_strip_back(t: Seq<char>, e: int)
    requires
        0 < e <= t.len(),
        t[0] != '_',
        forall|j: int| e <= j < t.len() ==> #[trigger] t[j] == '_',
    ensures
        strip_underscores(t) == strip_underscores(t.take(e)),
    decreases t.len(),
{
    if e < t.len() {
        assert(t.last() == t[t.len() - 1]);
        let d = t.drop_last();
        assert(d.take(e) =~= t.take(e));
        assert(d[0] == t[0]);
        assert forall|j: int| e <= j < d.len() implies #[trigger] d[j] == '_' by {
            assert(d[j] == t[j]);
        }
        lemma_strip_back(d, e);
    } else {
        assert(t.take(e) =~= t);
    }
}

proof fn lemma_strip_front(s: Seq<char>, a: int)
    requires
        0 <= a <= s.len(),
        forall|j: int| 0 <= j < a ==> #[trigger] s[j] == '_',
    ensures
        strip_underscores(s) == strip_underscores(s.skip(a)),
    decreases a,
{
    if a > 0 {
        assert(s.drop_first().skip(a - 1) =~= s.skip(a));
        assert forall|j: int| 0 <= j < a - 1 implies #[trigger] s.drop_first()[j] == '_' by {
            assert(s.drop_first()[j] == s[j + 1]);
        }
        lemma_strip_front(s.drop_first(), a - 1);
    } else {
        assert(s.skip(0) =~= s);
    }
}

proof fn lemma_strip_range(m: Seq<char>, a: int, e: int)
    requires
        0 <= a <= e <= m.len(),
        forall|j: int| 0 <= j < a ==> #[trigger] m[j] == '_',
        forall|j: int| e <= j < m.len() ==> #[trigger] m[j] == '_',
        a < m.len() ==> m[a] != '_',
        e > a ==> m[e - 1] != '_',
    ensures
        strip_underscores(m) == m.subrange(a, e),
{
    lemma_strip_front(m, a);
    let t = m.skip(a);
    if e == a {
        assert forall|j: int| 0 <= j < t.len() implies #[trigger] t[j] == '_' by {
            assert(t[j] == m[a + j]);
        }
        lemma_strip_all(t);
        assert(m.subrange(a, e) =~= Seq::<char>::empty());
    } else {
        assert(t[0] == m[a]);
        assert forall|j: int| e - a <= j < t.len() implies #[trigger] t[j] == '_' by {
            assert(t[j] == m[a + j]);
        }
        lemma_strip_back(t, e - a);
        let u = t.take(e - a);
        assert(u =~= m.subrange(a, e));
        assert(u[0] == m[a]);
        assert(u.last() == m[e - 1]);
    }
}

/// `id` made safe for a file name; see `sanitized`.
pub fn sanitize_identifier(value: &str) -> (r: String)
    ensures
        r@ == sanitized(value@),
{
    let cs = chars_of(value);
    let mut mapped: Vec<char> = Vec::new();
    let mut i: usize = 0;
    while i < cs.len()
        invariant
            i <= cs@.len(),
            cs@ == value@,
            mapped@.len() == i,
            forall|j: int| 0 <= j < i ==> #[trigger] mapped@[j] == identifier_char(value@[j]),
        decreases cs.len() - i,
    {
        let c = cs[i];
        let d = if ('0' <= c && c <= '9') || ('a' <= c && c <= 'z') || ('A' <= c && c <= 'Z') || c == '-' || c == '_' {
            c
        } else {
            '_'
        };
        mapped.push(d);
        i = i + 1;
    }
    proof { assert(mapped@ =~= value@.map_values(|c: char| identifier_char(c))); }
    let n = mapped.len();
    let mut a: usize = 0;
    while a < n && mapped[a] == '_'
        invariant
            a <= n,
            n == mapped@.len(),
            forall|j: int| 0 <= j < a ==> #[trigger] mapped@[j] == '_',
        decreases n - a,
    {
        a = a + 1;
    }
    let mut e: usize = n;
    while e > a && mapped[e - 1] == '_'
        invariant
            a <= e <= n,
            n == mapped@.len(),
            forall|j: int| e <= j < n ==> #[trigger] mapped@[j] == '_',
        decreases e,
    {
        e = e - 1;
    }
    proof { lemma_strip_range(mapped@, a as int, e as int); }
    if e == a {
        proof { reveal_strlit("tool"); }
        return String::from_str("tool");
    }
    string_of(&mapped, a, e)
}

/// A character that may stand in a file name made from an identifier.
pub open spec fn identifier_safe(c: char) -> bool {
    is_ascii_alphanumeric(c) || c == '-' || c == '_'
}

proof fn lemma_strip_safe(s: Seq<char>)
    requires
        forall|j: int| 0 <= j < s.len() ==> identifier_safe(#[trigger] s[j]),
    ensures
        forall|j: int| 0 <= j < strip_underscores(s).len() ==> identifier_safe(#[trigger] strip_underscores(s)[j]),
        strip_underscores(s).len() > 0 ==> strip_underscores(s)[0] != '_' && strip_underscores(s).last() != '_',
    decreases s.len(),
{
    if s.len() > 0 && s[0] == '_' {
        let t = s.drop_first();
        assert forall|j: int| 0 <= j < t.len() implies identifier_safe(#[trigger] t[j]) by {
            assert(t[j] == s[j + 1]);
        }
        lemma_strip_safe(t);
    } else if s.len() > 0 && s.last() == '_' {
        let t = s.drop_last();
        assert forall|j: int| 0 <= j < t.len() implies identifier_safe(#[trigger] t[j]) by {
            assert(t[j] == s[j]);
        }
        lemma_strip_safe(t);
    }
}

/// Whatever the identifier, its sanitized form is not empty, holds only
/// ASCII letters, digits, `-` and `_`, neither starts nor ends with `_`, and
/// sanitizing it again leaves it as it is.
pub proof fn law_sanitized_safe_and_stable(id: Seq<char>)
    ensures
        sanitized(id).len() > 0,
        forall|j: int| 0 <= j < sanitized(id).len() ==> identifier_safe(#[trigger] sanitized(id)[j]),
        sanitized(id)[0] != '_',
        sanitized(id).last() != '_',
        sanitized(sanitized(id)) == sanitized(id),
{
    let m = id.map_values(|c: char| identifier_char(c));
    assert forall|j: int| 0 <= j < m.len() implies identifier_safe(#[trigger] m[j]) by {}
    lemma_strip_safe(m);
    let r = sanitized(id);
    if strip_underscores(m).len() == 0 {
        reveal_strlit("tool");
        assert(r =~= seq!['t', 'o', 'o', 'l']);
    }
    let m2 = r.map_values(|c: char| identifier_char(c));
    assert forall|j: int| 0 <= j < r.len() implies #[trigger] m2[j] == r[j] by {
        assert(identifier_safe(r[j]));
    }
    assert(m2 =~= r);
    assert(strip_underscores(r) == r);
}

/// `n` in decimal, padded with zeros to three digits.
pub open spec fn pad3(n: nat) -> Seq<char> {
    if n < 10 {
        "00"@ + decimal(n)
    } else if n < 100 {
        "0"@ + decimal(n)
    } else {
        decimal(n)
    }
}

/// The file stem of the `count`-th archived tool result.
pub open spec fn archive_stem(count: nat, id: Seq<char>) -> Seq<char> {
    if is_blank(id) {
        "tool_"@ + pad3(count)
    } else {
        "tool_"@ + pad3(count) + "_"@ + sanitized(id)
    }
}

/// The path tried at the `attempt`-th try for `stem`.
pub open spec fn archive_path(stem: Seq<char>, attempt: nat) -> Seq<char> {
    "/memories/compression/"@ + stem + (if attempt == 0 { Seq::empty() } else { "_"@ + decimal(attempt) }) + ".md"@
}

/// What a cleared tool result says when its content was archived at `path`.
pub open spec fn archive_note(path: Seq<char>) -> Seq<char> {
    "[Tool result cleared. Use memory_read('"@ + path + "') to retrieve.]"@
}

/// Whether `t` is the note for the `count`-th archived tool result of the
/// call `id`, at some try.
pub open spec fn is_archive_note(t: Seq<char>, count: nat, id: Seq<char>) -> bool {
    exists|a: nat| t == #[trigger] archive_note(archive_path(archive_stem(count, id), a))
}

fn archive_stem_string(count: usize, id: &str) -> (r: String)
    ensures
        r@ == archive_stem(count as nat, id@),
{
    let digits = decimal_string(count as u64);
    let padded = if count < 10 {
        concat2("00", digits.as_str())
    } else if count < 100 {
        concat2("0", digits.as_str())
    } else {
        digits
    };
    if blank(id) {
        concat2("tool_", padded.as_str())
    } else {
        let clean = sanitize_identifier(id);
        let mut r = concat3("tool_", padded.as_str(), "_");
        r.append(clean.as_str());
        r
    }
}

fn archive_path_string(stem: &String, attempt: usize) -> (r: String)
    ensures
        r@ == archive_path(stem@, attempt as nat),
{
    let mut r = concat2("/memories/compression/", stem.as_str());
    if attempt != 0 {
        r.append("_");
        let d = decimal_string(attempt as u64);
        r.append(d.as_str());
    }
    r.append(".md");
    proof {
        if attempt == 0 {
            assert(r@ =~= archive_path(stem@, attempt as nat));
        } else {
            assert(r@ =~= archive_path(stem@, attempt as nat));
        }
    }
    r
}

/// What to do after the store answered a try to archive at `path`.
#[derive(Debug)]
pub enum ArchiveStep {
    /// Stored at this path.
    Done(String),
    /// The file exists: try again at this attempt.
    Retry(usize),
    /// Give up with this error.
    Failed(CompressionError),
}

/// What the store's answer to the `attempt`-th try at `path` means: stored
/// there; the file exists, so try the next attempt (fail when there is
/// none); any other error ends archiving with it.
pub fn archive_next(outcome: Result<(), MemoryError>, attempt: usize, path: String) -> (r: ArchiveStep)
    ensures
        match outcome {
            Ok(()) => r matches ArchiveStep::Done(p) && p@ == path@,
            Err(MemoryError::FileExists(q)) => if attempt < usize::MAX {
                r == ArchiveStep::Retry((attempt + 1) as usize)
            } else {
                r == ArchiveStep::Failed(CompressionError::Memory(MemoryError::FileExists(q)))
            },
            Err(e) => r == ArchiveStep::Failed(CompressionError::Memory(e)),
        },
{
    match outcome {
        Ok(()) => ArchiveStep::Done(path),
        Err(MemoryError::FileExists(q)) => {
            if attempt < usize::MAX {
                ArchiveStep::Retry(attempt + 1)
            } else {
                ArchiveStep::Failed(CompressionError::Memory(MemoryError::FileExists(q)))
            }
        },
        Err(e) => ArchiveStep::Failed(CompressionError::Memory(e)),
    }
}

/// Stores `content` as the `count`-th archived tool result: at the stem's
/// path, or, while the store answers that the file exists, at the path of the
/// next try (see `archive_next`). Returns the path it was stored at.
pub fn archive_tool_result<M: MemoryStore>(memory: &mut M, count: usize, tool_call_id: &str, content: &str) -> (r: Result<String, CompressionError>)
    ensures
        match r {
            Ok(p) => exists|a: nat| p@ == #[trigger] archive_path(archive_stem(count as nat, tool_call_id@), a),
            Err(e) => e is Memory,
        },
{
    let stem = archive_stem_string(count, tool_call_id);
    let mut attempt: usize = 0;
    loop
        invariant
            stem@ == archive_stem(count as nat, tool_call_id@),
        decreases usize::MAX - attempt,
    {
        let path = archive_path_string(&stem, attempt);
        let ghost tried = path@;
        let outcome = memory.create(path.as_str(), content);
        match archive_next(outcome, attempt, path) {
            ArchiveStep::Done(p) => {
                proof { assert(p@ == archive_path(stem@, attempt as nat)); }
                return Ok(p);
            },
            ArchiveStep::Retry(next) => {
                attempt = next;
            },
            ArchiveStep::Failed(e) => {
                return Err(e);
            },
        }
    }
}

pub fn archive_note_string(path: &str) -> (r: String)
    ensures
        r@ == archive_note(path@),
{
    concat3("[Tool result cleared. Use memory_read('", path, "') to retrieve.]")
}

/// Whether `ph` holds, for each tool result that `keep` clears, the note of
/// its archive.
pub open spec fn archive_notes_fit(rest: Seq<MessageView>, keep: usize, ph: Seq<Seq<char>>) -> bool {
    forall|j: int| 0 <= j < rest.len() && #[trigger] cleared_tool(rest, keep, j) ==> {
        &&& cleared_before(rest, keep, j) < ph.len()
        &&& is_archive_note(ph[cleared_before(rest, keep, j) as int], cleared_before(rest, keep, j) + 1, rest[j]->Tool_tool_call_id)
    }
}

/// Like `compress_conversation_messages`, but each cleared tool result is
/// first stored in `memory`, and its marker names the file it went to. When
/// no tool result is cleared, it succeeds and leaves `memory` alone.
pub fn compress_conversation_messages_with_archive<M: MemoryStore>(
    messages: Vec<Message>,
    rule: &ConversationRule,
    memory: &mut M,
) -> (r: Result<Vec<Message>, CompressionError>)
    ensures
        match r {
            Ok(v) => exists|ph: Seq<Seq<char>>| {
                &&& archive_notes_fit(retained_messages(messages_view(messages@), *rule), rule.keep_recent_tool_results, ph)
                &&& messages_view(v@) == #[trigger] compressed_conversation(messages_view(messages@), *rule, Some(ph))
            },
            Err(e) => e is Memory,
        },
        (forall|j: int| 0 <= j < retained_messages(messages_view(messages@), *rule).len()
            ==> !#[trigger] cleared_tool(retained_messages(messages_view(messages@), *rule), rule.keep_recent_tool_results, j))
            ==> r is Ok && messages_view(r->Ok_0@) == compressed_conversation(messages_view(messages@), *rule, Some(Seq::<Seq<char>>::empty()))
                && *final(memory) == *old(memory),
{
    let ghost ms = messages_view(messages@);
    let (prefix, rest) = split_leading_system_messages(&messages);
    let retained = trim_recent_messages(rest, rule.keep_recent_messages);
    let ghost rv = messages_view(retained@);
    let keep = rule.keep_recent_tool_results;
    let flags = message_flags(&retained, true);
    let tool_mask = recent_matching_indices(&flags, keep);
    let mut notes: Vec<String> = Vec::new();
    let mut i: usize = 0;
    proof { assert(rv == retained_messages(ms, *rule)); }
    while i < retained.len()
        invariant
            i <= retained.len(),
            rv == messages_view(retained@),
            rv == retained_messages(ms, *rule),
            ms == messages_view(messages@),
            keep == rule.keep_recent_tool_results,
            tool_mask@.len() == retained@.len(),
            forall|j: int| 0 <= j < retained@.len() ==> #[trigger] tool_mask@[j] == kept_recent(tool_flags(rv), j, keep),
            notes@.len() == cleared_before(rv, keep, i as int),
            (forall|j: int| 0 <= j < rv.len() ==> !#[trigger] cleared_tool(rv, keep, j)) ==> notes@.len() == 0,
            notes@.len() == 0 ==> *memory == *old(memory),
            forall|j: int| 0 <= j < i && #[trigger] cleared_tool(rv, keep, j) ==> {
                &&& cleared_before(rv, keep, j) < notes@.len()
                &&& is_archive_note(notes@[cleared_before(rv, keep, j) as int]@, cleared_before(rv, keep, j) + 1, rv[j]->Tool_tool_call_id)
            },
        decreases retained.len() - i,
    {
        proof {
            lemma_cleared_before_bound(rv, keep, i as int);
            assert(rv[i as int] == retained@[i as int]@);
        }
        match &retained[i] {
            Message::Tool { tool_call_id, content } => {
                if !tool_mask[i] {
                    proof { assert(cleared_tool(rv, keep, i as int)); }
                    let count = notes.len() + 1;
                    let path = match archive_tool_result(memory, count, tool_call_id.as_str(), content.as_str()) {
                        Ok(p) => p,
                        Err(e) => {
                            return Err(e);
                        },
                    };
                    let note = archive_note_string(path.as_str());
                    proof {
                        let a = choose|a: nat| path@ == #[trigger] archive_path(archive_stem(count as nat, tool_call_id@), a);
                        assert(note@ == archive_note(archive_path(archive_stem(count as nat, tool_call_id@), a)));
                    }
                    notes.push(note);
                }
            },
            _ => {},
        }
        i = i + 1;
    }
    let r = compact_retained(prefix, &retained, rule, Some(&notes));
    proof {
        let ph = strings_view(notes@);
        if forall|j: int| 0 <= j < rv.len() ==> !#[trigger] cleared_tool(rv, keep, j) {
            assert(ph =~= Seq::<Seq<char>>::empty());
        }
        assert(messages_view(r@) =~= compressed_conversation(ms, *rule, Some(ph)));
        assert forall|j: int| 0 <= j < rv.len() && #[trigger] cleared_tool(rv, keep, j) implies {
            &&& cleared_before(rv, keep, j) < ph.len()
            &&& is_archive_note(ph[cleared_before(rv, keep, j) as int], cleared_before(rv, keep, j) + 1, rv[j]->Tool_tool_call_id)
        } by {
            assert(ph[cleared_before(rv, keep, j) as int] == notes@[cleared_before(rv, keep, j) as int]@);
        }
    }
    Ok(r)
}


// ---------------------------------------------------------------------------
// Compressing a context by rule
// ---------------------------------------------------------------------------

/// A layer whose data is `ms`, encoded.
pub open spec fn with_messages_data(l: LayerView, ms: Seq<MessageView>) -> LayerView {
    LayerView { data: JsonView::Array(ms.map_values(|m: MessageView| message_json(m))), ..l }
}

/// The decoded messages of the first conversation layer after the layer
/// rules; empty when there is none or it holds no array.
pub open spec fn rule_messages(ls: Seq<LayerView>, rule: RuleView) -> Seq<MessageView> {
    match compress_layers(ls, rule.layer_rules) {
        LayersOutcome::Layers(next) => conversation_of(next),
        _ => Seq::empty(),
    }
}

pub enum RuleOutcome {
    Done(Seq<LayerView>),
    Incompatible(Seq<char>, Seq<char>),
    InvalidConversation(Seq<char>),
}

/// The context after `rule`: the layer rules, then the conversation rule on
/// the first conversation layer, whose data must be an array.
pub open spec fn rule_outcome(ls: Seq<LayerView>, rule: RuleView, ph: Option<Seq<Seq<char>>>) -> RuleOutcome {
    match compress_layers(ls, rule.layer_rules) {
        LayersOutcome::Incompatible(n, a) => RuleOutcome::Incompatible(n, a),
        LayersOutcome::Layers(next) => match rule.conversation {
            None => RuleOutcome::Done(next),
            Some(cr) => match first_conversation(next) {
                None => RuleOutcome::Done(next),
                Some(i) => match next[i].data {
                    JsonView::Array(items) => RuleOutcome::Done(
                        next.update(i, with_messages_data(next[i], compressed_conversation(decoded_messages(items), cr, ph))),
                    ),
                    _ => RuleOutcome::InvalidConversation(next[i].name),
                },
            },
        },
    }
}

pub open spec fn outcome_matches(o: RuleOutcome, r: Result<Context, CompressionError>) -> bool {
    match o {
        RuleOutcome::Done(ls) => r is Ok && r->Ok_0@ == ls,
        RuleOutcome::Incompatible(n, a) => match r {
            Err(CompressionError::IncompatibleLayerAction { layer, action }) => layer@ == n && action@ == a,
            _ => false,
        },
        RuleOutcome::InvalidConversation(n) => match r {
            Err(CompressionError::InvalidConversationLayer(x)) => x@ == n,
            _ => false,
        },
    }
}

/// The messages held by a conversation layer; refused when its data is not
/// an array. Items that are not messages are skipped.
pub fn conversation_messages(layer: &Layer) -> (r: Result<Vec<Message>, CompressionError>)
    ensures
        match layer@.data {
            JsonView::Array(items) => r is Ok && messages_view(r->Ok_0@) == decoded_messages(items),
            _ => match r {
                Err(CompressionError::InvalidConversationLayer(n)) => n@ == layer@.name,
                _ => false,
            },
        },
{
    match &layer.data {
        JsonValue::Array(items) => Ok(decode_messages(items)),
        _ => Err(CompressionError::InvalidConversationLayer(layer.name.clone())),
    }
}

/// The messages as a JSON array.
pub fn encode_messages(ms: &Vec<Message>) -> (r: JsonValue)
    ensures
        r@ == JsonView::Array(messages_view(ms@).map_values(|m: MessageView| message_json(m))),
{
    let mut out: Vec<JsonValue> = Vec::new();
    let mut i: usize = 0;
    while i < ms.len()
        invariant
            i <= ms.len(),
            json_seq_view(out@) == messages_view(ms@).take(i as int).map_values(|m: MessageView| message_json(m)),
        decreases ms.len() - i,
    {
        let ghost before = out@;
        let e = encode_message(&ms[i]);
        out.push(e);
        proof {
            assert(out@.drop_last() =~= before);
            assert(json_seq_view(out@) =~= messages_view(ms@).take(i as int + 1).map_values(|m: MessageView| message_json(m)));
        }
        i = i + 1;
    }
    proof {
        assert(messages_view(ms@).take(ms@.len() as int) =~= messages_view(ms@));
    }
    JsonValue::Array(out)
}

fn replace_data(layers: &mut Vec<Layer>, i: usize, data: JsonValue)
    requires
        i < old(layers)@.len(),
    ensures
        layers_view(final(layers)@) == layers_view(old(layers)@).update(i as int, LayerView { data: data@, ..old(layers)@[i as int]@ }),
{
    let ghost before = layers_view(layers@);
    let mut layer = layers.remove(i);
    layer.data = data;
    layers.insert(i, layer);
    proof {
        assert(layers_view(layers@) =~= before.update(i as int, LayerView { data: data@, ..before[i as int] }));
    }
}

impl Context {
    /// The context after `rule`; see `rule_outcome`.
    pub fn compress_by_rule(&self, rule: &RuleCompression) -> (r: Result<Context, CompressionError>)
        ensures
            outcome_matches(rule_outcome(self@, rule@, None), r),
    {
        let layers = match compress_layer_list(&self.layers, &rule.layer_rules) {
            Ok(ls) => ls,
            Err(e) => {
                return Err(e);
            },
        };
        let mut next = Context { layers };
        match &rule.conversation {
            None => Ok(next),
            Some(cr) => match next.conversation_index() {
                None => Ok(next),
                Some(i) => {
                    let messages = match conversation_messages(&next.layers[i]) {
                        Ok(m) => m,
                        Err(e) => {
                            return Err(e);
                        },
                    };
                    let compressed = compress_conversation_messages(messages, cr);
                    let data = encode_messages(&compressed);
                    replace_data(&mut next.layers, i, data);
                    Ok(next)
                },
            },
        }
    }

    /// Like `compress_by_rule`, but tool results that the conversation rule
    /// clears are first archived in `memory`; see
    /// `compress_conversation_messages_with_archive`.
    pub fn compress_by_rule_with_archive<M: MemoryStore>(&self, rule: &RuleCompression, memory: &mut M) -> (r: Result<Context, CompressionError>)
        ensures
            match rule_outcome(self@, rule@, None) {
                RuleOutcome::Done(_) => match r {
                    Ok(c) => exists|ph: Seq<Seq<char>>| {
                        &&& (rule@.conversation matches Some(cr) ==> archive_notes_fit(
                            retained_messages(rule_messages(self@, rule@), cr),
                            cr.keep_recent_tool_results,
                            ph,
                        ))
                        &&& #[trigger] rule_outcome(self@, rule@, Some(ph)) == RuleOutcome::Done(c@)
                    },
                    Err(e) => e is Memory,
                },
                other => outcome_matches(other, r),
            },
    {
        let layers = match compress_layer_list(&self.layers, &rule.layer_rules) {
            Ok(ls) => ls,
            Err(e) => {
                return Err(e);
            },
        };
        let mut next = Context { layers };
        match &rule.conversation {
            None => {
                proof {
                    let ph = Seq::<Seq<char>>::empty();
                    assert(rule_outcome(self@, rule@, Some(ph)) == RuleOutcome::Done(next@));
                }
                Ok(next)
            },
            Some(cr) => match next.conversation_index() {
                None => {
                    proof {
                        let ph = Seq::<Seq<char>>::empty();
                        assert(rule_outcome(self@, rule@, Some(ph)) == RuleOutcome::Done(next@));
                    }
                    Ok(next)
                },
                Some(i) => {
                    let messages = match conversation_messages(&next.layers[i]) {
                        Ok(m) => m,
                        Err(e) => {
                            return Err(e);
                        },
                    };
                    let ghost mv = messages_view(messages@);
                    let compressed = match compress_conversation_messages_with_archive(messages, cr, memory) {
                        Ok(c) => c,
                        Err(e) => {
                            return Err(e);
                        },
                    };
                    let ghost ph = choose|ph: Seq<Seq<char>>| {
                        &&& archive_notes_fit(retained_messages(mv, *cr), cr.keep_recent_tool_results, ph)
                        &&& messages_view(compressed@) == #[trigger] compressed_conversation(mv, *cr, Some(ph))
                    };
                    let data = encode_messages(&compressed);
                    replace_data(&mut next.layers, i, data);
                    proof {
                        assert(rule_outcome(self@, rule@, Some(ph)) == RuleOutcome::Done(next@));
                    }
                    Ok(next)
                },
            },
        }
    }
}


// ---------------------------------------------------------------------------
// Summaries by a model
// ---------------------------------------------------------------------------

/// How a model summarizes the older turns of the conversation.
#[derive(Debug)]
pub struct ModelCompression {
    pub keep_recent_turns: usize,
    pub summary_layer_name: String,
    pub summary_priority: i32,
    pub instruction: Option<String>,
    pub include_existing_summary: bool,
}

pub struct ModelCompressionView {
    pub keep_recent_turns: usize,
    pub summary_layer_name: Seq<char>,
    pub summary_priority: i32,
    pub instruction: Option<Seq<char>>,
    pub include_existing_summary: bool,
}

impl View for ModelCompression {
    type V = ModelCompressionView;

    open spec fn view(&self) -> ModelCompressionView {
        ModelCompressionView {
            keep_recent_turns: self.keep_recent_turns,
            summary_layer_name: self.summary_layer_name@,
            summary_priority: self.summary_priority,
            instruction: crate::message::opt_str(self.instruction),
            include_existing_summary: self.include_existing_summary,
        }
    }
}

pub open spec fn default_model_compression() -> ModelCompressionView {
    ModelCompressionView {
        keep_recent_turns: 2,
        summary_layer_name: "conversation_summary"@,
        summary_priority: 25,
        instruction: None,
        include_existing_summary: true,
    }
}

impl Default for ModelCompression {
    fn default() -> (r: ModelCompression)
        ensures
            r@ == default_model_compression(),
    {
        ModelCompression {
            keep_recent_turns: 2,
            summary_layer_name: String::from_str("conversation_summary"),
            summary_priority: 25,
            instruction: None,
            include_existing_summary: true,
        }
    }
}

impl Default for ConversationRule {
    fn default() -> (r: ConversationRule)
        ensures
            r == (ConversationRule {
                keep_recent_messages: usize::MAX,
                keep_recent_tool_results: usize::MAX,
                clear_reasoning: false,
                keep_recent_reasoning_turns: 1,
            }),
    {
        ConversationRule {
            keep_recent_messages: usize::MAX,
            keep_recent_tool_results: usize::MAX,
            clear_reasoning: false,
            keep_recent_reasoning_turns: 1,
        }
    }
}

impl Default for RuleCompression {
    fn default() -> (r: RuleCompression)
        ensures
            r@.layer_rules.len() == 0,
            r@.conversation is None,
    {
        RuleCompression { layer_rules: Vec::new(), conversation: None }
    }
}

/// A line `prefix` + `content`, none when the content is blank.
pub open spec fn text_line(prefix: Seq<char>, content: Seq<char>) -> Seq<Seq<char>> {
    if is_blank(content) { Seq::empty() } else { seq![prefix + content] }
}

/// A line for each tool call that has a name.
pub open spec fn call_lines(calls: Seq<ToolCallView>) -> Seq<Seq<char>>
    decreases calls.len(),
{
    if calls.len() == 0 {
        Seq::empty()
    } else {
        let prev = call_lines(calls.drop_last());
        let c = calls.last();
        if call_name(c).len() == 0 {
            prev
        } else {
            prev.push("assistant_tool_call: "@ + call_name(c) + " "@ + json_text(call_arguments(c)))
        }
    }
}

/// The transcript lines of a message, each prefixed by its role.
pub open spec fn transcript_of(m: MessageView) -> Seq<Seq<char>> {
    match m {
        MessageView::System { content } => text_line("system: "@, content),
        MessageView::User { content } => text_line("user: "@, content),
        MessageView::Assistant { content, tool_calls, .. } => text_line("assistant: "@, content) + match tool_calls {
            Some(cs) => call_lines(cs),
            None => Seq::empty(),
        },
        MessageView::Tool { tool_call_id, content } => if is_blank(content) {
            Seq::empty()
        } else if is_blank(tool_call_id) {
            seq!["tool: "@ + content]
        } else {
            seq!["tool["@ + tool_call_id + "]: "@ + content]
        },
    }
}

fn push_text_line(lines: &mut Vec<String>, prefix: &str, content: &String)
    ensures
        strs_view(final(lines)@) == strs_view(old(lines)@) + text_line(prefix@, content@),
{
    let ghost before = lines@;
    if !blank(content.as_str()) {
        lines.push(concat2(prefix, content.as_str()));
        proof { assert(strs_view(lines@) =~= strs_view(before) + text_line(prefix@, content@)); }
    } else {
        proof { assert(strs_view(lines@) =~= strs_view(before) + text_line(prefix@, content@)); }
    }
}

/// The transcript lines of `message`; see `transcript_of`.
pub fn transcript_lines(message: &Message) -> (r: Vec<String>)
    ensures
        strs_view(r@) == transcript_of(message@),
{
    let mut lines: Vec<String> = Vec::new();
    proof { assert(strs_view(lines@) =~= Seq::<Seq<char>>::empty()); }
    match message {
        Message::System { content } => {
            push_text_line(&mut lines, "system: ", content);
            proof { assert(strs_view(lines@) =~= transcript_of(message@)); }
        },
        Message::User { content } => {
            push_text_line(&mut lines, "user: ", content);
            proof { assert(strs_view(lines@) =~= transcript_of(message@)); }
        },
        Message::Assistant { content, tool_calls, .. } => {
            push_text_line(&mut lines, "assistant: ", content);
            let ghost head = strs_view(lines@);
            match tool_calls {
                Some(calls) => {
                    let ghost cv = crate::message::calls_view(calls@);
                    let mut i: usize = 0;
                    while i < calls.len()
                        invariant
                            i <= calls.len(),
                            cv == crate::message::calls_view(calls@),
                            strs_view(lines@) == head + call_lines(cv.take(i as int)),
                        decreases calls.len() - i,
                    {
                        proof {
                            assert(cv.take(i as int + 1).drop_last() =~= cv.take(i as int));
                            assert(cv.take(i as int + 1).last() == calls@[i as int]@);
                        }
                        let name = calls[i].get_name();
                        let ghost before = lines@;
                        if !name.as_str().is_empty() {
                            let args = json_to_text(&calls[i].get_arguments());
                            let mut line = concat3("assistant_tool_call: ", name.as_str(), " ");
                            line.append(args.as_str());
                            lines.push(line);
                            proof { assert(strs_view(lines@) =~= strs_view(before).push(line@)); }
                        }
                        i = i + 1;
                    }
                    proof {
                        assert(cv.take(cv.len() as int) =~= cv);
                        assert(strs_view(lines@) =~= transcript_of(message@));
                    }
                },
                None => {
                    proof { assert(strs_view(lines@) =~= transcript_of(message@)); }
                },
            }
        },
        Message::Tool { tool_call_id, content } => {
            if !blank(content.as_str()) {
                if blank(tool_call_id.as_str()) {
                    lines.push(concat2("tool: ", content.as_str()));
                } else {
                    let mut line = concat3("tool[", tool_call_id.as_str(), "]: ");
                    line.append(content.as_str());
                    lines.push(line);
                }
            }
            proof { assert(strs_view(lines@) =~= transcript_of(message@)); }
        },
    }
    lines
}

/// The trimmed `content` texts of the object items that have one not blank.
pub open spec fn content_lines(items: Seq<JsonView>) -> Seq<Seq<char>>
    decreases items.len(),
{
    if items.len() == 0 {
        Seq::empty()
    } else {
        let prev = content_lines(items.drop_last());
        match items.last() {
            JsonView::Object(ms) => match obj_get(ms, "content"@) {
                Some(JsonView::Str(t)) => if trim(t).len() > 0 { prev.push(trim(t)) } else { prev },
                _ => prev,
            },
            _ => prev,
        }
    }
}

/// The text of a memory layer: a string that is not blank; the content lines
/// of an array, joined by newlines, when there are any; nothing for null; the
/// JSON text of anything else.
pub open spec fn memory_layer_text_of(l: LayerView) -> Option<Seq<char>> {
    match l.data {
        JsonView::Str(t) => if !is_blank(t) { Some(t) } else { Some(json_text(l.data)) },
        JsonView::Array(items) => if content_lines(items).len() == 0 {
            None
        } else {
            Some(join(content_lines(items), "\n"@))
        },
        JsonView::Null => None,
        _ => Some(json_text(l.data)),
    }
}

/// The text of a memory layer; see `memory_layer_text_of`.
pub fn memory_layer_text(layer: &Layer) -> (r: Option<String>)
    ensures
        opt_str(r) == memory_layer_text_of(layer@),
{
    match &layer.data {
        JsonValue::Str(text) => {
            if !blank(text.as_str()) {
                Some(text.clone())
            } else {
                Some(json_to_text(&layer.data))
            }
        },
        JsonValue::Array(items) => {
            let ghost iv = json_seq_view(items@);
            proof { lemma_json_seq_view(items@); }
            let mut lines: Vec<String> = Vec::new();
            let mut i: usize = 0;
            proof { assert(strs_view(lines@) =~= content_lines(iv.take(0))); }
            while i < items.len()
                invariant
                    i <= items.len(),
                    iv == json_seq_view(items@),
                    iv.len() == items@.len(),
                    forall|k: int| 0 <= k < items@.len() ==> #[trigger] iv[k] == json_view(items@[k]),
                    strs_view(lines@) == content_lines(iv.take(i as int)),
                decreases items.len() - i,
            {
                proof {
                    assert(iv.take(i as int + 1).drop_last() =~= iv.take(i as int));
                    assert(iv.take(i as int + 1).last() == items@[i as int]@);
                }
                let ghost before = lines@;
                match &items[i] {
                    JsonValue::Object(ms) => match get_field(ms, "content") {
                        Some(JsonValue::Str(t)) => {
                            let tt = trim_str(t.as_str());
                            if !tt.as_str().is_empty() {
                                lines.push(tt);
                                proof { assert(strs_view(lines@) =~= strs_view(before).push(lines@.last()@)); }
                            }
                        },
                        _ => {},
                    },
                    _ => {},
                }
                i = i + 1;
            }
            proof { assert(iv.take(iv.len() as int) =~= iv); }
            if lines.len() == 0 {
                None
            } else {
                Some(join_strings(&lines, "\n"))
            }
        },
        JsonValue::Null => None,
        _ => Some(json_to_text(&layer.data)),
    }
}

/// The text of the existing summary layer, when there is one with text.
pub open spec fn existing_summary(ls: Seq<LayerView>, name: Seq<char>) -> Option<Seq<char>> {
    match first_named(ls, name) {
        Some(i) => memory_layer_text_of(ls[i]),
        None => None,
    }
}

pub open spec fn default_instruction() -> Seq<char> {
    "Preserve key decisions, constraints, pending work, and unresolved questions. Discard repetitive exploration and raw tool output unless it changes the state of the task."@
}

/// The prompt that asks for a summary of `old`: the existing summary when
/// asked for and not blank, then the transcript when not blank, after the
/// instruction.
pub open spec fn summary_prompt(ls: Seq<LayerView>, old: Seq<MessageView>, opts: ModelCompressionView) -> Seq<char> {
    let existing = if opts.include_existing_summary { existing_summary(ls, opts.summary_layer_name) } else { None };
    let first = match existing {
        Some(t) => if !is_blank(t) { seq!["Existing summary:\n"@ + t] } else { Seq::empty() },
        None => Seq::empty(),
    };
    let transcript = join(old.map_values(|m: MessageView| transcript_of(m)).flatten(), "\n"@);
    let sections = first + if !is_blank(transcript) { seq!["Conversation:\n"@ + transcript] } else { Seq::<Seq<char>>::empty() };
    let instruction = match opts.instruction {
        Some(i) => i,
        None => default_instruction(),
    };
    "Summarize the compressed portion of the conversation.\n"@ + instruction + "\n\n"@ + join(sections, "\n\n"@) + "\n\nSummary:"@
}

/// The prompt that asks for a summary of `old_messages`; see `summary_prompt`.
pub fn build_summary_prompt(context: &Context, old_messages: &Vec<Message>, options: &ModelCompression) -> (r: String)
    ensures
        r@ == summary_prompt(context@, messages_view(old_messages@), options@),
{
    let mut sections: Vec<String> = Vec::new();
    if options.include_existing_summary {
        match context.get(options.summary_layer_name.as_str()) {
            Some(layer) => match memory_layer_text(layer) {
                Some(text) => {
                    if !blank(text.as_str()) {
                        sections.push(concat2("Existing summary:\n", text.as_str()));
                    }
                },
                None => {},
            },
            None => {},
        }
    }
    let ghost first = strs_view(sections@);
    let ghost mv = messages_view(old_messages@);
    let ghost per = mv.map_values(|m: MessageView| transcript_of(m));
    let mut all: Vec<String> = Vec::new();
    let mut i: usize = 0;
    proof { assert(strs_view(all@) =~= per.take(0).flatten()); }
    while i < old_messages.len()
        invariant
            i <= old_messages.len(),
            mv == messages_view(old_messages@),
            per == mv.map_values(|m: MessageView| transcript_of(m)),
            strs_view(all@) == per.take(i as int).flatten(),
        decreases old_messages.len() - i,
    {
        let lines = transcript_lines(&old_messages[i]);
        let ghost before = all@;
        let mut k: usize = 0;
        while k < lines.len()
            invariant
                k <= lines.len(),
                strs_view(all@) == strs_view(before) + strs_view(lines@).take(k as int),
            decreases lines.len() - k,
        {
            let ghost prev = all@;
            all.push(lines[k].clone());
            proof {
                assert(strs_view(all@) =~= strs_view(prev).push(lines@[k as int]@));
                assert(strs_view(all@) =~= strs_view(before) + strs_view(lines@).take(k as int + 1));
            }
            k = k + 1;
        }
        proof {
            assert(strs_view(lines@).take(lines@.len() as int) =~= strs_view(lines@));
            assert(per.take(i as int + 1) =~= per.take(i as int).push(per[i as int]));
            per.take(i as int).lemma_flatten_push(per[i as int]);
            assert(per[i as int] == transcript_of(old_messages@[i as int]@));
        }
        i = i + 1;
    }
    proof { assert(per.take(per.len() as int) =~= per); }
    let transcript = join_strings(&all, "\n");
    if !blank(transcript.as_str()) {
        sections.push(concat2("Conversation:\n", transcript.as_str()));
    }
    let body = join_strings(&sections, "\n\n");
    let mut r = String::from_str("Summarize the compressed portion of the conversation.\n");
    match &options.instruction {
        Some(text) => r.append(text.as_str()),
        None => r.append("Preserve key decisions, constraints, pending work, and unresolved questions. Discard repetitive exploration and raw tool output unless it changes the state of the task."),
    }
    r.append("\n\n");
    r.append(body.as_str());
    r.append("\n\nSummary:");
    proof {
        let ls = context@;
        let opts = options@;
        let existing = if opts.include_existing_summary { existing_summary(ls, opts.summary_layer_name) } else { None };
        let first_spec = match existing {
            Some(t) => if !is_blank(t) { seq!["Existing summary:\n"@ + t] } else { Seq::empty() },
            None => Seq::empty(),
        };
        assert(first =~= first_spec);
        assert(transcript@ == join(mv.map_values(|m: MessageView| transcript_of(m)).flatten(), "\n"@));
        assert(strs_view(sections@) =~= first + if !is_blank(transcript@) { seq!["Conversation:\n"@ + transcript@] } else { Seq::<Seq<char>>::empty() });
        assert(r@ =~= summary_prompt(context@, messages_view(old_messages@), options@));
    }
    r
}


/// The conversation cut into turns: a turn starts at each user message, and
/// the first at the first message.
pub open spec fn user_turns(ms: Seq<MessageView>) -> Seq<Seq<MessageView>>
    decreases ms.len(),
{
    if ms.len() == 0 {
        Seq::empty()
    } else {
        let t = user_turns(ms.drop_last());
        let m = ms.last();
        if t.len() == 0 || m is User {
            t.push(seq![m])
        } else {
            t.update(t.len() - 1, t.last().push(m))
        }
    }
}

pub open spec fn turns_view(v: Seq<Vec<Message>>) -> Seq<Seq<MessageView>> {
    v.map_values(|t: Vec<Message>| messages_view(t@))
}

/// The leading system messages, and the rest cut into turns; see `user_turns`.
pub fn split_by_user_turns(messages: &Vec<Message>) -> (r: (Vec<Message>, Vec<Vec<Message>>))
    ensures
        messages_view(r.0@) == messages_view(messages@).take(system_prefix_len(messages_view(messages@)) as int),
        turns_view(r.1@) == user_turns(messages_view(messages@).skip(system_prefix_len(messages_view(messages@)) as int)),
{
    let (prefix, rest) = split_leading_system_messages(messages);
    let ghost rv = messages_view(rest@);
    let mut turns: Vec<Vec<Message>> = Vec::new();
    let mut current: Vec<Message> = Vec::new();
    let mut i: usize = 0;
    while i < rest.len()
        invariant
            i <= rest.len(),
            rv == messages_view(rest@),
            i == 0 ==> turns@.len() == 0 && current@.len() == 0,
            i > 0 ==> current@.len() > 0 && turns_view(turns@).push(messages_view(current@)) == user_turns(rv.take(i as int)),
        decreases rest.len() - i,
    {
        let m = rest[i].clone();
        proof {
            assert(rv.take(i as int + 1).drop_last() =~= rv.take(i as int));
            assert(rv.take(i as int + 1).last() == m@);
        }
        let ghost old_turns = turns_view(turns@);
        let ghost old_current = messages_view(current@);
        if is_user_message(&m) && current.len() > 0 {
            let done = current;
            turns.push(done);
            current = Vec::new();
            proof { assert(turns_view(turns@) =~= old_turns.push(old_current)); }
        }
        let ghost mid_current = messages_view(current@);
        current.push(m);
        proof {
            assert(messages_view(current@) =~= mid_current.push(m@));
            let t = user_turns(rv.take(i as int));
            assert(user_turns(rv.take(i as int + 1)) == if t.len() == 0 || m@ is User {
                t.push(seq![m@])
            } else {
                t.update(t.len() - 1, t.last().push(m@))
            });
            if i == 0 {
                assert(rv.take(0) =~= Seq::<MessageView>::empty());
                assert(t =~= Seq::<Seq<MessageView>>::empty());
                assert(turns_view(turns@) =~= Seq::<Seq<MessageView>>::empty());
                assert(messages_view(current@) =~= seq![m@]);
                assert(turns_view(turns@).push(messages_view(current@)) =~= user_turns(rv.take(i as int + 1)));
            } else if m@ is User {
                assert(messages_view(current@) =~= seq![m@]);
                assert(turns_view(turns@).push(messages_view(current@)) =~= user_turns(rv.take(i as int + 1)));
            } else {
                assert(turns_view(turns@) =~= old_turns);
                assert(t.len() > 0);
                assert(t.last() == old_current);
                assert(turns_view(turns@).push(messages_view(current@)) =~= user_turns(rv.take(i as int + 1)));
            }
        }
        i = i + 1;
    }
    proof { assert(rv.take(rv.len() as int) =~= rv); }
    if current.len() > 0 {
        let ghost t = turns_view(turns@);
        turns.push(current);
        proof { assert(turns_view(turns@) =~= t.push(turns_view(turns@).last())); }
    } else {
        proof { assert(turns_view(turns@) =~= Seq::<Seq<MessageView>>::empty()); }
    }
    (prefix, turns)
}

/// The messages of `turns[from..to]`, in order.
fn flatten_turns(turns: &Vec<Vec<Message>>, from: usize, to: usize) -> (r: Vec<Message>)
    requires
        from <= to <= turns@.len(),
    ensures
        messages_view(r@) == turns_view(turns@).subrange(from as int, to as int).flatten(),
{
    let ghost tv = turns_view(turns@);
    let mut out: Vec<Message> = Vec::new();
    let mut i: usize = from;
    proof { assert(messages_view(out@) =~= tv.subrange(from as int, from as int).flatten()); }
    while i < to
        invariant
            from <= i <= to,
            to <= turns@.len(),
            tv == turns_view(turns@),
            messages_view(out@) == tv.subrange(from as int, i as int).flatten(),
        decreases to - i,
    {
        let ghost before = messages_view(out@);
        let mut k: usize = 0;
        while k < turns[i].len()
            invariant
                i < turns@.len(),
                k <= turns@[i as int]@.len(),
                messages_view(out@) == before + messages_view(turns@[i as int]@).take(k as int),
            decreases turns@[i as int]@.len() - k,
        {
            let ghost prev = out@;
            out.push(turns[i][k].clone());
            proof {
                assert(messages_view(out@) =~= messages_view(prev).push(turns@[i as int]@[k as int]@));
                assert(messages_view(out@) =~= before + messages_view(turns@[i as int]@).take(k as int + 1));
            }
            k = k + 1;
        }
        proof {
            assert(messages_view(turns@[i as int]@).take(turns@[i as int]@.len() as int) =~= messages_view(turns@[i as int]@));
            assert(tv.subrange(from as int, i as int + 1) =~= tv.subrange(from as int, i as int).push(tv[i as int]));
            tv.subrange(from as int, i as int).lemma_flatten_push(tv[i as int]);
        }
        i = i + 1;
    }
    out
}

/// A JSON object with one member, `content`.
pub open spec fn content_obj(t: Seq<char>) -> JsonView {
    JsonView::Object(seq![("content"@, JsonView::Str(t))])
}

/// The pieces trimmed, the blank ones left out.
pub open spec fn nonblank_trimmed(pieces: Seq<Seq<char>>) -> Seq<Seq<char>>
    decreases pieces.len(),
{
    if pieces.len() == 0 {
        Seq::empty()
    } else {
        let prev = nonblank_trimmed(pieces.drop_last());
        let t = trim(pieces.last());
        if t.len() == 0 { prev } else { prev.push(t) }
    }
}

/// The memory layer that holds a summary: a heading entry, then one entry per
/// line of the summary that is not blank.
pub open spec fn summary_layer(summary: Seq<char>, opts: ModelCompressionView) -> LayerView {
    LayerView {
        name: opts.summary_layer_name,
        kind: KindView::Memory,
        data: JsonView::Array(
            seq![content_obj("[Previous conversation summary]"@)]
                + nonblank_trimmed(split_newlines(summary)).map_values(|t: Seq<char>| content_obj(t)),
        ),
        meta: MetaView { source: None, priority: opts.summary_priority, readonly: false, tags: seq!["compressed_summary"@] },
    }
}

fn content_value(t: String) -> (r: JsonValue)
    ensures
        r@ == content_obj(t@),
{
    let mut ms: Vec<(String, JsonValue)> = Vec::new();
    ms.push((String::from_str("content"), JsonValue::Str(t)));
    proof {
        crate::json::lemma_members_view(ms@);
        reveal_strlit("content");
        assert(crate::json::members_view(ms@) =~= seq![("content"@, JsonView::Str(t@))]);
    }
    JsonValue::Object(ms)
}

/// The memory layer that holds `summary`; see `summary_layer`.
pub fn build_summary_layer(summary: &str, options: &ModelCompression) -> (r: Layer)
    ensures
        r@ == summary_layer(summary@, options@),
{
    let mut entries: Vec<JsonValue> = Vec::new();
    entries.push(content_value(String::from_str("[Previous conversation summary]")));
    let pieces = split_on_newlines(summary);
    let ghost pv = strs_view(pieces@);
    let ghost head = json_seq_view(entries@);
    proof {
        lemma_json_seq_view(entries@);
        assert(head =~= seq![content_obj("[Previous conversation summary]"@)]);
    }
    let mut i: usize = 0;
    proof {
        assert(json_seq_view(entries@) =~= head + nonblank_trimmed(pv.take(0)).map_values(|t: Seq<char>| content_obj(t)));
    }
    while i < pieces.len()
        invariant
            i <= pieces.len(),
            pv == strs_view(pieces@),
            json_seq_view(entries@) == head + nonblank_trimmed(pv.take(i as int)).map_values(|t: Seq<char>| content_obj(t)),
        decreases pieces.len() - i,
    {
        proof {
            assert(pv.take(i as int + 1).drop_last() =~= pv.take(i as int));
            assert(pv.take(i as int + 1).last() == pieces@[i as int]@);
        }
        let t = trim_str(pieces[i].as_str());
        let ghost before = entries@;
        if !t.as_str().is_empty() {
            let ghost tv = t@;
            entries.push(content_value(t));
            proof {
                assert(entries@.drop_last() =~= before);
                assert(json_seq_view(entries@) =~= head + nonblank_trimmed(pv.take(i as int + 1)).map_values(|t: Seq<char>| content_obj(t)));
            }
        }
        i = i + 1;
    }
    proof { assert(pv.take(pv.len() as int) =~= pv); }
    let mut tags: Vec<String> = Vec::new();
    tags.push(String::from_str("compressed_summary"));
    let meta = crate::context::LayerMeta { source: None, priority: options.summary_priority, readonly: false, tags };
    let layer = Layer { name: options.summary_layer_name.clone(), kind: LayerKind::Memory, data: JsonValue::Array(entries), meta };
    proof {
        assert(strings_view(layer.meta.tags@) =~= seq!["compressed_summary"@]);
        assert(layer@.meta =~= summary_layer(summary@, options@).meta);
    }
    layer
}

/// The layers without those named `name`, then `layer`.
pub open spec fn upserted(ls: Seq<LayerView>, name: Seq<char>, layer: LayerView) -> Seq<LayerView> {
    ls.filter(|l: LayerView| l.name != name).push(layer)
}

/// Replaces the summary layer: layers with its name go, the new one comes last.
pub fn upsert_summary_layer(context: &mut Context, summary: &str, options: &ModelCompression)
    ensures
        final(context)@ == upserted(old(context)@, options@.summary_layer_name, summary_layer(summary@, options@)),
{
    let ghost lv = context@;
    let ghost name = options@.summary_layer_name;
    let ghost pred = |l: LayerView| l.name != name;
    let mut kept: Vec<Layer> = Vec::new();
    let mut i: usize = 0;
    proof { assert(layers_view(kept@) =~= lv.subrange(0, 0).filter(pred)); reveal(Seq::filter); }
    while i < context.layers.len()
        invariant
            i <= context.layers.len(),
            lv == context@,
            name == options@.summary_layer_name,
            pred == (|l: LayerView| l.name != name),
            layers_view(kept@) == lv.subrange(0, i as int).filter(pred),
        decreases context.layers.len() - i,
    {
        let ghost before = kept@;
        if context.layers[i].name != options.summary_layer_name {
            kept.push(context.layers[i].clone());
        }
        proof {
            let sub = lv.subrange(0, i as int + 1);
            assert(sub.drop_last() =~= lv.subrange(0, i as int));
            reveal(Seq::filter);
            assert(sub.last() == context.layers@[i as int]@);
            assert(layers_view(kept@) =~= sub.filter(pred));
        }
        i = i + 1;
    }
    proof { assert(lv.subrange(0, lv.len() as int) =~= lv); }
    let layer = build_summary_layer(summary, options);
    let ghost kv = layers_view(kept@);
    kept.push(layer);
    proof { assert(layers_view(kept@) =~= kv.push(layer@)); }
    context.layers = kept;
}


/// What summarizing by a model is to do, before the model is asked.
#[derive(Debug)]
pub struct ModelCompressionPlan {
    pub conversation_index: usize,
    pub kept_messages: Vec<Message>,
    pub prompt: String,
}

pub enum PlanView {
    Unchanged,
    Invalid(Seq<char>),
    Planned { index: int, kept: Seq<MessageView>, prompt: Seq<char> },
}

/// The plan for `ls`: nothing to do without a conversation, without
/// messages, or with no more turns than are kept; otherwise the older turns
/// go to the model, and the leading system messages and the recent turns stay.
pub open spec fn model_plan(ls: Seq<LayerView>, opts: ModelCompressionView) -> PlanView {
    match first_conversation(ls) {
        None => PlanView::Unchanged,
        Some(ci) => match ls[ci].data {
            JsonView::Array(items) => {
                let ms = decoded_messages(items);
                let n = system_prefix_len(ms) as int;
                let turns = user_turns(ms.skip(n));
                if ms.len() == 0 || turns.len() <= opts.keep_recent_turns {
                    PlanView::Unchanged
                } else {
                    let split = turns.len() - opts.keep_recent_turns;
                    let old = turns.take(split).flatten();
                    if old.len() == 0 {
                        PlanView::Unchanged
                    } else {
                        PlanView::Planned {
                            index: ci,
                            kept: ms.take(n) + turns.skip(split).flatten(),
                            prompt: summary_prompt(ls, old, opts),
                        }
                    }
                }
            },
            _ => PlanView::Invalid(ls[ci].name),
        },
    }
}

/// The layers once the model's summary is in: the conversation layer holds
/// the kept messages, and the summary layer replaces any of its name, last.
pub open spec fn summarized(ls: Seq<LayerView>, index: int, kept: Seq<MessageView>, summary: Seq<char>, opts: ModelCompressionView) -> Seq<LayerView> {
    upserted(ls.update(index, with_messages_data(ls[index], kept)), opts.summary_layer_name, summary_layer(summary, opts))
}

impl Context {
    /// Decides what summarizing by a model does to this context; see
    /// `model_plan`. The caller asks the model for a summary of the plan's
    /// prompt and hands it to `apply_model_summary`.
    pub fn plan_model_compression(&self, options: &ModelCompression) -> (r: Result<Option<ModelCompressionPlan>, CompressionError>)
        ensures
            match model_plan(self@, options@) {
                PlanView::Unchanged => r matches Ok(None),
                PlanView::Invalid(n) => match r {
                    Err(CompressionError::InvalidConversationLayer(x)) => x@ == n,
                    _ => false,
                },
                PlanView::Planned { index, kept, prompt } => match r {
                    Ok(Some(p)) => p.conversation_index == index && messages_view(p.kept_messages@) == kept
                        && p.prompt@ == prompt && index < self@.len(),
                    _ => false,
                },
            },
    {
        let ci = match self.conversation_index() {
            Some(i) => i,
            None => {
                return Ok(None);
            },
        };
        let messages = match conversation_messages(&self.layers[ci]) {
            Ok(m) => m,
            Err(e) => {
                return Err(e);
            },
        };
        if messages.len() == 0 {
            return Ok(None);
        }
        let (prefix, turns) = split_by_user_turns(&messages);
        if turns.len() <= options.keep_recent_turns {
            return Ok(None);
        }
        let split = turns.len() - options.keep_recent_turns;
        let old_messages = flatten_turns(&turns, 0, split);
        if old_messages.len() == 0 {
            return Ok(None);
        }
        let recent = flatten_turns(&turns, split, turns.len());
        let prompt = build_summary_prompt(self, &old_messages, options);
        let mut kept = prefix;
        let ghost pv = messages_view(kept@);
        let mut k: usize = 0;
        while k < recent.len()
            invariant
                k <= recent.len(),
                messages_view(kept@) == pv + messages_view(recent@).take(k as int),
            decreases recent.len() - k,
        {
            let ghost prev = kept@;
            kept.push(recent[k].clone());
            proof {
                assert(messages_view(kept@) =~= messages_view(prev).push(recent@[k as int]@));
                assert(messages_view(kept@) =~= pv + messages_view(recent@).take(k as int + 1));
            }
            k = k + 1;
        }
        proof {
            let tv = turns_view(turns@);
            assert(messages_view(recent@).take(recent@.len() as int) =~= messages_view(recent@));
            assert(tv.subrange(0, split as int) =~= tv.take(split as int));
            assert(tv.subrange(split as int, tv.len() as int) =~= tv.skip(split as int));
        }
        Ok(Some(ModelCompressionPlan { conversation_index: ci, kept_messages: kept, prompt }))
    }

    /// The context once the model answered `summary` to the plan's prompt:
    /// refused when the summary is blank; see `summarized`.
    pub fn apply_model_summary(&self, plan: &ModelCompressionPlan, summary: &str, options: &ModelCompression) -> (r: Result<Context, CompressionError>)
        requires
            plan.conversation_index < self@.len(),
        ensures
            is_blank(summary@) ==> r matches Err(CompressionError::EmptySummary),
            !is_blank(summary@) ==> r is Ok && r->Ok_0@ == summarized(
                self@,
                plan.conversation_index as int,
                messages_view(plan.kept_messages@),
                summary@,
                options@,
            ),
    {
        if blank(summary) {
            return Err(CompressionError::EmptySummary);
        }
        let mut next = self.clone();
        let data = encode_messages(&plan.kept_messages);
        replace_data(&mut next.layers, plan.conversation_index, data);
        upsert_summary_layer(&mut next, summary, options);
        Ok(next)
    }
}

/// A summary model that asks a chat model, under a system prompt of its own.
pub struct ChatSummaryModel<'a, C> {
    pub chat: &'a C,
    pub system_prompt: String,
}

pub open spec fn default_summary_system_prompt() -> Seq<char> {
    "You compress layered agent context. Return only a concise summary that will help continue the task later."@
}

impl<'a, C> ChatSummaryModel<'a, C> {
    pub fn new(chat: &'a C) -> (r: Self)
        ensures
            r.chat == chat,
            r.system_prompt@ == default_summary_system_prompt(),
    {
        ChatSummaryModel {
            chat,
            system_prompt: String::from_str("You compress layered agent context. Return only a concise summary that will help continue the task later."),
        }
    }

    pub fn with_system_prompt(self, prompt: &str) -> (r: Self)
        ensures
            r.chat == self.chat,
            r.system_prompt@ == prompt@,
    {
        ChatSummaryModel { chat: self.chat, system_prompt: String::from_str(prompt) }
    }

    /// The messages sent to the chat model: the system prompt, then `prompt`
    /// as the user's.
    pub fn request_messages(&self, prompt: &str) -> (r: Vec<Message>)
        ensures
            messages_view(r@) == seq![
                MessageView::System { content: self.system_prompt@ },
                MessageView::User { content: prompt@ },
            ],
    {
        let mut v: Vec<Message> = Vec::new();
        v.push(Message::System { content: self.system_prompt.clone() });
        v.push(Message::User { content: String::from_str(prompt) });
        proof {
            assert(messages_view(v@) =~= seq![
                MessageView::System { content: self.system_prompt@ },
                MessageView::User { content: prompt@ },
            ]);
        }
        v
    }
}

/// The summary in the chat model's reply: the content of an assistant
/// message that is not blank; no response otherwise.
pub fn summary_from_reply(reply: Message) -> (r: Result<String, ChatError>)
    ensures
        match reply@ {
            MessageView::Assistant { content, .. } => if !is_blank(content) {
                r is Ok && r->Ok_0@ == content
            } else {
                r matches Err(ChatError::NoResponse)
            },
            _ => r matches Err(ChatError::NoResponse),
        },
{
    match reply {
        Message::Assistant { content, .. } => {
            if !blank(content.as_str()) {
                Ok(content)
            } else {
                Err(ChatError::NoResponse)
            }
        },
        _ => Err(ChatError::NoResponse),
    }
}


// ---------------------------------------------------------------------------
// Laws
// ---------------------------------------------------------------------------

proof fn lemma_system_prefix_bound(ms: Seq<MessageView>)
    ensures
        system_prefix_len(ms) <= ms.len(),
        forall|j: int| 0 <= j < system_prefix_len(ms) ==> #[trigger] ms[j] is System,
    decreases ms.len(),
{
    if ms.len() > 0 && ms[0] is System {
        lemma_system_prefix_bound(ms.drop_first());
        assert forall|j: int| 0 <= j < system_prefix_len(ms) implies #[trigger] ms[j] is System by {
            if j > 0 {
                assert(ms[j] == ms.drop_first()[j - 1]);
            }
        }
    }
}

proof fn lemma_no_layer_rules(ls: Seq<LayerView>)
    ensures
        compress_layers(ls, Seq::empty()) == LayersOutcome::Layers(ls),
    decreases ls.len(),
{
    if ls.len() > 0 {
        lemma_no_layer_rules(ls.drop_last());
        assert(apply_rules(ls.last(), Seq::empty()) == ActionOutcome::Kept(ls.last()));
        assert(ls.drop_last().push(ls.last()) =~= ls);
    } else {
        assert(ls =~= Seq::<LayerView>::empty());
    }
}

/// Rules without layer rules and without a conversation rule leave a context
/// as it is.
pub proof fn law_empty_rules_keep_context(ls: Seq<LayerView>, ph: Option<Seq<Seq<char>>>)
    ensures
        rule_outcome(ls, RuleView { layer_rules: Seq::empty(), conversation: None }, ph) == RuleOutcome::Done(ls),
{
    lemma_no_layer_rules(ls);
}

/// The default conversation rule (keep every message and tool result, leave
/// reasoning) leaves a conversation as it is.
pub proof fn law_default_conversation_rule_keeps_messages(ms: Seq<MessageView>, rule: ConversationRule, ph: Option<Seq<Seq<char>>>)
    requires
        ms.len() < usize::MAX,
        rule.keep_recent_messages == usize::MAX,
        rule.keep_recent_tool_results == usize::MAX,
        !rule.clear_reasoning,
    ensures
        compressed_conversation(ms, rule, ph) == ms,
{
    lemma_system_prefix_bound(ms);
    let n = system_prefix_len(ms) as int;
    let rest = retained_messages(ms, rule);
    assert(rest == ms.skip(n));
    let f = |i: int| compact_message(rest, rule, ph, i);
    assert forall|i: int| 0 <= i < rest.len() implies #[trigger] Seq::new(rest.len(), f)[i] == rest[i] by {
        lemma_count_from_bound(tool_flags(rest), i + 1);
    }
    assert(Seq::new(rest.len(), f) =~= rest);
    assert(ms.take(n) + ms.skip(n) =~= ms);
}

/// A compressed conversation starts with the leading system messages of the
/// conversation it came from, unchanged, and keeps at most `keep_recent_messages` of the rest.
pub proof fn law_compression_keeps_system_prefix(ms: Seq<MessageView>, rule: ConversationRule, ph: Option<Seq<Seq<char>>>)
    ensures
        compressed_conversation(ms, rule, ph).take(system_prefix_len(ms) as int) == ms.take(system_prefix_len(ms) as int),
        forall|j: int| 0 <= j < system_prefix_len(ms) ==> #[trigger] compressed_conversation(ms, rule, ph)[j] is System,
        compressed_conversation(ms, rule, ph).len() - system_prefix_len(ms) <= rule.keep_recent_messages
            || rule.keep_recent_messages == usize::MAX,
{
    lemma_system_prefix_bound(ms);
    let n = system_prefix_len(ms) as int;
    let c = compressed_conversation(ms, rule, ph);
    assert(c.take(n) =~= ms.take(n));
    assert forall|j: int| 0 <= j < n implies #[trigger] c[j] is System by {
        assert(c[j] == ms[j]);
    }
}

} // verus!
