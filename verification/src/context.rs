use vstd::prelude::*;

use crate::codec::{decode_message, decode_message_value, encode_message, lemma_message_round_trip, message_json, message_round_trips};
use crate::codec::get_field;
use crate::json::{lemma_members_view, obj_insert_all, object_insert, json_seq_view, json_text, json_to_text, json_view, lemma_json_seq_view, members_view, obj_get, JsonValue, JsonView};
use crate::text::{concat2, concat3, join, join_strings, strs_view};
use crate::message::{messages_view, opt_str, Message, MessageView};
use crate::markdown::{contains_text, lemma_contains_concat, lemma_contains_self, lemma_join_contains};

verus! {

/// How a layer's data is to be read.
#[derive(Debug)]
pub enum LayerKind {
    System,
    Soul,
    User,
    Memory,
    Conversation,
    Tools,
    Custom(String),
}

/// Where a layer came from and how it ranks.
#[derive(Debug)]
pub struct LayerMeta {
    pub source: Option<String>,
    pub priority: i32,
    pub readonly: bool,
    pub tags: Vec<String>,
}

/// A named, typed piece of context.
#[derive(Debug)]
pub struct Layer {
    pub name: String,
    pub kind: LayerKind,
    pub data: JsonValue,
    pub meta: LayerMeta,
}

/// Layered context: system text, persona, user profile, memories,
/// conversation and custom layers.
#[derive(Debug)]
pub struct Context {
    pub layers: Vec<Layer>,
}

pub enum KindView {
    System,
    Soul,
    User,
    Memory,
    Conversation,
    Tools,
    Custom(Seq<char>),
}

pub struct MetaView {
    pub source: Option<Seq<char>>,
    pub priority: i32,
    pub readonly: bool,
    pub tags: Seq<Seq<char>>,
}

pub struct LayerView {
    pub name: Seq<char>,
    pub kind: KindView,
    pub data: JsonView,
    pub meta: MetaView,
}

impl View for LayerKind {
    type V = KindView;

    open spec fn view(&self) -> KindView {
        match self {
            LayerKind::System => KindView::System,
            LayerKind::Soul => KindView::Soul,
            LayerKind::User => KindView::User,
            LayerKind::Memory => KindView::Memory,
            LayerKind::Conversation => KindView::Conversation,
            LayerKind::Tools => KindView::Tools,
            LayerKind::Custom(s) => KindView::Custom(s@),
        }
    }
}

pub open spec fn strings_view(s: Seq<String>) -> Seq<Seq<char>> {
    s.map_values(|x: String| x@)
}

impl View for LayerMeta {
    type V = MetaView;

    open spec fn view(&self) -> MetaView {
        MetaView {
            source: opt_str(self.source),
            priority: self.priority,
            readonly: self.readonly,
            tags: strings_view(self.tags@),
        }
    }
}

impl View for Layer {
    type V = LayerView;

    open spec fn view(&self) -> LayerView {
        LayerView { name: self.name@, kind: self.kind@, data: self.data@, meta: self.meta@ }
    }
}

pub open spec fn layers_view(s: Seq<Layer>) -> Seq<LayerView> {
    s.map_values(|l: Layer| l@)
}

impl View for Context {
    type V = Seq<LayerView>;

    open spec fn view(&self) -> Seq<LayerView> {
        layers_view(self.layers@)
    }
}

pub open spec fn default_meta() -> MetaView {
    MetaView { source: None, priority: 0, readonly: false, tags: Seq::empty() }
}

impl PartialEq for LayerKind {
    fn eq(&self, other: &Self) -> (r: bool) {
        match (self, other) {
            (LayerKind::System, LayerKind::System) => true,
            (LayerKind::Soul, LayerKind::Soul) => true,
            (LayerKind::User, LayerKind::User) => true,
            (LayerKind::Memory, LayerKind::Memory) => true,
            (LayerKind::Conversation, LayerKind::Conversation) => true,
            (LayerKind::Tools, LayerKind::Tools) => true,
            (LayerKind::Custom(a), LayerKind::Custom(b)) => (*a).eq(b),
            _ => false,
        }
    }
}

impl vstd::std_specs::cmp::PartialEqSpecImpl for LayerKind {
    open spec fn obeys_eq_spec() -> bool {
        true
    }

    open spec fn eq_spec(&self, other: &Self) -> bool {
        self@ == other@
    }
}

// ---------------------------------------------------------------------------
// Copies
// ---------------------------------------------------------------------------

impl Clone for LayerKind {
    fn clone(&self) -> (r: Self)
        ensures
            r@ == self@,
    {
        match self {
            LayerKind::System => LayerKind::System,
            LayerKind::Soul => LayerKind::Soul,
            LayerKind::User => LayerKind::User,
            LayerKind::Memory => LayerKind::Memory,
            LayerKind::Conversation => LayerKind::Conversation,
            LayerKind::Tools => LayerKind::Tools,
            LayerKind::Custom(s) => LayerKind::Custom(s.clone()),
        }
    }
}

pub fn copy_strings(v: &Vec<String>) -> (r: Vec<String>)
    ensures
        strings_view(r@) == strings_view(v@),
{
    let mut out: Vec<String> = Vec::new();
    let mut i: usize = 0;
    while i < v.len()
        invariant
            i <= v.len(),
            out@.len() == i,
            forall|j: int| 0 <= j < i ==> #[trigger] out@[j]@ == v@[j]@,
        decreases v.len() - i,
    {
        out.push(v[i].clone());
        i = i + 1;
    }
    proof {
        assert(strings_view(out@) =~= strings_view(v@));
    }
    out
}

impl Clone for LayerMeta {
    fn clone(&self) -> (r: Self)
        ensures
            r@ == self@,
    {
        LayerMeta {
            source: crate::message::copy_opt_string(&self.source),
            priority: self.priority,
            readonly: self.readonly,
            tags: copy_strings(&self.tags),
        }
    }
}

impl Clone for Layer {
    fn clone(&self) -> (r: Self)
        ensures
            r@ == self@,
    {
        Layer {
            name: self.name.clone(),
            kind: self.kind.clone(),
            data: self.data.clone(),
            meta: self.meta.clone(),
        }
    }
}

impl Clone for Context {
    fn clone(&self) -> (r: Self)
        ensures
            r@ == self@,
    {
        let mut out: Vec<Layer> = Vec::new();
        let mut i: usize = 0;
        while i < self.layers.len()
            invariant
                i <= self.layers.len(),
                out@.len() == i,
                forall|j: int| 0 <= j < i ==> #[trigger] out@[j]@ == self.layers@[j]@,
            decreases self.layers.len() - i,
        {
            out.push(self.layers[i].clone());
            i = i + 1;
        }
        proof {
            assert(layers_view(out@) =~= layers_view(self.layers@));
        }
        Context { layers: out }
    }
}

// ---------------------------------------------------------------------------
// Layers
// ---------------------------------------------------------------------------

impl LayerMeta {
    pub fn new() -> (r: LayerMeta)
        ensures
            r@ == default_meta(),
    {
        let r = LayerMeta { source: None, priority: 0, readonly: false, tags: Vec::new() };
        proof {
            assert(strings_view(r.tags@) =~= Seq::<Seq<char>>::empty());
        }
        r
    }
}

impl Default for LayerMeta {
    fn default() -> (r: LayerMeta)
        ensures
            r@ == default_meta(),
    {
        LayerMeta::new()
    }
}

impl Layer {
    /// A layer with default metadata.
    pub fn new(name: &str, kind: LayerKind, data: JsonValue) -> (r: Layer)
        ensures
            r@ == (LayerView { name: name@, kind: kind@, data: data@, meta: default_meta() }),
    {
        Layer { name: name.to_owned(), kind, data, meta: LayerMeta::new() }
    }

    pub fn with_priority(self, priority: i32) -> (r: Layer)
        ensures
            r@ == (LayerView { meta: MetaView { priority, ..self@.meta }, ..self@ }),
    {
        let mut l = self;
        l.meta.priority = priority;
        l
    }

    pub fn with_source(self, source: &str) -> (r: Layer)
        ensures
            r@ == (LayerView { meta: MetaView { source: Some(source@), ..self@.meta }, ..self@ }),
    {
        let mut l = self;
        l.meta.source = Some(source.to_owned());
        l
    }

    pub fn with_readonly(self, readonly: bool) -> (r: Layer)
        ensures
            r@ == (LayerView { meta: MetaView { readonly, ..self@.meta }, ..self@ }),
    {
        let mut l = self;
        l.meta.readonly = readonly;
        l
    }
}

// ---------------------------------------------------------------------------
// The conversation layer
// ---------------------------------------------------------------------------

pub open spec fn is_conversation(l: LayerView) -> bool {
    l.kind == KindView::Conversation
}

/// The position of the first conversation layer.
pub open spec fn first_conversation(ls: Seq<LayerView>) -> Option<int>
    decreases ls.len(),
{
    if ls.len() == 0 {
        None
    } else {
        match first_conversation(ls.drop_last()) {
            Some(i) => Some(i),
            None => if is_conversation(ls.last()) { Some(ls.len() - 1) } else { None },
        }
    }
}

pub proof fn lemma_first_conversation(ls: Seq<LayerView>, i: int)
    requires
        0 <= i <= ls.len(),
        forall|j: int| 0 <= j < i ==> !is_conversation(#[trigger] ls[j]),
        i < ls.len() ==> is_conversation(ls[i]),
    ensures
        first_conversation(ls) == if i < ls.len() { Some(i) } else { None::<int> },
    decreases ls.len(),
{
    if ls.len() > 0 {
        if i < ls.len() - 1 {
            lemma_first_conversation(ls.drop_last(), i);
        } else {
            lemma_first_conversation(ls.drop_last(), ls.len() - 1);
        }
    }
}

/// The messages that decode among `items`, in order; the others are skipped.
pub open spec fn decoded_messages(items: Seq<JsonView>) -> Seq<MessageView>
    decreases items.len(),
{
    if items.len() == 0 {
        Seq::empty()
    } else {
        match decode_message(items.last()) {
            Some(m) => decoded_messages(items.drop_last()).push(m),
            None => decoded_messages(items.drop_last()),
        }
    }
}

/// The messages of the first conversation layer; none when there is no such
/// layer or its data is not an array.
pub open spec fn conversation_of(ls: Seq<LayerView>) -> Seq<MessageView> {
    match first_conversation(ls) {
        Some(i) => match ls[i].data {
            JsonView::Array(items) => decoded_messages(items),
            _ => Seq::empty(),
        },
        None => Seq::empty(),
    }
}

/// The layers after `m` is added to the conversation: appended to the first
/// conversation layer when its data is an array (left alone when it is not),
/// or in a new layer named "conversation" when there is none.
pub open spec fn with_message(ls: Seq<LayerView>, m: MessageView) -> Seq<LayerView> {
    match first_conversation(ls) {
        Some(i) => match ls[i].data {
            JsonView::Array(items) => ls.update(
                i,
                LayerView { data: JsonView::Array(items.push(message_json(m))), ..ls[i] },
            ),
            _ => ls,
        },
        None => ls.push(LayerView {
            name: "conversation"@,
            kind: KindView::Conversation,
            data: JsonView::Array(seq![message_json(m)]),
            meta: default_meta(),
        }),
    }
}

/// Whether adding a message to the conversation reaches it: there is no
/// conversation layer yet, or the first one holds an array.
pub open spec fn conversation_writable(ls: Seq<LayerView>) -> bool {
    match first_conversation(ls) {
        Some(i) => ls[i].data is Array,
        None => true,
    }
}

impl Context {
    /// An empty context.
    pub fn new() -> (r: Context)
        ensures
            r@ == Seq::<LayerView>::empty(),
    {
        Context { layers: Vec::new() }
    }

    /// The context with `layer` added last.
    pub fn layer(self, layer: Layer) -> (r: Context)
        ensures
            r@ == self@.push(layer@),
    {
        let mut c = self;
        let ghost old_layers = c.layers@;
        c.layers.push(layer);
        proof {
            assert(layers_view(c.layers@) =~= layers_view(old_layers).push(layer@));
        }
        c
    }

    pub(crate) fn conversation_index(&self) -> (r: Option<usize>)
        ensures
            match r {
                Some(i) => first_conversation(self@) == Some(i as int) && i < self.layers@.len(),
                None => first_conversation(self@) is None,
            },
    {
        let mut i: usize = 0;
        while i < self.layers.len()
            invariant
                i <= self.layers.len(),
                forall|j: int| 0 <= j < i ==> !is_conversation(#[trigger] self@[j]),
            decreases self.layers.len() - i,
        {
            if self.layers[i].kind == LayerKind::Conversation {
                proof { lemma_first_conversation(self@, i as int); }
                return Some(i);
            }
            i = i + 1;
        }
        proof { lemma_first_conversation(self@, self@.len() as int); }
        None
    }

    /// The messages of the conversation.
    pub fn conversation(&self) -> (r: Vec<Message>)
        ensures
            messages_view(r@) == conversation_of(self@),
    {
        match self.conversation_index() {
            Some(i) => match &self.layers[i].data {
                JsonValue::Array(items) => decode_messages(items),
                _ => Vec::new(),
            },
            None => Vec::new(),
        }
    }

    /// Adds `message` to the conversation; see `with_message`.
    pub fn add_message(&mut self, message: Message)
        ensures
            final(self)@ == with_message(old(self)@, message@),
    {
        let encoded = encode_message(&message);
        match self.conversation_index() {
            Some(i) => {
                let ghost before = self@;
                let mut layer = self.layers.remove(i);
                let ghost lv = layer@;
                let is_array = match &mut layer.data {
                    JsonValue::Array(arr) => {
                        let ghost old_arr = arr@;
                        arr.push(encoded);
                        proof {
                            lemma_json_seq_view(arr@);
                            lemma_json_seq_view(old_arr);
                            assert(json_seq_view(arr@) =~= json_seq_view(old_arr).push(message_json(message@)));
                        }
                        true
                    },
                    _ => false,
                };
                proof {
                    if is_array {
                        assert(layer@ == LayerView { data: JsonView::Array(lv.data->Array_0.push(message_json(message@))), ..lv });
                    } else {
                        assert(layer@ == lv);
                    }
                }
                self.layers.insert(i, layer);
                proof {
                    assert(self@ =~= with_message(before, message@));
                }
            },
            None => {
                let ghost before = self@;
                let mut arr: Vec<JsonValue> = Vec::new();
                arr.push(encoded);
                proof {
                    lemma_json_seq_view(arr@);
                    assert(json_seq_view(arr@) =~= seq![message_json(message@)]);
                    reveal_strlit("conversation");
                }
                let layer = Layer {
                    name: String::from_str("conversation"),
                    kind: LayerKind::Conversation,
                    data: JsonValue::Array(arr),
                    meta: LayerMeta::new(),
                };
                self.layers.push(layer);
                proof {
                    assert(self@ =~= before.push(layer@));
                }
            },
        }
    }

    /// Empties the first conversation layer.
    pub fn clear_conversation(&mut self)
        ensures
            final(self)@ == match first_conversation(old(self)@) {
                Some(i) => old(self)@.update(i, LayerView { data: JsonView::Array(Seq::empty()), ..old(self)@[i] }),
                None => old(self)@,
            },
    {
        match self.conversation_index() {
            Some(i) => {
                let ghost before = self@;
                let mut layer = self.layers.remove(i);
                layer.data = JsonValue::Array(Vec::new());
                proof {
                    assert(json_seq_view(Seq::<JsonValue>::empty()) =~= Seq::<JsonView>::empty());
                }
                self.layers.insert(i, layer);
                proof {
                    assert(self@ =~= before.update(i as int, LayerView { data: JsonView::Array(Seq::empty()), ..before[i as int] }));
                }
            },
            None => {},
        }
    }
}

/// The messages among `items` that decode.
pub fn decode_messages(items: &Vec<JsonValue>) -> (r: Vec<Message>)
    ensures
        messages_view(r@) == decoded_messages(json_seq_view(items@)),
{
    let ghost sv = json_seq_view(items@);
    proof { lemma_json_seq_view(items@); }
    let mut out: Vec<Message> = Vec::new();
    let mut i: usize = 0;
    while i < items.len()
        invariant
            i <= items.len(),
            sv == json_seq_view(items@),
            sv.len() == items@.len(),
            forall|j: int| 0 <= j < items@.len() ==> #[trigger] sv[j] == json_view(items@[j]),
            messages_view(out@) == decoded_messages(sv.subrange(0, i as int)),
        decreases items.len() - i,
    {
        proof {
            assert(sv.subrange(0, i as int + 1).drop_last() =~= sv.subrange(0, i as int));
            assert(sv.subrange(0, i as int + 1).last() == sv[i as int]);
        }
        match decode_message_value(&items[i]) {
            Some(m) => {
                proof {
                    assert(messages_view(out@.push(m)) =~= messages_view(out@).push(m@));
                }
                out.push(m);
            },
            None => {},
        }
        i = i + 1;
    }
    proof {
        assert(sv.subrange(0, sv.len() as int) =~= sv);
    }
    out
}

// ---------------------------------------------------------------------------
// Laws of the conversation
// ---------------------------------------------------------------------------

proof fn lemma_first_conversation_update(ls: Seq<LayerView>, i: int, l: LayerView)
    requires
        first_conversation(ls) == Some(i),
        is_conversation(l),
    ensures
        first_conversation(ls.update(i, l)) == Some(i),
{
    lemma_first_conversation_is_first(ls);
    let ls2 = ls.update(i, l);
    assert forall|j: int| 0 <= j < i implies !is_conversation(#[trigger] ls2[j]) by {
        assert(ls2[j] == ls[j]);
    }
    lemma_first_conversation(ls2, i);
}

proof fn lemma_first_conversation_is_first(ls: Seq<LayerView>)
    ensures
        match first_conversation(ls) {
            Some(i) => 0 <= i < ls.len() && is_conversation(ls[i])
                && forall|j: int| 0 <= j < i ==> !is_conversation(#[trigger] ls[j]),
            None => forall|j: int| 0 <= j < ls.len() ==> !is_conversation(#[trigger] ls[j]),
        },
    decreases ls.len(),
{
    if ls.len() > 0 {
        lemma_first_conversation_is_first(ls.drop_last());
        assert forall|j: int| 0 <= j < ls.len() - 1 implies #[trigger] ls[j] == ls.drop_last()[j] by {}
    }
}

/// Adding a message to a writable conversation, then reading the conversation,
/// gives the messages read before with the new one last.
pub proof fn law_add_then_read(ls: Seq<LayerView>, m: MessageView)
    requires
        conversation_writable(ls),
        message_round_trips(m),
    ensures
        conversation_of(with_message(ls, m)) == conversation_of(ls).push(m),
{
    lemma_message_round_trip(m);
    match first_conversation(ls) {
        Some(i) => {
            lemma_first_conversation_is_first(ls);
            let items = ls[i].data->Array_0;
            let l2 = LayerView { data: JsonView::Array(items.push(message_json(m))), ..ls[i] };
            lemma_first_conversation_update(ls, i, l2);
            let ls2 = ls.update(i, l2);
            assert(ls2[i] == l2);
            assert(items.push(message_json(m)).drop_last() =~= items);
            assert(decoded_messages(items.push(message_json(m))) == decoded_messages(items).push(m));
            assert(conversation_of(ls2) == decoded_messages(items.push(message_json(m))));
        },
        None => {
            lemma_first_conversation_is_first(ls);
            let l2 = LayerView {
                name: "conversation"@,
                kind: KindView::Conversation,
                data: JsonView::Array(seq![message_json(m)]),
                meta: default_meta(),
            };
            let ls2 = ls.push(l2);
            assert forall|j: int| 0 <= j < ls.len() implies !is_conversation(#[trigger] ls2[j]) by {
                assert(ls2[j] == ls[j]);
            }
            lemma_first_conversation(ls2, ls.len() as int);
            assert(seq![message_json(m)].drop_last() =~= Seq::<JsonView>::empty());
            assert(seq![message_json(m)].last() == message_json(m));
            assert(decoded_messages(Seq::<JsonView>::empty()) == Seq::<MessageView>::empty());
            assert(decoded_messages(seq![message_json(m)]) == Seq::<MessageView>::empty().push(m));
            assert(ls2[ls.len() as int] == l2);
            assert(conversation_of(ls2) == decoded_messages(seq![message_json(m)]));
            assert(conversation_of(ls) =~= Seq::<MessageView>::empty());
        },
    }
}


// ---------------------------------------------------------------------------
// Looking layers up
// ---------------------------------------------------------------------------

/// The position of the first layer named `name`.
pub open spec fn first_named(ls: Seq<LayerView>, name: Seq<char>) -> Option<int>
    decreases ls.len(),
{
    if ls.len() == 0 {
        None
    } else {
        match first_named(ls.drop_last(), name) {
            Some(i) => Some(i),
            None => if ls.last().name == name { Some(ls.len() - 1) } else { None },
        }
    }
}

pub proof fn lemma_first_named(ls: Seq<LayerView>, name: Seq<char>, i: int)
    requires
        0 <= i <= ls.len(),
        forall|j: int| 0 <= j < i ==> (#[trigger] ls[j]).name != name,
        i < ls.len() ==> ls[i].name == name,
    ensures
        first_named(ls, name) == if i < ls.len() { Some(i) } else { None::<int> },
    decreases ls.len(),
{
    if ls.len() > 0 {
        if i < ls.len() - 1 {
            lemma_first_named(ls.drop_last(), name, i);
        } else {
            lemma_first_named(ls.drop_last(), name, ls.len() - 1);
        }
    }
}

impl Context {
    /// The position of the first layer named `name`.
    pub fn position(&self, name: &str) -> (r: Option<usize>)
        ensures
            match r {
                Some(i) => first_named(self@, name@) == Some(i as int) && i < self@.len(),
                None => first_named(self@, name@) is None,
            },
    {
        let key = String::from_str(name);
        let mut i: usize = 0;
        while i < self.layers.len()
            invariant
                i <= self.layers.len(),
                key@ == name@,
                forall|j: int| 0 <= j < i ==> (#[trigger] self@[j]).name != name@,
            decreases self.layers.len() - i,
        {
            if self.layers[i].name == key {
                proof { lemma_first_named(self@, name@, i as int); }
                return Some(i);
            }
            i = i + 1;
        }
        proof { lemma_first_named(self@, name@, self@.len() as int); }
        None
    }

    /// The first layer named `name`.
    pub fn get(&self, name: &str) -> (r: Option<&Layer>)
        ensures
            match first_named(self@, name@) {
                Some(i) => r is Some && r->0@ == self@[i],
                None => r is None,
            },
    {
        match self.position(name) {
            Some(i) => Some(&self.layers[i]),
            None => None,
        }
    }

    /// Replaces the data of the first layer named `name`, if there is one.
    pub fn set_layer_data(&mut self, name: &str, data: JsonValue)
        ensures
            final(self)@ == match first_named(old(self)@, name@) {
                Some(i) => old(self)@.update(i, LayerView { data: data@, ..old(self)@[i] }),
                None => old(self)@,
            },
    {
        match self.position(name) {
            Some(i) => {
                let ghost before = self@;
                let mut layer = self.layers.remove(i);
                layer.data = data;
                self.layers.insert(i, layer);
                proof {
                    assert(self@ =~= before.update(i as int, LayerView { data: data@, ..before[i as int] }));
                }
            },
            None => {},
        }
    }

    /// The layers of kind `kind`, in order.
    pub fn get_by_kind(&self, kind: &LayerKind) -> (r: Vec<&Layer>)
        ensures
            r@.map_values(|l: &Layer| l@) == self@.filter(|l: LayerView| l.kind == kind@),
    {
        let ghost pred = |l: LayerView| l.kind == kind@;
        let mut out: Vec<&Layer> = Vec::new();
        let mut i: usize = 0;
        while i < self.layers.len()
            invariant
                i <= self.layers.len(),
                pred == (|l: LayerView| l.kind == kind@),
                out@.map_values(|l: &Layer| l@) == self@.subrange(0, i as int).filter(pred),
            decreases self.layers.len() - i,
        {
            let ghost before = out@;
            if self.layers[i].kind == *kind {
                out.push(&self.layers[i]);
            }
            proof {
                let sub = self@.subrange(0, i as int + 1);
                assert(sub.drop_last() =~= self@.subrange(0, i as int));
                reveal(Seq::filter);
                assert(sub.last() == self@[i as int]);
                assert(out@.map_values(|l: &Layer| l@) =~= sub.filter(pred));
            }
            i = i + 1;
        }
        proof {
            assert(self@.subrange(0, self@.len() as int) =~= self@);
        }
        out
    }
}

// ---------------------------------------------------------------------------
// Layers as system text
// ---------------------------------------------------------------------------

pub open spec fn str_field(ms: Seq<(Seq<char>, JsonView)>, key: Seq<char>) -> Option<Seq<char>> {
    match obj_get(ms, key) {
        Some(JsonView::Str(s)) => Some(s),
        _ => None,
    }
}

pub open spec fn opt_line(o: Option<Seq<char>>, prefix: Seq<char>, suffix: Seq<char>) -> Seq<Seq<char>> {
    match o {
        Some(s) => seq![prefix + s + suffix],
        None => Seq::empty(),
    }
}

/// One line per string guideline, as "- {guideline}\n".
pub open spec fn guideline_lines(gs: Seq<JsonView>) -> Seq<Seq<char>>
    decreases gs.len(),
{
    if gs.len() == 0 {
        Seq::empty()
    } else {
        match gs.last() {
            JsonView::Str(g) => guideline_lines(gs.drop_last()).push("- "@ + g + "\n"@),
            _ => guideline_lines(gs.drop_last()),
        }
    }
}

pub open spec fn soul_parts(ms: Seq<(Seq<char>, JsonView)>) -> Seq<Seq<char>> {
    opt_line(str_field(ms, "name"@), "# "@, "\n"@) + opt_line(str_field(ms, "role"@), "角色："@, "\n"@)
        + match obj_get(ms, "guidelines"@) {
            Some(JsonView::Array(gs)) => seq!["准则："@] + guideline_lines(gs),
            _ => Seq::empty(),
        }
}

/// One entry per object item with a string "content", as "- {content}".
pub open spec fn memory_entries(items: Seq<JsonView>) -> Seq<Seq<char>>
    decreases items.len(),
{
    if items.len() == 0 {
        Seq::empty()
    } else {
        match items.last() {
            JsonView::Object(ms) => match str_field(ms, "content"@) {
                Some(c) => memory_entries(items.drop_last()).push("- "@ + c),
                None => memory_entries(items.drop_last()),
            },
            _ => memory_entries(items.drop_last()),
        }
    }
}

/// The system text a layer contributes, if any.
pub open spec fn layer_system_text(l: LayerView) -> Option<Seq<char>> {
    match l.kind {
        KindView::System => match l.data {
            JsonView::Str(s) => Some(s),
            _ => Some(json_text(l.data)),
        },
        KindView::Soul => match l.data {
            JsonView::Object(ms) => Some(join(soul_parts(ms), "\n"@)),
            _ => Some(json_text(l.data)),
        },
        KindView::User => Some("# 用户信息\n\n"@ + match l.data {
            JsonView::Object(ms) => join(opt_line(str_field(ms, "name"@), "用户名："@, Seq::empty()), "\n"@),
            _ => json_text(l.data),
        }),
        KindView::Memory => match l.data {
            JsonView::Array(items) => if memory_entries(items).len() == 0 {
                None
            } else {
                Some("# 记忆\n\n"@ + join(memory_entries(items), "\n"@))
            },
            _ => None,
        },
        _ => None,
    }
}

fn read_str_field(ms: &Vec<(String, JsonValue)>, key: &str) -> (r: Option<String>)
    ensures
        opt_str(r) == str_field(members_view(ms@), key@),
{
    match get_field(ms, key) {
        Some(JsonValue::Str(s)) => Some(s.clone()),
        _ => None,
    }
}

fn push_opt_line(parts: &mut Vec<String>, o: Option<String>, prefix: &str, suffix: &str)
    ensures
        strs_view(final(parts)@) == strs_view(old(parts)@) + opt_line(opt_str(o), prefix@, suffix@),
{
    match o {
        Some(s) => {
            let line = concat3(prefix, s.as_str(), suffix);
            parts.push(line);
            proof {
                assert(strs_view(parts@) =~= strs_view(old(parts)@) + opt_line(opt_str(o), prefix@, suffix@));
            }
        },
        None => {
            proof {
                assert(strs_view(parts@) =~= strs_view(old(parts)@) + opt_line(opt_str(o), prefix@, suffix@));
            }
        },
    }
}

fn soul_text(ms: &Vec<(String, JsonValue)>) -> (r: String)
    ensures
        r@ == join(soul_parts(members_view(ms@)), "\n"@),
{
    let ghost mv = members_view(ms@);
    let mut parts: Vec<String> = Vec::new();
    proof { assert(strs_view(parts@) =~= Seq::<Seq<char>>::empty()); }
    push_opt_line(&mut parts, read_str_field(ms, "name"), "# ", "\n");
    push_opt_line(&mut parts, read_str_field(ms, "role"), "角色：", "\n");
    match get_field(ms, "guidelines") {
        Some(JsonValue::Array(gs)) => {
            let ghost base = strs_view(parts@);
            parts.push(String::from_str("准则："));
            proof { assert(strs_view(parts@) =~= base + seq!["准则："@]); }
            let ghost gv = json_seq_view(gs@);
            proof { lemma_json_seq_view(gs@); }
            let mut i: usize = 0;
            while i < gs.len()
                invariant
                    i <= gs.len(),
                    gv == json_seq_view(gs@),
                    gv.len() == gs@.len(),
                    forall|j: int| 0 <= j < gs@.len() ==> #[trigger] gv[j] == json_view(gs@[j]),
                    strs_view(parts@) == base + seq!["准则："@] + guideline_lines(gv.subrange(0, i as int)),
                decreases gs.len() - i,
            {
                let ghost before = strs_view(parts@);
                proof {
                    assert(gv.subrange(0, i as int + 1).drop_last() =~= gv.subrange(0, i as int));
                    assert(gv.subrange(0, i as int + 1).last() == gv[i as int]);
                }
                match &gs[i] {
                    JsonValue::Str(g) => {
                        parts.push(concat3("- ", g.as_str(), "\n"));
                        proof { assert(strs_view(parts@) =~= before.push("- "@ + g@ + "\n"@)); }
                    },
                    _ => {},
                }
                i = i + 1;
            }
            proof { assert(gv.subrange(0, gv.len() as int) =~= gv); }
        },
        _ => {},
    }
    proof {
        assert(strs_view(parts@) =~= soul_parts(mv));
    }
    join_strings(&parts, "\n")
}

fn memory_text(items: &Vec<JsonValue>) -> (r: Option<String>)
    ensures
        opt_str(r) == (if memory_entries(json_seq_view(items@)).len() == 0 {
            None::<Seq<char>>
        } else {
            Some("# 记忆\n\n"@ + join(memory_entries(json_seq_view(items@)), "\n"@))
        }),
{
    let ghost gv = json_seq_view(items@);
    proof { lemma_json_seq_view(items@); }
    let mut entries: Vec<String> = Vec::new();
    proof { assert(strs_view(entries@) =~= Seq::<Seq<char>>::empty()); }
    let mut i: usize = 0;
    while i < items.len()
        invariant
            i <= items.len(),
            gv == json_seq_view(items@),
            gv.len() == items@.len(),
            forall|j: int| 0 <= j < items@.len() ==> #[trigger] gv[j] == json_view(items@[j]),
            strs_view(entries@) == memory_entries(gv.subrange(0, i as int)),
        decreases items.len() - i,
    {
        let ghost before = strs_view(entries@);
        proof {
            assert(gv.subrange(0, i as int + 1).drop_last() =~= gv.subrange(0, i as int));
            assert(gv.subrange(0, i as int + 1).last() == gv[i as int]);
        }
        match &items[i] {
            JsonValue::Object(ms) => match read_str_field(ms, "content") {
                Some(c) => {
                    entries.push(concat2("- ", c.as_str()));
                    proof { assert(strs_view(entries@) =~= before.push("- "@ + c@)); }
                },
                None => {},
            },
            _ => {},
        }
        i = i + 1;
    }
    proof { assert(gv.subrange(0, gv.len() as int) =~= gv); }
    if entries.len() == 0 {
        None
    } else {
        let body = join_strings(&entries, "\n");
        Some(concat2("# 记忆\n\n", body.as_str()))
    }
}

/// The system text that `layer` contributes, if any.
pub fn layer_to_system_content(layer: &Layer) -> (r: Option<String>)
    ensures
        opt_str(r) == layer_system_text(layer@),
{
    match &layer.kind {
        LayerKind::System => match &layer.data {
            JsonValue::Str(s) => Some(s.clone()),
            _ => Some(json_to_text(&layer.data)),
        },
        LayerKind::Soul => match &layer.data {
            JsonValue::Object(ms) => Some(soul_text(ms)),
            _ => Some(json_to_text(&layer.data)),
        },
        LayerKind::User => {
            let content = match &layer.data {
                JsonValue::Object(ms) => {
                    let mut parts: Vec<String> = Vec::new();
                    proof { assert(strs_view(parts@) =~= Seq::<Seq<char>>::empty()); }
                    push_opt_line(&mut parts, read_str_field(ms, "name"), "用户名：", "");
                    proof {
                        assert(strs_view(parts@) =~= opt_line(str_field(members_view(ms@), "name"@), "用户名："@, ""@));
                        reveal_strlit("");
                        assert(""@ =~= Seq::<char>::empty());
                    }
                    join_strings(&parts, "\n")
                },
                _ => json_to_text(&layer.data),
            };
            Some(concat2("# 用户信息\n\n", content.as_str()))
        },
        LayerKind::Memory => match &layer.data {
            JsonValue::Array(items) => memory_text(items),
            _ => None,
        },
        _ => None,
    }
}


// ---------------------------------------------------------------------------
// Layers as messages
// ---------------------------------------------------------------------------

/// The position at which `x` goes into `sorted`: before the first layer of
/// lower priority.
pub open spec fn insert_position(sorted: Seq<LayerView>, p: i32) -> int
    decreases sorted.len(),
{
    if sorted.len() == 0 {
        0
    } else if sorted[0].meta.priority < p {
        0
    } else {
        1 + insert_position(sorted.drop_first(), p)
    }
}

/// The layers ordered by priority, highest first, layers of equal priority
/// keeping their order (a stable sort).
pub open spec fn by_priority(ls: Seq<LayerView>) -> Seq<LayerView>
    decreases ls.len(),
{
    if ls.len() == 0 {
        Seq::empty()
    } else {
        let sorted = by_priority(ls.drop_last());
        sorted.insert(insert_position(sorted, ls.last().meta.priority), ls.last())
    }
}

pub open spec fn is_system_kind(k: KindView) -> bool {
    k == KindView::System || k == KindView::Soul || k == KindView::User || k == KindView::Memory
}

/// The system texts of the layers, in order.
pub open spec fn system_parts(ls: Seq<LayerView>) -> Seq<Seq<char>>
    decreases ls.len(),
{
    if ls.len() == 0 {
        Seq::empty()
    } else if is_system_kind(ls.last().kind) && layer_system_text(ls.last()) is Some {
        system_parts(ls.drop_last()).push(layer_system_text(ls.last())->0)
    } else {
        system_parts(ls.drop_last())
    }
}

/// The messages of all conversation layers that hold arrays, in order.
pub open spec fn conversation_messages(ls: Seq<LayerView>) -> Seq<MessageView>
    decreases ls.len(),
{
    if ls.len() == 0 {
        Seq::empty()
    } else {
        conversation_messages(ls.drop_last()) + match (ls.last().kind, ls.last().data) {
            (KindView::Conversation, JsonView::Array(items)) => decoded_messages(items),
            _ => Seq::empty(),
        }
    }
}

/// The messages a context gives a model: one system message joining the
/// system texts (when there are any), then the conversation messages; both
/// in priority order.
pub open spec fn context_messages(ls: Seq<LayerView>) -> Seq<MessageView> {
    let sorted = by_priority(ls);
    let parts = system_parts(sorted);
    (if parts.len() == 0 {
        Seq::empty()
    } else {
        seq![MessageView::System { content: join(parts, "\n\n---\n\n"@) }]
    }) + conversation_messages(sorted)
}

pub open spec fn refs_view(s: Seq<&Layer>) -> Seq<LayerView> {
    s.map_values(|l: &Layer| l@)
}

proof fn lemma_insert_position_bound(sorted: Seq<LayerView>, p: i32)
    ensures
        0 <= insert_position(sorted, p) <= sorted.len(),
    decreases sorted.len(),
{
    if sorted.len() > 0 {
        lemma_insert_position_bound(sorted.drop_first(), p);
    }
}

proof fn lemma_insert_position(sorted: Seq<LayerView>, p: i32, k: int)
    requires
        0 <= k <= sorted.len(),
        forall|j: int| 0 <= j < k ==> (#[trigger] sorted[j]).meta.priority >= p,
        k < sorted.len() ==> sorted[k].meta.priority < p,
    ensures
        insert_position(sorted, p) == k,
    decreases sorted.len(),
{
    if sorted.len() > 0 && k > 0 {
        assert forall|j: int| 0 <= j < k - 1 implies (#[trigger] sorted.drop_first()[j]).meta.priority >= p by {
            assert(sorted.drop_first()[j] == sorted[j + 1]);
        }
        lemma_insert_position(sorted.drop_first(), p, k - 1);
    }
}

fn sort_by_priority(layers: &Vec<Layer>) -> (r: Vec<&Layer>)
    ensures
        refs_view(r@) == by_priority(layers_view(layers@)),
{
    let ghost lv = layers_view(layers@);
    let mut sorted: Vec<&Layer> = Vec::new();
    let mut i: usize = 0;
    while i < layers.len()
        invariant
            i <= layers.len(),
            lv == layers_view(layers@),
            refs_view(sorted@) == by_priority(lv.subrange(0, i as int)),
        decreases layers.len() - i,
    {
        let p = layers[i].meta.priority;
        let mut k: usize = 0;
        while k < sorted.len()
            invariant_except_break
                k <= sorted.len(),
                forall|j: int| 0 <= j < k ==> (#[trigger] refs_view(sorted@)[j]).meta.priority >= p,
            ensures
                k <= sorted.len(),
                forall|j: int| 0 <= j < k ==> (#[trigger] refs_view(sorted@)[j]).meta.priority >= p,
                k < sorted.len() ==> refs_view(sorted@)[k as int].meta.priority < p,
            decreases sorted.len() - k,
        {
            if sorted[k].meta.priority < p {
                break;
            }
            k = k + 1;
        }
        let ghost before = refs_view(sorted@);
        proof {
            lemma_insert_position(before, p, k as int);
            assert(lv.subrange(0, i as int + 1).drop_last() =~= lv.subrange(0, i as int));
            assert(lv.subrange(0, i as int + 1).last() == layers@[i as int]@);
        }
        sorted.insert(k, &layers[i]);
        proof {
            assert(refs_view(sorted@) =~= before.insert(k as int, layers@[i as int]@));
        }
        i = i + 1;
    }
    proof {
        assert(lv.subrange(0, lv.len() as int) =~= lv);
    }
    sorted
}

impl Context {
    /// The messages this context gives a model; see `context_messages`.
    pub fn to_messages(&self) -> (r: Vec<Message>)
        ensures
            messages_view(r@) == context_messages(self@),
    {
        let sorted = sort_by_priority(&self.layers);
        let ghost sv = refs_view(sorted@);
        let mut parts: Vec<String> = Vec::new();
        let mut i: usize = 0;
        while i < sorted.len()
            invariant
                i <= sorted.len(),
                sv == refs_view(sorted@),
                strs_view(parts@) == system_parts(sv.subrange(0, i as int)),
            decreases sorted.len() - i,
        {
            let ghost before = strs_view(parts@);
            proof {
                assert(sv.subrange(0, i as int + 1).drop_last() =~= sv.subrange(0, i as int));
                assert(sv.subrange(0, i as int + 1).last() == sv[i as int]);
            }
            let k = &sorted[i].kind;
            let sys = match k {
                LayerKind::System | LayerKind::Soul | LayerKind::User | LayerKind::Memory => true,
                _ => false,
            };
            if sys {
                match layer_to_system_content(sorted[i]) {
                    Some(t) => {
                        parts.push(t);
                        proof { assert(strs_view(parts@) =~= before.push(layer_system_text(sv[i as int])->0)); }
                    },
                    None => {},
                }
            }
            i = i + 1;
        }
        proof { assert(sv.subrange(0, sv.len() as int) =~= sv); }
        let mut messages: Vec<Message> = Vec::new();
        if parts.len() > 0 {
            let joined = join_strings(&parts, "\n\n---\n\n");
            messages.push(Message::System { content: joined });
        }
        let ghost head = messages_view(messages@);
        proof {
            if parts.len() > 0 {
                assert(head =~= seq![MessageView::System { content: join(system_parts(sv), "\n\n---\n\n"@) }]);
            } else {
                assert(head =~= Seq::<MessageView>::empty());
            }
        }
        let mut i: usize = 0;
        while i < sorted.len()
            invariant
                i <= sorted.len(),
                sv == refs_view(sorted@),
                messages_view(messages@) == head + conversation_messages(sv.subrange(0, i as int)),
            decreases sorted.len() - i,
        {
            proof {
                assert(sv.subrange(0, i as int + 1).drop_last() =~= sv.subrange(0, i as int));
                assert(sv.subrange(0, i as int + 1).last() == sv[i as int]);
            }
            let ghost before = messages_view(messages@);
            let is_conv = match &sorted[i].kind {
                LayerKind::Conversation => true,
                _ => false,
            };
            if is_conv {
                match &sorted[i].data {
                    JsonValue::Array(items) => {
                        let decoded = decode_messages(items);
                        let mut d = decoded;
                        let ghost dv = messages_view(d@);
                        messages.append(&mut d);
                        proof {
                            assert(messages_view(messages@) =~= before + dv);
                        }
                    },
                    _ => {
                        proof { assert(before + Seq::<MessageView>::empty() =~= before); }
                    },
                }
            } else {
                proof { assert(before + Seq::<MessageView>::empty() =~= before); }
            }
            proof {
                assert(messages_view(messages@) =~= head + conversation_messages(sv.subrange(0, i as int + 1)));
            }
            i = i + 1;
        }
        proof { assert(sv.subrange(0, sv.len() as int) =~= sv); }
        messages
    }
}


// ---------------------------------------------------------------------------
// Merging contexts
// ---------------------------------------------------------------------------

/// `ls` with `l` merged in: into the first layer of the same name (object
/// data merged member by member, other data replaced), else appended.
pub open spec fn merge_layer(ls: Seq<LayerView>, l: LayerView) -> Seq<LayerView> {
    match first_named(ls, l.name) {
        Some(i) => match (ls[i].data, l.data) {
            (JsonView::Object(a), JsonView::Object(b)) => ls.update(
                i,
                LayerView { data: JsonView::Object(obj_insert_all(a, b)), ..ls[i] },
            ),
            _ => ls.update(i, LayerView { data: l.data, ..ls[i] }),
        },
        None => ls.push(l),
    }
}

/// Every layer of `others` merged into `ls`, in order.
pub open spec fn merge_layers(ls: Seq<LayerView>, others: Seq<LayerView>) -> Seq<LayerView>
    decreases others.len(),
{
    if others.len() == 0 {
        ls
    } else {
        merge_layer(merge_layers(ls, others.drop_last()), others.last())
    }
}

pub(crate) fn merge_objects(a: &mut Vec<(String, JsonValue)>, b: &Vec<(String, JsonValue)>)
    ensures
        members_view(final(a)@) == obj_insert_all(members_view(old(a)@), members_view(b@)),
{
    let ghost a0 = members_view(a@);
    let ghost bv = members_view(b@);
    proof { lemma_members_view(b@); }
    let mut i: usize = 0;
    while i < b.len()
        invariant
            i <= b.len(),
            a0 == members_view(old(a)@),
            bv == members_view(b@),
            bv.len() == b@.len(),
            forall|j: int| 0 <= j < b@.len() ==> #[trigger] bv[j] == (b@[j].0@, json_view(b@[j].1)),
            members_view(a@) == obj_insert_all(a0, bv.subrange(0, i as int)),
        decreases b.len() - i,
    {
        proof {
            assert(bv.subrange(0, i as int + 1).drop_last() =~= bv.subrange(0, i as int));
            assert(bv.subrange(0, i as int + 1).last() == bv[i as int]);
        }
        object_insert(a, b[i].0.clone(), b[i].1.clone());
        i = i + 1;
    }
    proof { assert(bv.subrange(0, bv.len() as int) =~= bv); }
}

impl Context {
    /// Merges one layer into this context; see `merge_layer`.
    pub fn merge_layer(&mut self, layer: Layer)
        ensures
            final(self)@ == merge_layer(old(self)@, layer@),
    {
        match self.position(layer.name.as_str()) {
            Some(i) => {
                let ghost before = self@;
                let mut existing = self.layers.remove(i);
                let ghost ev = existing@;
                let both_objects = match (&existing.data, &layer.data) {
                    (JsonValue::Object(_), JsonValue::Object(_)) => true,
                    _ => false,
                };
                if both_objects {
                    match (&mut existing.data, &layer.data) {
                        (JsonValue::Object(a), JsonValue::Object(b)) => {
                            merge_objects(a, b);
                        },
                        _ => {},
                    }
                } else {
                    existing.data = layer.data;
                }
                self.layers.insert(i, existing);
                proof {
                    assert(self@ =~= merge_layer(before, layer@));
                }
            },
            None => {
                let ghost before = self@;
                self.layers.push(layer);
                proof {
                    assert(self@ =~= before.push(layer@));
                }
            },
        }
    }

    /// Merges every layer of `other` into this context, in order.
    pub fn merge(&mut self, other: Context)
        ensures
            final(self)@ == merge_layers(old(self)@, other@),
    {
        let ghost ov = other@;
        let mut i: usize = 0;
        while i < other.layers.len()
            invariant
                i <= other.layers.len(),
                ov == other@,
                self@ == merge_layers(old(self)@, ov.subrange(0, i as int)),
            decreases other.layers.len() - i,
        {
            proof {
                assert(ov.subrange(0, i as int + 1).drop_last() =~= ov.subrange(0, i as int));
                assert(ov.subrange(0, i as int + 1).last() == ov[i as int]);
            }
            self.merge_layer(other.layers[i].clone());
            i = i + 1;
        }
        proof { assert(ov.subrange(0, ov.len() as int) =~= ov); }
    }
}

proof fn lemma_contains_trans(a: Seq<char>, b: Seq<char>, c: Seq<char>)
    requires
        contains_text(a, b),
        contains_text(b, c),
    ensures
        contains_text(a, c),
{
    let i = choose|i: int| 0 <= i && i + b.len() <= a.len() && #[trigger] a.subrange(i, i + b.len()) == b;
    let i2 = choose|i2: int| 0 <= i2 && i2 + c.len() <= b.len() && #[trigger] b.subrange(i2, i2 + c.len()) == c;
    assert(a.subrange(i + i2, i + i2 + c.len()) =~= b.subrange(i2, i2 + c.len()));
}

proof fn lemma_memory_entry_listed(items: Seq<JsonView>, k: int, ms: Seq<(Seq<char>, JsonView)>, c: Seq<char>)
    requires
        0 <= k < items.len(),
        items[k] == JsonView::Object(ms),
        str_field(ms, "content"@) == Some(c),
    ensures
        memory_entries(items).contains("- "@ + c),
    decreases items.len(),
{
    let d = items.drop_last();
    if k == items.len() - 1 {
        assert(memory_entries(items) == memory_entries(d).push("- "@ + c));
        assert(memory_entries(items)[memory_entries(d).len() as int] == "- "@ + c);
    } else {
        assert(d[k] == items[k]);
        lemma_memory_entry_listed(d, k, ms, c);
        let w = choose|w: int| 0 <= w < memory_entries(d).len() && memory_entries(d)[w] == "- "@ + c;
        match items.last() {
            JsonView::Object(ms2) => match str_field(ms2, "content"@) {
                Some(c2) => {
                    assert(memory_entries(items) == memory_entries(d).push("- "@ + c2));
                    assert(memory_entries(items)[w] == "- "@ + c);
                },
                None => {},
            },
            _ => {},
        }
    }
}

/// A memory layer holding an entry with text `c` contributes system text
/// under the memory heading, and that text holds the entry as a bullet.
pub proof fn law_memory_layer_lists_entries(l: LayerView, k: int, ms: Seq<(Seq<char>, JsonView)>, c: Seq<char>)
    requires
        l.kind == KindView::Memory,
        l.data is Array,
        0 <= k < l.data->Array_0.len(),
        l.data->Array_0[k] == JsonView::Object(ms),
        str_field(ms, "content"@) == Some(c),
    ensures
        layer_system_text(l) is Some,
        layer_system_text(l)->0.take(("# 记忆\n\n"@).len() as int) == "# 记忆\n\n"@,
        contains_text(layer_system_text(l)->0, "- "@ + c),
{
    let items = l.data->Array_0;
    lemma_memory_entry_listed(items, k, ms, c);
    let es = memory_entries(items);
    let w = choose|w: int| 0 <= w < es.len() && es[w] == "- "@ + c;
    let head = "# 记忆\n\n"@;
    assert(layer_system_text(l) == Some(head + join(es, "\n"@)));
    assert((head + join(es, "\n"@)).take(head.len() as int) =~= head);
    lemma_join_contains(es, "\n"@, w);
    lemma_contains_concat(head, join(es, "\n"@), "- "@ + c);
}

proof fn lemma_by_priority_keeps(ls: Seq<LayerView>, j: int)
    requires
        0 <= j < ls.len(),
    ensures
        by_priority(ls).contains(ls[j]),
    decreases ls.len(),
{
    let d = ls.drop_last();
    let sorted = by_priority(d);
    let pos = insert_position(sorted, ls.last().meta.priority);
    lemma_insert_position_bound(sorted, ls.last().meta.priority);
    let out = sorted.insert(pos, ls.last());
    assert(by_priority(ls) == out);
    if j == ls.len() - 1 {
        assert(out[pos] == ls[j]);
    } else {
        lemma_by_priority_keeps(d, j);
        assert(d[j] == ls[j]);
        let w = choose|w: int| 0 <= w < sorted.len() && sorted[w] == ls[j];
        if w < pos {
            assert(out[w] == ls[j]);
        } else {
            assert(out[w + 1] == ls[j]);
        }
    }
}

proof fn lemma_system_parts_keep(ls: Seq<LayerView>, l: LayerView)
    requires
        ls.contains(l),
        is_system_kind(l.kind),
        layer_system_text(l) is Some,
    ensures
        system_parts(ls).contains(layer_system_text(l)->0),
    decreases ls.len(),
{
    let d = ls.drop_last();
    let t = layer_system_text(l)->0;
    if ls.last() == l {
        assert(system_parts(ls) == system_parts(d).push(t));
        assert(system_parts(ls)[system_parts(d).len() as int] == t);
    } else {
        let w = choose|w: int| 0 <= w < ls.len() && ls[w] == l;
        assert(w < ls.len() - 1);
        assert(d[w] == l);
        lemma_system_parts_keep(d, l);
        let v = choose|v: int| 0 <= v < system_parts(d).len() && system_parts(d)[v] == t;
        if is_system_kind(ls.last().kind) && layer_system_text(ls.last()) is Some {
            assert(system_parts(ls)[v] == t);
        }
    }
}

/// Memories reach the model: when any layer of a context is a memory layer
/// holding an entry with text `c`, the messages the context gives a model
/// start with a system message whose text holds that entry as a bullet.
pub proof fn law_memories_reach_the_model(ls: Seq<LayerView>, j: int, k: int, ms: Seq<(Seq<char>, JsonView)>, c: Seq<char>)
    requires
        0 <= j < ls.len(),
        ls[j].kind == KindView::Memory,
        ls[j].data is Array,
        0 <= k < ls[j].data->Array_0.len(),
        ls[j].data->Array_0[k] == JsonView::Object(ms),
        str_field(ms, "content"@) == Some(c),
    ensures
        context_messages(ls).len() > 0,
        context_messages(ls)[0] is System,
        contains_text(context_messages(ls)[0]->System_content, "- "@ + c),
{
    let l = ls[j];
    law_memory_layer_lists_entries(l, k, ms, c);
    let t = layer_system_text(l)->0;
    lemma_by_priority_keeps(ls, j);
    let sorted = by_priority(ls);
    lemma_system_parts_keep(sorted, l);
    let parts = system_parts(sorted);
    let v = choose|v: int| 0 <= v < parts.len() && parts[v] == t;
    lemma_join_contains(parts, "\n\n---\n\n"@, v);
    lemma_contains_trans(join(parts, "\n\n---\n\n"@), t, "- "@ + c);
    let sys = seq![MessageView::System { content: join(parts, "\n\n---\n\n"@) }];
    assert(context_messages(ls) == sys + conversation_messages(sorted));
    assert(context_messages(ls)[0] == sys[0]);
}

} // verus!
