use vstd::prelude::*;

use crate::codec::push_member;
use crate::json::{members_view, JsonValue, JsonView};
use crate::message::{messages_view, opt_calls, opt_str, Message, MessageRole, MessageView, ToolCall, ToolDef, ToolDefView, Usage};
use crate::providers::{opt_defs, Request, RequestView};
use crate::text::concat2;

verus! {

/// Why a chat with a model failed.
#[derive(Debug)]
pub enum ChatError {
    Provider(String),
    NoResponse,
    StreamError(String),
    ModelNotFound(String),
}

pub open spec fn chat_error_text(e: ChatError) -> Seq<char> {
    match e {
        ChatError::Provider(m) => "Provider error: "@ + m@,
        ChatError::NoResponse => "No response from model"@,
        ChatError::StreamError(m) => "Stream error: "@ + m@,
        ChatError::ModelNotFound(m) => "Model not found: "@ + m@,
    }
}

impl ChatError {
    /// The text of this error, as its `Display` writes it.
    pub fn to_text(&self) -> (r: String)
        ensures
            r@ == chat_error_text(*self),
    {
        match self {
            ChatError::Provider(m) => concat2("Provider error: ", m.as_str()),
            ChatError::NoResponse => String::from_str("No response from model"),
            ChatError::StreamError(m) => concat2("Stream error: ", m.as_str()),
            ChatError::ModelNotFound(m) => concat2("Model not found: ", m.as_str()),
        }
    }
}

/// A piece of a streamed chat answer.
#[derive(Debug)]
pub struct ChatChunk {
    pub content: String,
    pub reasoning_content: String,
    pub is_finished: bool,
    pub finish_reason: Option<String>,
    pub tool_calls: Option<Vec<ToolCall>>,
    pub usage: Option<Usage>,
}

/// The images a model made.
#[derive(Debug)]
pub struct GenImgResponse {
    pub image_urls: Vec<String>,
}

/// The keys of a registry, in the order they were added.
pub open spec fn registry_keys<P>(entries: Seq<(String, P)>) -> Seq<Seq<char>> {
    entries.map_values(|e: (String, P)| e.0@)
}

/// The provider first registered under `name`.
pub open spec fn registry_lookup<P>(entries: Seq<(String, P)>, name: Seq<char>) -> Option<P>
    decreases entries.len(),
{
    if entries.len() == 0 {
        None
    } else {
        match registry_lookup(entries.drop_last(), name) {
            Some(p) => Some(p),
            None => if entries.last().0@ == name { Some(entries.last().1) } else { None },
        }
    }
}

/// The lookup finds the first entry of that name, and nothing when there is
/// none.
proof fn lemma_lookup_first<P>(entries: Seq<(String, P)>, name: Seq<char>, i: int)
    requires
        0 <= i <= entries.len(),
        forall|j: int| 0 <= j < i ==> (#[trigger] entries[j]).0@ != name,
        i < entries.len() ==> entries[i].0@ == name,
    ensures
        registry_lookup(entries, name) == if i < entries.len() { Some(entries[i].1) } else { None::<P> },
    decreases entries.len(),
{
    if entries.len() > 0 {
        if i < entries.len() - 1 {
            lemma_lookup_first(entries.drop_last(), name, i);
        } else {
            lemma_lookup_first(entries.drop_last(), name, entries.len() - 1);
        }
    }
}

/// Appending an entry changes the lookup of its name only, and only when the
/// name was not there yet.
proof fn lemma_lookup_push<P>(entries: Seq<(String, P)>, k: String, p: P, name: Seq<char>)
    ensures
        registry_lookup(entries.push((k, p)), name) == match registry_lookup(entries, name) {
            Some(q) => Some(q),
            None => if k@ == name { Some(p) } else { None },
        },
{
    assert(entries.push((k, p)).drop_last() =~= entries);
}

/// A name has a provider exactly when it is one of the keys.
proof fn lemma_lookup_keys<P>(entries: Seq<(String, P)>, name: Seq<char>)
    ensures
        registry_lookup(entries, name) is Some <==> registry_keys(entries).contains(name),
    decreases entries.len(),
{
    if entries.len() > 0 {
        lemma_lookup_keys(entries.drop_last(), name);
        let ks = registry_keys(entries);
        assert(registry_keys(entries.drop_last()) =~= ks.drop_last());
        if ks.contains(name) {
            let w = choose|w: int| 0 <= w < ks.len() && ks[w] == name;
            if w < ks.len() - 1 {
                assert(ks.drop_last()[w] == name);
            }
        }
        if ks.drop_last().contains(name) {
            let w = choose|w: int| 0 <= w < ks.drop_last().len() && ks.drop_last()[w] == name;
            assert(ks[w] == name);
        }
        if entries.last().0@ == name {
            assert(ks[ks.len() - 1] == name);
        }
    }
}

/// Whether no key occurs twice.
pub open spec fn distinct_keys(ks: Seq<Seq<char>>) -> bool {
    forall|i: int, j: int| #![trigger ks[i], ks[j]] 0 <= i < j < ks.len() ==> ks[i] != ks[j]
}

proof fn lemma_distinct_push(ks: Seq<Seq<char>>, n: Seq<char>)
    requires
        distinct_keys(ks),
        !ks.contains(n),
    ensures
        distinct_keys(ks.push(n)),
{
    let ks2 = ks.push(n);
    assert forall|i: int, j: int| 0 <= i < j < ks2.len() implies ks2[i] != ks2[j] by {
        assert(ks2[i] == ks[i]);
        if j < ks.len() {
            assert(ks2[j] == ks[j]);
        } else {
            assert(ks2[j] == n);
        }
    }
}

fn find_model<P>(entries: &Vec<(String, P)>, name: &str) -> (r: Option<usize>)
    ensures
        match r {
            Some(i) => i < entries@.len() && entries@[i as int].0@ == name@ && registry_keys(entries@).contains(name@)
                && registry_lookup(entries@, name@) == Some(entries@[i as int].1),
            None => !registry_keys(entries@).contains(name@) && registry_lookup(entries@, name@) is None,
        },
{
    let key = String::from_str(name);
    let mut i: usize = 0;
    while i < entries.len()
        invariant
            i <= entries.len(),
            key@ == name@,
            forall|j: int| 0 <= j < i ==> (#[trigger] entries@[j]).0@ != name@,
        decreases entries.len() - i,
    {
        if entries[i].0 == key {
            proof {
                assert(registry_keys(entries@)[i as int] == name@);
                lemma_lookup_first(entries@, name@, i as int);
            }
            return Some(i);
        }
        i = i + 1;
    }
    proof {
        if registry_keys(entries@).contains(name@) {
            let k = choose|k: int| 0 <= k < registry_keys(entries@).len() && registry_keys(entries@)[k] == name@;
            assert(entries@[k].0@ == name@);
        }
        lemma_lookup_first(entries@, name@, entries@.len() as int);
    }
    None
}

/// Adds `name` with `provider` unless the name is there already.
fn add_entry<P>(entries: &mut Vec<(String, P)>, name: &str, provider: P)
    ensures
        registry_keys(old(entries)@).contains(name@) ==> final(entries)@ == old(entries)@,
        !registry_keys(old(entries)@).contains(name@) ==> final(entries)@.len() == old(entries)@.len() + 1
            && final(entries)@.take(old(entries)@.len() as int) == old(entries)@
            && final(entries)@.last().0@ == name@ && final(entries)@.last().1 == provider,
        forall|n: Seq<char>| #[trigger] registry_lookup(final(entries)@, n) == if n == name@ && !registry_keys(old(entries)@).contains(name@) {
            Some(provider)
        } else {
            registry_lookup(old(entries)@, n)
        },
{
    match find_model(entries, name) {
        Some(_) => {},
        None => {
            let ghost before = entries@;
            let key = String::from_str(name);
            let ghost kk = key;
            entries.push((key, provider));
            proof {
                assert(entries@.take(before.len() as int) =~= before);
                assert forall|n: Seq<char>| #[trigger] registry_lookup(entries@, n) == if n == name@ {
                    Some(provider)
                } else {
                    registry_lookup(before, n)
                } by {
                    lemma_lookup_push(before, kk, provider, n);
                    lemma_lookup_keys(before, n);
                }
            }
        },
    }
}

/// A chat model: providers by model name, the active model and request options.
pub struct ChatModel<P> {
    model_providers: Vec<(String, P)>,
    active_model: Option<String>,
    output_json: bool,
    reasoning_effort: Option<String>,
    thinking_enabled: Option<bool>,
}

impl<P> ChatModel<P> {
    /// No model name has two providers.
    #[verifier::type_invariant]
    spec fn names_distinct(&self) -> bool {
        distinct_keys(registry_keys(self.model_providers@))
    }
}

impl<P> ChatModel<P> {
    pub closed spec fn keys(&self) -> Seq<Seq<char>> {
        registry_keys(self.model_providers@)
    }

    /// The provider registered under `name`.
    pub closed spec fn provider_spec(&self, name: Seq<char>) -> Option<P> {
        registry_lookup(self.model_providers@, name)
    }

    pub closed spec fn active_spec(&self) -> Option<Seq<char>> {
        opt_str(self.active_model)
    }

    pub closed spec fn output_json_spec(&self) -> bool {
        self.output_json
    }

    pub closed spec fn reasoning_effort_spec(&self) -> Option<Seq<char>> {
        opt_str(self.reasoning_effort)
    }

    pub closed spec fn thinking_spec(&self) -> Option<bool> {
        self.thinking_enabled
    }

    pub closed spec fn wf(&self) -> bool {
        distinct_keys(self.keys())
    }

    pub fn new() -> (r: ChatModel<P>)
        ensures
            r.wf(),
            r.keys().len() == 0,
            r.active_spec() is None,
            !r.output_json_spec(),
            r.reasoning_effort_spec() is None,
            r.thinking_spec() is None,
            forall|n: Seq<char>| #[trigger] r.provider_spec(n) is None,
    {
        let r = ChatModel {
            model_providers: Vec::new(),
            active_model: None,
            output_json: false,
            reasoning_effort: None,
            thinking_enabled: None,
        };
        proof { assert(registry_keys(r.model_providers@) =~= Seq::<Seq<char>>::empty()); }
        r
    }

    /// Maps `model_name` to `provider`, unless the name is mapped already.
    pub fn add_model_provider(&mut self, model_name: &str, provider: P)
        ensures
            final(self).wf(),
            old(self).keys().contains(model_name@) ==> final(self).keys() == old(self).keys(),
            !old(self).keys().contains(model_name@) ==> final(self).keys() == old(self).keys().push(model_name@),
            forall|n: Seq<char>| #[trigger] final(self).provider_spec(n) == if n == model_name@ && !old(self).keys().contains(model_name@) {
                Some(provider)
            } else {
                old(self).provider_spec(n)
            },
            final(self).active_spec() == old(self).active_spec(),
            final(self).output_json_spec() == old(self).output_json_spec(),
            final(self).reasoning_effort_spec() == old(self).reasoning_effort_spec(),
            final(self).thinking_spec() == old(self).thinking_spec(),
    {
        proof { use_type_invariant(&*self); }
        let mut entries: Vec<(String, P)> = Vec::new();
        std::mem::swap(&mut entries, &mut self.model_providers);
        let ghost before = entries@;
        add_entry(&mut entries, model_name, provider);
        proof {
            if !registry_keys(before).contains(model_name@) {
                assert(registry_keys(entries@) =~= registry_keys(before).push(model_name@)) by {
                    assert forall|k: int| 0 <= k < before.len() implies #[trigger] entries@[k] == before[k] by {
                        assert(entries@.take(before.len() as int)[k] == entries@[k]);
                    }
                }
                lemma_distinct_push(registry_keys(before), model_name@);
            }
        }
        self.model_providers = entries;
    }

    /// Maps each of `model_names` to a copy of `provider`, as
    /// `add_model_provider` does.
    pub fn add_models_for_provider(&mut self, model_names: &[&str], provider: P)
        where P: Clone,
        ensures
            final(self).wf(),
            forall|k: int| 0 <= k < model_names@.len() ==> final(self).keys().contains(#[trigger] model_names@[k]@),
            forall|k: int| 0 <= k < old(self).keys().len() ==> #[trigger] final(self).keys()[k] == old(self).keys()[k],
            forall|n: Seq<char>| #[trigger] final(self).keys().contains(n) ==> old(self).keys().contains(n)
                || exists|k: int| 0 <= k < model_names@.len() && model_names@[k]@ == n,
            forall|n: Seq<char>| old(self).keys().contains(n) ==> #[trigger] final(self).provider_spec(n) == old(self).provider_spec(n),
            forall|n: Seq<char>| final(self).keys().contains(n) && !old(self).keys().contains(n)
                ==> (#[trigger] final(self).provider_spec(n)) is Some && cloned(provider, final(self).provider_spec(n)->0),
            final(self).active_spec() == old(self).active_spec(),
            final(self).reasoning_effort_spec() == old(self).reasoning_effort_spec(),
            final(self).thinking_spec() == old(self).thinking_spec(),
            final(self).output_json_spec() == old(self).output_json_spec(),
    {
        proof { use_type_invariant(&*self); }
        let mut i: usize = 0;
        while i < model_names.len()
            invariant
                i <= model_names@.len(),
                self.wf(),
                self.keys() == keys_after(old(self).keys(), model_names@.map_values(|n: &str| n@).take(i as int)),
                forall|k: int| 0 <= k < i ==> self.keys().contains(#[trigger] model_names@[k]@),
                old(self).keys().len() <= self.keys().len(),
                forall|k: int| 0 <= k < old(self).keys().len() ==> #[trigger] self.keys()[k] == old(self).keys()[k],
                forall|n: Seq<char>| #[trigger] self.keys().contains(n) ==> old(self).keys().contains(n)
                    || exists|k: int| 0 <= k < model_names@.len() && model_names@[k]@ == n,
                forall|n: Seq<char>| old(self).keys().contains(n) ==> #[trigger] self.provider_spec(n) == old(self).provider_spec(n),
                forall|n: Seq<char>| self.keys().contains(n) && !old(self).keys().contains(n)
                    ==> (#[trigger] self.provider_spec(n)) is Some && cloned(provider, self.provider_spec(n)->0),
                self.active_spec() == old(self).active_spec(),
                self.reasoning_effort_spec() == old(self).reasoning_effort_spec(),
                self.thinking_spec() == old(self).thinking_spec(),
                self.output_json_spec() == old(self).output_json_spec(),
            decreases model_names@.len() - i,
        {
            let ghost before = self.keys();
            let ghost prev = *self;
            let copy = provider.clone();
            let ghost made = copy;
            self.add_model_provider(model_names[i], copy);
            proof {
                assert forall|n: Seq<char>| self.keys().contains(n) && !old(self).keys().contains(n)
                    implies (#[trigger] self.provider_spec(n)) is Some && cloned(provider, self.provider_spec(n)->0) by {
                    if n == model_names@[i as int]@ && !before.contains(n) {
                        assert(self.provider_spec(n) == Some(made));
                    } else {
                        assert(self.provider_spec(n) == prev.provider_spec(n));
                        if !before.contains(n) {
                            let w = choose|w: int| 0 <= w < self.keys().len() && self.keys()[w] == n;
                            if w < before.len() {
                                assert(before[w] == n);
                            }
                        }
                    }
                }
                assert forall|n: Seq<char>| old(self).keys().contains(n) implies #[trigger] self.provider_spec(n) == old(self).provider_spec(n) by {
                    let w = choose|w: int| 0 <= w < old(self).keys().len() && old(self).keys()[w] == n;
                    assert(before[w] == n);
                }
                assert(self.keys().contains(model_names@[i as int]@)) by {
                    if before.contains(model_names@[i as int]@) {
                    } else {
                        assert(self.keys()[self.keys().len() - 1] == model_names@[i as int]@);
                    }
                }
                assert forall|n: Seq<char>| #[trigger] self.keys().contains(n) implies old(self).keys().contains(n)
                    || exists|k: int| 0 <= k < model_names@.len() && model_names@[k]@ == n by {
                    if !before.contains(n) {
                        let w = choose|w: int| 0 <= w < self.keys().len() && self.keys()[w] == n;
                        if w < before.len() {
                            assert(before[w] == n);
                        } else {
                            assert(model_names@[i as int]@ == n);
                        }
                    }
                }
                assert forall|k: int| 0 <= k < i + 1 implies self.keys().contains(#[trigger] model_names@[k]@) by {
                    if k < i {
                        let w = choose|w: int| 0 <= w < before.len() && before[w] == model_names@[k]@;
                        assert(self.keys()[w] == model_names@[k]@);
                    }
                }
            }
            proof {
                let ns = model_names@.map_values(|n: &str| n@);
                assert(ns.take(i as int + 1).drop_last() =~= ns.take(i as int));
                assert(ns.take(i as int + 1).last() == model_names@[i as int]@);
            }
            i = i + 1;
        }
        proof {
            let ns = model_names@.map_values(|n: &str| n@);
            assert(ns.take(ns.len() as int) =~= ns);
        }
    }

    /// Makes `model_name` the active model; refused when no provider serves it.
    pub fn set_active_model(&mut self, model_name: &str) -> (r: Result<(), ChatError>)
        ensures
            final(self).wf(),
            final(self).keys() == old(self).keys(),
            forall|n: Seq<char>| #[trigger] final(self).provider_spec(n) == old(self).provider_spec(n),
            old(self).keys().contains(model_name@) ==> r is Ok && final(self).active_spec() == Some(model_name@),
            !old(self).keys().contains(model_name@) ==> final(self).active_spec() == old(self).active_spec() && match r {
                Err(ChatError::ModelNotFound(n)) => n@ == model_name@,
                _ => false,
            },
            final(self).reasoning_effort_spec() == old(self).reasoning_effort_spec(),
            final(self).thinking_spec() == old(self).thinking_spec(),
            final(self).output_json_spec() == old(self).output_json_spec(),
    {
        proof { use_type_invariant(&*self); }
        match find_model(&self.model_providers, model_name) {
            None => Err(ChatError::ModelNotFound(String::from_str(model_name))),
            Some(_) => {
                self.active_model = Some(String::from_str(model_name));
                Ok(())
            },
        }
    }

    /// The provider of `model_name`.
    pub fn get_provider(&self, model_name: &str) -> (r: Result<&P, ChatError>)
        ensures
            self.keys().contains(model_name@) <==> r is Ok,
            match r {
                Err(ChatError::ModelNotFound(n)) => n@ == model_name@,
                Err(_) => false,
                Ok(p) => self.provider_spec(model_name@) == Some(*p),
            },
    {
        match find_model(&self.model_providers, model_name) {
            None => Err(ChatError::ModelNotFound(String::from_str(model_name))),
            Some(i) => {
                proof { assert(registry_keys(self.model_providers@)[i as int] == model_name@); }
                Ok(&self.model_providers[i].1)
            },
        }
    }

    pub fn set_output_json(&mut self, output_json: bool)
        ensures
            final(self).output_json_spec() == output_json,
            final(self).keys() == old(self).keys(),
            forall|n: Seq<char>| #[trigger] final(self).provider_spec(n) == old(self).provider_spec(n),
            final(self).wf() == old(self).wf(),
            final(self).active_spec() == old(self).active_spec(),
            final(self).reasoning_effort_spec() == old(self).reasoning_effort_spec(),
            final(self).thinking_spec() == old(self).thinking_spec(),
    {
        proof { use_type_invariant(&*self); }
        self.output_json = output_json;
    }

    pub fn set_reasoning_effort(&mut self, reasoning_effort: &str)
        ensures
            final(self).reasoning_effort_spec() == Some(reasoning_effort@),
            final(self).keys() == old(self).keys(),
            forall|n: Seq<char>| #[trigger] final(self).provider_spec(n) == old(self).provider_spec(n),
            final(self).wf() == old(self).wf(),
            final(self).active_spec() == old(self).active_spec(),
            final(self).output_json_spec() == old(self).output_json_spec(),
            final(self).thinking_spec() == old(self).thinking_spec(),
    {
        proof { use_type_invariant(&*self); }
        self.reasoning_effort = Some(String::from_str(reasoning_effort));
    }

    pub fn set_thinking_enabled(&mut self, enabled: bool)
        ensures
            final(self).thinking_spec() == Some(enabled),
            final(self).keys() == old(self).keys(),
            forall|n: Seq<char>| #[trigger] final(self).provider_spec(n) == old(self).provider_spec(n),
            final(self).wf() == old(self).wf(),
            final(self).active_spec() == old(self).active_spec(),
            final(self).output_json_spec() == old(self).output_json_spec(),
            final(self).reasoning_effort_spec() == old(self).reasoning_effort_spec(),
    {
        proof { use_type_invariant(&*self); }
        self.thinking_enabled = Some(enabled);
    }

    /// Whether a provider serves `model_name`.
    pub fn has_model(&self, model_name: &str) -> (r: bool)
        ensures
            r == self.keys().contains(model_name@),
    {
        find_model(&self.model_providers, model_name).is_some()
    }

    /// How many models have a provider.
    pub fn model_count(&self) -> (r: usize)
        ensures
            r == self.keys().len(),
    {
        self.model_providers.len()
    }

    pub fn active_model(&self) -> (r: Option<&str>)
        ensures
            match r {
                Some(s) => self.active_spec() == Some(s@),
                None => self.active_spec() is None,
            },
    {
        match &self.active_model {
            Some(s) => Some(s.as_str()),
            None => None,
        }
    }

    pub fn output_json(&self) -> (r: bool)
        ensures
            r == self.output_json_spec(),
    {
        self.output_json
    }

    pub fn reasoning_effort(&self) -> (r: Option<&str>)
        ensures
            match r {
                Some(s) => self.reasoning_effort_spec() == Some(s@),
                None => self.reasoning_effort_spec() is None,
            },
    {
        match &self.reasoning_effort {
            Some(s) => Some(s.as_str()),
            None => None,
        }
    }

    pub fn thinking_enabled(&self) -> (r: Option<bool>)
        ensures
            r == self.thinking_spec(),
    {
        self.thinking_enabled
    }

    /// The active model's name and provider; refused when none is active or
    /// its provider is gone.
    pub fn active_provider(&self) -> (r: Result<(&str, &P), ChatError>)
        ensures
            match self.active_spec() {
                None => match r {
                    Err(ChatError::ModelNotFound(n)) => n@ == "No active model set"@,
                    _ => false,
                },
                Some(name) => (r is Ok <==> self.keys().contains(name)) && match r {
                    Ok((n, p)) => n@ == name && self.provider_spec(name) == Some(*p),
                    Err(ChatError::ModelNotFound(n)) => n@ == name,
                    Err(_) => false,
                },
            },
    {
        match &self.active_model {
            None => Err(ChatError::ModelNotFound(String::from_str("No active model set"))),
            Some(name) => match self.get_provider(name.as_str()) {
                Ok(p) => Ok((name.as_str(), p)),
                Err(e) => Err(e),
            },
        }
    }
}

/// The request a chat with `model` goes out as.
pub open spec fn chat_request_view(
    model: Seq<char>,
    msgs: Seq<MessageView>,
    tools: Option<Seq<ToolDefView>>,
    effort: Option<Seq<char>>,
    thinking: Option<bool>,
) -> RequestView {
    RequestView {
        model,
        messages: msgs,
        tools,
        stream: None,
        stream_usage: None,
        json_output: false,
        reasoning_effort: effort,
        thinking,
        extra: Seq::empty(),
    }
}

/// The request a streamed chat with `model` goes out as: streamed, with the
/// usage at its end, and a JSON answer when asked for.
pub open spec fn stream_request_view(
    model: Seq<char>,
    msgs: Seq<MessageView>,
    tools: Option<Seq<ToolDefView>>,
    json_output: bool,
    effort: Option<Seq<char>>,
    thinking: Option<bool>,
) -> RequestView {
    RequestView {
        model,
        messages: msgs,
        tools,
        stream: Some(true),
        stream_usage: Some(true),
        json_output,
        reasoning_effort: effort,
        thinking,
        extra: Seq::empty(),
    }
}

impl<P> ChatModel<P> {
    /// The active model's provider and the request a chat with it goes out
    /// as; refused as `active_provider` refuses.
    pub fn chat_request(&self, msgs: Vec<Message>, tools: Option<Vec<ToolDef>>) -> (r: Result<(&P, Request), ChatError>)
        ensures
            match self.active_spec() {
                None => r matches Err(ChatError::ModelNotFound(n)) && n@ == "No active model set"@,
                Some(name) => match r {
                    Ok((p, req)) => self.provider_spec(name) == Some(*p) && req@ == chat_request_view(
                        name,
                        messages_view(msgs@),
                        opt_defs(tools),
                        self.reasoning_effort_spec(),
                        self.thinking_spec(),
                    ),
                    Err(e) => !self.keys().contains(name) && (e matches ChatError::ModelNotFound(n) && n@ == name),
                },
            },
    {
        let (name, provider) = match self.active_provider() {
            Ok(x) => x,
            Err(e) => return Err(e),
        };
        let mut request = Request::new(name, msgs).with_tools(tools);
        match &self.reasoning_effort {
            Some(effort) => request = request.with_reasoning_effort(effort.clone()),
            None => {},
        }
        match self.thinking_enabled {
            Some(enabled) => request = request.with_thinking(enabled),
            None => {},
        }
        Ok((provider, request))
    }

    /// The active model's provider and the request a streamed chat with it
    /// goes out as; refused as `active_provider` refuses.
    pub fn stream_request(&self, msgs: Vec<Message>, tools: Option<Vec<ToolDef>>) -> (r: Result<(&P, Request), ChatError>)
        ensures
            match self.active_spec() {
                None => r matches Err(ChatError::ModelNotFound(n)) && n@ == "No active model set"@,
                Some(name) => match r {
                    Ok((p, req)) => self.provider_spec(name) == Some(*p) && req@ == stream_request_view(
                        name,
                        messages_view(msgs@),
                        opt_defs(tools),
                        self.output_json_spec(),
                        self.reasoning_effort_spec(),
                        self.thinking_spec(),
                    ),
                    Err(e) => !self.keys().contains(name) && (e matches ChatError::ModelNotFound(n) && n@ == name),
                },
            },
    {
        let (name, provider) = match self.active_provider() {
            Ok(x) => x,
            Err(e) => return Err(e),
        };
        let mut request = Request::new(name, msgs).with_stream(true).with_stream_usage(true).with_tools(tools);
        if self.output_json {
            request = request.with_response_format_json();
        }
        match &self.reasoning_effort {
            Some(effort) => request = request.with_reasoning_effort(effort.clone()),
            None => {},
        }
        match self.thinking_enabled {
            Some(enabled) => request = request.with_thinking(enabled),
            None => {},
        }
        Ok((provider, request))
    }
}

/// The message a provider's reply stands for, by its role; missing text is
/// empty.
pub open spec fn reply_message(role: MessageRole, content: Option<Seq<char>>, reasoning_content: Option<Seq<char>>, tool_calls: Option<Seq<crate::message::ToolCallView>>, tool_call_id: Option<Seq<char>>) -> MessageView {
    let text = match content { Some(c) => c, None => Seq::empty() };
    match role {
        MessageRole::Assistant => MessageView::Assistant { content: text, reasoning_content, tool_calls },
        MessageRole::User => MessageView::User { content: text },
        MessageRole::System => MessageView::System { content: text },
        MessageRole::Tool => MessageView::Tool {
            tool_call_id: match tool_call_id { Some(t) => t, None => Seq::empty() },
            content: text,
        },
    }
}

/// The message a provider's reply stands for; see `reply_message`.
pub fn message_from_reply(role: MessageRole, content: Option<String>, reasoning_content: Option<String>, tool_calls: Option<Vec<ToolCall>>, tool_call_id: Option<String>) -> (r: Message)
    ensures
        r@ == reply_message(role, opt_str(content), opt_str(reasoning_content), opt_calls(tool_calls), opt_str(tool_call_id)),
{
    let text = match content {
        Some(c) => c,
        None => String::new(),
    };
    match role {
        MessageRole::Assistant => Message::Assistant { content: text, reasoning_content, tool_calls },
        MessageRole::User => Message::User { content: text },
        MessageRole::System => Message::System { content: text },
        MessageRole::Tool => Message::Tool {
            tool_call_id: match tool_call_id {
                Some(t) => t,
                None => String::new(),
            },
            content: text,
        },
    }
}

/// The chunk for a streamed delta; a response without choices ends the
/// stream with the reason "no_choices".
pub fn chunk_from_delta(
    delta: Option<(Option<String>, Option<String>, Option<Vec<ToolCall>>)>,
    finish_reason: Option<String>,
    usage: Option<Usage>,
) -> (r: ChatChunk)
    ensures
        r.usage == usage,
        match delta {
            Some((c, rc, tc)) => r.content@ == (match opt_str(c) { Some(x) => x, None => Seq::empty() })
                && r.reasoning_content@ == (match opt_str(rc) { Some(x) => x, None => Seq::empty() })
                && r.is_finished == finish_reason is Some
                && opt_str(r.finish_reason) == opt_str(finish_reason)
                && opt_calls(r.tool_calls) == opt_calls(tc),
            None => r.content@.len() == 0 && r.reasoning_content@.len() == 0 && r.is_finished
                && opt_str(r.finish_reason) == Some("no_choices"@) && r.tool_calls is None,
        },
{
    match delta {
        Some((c, rc, tc)) => ChatChunk {
            content: match c {
                Some(x) => x,
                None => String::new(),
            },
            reasoning_content: match rc {
                Some(x) => x,
                None => String::new(),
            },
            is_finished: finish_reason.is_some(),
            finish_reason,
            tool_calls: tc,
            usage,
        },
        None => ChatChunk {
            content: String::new(),
            reasoning_content: String::new(),
            is_finished: true,
            finish_reason: Some(String::from_str("no_choices")),
            tool_calls: None,
            usage,
        },
    }
}

/// A model that makes images: providers by model name, the active model and
/// the image options.
pub struct GenImgModel<P> {
    model_providers: Vec<(String, P)>,
    active_model: Option<String>,
    aspect_ratio: String,
    image_size: String,
}

impl<P> GenImgModel<P> {
    /// No model name has two providers.
    #[verifier::type_invariant]
    spec fn names_distinct(&self) -> bool {
        distinct_keys(registry_keys(self.model_providers@))
    }
}

impl<P> GenImgModel<P> {
    pub closed spec fn keys(&self) -> Seq<Seq<char>> {
        registry_keys(self.model_providers@)
    }

    /// The provider registered under `name`.
    pub closed spec fn provider_spec(&self, name: Seq<char>) -> Option<P> {
        registry_lookup(self.model_providers@, name)
    }

    pub closed spec fn active_spec(&self) -> Option<Seq<char>> {
        opt_str(self.active_model)
    }

    pub closed spec fn aspect_ratio_spec(&self) -> Seq<char> {
        self.aspect_ratio@
    }

    pub closed spec fn image_size_spec(&self) -> Seq<char> {
        self.image_size@
    }

    /// No model name is registered twice.
    pub open spec fn wf(&self) -> bool {
        distinct_keys(self.keys())
    }

    pub fn new() -> (r: GenImgModel<P>)
        ensures
            r.wf(),
            r.keys().len() == 0,
            r.active_spec() is None,
            r.aspect_ratio_spec() == "1:1"@,
            r.image_size_spec() == "1K"@,
            forall|n: Seq<char>| #[trigger] r.provider_spec(n) is None,
    {
        let r = GenImgModel {
            model_providers: Vec::new(),
            active_model: None,
            aspect_ratio: String::from_str("1:1"),
            image_size: String::from_str("1K"),
        };
        proof { assert(registry_keys(r.model_providers@) =~= Seq::<Seq<char>>::empty()); }
        r
    }

    /// Maps `model_name` to `provider`, unless the name is mapped already.
    pub fn add_model_provider(&mut self, model_name: &str, provider: P)
        ensures
            final(self).wf(),
            old(self).keys().contains(model_name@) ==> final(self).keys() == old(self).keys(),
            !old(self).keys().contains(model_name@) ==> final(self).keys() == old(self).keys().push(model_name@),
            forall|n: Seq<char>| #[trigger] final(self).provider_spec(n) == if n == model_name@ && !old(self).keys().contains(model_name@) {
                Some(provider)
            } else {
                old(self).provider_spec(n)
            },
            final(self).active_spec() == old(self).active_spec(),
            final(self).aspect_ratio_spec() == old(self).aspect_ratio_spec(),
            final(self).image_size_spec() == old(self).image_size_spec(),
            active_effect(old(self).active_spec(), ModelCall::Other, true, final(self).active_spec()),
    {
        proof { use_type_invariant(&*self); }
        let mut entries: Vec<(String, P)> = Vec::new();
        std::mem::swap(&mut entries, &mut self.model_providers);
        let ghost before = entries@;
        add_entry(&mut entries, model_name, provider);
        proof {
            if !registry_keys(before).contains(model_name@) {
                assert(registry_keys(entries@) =~= registry_keys(before).push(model_name@)) by {
                    assert forall|k: int| 0 <= k < before.len() implies #[trigger] entries@[k] == before[k] by {
                        assert(entries@.take(before.len() as int)[k] == entries@[k]);
                    }
                }
                lemma_distinct_push(registry_keys(before), model_name@);
            }
        }
        self.model_providers = entries;
    }

    /// Maps each of `model_names` to a copy of `provider`; names already
    /// registered keep their provider. See `keys_after`.
    pub fn add_models_for_provider(&mut self, model_names: &[&str], provider: P)
        where P: Clone,
        ensures
            final(self).wf(),
            final(self).keys() == keys_after(old(self).keys(), model_names@.map_values(|n: &str| n@)),
            forall|k: int| 0 <= k < model_names@.len() ==> final(self).keys().contains(#[trigger] model_names@[k]@),
            forall|k: int| 0 <= k < old(self).keys().len() ==> #[trigger] final(self).keys()[k] == old(self).keys()[k],
            forall|n: Seq<char>| #[trigger] final(self).keys().contains(n) ==> old(self).keys().contains(n)
                || exists|k: int| 0 <= k < model_names@.len() && model_names@[k]@ == n,
            forall|n: Seq<char>| old(self).keys().contains(n) ==> #[trigger] final(self).provider_spec(n) == old(self).provider_spec(n),
            forall|n: Seq<char>| final(self).keys().contains(n) && !old(self).keys().contains(n)
                ==> (#[trigger] final(self).provider_spec(n)) is Some && cloned(provider, final(self).provider_spec(n)->0),
            final(self).active_spec() == old(self).active_spec(),
            final(self).aspect_ratio_spec() == old(self).aspect_ratio_spec(),
            final(self).image_size_spec() == old(self).image_size_spec(),
            active_effect(old(self).active_spec(), ModelCall::Other, true, final(self).active_spec()),
    {
        proof { use_type_invariant(&*self); }
        let mut i: usize = 0;
        while i < model_names.len()
            invariant
                i <= model_names@.len(),
                self.wf(),
                self.keys() == keys_after(old(self).keys(), model_names@.map_values(|n: &str| n@).take(i as int)),
                forall|k: int| 0 <= k < i ==> self.keys().contains(#[trigger] model_names@[k]@),
                old(self).keys().len() <= self.keys().len(),
                forall|k: int| 0 <= k < old(self).keys().len() ==> #[trigger] self.keys()[k] == old(self).keys()[k],
                forall|n: Seq<char>| #[trigger] self.keys().contains(n) ==> old(self).keys().contains(n)
                    || exists|k: int| 0 <= k < model_names@.len() && model_names@[k]@ == n,
                forall|n: Seq<char>| old(self).keys().contains(n) ==> #[trigger] self.provider_spec(n) == old(self).provider_spec(n),
                forall|n: Seq<char>| self.keys().contains(n) && !old(self).keys().contains(n)
                    ==> (#[trigger] self.provider_spec(n)) is Some && cloned(provider, self.provider_spec(n)->0),
                self.active_spec() == old(self).active_spec(),
                self.aspect_ratio_spec() == old(self).aspect_ratio_spec(),
                self.image_size_spec() == old(self).image_size_spec(),
            decreases model_names@.len() - i,
        {
            let ghost before = self.keys();
            let ghost prev = *self;
            let copy = provider.clone();
            let ghost made = copy;
            self.add_model_provider(model_names[i], copy);
            proof {
                assert forall|n: Seq<char>| self.keys().contains(n) && !old(self).keys().contains(n)
                    implies (#[trigger] self.provider_spec(n)) is Some && cloned(provider, self.provider_spec(n)->0) by {
                    if n == model_names@[i as int]@ && !before.contains(n) {
                        assert(self.provider_spec(n) == Some(made));
                    } else {
                        assert(self.provider_spec(n) == prev.provider_spec(n));
                        if !before.contains(n) {
                            let w = choose|w: int| 0 <= w < self.keys().len() && self.keys()[w] == n;
                            if w < before.len() {
                                assert(before[w] == n);
                            }
                        }
                    }
                }
                assert forall|n: Seq<char>| old(self).keys().contains(n) implies #[trigger] self.provider_spec(n) == old(self).provider_spec(n) by {
                    let w = choose|w: int| 0 <= w < old(self).keys().len() && old(self).keys()[w] == n;
                    assert(before[w] == n);
                }
                assert(self.keys().contains(model_names@[i as int]@)) by {
                    if before.contains(model_names@[i as int]@) {
                    } else {
                        assert(self.keys()[self.keys().len() - 1] == model_names@[i as int]@);
                    }
                }
                assert forall|n: Seq<char>| #[trigger] self.keys().contains(n) implies old(self).keys().contains(n)
                    || exists|k: int| 0 <= k < model_names@.len() && model_names@[k]@ == n by {
                    if !before.contains(n) {
                        let w = choose|w: int| 0 <= w < self.keys().len() && self.keys()[w] == n;
                        if w < before.len() {
                            assert(before[w] == n);
                        } else {
                            assert(model_names@[i as int]@ == n);
                        }
                    }
                }
                assert forall|k: int| 0 <= k < i + 1 implies self.keys().contains(#[trigger] model_names@[k]@) by {
                    if k < i {
                        let w = choose|w: int| 0 <= w < before.len() && before[w] == model_names@[k]@;
                        assert(self.keys()[w] == model_names@[k]@);
                    }
                }
            }
            proof {
                let ns = model_names@.map_values(|n: &str| n@);
                assert(ns.take(i as int + 1).drop_last() =~= ns.take(i as int));
                assert(ns.take(i as int + 1).last() == model_names@[i as int]@);
            }
            i = i + 1;
        }
        proof {
            let ns = model_names@.map_values(|n: &str| n@);
            assert(ns.take(ns.len() as int) =~= ns);
        }
    }

    /// Makes `model_name` the active model; refused when no provider serves it.
    pub fn set_active_model(&mut self, model_name: &str) -> (r: Result<(), ChatError>)
        ensures
            final(self).wf(),
            final(self).keys() == old(self).keys(),
            forall|n: Seq<char>| #[trigger] final(self).provider_spec(n) == old(self).provider_spec(n),
            old(self).keys().contains(model_name@) ==> r is Ok && final(self).active_spec() == Some(model_name@),
            !old(self).keys().contains(model_name@) ==> final(self).active_spec() == old(self).active_spec() && match r {
                Err(ChatError::ModelNotFound(n)) => n@ == model_name@,
                _ => false,
            },
            final(self).aspect_ratio_spec() == old(self).aspect_ratio_spec(),
            final(self).image_size_spec() == old(self).image_size_spec(),
            active_effect(old(self).active_spec(), ModelCall::SetActive(model_name@), r is Ok, final(self).active_spec()),
    {
        proof { use_type_invariant(&*self); }
        match find_model(&self.model_providers, model_name) {
            None => Err(ChatError::ModelNotFound(String::from_str(model_name))),
            Some(_) => {
                self.active_model = Some(String::from_str(model_name));
                Ok(())
            },
        }
    }

    pub fn with_aspect_ratio(self, aspect_ratio: String) -> (r: GenImgModel<P>)
        ensures
            r.aspect_ratio_spec() == aspect_ratio@,
            r.image_size_spec() == self.image_size_spec(),
            r.keys() == self.keys(),
            forall|n: Seq<char>| #[trigger] r.provider_spec(n) == self.provider_spec(n),
            r.wf() == self.wf(),
            r.active_spec() == self.active_spec(),
            active_effect(self.active_spec(), ModelCall::Other, true, r.active_spec()),
    {
        proof { use_type_invariant(&self); }
        let mut m = self;
        m.aspect_ratio = aspect_ratio;
        m
    }

    pub fn with_image_size(self, image_size: String) -> (r: GenImgModel<P>)
        ensures
            r.image_size_spec() == image_size@,
            r.aspect_ratio_spec() == self.aspect_ratio_spec(),
            r.keys() == self.keys(),
            forall|n: Seq<char>| #[trigger] r.provider_spec(n) == self.provider_spec(n),
            r.wf() == self.wf(),
            r.active_spec() == self.active_spec(),
            active_effect(self.active_spec(), ModelCall::Other, true, r.active_spec()),
    {
        proof { use_type_invariant(&self); }
        let mut m = self;
        m.image_size = image_size;
        m
    }

    /// The provider of `model_name`.
    pub fn get_provider(&self, model_name: &str) -> (r: Result<&P, ChatError>)
        ensures
            self.keys().contains(model_name@) <==> r is Ok,
            match r {
                Err(ChatError::ModelNotFound(n)) => n@ == model_name@,
                Err(_) => false,
                Ok(p) => self.provider_spec(model_name@) == Some(*p),
            },
    {
        match find_model(&self.model_providers, model_name) {
            None => Err(ChatError::ModelNotFound(String::from_str(model_name))),
            Some(i) => {
                proof { assert(registry_keys(self.model_providers@)[i as int] == model_name@); }
                Ok(&self.model_providers[i].1)
            },
        }
    }

    pub fn active_model(&self) -> (r: Option<&str>)
        ensures
            match r {
                Some(s) => self.active_spec() == Some(s@),
                None => self.active_spec() is None,
            },
    {
        match &self.active_model {
            Some(s) => Some(s.as_str()),
            None => None,
        }
    }

    pub fn aspect_ratio(&self) -> (r: &str)
        ensures
            r@ == self.aspect_ratio_spec(),
    {
        self.aspect_ratio.as_str()
    }

    pub fn image_size(&self) -> (r: &str)
        ensures
            r@ == self.image_size_spec(),
    {
        self.image_size.as_str()
    }

    pub fn has_model(&self, model_name: &str) -> (r: bool)
        ensures
            r == self.keys().contains(model_name@),
    {
        find_model(&self.model_providers, model_name).is_some()
    }

    pub fn model_count(&self) -> (r: usize)
        ensures
            r == self.keys().len(),
    {
        self.model_providers.len()
    }
}

/// The members an image request adds: the image modality and the image
/// options.
pub open spec fn image_extra(aspect_ratio: Seq<char>, image_size: Seq<char>) -> Seq<(Seq<char>, JsonView)> {
    seq![
        ("modalities"@, JsonView::Array(seq![JsonView::Str("image"@)])),
        ("image_config"@, JsonView::Object(seq![
            ("aspect_ratio"@, JsonView::Str(aspect_ratio)),
            ("image_size"@, JsonView::Str(image_size)),
        ])),
    ]
}

fn image_extra_members(aspect_ratio: &String, image_size: &String) -> (r: Vec<(String, JsonValue)>)
    ensures
        members_view(r@) == image_extra(aspect_ratio@, image_size@),
{
    let mut config: Vec<(String, JsonValue)> = Vec::new();
    proof { assert(members_view(config@) =~= Seq::<(Seq<char>, JsonView)>::empty()); }
    push_member(&mut config, "aspect_ratio", JsonValue::Str(aspect_ratio.clone()));
    push_member(&mut config, "image_size", JsonValue::Str(image_size.clone()));
    let mut kinds: Vec<JsonValue> = Vec::new();
    kinds.push(JsonValue::Str(String::from_str("image")));
    let mut ms: Vec<(String, JsonValue)> = Vec::new();
    proof { assert(members_view(ms@) =~= Seq::<(Seq<char>, JsonView)>::empty()); }
    push_member(&mut ms, "modalities", JsonValue::Array(kinds));
    push_member(&mut ms, "image_config", JsonValue::Object(config));
    proof {
        crate::json::lemma_json_seq_view(kinds@);
        assert(crate::json::json_seq_view(kinds@) =~= seq![JsonView::Str("image"@)]);
        assert(members_view(config@) =~= seq![("aspect_ratio"@, JsonView::Str(aspect_ratio@)), ("image_size"@, JsonView::Str(image_size@))]);
        assert(members_view(ms@) =~= image_extra(aspect_ratio@, image_size@));
    }
    ms
}

impl<P> GenImgModel<P> {
    /// The active model's name and provider; refused when none is active or
    /// its provider is gone.
    pub fn active_provider(&self) -> (r: Result<(&str, &P), ChatError>)
        ensures
            match self.active_spec() {
                None => r matches Err(ChatError::ModelNotFound(n)) && n@ == "No active model set"@,
                Some(name) => match r {
                    Ok((n, p)) => n@ == name && self.provider_spec(name) == Some(*p),
                    Err(e) => !self.keys().contains(name) && (e matches ChatError::ModelNotFound(n) && n@ == name),
                },
            },
    {
        match &self.active_model {
            None => Err(ChatError::ModelNotFound(String::from_str("No active model set"))),
            Some(name) => match self.get_provider(name.as_str()) {
                Ok(p) => Ok((name.as_str(), p)),
                Err(e) => Err(e),
            },
        }
    }

    /// The active model's provider and the request for images goes out as:
    /// the messages, the image modality and the image options.
    pub fn image_request(&self, msgs: Vec<Message>) -> (r: Result<(&P, Request), ChatError>)
        ensures
            match self.active_spec() {
                None => r matches Err(ChatError::ModelNotFound(n)) && n@ == "No active model set"@,
                Some(name) => match r {
                    Ok((p, req)) => self.provider_spec(name) == Some(*p) && req@ == (RequestView {
                        model: name,
                        messages: messages_view(msgs@),
                        tools: None,
                        stream: None,
                        stream_usage: None,
                        json_output: false,
                        reasoning_effort: None,
                        thinking: None,
                        extra: image_extra(self.aspect_ratio_spec(), self.image_size_spec()),
                    }),
                    Err(e) => !self.keys().contains(name) && (e matches ChatError::ModelNotFound(n) && n@ == name),
                },
            },
    {
        let (name, provider) = match self.active_provider() {
            Ok(x) => x,
            Err(e) => return Err(e),
        };
        let extra = image_extra_members(&self.aspect_ratio, &self.image_size);
        Ok((provider, Request::new(name, msgs).with_extra(extra)))
    }
}

/// The registered names after each of `names` is added in turn: a name not
/// yet registered goes at the end, one already registered changes nothing.
pub open spec fn keys_after(keys: Seq<Seq<char>>, names: Seq<Seq<char>>) -> Seq<Seq<char>>
    decreases names.len(),
{
    if names.len() == 0 {
        keys
    } else {
        let k = keys_after(keys, names.drop_last());
        if k.contains(names.last()) { k } else { k.push(names.last()) }
    }
}

/// A call on an image model, as far as its active model goes: a request to
/// make a name active, or any other call.
pub enum ModelCall {
    SetActive(Seq<char>),
    Other,
}

/// What a call does to the active model, as the methods state it: an
/// accepted request makes its name active, and nothing else changes it.
pub open spec fn active_effect(before: Option<Seq<char>>, call: ModelCall, accepted: bool, after: Option<Seq<char>>) -> bool {
    match call {
        ModelCall::SetActive(name) => after == if accepted { Some(name) } else { before },
        ModelCall::Other => after == before,
    }
}

/// The name of the last accepted request among `calls`, or none.
pub open spec fn last_accepted(calls: Seq<ModelCall>, accepted: Seq<bool>) -> Option<Seq<char>>
    decreases calls.len(),
{
    if calls.len() == 0 {
        None
    } else {
        match calls.last() {
            ModelCall::SetActive(name) if accepted[calls.len() - 1] => Some(name),
            _ => last_accepted(calls.drop_last(), accepted.take(calls.len() - 1)),
        }
    }
}

/// From a model with no active model (as `new` makes it), after any calls,
/// the active model is the name of the last accepted `set_active_model`, or
/// none when no request was accepted: a refused request changes nothing.
/// `actives[i]` is the active model before the `i`-th call, `accepted[i]`
/// whether that call returned `Ok`.
pub proof fn law_active_model_is_last_accepted(actives: Seq<Option<Seq<char>>>, calls: Seq<ModelCall>, accepted: Seq<bool>)
    requires
        actives.len() == calls.len() + 1,
        accepted.len() == calls.len(),
        actives[0] is None,
        forall|i: int| 0 <= i < calls.len() ==> active_effect(actives[i], #[trigger] calls[i], accepted[i], actives[i + 1]),
    ensures
        actives.last() == last_accepted(calls, accepted),
    decreases calls.len(),
{
    if calls.len() > 0 {
        let n = calls.len() - 1;
        let a2 = actives.take(calls.len() as int);
        let c2 = calls.drop_last();
        let k2 = accepted.take(n);
        assert forall|i: int| 0 <= i < c2.len() implies active_effect(a2[i], #[trigger] c2[i], k2[i], a2[i + 1]) by {
            assert(c2[i] == calls[i]);
        }
        law_active_model_is_last_accepted(a2, c2, k2);
        assert(active_effect(actives[n], calls[n], accepted[n], actives[n + 1]));
    }
}

/// The same law over the models a sequence of calls goes through:
/// `models[0]` has no active model (as `new` makes it), and `models[i + 1]`
/// is what the `i`-th call left of `models[i]`, each method stating its
/// effect as `active_effect`.
pub proof fn law_models_active_is_last_accepted<P>(models: Seq<GenImgModel<P>>, calls: Seq<ModelCall>, accepted: Seq<bool>)
    requires
        models.len() == calls.len() + 1,
        accepted.len() == calls.len(),
        models[0].active_spec() is None,
        forall|i: int| 0 <= i < calls.len()
            ==> active_effect(models[i].active_spec(), #[trigger] calls[i], accepted[i], models[i + 1].active_spec()),
    ensures
        models.last().active_spec() == last_accepted(calls, accepted),
{
    let actives = models.map_values(|m: GenImgModel<P>| m.active_spec());
    assert forall|i: int| 0 <= i < calls.len() implies active_effect(actives[i], #[trigger] calls[i], accepted[i], actives[i + 1]) by {
        assert(actives[i] == models[i].active_spec());
        assert(actives[i + 1] == models[i + 1].active_spec());
    }
    law_active_model_is_last_accepted(actives, calls, accepted);
}

/// The images of a reply; no response when there are none.
pub fn image_response(image_urls: Vec<String>) -> (r: Result<GenImgResponse, ChatError>)
    ensures
        image_urls@.len() == 0 ==> r matches Err(ChatError::NoResponse),
        image_urls@.len() > 0 ==> r is Ok && r->Ok_0.image_urls@ == image_urls@,
{
    if image_urls.len() == 0 {
        Err(ChatError::NoResponse)
    } else {
        Ok(GenImgResponse { image_urls })
    }
}

} // verus!
