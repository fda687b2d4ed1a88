use vstd::prelude::*;

use crate::context::{first_named, with_message, Context, LayerView};
use crate::hooks::AgentActorEvent;
use crate::json::JsonValue;
use crate::message::Message;
use crate::text::concat2;

verus! {

/// When a hook runs and what its failure means.
#[derive(Debug, Clone, Copy, PartialEq, Eq, Structural)]
pub struct HookConfig {
    /// Lower runs first.
    pub priority: u32,
    /// Whether the hooks after it still run when it fails.
    pub fail_continue: bool,
    pub enabled: bool,
}

impl Default for HookConfig {
    fn default() -> (r: HookConfig)
        ensures
            r == (HookConfig { priority: 100, fail_continue: true, enabled: true }),
    {
        HookConfig { priority: 100, fail_continue: true, enabled: true }
    }
}

/// Why a hook failed.
#[derive(Debug)]
pub enum HookError {
    Context(String),
    Io(String),
    Custom(String),
}

pub open spec fn hook_error_text(e: HookError) -> Seq<char> {
    match e {
        HookError::Context(m) => "Context update error: "@ + m@,
        HookError::Io(m) => "IO error: "@ + m@,
        HookError::Custom(m) => "Custom error: "@ + m@,
    }
}

impl HookError {
    /// The text of this error, as its `Display` writes it.
    pub fn to_text(&self) -> (r: String)
        ensures
            r@ == hook_error_text(*self),
    {
        match self {
            HookError::Context(m) => concat2("Context update error: ", m.as_str()),
            HookError::Io(m) => concat2("IO error: ", m.as_str()),
            HookError::Custom(m) => concat2("Custom error: ", m.as_str()),
        }
    }
}

/// An event for hooks: an event of the agent, or a change to the context
/// that the agent suggests and a hook may apply.
#[derive(Debug)]
pub enum AgentEvent {
    ActorEvent(AgentActorEvent),
    SuggestAddMessage { message: Message },
    SuggestUpdateLayer { name: String, data: JsonValue },
}

impl From<AgentActorEvent> for AgentEvent {
    fn from(event: AgentActorEvent) -> (r: AgentEvent) {
        AgentEvent::ActorEvent(event)
    }
}

impl vstd::std_specs::convert::FromSpecImpl<AgentActorEvent> for AgentEvent {
    open spec fn obeys_from_spec() -> bool {
        true
    }

    open spec fn from_spec(v: AgentActorEvent) -> AgentEvent {
        AgentEvent::ActorEvent(v)
    }
}

/// A hook on the agent's events, written by its users.
pub trait AgentHook {
    fn name(&self) -> String;

    fn config(&self) -> HookConfig;
}

/// Whether the entries are in order of priority.
pub open spec fn sorted_priorities<H>(es: Seq<(u32, H)>) -> bool {
    forall|i: int, j: int| #![trigger es[i], es[j]] 0 <= i < j < es.len() ==> es[i].0 <= es[j].0
}

/// The position after every entry of priority at most `p`.
pub open spec fn upper_bound<H>(es: Seq<(u32, H)>, p: u32) -> int
    decreases es.len(),
{
    if es.len() == 0 {
        0
    } else if es.last().0 <= p {
        es.len() as int
    } else {
        upper_bound(es.drop_last(), p)
    }
}

proof fn lemma_upper_bound<H>(es: Seq<(u32, H)>, p: u32, i: int)
    requires
        sorted_priorities(es),
        0 <= i <= es.len(),
        forall|j: int| 0 <= j < i ==> (#[trigger] es[j]).0 <= p,
        i < es.len() ==> es[i].0 > p,
    ensures
        upper_bound(es, p) == i,
    decreases es.len(),
{
    if es.len() > 0 {
        if i == es.len() {
            assert(es.last().0 <= p);
        } else {
            assert(es.last().0 > p) by {
                if i < es.len() - 1 {
                    assert(es[i].0 <= es[es.len() - 1].0);
                }
            }
            let d = es.drop_last();
            assert forall|j: int| 0 <= j < i implies (#[trigger] d[j]).0 <= p by {
                assert(d[j] == es[j]);
            }
            if i < d.len() {
                assert(d[i] == es[i]);
            }
            assert forall|a: int, b: int| 0 <= a < b < d.len() implies d[a].0 <= d[b].0 by {
                assert(d[a] == es[a]);
                assert(d[b] == es[b]);
            }
            lemma_upper_bound(d, p, i);
        }
    }
}

/// The first `i` entries, without those whose name (`ns`, one per entry)
/// is `name`, in order.
pub open spec fn entries_not_named<H>(es: Seq<(u32, H)>, ns: Seq<String>, name: Seq<char>, i: int) -> Seq<(u32, H)>
    decreases i,
{
    if i <= 0 {
        Seq::empty()
    } else {
        let prev = entries_not_named(es, ns, name, i - 1);
        if ns[i - 1]@ != name { prev.push(es[i - 1]) } else { prev }
    }
}

proof fn lemma_not_named_prefix<H>(es: Seq<(u32, H)>, a: Seq<String>, b: Seq<String>, name: Seq<char>, i: int)
    requires
        0 <= i <= a.len(),
        a.len() <= b.len(),
        forall|k: int| 0 <= k < a.len() ==> #[trigger] b[k] == a[k],
    ensures
        entries_not_named(es, a, name, i) == entries_not_named(es, b, name, i),
    decreases i,
{
    if i > 0 {
        lemma_not_named_prefix(es, a, b, name, i - 1);
        assert(b[i - 1] == a[i - 1]);
    }
}

/// Hooks in order of priority; hooks of equal priority in the order they
/// came.
pub struct HookRegistry<H> {
    hooks: Vec<(u32, H)>,
}

impl<H> HookRegistry<H> {
    /// The hooks stay in order of priority.
    #[verifier::type_invariant]
    spec fn sorted(&self) -> bool {
        sorted_priorities(self.hooks@)
    }
}

impl<H: AgentHook> HookRegistry<H> {
    pub closed spec fn entries(&self) -> Seq<(u32, H)> {
        self.hooks@
    }

    pub fn new() -> (r: HookRegistry<H>)
        ensures
            r.entries().len() == 0,
    {
        HookRegistry { hooks: Vec::new() }
    }

    /// Adds `hook` with `priority`, after every hook of priority at most
    /// `priority`.
    pub fn register_with_priority(&mut self, hook: H, priority: u32)
        ensures
            sorted_priorities(final(self).entries()),
            final(self).entries() == old(self).entries().insert(upper_bound(old(self).entries(), priority), (priority, hook)),
    {
        proof { use_type_invariant(&*self); }
        let mut hooks: Vec<(u32, H)> = Vec::new();
        std::mem::swap(&mut hooks, &mut self.hooks);
        let ghost es = hooks@;
        let mut i: usize = 0;
        while i < hooks.len() && hooks[i].0 <= priority
            invariant
                i <= hooks@.len(),
                hooks@ == es,
                sorted_priorities(es),
                forall|j: int| 0 <= j < i ==> (#[trigger] es[j]).0 <= priority,
            decreases hooks@.len() - i,
        {
            i = i + 1;
        }
        proof { lemma_upper_bound(es, priority, i as int); }
        hooks.insert(i, (priority, hook));
        proof {
            let n = hooks@;
            assert forall|a: int, b: int| 0 <= a < b < n.len() implies n[a].0 <= n[b].0 by {
                if a < i && b < i {
                    assert(n[a] == es[a] && n[b] == es[b]);
                } else if a < i && b == i {
                    assert(n[a] == es[a]);
                } else if a < i {
                    assert(n[a] == es[a] && n[b] == es[b - 1]);
                } else if a == i {
                    assert(n[b] == es[b - 1]);
                    assert(es[i as int].0 > priority);
                    if b - 1 > i {
                        assert(es[i as int].0 <= es[b - 1].0);
                    }
                } else {
                    assert(n[a] == es[a - 1] && n[b] == es[b - 1]);
                }
            }
        }
        self.hooks = hooks;
    }

    /// Adds `hook` at the priority its configuration gives.
    pub fn register(&mut self, hook: H)
        ensures
            sorted_priorities(final(self).entries()),
            exists|c: HookConfig| #[trigger] call_ensures(H::config, (&hook,), c)
                && final(self).entries() == old(self).entries().insert(upper_bound(old(self).entries(), c.priority), (c.priority, hook)),
    {
        let c = hook.config();
        let priority = c.priority;
        self.register_with_priority(hook, priority);
        proof { assert(call_ensures(H::config, (&hook,), c)); }
    }

    /// Removes the hooks that go by `name`; tells whether there were any.
    pub fn remove(&mut self, name: &str) -> (r: bool)
        ensures
            sorted_priorities(final(self).entries()),
            exists|ns: Seq<String>| {
                &&& ns.len() == old(self).entries().len()
                &&& (forall|i: int| 0 <= i < ns.len() ==> #[trigger] call_ensures(H::name, (&old(self).entries()[i].1,), ns[i]))
                &&& final(self).entries() == #[trigger] entries_not_named(old(self).entries(), ns, name@, ns.len() as int)
            },
            final(self).entries().len() <= old(self).entries().len(),
            r == (final(self).entries().len() != old(self).entries().len()),
    {
        proof { use_type_invariant(&*self); }
        let mut rest: Vec<(u32, H)> = Vec::new();
        std::mem::swap(&mut rest, &mut self.hooks);
        let ghost es = rest@;
        let n = rest.len();
        let mut rev: Vec<(u32, H)> = Vec::new();
        while rest.len() > 0
            invariant
                rest@.len() + rev@.len() == n,
                n == es.len(),
                forall|j: int| 0 <= j < rest@.len() ==> #[trigger] rest@[j] == es[j],
                forall|j: int| 0 <= j < rev@.len() ==> #[trigger] rev@[j] == es[n - 1 - j],
            decreases rest@.len(),
        {
            let e = rest.pop().unwrap();
            rev.push(e);
        }
        let mut kept: Vec<(u32, H)> = Vec::new();
        let ghost mut ns: Seq<String> = Seq::empty();
        let key = String::from_str(name);
        while rev.len() > 0
            invariant
                key@ == name@,
                n == es.len(),
                sorted_priorities(es),
                ns.len() == n - rev@.len(),
                forall|i: int| 0 <= i < ns.len() ==> #[trigger] call_ensures(H::name, (&es[i].1,), ns[i]),
                kept@ == entries_not_named(es, ns, name@, ns.len() as int),
                kept@.len() <= n - rev@.len(),
                rev@.len() <= n,
                forall|j: int| 0 <= j < rev@.len() ==> #[trigger] rev@[j] == es[n - 1 - j],
                sorted_priorities(kept@),
                forall|k: int, m: int| 0 <= k < kept@.len() && n - rev@.len() <= m < n ==> #[trigger] kept@[k].0 <= #[trigger] es[m].0,
            decreases rev@.len(),
        {
            let ghost idx = n - rev@.len();
            let e = rev.pop().unwrap();
            proof { assert(e == es[idx]); }
            let hook_name = e.1.name();
            let ghost ns0 = ns;
            proof {
                ns = ns.push(hook_name);
                assert forall|i: int| 0 <= i < ns.len() implies #[trigger] call_ensures(H::name, (&es[i].1,), ns[i]) by {
                    if i < ns0.len() {
                        assert(ns[i] == ns0[i]);
                    }
                }
                lemma_not_named_prefix(es, ns0, ns, name@, ns0.len() as int);
            }
            let same = hook_name == key;
            proof { assert(same == (ns[idx]@ == name@)); }
            if !same {
                let ghost before = kept@;
                kept.push(e);
                proof {
                    assert(kept@ =~= entries_not_named(es, ns, name@, ns.len() as int));
                    assert forall|a: int, b: int| 0 <= a < b < kept@.len() implies kept@[a].0 <= kept@[b].0 by {
                        if b < before.len() {
                            assert(kept@[a] == before[a] && kept@[b] == before[b]);
                        } else {
                            assert(kept@[a] == before[a]);
                            assert(before[a].0 <= es[idx].0);
                        }
                    }
                    assert forall|k: int, m: int| 0 <= k < kept@.len() && n - rev@.len() <= m < n implies #[trigger] kept@[k].0 <= #[trigger] es[m].0 by {
                        if k < before.len() {
                            assert(kept@[k] == before[k]);
                        } else {
                            assert(es[idx].0 <= es[m].0);
                        }
                    }
                }
            }
        }
        let changed = kept.len() != n;
        self.hooks = kept;
        proof {
            assert(ns.len() == es.len());
            assert(self.hooks@ == entries_not_named(es, ns, name@, ns.len() as int));
            assert(old(self).entries() == es);
            assert(forall|i: int| 0 <= i < ns.len() ==> #[trigger] call_ensures(H::name, (&old(self).entries()[i].1,), ns[i]));
            assert(self.entries() == entries_not_named(old(self).entries(), ns, name@, ns.len() as int));
        }
        changed
    }

    /// The names of the hooks, in order.
    pub fn hook_names(&self) -> (r: Vec<String>)
        ensures
            r@.len() == self.entries().len(),
            forall|i: int| 0 <= i < r@.len() ==> #[trigger] call_ensures(H::name, (&self.entries()[i].1,), r@[i]),
    {
        let mut out: Vec<String> = Vec::new();
        let mut i: usize = 0;
        while i < self.hooks.len()
            invariant
                i <= self.hooks@.len(),
                out@.len() == i,
                forall|j: int| 0 <= j < i ==> #[trigger] call_ensures(H::name, (&self.hooks@[j].1,), out@[j]),
            decreases self.hooks@.len() - i,
        {
            out.push(self.hooks[i].1.name());
            i = i + 1;
        }
        out
    }

    /// The hooks, in order.
    pub fn hooks(&self) -> (r: Vec<&H>)
        ensures
            r@.len() == self.entries().len(),
            forall|i: int| 0 <= i < r@.len() ==> *r@[i] == self.entries()[i].1,
    {
        let mut out: Vec<&H> = Vec::new();
        let mut i: usize = 0;
        while i < self.hooks.len()
            invariant
                i <= self.hooks@.len(),
                out@.len() == i,
                forall|j: int| 0 <= j < i ==> *out@[j] == self.hooks@[j].1,
            decreases self.hooks@.len() - i,
        {
            out.push(&self.hooks[i].1);
            i = i + 1;
        }
        out
    }

    pub fn is_empty(&self) -> (r: bool)
        ensures
            r == (self.entries().len() == 0),
    {
        self.hooks.len() == 0
    }

    pub fn len(&self) -> (r: usize)
        ensures
            r == self.entries().len(),
    {
        self.hooks.len()
    }
}

/// Whether a hook takes events at all.
pub fn hook_should_run(config: &HookConfig) -> (r: bool)
    ensures
        r == config.enabled,
{
    config.enabled
}

/// What a hook's outcome does to the rest: a failure of a hook that does not
/// let the others go on ends the round with its error.
pub fn emit_outcome(config: &HookConfig, result: Result<(), HookError>) -> (r: Option<HookError>)
    ensures
        match result {
            Ok(()) => r is None,
            Err(e) => if config.fail_continue { r is None } else { r == Some(e) },
        },
{
    match result {
        Ok(()) => None,
        Err(e) => {
            if config.fail_continue {
                None
            } else {
                Some(e)
            }
        },
    }
}

/// The context after a suggestion is applied: a message is added to the
/// conversation, a layer's data replaced when there is a layer of that name.
pub open spec fn suggestion_applied(ls: Seq<LayerView>, event: AgentEvent) -> Seq<LayerView> {
    match event {
        AgentEvent::SuggestAddMessage { message } => with_message(ls, message@),
        AgentEvent::SuggestUpdateLayer { name, data } => match first_named(ls, name@) {
            Some(i) => ls.update(i, LayerView { data: data@, ..ls[i] }),
            None => ls,
        },
        AgentEvent::ActorEvent(_) => ls,
    }
}

/// A hook that applies the context changes the agent suggests.
pub struct ContextUpdateHook<C> {
    pub name: String,
    pub config: HookConfig,
    pub context: C,
}

impl<C> ContextUpdateHook<C> {
    pub fn new(context: C) -> (r: ContextUpdateHook<C>)
        ensures
            r.name@ == "context_update"@,
            r.config == (HookConfig { priority: 1000, fail_continue: false, enabled: true }),
            r.context == context,
    {
        ContextUpdateHook {
            name: String::from_str("context_update"),
            config: HookConfig { priority: 1000, fail_continue: false, enabled: true },
            context,
        }
    }

    pub fn with_priority(self, priority: u32) -> (r: ContextUpdateHook<C>)
        ensures
            r.name@ == self.name@,
            r.config == (HookConfig { priority, ..self.config }),
            r.context == self.context,
    {
        let mut h = self;
        h.config.priority = priority;
        h
    }
}

impl<C> AgentHook for ContextUpdateHook<C> {
    fn name(&self) -> (r: String)
        ensures
            r@ == self.name@,
    {
        self.name.clone()
    }

    fn config(&self) -> (r: HookConfig)
        ensures
            r == self.config,
    {
        self.config
    }
}

/// Applies a suggested change to `context`; see `suggestion_applied`.
pub fn apply_suggestion(context: &mut Context, event: &AgentEvent)
    ensures
        final(context)@ == suggestion_applied(old(context)@, *event),
{
    match event {
        AgentEvent::SuggestAddMessage { message } => context.add_message(message.clone()),
        AgentEvent::SuggestUpdateLayer { name, data } => context.set_layer_data(name.as_str(), data.clone()),
        AgentEvent::ActorEvent(_) => {},
    }
}

/// A hook that prints every event under a prefix.
pub struct LoggingHook {
    pub name: String,
    pub config: HookConfig,
    pub prefix: String,
}

impl LoggingHook {
    pub fn new(prefix: &str) -> (r: LoggingHook)
        ensures
            r.name@ == "logging"@,
            r.config == (HookConfig { priority: 0, fail_continue: true, enabled: true }),
            r.prefix@ == prefix@,
    {
        LoggingHook {
            name: String::from_str("logging"),
            config: HookConfig { priority: 0, fail_continue: true, enabled: true },
            prefix: String::from_str(prefix),
        }
    }

    pub fn with_priority(self, priority: u32) -> (r: LoggingHook)
        ensures
            r.name@ == self.name@,
            r.prefix@ == self.prefix@,
            r.config == (HookConfig { priority, ..self.config }),
    {
        let mut h = self;
        h.config.priority = priority;
        h
    }

    pub fn with_enabled(self, enabled: bool) -> (r: LoggingHook)
        ensures
            r.name@ == self.name@,
            r.prefix@ == self.prefix@,
            r.config == (HookConfig { enabled, ..self.config }),
    {
        let mut h = self;
        h.config.enabled = enabled;
        h
    }
}

impl AgentHook for LoggingHook {
    fn name(&self) -> (r: String)
        ensures
            r@ == self.name@,
    {
        self.name.clone()
    }

    fn config(&self) -> (r: HookConfig)
        ensures
            r == self.config,
    {
        self.config
    }
}

} // verus!
