use vstd::prelude::*;

use crate::context::conversation_of;
use crate::hooks::{hook_event_matches, hook_result_of, CallModelEvent, HookModelEvent, HookStepResult, StepResultDraft};
use crate::json::{copy_members, members_view, JsonValue};
use crate::message::{messages_view, opt_str};
use crate::reducer::{AgentState, JobState};

verus! {

/// The lowercase hexadecimal digit of `d`.
pub open spec fn hex_char(d: nat) -> char {
    if d < 10 { (('0' as nat) + d) as char } else { (('a' as nat) + d - 10) as char }
}

/// The last `n` hexadecimal digits of `v`, most significant first.
pub open spec fn hex_digits(v: nat, n: nat) -> Seq<char>
    decreases n,
{
    if n == 0 {
        Seq::empty()
    } else {
        hex_digits(v / 16, (n - 1) as nat).push(hex_char(v % 16))
    }
}

/// A 128-bit id in the hyphenated form: 32 lowercase hexadecimal digits in
/// groups of 8, 4, 4, 4 and 12.
pub open spec fn hyphenated(id: u128) -> Seq<char> {
    let d = hex_digits(id as nat, 32);
    d.subrange(0, 8) + "-"@ + d.subrange(8, 12) + "-"@ + d.subrange(12, 16) + "-"@ + d.subrange(16, 20) + "-"@
        + d.subrange(20, 32)
}

/// `uuid::Uuid::from_u128(id).to_string()`: the uuid's `Display` writes the
/// hyphenated lowercase form of the id's 128 bits, most significant first.
#[verifier::external_body]
fn uuid_text(id: u128) -> (r: String)
    ensures
        r@ == hyphenated(id),
{
    uuid::Uuid::from_u128(id).to_string()
}

/// What the hooks before a step see of the job.
#[derive(Debug)]
pub struct BeforeStepInput {
    pub job_id: u128,
    pub user_id: String,
    pub conversation_id: Option<String>,
    pub iteration: usize,
    pub max_iterations: usize,
    pub job_state: JobState,
    pub context_len: usize,
    pub metadata: Vec<(String, JsonValue)>,
}

impl BeforeStepInput {
    /// The job as it stands, with the step's metadata; the conversation's id
    /// in its hyphenated form.
    pub fn capture(state: &AgentState, metadata: &Vec<(String, JsonValue)>) -> (r: BeforeStepInput)
        ensures
            r.job_id == state.job_id,
            r.user_id@ == state.user_id@,
            opt_str(r.conversation_id) == match state.conversation_id {
                Some(id) => Some(hyphenated(id)),
                None => None,
            },
            r.iteration == state.iteration,
            r.max_iterations == state.max_iterations,
            r.job_state == state.state,
            r.context_len == conversation_of(state.context@).len(),
            members_view(r.metadata@) == members_view(metadata@),
    {
        let conversation = state.context.conversation();
        proof { assert(messages_view(conversation@).len() == conversation@.len()); }
        BeforeStepInput {
            job_id: state.job_id,
            user_id: state.user_id.clone(),
            conversation_id: match state.conversation_id {
                Some(id) => Some(uuid_text(id)),
                None => None,
            },
            iteration: state.iteration,
            max_iterations: state.max_iterations,
            job_state: state.state,
            context_len: conversation.len(),
            metadata: copy_members(metadata),
        }
    }
}

/// What the hooks after a step see: the job, the step's result and its
/// metadata.
#[derive(Debug)]
pub struct AfterStepInput {
    pub job_id: u128,
    pub iteration: usize,
    pub job_state: JobState,
    pub result: HookStepResult,
    pub metadata: Vec<(String, JsonValue)>,
}

impl AfterStepInput {
    pub fn capture(state: &AgentState, result: &StepResultDraft, metadata: &Vec<(String, JsonValue)>) -> (r: AfterStepInput)
        ensures
            r.job_id == state.job_id,
            r.iteration == state.iteration,
            r.job_state == state.state,
            r.result@ == hook_result_of(result@),
            members_view(r.metadata@) == members_view(metadata@),
    {
        AfterStepInput {
            job_id: state.job_id,
            iteration: state.iteration,
            job_state: state.state,
            result: HookStepResult::from_draft(result),
            metadata: copy_members(metadata),
        }
    }
}

/// What the hooks on a model event see: the job, the event and the step's
/// metadata.
#[derive(Debug)]
pub struct ModelEventInput {
    pub job_id: u128,
    pub iteration: usize,
    pub event: HookModelEvent,
    pub metadata: Vec<(String, JsonValue)>,
}

impl ModelEventInput {
    pub fn capture(state: &AgentState, event: &CallModelEvent, metadata: &Vec<(String, JsonValue)>) -> (r: ModelEventInput)
        ensures
            r.job_id == state.job_id,
            r.iteration == state.iteration,
            members_view(r.metadata@) == members_view(metadata@),
            hook_event_matches(*event, r.event),
    {
        ModelEventInput {
            job_id: state.job_id,
            iteration: state.iteration,
            event: HookModelEvent::from_event(event),
            metadata: copy_members(metadata),
        }
    }
}

} // verus!
