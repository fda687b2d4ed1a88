use vstd::prelude::*;

use crate::agent_run::{run_error_text, AgentError};
use crate::json::{decimal, decimal_string, lemma_members_view, members_view, JsonValue, JsonView};
use crate::message::{messages_view, tool_error_text, Message, MessageView, ToolDef, ToolDefView, ToolErrorView, ToolExecutorError};
use crate::memory_tools::{arg_value, array_value, jstr, object1, object3, reply_view, str_value};
use crate::text::{concat2, concat3};

verus! {

/// Why a web task failed.
#[derive(Debug)]
pub enum WebAgentError {
    Agent(AgentError),
    Tool(ToolExecutorError),
}

pub open spec fn web_error_text(e: WebAgentError) -> Seq<char> {
    match e {
        WebAgentError::Agent(a) => "Agent error: "@ + run_error_text(a),
        WebAgentError::Tool(t) => "Tool executor error: "@ + tool_error_text(t@),
    }
}

impl WebAgentError {
    /// The text of this error, as its `Display` writes it.
    pub fn to_text(&self) -> (r: String)
        ensures
            r@ == web_error_text(*self),
    {
        match self {
            WebAgentError::Agent(a) => {
                let t = a.to_text();
                concat2("Agent error: ", t.as_str())
            },
            WebAgentError::Tool(t) => {
                let s = t.to_text();
                concat2("Tool executor error: ", s.as_str())
            },
        }
    }
}

impl From<AgentError> for WebAgentError {
    fn from(e: AgentError) -> (r: WebAgentError) {
        WebAgentError::Agent(e)
    }
}

impl vstd::std_specs::convert::FromSpecImpl<AgentError> for WebAgentError {
    open spec fn obeys_from_spec() -> bool {
        true
    }

    open spec fn from_spec(v: AgentError) -> WebAgentError {
        WebAgentError::Agent(v)
    }
}

impl From<ToolExecutorError> for WebAgentError {
    fn from(e: ToolExecutorError) -> (r: WebAgentError) {
        WebAgentError::Tool(e)
    }
}

impl vstd::std_specs::convert::FromSpecImpl<ToolExecutorError> for WebAgentError {
    open spec fn obeys_from_spec() -> bool {
        true
    }

    open spec fn from_spec(v: ToolExecutorError) -> WebAgentError {
        WebAgentError::Tool(v)
    }
}

/// The instructions a web task runs under.
pub open spec fn web_system_prompt() -> Seq<char> {
    "You are a capable web browsing agent that can interact with websites using the playwright_cli tool.\n\nYour workflow:\n1. Understand the user's task\n2. Use playwright_cli commands to navigate and interact with web pages\n3. Extract relevant information\n4. Provide a helpful response to the user\n\nGuidelines:\n- ALWAYS use playwright_cli to interact with browsers - do not make up information\n- Break complex tasks into multiple steps\n- After gathering information, provide a comprehensive summary to the user"@
}

/// The messages a web task starts with: the instructions, then the task.
pub fn task_messages(task_description: &str) -> (r: Vec<Message>)
    ensures
        messages_view(r@) == seq![
            MessageView::System { content: web_system_prompt() },
            MessageView::User { content: task_description@ },
        ],
{
    let mut out: Vec<Message> = Vec::new();
    out.push(Message::system(
        "You are a capable web browsing agent that can interact with websites using the playwright_cli tool.\n\nYour workflow:\n1. Understand the user's task\n2. Use playwright_cli commands to navigate and interact with web pages\n3. Extract relevant information\n4. Provide a helpful response to the user\n\nGuidelines:\n- ALWAYS use playwright_cli to interact with browsers - do not make up information\n- Break complex tasks into multiple steps\n- After gathering information, provide a comprehensive summary to the user",
    ));
    out.push(Message::user(task_description));
    proof { assert(messages_view(out@) =~= seq![out@[0]@, out@[1]@]); }
    out
}

/// The answer of a finished task: the last assistant message that says
/// something; `None` when there is none.
pub open spec fn last_answer(ms: Seq<MessageView>) -> Option<Seq<char>>
    decreases ms.len(),
{
    if ms.len() == 0 {
        None
    } else {
        match ms.last() {
            MessageView::Assistant { content, .. } => if content.len() > 0 {
                Some(content)
            } else {
                last_answer(ms.drop_last())
            },
            _ => last_answer(ms.drop_last()),
        }
    }
}

/// The answer of a finished task; see `last_answer`. Without one, the task
/// answers that none was generated.
pub fn final_response(messages: &Vec<Message>) -> (r: String)
    ensures
        r@ == match last_answer(messages_view(messages@)) {
            Some(c) => c,
            None => "No response generated"@,
        },
{
    let mut i: usize = messages.len();
    proof { assert(messages@.take(i as int) =~= messages@); }
    while i > 0
        invariant
            i <= messages@.len(),
            last_answer(messages_view(messages@)) == last_answer(messages_view(messages@.take(i as int))),
        decreases i,
    {
        let ghost pre = messages@.take(i as int);
        proof {
            assert(messages_view(pre).drop_last() =~= messages_view(messages@.take(i - 1)));
            assert(messages_view(pre).last() == messages@[i - 1]@);
        }
        match &messages[i - 1] {
            Message::Assistant { content, .. } => {
                if content.as_str().unicode_len() > 0 {
                    return content.clone();
                }
            },
            _ => {},
        }
        i = i - 1;
    }
    proof {
        assert(messages_view(messages@.take(0)) =~= Seq::<MessageView>::empty());
    }
    String::from_str("No response generated")
}

// ---------------------------------------------------------------------------
// The playwright-cli tool
// ---------------------------------------------------------------------------

pub open spec fn playwright_args_description() -> Seq<char> {
    "Arguments to pass to playwright-cli, e.g., [\"--help\"], [\"open\", \"https://example.com\"]"@
}

pub open spec fn playwright_cli_def() -> ToolDefView {
    ToolDefView {
        name: "playwright_cli"@,
        description: "Execute any playwright-cli command. Use 'playwright_cli --help' to see all available commands."@,
        parameters: JsonView::Object(seq![
            ("properties"@, JsonView::Object(seq![
                ("args"@, JsonView::Object(seq![
                    ("description"@, jstr(playwright_args_description())),
                    ("items"@, JsonView::Object(seq![("type"@, jstr("string"@))])),
                    ("type"@, jstr("array"@)),
                ])),
            ])),
            ("required"@, JsonView::Array(seq![jstr("args"@)])),
            ("type"@, jstr("object"@)),
        ]),
    }
}

/// The arguments a command is run with: the strings of the `args` array,
/// an empty string for any item that is not one.
pub open spec fn cli_args(args: JsonView) -> Result<Seq<Seq<char>>, ToolErrorView> {
    match arg_value(args, "args"@) {
        Some(JsonView::Array(items)) => Ok(items.map_values(|v: JsonView| match v {
            JsonView::Str(s) => s,
            _ => Seq::empty(),
        })),
        _ => Err(ToolErrorView::ExecutionError("Missing or invalid 'args' parameter"@)),
    }
}

/// The texts of some strings.
pub open spec fn strings_view(s: Seq<String>) -> Seq<Seq<char>> {
    s.map_values(|x: String| x@)
}

/// The signed decimal text of `n`.
pub open spec fn signed_decimal(n: int) -> Seq<char> {
    if n < 0 { "-"@ + decimal((-n) as nat) } else { decimal(n as nat) }
}

/// An exit code as `{:?}` writes an `Option<i32>`.
pub open spec fn exit_code_text(code: Option<i32>) -> Seq<char> {
    match code {
        Some(c) => "Some("@ + signed_decimal(c as int) + ")"@,
        None => "None"@,
    }
}

/// What a command printed: its output, then its error output after a blank
/// line and a heading when there is any.
pub open spec fn combined_output(stdout: Seq<char>, stderr: Seq<char>) -> Seq<char> {
    if stderr.len() == 0 {
        stdout
    } else if stdout.len() == 0 {
        "stderr:\n"@ + stderr
    } else {
        stdout + "\n\n"@ + "stderr:\n"@ + stderr
    }
}

/// The outcome of a finished command: what it printed when it succeeded,
/// otherwise a failure with its exit code and what it printed.
pub open spec fn command_outcome(stdout: Seq<char>, stderr: Seq<char>, success: bool, code: Option<i32>) -> Result<Seq<char>, ToolErrorView> {
    if success {
        Ok(combined_output(stdout, stderr))
    } else {
        Err(ToolErrorView::ExecutionError(
            "playwright-cli exited with code "@ + exit_code_text(code) + ":\n"@ + combined_output(stdout, stderr),
        ))
    }
}

fn signed_decimal_string(n: i32) -> (r: String)
    ensures
        r@ == signed_decimal(n as int),
{
    if n < 0 {
        let m: i64 = -(n as i64);
        let d = decimal_string(m as u64);
        concat2("-", d.as_str())
    } else {
        decimal_string(n as u64)
    }
}

/// Runs the `playwright-cli` command of a browsing agent.
#[derive(Debug)]
pub struct PlaywrightCliTool {
    definition: ToolDef,
}

impl Default for PlaywrightCliTool {
    fn default() -> (r: PlaywrightCliTool)
        ensures
            r.def_of() == playwright_cli_def(),
    {
        PlaywrightCliTool::new()
    }
}

impl PlaywrightCliTool {
    pub closed spec fn def_of(&self) -> ToolDefView {
        self.definition@
    }

    pub fn new() -> (r: PlaywrightCliTool)
        ensures
            r.def_of() == playwright_cli_def(),
    {
        let items = object1("type", str_value("string"));
        let args = object3(
            "description",
            str_value("Arguments to pass to playwright-cli, e.g., [\"--help\"], [\"open\", \"https://example.com\"]"),
            "items",
            items,
            "type",
            str_value("array"),
        );
        let properties = object1("args", args);
        let names = vec![str_value("args")];
        proof { assert(names@.map_values(|v: JsonValue| v@) =~= seq![jstr("args"@)]); }
        let required = array_value(names);
        let parameters = object3("properties", properties, "required", required, "type", str_value("object"));
        PlaywrightCliTool {
            definition: ToolDef {
                name: String::from_str("playwright_cli"),
                description: String::from_str(
                    "Execute any playwright-cli command. Use 'playwright_cli --help' to see all available commands.",
                ),
                parameters,
            },
        }
    }

    pub fn definition(&self) -> (r: &ToolDef)
        ensures
            r@ == self.def_of(),
    {
        &self.definition
    }

    /// The arguments a call gives; see `cli_args`.
    pub fn arguments(arguments: &JsonValue) -> (r: Result<Vec<String>, ToolExecutorError>)
        ensures
            match r {
                Ok(v) => cli_args(arguments@) == Ok::<Seq<Seq<char>>, ToolErrorView>(strings_view(v@)),
                Err(e) => cli_args(arguments@) == Err::<Seq<Seq<char>>, ToolErrorView>(e@),
            },
    {
        let items = match arguments {
            JsonValue::Object(ms) => match crate::json::find_member(ms, "args") {
                Some(i) => match &ms[i].1 {
                    JsonValue::Array(items) => Some(items),
                    _ => None,
                },
                None => None,
            },
            _ => None,
        };
        match items {
            None => Err(ToolExecutorError::ExecutionError(String::from_str("Missing or invalid 'args' parameter"))),
            Some(items) => {
                let ghost iv = crate::json::json_seq_view(items@);
                proof { crate::json::lemma_json_seq_view(items@); }
                let mut out: Vec<String> = Vec::new();
                let mut i: usize = 0;
                while i < items.len()
                    invariant
                        i <= items@.len(),
                        iv == crate::json::json_seq_view(items@),
                        iv.len() == items@.len(),
                        forall|j: int| 0 <= j < items@.len() ==> #[trigger] iv[j] == items@[j]@,
                        out@.len() == i,
                        forall|j: int| 0 <= j < i ==> (#[trigger] out@[j])@ == match iv[j] {
                            JsonView::Str(s) => s,
                            _ => Seq::<char>::empty(),
                        },
                    decreases items@.len() - i,
                {
                    let s = match &items[i] {
                        JsonValue::Str(s) => s.clone(),
                        _ => String::new(),
                    };
                    out.push(s);
                    i = i + 1;
                }
                proof {
                    assert(strings_view(out@) =~= iv.map_values(|v: JsonView| match v {
                        JsonView::Str(s) => s,
                        _ => Seq::empty(),
                    }));
                }
                Ok(out)
            },
        }
    }

    /// The program and its arguments: on Windows through PowerShell.
    pub fn command_line(args: &Vec<String>, windows: bool) -> (r: (String, Vec<String>))
        ensures
            windows ==> r.0@ == "powershell.exe"@ && strings_view(r.1@) == seq!["-Command"@, "playwright-cli"@]
                + strings_view(args@),
            !windows ==> r.0@ == "playwright-cli"@ && strings_view(r.1@) == strings_view(args@),
    {
        let mut out: Vec<String> = Vec::new();
        if windows {
            out.push(String::from_str("-Command"));
            out.push(String::from_str("playwright-cli"));
        }
        let ghost start = strings_view(out@);
        let base = out.len();
        let mut i: usize = 0;
        while i < args.len()
            invariant
                i <= args@.len(),
                base == start.len(),
                out@.len() == base + i,
                forall|j: int| 0 <= j < base ==> (#[trigger] out@[j])@ == start[j],
                forall|j: int| 0 <= j < i ==> (#[trigger] out@[base + j])@ == args@[j]@,
            decreases args@.len() - i,
        {
            out.push(args[i].clone());
            i = i + 1;
        }
        proof {
            assert forall|j: int| 0 <= j < out@.len() implies #[trigger] strings_view(out@)[j]
                == (start + strings_view(args@))[j] by {
                if j >= base {
                    assert(out@[base + (j - base)]@ == args@[j - base]@);
                }
            }
            assert(strings_view(out@) =~= start + strings_view(args@));
            if windows {
                assert(start =~= seq!["-Command"@, "playwright-cli"@]);
            } else {
                assert(start =~= Seq::<Seq<char>>::empty());
            }
        }
        if windows {
            (String::from_str("powershell.exe"), out)
        } else {
            (String::from_str("playwright-cli"), out)
        }
    }

    /// The error of a command that could not be started.
    pub fn launch_error(not_found: bool, detail: &str) -> (r: ToolExecutorError)
        ensures
            not_found ==> r@ == ToolErrorView::ExecutionError(
                "playwright-cli not found. Please install it with: npm install -g @playwright/cli@latest"@,
            ),
            !not_found ==> r@ == ToolErrorView::ExecutionError("Failed to execute playwright-cli: "@ + detail@),
    {
        if not_found {
            ToolExecutorError::ExecutionError(String::from_str(
                "playwright-cli not found. Please install it with: npm install -g @playwright/cli@latest",
            ))
        } else {
            ToolExecutorError::ExecutionError(concat2("Failed to execute playwright-cli: ", detail))
        }
    }

    /// The outcome of a finished command; see `command_outcome`.
    pub fn command_result(stdout: &str, stderr: &str, success: bool, code: Option<i32>) -> (r: Result<String, ToolExecutorError>)
        ensures
            match r {
                Ok(s) => command_outcome(stdout@, stderr@, success, code) == Ok::<Seq<char>, ToolErrorView>(s@),
                Err(e) => command_outcome(stdout@, stderr@, success, code) == Err::<Seq<char>, ToolErrorView>(e@),
            },
    {
        let mut result = String::from_str(stdout);
        if stderr.unicode_len() > 0 {
            if result.as_str().unicode_len() > 0 {
                result.append("\n\n");
            }
            result.append("stderr:\n");
            result.append(stderr);
        }
        proof {
            assert(result@ =~= combined_output(stdout@, stderr@));
        }
        if !success {
            let code_text = match code {
                Some(c) => {
                    let d = signed_decimal_string(c);
                    concat3("Some(", d.as_str(), ")")
                },
                None => String::from_str("None"),
            };
            let mut m = concat3("playwright-cli exited with code ", code_text.as_str(), ":\n");
            m.append(result.as_str());
            return Err(ToolExecutorError::ExecutionError(m));
        }
        Ok(result)
    }

    /// The reply with what a command printed: `{"stdout": output}`.
    pub fn reply(output: String) -> (r: Result<JsonValue, ToolExecutorError>)
        ensures
            reply_view(r) == Ok::<JsonView, ToolErrorView>(JsonView::Object(seq![("stdout"@, jstr(output@))])),
    {
        let mut ms: Vec<(String, JsonValue)> = Vec::new();
        ms.push((String::from_str("stdout"), JsonValue::Str(output)));
        proof {
            lemma_members_view(ms@);
            assert(members_view(ms@) =~= seq![("stdout"@, ms@[0].1@)]);
        }
        Ok(JsonValue::Object(ms))
    }
}

} // verus!
