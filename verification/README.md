# agent

A library for running LLM agents — conversations, tool calls, hooks,
context compression and memory tools — whose logic is written in Verus and
proved against its contracts.

## Layout

- `src/` — the verified library.
  - `json`, `message`, `codec`, `text`: JSON values, chat messages and their
    JSON encoding, text helpers.
  - `context`: the layered context of a job and its conversation.
  - `reducer`, `money`: a job's state machine and its budget.
  - `stream`, `sse`: merging streamed tool-call pieces, server-sent events,
    API error replies.
  - `models`: model and provider registries, replies and stream chunks.
  - `providers`: chat-completion requests and their JSON body, reading
    responses, chunks and images back, and provider settings.
  - `compress`: rule-based and summary-based context compression.
  - `hooks`, `hook_inputs`, `agent_hook`, `lifecycle`: hook effects, what hooks
    see, hook registries and the built-in hooks.
  - `step`, `agent_run`, `actor`, `actor_loop`, `agent_executor`: the step,
    run and loop machines; each turns what its caller reports into what the
    caller does next.
  - `memory`, `memory_tools`, `window`, `markdown`, `memos`: memory store
    types, the memory and file tools, sliding windows, Markdown transcripts
    and memos written to and read from Markdown.
  - `web_agent`: the browsing agent's prompt, answer and command-line tool.
- `app/` — the runtime around it: asynchronous traits for models and tools,
  the HTTP side of providers, the drivers of the machines, and what needs
  floating point or the clock.
- `tests/` — tests of the library.

## Name-keyed tables

The model registries (providers by model name) and the hook metadata are
vectors of `(name, value)` pairs whose names are kept distinct, not hash
maps keyed by `String`. vstd specifies `HashMap` only for key types that it
knows to obey its key model, and `String` is not one of them: the only way
to use it would be to assume that it does, which this crate does not
do. Lookups and insertions over the pairs are proved instead.
