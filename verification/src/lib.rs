pub mod json;
pub mod message;
pub mod stream;
pub mod codec;
pub mod context;
pub mod text;
pub mod money;
pub mod reducer;
pub mod memory;
pub mod models;
pub mod compress;
pub mod hooks;
pub mod agent_hook;
pub mod lifecycle;
pub mod markdown;
pub mod sse;
pub mod step;
pub mod agent_run;
pub mod memory_tools;
pub mod actor_loop;
pub mod actor;
pub mod agent_executor;
pub mod web_agent;
pub mod window;
pub mod hook_inputs;
pub mod providers;
pub mod memos;
pub mod runner;
