pub mod text;
pub mod bash_risk;
pub mod config;
pub mod bash_approval_policy;
pub mod bash_approval_gate;
pub mod api;
pub mod context;
pub mod tool_result_processor;
pub mod streaming;
pub mod trace;
pub mod json;
pub mod sub_agent;
pub mod console;
pub mod context_usage;
pub mod client;
pub mod bash_runner;
pub mod trace_file;
pub mod cli_observer;
pub mod mcp;
pub mod memory_tool;
pub mod trace_store;
pub mod trace_compaction;
pub mod tool_registry;
pub mod agent;
pub mod agent_trace;
pub mod conversation_store;
pub mod server;
pub mod bash_model_classifier;
pub mod frontend_assets;
pub mod debug;
pub mod tools;
pub mod local_tools;
