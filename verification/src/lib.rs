//! Decisions behind a Codex session bridge: which context limit a session runs with, how goals and
//! queued input change, how app-server frames are routed, and which client tools may run.

mod clock;
pub mod context_policy;
pub mod context_reload;
pub mod context_window;
pub mod correlation;
pub mod current_time;
pub mod dynamic_tools;
pub mod error;
pub mod frames;
pub mod goal_admission;
pub mod goal_commands;
pub mod goals_queue;
pub mod graph;
pub mod inbox;
pub mod json;
pub mod mcp_forms;
pub mod model;
pub mod native_goals;
pub mod native_services;
pub mod parts;
pub mod patterns;
pub mod protocol;
pub mod queue_state;
pub mod references;
pub mod schema;
pub mod schema_shape;
pub mod schema_walk;
pub mod session;
pub mod steady;
pub mod stderr;
pub mod table;
pub mod text;
pub mod tool_calls;
pub mod tool_runs;
