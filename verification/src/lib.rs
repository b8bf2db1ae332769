//! Agent-side building blocks: resilience (circuit breakers), code diffs,
//! test-output analysis, planning heuristics, personalities and media types.
//!
//! Every module is written in Verus; the public functions carry contracts
//! over mathematical models (sequences of characters, maps and integers).
pub mod text;

pub mod circuit_breaker;
pub mod diff_lines;
pub mod diff_script;
pub mod diff_model;
pub mod diff_hunks;
pub mod diff_engine;
pub mod diff_laws;
pub mod diff_text;
pub mod diff_plan;
pub mod diff_parse;
pub mod diff_validate;
pub mod voice;
pub mod vision_backends;
pub mod identity;
pub mod test_oracle;
pub mod adaptive_memory;
pub mod code_planner;
pub mod plan_graph;
pub mod plan_files;
pub mod plan_finish;
pub mod plan_build;
pub mod plan_text;
pub mod template_render;
pub mod prompt_store;
pub mod prompt_manager;
pub mod prompt_laws;
pub mod debug_recorder;
pub mod cost_complexity;
pub mod structured_output;
pub mod evaluation;
pub mod react;
pub mod gemini;
pub mod diff_roundtrip;
pub mod agent_loop;
pub mod gemini_stream;
pub mod diff_minimal;
