//! Self-improvement: prompts that must score no worse on a fixed benchmark,
//! and source edits that must still build.
pub mod prompt_evolve;
pub mod self_modify;
