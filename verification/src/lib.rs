//! Decision logic of a role-based coding agent: tool-permission gating,
//! shell-command classification, intent routing, rule escalation, skill
//! matching, two-stage review verdicts and the REPL command grammar.
use vstd::prelude::*;

pub mod text;
pub mod unicode;
pub mod tools;
pub mod registry;
pub mod json;
pub mod agent_loop;
pub mod memory;
pub mod reviewer;
pub mod skills;
pub mod evolution;
pub mod repl;
