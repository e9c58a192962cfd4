//! Verified core of the LocalFragNote desktop backend: tool and skill
//! configuration rules, the workspace registry, the agent-side helpers and
//! the small text formats they rely on.

pub mod error;
pub mod text;
pub mod tool;
pub mod skill;
pub mod builtin_skills;
pub mod clock;
pub mod workspace;
pub mod commands;
pub mod pending_confirmations;
pub mod agent_loop;
pub mod ai_tools;
pub mod mcp;
pub mod lan;
pub mod officecli_watch;
pub mod mcp_prompts;
pub mod shutdown;
