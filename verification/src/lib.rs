//! Verified core of a terminal multiplexer front-end that manages trees of
//! coding agents: agent storage, window bookkeeping, git flow decisions,
//! preview state and the text handling they rest on.

pub mod text;
pub mod agent;
pub mod mux;
pub mod state;
pub mod data;
pub mod git_ops;
pub mod git_flows;
pub mod window;
pub mod sync;
pub mod preview;
pub mod actions;
pub mod event;
pub mod ids;
pub mod swarm;
pub mod synthesis;
pub mod lifecycle;
pub mod broadcast;
pub mod palette;
pub mod review_flow;
pub mod rename_flow;
pub mod merge_flow;
pub mod laws;
