//! Verified core of a supervisor that multiplexes workspaces onto coding-agent
//! sessions: request correlation and message routing for each session, workspace
//! and worktree records, path rules, and the control plane's request handling.

pub mod account;
pub mod assoc;
pub mod attachments;
pub mod background;
pub mod control;
pub mod daemon;
pub mod json;
pub mod launch;
pub mod paths;
pub mod protocol;
pub mod registry;
pub mod rpc;
pub mod run_name;
pub mod session;
pub mod text;
pub mod thread_list;
pub mod worktree;
