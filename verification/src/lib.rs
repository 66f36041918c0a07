//! Declarative descriptions of test environments (directories, git
//! repositories, tmux sessions) and the pure logic of the testers that drive
//! terminal applications inside them.

pub mod changes;
pub mod color;
pub mod command;
pub mod context;
pub mod error;
pub mod git_builders;
pub mod ids;
pub mod parse;
pub mod queries;
pub mod paths;
pub mod registry;
pub mod remote;
pub mod run_shell;
pub mod repo;
pub mod terminal;
pub mod testers;
pub mod text;
pub mod text_match;
pub mod tmux;
pub mod tmux_builders;
pub mod tree_builders;
