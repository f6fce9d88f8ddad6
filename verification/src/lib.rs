//! Verified core of an interactive shell for inspecting actor systems: command parsing, tab
//! completion, configuration, trace subscriptions and monitoring state.

pub mod buffer;
pub mod cluster;
pub mod commands;
pub mod completer;
pub mod completer_custom;
pub mod config;
pub mod error;
pub mod help;
pub mod introspection;
pub mod messaging;
pub mod monitor;
pub mod protocol;
pub mod schema;
pub mod script;
pub mod session;
pub mod text;
pub mod time;
pub mod trace;

pub use commands::{resolve_alias, ShellCommand};
pub use error::{ShellError, ShellResult};
pub use trace::should_display_level;
