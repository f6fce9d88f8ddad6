//! Shell settings read from `~/.ractor_shell.toml`, and their defaults.

use core::time::Duration;

use vstd::prelude::*;

verus! {

/// Default RPC timeout in seconds.
pub const DEFAULT_RPC_TIMEOUT_SECS: u64 = 5;

/// Default port of the local node server used for cluster participation.
pub const DEFAULT_NODE_SERVER_PORT: u16 = 9100;

/// Default cluster authentication cookie.
pub const DEFAULT_CLUSTER_COOKIE: &'static str = "secret_cookie";

/// Default maximum number of history entries.
pub const DEFAULT_MAX_HISTORY: usize = 1000;

/// The duration of `secs` whole seconds, as `Duration::from_secs` builds it.
pub uninterp spec fn seconds(secs: u64) -> Duration;

/// std's `Duration::from_secs`; the value is named by [`seconds`].
#[verifier::external_body]
fn duration_from_secs(secs: u64) -> (d: Duration)
    ensures
        d == seconds(secs),
{
    Duration::from_secs(secs)
}

/// Default timeout for RPC calls.
pub fn default_rpc_timeout() -> (d: Duration)
    ensures
        d == seconds(DEFAULT_RPC_TIMEOUT_SECS),
{
    duration_from_secs(DEFAULT_RPC_TIMEOUT_SECS)
}

/// Shell configuration loaded from file.
#[derive(Debug, Clone)]
pub struct ShellConfig {
    /// RPC timeout in seconds
    pub rpc_timeout_secs: Option<u64>,
    /// Default node server port
    pub node_server_port: Option<u16>,
    /// Cluster authentication cookie
    pub cluster_cookie: Option<String>,
    /// Auto-connect to this node on startup
    pub auto_connect: Option<String>,
    /// History file location
    pub history_file: Option<String>,
    /// Maximum history entries
    pub max_history: Option<usize>,
    /// Color mode: "auto", "always", or "never"
    pub color: Option<String>,
}

impl ShellConfig {
    /// No setting is given.
    pub open spec fn is_empty(self) -> bool {
        &&& self.rpc_timeout_secs is None
        &&& self.node_server_port is None
        &&& self.cluster_cookie is None
        &&& self.auto_connect is None
        &&& self.history_file is None
        &&& self.max_history is None
        &&& self.color is None
    }
}

impl Default for ShellConfig {
    fn default() -> (c: Self)
        ensures
            c.is_empty(),
    {
        ShellConfig {
            rpc_timeout_secs: None,
            node_server_port: None,
            cluster_cookie: None,
            auto_connect: None,
            history_file: None,
            max_history: None,
            color: None,
        }
    }
}

impl ShellConfig {
    /// The configuration to use, given what was read from the configuration file: that, if the
    /// file was found and parsed, else the default configuration.
    pub fn load(found: Option<Self>) -> (c: Self)
        ensures
            match found {
                Some(f) => c == f,
                None => c.is_empty(),
            },
    {
        match found {
            Some(f) => f,
            None => Self::default(),
        }
    }

    /// Get the RPC timeout duration (default: 5 seconds).
    pub fn rpc_timeout(&self) -> (d: Duration)
        ensures
            d == seconds(
                match self.rpc_timeout_secs {
                    Some(s) => s,
                    None => DEFAULT_RPC_TIMEOUT_SECS,
                },
            ),
    {
        let secs = match self.rpc_timeout_secs {
            Some(s) => s,
            None => DEFAULT_RPC_TIMEOUT_SECS,
        };
        duration_from_secs(secs)
    }

    /// Get the node server port (default: 9100).
    pub fn get_node_server_port(&self) -> (p: u16)
        ensures
            p == match self.node_server_port {
                Some(p) => p,
                None => DEFAULT_NODE_SERVER_PORT,
            },
    {
        match self.node_server_port {
            Some(p) => p,
            None => DEFAULT_NODE_SERVER_PORT,
        }
    }

    /// Get the cluster cookie (default: "secret_cookie").
    pub fn get_cluster_cookie(&self) -> (c: &str)
        ensures
            c@ == match self.cluster_cookie {
                Some(s) => s@,
                None => DEFAULT_CLUSTER_COOKIE@,
            },
    {
        match &self.cluster_cookie {
            Some(s) => s.as_str(),
            None => DEFAULT_CLUSTER_COOKIE,
        }
    }

    /// Get the maximum history entries (default: 1000).
    pub fn get_max_history(&self) -> (m: usize)
        ensures
            m == match self.max_history {
                Some(m) => m,
                None => DEFAULT_MAX_HISTORY,
            },
    {
        match self.max_history {
            Some(m) => m,
            None => DEFAULT_MAX_HISTORY,
        }
    }

    /// Get the color mode setting: `Some(true)` for "always", `Some(false)` for "never", and
    /// `None` otherwise ("auto" or unset), which leaves the choice to the command line.
    pub fn get_color_enabled(&self) -> (c: Option<bool>)
        ensures
            c == match self.color {
                Some(s) => if s@ == "always"@ {
                    Some(true)
                } else if s@ == "never"@ {
                    Some(false)
                } else {
                    None
                },
                None => None,
            },
    {
        match &self.color {
            Some(s) => if crate::text::str_eq(s.as_str(), "always") {
                Some(true)
            } else if crate::text::str_eq(s.as_str(), "never") {
                Some(false)
            } else {
                None
            },
            None => None,
        }
    }

    /// The content of a sample configuration file.
    pub fn sample_config() -> (s: &'static str)
        ensures
            s == SAMPLE_CONFIG,
    {
        SAMPLE_CONFIG
    }
}

/// A sample configuration file, with every setting commented out at its default.
pub const SAMPLE_CONFIG: &'static str = "# Ractor Shell Configuration
# Place this file at ~/.ractor_shell.toml

# RPC timeout in seconds (default: 5)
# rpc_timeout_secs = 5

# Default node server port when connecting to remote nodes (default: 9100)
# node_server_port = 9100

# Cluster authentication cookie (default: \"secret_cookie\")
# cluster_cookie = \"my_secret_cookie\"

# Auto-connect to a node on startup
# auto_connect = \"127.0.0.1:9002\"

# Color output: \"auto\", \"always\", or \"never\" (default: \"auto\")
# color = \"auto\"

# History file location (default: ~/.ractor_shell_history)
# history_file = \"/custom/path/history\"

# Maximum history entries (default: 1000)
# max_history = 1000
";

} // verus!
