//! Command parsing: the [`ShellCommand`] enum, command aliases and the line parser.

use vstd::prelude::*;

use crate::error::{ShellError, ShellErrorOf, ShellErrorView, ShellResult};
use crate::text::{is_word, is_ws, join_from, join_ws, lemma_split_first_word, split_whitespace, split_ws, str_eq, views};

verus! {

/// Shell commands that can be executed in the REPL, over a text type `S`.
///
/// The shell works on [`ShellCommand`] (`S = String`); specifications use `S = Seq<char>`.
#[derive(Debug, Clone)]
pub enum Command<S> {
    /// Display help information. Alias: `help [command]`
    Help { command: Option<S> },
    /// Exit the shell. Aliases: `exit`, `quit`, `q`
    Exit,
    /// List all actors (registered and in process groups). Alias: `a`
    Actors,
    /// List registered actors only. Alias: `r`
    Registry,
    /// List all process groups. Usage: `pg list`
    PgList,
    /// List members of a process group. Usage: `pg members <group>`
    PgMembers { group: S },
    /// Show detailed information about an actor. Alias: `i`
    Info { actor: S },
    /// Send a cast message to an actor. Alias: `s`. Usage: `send <actor> <json>`
    Send { actor: S, message: S },
    /// Send an RPC call to an actor. Alias: `c`. Usage: `call <actor> <json>`
    Call { actor: S, message: S },
    /// Stop an actor gracefully. Usage: `stop <actor>`
    Stop { actor: S },
    /// Connect to a remote node. Usage: `connect <host:port>`
    Connect { host: S },
    /// Disconnect from a remote node. Usage: `disconnect <node>`
    Disconnect { node: S },
    /// Reconnect to a remote node (disconnect + connect). Usage: `reconnect <node>`
    Reconnect { node: S },
    /// List connected nodes
    Nodes,
    /// Switch context to a remote node. Usage: `use <node>` or `use local`
    Use { node: S },
    /// Show cluster topology. Usage: `cluster [nodes|groups|mesh]`
    Cluster { subcommand: Option<S> },
    /// Show system statistics
    Stats,
    /// Show process group tree
    Tree { actor: Option<S> },
    /// Show the supervision tree. Alias: `st`. Usage: `supervtree [actor]`
    Supervtree { actor: Option<S> },
    /// Show the supervisor (parent) of an actor. Alias: `p`. Usage: `parent <actor>`
    Parent { actor: S },
    /// Send a JSON file as a message. Alias: `sf`. Usage: `send-file <actor> <path>`
    SendFile { actor: S, file_path: S },
    /// Load and execute a script file. Alias: `l`. Usage: `load <path>`
    Load { script_path: S },
    /// Start monitoring an actor's lifecycle. Usage: `monitor <actor>`
    Monitor { actor: S },
    /// Stop monitoring an actor. Usage: `unmonitor <actor>`
    Unmonitor { actor: S },
    /// List all monitored actors and recent events
    Monitors,
    /// Poll and display monitor events (remote only). Usage: `monitor events`
    MonitorEvents,
    /// Launch interactive dashboard. Alias: `t`. Usage: `top`
    Top,
    /// Start tracing actors or list active traces. Usage: `trace [pattern]`
    Trace { pattern: Option<S> },
    /// Stop all tracing. Usage: `trace off`
    TraceOff,
    /// Get or set minimum trace log level. Usage: `trace level [LEVEL]`
    TraceLevel { level: Option<S> },
    /// Log traces to a file. Usage: `trace-to-file <path> [pattern]`
    TraceToFile { path: S, pattern: Option<S> },
    /// Subscribe to remote traces from a node. Usage: `trace remote <node> <pattern>`
    TraceRemote { node: S, pattern: S },
    /// Stop remote tracing. Usage: `trace remote off`
    TraceRemoteOff,
    /// Show message schema for an actor. Alias: `sc`. Usage: `schema [actor]`
    Schema { actor: Option<S> },
    /// Ping a remote node to measure latency. Usage: `ping <node>`
    Ping { node: S },
}

/// A parsed shell command.
pub type ShellCommand = Command<String>;

/// The mathematical form of a [`ShellCommand`].
pub type CommandView = Command<Seq<char>>;

/// The characters of an optional string.
pub open spec fn opt_view(o: Option<String>) -> Option<Seq<char>> {
    match o {
        Some(s) => Some(s@),
        None => None,
    }
}

impl View for Command<String> {
    type V = Command<Seq<char>>;

    open spec fn view(&self) -> Command<Seq<char>> {
        match self {
            Command::Help { command } => Command::Help { command: opt_view(*command) },
            Command::Exit => Command::Exit,
            Command::Actors => Command::Actors,
            Command::Registry => Command::Registry,
            Command::PgList => Command::PgList,
            Command::PgMembers { group } => Command::PgMembers { group: group@ },
            Command::Info { actor } => Command::Info { actor: actor@ },
            Command::Send { actor, message } => Command::Send { actor: actor@, message: message@ },
            Command::Call { actor, message } => Command::Call { actor: actor@, message: message@ },
            Command::Stop { actor } => Command::Stop { actor: actor@ },
            Command::Connect { host } => Command::Connect { host: host@ },
            Command::Disconnect { node } => Command::Disconnect { node: node@ },
            Command::Reconnect { node } => Command::Reconnect { node: node@ },
            Command::Nodes => Command::Nodes,
            Command::Use { node } => Command::Use { node: node@ },
            Command::Cluster { subcommand } => Command::Cluster {
                subcommand: opt_view(*subcommand),
            },
            Command::Stats => Command::Stats,
            Command::Tree { actor } => Command::Tree { actor: opt_view(*actor) },
            Command::Supervtree { actor } => Command::Supervtree { actor: opt_view(*actor) },
            Command::Parent { actor } => Command::Parent { actor: actor@ },
            Command::SendFile { actor, file_path } => Command::SendFile {
                actor: actor@,
                file_path: file_path@,
            },
            Command::Load { script_path } => Command::Load { script_path: script_path@ },
            Command::Monitor { actor } => Command::Monitor { actor: actor@ },
            Command::Unmonitor { actor } => Command::Unmonitor { actor: actor@ },
            Command::Monitors => Command::Monitors,
            Command::MonitorEvents => Command::MonitorEvents,
            Command::Top => Command::Top,
            Command::Trace { pattern } => Command::Trace { pattern: opt_view(*pattern) },
            Command::TraceOff => Command::TraceOff,
            Command::TraceLevel { level } => Command::TraceLevel { level: opt_view(*level) },
            Command::TraceToFile { path, pattern } => Command::TraceToFile {
                path: path@,
                pattern: opt_view(*pattern),
            },
            Command::TraceRemote { node, pattern } => Command::TraceRemote {
                node: node@,
                pattern: pattern@,
            },
            Command::TraceRemoteOff => Command::TraceRemoteOff,
            Command::Schema { actor } => Command::Schema { actor: opt_view(*actor) },
            Command::Ping { node } => Command::Ping { node: node@ },
        }
    }
}

/// The full command name that `cmd` stands for: its expansion if it is an alias, else `cmd`.
pub open spec fn alias_target(cmd: Seq<char>) -> Seq<char> {
    if cmd == "a"@ {
        "actors"@
    } else if cmd == "r"@ {
        "registry"@
    } else if cmd == "i"@ {
        "info"@
    } else if cmd == "sc"@ {
        "schema"@
    } else if cmd == "st"@ {
        "supervtree"@
    } else if cmd == "p"@ {
        "parent"@
    } else if cmd == "s"@ {
        "send"@
    } else if cmd == "c"@ {
        "call"@
    } else if cmd == "sf"@ {
        "send-file"@
    } else if cmd == "con"@ {
        "connect"@
    } else if cmd == "dis"@ {
        "disconnect"@
    } else if cmd == "n"@ {
        "nodes"@
    } else if cmd == "u"@ {
        "use"@
    } else if cmd == "cl"@ {
        "cluster"@
    } else if cmd == "m"@ {
        "monitor"@
    } else if cmd == "um"@ {
        "unmonitor"@
    } else if cmd == "ms"@ {
        "monitors"@
    } else if cmd == "t"@ {
        "top"@
    } else if cmd == "tr"@ {
        "trace"@
    } else if cmd == "tf"@ {
        "trace-to-file"@
    } else if cmd == "h"@ {
        "help"@
    } else if cmd == "l"@ {
        "load"@
    } else if cmd == "q"@ {
        "quit"@
    } else {
        cmd
    }
}

/// Resolve command aliases to their full command names; any other word is returned unchanged.
pub fn resolve_alias(cmd: &str) -> (r: &str)
    ensures
        r@ == alias_target(cmd@),
{
    if str_eq(cmd, "a") {
        "actors"
    } else if str_eq(cmd, "r") {
        "registry"
    } else if str_eq(cmd, "i") {
        "info"
    } else if str_eq(cmd, "sc") {
        "schema"
    } else if str_eq(cmd, "st") {
        "supervtree"
    } else if str_eq(cmd, "p") {
        "parent"
    } else if str_eq(cmd, "s") {
        "send"
    } else if str_eq(cmd, "c") {
        "call"
    } else if str_eq(cmd, "sf") {
        "send-file"
    } else if str_eq(cmd, "con") {
        "connect"
    } else if str_eq(cmd, "dis") {
        "disconnect"
    } else if str_eq(cmd, "n") {
        "nodes"
    } else if str_eq(cmd, "u") {
        "use"
    } else if str_eq(cmd, "cl") {
        "cluster"
    } else if str_eq(cmd, "m") {
        "monitor"
    } else if str_eq(cmd, "um") {
        "unmonitor"
    } else if str_eq(cmd, "ms") {
        "monitors"
    } else if str_eq(cmd, "t") {
        "top"
    } else if str_eq(cmd, "tr") {
        "trace"
    } else if str_eq(cmd, "tf") {
        "trace-to-file"
    } else if str_eq(cmd, "h") {
        "help"
    } else if str_eq(cmd, "l") {
        "load"
    } else if str_eq(cmd, "q") {
        "quit"
    } else {
        cmd
    }
}

/// The word at position `i`, if there is one.
pub open spec fn word_at(w: Seq<Seq<char>>, i: int) -> Option<Seq<char>> {
    if i < w.len() {
        Some(w[i])
    } else {
        None
    }
}

/// The error for a command that lacks a required argument.
pub open spec fn missing(command: Seq<char>, requirement: Seq<char>) -> ShellErrorView {
    ShellErrorOf::MissingArgument { command, requirement }
}

/// `ok` if at least `k` words were given, else the missing-argument error.
pub open spec fn needs(
    w: Seq<Seq<char>>,
    k: int,
    command: Seq<char>,
    requirement: Seq<char>,
    ok: CommandView,
) -> Result<CommandView, ShellErrorView> {
    if w.len() < k {
        Err(missing(command, requirement))
    } else {
        Ok(ok)
    }
}

/// What the words of a command line parse to.
pub open spec fn parse_words(w: Seq<Seq<char>>) -> Result<CommandView, ShellErrorView> {
    if w.len() == 0 {
        Err(ShellErrorOf::EmptyCommand)
    } else {
        let h = alias_target(w[0]);
        if h == "help"@ {
            Ok(Command::Help { command: word_at(w, 1) })
        } else if h == "exit"@ || h == "quit"@ {
            Ok(Command::Exit)
        } else if h == "actors"@ {
            Ok(Command::Actors)
        } else if h == "registry"@ {
            Ok(Command::Registry)
        } else if h == "pg"@ {
            if w.len() < 2 {
                Err(missing("pg"@, "a subcommand: list, members"@))
            } else if w[1] == "list"@ {
                Ok(Command::PgList)
            } else if w[1] == "members"@ {
                needs(w, 3, "pg members"@, "a group name"@, Command::PgMembers { group: w[2] })
            } else {
                Err(ShellErrorOf::UnknownSubcommand { parent: "pg"@, subcommand: w[1] })
            }
        } else if h == "info"@ {
            needs(w, 2, "info"@, "an actor name"@, Command::Info { actor: w[1] })
        } else if h == "send"@ {
            needs(
                w,
                3,
                "send"@,
                "<actor> <message>"@,
                Command::Send { actor: w[1], message: join_ws(w.subrange(2, w.len() as int)) },
            )
        } else if h == "call"@ {
            needs(
                w,
                3,
                "call"@,
                "<actor> <message>"@,
                Command::Call { actor: w[1], message: join_ws(w.subrange(2, w.len() as int)) },
            )
        } else if h == "stop"@ {
            needs(w, 2, "stop"@, "an actor name"@, Command::Stop { actor: w[1] })
        } else if h == "connect"@ {
            needs(w, 2, "connect"@, "<host:port>"@, Command::Connect { host: w[1] })
        } else if h == "disconnect"@ {
            needs(w, 2, "disconnect"@, "<node_name>"@, Command::Disconnect { node: w[1] })
        } else if h == "reconnect"@ {
            needs(w, 2, "reconnect"@, "<node_name>"@, Command::Reconnect { node: w[1] })
        } else if h == "nodes"@ {
            Ok(Command::Nodes)
        } else if h == "use"@ {
            needs(w, 2, "use"@, "<node_name> (or 'local')"@, Command::Use { node: w[1] })
        } else if h == "cluster"@ {
            Ok(Command::Cluster { subcommand: word_at(w, 1) })
        } else if h == "stats"@ {
            Ok(Command::Stats)
        } else if h == "tree"@ {
            Ok(Command::Tree { actor: word_at(w, 1) })
        } else if h == "supervtree"@ {
            Ok(Command::Supervtree { actor: word_at(w, 1) })
        } else if h == "parent"@ {
            needs(w, 2, "parent"@, "an actor name"@, Command::Parent { actor: w[1] })
        } else if h == "send-file"@ || h == "sendfile"@ {
            needs(
                w,
                3,
                "send-file"@,
                "<actor> <file_path>"@,
                Command::SendFile { actor: w[1], file_path: w[2] },
            )
        } else if h == "load"@ {
            needs(w, 2, "load"@, "<script_path>"@, Command::Load { script_path: w[1] })
        } else if h == "monitor"@ {
            if w.len() < 2 {
                Err(missing("monitor"@, "an actor name or 'events'"@))
            } else if w[1] == "events"@ {
                Ok(Command::MonitorEvents)
            } else {
                Ok(Command::Monitor { actor: w[1] })
            }
        } else if h == "unmonitor"@ {
            needs(w, 2, "unmonitor"@, "an actor name"@, Command::Unmonitor { actor: w[1] })
        } else if h == "monitors"@ {
            Ok(Command::Monitors)
        } else if h == "top"@ {
            Ok(Command::Top)
        } else if h == "trace"@ {
            if w.len() >= 2 && w[1] == "off"@ {
                Ok(Command::TraceOff)
            } else if w.len() >= 2 && w[1] == "level"@ {
                Ok(Command::TraceLevel { level: word_at(w, 2) })
            } else if w.len() >= 2 && w[1] == "remote"@ {
                if w.len() >= 3 && w[2] == "off"@ {
                    Ok(Command::TraceRemoteOff)
                } else {
                    needs(
                        w,
                        4,
                        "trace remote"@,
                        "<node> <pattern> or 'off'"@,
                        Command::TraceRemote { node: w[2], pattern: w[3] },
                    )
                }
            } else {
                Ok(Command::Trace { pattern: word_at(w, 1) })
            }
        } else if h == "trace-to-file"@ || h == "tracefile"@ {
            needs(
                w,
                2,
                "trace-to-file"@,
                "<file_path> [pattern]"@,
                Command::TraceToFile { path: w[1], pattern: word_at(w, 2) },
            )
        } else if h == "schema"@ {
            Ok(Command::Schema { actor: word_at(w, 1) })
        } else if h == "ping"@ {
            needs(w, 2, "ping"@, "<node> (e.g., 127.0.0.1:9001)"@, Command::Ping { node: w[1] })
        } else {
            Err(ShellErrorOf::UnknownCommand(h))
        }
    }
}

/// The mathematical form of a parse result.
pub open spec fn result_view(r: ShellResult<ShellCommand>) -> Result<CommandView, ShellErrorView> {
    match r {
        Ok(c) => Ok(c@),
        Err(e) => Err(e@),
    }
}

/// A copy of the word at position `i`, if there is one.
fn word(words: &Vec<String>, i: usize) -> (r: Option<String>)
    ensures
        opt_view(r) == word_at(views(words@), i as int),
{
    if i < words.len() {
        Some(words[i].clone())
    } else {
        None
    }
}

/// Whether there is a word at position `i` and it reads `lit`.
fn word_is(words: &Vec<String>, i: usize, lit: &str) -> (b: bool)
    ensures
        b == (i < words.len() && views(words@)[i as int] == lit@),
{
    i < words.len() && str_eq(words[i].as_str(), lit)
}

impl Command<String> {
    /// Resolve command aliases to their full command names.
    pub fn resolve_alias(cmd: &str) -> (r: &str)
        ensures
            r@ == alias_target(cmd@),
    {
        resolve_alias(cmd)
    }

    /// Parse a command line string into a [`ShellCommand`].
    ///
    /// The line is split into whitespace-separated words; the first one, after alias
    /// resolution, selects the command. Unknown commands and missing required arguments
    /// are errors.
    #[verifier::rlimit(50)]
    pub fn parse_line(line: &str) -> (res: ShellResult<Self>)
        ensures
            result_view(res) == parse_words(split_ws(line@)),
    {
        let words = split_whitespace(line);
        let ghost w = views(words@);
        let n = words.len();
        if n == 0 {
            return Err(ShellErrorOf::EmptyCommand);
        }
        let h = resolve_alias(words[0].as_str());
        assert(w[0] == words@[0]@);
        if str_eq(h, "help") {
            Ok(Command::Help { command: word(&words, 1) })
        } else if str_eq(h, "exit") || str_eq(h, "quit") {
            Ok(Command::Exit)
        } else if str_eq(h, "actors") {
            Ok(Command::Actors)
        } else if str_eq(h, "registry") {
            Ok(Command::Registry)
        } else if str_eq(h, "pg") {
            if n < 2 {
                Err(ShellErrorOf::MissingArgument {
                    command: "pg",
                    requirement: "a subcommand: list, members",
                })
            } else if word_is(&words, 1, "list") {
                Ok(Command::PgList)
            } else if word_is(&words, 1, "members") {
                if n < 3 {
                    Err(ShellErrorOf::MissingArgument {
                        command: "pg members",
                        requirement: "a group name",
                    })
                } else {
                    Ok(Command::PgMembers { group: words[2].clone() })
                }
            } else {
                Err(ShellErrorOf::UnknownSubcommand { parent: "pg", subcommand: words[1].clone() })
            }
        } else if str_eq(h, "info") {
            if n < 2 {
                Err(ShellErrorOf::MissingArgument { command: "info", requirement: "an actor name" })
            } else {
                Ok(Command::Info { actor: words[1].clone() })
            }
        } else if str_eq(h, "send") {
            if n < 3 {
                Err(ShellErrorOf::MissingArgument {
                    command: "send",
                    requirement: "<actor> <message>",
                })
            } else {
                Ok(Command::Send { actor: words[1].clone(), message: join_from(&words, 2) })
            }
        } else if str_eq(h, "call") {
            if n < 3 {
                Err(ShellErrorOf::MissingArgument {
                    command: "call",
                    requirement: "<actor> <message>",
                })
            } else {
                Ok(Command::Call { actor: words[1].clone(), message: join_from(&words, 2) })
            }
        } else if str_eq(h, "stop") {
            if n < 2 {
                Err(ShellErrorOf::MissingArgument { command: "stop", requirement: "an actor name" })
            } else {
                Ok(Command::Stop { actor: words[1].clone() })
            }
        } else if str_eq(h, "connect") {
            if n < 2 {
                Err(ShellErrorOf::MissingArgument { command: "connect", requirement: "<host:port>" })
            } else {
                Ok(Command::Connect { host: words[1].clone() })
            }
        } else if str_eq(h, "disconnect") {
            if n < 2 {
                Err(ShellErrorOf::MissingArgument {
                    command: "disconnect",
                    requirement: "<node_name>",
                })
            } else {
                Ok(Command::Disconnect { node: words[1].clone() })
            }
        } else if str_eq(h, "reconnect") {
            if n < 2 {
                Err(ShellErrorOf::MissingArgument {
                    command: "reconnect",
                    requirement: "<node_name>",
                })
            } else {
                Ok(Command::Reconnect { node: words[1].clone() })
            }
        } else if str_eq(h, "nodes") {
            Ok(Command::Nodes)
        } else if str_eq(h, "use") {
            if n < 2 {
                Err(ShellErrorOf::MissingArgument {
                    command: "use",
                    requirement: "<node_name> (or 'local')",
                })
            } else {
                Ok(Command::Use { node: words[1].clone() })
            }
        } else if str_eq(h, "cluster") {
            Ok(Command::Cluster { subcommand: word(&words, 1) })
        } else if str_eq(h, "stats") {
            Ok(Command::Stats)
        } else if str_eq(h, "tree") {
            Ok(Command::Tree { actor: word(&words, 1) })
        } else if str_eq(h, "supervtree") {
            Ok(Command::Supervtree { actor: word(&words, 1) })
        } else if str_eq(h, "parent") {
            if n < 2 {
                Err(ShellErrorOf::MissingArgument { command: "parent", requirement: "an actor name" })
            } else {
                Ok(Command::Parent { actor: words[1].clone() })
            }
        } else if str_eq(h, "send-file") || str_eq(h, "sendfile") {
            if n < 3 {
                Err(ShellErrorOf::MissingArgument {
                    command: "send-file",
                    requirement: "<actor> <file_path>",
                })
            } else {
                Ok(Command::SendFile { actor: words[1].clone(), file_path: words[2].clone() })
            }
        } else if str_eq(h, "load") {
            if n < 2 {
                Err(ShellErrorOf::MissingArgument { command: "load", requirement: "<script_path>" })
            } else {
                Ok(Command::Load { script_path: words[1].clone() })
            }
        } else if str_eq(h, "monitor") {
            if n < 2 {
                Err(ShellErrorOf::MissingArgument {
                    command: "monitor",
                    requirement: "an actor name or 'events'",
                })
            } else if word_is(&words, 1, "events") {
                Ok(Command::MonitorEvents)
            } else {
                Ok(Command::Monitor { actor: words[1].clone() })
            }
        } else if str_eq(h, "unmonitor") {
            if n < 2 {
                Err(ShellErrorOf::MissingArgument {
                    command: "unmonitor",
                    requirement: "an actor name",
                })
            } else {
                Ok(Command::Unmonitor { actor: words[1].clone() })
            }
        } else if str_eq(h, "monitors") {
            Ok(Command::Monitors)
        } else if str_eq(h, "top") {
            Ok(Command::Top)
        } else if str_eq(h, "trace") {
            if word_is(&words, 1, "off") {
                Ok(Command::TraceOff)
            } else if word_is(&words, 1, "level") {
                Ok(Command::TraceLevel { level: word(&words, 2) })
            } else if word_is(&words, 1, "remote") {
                if word_is(&words, 2, "off") {
                    Ok(Command::TraceRemoteOff)
                } else if n < 4 {
                    Err(ShellErrorOf::MissingArgument {
                        command: "trace remote",
                        requirement: "<node> <pattern> or 'off'",
                    })
                } else {
                    Ok(Command::TraceRemote { node: words[2].clone(), pattern: words[3].clone() })
                }
            } else {
                Ok(Command::Trace { pattern: word(&words, 1) })
            }
        } else if str_eq(h, "trace-to-file") || str_eq(h, "tracefile") {
            if n < 2 {
                Err(ShellErrorOf::MissingArgument {
                    command: "trace-to-file",
                    requirement: "<file_path> [pattern]",
                })
            } else {
                Ok(Command::TraceToFile { path: words[1].clone(), pattern: word(&words, 2) })
            }
        } else if str_eq(h, "schema") {
            Ok(Command::Schema { actor: word(&words, 1) })
        } else if str_eq(h, "ping") {
            if n < 2 {
                Err(ShellErrorOf::MissingArgument {
                    command: "ping",
                    requirement: "<node> (e.g., 127.0.0.1:9001)",
                })
            } else {
                Ok(Command::Ping { node: words[1].clone() })
            }
        } else {
            Err(ShellErrorOf::UnknownCommand(h.to_owned()))
        }
    }
}

/// Resolving an alias again changes nothing: every alias stands for a full command name.
pub proof fn lemma_alias_target_idempotent(cmd: Seq<char>)
    ensures
        alias_target(alias_target(cmd)) == alias_target(cmd),
{
    reveal_strlit("a");
    reveal_strlit("r");
    reveal_strlit("i");
    reveal_strlit("sc");
    reveal_strlit("st");
    reveal_strlit("p");
    reveal_strlit("s");
    reveal_strlit("c");
    reveal_strlit("sf");
    reveal_strlit("con");
    reveal_strlit("dis");
    reveal_strlit("n");
    reveal_strlit("u");
    reveal_strlit("cl");
    reveal_strlit("m");
    reveal_strlit("um");
    reveal_strlit("ms");
    reveal_strlit("t");
    reveal_strlit("tr");
    reveal_strlit("tf");
    reveal_strlit("h");
    reveal_strlit("l");
    reveal_strlit("q");
    reveal_strlit("actors");
    reveal_strlit("registry");
    reveal_strlit("info");
    reveal_strlit("schema");
    reveal_strlit("supervtree");
    reveal_strlit("parent");
    reveal_strlit("send");
    reveal_strlit("call");
    reveal_strlit("send-file");
    reveal_strlit("connect");
    reveal_strlit("disconnect");
    reveal_strlit("nodes");
    reveal_strlit("use");
    reveal_strlit("cluster");
    reveal_strlit("monitor");
    reveal_strlit("unmonitor");
    reveal_strlit("monitors");
    reveal_strlit("top");
    reveal_strlit("trace");
    reveal_strlit("trace-to-file");
    reveal_strlit("help");
    reveal_strlit("load");
    reveal_strlit("quit");
    let t = alias_target(cmd);
    assert("con"@.len() == 3 && "dis"@.len() == 3 && "use"@.len() == 3 && "top"@.len() == 3);
    assert("use"@[0] != "con"@[0] && "use"@[0] != "dis"@[0]);
    assert("top"@[0] != "con"@[0] && "top"@[0] != "dis"@[0]);
    if t != cmd {
        assert(t.len() > 3 || t == "use"@ || t == "top"@);
        lemma_full_name_not_alias(t);
    }
}

proof fn lemma_full_name_not_alias(t: Seq<char>)
    requires
        t.len() > 3 || t == "use"@ || t == "top"@,
    ensures
        alias_target(t) == t,
{
    reveal_strlit("a");
    reveal_strlit("r");
    reveal_strlit("i");
    reveal_strlit("sc");
    reveal_strlit("st");
    reveal_strlit("p");
    reveal_strlit("s");
    reveal_strlit("c");
    reveal_strlit("sf");
    reveal_strlit("con");
    reveal_strlit("dis");
    reveal_strlit("n");
    reveal_strlit("u");
    reveal_strlit("cl");
    reveal_strlit("m");
    reveal_strlit("um");
    reveal_strlit("ms");
    reveal_strlit("t");
    reveal_strlit("tr");
    reveal_strlit("tf");
    reveal_strlit("h");
    reveal_strlit("l");
    reveal_strlit("q");
    reveal_strlit("use");
    reveal_strlit("top");
    assert("use"@[0] != "con"@[0] && "use"@[0] != "dis"@[0]);
    assert("top"@[0] != "con"@[0] && "top"@[0] != "dis"@[0]);
}

/// A command typed as an alias parses exactly as the command typed in full.
#[verifier::rlimit(50)]
pub proof fn lemma_alias_parses_as_target(w: Seq<Seq<char>>)
    requires
        w.len() > 0,
    ensures
        parse_words(w.update(0, alias_target(w[0]))) == parse_words(w),
{
    lemma_alias_target_idempotent(w[0]);
    let u = w.update(0, alias_target(w[0]));
    assert(u.len() == w.len());
    assert(alias_target(u[0]) == alias_target(w[0]));
    assert(1 < w.len() ==> u[1] == w[1]);
    assert(2 < w.len() ==> u[2] == w[2]);
    assert(3 < w.len() ==> u[3] == w[3]);
    assert(word_at(u, 1) == word_at(w, 1));
    assert(word_at(u, 2) == word_at(w, 2));
    assert(word_at(u, 3) == word_at(w, 3));
    if w.len() >= 2 {
        assert(u.subrange(2, u.len() as int) =~= w.subrange(2, w.len() as int));
    }
}


/// Every full command name an alias stands for is a word, so resolving a word gives a word.
proof fn lemma_alias_target_word(w: Seq<char>)
    requires
        is_word(w),
    ensures
        is_word(alias_target(w)),
{
    reveal_strlit("a");
    reveal_strlit("r");
    reveal_strlit("i");
    reveal_strlit("sc");
    reveal_strlit("st");
    reveal_strlit("p");
    reveal_strlit("s");
    reveal_strlit("c");
    reveal_strlit("sf");
    reveal_strlit("con");
    reveal_strlit("dis");
    reveal_strlit("n");
    reveal_strlit("u");
    reveal_strlit("cl");
    reveal_strlit("m");
    reveal_strlit("um");
    reveal_strlit("ms");
    reveal_strlit("t");
    reveal_strlit("tr");
    reveal_strlit("tf");
    reveal_strlit("h");
    reveal_strlit("l");
    reveal_strlit("q");
    reveal_strlit("actors");
    reveal_strlit("registry");
    reveal_strlit("info");
    reveal_strlit("schema");
    reveal_strlit("supervtree");
    reveal_strlit("parent");
    reveal_strlit("send");
    reveal_strlit("call");
    reveal_strlit("send-file");
    reveal_strlit("connect");
    reveal_strlit("disconnect");
    reveal_strlit("nodes");
    reveal_strlit("use");
    reveal_strlit("cluster");
    reveal_strlit("monitor");
    reveal_strlit("unmonitor");
    reveal_strlit("monitors");
    reveal_strlit("top");
    reveal_strlit("trace");
    reveal_strlit("trace-to-file");
    reveal_strlit("help");
    reveal_strlit("load");
    reveal_strlit("quit");
    let t = alias_target(w);
    assert forall|i: int| 0 <= i < t.len() implies !is_ws(#[trigger] t[i]) by {
        if t != w {
            assert(t.len() <= 13);
            if i == 0 {
            } else if i == 1 {
            } else if i == 2 {
            } else if i == 3 {
            } else if i == 4 {
            } else if i == 5 {
            } else if i == 6 {
            } else if i == 7 {
            } else if i == 8 {
            } else if i == 9 {
            } else if i == 10 {
            } else if i == 11 {
            } else {
                assert(i == 12);
            }
        }
    }
}

/// A command line whose first word is an alias parses exactly as the line with that word
/// replaced by the full command name: for a line made of blanks `lead`, the first word `w` and
/// the rest `r` (empty, or starting with whitespace), the line and `alias_target(w) + r` give
/// the same command or the same error.
pub proof fn lemma_alias_line_parses_alike(lead: Seq<char>, w: Seq<char>, r: Seq<char>)
    requires
        forall|i: int| 0 <= i < lead.len() ==> is_ws(#[trigger] lead[i]),
        is_word(w),
        r.len() == 0 || is_ws(r[0]),
    ensures
        parse_words(split_ws(lead + w + r)) == parse_words(split_ws(alias_target(w) + r)),
{
    let t = alias_target(w);
    lemma_alias_target_word(w);
    lemma_split_first_word(lead, w, r);
    let none = Seq::<char>::empty();
    assert(none + t + r =~= t + r);
    lemma_split_first_word(none, t, r);
    let words = seq![w] + split_ws(r);
    assert(words.update(0, alias_target(words[0])) =~= seq![t] + split_ws(r));
    lemma_alias_parses_as_target(words);
}


/// `trace remote N P` (and `tr remote N P`), with `N` other than `off`, asks to trace pattern
/// `P` on node `N`: the node is the third word and the pattern the fourth, whatever follows.
pub proof fn lemma_trace_remote_words(w: Seq<Seq<char>>)
    requires
        w.len() >= 4,
        w[0] == "trace"@ || w[0] == "tr"@,
        w[1] == "remote"@,
        w[2] != "off"@,
    ensures
        parse_words(w) == Ok::<CommandView, ShellErrorView>(
            Command::TraceRemote { node: w[2], pattern: w[3] },
        ),
{
    reveal_strlit("a");
    reveal_strlit("r");
    reveal_strlit("i");
    reveal_strlit("sc");
    reveal_strlit("st");
    reveal_strlit("p");
    reveal_strlit("s");
    reveal_strlit("c");
    reveal_strlit("sf");
    reveal_strlit("con");
    reveal_strlit("dis");
    reveal_strlit("n");
    reveal_strlit("u");
    reveal_strlit("cl");
    reveal_strlit("m");
    reveal_strlit("um");
    reveal_strlit("ms");
    reveal_strlit("t");
    reveal_strlit("tf");
    reveal_strlit("h");
    reveal_strlit("l");
    reveal_strlit("q");
    reveal_strlit("trace");
    reveal_strlit("tr");
    reveal_strlit("off");
    reveal_strlit("level");
    reveal_strlit("remote");
    reveal_strlit("help");
    reveal_strlit("exit");
    reveal_strlit("quit");
    reveal_strlit("actors");
    reveal_strlit("registry");
    reveal_strlit("pg");
    reveal_strlit("info");
    reveal_strlit("send");
    reveal_strlit("call");
    reveal_strlit("stop");
    reveal_strlit("connect");
    reveal_strlit("disconnect");
    reveal_strlit("reconnect");
    reveal_strlit("nodes");
    reveal_strlit("use");
    reveal_strlit("cluster");
    reveal_strlit("stats");
    reveal_strlit("tree");
    reveal_strlit("supervtree");
    reveal_strlit("parent");
    reveal_strlit("send-file");
    reveal_strlit("sendfile");
    reveal_strlit("load");
    reveal_strlit("monitor");
    reveal_strlit("unmonitor");
    reveal_strlit("monitors");
    reveal_strlit("top");
    assert("remote"@.len() == 6 && "off"@.len() == 3 && "level"@.len() == 5);
    assert("trace"@[0] == 't' && "trace"@[1] == 'r' && "tr"@[0] == 't' && "tr"@[1] == 'r');
    assert("nodes"@[0] != 't' && "stats"@[0] != 't' && "tf"@[1] != 'r');
    if w[0] == "trace"@ {
        lemma_full_name_not_alias(w[0]);
    } else {
        assert("sc"@[0] != 't' && "st"@[0] != 't' && "sf"@[0] != 't' && "cl"@[0] != 't');
        assert("um"@[0] != 't' && "ms"@[0] != 't' && "tr"@.len() == 2);
        assert("tr"@ != "sc"@ && "tr"@ != "st"@ && "tr"@ != "sf"@ && "tr"@ != "cl"@);
        assert("tr"@ != "um"@ && "tr"@ != "ms"@);
    }
    assert(alias_target(w[0]) == "trace"@);
    assert("remote"@ != "off"@);
    assert("remote"@ != "level"@);
}

proof fn lemma_literal_word(t: Seq<char>)
    requires
        t == "trace"@ || t == "remote"@,
    ensures
        is_word(t),
{
    reveal_strlit("trace");
    reveal_strlit("remote");
    assert forall|i: int| 0 <= i < t.len() implies !is_ws(#[trigger] t[i]) by {
        if i == 0 {
        } else if i == 1 {
        } else if i == 2 {
        } else if i == 3 {
        } else if i == 4 {
        } else {
            assert(i == 5);
        }
    }
}

/// The command line `trace remote N P` followed by anything (nothing, or text after
/// whitespace), for words `N` and `P` with `N` other than `off`, parses as tracing pattern `P`
/// on node `N`.
pub proof fn lemma_trace_remote_line(n: Seq<char>, p: Seq<char>, rest: Seq<char>)
    requires
        is_word(n),
        is_word(p),
        n != "off"@,
        rest.len() == 0 || is_ws(rest[0]),
    ensures
        parse_words(split_ws("trace remote "@ + n + " "@ + p + rest)) == Ok::<
            CommandView,
            ShellErrorView,
        >(Command::TraceRemote { node: n, pattern: p }),
{
    reveal_strlit("trace remote ");
    reveal_strlit("trace");
    reveal_strlit("remote");
    reveal_strlit(" ");
    let sp = " "@;
    let none = Seq::<char>::empty();
    lemma_literal_word("trace"@);
    lemma_literal_word("remote"@);
    assert(is_ws(' '));
    let r3 = sp + p + rest;
    let r2 = sp + n + r3;
    let r1 = sp + "remote"@ + r2;
    let line = "trace remote "@ + n + " "@ + p + rest;
    assert(line =~= none + "trace"@ + r1);
    assert(r1 =~= sp + "remote"@ + r2);
    assert(r1[0] == ' ' && r2[0] == ' ' && r3[0] == ' ');
    lemma_split_first_word(none, "trace"@, r1);
    lemma_split_first_word(sp, "remote"@, r2);
    lemma_split_first_word(sp, n, r3);
    lemma_split_first_word(sp, p, rest);
    let words = split_ws(line);
    assert(words =~= seq!["trace"@, "remote"@, n, p] + split_ws(rest));
    lemma_trace_remote_words(words);
}


/// The commands with two arguments take them in their written order: `send A M...` and
/// `call A M...` send the rest of the line `M...` (its words joined by single spaces) to actor
/// `A`; `send-file A F` sends file `F` to actor `A`; `trace-to-file F [P]` writes to file `F`
/// the events of pattern `P`; `pg members G` lists group `G`.
pub proof fn lemma_argument_order(w: Seq<Seq<char>>)
    ensures
        w.len() >= 3 && alias_target(w[0]) == "send"@ ==> parse_words(w) == Ok::<
            CommandView,
            ShellErrorView,
        >(Command::Send { actor: w[1], message: join_ws(w.subrange(2, w.len() as int)) }),
        w.len() >= 3 && alias_target(w[0]) == "call"@ ==> parse_words(w) == Ok::<
            CommandView,
            ShellErrorView,
        >(Command::Call { actor: w[1], message: join_ws(w.subrange(2, w.len() as int)) }),
        w.len() >= 3 && (alias_target(w[0]) == "send-file"@ || alias_target(w[0]) == "sendfile"@)
            ==> parse_words(w) == Ok::<CommandView, ShellErrorView>(
            Command::SendFile { actor: w[1], file_path: w[2] },
        ),
        w.len() >= 2 && (alias_target(w[0]) == "trace-to-file"@ || alias_target(w[0])
            == "tracefile"@) ==> parse_words(w) == Ok::<CommandView, ShellErrorView>(
            Command::TraceToFile {
                path: w[1],
                pattern: if w.len() >= 3 {
                    Some(w[2])
                } else {
                    None
                },
            },
        ),
        w.len() >= 3 && alias_target(w[0]) == "pg"@ && w[1] == "members"@ ==> parse_words(w)
            == Ok::<CommandView, ShellErrorView>(Command::PgMembers { group: w[2] }),
{
    reveal_strlit("help");
    reveal_strlit("exit");
    reveal_strlit("quit");
    reveal_strlit("actors");
    reveal_strlit("registry");
    reveal_strlit("pg");
    reveal_strlit("info");
    reveal_strlit("send");
    reveal_strlit("call");
    reveal_strlit("stop");
    reveal_strlit("connect");
    reveal_strlit("disconnect");
    reveal_strlit("reconnect");
    reveal_strlit("nodes");
    reveal_strlit("use");
    reveal_strlit("cluster");
    reveal_strlit("stats");
    reveal_strlit("tree");
    reveal_strlit("supervtree");
    reveal_strlit("parent");
    reveal_strlit("send-file");
    reveal_strlit("sendfile");
    reveal_strlit("load");
    reveal_strlit("monitor");
    reveal_strlit("unmonitor");
    reveal_strlit("monitors");
    reveal_strlit("top");
    reveal_strlit("trace");
    reveal_strlit("trace-to-file");
    reveal_strlit("tracefile");
    reveal_strlit("list");
    reveal_strlit("members");
    assert("send"@[0] == 's' && "call"@[0] == 'c' && "help"@[0] == 'h' && "exit"@[0] == 'e');
    assert("quit"@[0] == 'q' && "info"@[0] == 'i' && "stop"@[0] == 's' && "stop"@[1] == 't');
    assert("send"@[1] == 'e' && "tree"@[0] == 't' && "load"@[0] == 'l' && "call"@[1] == 'a');
    assert("send-file"@[0] == 's' && "reconnect"@[0] == 'r' && "unmonitor"@[0] == 'u');
    assert("sendfile"@[0] == 's' && "registry"@[0] == 'r' && "tracefile"@[0] == 't');
    assert("members"@.len() == 7 && "list"@.len() == 4);
    assert("trace-to-file"@.len() == 13 && "trace"@.len() == 5);
    if w.len() >= 3 && (alias_target(w[0]) == "send-file"@ || alias_target(w[0]) == "sendfile"@) {
        assert("send-file"@.len() == 9 && "send"@.len() == 4 && "stats"@.len() == 5);
        assert("send-file"@.len() == 9 && "help"@.len() == 4);
        assert("send-file"@ != "help"@);
        assert("send-file"@.len() == 9 && "exit"@.len() == 4);
        assert("send-file"@ != "exit"@);
        assert("send-file"@.len() == 9 && "quit"@.len() == 4);
        assert("send-file"@ != "quit"@);
        assert("send-file"@.len() == 9 && "actors"@.len() == 6);
        assert("send-file"@ != "actors"@);
        assert("send-file"@.len() == 9 && "registry"@.len() == 8);
        assert("send-file"@ != "registry"@);
        assert("send-file"@.len() == 9 && "pg"@.len() == 2);
        assert("send-file"@ != "pg"@);
        assert("send-file"@.len() == 9 && "info"@.len() == 4);
        assert("send-file"@ != "info"@);
        assert("send-file"@.len() == 9 && "send"@.len() == 4);
        assert("send-file"@ != "send"@);
        assert("send-file"@.len() == 9 && "call"@.len() == 4);
        assert("send-file"@ != "call"@);
        assert("send-file"@.len() == 9 && "stop"@.len() == 4);
        assert("send-file"@ != "stop"@);
        assert("send-file"@.len() == 9 && "connect"@.len() == 7);
        assert("send-file"@ != "connect"@);
        assert("send-file"@.len() == 9 && "disconnect"@.len() == 10);
        assert("send-file"@ != "disconnect"@);
        assert("send-file"@.len() == 9 && "reconnect"@.len() == 9);
        assert("send-file"@[0] != "reconnect"@[0]);
        assert("send-file"@ != "reconnect"@);
        assert("send-file"@.len() == 9 && "nodes"@.len() == 5);
        assert("send-file"@ != "nodes"@);
        assert("send-file"@.len() == 9 && "use"@.len() == 3);
        assert("send-file"@ != "use"@);
        assert("send-file"@.len() == 9 && "cluster"@.len() == 7);
        assert("send-file"@ != "cluster"@);
        assert("send-file"@.len() == 9 && "stats"@.len() == 5);
        assert("send-file"@ != "stats"@);
        assert("send-file"@.len() == 9 && "tree"@.len() == 4);
        assert("send-file"@ != "tree"@);
        assert("send-file"@.len() == 9 && "supervtree"@.len() == 10);
        assert("send-file"@ != "supervtree"@);
        assert("send-file"@.len() == 9 && "parent"@.len() == 6);
        assert("send-file"@ != "parent"@);
        assert("sendfile"@.len() == 8 && "help"@.len() == 4);
        assert("sendfile"@ != "help"@);
        assert("sendfile"@.len() == 8 && "exit"@.len() == 4);
        assert("sendfile"@ != "exit"@);
        assert("sendfile"@.len() == 8 && "quit"@.len() == 4);
        assert("sendfile"@ != "quit"@);
        assert("sendfile"@.len() == 8 && "actors"@.len() == 6);
        assert("sendfile"@ != "actors"@);
        assert("sendfile"@.len() == 8 && "registry"@.len() == 8);
        assert("sendfile"@[0] != "registry"@[0]);
        assert("sendfile"@ != "registry"@);
        assert("sendfile"@.len() == 8 && "pg"@.len() == 2);
        assert("sendfile"@ != "pg"@);
        assert("sendfile"@.len() == 8 && "info"@.len() == 4);
        assert("sendfile"@ != "info"@);
        assert("sendfile"@.len() == 8 && "send"@.len() == 4);
        assert("sendfile"@ != "send"@);
        assert("sendfile"@.len() == 8 && "call"@.len() == 4);
        assert("sendfile"@ != "call"@);
        assert("sendfile"@.len() == 8 && "stop"@.len() == 4);
        assert("sendfile"@ != "stop"@);
        assert("sendfile"@.len() == 8 && "connect"@.len() == 7);
        assert("sendfile"@ != "connect"@);
        assert("sendfile"@.len() == 8 && "disconnect"@.len() == 10);
        assert("sendfile"@ != "disconnect"@);
        assert("sendfile"@.len() == 8 && "reconnect"@.len() == 9);
        assert("sendfile"@ != "reconnect"@);
        assert("sendfile"@.len() == 8 && "nodes"@.len() == 5);
        assert("sendfile"@ != "nodes"@);
        assert("sendfile"@.len() == 8 && "use"@.len() == 3);
        assert("sendfile"@ != "use"@);
        assert("sendfile"@.len() == 8 && "cluster"@.len() == 7);
        assert("sendfile"@ != "cluster"@);
        assert("sendfile"@.len() == 8 && "stats"@.len() == 5);
        assert("sendfile"@ != "stats"@);
        assert("sendfile"@.len() == 8 && "tree"@.len() == 4);
        assert("sendfile"@ != "tree"@);
        assert("sendfile"@.len() == 8 && "supervtree"@.len() == 10);
        assert("sendfile"@ != "supervtree"@);
        assert("sendfile"@.len() == 8 && "parent"@.len() == 6);
        assert("sendfile"@ != "parent"@);
    }
    if w.len() >= 2 && (alias_target(w[0]) == "trace-to-file"@ || alias_target(w[0]) == "tracefile"@) {
        assert("trace-to-file"@.len() == 13 && "help"@.len() == 4);
        assert("trace-to-file"@ != "help"@);
        assert("trace-to-file"@.len() == 13 && "exit"@.len() == 4);
        assert("trace-to-file"@ != "exit"@);
        assert("trace-to-file"@.len() == 13 && "quit"@.len() == 4);
        assert("trace-to-file"@ != "quit"@);
        assert("trace-to-file"@.len() == 13 && "actors"@.len() == 6);
        assert("trace-to-file"@ != "actors"@);
        assert("trace-to-file"@.len() == 13 && "registry"@.len() == 8);
        assert("trace-to-file"@ != "registry"@);
        assert("trace-to-file"@.len() == 13 && "pg"@.len() == 2);
        assert("trace-to-file"@ != "pg"@);
        assert("trace-to-file"@.len() == 13 && "info"@.len() == 4);
        assert("trace-to-file"@ != "info"@);
        assert("trace-to-file"@.len() == 13 && "send"@.len() == 4);
        assert("trace-to-file"@ != "send"@);
        assert("trace-to-file"@.len() == 13 && "call"@.len() == 4);
        assert("trace-to-file"@ != "call"@);
        assert("trace-to-file"@.len() == 13 && "stop"@.len() == 4);
        assert("trace-to-file"@ != "stop"@);
        assert("trace-to-file"@.len() == 13 && "connect"@.len() == 7);
        assert("trace-to-file"@ != "connect"@);
        assert("trace-to-file"@.len() == 13 && "disconnect"@.len() == 10);
        assert("trace-to-file"@ != "disconnect"@);
        assert("trace-to-file"@.len() == 13 && "reconnect"@.len() == 9);
        assert("trace-to-file"@ != "reconnect"@);
        assert("trace-to-file"@.len() == 13 && "nodes"@.len() == 5);
        assert("trace-to-file"@ != "nodes"@);
        assert("trace-to-file"@.len() == 13 && "use"@.len() == 3);
        assert("trace-to-file"@ != "use"@);
        assert("trace-to-file"@.len() == 13 && "cluster"@.len() == 7);
        assert("trace-to-file"@ != "cluster"@);
        assert("trace-to-file"@.len() == 13 && "stats"@.len() == 5);
        assert("trace-to-file"@ != "stats"@);
        assert("trace-to-file"@.len() == 13 && "tree"@.len() == 4);
        assert("trace-to-file"@ != "tree"@);
        assert("trace-to-file"@.len() == 13 && "supervtree"@.len() == 10);
        assert("trace-to-file"@ != "supervtree"@);
        assert("trace-to-file"@.len() == 13 && "parent"@.len() == 6);
        assert("trace-to-file"@ != "parent"@);
        assert("trace-to-file"@.len() == 13 && "send-file"@.len() == 9);
        assert("trace-to-file"@ != "send-file"@);
        assert("trace-to-file"@.len() == 13 && "sendfile"@.len() == 8);
        assert("trace-to-file"@ != "sendfile"@);
        assert("trace-to-file"@.len() == 13 && "load"@.len() == 4);
        assert("trace-to-file"@ != "load"@);
        assert("trace-to-file"@.len() == 13 && "monitor"@.len() == 7);
        assert("trace-to-file"@ != "monitor"@);
        assert("trace-to-file"@.len() == 13 && "unmonitor"@.len() == 9);
        assert("trace-to-file"@ != "unmonitor"@);
        assert("trace-to-file"@.len() == 13 && "monitors"@.len() == 8);
        assert("trace-to-file"@ != "monitors"@);
        assert("trace-to-file"@.len() == 13 && "top"@.len() == 3);
        assert("trace-to-file"@ != "top"@);
        assert("trace-to-file"@.len() == 13 && "trace"@.len() == 5);
        assert("trace-to-file"@ != "trace"@);
        assert("tracefile"@.len() == 9 && "help"@.len() == 4);
        assert("tracefile"@ != "help"@);
        assert("tracefile"@.len() == 9 && "exit"@.len() == 4);
        assert("tracefile"@ != "exit"@);
        assert("tracefile"@.len() == 9 && "quit"@.len() == 4);
        assert("tracefile"@ != "quit"@);
        assert("tracefile"@.len() == 9 && "actors"@.len() == 6);
        assert("tracefile"@ != "actors"@);
        assert("tracefile"@.len() == 9 && "registry"@.len() == 8);
        assert("tracefile"@ != "registry"@);
        assert("tracefile"@.len() == 9 && "pg"@.len() == 2);
        assert("tracefile"@ != "pg"@);
        assert("tracefile"@.len() == 9 && "info"@.len() == 4);
        assert("tracefile"@ != "info"@);
        assert("tracefile"@.len() == 9 && "send"@.len() == 4);
        assert("tracefile"@ != "send"@);
        assert("tracefile"@.len() == 9 && "call"@.len() == 4);
        assert("tracefile"@ != "call"@);
        assert("tracefile"@.len() == 9 && "stop"@.len() == 4);
        assert("tracefile"@ != "stop"@);
        assert("tracefile"@.len() == 9 && "connect"@.len() == 7);
        assert("tracefile"@ != "connect"@);
        assert("tracefile"@.len() == 9 && "disconnect"@.len() == 10);
        assert("tracefile"@ != "disconnect"@);
        assert("tracefile"@.len() == 9 && "reconnect"@.len() == 9);
        assert("tracefile"@[0] != "reconnect"@[0]);
        assert("tracefile"@ != "reconnect"@);
        assert("tracefile"@.len() == 9 && "nodes"@.len() == 5);
        assert("tracefile"@ != "nodes"@);
        assert("tracefile"@.len() == 9 && "use"@.len() == 3);
        assert("tracefile"@ != "use"@);
        assert("tracefile"@.len() == 9 && "cluster"@.len() == 7);
        assert("tracefile"@ != "cluster"@);
        assert("tracefile"@.len() == 9 && "stats"@.len() == 5);
        assert("tracefile"@ != "stats"@);
        assert("tracefile"@.len() == 9 && "tree"@.len() == 4);
        assert("tracefile"@ != "tree"@);
        assert("tracefile"@.len() == 9 && "supervtree"@.len() == 10);
        assert("tracefile"@ != "supervtree"@);
        assert("tracefile"@.len() == 9 && "parent"@.len() == 6);
        assert("tracefile"@ != "parent"@);
        assert("tracefile"@.len() == 9 && "send-file"@.len() == 9);
        assert("tracefile"@[0] != "send-file"@[0]);
        assert("tracefile"@ != "send-file"@);
        assert("tracefile"@.len() == 9 && "sendfile"@.len() == 8);
        assert("tracefile"@ != "sendfile"@);
        assert("tracefile"@.len() == 9 && "load"@.len() == 4);
        assert("tracefile"@ != "load"@);
        assert("tracefile"@.len() == 9 && "monitor"@.len() == 7);
        assert("tracefile"@ != "monitor"@);
        assert("tracefile"@.len() == 9 && "unmonitor"@.len() == 9);
        assert("tracefile"@[0] != "unmonitor"@[0]);
        assert("tracefile"@ != "unmonitor"@);
        assert("tracefile"@.len() == 9 && "monitors"@.len() == 8);
        assert("tracefile"@ != "monitors"@);
        assert("tracefile"@.len() == 9 && "top"@.len() == 3);
        assert("tracefile"@ != "top"@);
        assert("tracefile"@.len() == 9 && "trace"@.len() == 5);
        assert("tracefile"@ != "trace"@);
    }
}

} // verus!
