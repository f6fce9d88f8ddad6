//! Errors of shell operations.

use vstd::prelude::*;

use crate::config::{default_rpc_timeout, seconds, DEFAULT_RPC_TIMEOUT_SECS};
use crate::text::push_str;

verus! {

/// Errors that can occur while a shell command is parsed or executed.
///
/// `S` is the type of the free-form text a variant carries and `L` that of the fixed labels
/// (command names, requirements); the shell uses `String` and `&'static str`, specifications
/// use `Seq<char>` for both.
#[derive(Debug)]
pub enum ShellErrorOf<S, L> {
    /// Actor was not found in the registry.
    ActorNotFound(S),
    /// Actor was not found on a remote node.
    RemoteActorNotFound { actor: S, node: S },
    /// Not connected to the specified node.
    NodeNotConnected(S),
    /// Empty command entered.
    EmptyCommand,
    /// Unknown command entered.
    UnknownCommand(S),
    /// Missing required argument for a command.
    MissingArgument { command: L, requirement: L },
    /// Unknown subcommand for a parent command.
    UnknownSubcommand { parent: L, subcommand: S },
    /// Invalid argument value for a command.
    InvalidArgument { command: L, message: S },
    /// RPC call timed out.
    RpcTimeout(core::time::Duration),
    /// RPC sender error (channel closed).
    RpcSenderError,
    /// Failed to spawn an actor.
    SpawnError(S),
    /// Failed to send a message to an actor.
    MessagingError(S),
    /// No introspection actor found on remote node.
    NoIntrospectionActor,
    /// Connection failed to remote node.
    ConnectionFailed { host: S, message: S },
    /// Failed to read a file.
    FileReadError { path: S, message: S },
    /// JSON parsing error.
    JsonParseError(S),
    /// General parse error.
    ParseError(S),
    /// Feature not yet implemented.
    NotImplemented(L),
    /// Remote operation failed.
    RemoteOperationFailed(S),
    /// Cluster connection error.
    ClusterError(S),
    /// IO error during file operations.
    IoError { operation: L, path: S, message: S },
}

/// The error type of the shell.
pub type ShellError = ShellErrorOf<String, &'static str>;

/// The mathematical form of a [`ShellError`].
pub type ShellErrorView = ShellErrorOf<Seq<char>, Seq<char>>;

/// Result type alias for shell operations.
pub type ShellResult<T> = Result<T, ShellError>;

impl View for ShellErrorOf<String, &'static str> {
    type V = ShellErrorOf<Seq<char>, Seq<char>>;

    open spec fn view(&self) -> ShellErrorOf<Seq<char>, Seq<char>> {
        match self {
            ShellErrorOf::ActorNotFound(a) => ShellErrorOf::ActorNotFound(a@),
            ShellErrorOf::RemoteActorNotFound { actor, node } => ShellErrorOf::RemoteActorNotFound {
                actor: actor@,
                node: node@,
            },
            ShellErrorOf::NodeNotConnected(n) => ShellErrorOf::NodeNotConnected(n@),
            ShellErrorOf::EmptyCommand => ShellErrorOf::EmptyCommand,
            ShellErrorOf::UnknownCommand(c) => ShellErrorOf::UnknownCommand(c@),
            ShellErrorOf::MissingArgument { command, requirement } => ShellErrorOf::MissingArgument {
                command: command@,
                requirement: requirement@,
            },
            ShellErrorOf::UnknownSubcommand { parent, subcommand } =>
                ShellErrorOf::UnknownSubcommand { parent: parent@, subcommand: subcommand@ },
            ShellErrorOf::InvalidArgument { command, message } => ShellErrorOf::InvalidArgument {
                command: command@,
                message: message@,
            },
            ShellErrorOf::RpcTimeout(d) => ShellErrorOf::RpcTimeout(*d),
            ShellErrorOf::RpcSenderError => ShellErrorOf::RpcSenderError,
            ShellErrorOf::SpawnError(m) => ShellErrorOf::SpawnError(m@),
            ShellErrorOf::MessagingError(m) => ShellErrorOf::MessagingError(m@),
            ShellErrorOf::NoIntrospectionActor => ShellErrorOf::NoIntrospectionActor,
            ShellErrorOf::ConnectionFailed { host, message } => ShellErrorOf::ConnectionFailed {
                host: host@,
                message: message@,
            },
            ShellErrorOf::FileReadError { path, message } => ShellErrorOf::FileReadError {
                path: path@,
                message: message@,
            },
            ShellErrorOf::JsonParseError(m) => ShellErrorOf::JsonParseError(m@),
            ShellErrorOf::ParseError(m) => ShellErrorOf::ParseError(m@),
            ShellErrorOf::NotImplemented(m) => ShellErrorOf::NotImplemented(m@),
            ShellErrorOf::RemoteOperationFailed(m) => ShellErrorOf::RemoteOperationFailed(m@),
            ShellErrorOf::ClusterError(m) => ShellErrorOf::ClusterError(m@),
            ShellErrorOf::IoError { operation, path, message } => ShellErrorOf::IoError {
                operation: operation@,
                path: path@,
                message: message@,
            },
        }
    }
}

/// The `Debug` text of a duration (such as `5s`), as std writes it.
pub uninterp spec fn duration_debug_text(d: core::time::Duration) -> Seq<char>;

/// std's `Debug` formatting of a `Duration`; the text is named by [`duration_debug_text`].
#[verifier::external_body]
fn debug_duration(d: &core::time::Duration) -> (s: String)
    ensures
        s@ == duration_debug_text(*d),
{
    format!("{:?}", d)
}

/// The message of an error.
pub open spec fn error_text(e: ShellErrorView) -> Seq<char> {
    match e {
            ShellErrorOf::ActorNotFound(a) => "Actor '"@ + a + "' not found in registry. Use 'registry' command to list registered actors."@,
            ShellErrorOf::RemoteActorNotFound { actor, node } => "Actor '"@ + actor + "' not found on node '"@ + node + "'."@,
            ShellErrorOf::NodeNotConnected(n) => "Not connected to node '"@ + n + "'. Use 'nodes' to see connected nodes."@,
            ShellErrorOf::EmptyCommand => "Empty command"@,
            ShellErrorOf::UnknownCommand(c) => "Unknown command: '"@ + c + "'. Type 'help' to see available commands."@,
            ShellErrorOf::MissingArgument { command, requirement } => command + " requires "@ + requirement + ". Type 'help "@ + command + "' for usage."@,
            ShellErrorOf::UnknownSubcommand { parent, subcommand } => "Unknown "@ + parent + " subcommand: '"@ + subcommand + "'. Type 'help "@ + parent + "' for usage."@,
            ShellErrorOf::InvalidArgument { command, message } => command + ": "@ + message,
            ShellErrorOf::RpcTimeout(d) => "RPC call timed out after "@ + duration_debug_text(d),
            ShellErrorOf::RpcSenderError => "RPC sender error (actor may have stopped)"@,
            ShellErrorOf::SpawnError(m) => "Failed to spawn actor: "@ + m,
            ShellErrorOf::MessagingError(m) => "Failed to send message: "@ + m,
            ShellErrorOf::NoIntrospectionActor => "No introspection actor found on remote node. Make sure the target node has spawned an IntrospectionActor."@,
            ShellErrorOf::ConnectionFailed { host, message } => "Connection failed to "@ + host + ": "@ + message,
            ShellErrorOf::FileReadError { path, message } => "Failed to read file '"@ + path + "': "@ + message,
            ShellErrorOf::JsonParseError(m) => "JSON parse error: "@ + m + ". Example: {\"command\": \"value\"}"@,
            ShellErrorOf::ParseError(m) => "Parse error: "@ + m,
            ShellErrorOf::NotImplemented(m) => m,
            ShellErrorOf::RemoteOperationFailed(m) => "Remote operation failed: "@ + m,
            ShellErrorOf::ClusterError(m) => "Cluster error: "@ + m,
            ShellErrorOf::IoError { operation, path, message } => "IO error during "@ + operation + " at '"@ + path + "': "@ + message,
    }
}

/// ractor's error for a message that could not be sent.
#[verifier::external_type_specification]
#[verifier::external_body]
#[verifier::reject_recursive_types(T)]
pub struct ExMessagingErr<T>(ractor::MessagingErr<T>);

/// Which way sending a message failed, as ractor's `MessagingErr` tells it.
#[derive(Debug, Clone, Copy, PartialEq, Eq, Structural)]
pub enum MessagingFailure {
    /// The receiving channel was closed; the message came back
    SendErr,
    /// All senders of the channel were dropped
    ChannelClosed,
    /// The actor has another message type
    InvalidActorType,
}

/// The `Debug` text ractor writes for a messaging error of the given kind (its hand-written
/// `Debug` impl ignores the message that failed to send).
pub open spec fn messaging_failure_text(f: MessagingFailure) -> Seq<char> {
    match f {
        MessagingFailure::SendErr => "SendErr"@,
        MessagingFailure::ChannelClosed => "RecvErr"@,
        MessagingFailure::InvalidActorType => "InvalidActorType"@,
    }
}

/// Tells apart the variants of ractor's `MessagingErr`, one arm each. Nothing is stated of which
/// variant a given error is, since Verus sees nothing inside it.
#[verifier::external_body]
fn messaging_failure_of<T>(err: &ractor::MessagingErr<T>) -> (f: MessagingFailure) {
    match err {
        ractor::MessagingErr::SendErr(_) => MessagingFailure::SendErr,
        ractor::MessagingErr::ChannelClosed => MessagingFailure::ChannelClosed,
        ractor::MessagingErr::InvalidActorType => MessagingFailure::InvalidActorType,
    }
}

/// The text of a messaging error, as ractor's `Debug` writes it.
fn messaging_failure_string(f: MessagingFailure) -> (s: String)
    ensures
        s@ == messaging_failure_text(f),
{
    match f {
        MessagingFailure::SendErr => "SendErr".to_string(),
        MessagingFailure::ChannelClosed => "RecvErr".to_string(),
        MessagingFailure::InvalidActorType => "InvalidActorType".to_string(),
    }
}

impl ShellErrorOf<String, &'static str> {
    /// The timeout error of an RPC that waited the default timeout.
    pub fn rpc_timeout() -> (e: Self)
        ensures
            e@ == ShellErrorOf::<Seq<char>, Seq<char>>::RpcTimeout(seconds(DEFAULT_RPC_TIMEOUT_SECS)),
    {
        ShellErrorOf::RpcTimeout(default_rpc_timeout())
    }

    /// The error for a message that could not be sent: a messaging error carrying ractor's
    /// `Debug` text of `err` (`SendErr`, `RecvErr` or `InvalidActorType`).
    pub fn messaging<T: std::fmt::Debug>(err: ractor::MessagingErr<T>) -> (e: Self)
        ensures
            exists|f: MessagingFailure|
                e@ == ShellErrorOf::<Seq<char>, Seq<char>>::MessagingError(messaging_failure_text(f)),
    {
        let f = messaging_failure_of(&err);
        ShellErrorOf::MessagingError(messaging_failure_string(f))
    }

    /// The message that describes this error.
    pub fn message(&self) -> (s: String)
        ensures
            s@ == error_text(self@),
    {
        let mut s = String::new();
        match self {
            ShellErrorOf::ActorNotFound(a) => {
                push_str(&mut s, "Actor '");
                push_str(&mut s, a);
                push_str(&mut s, "' not found in registry. Use 'registry' command to list registered actors.");
            },
            ShellErrorOf::RemoteActorNotFound { actor, node } => {
                push_str(&mut s, "Actor '");
                push_str(&mut s, actor);
                push_str(&mut s, "' not found on node '");
                push_str(&mut s, node);
                push_str(&mut s, "'.");
            },
            ShellErrorOf::NodeNotConnected(n) => {
                push_str(&mut s, "Not connected to node '");
                push_str(&mut s, n);
                push_str(&mut s, "'. Use 'nodes' to see connected nodes.");
            },
            ShellErrorOf::EmptyCommand => {
                push_str(&mut s, "Empty command");
            },
            ShellErrorOf::UnknownCommand(c) => {
                push_str(&mut s, "Unknown command: '");
                push_str(&mut s, c);
                push_str(&mut s, "'. Type 'help' to see available commands.");
            },
            ShellErrorOf::MissingArgument { command, requirement } => {
                push_str(&mut s, command);
                push_str(&mut s, " requires ");
                push_str(&mut s, requirement);
                push_str(&mut s, ". Type 'help ");
                push_str(&mut s, command);
                push_str(&mut s, "' for usage.");
            },
            ShellErrorOf::UnknownSubcommand { parent, subcommand } => {
                push_str(&mut s, "Unknown ");
                push_str(&mut s, parent);
                push_str(&mut s, " subcommand: '");
                push_str(&mut s, subcommand);
                push_str(&mut s, "'. Type 'help ");
                push_str(&mut s, parent);
                push_str(&mut s, "' for usage.");
            },
            ShellErrorOf::InvalidArgument { command, message } => {
                push_str(&mut s, command);
                push_str(&mut s, ": ");
                push_str(&mut s, message);
            },
            ShellErrorOf::RpcTimeout(d) => {
                push_str(&mut s, "RPC call timed out after ");
                let t = debug_duration(d);
                push_str(&mut s, t.as_str());
            },
            ShellErrorOf::RpcSenderError => {
                push_str(&mut s, "RPC sender error (actor may have stopped)");
            },
            ShellErrorOf::SpawnError(m) => {
                push_str(&mut s, "Failed to spawn actor: ");
                push_str(&mut s, m);
            },
            ShellErrorOf::MessagingError(m) => {
                push_str(&mut s, "Failed to send message: ");
                push_str(&mut s, m);
            },
            ShellErrorOf::NoIntrospectionActor => {
                push_str(&mut s, "No introspection actor found on remote node. Make sure the target node has spawned an IntrospectionActor.");
            },
            ShellErrorOf::ConnectionFailed { host, message } => {
                push_str(&mut s, "Connection failed to ");
                push_str(&mut s, host);
                push_str(&mut s, ": ");
                push_str(&mut s, message);
            },
            ShellErrorOf::FileReadError { path, message } => {
                push_str(&mut s, "Failed to read file '");
                push_str(&mut s, path);
                push_str(&mut s, "': ");
                push_str(&mut s, message);
            },
            ShellErrorOf::JsonParseError(m) => {
                push_str(&mut s, "JSON parse error: ");
                push_str(&mut s, m);
                push_str(&mut s, ". Example: {\"command\": \"value\"}");
            },
            ShellErrorOf::ParseError(m) => {
                push_str(&mut s, "Parse error: ");
                push_str(&mut s, m);
            },
            ShellErrorOf::NotImplemented(m) => {
                push_str(&mut s, m);
            },
            ShellErrorOf::RemoteOperationFailed(m) => {
                push_str(&mut s, "Remote operation failed: ");
                push_str(&mut s, m);
            },
            ShellErrorOf::ClusterError(m) => {
                push_str(&mut s, "Cluster error: ");
                push_str(&mut s, m);
            },
            ShellErrorOf::IoError { operation, path, message } => {
                push_str(&mut s, "IO error during ");
                push_str(&mut s, operation);
                push_str(&mut s, " at '");
                push_str(&mut s, path);
                push_str(&mut s, "': ");
                push_str(&mut s, message);
            },
        }
        s
    }
}

} // verus!
