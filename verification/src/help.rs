//! Which help text a `help <command>` request asks for.

use vstd::prelude::*;

use crate::text::str_eq;

verus! {

/// A command with a help text of its own.
#[derive(Debug, Clone, Copy, PartialEq, Eq, Structural)]
pub enum HelpTopic {
    Actors,
    Registry,
    Pg,
    Info,
    Send,
    Call,
    Stop,
    SendFile,
    Load,
    Monitor,
    Unmonitor,
    Monitors,
    Top,
    Trace,
    TraceToFile,
    TraceRemote,
    Ping,
}

/// The help topic a command name asks for, with the alternative spellings `sendfile`,
/// `tracefile` and `traceremote`; none for other names.
pub open spec fn topic_named(n: Seq<char>) -> Option<HelpTopic> {
    if n == "actors"@ {
        Some(HelpTopic::Actors)
    } else if n == "registry"@ {
        Some(HelpTopic::Registry)
    } else if n == "pg"@ {
        Some(HelpTopic::Pg)
    } else if n == "info"@ {
        Some(HelpTopic::Info)
    } else if n == "send"@ {
        Some(HelpTopic::Send)
    } else if n == "call"@ {
        Some(HelpTopic::Call)
    } else if n == "stop"@ {
        Some(HelpTopic::Stop)
    } else if n == "send-file"@ || n == "sendfile"@ {
        Some(HelpTopic::SendFile)
    } else if n == "load"@ {
        Some(HelpTopic::Load)
    } else if n == "monitor"@ {
        Some(HelpTopic::Monitor)
    } else if n == "unmonitor"@ {
        Some(HelpTopic::Unmonitor)
    } else if n == "monitors"@ {
        Some(HelpTopic::Monitors)
    } else if n == "top"@ {
        Some(HelpTopic::Top)
    } else if n == "trace"@ {
        Some(HelpTopic::Trace)
    } else if n == "trace-to-file"@ || n == "tracefile"@ {
        Some(HelpTopic::TraceToFile)
    } else if n == "trace-remote"@ || n == "traceremote"@ {
        Some(HelpTopic::TraceRemote)
    } else if n == "ping"@ {
        Some(HelpTopic::Ping)
    } else {
        None
    }
}

/// The help topic for `help <cmd>`; `None` for a command without detailed help.
pub fn help_topic(cmd: &str) -> (t: Option<HelpTopic>)
    ensures
        t == topic_named(cmd@),
{
    if str_eq(cmd, "actors") {
        Some(HelpTopic::Actors)
    } else if str_eq(cmd, "registry") {
        Some(HelpTopic::Registry)
    } else if str_eq(cmd, "pg") {
        Some(HelpTopic::Pg)
    } else if str_eq(cmd, "info") {
        Some(HelpTopic::Info)
    } else if str_eq(cmd, "send") {
        Some(HelpTopic::Send)
    } else if str_eq(cmd, "call") {
        Some(HelpTopic::Call)
    } else if str_eq(cmd, "stop") {
        Some(HelpTopic::Stop)
    } else if str_eq(cmd, "send-file") || str_eq(cmd, "sendfile") {
        Some(HelpTopic::SendFile)
    } else if str_eq(cmd, "load") {
        Some(HelpTopic::Load)
    } else if str_eq(cmd, "monitor") {
        Some(HelpTopic::Monitor)
    } else if str_eq(cmd, "unmonitor") {
        Some(HelpTopic::Unmonitor)
    } else if str_eq(cmd, "monitors") {
        Some(HelpTopic::Monitors)
    } else if str_eq(cmd, "top") {
        Some(HelpTopic::Top)
    } else if str_eq(cmd, "trace") {
        Some(HelpTopic::Trace)
    } else if str_eq(cmd, "trace-to-file") || str_eq(cmd, "tracefile") {
        Some(HelpTopic::TraceToFile)
    } else if str_eq(cmd, "trace-remote") || str_eq(cmd, "traceremote") {
        Some(HelpTopic::TraceRemote)
    } else if str_eq(cmd, "ping") {
        Some(HelpTopic::Ping)
    } else {
        None
    }
}

} // verus!
