//! Trace events, trace levels and the wildcard patterns that select them.

use vstd::prelude::*;

use crate::protocol::SerializableTraceEvent;
use crate::text::{chars_of, lowercase, push_str, str_eq, to_lowercase};

verus! {

/// Whether `text` matches the wildcard `pattern` as a whole: `*` stands for any run of
/// characters (also none), `?` for exactly one character, and every other character for itself.
pub open spec fn glob_match(pattern: Seq<char>, text: Seq<char>) -> bool
    decreases pattern.len() + text.len(),
{
    if pattern.len() == 0 {
        text.len() == 0
    } else if pattern[0] == '*' {
        glob_match(pattern.drop_first(), text) || (text.len() > 0 && glob_match(
            pattern,
            text.drop_first(),
        ))
    } else {
        text.len() > 0 && (pattern[0] == '?' || pattern[0] == text[0]) && glob_match(
            pattern.drop_first(),
            text.drop_first(),
        )
    }
}

/// Simple wildcard matching (supports `*` and `?` wildcards).
pub fn wildcard_match(pattern: &str, text: &str) -> (b: bool)
    ensures
        b == glob_match(pattern@, text@),
{
    let p = chars_of(pattern);
    let t = chars_of(text);
    let lp = p.len();
    let lt = t.len();
    // next[j] == glob_match(p[i+1..], t[j..]) for the row below the one being filled.
    let mut next: Vec<bool> = Vec::new();
    let mut j: usize = 0;
    while j < lt
        invariant
            j <= lt,
            lt == t@.len(),
            next@.len() == j,
            forall|k: int| 0 <= k < j ==> next@[k] == false,
        decreases lt - j,
    {
        next.push(false);
        j = j + 1;
    }
    next.push(true);
    proof {
        assert forall|k: int| 0 <= k <= lt implies next@[k] == glob_match(
            p@.skip(lp as int),
            t@.skip(k),
        ) by {
            assert(p@.skip(lp as int).len() == 0);
        }
    }
    let mut i: usize = lp;
    while i > 0
        invariant
            i <= lp,
            lp == p@.len(),
            lt == t@.len(),
            next@.len() == lt + 1,
            forall|k: int| 0 <= k <= lt ==> next@[k] == glob_match(p@.skip(i as int), t@.skip(k)),
        decreases i,
    {
        i = i - 1;
        let pc = p[i];
        let mut row: Vec<bool> = Vec::new();
        let mut jj: usize = 0;
        while jj < lt
            invariant
                jj <= lt,
                row@.len() == jj,
            decreases lt - jj,
        {
            row.push(false);
            jj = jj + 1;
        }
        // The last column: an empty remainder of the text.
        row.push(pc == '*' && next[lt]);
        proof {
            assert(p@.skip(i as int).drop_first() =~= p@.skip(i + 1));
            assert(p@.skip(i as int)[0] == pc);
        }
        proof {
            if pc != '*' {
                assert(!glob_match(p@.skip(i as int), t@.skip(lt as int)));
            }
        }
        let mut k: usize = lt;
        while k > 0
            invariant
                k <= lt,
                i < lp,
                lp == p@.len(),
                lt == t@.len(),
                pc == p@[i as int],
                p@.skip(i as int).drop_first() == p@.skip(i + 1),
                p@.skip(i as int)[0] == pc,
                p@.skip(i as int).len() > 0,
                next@.len() == lt + 1,
                row@.len() == lt + 1,
                forall|q: int|
                    0 <= q <= lt ==> next@[q] == glob_match(p@.skip(i + 1), t@.skip(q)),
                forall|q: int|
                    k <= q <= lt ==> row@[q] == glob_match(p@.skip(i as int), t@.skip(q)),
            decreases k,
        {
            k = k - 1;
            proof {
                if k < lt {
                    assert(t@.skip(k as int).drop_first() =~= t@.skip(k + 1));
                    assert(t@.skip(k as int)[0] == t@[k as int]);
                }
            }
            let v = if pc == '*' {
                next[k] || (k < lt && row[k + 1])
            } else {
                k < lt && (pc == '?' || pc == t[k]) && next[k + 1]
            };
            row.set(k, v);
        }
        next = row;
    }
    assert(p@.skip(0) =~= p@);
    assert(t@.skip(0) =~= t@);
    next[0]
}


/// Minimum severity of trace events to display.
#[derive(Debug, Clone, Copy, PartialEq, Eq, Structural)]
pub enum MinLevel {
    Trace,
    Debug,
    Info,
    Warn,
    Error,
}

/// Severity rank of a level, from `Trace` (least severe) to `Error` (most severe).
pub open spec fn severity(l: MinLevel) -> int {
    match l {
        MinLevel::Trace => 0,
        MinLevel::Debug => 1,
        MinLevel::Info => 2,
        MinLevel::Warn => 3,
        MinLevel::Error => 4,
    }
}

/// Check if an event at the given level should be displayed based on the minimum level:
/// true if the event level is at least as severe as `min_level`.
pub fn should_display_level(event_level: &MinLevel, min_level: &MinLevel) -> (b: bool)
    ensures
        b == (severity(*event_level) >= severity(*min_level)),
{
    let event_severity: u8 = match event_level {
        MinLevel::Trace => 0,
        MinLevel::Debug => 1,
        MinLevel::Info => 2,
        MinLevel::Warn => 3,
        MinLevel::Error => 4,
    };
    let min_severity: u8 = match min_level {
        MinLevel::Trace => 0,
        MinLevel::Debug => 1,
        MinLevel::Info => 2,
        MinLevel::Warn => 3,
        MinLevel::Error => 4,
    };
    event_severity >= min_severity
}

/// Verbosity level of a trace event.
#[derive(Debug, Clone, Copy, PartialEq, Eq, Structural)]
pub enum Level {
    Trace,
    Debug,
    Info,
    Warn,
    Error,
}

/// The display name of a level.
pub open spec fn level_name(l: Level) -> Seq<char> {
    match l {
        Level::Trace => "TRACE"@,
        Level::Debug => "DEBUG"@,
        Level::Info => "INFO"@,
        Level::Warn => "WARN"@,
        Level::Error => "ERROR"@,
    }
}

impl Level {
    /// The display name of this level (`TRACE`, `DEBUG`, `INFO`, `WARN` or `ERROR`).
    pub fn as_str(&self) -> (s: &'static str)
        ensures
            s@ == level_name(*self),
    {
        match self {
            Level::Trace => "TRACE",
            Level::Debug => "DEBUG",
            Level::Info => "INFO",
            Level::Warn => "WARN",
            Level::Error => "ERROR",
        }
    }
}

/// Kind of a trace event.
#[derive(Debug, Clone, Copy, PartialEq, Eq, Structural)]
pub enum TraceEventType {
    /// A span was entered.
    SpanEnter,
    /// A span was exited.
    SpanExit,
    /// A standalone event.
    Event,
}

/// The display name of an event kind.
pub open spec fn event_type_name(t: TraceEventType) -> Seq<char> {
    match t {
        TraceEventType::SpanEnter => "ENTER"@,
        TraceEventType::SpanExit => "EXIT"@,
        TraceEventType::Event => "EVENT"@,
    }
}

impl TraceEventType {
    /// The display name of this kind (`ENTER`, `EXIT` or `EVENT`).
    pub fn as_str(&self) -> (s: &'static str)
        ensures
            s@ == event_type_name(*self),
    {
        match self {
            TraceEventType::SpanEnter => "ENTER",
            TraceEventType::SpanExit => "EXIT",
            TraceEventType::Event => "EVENT",
        }
    }
}

/// A recorded trace event.
#[derive(Debug)]
pub struct TraceEvent {
    /// When the event happened.
    pub timestamp: crate::time::Timestamp,
    /// Actor ID (e.g., "0.1")
    pub actor_id: Option<String>,
    /// Actor name (if registered)
    pub actor_name: Option<String>,
    /// Span enter, exit, or event
    pub event_type: TraceEventType,
    /// Verbosity level
    pub level: Level,
    /// Span/event target (module path)
    pub target: String,
    /// Event message or span name
    pub message: String,
    /// Additional fields
    pub fields: Vec<(String, String)>,
}

/// The mathematical value of a trace event: its texts as character sequences.
pub struct TraceEventView {
    pub timestamp: crate::time::Timestamp,
    pub actor_id: Option<Seq<char>>,
    pub actor_name: Option<Seq<char>>,
    pub event_type: TraceEventType,
    pub level: Level,
    pub target: Seq<char>,
    pub message: Seq<char>,
    pub fields: Seq<(Seq<char>, Seq<char>)>,
}

/// The text of an optional string.
pub open spec fn opt_view(o: Option<String>) -> Option<Seq<char>> {
    match o {
        Some(s) => Some(s@),
        None => None,
    }
}

/// The texts of a list of key/value fields.
pub open spec fn fields_view(f: Seq<(String, String)>) -> Seq<(Seq<char>, Seq<char>)> {
    f.map_values(|p: (String, String)| (p.0@, p.1@))
}

impl View for TraceEvent {
    type V = TraceEventView;

    open spec fn view(&self) -> TraceEventView {
        TraceEventView {
            timestamp: self.timestamp,
            actor_id: opt_view(self.actor_id),
            actor_name: opt_view(self.actor_name),
            event_type: self.event_type,
            level: self.level,
            target: self.target@,
            message: self.message@,
            fields: fields_view(self.fields@),
        }
    }
}

/// The views of a sequence of trace events.
pub open spec fn event_views(s: Seq<TraceEvent>) -> Seq<TraceEventView> {
    s.map_values(|e: TraceEvent| e@)
}

impl TraceEvent {
    /// A copy of this event.
    pub fn copy(&self) -> (r: TraceEvent)
        ensures
            r@ == self@,
    {
        TraceEvent {
            timestamp: self.timestamp,
            actor_id: crate::protocol::copy_opt(&self.actor_id),
            actor_name: crate::protocol::copy_opt(&self.actor_name),
            event_type: self.event_type,
            level: self.level,
            target: self.target.clone(),
            message: self.message.clone(),
            fields: crate::protocol::copy_fields(&self.fields),
        }
    }
}

/// Whether an optional text is present and matches the pattern.
pub open spec fn opt_matches(pattern: Seq<char>, o: Option<String>) -> bool {
    match o {
        Some(t) => glob_match(pattern, t@),
        None => false,
    }
}

/// Whether a trace event is selected by a subscription pattern: `*` selects every event,
/// any other pattern selects the events whose actor name, actor ID or target it matches.
pub open spec fn event_matches(pattern: Seq<char>, event: TraceEvent) -> bool {
    ||| pattern == "*"@
    ||| opt_matches(pattern, event.actor_name)
    ||| opt_matches(pattern, event.actor_id)
    ||| glob_match(pattern, event.target@)
}

/// Check if a trace event matches a subscription pattern.
pub fn matches_pattern(pattern: &str, event: &TraceEvent) -> (b: bool)
    ensures
        b == event_matches(pattern@, *event),
{
    if str_eq(pattern, "*") {
        return true;
    }
    if let Some(actor_name) = &event.actor_name {
        if wildcard_match(pattern, actor_name.as_str()) {
            return true;
        }
    }
    if let Some(actor_id) = &event.actor_id {
        if wildcard_match(pattern, actor_id.as_str()) {
            return true;
        }
    }
    wildcard_match(pattern, event.target.as_str())
}

/// A pattern made of a single `*` matches every text.
pub proof fn lemma_star_matches_all(text: Seq<char>)
    ensures
        glob_match("*"@, text),
{
    reveal_strlit("*");
    let p = seq!['*'];
    assert(p =~= "*"@);
    lemma_single_star(text);
}

proof fn lemma_single_star(text: Seq<char>)
    ensures
        glob_match(seq!['*'], text),
    decreases text.len(),
{
    let p = seq!['*'];
    assert(p.drop_first() =~= Seq::<char>::empty());
    if text.len() > 0 {
        lemma_single_star(text.drop_first());
    } else {
        assert(glob_match(p.drop_first(), text));
    }
}

/// A pattern without wildcards matches exactly the text equal to it.
pub proof fn lemma_literal_pattern(pattern: Seq<char>, text: Seq<char>)
    requires
        forall|i: int| 0 <= i < pattern.len() ==> pattern[i] != '*' && pattern[i] != '?',
    ensures
        glob_match(pattern, text) <==> pattern == text,
    decreases pattern.len() + text.len(),
{
    if pattern.len() == 0 {
        if text.len() > 0 {
            assert(pattern.len() != text.len());
        } else {
            assert(pattern =~= text);
        }
    } else if text.len() == 0 {
        assert(pattern.len() != text.len());
    } else {
        assert(pattern[0] != '*' && pattern[0] != '?');
        assert forall|i: int| 0 <= i < pattern.drop_first().len() implies pattern.drop_first()[i]
            != '*' && pattern.drop_first()[i] != '?' by {
            assert(pattern.drop_first()[i] == pattern[i + 1]);
        }
        lemma_literal_pattern(pattern.drop_first(), text.drop_first());
        if pattern[0] == text[0] && pattern.drop_first() == text.drop_first() {
            assert forall|i: int| 0 <= i < pattern.len() implies pattern[i] == text[i] by {
                if i > 0 {
                    assert(pattern[i] == pattern.drop_first()[i - 1]);
                    assert(text[i] == text.drop_first()[i - 1]);
                }
            }
            assert(pattern =~= text);
        }
        if pattern == text {
            assert(pattern.drop_first() =~= text.drop_first());
        }
    }
}

/// The subscription pattern `*` selects every trace event.
pub proof fn lemma_star_selects_every_event(event: TraceEvent)
    ensures
        event_matches("*"@, event),
{
}

/// The minimum level a name stands for, once lower-cased: `trace`, `debug`, `info`, `warn` or
/// `error`; no level for any other name.
pub open spec fn min_level_named(lower: Seq<char>) -> Option<MinLevel> {
    if lower == "trace"@ {
        Some(MinLevel::Trace)
    } else if lower == "debug"@ {
        Some(MinLevel::Debug)
    } else if lower == "info"@ {
        Some(MinLevel::Info)
    } else if lower == "warn"@ {
        Some(MinLevel::Warn)
    } else if lower == "error"@ {
        Some(MinLevel::Error)
    } else {
        None
    }
}

/// The display name of a minimum level.
pub open spec fn min_level_name(l: MinLevel) -> Seq<char> {
    match l {
        MinLevel::Trace => "TRACE"@,
        MinLevel::Debug => "DEBUG"@,
        MinLevel::Info => "INFO"@,
        MinLevel::Warn => "WARN"@,
        MinLevel::Error => "ERROR"@,
    }
}

impl MinLevel {
    /// The level named by `s`, in any letter case.
    pub fn parse_name(s: &str) -> (r: Option<MinLevel>)
        ensures
            r == min_level_named(lowercase(s@)),
    {
        let lower = to_lowercase(s);
        let l = lower.as_str();
        if str_eq(l, "trace") {
            Some(MinLevel::Trace)
        } else if str_eq(l, "debug") {
            Some(MinLevel::Debug)
        } else if str_eq(l, "info") {
            Some(MinLevel::Info)
        } else if str_eq(l, "warn") {
            Some(MinLevel::Warn)
        } else if str_eq(l, "error") {
            Some(MinLevel::Error)
        } else {
            None
        }
    }

    /// The display name of this level (`TRACE`, `DEBUG`, `INFO`, `WARN` or `ERROR`).
    pub fn name(&self) -> (s: &'static str)
        ensures
            s@ == min_level_name(*self),
    {
        match self {
            MinLevel::Trace => "TRACE",
            MinLevel::Debug => "DEBUG",
            MinLevel::Info => "INFO",
            MinLevel::Warn => "WARN",
            MinLevel::Error => "ERROR",
        }
    }
}

/// Whether a received event with the level name `level` is shown under the minimum level
/// `min`: events whose level cannot be read are always shown.
pub open spec fn event_visible(level: Seq<char>, min: MinLevel) -> bool {
    match min_level_named(lowercase(level)) {
        Some(l) => severity(l) >= severity(min),
        None => true,
    }
}

/// Whether a received trace event is shown under the minimum level `min`.
pub fn remote_event_visible(event: &SerializableTraceEvent, min: MinLevel) -> (b: bool)
    ensures
        b == event_visible(event.level@, min),
{
    match MinLevel::parse_name(event.level.as_str()) {
        Some(level) => should_display_level(&level, &min),
        None => true,
    }
}

/// How an actor is named in a received trace event: `name(id)` when it has a name, else its
/// ID, with `?` for a missing ID.
pub open spec fn actor_label_text(name: Option<String>, id: Option<String>) -> Seq<char> {
    let shown_id = match id {
        Some(i) => i@,
        None => "?"@,
    };
    match name {
        Some(n) => n@ + "("@ + shown_id + ")"@,
        None => shown_id,
    }
}

/// The label of the actor a received trace event is about.
pub fn actor_label(event: &SerializableTraceEvent) -> (s: String)
    ensures
        s@ == actor_label_text(event.actor_name, event.actor_id),
{
    let id: &str = match &event.actor_id {
        Some(i) => i.as_str(),
        None => "?",
    };
    match &event.actor_name {
        Some(n) => {
            let mut s = n.clone();
            push_str(&mut s, "(");
            push_str(&mut s, id);
            push_str(&mut s, ")");
            s
        },
        None => id.to_string(),
    }
}

/// Reading back a level's display name gives the level, and levels are shown exactly when they
/// are at least as severe as the minimum.
pub proof fn lemma_min_level_name_round_trip(l: MinLevel)
    ensures
        crate::text::all_ascii(min_level_name(l)),
        min_level_named(min_level_name(l).map_values(|c: char| crate::text::ascii_lower_char(c)))
            == Some(l),
{
    reveal_strlit("TRACE");
    reveal_strlit("DEBUG");
    reveal_strlit("INFO");
    reveal_strlit("WARN");
    reveal_strlit("ERROR");
    reveal_strlit("trace");
    reveal_strlit("debug");
    reveal_strlit("info");
    reveal_strlit("warn");
    reveal_strlit("error");
    let lowered = min_level_name(l).map_values(|c: char| crate::text::ascii_lower_char(c));
    assert("trace"@.len() == 5 && "debug"@.len() == 5 && "info"@.len() == 4);
    assert("warn"@.len() == 4 && "error"@.len() == 5);
    assert("trace"@[0] == 't' && "debug"@[0] == 'd' && "info"@[0] == 'i');
    assert("warn"@[0] == 'w' && "error"@[0] == 'e');
    match l {
        MinLevel::Trace => assert(lowered =~= "trace"@),
        MinLevel::Debug => assert(lowered =~= "debug"@),
        MinLevel::Info => assert(lowered =~= "info"@),
        MinLevel::Warn => assert(lowered =~= "warn"@),
        MinLevel::Error => assert(lowered =~= "error"@),
    }
}

/// The display filter is a total preorder on levels: every level shows under itself, of two
/// levels one shows under the other, and showing under a level carries over to every level that
/// shows under it.
pub proof fn lemma_display_level_preorder(a: MinLevel, b: MinLevel, c: MinLevel)
    ensures
        severity(a) >= severity(a),
        severity(a) >= severity(b) || severity(b) >= severity(a),
        severity(a) >= severity(b) && severity(b) >= severity(c) ==> severity(a) >= severity(c),
        severity(a) >= severity(b) && severity(b) >= severity(a) ==> a == b,
{
}


/// Levels are ordered from least to most severe as Trace, Debug, Info, Warn, Error, and an event
/// is shown exactly when its level is at or above the minimum: so an `ERROR` event is shown
/// under `trace level warn`, and a `WARN` event is hidden under `trace level error`.
pub proof fn lemma_levels_in_declared_order()
    ensures
        severity(MinLevel::Trace) < severity(MinLevel::Debug),
        severity(MinLevel::Debug) < severity(MinLevel::Info),
        severity(MinLevel::Info) < severity(MinLevel::Warn),
        severity(MinLevel::Warn) < severity(MinLevel::Error),
        severity(MinLevel::Error) >= severity(MinLevel::Warn),
        !(severity(MinLevel::Warn) >= severity(MinLevel::Error)),
        forall|m: MinLevel| severity(MinLevel::Error) >= #[trigger] severity(m),
        forall|e: MinLevel| #[trigger] severity(e) >= severity(MinLevel::Trace),
{
}

/// What selects an event: the pattern `*`; or the pattern matching the actor's name, if it has
/// one; or matching the actor's ID, if it has one (whether or not it also has a name); or
/// matching the target. Each of these alone selects it, and nothing else does.
pub proof fn lemma_event_selection(pattern: Seq<char>, event: TraceEvent)
    ensures
        pattern == "*"@ ==> event_matches(pattern, event),
        (event.actor_name matches Some(n) && glob_match(pattern, n@)) ==> event_matches(pattern, event),
        (event.actor_id matches Some(id) && glob_match(pattern, id@)) ==> event_matches(pattern, event),
        glob_match(pattern, event.target@) ==> event_matches(pattern, event),
        event_matches(pattern, event) ==> {
            ||| pattern == "*"@
            ||| (event.actor_name matches Some(n) && glob_match(pattern, n@))
            ||| (event.actor_id matches Some(id) && glob_match(pattern, id@))
            ||| glob_match(pattern, event.target@)
        },
{
}

} // verus!
