//! Actor lifecycle monitoring: the events that are monitored, how they are shown, and the
//! monitor's record of monitored actors and recent events.

use vstd::prelude::*;

use crate::buffer::{bounded_push_all, lemma_bounded_push_all, overflow};
use crate::cluster::digit_char;
use crate::completer_custom::contains_seq;
use crate::text::push_str;
use crate::time::Timestamp;

verus! {

/// Whether actor monitoring is available: monitoring is always supported.
pub fn is_monitoring_supported() -> (b: bool)
    ensures
        b,
{
    true
}

/// The escape sequence that selects the SGR attributes `codes` (such as `32` for green, or
/// `1;32` for bold green).
pub open spec fn sgr(codes: Seq<char>) -> Seq<char> {
    "\u{1b}["@ + codes + "m"@
}

/// What the `colored` crate makes of `text` when it prints it in the style whose escape
/// sequence is `style`: the text itself when colours are off, or the text between `style` and
/// the reset sequence `ESC [0m` when they are on (for text that holds no reset sequence of its
/// own; colored rewrites such text, which is left open here).
pub open spec fn painted(style: Seq<char>, text: Seq<char>, out: Seq<char>) -> bool {
    contains_seq(text, "\u{1b}[0m"@) || out == text || out == style + text + "\u{1b}[0m"@
}

/// `colored`'s `bright_black()` (SGR 90), written out with `to_string`. Whether colours are on
/// depends on the environment, so the contract states what holds either way.
#[verifier::external_body]
fn bright_black(s: &str) -> (r: String)
    ensures
        painted(sgr("90"@), s@, r@),
{
    colored::Colorize::bright_black(s).to_string()
}

/// `colored`'s `green()`, written out; see [`bright_black`].
#[verifier::external_body]
fn green(s: &str) -> (r: String)
    ensures
        painted(sgr("32"@), s@, r@),
{
    colored::Colorize::green(s).to_string()
}

/// `colored`'s `green().bold()`, written out; see [`bright_black`].
#[verifier::external_body]
fn green_bold(s: &str) -> (r: String)
    ensures
        painted(sgr("1;32"@), s@, r@),
{
    colored::Colorize::bold(colored::Colorize::green(s)).to_string()
}

/// `colored`'s `yellow()`, written out; see [`bright_black`].
#[verifier::external_body]
fn yellow(s: &str) -> (r: String)
    ensures
        painted(sgr("33"@), s@, r@),
{
    colored::Colorize::yellow(s).to_string()
}

/// `colored`'s `yellow().bold()`, written out; see [`bright_black`].
#[verifier::external_body]
fn yellow_bold(s: &str) -> (r: String)
    ensures
        painted(sgr("1;33"@), s@, r@),
{
    colored::Colorize::bold(colored::Colorize::yellow(s)).to_string()
}

/// `colored`'s `red()`, written out; see [`bright_black`].
#[verifier::external_body]
fn red(s: &str) -> (r: String)
    ensures
        painted(sgr("31"@), s@, r@),
{
    colored::Colorize::red(s).to_string()
}

/// `colored`'s `red().bold()`, written out; see [`bright_black`].
#[verifier::external_body]
fn red_bold(s: &str) -> (r: String)
    ensures
        painted(sgr("1;31"@), s@, r@),
{
    colored::Colorize::bold(colored::Colorize::red(s)).to_string()
}

/// `colored`'s `cyan()`, written out; see [`bright_black`].
#[verifier::external_body]
fn cyan(s: &str) -> (r: String)
    ensures
        painted(sgr("36"@), s@, r@),
{
    colored::Colorize::cyan(s).to_string()
}

/// The last `width` decimal digits of `n`, with leading zeros.
pub open spec fn padded(n: nat, width: nat) -> Seq<char>
    decreases width,
{
    if width == 0 {
        Seq::empty()
    } else {
        padded(n / 10, (width - 1) as nat).push(digit_char(n % 10))
    }
}

/// The wall-clock time of day of an instant at its UTC offset, as chrono's
/// `format("%H:%M:%S%.3f")` writes it: hours, minutes and seconds of the local day in two
/// digits each (a leap second shows as second 60), then a point and the milliseconds in three
/// digits.
pub open spec fn clock_text(unix_secs: i64, nanos: u32, offset_secs: i32) -> Seq<char> {
    let day_secs = (unix_secs + offset_secs) % 86_400;
    let hour = day_secs / 3600;
    let minute = (day_secs % 3600) / 60;
    let second = day_secs % 60 + nanos / 1_000_000_000;
    let millis = (nanos / 1_000_000) % 1000;
    padded(hour as nat, 2) + ":"@ + padded(minute as nat, 2) + ":"@ + padded(second as nat, 2)
        + "."@ + padded(millis as nat, 3)
}

/// chrono's `DateTime::format("%H:%M:%S%.3f")` of the instant at the given offset: the local
/// time of day as [`clock_text`] states it (chrono's `Second` prints `second + nanosecond /
/// 1_000_000_000` and `Nanosecond3` prints `nanosecond / 1_000_000 % 1000`, both zero-padded).
#[verifier::external_body]
fn chrono_clock(unix_secs: i64, nanos: u32, offset_secs: i32) -> (s: String)
    requires
        (Timestamp { unix_secs, nanos, offset_secs }).valid(),
    ensures
        s@ == clock_text(unix_secs, nanos, offset_secs),
{
    let offset = chrono::FixedOffset::east_opt(offset_secs).unwrap();
    chrono::DateTime::from_timestamp(unix_secs, nanos)
        .unwrap()
        .with_timezone(&offset)
        .format("%H:%M:%S%.3f")
        .to_string()
}

/// Events that can be monitored.
#[derive(Debug, Clone)]
pub enum MonitorEvent {
    /// Actor started
    ActorStarted { actor_id: String, actor_name: Option<String>, timestamp: Timestamp },
    /// Actor stopped normally
    ActorStopped {
        actor_id: String,
        actor_name: Option<String>,
        reason: String,
        timestamp: Timestamp,
    },
    /// Actor panicked
    ActorPanicked {
        actor_id: String,
        actor_name: Option<String>,
        error: String,
        timestamp: Timestamp,
    },
    /// Actor killed
    ActorKilled { actor_id: String, actor_name: Option<String>, timestamp: Timestamp },
}

/// The name shown for an actor: its name, or `unnamed`.
pub open spec fn shown_name(name: Option<String>) -> Seq<char> {
    match name {
        Some(n) => n@,
        None => "unnamed"@,
    }
}

impl MonitorEvent {
    /// When the event happened.
    pub open spec fn time(self) -> Timestamp {
        match self {
            MonitorEvent::ActorStarted { timestamp, .. } => timestamp,
            MonitorEvent::ActorStopped { timestamp, .. } => timestamp,
            MonitorEvent::ActorPanicked { timestamp, .. } => timestamp,
            MonitorEvent::ActorKilled { timestamp, .. } => timestamp,
        }
    }

    /// The plain texts of the parts of the event's line, before styling: the bracketed time, the
    /// symbol, the kind, the actor's name, its parenthesised ID and, for stops and panics, the
    /// reason or error.
    pub open spec fn parts(self) -> Seq<Seq<char>> {
        let ts = self.time();
        let time = "["@ + clock_text(ts.unix_secs, ts.nanos, ts.offset_secs) + "]"@;
        match self {
            MonitorEvent::ActorStarted { actor_id, actor_name, .. } => seq![
                time,
                "▲"@,
                "STARTED"@,
                shown_name(actor_name),
                "("@ + actor_id@ + ")"@,
            ],
            MonitorEvent::ActorStopped { actor_id, actor_name, reason, .. } => seq![
                time,
                "▼"@,
                "STOPPED"@,
                shown_name(actor_name),
                "("@ + actor_id@ + ")"@,
                reason@,
            ],
            MonitorEvent::ActorPanicked { actor_id, actor_name, error, .. } => seq![
                time,
                "✗"@,
                "PANICKED"@,
                shown_name(actor_name),
                "("@ + actor_id@ + ")"@,
                error@,
            ],
            MonitorEvent::ActorKilled { actor_id, actor_name, .. } => seq![
                time,
                "⊗"@,
                "KILLED"@,
                shown_name(actor_name),
                "("@ + actor_id@ + ")"@,
            ],
        }
    }
}

impl MonitorEvent {
    /// The escape sequence of each part's style: the time and ID bright black, the symbol and
    /// kind green for a start, yellow for a stop, red for a panic or kill (the kind in bold), the
    /// name cyan, a stop's reason bright black and a panic's error red.
    pub open spec fn styles(self) -> Seq<Seq<char>> {
        match self {
            MonitorEvent::ActorStarted { .. } => seq![
                sgr("90"@),
                sgr("32"@),
                sgr("1;32"@),
                sgr("36"@),
                sgr("90"@),
            ],
            MonitorEvent::ActorStopped { .. } => seq![
                sgr("90"@),
                sgr("33"@),
                sgr("1;33"@),
                sgr("36"@),
                sgr("90"@),
                sgr("90"@),
            ],
            MonitorEvent::ActorPanicked { .. } => seq![
                sgr("90"@),
                sgr("31"@),
                sgr("1;31"@),
                sgr("36"@),
                sgr("90"@),
                sgr("31"@),
            ],
            MonitorEvent::ActorKilled { .. } => seq![
                sgr("90"@),
                sgr("31"@),
                sgr("1;31"@),
                sgr("36"@),
                sgr("90"@),
            ],
        }
    }
}

/// Whether `out` is the event line made of `painted` forms of the parts, each in its style: the
/// first five joined by spaces, and a sixth, if any, after ` - `.
pub open spec fn formatted_line(
    parts: Seq<Seq<char>>,
    styles: Seq<Seq<char>>,
    painted_parts: Seq<Seq<char>>,
    out: Seq<char>,
) -> bool {
    &&& painted_parts.len() == parts.len()
    &&& forall|i: int|
        0 <= i < parts.len() ==> painted(styles[i], parts[i], #[trigger] painted_parts[i])
    &&& out == painted_parts[0] + " "@ + painted_parts[1] + " "@ + painted_parts[2] + " "@
        + painted_parts[3] + " "@ + painted_parts[4] + (if parts.len() > 5 {
        " - "@ + painted_parts[5]
    } else {
        Seq::<char>::empty()
    })
}

fn join_line(p: &Vec<String>) -> (out: String)
    requires
        p@.len() == 5 || p@.len() == 6,
    ensures
        out@ == p@[0]@ + " "@ + p@[1]@ + " "@ + p@[2]@ + " "@ + p@[3]@ + " "@ + p@[4]@ + (if p@.len() > 5 {
            " - "@ + p@[5]@
        } else {
            Seq::<char>::empty()
        }),
{
    let mut out = String::new();
    push_str(&mut out, p[0].as_str());
    push_str(&mut out, " ");
    push_str(&mut out, p[1].as_str());
    push_str(&mut out, " ");
    push_str(&mut out, p[2].as_str());
    push_str(&mut out, " ");
    push_str(&mut out, p[3].as_str());
    push_str(&mut out, " ");
    push_str(&mut out, p[4].as_str());
    if p.len() > 5 {
        push_str(&mut out, " - ");
        push_str(&mut out, p[5].as_str());
    }
    proof {
        assert(Seq::<char>::empty() + p@[0]@ =~= p@[0]@);
        if p@.len() == 5 {
            assert(out@ =~= out@ + Seq::<char>::empty());
        }
    }
    out
}

fn bracketed(open: &str, inner: &str, close: &str) -> (s: String)
    ensures
        s@ == open@ + inner@ + close@,
{
    let mut s = String::new();
    push_str(&mut s, open);
    push_str(&mut s, inner);
    push_str(&mut s, close);
    proof {
        assert(Seq::<char>::empty() + open@ =~= open@);
    }
    s
}

fn name_text(name: &Option<String>) -> (s: String)
    ensures
        s@ == shown_name(*name),
{
    match name {
        Some(n) => n.clone(),
        None => "unnamed".to_string(),
    }
}

impl MonitorEvent {
    /// Format the event for display: the time, a symbol, the kind, the actor's name (`unnamed`
    /// if it has none) and its ID, then the reason or error for stops and panics, each part
    /// styled.
    pub fn format(&self) -> (s: String)
        requires
            self.time().valid(),
        ensures
            exists|painted_parts: Seq<Seq<char>>|
                formatted_line(self.parts(), self.styles(), painted_parts, s@),
    {
        let mut p: Vec<String> = Vec::new();
        match self {
            MonitorEvent::ActorStarted { actor_id, actor_name, timestamp } => {
                let time = chrono_clock(timestamp.unix_secs, timestamp.nanos, timestamp.offset_secs);
                p.push(bright_black(bracketed("[", time.as_str(), "]").as_str()));
                p.push(green("▲"));
                p.push(green_bold("STARTED"));
                p.push(cyan(name_text(actor_name).as_str()));
                p.push(bright_black(bracketed("(", actor_id.as_str(), ")").as_str()));
            },
            MonitorEvent::ActorStopped { actor_id, actor_name, reason, timestamp } => {
                let time = chrono_clock(timestamp.unix_secs, timestamp.nanos, timestamp.offset_secs);
                p.push(bright_black(bracketed("[", time.as_str(), "]").as_str()));
                p.push(yellow("▼"));
                p.push(yellow_bold("STOPPED"));
                p.push(cyan(name_text(actor_name).as_str()));
                p.push(bright_black(bracketed("(", actor_id.as_str(), ")").as_str()));
                p.push(bright_black(reason.as_str()));
            },
            MonitorEvent::ActorPanicked { actor_id, actor_name, error, timestamp } => {
                let time = chrono_clock(timestamp.unix_secs, timestamp.nanos, timestamp.offset_secs);
                p.push(bright_black(bracketed("[", time.as_str(), "]").as_str()));
                p.push(red("✗"));
                p.push(red_bold("PANICKED"));
                p.push(cyan(name_text(actor_name).as_str()));
                p.push(bright_black(bracketed("(", actor_id.as_str(), ")").as_str()));
                p.push(red(error.as_str()));
            },
            MonitorEvent::ActorKilled { actor_id, actor_name, timestamp } => {
                let time = chrono_clock(timestamp.unix_secs, timestamp.nanos, timestamp.offset_secs);
                p.push(bright_black(bracketed("[", time.as_str(), "]").as_str()));
                p.push(red("⊗"));
                p.push(red_bold("KILLED"));
                p.push(cyan(name_text(actor_name).as_str()));
                p.push(bright_black(bracketed("(", actor_id.as_str(), ")").as_str()));
            },
        }
        let out = join_line(&p);
        proof {
            let pp = crate::text::views(p@);
            assert(pp.len() == p@.len());
            assert(forall|i: int| 0 <= i < p@.len() ==> pp[i] == #[trigger] p@[i]@);
            assert(formatted_line(self.parts(), self.styles(), pp, out@));
        }
        out
    }
}

/// The history after `e` is recorded in a history of at most `max` events: `e` is added and,
/// when that makes one too many, the oldest event is dropped.
pub open spec fn record_event(h: Seq<MonitorEvent>, e: MonitorEvent, max: nat) -> Seq<MonitorEvent> {
    if h.len() + 1 > max {
        h.push(e).drop_first()
    } else {
        h.push(e)
    }
}

/// State for the monitor actor.
pub struct MonitorState {
    /// Currently monitored actor names, each once, with the actor's ID
    pub monitored: Vec<(String, String)>,
    /// Event history (last `max_history` events)
    pub event_history: Vec<MonitorEvent>,
    /// Maximum events to keep in history
    pub max_history: usize,
    /// Quiet mode: events are recorded but not printed
    pub quiet: bool,
}

/// Arguments for spawning the monitor actor.
#[derive(Debug, Clone, Copy, PartialEq, Eq, Structural)]
pub struct MonitorArgs {
    /// Suppress printing of events
    pub quiet: bool,
}

impl Default for MonitorArgs {
    fn default() -> (a: Self)
        ensures
            !a.quiet,
    {
        MonitorArgs { quiet: false }
    }
}

impl MonitorState {
    /// Monitored names are distinct and the history keeps its bound.
    pub open spec fn wf(&self) -> bool {
        &&& crate::session::entry_names(self.monitored@).no_duplicates()
        &&& self.event_history@.len() <= self.max_history
    }

    /// Whether `name` is monitored.
    pub open spec fn monitors(&self, name: Seq<char>) -> bool {
        crate::session::entry_names(self.monitored@).contains(name)
    }

    fn find(&self, name: &str) -> (r: Option<usize>)
        requires
            self.wf(),
        ensures
            match r {
                Some(i) => i < self.monitored@.len() && self.monitored@[i as int].0@ == name@
                    && self.monitors(name@),
                None => !self.monitors(name@),
            },
    {
        let mut i: usize = 0;
        while i < self.monitored.len()
            invariant
                i <= self.monitored@.len(),
                forall|j: int| 0 <= j < i ==> self.monitored@[j].0@ != name@,
            decreases self.monitored.len() - i,
        {
            if crate::text::str_eq(self.monitored[i].0.as_str(), name) {
                proof {
                    assert(crate::session::entry_names(self.monitored@)[i as int] == name@);
                }
                return Some(i);
            }
            i = i + 1;
        }
        proof {
            let names = crate::session::entry_names(self.monitored@);
            if names.contains(name@) {
                let k = names.index_of(name@);
                assert(self.monitored@[k].0@ == name@);
            }
        }
        None
    }

    /// Whether an event about an actor with this name is reported: only named, monitored actors
    /// are.
    pub fn is_monitored(&self, actor_name: &Option<String>) -> (b: bool)
        requires
            self.wf(),
        ensures
            b == match actor_name {
                Some(n) => self.monitors(n@),
                None => false,
            },
    {
        match actor_name {
            Some(n) => self.find(n.as_str()).is_some(),
            None => false,
        }
    }

    /// Record an event in the history, dropping the oldest when there are too many.
    pub fn record(&mut self, event: MonitorEvent)
        requires
            old(self).wf(),
        ensures
            final(self).wf(),
            final(self).event_history@ == record_event(
                old(self).event_history@,
                event,
                old(self).max_history as nat,
            ),
            final(self).monitored == old(self).monitored,
            final(self).max_history == old(self).max_history,
            final(self).quiet == old(self).quiet,
            monitor_step(*old(self), MonitorOp::Record { event }, *final(self)),
    {
        let ghost h = self.event_history@;
        self.event_history.push(event);
        if self.event_history.len() > self.max_history {
            let _ = self.event_history.remove(0);
            proof {
                assert(self.event_history@ =~= h.push(event).drop_first());
            }
        }
    }

    /// Start monitoring `name`, given the ID of the registered actor of that name (`None`: not
    /// registered), at time `now`. A found actor is recorded (replacing an earlier entry) and a
    /// start event for it is added to the history; returns whether it was found.
    pub fn monitor(&mut self, name: String, found: Option<String>, now: Timestamp) -> (r: bool)
        requires
            old(self).wf(),
        ensures
            final(self).wf(),
            r == found is Some,
            match found {
                Some(id) => {
                    &&& final(self).monitors(name@)
                    &&& final(self).event_history@ == record_event(
                        old(self).event_history@,
                        MonitorEvent::ActorStarted { actor_id: id, actor_name: Some(name), timestamp: now },
                        old(self).max_history as nat,
                    )
                    &&& forall|n: Seq<char>| #[trigger] old(self).monitors(n) ==> final(self).monitors(n)
                    &&& forall|n: Seq<char>|
                        #[trigger] final(self).monitors(n) ==> old(self).monitors(n) || n == name@
                },
                None => final(self).monitored == old(self).monitored && final(self).event_history
                    == old(self).event_history,
            },
            final(self).max_history == old(self).max_history,
            monitor_step(*old(self), MonitorOp::Monitor { name, found, now }, *final(self)),
    {
        match found {
            Some(id) => {
                let ghost names = crate::session::entry_names(self.monitored@);
                match self.find(name.as_str()) {
                    Some(i) => {
                        let key = self.monitored[i].0.clone();
                        self.monitored.set(i, (key, id.clone()));
                        proof {
                            assert(crate::session::entry_names(self.monitored@) =~= names);
                        }
                    },
                    None => {
                        self.monitored.push((name.clone(), id.clone()));
                        proof {
                            let n2 = crate::session::entry_names(self.monitored@);
                            assert(n2 =~= names.push(name@));
                            assert(n2[names.len() as int] == name@);
                            assert forall|a: int, b: int| 0 <= a < b < n2.len() implies n2[a] != n2[b] by {
                                if b == names.len() {
                                    assert(names[a] != name@);
                                }
                            }
                            assert forall|n: Seq<char>| #[trigger] names.contains(n) implies n2.contains(n) by {
                                let k = names.index_of(n);
                                assert(n2[k] == n);
                            }
                            assert forall|n: Seq<char>| #[trigger] n2.contains(n) implies names.contains(n)
                                || n == name@ by {
                                let k = n2.index_of(n);
                                if k < names.len() {
                                    assert(names[k] == n);
                                }
                            }
                        }
                    },
                }
                self.record(MonitorEvent::ActorStarted { actor_id: id, actor_name: Some(name), timestamp: now });
                true
            },
            None => false,
        }
    }

    /// Stop monitoring `name`; returns whether it was monitored.
    pub fn unmonitor(&mut self, name: &str) -> (r: bool)
        requires
            old(self).wf(),
        ensures
            final(self).wf(),
            r == old(self).monitors(name@),
            !final(self).monitors(name@),
            forall|n: Seq<char>| n != name@ && #[trigger] old(self).monitors(n) ==> final(self).monitors(n),
            forall|n: Seq<char>| #[trigger] final(self).monitors(n) ==> old(self).monitors(n),
            final(self).event_history == old(self).event_history,
            final(self).max_history == old(self).max_history,
            monitor_step(*old(self), MonitorOp::Unmonitor { name: Ghost(name@) }, *final(self)),
    {
        match self.find(name) {
            Some(i) => {
                let ghost names = crate::session::entry_names(self.monitored@);
                let _ = self.monitored.remove(i);
                proof {
                    let n2 = crate::session::entry_names(self.monitored@);
                    assert(n2 =~= names.remove(i as int));
                    assert forall|a: int, b: int| 0 <= a < b < n2.len() implies n2[a] != n2[b] by {
                        let a2 = if a < i { a } else { a + 1 };
                        let b2 = if b < i { b } else { b + 1 };
                        assert(n2[a] == names[a2]);
                        assert(n2[b] == names[b2]);
                    }
                    assert(names[i as int] == name@);
                    if n2.contains(name@) {
                        let j = n2.index_of(name@);
                        let j2 = if j < i { j } else { j + 1 };
                        assert(names[j2] == name@);
                        assert(j2 != i);
                    }
                    assert forall|n: Seq<char>| #[trigger] n2.contains(n) implies names.contains(n) by {
                        let j = n2.index_of(n);
                        let j2 = if j < i { j } else { j + 1 };
                        assert(names[j2] == n);
                    }
                    assert forall|n: Seq<char>| n != name@ && #[trigger] names.contains(n) implies n2.contains(n) by {
                        let j = names.index_of(n);
                        if j < i {
                            assert(n2[j] == n);
                        } else {
                            assert(j != i);
                            assert(n2[j - 1] == n);
                        }
                    }
                }
                true
            },
            None => false,
        }
    }

    /// The names of the monitored actors.
    pub fn monitored_names(&self) -> (v: Vec<String>)
        ensures
            crate::text::views(v@) == crate::session::entry_names(self.monitored@),
    {
        let mut v: Vec<String> = Vec::new();
        let mut i: usize = 0;
        while i < self.monitored.len()
            invariant
                i <= self.monitored@.len(),
                crate::text::views(v@) == crate::session::entry_names(self.monitored@).take(i as int),
            decreases self.monitored.len() - i,
        {
            let ghost before = v@;
            let name = self.monitored[i].0.clone();
            v.push(name);
            proof {
                assert(crate::text::views(v@) =~= crate::text::views(before).push(name@));
                assert(crate::text::views(v@) =~= crate::session::entry_names(self.monitored@).take(i + 1));
            }
            i = i + 1;
        }
        proof {
            assert(crate::session::entry_names(self.monitored@).take(i as int) =~= crate::session::entry_names(self.monitored@));
        }
        v
    }

    /// Stop monitoring every actor; returns how many were monitored.
    pub fn clear_all(&mut self) -> (n: usize)
        ensures
            old(self).wf() ==> final(self).wf(),
            n == old(self).monitored@.len(),
            final(self).monitored@.len() == 0,
            monitor_step(*old(self), MonitorOp::ClearAll, *final(self)),
            final(self).event_history == old(self).event_history,
            final(self).max_history == old(self).max_history,
    {
        let n = self.monitored.len();
        self.monitored = Vec::new();
        assert(crate::session::entry_names(self.monitored@) =~= Seq::<Seq<char>>::empty());
        n
    }
}

impl MonitorState {
    /// An empty monitor state keeping the last 100 events.
    pub fn new(quiet: bool) -> (s: Self)
        ensures
            s.wf(),
            s.monitored@.len() == 0,
            s.event_history@.len() == 0,
            s.max_history == 100,
            s.quiet == quiet,
    {
        let s = MonitorState {
            monitored: Vec::new(),
            event_history: Vec::new(),
            max_history: 100,
            quiet,
        };
        assert(crate::session::entry_names(s.monitored@) =~= Seq::<Seq<char>>::empty());
        s
    }
}

impl Default for MonitorState {
    fn default() -> (s: Self)
        ensures
            s.wf(),
            s.monitored@.len() == 0,
            s.event_history@.len() == 0,
            s.max_history == 100,
            !s.quiet,
    {
        MonitorState::new(false)
    }
}


/// The history after the events `es` are recorded in order, each by [`record_event`].
pub open spec fn record_all(h: Seq<MonitorEvent>, es: Seq<MonitorEvent>, max: nat) -> Seq<MonitorEvent>
    decreases es.len(),
{
    if es.len() == 0 {
        h
    } else {
        record_event(record_all(h, es.drop_last(), max), es.last(), max)
    }
}

proof fn lemma_record_all_bounded(h: Seq<MonitorEvent>, es: Seq<MonitorEvent>, max: nat)
    requires
        max > 0,
    ensures
        record_all(h, es, max) == bounded_push_all(h, 0, max, es).0,
    decreases es.len(),
{
    if es.len() > 0 {
        lemma_record_all_bounded(h, es.drop_last(), max);
        let prev = record_all(h, es.drop_last(), max);
        if prev.len() + 1 > max {
            assert(prev.push(es.last()).drop_first() =~= prev.drop_first().push(es.last()));
        }
    }
}

/// Across any sequence of recorded events (monitor starts and supervision events; the other
/// operations leave the history as it is), a history that keeps at most `max` events holds
/// exactly the newest `max` of its events and the recorded ones, oldest dropped first, and never
/// more than `max`.
pub proof fn lemma_history_keeps_newest(h: Seq<MonitorEvent>, es: Seq<MonitorEvent>, max: nat)
    requires
        h.len() <= max,
    ensures
        record_all(h, es, max) == (h + es).skip(overflow(h.len() + es.len(), max) as int),
        record_all(h, es, max).len() <= max,
{
    if max > 0 {
        lemma_record_all_bounded(h, es, max);
        lemma_bounded_push_all(h, 0, max, es);
    } else {
        lemma_record_all_keeps_nothing(h, es);
        assert((h + es).skip((h.len() + es.len()) as int) =~= Seq::<MonitorEvent>::empty());
    }
}

proof fn lemma_record_all_keeps_nothing(h: Seq<MonitorEvent>, es: Seq<MonitorEvent>)
    requires
        h.len() == 0,
    ensures
        record_all(h, es, 0) == Seq::<MonitorEvent>::empty(),
    decreases es.len(),
{
    if es.len() == 0 {
        assert(h =~= Seq::<MonitorEvent>::empty());
    } else {
        lemma_record_all_keeps_nothing(h, es.drop_last());
        assert(Seq::<MonitorEvent>::empty().push(es.last()).drop_first() =~= Seq::<MonitorEvent>::empty());
    }
}


/// One operation of the monitor actor on its state, as a message asks for it: start monitoring
/// a name (with the ID of the registered actor, `None` if there is none, and the time), stop
/// monitoring one, stop monitoring all, or record a supervision event. Listing the monitored
/// names changes nothing.
pub enum MonitorOp {
    /// Start monitoring `name`
    Monitor { name: String, found: Option<String>, now: Timestamp },
    /// Stop monitoring the name
    Unmonitor { name: Ghost<Seq<char>> },
    /// Stop monitoring every actor
    ClearAll,
    /// Record an event in the history
    Record { event: MonitorEvent },
}

/// Whether `after` is what the operation `op` makes of `before`, as the operation's function
/// states it.
pub open spec fn monitor_step(before: MonitorState, op: MonitorOp, after: MonitorState) -> bool {
    &&& after.max_history == before.max_history
    &&& before.wf() ==> after.wf()
    &&& match op {
        MonitorOp::Monitor { name, found, now } => match found {
            Some(id) => {
                &&& after.event_history@ == record_event(
                    before.event_history@,
                    MonitorEvent::ActorStarted { actor_id: id, actor_name: Some(name), timestamp: now },
                    before.max_history as nat,
                )
                &&& forall|n: Seq<char>|
                    #![trigger after.monitors(n)]
                    #![trigger before.monitors(n)]
                    after.monitors(n) <==> (before.monitors(n) || n == name@)
            },
            None => after.monitored == before.monitored && after.event_history
                == before.event_history,
        },
        MonitorOp::Unmonitor { name } => {
            &&& after.event_history == before.event_history
            &&& forall|n: Seq<char>|
                #![trigger after.monitors(n)]
                #![trigger before.monitors(n)]
                after.monitors(n) <==> (before.monitors(n) && n != name@)
        },
        MonitorOp::ClearAll => {
            &&& after.event_history == before.event_history
            &&& forall|n: Seq<char>| !(#[trigger] after.monitors(n))
        },
        MonitorOp::Record { event } => {
            &&& after.monitored == before.monitored
            &&& after.event_history@ == record_event(
                before.event_history@,
                event,
                before.max_history as nat,
            )
        },
    }
}

/// The events that the operations `ops` record, in order: a start event for each name that is
/// found when its monitoring starts, and each recorded event.
pub open spec fn recorded_events(ops: Seq<MonitorOp>) -> Seq<MonitorEvent>
    decreases ops.len(),
{
    if ops.len() == 0 {
        Seq::empty()
    } else {
        let r = recorded_events(ops.drop_last());
        match ops.last() {
            MonitorOp::Monitor { name, found, now } => match found {
                Some(id) => r.push(
                    MonitorEvent::ActorStarted { actor_id: id, actor_name: Some(name), timestamp: now },
                ),
                None => r,
            },
            MonitorOp::Record { event } => r.push(event),
            _ => r,
        }
    }
}

/// The names monitored after the operations `ops`, starting from the names `init`: a found
/// name joins, an unmonitored name leaves, and clearing empties the set.
pub open spec fn watched(init: Set<Seq<char>>, ops: Seq<MonitorOp>) -> Set<Seq<char>>
    decreases ops.len(),
{
    if ops.len() == 0 {
        init
    } else {
        let w = watched(init, ops.drop_last());
        match ops.last() {
            MonitorOp::Monitor { name, found, .. } => if found is Some {
                w.insert(name@)
            } else {
                w
            },
            MonitorOp::Unmonitor { name } => w.remove(name@),
            MonitorOp::ClearAll => Set::empty(),
            MonitorOp::Record { .. } => w,
        }
    }
}

/// The monitor actor across any sequence of messages (`states[i + 1]` is what `ops[i]` makes
/// of `states[i]`): the state stays well formed; the monitored names are exactly those the
/// operations leave monitored; and the history holds exactly the newest `max_history` of the
/// events it held and those the operations recorded, oldest dropped first, never more.
pub proof fn lemma_monitor_messages(states: Seq<MonitorState>, ops: Seq<MonitorOp>)
    requires
        states.len() == ops.len() + 1,
        states[0].wf(),
        forall|i: int| 0 <= i < ops.len() ==> #[trigger] monitor_step(states[i], ops[i], states[i + 1]),
    ensures
        ({
            let first = states[0];
            let last = states.last();
            let h = first.event_history@;
            let es = recorded_events(ops);
            &&& last.wf()
            &&& last.max_history == first.max_history
            &&& last.event_history@ == record_all(h, es, first.max_history as nat)
            &&& last.event_history@ == (h + es).skip(
                overflow(h.len() + es.len(), first.max_history as nat) as int,
            )
            &&& last.event_history@.len() <= first.max_history
            &&& forall|n: Seq<char>| #[trigger]
                last.monitors(n) <==> watched(Set::new(|m: Seq<char>| first.monitors(m)), ops).contains(n)
        }),
{
    lemma_monitor_prefix(states, ops, ops.len() as int);
    assert(ops.take(ops.len() as int) =~= ops);
    assert(states.last() == states[ops.len() as int]);
    lemma_history_keeps_newest(
        states[0].event_history@,
        recorded_events(ops),
        states[0].max_history as nat,
    );
}

proof fn lemma_monitor_prefix(states: Seq<MonitorState>, ops: Seq<MonitorOp>, j: int)
    requires
        states.len() == ops.len() + 1,
        0 <= j <= ops.len(),
        states[0].wf(),
        forall|i: int| 0 <= i < ops.len() ==> #[trigger] monitor_step(states[i], ops[i], states[i + 1]),
    ensures
        states[j].wf(),
        states[j].max_history == states[0].max_history,
        states[j].event_history@ == record_all(
            states[0].event_history@,
            recorded_events(ops.take(j)),
            states[0].max_history as nat,
        ),
        forall|n: Seq<char>| #[trigger]
            states[j].monitors(n) <==> watched(
                Set::new(|m: Seq<char>| states[0].monitors(m)),
                ops.take(j),
            ).contains(n),
    decreases j,
{
    let init = Set::new(|m: Seq<char>| states[0].monitors(m));
    if j == 0 {
        assert(ops.take(0) =~= Seq::<MonitorOp>::empty());
        assert(states[0].event_history@ == record_all(
            states[0].event_history@,
            recorded_events(ops.take(0)),
            states[0].max_history as nat,
        ));
    } else {
        lemma_monitor_prefix(states, ops, j - 1);
        let i = j - 1;
        assert(monitor_step(states[i], ops[i], states[i + 1]));
        assert(states[i + 1] == states[j]);
        let pre = ops.take(j - 1);
        assert(ops.take(j).drop_last() =~= pre);
        assert(ops.take(j).last() == ops[i]);
        let es = recorded_events(pre);
        let max = states[0].max_history as nat;
        match ops[i] {
            MonitorOp::Monitor { name, found, now } => {
                match found {
                    Some(id) => {
                        let e = MonitorEvent::ActorStarted { actor_id: id, actor_name: Some(name), timestamp: now };
                        assert(recorded_events(ops.take(j)) == es.push(e));
                        assert(es.push(e).drop_last() =~= es);
                    },
                    None => {},
                }
            },
            MonitorOp::Record { event } => {
                assert(recorded_events(ops.take(j)) == es.push(event));
                assert(es.push(event).drop_last() =~= es);
            },
            _ => {},
        }
        let w = watched(init, ops.take(j));
        assert forall|n: Seq<char>| #[trigger] states[j].monitors(n) <==> w.contains(n) by {
            assert(states[i].monitors(n) <==> watched(init, pre).contains(n));
        }
    }
}

} // verus!
