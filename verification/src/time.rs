//! Points in time, held as plain values, and their RFC 3339 text form.

use vstd::prelude::*;

verus! {

/// Seconds from the Unix epoch that the calendar can represent in either direction with room to
/// spare (about 250,000 years).
pub const TIMESTAMP_SECS_LIMIT: i64 = 8_000_000_000_000;

/// A point in time together with the UTC offset it is shown in.
#[derive(Debug, Clone, Copy, PartialEq, Eq, Structural)]
pub struct Timestamp {
    /// Whole seconds since 1970-01-01T00:00:00Z.
    pub unix_secs: i64,
    /// Nanoseconds past `unix_secs`; 1,000,000,000 or more only during a leap second.
    pub nanos: u32,
    /// Offset of the local clock from UTC, in seconds.
    pub offset_secs: i32,
}

impl Timestamp {
    /// The values form a point in time that can be written out.
    pub open spec fn valid(self) -> bool {
        &&& -TIMESTAMP_SECS_LIMIT <= self.unix_secs <= TIMESTAMP_SECS_LIMIT
        &&& -86_400 < self.offset_secs < 86_400
        &&& (self.nanos < 1_000_000_000 || (self.nanos < 2_000_000_000 && self.unix_secs % 60
            == 59))
    }
}

/// The RFC 3339 text of the instant `unix_secs` + `nanos` shown at UTC offset `offset_secs`, as
/// chrono writes it.
pub uninterp spec fn rfc3339_text(unix_secs: i64, nanos: u32, offset_secs: i32) -> Seq<char>;

/// Whether chrono's RFC 3339 text of the point in time reads back exactly: its offset is whole
/// minutes (the text has no place for seconds of offset) and its local year is one of
/// 0000..=9999 (the four-digit years that RFC 3339 admits).
pub open spec fn rfc3339_exact(t: Timestamp) -> bool {
    &&& t.offset_secs % 60 == 0
    &&& -62_167_219_200 <= t.unix_secs + t.offset_secs < 253_402_300_800
}

/// chrono's `DateTime::to_rfc3339` of the instant at the given offset.
///
/// The text itself is not stated; it is named by [`rfc3339_text`] and depends on the three
/// values alone. Of it the contract states that chrono's `parse_from_rfc3339` reads back the
/// same instant and offset where the text can carry them exactly ([`rfc3339_exact`]). The
/// `requires` keeps out the values for which chrono has no date.
#[verifier::external_body]
fn chrono_rfc3339(unix_secs: i64, nanos: u32, offset_secs: i32) -> (s: String)
    requires
        (Timestamp { unix_secs, nanos, offset_secs }).valid(),
    ensures
        s@ == rfc3339_text(unix_secs, nanos, offset_secs),
        rfc3339_exact(Timestamp { unix_secs, nanos, offset_secs }) ==> rfc3339_fields(s@) == Some(
            (unix_secs, nanos, offset_secs),
        ),
{
    let offset = chrono::FixedOffset::east_opt(offset_secs).unwrap();
    chrono::DateTime::from_timestamp(unix_secs, nanos).unwrap().with_timezone(&offset).to_rfc3339()
}

impl Timestamp {
    /// The RFC 3339 text of this point in time.
    pub fn to_rfc3339(&self) -> (s: String)
        requires
            self.valid(),
        ensures
            s@ == rfc3339_text(self.unix_secs, self.nanos, self.offset_secs),
            rfc3339_exact(*self) ==> rfc3339_fields(s@) == Some(
                (self.unix_secs, self.nanos, self.offset_secs),
            ),
    {
        chrono_rfc3339(self.unix_secs, self.nanos, self.offset_secs)
    }
}


/// The instant and UTC offset that chrono reads from an RFC 3339 text, if it is one.
pub uninterp spec fn rfc3339_fields(s: Seq<char>) -> Option<(i64, u32, i32)>;

/// chrono's `DateTime::parse_from_rfc3339`, taken apart into plain values: the Unix seconds,
/// the nanoseconds and the UTC offset in seconds, or `None` if the text is no RFC 3339 date.
/// What it reads is named by [`rfc3339_fields`].
#[verifier::external_body]
pub(crate) fn parse_rfc3339(s: &str) -> (r: Option<Timestamp>)
    ensures
        r == match rfc3339_fields(s@) {
            Some(f) => Some(Timestamp { unix_secs: f.0, nanos: f.1, offset_secs: f.2 }),
            None => None,
        },
{
    chrono::DateTime::parse_from_rfc3339(s).ok().map(
        |t| Timestamp {
            unix_secs: t.timestamp(),
            nanos: t.timestamp_subsec_nanos(),
            offset_secs: t.offset().local_minus_utc(),
        },
    )
}

impl Timestamp {
    /// Whether this point in time can be written out.
    pub fn is_valid(&self) -> (b: bool)
        ensures
            b == self.valid(),
    {
        if !(-TIMESTAMP_SECS_LIMIT <= self.unix_secs && self.unix_secs <= TIMESTAMP_SECS_LIMIT) {
            return false;
        }
        if !(-86_400 < self.offset_secs && self.offset_secs < 86_400) {
            return false;
        }
        if self.nanos < 1_000_000_000 {
            return true;
        }
        // The second within its minute, counted up from the minute's start also before 1970.
        let shifted: i64 = self.unix_secs + 60 * 200_000_000_000;
        proof {
            assert(shifted >= 0);
            assert(shifted % 60 == self.unix_secs % 60) by (nonlinear_arith)
                requires
                    shifted == self.unix_secs + 60 * 200_000_000_000,
            ;
        }
        self.nanos < 2_000_000_000 && shifted % 60 == 59
    }
}

/// chrono's `Local::now()`, taken apart into plain values.
///
/// The clock is read, so nothing ties the result to its inputs: the contract states what holds
/// of every reading. chrono's `Utc::now` takes `SystemTime::now().duration_since(UNIX_EPOCH)`
/// (it panics on a clock before 1970) and its `subsec_nanos`, so the instant is not before the
/// epoch and falls on no leap second; it is a point in time that can be written out.
#[verifier::external_body]
pub(crate) fn local_now() -> (t: Timestamp)
    ensures
        t.valid(),
        t.unix_secs >= 0,
        t.nanos < 1_000_000_000,
{
    let now = chrono::Local::now();
    Timestamp {
        unix_secs: now.timestamp(),
        nanos: now.timestamp_subsec_nanos(),
        offset_secs: now.offset().local_minus_utc(),
    }
}

/// The UTC offset, in seconds, of the machine's local time zone at the given instant: chrono's
/// `DateTime::with_timezone(&Local)` followed by `local_minus_utc`.
///
/// It depends on the machine's time zone, so only its range is stated.
#[verifier::external_body]
pub(crate) fn local_offset_at(unix_secs: i64, nanos: u32) -> (off: i32)
    requires
        (Timestamp { unix_secs, nanos, offset_secs: 0 }).valid(),
    ensures
        -86_400 < off < 86_400,
{
    let utc = chrono::DateTime::from_timestamp(unix_secs, nanos).unwrap();
    utc.with_timezone(&chrono::Local).offset().local_minus_utc()
}

impl Timestamp {
    /// The current time in the local time zone: an instant not before 1970, with no leap
    /// second, that can be written out. Which instant depends on the clock.
    pub fn now() -> (t: Timestamp)
        ensures
            t.valid(),
            t.unix_secs >= 0,
            t.nanos < 1_000_000_000,
    {
        local_now()
    }
}

/// The point in time that a received RFC 3339 text stands for, shown in the local time zone:
/// the instant it names if it can be read and written out again, and otherwise the current time.
pub fn receive_timestamp(text: &str) -> (t: Timestamp)
    ensures
        t.valid(),
        match rfc3339_fields(text@) {
            Some(f) => (Timestamp { unix_secs: f.0, nanos: f.1, offset_secs: 0 }).valid() ==> (
            t.unix_secs == f.0 && t.nanos == f.1),
            None => true,
        },
{
    match parse_rfc3339(text) {
        Some(p) => {
            let utc = Timestamp { unix_secs: p.unix_secs, nanos: p.nanos, offset_secs: 0 };
            if utc.is_valid() {
                let off = local_offset_at(p.unix_secs, p.nanos);
                Timestamp { unix_secs: p.unix_secs, nanos: p.nanos, offset_secs: off }
            } else {
                local_now()
            }
        },
        None => local_now(),
    }
}

} // verus!
