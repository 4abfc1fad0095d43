//! Instants with a UTC offset, and their textual storage encoding (RFC 3339).

use vstd::prelude::*;

verus! {

/// Local time `0000-01-01T00:00:00`, in seconds relative to the Unix epoch.
pub const MIN_LOCAL_SECS: i64 = -62_167_219_200;

/// Local time `9999-12-31T23:59:59`, in seconds relative to the Unix epoch.
pub const MAX_LOCAL_SECS: i64 = 253_402_300_799;

/// An instant (seconds and nanoseconds since the Unix epoch, UTC) together with
/// the offset from UTC, in seconds, of the zone it is shown in.
#[derive(Clone, Copy, Debug, PartialEq, Eq, Structural)]
pub struct Timestamp {
    pub secs: i64,
    pub nanos: u32,
    pub offset: i32,
}

/// Why a stored date-time text could not be read.
#[derive(Clone, Copy, Debug, PartialEq, Eq, Structural)]
pub enum TimestampError {
    /// The text is not an RFC 3339 date-time.
    Malformed,
    /// The text is an RFC 3339 date-time outside what a `Timestamp` holds
    /// (a leap second).
    OutOfRange,
}

/// The text that `chrono::DateTime::to_rfc3339` gives for the instant
/// `secs`, `nanos` shown at `offset` seconds east of UTC.
pub uninterp spec fn rfc3339_text(secs: int, nanos: int, offset: int) -> Seq<char>;

/// What `chrono::DateTime::parse_from_rfc3339` makes of a text: `None` where it
/// reports an error, else the instant's seconds and nanoseconds and the
/// offset in seconds.
pub uninterp spec fn rfc3339_parse(text: Seq<char>) -> Option<(i64, u32, i32)>;

/// The text that `chrono::DateTime::to_rfc2822` gives for the instant
/// `secs`, `nanos` shown at `offset` seconds east of UTC.
pub uninterp spec fn rfc2822_text(secs: int, nanos: int, offset: int) -> Seq<char>;

/// Declares `chrono::ParseError`, the error of
/// `chrono::DateTime::parse_from_rfc3339`, as a type that is carried through
/// and never looked into.
#[verifier::external_type_specification]
#[verifier::external_body]
pub struct ExParseError(chrono::ParseError);

impl Timestamp {
    /// Whole-minute offset of less than a day, a sub-second part below one
    /// second, and a local year from 0 to 9999.
    pub open spec fn wf(self) -> bool {
        &&& self.nanos < 1_000_000_000
        &&& -86_400 < self.offset < 86_400
        &&& self.offset as int % 60 == 0
        &&& MIN_LOCAL_SECS <= self.secs + self.offset <= MAX_LOCAL_SECS
    }

    /// Strictly earlier, as instants: the offsets play no part.
    pub open spec fn earlier_than(self, other: Timestamp) -> bool {
        self.secs < other.secs || (self.secs == other.secs && self.nanos < other.nanos)
    }

    /// The same instant, whatever the offsets.
    pub open spec fn same_instant(self, other: Timestamp) -> bool {
        self.secs == other.secs && self.nanos == other.nanos
    }

    /// Whether the three parts make a well-formed timestamp.
    pub fn is_valid(&self) -> (ok: bool)
        ensures
            ok == self.wf(),
    {
        self.nanos < 1_000_000_000 && -86_400 < self.offset && self.offset < 86_400
            && self.offset % 60 == 0 && MIN_LOCAL_SECS - 86_400 < self.secs && self.secs
            < MAX_LOCAL_SECS + 86_400 && MIN_LOCAL_SECS <= self.secs + (self.offset as i64)
            && self.secs + (self.offset as i64) <= MAX_LOCAL_SECS
    }

    /// A timestamp from its parts, where they are well-formed.
    pub fn new(secs: i64, nanos: u32, offset: i32) -> (made: Option<Timestamp>)
        ensures
            made == (if (Timestamp { secs, nanos, offset }).wf() {
                Some(Timestamp { secs, nanos, offset })
            } else {
                None
            }),
    {
        let t = Timestamp { secs, nanos, offset };
        if t.is_valid() {
            Some(t)
        } else {
            None
        }
    }

    /// Exec form of [`Timestamp::earlier_than`].
    pub fn is_earlier_than(&self, other: &Timestamp) -> (b: bool)
        ensures
            b == self.earlier_than(*other),
    {
        self.secs < other.secs || (self.secs == other.secs && self.nanos < other.nanos)
    }
}

/// What reading a stored text gives: the timestamp, or why there is none.
pub open spec fn read_outcome(text: Seq<char>) -> Result<Timestamp, TimestampError> {
    match rfc3339_parse(text) {
        Some((secs, nanos, offset)) => {
            let t = Timestamp { secs, nanos, offset };
            if t.wf() {
                Ok(t)
            } else {
                Err(TimestampError::OutOfRange)
            }
        },
        None => Err(TimestampError::Malformed),
    }
}

/// The timestamp that a stored text stands for, if it stands for one.
pub open spec fn stored_timestamp(text: Seq<char>) -> Option<Timestamp> {
    match read_outcome(text) {
        Ok(t) => Some(t),
        Err(_) => None,
    }
}

/// Calls `chrono::DateTime::to_rfc3339` on the instant `secs`, `nanos` of a
/// `DateTime<Utc>` moved to the fixed offset `offset`.
///
/// Trusted: the result is the text named by [`rfc3339_text`], and
/// `chrono::DateTime::parse_from_rfc3339` reads that text back as the same
/// three parts. The second claim rests on the formatter writing a four-digit
/// year, the sub-second part in full (0, 3, 6 or 9 digits) and the offset to the
/// minute, which the `requires` makes exact.
#[verifier::external_body]
fn format_rfc3339(secs: i64, nanos: u32, offset: i32) -> (text: String)
    requires
        (Timestamp { secs, nanos, offset }).wf(),
    ensures
        text@ == rfc3339_text(secs as int, nanos as int, offset as int),
        rfc3339_parse(text@) == Some((secs, nanos, offset)),
{
    let zone = chrono::FixedOffset::east_opt(offset).unwrap();
    chrono::DateTime::from_timestamp(secs, nanos).unwrap().with_timezone(&zone).to_rfc3339()
}

/// Calls `chrono::DateTime::parse_from_rfc3339` and takes the result apart with
/// `timestamp`, `timestamp_subsec_nanos` and `offset().local_minus_utc()`.
///
/// Trusted: success and the three parts are those named by [`rfc3339_parse`].
#[verifier::external_body]
fn parse_rfc3339(text: &str) -> (parts: Result<(i64, u32, i32), chrono::ParseError>)
    ensures
        parts is Ok <==> rfc3339_parse(text@) is Some,
        parts is Ok ==> rfc3339_parse(text@) == Some(parts->Ok_0),
{
    match chrono::DateTime::parse_from_rfc3339(text) {
        Ok(d) => Ok((d.timestamp(), d.timestamp_subsec_nanos(), d.offset().local_minus_utc())),
        Err(e) => Err(e),
    }
}

/// Calls `chrono::DateTime::to_rfc2822` on the instant `secs`, `nanos` of a
/// `DateTime<Utc>` moved to the fixed offset `offset`.
///
/// Trusted: the result is the text named by [`rfc2822_text`]. The `requires`
/// keeps the local year within 0 to 9999, outside of which the call panics.
#[verifier::external_body]
fn format_rfc2822(secs: i64, nanos: u32, offset: i32) -> (text: String)
    requires
        (Timestamp { secs, nanos, offset }).wf(),
    ensures
        text@ == rfc2822_text(secs as int, nanos as int, offset as int),
{
    let zone = chrono::FixedOffset::east_opt(offset).unwrap();
    chrono::DateTime::from_timestamp(secs, nanos).unwrap().with_timezone(&zone).to_rfc2822()
}

/// The text in which a timestamp is shown to the user (RFC 2822).
pub fn datetime_to_display_string(datetime: Timestamp) -> (text: String)
    requires
        datetime.wf(),
    ensures
        text@ == rfc2822_text(datetime.secs as int, datetime.nanos as int, datetime.offset as int),
{
    format_rfc2822(datetime.secs, datetime.nanos, datetime.offset)
}

/// The storage encoding of a timestamp: its RFC 3339 text. Reading the text
/// back gives the timestamp again.
pub fn datetime_to_sql_string(datetime: Timestamp) -> (text: String)
    requires
        datetime.wf(),
    ensures
        text@ == rfc3339_text(datetime.secs as int, datetime.nanos as int, datetime.offset as int),
        stored_timestamp(text@) == Some(datetime),
        read_outcome(text@) == Ok::<Timestamp, TimestampError>(datetime),
{
    format_rfc3339(datetime.secs, datetime.nanos, datetime.offset)
}

/// Reads one stored text.
pub fn read_stored_text(text: &str) -> (read: Result<Timestamp, TimestampError>)
    ensures
        read == read_outcome(text@),
{
    match parse_rfc3339(text) {
        Ok((secs, nanos, offset)) => match Timestamp::new(secs, nanos, offset) {
            Some(t) => Ok(t),
            None => Err(TimestampError::OutOfRange),
        },
        Err(_) => Err(TimestampError::Malformed),
    }
}

/// Reads a stored `done_at` value: absent stays absent, a text becomes its
/// timestamp, and a text that stands for none is reported.
pub fn try_sql_string_to_datetime(datetime: Option<String>) -> (read: Result<
    Option<Timestamp>,
    TimestampError,
>)
    ensures
        datetime is None ==> read == Ok::<Option<Timestamp>, TimestampError>(None),
        datetime is Some ==> read == (match read_outcome(datetime->Some_0@) {
            Ok(t) => Ok::<Option<Timestamp>, TimestampError>(Some(t)),
            Err(e) => Err(e),
        }),
{
    match datetime {
        None => Ok(None),
        Some(text) => match read_stored_text(text.as_str()) {
            Ok(_) => Ok(sql_string_to_datetime(Some(text))),
            Err(e) => Err(e),
        },
    }
}

/// The timestamp of a stored `done_at` value that is known to be readable.
pub fn sql_string_to_datetime(datetime: Option<String>) -> (read: Option<Timestamp>)
    requires
        datetime is Some ==> stored_timestamp(datetime->Some_0@) is Some,
    ensures
        datetime is None ==> read is None,
        datetime is Some ==> read == stored_timestamp(datetime->Some_0@),
{
    match datetime {
        None => None,
        Some(text) => match read_stored_text(text.as_str()) {
            Ok(t) => Some(t),
            Err(_) => None,
        },
    }
}

} // verus!
