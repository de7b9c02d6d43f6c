//! Points in time, and the two text forms in which the database holds them.

use vstd::prelude::*;

verus! {

/// The first second that a timestamp can name: the start of the year -262143, in UTC.
pub const MIN_SECS: i64 = -8334601228800;

/// The last second that a timestamp can name: the end of the year 262142, in UTC.
pub const MAX_SECS: i64 = 8210266876799;

/// The first second of the year 0 in UTC, the first that RFC 3339 can write.
pub const RFC3339_MIN_SECS: i64 = -62167219200;

/// The last second of the year 9999 in UTC, the last that RFC 3339 can write.
pub const RFC3339_MAX_SECS: i64 = 253402300799;

/// The layout of SQLite's `datetime('now')`.
pub const SQLITE_FORMAT: &'static str = "%Y-%m-%d %H:%M:%S";

/// A second count since the Unix epoch and the nanoseconds after it that together name an
/// instant. The nanoseconds pass one second only within a leap second, which ends a minute.
pub open spec fn is_instant(secs: i64, nanos: u32) -> bool {
    &&& MIN_SECS <= secs <= MAX_SECS
    &&& nanos < 1_000_000_000 || (nanos < 2_000_000_000 && secs % 60 == 59)
}

/// A point in time in UTC.
#[derive(Debug, Clone, Copy, PartialEq, Eq, Structural)]
pub struct Timestamp {
    secs: i64,
    nanos: u32,
}

impl Timestamp {
    /// Seconds since the Unix epoch.
    pub closed spec fn secs(self) -> i64 {
        self.secs
    }

    /// Nanoseconds after the second.
    pub closed spec fn nanos(self) -> u32 {
        self.nanos
    }

    #[verifier::type_invariant]
    spec fn is_valid(self) -> bool {
        is_instant(self.secs, self.nanos)
    }

    /// The start of the second.
    pub closed spec fn at_second(self) -> Timestamp {
        Timestamp { secs: self.secs, nanos: 0 }
    }

    /// `self` comes before `other`.
    pub open spec fn before(self, other: Timestamp) -> bool {
        self.secs() < other.secs() || (self.secs() == other.secs() && self.nanos()
            < other.nanos())
    }

    /// More than `gap` seconds lie between `self` and `later`.
    pub open spec fn older_than(self, later: Timestamp, gap: int) -> bool {
        self.secs() + gap < later.secs() || (self.secs() + gap == later.secs() && self.nanos()
            < later.nanos())
    }

    /// The instant named by a second count and nanoseconds, where they name one.
    pub fn new(secs: i64, nanos: u32) -> (r: Option<Timestamp>)
        ensures
            match r {
                Some(t) => is_instant(secs, nanos) && t.secs() == secs && t.nanos() == nanos,
                None => !is_instant(secs, nanos),
            },
    {
        if MIN_SECS <= secs && secs <= MAX_SECS && (nanos < 1_000_000_000 || (nanos
            < 2_000_000_000 && ends_minute(secs))) {
            Some(Timestamp { secs, nanos })
        } else {
            None
        }
    }

    /// Seconds since the Unix epoch.
    pub fn seconds(&self) -> (r: i64)
        ensures
            r == self.secs(),
            MIN_SECS <= r <= MAX_SECS,
    {
        proof {
            use_type_invariant(self);
        }
        self.secs
    }

    /// Nanoseconds after the second.
    pub fn subsec_nanos(&self) -> (r: u32)
        ensures
            r == self.nanos(),
            is_instant(self.secs(), r),
    {
        proof {
            use_type_invariant(self);
        }
        self.nanos
    }

    /// The current time. Which instant that is rests on the machine's clock; whatever the clock
    /// says, it is an instant outside any leap second.
    pub fn now() -> (r: Timestamp)
        ensures
            is_instant(r.secs(), r.nanos()),
            r.nanos() < 1_000_000_000,
    {
        let (secs, nanos) = clock();
        Timestamp { secs, nanos }
    }

    /// Whether `self` comes before `other`.
    pub fn is_before(&self, other: &Timestamp) -> (r: bool)
        ensures
            r == self.before(*other),
    {
        self.secs < other.secs || (self.secs == other.secs && self.nanos < other.nanos)
    }

    /// Whether more than `gap` seconds lie between `self` and `later`.
    pub fn is_older_than(&self, later: &Timestamp, gap: i128) -> (r: bool)
        requires
            -0x4000_0000_0000_0000_0000_0000_0000_0000 <= gap
                <= 0x4000_0000_0000_0000_0000_0000_0000_0000,
        ensures
            r == self.older_than(*later, gap as int),
    {
        let from: i128 = self.secs as i128 + gap;
        let to: i128 = later.secs as i128;
        from < to || (from == to && self.nanos < later.nanos)
    }

    /// The instant `delay` seconds later.
    pub fn plus_seconds(&self, delay: i64) -> (r: Timestamp)
        requires
            0 <= delay,
            self.secs() + delay <= MAX_SECS,
            self.nanos() < 1_000_000_000,
        ensures
            r.secs() == self.secs() + delay,
            r.nanos() == self.nanos(),
    {
        proof {
            use_type_invariant(self);
        }
        Timestamp { secs: self.secs + delay, nanos: self.nanos }
    }

    /// The start of the second.
    pub fn whole_second(&self) -> (r: Timestamp)
        ensures
            r == self.at_second(),
            r.secs() == self.secs(),
            r.nanos() == 0,
    {
        proof {
            use_type_invariant(self);
        }
        Timestamp { secs: self.secs, nanos: 0 }
    }

    /// The RFC 3339 text of the instant, in UTC. Within the years that RFC 3339 can write, the
    /// text is read back as this very timestamp.
    pub fn to_rfc3339(&self) -> (r: String)
        ensures
            r@ == rfc3339_text(self.secs(), self.nanos()),
            RFC3339_MIN_SECS <= self.secs() <= RFC3339_MAX_SECS ==> is_stored_as(*self, r@),
    {
        proof {
            use_type_invariant(self);
        }
        format_rfc3339(self.secs, self.nanos)
    }
}

/// The start of a second is in the same second, with no nanoseconds after it.
pub proof fn second_starts_without_nanos(t: Timestamp)
    ensures
        t.at_second().secs() == t.secs(),
        t.at_second().nanos() == 0,
{
}

/// Two timestamps that name the same second and nanosecond are the same.
pub proof fn same_instant_same_timestamp(a: Timestamp, b: Timestamp)
    requires
        a.secs() == b.secs(),
        a.nanos() == b.nanos(),
    ensures
        a == b,
{
}

/// Of any two timestamps one comes before the other, or they are the same; never two of these.
pub proof fn timestamps_are_totally_ordered(a: Timestamp, b: Timestamp, c: Timestamp)
    ensures
        a.before(b) || b.before(a) || a == b,
        !(a.before(b) && b.before(a)),
        !a.before(a),
        a.before(b) && b.before(c) ==> a.before(c),
{
}

fn ends_minute(secs: i64) -> (r: bool)
    requires
        MIN_SECS <= secs <= MAX_SECS,
    ensures
        r == (secs % 60 == 59),
{
    let shifted: u64 = (secs + 8334601228800) as u64;
    assert(secs % 60 == (secs + 8334601228800) % 60);
    shifted % 60 == 59
}

/// What `chrono::DateTime::parse_from_rfc3339` reads: second and nanosecond in UTC, or nothing
/// where it rejects the text.
pub uninterp spec fn rfc3339_instant(s: Seq<char>) -> Option<(i64, u32)>;

/// What `chrono::NaiveDateTime::parse_from_str` reads of a text in a given layout, taken as UTC.
pub uninterp spec fn naive_instant(s: Seq<char>, format: Seq<char>) -> Option<(i64, u32)>;

/// What `chrono::DateTime::<Utc>::to_rfc3339` writes for an instant.
pub uninterp spec fn rfc3339_text(secs: i64, nanos: u32) -> Seq<char>;

/// `chrono::DateTime::parse_from_rfc3339`: the instant that an RFC 3339 text names, by
/// `timestamp` and `timestamp_subsec_nanos`. The result depends on the text alone, and it is an
/// instant that chrono can represent.
#[verifier::external_body]
fn parse_rfc3339(s: &str) -> (r: Option<(i64, u32)>)
    ensures
        r == rfc3339_instant(s@),
        r matches Some(t) ==> is_instant(t.0, t.1),
{
    match chrono::DateTime::parse_from_rfc3339(s) {
        Ok(t) => Some((t.timestamp(), t.timestamp_subsec_nanos())),
        Err(_) => None,
    }
}

/// `chrono::NaiveDateTime::parse_from_str` followed by `and_utc`: the instant that a text without
/// a time zone names in UTC. The result depends on the text and the layout alone, and it is an
/// instant that chrono can represent.
#[verifier::external_body]
fn parse_naive(s: &str, format: &str) -> (r: Option<(i64, u32)>)
    ensures
        r == naive_instant(s@, format@),
        r matches Some(t) ==> is_instant(t.0, t.1),
{
    match chrono::NaiveDateTime::parse_from_str(s, format) {
        Ok(t) => Some((t.and_utc().timestamp(), t.and_utc().timestamp_subsec_nanos())),
        Err(_) => None,
    }
}

/// `chrono::DateTime::<Utc>::to_rfc3339` on the instant that `DateTime::from_timestamp` makes of
/// the two counts. The text depends on them alone; where the year has four digits,
/// `parse_from_rfc3339` reads the same instant back.
#[verifier::external_body]
fn format_rfc3339(secs: i64, nanos: u32) -> (r: String)
    requires
        is_instant(secs, nanos),
    ensures
        r@ == rfc3339_text(secs, nanos),
        RFC3339_MIN_SECS <= secs <= RFC3339_MAX_SECS ==> rfc3339_instant(r@) == Some(
            (secs, nanos),
        ),
{
    chrono::DateTime::from_timestamp(secs, nanos).unwrap().to_rfc3339()
}

/// `chrono::Utc::now`: whatever the clock says, it is an instant outside any leap second. Nothing
/// is claimed of which instant it is.
#[verifier::external_body]
fn clock() -> (r: (i64, u32))
    ensures
        is_instant(r.0, r.1),
        r.1 < 1_000_000_000,
{
    let now = chrono::Utc::now();
    (now.timestamp(), now.timestamp_subsec_nanos())
}

/// The instant that a stored text names: RFC 3339 first, then the layout of SQLite's
/// `datetime('now')`.
pub open spec fn stored_instant(s: Seq<char>) -> Option<(i64, u32)> {
    match rfc3339_instant(s) {
        Some(t) => Some(t),
        None => naive_instant(s, SQLITE_FORMAT@),
    }
}

/// `t` is the timestamp that the stored text `s` names.
pub open spec fn is_stored_as(t: Timestamp, s: Seq<char>) -> bool {
    stored_instant(s) == Some((t.secs(), t.nanos()))
}

/// `t` is what an optional column holds: nothing where it is empty, else the timestamp that its
/// text names.
pub open spec fn is_stored_in(t: Option<Timestamp>, column: Option<String>) -> bool {
    match (t, column) {
        (Some(t), Some(text)) => is_stored_as(t, text@),
        (None, None) => true,
        _ => false,
    }
}

/// The column is empty, or its text names an instant.
pub open spec fn is_readable_column(column: Option<String>) -> bool {
    match column {
        Some(text) => stored_instant(text@) is Some,
        None => true,
    }
}

/// The message for a stored text that names no instant.
pub const INVALID_DATE: &'static str = "invalid date";

/// Reads a stored time: RFC 3339, or else the layout of SQLite's `datetime('now')`.
pub fn parse_datetime(s: &str) -> (r: Result<Timestamp, &'static str>)
    ensures
        match r {
            Ok(t) => is_stored_as(t, s@),
            Err(e) => stored_instant(s@) is None && e@ == INVALID_DATE@,
        },
{
    let found = match parse_rfc3339(s) {
        Some(t) => Some(t),
        None => parse_naive(s, SQLITE_FORMAT),
    };
    match found {
        Some(t) => Ok(Timestamp { secs: t.0, nanos: t.1 }),
        None => Err(INVALID_DATE),
    }
}

/// What a column of times holds.
#[derive(Debug, Clone, Copy, PartialEq, Eq, Structural)]
pub enum Column {
    /// Nothing.
    Empty,
    /// A time.
    At(Timestamp),
    /// A text that names no time.
    Unreadable,
}

/// What an optional column holds, by its text.
pub open spec fn is_column(column: Column, text: Option<String>) -> bool {
    match (column, text) {
        (Column::Empty, None) => true,
        (Column::At(t), Some(text)) => is_stored_as(t, text@),
        (Column::Unreadable, Some(text)) => stored_instant(text@) is None,
        _ => false,
    }
}

/// What a column that is never empty holds, by its text.
pub open spec fn is_text_column(column: Column, text: Seq<char>) -> bool {
    match column {
        Column::At(t) => is_stored_as(t, text),
        Column::Unreadable => stored_instant(text) is None,
        Column::Empty => false,
    }
}

/// Reads a stored time into a column.
pub fn read_text(s: &str) -> (r: Column)
    ensures
        is_text_column(r, s@),
{
    match parse_datetime(s) {
        Ok(t) => Column::At(t),
        Err(_) => Column::Unreadable,
    }
}

/// Reads an optional stored time into a column.
pub fn read_column(s: &Option<String>) -> (r: Column)
    ensures
        is_column(r, *s),
{
    match s {
        Some(text) => read_text(text.as_str()),
        None => Column::Empty,
    }
}

impl Column {
    /// The time that the column holds, where it holds one.
    pub open spec fn instant(self) -> Option<Timestamp> {
        match self {
            Column::At(t) => Some(t),
            _ => None,
        }
    }

    /// The column is empty or holds a time.
    pub open spec fn readable(self) -> bool {
        self != Column::Unreadable
    }

    /// The time that the column holds. Neither an empty column nor one that cannot be read holds
    /// one.
    pub fn time(&self) -> (r: Result<Timestamp, &'static str>)
        ensures
            match r {
                Ok(t) => *self == Column::At(t),
                Err(e) => self.instant() is None && e@ == INVALID_DATE@,
            },
    {
        match self {
            Column::At(t) => Ok(*t),
            _ => Err(INVALID_DATE),
        }
    }

    /// The time that the column holds, or none where it is empty.
    pub fn optional_time(&self) -> (r: Result<Option<Timestamp>, &'static str>)
        ensures
            match r {
                Ok(t) => self.readable() && t == self.instant(),
                Err(e) => !self.readable() && e@ == INVALID_DATE@,
            },
    {
        match self {
            Column::At(t) => Ok(Some(*t)),
            Column::Empty => Ok(None),
            Column::Unreadable => Err(INVALID_DATE),
        }
    }
}

/// Writes an optional time for storage.
pub fn optional_rfc3339(t: &Option<Timestamp>) -> (r: Option<String>)
    ensures
        match (*t, r) {
            (Some(t), Some(text)) => text@ == rfc3339_text(t.secs(), t.nanos()),
            (None, None) => true,
            _ => false,
        },
        is_writable(*t) ==> is_stored_in(*t, r),
{
    match t {
        Some(t) => Some(t.to_rfc3339()),
        None => None,
    }
}

/// There is no time to write, or RFC 3339 can write its year.
pub open spec fn is_writable(t: Option<Timestamp>) -> bool {
    match t {
        Some(t) => RFC3339_MIN_SECS <= t.secs() <= RFC3339_MAX_SECS,
        None => true,
    }
}

/// A stored text names at most one timestamp.
pub proof fn stored_once(a: Timestamp, b: Timestamp, s: Seq<char>)
    requires
        is_stored_as(a, s),
        is_stored_as(b, s),
    ensures
        a == b,
{
}

/// An optional column holds at most one timestamp.
pub proof fn stored_once_in(a: Option<Timestamp>, b: Option<Timestamp>, column: Option<String>)
    requires
        is_stored_in(a, column),
        is_stored_in(b, column),
    ensures
        a == b,
{
}

// --- What times mean ---

/// Times outside leap seconds follow each other as their nanoseconds since the epoch do.
pub proof fn times_follow_their_nanos(a: Timestamp, b: Timestamp, gap: int)
    requires
        a.nanos() < 1_000_000_000,
        b.nanos() < 1_000_000_000,
    ensures
        a.before(b) <==> a.secs() * 1_000_000_000 + a.nanos() < b.secs() * 1_000_000_000 + b.nanos(),
        a.older_than(b, gap) <==> (a.secs() + gap) * 1_000_000_000 + a.nanos() < b.secs()
            * 1_000_000_000 + b.nanos(),
{
}

/// A stored text is read as RFC 3339 where it is, and else in the layout of SQLite; it names no
/// time exactly where it is neither.
pub proof fn stored_times_have_two_layouts(s: Seq<char>)
    ensures
        rfc3339_instant(s) is Some ==> stored_instant(s) == rfc3339_instant(s),
        rfc3339_instant(s) is None ==> stored_instant(s) == naive_instant(
            s,
            "%Y-%m-%d %H:%M:%S"@,
        ),
{
}

/// What is read of a column says truly whether it was empty, and which time it held.
pub proof fn columns_are_read_truly(column: Column, text: Option<String>)
    requires
        is_column(column, text),
    ensures
        column == Column::Empty <==> text is None,
        column.readable() <==> text is None || stored_instant(text->Some_0@) is Some,
        column.instant() is Some <==> text is Some && stored_instant(text->Some_0@) is Some,
        column.instant() is Some ==> stored_instant(text->Some_0@) == Some(
            (column.instant()->Some_0.secs(), column.instant()->Some_0.nanos()),
        ),
{
}

/// Times of the years 0 to 9999 can be written, and so can a column that is empty.
pub proof fn four_digit_years_can_be_written(t: Timestamp)
    ensures
        is_writable(None),
        is_writable(Some(t)) <==> -62_167_219_200 <= t.secs() <= 253_402_300_799,
{
}

} // verus!
