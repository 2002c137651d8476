//! Points in time, held as integers, and calendar dates.
use vstd::prelude::*;

verus! {

/// The first and the last second of the calendar in use, counted from
/// 1970-01-01 00:00:00 UTC.
pub const FIRST_SECOND: i64 = -8_334_601_228_800;

pub const LAST_SECOND: i64 = 8_210_266_876_799;

/// The first and the last day of the calendar in use, counted from the day
/// before 0001-01-01.
pub const FIRST_DAY: i64 = -95_746_129;

pub const LAST_DAY: i64 = 95_745_399;

/// 1970-01-01, counted in the same way.
pub const EPOCH_DAY: i64 = 719_163;

/// A second of the calendar and nanoseconds within it; only the last second of
/// a minute can be a leap second, with up to twice as many of them.
pub open spec fn representable(secs: i64, nanos: u32) -> bool {
    FIRST_SECOND <= secs <= LAST_SECOND && (nanos < 1_000_000_000 || (nanos < 2_000_000_000
        && secs % 60 == 59))
}

/// A point in time: seconds since 1970-01-01 00:00:00 UTC and nanoseconds
/// within the second.
#[derive(Debug, Clone, Copy, PartialEq, Eq, Structural)]
pub struct Timestamp {
    secs: i64,
    nanos: u32,
}

impl Timestamp {
    #[verifier::type_invariant]
    spec fn in_range(&self) -> bool {
        representable(self.secs, self.nanos)
    }

    /// The seconds since 1970-01-01 00:00:00 UTC.
    pub closed spec fn seconds(self) -> i64 {
        self.secs
    }

    /// The nanoseconds within the second.
    pub closed spec fn nanoseconds(self) -> u32 {
        self.nanos
    }

    /// The point in time with these seconds and nanoseconds, where the calendar
    /// has it.
    pub fn new(secs: i64, nanos: u32) -> (r: Option<Timestamp>)
        ensures
            match r {
                Some(t) => representable(secs, nanos) && t.seconds() == secs && t.nanoseconds()
                    == nanos,
                None => !representable(secs, nanos),
            },
    {
        if secs < FIRST_SECOND || secs > LAST_SECOND {
            return None;
        }
        let since_first: u64 = (secs - FIRST_SECOND) as u64;
        assert(since_first % 60 == 59 <==> secs % 60 == 59);
        if nanos < 1_000_000_000 || (nanos < 2_000_000_000 && since_first % 60 == 59) {
            Some(Timestamp { secs, nanos })
        } else {
            None
        }
    }

    /// Whether this is not later than another point in time.
    pub open spec fn up_to(self, other: Timestamp) -> bool {
        self.seconds() < other.seconds() || (self.seconds() == other.seconds()
            && self.nanoseconds() <= other.nanoseconds())
    }

    /// Whether this is not later than another point in time.
    pub fn is_up_to(&self, other: &Timestamp) -> (r: bool)
        ensures
            r == self.up_to(*other),
    {
        self.secs < other.secs || (self.secs == other.secs && self.nanos <= other.nanos)
    }

    /// The seconds since 1970-01-01 00:00:00 UTC.
    pub fn secs(&self) -> (r: i64)
        ensures
            r == self.seconds(),
    {
        self.secs
    }

    /// The nanoseconds within the second.
    pub fn nanos(&self) -> (r: u32)
        ensures
            r == self.nanoseconds(),
    {
        self.nanos
    }
}

/// What `chrono::DateTime::to_rfc3339` writes for a point in time in UTC.
pub uninterp spec fn rfc3339_text(secs: i64, nanos: u32) -> Seq<char>;

/// `chrono::DateTime::<Utc>::from_timestamp` and `to_rfc3339`. The first gives
/// a value exactly on what is representable; the text is named by
/// [`rfc3339_text`].
#[verifier::external_body]
fn write_rfc3339(secs: i64, nanos: u32) -> (r: String)
    requires
        representable(secs, nanos),
    ensures
        r@ == rfc3339_text(secs, nanos),
{
    chrono::DateTime::<chrono::Utc>::from_timestamp(secs, nanos).map(|t| t.to_rfc3339()).unwrap_or_default()
}

/// What `chrono::DateTime::format` writes for a point in time in UTC, by a
/// pattern.
pub uninterp spec fn pattern_text(secs: i64, nanos: u32, pattern: Seq<char>) -> Seq<char>;

/// `chrono::DateTime::<Utc>::from_timestamp` and `format`. Of the patterns only
/// the one in use is admitted, since an unknown one makes the text fail. The
/// text is named by [`pattern_text`].
#[verifier::external_body]
fn write_by_pattern(secs: i64, nanos: u32, pattern: &str) -> (r: String)
    requires
        representable(secs, nanos),
        pattern@ == "%Y-%m-%d %H:%M"@,
    ensures
        r@ == pattern_text(secs, nanos, pattern@),
{
    chrono::DateTime::<chrono::Utc>::from_timestamp(secs, nanos).map(|t| t.format(pattern).to_string()).unwrap_or_default()
}

/// The day that `chrono::NaiveDate::parse_from_str` reads from a text by a
/// pattern, counted as `num_days_from_ce` counts; `None` where it reads none.
pub uninterp spec fn day_read(text: Seq<char>, pattern: Seq<char>) -> Option<i32>;

/// `chrono::NaiveDate::parse_from_str` and `num_days_from_ce`. The result is
/// named by [`day_read`], and lies between `NaiveDate::MIN` and
/// `NaiveDate::MAX`, as every date does.
#[verifier::external_body]
fn read_day(text: &str, pattern: &str) -> (r: Option<i32>)
    ensures
        r == day_read(text@, pattern@),
        r matches Some(d) ==> FIRST_DAY <= d <= LAST_DAY,
{
    let date = chrono::NaiveDate::parse_from_str(text, pattern).ok();
    date.map(|d| chrono::Datelike::num_days_from_ce(&d))
}

impl Timestamp {
    /// The point in time as RFC 3339 writes it.
    pub open spec fn rfc3339(self) -> Seq<char> {
        rfc3339_text(self.seconds(), self.nanoseconds())
    }

    /// The point in time to the minute.
    pub open spec fn minute(self) -> Seq<char> {
        pattern_text(self.seconds(), self.nanoseconds(), "%Y-%m-%d %H:%M"@)
    }

    /// The point in time as RFC 3339 writes it.
    pub fn to_rfc3339(&self) -> (r: String)
        ensures
            r@ == self.rfc3339(),
    {
        proof {
            use_type_invariant(self);
        }
        write_rfc3339(self.secs, self.nanos)
    }

    /// The point in time to the minute.
    pub fn to_minute(&self) -> (r: String)
        ensures
            r@ == self.minute(),
    {
        proof {
            use_type_invariant(self);
        }
        write_by_pattern(self.secs, self.nanos, "%Y-%m-%d %H:%M")
    }
}

/// The second at which it is noon on a day.
pub open spec fn noon(day: int) -> int {
    (day - EPOCH_DAY) * 86400 + 43200
}

/// Noon, in UTC, of the date that a text of the form `YYYY-MM-DD` names.
pub fn noon_of(text: &str) -> (r: Option<Timestamp>)
    ensures
        match day_read(text@, "%Y-%m-%d"@) {
            Some(d) => r matches Some(t) && t.seconds() == noon(d as int) && t.nanoseconds() == 0,
            None => r is None,
        },
{
    match read_day(text, "%Y-%m-%d") {
        Some(d) => Timestamp::new((d as i64 - EPOCH_DAY) * 86400 + 43200, 0),
        None => None,
    }
}

/// Noon is twelve hours into its day, and the days follow each other; times are
/// told apart by their seconds and then by their parts.
pub proof fn law_noon_and_order(day: int, a: Timestamp, b: Timestamp, c: Timestamp)
    ensures
        noon(719_163) == 12 * 60 * 60,
        noon(day + 1) == noon(day) + 24 * 60 * 60,
        a.up_to(a),
        a.up_to(b) || b.up_to(a),
        a.up_to(b) && b.up_to(c) ==> a.up_to(c),
        a.seconds() < b.seconds() ==> a.up_to(b) && !b.up_to(a),
        a.seconds() == b.seconds() && a.nanoseconds() < b.nanoseconds() ==> a.up_to(b) && !b.up_to(
            a,
        ),
{
}

} // verus!
