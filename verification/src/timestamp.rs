//! Wall-clock instants at second precision, with the calendar text taken
//! from `chrono`.

use vstd::prelude::*;

verus! {

/// Length of one sampling slot, in seconds.
pub const SLOT_SECS: i64 = 900;

/// Length of one calendar day, in seconds.
pub const DAY_SECS: i64 = 86_400;

/// `0000-01-01 00:00:00`, counted in seconds from `1970-01-01 00:00:00`.
pub const MIN_SECS: i64 = -62_167_219_200;

/// `9999-12-31 23:59:59`, counted in seconds from `1970-01-01 00:00:00`.
pub const MAX_SECS: i64 = 253_402_300_799;

/// Whether `secs` lies in the years `0000` to `9999`.
pub open spec fn in_range(secs: int) -> bool {
    MIN_SECS <= secs <= MAX_SECS
}

/// Hour of the day, `0..24`, of the instant `secs`.
pub open spec fn hour_of(secs: int) -> int {
    (secs % 86_400) / 3_600
}

/// Number of the calendar day that holds the instant `secs`; day `0` starts
/// at `1970-01-01 00:00:00`.
pub open spec fn day_of(secs: int) -> int {
    secs / 86_400
}

/// The instant at which the calendar day `day` starts.
pub open spec fn midnight_of(day: int) -> int {
    day * 86_400
}

/// Whole minutes from `from` to `to`, rounded down.
pub open spec fn minutes_between(from: int, to: int) -> int {
    (to - from) / 60
}

/// Index of the 15-minute slot, counted from `start`, that holds `secs`.
pub open spec fn slot_of(start: int, secs: int) -> int {
    minutes_between(start, secs) / 15
}

/// The instant at which slot `index` of a series that starts at `start` is
/// sampled.
pub open spec fn slot_time(start: int, index: int) -> int {
    start + index * 900
}

/// The format of a sample label: `YYYY-MM-DD HH:MM:00`.
pub open spec fn minute_pattern() -> Seq<char> {
    "%Y-%m-%d %H:%M:00"@
}

/// The format of a day label: `YYYY-MM-DD`.
pub open spec fn date_pattern() -> Seq<char> {
    "%Y-%m-%d"@
}

/// What `chrono` reads from `text` under the pattern `%Y-%m-%d %H:%M:%S`:
/// the seconds from `1970-01-01 00:00:00` to the instant it names, or `None`
/// where `chrono` rejects the text.
pub uninterp spec fn datetime_secs(text: Seq<char>) -> Option<int>;

/// Whether `text` is a timestamp field that the library accepts.
pub open spec fn readable(text: Seq<char>) -> bool {
    datetime_secs(text) matches Some(secs) && in_range(secs)
}

/// What `chrono` writes for the instant `secs` under `pattern`.
pub uninterp spec fn calendar_text(secs: int, pattern: Seq<char>) -> Seq<char>;

#[verifier::external_type_specification]
#[verifier::external_body]
pub struct ExParseError(chrono::format::ParseError);

/// `chrono::NaiveDateTime::parse_from_str` with the pattern
/// `%Y-%m-%d %H:%M:%S`, the result turned into seconds from
/// `1970-01-01 00:00:00` by `and_utc().timestamp()`. Nothing is proved of
/// it: the contract only names the result, as a function of the text.
#[verifier::external_body]
fn parse_datetime(text: &str) -> (r: Result<i64, chrono::format::ParseError>)
    ensures
        match r {
            Ok(secs) => datetime_secs(text@) == Some(secs as int),
            Err(_) => datetime_secs(text@) is None,
        },
{
    let parsed = chrono::NaiveDateTime::parse_from_str(text, "%Y-%m-%d %H:%M:%S")?;
    Ok(parsed.and_utc().timestamp())
}

/// `chrono::NaiveDateTime::format` on the instant that
/// `chrono::DateTime::from_timestamp` makes of `secs`. The contract names the
/// text, as a function of the instant and the pattern, and claims that
/// `from_timestamp` accepts every instant of the years `0000` to `9999`,
/// which lie well inside the dates `chrono` can hold.
#[verifier::external_body]
fn format_datetime(secs: i64, pattern: &str) -> (r: Option<String>)
    requires
        pattern@ == minute_pattern() || pattern@ == date_pattern(),
    ensures
        r matches Some(text) ==> text@ == calendar_text(secs as int, pattern@),
        in_range(secs as int) ==> r is Some,
{
    let instant = chrono::DateTime::from_timestamp(secs, 0)?;
    Some(instant.naive_utc().format(pattern).to_string())
}

/// A wall-clock instant of the years `0000` to `9999`, at second precision.
///
/// Its view is the number of seconds from `1970-01-01 00:00:00`; no time
/// zone and no leap second enters it.
#[derive(Clone, Copy, Debug, PartialEq, Eq, Hash)]
pub struct Timestamp {
    secs: i64,
}

impl View for Timestamp {
    type V = int;

    closed spec fn view(&self) -> int {
        self.secs as int
    }
}

impl Timestamp {
    #[verifier::type_invariant]
    closed spec fn within_calendar(self) -> bool {
        in_range(self.secs as int)
    }

    /// The instant `secs` seconds after `1970-01-01 00:00:00`, where that lies
    /// in the years `0000` to `9999`.
    pub fn from_secs(secs: i64) -> (r: Option<Timestamp>)
        ensures
            r is Some <==> in_range(secs as int),
            r matches Some(t) ==> t@ == secs,
    {
        if MIN_SECS <= secs && secs <= MAX_SECS {
            Some(Timestamp { secs })
        } else {
            None
        }
    }

    /// Reads a timestamp written as `YYYY-MM-DD HH:MM:SS`.
    ///
    /// The text is accepted where `chrono` accepts it and the instant lies in
    /// the years `0000` to `9999`.
    pub fn parse(text: &str) -> (r: Option<Timestamp>)
        ensures
            r is Some <==> readable(text@),
            r matches Some(t) ==> datetime_secs(text@) == Some(t@),
    {
        match parse_datetime(text) {
            Ok(secs) => Self::from_secs(secs),
            Err(_) => None,
        }
    }

    /// Seconds from `1970-01-01 00:00:00`.
    pub fn secs(&self) -> (r: i64)
        ensures
            r == self@,
            in_range(r as int),
    {
        proof {
            use_type_invariant(self);
        }
        self.secs
    }

    /// Hour of the day, `0..24`.
    pub fn hour(&self) -> (r: u32)
        ensures
            r == hour_of(self@),
            r < 24,
    {
        proof {
            use_type_invariant(self);
        }
        let since_first_day: i64 = self.secs - MIN_SECS;
        assert(since_first_day % 86_400 == self.secs as int % 86_400) by {
            assert(MIN_SECS as int == -719_528 * 86_400);
        }
        ((since_first_day % DAY_SECS) / 3_600) as u32
    }

    /// The label of a sample taken at this instant: `YYYY-MM-DD HH:MM:00`.
    pub fn minute_label(&self) -> (r: String)
        ensures
            r@ == calendar_text(self@, minute_pattern()),
    {
        proof {
            use_type_invariant(self);
        }
        // every instant of a `Timestamp` is one that `chrono` can hold
        match format_datetime(self.secs, "%Y-%m-%d %H:%M:00") {
            Some(text) => text,
            None => String::new(),
        }
    }

    /// The label of the calendar day that holds this instant: `YYYY-MM-DD`.
    pub fn date_label(&self) -> (r: String)
        ensures
            r@ == calendar_text(self@, date_pattern()),
    {
        proof {
            use_type_invariant(self);
        }
        // every instant of a `Timestamp` is one that `chrono` can hold
        match format_datetime(self.secs, "%Y-%m-%d") {
            Some(text) => text,
            None => String::new(),
        }
    }

    /// The instant at which slot `index` of a series that starts here is
    /// sampled: `index` times 15 minutes later.
    pub fn slot(&self, index: usize) -> (t: Timestamp)
        requires
            in_range(slot_time(self@, index as int)),
        ensures
            t@ == slot_time(self@, index as int),
    {
        proof {
            use_type_invariant(self);
        }
        Timestamp { secs: self.secs + index as i64 * SLOT_SECS }
    }

    /// Index of the 15-minute slot, counted from this instant, that holds
    /// `other`. It is negative where `other` is the earlier of the two: the
    /// count is rounded down, not towards zero.
    pub fn slot_index(&self, other: &Timestamp) -> (index: i64)
        ensures
            index == slot_of(self@, other@),
            -400_000_000 <= index <= 400_000_000,
    {
        proof {
            use_type_invariant(self);
            use_type_invariant(other);
        }
        // moved up by 400 000 000 slots the count is never negative, and the
        // division rounds down
        let moved: i64 = other.secs - self.secs + 400_000_000 * SLOT_SECS;
        moved / SLOT_SECS - 400_000_000
    }

    /// Whether a series of `len` slots that starts here ends within the
    /// year `9999`, so that each of its slots has an instant.
    pub fn holds_slots(&self, len: usize) -> (r: bool)
        ensures
            r == (len > 0 ==> in_range(slot_time(self@, len - 1))),
    {
        proof {
            use_type_invariant(self);
        }
        if len == 0 {
            true
        } else if len - 1 > 400_000_000 {
            false
        } else {
            self.secs + (len - 1) as i64 * SLOT_SECS <= MAX_SECS
        }
    }

    /// Number of the calendar day that holds this instant.
    pub fn day(&self) -> (r: i64)
        ensures
            r == day_of(self@),
            in_range(midnight_of(r as int)),
    {
        proof {
            use_type_invariant(self);
        }
        let since_first_day: i64 = self.secs - MIN_SECS;
        assert(MIN_SECS as int == -719_528 * 86_400);
        since_first_day / DAY_SECS - 719_528
    }

    /// The instant at which the calendar day `day` starts.
    pub fn start_of_day(day: i64) -> (t: Timestamp)
        requires
            in_range(midnight_of(day as int)),
        ensures
            t@ == midnight_of(day as int),
    {
        Timestamp { secs: day * DAY_SECS }
    }
}

/// Two timestamps with one view are one timestamp.
pub proof fn lemma_timestamp_by_view(a: Timestamp, b: Timestamp)
    requires
        a@ == b@,
    ensures
        a == b,
{
}

} // verus!
