//! The slots over which the energy of each day's two peak periods is
//! integrated.

use crate::model::{Series, WorkRecords};
use crate::tariff::{period_of, PeriodCategory};
use crate::timestamp::{
    calendar_text, date_pattern, day_of, in_range, midnight_of, slot_of, slot_time, Timestamp,
};
use vstd::prelude::*;

verus! {

/// A run of slots of a dense series: those from `begin` up to, but without,
/// `end`. The energy of the run is a quarter of the sum of its slots, each
/// slot standing for constant power over a quarter of an hour.
#[derive(Clone, Copy, Debug, PartialEq, Eq, Structural)]
pub struct Window {
    pub begin: usize,
    pub end: usize,
}

impl Window {
    /// Whether `slot` is one of the slots of the window.
    pub open spec fn holds(self, slot: int) -> bool {
        self.begin <= slot < self.end
    }
}

/// `raw` moved into the slots `0..=len - 1` of a series of `len` slots.
pub open spec fn clamp_slot(raw: int, len: int) -> int {
    if raw < 0 {
        0
    } else if raw > len - 1 {
        len - 1
    } else {
        raw
    }
}

/// The slot of a series starting at `start` in which the calendar day `day`
/// begins. It is negative where the series starts later on that day.
pub open spec fn day_offset(start: int, day: int) -> int {
    slot_of(start, midnight_of(day))
}

/// The slots of a series of `len` slots over which the period `category` of
/// the day that begins in slot `offset` is integrated: the four slots of
/// each hour of the period, clamped to the series.
pub open spec fn peak_window(len: int, offset: int, category: PeriodCategory) -> Window {
    Window {
        begin: clamp_slot(offset + 4 * category.first_hour(), len) as usize,
        end: clamp_slot(offset + 4 * category.end_hour(), len) as usize,
    }
}

/// Number of calendar days that a series of `len` slots from `start` on
/// touches.
pub open spec fn day_count(len: int, start: int) -> int {
    day_of(slot_time(start, len - 1)) - day_of(start) + 1
}

/// One point per calendar day that the series touches: the label
/// `YYYY-MM-DD` of the day and the slots over which its period `category` is
/// integrated.
pub open spec fn work_series(len: int, start: int, category: PeriodCategory) -> Seq<
    (Seq<char>, Window),
> {
    Seq::new(
        day_count(len, start) as nat,
        |d: int|
            (
                calendar_text(midnight_of(day_of(start) + d), date_pattern()),
                peak_window(len, day_offset(start, day_of(start) + d), category),
            ),
    )
}

/// Whether `records` hold, for every calendar day that a series of `len`
/// slots from `start` on touches, the windows of its two peak periods.
pub open spec fn is_work_records(records: WorkRecords<Window>, len: int, start: int) -> bool {
    &&& records.wf()
    &&& records.morning_peak.points() == work_series(len, start, PeriodCategory::MorningPeak)
    &&& records.noon_peak.points() == work_series(len, start, PeriodCategory::NoonPeak)
}

/// A peak window never leaves the series, and it holds exactly the slots of
/// the period's hours that lie in the series before its last slot. So a
/// window that lies outside the series is empty, and one that lies partly
/// outside it is cut to the part inside.
pub proof fn lemma_window_clipped(len: int, offset: int, category: PeriodCategory)
    requires
        1 <= len <= usize::MAX,
    ensures
        0 <= peak_window(len, offset, category).begin <= peak_window(len, offset, category).end
            <= len - 1,
        forall|slot: int| #[trigger]
            peak_window(len, offset, category).holds(slot) <==> 0 <= slot < len - 1 && offset + 4
                * category.first_hour() <= slot < offset + 4 * category.end_hour(),
        offset + 4 * category.end_hour() <= 0 || offset + 4 * category.first_hour() > len - 1
            ==> peak_window(len, offset, category).begin == peak_window(
            len,
            offset,
            category,
        ).end,
{
}

/// The windows follow the tariff periods: in a series that starts on a
/// quarter of an hour, the window of a peak period of a day holds exactly the
/// slots before the last one whose instants lie on that day and in that
/// period. The slot sampled at the hour at which the period ends is no part
/// of it.
pub proof fn lemma_window_is_the_period(
    len: int,
    start: int,
    day: int,
    category: PeriodCategory,
    slot: int,
)
    requires
        1 <= len <= usize::MAX,
        start % 900 == 0,
        category == PeriodCategory::MorningPeak || category == PeriodCategory::NoonPeak,
    ensures
        peak_window(len, day_offset(start, day), category).holds(slot) <==> {
            &&& 0 <= slot < len - 1
            &&& day_of(slot_time(start, slot)) == day
            &&& period_of(slot_time(start, slot)) == category
        },
{
    let offset = day_offset(start, day);
    assert(midnight_of(day) == start + 900 * offset);
    assert(slot_time(start, slot) == midnight_of(day) + 900 * (slot - offset));
    lemma_window_clipped(len, offset, category);
}

/// The slots of one peak period of one day.
fn clamp_window(len: usize, offset: i64, category: PeriodCategory) -> (window: Window)
    requires
        len >= 1,
        -400_000_000 <= offset <= 400_000_000,
        category == PeriodCategory::MorningPeak || category == PeriodCategory::NoonPeak,
    ensures
        window == peak_window(len as int, offset as int, category),
{
    let (first_hour, end_hour): (i64, i64) = match category {
        PeriodCategory::MorningPeak => (8, 11),
        _ => (13, 17),
    };
    let raw_begin: i64 = offset + 4 * first_hour;
    let raw_end: i64 = offset + 4 * end_hour;
    let begin: usize = if raw_begin < 0 {
        0
    } else if raw_begin as u64 > (len - 1) as u64 {
        len - 1
    } else {
        raw_begin as usize
    };
    let end: usize = if raw_end < 0 {
        0
    } else if raw_end as u64 > (len - 1) as u64 {
        len - 1
    } else {
        raw_end as usize
    };
    Window { begin, end }
}

/// For every calendar day that the series touches, the slots over which the
/// energy of its morning peak and of its noon peak is integrated.
///
/// `power_vec` holds one value per 15-minute slot from `start_point` on. The
/// days run from the day of the first slot to the day of the last. A day's
/// morning peak is the hours from 8 to 11 and its noon peak the hours from 13
/// to 17; each window is cut to the slots of the series before the last one,
/// and is empty where the period lies outside the series. The energy of a
/// window is a quarter of the sum of its slots.
pub fn build_work_records<V>(power_vec: &Vec<V>, start_point: &Timestamp) -> (records: WorkRecords<
    Window,
>)
    requires
        power_vec@.len() >= 1,
        in_range(slot_time(start_point@, power_vec@.len() - 1)),
    ensures
        is_work_records(records, power_vec@.len() as int, start_point@),
{
    let len = power_vec.len();
    let start = start_point.secs();
    let end_point = start_point.slot(len - 1);
    let first_day = start_point.day();
    let last_day = end_point.day();
    let mut morning_peak: Series<Window> = Series::new();
    let mut noon_peak: Series<Window> = Series::new();
    let ghost morning = work_series(len as int, start as int, PeriodCategory::MorningPeak);
    let ghost noon = work_series(len as int, start as int, PeriodCategory::NoonPeak);
    assert(first_day <= last_day);
    let mut day: i64 = first_day;
    while day <= last_day
        invariant
            first_day <= day <= last_day + 1,
            first_day == day_of(start as int),
            last_day == day_of(slot_time(start as int, len - 1)),
            start == start_point@,
            in_range(start as int),
            in_range(slot_time(start as int, len - 1)),
            len >= 1,
            len == power_vec@.len(),
            morning == work_series(len as int, start as int, PeriodCategory::MorningPeak),
            noon == work_series(len as int, start as int, PeriodCategory::NoonPeak),
            morning_peak.wf(),
            noon_peak.wf(),
            morning_peak.points() == morning.take(day - first_day),
            noon_peak.points() == noon.take(day - first_day),
        decreases last_day + 1 - day,
    {
        let midnight = Timestamp::start_of_day(day);
        let offset = start_point.slot_index(&midnight);
        let morning_window = clamp_window(len, offset, PeriodCategory::MorningPeak);
        let noon_window = clamp_window(len, offset, PeriodCategory::NoonPeak);
        morning_peak.push(midnight.date_label(), morning_window);
        noon_peak.push(midnight.date_label(), noon_window);
        proof {
            let d = day - first_day;
            assert(morning.take(d + 1) =~= morning.take(d).push(morning[d]));
            assert(noon.take(d + 1) =~= noon.take(d).push(noon[d]));
        }
        day += 1;
    }
    proof {
        assert(morning.take(day - first_day) =~= morning);
        assert(noon.take(day - first_day) =~= noon);
    }
    WorkRecords { morning_peak, noon_peak }
}

/// A series of the same length and start gives the same days and windows.
pub proof fn lemma_work_records_are_determined(
    len: int,
    start: int,
    first: WorkRecords<Window>,
    second: WorkRecords<Window>,
)
    requires
        is_work_records(first, len, start),
        is_work_records(second, len, start),
    ensures
        first.morning_peak.points() == second.morning_peak.points(),
        first.noon_peak.points() == second.noon_peak.points(),
{
}

} // verus!
