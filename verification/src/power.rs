//! The power curve: every slot of a dense series with its instant, its tariff
//! period and, in the off-peak periods, its headroom.

use crate::model::{PowerRecords, Series};
use crate::tariff::{categorize_by_datetime, period_of, PeriodCategory};
use crate::timestamp::{calendar_text, in_range, minute_pattern, slot_time, Timestamp};
use vstd::prelude::*;

verus! {

/// One sample of the power curve.
#[derive(Clone, Copy, Debug)]
pub struct PowerCurvePoint<V> {
    /// The instant at which the slot is sampled.
    pub time: Timestamp,
    /// The tariff period of that instant.
    pub category: PeriodCategory,
    /// The power in the slot.
    pub value: V,
    /// The headroom in the slot; given in the off-peak periods only.
    pub headroom: Option<V>,
}

/// Whether `point` is the sample of slot `slot` of the series `values` that
/// starts at `start`, with the headroom taken from `remains`.
pub open spec fn is_curve_point<V>(
    point: PowerCurvePoint<V>,
    values: Seq<V>,
    remains: Seq<V>,
    start: int,
    slot: int,
) -> bool {
    &&& point.time@ == slot_time(start, slot)
    &&& point.category == period_of(slot_time(start, slot))
    &&& point.value == values[slot]
    &&& point.headroom == if point.category.off_peak() {
        Some(remains[slot])
    } else {
        None
    }
}

/// The slots of `values`, each with the instant at which it is sampled.
pub open spec fn samples<V>(values: Seq<V>, start: int) -> Seq<(int, V)> {
    Seq::new(values.len(), |slot: int| (slot_time(start, slot), values[slot]))
}

/// Whether a sample falls into the period `category`.
pub open spec fn in_period<V>(category: PeriodCategory) -> spec_fn((int, V)) -> bool {
    |sample: (int, V)| period_of(sample.0) == category
}

/// A sample as a chart point: the label `YYYY-MM-DD HH:MM:00` of its instant
/// and its value.
pub open spec fn labelled<V>() -> spec_fn((int, V)) -> (Seq<char>, V) {
    |sample: (int, V)| (calendar_text(sample.0, minute_pattern()), sample.1)
}

/// The chart points of the slots of `values` that fall into `category`, in
/// the order of the slots.
pub open spec fn period_series<V>(values: Seq<V>, start: int, category: PeriodCategory) -> Seq<
    (Seq<char>, V),
> {
    samples(values, start).filter(in_period(category)).map_values(labelled())
}

/// Whether `records` are the chart series of the dense series `powers` that
/// starts at `start`, with the headroom of each slot in `remains`: the four
/// power series hold the slots of their periods, and the two headroom series
/// the headroom of the slots of the two off-peak periods.
pub open spec fn is_power_records<V>(
    records: PowerRecords<V>,
    powers: Seq<V>,
    remains: Seq<V>,
    start: int,
) -> bool {
    &&& records.wf()
    &&& records.evening_off_peak.points() == period_series(
        powers,
        start,
        PeriodCategory::EveningOffPeak,
    )
    &&& records.morning_peak.points() == period_series(powers, start, PeriodCategory::MorningPeak)
    &&& records.noon_off_peak.points() == period_series(powers, start, PeriodCategory::NoonOffPeak)
    &&& records.noon_peak.points() == period_series(powers, start, PeriodCategory::NoonPeak)
    &&& records.evening_remain.points() == period_series(
        remains,
        start,
        PeriodCategory::EveningOffPeak,
    )
    &&& records.noon_remain.points() == period_series(remains, start, PeriodCategory::NoonOffPeak)
}

/// The power curve of a dense series: one point per slot, in the order of the
/// slots. `remain_vec` holds the headroom of every slot; the curve shows it in
/// the off-peak periods only.
pub fn power_curve<V: Copy>(
    power_vec: &Vec<V>,
    start_point: &Timestamp,
    remain_vec: &Vec<V>,
) -> (curve: Vec<PowerCurvePoint<V>>)
    requires
        remain_vec@.len() == power_vec@.len(),
        power_vec@.len() > 0 ==> in_range(slot_time(start_point@, power_vec@.len() - 1)),
    ensures
        curve@.len() == power_vec@.len(),
        forall|slot: int|
            0 <= slot < curve@.len() ==> is_curve_point(
                #[trigger] curve@[slot],
                power_vec@,
                remain_vec@,
                start_point@,
                slot,
            ),
{
    let n = power_vec.len();
    let mut curve: Vec<PowerCurvePoint<V>> = Vec::new();
    let start = start_point.secs();
    let mut i: usize = 0;
    while i < n
        invariant
            i <= n,
            n == power_vec@.len(),
            n == remain_vec@.len(),
            start == start_point@,
            in_range(start as int),
            n > 0 ==> in_range(slot_time(start as int, n - 1)),
            curve@.len() == i,
            forall|slot: int|
                0 <= slot < i ==> is_curve_point(
                    #[trigger] curve@[slot],
                    power_vec@,
                    remain_vec@,
                    start_point@,
                    slot,
                ),
        decreases n - i,
    {
        let time = start_point.slot(i);
        let category = categorize_by_datetime(&time);
        let headroom = if category.is_off_peak() {
            Some(remain_vec[i])
        } else {
            None
        };
        curve.push(PowerCurvePoint { time, category, value: power_vec[i], headroom });
        i += 1;
    }
    curve
}

/// How the chart points of a period grow with one more slot: the slot adds
/// its point where it falls into the period, and nothing otherwise.
pub proof fn lemma_period_series_step<V>(
    values: Seq<V>,
    start: int,
    category: PeriodCategory,
    slot: int,
)
    requires
        0 <= slot < values.len(),
    ensures
        period_series(values.take(slot + 1), start, category) == if period_of(
            slot_time(start, slot),
        ) == category {
            period_series(values.take(slot), start, category).push(
                (calendar_text(slot_time(start, slot), minute_pattern()), values[slot]),
            )
        } else {
            period_series(values.take(slot), start, category)
        },
{
    let before = samples(values.take(slot), start);
    let sample = (slot_time(start, slot), values[slot]);
    assert(samples(values.take(slot + 1), start) =~= before.push(sample));
    before.lemma_filter_push(sample, in_period(category));
    before.filter(in_period(category)).lemma_push_map_commute(labelled(), sample);
}

/// The power curve as chart series, one per tariff period, with the headroom
/// of the two off-peak periods in series of their own.
///
/// `power_vec` holds one value per 15-minute slot from `start_point` on, and
/// `remain_vec` the headroom of each slot. Each series holds the slots of its
/// period in ascending order, labelled `YYYY-MM-DD HH:MM:00`; the slots of
/// the normal period are in no series.
pub fn build_power_records<V: Copy>(
    power_vec: &Vec<V>,
    start_point: &Timestamp,
    remain_vec: &Vec<V>,
) -> (records: PowerRecords<V>)
    requires
        remain_vec@.len() == power_vec@.len(),
        power_vec@.len() > 0 ==> in_range(slot_time(start_point@, power_vec@.len() - 1)),
    ensures
        is_power_records(records, power_vec@, remain_vec@, start_point@),
{
    let curve = power_curve(power_vec, start_point, remain_vec);
    let n = curve.len();
    let mut evening_off_peak: Series<V> = Series::new();
    let mut morning_peak: Series<V> = Series::new();
    let mut noon_off_peak: Series<V> = Series::new();
    let mut noon_peak: Series<V> = Series::new();
    let mut evening_remain: Series<V> = Series::new();
    let mut noon_remain: Series<V> = Series::new();
    let ghost start = start_point@;
    let ghost powers = power_vec@;
    let ghost remains = remain_vec@;
    proof {
        reveal(Seq::filter);
        assert(samples(powers.take(0), start) =~= Seq::<(int, V)>::empty());
        assert(samples(remains.take(0), start) =~= Seq::<(int, V)>::empty());
        assert forall|category: PeriodCategory| #[trigger]
            period_series(powers.take(0), start, category) =~= Seq::<(Seq<char>, V)>::empty() by {}
        assert forall|category: PeriodCategory| #[trigger]
            period_series(remains.take(0), start, category) =~= Seq::<(Seq<char>, V)>::empty() by {}
    }
    let mut i: usize = 0;
    while i < n
        invariant
            i <= n,
            n == curve@.len(),
            n == powers.len(),
            n == remains.len(),
            forall|slot: int|
                0 <= slot < n ==> is_curve_point(#[trigger] curve@[slot], powers, remains, start, slot),
            evening_off_peak.wf(),
            morning_peak.wf(),
            noon_off_peak.wf(),
            noon_peak.wf(),
            evening_remain.wf(),
            noon_remain.wf(),
            evening_off_peak.points() == period_series(
                powers.take(i as int),
                start,
                PeriodCategory::EveningOffPeak,
            ),
            morning_peak.points() == period_series(
                powers.take(i as int),
                start,
                PeriodCategory::MorningPeak,
            ),
            noon_off_peak.points() == period_series(
                powers.take(i as int),
                start,
                PeriodCategory::NoonOffPeak,
            ),
            noon_peak.points() == period_series(
                powers.take(i as int),
                start,
                PeriodCategory::NoonPeak,
            ),
            evening_remain.points() == period_series(
                remains.take(i as int),
                start,
                PeriodCategory::EveningOffPeak,
            ),
            noon_remain.points() == period_series(
                remains.take(i as int),
                start,
                PeriodCategory::NoonOffPeak,
            ),
        decreases n - i,
    {
        let point = curve[i];
        proof {
            assert(is_curve_point(curve@[i as int], powers, remains, start, i as int));
            lemma_period_series_step(powers, start, PeriodCategory::EveningOffPeak, i as int);
            lemma_period_series_step(powers, start, PeriodCategory::MorningPeak, i as int);
            lemma_period_series_step(powers, start, PeriodCategory::NoonOffPeak, i as int);
            lemma_period_series_step(powers, start, PeriodCategory::NoonPeak, i as int);
            lemma_period_series_step(remains, start, PeriodCategory::EveningOffPeak, i as int);
            lemma_period_series_step(remains, start, PeriodCategory::NoonOffPeak, i as int);
        }
        match point.category {
            PeriodCategory::EveningOffPeak => {
                evening_off_peak.push(point.time.minute_label(), point.value);
                if let Some(headroom) = point.headroom {
                    evening_remain.push(point.time.minute_label(), headroom);
                }
            },
            PeriodCategory::MorningPeak => {
                morning_peak.push(point.time.minute_label(), point.value);
            },
            PeriodCategory::NoonOffPeak => {
                noon_off_peak.push(point.time.minute_label(), point.value);
                if let Some(headroom) = point.headroom {
                    noon_remain.push(point.time.minute_label(), headroom);
                }
            },
            PeriodCategory::NoonPeak => {
                noon_peak.push(point.time.minute_label(), point.value);
            },
            PeriodCategory::Normal => {},
        }
        i += 1;
    }
    proof {
        assert(powers.take(n as int) == powers);
        assert(remains.take(n as int) == remains);
    }
    PowerRecords {
        evening_off_peak,
        morning_peak,
        noon_off_peak,
        noon_peak,
        evening_remain,
        noon_remain,
    }
}

/// The slots of a period that lie among the first `count` slots, in
/// ascending order.
pub open spec fn period_slots(start: int, category: PeriodCategory, count: int) -> Seq<int>
    decreases count,
{
    if count <= 0 {
        Seq::empty()
    } else if period_of(slot_time(start, count - 1)) == category {
        period_slots(start, category, count - 1).push(count - 1)
    } else {
        period_slots(start, category, count - 1)
    }
}

/// The slots of a period come in ascending order, each of them lies in the
/// period, and every slot of the period is among them.
pub proof fn lemma_period_slots(start: int, category: PeriodCategory, count: int)
    ensures
        forall|i: int|
            0 <= i < period_slots(start, category, count).len() ==> {
                &&& 0 <= #[trigger] period_slots(start, category, count)[i] < count
                &&& period_of(slot_time(start, period_slots(start, category, count)[i]))
                    == category
            },
        forall|i: int, j: int|
            0 <= i < j < period_slots(start, category, count).len() ==> period_slots(
                start,
                category,
                count,
            )[i] < period_slots(start, category, count)[j],
        forall|slot: int|
            0 <= slot < count && period_of(slot_time(start, slot)) == category
                ==> #[trigger] period_slots(start, category, count).contains(slot),
    decreases count,
{
    if count > 0 {
        lemma_period_slots(start, category, count - 1);
        let before = period_slots(start, category, count - 1);
        let all = period_slots(start, category, count);
        assert forall|slot: int|
            0 <= slot < count && period_of(slot_time(start, slot)) == category implies all.contains(
            slot,
        ) by {
            if slot < count - 1 {
                assert(before.contains(slot));
                let i = choose|i: int| 0 <= i < before.len() && before[i] == slot;
                assert(all[i] == slot);
            } else {
                assert(all[all.len() - 1] == slot);
            }
        }
    }
}

/// A period's series shows its slots one by one: point `i` of the series is
/// the label and the value of the `i`-th slot of the period. So the points
/// stand in ascending order of their instants, and the headroom series of an
/// off-peak period runs beside its power series, label for label.
pub proof fn lemma_period_series_by_slot<V>(
    values: Seq<V>,
    start: int,
    category: PeriodCategory,
)
    ensures
        period_series(values, start, category).len() == period_slots(
            start,
            category,
            values.len() as int,
        ).len(),
        forall|i: int|
            0 <= i < period_series(values, start, category).len() ==> #[trigger] period_series(
                values,
                start,
                category,
            )[i] == (
                calendar_text(
                    slot_time(start, period_slots(start, category, values.len() as int)[i]),
                    minute_pattern(),
                ),
                values[period_slots(start, category, values.len() as int)[i]],
            ),
    decreases values.len(),
{
    if values.len() == 0 {
        reveal(Seq::filter);
        assert(samples(values, start) =~= Seq::<(int, V)>::empty());
        assert(period_series(values, start, category) =~= Seq::<(Seq<char>, V)>::empty());
    } else {
        let last = values.len() - 1;
        let front = values.take(last);
        assert(values.take(last + 1) == values);
        lemma_period_series_step(values, start, category, last);
        lemma_period_series_by_slot(front, start, category);
        lemma_period_slots(start, category, last);
    }
}

/// A chart point with `change` applied to its value.
pub open spec fn with_value<V, W>(change: spec_fn(V) -> W) -> spec_fn((Seq<char>, V)) -> (
    Seq<char>,
    W,
) {
    |point: (Seq<char>, V)| (point.0, change(point.1))
}

/// Changing the values moves no point: the series of a period over changed
/// values has the points of the series over the unchanged values, label for
/// label, with the change applied to each value.
pub proof fn lemma_period_series_of_changed_values<V, W>(
    values: Seq<V>,
    start: int,
    category: PeriodCategory,
    change: spec_fn(V) -> W,
)
    ensures
        period_series(values.map_values(change), start, category) == period_series(
            values,
            start,
            category,
        ).map_values(with_value(change)),
    decreases values.len(),
{
    let changed = values.map_values(change);
    let left = period_series(changed, start, category);
    let right = period_series(values, start, category).map_values(with_value(change));
    if values.len() == 0 {
        reveal(Seq::filter);
        assert(samples(values, start) =~= Seq::<(int, V)>::empty());
        assert(samples(changed, start) =~= Seq::<(int, W)>::empty());
        assert(left =~= right);
    } else {
        let last = values.len() - 1;
        assert(values.take(last + 1) == values);
        assert(changed.take(last + 1) == changed);
        assert(changed.take(last) =~= values.take(last).map_values(change));
        lemma_period_series_step(values, start, category, last);
        lemma_period_series_step(changed, start, category, last);
        lemma_period_series_of_changed_values(values.take(last), start, category, change);
        assert(left =~= right);
    }
}

/// The same series gives the same chart series, point for point.
pub proof fn lemma_power_records_are_determined<V>(
    powers: Seq<V>,
    remains: Seq<V>,
    start: int,
    first: PowerRecords<V>,
    second: PowerRecords<V>,
)
    requires
        is_power_records(first, powers, remains, start),
        is_power_records(second, powers, remains, start),
    ensures
        first.evening_off_peak.points() == second.evening_off_peak.points(),
        first.morning_peak.points() == second.morning_peak.points(),
        first.noon_off_peak.points() == second.noon_off_peak.points(),
        first.noon_peak.points() == second.noon_peak.points(),
        first.evening_remain.points() == second.evening_remain.points(),
        first.noon_remain.points() == second.noon_remain.points(),
{
}

} // verus!
