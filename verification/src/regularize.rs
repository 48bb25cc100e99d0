//! From readings logged at irregular instants to a gap-free series with one
//! value per 15-minute slot.

use crate::error::PipelineError;
use crate::timestamp::{
    in_range, lemma_timestamp_by_view, minutes_between, slot_of, slot_time, Timestamp,
};
use vstd::prelude::*;

verus! {

/// One logged sample: the instant and the power read at it.
#[derive(Clone, Copy, Debug)]
pub struct Reading<V> {
    pub time: Timestamp,
    pub power: V,
}

/// A series with one value per 15-minute slot. Slot `i` is sampled at
/// `start_point` plus `i` times 15 minutes.
#[derive(Clone, Debug)]
pub struct DenseSeries<V> {
    pub start_point: Timestamp,
    pub values: Vec<V>,
}

impl<V> DenseSeries<V> {
    /// The series has a first slot, and its last slot is sampled no later
    /// than the year `9999` ends.
    pub open spec fn wf(&self) -> bool {
        &&& self.values@.len() >= 1
        &&& in_range(slot_time(self.start_point@, self.values@.len() - 1))
    }

    /// Whether the series is well-formed.
    pub fn is_wf(&self) -> (r: bool)
        ensures
            r == self.wf(),
    {
        self.values.len() >= 1 && self.start_point.holds_slots(self.values.len())
    }

    /// Whether this is the regular series of `rows`, filled with `zero`: it
    /// starts at their earliest instant and holds the value of every slot.
    pub open spec fn is_series_of(&self, rows: Seq<Reading<V>>, zero: V) -> bool {
        &&& self.start_point@ == earliest(rows)
        &&& self.values@ == dense_series(rows, zero)
    }
}

/// The earliest instant among `rows`.
pub open spec fn earliest<V>(rows: Seq<Reading<V>>) -> int
    decreases rows.len(),
{
    if rows.len() <= 1 {
        rows[0].time@
    } else {
        let before = earliest(rows.drop_last());
        if rows.last().time@ < before {
            rows.last().time@
        } else {
            before
        }
    }
}

/// The latest instant among `rows`.
pub open spec fn latest<V>(rows: Seq<Reading<V>>) -> int
    decreases rows.len(),
{
    if rows.len() <= 1 {
        rows[0].time@
    } else {
        let before = latest(rows.drop_last());
        if rows.last().time@ > before {
            rows.last().time@
        } else {
            before
        }
    }
}

/// Number of slots from the earliest to the latest instant of `rows`, both
/// included.
pub open spec fn dense_len<V>(rows: Seq<Reading<V>>) -> int {
    minutes_between(earliest(rows), latest(rows)) / 15 + 1
}

/// The row that decides the value of slot `slot`, if any row falls into that
/// slot: of the rows in the slot, the one with the latest instant, and of
/// several rows with that instant, the last in `rows`.
pub open spec fn decider<V>(rows: Seq<Reading<V>>, start: int, slot: int) -> Option<int>
    decreases rows.len(),
{
    if rows.len() == 0 {
        None
    } else {
        let before = decider(rows.drop_last(), start, slot);
        let last = rows.len() - 1;
        if slot_of(start, rows[last].time@) == slot && (before matches Some(b) ==> rows[b].time@
            <= rows[last].time@) {
            Some(last)
        } else {
            before
        }
    }
}

/// The value of slot `slot`: the power of the row that decides it, or `zero`
/// where no row falls into the slot.
pub open spec fn slot_value<V>(rows: Seq<Reading<V>>, start: int, slot: int, zero: V) -> V {
    match decider(rows, start, slot) {
        Some(b) => rows[b].power,
        None => zero,
    }
}

/// The regular series of `rows`, with `zero` in the slots that no row fills.
pub open spec fn dense_series<V>(rows: Seq<Reading<V>>, zero: V) -> Seq<V> {
    Seq::new(dense_len(rows) as nat, |slot: int| slot_value(rows, earliest(rows), slot, zero))
}

/// `earliest(rows)` and `latest(rows)` are instants of rows, and every row
/// lies between them.
pub proof fn lemma_span<V>(rows: Seq<Reading<V>>)
    requires
        rows.len() > 0,
    ensures
        exists|a: int| 0 <= a < rows.len() && #[trigger] rows[a].time@ == earliest(rows),
        exists|b: int| 0 <= b < rows.len() && #[trigger] rows[b].time@ == latest(rows),
        forall|c: int|
            0 <= c < rows.len() ==> earliest(rows) <= #[trigger] rows[c].time@ <= latest(rows),
    decreases rows.len(),
{
    if rows.len() > 1 {
        let front = rows.drop_last();
        lemma_span(front);
        let a = choose|a: int| 0 <= a < front.len() && #[trigger] front[a].time@ == earliest(front);
        let b = choose|b: int| 0 <= b < front.len() && #[trigger] front[b].time@ == latest(front);
        let last = rows.len() - 1;
        assert(rows[a].time@ == front[a].time@);
        assert(rows[b].time@ == front[b].time@);
        assert(rows[last].time@ == rows.last().time@);
        assert forall|c: int| 0 <= c < rows.len() implies earliest(rows) <= #[trigger] rows[c].time@
            <= latest(rows) by {
            if c < last {
                assert(rows[c].time@ == front[c].time@);
            }
        }
    } else {
        assert(rows[0].time@ == earliest(rows));
        assert(rows[0].time@ == latest(rows));
    }
}

/// Whether row `b` decides slot `slot`: it falls into the slot, no row of
/// the slot has a later instant, and no row behind it has its instant.
pub open spec fn decides<V>(rows: Seq<Reading<V>>, start: int, slot: int, b: int) -> bool {
    &&& 0 <= b < rows.len()
    &&& slot_of(start, rows[b].time@) == slot
    &&& forall|c: int|
        0 <= c < rows.len() && slot_of(start, #[trigger] rows[c].time@) == slot ==> rows[c].time@
            <= rows[b].time@
    &&& forall|c: int| b < c < rows.len() ==> #[trigger] rows[c].time@ != rows[b].time@
}

/// `decider` gives the row that decides the slot, and gives none only where
/// no row falls into the slot.
pub proof fn lemma_decider<V>(rows: Seq<Reading<V>>, start: int, slot: int)
    ensures
        match decider(rows, start, slot) {
            Some(b) => decides(rows, start, slot, b),
            None => forall|c: int|
                0 <= c < rows.len() ==> slot_of(start, #[trigger] rows[c].time@) != slot,
        },
    decreases rows.len(),
{
    if rows.len() > 0 {
        let front = rows.drop_last();
        lemma_decider(front, start, slot);
        let last = rows.len() - 1;
        assert forall|c: int| 0 <= c < last implies #[trigger] rows[c] == front[c] by {}
        match decider(rows, start, slot) {
            Some(b) => {
                assert forall|c: int|
                    0 <= c < rows.len() && slot_of(start, #[trigger] rows[c].time@)
                        == slot implies rows[c].time@ <= rows[b].time@ by {
                    if c < last {
                        assert(front[c] == rows[c]);
                    }
                }
                assert forall|c: int| b < c < rows.len() implies #[trigger] rows[c].time@
                    != rows[b].time@ by {
                    if c < last {
                        assert(front[c] == rows[c]);
                    }
                }
            },
            None => {
                assert forall|c: int| 0 <= c < rows.len() implies slot_of(
                    start,
                    #[trigger] rows[c].time@,
                ) != slot by {
                    if c < last {
                        assert(front[c] == rows[c]);
                    }
                }
            },
        }
    }
}

/// One row at most decides a slot: the one that `decider` gives.
pub proof fn lemma_decides_once<V>(rows: Seq<Reading<V>>, start: int, slot: int, b: int)
    requires
        decides(rows, start, slot, b),
    ensures
        decider(rows, start, slot) == Some(b),
{
    lemma_decider(rows, start, slot);
}

/// Dropping the last of the first `k + 1` rows leaves the first `k`.
proof fn lemma_take_step<V>(rows: Seq<Reading<V>>, k: int)
    requires
        0 <= k < rows.len(),
    ensures
        rows.take(k + 1).drop_last() == rows.take(k),
        rows.take(k + 1).last() == rows[k],
        rows.take(k + 1).len() == k + 1,
{
}

/// Spreads `rows` over the 15-minute slots from their earliest to their
/// latest instant.
///
/// A slot takes the power of the row that falls into it; of several rows in
/// one slot the one with the latest instant counts, and of several rows with
/// that instant the last in `rows`. A slot without a row holds `zero`. Rows
/// may come in any order. With no row at all there is no span to fill, and
/// the call fails with `EmptyInput`.
pub fn regularize<V: Copy>(rows: &Vec<Reading<V>>, zero: V) -> (r: Result<
    DenseSeries<V>,
    PipelineError,
>)
    ensures
        r is Err <==> rows@.len() == 0,
        r matches Err(e) ==> e == PipelineError::EmptyInput,
        r matches Ok(dense) ==> dense.is_series_of(rows@, zero) && dense.wf(),
{
    let n = rows.len();
    if n == 0 {
        return Err(PipelineError::EmptyInput);
    }
    let mut start_point: Timestamp = rows[0].time;
    let mut end_point: Timestamp = rows[0].time;
    let mut first: i64 = start_point.secs();
    let mut last: i64 = first;
    let mut k: usize = 1;
    assert(rows@.take(1).len() == 1 && rows@.take(1)[0] == rows@[0]);
    while k < n
        invariant
            1 <= k <= n,
            n == rows.len(),
            first == start_point@,
            last == end_point@,
            first == earliest(rows@.take(k as int)),
            last == latest(rows@.take(k as int)),
            first <= last,
            in_range(first as int),
            in_range(last as int),
        decreases n - k,
    {
        let time = rows[k].time;
        let t = time.secs();
        proof {
            lemma_take_step(rows@, k as int);
        }
        if t < first {
            first = t;
            start_point = time;
        }
        if t > last {
            last = t;
            end_point = time;
        }
        k += 1;
    }
    assert(rows@.take(n as int) == rows@);
    let len: usize = (start_point.slot_index(&end_point) + 1) as usize;

    // `owners[slot]` is the row whose power `values[slot]` holds
    let mut values: Vec<V> = Vec::new();
    let mut owners: Vec<Option<usize>> = Vec::new();
    let mut i: usize = 0;
    while i < len
        invariant
            i <= len,
            values.len() == i,
            owners.len() == i,
            forall|j: int| 0 <= j < i ==> #[trigger] values[j] == zero,
            forall|j: int| 0 <= j < i ==> #[trigger] owners[j] is None,
        decreases len - i,
    {
        values.push(zero);
        owners.push(None);
        i += 1;
    }

    let ghost start = start_point@;
    let mut k: usize = 0;
    while k < n
        invariant
            k <= n,
            n == rows.len(),
            start == start_point@,
            start == earliest(rows@),
            len == dense_len(rows@),
            in_range(slot_time(start, len - 1)),
            values.len() == len,
            owners.len() == len,
            forall|j: int|
                0 <= j < len ==> match #[trigger] owners[j] {
                    Some(b) => decider(rows@.take(k as int), start, j) == Some(b as int),
                    None => decider(rows@.take(k as int), start, j) is None,
                },
            forall|j: int|
                0 <= j < len ==> #[trigger] values[j] == slot_value(
                    rows@.take(k as int),
                    start,
                    j,
                    zero,
                ),
        decreases n - k,
    {
        let time = rows[k].time;
        let power = rows[k].power;
        proof {
            lemma_span(rows@);
            lemma_take_step(rows@, k as int);
        }
        let slot: usize = start_point.slot_index(&time) as usize;
        assert(slot < len);
        let wins = match owners[slot] {
            Some(b) => {
                proof {
                    lemma_decider(rows@.take(k as int), start, slot as int);
                }
                rows[b].time.secs() <= time.secs()
            },
            None => true,
        };
        let ghost before = rows@.take(k as int);
        let ghost after = rows@.take(k + 1);
        let ghost old_owners = owners@;
        let ghost old_values = values@;
        if wins {
            values.set(slot, power);
            owners.set(slot, Some(k));
        }
        proof {
            assert forall|j: int| 0 <= j < len implies match #[trigger] owners[j] {
                Some(b) => decider(after, start, j) == Some(b as int),
                None => decider(after, start, j) is None,
            } by {
                lemma_decider(before, start, j);
                if j != slot {
                    assert(owners[j] == old_owners[j]);
                }
            }
            assert forall|j: int| 0 <= j < len implies #[trigger] values[j] == slot_value(
                after,
                start,
                j,
                zero,
            ) by {
                lemma_decider(before, start, j);
                if j != slot {
                    assert(values[j] == old_values[j]);
                    assert(owners[j] == old_owners[j]);
                }
            }
        }
        k += 1;
    }
    assert(rows@.take(n as int) == rows@);
    assert(values@ =~= dense_series(rows@, zero));
    Ok(DenseSeries { start_point, values })
}

/// The series spans the rows exactly: it has one slot for every 15 minutes
/// from the earliest to the latest instant, its first slot is that of the
/// earliest row and its last slot that of the latest, and every row falls
/// into one of its slots.
pub proof fn lemma_dense_len<V>(rows: Seq<Reading<V>>, zero: V)
    requires
        rows.len() > 0,
    ensures
        dense_series(rows, zero).len() == minutes_between(earliest(rows), latest(rows)) / 15 + 1,
        slot_of(earliest(rows), earliest(rows)) == 0,
        slot_of(earliest(rows), latest(rows)) == dense_series(rows, zero).len() - 1,
        forall|c: int|
            0 <= c < rows.len() ==> 0 <= slot_of(earliest(rows), #[trigger] rows[c].time@)
                < dense_series(rows, zero).len(),
{
    lemma_span(rows);
}

/// A slot into which no row falls holds `zero`.
pub proof fn lemma_zero_fill<V>(rows: Seq<Reading<V>>, zero: V, slot: int)
    requires
        0 <= slot < dense_series(rows, zero).len(),
        forall|c: int|
            0 <= c < rows.len() ==> slot_of(earliest(rows), #[trigger] rows[c].time@) != slot,
    ensures
        dense_series(rows, zero)[slot] == zero,
{
    lemma_decider(rows, earliest(rows), slot);
}

/// A slot holds the power of the row that decides it.
pub proof fn lemma_last_row_wins<V>(rows: Seq<Reading<V>>, zero: V, b: int)
    requires
        0 <= b < rows.len(),
        decides(rows, earliest(rows), slot_of(earliest(rows), rows[b].time@), b),
    ensures
        0 <= slot_of(earliest(rows), rows[b].time@) < dense_series(rows, zero).len(),
        dense_series(rows, zero)[slot_of(earliest(rows), rows[b].time@)] == rows[b].power,
{
    lemma_dense_len(rows, zero);
    lemma_decides_once(rows, earliest(rows), slot_of(earliest(rows), rows[b].time@), b);
}

/// Of two rows with one instant the later one counts, and nothing is added
/// up: where `b` is the last row with that instant, and no row of a later
/// instant falls into the same slot, the slot holds the power of `b`,
/// whatever the earlier row `a` held.
pub proof fn lemma_duplicate_collapse<V>(rows: Seq<Reading<V>>, zero: V, a: int, b: int)
    requires
        0 <= a < b < rows.len(),
        rows[a].time@ == rows[b].time@,
        decides(rows, earliest(rows), slot_of(earliest(rows), rows[b].time@), b),
    ensures
        dense_series(rows, zero)[slot_of(earliest(rows), rows[a].time@)] == rows[b].power,
{
    lemma_last_row_wins(rows, zero, b);
}

/// `rows` with `change` applied to the power of each row.
pub open spec fn with_powers<V, W>(rows: Seq<Reading<V>>, change: spec_fn(V) -> W) -> Seq<
    Reading<W>,
> {
    Seq::new(rows.len(), |c: int| Reading { time: rows[c].time, power: change(rows[c].power) })
}

/// Changing the powers moves no row: the span and the row that decides each
/// slot stay as they are.
proof fn lemma_with_powers_keeps_rows<V, W>(
    rows: Seq<Reading<V>>,
    change: spec_fn(V) -> W,
    start: int,
    slot: int,
)
    ensures
        rows.len() > 0 ==> earliest(with_powers(rows, change)) == earliest(rows),
        rows.len() > 0 ==> latest(with_powers(rows, change)) == latest(rows),
        decider(with_powers(rows, change), start, slot) == decider(rows, start, slot),
    decreases rows.len(),
{
    let changed = with_powers(rows, change);
    if rows.len() > 0 {
        assert(changed.drop_last() =~= with_powers(rows.drop_last(), change));
        lemma_with_powers_keeps_rows(rows.drop_last(), change, start, slot);
        lemma_decider(rows.drop_last(), start, slot);
    }
}

/// The values pass through as they are: changing the power of every row by
/// `change` before the series is built gives a series with the same start
/// and the same slots, with `change` applied to every slot, as long as the
/// fill value is changed alike. So a factor applied to every row is a factor
/// applied to every slot, where the factor leaves the fill value alone.
pub proof fn lemma_dense_series_of_changed_powers<V, W>(
    rows: Seq<Reading<V>>,
    zero: V,
    change: spec_fn(V) -> W,
)
    requires
        rows.len() > 0,
    ensures
        earliest(with_powers(rows, change)) == earliest(rows),
        dense_series(with_powers(rows, change), change(zero)) == dense_series(
            rows,
            zero,
        ).map_values(change),
{
    let changed = with_powers(rows, change);
    lemma_with_powers_keeps_rows(rows, change, 0, 0);
    let left = dense_series(changed, change(zero));
    let right = dense_series(rows, zero).map_values(change);
    assert(left.len() == right.len());
    assert forall|slot: int| 0 <= slot < left.len() implies left[slot] == right[slot] by {
        lemma_with_powers_keeps_rows(rows, change, earliest(rows), slot);
        lemma_decider(rows, earliest(rows), slot);
    }
    assert(left =~= right);
}

/// The readings as a map from instant to power: of several rows with one
/// instant the last one counts.
pub open spec fn sparse_series<V>(rows: Seq<Reading<V>>) -> Map<int, V>
    decreases rows.len(),
{
    if rows.len() == 0 {
        Map::empty()
    } else {
        sparse_series(rows.drop_last()).insert(rows.last().time@, rows.last().power)
    }
}

/// Whether a row of `rows` has the instant `key`.
pub open spec fn has_instant<V>(rows: Seq<Reading<V>>, key: int) -> bool {
    exists|c: int| 0 <= c < rows.len() && #[trigger] rows[c].time@ == key
}

/// Whether no row behind row `b` has the instant of `b`.
pub open spec fn is_last_of_its_instant<V>(rows: Seq<Reading<V>>, b: int) -> bool {
    &&& 0 <= b < rows.len()
    &&& forall|c: int| b < c < rows.len() ==> #[trigger] rows[c].time@ != rows[b].time@
}

/// The keys of the map are the instants of the rows.
pub proof fn lemma_sparse_keys<V>(rows: Seq<Reading<V>>, key: int)
    ensures
        sparse_series(rows).dom().contains(key) <==> has_instant(rows, key),
    decreases rows.len(),
{
    if rows.len() > 0 {
        let front = rows.drop_last();
        let last = rows.len() - 1;
        lemma_sparse_keys(front, key);
        assert(rows[last].time@ == rows.last().time@);
        if has_instant(front, key) {
            let c = choose|c: int| 0 <= c < front.len() && #[trigger] front[c].time@ == key;
            assert(rows[c].time@ == key);
        }
        if has_instant(rows, key) && key != rows[last].time@ {
            let c = choose|c: int| 0 <= c < rows.len() && #[trigger] rows[c].time@ == key;
            assert(front[c].time@ == key);
        }
    }
}

/// Under the instant of a row that no later row repeats, the map has the
/// power of that row.
pub proof fn lemma_sparse_value<V>(rows: Seq<Reading<V>>, b: int)
    requires
        is_last_of_its_instant(rows, b),
    ensures
        sparse_series(rows).dom().contains(rows[b].time@),
        sparse_series(rows)[rows[b].time@] == rows[b].power,
    decreases rows.len(),
{
    let front = rows.drop_last();
    let last = rows.len() - 1;
    if b < last {
        assert(rows[last].time@ != rows[b].time@);
        assert(front[b] == rows[b]);
        assert forall|c: int| b < c < front.len() implies #[trigger] front[c].time@
            != front[b].time@ by {
            assert(rows[c].time@ != rows[b].time@);
        }
        lemma_sparse_value(front, b);
    }
}

/// The series reads the map: a slot holds what the map has under the latest
/// of its instants that fall into the slot, and `zero` where none of them
/// does.
pub proof fn lemma_dense_reads_sparse<V>(rows: Seq<Reading<V>>, zero: V, slot: int)
    requires
        0 <= slot < dense_series(rows, zero).len(),
    ensures
        match decider(rows, earliest(rows), slot) {
            Some(b) => {
                &&& sparse_series(rows).dom().contains(rows[b].time@)
                &&& dense_series(rows, zero)[slot] == sparse_series(rows)[rows[b].time@]
                &&& forall|key: int|
                    #![trigger sparse_series(rows).dom().contains(key)]
                    sparse_series(rows).dom().contains(key) && slot_of(earliest(rows), key) == slot
                        ==> key <= rows[b].time@
            },
            None => {
                &&& dense_series(rows, zero)[slot] == zero
                &&& forall|key: int|
                    #![trigger sparse_series(rows).dom().contains(key)]
                    sparse_series(rows).dom().contains(key) ==> slot_of(earliest(rows), key) != slot
            },
        },
{
    let start = earliest(rows);
    lemma_decider(rows, start, slot);
    match decider(rows, start, slot) {
        Some(b) => {
            lemma_sparse_value(rows, b);
            assert forall|key: int|
                #![trigger sparse_series(rows).dom().contains(key)]
                sparse_series(rows).dom().contains(key) && slot_of(start, key)
                    == slot implies key <= rows[b].time@ by {
                lemma_sparse_keys(rows, key);
                let c = choose|c: int| 0 <= c < rows.len() && #[trigger] rows[c].time@ == key;
                assert(rows[c].time@ <= rows[b].time@);
            }
        },
        None => {
            assert forall|key: int|
                #![trigger sparse_series(rows).dom().contains(key)]
                sparse_series(rows).dom().contains(key) implies slot_of(start, key) != slot by {
                lemma_sparse_keys(rows, key);
                let c = choose|c: int| 0 <= c < rows.len() && #[trigger] rows[c].time@ == key;
                assert(slot_of(start, rows[c].time@) != slot);
            }
        },
    }
}

/// The same rows give the same series: two series of one input agree in
/// their start and in every slot.
pub proof fn lemma_regularize_is_determined<V>(
    rows: Seq<Reading<V>>,
    zero: V,
    first: DenseSeries<V>,
    second: DenseSeries<V>,
)
    requires
        first.is_series_of(rows, zero),
        second.is_series_of(rows, zero),
    ensures
        first.start_point == second.start_point,
        first.values@ == second.values@,
{
    lemma_timestamp_by_view(first.start_point, second.start_point);
}

} // verus!
