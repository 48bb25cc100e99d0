//! The two ends of one computation: what is settled before the readings are
//! placed on the time axis, and the two passes over the dense series.

use crate::error::PipelineError;
use crate::model::Response;
use crate::power::{
    build_power_records, is_power_records, lemma_period_series_of_changed_values, period_series,
    with_value,
};
use crate::records::{csv_table, map_records, reading_texts, readings_of_table, ReadingText};
use crate::regularize::{
    dense_series, earliest, lemma_dense_series_of_changed_powers, with_powers, DenseSeries,
    Reading,
};
use crate::scaling::{effective_factor, factor_in_force};
use crate::tariff::PeriodCategory;
use crate::work::{build_work_records, is_work_records, Window};
use vstd::prelude::*;

verus! {

/// What a computation starts from: the factor in force and the readings of
/// the table, their power still as text.
#[derive(Debug)]
pub struct Input<V> {
    /// The factor to scale every power value by.
    pub factor: V,
    /// The readings, in the order of the rows of the table.
    pub readings: Vec<Reading<Option<String>>>,
}

/// What reading the input comes to: the factor and the readings, or the
/// first error. A primary load without a factor is refused whatever the
/// table holds.
pub open spec fn input_of<V>(
    table: Option<Seq<Seq<Seq<char>>>>,
    is_primary_load: bool,
    factor: Option<V>,
    unit: V,
) -> Result<(V, Seq<ReadingText>), PipelineError> {
    match factor_in_force(is_primary_load, factor, unit) {
        Err(error) => Err(error),
        Ok(factor) => match readings_of_table(table) {
            Err(error) => Err(error),
            Ok(readings) => Ok((factor, readings)),
        },
    }
}

/// What comes out of reading the input, as plain values.
pub open spec fn input_text<V>(outcome: Result<Input<V>, PipelineError>) -> Result<
    (V, Seq<ReadingText>),
    PipelineError,
> {
    match outcome {
        Ok(input) => Ok((input.factor, reading_texts(input.readings@))),
        Err(error) => Err(error),
    }
}

/// Settles the factor, then reads the table `content`.
///
/// The factor comes first: a primary load without a factor fails with
/// `MissingFactor` before the text is looked at. After that the table fails
/// as `map_records` says.
pub fn read_input<V>(content: &str, is_primary_load: bool, factor: Option<V>, unit: V) -> (r:
    Result<Input<V>, PipelineError>)
    ensures
        input_text(r) == input_of(csv_table(content@), is_primary_load, factor, unit),
{
    let factor = match effective_factor(is_primary_load, factor, unit) {
        Ok(factor) => factor,
        Err(error) => {
            return Err(error);
        },
    };
    match map_records(content) {
        Ok(readings) => Ok(Input { factor, readings }),
        Err(error) => Err(error),
    }
}

/// The two views of a dense series: its power curve by tariff period, and for
/// each calendar day the slots of its two peak periods.
///
/// `remain_vec` holds the headroom of every slot of `dense`. The two passes
/// read the same series and do not depend on each other.
pub fn aggregate<V: Copy>(dense: &DenseSeries<V>, remain_vec: &Vec<V>) -> (response: Response<
    V,
    Window,
>)
    requires
        dense.wf(),
        remain_vec@.len() == dense.values@.len(),
    ensures
        is_power_records(response.power_records, dense.values@, remain_vec@, dense.start_point@),
        is_work_records(response.work_records, dense.values@.len() as int, dense.start_point@),
{
    let power_records = build_power_records(&dense.values, &dense.start_point, remain_vec);
    let work_records = build_work_records(&dense.values, &dense.start_point);
    Response { power_records, work_records }
}

/// Scaling the readings scales the curve and moves nothing. Where `scale` is
/// applied to the power of every row and leaves `zero` alone, the dense
/// series keeps its start and its length and has `scale` applied to every
/// slot, so the days and their windows stay as they are; and the series of
/// each tariff period keeps its labels and has `scale` applied to every
/// value.
pub proof fn lemma_scaling_moves_nothing<V>(
    rows: Seq<Reading<V>>,
    zero: V,
    scale: spec_fn(V) -> V,
    category: PeriodCategory,
)
    requires
        rows.len() > 0,
        scale(zero) == zero,
    ensures
        earliest(with_powers(rows, scale)) == earliest(rows),
        dense_series(with_powers(rows, scale), zero) == dense_series(rows, zero).map_values(scale),
        dense_series(with_powers(rows, scale), zero).len() == dense_series(rows, zero).len(),
        period_series(
            dense_series(with_powers(rows, scale), zero),
            earliest(with_powers(rows, scale)),
            category,
        ) == period_series(dense_series(rows, zero), earliest(rows), category).map_values(
            with_value(scale),
        ),
{
    lemma_dense_series_of_changed_powers(rows, zero, scale);
    lemma_period_series_of_changed_values(
        dense_series(rows, zero),
        earliest(rows),
        category,
        scale,
    );
}

} // verus!
