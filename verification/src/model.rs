//! The series handed to the charts.

use vstd::prelude::*;

verus! {

/// One chart series: `x` holds the labels and `y` the values, point by
/// point.
#[derive(Debug)]
pub struct Series<V> {
    pub x: Vec<String>,
    pub y: Vec<V>,
}

impl<V> Series<V> {
    /// Every label has its value.
    pub open spec fn wf(&self) -> bool {
        self.x@.len() == self.y@.len()
    }

    /// The points of the series, each as its label and its value.
    pub open spec fn points(&self) -> Seq<(Seq<char>, V)> {
        Seq::new(self.x@.len(), |i: int| (self.x@[i]@, self.y@[i]))
    }

    /// A series without points.
    pub fn new() -> (r: Self)
        ensures
            r.wf(),
            r.points() == Seq::<(Seq<char>, V)>::empty(),
    {
        let r = Series { x: Vec::new(), y: Vec::new() };
        assert(r.points() =~= Seq::<(Seq<char>, V)>::empty());
        r
    }

    /// Adds a point behind the others.
    pub fn push(&mut self, label: String, value: V)
        requires
            old(self).wf(),
        ensures
            final(self).wf(),
            final(self).points() == old(self).points().push((label@, value)),
    {
        self.x.push(label);
        self.y.push(value);
        assert(self.points() =~= old(self).points().push((label@, value)));
    }
}

impl<V> Default for Series<V> {
    /// A series without points.
    fn default() -> (r: Self)
        ensures
            r.wf(),
            r.points() == Seq::<(Seq<char>, V)>::empty(),
    {
        Series::new()
    }
}

/// The power curve, one series per tariff period, and the headroom left
/// under the rated capacity in the two off-peak periods. Samples of the
/// normal period are in none of them.
#[derive(Debug)]
pub struct PowerRecords<V> {
    /// Power in the evening off-peak period.
    pub evening_off_peak: Series<V>,
    /// Power in the morning peak period.
    pub morning_peak: Series<V>,
    /// Power in the noon off-peak period.
    pub noon_off_peak: Series<V>,
    /// Power in the noon peak period.
    pub noon_peak: Series<V>,
    /// Headroom in the evening off-peak period.
    pub evening_remain: Series<V>,
    /// Headroom in the noon off-peak period.
    pub noon_remain: Series<V>,
}

impl<V> PowerRecords<V> {
    /// In each series every label has its value.
    pub open spec fn wf(&self) -> bool {
        &&& self.evening_off_peak.wf()
        &&& self.morning_peak.wf()
        &&& self.noon_off_peak.wf()
        &&& self.noon_peak.wf()
        &&& self.evening_remain.wf()
        &&& self.noon_remain.wf()
    }
}

impl<V> Default for PowerRecords<V> {
    /// Six series without points.
    fn default() -> (r: Self)
        ensures
            r.wf(),
            r.evening_off_peak.points().len() == 0,
            r.morning_peak.points().len() == 0,
            r.noon_off_peak.points().len() == 0,
            r.noon_peak.points().len() == 0,
            r.evening_remain.points().len() == 0,
            r.noon_remain.points().len() == 0,
    {
        PowerRecords {
            evening_off_peak: Series::new(),
            morning_peak: Series::new(),
            noon_off_peak: Series::new(),
            noon_peak: Series::new(),
            evening_remain: Series::new(),
            noon_remain: Series::new(),
        }
    }
}

/// One figure per calendar day for each of the two peak periods.
#[derive(Debug)]
pub struct WorkRecords<W> {
    /// The morning peak of each day.
    pub morning_peak: Series<W>,
    /// The noon peak of each day.
    pub noon_peak: Series<W>,
}

impl<W> WorkRecords<W> {
    /// In each series every label has its value.
    pub open spec fn wf(&self) -> bool {
        &&& self.morning_peak.wf()
        &&& self.noon_peak.wf()
    }
}

impl<W> Default for WorkRecords<W> {
    /// Two series without points.
    fn default() -> (r: Self)
        ensures
            r.wf(),
            r.morning_peak.points().len() == 0,
            r.noon_peak.points().len() == 0,
    {
        WorkRecords { morning_peak: Series::new(), noon_peak: Series::new() }
    }
}

/// Both views of one computation.
#[derive(Debug)]
pub struct Response<V, W> {
    pub power_records: PowerRecords<V>,
    pub work_records: WorkRecords<W>,
}

} // verus!
