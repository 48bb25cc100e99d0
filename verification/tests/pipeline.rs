use power_stats::error::PipelineError;
use power_stats::model::{PowerRecords, Series};
use power_stats::regularize::{regularize, DenseSeries, Reading};
use power_stats::records::map_records;
use power_stats::scaling::effective_factor;
use power_stats::tariff::{categorize_by_datetime, PeriodCategory};
use power_stats::timestamp::Timestamp;
use power_stats::work::{build_work_records, Window};
use power_stats::{aggregate, build_power_records, read_input};

struct Outcome {
    dense: DenseSeries<f64>,
    power: PowerRecords<f64>,
    days: Vec<String>,
    morning: Vec<f64>,
    noon: Vec<f64>,
}

fn energy(values: &[f64], window: &Window) -> f64 {
    values[window.begin..window.end].iter().sum::<f64>() * 0.25
}

fn run(
    content: &str,
    rated_capacity: f64,
    is_primary_load: bool,
    factor: Option<f64>,
) -> Result<Outcome, PipelineError> {
    let input = read_input(content, is_primary_load, factor, 1.0)?;
    let mut rows: Vec<Reading<f64>> = Vec::new();
    for reading in &input.readings {
        let power = match &reading.power {
            Some(text) => text.parse::<f64>().expect("a number"),
            None => 0.0,
        };
        rows.push(Reading { time: reading.time, power: power * input.factor });
    }
    let dense = regularize(&rows, 0.0)?;
    let remain: Vec<f64> = dense.values.iter().map(|p| rated_capacity - p).collect();
    let response = aggregate(&dense, &remain);
    let work = response.work_records;
    assert_eq!(work.morning_peak.x, work.noon_peak.x);
    let morning = work.morning_peak.y.iter().map(|w| energy(&dense.values, w)).collect();
    let noon = work.noon_peak.y.iter().map(|w| energy(&dense.values, w)).collect();
    Ok(Outcome { dense, power: response.power_records, days: work.morning_peak.x, morning, noon })
}

fn points(series: &Series<f64>) -> Vec<(String, f64)> {
    series.x.iter().cloned().zip(series.y.iter().cloned()).collect()
}

fn at(text: &str) -> Timestamp {
    Timestamp::parse(text).expect("a timestamp")
}

#[test]
fn two_rows_in_the_morning_peak() {
    let content = "time,active_power\n2024-01-01 08:00:00,100\n2024-01-01 08:15:00,200\n";
    let out = run(content, 500.0, false, None).unwrap();
    assert_eq!(out.dense.values, vec![100.0, 200.0]);
    assert_eq!(out.dense.start_point, at("2024-01-01 08:00:00"));
    assert_eq!(
        points(&out.power.morning_peak),
        vec![
            ("2024-01-01 08:00:00".to_string(), 100.0),
            ("2024-01-01 08:15:00".to_string(), 200.0)
        ]
    );
    assert!(out.power.evening_off_peak.x.is_empty());
    assert!(out.power.noon_off_peak.x.is_empty());
    assert!(out.power.noon_peak.x.is_empty());
    assert!(out.power.evening_remain.x.is_empty());
    assert!(out.power.evening_remain.y.is_empty());
    assert!(out.power.noon_remain.x.is_empty());
    assert_eq!(out.days, vec!["2024-01-01".to_string()]);
    assert_eq!(out.morning, vec![25.0]);
    assert_eq!(out.noon, vec![0.0]);
}

#[test]
fn single_row_in_the_evening_off_peak() {
    let content = "time,active_power\n2024-03-01 03:00:00,50\n";
    let out = run(content, 200.0, false, None).unwrap();
    assert_eq!(out.dense.values, vec![50.0]);
    assert_eq!(categorize_by_datetime(&out.dense.start_point), PeriodCategory::EveningOffPeak);
    assert_eq!(
        points(&out.power.evening_off_peak),
        vec![("2024-03-01 03:00:00".to_string(), 50.0)]
    );
    assert_eq!(
        points(&out.power.evening_remain),
        vec![("2024-03-01 03:00:00".to_string(), 150.0)]
    );
    assert_eq!(out.days, vec!["2024-03-01".to_string()]);
    assert_eq!(out.morning, vec![0.0]);
    assert_eq!(out.noon, vec![0.0]);
}

#[test]
fn blank_power_defaults_to_zero() {
    let content = "time,active_power\n2024-01-01 00:00:00,7\n2024-01-01 00:15:00,\n2024-01-01 00:30:00,   \n2024-01-01 00:45:00,9\n";
    let readings = map_records(content).unwrap();
    assert_eq!(readings.len(), 4);
    assert_eq!(readings[0].power, Some("7".to_string()));
    assert_eq!(readings[1].power, None);
    assert_eq!(readings[2].power, None);
    assert_eq!(readings[3].power, Some("9".to_string()));
    let out = run(content, 10.0, false, None).unwrap();
    assert_eq!(out.dense.values, vec![7.0, 0.0, 0.0, 9.0]);
}

#[test]
fn no_data_row_is_empty_input() {
    assert_eq!(map_records("time,active_power\n").unwrap_err(), PipelineError::EmptyInput);
    assert_eq!(map_records("").unwrap_err(), PipelineError::EmptyInput);
    assert_eq!(map_records("\n\n").unwrap_err(), PipelineError::EmptyInput);
    assert!(matches!(run("time,active_power\n", 1.0, false, None), Err(PipelineError::EmptyInput)));
    let none: Vec<Reading<f64>> = Vec::new();
    assert_eq!(regularize(&none, 0.0).unwrap_err(), PipelineError::EmptyInput);
}

#[test]
fn primary_load_without_factor_is_refused() {
    assert_eq!(effective_factor::<f64>(true, None, 1.0), Err(PipelineError::MissingFactor));
    // the factor is settled before the text is looked at
    assert!(matches!(run("not a table", 1.0, true, None), Err(PipelineError::MissingFactor)));
    assert!(matches!(run("", 1.0, true, None), Err(PipelineError::MissingFactor)));
    let bad_row = "time,active_power\nnever,1\n";
    assert!(matches!(
        read_input::<f64>(bad_row, true, None, 1.0),
        Err(PipelineError::MissingFactor)
    ));
    assert!(matches!(
        read_input(bad_row, true, Some(2.0), 1.0),
        Err(PipelineError::MalformedRecord)
    ));
    assert!(matches!(read_input::<f64>(bad_row, false, None, 1.0), Err(PipelineError::MalformedRecord)));
}

#[test]
fn read_input_hands_out_factor_and_readings() {
    let content = "time,active_power\n2024-01-01 08:00:00,100\n2024-01-01 08:15:00,\n";
    let input = read_input(content, true, Some(0.5), 1.0).unwrap();
    assert_eq!(input.factor, 0.5);
    assert_eq!(input.readings.len(), 2);
    assert_eq!(input.readings[0].time, at("2024-01-01 08:00:00"));
    assert_eq!(input.readings[0].power, Some("100".to_string()));
    assert_eq!(input.readings[1].time, at("2024-01-01 08:15:00"));
    assert_eq!(input.readings[1].power, None);
    let plain = read_input(content, false, Some(0.5), 1.0).unwrap();
    assert_eq!(plain.factor, 1.0);
    assert!(matches!(read_input("", false, Some(0.5), 1.0), Err(PipelineError::EmptyInput)));
}

#[test]
fn factor_counts_for_a_primary_load_only() {
    assert_eq!(effective_factor(true, Some(2.5), 1.0), Ok(2.5));
    assert_eq!(effective_factor(false, Some(2.5), 1.0), Ok(1.0));
    assert_eq!(effective_factor(false, None, 1.0), Ok(1.0));
}

#[test]
fn scaling_scales_every_figure() {
    let content = "time,active_power\n\
        2024-01-01 07:45:00,10\n\
        2024-01-01 08:00:00,20\n\
        2024-01-01 08:30:00,40\n\
        2024-01-01 13:00:00,80\n\
        2024-01-01 13:15:00,160\n\
        2024-01-01 17:00:00,1\n";
    let plain = run(content, 1000.0, false, None).unwrap();
    let scaled = run(content, 1000.0, true, Some(4.0)).unwrap();
    assert_eq!(plain.dense.values.len(), scaled.dense.values.len());
    for (p, s) in plain.dense.values.iter().zip(scaled.dense.values.iter()) {
        assert_eq!(*s, 4.0 * *p);
    }
    assert_eq!(plain.power.morning_peak.x, scaled.power.morning_peak.x);
    for (p, s) in plain.power.morning_peak.y.iter().zip(scaled.power.morning_peak.y.iter()) {
        assert_eq!(*s, 4.0 * *p);
    }
    assert_eq!(plain.morning, vec![0.25 * 60.0]);
    assert_eq!(scaled.morning, vec![0.25 * 240.0]);
    assert_eq!(plain.noon, vec![0.25 * 240.0]);
    assert_eq!(scaled.noon, vec![0.25 * 960.0]);
    // a factor given for a load that is no primary load changes nothing
    let ignored = run(content, 1000.0, false, Some(4.0)).unwrap();
    assert_eq!(ignored.dense.values, plain.dense.values);
}

#[test]
fn repeated_runs_agree() {
    let content = "time,active_power\n\
        2024-05-05 10:00:00,3\n\
        2024-05-04 22:00:00,1.5\n\
        2024-05-05 10:00:00,4\n\
        2024-05-06 01:30:00,\n";
    let a = run(content, 9.0, true, Some(0.5)).unwrap();
    let b = run(content, 9.0, true, Some(0.5)).unwrap();
    assert_eq!(a.dense.values, b.dense.values);
    assert_eq!(a.dense.start_point, b.dense.start_point);
    assert_eq!(points(&a.power.evening_off_peak), points(&b.power.evening_off_peak));
    assert_eq!(points(&a.power.morning_peak), points(&b.power.morning_peak));
    assert_eq!(points(&a.power.noon_off_peak), points(&b.power.noon_off_peak));
    assert_eq!(points(&a.power.noon_peak), points(&b.power.noon_peak));
    assert_eq!(points(&a.power.evening_remain), points(&b.power.evening_remain));
    assert_eq!(points(&a.power.noon_remain), points(&b.power.noon_remain));
    assert_eq!(a.days, b.days);
    assert_eq!(a.morning, b.morning);
    assert_eq!(a.noon, b.noon);
}

#[test]
fn headroom_and_value_add_up_to_the_rated_capacity() {
    let content = "time,active_power\n\
        2024-01-01 00:00:00,100\n\
        2024-01-01 11:00:00,250\n\
        2024-01-01 12:45:00,125\n";
    let out = run(content, 500.0, false, None).unwrap();
    assert_eq!(out.power.evening_off_peak.x, out.power.evening_remain.x);
    assert_eq!(out.power.noon_off_peak.x, out.power.noon_remain.x);
    for (value, headroom) in out.power.evening_off_peak.y.iter().zip(out.power.evening_remain.y.iter()) {
        assert_eq!(value + headroom, 500.0);
    }
    for (value, headroom) in out.power.noon_off_peak.y.iter().zip(out.power.noon_remain.y.iter()) {
        assert_eq!(value + headroom, 500.0);
    }
    assert_eq!(out.power.evening_off_peak.x.len(), 32);
    assert_eq!(out.power.morning_peak.x.len(), 12);
    assert_eq!(out.power.noon_off_peak.x.len(), 8);
    assert_eq!(out.power.noon_remain.y[0], 250.0);
    assert_eq!(out.power.noon_remain.y[7], 375.0);
    assert_eq!(out.power.noon_remain.y[3], 500.0);
}

#[test]
fn power_records_leave_the_normal_period_out() {
    let start = at("2024-02-10 16:30:00");
    let power = vec![1.0, 2.0, 3.0, 4.0];
    let remain = vec![9.0, 8.0, 7.0, 6.0];
    let records = build_power_records(&power, &start, &remain);
    assert_eq!(
        points(&records.noon_peak),
        vec![("2024-02-10 16:30:00".to_string(), 1.0), ("2024-02-10 16:45:00".to_string(), 2.0)]
    );
    assert!(records.evening_off_peak.x.is_empty());
    assert!(records.morning_peak.x.is_empty());
    assert!(records.noon_off_peak.x.is_empty());
    assert!(records.evening_remain.x.is_empty());
    assert!(records.noon_remain.x.is_empty());
}

#[test]
fn work_records_of_one_sample() {
    let start = at("2024-03-01 03:00:00");
    let records = build_work_records(&vec![50.0], &start);
    assert_eq!(records.morning_peak.x, vec!["2024-03-01".to_string()]);
    assert_eq!(records.noon_peak.x, vec!["2024-03-01".to_string()]);
    assert_eq!(records.morning_peak.y, vec![Window { begin: 0, end: 0 }]);
    assert_eq!(records.noon_peak.y, vec![Window { begin: 0, end: 0 }]);
}
