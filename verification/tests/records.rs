use power_stats::error::PipelineError;
use power_stats::records::{
    extract_records, find_column, map_records, read_record, read_records, Column, Record,
};
use power_stats::regularize::Reading;
use power_stats::timestamp::Timestamp;

fn at(text: &str) -> Timestamp {
    Timestamp::parse(text).expect("a timestamp")
}

fn row(fields: &[&str]) -> Vec<String> {
    fields.iter().map(|f| f.to_string()).collect()
}

fn table(rows: &[&[&str]]) -> Vec<Vec<String>> {
    rows.iter().map(|r| row(r)).collect()
}

fn pairs(records: &[Record]) -> Vec<(String, Option<String>)> {
    records.iter().map(|r| (r.time.clone(), r.active_power.clone())).collect()
}

fn plain(readings: &[Reading<Option<String>>]) -> Vec<(i64, Option<String>)> {
    readings.iter().map(|r| (r.time.secs(), r.power.clone())).collect()
}

fn some(text: &str) -> Option<String> {
    Some(text.to_string())
}

#[test]
fn find_column_knows_none_one_and_many() {
    assert_eq!(find_column(&row(&[]), "time", "日期"), Column::Missing);
    assert_eq!(find_column(&row(&["a", "b"]), "time", "日期"), Column::Missing);
    assert_eq!(find_column(&row(&["time", "b"]), "time", "日期"), Column::At(0));
    assert_eq!(find_column(&row(&["a", "b", "日期"]), "time", "日期"), Column::At(2));
    assert_eq!(find_column(&row(&["time", "b", "日期"]), "time", "日期"), Column::Ambiguous);
    assert_eq!(find_column(&row(&["time", "time"]), "time", "日期"), Column::Ambiguous);
    assert_eq!(find_column(&row(&["日期", "x", "日期", "time"]), "time", "日期"), Column::Ambiguous);
    assert_eq!(find_column(&row(&["Time", "TIME", " time"]), "time", "日期"), Column::Missing);
}

#[test]
fn extract_records_takes_the_named_columns() {
    let t = table(&[
        &["id", "active_power", "note", "time"],
        &["1", "10", "x", "2024-01-01 00:00:00"],
        &["2", "", "y", "2024-01-01 00:15:00"],
        &["3", "abc", "", "whenever"],
    ]);
    let records = extract_records(&t).unwrap();
    assert_eq!(
        pairs(&records),
        vec![
            ("2024-01-01 00:00:00".to_string(), some("10")),
            ("2024-01-01 00:15:00".to_string(), None),
            ("whenever".to_string(), some("abc")),
        ]
    );
}

#[test]
fn extract_records_takes_the_other_headers_too() {
    let t = table(&[&["瞬时有功", "日期"], &["5.5", "2024-01-01 00:00:00"]]);
    let records = extract_records(&t).unwrap();
    assert_eq!(pairs(&records), vec![("2024-01-01 00:00:00".to_string(), some("5.5"))]);
    let mixed = table(&[&["time", "瞬时有功"], &["2024-01-01 00:00:00", "6"]]);
    assert_eq!(
        pairs(&extract_records(&mixed).unwrap()),
        vec![("2024-01-01 00:00:00".to_string(), some("6"))]
    );
}

#[test]
fn extract_records_lets_the_power_column_be_missing() {
    let t = table(&[&["time"], &["2024-01-01 00:00:00"], &["2024-01-01 00:15:00"]]);
    let records = extract_records(&t).unwrap();
    assert_eq!(
        pairs(&records),
        vec![("2024-01-01 00:00:00".to_string(), None), ("2024-01-01 00:15:00".to_string(), None)]
    );
}

#[test]
fn extract_records_lets_a_row_end_before_the_power() {
    let t = table(&[&["time", "active_power"], &["2024-01-01 00:00:00"]]);
    assert_eq!(pairs(&extract_records(&t).unwrap()), vec![("2024-01-01 00:00:00".to_string(), None)]);
}

#[test]
fn extract_records_needs_a_data_row() {
    assert_eq!(extract_records(&table(&[])).unwrap_err(), PipelineError::EmptyInput);
    assert_eq!(extract_records(&table(&[&[]])).unwrap_err(), PipelineError::EmptyInput);
    assert_eq!(
        extract_records(&table(&[&["time", "active_power"]])).unwrap_err(),
        PipelineError::EmptyInput
    );
    // a header that names the columns badly is no fault where no row reads them
    assert_eq!(
        extract_records(&table(&[&["time", "time"]])).unwrap_err(),
        PipelineError::EmptyInput
    );
    assert_eq!(extract_records(&table(&[&["x"]])).unwrap_err(), PipelineError::EmptyInput);
}

#[test]
fn extract_records_needs_one_time_column() {
    let none = table(&[&["when", "active_power"], &["2024-01-01 00:00:00", "1"]]);
    assert_eq!(extract_records(&none).unwrap_err(), PipelineError::MalformedRecord);
    let two = table(&[&["time", "日期"], &["2024-01-01 00:00:00", "2024-01-01 00:00:00"]]);
    assert_eq!(extract_records(&two).unwrap_err(), PipelineError::MalformedRecord);
    let empty_header = table(&[&[], &["2024-01-01 00:00:00", "1"]]);
    assert_eq!(extract_records(&empty_header).unwrap_err(), PipelineError::MalformedRecord);
}

#[test]
fn extract_records_refuses_two_power_columns() {
    let t = table(&[&["time", "active_power", "瞬时有功"], &["2024-01-01 00:00:00", "1", "2"]]);
    assert_eq!(extract_records(&t).unwrap_err(), PipelineError::MalformedRecord);
}

#[test]
fn extract_records_needs_the_time_in_every_row() {
    let t = table(&[
        &["active_power", "time"],
        &["1", "2024-01-01 00:00:00"],
        &["2"],
        &["3", "2024-01-01 00:30:00"],
    ]);
    assert_eq!(extract_records(&t).unwrap_err(), PipelineError::MalformedRecord);
}

#[test]
fn read_record_checks_time_and_power() {
    let time = at("2024-01-01 00:00:00");
    let ok = read_record(Some(time), &some("1.5")).unwrap();
    assert_eq!(ok.time, time);
    assert_eq!(ok.power, some("1.5"));
    let blank = read_record(Some(time), &None).unwrap();
    assert_eq!(blank.time, time);
    assert_eq!(blank.power, None);
    assert_eq!(read_record(None, &some("1.5")).unwrap_err(), PipelineError::MalformedRecord);
    assert_eq!(read_record(None, &None).unwrap_err(), PipelineError::MalformedRecord);
    assert_eq!(read_record(Some(time), &some("1,5")).unwrap_err(), PipelineError::MalformedRecord);
    assert_eq!(read_record(Some(time), &some("")).unwrap_err(), PipelineError::MalformedRecord);
}

#[test]
fn read_records_reads_every_record_in_order() {
    let records = vec![
        Record { time: "2024-01-01 08:15:00".to_string(), active_power: some("200") },
        Record { time: "2024-01-01 08:00:00".to_string(), active_power: None },
        Record { time: "2024-01-01 08:15:00".to_string(), active_power: some("-1e3") },
    ];
    assert_eq!(
        plain(&read_records(&records).unwrap()),
        vec![
            (1_704_096_900, some("200")),
            (1_704_096_000, None),
            (1_704_096_900, some("-1e3")),
        ]
    );
}

#[test]
fn read_records_gives_up_at_a_malformed_record() {
    let bad_time = vec![
        Record { time: "2024-01-01 08:00:00".to_string(), active_power: some("1") },
        Record { time: "2024-01-01 8 o'clock".to_string(), active_power: some("2") },
    ];
    assert_eq!(read_records(&bad_time).unwrap_err(), PipelineError::MalformedRecord);
    let blank_time = vec![Record { time: String::new(), active_power: some("1") }];
    assert_eq!(read_records(&blank_time).unwrap_err(), PipelineError::MalformedRecord);
    let bad_power = vec![
        Record { time: "2024-01-01 08:00:00".to_string(), active_power: some("1") },
        Record { time: "2024-01-01 08:15:00".to_string(), active_power: some("two") },
        Record { time: "2024-01-01 08:30:00".to_string(), active_power: some("3") },
    ];
    assert_eq!(read_records(&bad_power).unwrap_err(), PipelineError::MalformedRecord);
    let out_of_calendar =
        vec![Record { time: "+10000-01-01 00:00:00".to_string(), active_power: None }];
    assert_eq!(read_records(&out_of_calendar).unwrap_err(), PipelineError::MalformedRecord);
    assert_eq!(read_records(&Vec::new()).unwrap_err(), PipelineError::EmptyInput);
}

#[test]
fn map_records_reads_a_table() {
    let content = "time,active_power\n2024-01-01 08:00:00,100\n2024-01-01 08:15:00,200\n";
    assert_eq!(
        plain(&map_records(content).unwrap()),
        vec![(1_704_096_000, some("100")), (1_704_096_900, some("200"))]
    );
}

#[test]
fn map_records_trims_every_field() {
    let content = "  time ,\tactive_power  \n  2024-01-01 08:00:00  ,  100 \n\t2024-01-01 08:15:00\t,\t\n";
    assert_eq!(
        plain(&map_records(content).unwrap()),
        vec![(1_704_096_000, some("100")), (1_704_096_900, None)]
    );
}

#[test]
fn map_records_knows_quotes_and_line_ends() {
    let content = "\"time\",\"active_power\",\"note\"\r\n\"2024-01-01 08:00:00\",\"1.5\",\"a, b\"\r\n\r\n2024-01-01 08:15:00,2.5,\"two\nlines\"";
    assert_eq!(
        plain(&map_records(content).unwrap()),
        vec![(1_704_096_000, some("1.5")), (1_704_096_900, some("2.5"))]
    );
}

#[test]
fn map_records_takes_the_columns_in_any_place() {
    let content = "序号,瞬时有功,日期\n1,3.5,2024-01-01 08:00:00\n2,,2024-01-01 08:15:00\n";
    assert_eq!(
        plain(&map_records(content).unwrap()),
        vec![(1_704_096_000, some("3.5")), (1_704_096_900, None)]
    );
}

#[test]
fn map_records_keeps_rows_with_one_timestamp_apart() {
    let content = "time,active_power\n2024-01-01 08:00:00,1\n2024-01-01 08:00:00,2\n";
    assert_eq!(
        plain(&map_records(content).unwrap()),
        vec![(1_704_096_000, some("1")), (1_704_096_000, some("2"))]
    );
}

#[test]
fn map_records_gives_the_whole_table_up_for_one_bad_row() {
    let bad_time = "time,active_power\n2024-01-01 08:00:00,1\nnot a time,2\n2024-01-01 08:30:00,3\n";
    assert_eq!(map_records(bad_time).unwrap_err(), PipelineError::MalformedRecord);
    let no_time = "time,active_power\n2024-01-01 08:00:00,1\n,2\n";
    assert_eq!(map_records(no_time).unwrap_err(), PipelineError::MalformedRecord);
    let bad_power = "time,active_power\n2024-01-01 08:00:00,1\n2024-01-01 08:15:00,1.2.3\n";
    assert_eq!(map_records(bad_power).unwrap_err(), PipelineError::MalformedRecord);
    let short_row = "time,active_power\n2024-01-01 08:00:00,1\n2024-01-01 08:15:00\n";
    assert_eq!(map_records(short_row).unwrap_err(), PipelineError::MalformedRecord);
    let long_row = "time,active_power\n2024-01-01 08:00:00,1,extra\n";
    assert_eq!(map_records(long_row).unwrap_err(), PipelineError::MalformedRecord);
    let no_time_column = "when,active_power\n2024-01-01 08:00:00,1\n";
    assert_eq!(map_records(no_time_column).unwrap_err(), PipelineError::MalformedRecord);
    let headless = "2024-01-01 08:00:00,1\n2024-01-01 08:15:00,2\n";
    assert_eq!(map_records(headless).unwrap_err(), PipelineError::MalformedRecord);
}

#[test]
fn map_records_needs_a_data_row() {
    for content in ["", "\n", "time,active_power", "time,active_power\n\n\n", "anything at all"] {
        assert_eq!(map_records(content).unwrap_err(), PipelineError::EmptyInput, "{:?}", content);
    }
}

#[test]
fn every_error_has_its_message() {
    let all = [
        PipelineError::Decode,
        PipelineError::EmptyInput,
        PipelineError::MalformedRecord,
        PipelineError::MissingFactor,
    ];
    assert_eq!(PipelineError::Decode.message(), "failed to decode the input as text");
    assert_eq!(PipelineError::EmptyInput.message(), "the input holds no data row");
    assert_eq!(PipelineError::MalformedRecord.message(), "failed to read a record of the input");
    assert_eq!(PipelineError::MissingFactor.message(), "a primary load needs a factor");
    for a in all {
        for b in all {
            assert_eq!(a.message() == b.message(), a == b);
        }
    }
}
