//! From the text of a table to the readings it holds.
//!
//! The table is comma-separated text with a header row. Two of its columns
//! count: the time, headed `time` or `日期`, and the power, headed
//! `active_power` or `瞬时有功`. `csv` splits the text into rows and fields and
//! trims the blanks around each field; which column is which, and which rows
//! are well-formed, is decided here.

use crate::error::PipelineError;
use crate::number::{is_number, is_number_text};
use crate::regularize::Reading;
use crate::timestamp::{datetime_secs, readable, Timestamp};
use vstd::prelude::*;

verus! {

/// One data row as the table gives it: the text of its time field, and the
/// text of its power field where the row has one that is not blank.
#[derive(Debug)]
pub struct Record {
    /// The time, not yet read.
    pub time: String,
    /// The power, not yet read; `None` where the field is blank or the table
    /// has no power column, and the value then defaults to zero.
    pub active_power: Option<String>,
}

/// What a `Record` holds, as plain text.
pub struct RecordText {
    pub time: Seq<char>,
    pub active_power: Option<Seq<char>>,
}

/// What a reading holds before its power is turned into a number.
pub struct ReadingText {
    pub secs: int,
    pub power: Option<Seq<char>>,
}

impl View for Record {
    type V = RecordText;

    open spec fn view(&self) -> RecordText {
        RecordText {
            time: self.time@,
            active_power: match self.active_power {
                Some(power) => Some(power@),
                None => None,
            },
        }
    }
}

/// The text of a reading whose power is still text.
pub open spec fn reading_text(reading: Reading<Option<String>>) -> ReadingText {
    ReadingText {
        secs: reading.time@,
        power: match reading.power {
            Some(power) => Some(power@),
            None => None,
        },
    }
}

/// Where a column stands in the header row.
#[derive(Clone, Copy, Debug, PartialEq, Eq, Structural)]
pub enum Column {
    /// No field of the header names the column.
    Missing,
    /// Exactly one field names it, at this index.
    At(usize),
    /// Two fields or more name it.
    Ambiguous,
}

/// The header of the time column.
pub open spec fn time_name() -> Seq<char> {
    "time"@
}

/// The other header of the time column.
pub open spec fn time_alias() -> Seq<char> {
    "日期"@
}

/// The header of the power column.
pub open spec fn power_name() -> Seq<char> {
    "active_power"@
}

/// The other header of the power column.
pub open spec fn power_alias() -> Seq<char> {
    "瞬时有功"@
}

/// Whether field `j` of `header` is `name` or `alias`.
pub open spec fn names_column(
    header: Seq<Seq<char>>,
    name: Seq<char>,
    alias: Seq<char>,
    j: int,
) -> bool {
    0 <= j < header.len() && (header[j] == name || header[j] == alias)
}

/// Where the column headed `name` or `alias` stands in `header`.
pub open spec fn column_of(header: Seq<Seq<char>>, name: Seq<char>, alias: Seq<char>) -> Column {
    if forall|j: int| !names_column(header, name, alias, j) {
        Column::Missing
    } else {
        let first = choose|j: int| names_column(header, name, alias, j);
        if forall|k: int| names_column(header, name, alias, k) ==> k == first {
            Column::At(first as usize)
        } else {
            Column::Ambiguous
        }
    }
}

/// The field of `row` in `column`, where the row has one.
pub open spec fn cell(row: Seq<Seq<char>>, column: Column) -> Option<Seq<char>> {
    match column {
        Column::At(j) => if j < row.len() {
            Some(row[j as int])
        } else {
            None
        },
        _ => None,
    }
}

/// The record that `row` holds: its time field, and its power field unless
/// that is blank or missing. A row without a time field holds no record.
pub open spec fn record_of(row: Seq<Seq<char>>, time: Column, power: Column) -> Option<
    RecordText,
> {
    match cell(row, time) {
        Some(text) => Some(
            RecordText {
                time: text,
                active_power: match cell(row, power) {
                    Some(field) => if field.len() == 0 {
                        None
                    } else {
                        Some(field)
                    },
                    None => None,
                },
            },
        ),
        None => None,
    }
}

/// Whether row `i` of `table` is a data row that holds no record.
pub open spec fn row_without_record(
    table: Seq<Seq<Seq<char>>>,
    time: Column,
    power: Column,
    i: int,
) -> bool {
    1 <= i < table.len() && record_of(table[i], time, power) is None
}

/// The records of `table`, whose first row is the header.
///
/// A table without a data row is `EmptyInput`. Otherwise the table is
/// malformed where its header names no time column, or names the time or the
/// power column twice, or where a row has no time field. A missing power
/// column is no fault: the power then defaults in every row.
pub open spec fn records_of(table: Seq<Seq<Seq<char>>>) -> Result<Seq<RecordText>, PipelineError> {
    if table.len() <= 1 {
        Err(PipelineError::EmptyInput)
    } else {
        let time = column_of(table[0], time_name(), time_alias());
        let power = column_of(table[0], power_name(), power_alias());
        if !(time is At) || power is Ambiguous || exists|i: int|
            row_without_record(table, time, power, i) {
            Err(PipelineError::MalformedRecord)
        } else {
            Ok(Seq::new((table.len() - 1) as nat, |i: int| record_of(table[i + 1], time, power)->0))
        }
    }
}

/// Whether a record can be read: its time is a timestamp, and its power, if
/// it has one, is a number.
pub open spec fn well_formed(record: RecordText) -> bool {
    &&& readable(record.time)
    &&& record.active_power matches Some(power) ==> is_number(power)
}

/// Whether record `i` of `records` cannot be read.
pub open spec fn malformed_at(records: Seq<RecordText>, i: int) -> bool {
    0 <= i < records.len() && !well_formed(records[i])
}

/// The readings of `records`, in their order: `EmptyInput` where there is no
/// record, `MalformedRecord` where one of them cannot be read.
pub open spec fn readings_of(records: Seq<RecordText>) -> Result<Seq<ReadingText>, PipelineError> {
    if records.len() == 0 {
        Err(PipelineError::EmptyInput)
    } else if exists|i: int| malformed_at(records, i) {
        Err(PipelineError::MalformedRecord)
    } else {
        Ok(
            Seq::new(
                records.len(),
                |i: int|
                    ReadingText {
                        secs: datetime_secs(records[i].time)->0,
                        power: records[i].active_power,
                    },
            ),
        )
    }
}

/// The readings of a table as `csv` split it, or of none where `csv` gave
/// the text up.
pub open spec fn readings_of_table(table: Option<Seq<Seq<Seq<char>>>>) -> Result<
    Seq<ReadingText>,
    PipelineError,
> {
    match table {
        None => Err(PipelineError::MalformedRecord),
        Some(table) => match records_of(table) {
            Ok(records) => readings_of(records),
            Err(error) => Err(error),
        },
    }
}

/// What `records` hold, as plain text.
pub open spec fn texts_of(records: Seq<Record>) -> Seq<RecordText> {
    Seq::new(records.len(), |i: int| records[i]@)
}

/// What comes out of extracting records, as plain text.
pub open spec fn records_text(outcome: Result<Vec<Record>, PipelineError>) -> Result<
    Seq<RecordText>,
    PipelineError,
> {
    match outcome {
        Ok(records) => Ok(texts_of(records@)),
        Err(error) => Err(error),
    }
}

/// What `readings` hold, as plain text.
pub open spec fn reading_texts(readings: Seq<Reading<Option<String>>>) -> Seq<ReadingText> {
    Seq::new(readings.len(), |i: int| reading_text(readings[i]))
}

/// What comes out of reading records, as plain text.
pub open spec fn readings_text(
    outcome: Result<Vec<Reading<Option<String>>>, PipelineError>,
) -> Result<Seq<ReadingText>, PipelineError> {
    match outcome {
        Ok(readings) => Ok(reading_texts(readings@)),
        Err(error) => Err(error),
    }
}

/// The reading of one record, given what its time was read as: the time
/// with the power, still as text, where `time` is a timestamp and the power,
/// if there is one, is a number.
pub open spec fn reading_of(time: Option<Timestamp>, power: Option<Seq<char>>) -> Option<
    ReadingText,
> {
    match time {
        Some(time) if power matches Some(text) ==> is_number(text) => Some(
            ReadingText { secs: time@, power },
        ),
        _ => None,
    }
}

/// The rows and fields that `csv` makes of `content`, the header row first
/// and every field trimmed, or `None` where `csv` fails on the text.
pub uninterp spec fn csv_table(content: Seq<char>) -> Option<Seq<Seq<Seq<char>>>>;

#[verifier::external_type_specification]
#[verifier::external_body]
pub struct ExCsvError(csv::Error);

/// A `csv::Reader` over `content`, built with `Trim::All` and otherwise as
/// `csv::ReaderBuilder::new` makes it: `headers` gives the first row and
/// `records` the others. Nothing is proved of it: the contract only names
/// the table, as a function of the text.
#[verifier::external_body]
fn read_table(content: &str) -> (r: Result<Vec<Vec<String>>, csv::Error>)
    ensures
        match r {
            Ok(table) => csv_table(content@) == Some(table.deep_view()),
            Err(_) => csv_table(content@) is None,
        },
{
    let mut reader = csv::ReaderBuilder::new().trim(csv::Trim::All).from_reader(content.as_bytes());
    let mut table: Vec<Vec<String>> = Vec::new();
    table.push(reader.headers()?.iter().map(String::from).collect());
    for row in reader.records() {
        table.push(row?.iter().map(String::from).collect());
    }
    Ok(table)
}

/// Where the column headed `name` or `alias` stands in `header`.
pub fn find_column(header: &Vec<String>, name: &str, alias: &str) -> (column: Column)
    ensures
        column == column_of(header.deep_view(), name@, alias@),
{
    let name = name.to_owned();
    let alias = alias.to_owned();
    let ghost fields = header.deep_view();
    let mut column = Column::Missing;
    let mut j: usize = 0;
    while j < header.len()
        invariant
            j <= header@.len(),
            fields == header.deep_view(),
            match column {
                Column::Missing => forall|k: int|
                    0 <= k < j ==> !names_column(fields, name@, alias@, k),
                Column::At(first) => {
                    &&& first < j
                    &&& names_column(fields, name@, alias@, first as int)
                    &&& forall|k: int|
                        0 <= k < j && names_column(fields, name@, alias@, k) ==> k == first
                },
                Column::Ambiguous => exists|a: int, b: int|
                    a != b && names_column(fields, name@, alias@, a) && names_column(
                        fields,
                        name@,
                        alias@,
                        b,
                    ),
            },
        decreases header@.len() - j,
    {
        assert(fields[j as int] == header@[j as int]@);
        if header[j] == name || header[j] == alias {
            assert(names_column(fields, name@, alias@, j as int));
            column =
            match column {
                Column::Missing => Column::At(j),
                _ => Column::Ambiguous,
            };
        }
        j += 1;
    }
    proof {
        match column {
            Column::At(first) => {
                assert(names_column(fields, name@, alias@, first as int));
            },
            Column::Ambiguous => {
                let (a, b) = choose|a: int, b: int|
                    a != b && names_column(fields, name@, alias@, a) && names_column(
                        fields,
                        name@,
                        alias@,
                        b,
                    );
                assert(names_column(fields, name@, alias@, a));
                assert(names_column(fields, name@, alias@, b));
            },
            Column::Missing => {},
        }
    }
    column
}

/// The field of `row` in `column`, where the row has one.
fn cell_of<'a>(row: &'a Vec<String>, column: Column) -> (field: Option<&'a String>)
    ensures
        match field {
            Some(text) => cell(row.deep_view(), column) == Some(text@),
            None => cell(row.deep_view(), column) is None,
        },
{
    match column {
        Column::At(j) => if j < row.len() {
            Some(&row[j])
        } else {
            None
        },
        _ => None,
    }
}

/// The records of `table`, whose first row is the header: for each data row
/// its time field and, unless blank, its power field.
///
/// Fails with `EmptyInput` where the table has no data row, and with
/// `MalformedRecord` where the header or a row leaves the time open.
pub fn extract_records(table: &Vec<Vec<String>>) -> (r: Result<Vec<Record>, PipelineError>)
    ensures
        records_text(r) == records_of(table.deep_view()),
{
    let ghost rows = table.deep_view();
    if table.len() <= 1 {
        return Err(PipelineError::EmptyInput);
    }
    assert(rows[0] == table@[0].deep_view());
    let time = find_column(&table[0], "time", "日期");
    let power = find_column(&table[0], "active_power", "瞬时有功");
    match (time, power) {
        (Column::At(_), Column::Missing) | (Column::At(_), Column::At(_)) => {},
        _ => {
            return Err(PipelineError::MalformedRecord);
        },
    }
    let mut records: Vec<Record> = Vec::new();
    let mut i: usize = 1;
    while i < table.len()
        invariant
            1 <= i <= table@.len(),
            rows == table.deep_view(),
            time == column_of(rows[0], time_name(), time_alias()),
            power == column_of(rows[0], power_name(), power_alias()),
            time is At,
            !(power is Ambiguous),
            records@.len() == i - 1,
            forall|k: int| 1 <= k < i ==> !row_without_record(rows, time, power, k),
            forall|k: int|
                0 <= k < i - 1 ==> Some((#[trigger] records@[k])@) == record_of(
                    rows[k + 1],
                    time,
                    power,
                ),
        decreases table@.len() - i,
    {
        let row = &table[i];
        assert(rows[i as int] == row.deep_view());
        let text = match cell_of(row, time) {
            Some(text) => text.clone(),
            None => {
                assert(row_without_record(rows, time, power, i as int));
                return Err(PipelineError::MalformedRecord);
            },
        };
        let active_power = match cell_of(row, power) {
            Some(field) => if field.as_str().is_empty() {
                None
            } else {
                Some(field.clone())
            },
            None => None,
        };
        records.push(Record { time: text, active_power });
        i += 1;
    }
    proof {
        assert(texts_of(records@) =~= records_of(rows)->Ok_0);
    }
    Ok(records)
}

/// The reading of one record whose time has been read as `time`.
///
/// Fails with `MalformedRecord` where the time was no timestamp, or the
/// power is there and is no number.
pub fn read_record(time: Option<Timestamp>, power: &Option<String>) -> (r: Result<
    Reading<Option<String>>,
    PipelineError,
>)
    ensures
        match r {
            Ok(reading) => reading_of(time, power.deep_view()) == Some(reading_text(reading)),
            Err(error) => error == PipelineError::MalformedRecord && reading_of(
                time,
                power.deep_view(),
            ) is None,
        },
{
    let time = match time {
        Some(time) => time,
        None => {
            return Err(PipelineError::MalformedRecord);
        },
    };
    match power {
        Some(text) => {
            if is_number_text(text.as_str()) {
                Ok(Reading { time, power: Some(text.clone()) })
            } else {
                Err(PipelineError::MalformedRecord)
            }
        },
        None => Ok(Reading { time, power: None }),
    }
}

/// Reads the time of every record and checks its power: a reading for each
/// record, in their order, the power still as text.
///
/// Fails with `EmptyInput` where there is no record, and with
/// `MalformedRecord` where a time is no timestamp or a power is no number.
pub fn read_records(records: &Vec<Record>) -> (r: Result<
    Vec<Reading<Option<String>>>,
    PipelineError,
>)
    ensures
        readings_text(r) == readings_of(texts_of(records@)),
{
    let ghost texts = texts_of(records@);
    if records.len() == 0 {
        return Err(PipelineError::EmptyInput);
    }
    let mut readings: Vec<Reading<Option<String>>> = Vec::new();
    let mut i: usize = 0;
    while i < records.len()
        invariant
            i <= records@.len(),
            texts == texts_of(records@),
            readings@.len() == i,
            forall|k: int| 0 <= k < i ==> !malformed_at(texts, k),
            forall|k: int|
                0 <= k < i ==> reading_text(#[trigger] readings@[k]) == (ReadingText {
                    secs: datetime_secs(texts[k].time)->0,
                    power: texts[k].active_power,
                }),
        decreases records@.len() - i,
    {
        let record = &records[i];
        assert(texts[i as int] == record@);
        let time = Timestamp::parse(record.time.as_str());
        match read_record(time, &record.active_power) {
            Ok(reading) => {
                readings.push(reading);
            },
            Err(error) => {
                assert(malformed_at(texts, i as int));
                return Err(error);
            },
        }
        i += 1;
    }
    proof {
        assert(reading_texts(readings@) =~= readings_of(texts)->Ok_0);
    }
    Ok(readings)
}

/// The readings that the table `content` holds, in the order of its rows.
///
/// The first row is the header; the time stands under `time` or `日期` and is
/// written `YYYY-MM-DD HH:MM:SS`, the power under `active_power` or
/// `瞬时有功`. A blank power is allowed and comes out as `None`. One malformed
/// row makes the whole table `MalformedRecord`; a table without a data row is
/// `EmptyInput`.
pub fn map_records(content: &str) -> (r: Result<Vec<Reading<Option<String>>>, PipelineError>)
    ensures
        readings_text(r) == readings_of_table(csv_table(content@)),
{
    let table = match read_table(content) {
        Ok(table) => table,
        Err(_) => {
            return Err(PipelineError::MalformedRecord);
        },
    };
    let records = match extract_records(&table) {
        Ok(records) => records,
        Err(error) => {
            return Err(error);
        },
    };
    read_records(&records)
}

/// The same text gives the same outcome: two runs over one text fail with
/// the same error, or give the same readings, row for row.
pub proof fn lemma_map_records_is_determined(
    content: Seq<char>,
    first: Result<Vec<Reading<Option<String>>>, PipelineError>,
    second: Result<Vec<Reading<Option<String>>>, PipelineError>,
)
    requires
        readings_text(first) == readings_of_table(csv_table(content)),
        readings_text(second) == readings_of_table(csv_table(content)),
    ensures
        readings_text(first) == readings_text(second),
{
}

} // verus!
