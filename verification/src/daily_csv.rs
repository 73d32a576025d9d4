//! The generic daily OHLCV CSV format: the header names the columns, in
//! any order and case; each record is one day, dated `YYYY-MM-DD`,
//! `YYYY/MM/DD` or `DD/MM/YYYY`; rows are numbered from 2, after the
//! header; a blank or absent volume is unavailable, and so is a zero volume
//! where the corpus asks for it; malformed OHLC rows may be skipped; dates
//! must strictly increase. Prices are floating point: their parsing and the
//! OHLC ordering are checked by the caller and handed in as outcomes.

use vstd::prelude::*;
use crate::contracts::{contract_error_text, ContractError};
use crate::historical::{utc_midnight_ns, utc_midnight_of, HistoricalError, HistoricalLoadPolicy, DAY_NS};
use crate::text::{eq_ignore_ascii_case, push_char, text_eq_ignore_ascii_case};

verus! {

/// What a CSV reader gives of a byte string: the header record or the
/// error met reading it, the records after it up to the first error, and
/// that error, if any.
#[derive(Debug)]
pub struct CsvText {
    pub headers: Result<Vec<String>, String>,
    pub records: Vec<Vec<String>>,
    pub error: Option<String>,
}

/// The texts of a record's fields.
pub open spec fn fields_view(fields: Seq<String>) -> Seq<Seq<char>> {
    Seq::new(fields.len(), |i: int| fields[i]@)
}

/// The texts of the records' fields.
pub open spec fn records_view(records: Seq<Vec<String>>) -> Seq<Seq<Seq<char>>> {
    Seq::new(records.len(), |i: int| fields_view(records[i]@))
}

/// A CSV reading as plain texts.
pub open spec fn csv_text_view(t: CsvText) -> (
    Result<Seq<Seq<char>>, Seq<char>>,
    Seq<Seq<Seq<char>>>,
    Option<Seq<char>>,
) {
    (
        match t.headers {
            Ok(h) => Ok(fields_view(h@)),
            Err(m) => Err(m@),
        },
        records_view(t.records@),
        match t.error {
            Some(m) => Some(m@),
            None => None,
        },
    )
}

/// What the `csv` crate reads of a byte string with its default settings,
/// flexible about the number of fields per record or not: the header
/// record, the records after it up to the first error, and that error.
pub uninterp spec fn csv_text_of(bytes: Seq<u8>, flexible: bool) -> (
    Result<Seq<Seq<char>>, Seq<char>>,
    Seq<Seq<Seq<char>>>,
    Option<Seq<char>>,
);

/// Trusted: `csv::ReaderBuilder` with its defaults and the given
/// flexibility, read with `headers` and then `records` until the first
/// error, each error taken by its text. The reading depends on the bytes
/// and the flexibility alone.
#[verifier::external_body]
pub(crate) fn read_csv(bytes: &[u8], flexible: bool) -> (r: CsvText)
    ensures
        csv_text_view(r) == csv_text_of(bytes@, flexible),
{
    let mut reader = csv::ReaderBuilder::new().flexible(flexible).from_reader(bytes);
    let headers = reader.headers().map(|h| h.iter().map(String::from).collect()).map_err(|e| e.to_string());
    let mut records = Vec::new();
    let mut error = None;
    for record in reader.records() {
        match record {
            Ok(fields) => records.push(fields.iter().map(String::from).collect()),
            Err(e) => { error = Some(e.to_string()); break; },
        }
    }
    CsvText { headers, records, error }
}

/// Unicode white space, as `char::is_whitespace` documents it.
pub open spec fn is_white_space(c: char) -> bool {
    ||| '\t' <= c <= '\r'
    ||| c == ' '
    ||| c == '\u{85}'
    ||| c == '\u{a0}'
    ||| c == '\u{1680}'
    ||| '\u{2000}' <= c <= '\u{200a}'
    ||| c == '\u{2028}'
    ||| c == '\u{2029}'
    ||| c == '\u{202f}'
    ||| c == '\u{205f}'
    ||| c == '\u{3000}'
}

fn char_is_white_space(c: char) -> (r: bool)
    ensures
        r == is_white_space(c),
{
    ('\t' <= c && c <= '\r') || c == ' ' || c == '\u{85}' || c == '\u{a0}' || c == '\u{1680}'
        || ('\u{2000}' <= c && c <= '\u{200a}') || c == '\u{2028}' || c == '\u{2029}' || c
        == '\u{202f}' || c == '\u{205f}' || c == '\u{3000}'
}

/// Leading white space removed.
pub open spec fn trim_start_of(s: Seq<char>) -> Seq<char>
    decreases s.len(),
{
    if s.len() > 0 && is_white_space(s[0]) {
        trim_start_of(s.drop_first())
    } else {
        s
    }
}

/// Trailing white space removed.
pub open spec fn trim_end_of(s: Seq<char>) -> Seq<char>
    decreases s.len(),
{
    if s.len() > 0 && is_white_space(s.last()) {
        trim_end_of(s.drop_last())
    } else {
        s
    }
}

/// Leading and trailing white space removed, as `str::trim` does.
pub open spec fn trimmed(s: Seq<char>) -> Seq<char> {
    trim_end_of(trim_start_of(s))
}

/// `s` without its leading and trailing white space.
pub fn trim_text(s: &str) -> (r: String)
    ensures
        r@ == trimmed(s@),
{
    let n = s.unicode_len();
    let mut i: usize = 0;
    assert(s@.subrange(0, n as int) =~= s@);
    while i < n && char_is_white_space(s.get_char(i))
        invariant
            n == s@.len(),
            i <= n,
            trim_start_of(s@) == trim_start_of(s@.subrange(i as int, n as int)),
        decreases n - i,
    {
        assert(s@.subrange(i as int, n as int).drop_first() =~= s@.subrange(i + 1, n as int));
        i = i + 1;
    }
    assert(trim_start_of(s@.subrange(i as int, n as int)) == s@.subrange(i as int, n as int));
    let mut j: usize = n;
    while j > i && char_is_white_space(s.get_char(j - 1))
        invariant
            n == s@.len(),
            i <= j <= n,
            trimmed(s@) == trim_end_of(s@.subrange(i as int, j as int)),
        decreases j - i,
    {
        assert(s@.subrange(i as int, j as int).drop_last() =~= s@.subrange(i as int, j - 1));
        j = j - 1;
    }
    let mut out = String::new();
    let mut k: usize = i;
    while k < j
        invariant
            n == s@.len(),
            i <= k <= j <= n,
            out@ == s@.subrange(i as int, k as int),
        decreases j - k,
    {
        push_char(&mut out, s.get_char(k));
        assert(s@.subrange(i as int, k + 1) =~= s@.subrange(i as int, k as int).push(s@[k as int]));
        k = k + 1;
    }
    out
}

/// The header names that choose each column.
pub open spec fn date_names() -> Seq<Seq<char>> {
    seq!["date"@, "timestamp"@, "time"@]
}

pub open spec fn open_names() -> Seq<Seq<char>> {
    seq!["open"@]
}

pub open spec fn high_names() -> Seq<Seq<char>> {
    seq!["high"@]
}

pub open spec fn low_names() -> Seq<Seq<char>> {
    seq!["low"@]
}

pub open spec fn close_names() -> Seq<Seq<char>> {
    seq!["close"@]
}

pub open spec fn volume_names() -> Seq<Seq<char>> {
    seq!["volume"@, "vol"@]
}

/// A header names the column when, trimmed, it equals one of the names
/// up to ASCII case.
pub open spec fn header_names(header: Seq<char>, names: Seq<Seq<char>>) -> bool {
    exists|k: int| 0 <= k < names.len() && eq_ignore_ascii_case(trimmed(header), #[trigger] names[k])
}

/// The first header that names the column.
pub open spec fn first_column(headers: Seq<Seq<char>>, names: Seq<Seq<char>>) -> Option<int>
    decreases headers.len(),
{
    if headers.len() == 0 {
        None
    } else {
        match first_column(headers.drop_last(), names) {
            Some(i) => Some(i),
            None => if header_names(headers.last(), names) {
                Some(headers.len() - 1)
            } else {
                None
            },
        }
    }
}

/// The columns of the daily format.
#[derive(Debug, Clone, Copy, PartialEq, Eq, Structural)]
pub struct DailyColumns {
    pub date: usize,
    pub open: usize,
    pub high: usize,
    pub low: usize,
    pub close: usize,
    pub volume: Option<usize>,
}

/// The column of `names`, given as a column index when found.
pub open spec fn column_is(c: usize, headers: Seq<Seq<char>>, names: Seq<Seq<char>>) -> bool {
    first_column(headers, names) == Some(c as int)
}

/// The columns that the header chooses, or the first required column that
/// it lacks, by its first name: date, open, high, low, close.
pub open spec fn daily_columns_of(headers: Seq<Seq<char>>) -> Result<
    (int, int, int, int, int, Option<int>),
    Seq<char>,
> {
    let date = first_column(headers, date_names());
    let open = first_column(headers, open_names());
    let high = first_column(headers, high_names());
    let low = first_column(headers, low_names());
    let close = first_column(headers, close_names());
    if date is None {
        Err("date"@)
    } else if open is None {
        Err("open"@)
    } else if high is None {
        Err("high"@)
    } else if low is None {
        Err("low"@)
    } else if close is None {
        Err("close"@)
    } else {
        Ok(
            (
                date->0,
                open->0,
                high->0,
                low->0,
                close->0,
                first_column(headers, volume_names()),
            ),
        )
    }
}

fn names_header(header: &str, names: &[&str]) -> (r: bool)
    ensures
        r == exists|k: int| 0 <= k < names@.len() && eq_ignore_ascii_case(trimmed(header@), #[trigger] names@[k]@),
{
    let t = trim_text(header);
    let mut k: usize = 0;
    while k < names.len()
        invariant
            t@ == trimmed(header@),
            k <= names@.len(),
            forall|m: int| 0 <= m < k ==> !eq_ignore_ascii_case(t@, #[trigger] names@[m]@),
        decreases names@.len() - k,
    {
        if text_eq_ignore_ascii_case(t.as_str(), names[k]) {
            return true;
        }
        k = k + 1;
    }
    false
}

fn find_column(headers: &Vec<String>, names: &[&str], ghost_names: Ghost<Seq<Seq<char>>>) -> (r: Option<usize>)
    requires
        ghost_names@.len() == names@.len(),
        forall|k: int| 0 <= k < names@.len() ==> #[trigger] ghost_names@[k] == names@[k]@,
    ensures
        match r {
            Some(c) => first_column(fields_view(headers@), ghost_names@) == Some(c as int),
            None => first_column(fields_view(headers@), ghost_names@) is None,
        },
{
    let ghost hs = fields_view(headers@);
    let mut i: usize = 0;
    while i < headers.len()
        invariant
            hs == fields_view(headers@),
            i <= headers@.len(),
            ghost_names@.len() == names@.len(),
            forall|k: int| 0 <= k < names@.len() ==> #[trigger] ghost_names@[k] == names@[k]@,
            first_column(hs.subrange(0, i as int), ghost_names@) is None,
        decreases headers@.len() - i,
    {
        let found = names_header(headers[i].as_str(), names);
        proof {
            let pre = hs.subrange(0, i + 1);
            assert(pre.drop_last() =~= hs.subrange(0, i as int));
            assert(pre.last() == headers@[i as int]@);
            assert(found == header_names(pre.last(), ghost_names@)) by {
                if found {
                    let k = choose|k: int| 0 <= k < names@.len() && eq_ignore_ascii_case(trimmed(headers@[i as int]@), #[trigger] names@[k]@);
                    assert(ghost_names@[k] == names@[k]@);
                }
                if header_names(pre.last(), ghost_names@) {
                    let k = choose|k: int| 0 <= k < ghost_names@.len() && eq_ignore_ascii_case(trimmed(pre.last()), #[trigger] ghost_names@[k]);
                    assert(ghost_names@[k] == names@[k]@);
                }
            }
        }
        if found {
            assert(hs.subrange(0, i + 1).drop_last() =~= hs.subrange(0, i as int));
            proof {
                lemma_first_column_extends(hs, ghost_names@, (i + 1) as int);
            }
            return Some(i);
        }
        i = i + 1;
    }
    assert(hs.subrange(0, i as int) =~= hs);
    None
}

/// A column found in a prefix of the headers is the column of the whole.
proof fn lemma_first_column_extends(hs: Seq<Seq<char>>, names: Seq<Seq<char>>, n: int)
    requires
        0 <= n <= hs.len(),
        first_column(hs.subrange(0, n), names) is Some,
    ensures
        first_column(hs, names) == first_column(hs.subrange(0, n), names),
    decreases hs.len() - n,
{
    if n < hs.len() {
        let next = hs.subrange(0, n + 1);
        assert(next.drop_last() =~= hs.subrange(0, n));
        lemma_first_column_extends(hs, names, n + 1);
    } else {
        assert(hs.subrange(0, n) =~= hs);
    }
}

/// The texts of one record that the daily format reads, by column.
#[derive(Debug, Clone, PartialEq, Eq)]
pub struct DailyRowText {
    pub date: Option<String>,
    pub open: Option<String>,
    pub high: Option<String>,
    pub low: Option<String>,
    pub close: Option<String>,
    /// The volume, trimmed, where the column exists and the field is not
    /// blank.
    pub volume: Option<String>,
}

/// The records of a daily CSV file as the format reads them, and the CSV
/// error that ended the reading, if one did.
#[derive(Debug, Clone, PartialEq, Eq)]
pub struct DailyTable {
    pub rows: Vec<DailyRowText>,
    pub error: Option<String>,
}

pub open spec fn opt_text(o: Option<String>) -> Option<Seq<char>> {
    match o {
        Some(t) => Some(t@),
        None => None,
    }
}

/// The field in column `c`, where the record has one.
pub open spec fn field_at(record: Seq<Seq<char>>, c: int) -> Option<Seq<char>> {
    if 0 <= c < record.len() {
        Some(record[c])
    } else {
        None
    }
}

/// The trimmed volume of a record, where it has a volume column and the
/// field is not blank.
pub open spec fn volume_text(record: Seq<Seq<char>>, c: Option<int>) -> Option<Seq<char>> {
    match c {
        Some(i) => match field_at(record, i) {
            Some(t) => if trimmed(t).len() > 0 {
                Some(trimmed(t))
            } else {
                None
            },
            None => None,
        },
        None => None,
    }
}

/// `row` holds the texts that the columns choose from `record`.
pub open spec fn row_text_is(
    row: DailyRowText,
    record: Seq<Seq<char>>,
    cols: (int, int, int, int, int, Option<int>),
) -> bool {
    &&& opt_text(row.date) == field_at(record, cols.0)
    &&& opt_text(row.open) == field_at(record, cols.1)
    &&& opt_text(row.high) == field_at(record, cols.2)
    &&& opt_text(row.low) == field_at(record, cols.3)
    &&& opt_text(row.close) == field_at(record, cols.4)
    &&& opt_text(row.volume) == volume_text(record, cols.5)
}

/// `table` holds, row by row, the texts the columns choose from the
/// records, and the error that ended the reading.
pub open spec fn table_is(
    table: DailyTable,
    records: Seq<Seq<Seq<char>>>,
    error: Option<Seq<char>>,
    cols: (int, int, int, int, int, Option<int>),
) -> bool {
    &&& table.rows@.len() == records.len()
    &&& forall|i: int| 0 <= i < records.len() ==> #[trigger] row_text_is(table.rows@[i], records[i], cols)
    &&& opt_text(table.error) == error
}

/// What reading a daily CSV file gives: a CSV error on the header, the
/// first required column the header lacks, or the table.
pub open spec fn daily_table_is(bytes: Seq<u8>, r: Result<DailyTable, HistoricalError>) -> bool {
    table_of_reading(csv_text_of(bytes, true), r)
}

/// What the daily format makes of a CSV reading: a CSV error on the
/// header, the first required column the header lacks, or the table.
pub open spec fn table_of_reading(
    reading: (Result<Seq<Seq<char>>, Seq<char>>, Seq<Seq<Seq<char>>>, Option<Seq<char>>),
    r: Result<DailyTable, HistoricalError>,
) -> bool {
    let (headers, records, error) = reading;
    match headers {
        Err(m) => r matches Err(HistoricalError::Csv(e)) && e@ == m,
        Ok(h) => match daily_columns_of(h) {
            Err(name) => r matches Err(HistoricalError::MissingColumn(c)) && c@ == name,
            Ok(cols) => r matches Ok(t) && table_is(t, records, error, cols),
        },
    }
}

fn field_text(record: &Vec<String>, c: usize) -> (r: Option<String>)
    ensures
        opt_text(r) == field_at(fields_view(record@), c as int),
{
    if c < record.len() {
        Some(record[c].clone())
    } else {
        None
    }
}

fn volume_field(record: &Vec<String>, c: Option<usize>) -> (r: Option<String>)
    ensures
        opt_text(r) == volume_text(
            fields_view(record@),
            match c {
                Some(i) => Some(i as int),
                None => None,
            },
        ),
{
    match c {
        Some(i) => {
            if i < record.len() {
                let t = trim_text(record[i].as_str());
                if t.unicode_len() > 0 {
                    Some(t)
                } else {
                    None
                }
            } else {
                None
            }
        },
        None => None,
    }
}

/// Reads a daily CSV file: its header chooses the columns, and each record
/// gives the texts of its date, prices and volume.
pub fn read_daily_table(bytes: &[u8]) -> (r: Result<DailyTable, HistoricalError>)
    ensures
        daily_table_is(bytes@, r),
{
    let text = read_csv(bytes, true);
    daily_table_of_csv(text)
}

/// The number of records of a CSV reading, or the error that ended it.
pub fn record_count(text: &CsvText) -> (r: Result<usize, String>)
    ensures
        match csv_text_view(*text).2 {
            Some(m) => r matches Err(e) && e@ == m,
            None => r matches Ok(n) && n == csv_text_view(*text).1.len(),
        },
{
    match &text.error {
        Some(m) => Err(m.clone()),
        None => Ok(text.records.len()),
    }
}

/// Reads the daily format from a CSV reading: the header chooses the
/// columns, and each record gives the texts of its date, prices and volume.
pub fn daily_table_of_csv(text: CsvText) -> (r: Result<DailyTable, HistoricalError>)
    ensures
        table_of_reading(csv_text_view(text), r),
{
    let ghost reading = csv_text_view(text);
    let headers = match text.headers {
        Ok(h) => h,
        Err(m) => {
            return Err(HistoricalError::Csv(m));
        },
    };
    let ghost hs = fields_view(headers@);
    let date = match find_column(&headers, &["date", "timestamp", "time"], Ghost(date_names())) {
        Some(c) => c,
        None => {
            return Err(HistoricalError::MissingColumn("date".to_owned()));
        },
    };
    let open = match find_column(&headers, &["open"], Ghost(open_names())) {
        Some(c) => c,
        None => {
            return Err(HistoricalError::MissingColumn("open".to_owned()));
        },
    };
    let high = match find_column(&headers, &["high"], Ghost(high_names())) {
        Some(c) => c,
        None => {
            return Err(HistoricalError::MissingColumn("high".to_owned()));
        },
    };
    let low = match find_column(&headers, &["low"], Ghost(low_names())) {
        Some(c) => c,
        None => {
            return Err(HistoricalError::MissingColumn("low".to_owned()));
        },
    };
    let close = match find_column(&headers, &["close"], Ghost(close_names())) {
        Some(c) => c,
        None => {
            return Err(HistoricalError::MissingColumn("close".to_owned()));
        },
    };
    let volume = find_column(&headers, &["volume", "vol"], Ghost(volume_names()));
    let ghost cols = (
        date as int,
        open as int,
        high as int,
        low as int,
        close as int,
        match volume {
            Some(v) => Some(v as int),
            None => None,
        },
    );
    assert(daily_columns_of(hs) == Ok::<(int, int, int, int, int, Option<int>), Seq<char>>(cols));
    let records = text.records;
    let ghost recs = records_view(records@);
    let mut rows: Vec<DailyRowText> = Vec::new();
    let mut k: usize = 0;
    while k < records.len()
        invariant
            recs == records_view(records@),
            k <= records@.len(),
            rows@.len() == k,
            forall|i: int| 0 <= i < k ==> #[trigger] row_text_is(rows@[i], recs[i], cols),
            cols.0 == date && cols.1 == open && cols.2 == high && cols.3 == low && cols.4 == close,
            cols.5 == match volume {
                Some(v) => Some(v as int),
                None => None::<int>,
            },
        decreases records@.len() - k,
    {
        let record = &records[k];
        let row = DailyRowText {
            date: field_text(record, date),
            open: field_text(record, open),
            high: field_text(record, high),
            low: field_text(record, low),
            close: field_text(record, close),
            volume: volume_field(record, volume),
        };
        assert(recs[k as int] == fields_view(records@[k as int]@));
        rows.push(row);
        k = k + 1;
    }
    Ok(DailyTable { rows, error: text.error })
}

/// What a volume field parses to.
#[derive(Debug, Clone, Copy, PartialEq, Eq, Structural)]
pub enum VolumeReading {
    Zero,
    NonZero,
    Invalid,
}

/// What the caller found of a row's prices, on its texts: whether each of
/// open, high, low and close parses as a finite number, whether the four
/// are ordered as OHLC requires (low at most open and close, high at least
/// both), and what the volume text parses to. A price that has no text is
/// not valid; the volume reading counts only where the row has a volume.
#[derive(Debug, Clone, Copy, PartialEq, Eq, Structural)]
pub struct PriceCheck {
    pub open_valid: bool,
    pub high_valid: bool,
    pub low_valid: bool,
    pub close_valid: bool,
    pub ohlc_ordered: bool,
    pub volume: VolumeReading,
}

/// A record kept as a daily bar: its row number in the file, its day's
/// open and close instants, and whether its volume is available.
#[derive(Debug, Clone, Copy, PartialEq, Eq, Structural)]
pub struct DailyRowPlan {
    pub row: usize,
    pub open_time_ns: i64,
    pub close_time_ns: i64,
    pub volume_available: bool,
}

/// A loading error as plain values.
pub enum DailyFault {
    Csv(Seq<char>),
    Io(Seq<char>),
    MissingColumn(Seq<char>),
    InvalidValue(int, Seq<char>, Seq<char>),
    InvalidObservation(int, Seq<char>),
    NonIncreasing(int),
    EmptyAggregation,
}

/// A loading error, taken by its values.
pub open spec fn fault_of(e: HistoricalError) -> DailyFault {
    match e {
        HistoricalError::Csv(m) => DailyFault::Csv(m@),
        HistoricalError::Io(m) => DailyFault::Io(m@),
        HistoricalError::MissingColumn(c) => DailyFault::MissingColumn(c@),
        HistoricalError::InvalidValue { row, field, value } => DailyFault::InvalidValue(
            row as int,
            field@,
            value@,
        ),
        HistoricalError::InvalidObservation { row, message } => DailyFault::InvalidObservation(
            row as int,
            message@,
        ),
        HistoricalError::NonIncreasing(row) => DailyFault::NonIncreasing(row as int),
        HistoricalError::EmptyAggregation => DailyFault::EmptyAggregation,
    }
}

/// Midnight UTC of a date in the first of the three formats that reads it.
pub open spec fn day_of(text: Seq<char>) -> Option<i64> {
    match utc_midnight_of(text, "%Y-%m-%d"@) {
        Some(t) => Some(t),
        None => match utc_midnight_of(text, "%Y/%m/%d"@) {
            Some(t) => Some(t),
            None => utc_midnight_of(text, "%d/%m/%Y"@),
        },
    }
}

fn parse_day(text: &str) -> (r: Option<i64>)
    ensures
        r == day_of(text@),
{
    match utc_midnight_ns(text, "%Y-%m-%d") {
        Some(t) => Some(t),
        None => match utc_midnight_ns(text, "%Y/%m/%d") {
            Some(t) => Some(t),
            None => utc_midnight_ns(text, "%d/%m/%Y"),
        },
    }
}

/// The error of a price field at `row`: none when it has a text that
/// parses, the field's text when it does not parse, and an empty text when
/// the record has no such field.
pub open spec fn price_fault(field: Option<String>, valid: bool, row: int, name: Seq<char>) -> Option<
    DailyFault,
> {
    match field {
        None => Some(DailyFault::InvalidValue(row, name, Seq::empty())),
        Some(t) => if valid {
            None
        } else {
            Some(DailyFault::InvalidValue(row, name, t@))
        },
    }
}

/// Whether a kept row's volume is available.
pub open spec fn volume_available(text: DailyRowText, check: PriceCheck, policy: HistoricalLoadPolicy) -> bool {
    text.volume is Some && !(check.volume == VolumeReading::Zero && policy.zero_volume_is_unavailable)
}

/// What one record at `row` comes to, checked in order: its date, then
/// open, high, low and close, then its volume, then the day's time range,
/// then the OHLC ordering. A malformed row is skipped (`None`) where the
/// policy excludes such rows.
pub open spec fn row_outcome(
    text: DailyRowText,
    check: PriceCheck,
    policy: HistoricalLoadPolicy,
    row: int,
) -> Result<Option<DailyRowPlan>, DailyFault> {
    match text.date {
        None => Err(DailyFault::InvalidValue(row, "date"@, Seq::empty())),
        Some(d) => match day_of(trimmed(d@)) {
            None => Err(DailyFault::InvalidValue(row, "date"@, d@)),
            Some(t) => {
                let open = price_fault(text.open, check.open_valid, row, "open"@);
                let high = price_fault(text.high, check.high_valid, row, "high"@);
                let low = price_fault(text.low, check.low_valid, row, "low"@);
                let close = price_fault(text.close, check.close_valid, row, "close"@);
                if open is Some {
                    Err(open->0)
                } else if high is Some {
                    Err(high->0)
                } else if low is Some {
                    Err(low->0)
                } else if close is Some {
                    Err(close->0)
                } else if text.volume is Some && check.volume == VolumeReading::Invalid {
                    Err(DailyFault::InvalidValue(row, "volume"@, text.volume->0@))
                } else if t > i64::MAX - DAY_NS {
                    Err(DailyFault::InvalidObservation(row, contract_error_text(ContractError::InvalidTimeRange)@))
                } else if !check.ohlc_ordered {
                    if policy.exclude_malformed_ohlc {
                        Ok(None)
                    } else {
                        Err(DailyFault::InvalidObservation(row, contract_error_text(ContractError::MalformedOhlc)@))
                    }
                } else {
                    Ok(
                        Some(
                            DailyRowPlan {
                                row: row as usize,
                                open_time_ns: t,
                                close_time_ns: (t + DAY_NS) as i64,
                                volume_available: volume_available(text, check, policy),
                            },
                        ),
                    )
                }
            },
        },
    }
}

/// The rows kept from the first `n` records, or the first error among
/// them; a kept row must open strictly after the one kept before it.
pub open spec fn plan_prefix(
    rows: Seq<DailyRowText>,
    checks: Seq<PriceCheck>,
    policy: HistoricalLoadPolicy,
    n: int,
) -> Result<Seq<DailyRowPlan>, DailyFault>
    decreases n,
{
    if n <= 0 {
        Ok(Seq::empty())
    } else {
        match plan_prefix(rows, checks, policy, n - 1) {
            Err(f) => Err(f),
            Ok(kept) => match row_outcome(rows[n - 1], checks[n - 1], policy, n + 1) {
                Err(f) => Err(f),
                Ok(None) => Ok(kept),
                Ok(Some(p)) => if kept.len() > 0 && kept.last().open_time_ns >= p.open_time_ns {
                    Err(DailyFault::NonIncreasing(n + 1))
                } else {
                    Ok(kept.push(p))
                },
            },
        }
    }
}

/// The daily bars of a table, row by row, or the first error: a record's
/// own error, or, after all records read, the CSV error that ended the
/// reading. Record `i` is row `i + 2` of the file.
pub open spec fn daily_rows_of(
    rows: Seq<DailyRowText>,
    error: Option<Seq<char>>,
    checks: Seq<PriceCheck>,
    policy: HistoricalLoadPolicy,
) -> Result<Seq<DailyRowPlan>, DailyFault> {
    match plan_prefix(rows, checks, policy, rows.len() as int) {
        Err(f) => Err(f),
        Ok(kept) => match error {
            Some(m) => Err(DailyFault::Csv(m)),
            None => Ok(kept),
        },
    }
}

/// Once the rows of a prefix fail, every longer prefix fails the same way.
proof fn lemma_prefix_error_persists(
    rows: Seq<DailyRowText>,
    checks: Seq<PriceCheck>,
    policy: HistoricalLoadPolicy,
    k: int,
    n: int,
)
    requires
        0 <= k <= n,
        plan_prefix(rows, checks, policy, k) is Err,
    ensures
        plan_prefix(rows, checks, policy, n) == plan_prefix(rows, checks, policy, k),
    decreases n - k,
{
    if k < n {
        lemma_prefix_error_persists(rows, checks, policy, k, n - 1);
    }
}

fn price_error(field: &Option<String>, valid: bool, row: usize, name: &str) -> (r: Option<HistoricalError>)
    ensures
        match price_fault(*field, valid, row as int, name@) {
            Some(f) => r matches Some(e) && fault_of(e) == f,
            None => r is None,
        },
{
    match field {
        None => Some(HistoricalError::InvalidValue { row, field: name.to_owned(), value: String::new() }),
        Some(t) => if valid {
            None
        } else {
            Some(HistoricalError::InvalidValue { row, field: name.to_owned(), value: t.clone() })
        },
    }
}

fn plan_row(text: &DailyRowText, check: PriceCheck, policy: HistoricalLoadPolicy, row: usize) -> (r: Result<
    Option<DailyRowPlan>,
    HistoricalError,
>)
    ensures
        match row_outcome(*text, check, policy, row as int) {
            Ok(o) => r matches Ok(x) && x == o,
            Err(f) => r matches Err(e) && fault_of(e) == f,
        },
{
    let d = match &text.date {
        None => {
            return Err(HistoricalError::InvalidValue { row, field: "date".to_owned(), value: String::new() });
        },
        Some(d) => d,
    };
    let trimmed_date = trim_text(d.as_str());
    let t = match parse_day(trimmed_date.as_str()) {
        None => {
            return Err(HistoricalError::InvalidValue { row, field: "date".to_owned(), value: d.clone() });
        },
        Some(t) => t,
    };
    if let Some(e) = price_error(&text.open, check.open_valid, row, "open") {
        return Err(e);
    }
    if let Some(e) = price_error(&text.high, check.high_valid, row, "high") {
        return Err(e);
    }
    if let Some(e) = price_error(&text.low, check.low_valid, row, "low") {
        return Err(e);
    }
    if let Some(e) = price_error(&text.close, check.close_valid, row, "close") {
        return Err(e);
    }
    if let Some(v) = &text.volume {
        if check.volume == VolumeReading::Invalid {
            return Err(HistoricalError::InvalidValue { row, field: "volume".to_owned(), value: v.clone() });
        }
    }
    if t > i64::MAX - DAY_NS {
        return Err(HistoricalError::InvalidObservation {
            row,
            message: contract_error_text(ContractError::InvalidTimeRange).to_owned(),
        });
    }
    if !check.ohlc_ordered {
        if policy.exclude_malformed_ohlc {
            return Ok(None);
        }
        return Err(HistoricalError::InvalidObservation {
            row,
            message: contract_error_text(ContractError::MalformedOhlc).to_owned(),
        });
    }
    let available = text.volume.is_some() && !(check.volume == VolumeReading::Zero
        && policy.zero_volume_is_unavailable);
    Ok(Some(DailyRowPlan { row, open_time_ns: t, close_time_ns: t + DAY_NS, volume_available: available }))
}

/// The daily bars of a table, row by row, given the caller's checks of
/// each record's prices, in record order.
pub fn plan_daily_rows(table: &DailyTable, checks: &[PriceCheck], policy: HistoricalLoadPolicy) -> (r: Result<
    Vec<DailyRowPlan>,
    HistoricalError,
>)
    requires
        checks.len() == table.rows.len(),
        table.rows.len() + 2 <= usize::MAX,
    ensures
        match daily_rows_of(table.rows@, opt_text(table.error), checks@, policy) {
            Ok(plan) => r matches Ok(v) && v@ == plan,
            Err(f) => r matches Err(e) && fault_of(e) == f,
        },
{
    let n = table.rows.len();
    let mut kept: Vec<DailyRowPlan> = Vec::new();
    let mut k: usize = 0;
    while k < n
        invariant
            n == table.rows@.len(),
            n == checks@.len(),
            n + 2 <= usize::MAX,
            k <= n,
            plan_prefix(table.rows@, checks@, policy, k as int) == Ok::<Seq<DailyRowPlan>, DailyFault>(kept@),
        decreases n - k,
    {
        let row = k + 2;
        let outcome = plan_row(&table.rows[k], checks[k], policy, row);
        assert((k + 1) + 1 == row);
        match outcome {
            Err(e) => {
                proof {
                    lemma_prefix_error_persists(table.rows@, checks@, policy, k + 1, n as int);
                }
                return Err(e);
            },
            Ok(None) => {},
            Ok(Some(p)) => {
                if kept.len() > 0 && kept[kept.len() - 1].open_time_ns >= p.open_time_ns {
                    proof {
                        lemma_prefix_error_persists(table.rows@, checks@, policy, k + 1, n as int);
                    }
                    return Err(HistoricalError::NonIncreasing(row));
                }
                kept.push(p);
            },
        }
        k = k + 1;
    }
    match &table.error {
        Some(m) => Err(HistoricalError::Csv(m.clone())),
        None => Ok(kept),
    }
}

/// What loading a daily CSV file gives, given the caller's checks of the
/// prices of each record of its table: the table's own error, an error
/// where the checks do not cover the records one for one or the records
/// cannot be numbered, or the daily bars of the table.
pub open spec fn daily_load_is(
    bytes: Seq<u8>,
    checks: Seq<PriceCheck>,
    policy: HistoricalLoadPolicy,
    r: Result<Vec<DailyRowPlan>, HistoricalError>,
) -> bool {
    exists|t: Result<DailyTable, HistoricalError>|
        #[trigger] daily_table_is(bytes, t) && match t {
            Err(e) => r matches Err(x) && fault_of(x) == fault_of(e),
            Ok(table) => if checks.len() != table.rows@.len() {
                r matches Err(HistoricalError::Csv(x)) && x@ == "price checks do not match the CSV records"@
            } else if table.rows@.len() + 2 > usize::MAX {
                r matches Err(HistoricalError::Csv(x)) && x@ == "too many CSV records to number"@
            } else {
                match daily_rows_of(table.rows@, opt_text(table.error), checks, policy) {
                    Ok(plan) => r matches Ok(v) && v@ == plan,
                    Err(f) => r matches Err(e) && fault_of(e) == f,
                }
            },
        }
}

/// Loads the daily bars of a CSV file, in file order, given the caller's
/// checks of the prices of each record of `read_daily_table` on the same
/// bytes.
pub fn load_daily_csv_with_policy(bytes: &[u8], checks: &[PriceCheck], policy: HistoricalLoadPolicy) -> (r: Result<
    Vec<DailyRowPlan>,
    HistoricalError,
>)
    ensures
        daily_load_is(bytes@, checks@, policy, r),
{
    let read = read_daily_table(bytes);
    let ghost t = read;
    let table = match read {
        Ok(table) => table,
        Err(e) => {
            assert(daily_table_is(bytes@, t));
            return Err(e);
        },
    };
    assert(daily_table_is(bytes@, t));
    if checks.len() != table.rows.len() {
        return Err(HistoricalError::Csv("price checks do not match the CSV records".to_owned()));
    }
    if table.rows.len() > usize::MAX - 2 {
        return Err(HistoricalError::Csv("too many CSV records to number".to_owned()));
    }
    plan_daily_rows(&table, checks, policy)
}

} // verus!
