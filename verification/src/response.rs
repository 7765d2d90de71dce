//! Printing a query's answer: the rows of a v1 JSON answer or a v2 CSV
//! answer, as a table, JSON or CSV.
use vstd::prelude::*;
use vstd::utf8::encode_utf8;

use crate::options::{
    ApiVersion, CsvStage, OutputFormat, QueryError, QueryErrorModel, QueryOptions,
    text_result_view,
};
use crate::table::{render_table, rows_view, table_text};
use crate::text::{blank, collect_chars, decimal, is_blank, join, join_strings, string_from_chars,
    strings_view,
};

verus! {

/// A cell of a v1 answer: JSON `null`, a JSON string, or any other JSON
/// value as its compact JSON text.
#[derive(Debug, Clone, PartialEq, Eq)]
pub enum JsonCell {
    Null,
    Str(String),
    Other(String),
}

/// A series of a v1 answer: its column names and, maybe, its rows of cells.
#[derive(Debug, Clone, PartialEq, Eq)]
pub struct V1Series {
    pub columns: Vec<String>,
    pub values: Option<Vec<Vec<JsonCell>>>,
}

/// One statement's result in a v1 answer, maybe with series.
#[derive(Debug, Clone, PartialEq, Eq)]
pub struct V1Result {
    pub series: Option<Vec<V1Series>>,
}

/// A v1 answer: maybe a list of statement results.
#[derive(Debug, Clone, PartialEq, Eq)]
pub struct V1Response {
    pub results: Option<Vec<V1Result>>,
}

/// The text of a cell: empty for `null`, the string itself for a string, the
/// JSON text of anything else.
pub open spec fn cell_text(cell: JsonCell) -> Seq<char> {
    match cell {
        JsonCell::Null => seq![],
        JsonCell::Str(s) => s@,
        JsonCell::Other(t) => t@,
    }
}

/// The text of a JSON cell.
pub fn json_value_to_string(value: &JsonCell) -> (r: String)
    ensures
        r@ == cell_text(*value),
{
    match value {
        JsonCell::Null => String::new(),
        JsonCell::Str(s) => s.as_str().to_owned(),
        JsonCell::Other(t) => t.as_str().to_owned(),
    }
}

/// What is printed when there are no rows: `[]` for JSON, nothing for CSV,
/// `(no rows)` otherwise.
pub open spec fn no_rows_text(output: OutputFormat) -> Seq<char> {
    match output {
        OutputFormat::Json => "[]"@,
        OutputFormat::Csv => seq![],
        _ => "(no rows)"@,
    }
}

/// The message printed for an answer without rows.
pub fn no_rows_message(output: OutputFormat) -> (r: String)
    ensures
        r@ == no_rows_text(output),
{
    match output {
        OutputFormat::Json => "[]".to_owned(),
        OutputFormat::Csv => String::new(),
        OutputFormat::Table | OutputFormat::Raw => "(no rows)".to_owned(),
    }
}

/// A CSV field needs quotes when it holds a comma, a quote, `\r` or `\n`.
pub open spec fn csv_needs_quotes(field: Seq<char>) -> bool {
    exists|i: int|
        0 <= i < field.len() && (#[trigger] field[i] == ',' || field[i] == '"' || field[i] == '\r'
            || field[i] == '\n')
}

/// The characters of a field with every quote doubled.
pub open spec fn double_quotes(field: Seq<char>) -> Seq<char>
    decreases field.len(),
{
    if field.len() == 0 {
        seq![]
    } else if field[0] == '"' {
        seq!['"', '"'] + double_quotes(field.drop_first())
    } else {
        seq![field[0]] + double_quotes(field.drop_first())
    }
}

/// How a field is written: quoted, its quotes doubled, when it needs quotes;
/// as it is otherwise.
pub open spec fn csv_field(field: Seq<char>) -> Seq<char> {
    if csv_needs_quotes(field) {
        seq!['"'] + double_quotes(field) + seq!['"']
    } else {
        field
    }
}

/// How a record is written: its fields joined by commas, then `\n`; a record
/// that would write nothing before the line feed is written as `""`.
pub open spec fn csv_record(fields: Seq<Seq<char>>) -> Seq<char> {
    let body = join(fields.map_values(|f: Seq<char>| csv_field(f)), seq![',']);
    (if body.len() == 0 {
        seq!['"', '"']
    } else {
        body
    }) + seq!['\n']
}

/// The records of the first `k` rows, one after another.
pub open spec fn csv_records(rows: Seq<Seq<Seq<char>>>, k: int) -> Seq<char>
    decreases k,
{
    if k <= 0 {
        seq![]
    } else {
        csv_records(rows, k - 1) + csv_record(rows[k - 1])
    }
}

/// The first of the first `k` rows whose number of fields differs from `n`.
pub open spec fn first_uneven_row(n: nat, rows: Seq<Seq<Seq<char>>>, k: int) -> Option<int>
    decreases k,
{
    if k <= 0 {
        None
    } else {
        match first_uneven_row(n, rows, k - 1) {
            Some(i) => Some(i),
            None => if rows[k - 1].len() != n {
                Some(k - 1)
            } else {
                None
            },
        }
    }
}

/// The `csv` crate's message for a record of `len` fields after a first
/// record of `expected` fields.
pub open spec fn unequal_lengths_message(len: nat, expected: nat) -> Seq<char> {
    "CSV error: found record with "@ + decimal(len) + " fields, but the previous record has "@
        + decimal(expected) + " fields"@
}

/// What the `csv` crate writes, with its default settings, for a header and
/// rows: the header's record, then each row's; a row whose number of fields
/// differs from the header's stops the writing at that row.
pub open spec fn csv_written(columns: Seq<Seq<char>>, rows: Seq<Seq<Seq<char>>>) -> Result<
    Seq<char>,
    (CsvStage, Seq<char>),
> {
    match first_uneven_row(columns.len(), rows, rows.len() as int) {
        None => Ok(csv_record(columns) + csv_records(rows, rows.len() as int)),
        Some(i) => Err(
            (CsvStage::WriteRow, unequal_lengths_message(rows[i].len(), columns.len())),
        ),
    }
}

/// A CSV result with its texts as characters.
pub open spec fn stage_result_view(r: Result<String, (CsvStage, String)>) -> Result<
    Seq<char>,
    (CsvStage, Seq<char>),
> {
    match r {
        Ok(s) => Ok(s@),
        Err((stage, m)) => Err((stage, m@)),
    }
}

/// Writes a header and rows with a default `csv::Writer` into memory and
/// reads the bytes back as UTF-8. Trusted, as `csv_written` states: with the
/// default settings (`,` delimiter, `\n` terminator, necessary quoting with
/// doubled quotes, records of equal length) the crate quotes a field holding
/// `,` `"` `\r` or `\n`, writes `""` for a record that would otherwise be
/// empty, and refuses a record whose field count differs from the first
/// record's with its "found record with .. fields" message. Writing into a
/// `Vec` cannot fail otherwise, and the bytes are UTF-8.
#[verifier::external_body]
fn write_csv(columns: &[String], rows: &[Vec<String>]) -> (r: Result<String, (CsvStage, String)>)
    ensures
        stage_result_view(r) == csv_written(strings_view(columns@), rows_view(rows@)),
{
    let mut writer = csv::WriterBuilder::new().from_writer(Vec::new());
    if let Err(e) = writer.write_record(columns) {
        return Err((CsvStage::WriteHeader, e.to_string()));
    }
    for row in rows {
        if let Err(e) = writer.write_record(row) {
            return Err((CsvStage::WriteRow, e.to_string()));
        }
    }
    let bytes = writer.into_inner().map_err(|e| (CsvStage::Finish, e.to_string()))?;
    String::from_utf8(bytes).map_err(|e| (CsvStage::Utf8, e.to_string()))
}

/// Byte strings in lexicographic order, a proper prefix first (the order of
/// `String`, which compares UTF-8 bytes).
pub open spec fn bytes_less(a: Seq<u8>, b: Seq<u8>) -> bool
    decreases a.len(),
{
    if a.len() == 0 {
        b.len() > 0
    } else if b.len() == 0 {
        false
    } else if a[0] != b[0] {
        a[0] < b[0]
    } else {
        bytes_less(a.drop_first(), b.drop_first())
    }
}

/// The order of map keys.
pub open spec fn key_less(a: Seq<char>, b: Seq<char>) -> bool {
    bytes_less(encode_utf8(a), encode_utf8(b))
}

/// Inserting into a map kept as its entries in key order: a present key gets
/// the new value, a new key goes in its place.
pub open spec fn map_insert(
    entries: Seq<(Seq<char>, Seq<char>)>,
    key: Seq<char>,
    value: Seq<char>,
) -> Seq<(Seq<char>, Seq<char>)>
    decreases entries.len(),
{
    if entries.len() == 0 {
        seq![(key, value)]
    } else if entries[0].0 == key {
        seq![(key, value)] + entries.drop_first()
    } else if key_less(key, entries[0].0) {
        seq![(key, value)] + entries
    } else {
        seq![entries[0]] + map_insert(entries.drop_first(), key, value)
    }
}

/// The entries, in key order, of a map filled with the first `k` pairs.
pub open spec fn map_entries(pairs: Seq<(Seq<char>, Seq<char>)>, k: int) -> Seq<
    (Seq<char>, Seq<char>),
>
    decreases k,
{
    if k <= 0 {
        seq![]
    } else {
        map_insert(map_entries(pairs, k - 1), pairs[k - 1].0, pairs[k - 1].1)
    }
}

/// The pretty JSON of an object of strings, as an element of a list: each
/// entry on its own line, indented by four spaces.
pub open spec fn json_pretty_object(entries: Seq<(Seq<char>, Seq<char>)>) -> Seq<char> {
    if entries.len() == 0 {
        "{}"@
    } else {
        "{\n"@ + join(
            entries.map_values(
                |e: (Seq<char>, Seq<char>)| "    "@ + crate::encode::json_string(e.0) + ": "@
                    + crate::encode::json_string(e.1),
            ),
            ",\n"@,
        ) + "\n  }"@
    }
}

/// The pretty JSON of a list of objects: each object on its own lines,
/// indented by two spaces, its entries in key order.
pub open spec fn json_pretty_list(objects: Seq<Seq<(Seq<char>, Seq<char>)>>) -> Seq<char> {
    if objects.len() == 0 {
        "[]"@
    } else {
        "[\n"@ + join(
            objects.map_values(
                |o: Seq<(Seq<char>, Seq<char>)>| "  "@ + json_pretty_object(
                    map_entries(o, o.len() as int),
                ),
            ),
            ",\n"@,
        ) + "\n]"@
    }
}

/// What `serde_json::to_string_pretty` writes for a list of objects whose
/// fields are strings, each object filled by inserting its pairs in order:
/// it never fails on such values.
pub open spec fn json_pretty_objects(objects: Seq<Seq<(Seq<char>, Seq<char>)>>) -> Result<
    Seq<char>,
    Seq<char>,
> {
    Ok(json_pretty_list(objects))
}

/// Name and value pairs as characters.
pub open spec fn pairs_view(pairs: Seq<(String, String)>) -> Seq<(Seq<char>, Seq<char>)> {
    pairs.map_values(|p: (String, String)| (p.0@, p.1@))
}

/// Lists of name and value pairs as characters.
pub open spec fn objects_view(objects: Seq<Vec<(String, String)>>) -> Seq<
    Seq<(Seq<char>, Seq<char>)>,
> {
    objects.map_values(|o: Vec<(String, String)>| pairs_view(o@))
}

/// A result of strings as characters.
pub open spec fn string_result_view(r: Result<String, String>) -> Result<Seq<char>, Seq<char>> {
    match r {
        Ok(s) => Ok(s@),
        Err(m) => Err(m@),
    }
}

/// Fills a `serde_json::Map` for each list of pairs by `insert` in order
/// and writes the list of `Value::Object`s with `serde_json::to_string_pretty`.
/// Trusted, as `json_pretty_objects` states: the map is a `BTreeMap` (the
/// `preserve_order` feature is off), so its entries come in key order and a
/// repeated key keeps the last value; the pretty formatter writes `[]` and
/// `{}` when empty, otherwise one element or entry per line, indented by two
/// spaces per level, entries as `"key": "value"`, with the string escaping of
/// compact JSON. Serialising strings into memory never fails.
#[verifier::external_body]
fn write_json_objects(objects: &Vec<Vec<(String, String)>>) -> (r: Result<String, String>)
    ensures
        string_result_view(r) == json_pretty_objects(objects_view(objects@)),
{
    let mut values: Vec<serde_json::Value> = Vec::new();
    for object in objects {
        let mut map = serde_json::Map::new();
        for (k, v) in object {
            map.insert(k.clone(), serde_json::Value::String(v.clone()));
        }
        values.push(serde_json::Value::Object(map));
    }
    serde_json::to_string_pretty(&values).map_err(|e| e.to_string())
}

/// The pairs of column names and cells of a row, as far as both reach.
pub open spec fn zip_row(columns: Seq<Seq<char>>, row: Seq<Seq<char>>) -> Seq<(Seq<char>, Seq<char>)> {
    let n = if columns.len() < row.len() {
        columns.len()
    } else {
        row.len()
    };
    Seq::new(n, |i: int| (columns[i], row[i]))
}

/// The name and value pairs of every row.
pub open spec fn zip_rows(columns: Seq<Seq<char>>, rows: Seq<Seq<Seq<char>>>) -> Seq<
    Seq<(Seq<char>, Seq<char>)>,
> {
    Seq::new(rows.len(), |r: int| zip_row(columns, rows[r]))
}

/// How a header and rows are printed in each output format.
pub open spec fn records_text(
    output: OutputFormat,
    columns: Seq<Seq<char>>,
    rows: Seq<Seq<Seq<char>>>,
) -> Result<Seq<char>, QueryErrorModel> {
    match output {
        OutputFormat::Table => Ok(table_text(columns, rows)),
        OutputFormat::Csv => match csv_written(columns, rows) {
            Ok(t) => Ok(t),
            Err((stage, m)) => Err(QueryErrorModel::Csv(stage, m)),
        },
        OutputFormat::Json => match json_pretty_objects(zip_rows(columns, rows)) {
            Ok(t) => Ok(t),
            Err(m) => Err(QueryErrorModel::JsonEncode(m)),
        },
        OutputFormat::Raw => Ok(seq![]),
    }
}

/// Prints a header and rows: as a table, as CSV, or as a JSON list of objects
/// that map each column name to the row's cell; `Raw` prints nothing.
pub fn format_records(output: OutputFormat, columns: &[String], rows: &[Vec<String>]) -> (r: Result<
    String,
    QueryError,
>)
    ensures
        text_result_view(r) == records_text(output, strings_view(columns@), rows_view(rows@)),
{
    match output {
        OutputFormat::Table => Ok(render_table(columns, rows)),
        OutputFormat::Csv => match write_csv(columns, rows) {
            Ok(text) => Ok(text),
            Err((stage, message)) => Err(QueryError::Csv(stage, message)),
        },
        OutputFormat::Json => {
            let ghost cols = strings_view(columns@);
            let ghost rs = rows_view(rows@);
            let mut objects: Vec<Vec<(String, String)>> = Vec::new();
            let mut r: usize = 0;
            while r < rows.len()
                invariant
                    r <= rows.len(),
                    cols == strings_view(columns@),
                    rs == rows_view(rows@),
                    objects_view(objects@) =~= zip_rows(cols, rs).take(r as int),
                decreases rows.len() - r,
            {
                let row = &rows[r];
                let mut object: Vec<(String, String)> = Vec::new();
                let mut i: usize = 0;
                while i < columns.len() && i < row.len()
                    invariant
                        r < rows.len(),
                        row == rows@[r as int],
                        cols == strings_view(columns@),
                        rs == rows_view(rows@),
                        i <= columns.len(),
                        i <= row.len(),
                        pairs_view(object@) =~= zip_row(cols, rs[r as int]).take(i as int),
                    decreases columns.len() - i,
                {
                    assert(rs[r as int] == strings_view(row@));
                    assert(cols[i as int] == columns@[i as int]@);
                    assert(rs[r as int][i as int] == row@[i as int]@);
                    let ghost before = object@;
                    object.push((columns[i].as_str().to_owned(), row[i].as_str().to_owned()));
                    assert(pairs_view(object@) =~= pairs_view(before).push(
                        (cols[i as int], rs[r as int][i as int]),
                    ));
                    i = i + 1;
                }
                assert(rs[r as int] == strings_view(row@));
                assert(pairs_view(object@) =~= zip_row(cols, rs[r as int]));
                let ghost before = objects@;
                objects.push(object);
                assert(objects_view(objects@) =~= objects_view(before).push(
                    zip_row(cols, rs[r as int]),
                ));
                r = r + 1;
            }
            assert(objects_view(objects@) =~= zip_rows(cols, rs));
            match write_json_objects(&objects) {
                Ok(text) => Ok(text),
                Err(message) => Err(QueryError::JsonEncode(message)),
            }
        },
        OutputFormat::Raw => Ok(String::new()),
    }
}

/// The texts of a row of JSON cells.
pub open spec fn row_cells(row: Seq<JsonCell>) -> Seq<Seq<char>> {
    row.map_values(|c: JsonCell| cell_text(c))
}

/// The rows of the first `k` series, in order; a series without values has
/// none.
pub open spec fn series_rows(series: Seq<V1Series>, k: int) -> Seq<Seq<Seq<char>>>
    decreases k,
{
    if k <= 0 {
        seq![]
    } else {
        series_rows(series, k - 1) + match series[k - 1].values {
            Some(values) => values@.map_values(|row: Vec<JsonCell>| row_cells(row@)),
            None => seq![],
        }
    }
}

/// The rows of one statement's result.
pub open spec fn result_rows(result: V1Result) -> Seq<Seq<Seq<char>>> {
    match result.series {
        Some(series) => series_rows(series@, series@.len() as int),
        None => seq![],
    }
}

/// The rows of the first `k` results, in order.
pub open spec fn v1_rows(results: Seq<V1Result>, k: int) -> Seq<Seq<Seq<char>>>
    decreases k,
{
    if k <= 0 {
        seq![]
    } else {
        v1_rows(results, k - 1) + result_rows(results[k - 1])
    }
}

/// The first series among the first `k` results, if there is one.
pub open spec fn first_series(results: Seq<V1Result>, k: int) -> Option<V1Series>
    decreases k,
{
    if k <= 0 {
        None
    } else {
        match first_series(results, k - 1) {
            Some(s) => Some(s),
            None => match results[k - 1].series {
                Some(series) => if series@.len() > 0 {
                    Some(series@[0])
                } else {
                    None
                },
                None => None,
            },
        }
    }
}

/// How a v1 answer is printed: with the columns of its first series and the
/// rows of all its series; with no series at all, the no-rows message.
pub open spec fn v1_text(output: OutputFormat, response: V1Response) -> Result<
    Seq<char>,
    QueryErrorModel,
> {
    match response.results {
        None => Ok(no_rows_text(output)),
        Some(results) => match first_series(results@, results@.len() as int) {
            None => Ok(no_rows_text(output)),
            Some(first) => records_text(
                output,
                strings_view(first.columns@),
                v1_rows(results@, results@.len() as int),
            ),
        },
    }
}

/// The texts of a row of JSON cells.
fn cell_texts(row: &Vec<JsonCell>) -> (r: Vec<String>)
    ensures
        strings_view(r@) == row_cells(row@),
{
    let mut r: Vec<String> = Vec::new();
    let mut i: usize = 0;
    while i < row.len()
        invariant
            i <= row.len(),
            strings_view(r@) =~= row_cells(row@).take(i as int),
        decreases row.len() - i,
    {
        let ghost before = r@;
        r.push(json_value_to_string(&row[i]));
        assert(strings_view(r@) =~= strings_view(before).push(cell_text(row@[i as int])));
        i = i + 1;
    }
    assert(strings_view(r@) =~= row_cells(row@));
    r
}

/// Appends the rows of a result's series to `rows`.
fn push_result_rows(rows: &mut Vec<Vec<String>>, series: &Vec<V1Series>)
    ensures
        rows_view(final(rows)@) == rows_view(old(rows)@) + series_rows(series@, series@.len() as int),
{
    let mut s: usize = 0;
    while s < series.len()
        invariant
            s <= series.len(),
            rows_view(rows@) == rows_view(old(rows)@) + series_rows(series@, s as int),
        decreases series.len() - s,
    {
        let ghost at_start = rows@;
        match &series[s].values {
            Some(values) => {
                let mut v: usize = 0;
                while v < values.len()
                    invariant
                        v <= values.len(),
                        rows_view(rows@) == rows_view(at_start) + values@.map_values(
                            |row: Vec<JsonCell>| row_cells(row@),
                        ).take(v as int),
                    decreases values.len() - v,
                {
                    let ghost before = rows@;
                    let texts = cell_texts(&values[v]);
                    rows.push(texts);
                    assert(rows_view(rows@) =~= rows_view(before).push(row_cells(values@[v as int]@)));
                    assert(values@.map_values(|row: Vec<JsonCell>| row_cells(row@)).take(v + 1)
                        =~= values@.map_values(|row: Vec<JsonCell>| row_cells(row@)).take(
                        v as int,
                    ).push(row_cells(values@[v as int]@)));
                    v = v + 1;
                }
                assert(values@.map_values(|row: Vec<JsonCell>| row_cells(row@)).take(
                    values.len() as int,
                ) =~= values@.map_values(|row: Vec<JsonCell>| row_cells(row@)));
            },
            None => {},
        }
        assert(rows_view(rows@) =~= rows_view(old(rows)@) + series_rows(series@, s + 1));
        s = s + 1;
    }
}

/// Prints a v1 answer: no results, or results without series, give the
/// no-rows message; otherwise the columns of the first series head the rows
/// of every series.
pub fn format_v1_response(output: OutputFormat, response: &V1Response) -> (r: Result<
    String,
    QueryError,
>)
    ensures
        text_result_view(r) == v1_text(output, *response),
{
    let results = match &response.results {
        Some(results) => results,
        None => {
            return Ok(no_rows_message(output));
        },
    };
    let mut columns: Option<&Vec<String>> = None;
    let mut rows: Vec<Vec<String>> = Vec::new();
    let mut k: usize = 0;
    while k < results.len()
        invariant
            k <= results.len(),
            rows_view(rows@) == v1_rows(results@, k as int),
            match first_series(results@, k as int) {
                Some(first) => columns == Some(&first.columns),
                None => columns is None,
            },
        decreases results.len() - k,
    {
        match &results[k].series {
            Some(series) => {
                if columns.is_none() && series.len() > 0 {
                    columns = Some(&series[0].columns);
                }
                push_result_rows(&mut rows, series);
            },
            None => {},
        }
        assert(rows_view(rows@) =~= v1_rows(results@, k + 1));
        k = k + 1;
    }
    match columns {
        None => Ok(no_rows_message(output)),
        Some(columns) => format_records(output, columns.as_slice(), rows.as_slice()),
    }
}

/// A line ended by a line feed loses one carriage return before it.
pub open spec fn drop_cr(line: Seq<char>) -> Seq<char> {
    if line.len() > 0 && line.last() == '\r' {
        line.drop_last()
    } else {
        line
    }
}

/// The lines of `rest`, the first of which starts with `current`: split at
/// `\n`, dropping a `\r` before it; a final line break ends no extra line
/// (`str::lines`).
pub open spec fn lines_from(current: Seq<char>, rest: Seq<char>) -> Seq<Seq<char>>
    decreases rest.len(),
{
    if rest.len() == 0 {
        if current.len() == 0 {
            seq![]
        } else {
            seq![current]
        }
    } else if rest[0] == '\n' {
        seq![drop_cr(current)] + lines_from(seq![], rest.drop_first())
    } else {
        lines_from(current.push(rest[0]), rest.drop_first())
    }
}

/// The lines of a text, as `str::lines` gives them.
pub open spec fn text_lines(s: Seq<char>) -> Seq<Seq<char>> {
    lines_from(seq![], s)
}

/// A comment line of an annotated CSV answer starts with `#`.
pub open spec fn is_comment(line: Seq<char>) -> bool {
    line.len() > 0 && line[0] == '#'
}

/// The lines among the first `k` that are not comments.
pub open spec fn kept_lines(lines: Seq<Seq<char>>, k: int) -> Seq<Seq<char>>
    decreases k,
{
    if k <= 0 {
        seq![]
    } else if is_comment(lines[k - 1]) {
        kept_lines(lines, k - 1)
    } else {
        kept_lines(lines, k - 1).push(lines[k - 1])
    }
}

/// A v2 answer without its comment lines, its other lines joined by `\n`.
pub open spec fn without_comments(body: Seq<char>) -> Seq<char> {
    let lines = text_lines(body);
    join(kept_lines(lines, lines.len() as int), seq!['\n'])
}

/// Splits a text into its lines.
fn split_lines(body: &str) -> (r: Vec<String>)
    ensures
        strings_view(r@) == text_lines(body@),
{
    let chars = collect_chars(body);
    let mut lines: Vec<String> = Vec::new();
    let mut current: Vec<char> = Vec::new();
    let mut i: usize = 0;
    assert(chars@.skip(0) =~= body@);
    while i < chars.len()
        invariant
            i <= chars.len(),
            chars@ == body@,
            text_lines(body@) == strings_view(lines@) + lines_from(current@, chars@.skip(i as int)),
        decreases chars.len() - i,
    {
        let c = chars[i];
        assert(chars@.skip(i as int).drop_first() =~= chars@.skip(i + 1));
        if c == '\n' {
            let mut end = current.len();
            if end > 0 && current[end - 1] == '\r' {
                end = end - 1;
            }
            let line = string_from_chars(&current, 0, end);
            let ghost ended = current@;
            assert(line@ =~= drop_cr(current@));
            let ghost before = lines@;
            lines.push(line);
            assert(strings_view(lines@) =~= strings_view(before).push(drop_cr(current@)));
            current = Vec::new();
            assert(strings_view(lines@) + lines_from(current@, chars@.skip(i + 1)) =~= strings_view(
                before,
            ) + (seq![drop_cr(ended)] + lines_from(seq![], chars@.skip(i + 1)))) by {
                assert(current@ =~= Seq::<char>::empty());
            }
        } else {
            current.push(c);
        }
        i = i + 1;
    }
    if current.len() > 0 {
        let line = string_from_chars(&current, 0, current.len());
        assert(line@ =~= current@);
        let ghost before = lines@;
        lines.push(line);
        assert(strings_view(lines@) =~= strings_view(before).push(current@));
    }
    assert(strings_view(lines@) =~= text_lines(body@));
    lines
}

/// A v2 answer without its comment lines (those starting with `#`), the other
/// lines joined by `\n`.
pub fn drop_comment_lines(body: &str) -> (r: String)
    ensures
        r@ == without_comments(body@),
{
    let lines = split_lines(body);
    let ghost all = strings_view(lines@);
    let mut kept: Vec<String> = Vec::new();
    let mut i: usize = 0;
    while i < lines.len()
        invariant
            i <= lines.len(),
            all == strings_view(lines@),
            strings_view(kept@) == kept_lines(all, i as int),
        decreases lines.len() - i,
    {
        let line = &lines[i];
        let chars = collect_chars(line.as_str());
        assert(all[i as int] == line@);
        if !(chars.len() > 0 && chars[0] == '#') {
            let ghost before = kept@;
            kept.push(line.as_str().to_owned());
            assert(strings_view(kept@) =~= strings_view(before).push(all[i as int]));
        }
        i = i + 1;
    }
    proof {
        reveal_strlit("\n");
        assert("\n"@ =~= seq!['\n']);
        assert(all == text_lines(body@));
    }
    join_strings(&kept, "\n")
}

/// What the `csv` crate reads from a text with a header row and default
/// settings: the header's fields and each record's fields, or the step at
/// which it fails and its message.
pub uninterp spec fn csv_read(text: Seq<char>) -> Result<
    (Seq<Seq<char>>, Seq<Seq<Seq<char>>>),
    (CsvStage, Seq<char>),
>;

/// A CSV read result with its texts as characters.
pub open spec fn table_result_view(r: Result<(Vec<String>, Vec<Vec<String>>), (CsvStage, String)>) -> Result<
    (Seq<Seq<char>>, Seq<Seq<Seq<char>>>),
    (CsvStage, Seq<char>),
> {
    match r {
        Ok((headers, rows)) => Ok((strings_view(headers@), rows_view(rows@))),
        Err((stage, m)) => Err((stage, m@)),
    }
}

/// Reads a text as CSV with a header row (`csv::ReaderBuilder` with
/// `has_headers(true)`, defaults otherwise): the header's fields, then each
/// record's fields. Trusted: the result is whatever the `csv` crate reads,
/// named `csv_read` of the text; a failure carries the step and the crate's
/// message. Nothing is claimed of the fields.
#[verifier::external_body]
fn read_csv(text: &str) -> (r: Result<(Vec<String>, Vec<Vec<String>>), (CsvStage, String)>)
    ensures
        table_result_view(r) == csv_read(text@),
{
    let mut reader = csv::ReaderBuilder::new().has_headers(true).from_reader(text.as_bytes());
    let headers: Vec<String> = match reader.headers() {
        Ok(h) => h.iter().map(|f| f.to_string()).collect(),
        Err(e) => return Err((CsvStage::ReadHeaders, e.to_string())),
    };
    let mut rows: Vec<Vec<String>> = Vec::new();
    for record in reader.records() {
        match record {
            Ok(r) => rows.push(r.iter().map(|f| f.to_string()).collect()),
            Err(e) => return Err((CsvStage::ReadRecord, e.to_string())),
        }
    }
    Ok((headers, rows))
}

/// How a v2 answer is printed: without its comment lines, a blank answer gives
/// the no-rows message; otherwise its CSV header and records are printed.
pub open spec fn v2_text(output: OutputFormat, body: Seq<char>) -> Result<Seq<char>, QueryErrorModel> {
    let cleaned = without_comments(body);
    if is_blank(cleaned) {
        Ok(no_rows_text(output))
    } else {
        match csv_read(cleaned) {
            Ok((headers, rows)) => records_text(output, headers, rows),
            Err((stage, m)) => Err(QueryErrorModel::Csv(stage, m)),
        }
    }
}

/// Prints a v2 (annotated CSV) answer.
pub fn format_v2_response(output: OutputFormat, body: &str) -> (r: Result<String, QueryError>)
    ensures
        text_result_view(r) == v2_text(output, body@),
{
    let cleaned = drop_comment_lines(body);
    if blank(cleaned.as_str()) {
        return Ok(no_rows_message(output));
    }
    match read_csv(cleaned.as_str()) {
        Ok((headers, rows)) => format_records(output, headers.as_slice(), rows.as_slice()),
        Err((stage, message)) => Err(QueryError::Csv(stage, message)),
    }
}

/// How an answer is printed: `raw` prints the body as it came; otherwise v1
/// prints the body as decoded into a v1 answer (or fails with the decoder's
/// message) and v2 prints the body's CSV.
pub open spec fn response_text(
    options: QueryOptions,
    body: Seq<char>,
    v1_response: Result<V1Response, String>,
) -> Result<Seq<char>, QueryErrorModel> {
    match options.output {
        OutputFormat::Raw => Ok(body),
        _ => match options.api_version {
            ApiVersion::V1 => match v1_response {
                Ok(response) => v1_text(options.output, response),
                Err(m) => Err(QueryErrorModel::V1Json(m@)),
            },
            ApiVersion::V2 => v2_text(options.output, body),
        },
    }
}

/// Prints an answer in the requested format. `v1_response` is the body
/// decoded as a v1 JSON answer, or the decoder's message where it is not one;
/// only a v1 query that is not printed raw consults it.
pub fn format_response(
    options: &QueryOptions,
    body: &str,
    v1_response: &Result<V1Response, String>,
) -> (r: Result<String, QueryError>)
    ensures
        text_result_view(r) == response_text(*options, body@, *v1_response),
{
    match options.output {
        OutputFormat::Raw => Ok(body.to_owned()),
        _ => match options.api_version {
            ApiVersion::V1 => match v1_response {
                Ok(response) => format_v1_response(options.output, response),
                Err(message) => Err(QueryError::V1Json(message.as_str().to_owned())),
            },
            ApiVersion::V2 => format_v2_response(options.output, body),
        },
    }
}

/// An answer without rows is not silent in a table or in JSON: a v1 answer
/// with no series, or a v2 answer with nothing but comments and white space,
/// prints a non-empty message.
pub proof fn empty_answers_are_not_silent(output: OutputFormat, response: V1Response, body: Seq<char>)
    requires
        output == OutputFormat::Table || output == OutputFormat::Json,
    ensures
        (response.results is None || first_series(
            response.results->Some_0@,
            response.results->Some_0@.len() as int,
        ) is None) ==> v1_text(output, response) == Ok::<Seq<char>, QueryErrorModel>(
            no_rows_text(output),
        ) && no_rows_text(output).len() > 0,
        is_blank(without_comments(body)) ==> v2_text(output, body) == Ok::<
            Seq<char>,
            QueryErrorModel,
        >(no_rows_text(output)) && no_rows_text(output).len() > 0,
{
    reveal_strlit("[]");
    reveal_strlit("(no rows)");
}

/// No comment line survives: every line kept from a v2 answer is one of its
/// lines that does not start with `#`.
pub proof fn comment_lines_are_dropped(body: Seq<char>)
    ensures
        ({
            let lines = text_lines(body);
            let kept = kept_lines(lines, lines.len() as int);
            forall|i: int|
                0 <= i < kept.len() ==> !is_comment(#[trigger] kept[i]) && lines.contains(kept[i])
        }),
{
    let lines = text_lines(body);
    kept_lines_are_kept(lines, lines.len() as int);
}

proof fn kept_lines_are_kept(lines: Seq<Seq<char>>, k: int)
    requires
        0 <= k <= lines.len(),
    ensures
        forall|i: int|
            0 <= i < kept_lines(lines, k).len() ==> !is_comment(#[trigger] kept_lines(lines, k)[i])
                && lines.contains(kept_lines(lines, k)[i]),
    decreases k,
{
    if k > 0 {
        kept_lines_are_kept(lines, k - 1);
        let kept = kept_lines(lines, k);
        assert forall|i: int| 0 <= i < kept.len() implies !is_comment(#[trigger] kept[i])
            && lines.contains(kept[i]) by {
            if !is_comment(lines[k - 1]) && i == kept.len() - 1 {
                assert(kept[i] == lines[k - 1]);
            } else {
                assert(kept[i] == kept_lines(lines, k - 1)[i]);
            }
        }
    }
}

/// Raw output prints the body exactly as it came, whatever the API version
/// and whatever the body decodes to.
pub proof fn raw_output_is_the_body(
    options: QueryOptions,
    body: Seq<char>,
    v1_response: Result<V1Response, String>,
)
    requires
        options.output == OutputFormat::Raw,
    ensures
        response_text(options, body, v1_response) == Ok::<Seq<char>, QueryErrorModel>(body),
{
}

/// A row's JSON object is built from one pair per column that the row reaches,
/// in order, whatever the cell holds (an empty cell included).
pub proof fn json_objects_pair_every_reached_column(
    columns: Seq<Seq<char>>,
    rows: Seq<Seq<Seq<char>>>,
)
    ensures
        forall|k: int|
            0 <= k < rows.len() ==> (#[trigger] zip_row(columns, rows[k])).len() == if columns.len()
                < rows[k].len() {
                columns.len()
            } else {
                rows[k].len()
            },
        forall|k: int, i: int|
            0 <= k < rows.len() && 0 <= i < zip_row(columns, rows[k]).len() ==> #[trigger] zip_row(
                columns,
                rows[k],
            )[i] == (columns[i], rows[k][i]),
        records_text(OutputFormat::Json, columns, rows) == Ok::<Seq<char>, QueryErrorModel>(
            json_pretty_list(
                Seq::new(
                    rows.len(),
                    |k: int|
                        Seq::new(
                            if columns.len() < rows[k].len() {
                                columns.len()
                            } else {
                                rows[k].len()
                            },
                            |i: int| (columns[i], rows[k][i]),
                        ),
                ),
            ),
        ),
{
    let objects = Seq::new(
        rows.len(),
        |k: int|
            Seq::new(
                if columns.len() < rows[k].len() {
                    columns.len()
                } else {
                    rows[k].len()
                },
                |i: int| (columns[i], rows[k][i]),
            ),
    );
    assert(zip_rows(columns, rows) =~= objects);
}

/// A result with at least one series.
pub open spec fn has_series(r: V1Result) -> bool {
    r.series is Some && r.series->Some_0@.len() > 0
}

/// The first series of a v1 answer is the first series of the first result
/// that has one: every result before it has none.
pub proof fn first_series_is_the_earliest(results: Seq<V1Result>, k: int)
    requires
        0 <= k <= results.len(),
    ensures
        first_series(results, k) is Some ==> exists|j: int|
            0 <= j < k && #[trigger] has_series(results[j]) && results[j].series->Some_0@[0]
                == first_series(results, k)->Some_0 && forall|i: int|
                0 <= i < j ==> !#[trigger] has_series(results[i]),
        first_series(results, k) is None ==> forall|i: int|
            0 <= i < k ==> !#[trigger] has_series(results[i]),
    decreases k,
{
    if k > 0 {
        first_series_is_the_earliest(results, k - 1);
        if first_series(results, k - 1) is None && first_series(results, k) is Some {
            assert(has_series(results[k - 1]));
        }
    }
}

} // verus!
