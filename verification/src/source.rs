//! The snapshot extractor: reads the rows of a delimited source, keeps the last one and
//! renders it. The rows are parsed by the `csv` crate.

use vstd::prelude::*;
use crate::config::{delimiter_of, Config, Style};
use crate::format::{format_record, snapshot, texts};

verus! {

/// `csv::Reader`, the reader of delimited records. Nothing inside it is visible here;
/// what it will give is spoken of through [`pending_rows`] and [`first_row`].
#[verifier::external_type_specification]
#[verifier::external_body]
#[verifier::reject_recursive_types(R)]
pub struct ExReader<R>(csv::Reader<R>);

/// `csv::Error`, the error of a read. It is only told from a success.
#[verifier::external_type_specification]
#[verifier::external_body]
pub struct ExError(csv::Error);

/// The rows that a `csv` reader with its default settings, but for the delimiter and
/// the header flag, reads from `data`: in order, each as the texts of its fields, or
/// `None` where the reader reports an error in place of the row (the row is not valid
/// UTF-8, or has another number of fields than the first row of the data). With the
/// header flag set the first row of the data is not among them.
pub uninterp spec fn csv_rows(data: Seq<u8>, delimiter: u8, has_headers: bool) -> Seq<
    Option<Seq<Seq<char>>>,
>;

/// The first row that a `csv` reader finds in `data`, whatever the header flag says:
/// the texts of its fields (none for data without a row), or `None` where it is not
/// valid UTF-8.
pub uninterp spec fn csv_header(data: Seq<u8>, delimiter: u8) -> Option<Seq<Seq<char>>>;

/// The rows that a reader has yet to hand out, first to come first.
pub uninterp spec fn pending_rows(rdr: csv::Reader<&[u8]>) -> Seq<Option<Seq<Seq<char>>>>;

/// The first row of the data that a reader was opened on.
pub uninterp spec fn first_row(rdr: csv::Reader<&[u8]>) -> Option<Seq<Seq<char>>>;

/// Why no snapshot could be made of a source.
#[derive(Debug, Clone, Copy, PartialEq, Eq, Structural)]
pub enum ExtractionError {
    /// The source could not be read.
    SourceUnavailable,
    /// A row of the source could not be parsed.
    MalformedRecord,
    /// There are rows, but the header row could not be parsed.
    MalformedHeader,
}

/// What a read gave, with the reader's error forgotten.
pub open spec fn outcome(row: Result<Vec<String>, csv::Error>) -> Option<Seq<Seq<char>>> {
    match row {
        Ok(fields) => Some(texts(fields@)),
        Err(_) => None,
    }
}

/// The text of an extraction's result.
pub open spec fn text_of(r: Result<String, ExtractionError>) -> Result<Seq<char>, ExtractionError> {
    match r {
        Ok(s) => Ok(s@),
        Err(e) => Err(e),
    }
}

/// Some row could not be parsed.
pub open spec fn has_malformed(rows: Seq<Option<Seq<Seq<char>>>>) -> bool {
    exists|i: int| 0 <= i < rows.len() && #[trigger] rows[i] is None
}

/// The snapshot of a parsed source. It fails where a row is malformed; it is empty
/// where there is no row; otherwise it is the rendering of the last row under the
/// header, and fails where the header is malformed.
pub open spec fn extraction(
    header: Option<Seq<Seq<char>>>,
    rows: Seq<Option<Seq<Seq<char>>>>,
    style: Style,
) -> Result<Seq<char>, ExtractionError> {
    if has_malformed(rows) {
        Err(ExtractionError::MalformedRecord)
    } else if rows.len() == 0 {
        Ok(Seq::empty())
    } else {
        match header {
            None => Err(ExtractionError::MalformedHeader),
            Some(names) => Ok(snapshot(names, rows.last().unwrap(), style)),
        }
    }
}

/// The snapshot of the bytes of a source under a configuration.
pub open spec fn extraction_from(data: Seq<u8>, cfg: Config) -> Result<
    Seq<char>,
    ExtractionError,
> {
    let delimiter = delimiter_of(cfg.input.delimiter);
    extraction(
        csv_header(data, delimiter),
        csv_rows(data, delimiter, cfg.input.has_headers),
        cfg.output.style(),
    )
}

/// The bytes of a source that was read, if it was.
pub open spec fn bytes_of(source: Option<&[u8]>) -> Option<Seq<u8>> {
    match source {
        Some(data) => Some(data@),
        None => None,
    }
}

/// The snapshot of a source that may not have been readable.
pub open spec fn attempt(source: Option<Seq<u8>>, cfg: Config) -> Result<
    Seq<char>,
    ExtractionError,
> {
    match source {
        None => Err(ExtractionError::SourceUnavailable),
        Some(data) => extraction_from(data, cfg),
    }
}

/// Calls `csv::ReaderBuilder::new`, `has_headers`, `delimiter` and `from_reader`: a
/// reader over `data` that is otherwise configured by default. The rows and the first
/// row that it will give are those that the crate finds in the data.
#[verifier::external_body]
fn open_reader<'a>(data: &'a [u8], delimiter: u8, has_headers: bool) -> (rdr: csv::Reader<
    &'a [u8],
>)
    ensures
        pending_rows(rdr) == csv_rows(data@, delimiter, has_headers),
        first_row(rdr) == csv_header(data@, delimiter),
{
    csv::ReaderBuilder::new().has_headers(has_headers).delimiter(delimiter).from_reader(data)
}

/// Calls `next` on `csv::Reader::records`: hands out the first of the pending rows, its
/// fields copied into strings, or the error that the reader reports in its place;
/// `None` once no row is pending. A slice holds finitely many rows and the first row
/// stays what it was.
#[verifier::external_body]
fn next_record<'a>(rdr: &mut csv::Reader<&'a [u8]>) -> (r: Option<
    Result<Vec<String>, csv::Error>,
>)
    ensures
        first_row(*final(rdr)) == first_row(*old(rdr)),
        match r {
            None => pending_rows(*old(rdr)).len() == 0 && pending_rows(*final(rdr)).len() == 0,
            Some(row) => pending_rows(*old(rdr)).len() > 0 && outcome(row) == pending_rows(
                *old(rdr),
            )[0] && pending_rows(*final(rdr)) == pending_rows(*old(rdr)).skip(1),
        },
{
    rdr.records().next().map(|row| row.map(|record| record.iter().map(String::from).collect()))
}

/// Calls `csv::Reader::headers`: the first row of the data, its fields copied into
/// strings, or the error that the reader reports where that row is not valid UTF-8.
/// What is pending is not changed by it.
#[verifier::external_body]
fn header_record<'a>(rdr: &mut csv::Reader<&'a [u8]>) -> (r: Result<Vec<String>, csv::Error>)
    ensures
        outcome(r) == first_row(*old(rdr)),
        first_row(*final(rdr)) == first_row(*old(rdr)),
        pending_rows(*final(rdr)) == pending_rows(*old(rdr)),
{
    rdr.headers().map(|record| record.iter().map(String::from).collect())
}

/// Converts the bytes of a delimited source into metrics text.
///
/// Every row is read and only the last one is kept. Its values are paired with the
/// names of the first row and rendered.
pub fn parse_input(source: &[u8], cfg: &Config) -> (r: Result<String, ExtractionError>)
    ensures
        text_of(r) == extraction_from(source@, *cfg),
{
    let delimiter = cfg.input.delimiter_byte();
    let mut rdr = open_reader(source, delimiter, cfg.input.has_headers);
    let ghost rows = pending_rows(rdr);
    let ghost header = first_row(rdr);
    let ghost mut seen: int = 0;
    let mut last: Option<Vec<String>> = None;
    loop
        invariant_except_break
            0 <= seen <= rows.len(),
            pending_rows(rdr) == rows.skip(seen),
        invariant
            rows == csv_rows(source@, delimiter, cfg.input.has_headers),
            delimiter == delimiter_of(cfg.input.delimiter),
            first_row(rdr) == header,
            forall|i: int| 0 <= i < seen ==> #[trigger] rows[i] is Some,
            seen == 0 ==> last is None,
            seen > 0 ==> last is Some && rows[seen - 1] == Some(texts(last.unwrap()@)),
        ensures
            seen == rows.len(),
        decreases rows.len() - seen,
    {
        match next_record(&mut rdr) {
            None => {
                break ;
            },
            Some(Err(_)) => {
                assert(rows[seen] is None);
                return Err(ExtractionError::MalformedRecord);
            },
            Some(Ok(row)) => {
                assert(rows.skip(seen)[0] == rows[seen]);
                assert(rows.skip(seen).skip(1) == rows.skip(seen + 1));
                last = Some(row);
                proof {
                    seen = seen + 1;
                }
            },
        }
    }
    match last {
        None => Ok(String::new()),
        Some(values) => {
            match header_record(&mut rdr) {
                Err(_) => Err(ExtractionError::MalformedHeader),
                Ok(names) => Ok(format_record(&names, &values, &cfg.output)),
            }
        },
    }
}

/// Makes the snapshot of a source from what could be read of it: `None` stands for a
/// source that could not be opened or read.
pub fn extract(source: Option<&[u8]>, cfg: &Config) -> (r: Result<String, ExtractionError>)
    ensures
        text_of(r) == attempt(bytes_of(source), *cfg),
{
    match source {
        None => Err(ExtractionError::SourceUnavailable),
        Some(data) => parse_input(data, cfg),
    }
}

/// Only the last row counts: where the rows so far are well formed, the snapshot after
/// one more row is that of a source which holds this row alone. It is the rendering of
/// the new row under the header, with nothing of the rows before it.
pub proof fn lemma_last_row_wins(
    header: Option<Seq<Seq<char>>>,
    rows: Seq<Option<Seq<Seq<char>>>>,
    row: Seq<Seq<char>>,
    style: Style,
)
    requires
        !has_malformed(rows),
    ensures
        extraction(header, rows.push(Some(row)), style) == extraction(
            header,
            seq![Some(row)],
            style,
        ),
        extraction(header, rows.push(Some(row)), style) == match header {
            Some(names) => Ok(snapshot(names, row, style)),
            None => Err(ExtractionError::MalformedHeader),
        },
{
    let longer = rows.push(Some(row));
    let alone = seq![Some(row)];
    assert forall|i: int| 0 <= i < longer.len() implies #[trigger] longer[i] is Some by {
        if i < rows.len() {
            assert(rows[i] is Some);
        }
    }
    assert forall|i: int| 0 <= i < alone.len() implies #[trigger] alone[i] is Some by {}
    assert(longer.last() == Some(row));
    assert(alone.last() == Some(row));
}

/// A source without rows gives the empty snapshot, whatever its header is.
pub proof fn lemma_no_rows_no_text(header: Option<Seq<Seq<char>>>, style: Style)
    ensures
        extraction(header, Seq::empty(), style) == Ok::<Seq<char>, ExtractionError>(Seq::empty()),
{
}

/// One malformed row fails the whole extraction, wherever it stands.
pub proof fn lemma_malformed_row_fails(
    header: Option<Seq<Seq<char>>>,
    rows: Seq<Option<Seq<Seq<char>>>>,
    style: Style,
    i: int,
)
    requires
        0 <= i < rows.len(),
        rows[i] is None,
    ensures
        extraction(header, rows, style) == Err::<Seq<char>, ExtractionError>(
            ExtractionError::MalformedRecord,
        ),
{
}

} // verus!
