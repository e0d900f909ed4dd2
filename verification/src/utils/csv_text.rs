use crate::utils::text::texts_of;
use vstd::prelude::*;

verus! {

/// `std::io::Cursor`, which lets a reader or writer work on bytes in memory.
#[verifier::external_type_specification]
#[verifier::external_body]
#[verifier::reject_recursive_types(T)]
pub struct ExCursor<T>(std::io::Cursor<T>);

/// `csv::Reader`, a parser of delimited text that hands out one row at a time.
#[verifier::external_type_specification]
#[verifier::external_body]
#[verifier::reject_recursive_types(R)]
pub struct ExCsvReader<R>(csv::Reader<R>);

/// The header row that `csv::Reader::headers` reports for a text read with
/// the given delimiter and header setting, or nothing where it reports an
/// error.
pub uninterp spec fn csv_header_of(data: Seq<u8>, delimiter: u8, has_headers: bool) -> Option<
    Seq<Seq<char>>,
>;

/// What the iterator of `csv::Reader::records` yields for a text read with
/// the given delimiter and header setting, in order: each row's fields, or
/// nothing in the place of a row for which it yields an error.
pub uninterp spec fn csv_rows_of(data: Seq<u8>, delimiter: u8, has_headers: bool) -> Seq<
    Option<Seq<Seq<char>>>,
>;

/// The header row that a reader reports.
pub uninterp spec fn reader_header(reader: csv::Reader<std::io::Cursor<Vec<u8>>>) -> Option<
    Seq<Seq<char>>,
>;

/// The rows that a reader has not handed out yet.
pub uninterp spec fn reader_rows(reader: csv::Reader<std::io::Cursor<Vec<u8>>>) -> Seq<
    Option<Seq<Seq<char>>>,
>;

/// Builds a reader with `csv::ReaderBuilder`: `delimiter`, `has_headers`,
/// then `from_reader` on the bytes. Every other setting keeps the builder's
/// default. Nothing is parsed yet; what the reader will report is a function
/// of the bytes and the two settings.
#[verifier::external_body]
pub(crate) fn open_reader(data: Vec<u8>, delimiter: u8, has_headers: bool) -> (r: csv::Reader<
    std::io::Cursor<Vec<u8>>,
>)
    ensures
        reader_header(r) == csv_header_of(data@, delimiter, has_headers),
        reader_rows(r) == csv_rows_of(data@, delimiter, has_headers),
{
    csv::ReaderBuilder::new().delimiter(delimiter).has_headers(has_headers).from_reader(
        std::io::Cursor::new(data),
    )
}

/// Calls `csv::Reader::headers` and copies the fields out. The call does not
/// change which rows the reader still has to hand out.
#[verifier::external_body]
pub(crate) fn read_header(reader: &mut csv::Reader<std::io::Cursor<Vec<u8>>>) -> (r: Result<
    Vec<String>,
    csv::Error,
>)
    ensures
        reader_header(*final(reader)) == reader_header(*old(reader)),
        reader_rows(*final(reader)) == reader_rows(*old(reader)),
        match r {
            Ok(row) => reader_header(*old(reader)) == Some(texts_of(row@)),
            Err(_) => reader_header(*old(reader)) is None,
        },
{
    reader.headers().map(|h| h.iter().map(String::from).collect())
}

/// Takes the next item of `csv::Reader::records` and copies its fields out.
/// The reader hands its rows out in order, one for each call, and ends.
#[verifier::external_body]
pub(crate) fn read_row(reader: &mut csv::Reader<std::io::Cursor<Vec<u8>>>) -> (r: Option<
    Result<Vec<String>, csv::Error>,
>)
    ensures
        reader_header(*final(reader)) == reader_header(*old(reader)),
        match r {
            None => reader_rows(*old(reader)).len() == 0 && reader_rows(*final(reader)).len() == 0,
            Some(item) => {
                &&& reader_rows(*old(reader)).len() > 0
                &&& reader_rows(*final(reader)) == reader_rows(*old(reader)).drop_first()
                &&& match item {
                    Ok(row) => reader_rows(*old(reader))[0] == Some(texts_of(row@)),
                    Err(_) => reader_rows(*old(reader))[0] is None,
                }
            },
        },
{
    reader.records().next().map(|item| item.map(|row| row.iter().map(String::from).collect()))
}

/// A delimited text that is being written into memory with `csv::Writer`.
#[verifier::external_body]
pub struct RowWriter {
    inner: csv::Writer<Vec<u8>>,
}

/// The rows that a writer has accepted so far, in order. It speaks of a
/// writer that has refused no row; of any other nothing is said.
pub uninterp spec fn written_rows(writer: RowWriter) -> Seq<Seq<Seq<char>>>;

/// Whether a writer has accepted every row that was handed to it.
pub uninterp spec fn rows_intact(writer: RowWriter) -> bool;

/// The delimiter and the quote character that a writer was made with.
pub uninterp spec fn writer_dialect(writer: RowWriter) -> (u8, u8);

/// The bytes that `csv::Writer` gives for these rows, written with this
/// delimiter and this quote character.
pub uninterp spec fn csv_bytes_of(rows: Seq<Seq<Seq<char>>>, dialect: (u8, u8)) -> Seq<u8>;

/// Whether a writer that holds these rows refuses a row of so many fields:
/// it refuses the row whose number of fields is not that of the first row.
pub open spec fn row_refused(rows: Seq<Seq<Seq<char>>>, fields: nat) -> bool {
    rows.len() > 0 && rows[0].len() != fields
}

/// Builds a writer with `csv::WriterBuilder`: `delimiter`, `quote`, then
/// `from_writer` on an empty buffer. Every other setting keeps the
/// builder's default.
#[verifier::external_body]
pub(crate) fn new_row_writer(delimiter: u8, quote: u8) -> (w: RowWriter)
    ensures
        written_rows(w).len() == 0,
        rows_intact(w),
        writer_dialect(w) == (delimiter, quote),
{
    RowWriter {
        inner: csv::WriterBuilder::new().delimiter(delimiter).quote(quote).from_writer(Vec::new()),
    }
}

/// Calls `csv::Writer::write_record` with the fields of a row. A writer
/// into memory that has accepted every row so far refuses a row exactly
/// where its number of fields is not that of the first row; a row that it
/// accepts is one row more.
#[verifier::external_body]
pub(crate) fn write_row(writer: &mut RowWriter, row: &Vec<String>) -> (r: Result<(), csv::Error>)
    ensures
        writer_dialect(*final(writer)) == writer_dialect(*old(writer)),
        rows_intact(*old(writer)) ==> (r is Err <==> row_refused(
            written_rows(*old(writer)),
            row@.len(),
        )),
        rows_intact(*old(writer)) && r is Ok ==> (rows_intact(*final(writer)) && written_rows(
            *final(writer),
        ) == written_rows(*old(writer)).push(texts_of(row@))),
{
    writer.inner.write_record(row)
}

/// Calls `csv::Writer::into_inner`, which writes out what is still buffered
/// and hands the bytes over. The one failure that it passes on is that of
/// the buffer it writes into, and this one is a `Vec`, to which a write
/// appends: a writer that has accepted every row ends well, with the bytes
/// of its rows.
#[verifier::external_body]
pub(crate) fn finish_rows(writer: RowWriter) -> (r: Result<Vec<u8>, std::io::Error>)
    ensures
        rows_intact(writer) ==> r is Ok,
        r matches Ok(bytes) ==> (rows_intact(writer) ==> bytes@ == csv_bytes_of(
            written_rows(writer),
            writer_dialect(writer),
        )),
{
    writer.inner.into_inner().map_err(|e| e.into_error())
}

} // verus!
