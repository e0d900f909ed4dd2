use crate::models::data_types::{records_model, DataRecord, RecordModel};
use crate::transformers::values::{render_value, value_text};
use crate::utils::csv_text::{
    csv_bytes_of, finish_rows, new_row_writer, rows_intact, write_row, writer_dialect,
    written_rows,
};
use crate::utils::error::{EtlError, Result};
use crate::utils::text::texts_of;
use vstd::prelude::*;
use vstd::string::StringExecFns;

verus! {

/// Writes records as delimited text.
pub struct CsvWriter {
    delimiter: u8,
    quote: u8,
    write_headers: bool,
}

/// The text of a record's cell under a header: the text of the value of
/// the field of that name, and nothing where the record has no such field
/// or the value has no text.
pub open spec fn cell_text(record: RecordModel, header: Seq<char>) -> Seq<char> {
    if record.contains_key(header) {
        match value_text(record[header]) {
            Some(text) => text,
            None => Seq::empty(),
        }
    } else {
        Seq::empty()
    }
}

/// The row of a record: one cell for each header, in the order of the
/// headers. The headers alone decide how wide the row is.
pub open spec fn record_row(record: RecordModel, headers: Seq<Seq<char>>) -> Seq<Seq<char>> {
    Seq::new(headers.len(), |i: int| cell_text(record, headers[i]))
}

/// The rows of the records, in order.
pub open spec fn record_rows(records: Seq<RecordModel>, headers: Seq<Seq<char>>) -> Seq<
    Seq<Seq<char>>,
> {
    Seq::new(records.len(), |i: int| record_row(records[i], headers))
}

/// The rows of a table: the headers, where they are written, then the row
/// of each record.
pub open spec fn table_rows(
    records: Seq<RecordModel>,
    headers: Seq<Seq<char>>,
    with_headers: bool,
) -> Seq<Seq<Seq<char>>> {
    if with_headers {
        seq![headers] + record_rows(records, headers)
    } else {
        record_rows(records, headers)
    }
}

impl CsvWriter {
    /// The byte that separates the fields of a row.
    pub closed spec fn delimiter_byte(&self) -> u8 {
        self.delimiter
    }

    /// The byte that encloses a field which needs quoting.
    pub closed spec fn quote_byte(&self) -> u8 {
        self.quote
    }

    /// Whether the headers are written as the first row.
    pub closed spec fn writes_headers(&self) -> bool {
        self.write_headers
    }

    /// A writer that separates fields with the given byte, quotes with `"`
    /// and writes the headers as the first row.
    pub fn new(delimiter: u8) -> (r: Self)
        ensures
            r.delimiter_byte() == delimiter,
            r.quote_byte() == 34,
            r.writes_headers(),
    {
        CsvWriter { delimiter, quote: 34, write_headers: true }
    }

    /// A writer with the given delimiter and quote, which writes the
    /// headers as the first row where `write_headers` says so.
    pub fn with_options(delimiter: u8, quote: u8, write_headers: bool) -> (r: Self)
        ensures
            r.delimiter_byte() == delimiter,
            r.quote_byte() == quote,
            r.writes_headers() == write_headers,
    {
        CsvWriter { delimiter, quote, write_headers }
    }

    /// The row of a record under the headers.
    pub fn row_of(&self, record: &DataRecord, headers: &[String]) -> (r: Vec<String>)
        ensures
            texts_of(r@) == record_row(record@, texts_of(headers@)),
    {
        let mut row: Vec<String> = Vec::new();
        let mut i: usize = 0;
        while i < headers.len()
            invariant
                i <= headers.len(),
                row.len() == i,
                forall|k: int|
                    0 <= k < i ==> (#[trigger] row[k])@ == cell_text(record@, headers[k]@),
            decreases headers.len() - i,
        {
            let cell: String = match record.get(headers[i].as_str()) {
                Some(value) => match render_value(value) {
                    Some(text) => text,
                    None => String::new(),
                },
                None => String::new(),
            };
            assert(cell@ =~= cell_text(record@, headers[i as int]@));
            row.push(cell);
            i += 1;
        }
        assert(texts_of(row@) =~= record_row(record@, texts_of(headers@)));
        row
    }

    /// Writes the headers, where the writer writes them, and then one row
    /// for each record, and returns the bytes of the text. A record that
    /// lacks a field gets an empty cell there. Every row is as wide as the
    /// headers, so no row is refused, and a text in memory ends well: the
    /// call succeeds on every input, and the bytes are what the writer
    /// gives for exactly these rows.
    pub fn write_records(&self, records: &[DataRecord], headers: &[String]) -> (r: Result<Vec<u8>>)
        ensures
            r matches Ok(written) && written@ == csv_bytes_of(
                table_rows(records_model(records@), texts_of(headers@), self.writes_headers()),
                (self.delimiter_byte(), self.quote_byte()),
            ),
    {
        let ghost names = texts_of(headers@);
        let ghost data = record_rows(records_model(records@), names);
        let ghost lead: Seq<Seq<Seq<char>>> = if self.write_headers {
            seq![names]
        } else {
            Seq::empty()
        };
        let mut writer = new_row_writer(self.delimiter, self.quote);
        assert(written_rows(writer) =~= Seq::empty());
        if self.write_headers {
            let mut header_row: Vec<String> = Vec::new();
            let mut h: usize = 0;
            while h < headers.len()
                invariant
                    h <= headers.len(),
                    header_row.len() == h,
                    forall|k: int| 0 <= k < h ==> (#[trigger] header_row[k])@ == headers[k]@,
                decreases headers.len() - h,
            {
                header_row.push(headers[h].clone());
                h += 1;
            }
            assert(texts_of(header_row@) =~= names);
            match write_row(&mut writer, &header_row) {
                Ok(()) => {},
                Err(e) => {
                    return Err(EtlError::CsvError(e));
                },
            }
        }
        assert(written_rows(writer) =~= lead + data.take(0));
        let ghost width = headers@.len();
        let mut i: usize = 0;
        while i < records.len()
            invariant
                i <= records.len(),
                names == texts_of(headers@),
                data == record_rows(records_model(records@), names),
                writer_dialect(writer) == (self.delimiter_byte(), self.quote_byte()),
                written_rows(writer) == lead + data.take(i as int),
                rows_intact(writer),
                width == headers@.len(),
                lead.len() > 0 ==> lead[0].len() == width,
            decreases records.len() - i,
        {
            let row = self.row_of(&records[i], headers);
            proof {
                let held = lead + data.take(i as int);
                assert(texts_of(row@).len() == row@.len());
                if held.len() > 0 {
                    if lead.len() > 0 {
                        assert(held[0] == lead[0]);
                    } else {
                        assert(held[0] == data[0]);
                    }
                    assert(held[0].len() == width);
                }
            }
            match write_row(&mut writer, &row) {
                Ok(()) => {},
                Err(e) => {
                    return Err(EtlError::CsvError(e));
                },
            }
            assert((lead + data.take(i as int)).push(texts_of(row@)) =~= lead + data.take(i + 1));
            i += 1;
        }
        assert(data.take(records.len() as int) =~= data);
        match finish_rows(writer) {
            Ok(bytes) => Ok(bytes),
            Err(e) => Err(EtlError::IoError(e)),
        }
    }
}

} // verus!
