use crate::config::settings::FileFormat;
use crate::models::data_types::{
    lemma_fields_map_model, pairs_map, records_model, DataRecord, RecordModel,
};
use crate::models::json::{
    float_number_of, integer_number, json_text_value, lemma_items_model, parse_float_number,
    parse_json_text, JsonModel, JsonNumber, JsonNumberModel, JsonValue,
};
use crate::utils::csv_text::{
    csv_header_of, csv_rows_of, open_reader, read_header, read_row, reader_rows,
};
use crate::utils::error::{EtlError, Result};
use crate::utils::text::{
    chars_of, decimal_digits, decimal_text, has_prefix, has_suffix, lowercase_of, parse_i64,
    parse_i64_spec, text_concat, text_ends_with, text_eq, texts_of, to_lowercase, utf8_text,
};
use crate::utils::zip_bytes::{
    archive_entries, archive_len, entry_bytes, entry_name, open_archive, zip_entries_of,
    EntryModel,
};
use vstd::prelude::*;
use vstd::string::StringExecFns;

verus! {

/// Decodes the bytes of files into records.
pub struct FileReader {
    encoding: String,
}

/// Whether `pattern` has a `*` at `i` and nowhere else.
pub open spec fn is_only_star(pattern: Seq<char>, i: int) -> bool {
    &&& 0 <= i < pattern.len()
    &&& pattern[i] == '*'
    &&& forall|j: int| 0 <= j < pattern.len() && j != i ==> pattern[j] != '*'
}

/// Whether a file name matches a pattern. A pattern without `*` matches the
/// name equal to it. A pattern with one `*` matches the names that are what
/// stands before the `*`, then anything, then what stands after it: such a
/// name is at least as long as the two together. A pattern with more than
/// one `*` matches nothing.
pub open spec fn pattern_matches(filename: Seq<char>, pattern: Seq<char>) -> bool {
    if forall|j: int| 0 <= j < pattern.len() ==> pattern[j] != '*' {
        filename == pattern
    } else {
        exists|i: int|
            #![trigger pattern.take(i)]
            is_only_star(pattern, i) && filename.len() >= pattern.len() - 1 && pattern.take(
                i,
            ).is_prefix_of(filename) && pattern.skip(i + 1).is_suffix_of(filename)
    }
}

/// Whether a lower-cased word is one of those that mean true.
pub open spec fn is_true_word(word: Seq<char>) -> bool {
    word == "true"@ || word == "yes"@ || word == "1"@
}

/// Whether a lower-cased word is one of those that mean false.
pub open spec fn is_false_word(word: Seq<char>) -> bool {
    word == "false"@ || word == "no"@ || word == "0"@
}

/// The typed value of a field of delimited text, given what reading it as a
/// floating-point number gave and its lower-cased form: an integer where the
/// field writes one that fits 64 bits, else that number, else a boolean
/// where the lower-cased form is a word for one, else the field as a string.
pub open spec fn field_value(
    field: Seq<char>,
    float: Option<JsonNumberModel>,
    lowered: Seq<char>,
) -> JsonModel {
    match parse_i64_spec(field) {
        Some(i) => JsonModel::Number(integer_number(i as int)),
        None => match float {
            Some(n) => JsonModel::Number(n),
            None => if is_true_word(lowered) {
                JsonModel::Bool(true)
            } else if is_false_word(lowered) {
                JsonModel::Bool(false)
            } else {
                JsonModel::String(field)
            },
        },
    }
}

/// The typed value of a field of delimited text.
pub open spec fn csv_field_value(field: Seq<char>) -> JsonModel {
    field_value(field, float_number_of(field), lowercase_of(field))
}

/// The mathematical value of a number that may be absent.
pub open spec fn number_model(number: Option<JsonNumber>) -> Option<JsonNumberModel> {
    match number {
        Some(n) => Some(n@),
        None => None,
    }
}

/// The record that a JSON value at place `index` of its document stands for:
/// an object gives its own fields, any other value a record of the value,
/// under `value`, and its place, under `_index`.
pub open spec fn record_of_json(json: JsonModel, index: int) -> RecordModel {
    match json {
        JsonModel::Object(pairs) => pairs_map(pairs),
        _ => Map::<Seq<char>, JsonModel>::empty().insert("value"@, json).insert(
            "_index"@,
            JsonModel::Number(integer_number(index)),
        ),
    }
}

/// The records that a JSON document stands for: an array gives one record
/// for each element, an object a single record, and any other value none.
pub open spec fn records_of_json(json: JsonModel) -> Option<Seq<RecordModel>> {
    match json {
        JsonModel::Array(items) => Some(
            Seq::new(items.len(), |i: int| record_of_json(items[i], i)),
        ),
        JsonModel::Object(_) => Some(seq![record_of_json(json, 0)]),
        _ => None,
    }
}

/// The name given to column `i` of a text without a header row.
pub open spec fn column_name(i: int) -> Seq<char> {
    "column_"@ + decimal_digits(i as nat)
}

/// The names of the columns: the header row where the text has one, else
/// `column_0`, `column_1` and so on, as many as the first row has fields.
pub open spec fn column_names(header: Seq<Seq<char>>, has_headers: bool) -> Seq<Seq<char>> {
    if has_headers {
        header
    } else {
        Seq::new(header.len(), |i: int| column_name(i))
    }
}

/// The named, typed fields of a row: each field that has a column name,
/// under that name.
pub open spec fn row_pairs(names: Seq<Seq<char>>, row: Seq<Seq<char>>) -> Seq<
    (Seq<char>, JsonModel),
> {
    Seq::new(
        if row.len() <= names.len() {
            row.len()
        } else {
            names.len()
        },
        |i: int| (names[i], csv_field_value(row[i])),
    )
}

/// The record of a row of delimited text.
pub open spec fn record_of_row(names: Seq<Seq<char>>, row: Seq<Seq<char>>) -> RecordModel {
    pairs_map(row_pairs(names, row))
}

/// The records of a delimited text, from its header row and its rows as the
/// parser reports them: one record for each row, or nothing where the parser
/// failed on the header or on a row.
pub open spec fn csv_records(
    header: Option<Seq<Seq<char>>>,
    rows: Seq<Option<Seq<Seq<char>>>>,
    has_headers: bool,
) -> Option<Seq<RecordModel>> {
    match header {
        None => None,
        Some(h) => if forall|i: int| 0 <= i < rows.len() ==> (#[trigger] rows[i]) is Some {
            Some(
                Seq::new(
                    rows.len(),
                    |i: int| record_of_row(column_names(h, has_headers), rows[i]->0),
                ),
            )
        } else {
            None
        },
    }
}

/// The byte that stands for a delimiter: the low eight bits of its code.
pub open spec fn delimiter_byte(delimiter: char) -> u8 {
    (delimiter as u32 % 256) as u8
}

/// Whether an entry of an archive is to be decoded: every entry where no
/// pattern is given, else the entries whose names match one of the patterns.
pub open spec fn entry_selected(name: Seq<char>, patterns: Seq<Seq<char>>) -> bool {
    patterns.len() == 0 || exists|k: int|
        0 <= k < patterns.len() && pattern_matches(name, #[trigger] patterns[k])
}

/// Why reading a file failed.
pub enum ReadFailure {
    /// The archive, or an entry of it, cannot be opened.
    Archive,
    /// An entry cannot be read to its end.
    Entry,
    /// The entry of this name is not UTF-8 text.
    InvalidUtf8(Seq<char>),
    /// The delimited text is malformed.
    Delimited,
    /// The JSON text is malformed.
    Json,
    /// The JSON document is neither an object nor an array.
    JsonShape,
    /// The format is not supported.
    Unsupported(Seq<char>),
}

/// What reading a file gives: its records, or why there are none.
pub type ReadOutcome = core::result::Result<Seq<RecordModel>, ReadFailure>;

/// Whether an error reports the given failure.
pub open spec fn reports(error: EtlError, failure: ReadFailure) -> bool {
    match failure {
        ReadFailure::Archive => error is ZipError,
        ReadFailure::Entry => error is IoError,
        ReadFailure::InvalidUtf8(name) => error matches EtlError::ParseError(m) && m@
            == "Invalid UTF-8 in file "@ + name,
        ReadFailure::Delimited => error is CsvError,
        ReadFailure::Json => error is JsonError,
        ReadFailure::JsonShape => error matches EtlError::ParseError(m) && m@
            == "JSON must be object or array"@,
        ReadFailure::Unsupported(what) => error matches EtlError::ConfigError(m) && m@ == what,
    }
}

/// The records of a JSON text.
pub open spec fn json_records(text: Seq<char>) -> ReadOutcome {
    match json_text_value(text) {
        None => Err(ReadFailure::Json),
        Some(json) => match records_of_json(json) {
            Some(records) => Ok(records),
            None => Err(ReadFailure::JsonShape),
        },
    }
}

/// The records of a delimited text.
pub open spec fn delimited_records(data: Seq<u8>, delimiter: char, has_headers: bool) -> ReadOutcome {
    match csv_records(
        csv_header_of(data, delimiter_byte(delimiter), has_headers),
        csv_rows_of(data, delimiter_byte(delimiter), has_headers),
        has_headers,
    ) {
        Some(records) => Ok(records),
        None => Err(ReadFailure::Delimited),
    }
}

/// The records of the bytes of an entry that is named `name` and selected:
/// an entry whose name ends in `.csv` is decoded as comma-delimited text
/// with a header row, one whose name ends in `.json` as a JSON document, of
/// which any value but an object or an array gives no record. Either must
/// be UTF-8 text. An entry of any other name gives no record, whatever it
/// holds.
pub open spec fn selected_entry_records(name: Seq<char>, body: Option<Seq<u8>>) -> ReadOutcome {
    if !".csv"@.is_suffix_of(name) && !".json"@.is_suffix_of(name) {
        Ok(Seq::empty())
    } else {
        match body {
            None => Err(ReadFailure::Entry),
            Some(bytes) => if !vstd::utf8::valid_utf8(bytes) {
                Err(ReadFailure::InvalidUtf8(name))
            } else if ".csv"@.is_suffix_of(name) {
                delimited_records(bytes, ',', true)
            } else {
                match json_records(vstd::utf8::decode_utf8(bytes)) {
                    Err(ReadFailure::JsonShape) => Ok(Seq::empty()),
                    other => other,
                }
            },
        }
    }
}

/// The records of one entry of an archive.
pub open spec fn entry_records(entry: EntryModel, patterns: Seq<Seq<char>>) -> ReadOutcome {
    match entry.0 {
        None => Err(ReadFailure::Archive),
        Some(name) => if entry_selected(name, patterns) {
            selected_entry_records(name, entry.1)
        } else {
            Ok(Seq::empty())
        },
    }
}

/// The records of the entries of an archive, entry after entry, or the
/// failure of the first entry that fails.
pub open spec fn entries_records(entries: Seq<EntryModel>, patterns: Seq<Seq<char>>) -> ReadOutcome
    decreases entries.len(),
{
    if entries.len() == 0 {
        Ok(Seq::empty())
    } else {
        match entries_records(entries.drop_last(), patterns) {
            Err(failure) => Err(failure),
            Ok(front) => match entry_records(entries.last(), patterns) {
                Err(failure) => Err(failure),
                Ok(records) => Ok(front + records),
            },
        }
    }
}

/// The records of the bytes of an archive.
pub open spec fn zip_records(data: Seq<u8>, patterns: Seq<Seq<char>>) -> ReadOutcome {
    match zip_entries_of(data) {
        None => Err(ReadFailure::Archive),
        Some(entries) => entries_records(entries, patterns),
    }
}

/// The records of the bytes of a file named `path` in the given format.
/// JSON and delimited text must be UTF-8 text: a file that is not fails
/// with its name. Delimited text is read with a comma and a header row
/// where the format names no other, and tab-separated text with a tab and
/// a header row. Excel and Parquet files are not supported.
pub open spec fn file_records(path: Seq<char>, contents: Seq<u8>, format: FileFormat) -> ReadOutcome {
    match format {
        FileFormat::Json => if vstd::utf8::valid_utf8(contents) {
            json_records(vstd::utf8::decode_utf8(contents))
        } else {
            Err(ReadFailure::InvalidUtf8(path))
        },
        FileFormat::Csv { delimiter, has_headers } => if vstd::utf8::valid_utf8(contents) {
            delimited_records(
                contents,
                match delimiter {
                    Some(c) => c,
                    None => ',',
                },
                match has_headers {
                    Some(b) => b,
                    None => true,
                },
            )
        } else {
            Err(ReadFailure::InvalidUtf8(path))
        },
        FileFormat::Tsv => if vstd::utf8::valid_utf8(contents) {
            delimited_records(contents, '\t', true)
        } else {
            Err(ReadFailure::InvalidUtf8(path))
        },
        FileFormat::Excel => Err(ReadFailure::Unsupported("Excel format not yet implemented"@)),
        FileFormat::Parquet => Err(
            ReadFailure::Unsupported("Parquet format not yet implemented"@),
        ),
        FileFormat::Zip { extract_path, target_files } => zip_records(
            contents,
            texts_of(target_files@),
        ),
    }
}

/// Whether what a read returned is what the contract says it returns.
pub open spec fn read_gives(
    result: Result<Vec<DataRecord>>,
    expected: ReadOutcome,
) -> bool {
    match expected {
        Ok(records) => result matches Ok(v) && records_model(v@) == records,
        Err(failure) => result matches Err(e) && reports(e, failure),
    }
}

impl FileReader {
    /// The name of the encoding that the reader's files are declared to have.
    pub closed spec fn encoding_name(&self) -> Seq<char> {
        self.encoding@
    }

    /// A reader for UTF-8 text.
    pub fn new() -> (r: Self)
        ensures
            r.encoding_name() == "utf-8"@,
    {
        FileReader { encoding: String::from_str("utf-8") }
    }

    /// A reader that records the encoding its files are declared to have.
    pub fn with_encoding(encoding: String) -> (r: Self)
        ensures
            r.encoding_name() == encoding@,
    {
        FileReader { encoding }
    }

    /// The name of the encoding that the reader's files are declared to have.
    pub fn encoding(&self) -> (r: &str)
        ensures
            r@ == self.encoding_name(),
    {
        self.encoding.as_str()
    }

    /// Whether a file name matches a pattern with at most one `*`.
    pub fn matches_pattern(&self, filename: &str, pattern: &str) -> (r: bool)
        ensures
            r == pattern_matches(filename@, pattern@),
    {
        let name = chars_of(filename);
        let pat = chars_of(pattern);
        let mut first: usize = pat.len();
        let mut stars: usize = 0;
        let mut i: usize = 0;
        while i < pat.len()
            invariant
                i <= pat.len(),
                stars <= i,
                stars == 0 ==> first == pat.len() && forall|j: int| 0 <= j < i ==> pat[j] != '*',
                stars >= 1 ==> first < i && pat[first as int] == '*',
                stars == 1 ==> forall|j: int| 0 <= j < i && j != first ==> pat[j] != '*',
                stars >= 2 ==> exists|j: int| 0 <= j < i && j != first && pat[j] == '*',
            decreases pat.len() - i,
        {
            if pat[i] == '*' {
                if stars == 0 {
                    first = i;
                }
                stars += 1;
            }
            i += 1;
        }
        if stars == 0 {
            text_eq(filename, pattern)
        } else if stars == 1 {
            let mut prefix: Vec<char> = Vec::new();
            let mut suffix: Vec<char> = Vec::new();
            let mut k: usize = 0;
            while k < pat.len()
                invariant
                    k <= pat.len(),
                    first < pat.len(),
                    prefix@ == pat@.take(if k <= first {
                        k as int
                    } else {
                        first as int
                    }),
                    suffix@ == (if k <= first {
                        Seq::<char>::empty()
                    } else {
                        pat@.subrange(first + 1, k as int)
                    }),
                decreases pat.len() - k,
            {
                if k < first {
                    prefix.push(pat[k]);
                    assert(pat@.take(k + 1) =~= pat@.take(k as int).push(pat[k as int]));
                } else if k > first {
                    suffix.push(pat[k]);
                    assert(pat@.subrange(first + 1, k + 1) =~= pat@.subrange(
                        first + 1,
                        k as int,
                    ).push(pat[k as int]));
                } else {
                    assert(pat@.subrange(first + 1, k + 1) =~= Seq::<char>::empty());
                }
                k += 1;
            }
            assert(suffix@ =~= pat@.skip(first + 1));
            let r = name.len() >= pat.len() - 1 && has_prefix(&name, &prefix) && has_suffix(
                &name,
                &suffix,
            );
            proof {
                assert(is_only_star(pat@, first as int));
                assert(pat@[first as int] == '*');
                if pattern_matches(filename@, pattern@) {
                    let w = choose|w: int|
                        #![trigger pat@.take(w)]
                        is_only_star(pat@, w) && name@.len() >= pat@.len() - 1 && pat@.take(
                            w,
                        ).is_prefix_of(name@) && pat@.skip(w + 1).is_suffix_of(name@);
                    assert(w == first);
                }
            }
            r
        } else {
            proof {
                let other = choose|j: int| 0 <= j < pat.len() && j != first && pat[j] == '*';
                assert(pat@[first as int] == '*');
                assert forall|w: int| !is_only_star(pat@, w) by {
                    if is_only_star(pat@, w) {
                        if w == first {
                            assert(pat@[other] != '*');
                        } else {
                            assert(pat@[first as int] != '*');
                        }
                    }
                }
            }
            false
        }
    }

    /// The typed value of a field of delimited text, from the field, what
    /// reading it as a floating-point number gave, and its lower-cased form.
    pub fn typed_field(field: &str, float: Option<JsonNumber>, lowered: &str) -> (r: JsonValue)
        ensures
            r@ == field_value(field@, number_model(float), lowered@),
    {
        match parse_i64(field) {
            Some(i) => JsonValue::Number(JsonNumber::from_i64(i)),
            None => match float {
                Some(n) => JsonValue::Number(n),
                None => {
                    if text_eq(lowered, "true") || text_eq(lowered, "yes") || text_eq(lowered, "1")
                    {
                        JsonValue::Bool(true)
                    } else if text_eq(lowered, "false") || text_eq(lowered, "no") || text_eq(
                        lowered,
                        "0",
                    ) {
                        JsonValue::Bool(false)
                    } else {
                        JsonValue::String(String::from_str(field))
                    }
                },
            },
        }
    }

    /// Gives a field of delimited text a type: integer, then floating-point
    /// number, then boolean, and string where none of them fits.
    pub fn parse_csv_field(&self, field: &str) -> (r: JsonValue)
        ensures
            r@ == csv_field_value(field@),
    {
        let float = parse_float_number(field);
        let lowered = to_lowercase(field);
        Self::typed_field(field, float, lowered.as_str())
    }

    /// Makes a record of a JSON value that stands at place `index` of its
    /// document.
    pub fn json_to_record(&self, json: JsonValue, index: usize) -> (r: Result<DataRecord>)
        ensures
            r matches Ok(record) && record@ == record_of_json(json@, index as int),
    {
        match json {
            JsonValue::Object(fields) => {
                proof {
                    lemma_fields_map_model(fields@);
                }
                Ok(DataRecord { fields })
            },
            other => {
                let mut record = DataRecord::new();
                record.insert(String::from_str("value"), other);
                record.insert(
                    String::from_str("_index"),
                    JsonValue::Number(JsonNumber::from_usize(index)),
                );
                Ok(record)
            },
        }
    }

    /// The records of a JSON document: one for each element of an array, one
    /// for an object, and an error for any other value.
    pub fn records_from_json(&self, json: JsonValue) -> (r: Result<Vec<DataRecord>>)
        ensures
            match records_of_json(json@) {
                Some(records) => r matches Ok(v) && records_model(v@) == records,
                None => r matches Err(EtlError::ParseError(m)) && m@
                    == "JSON must be object or array"@,
            },
    {
        match json {
            JsonValue::Array(items) => {
                let ghost models = json@->Array_0;
                proof {
                    lemma_items_model(items@);
                }
                let count: usize = items.len();
                let mut records: Vec<DataRecord> = Vec::new();
                let mut index: usize = 0;
                for item in it: items
                    invariant
                        index == it.index(),
                        records.len() == index,
                        it.seq().len() == models.len(),
                        models.len() == count,
                        forall|k: int| 0 <= k < models.len() ==> it.seq()[k]@ == models[k],
                        forall|k: int|
                            0 <= k < index ==> (#[trigger] records[k])@ == record_of_json(
                                models[k],
                                k,
                            ),
                {
                    match self.json_to_record(item, index) {
                        Ok(record) => {
                            records.push(record);
                        },
                        Err(e) => {
                            return Err(e);
                        },
                    }
                    index += 1;
                }
                assert(records_model(records@) =~= records_of_json(json@)->0);
                Ok(records)
            },
            JsonValue::Object(fields) => {
                let ghost model = json@;
                let mut records: Vec<DataRecord> = Vec::new();
                match self.json_to_record(JsonValue::Object(fields), 0) {
                    Ok(record) => {
                        records.push(record);
                    },
                    Err(e) => {
                        return Err(e);
                    },
                }
                assert(records_model(records@) =~= seq![record_of_json(model, 0)]);
                Ok(records)
            },
            _ => Err(EtlError::ParseError(String::from_str("JSON must be object or array"))),
        }
    }

    /// Decodes a JSON document into records.
    pub fn read_json(&self, text: &str) -> (r: Result<Vec<DataRecord>>)
        ensures
            read_gives(r, json_records(text@)),
    {
        match parse_json_text(text) {
            Ok(json) => self.records_from_json(json),
            Err(e) => Err(EtlError::JsonError(e)),
        }
    }

    /// The names of the columns of a delimited text, from the row that the
    /// parser reports as its header.
    pub fn column_headers(&self, header: Vec<String>, has_headers: bool) -> (r: Vec<String>)
        ensures
            texts_of(r@) == column_names(texts_of(header@), has_headers),
    {
        if has_headers {
            return header;
        }
        let mut names: Vec<String> = Vec::new();
        let mut i: usize = 0;
        while i < header.len()
            invariant
                i <= header.len(),
                names.len() == i,
                forall|k: int| 0 <= k < i ==> (#[trigger] names[k])@ == column_name(k),
            decreases header.len() - i,
        {
            let number = decimal_text(i as u64);
            names.push(text_concat("column_", number.as_str()));
            i += 1;
        }
        assert(texts_of(names@) =~= column_names(texts_of(header@), has_headers));
        names
    }

    /// The record of one row of delimited text under the given column names.
    pub fn record_from_row(&self, names: &Vec<String>, row: &Vec<String>) -> (r: DataRecord)
        ensures
            r@ == record_of_row(texts_of(names@), texts_of(row@)),
    {
        let ghost pairs = row_pairs(texts_of(names@), texts_of(row@));
        let width: usize = if row.len() <= names.len() {
            row.len()
        } else {
            names.len()
        };
        let mut record = DataRecord::new();
        let mut i: usize = 0;
        while i < width
            invariant
                i <= width,
                width <= row.len(),
                width <= names.len(),
                width == pairs.len(),
                pairs == row_pairs(texts_of(names@), texts_of(row@)),
                record@ == pairs_map(pairs.take(i as int)),
            decreases width - i,
        {
            let value = self.parse_csv_field(row[i].as_str());
            record.insert(names[i].clone(), value);
            proof {
                assert(pairs.take(i + 1).drop_last() =~= pairs.take(i as int));
                assert(pairs.take(i + 1).last() == pairs[i as int]);
            }
            i += 1;
        }
        assert(pairs.take(width as int) =~= pairs);
        record
    }

    /// Decodes delimited text into records: one for each row after the
    /// header row, with every field typed by its content.
    pub fn read_csv(&self, data: Vec<u8>, delimiter: char, has_headers: bool) -> (r: Result<
        Vec<DataRecord>,
    >)
        ensures
            read_gives(r, delimited_records(data@, delimiter, has_headers)),
    {
        let byte: u8 = (delimiter as u32 % 256) as u8;
        let ghost header_model = csv_header_of(data@, byte, has_headers);
        let ghost rows = csv_rows_of(data@, byte, has_headers);
        let mut reader = open_reader(data, byte, has_headers);
        let header = match read_header(&mut reader) {
            Ok(header) => header,
            Err(e) => {
                return Err(EtlError::CsvError(e));
            },
        };
        let ghost names_model = column_names(texts_of(header@), has_headers);
        let names = self.column_headers(header, has_headers);
        let mut records: Vec<DataRecord> = Vec::new();
        loop
            invariant
                header_model == csv_header_of(data@, delimiter_byte(delimiter), has_headers),
                rows == csv_rows_of(data@, delimiter_byte(delimiter), has_headers),
                header_model is Some,
                names_model == column_names(header_model->0, has_headers),
                texts_of(names@) == names_model,
                records.len() <= rows.len(),
                reader_rows(reader) == rows.skip(records.len() as int),
                forall|k: int| 0 <= k < records.len() ==> (#[trigger] rows[k]) is Some,
                forall|k: int|
                    0 <= k < records.len() ==> (#[trigger] records[k])@ == record_of_row(
                        names_model,
                        rows[k]->0,
                    ),
            ensures
                records.len() == rows.len(),
                forall|k: int| 0 <= k < records.len() ==> (#[trigger] rows[k]) is Some,
                forall|k: int|
                    0 <= k < records.len() ==> (#[trigger] records[k])@ == record_of_row(
                        names_model,
                        rows[k]->0,
                    ),
            decreases rows.len() - records.len(),
        {
            let ghost done = records.len() as int;
            match read_row(&mut reader) {
                None => {
                    break ;
                },
                Some(Err(e)) => {
                    assert(rows[done] is None);
                    return Err(EtlError::CsvError(e));
                },
                Some(Ok(row)) => {
                    assert(rows[done] == Some(texts_of(row@)));
                    assert(rows.skip(done).drop_first() =~= rows.skip(done + 1));
                    let record = self.record_from_row(&names, &row);
                    records.push(record);
                },
            }
        }
        assert(records_model(records@) =~= csv_records(header_model, rows, has_headers)->0);
        Ok(records)
    }

    /// Whether an entry named `name` is to be decoded under the patterns.
    pub fn should_process(&self, name: &str, patterns: &Vec<String>) -> (r: bool)
        ensures
            r == entry_selected(name@, texts_of(patterns@)),
    {
        if patterns.len() == 0 {
            return true;
        }
        let mut k: usize = 0;
        while k < patterns.len()
            invariant
                k <= patterns.len(),
                forall|j: int|
                    0 <= j < k ==> !pattern_matches(name@, #[trigger] texts_of(patterns@)[j]),
            decreases patterns.len() - k,
        {
            if self.matches_pattern(name, patterns[k].as_str()) {
                assert(pattern_matches(name@, texts_of(patterns@)[k as int]));
                return true;
            }
            k += 1;
        }
        false
    }

    /// Decodes the entries of an archive into records, entry after entry.
    /// Where patterns are given, only the entries whose names match one of
    /// them are decoded.
    pub fn read_zip(&self, data: Vec<u8>, target_files: Vec<String>) -> (r: Result<
        Vec<DataRecord>,
    >)
        ensures
            read_gives(r, zip_records(data@, texts_of(target_files@))),
    {
        let ghost patterns = texts_of(target_files@);
        let mut archive = match open_archive(data) {
            Ok(archive) => archive,
            Err(e) => {
                return Err(EtlError::ZipError(e));
            },
        };
        let ghost entries = archive_entries(archive);
        let count: usize = archive_len(&archive);
        let mut all: Vec<DataRecord> = Vec::new();
        let mut i: usize = 0;
        assert(records_model(all@) =~= Seq::<RecordModel>::empty());
        while i < count
            invariant
                i <= count,
                count == entries.len(),
                zip_entries_of(data@) == Some(entries),
                archive_entries(archive) == entries,
                patterns == texts_of(target_files@),
                entries_records(entries.take(i as int), patterns) == ReadOutcome::Ok(records_model(all@)),
            decreases count - i,
        {
            proof {
                assert(entries.take(i + 1).drop_last() =~= entries.take(i as int));
                assert(entries.take(i + 1).last() == entries[i as int]);
                if i + 1 == count {
                    assert(entries.take(i + 1) =~= entries);
                }
            }
            let ghost before = records_model(all@);
            let name = match entry_name(&mut archive, i) {
                Ok(name) => name,
                Err(e) => {
                    proof {
                        lemma_entries_failure(entries, patterns, i + 1);
                    }
                    return Err(EtlError::ZipError(e));
                },
            };
            if self.should_process(name.as_str(), &target_files) {
                let is_csv = text_ends_with(name.as_str(), ".csv");
                let is_json = text_ends_with(name.as_str(), ".json");
                if is_csv || is_json {
                    let bytes = match entry_bytes(&mut archive, i) {
                        Ok(bytes) => bytes,
                        Err(e) => {
                            proof {
                                lemma_entries_failure(entries, patterns, i + 1);
                            }
                            return Err(EtlError::IoError(e));
                        },
                    };
                    let text = match utf8_text(bytes.as_slice()) {
                        Some(text) => text,
                        None => {
                            proof {
                                lemma_entries_failure(entries, patterns, i + 1);
                            }
                            return Err(
                                EtlError::ParseError(
                                    text_concat("Invalid UTF-8 in file ", name.as_str()),
                                ),
                            );
                        },
                    };
                    if is_csv {
                        match self.read_csv(bytes, ',', true) {
                            Ok(mut records) => {
                                let ghost added = records_model(records@);
                                all.append(&mut records);
                                assert(records_model(all@) =~= before + added);
                            },
                            Err(e) => {
                                proof {
                                    lemma_entries_failure(entries, patterns, i + 1);
                                }
                                return Err(e);
                            },
                        }
                    } else {
                        match parse_json_text(text.as_str()) {
                            Err(e) => {
                                proof {
                                    lemma_entries_failure(entries, patterns, i + 1);
                                }
                                return Err(EtlError::JsonError(e));
                            },
                            Ok(json) => {
                                match self.records_from_json(json) {
                                    Ok(mut records) => {
                                        let ghost added = records_model(records@);
                                        all.append(&mut records);
                                        assert(records_model(all@) =~= before + added);
                                    },
                                    Err(_) => {
                                        assert(records_model(all@) =~= before + Seq::empty());
                                    },
                                }
                            },
                        }
                    }
                } else {
                    assert(records_model(all@) =~= before + Seq::empty());
                }
            } else {
                assert(records_model(all@) =~= before + Seq::empty());
            }
            i += 1;
        }
        assert(entries.take(count as int) =~= entries);
        Ok(all)
    }

    /// Decodes the contents of the file named `path` into records, as the
    /// format asks.
    pub fn read_file(&self, path: &str, contents: Vec<u8>, format: FileFormat) -> (r: Result<
        Vec<DataRecord>,
    >)
        ensures
            read_gives(r, file_records(path@, contents@, format)),
    {
        match format {
            FileFormat::Json => {
                match utf8_text(contents.as_slice()) {
                    Some(text) => self.read_json(text.as_str()),
                    None => Err(
                        EtlError::ParseError(text_concat("Invalid UTF-8 in file ", path)),
                    ),
                }
            },
            FileFormat::Csv { delimiter, has_headers } => {
                let delimiter: char = match delimiter {
                    Some(c) => c,
                    None => ',',
                };
                let has_headers: bool = match has_headers {
                    Some(b) => b,
                    None => true,
                };
                match utf8_text(contents.as_slice()) {
                    Some(_) => self.read_csv(contents, delimiter, has_headers),
                    None => Err(
                        EtlError::ParseError(text_concat("Invalid UTF-8 in file ", path)),
                    ),
                }
            },
            FileFormat::Tsv => match utf8_text(contents.as_slice()) {
                Some(_) => self.read_csv(contents, '\t', true),
                None => Err(EtlError::ParseError(text_concat("Invalid UTF-8 in file ", path))),
            },
            FileFormat::Excel => Err(
                EtlError::ConfigError(String::from_str("Excel format not yet implemented")),
            ),
            FileFormat::Parquet => Err(
                EtlError::ConfigError(String::from_str("Parquet format not yet implemented")),
            ),
            FileFormat::Zip { extract_path, target_files } => self.read_zip(contents, target_files),
        }
    }
}

/// Where the entries up to some place fail, all the entries fail in the same
/// way.
pub proof fn lemma_entries_failure(
    entries: Seq<EntryModel>,
    patterns: Seq<Seq<char>>,
    upto: int,
)
    requires
        0 <= upto <= entries.len(),
        entries_records(entries.take(upto), patterns) is Err,
    ensures
        entries_records(entries, patterns) == entries_records(entries.take(upto), patterns),
    decreases entries.len() - upto,
{
    if upto == entries.len() {
        assert(entries.take(upto) =~= entries);
    } else {
        assert(entries.take(upto + 1).drop_last() =~= entries.take(upto));
        lemma_entries_failure(entries, patterns, upto + 1);
    }
}

} // verus!
