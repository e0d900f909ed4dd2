use crate::config::settings::{
    AuthConfig, AwsCredentials, CompressionType, DatabaseDriver, OutputConfig,
    OutputDestination, OutputFormat, TransformationConfig, TransformationType, WriteMode,
};
use crate::transformers::engine::{group_fields, rule_target};
use crate::utils::text::text_eq;
use crate::extractors::api_client::{
    error_is, plan_failure, plan_is, ApiClient, PlanFailure, RequestPlan,
};
use crate::extractors::file_reader::delimiter_byte;
use crate::loaders::archiver::{packed_archive, Archiver, PackFailure};
use crate::loaders::csv_writer::{table_rows, CsvWriter};
use crate::models::data_types::{records_model, DataRecord};
use crate::models::json::{
    fields_model, json_compact_text, json_pretty_text, lemma_items_model, write_json_pretty_text,
    write_json_text, JsonModel, JsonValue,
};
use crate::utils::csv_text::csv_bytes_of;
use crate::utils::error::{EtlError, ErrorKind, Result};
use crate::utils::text::texts_of;
use vstd::prelude::*;
use vstd::string::{StrSliceExecFns, StringExecFns};

verus! {

/// What is to be done with the output of a run.
#[derive(Debug)]
pub enum LoadAction {
    /// Write the bytes to a local file.
    WriteFile { path: String, bytes: Vec<u8> },
    /// Put the bytes into an object store.
    PutObject {
        bucket: String,
        key: String,
        region: String,
        credentials: Option<AwsCredentials>,
        bytes: Vec<u8>,
    },
    /// Hand the records to the database adapter.
    WriteTable {
        connection_string: String,
        driver: DatabaseDriver,
        table_name: String,
        mode: WriteMode,
        records: Vec<DataRecord>,
    },
    /// Send the bytes as the body of a request.
    Send { request: RequestPlan, body: Vec<u8> },
}

/// The JSON document of a batch of records: an array with one object for
/// each record, the fields of the object in the order of the record.
pub open spec fn records_json(records: Seq<DataRecord>) -> JsonModel {
    JsonModel::Array(
        Seq::new(records.len(), |i: int| JsonModel::Object(fields_model(records[i].fields@))),
    )
}

/// Why records cannot be encoded in a format, if they cannot: Excel and
/// Parquet are not supported, and the output to a database has no bytes.
pub open spec fn encoding_failure(format: OutputFormat) -> Option<Seq<char>> {
    match format {
        OutputFormat::Excel { .. } => Some("Excel output not yet implemented"@),
        OutputFormat::Parquet => Some("Parquet output not yet implemented"@),
        OutputFormat::Database { .. } => Some("Database output needs a database destination"@),
        _ => None,
    }
}

/// A character where one is given, and the default where none is.
pub open spec fn char_or(given: Option<char>, default: char) -> char {
    match given {
        Some(c) => c,
        None => default,
    }
}

/// A flag where one is given, and the default where none is.
pub open spec fn flag_or(given: Option<bool>, default: bool) -> bool {
    match given {
        Some(b) => b,
        None => default,
    }
}

/// The bytes of a batch of records in a format: delimited text, with a
/// comma, a double quote and a header row where the format names no other,
/// or a JSON document, compact where the format does not ask for indented
/// text. Nothing where the encoder fails.
pub open spec fn encoded_bytes(
    records: Seq<DataRecord>,
    headers: Seq<Seq<char>>,
    format: OutputFormat,
) -> Option<Seq<u8>> {
    match format {
        OutputFormat::Csv { delimiter, quote_char, headers: with_headers } => Some(
            csv_bytes_of(
                table_rows(records_model(records), headers, flag_or(with_headers, true)),
                (delimiter_byte(char_or(delimiter, ',')), delimiter_byte(char_or(quote_char, '"'))),
            ),
        ),
        OutputFormat::Json { pretty_print } => {
            let text = if flag_or(pretty_print, false) {
                json_pretty_text(records_json(records))
            } else {
                json_compact_text(records_json(records))
            };
            match text {
                Some(t) => Some(vstd::utf8::encode_utf8(t)),
                None => None,
            }
        },
        _ => None,
    }
}

/// Whether what encoding returned is what the format asks for: the error
/// that refuses the format, else the bytes of the records, and an error of
/// the encoder exactly where the encoder gives none.
pub open spec fn encoding_is(
    result: Result<Vec<u8>>,
    records: Seq<DataRecord>,
    headers: Seq<Seq<char>>,
    format: OutputFormat,
) -> bool {
    match encoding_failure(format) {
        Some(message) => result matches Err(EtlError::ConfigError(m)) && m@ == message,
        None => match encoded_bytes(records, headers, format) {
            Some(bytes) => result matches Ok(encoded) && encoded@ == bytes,
            None => result matches Err(e) && (e is IoError || e is JsonError),
        },
    }
}

/// Encodes a batch of records as the format asks. Delimited text that the
/// format does not refuse is always encoded.
pub fn encode_records(records: Vec<DataRecord>, headers: &[String], format: &OutputFormat) -> (r:
    Result<Vec<u8>>)
    ensures
        encoding_is(r, records@, texts_of(headers@), *format),
        format is Csv && encoding_failure(*format) is None ==> r is Ok,
{
    match format {
        OutputFormat::Csv { delimiter, quote_char, headers: with_headers } => {
            let delimiter: char = match delimiter {
                Some(c) => *c,
                None => ',',
            };
            let quote: char = match quote_char {
                Some(c) => *c,
                None => '"',
            };
            let with_headers: bool = match with_headers {
                Some(b) => *b,
                None => true,
            };
            let writer = CsvWriter::with_options(
                (delimiter as u32 % 256) as u8,
                (quote as u32 % 256) as u8,
                with_headers,
            );
            writer.write_records(records.as_slice(), headers)
        },
        OutputFormat::Json { pretty_print } => {
            let pretty: bool = match pretty_print {
                Some(b) => *b,
                None => false,
            };
            let ghost given = records@;
            let count: usize = records.len();
            let mut objects: Vec<JsonValue> = Vec::new();
            let mut index: usize = 0;
            for record in it: records
                invariant
                    index == it.index(),
                    it.seq() == given,
                    given.len() == count,
                    objects.len() == index,
                    forall|k: int|
                        0 <= k < index ==> (#[trigger] objects[k])@ == JsonModel::Object(
                            fields_model(given[k].fields@),
                        ),
            {
                objects.push(JsonValue::Object(record.fields));
                index += 1;
            }
            proof {
                lemma_items_model(objects@);
                assert(JsonValue::Array(objects)@->Array_0 =~= records_json(given)->Array_0);
            }
            let document = JsonValue::Array(objects);
            let text = if pretty {
                write_json_pretty_text(&document)
            } else {
                write_json_text(&document)
            };
            match text {
                Ok(text) => Ok(text.as_str().as_bytes_vec()),
                Err(e) => Err(EtlError::JsonError(e)),
            }
        },
        OutputFormat::Excel { .. } => Err(
            EtlError::ConfigError(String::from_str("Excel output not yet implemented")),
        ),
        OutputFormat::Parquet => Err(
            EtlError::ConfigError(String::from_str("Parquet output not yet implemented")),
        ),
        OutputFormat::Database { .. } => Err(
            EtlError::ConfigError(String::from_str("Database output needs a database destination")),
        ),
    }
}

/// Why bytes cannot be compressed in a way, if they cannot: only the zip
/// archive is supported.
pub open spec fn compression_failure(compress: Option<CompressionType>) -> Option<Seq<char>> {
    match compress {
        None => None,
        Some(CompressionType::Zip) => None,
        Some(CompressionType::Gzip) => Some("Gzip compression not yet implemented"@),
        Some(CompressionType::Bzip2) => Some("Bzip2 compression not yet implemented"@),
        Some(CompressionType::Zstd) => Some("Zstd compression not yet implemented"@),
    }
}

/// Packs the bytes of an output file as the destination asks: as they are
/// where it asks for no compression, and as an archive with the one entry
/// `name` where it asks for a zip archive.
pub fn compress_output(name: &str, bytes: Vec<u8>, compress: Option<CompressionType>) -> (r:
    Result<Vec<u8>>)
    ensures
        match compression_failure(compress) {
            Some(message) => r matches Err(EtlError::ConfigError(m)) && m@ == message,
            None => match packed_bytes(name@, bytes@, compress) {
                Some(packed) => r matches Ok(out) && out@ == packed,
                None => r matches Err(e) && (e is ZipError || e is IoError),
            },
        },
{
    match compress {
        None => Ok(bytes),
        Some(CompressionType::Zip) => {
            let mut files: Vec<(String, Vec<u8>)> = Vec::new();
            files.push((String::from_str(name), bytes));
            assert(crate::loaders::archiver::files_model(files@) =~= seq![(name@, bytes@)]);
            assert(packed_archive(seq![(name@, bytes@)]) is Err ==> packed_bytes(
                name@,
                bytes@,
                compress,
            ) is None);
            Archiver::create_zip(files)
        },
        Some(CompressionType::Gzip) => Err(
            EtlError::ConfigError(String::from_str("Gzip compression not yet implemented")),
        ),
        Some(CompressionType::Bzip2) => Err(
            EtlError::ConfigError(String::from_str("Bzip2 compression not yet implemented")),
        ),
        Some(CompressionType::Zstd) => Err(
            EtlError::ConfigError(String::from_str("Zstd compression not yet implemented")),
        ),
    }
}

/// What is to be done with the output of a run, in mathematical terms.
pub enum LoadModel {
    File { path: Seq<char>, bytes: Seq<u8> },
    Object {
        bucket: Seq<char>,
        key: Seq<char>,
        region: Seq<char>,
        credentials: Option<AwsCredentials>,
        bytes: Seq<u8>,
    },
    Table {
        connection_string: Seq<char>,
        driver: DatabaseDriver,
        table_name: Seq<char>,
        mode: WriteMode,
        records: Seq<DataRecord>,
    },
    Request {
        url: Seq<char>,
        method: Seq<char>,
        headers: Option<Vec<(String, String)>>,
        auth: Option<AuthConfig>,
        body: Seq<u8>,
    },
    /// The configuration is refused, with an error of this kind and
    /// message.
    Refused(PlanFailure),
    /// The encoder or the packer failed.
    Failed,
}

/// The bytes of an output file as the destination asks for them.
pub open spec fn packed_bytes(name: Seq<char>, bytes: Seq<u8>, compress: Option<CompressionType>) -> Option<
    Seq<u8>,
> {
    match compress {
        None => Some(bytes),
        Some(_) => match packed_archive(seq![(name, bytes)]) {
            Ok(packed) => Some(packed),
            Err(_) => None,
        },
    }
}

/// The method of a request that carries the output: the one given, and
/// POST where none is.
pub open spec fn send_method(method: Option<String>) -> Seq<char> {
    match method {
        Some(m) => m@,
        None => "POST"@,
    }
}

/// Why output cannot go to a destination as bytes, if it cannot.
pub open spec fn destination_failure(destination: OutputDestination) -> Option<PlanFailure> {
    match destination {
        OutputDestination::LocalFile { path, compress } => match compression_failure(compress) {
            Some(message) => Some((ErrorKind::Config, message)),
            None => None,
        },
        OutputDestination::S3 { .. } => None,
        OutputDestination::Api { url, method, headers, auth } => plan_failure(
            Some(send_method(method)),
            headers,
            auth,
        ),
        OutputDestination::Database { .. } => Some(
            (ErrorKind::Config, "A database destination needs the database output format"@),
        ),
    }
}

/// What is to be done with the bytes of the output at a destination that
/// takes them.
pub open spec fn bytes_model(bytes: Seq<u8>, destination: OutputDestination) -> LoadModel {
    match destination {
        OutputDestination::LocalFile { path, compress } => match packed_bytes(
            path@,
            bytes,
            compress,
        ) {
            Some(packed) => LoadModel::File { path: path@, bytes: packed },
            None => LoadModel::Failed,
        },
        OutputDestination::S3 { bucket, key, region, credentials } => LoadModel::Object {
            bucket: bucket@,
            key: key@,
            region: region@,
            credentials,
            bytes,
        },
        OutputDestination::Api { url, method, headers, auth } => LoadModel::Request {
            url: url@,
            method: send_method(method),
            headers,
            auth,
            body: bytes,
        },
        OutputDestination::Database { .. } => LoadModel::Failed,
    }
}

/// What is to be done with the output of a run. Records go to a database
/// as they are, and only to a database destination; to any other
/// destination they go as bytes, encoded as the format asks and, for a
/// local file, packed as the destination asks. A destination or a format
/// that cannot be served is refused before anything is encoded.
pub open spec fn load_model(
    records: Seq<DataRecord>,
    headers: Seq<Seq<char>>,
    config: OutputConfig,
) -> LoadModel {
    match (config.format, config.destination) {
        (
            OutputFormat::Database { table_name, mode },
            OutputDestination::Database { connection_string, driver },
        ) => LoadModel::Table {
            connection_string: connection_string@,
            driver,
            table_name: table_name@,
            mode,
            records,
        },
        (format, destination) => match destination_failure(destination) {
            Some(failure) => LoadModel::Refused(failure),
            None => match encoding_failure(format) {
                Some(message) => LoadModel::Refused((ErrorKind::Config, message)),
                None => match encoded_bytes(records, headers, format) {
                    Some(bytes) => bytes_model(bytes, destination),
                    None => LoadModel::Failed,
                },
            },
        },
    }
}

/// Whether an error is one of the encoder or the packer.
pub open spec fn is_encoder_error(error: EtlError) -> bool {
    error is CsvError || error is JsonError || error is IoError || error is ZipError
}

/// Whether an action is the one that is to be done. A request that carries
/// the output is prepared as every request is, with the default retry
/// policy and the time that the client allows for one request.
pub open spec fn action_is(action: LoadAction, model: LoadModel, timeout_secs: u64) -> bool {
    match model {
        LoadModel::File { path, bytes } => action matches LoadAction::WriteFile {
            path: p,
            bytes: b,
        } && p@ == path && b@ == bytes,
        LoadModel::Object { bucket, key, region, credentials, bytes } => action
            matches LoadAction::PutObject { bucket: b, key: k, region: g, credentials: c, bytes: y }
            && b@ == bucket && k@ == key && g@ == region && c == credentials && y@ == bytes,
        LoadModel::Table { connection_string, driver, table_name, mode, records } => action
            matches LoadAction::WriteTable {
            connection_string: c,
            driver: d,
            table_name: t,
            mode: m,
            records: r,
        } && c@ == connection_string && d == driver && t@ == table_name && m == mode && r@
            == records,
        LoadModel::Request { url, method, headers, auth, body } => action matches LoadAction::Send {
            request,
            body: b,
        } && plan_is(request, url, Some(method), headers, auth, None, timeout_secs) && b@ == body,
        _ => false,
    }
}

/// Whether what planning a load returned is what is to be done: the action,
/// or the error that refuses the configuration, or, exactly where the
/// encoder or the packer gives no bytes, an error of theirs.
pub open spec fn load_is(result: Result<LoadAction>, model: LoadModel, timeout_secs: u64) -> bool {
    match model {
        LoadModel::Refused(failure) => result matches Err(e) && error_is(e, failure),
        LoadModel::Failed => result matches Err(e) && is_encoder_error(e),
        _ => result matches Ok(action) && action_is(action, model, timeout_secs),
    }
}

/// Decides what is to be done with the output of a run. A request that
/// carries the output is a POST where the destination names no method.
pub fn plan_load(
    records: Vec<DataRecord>,
    headers: &[String],
    config: OutputConfig,
    client: &ApiClient,
) -> (r: Result<LoadAction>)
    ensures
        load_is(r, load_model(records@, texts_of(headers@), config), client.timeout()),
{
    let OutputConfig { format, destination, options } = config;
    match destination {
        OutputDestination::Database { connection_string, driver } => {
            match format {
                OutputFormat::Database { table_name, mode } => Ok(
                    LoadAction::WriteTable { connection_string, driver, table_name, mode, records },
                ),
                _ => Err(
                    EtlError::ConfigError(
                        String::from_str(
                            "A database destination needs the database output format",
                        ),
                    ),
                ),
            }
        },
        OutputDestination::LocalFile { path, compress } => {
            match compress {
                Some(CompressionType::Gzip) => {
                    return Err(
                        EtlError::ConfigError(
                            String::from_str("Gzip compression not yet implemented"),
                        ),
                    );
                },
                Some(CompressionType::Bzip2) => {
                    return Err(
                        EtlError::ConfigError(
                            String::from_str("Bzip2 compression not yet implemented"),
                        ),
                    );
                },
                Some(CompressionType::Zstd) => {
                    return Err(
                        EtlError::ConfigError(
                            String::from_str("Zstd compression not yet implemented"),
                        ),
                    );
                },
                _ => {},
            }
            let encoded = match encode_records(records, headers, &format) {
                Ok(encoded) => encoded,
                Err(e) => {
                    return Err(e);
                },
            };
            match compress_output(path.as_str(), encoded, compress) {
                Ok(bytes) => Ok(LoadAction::WriteFile { path, bytes }),
                Err(e) => Err(e),
            }
        },
        OutputDestination::S3 { bucket, key, region, credentials } => {
            match encode_records(records, headers, &format) {
                Ok(bytes) => Ok(LoadAction::PutObject { bucket, key, region, credentials, bytes }),
                Err(e) => Err(e),
            }
        },
        OutputDestination::Api { url, method, headers: sent, auth } => {
            let method: String = match method {
                Some(m) => m,
                None => String::from_str("POST"),
            };
            let request = match client.prepare_request(url.as_str(), Some(method), sent, auth, None) {
                Ok(request) => request,
                Err(e) => {
                    return Err(e);
                },
            };
            match encode_records(records, headers, &format) {
                Ok(body) => Ok(LoadAction::Send { request, body }),
                Err(e) => Err(e),
            }
        },
    }
}

/// A list of names with one more name, unless the list has it already.
pub open spec fn with_name(names: Seq<Seq<char>>, name: Seq<char>) -> Seq<Seq<char>> {
    if names.contains(name) {
        names
    } else {
        names.push(name)
    }
}

/// A list of names with more names, each unless the list has it already.
pub open spec fn with_names(names: Seq<Seq<char>>, more: Seq<Seq<char>>) -> Seq<Seq<char>>
    decreases more.len(),
{
    if more.len() == 0 {
        names
    } else {
        with_name(with_names(names, more.drop_last()), more.last())
    }
}

/// The fields that a rule declares for the output: the field it writes,
/// after the fields it groups by where it is an aggregation, and none where
/// it is a join, whose fields are those of the records it joins.
pub open spec fn rule_headers(rule: TransformationConfig) -> Seq<Seq<char>> {
    match rule.transformation {
        TransformationType::Aggregate { operation, group_by } => group_fields(group_by).push(
            rule_target(rule),
        ),
        TransformationType::Join { .. } => Seq::empty(),
        _ => seq![rule_target(rule)],
    }
}

/// The headers that a list of rules declares for the output: the fields
/// that the rules declare, in the order of the rules, each once.
pub open spec fn declared_headers(rules: Seq<TransformationConfig>) -> Seq<Seq<char>>
    decreases rules.len(),
{
    if rules.len() == 0 {
        Seq::empty()
    } else {
        with_names(declared_headers(rules.drop_last()), rule_headers(rules.last()))
    }
}

/// Adds a name to a list of names, unless the list has it already.
pub fn add_name(names: &mut Vec<String>, name: &str)
    ensures
        texts_of(final(names)@) == with_name(texts_of(old(names)@), name@),
{
    let ghost before = texts_of(names@);
    let mut found: bool = false;
    let mut k: usize = 0;
    while k < names.len()
        invariant
            k <= names.len(),
            before == texts_of(names@),
            found == exists|j: int| 0 <= j < k && before[j] == name@,
        decreases names.len() - k,
    {
        if text_eq(names[k].as_str(), name) {
            assert(before[k as int] == name@);
            found = true;
        }
        k += 1;
    }
    assert(found == before.contains(name@));
    if !found {
        names.push(String::from_str(name));
        assert(texts_of(names@) =~= before.push(name@));
    }
}

/// The headers that a list of rules declares for the output.
pub fn headers_of_rules(rules: &[TransformationConfig]) -> (r: Vec<String>)
    ensures
        texts_of(r@) == declared_headers(rules@),
{
    let mut headers: Vec<String> = Vec::new();
    let mut i: usize = 0;
    assert(texts_of(headers@) =~= declared_headers(rules@.take(0)));
    while i < rules.len()
        invariant
            i <= rules.len(),
            texts_of(headers@) == declared_headers(rules@.take(i as int)),
        decreases rules.len() - i,
    {
        let rule = &rules[i];
        let ghost before = texts_of(headers@);
        proof {
            assert(rules@.take(i + 1).drop_last() =~= rules@.take(i as int));
            assert(rules@.take(i + 1).last() == rules@[i as int]);
        }
        let target: &str = match &rule.target_field {
            Some(t) => t.as_str(),
            None => rule.source_field.as_str(),
        };
        match &rule.transformation {
            TransformationType::Aggregate { operation, group_by } => {
                let ghost groups = group_fields(*group_by);
                match group_by {
                    Some(fields) => {
                        let mut k: usize = 0;
                        assert(groups.take(0) =~= Seq::<Seq<char>>::empty());
                        while k < fields.len()
                            invariant
                                k <= fields.len(),
                                groups == texts_of(fields@),
                                texts_of(headers@) == with_names(before, groups.take(k as int)),
                            decreases fields.len() - k,
                        {
                            proof {
                                assert(groups.take(k + 1).drop_last() =~= groups.take(k as int));
                                assert(groups.take(k + 1).last() == fields[k as int]@);
                            }
                            add_name(&mut headers, fields[k].as_str());
                            k += 1;
                        }
                        assert(groups.take(fields.len() as int) =~= groups);
                    },
                    None => {},
                }
                add_name(&mut headers, target);
                proof {
                    let all = groups.push(target@);
                    assert(all.drop_last() =~= groups);
                    assert(all.last() == target@);
                    assert(rule_headers(*rule) == all);
                    assert(with_names(before, all) == with_name(
                        with_names(before, groups),
                        target@,
                    ));
                }
            },
            TransformationType::Join { .. } => {
                assert(rule_headers(*rule) =~= Seq::<Seq<char>>::empty());
                assert(with_names(before, Seq::<Seq<char>>::empty()) == before);
            },
            _ => {
                add_name(&mut headers, target);
                proof {
                    let one = seq![target@];
                    assert(one.drop_last() =~= Seq::<Seq<char>>::empty());
                    assert(one.last() == target@);
                    assert(rule_headers(*rule) == one);
                    assert(with_names(before, one.drop_last()) == before);
                    assert(with_names(before, one) == with_name(before, target@));
                }
            },
        }
        i += 1;
    }
    assert(rules@.take(i as int) =~= rules@);
    headers
}

} // verus!
