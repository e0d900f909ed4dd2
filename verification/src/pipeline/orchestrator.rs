use crate::extractors::api_client::ApiClient;
use crate::extractors::file_reader::{
    delimited_records, read_gives, records_of_json, zip_records, FileReader, ReadFailure,
    ReadOutcome,
};
use crate::loaders::archiver::{files_model, packed_archive, packing_is, Archiver};
use crate::loaders::csv_writer::{table_rows, CsvWriter};
use crate::models::data_types::{records_model, DataRecord, MappingRule, Metadata, ProcessedData};
use crate::models::json::{json_text_value, parse_json_text, JsonModel, JsonValue};
use crate::transformers::processor::{batch_result_is, entries_loaded, entry_texts, DataProcessor};
use crate::utils::csv_text::csv_bytes_of;
use crate::utils::error::{EtlError, Result};
use crate::utils::text::{text_eq, texts_of};
use vstd::prelude::*;
use vstd::string::{StrSliceExecFns, StringExecFns};

verus! {

/// Where a run takes its records from: an endpoint that answers with JSON,
/// with delimited text, or with an archive.
#[derive(Debug, Clone)]
pub enum DataSource {
    Api(String),
    CsvApi(String),
    ZipApi(String),
}

/// The format of the output file.
#[derive(Debug, Clone, Copy, PartialEq, Eq, Structural)]
pub enum OutputFormat {
    Csv,
    Tsv,
}

/// Where and how a run writes its output.
#[derive(Debug, Clone)]
pub struct OutputConfig {
    pub format: OutputFormat,
    pub path: String,
    pub compress: bool,
}

/// What one run does.
#[derive(Debug, Clone)]
pub struct PipelineConfig {
    pub source: DataSource,
    pub mapping_file: String,
    pub rules: Vec<MappingRule>,
    pub output: OutputConfig,
}

/// What an endpoint answered with.
#[derive(Debug)]
pub enum Payload {
    Json(JsonValue),
    Text(String),
    Bytes(Vec<u8>),
}

/// The stage that a run is in.
#[derive(Debug, Clone, Copy, PartialEq, Eq, Structural)]
pub enum PipelineState {
    Extracting,
    LoadingMappings,
    Transforming,
    Writing,
    Done,
    Failed,
}

/// What is reported when a run moves from one stage to the next.
#[derive(Debug)]
pub struct ProgressEvent {
    pub from: PipelineState,
    pub to: PipelineState,
    /// How many of the four stages are completed.
    pub position: u64,
    pub message: String,
}

/// The stage that follows a stage that succeeded. A run that is done or has
/// failed stays as it is.
pub open spec fn successor(state: PipelineState) -> PipelineState {
    match state {
        PipelineState::Extracting => PipelineState::LoadingMappings,
        PipelineState::LoadingMappings => PipelineState::Transforming,
        PipelineState::Transforming => PipelineState::Writing,
        PipelineState::Writing => PipelineState::Done,
        PipelineState::Done => PipelineState::Done,
        PipelineState::Failed => PipelineState::Failed,
    }
}

/// Whether a run has ended.
pub open spec fn is_terminal(state: PipelineState) -> bool {
    state == PipelineState::Done || state == PipelineState::Failed
}

/// The number of stages that are completed when a run is in a stage.
pub open spec fn completed_stages(state: PipelineState) -> u64 {
    match state {
        PipelineState::Extracting => 0,
        PipelineState::LoadingMappings => 1,
        PipelineState::Transforming => 2,
        PipelineState::Writing => 3,
        PipelineState::Done => 4,
        PipelineState::Failed => 0,
    }
}

/// What a stage tells the observer when the run enters it.
pub open spec fn stage_message(state: PipelineState) -> Seq<char> {
    match state {
        PipelineState::Extracting => "Extracting data..."@,
        PipelineState::LoadingMappings => "Loading mappings..."@,
        PipelineState::Transforming => "Transforming data..."@,
        PipelineState::Writing => "Writing output..."@,
        PipelineState::Done => "ETL pipeline completed successfully!"@,
        PipelineState::Failed => "ETL pipeline failed"@,
    }
}

/// The stage that follows `state` when its work ended as `succeeded` says:
/// the next stage in line, or failure. A run that has ended stays as it is.
pub open spec fn next_state(state: PipelineState, succeeded: bool) -> PipelineState {
    if is_terminal(state) || succeeded {
        successor(state)
    } else {
        PipelineState::Failed
    }
}

/// Four stages that succeed take a run from its start to its end.
pub proof fn law_four_stages_end_the_run()
    ensures
        successor(successor(successor(successor(PipelineState::Extracting))))
            == PipelineState::Done,
{
}

/// A run that has failed never leaves that state, whatever follows.
pub proof fn law_ended_run_stays(succeeded: bool)
    ensures
        next_state(PipelineState::Failed, succeeded) == PipelineState::Failed,
        next_state(PipelineState::Done, succeeded) == PipelineState::Done,
{
}

/// The entries of a mapping document: the fields of a JSON object whose
/// values are all strings, each as a key and a value, or nothing where the
/// document is anything else.
pub open spec fn mapping_entries(json: JsonModel) -> Option<Seq<(Seq<char>, Seq<char>)>> {
    match json {
        JsonModel::Object(pairs) => if forall|i: int|
            0 <= i < pairs.len() ==> (#[trigger] pairs[i]).1 is String {
            Some(Seq::new(pairs.len(), |i: int| (pairs[i].0, pairs[i].1->String_0)))
        } else {
            None
        },
        _ => None,
    }
}

/// The headers of the output: the target fields of the rules, in the order
/// of the rules, each once.
pub open spec fn output_headers(rules: Seq<MappingRule>) -> Seq<Seq<char>>
    decreases rules.len(),
{
    if rules.len() == 0 {
        Seq::empty()
    } else {
        let front = output_headers(rules.drop_last());
        if front.contains(rules.last().target_field@) {
            front
        } else {
            front.push(rules.last().target_field@)
        }
    }
}

/// The byte that separates the fields of an output format.
pub open spec fn format_delimiter(format: OutputFormat) -> u8 {
    match format {
        OutputFormat::Csv => 44,
        OutputFormat::Tsv => 9,
    }
}

/// The name of the one file inside a compressed output.
pub open spec fn packed_name(format: OutputFormat) -> Seq<char> {
    match format {
        OutputFormat::Csv => "output.csv"@,
        OutputFormat::Tsv => "output.tsv"@,
    }
}

/// Runs the stages of a pipeline: extraction, mappings, transformation and
/// output.
pub struct EtlPipeline {
    api_client: ApiClient,
    processor: DataProcessor,
}

impl EtlPipeline {
    /// What the cache of lookup tables holds.
    pub closed spec fn mappings(&self) -> Map<Seq<char>, Seq<char>> {
        self.processor.mappings()
    }

    /// A pipeline with an empty cache and a client for HTTP requests.
    pub fn new(base_url: String) -> (r: Self)
        ensures
            r.mappings() == crate::transformers::processor::no_entries(),
            r.client().timeout() == 30,
    {
        EtlPipeline {
            api_client: ApiClient::new(),
            processor: DataProcessor::new(),
        }
    }

    /// The client that prepares the run's HTTP requests.
    pub closed spec fn client(&self) -> ApiClient {
        self.api_client
    }

    /// The client that prepares the run's HTTP requests.
    pub fn api_client(&self) -> (r: &ApiClient)
        ensures
            *r == self.client(),
    {
        &self.api_client
    }

    /// The first stage of a run, and the event that reports it.
    pub fn begin() -> (r: (PipelineState, ProgressEvent))
        ensures
            r.0 == PipelineState::Extracting,
            r.1.from == PipelineState::Extracting,
            r.1.to == PipelineState::Extracting,
            r.1.position == 0,
            r.1.message@ == stage_message(PipelineState::Extracting),
    {
        (
            PipelineState::Extracting,
            ProgressEvent {
                from: PipelineState::Extracting,
                to: PipelineState::Extracting,
                position: 0,
                message: String::from_str("Extracting data..."),
            },
        )
    }

    /// Moves a run on when the work of its stage has ended. A stage that
    /// succeeded is followed by the next in line; a stage that failed ends
    /// the run, and its error is handed back as it came. The event reports
    /// the move.
    pub fn advance(state: PipelineState, outcome: Result<()>) -> (r: (
        PipelineState,
        ProgressEvent,
        Result<()>,
    ))
        ensures
            r.0 == next_state(state, outcome is Ok),
            r.1.from == state,
            r.1.to == r.0,
            r.1.position == (if r.0 == PipelineState::Failed {
                completed_stages(state)
            } else {
                completed_stages(r.0)
            }),
            r.1.message@ == stage_message(r.0),
            r.2 == outcome,
    {
        let succeeded: bool = outcome.is_ok();
        let next: PipelineState = match state {
            PipelineState::Done => PipelineState::Done,
            PipelineState::Failed => PipelineState::Failed,
            PipelineState::Extracting => if succeeded {
                PipelineState::LoadingMappings
            } else {
                PipelineState::Failed
            },
            PipelineState::LoadingMappings => if succeeded {
                PipelineState::Transforming
            } else {
                PipelineState::Failed
            },
            PipelineState::Transforming => if succeeded {
                PipelineState::Writing
            } else {
                PipelineState::Failed
            },
            PipelineState::Writing => if succeeded {
                PipelineState::Done
            } else {
                PipelineState::Failed
            },
        };
        let counted: PipelineState = match next {
            PipelineState::Failed => state,
            _ => next,
        };
        let position: u64 = match counted {
            PipelineState::Extracting => 0,
            PipelineState::LoadingMappings => 1,
            PipelineState::Transforming => 2,
            PipelineState::Writing => 3,
            PipelineState::Done => 4,
            PipelineState::Failed => 0,
        };
        let message: &str = match next {
            PipelineState::Extracting => "Extracting data...",
            PipelineState::LoadingMappings => "Loading mappings...",
            PipelineState::Transforming => "Transforming data...",
            PipelineState::Writing => "Writing output...",
            PipelineState::Done => "ETL pipeline completed successfully!",
            PipelineState::Failed => "ETL pipeline failed",
        };
        (
            next,
            ProgressEvent { from: state, to: next, position, message: String::from_str(message) },
            outcome,
        )
    }

    /// Decodes what an endpoint answered with into records: JSON as a JSON
    /// document, text as comma-delimited text with a header row, bytes as
    /// an archive of which every entry is decoded.
    pub fn extract_data(&self, source: &DataSource, payload: Payload) -> (r: Result<
        Vec<DataRecord>,
    >)
        ensures
            match (*source, payload) {
                (DataSource::Api(_), Payload::Json(json)) => read_gives(
                    r,
                    match records_of_json(json@) {
                        Some(records) => ReadOutcome::Ok(records),
                        None => ReadOutcome::Err(ReadFailure::JsonShape),
                    },
                ),
                (DataSource::CsvApi(_), Payload::Text(text)) => read_gives(
                    r,
                    delimited_records(vstd::utf8::encode_utf8(text@), ',', true),
                ),
                (DataSource::ZipApi(_), Payload::Bytes(bytes)) => read_gives(
                    r,
                    zip_records(bytes@, Seq::empty()),
                ),
                _ => r matches Err(EtlError::RequestError(m)) && m@
                    == "Payload does not match the data source"@,
            },
    {
        match (source, payload) {
            (DataSource::Api(_), Payload::Json(json)) => self.parse_json_to_records(json),
            (DataSource::CsvApi(_), Payload::Text(text)) => self.parse_csv_to_records(
                text.as_str(),
            ),
            (DataSource::ZipApi(_), Payload::Bytes(bytes)) => self.extract_and_parse_zip(bytes),
            _ => Err(
                EtlError::RequestError(String::from_str("Payload does not match the data source")),
            ),
        }
    }

    /// The records of a JSON document.
    pub fn parse_json_to_records(&self, json: JsonValue) -> (r: Result<Vec<DataRecord>>)
        ensures
            read_gives(
                r,
                match records_of_json(json@) {
                    Some(records) => ReadOutcome::Ok(records),
                    None => ReadOutcome::Err(ReadFailure::JsonShape),
                },
            ),
    {
        FileReader::new().records_from_json(json)
    }

    /// The records of comma-delimited text with a header row.
    pub fn parse_csv_to_records(&self, csv_data: &str) -> (r: Result<Vec<DataRecord>>)
        ensures
            read_gives(r, delimited_records(vstd::utf8::encode_utf8(csv_data@), ',', true)),
    {
        FileReader::new().read_csv(csv_data.as_bytes_vec(), ',', true)
    }

    /// The records of every entry of an archive.
    pub fn extract_and_parse_zip(&self, zip_data: Vec<u8>) -> (r: Result<Vec<DataRecord>>)
        ensures
            read_gives(r, zip_records(zip_data@, Seq::empty())),
    {
        let none: Vec<String> = Vec::new();
        assert(texts_of(none@) =~= Seq::<Seq<char>>::empty());
        FileReader::new().read_zip(zip_data, none)
    }

    /// The entries of a mapping document, as keys and values.
    pub fn mapping_list(&self, json: JsonValue) -> (r: Result<Vec<(String, String)>>)
        ensures
            match mapping_entries(json@) {
                Some(entries) => r matches Ok(list) && entry_texts(list@) == entries,
                None => r matches Err(EtlError::ConfigError(m)) && m@
                    == "Mapping file must be a JSON object of strings"@,
            },
    {
        match json {
            JsonValue::Object(fields) => {
                let ghost pairs = json@->Object_0;
                proof {
                    crate::models::json::lemma_fields_model(fields@);
                }
                let count: usize = fields.len();
                let mut list: Vec<(String, String)> = Vec::new();
                let mut index: usize = 0;
                for field in it: fields
                    invariant
                        index == it.index(),
                        list.len() == index,
                        json@ == JsonModel::Object(pairs),
                        it.seq().len() == pairs.len(),
                        pairs.len() == count,
                        forall|k: int|
                            0 <= k < pairs.len() ==> (#[trigger] it.seq()[k]).0@ == pairs[k].0
                                && it.seq()[k].1@ == pairs[k].1,
                        forall|k: int| 0 <= k < index ==> (#[trigger] pairs[k]).1 is String,
                        forall|k: int|
                            0 <= k < index ==> (#[trigger] list[k]).0@ == pairs[k].0 && list[k].1@
                                == pairs[k].1->String_0,
                {
                    let (key, value) = field;
                    match value {
                        JsonValue::String(text) => {
                            list.push((key, text));
                        },
                        _ => {
                            assert(!(pairs[index as int].1 is String));
                            return Err(
                                EtlError::ConfigError(
                                    String::from_str(
                                        "Mapping file must be a JSON object of strings",
                                    ),
                                ),
                            );
                        },
                    }
                    index += 1;
                }
                assert(entry_texts(list@) =~= mapping_entries(json@)->0);
                Ok(list)
            },
            _ => Err(
                EtlError::ConfigError(
                    String::from_str("Mapping file must be a JSON object of strings"),
                ),
            ),
        }
    }

    /// Loads the lookup tables from the text of a mapping document: a JSON
    /// object that gives a string for each key of the cache. The cache is
    /// changed only where the whole document is well-formed.
    pub fn load_mappings(&mut self, contents: &str) -> (r: Result<()>)
        ensures
            match json_text_value(contents@) {
                None => r matches Err(EtlError::JsonError(_)) && final(self).mappings() == old(
                    self,
                ).mappings(),
                Some(json) => match mapping_entries(json) {
                    None => r matches Err(EtlError::ConfigError(_)) && final(self).mappings()
                        == old(self).mappings(),
                    Some(entries) => r is Ok && final(self).mappings() == entries_loaded(
                        old(self).mappings(),
                        entries,
                    ),
                },
            },
    {
        let json = match parse_json_text(contents) {
            Ok(json) => json,
            Err(e) => {
                return Err(EtlError::JsonError(e));
            },
        };
        let list = match self.mapping_list(json) {
            Ok(list) => list,
            Err(e) => {
                return Err(e);
            },
        };
        self.processor.load_mapping(list);
        Ok(())
    }

    /// Applies the rules to the records and stamps the result with the
    /// time, the source and the number of records. Where the rules fail on
    /// a record, the error is that of such a record.
    pub fn transform_data(&self, records: Vec<DataRecord>, rules: &[MappingRule]) -> (r: Result<
        ProcessedData,
    >)
        ensures
            match r {
                Ok(data) => batch_result_is(
                    Ok(data.records),
                    records_model(records@),
                    rules@,
                    self.mappings(),
                ) && data.metadata.record_count == records.len() && data.metadata.source@
                    == "API"@,
                Err(e) => batch_result_is(
                    Err(e),
                    records_model(records@),
                    rules@,
                    self.mappings(),
                ),
            },
    {
        let processed_records = match self.processor.process_records(records, rules) {
            Ok(processed) => processed,
            Err(e) => {
                return Err(e);
            },
        };
        assert(records_model(processed_records@).len() == processed_records.len());
        assert(records_model(records@).len() == records.len());
        Ok(Self::stamped(processed_records, current_timestamp_millis()))
    }

    /// The records of a run with their metadata, given the time at which
    /// the run produced them.
    pub fn stamped(records: Vec<DataRecord>, timestamp: i64) -> (r: ProcessedData)
        ensures
            r.records == records,
            r.metadata.source@ == "API"@,
            r.metadata.timestamp == timestamp,
            r.metadata.record_count == records.len(),
    {
        let record_count: usize = records.len();
        ProcessedData {
            records,
            metadata: Metadata { source: String::from_str("API"), timestamp, record_count },
        }
    }

    /// The headers of the output of a run under the rules.
    pub fn headers_of(rules: &[MappingRule]) -> (r: Vec<String>)
        ensures
            texts_of(r@) == output_headers(rules@),
    {
        let mut headers: Vec<String> = Vec::new();
        let mut i: usize = 0;
        while i < rules.len()
            invariant
                i <= rules.len(),
                texts_of(headers@) == output_headers(rules@.take(i as int)),
            decreases rules.len() - i,
        {
            let target = &rules[i].target_field;
            let ghost before = texts_of(headers@);
            proof {
                assert(rules@.take(i + 1).drop_last() =~= rules@.take(i as int));
                assert(rules@.take(i + 1).last() == rules@[i as int]);
            }
            let mut found: bool = false;
            let mut k: usize = 0;
            while k < headers.len()
                invariant
                    k <= headers.len(),
                    before == texts_of(headers@),
                    found == exists|j: int| 0 <= j < k && before[j] == target@,
                decreases headers.len() - k,
            {
                if text_eq(headers[k].as_str(), target.as_str()) {
                    assert(before[k as int] == target@);
                    found = true;
                }
                k += 1;
            }
            assert(found == before.contains(target@));
            if !found {
                headers.push(target.clone());
                assert(texts_of(headers@) =~= before.push(target@));
            }
            i += 1;
        }
        assert(rules@.take(i as int) =~= rules@);
        headers
    }

    /// The bytes of the output of a run: the records as delimited text
    /// under the headers that the rules give, packed into an archive where
    /// the configuration asks for compression. Without compression the
    /// call succeeds on every input.
    pub fn write_output(
        &self,
        data: &ProcessedData,
        rules: &[MappingRule],
        output: &OutputConfig,
    ) -> (r: Result<Vec<u8>>)
        ensures
            ({
                let text = csv_bytes_of(
                    table_rows(records_model(data.records@), output_headers(rules@), true),
                    (format_delimiter(output.format), 34u8),
                );
                if output.compress {
                    packing_is(r, packed_archive(seq![(packed_name(output.format), text)]))
                } else {
                    r matches Ok(bytes) && bytes@ == text
                }
            }),
    {
        let headers = Self::headers_of(rules);
        let writer = match output.format {
            OutputFormat::Csv => CsvWriter::new(44),
            OutputFormat::Tsv => CsvWriter::new(9),
        };
        let text = match writer.write_records(data.records.as_slice(), headers.as_slice()) {
            Ok(text) => text,
            Err(e) => {
                return Err(e);
            },
        };
        if output.compress {
            let name: &str = match output.format {
                OutputFormat::Csv => "output.csv",
                OutputFormat::Tsv => "output.tsv",
            };
            let mut files: Vec<(String, Vec<u8>)> = Vec::new();
            files.push((String::from_str(name), text));
            assert(files_model(files@) =~= seq![(packed_name(output.format), text@)]);
            Archiver::create_zip(files)
        } else {
            Ok(text)
        }
    }
}

/// Asks `chrono::Utc::now` for the time and gives it as milliseconds since
/// the Unix epoch, with `timestamp_millis`. Nothing is known of the value.
#[verifier::external_body]
fn current_timestamp_millis() -> i64 {
    chrono::Utc::now().timestamp_millis()
}

} // verus!
