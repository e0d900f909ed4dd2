use general_etl::config::settings::{
    AuthConfig, AuthCredentials, AuthType, AwsCredentials, CompressionType, DataSourceConfig,
    DatabaseDriver, EtlConfig, FileFormat, OutputConfig as LoadConfig, OutputDestination,
    OutputFormat as LoadFormat, TransformationConfig, TransformationType, WriteMode,
};
use general_etl::extractors::file_reader::FileReader;
use general_etl::extractors::source::{decode_extraction, plan_extraction, Acquisition};
use general_etl::extractors::api_client::ApiClient;
use general_etl::loaders::archiver::Archiver;
use general_etl::loaders::csv_writer::CsvWriter;
use general_etl::loaders::output::{compress_output, encode_records, plan_load, LoadAction};
use general_etl::models::data_types::{DataRecord, MappingRule, TransformationType as Change};
use general_etl::models::json::{JsonNumber, JsonValue};
use general_etl::pipeline::orchestrator::{
    DataSource, EtlPipeline, OutputConfig, OutputFormat, Payload, PipelineState,
};
use general_etl::utils::error::{ErrorKind, EtlError};

fn text(s: &str) -> JsonValue {
    JsonValue::String(s.to_string())
}

fn whole(i: i64) -> JsonValue {
    JsonValue::Number(JsonNumber::from_i64(i))
}

fn record(fields: &[(&str, JsonValue)]) -> DataRecord {
    let mut r = DataRecord::new();
    for (k, v) in fields {
        r.insert(k.to_string(), v.clone());
    }
    r
}

fn names(list: &[&str]) -> Vec<String> {
    list.iter().map(|s| s.to_string()).collect()
}

fn config(source: DataSourceConfig, rules: usize) -> EtlConfig {
    EtlConfig {
        name: "run".to_string(),
        description: None,
        data_source: source,
        transformations: (0..rules)
            .map(|i| TransformationConfig {
                name: format!("r{}", i),
                source_field: "a".to_string(),
                target_field: None,
                transformation: TransformationType::Calculate { expression: "a".to_string() },
                condition: None,
            })
            .collect(),
        output: LoadConfig {
            format: LoadFormat::Parquet,
            destination: OutputDestination::LocalFile { path: "o".to_string(), compress: None },
            options: None,
        },
        settings: None,
    }
}

fn file_source() -> DataSourceConfig {
    DataSourceConfig::LocalFile { path: "in.json".to_string(), format: FileFormat::Json, encoding: None }
}

#[test]
fn csv_round_trip() {
    let records = vec![record(&[("a", text("1")), ("b", text("x"))])];
    let bytes = CsvWriter::new(b',').write_records(&records, &names(&["a", "b"])).unwrap();
    assert_eq!(bytes, b"a,b\n1,x\n".to_vec());
    let back = FileReader::new().read_csv(bytes, ',', true).unwrap();
    assert_eq!(back.len(), 1);
    assert_eq!(back[0].get("a"), Some(&whole(1)));
    assert_eq!(back[0].get("b"), Some(&text("x")));
}

#[test]
fn csv_writer_goes_by_the_headers() {
    let records = vec![
        record(&[("a", text("1")), ("extra", text("no"))]),
        record(&[("b", text("two, three")), ("a", whole(5))]),
        DataRecord::new(),
    ];
    let writer = CsvWriter::new(b';');
    let bytes = writer.write_records(&records, &names(&["a", "b"])).unwrap();
    assert_eq!(String::from_utf8(bytes).unwrap(), "a;b\n1;\n5;two, three\n;\n");
    assert_eq!(writer.row_of(&records[0], &names(&["b", "a", "a"])), names(&["", "1", "1"]));
    let typed = record(&[
        ("n", whole(-7)),
        ("t", JsonValue::Bool(true)),
        ("z", JsonValue::Null),
        ("l", JsonValue::Array(vec![whole(1), text("x")])),
    ]);
    assert_eq!(
        writer.row_of(&typed, &names(&["n", "t", "z", "l"])),
        names(&["-7", "true", "", "[1,\"x\"]"])
    );
}

#[test]
fn csv_writer_options() {
    let records = vec![record(&[("a", text("x,y"))])];
    let bytes = CsvWriter::with_options(b',', b'\'', false).write_records(&records, &names(&["a"])).unwrap();
    assert_eq!(String::from_utf8(bytes).unwrap(), "'x,y'\n");
    let bytes = CsvWriter::new(b',').write_records(&[], &names(&["a", "b"])).unwrap();
    assert_eq!(String::from_utf8(bytes).unwrap(), "a,b\n");
}

#[test]
fn validation_accepts_a_complete_configuration() {
    assert!(config(file_source(), 1).validate().is_ok());
}

#[test]
fn validation_reports_the_first_broken_rule() {
    let mut c = config(file_source(), 0);
    c.name = String::new();
    let error = c.validate().unwrap_err();
    assert!(matches!(error, EtlError::ValidationError(_)));
    assert_eq!(error.to_string(), "Validation error: name: cannot be empty");
    c.name = "n".to_string();
    assert_eq!(
        c.validate().unwrap_err().to_string(),
        "Validation error: transformations: at least one transformation must be specified"
    );
}

#[test]
fn validation_checks_the_fields_of_the_source() {
    let database = |c: &str, q: &str| DataSourceConfig::Database {
        connection_string: c.to_string(),
        query: q.to_string(),
        driver: DatabaseDriver::Sqlite,
    };
    assert_eq!(
        config(database("", ""), 1).validate().unwrap_err().to_string(),
        "Validation error: data_source.connection_string: cannot be empty"
    );
    assert_eq!(
        config(database("db", ""), 1).validate().unwrap_err().to_string(),
        "Validation error: data_source.query: cannot be empty"
    );
    assert!(config(database("db", "select 1"), 1).validate().is_ok());
    let store = |b: &str, k: &str, r: &str| DataSourceConfig::S3 {
        bucket: b.to_string(),
        key: k.to_string(),
        region: r.to_string(),
        credentials: None,
    };
    assert_eq!(
        config(store("", "k", "r"), 1).validate().unwrap_err().to_string(),
        "Validation error: data_source.bucket: cannot be empty"
    );
    assert_eq!(
        config(store("b", "", "r"), 1).validate().unwrap_err().to_string(),
        "Validation error: data_source.key: cannot be empty"
    );
    assert_eq!(
        config(store("b", "k", ""), 1).validate().unwrap_err().to_string(),
        "Validation error: data_source.region: cannot be empty"
    );
    let api = DataSourceConfig::Api { url: String::new(), method: None, headers: None, auth: None, retry: None };
    assert_eq!(
        config(api, 1).validate().unwrap_err().to_string(),
        "Validation error: data_source.url: cannot be empty"
    );
}

#[test]
fn errors_are_written_with_their_kind() {
    assert_eq!(EtlError::ApiError("a".to_string()).to_string(), "API request failed: a");
    assert_eq!(EtlError::HttpError(65535, "m".to_string()).to_string(), "HTTP error 65535: m");
    assert_eq!(EtlError::HttpError(0, String::new()).to_string(), "HTTP error 0: ");
    assert_eq!(EtlError::RequestError("r".to_string()).to_string(), "Request error: r");
    assert_eq!(EtlError::ParseError("p".to_string()).to_string(), "Data parsing error: p");
    assert_eq!(EtlError::ConfigError("c".to_string()).to_string(), "Configuration error: c");
    assert_eq!(EtlError::TransformError("t".to_string()).to_string(), "Transformation error: t");
    assert_eq!(EtlError::DatabaseError("d".to_string()).to_string(), "Database error: d");
    assert_eq!(EtlError::AuthError("x".to_string()).to_string(), "Authentication error: x");
    assert_eq!(EtlError::ValidationError("v".to_string()).to_string(), "Validation error: v");
    assert_eq!(EtlError::ParseError("p".to_string()).kind(), ErrorKind::Parse);
}

#[test]
fn outside_errors_are_wrapped() {
    let error = FileReader::new().read_json("{").unwrap_err();
    assert_eq!(error.kind(), ErrorKind::Json);
    assert!(error.to_string().starts_with("JSON processing error: "));
    assert!(error.to_string().len() > "JSON processing error: ".len());
    let error = Archiver::extract_zip(vec![1, 2, 3]).unwrap_err();
    assert_eq!(error.kind(), ErrorKind::Zip);
    assert!(error.to_string().starts_with("Zip archive error: "));
    let error = FileReader::new().read_csv(b"a,b\n1\n".to_vec(), ',', true).unwrap_err();
    assert!(error.to_string().starts_with("CSV processing error: "));
    let io = std::io::Error::new(std::io::ErrorKind::Other, "disk");
    let error: EtlError = io.into();
    assert_eq!(error.to_string(), "File I/O error: disk");
    assert_eq!(error.kind(), ErrorKind::Io);
}

#[test]
fn stages_follow_each_other() {
    let (mut state, event) = EtlPipeline::begin();
    assert_eq!(state, PipelineState::Extracting);
    assert_eq!(event.message, "Extracting data...");
    assert_eq!(event.position, 0);
    let expected = [
        (PipelineState::LoadingMappings, 1, "Loading mappings..."),
        (PipelineState::Transforming, 2, "Transforming data..."),
        (PipelineState::Writing, 3, "Writing output..."),
        (PipelineState::Done, 4, "ETL pipeline completed successfully!"),
        (PipelineState::Done, 4, "ETL pipeline completed successfully!"),
    ];
    for (next, position, message) in expected {
        let (to, event, result) = EtlPipeline::advance(state, Ok(()));
        assert_eq!(to, next);
        assert_eq!(event.from, state);
        assert_eq!(event.to, next);
        assert_eq!(event.position, position);
        assert_eq!(event.message, message);
        assert!(result.is_ok());
        state = to;
    }
}

#[test]
fn a_failed_stage_ends_the_run_with_its_error() {
    for (state, position) in [
        (PipelineState::Extracting, 0),
        (PipelineState::LoadingMappings, 1),
        (PipelineState::Transforming, 2),
        (PipelineState::Writing, 3),
    ] {
        let (to, event, result) =
            EtlPipeline::advance(state, Err(EtlError::HttpError(503, "busy".to_string())));
        assert_eq!(to, PipelineState::Failed);
        assert_eq!(event.from, state);
        assert_eq!(event.position, position);
        assert_eq!(event.message, "ETL pipeline failed");
        match result {
            Err(EtlError::HttpError(503, m)) => assert_eq!(m, "busy"),
            other => panic!("unexpected result {:?}", other),
        }
    }
    let (to, _, _) = EtlPipeline::advance(PipelineState::Failed, Ok(()));
    assert_eq!(to, PipelineState::Failed);
    let (to, _, result) = EtlPipeline::advance(PipelineState::Done, Err(EtlError::ApiError("late".to_string())));
    assert_eq!(to, PipelineState::Done);
    assert!(result.is_err());
}

#[test]
fn payloads_are_decoded_by_their_source() {
    let pipeline = EtlPipeline::new("http://base".to_string());
    let json = JsonValue::Array(vec![JsonValue::Object(vec![("id".to_string(), whole(1))])]);
    let records = pipeline.extract_data(&DataSource::Api("e".to_string()), Payload::Json(json)).unwrap();
    assert_eq!(records.len(), 1);
    assert_eq!(records[0].get("id"), Some(&whole(1)));
    let records = pipeline
        .extract_data(&DataSource::CsvApi("e".to_string()), Payload::Text("a,b\n1,2\n3,4\n".to_string()))
        .unwrap();
    assert_eq!(records.len(), 2);
    assert_eq!(records[1].get("b"), Some(&whole(4)));
    let archive = Archiver::create_zip(vec![("x.json".to_string(), b"{\"k\":true}".to_vec())]).unwrap();
    let records = pipeline.extract_data(&DataSource::ZipApi("e".to_string()), Payload::Bytes(archive)).unwrap();
    assert_eq!(records.len(), 1);
    assert_eq!(records[0].get("k"), Some(&JsonValue::Bool(true)));
    let error = pipeline
        .extract_data(&DataSource::Api("e".to_string()), Payload::Text("[]".to_string()))
        .unwrap_err();
    assert_eq!(error.to_string(), "Request error: Payload does not match the data source");
    let error = pipeline.parse_json_to_records(whole(1)).unwrap_err();
    assert_eq!(error.to_string(), "Data parsing error: JSON must be object or array");
}

#[test]
fn mappings_are_loaded_from_a_json_object() {
    let mut pipeline = EtlPipeline::new(String::new());
    pipeline.load_mappings("{\"category:1\":\"Games\",\"category:2\":\"Toys\"}").unwrap();
    let rules = vec![MappingRule {
        source_field: "id".to_string(),
        target_field: "source_id".to_string(),
        transformation: Some(Change::Lookup("category".to_string())),
    }];
    let data = pipeline
        .transform_data(vec![record(&[("id", text("2"))]), record(&[("id", text("3"))])], &rules)
        .unwrap();
    assert_eq!(data.records[0].get("source_id"), Some(&text("Toys")));
    assert_eq!(data.records[1].get("source_id"), Some(&text("3")));
    assert_eq!(data.metadata.record_count, 2);
    assert_eq!(data.metadata.source, "API");
    assert!(data.metadata.timestamp > 1_600_000_000_000);
}

#[test]
fn malformed_mappings_are_refused() {
    let mut pipeline = EtlPipeline::new(String::new());
    assert!(matches!(pipeline.load_mappings("{").unwrap_err(), EtlError::JsonError(_)));
    let error = pipeline.load_mappings("[1]").unwrap_err();
    assert_eq!(error.to_string(), "Configuration error: Mapping file must be a JSON object of strings");
    let error = pipeline.load_mappings("{\"a\":\"x\",\"b\":2}").unwrap_err();
    assert_eq!(error.to_string(), "Configuration error: Mapping file must be a JSON object of strings");
    let data = pipeline
        .transform_data(
            vec![record(&[("id", text(""))])],
            &[MappingRule {
                source_field: "id".to_string(),
                target_field: "t".to_string(),
                transformation: Some(Change::Lookup("a".to_string())),
            }],
        )
        .unwrap();
    assert_eq!(data.records[0].get("t"), Some(&text("")));
    assert!(pipeline.mapping_list(JsonValue::Object(Vec::new())).unwrap().is_empty());
}

#[test]
fn stamped_data_carries_what_it_is_given() {
    let data = EtlPipeline::stamped(vec![DataRecord::new(), DataRecord::new()], 1234);
    assert_eq!(data.metadata.timestamp, 1234);
    assert_eq!(data.metadata.record_count, 2);
    assert_eq!(data.records.len(), 2);
}

#[test]
fn output_headers_are_the_targets_of_the_rules() {
    let rule = |t: &str| MappingRule {
        source_field: "s".to_string(),
        target_field: t.to_string(),
        transformation: None,
    };
    let headers = EtlPipeline::headers_of(&[rule("b"), rule("a"), rule("b"), rule("c"), rule("a")]);
    assert_eq!(headers, names(&["b", "a", "c"]));
    assert!(EtlPipeline::headers_of(&[]).is_empty());
}

#[test]
fn output_is_written_as_delimited_text() {
    let pipeline = EtlPipeline::new(String::new());
    let rules = vec![
        MappingRule { source_field: "name".to_string(), target_field: "game_name".to_string(), transformation: Some(Change::Uppercase) },
        MappingRule { source_field: "id".to_string(), target_field: "source_id".to_string(), transformation: None },
    ];
    let data = pipeline
        .transform_data(vec![record(&[("name", text("zelda")), ("id", text("7"))])], &rules)
        .unwrap();
    let plain = OutputConfig { format: OutputFormat::Tsv, path: "o.tsv".to_string(), compress: false };
    let bytes = pipeline.write_output(&data, &rules, &plain).unwrap();
    assert_eq!(String::from_utf8(bytes).unwrap(), "game_name\tsource_id\nZELDA\t7\n");
    let packed = OutputConfig { format: OutputFormat::Csv, path: "o.zip".to_string(), compress: true };
    let bytes = pipeline.write_output(&data, &rules, &packed).unwrap();
    let files = Archiver::extract_zip(bytes).unwrap();
    assert_eq!(files, vec![("output.csv".to_string(), b"game_name,source_id\nZELDA,7\n".to_vec())]);
}

#[test]
fn records_are_encoded_as_json() {
    let records = vec![record(&[("b", whole(1)), ("a", text("x"))]), DataRecord::new()];
    let compact = encode_records(records.clone(), &[], &LoadFormat::Json { pretty_print: None }).unwrap();
    assert_eq!(String::from_utf8(compact).unwrap(), "[{\"a\":\"x\",\"b\":1},{}]");
    let pretty = encode_records(records, &[], &LoadFormat::Json { pretty_print: Some(true) }).unwrap();
    assert_eq!(
        String::from_utf8(pretty).unwrap(),
        "[\n  {\n    \"a\": \"x\",\n    \"b\": 1\n  },\n  {}\n]"
    );
}

#[test]
fn records_are_encoded_as_delimited_text() {
    let records = vec![record(&[("a", text("x|y")), ("b", text("z"))])];
    let format = LoadFormat::Csv { delimiter: Some('|'), quote_char: Some('\''), headers: Some(false) };
    let bytes = encode_records(records.clone(), &names(&["a", "b"]), &format).unwrap();
    assert_eq!(String::from_utf8(bytes).unwrap(), "'x|y'|z\n");
    let format = LoadFormat::Csv { delimiter: None, quote_char: None, headers: None };
    let bytes = encode_records(records, &names(&["b"]), &format).unwrap();
    assert_eq!(String::from_utf8(bytes).unwrap(), "b\nz\n");
}

#[test]
fn unsupported_output_formats_are_refused() {
    let refuse = |format: LoadFormat| encode_records(Vec::new(), &[], &format).unwrap_err().to_string();
    assert_eq!(
        refuse(LoadFormat::Excel { sheet_name: None }),
        "Configuration error: Excel output not yet implemented"
    );
    assert_eq!(refuse(LoadFormat::Parquet), "Configuration error: Parquet output not yet implemented");
    assert_eq!(
        refuse(LoadFormat::Database { table_name: "t".to_string(), mode: WriteMode::Append }),
        "Configuration error: Database output needs a database destination"
    );
}

#[test]
fn output_is_packed_as_the_destination_asks() {
    assert_eq!(compress_output("f", vec![1, 2], None).unwrap(), vec![1, 2]);
    let packed = compress_output("f.csv", vec![1, 2], Some(CompressionType::Zip)).unwrap();
    assert_eq!(Archiver::extract_zip(packed).unwrap(), vec![("f.csv".to_string(), vec![1, 2])]);
    for (kind, name) in [
        (CompressionType::Gzip, "Gzip"),
        (CompressionType::Bzip2, "Bzip2"),
        (CompressionType::Zstd, "Zstd"),
    ] {
        assert_eq!(
            compress_output("f", Vec::new(), Some(kind)).unwrap_err().to_string(),
            format!("Configuration error: {} compression not yet implemented", name)
        );
    }
}

fn load(format: LoadFormat, destination: OutputDestination) -> Result<LoadAction, EtlError> {
    let records = vec![record(&[("a", text("x"))])];
    plan_load(
        records,
        &names(&["a"]),
        LoadConfig { format, destination, options: None },
        &ApiClient::new(),
    )
}

#[test]
fn load_to_a_local_file() {
    let csv = || LoadFormat::Csv { delimiter: None, quote_char: None, headers: None };
    match load(csv(), OutputDestination::LocalFile { path: "o.csv".to_string(), compress: None }).unwrap() {
        LoadAction::WriteFile { path, bytes } => {
            assert_eq!(path, "o.csv");
            assert_eq!(bytes, b"a\nx\n".to_vec());
        }
        other => panic!("unexpected action {:?}", other),
    }
    let error = load(
        csv(),
        OutputDestination::LocalFile { path: "o".to_string(), compress: Some(CompressionType::Gzip) },
    )
    .unwrap_err();
    assert_eq!(error.to_string(), "Configuration error: Gzip compression not yet implemented");
    let error = load(
        LoadFormat::Parquet,
        OutputDestination::LocalFile { path: "o".to_string(), compress: Some(CompressionType::Gzip) },
    )
    .unwrap_err();
    assert_eq!(error.to_string(), "Configuration error: Gzip compression not yet implemented");
    let error = load(LoadFormat::Parquet, OutputDestination::LocalFile { path: "o".to_string(), compress: None })
        .unwrap_err();
    assert_eq!(error.to_string(), "Configuration error: Parquet output not yet implemented");
}

#[test]
fn load_to_a_database() {
    let table = || LoadFormat::Database { table_name: "t".to_string(), mode: WriteMode::Upsert };
    let database = || OutputDestination::Database { connection_string: "db".to_string(), driver: DatabaseDriver::Postgres };
    match load(table(), database()).unwrap() {
        LoadAction::WriteTable { connection_string, driver, table_name, mode, records } => {
            assert_eq!(connection_string, "db");
            assert_eq!(driver, DatabaseDriver::Postgres);
            assert_eq!(table_name, "t");
            assert_eq!(mode, WriteMode::Upsert);
            assert_eq!(records.len(), 1);
        }
        other => panic!("unexpected action {:?}", other),
    }
    let error = load(LoadFormat::Json { pretty_print: None }, database()).unwrap_err();
    assert_eq!(
        error.to_string(),
        "Configuration error: A database destination needs the database output format"
    );
    let error = load(table(), OutputDestination::LocalFile { path: "o".to_string(), compress: None }).unwrap_err();
    assert_eq!(error.to_string(), "Configuration error: Database output needs a database destination");
}

#[test]
fn load_to_an_object_store_and_an_api() {
    let json = || LoadFormat::Json { pretty_print: None };
    let store = OutputDestination::S3 {
        bucket: "b".to_string(),
        key: "k".to_string(),
        region: "r".to_string(),
        credentials: Some(AwsCredentials {
            access_key_id: "id".to_string(),
            secret_access_key: "SECRET-REDACTED".to_string(),
            session_token: None,
        }),
    };
    match load(json(), store).unwrap() {
        LoadAction::PutObject { bucket, key, region, credentials, bytes } => {
            assert_eq!((bucket.as_str(), key.as_str(), region.as_str()), ("b", "k", "r"));
            assert_eq!(credentials.unwrap().access_key_id, "id");
            assert_eq!(bytes, b"[{\"a\":\"x\"}]".to_vec());
        }
        other => panic!("unexpected action {:?}", other),
    }
    let api = |method: Option<&str>, auth: Option<AuthConfig>| OutputDestination::Api {
        url: "http://sink".to_string(),
        method: method.map(|m| m.to_string()),
        headers: None,
        auth,
    };
    match load(json(), api(None, None)).unwrap() {
        LoadAction::Send { request, body } => {
            assert_eq!(request.method, "POST");
            assert_eq!(request.url, "http://sink");
            assert_eq!(body, b"[{\"a\":\"x\"}]".to_vec());
        }
        other => panic!("unexpected action {:?}", other),
    }
    match load(json(), api(Some("PUT"), None)).unwrap() {
        LoadAction::Send { request, .. } => assert_eq!(request.method, "PUT"),
        other => panic!("unexpected action {:?}", other),
    }
    let oauth = AuthConfig {
        auth_type: AuthType::OAuth2,
        credentials: AuthCredentials { username: None, password: None, token: None, api_key: None, header_name: None },
    };
    let error = load(json(), api(None, Some(oauth))).unwrap_err();
    assert_eq!(error.to_string(), "Configuration error: OAuth2 authentication not yet implemented");
}

#[test]
fn extraction_is_planned_by_the_source() {
    let client = ApiClient::new();
    match plan_extraction(file_source(), &client).unwrap() {
        Acquisition::ReadFile { path } => assert_eq!(path, "in.json"),
        other => panic!("unexpected plan {:?}", other),
    }
    let api = DataSourceConfig::Api {
        url: "http://x".to_string(),
        method: Some("PATCH".to_string()),
        headers: None,
        auth: None,
        retry: None,
    };
    match plan_extraction(api, &client).unwrap() {
        Acquisition::Http(plan) => {
            assert_eq!(plan.method, "PATCH");
            assert_eq!(plan.url, "http://x");
        }
        other => panic!("unexpected plan {:?}", other),
    }
    let bad = DataSourceConfig::Api {
        url: "http://x".to_string(),
        method: Some("no method".to_string()),
        headers: None,
        auth: None,
        retry: None,
    };
    assert!(matches!(plan_extraction(bad, &client).unwrap_err(), EtlError::ConfigError(_)));
    let database = DataSourceConfig::Database {
        connection_string: "db".to_string(),
        query: "q".to_string(),
        driver: DatabaseDriver::Surreal,
    };
    match plan_extraction(database, &client).unwrap() {
        Acquisition::Query { connection_string, query, driver } => {
            assert_eq!((connection_string.as_str(), query.as_str()), ("db", "q"));
            assert_eq!(driver, DatabaseDriver::Surreal);
        }
        other => panic!("unexpected plan {:?}", other),
    }
    let store = DataSourceConfig::S3 {
        bucket: "b".to_string(),
        key: "k.csv".to_string(),
        region: "r".to_string(),
        credentials: None,
    };
    match plan_extraction(store, &client).unwrap() {
        Acquisition::GetObject { bucket, key, region, credentials } => {
            assert_eq!((bucket.as_str(), key.as_str(), region.as_str()), ("b", "k.csv", "r"));
            assert!(credentials.is_none());
        }
        other => panic!("unexpected plan {:?}", other),
    }
}

#[test]
fn fetched_bytes_are_decoded_by_the_source() {
    let records = decode_extraction(file_source(), b"[{\"a\":1},{\"a\":2}]".to_vec()).unwrap();
    assert_eq!(records.len(), 2);
    let api = DataSourceConfig::Api { url: "http://x".to_string(), method: None, headers: None, auth: None, retry: None };
    let records = decode_extraction(api.clone(), b"{\"a\":1}".to_vec()).unwrap();
    assert_eq!(records.len(), 1);
    let error = decode_extraction(api, vec![0xff]).unwrap_err();
    assert_eq!(error.to_string(), "Data parsing error: Invalid UTF-8 in file http://x");
    let store = |key: &str| DataSourceConfig::S3 {
        bucket: "b".to_string(),
        key: key.to_string(),
        region: "r".to_string(),
        credentials: None,
    };
    assert_eq!(decode_extraction(store("d/x.csv"), b"a\n1\n2\n".to_vec()).unwrap().len(), 2);
    assert_eq!(decode_extraction(store("x.tsv"), b"a\tb\n1\t2\n".to_vec()).unwrap().len(), 1);
    assert_eq!(decode_extraction(store("x.json"), b"[]".to_vec()).unwrap().len(), 0);
    let archive = Archiver::create_zip(vec![("i.csv".to_string(), b"a\n1\n".to_vec())]).unwrap();
    assert_eq!(decode_extraction(store("x.zip"), archive).unwrap().len(), 1);
    let error = decode_extraction(store("x.parquet"), Vec::new()).unwrap_err();
    assert_eq!(error.to_string(), "Configuration error: Unsupported object format: x.parquet");
    let database = DataSourceConfig::Database {
        connection_string: "db".to_string(),
        query: "q".to_string(),
        driver: DatabaseDriver::Mysql,
    };
    let error = decode_extraction(database, Vec::new()).unwrap_err();
    assert_eq!(error.to_string(), "Configuration error: Records of a database come from its adapter");
}

#[test]
fn headers_are_declared_by_the_rules() {
    use_rules_for_headers();
}

fn use_rules_for_headers() {
    let rule = |name: &str, source: &str, target: Option<&str>, kind: TransformationType| TransformationConfig {
        name: name.to_string(),
        source_field: source.to_string(),
        target_field: target.map(|t| t.to_string()),
        transformation: kind,
        condition: None,
    };
    let copy = || TransformationType::Mapping { mapping: Vec::new() };
    let rules = vec![
        rule("a", "a", None, copy()),
        rule("b", "a", Some("b"), copy()),
        rule("again", "b", Some("a"), copy()),
        rule(
            "sum",
            "n",
            Some("total"),
            TransformationType::Aggregate {
                operation: general_etl::config::settings::AggregateOperation::Sum,
                group_by: Some(names(&["region", "a"])),
            },
        ),
        rule(
            "join",
            "a",
            Some("ignored"),
            TransformationType::Join {
                join_source: "s".to_string(),
                join_key: "k".to_string(),
                join_type: general_etl::config::settings::JoinType::Left,
            },
        ),
        rule(
            "count",
            "n",
            None,
            TransformationType::Aggregate {
                operation: general_etl::config::settings::AggregateOperation::Count,
                group_by: None,
            },
        ),
    ];
    assert_eq!(
        general_etl::loaders::output::headers_of_rules(&rules),
        names(&["a", "b", "region", "total", "n"])
    );
    assert!(general_etl::loaders::output::headers_of_rules(&[]).is_empty());
}
