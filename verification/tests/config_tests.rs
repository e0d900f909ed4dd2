use general_etl::config::codec::{decode_char, decode_strings, decode_table, decode_u32, field_of};
use general_etl::config::codec_enums::{decode_auth_type, decode_data_type, write_comparison_operator};
use general_etl::config::codec_source::{decode_file_format, write_file_format};
use general_etl::config::multiplier::{decode_multiplier, read_thousandths, thousandths_string, write_multiplier};
use general_etl::config::settings::{
    AggregateOperation, AuthType, ComparisonOperator, CompressionType, DataSourceConfig, DataType,
    DatabaseDriver, EtlConfig, FileFormat, JoinType, OutputDestination, OutputFormat,
    TransformationType, WriteMode,
};
use general_etl::models::json::{JsonNumber, JsonValue};
use general_etl::utils::error::EtlError;

fn text(s: &str) -> JsonValue {
    JsonValue::String(s.to_string())
}

fn sample() -> &'static str {
    r#"{
  "name": "sales",
  "description": "nightly sales",
  "data_source": {
    "type": "api",
    "url": "https://example.test/sales",
    "method": "GET",
    "headers": {"Accept": "application/json"},
    "auth": {
      "auth_type": "bearer_token",
      "credentials": {"token": "t"}
    },
    "retry": {"max_attempts": 4, "initial_delay_ms": 100, "max_delay_ms": 5000, "backoff_multiplier": 2.5}
  },
  "transformations": [
    {"name": "region", "source_field": "region",
     "transformation": {"type": "map", "mapping": {"n": "north", "s": "south"}}},
    {"name": "total", "source_field": "price", "target_field": "total",
     "transformation": {"type": "calculate", "expression": "price * quantity"},
     "condition": {"field": "quantity", "operator": "greater_than", "value": 0}},
    {"name": "label", "source_field": "region", "target_field": "label",
     "transformation": {"type": "format", "template": "{region}: {total}"}},
    {"name": "price", "source_field": "price",
     "transformation": {"type": "convert", "to_type": "date_time"}},
    {"name": "big", "source_field": "total",
     "transformation": {"type": "filter", "condition": "total >= 10"}},
    {"name": "sum", "source_field": "total", "target_field": "sum",
     "transformation": {"type": "aggregate", "operation": "group_concat", "group_by": ["region"]}},
    {"name": "join", "source_field": "region",
     "transformation": {"type": "join", "join_source": "regions", "join_key": "code", "join_type": "full"}},
    {"name": "look", "source_field": "region",
     "transformation": {"type": "custom", "function": "lookup", "parameters": {"table": "regions", "depth": [1, 2.5]}}}
  ],
  "output": {
    "format": {"csv": {"delimiter": ";", "quote_char": "'", "headers": true}},
    "destination": {"type": "local_file", "path": "out.csv", "compress": "zip"},
    "options": {"batch_size": 100, "filename_template": "f"}
  },
  "settings": {
    "parallel_workers": 4, "memory_limit_mb": 512, "log_level": "info",
    "timeout_seconds": 30, "variables": {"env": "test"}
  }
}"#
}

#[test]
fn a_full_configuration_is_read() {
    let config = EtlConfig::parse(sample()).unwrap();
    assert_eq!(config.name, "sales");
    assert_eq!(config.description.as_deref(), Some("nightly sales"));
    match &config.data_source {
        DataSourceConfig::Api { url, method, headers, auth, retry } => {
            assert_eq!(url, "https://example.test/sales");
            assert_eq!(method.as_deref(), Some("GET"));
            assert_eq!(headers.as_ref().unwrap(), &vec![("Accept".to_string(), "application/json".to_string())]);
            let auth = auth.as_ref().unwrap();
            assert_eq!(auth.auth_type, AuthType::BearerToken);
            assert_eq!(auth.credentials.token.as_deref(), Some("t"));
            assert_eq!(auth.credentials.username, None);
            let retry = retry.unwrap();
            assert_eq!(retry.max_attempts, 4);
            assert_eq!(retry.initial_delay_ms, 100);
            assert_eq!(retry.max_delay_ms, 5000);
            assert_eq!(retry.backoff_multiplier_permille, 2500);
        }
        other => panic!("unexpected source {:?}", other),
    }
    assert_eq!(config.transformations.len(), 8);
    match &config.transformations[0].transformation {
        TransformationType::Mapping { mapping } => {
            assert_eq!(mapping, &vec![("n".to_string(), "north".to_string()), ("s".to_string(), "south".to_string())]);
        }
        other => panic!("unexpected kind {:?}", other),
    }
    let condition = config.transformations[1].condition.as_ref().unwrap();
    assert_eq!(condition.field, "quantity");
    assert_eq!(condition.operator, ComparisonOperator::GreaterThan);
    assert_eq!(condition.value, JsonValue::Number(JsonNumber::PosInt(0)));
    assert_eq!(config.transformations[1].target_field.as_deref(), Some("total"));
    assert!(matches!(&config.transformations[2].transformation, TransformationType::Format { template } if template == "{region}: {total}"));
    assert!(matches!(&config.transformations[3].transformation, TransformationType::Convert { to_type: DataType::DateTime }));
    assert!(matches!(&config.transformations[4].transformation, TransformationType::Filter { condition } if condition == "total >= 10"));
    match &config.transformations[5].transformation {
        TransformationType::Aggregate { operation, group_by } => {
            assert_eq!(*operation, AggregateOperation::GroupConcat);
            assert_eq!(group_by.as_ref().unwrap(), &vec!["region".to_string()]);
        }
        other => panic!("unexpected kind {:?}", other),
    }
    match &config.transformations[6].transformation {
        TransformationType::Join { join_source, join_key, join_type } => {
            assert_eq!((join_source.as_str(), join_key.as_str()), ("regions", "code"));
            assert_eq!(*join_type, JoinType::Full);
        }
        other => panic!("unexpected kind {:?}", other),
    }
    match &config.transformations[7].transformation {
        TransformationType::Custom { function, parameters } => {
            assert_eq!(function, "lookup");
            assert_eq!(parameters.len(), 2);
            assert_eq!(parameters[1], ("table".to_string(), text("regions")));
        }
        other => panic!("unexpected kind {:?}", other),
    }
    match &config.output.format {
        OutputFormat::Csv { delimiter, quote_char, headers } => {
            assert_eq!((*delimiter, *quote_char, *headers), (Some(';'), Some('\''), Some(true)));
        }
        other => panic!("unexpected format {:?}", other),
    }
    match &config.output.destination {
        OutputDestination::LocalFile { path, compress } => {
            assert_eq!(path, "out.csv");
            assert_eq!(*compress, Some(CompressionType::Zip));
        }
        other => panic!("unexpected destination {:?}", other),
    }
    let options = config.output.options.as_ref().unwrap();
    assert_eq!(options.batch_size, Some(100));
    assert_eq!(options.max_file_size, None);
    let settings = config.settings.as_ref().unwrap();
    assert_eq!(settings.parallel_workers, Some(4));
    assert_eq!(settings.timeout_seconds, Some(30));
    assert_eq!(settings.variables.as_ref().unwrap(), &vec![("env".to_string(), "test".to_string())]);
    assert!(config.validate().is_ok());
}

#[test]
fn a_configuration_that_is_written_and_read_back_is_the_same() {
    let config = EtlConfig::parse(sample()).unwrap();
    let json = config.to_json();
    let back = EtlConfig::from_json(&json).unwrap();
    assert_eq!(back.to_json(), json);
    let written = config.serialize().unwrap();
    let again = EtlConfig::parse(&written).unwrap();
    assert_eq!(again.serialize().unwrap(), written);
    assert_eq!(again.to_json(), json);
}

fn converted(value: &serde_json::Value) -> JsonValue {
    match value {
        serde_json::Value::Null => JsonValue::Null,
        serde_json::Value::Bool(b) => JsonValue::Bool(*b),
        serde_json::Value::Number(n) => {
            if let Some(u) = n.as_u64() {
                JsonValue::Number(JsonNumber::PosInt(u))
            } else if let Some(i) = n.as_i64() {
                JsonValue::Number(JsonNumber::NegInt(i))
            } else {
                JsonValue::Number(JsonNumber::Float(n.to_string()))
            }
        }
        serde_json::Value::String(s) => JsonValue::String(s.clone()),
        serde_json::Value::Array(items) => JsonValue::Array(items.iter().map(converted).collect()),
        serde_json::Value::Object(fields) => {
            JsonValue::Object(fields.iter().map(|(name, value)| (name.clone(), converted(value))).collect())
        }
    }
}

fn parse_json_text(text: &str) -> Option<JsonValue> {
    serde_json::from_str::<serde_json::Value>(text).ok().map(|value| converted(&value))
}

fn with_sorted_keys(json: &JsonValue) -> JsonValue {
    match json {
        JsonValue::Array(items) => JsonValue::Array(items.iter().map(with_sorted_keys).collect()),
        JsonValue::Object(fields) => {
            let mut sorted: Vec<(String, JsonValue)> =
                fields.iter().map(|(name, value)| (name.clone(), with_sorted_keys(value))).collect();
            sorted.sort_by(|a, b| a.0.cmp(&b.0));
            JsonValue::Object(sorted)
        }
        other => other.clone(),
    }
}

#[test]
fn what_is_written_is_what_was_read_up_to_the_order_of_keys() {
    let input = parse_json_text(sample()).unwrap();
    let written = EtlConfig::from_json(&input).unwrap().to_json();
    assert_eq!(with_sorted_keys(&written), with_sorted_keys(&input));
    let text = EtlConfig::parse(sample()).unwrap().serialize().unwrap();
    assert_eq!(with_sorted_keys(&parse_json_text(&text).unwrap()), with_sorted_keys(&input));
    assert!(!text.contains("null"));
}

#[test]
fn absent_fields_stay_absent() {
    let minimal = r#"{
        "name": "m",
        "data_source": {"type": "local_file", "path": "in.csv", "format": {"csv": {}}},
        "transformations": [],
        "output": {"format": "parquet", "destination": {"type": "database", "connection_string": "db", "driver": "sqlite"}}
    }"#;
    let config = EtlConfig::parse(minimal).unwrap();
    assert_eq!(config.description, None);
    assert!(config.settings.is_none());
    assert!(config.output.options.is_none());
    match &config.data_source {
        DataSourceConfig::LocalFile { path, format, encoding } => {
            assert_eq!(path, "in.csv");
            assert!(matches!(format, FileFormat::Csv { delimiter: None, has_headers: None }));
            assert_eq!(*encoding, None);
        }
        other => panic!("unexpected source {:?}", other),
    }
    assert!(matches!(config.output.format, OutputFormat::Parquet));
    assert!(matches!(
        &config.output.destination,
        OutputDestination::Database { driver: DatabaseDriver::Sqlite, .. }
    ));
    assert_eq!(
        config.validate().unwrap_err().to_string(),
        "Validation error: transformations: at least one transformation must be specified"
    );
    let written = config.serialize().unwrap();
    assert!(!written.contains("description"));
    assert!(!written.contains("settings"));
    assert!(!written.contains("null"));
    assert_eq!(
        with_sorted_keys(&parse_json_text(&written).unwrap()),
        with_sorted_keys(&parse_json_text(minimal).unwrap())
    );
    assert_eq!(EtlConfig::parse(&written).unwrap().serialize().unwrap(), written);
}

#[test]
fn a_null_in_place_of_a_field_is_refused() {
    let parse = |text: &str| EtlConfig::parse(text).unwrap_err().to_string();
    assert_eq!(
        parse(r#"{"name": "m", "description": null}"#),
        "Configuration error: Invalid configuration: config.description"
    );
    assert_eq!(
        parse(r#"{"name": "m", "data_source": {"type": "local_file", "path": "p", "format": {"csv": {"delimiter": null}}}}"#),
        "Configuration error: Invalid configuration: config.data_source.format.csv.delimiter"
    );
    assert_eq!(
        parse(r#"{"name": "m", "data_source": {"type": "s3", "bucket": "b", "key": "k", "region": "r", "credentials": null}}"#),
        "Configuration error: Invalid configuration: config.data_source.credentials"
    );
}

#[test]
fn unknown_keys_inside_are_refused() {
    let parse = |text: &str| EtlConfig::parse(text).unwrap_err().to_string();
    assert_eq!(
        parse(r#"{"name": "m", "data_source": {"type": "s3", "bucket": "b", "key": "k", "region": "r", "extra": 1}}"#),
        "Configuration error: Invalid configuration: config.data_source.extra"
    );
    assert_eq!(
        parse(r#"{"name": "m", "data_source": {"type": "local_file", "path": "p", "format": {"csv": {"quote": "x"}}}}"#),
        "Configuration error: Invalid configuration: config.data_source.format.csv.quote"
    );
    assert_eq!(
        parse(r#"{"name": "m", "data_source": {"type": "database", "connection_string": "c", "query": "q", "driver": "sqlite", "path": "p"}}"#),
        "Configuration error: Invalid configuration: config.data_source.path"
    );
}

#[test]
fn a_name_that_stands_twice_is_refused() {
    let source = JsonValue::Object(vec![
        ("type".to_string(), text("s3")),
        ("bucket".to_string(), text("a")),
        ("key".to_string(), text("k")),
        ("region".to_string(), text("r")),
        ("bucket".to_string(), text("b")),
    ]);
    let config = JsonValue::Object(vec![("name".to_string(), text("m")), ("data_source".to_string(), source)]);
    assert_eq!(
        EtlConfig::from_json(&config).unwrap_err().to_string(),
        "Configuration error: Invalid configuration: config.data_source"
    );
}

#[test]
fn unknown_keys_at_the_top_are_refused() {
    let error = EtlConfig::parse(
        r#"{"name": "m", "extra": 1, "data_source": {"type": "s3", "bucket": "b", "key": "k", "region": "r"},
            "transformations": [], "output": {"format": "parquet", "destination": {"type": "s3", "bucket": "b", "key": "k", "region": "r"}}}"#,
    )
    .unwrap_err();
    assert_eq!(error.to_string(), "Configuration error: Invalid configuration: config.extra");
}

#[test]
fn malformed_configurations_name_the_field() {
    let parse = |text: &str| EtlConfig::parse(text).unwrap_err().to_string();
    assert!(parse("{").starts_with("JSON processing error: "));
    assert_eq!(parse("[]"), "Configuration error: Invalid configuration: config");
    assert_eq!(parse("{}"), "Configuration error: Invalid configuration: config.name");
    assert_eq!(
        parse(r#"{"name": "n"}"#),
        "Configuration error: Invalid configuration: config.data_source"
    );
    assert_eq!(
        parse(r#"{"name": "n", "data_source": {"type": "ftp"}}"#),
        "Configuration error: Invalid configuration: config.data_source.type"
    );
    assert_eq!(
        parse(r#"{"name": "n", "data_source": {"type": "database", "connection_string": "c", "query": 5}}"#),
        "Configuration error: Invalid configuration: config.data_source.query"
    );
    assert_eq!(
        parse(r#"{"name": "n", "data_source": {"type": "local_file", "path": "p", "format": {"csv": {"delimiter": "ab"}}}}"#),
        "Configuration error: Invalid configuration: config.data_source.format.csv.delimiter"
    );
    assert_eq!(
        parse(r#"{"name": "n", "data_source": {"type": "local_file", "path": "p", "format": "json"}, "transformations": {}}"#),
        "Configuration error: Invalid configuration: config.transformations"
    );
    assert_eq!(
        parse(r#"{"name": "n", "data_source": {"type": "local_file", "path": "p", "format": "json"},
                 "transformations": [{"name": "r", "source_field": "a", "transformation": {"type": "convert", "to_type": "text"}}]}"#),
        "Configuration error: Invalid configuration: config.transformations.transformation.to_type"
    );
}

#[test]
fn file_formats_are_words_or_keyed_objects() {
    let read = |json: JsonValue| decode_file_format(&json, "f");
    assert!(matches!(read(text("json")).unwrap(), FileFormat::Json));
    assert!(matches!(read(text("tsv")).unwrap(), FileFormat::Tsv));
    assert!(matches!(read(text("excel")).unwrap(), FileFormat::Excel));
    assert!(matches!(read(text("parquet")).unwrap(), FileFormat::Parquet));
    assert!(read(text("csv")).is_err());
    assert!(read(text("JSON")).is_err());
    assert!(read(JsonValue::Null).is_err());
    let zip = JsonValue::Object(vec![(
        "zip".to_string(),
        JsonValue::Object(vec![(
            "target_files".to_string(),
            JsonValue::Array(vec![text("a*"), text("b")]),
        )]),
    )]);
    match read(zip.clone()).unwrap() {
        FileFormat::Zip { extract_path, target_files } => {
            assert_eq!(extract_path, None);
            assert_eq!(target_files, vec!["a*".to_string(), "b".to_string()]);
        }
        other => panic!("unexpected format {:?}", other),
    }
    let written = write_file_format(&read(zip).unwrap());
    assert_eq!(
        written,
        JsonValue::Object(vec![(
            "zip".to_string(),
            JsonValue::Object(vec![(
                "target_files".to_string(),
                JsonValue::Array(vec![text("a*"), text("b")]),
            )]),
        )])
    );
    assert_eq!(write_file_format(&FileFormat::Tsv), text("tsv"));
    let two = JsonValue::Object(vec![
        ("csv".to_string(), JsonValue::Object(Vec::new())),
        ("zip".to_string(), JsonValue::Object(Vec::new())),
    ]);
    assert!(read(two).is_err());
    assert!(read(JsonValue::Object(vec![("zip".to_string(), JsonValue::Object(Vec::new()))])).is_err());
}

#[test]
fn words_of_the_configuration() {
    assert_eq!(decode_auth_type(&text("o_auth2"), "a").unwrap(), AuthType::OAuth2);
    assert_eq!(decode_auth_type(&text("basic_auth"), "a").unwrap(), AuthType::BasicAuth);
    assert_eq!(decode_auth_type(&text("api_key"), "a").unwrap(), AuthType::ApiKey);
    assert!(decode_auth_type(&text("oauth2"), "a").is_err());
    assert_eq!(decode_data_type(&text("date_time"), "a").unwrap(), DataType::DateTime);
    assert_eq!(write_comparison_operator(&ComparisonOperator::NotIn), text("not_in"));
    assert_eq!(write_comparison_operator(&ComparisonOperator::StartsWith), text("starts_with"));
    let error = decode_data_type(&JsonValue::Bool(true), "rules.to_type").unwrap_err();
    assert!(matches!(error, EtlError::ConfigError(_)));
    assert_eq!(error.to_string(), "Configuration error: Invalid configuration: rules.to_type");
    let _ = WriteMode::Append;
}

#[test]
fn plain_values_of_the_configuration() {
    let number = |n: u64| JsonValue::Number(JsonNumber::PosInt(n));
    assert_eq!(decode_u32(&number(4294967295), "n").unwrap(), u32::MAX);
    assert!(decode_u32(&number(4294967296), "n").is_err());
    assert!(decode_u32(&JsonValue::Number(JsonNumber::NegInt(-1)), "n").is_err());
    assert!(decode_u32(&JsonValue::Number(JsonNumber::Float("1.0".to_string())), "n").is_err());
    assert_eq!(decode_char(&text("é"), "c").unwrap(), 'é');
    assert!(decode_char(&JsonValue::Null, "c").is_err());
    assert!(decode_char(&text(""), "c").is_err());
    assert!(decode_char(&text("ab"), "c").is_err());
    assert!(decode_strings(&JsonValue::Array(vec![text("a"), number(1)]), "l").is_err());
    assert_eq!(decode_strings(&JsonValue::Array(Vec::new()), "l").unwrap(), Vec::<String>::new());
    let table = JsonValue::Object(vec![("b".to_string(), text("2")), ("a".to_string(), text("1"))]);
    assert_eq!(
        decode_table(&table, "t").unwrap(),
        vec![("b".to_string(), "2".to_string()), ("a".to_string(), "1".to_string())]
    );
    let fields = vec![("k".to_string(), number(1)), ("k".to_string(), number(2))];
    assert_eq!(field_of(&fields, "k"), Some(&number(2)));
    assert_eq!(field_of(&fields, "x"), None);
}

#[test]
fn a_multiplier_is_read_as_thousandths() {
    assert_eq!(read_thousandths("2.0"), Some(2000));
    assert_eq!(read_thousandths("2.5"), Some(2500));
    assert_eq!(read_thousandths("1.25"), Some(1250));
    assert_eq!(read_thousandths("0.001"), Some(1));
    assert_eq!(read_thousandths("10.105"), Some(10105));
    assert_eq!(read_thousandths("18446744073709551.615"), Some(u64::MAX));
    assert_eq!(read_thousandths("18446744073709551.616"), None);
    assert_eq!(read_thousandths("18446744073709552.0"), None);
    assert_eq!(read_thousandths(""), None);
    assert_eq!(read_thousandths("2"), None);
    assert_eq!(read_thousandths("."), None);
    assert_eq!(read_thousandths(".5"), None);
    assert_eq!(read_thousandths("2."), None);
    assert_eq!(read_thousandths("2.0005"), None);
    assert_eq!(read_thousandths("-2.0"), None);
    assert_eq!(read_thousandths("2e3"), None);
    assert_eq!(read_thousandths("1.2.3"), None);
}

#[test]
fn thousandths_are_written_as_the_shortest_decimal_with_a_fraction() {
    assert_eq!(thousandths_string(0), "0.0");
    assert_eq!(thousandths_string(2000), "2.0");
    assert_eq!(thousandths_string(2500), "2.5");
    assert_eq!(thousandths_string(1250), "1.25");
    assert_eq!(thousandths_string(1005), "1.005");
    assert_eq!(thousandths_string(1), "0.001");
    assert_eq!(thousandths_string(10), "0.01");
    assert_eq!(thousandths_string(u64::MAX), "18446744073709551.615");
}

#[test]
fn a_multiplier_is_a_number_with_a_fraction_in_its_shortest_form() {
    let float = |t: &str| JsonValue::Number(JsonNumber::Float(t.to_string()));
    assert_eq!(decode_multiplier(&float("2.5"), "m").unwrap(), 2500);
    assert_eq!(decode_multiplier(&float("2.0"), "m").unwrap(), 2000);
    assert_eq!(write_multiplier(1500), float("1.5"));
    assert_eq!(write_multiplier(3000), float("3.0"));
    for text in ["2.50", "02.5", "2.00", "2", "2.5000", "abc"] {
        let error = decode_multiplier(&float(text), "retry.backoff_multiplier").unwrap_err();
        assert_eq!(
            error.to_string(),
            "Configuration error: Invalid configuration: retry.backoff_multiplier"
        );
    }
    assert!(decode_multiplier(&JsonValue::Number(JsonNumber::PosInt(2)), "m").is_err());
    assert!(decode_multiplier(&JsonValue::Null, "m").is_err());
}

#[test]
fn a_retry_policy_keeps_its_multiplier_through_text() {
    let text = r#"{
        "name": "m",
        "data_source": {"type": "api", "url": "https://example.test",
            "retry": {"max_attempts": 3, "initial_delay_ms": 10, "max_delay_ms": 1000, "backoff_multiplier": 2.0}},
        "transformations": [],
        "output": {"format": "parquet", "destination": {"type": "s3", "bucket": "b", "key": "k", "region": "r"}}
    }"#;
    let config = EtlConfig::parse(text).unwrap();
    match &config.data_source {
        DataSourceConfig::Api { retry, .. } => assert_eq!(retry.unwrap().backoff_multiplier_permille, 2000),
        other => panic!("unexpected source {:?}", other),
    }
    let written = config.serialize().unwrap();
    assert!(written.contains("\"backoff_multiplier\": 2.0"));
    assert_eq!(
        with_sorted_keys(&parse_json_text(&written).unwrap()),
        with_sorted_keys(&parse_json_text(text).unwrap())
    );
}
