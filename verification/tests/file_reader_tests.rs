use general_etl::config::settings::FileFormat;
use general_etl::extractors::file_reader::FileReader;
use general_etl::loaders::archiver::Archiver;
use general_etl::models::data_types::DataRecord;
use general_etl::models::json::{JsonNumber, JsonValue};
use general_etl::utils::error::EtlError;

fn text(s: &str) -> JsonValue {
    JsonValue::String(s.to_string())
}

fn whole(i: i64) -> JsonValue {
    JsonValue::Number(JsonNumber::from_i64(i))
}

#[test]
fn json_array_gives_one_record_per_element() {
    let reader = FileReader::new();
    let records = reader.read_json("[{\"id\":1},{\"id\":2}]").unwrap();
    assert_eq!(records.len(), 2);
    assert_eq!(records[0].get("id"), Some(&whole(1)));
    assert_eq!(records[1].get("id"), Some(&whole(2)));
    assert_eq!(records[0].fields.len(), 1);
}

#[test]
fn json_object_gives_a_single_record() {
    let reader = FileReader::new();
    let records = reader.read_json("{\"name\":\"bob\",\"age\":7}").unwrap();
    assert_eq!(records.len(), 1);
    assert_eq!(records[0].get("name"), Some(&text("bob")));
    assert_eq!(records[0].get("age"), Some(&whole(7)));
}

#[test]
fn json_scalar_is_a_decode_error() {
    let reader = FileReader::new();
    let error = reader.read_json("42").unwrap_err();
    assert!(matches!(error, EtlError::ParseError(_)));
    assert_eq!(error.to_string(), "Data parsing error: JSON must be object or array");
}

#[test]
fn malformed_json_is_a_json_error() {
    let reader = FileReader::new();
    assert!(matches!(reader.read_json("{").unwrap_err(), EtlError::JsonError(_)));
}

#[test]
fn json_array_of_scalars_records_value_and_index() {
    let reader = FileReader::new();
    let records = reader.read_json("[\"a\", true]").unwrap();
    assert_eq!(records.len(), 2);
    assert_eq!(records[0].get("value"), Some(&text("a")));
    assert_eq!(records[0].get("_index"), Some(&whole(0)));
    assert_eq!(records[1].get("value"), Some(&JsonValue::Bool(true)));
    assert_eq!(records[1].get("_index"), Some(&whole(1)));
}

#[test]
fn json_to_record_of_an_object_keeps_its_fields() {
    let reader = FileReader::new();
    let object = JsonValue::Object(vec![("k".to_string(), JsonValue::Null)]);
    let record = reader.json_to_record(object, 5).unwrap();
    assert_eq!(record.get("k"), Some(&JsonValue::Null));
    assert_eq!(record.get("_index"), None);
}

#[test]
fn csv_fields_are_typed_by_content() {
    let reader = FileReader::new();
    assert_eq!(reader.parse_csv_field("1"), whole(1));
    assert_eq!(reader.parse_csv_field("-42"), whole(-42));
    assert_eq!(reader.parse_csv_field("+7"), whole(7));
    assert_eq!(reader.parse_csv_field("0"), whole(0));
    assert_eq!(
        reader.parse_csv_field("1.5"),
        JsonValue::Number(JsonNumber::Float("1.5".to_string()))
    );
    assert_eq!(reader.parse_csv_field("true"), JsonValue::Bool(true));
    assert_eq!(reader.parse_csv_field("YES"), JsonValue::Bool(true));
    assert_eq!(reader.parse_csv_field("False"), JsonValue::Bool(false));
    assert_eq!(reader.parse_csv_field("no"), JsonValue::Bool(false));
    assert_eq!(reader.parse_csv_field("x"), text("x"));
    assert_eq!(reader.parse_csv_field(""), text(""));
    assert_eq!(reader.parse_csv_field("NaN"), text("NaN"));
    assert_eq!(reader.parse_csv_field(" 5"), text(" 5"));
}

#[test]
fn csv_integer_at_the_limits() {
    let reader = FileReader::new();
    assert_eq!(reader.parse_csv_field("9223372036854775807"), whole(i64::MAX));
    assert_eq!(reader.parse_csv_field("-9223372036854775808"), whole(i64::MIN));
    assert_eq!(
        reader.parse_csv_field("9223372036854775808"),
        JsonValue::Number(JsonNumber::Float("9.223372036854776e+18".to_string()))
    );
}

#[test]
fn typed_field_goes_by_what_it_is_given() {
    assert_eq!(FileReader::typed_field("12", None, "12"), whole(12));
    assert_eq!(
        FileReader::typed_field("1e3", Some(JsonNumber::Float("1000.0".to_string())), "1e3"),
        JsonValue::Number(JsonNumber::Float("1000.0".to_string()))
    );
    assert_eq!(FileReader::typed_field("Yes", None, "yes"), JsonValue::Bool(true));
    assert_eq!(FileReader::typed_field("Yes", None, "Yes"), text("Yes"));
    assert_eq!(FileReader::typed_field("NO", None, "no"), JsonValue::Bool(false));
}

#[test]
fn csv_with_headers() {
    let reader = FileReader::new();
    let records = reader.read_csv(b"a,b\n1,x\n2,y\n".to_vec(), ',', true).unwrap();
    assert_eq!(records.len(), 2);
    assert_eq!(records[0].get("a"), Some(&whole(1)));
    assert_eq!(records[0].get("b"), Some(&text("x")));
    assert_eq!(records[1].get("a"), Some(&whole(2)));
    assert_eq!(records[1].get("b"), Some(&text("y")));
}

#[test]
fn csv_without_headers_names_the_columns() {
    let reader = FileReader::new();
    let records = reader.read_csv(b"1;x\n2;y\n".to_vec(), ';', false).unwrap();
    assert_eq!(records.len(), 2);
    assert_eq!(records[0].get("column_0"), Some(&whole(1)));
    assert_eq!(records[0].get("column_1"), Some(&text("x")));
    assert_eq!(records[1].get("column_0"), Some(&whole(2)));
}

#[test]
fn csv_column_names_count_in_decimal() {
    let reader = FileReader::new();
    let header: Vec<String> = (0..12).map(|_| String::new()).collect();
    let names = reader.column_headers(header, false);
    assert_eq!(names.len(), 12);
    assert_eq!(names[0], "column_0");
    assert_eq!(names[9], "column_9");
    assert_eq!(names[10], "column_10");
    assert_eq!(names[11], "column_11");
}

#[test]
fn csv_rows_of_unequal_length_are_an_error() {
    let reader = FileReader::new();
    let error = reader.read_csv(b"a,b\n1\n".to_vec(), ',', true).unwrap_err();
    assert!(matches!(error, EtlError::CsvError(_)));
}

#[test]
fn tsv_is_read_with_tabs() {
    let reader = FileReader::new();
    let records = reader.read_file("t.tsv", b"a\tb\n1\tx,y\n".to_vec(), FileFormat::Tsv).unwrap();
    assert_eq!(records.len(), 1);
    assert_eq!(records[0].get("b"), Some(&text("x,y")));
}

#[test]
fn csv_format_defaults_to_comma_and_headers() {
    let reader = FileReader::new();
    let format = FileFormat::Csv { delimiter: None, has_headers: None };
    let records = reader.read_file("t.csv", b"a,b\n1,2\n".to_vec(), format).unwrap();
    assert_eq!(records.len(), 1);
    assert_eq!(records[0].get("b"), Some(&whole(2)));
}

#[test]
fn excel_and_parquet_are_not_implemented() {
    let reader = FileReader::new();
    let error = reader.read_file("f.xlsx", Vec::new(), FileFormat::Excel).unwrap_err();
    assert_eq!(error.to_string(), "Configuration error: Excel format not yet implemented");
    let error = reader.read_file("f.parquet", Vec::new(), FileFormat::Parquet).unwrap_err();
    assert_eq!(error.to_string(), "Configuration error: Parquet format not yet implemented");
}

#[test]
fn json_file_that_is_not_utf8_names_the_file() {
    let reader = FileReader::new();
    let error = reader.read_file("data.json", vec![0xff, 0xfe], FileFormat::Json).unwrap_err();
    assert_eq!(error.to_string(), "Data parsing error: Invalid UTF-8 in file data.json");
}

#[test]
fn json_file_is_decoded() {
    let reader = FileReader::new();
    let records = reader.read_file("d.json", b"[{\"id\":1}]".to_vec(), FileFormat::Json).unwrap();
    assert_eq!(records.len(), 1);
}

#[test]
fn patterns_with_one_star() {
    let reader = FileReader::new();
    assert!(reader.matches_pattern("report_1.csv", "report_*.csv"));
    assert!(reader.matches_pattern("report_.csv", "report_*.csv"));
    assert!(!reader.matches_pattern("report_1.json", "report_*.csv"));
    assert!(!reader.matches_pattern("xreport_1.csv", "report_*.csv"));
    assert!(reader.matches_pattern("anything", "*"));
    assert!(reader.matches_pattern("", "*"));
    assert!(reader.matches_pattern("a.csv", "*.csv"));
    assert!(reader.matches_pattern("data_x", "data_*"));
}

#[test]
fn patterns_without_a_star_match_the_equal_name() {
    let reader = FileReader::new();
    assert!(reader.matches_pattern("a.csv", "a.csv"));
    assert!(!reader.matches_pattern("a.csv", "b.csv"));
    assert!(!reader.matches_pattern("a.csv", "a.cs"));
    assert!(reader.matches_pattern("", ""));
}

#[test]
fn patterns_with_two_stars_match_nothing() {
    let reader = FileReader::new();
    assert!(!reader.matches_pattern("abc", "a*b*c"));
    assert!(!reader.matches_pattern("a*b*c", "a*b*c"));
    assert!(!reader.matches_pattern("x", "**"));
}

#[test]
fn pattern_prefix_and_suffix_do_not_overlap() {
    let reader = FileReader::new();
    assert!(!reader.matches_pattern("aba", "ab*ba"));
    assert!(reader.matches_pattern("abba", "ab*ba"));
    assert!(reader.matches_pattern("abxba", "ab*ba"));
    assert!(!reader.matches_pattern("a.csv", "a.*.csv"));
    assert!(reader.matches_pattern("a..csv", "a.*.csv"));
    assert!(reader.matches_pattern("a.b.csv", "a.*.csv"));
    assert!(!reader.matches_pattern("a", "a*a"));
    assert!(reader.matches_pattern("aa", "a*a"));
}

fn sample_archive() -> Vec<u8> {
    Archiver::create_zip(vec![
        ("report_1.csv".to_string(), b"a,b\n1,x\n".to_vec()),
        ("report_1.json".to_string(), b"[{\"id\":9}]".to_vec()),
        ("notes.txt".to_string(), b"hello".to_vec()),
        ("report_2.csv".to_string(), b"a,b\n2,y\n".to_vec()),
        ("image.bin".to_string(), vec![0xff, 0x00, 0xfe]),
    ])
    .unwrap()
}

#[test]
fn zip_extraction_honours_the_patterns() {
    let reader = FileReader::new();
    let records = reader.read_zip(sample_archive(), vec!["report_*.csv".to_string()]).unwrap();
    assert_eq!(records.len(), 2);
    assert_eq!(records[0].get("a"), Some(&whole(1)));
    assert_eq!(records[1].get("a"), Some(&whole(2)));
    assert_eq!(records[0].get("id"), None);
}

#[test]
fn zip_extraction_without_patterns_takes_every_entry() {
    let reader = FileReader::new();
    let records = reader.read_zip(sample_archive(), Vec::new()).unwrap();
    assert_eq!(records.len(), 3);
    assert_eq!(records[0].get("a"), Some(&whole(1)));
    assert_eq!(records[1].get("id"), Some(&whole(9)));
    assert_eq!(records[2].get("b"), Some(&text("y")));
}

#[test]
fn zip_file_format_is_dispatched() {
    let reader = FileReader::new();
    let format = FileFormat::Zip { extract_path: None, target_files: vec!["*.json".to_string()] };
    let records = reader.read_file("a.zip", sample_archive(), format).unwrap();
    assert_eq!(records.len(), 1);
    assert_eq!(records[0].get("id"), Some(&whole(9)));
}

#[test]
fn zip_entry_that_is_not_utf8_names_the_entry() {
    let reader = FileReader::new();
    let data = Archiver::create_zip(vec![("bad.csv".to_string(), vec![0xff, 0xfe])]).unwrap();
    let error = reader.read_zip(data, Vec::new()).unwrap_err();
    assert_eq!(error.to_string(), "Data parsing error: Invalid UTF-8 in file bad.csv");
}

#[test]
fn zip_json_entry_of_another_shape_is_skipped() {
    let reader = FileReader::new();
    let data = Archiver::create_zip(vec![
        ("n.json".to_string(), b"17".to_vec()),
        ("o.json".to_string(), b"{\"k\":\"v\"}".to_vec()),
    ])
    .unwrap();
    let records = reader.read_zip(data, Vec::new()).unwrap();
    assert_eq!(records.len(), 1);
    assert_eq!(records[0].get("k"), Some(&text("v")));
}

#[test]
fn bytes_that_are_no_archive_are_a_zip_error() {
    let reader = FileReader::new();
    let error = reader.read_zip(b"not a zip".to_vec(), Vec::new()).unwrap_err();
    assert!(matches!(error, EtlError::ZipError(_)));
}

#[test]
fn archive_round_trip() {
    let files = vec![
        ("a.txt".to_string(), b"alpha".to_vec()),
        ("dir/b.bin".to_string(), vec![0u8, 1, 2, 255]),
        ("empty".to_string(), Vec::new()),
    ];
    let data = Archiver::create_zip(files.clone()).unwrap();
    assert_ne!(data, b"alpha".to_vec());
    let back = Archiver::extract_zip(data).unwrap();
    assert_eq!(back, files);
}

#[test]
fn archive_of_nothing_unpacks_to_nothing() {
    let data = Archiver::create_zip(Vec::new()).unwrap();
    assert!(!data.is_empty());
    assert_eq!(Archiver::extract_zip(data).unwrap(), Vec::new());
}

#[test]
fn reader_records_its_encoding() {
    assert_eq!(FileReader::new().encoding(), "utf-8");
    assert_eq!(FileReader::with_encoding("latin-1".to_string()).encoding(), "latin-1");
}

#[test]
fn record_insert_replaces_the_field() {
    let mut record = DataRecord::new();
    record.insert("k".to_string(), whole(1));
    record.insert("j".to_string(), whole(2));
    record.insert("k".to_string(), whole(3));
    assert_eq!(record.get("k"), Some(&whole(3)));
    assert_eq!(record.get("j"), Some(&whole(2)));
    assert_eq!(record.fields.len(), 2);
    assert!(record.contains_key("j"));
    assert!(!record.contains_key("x"));
}

#[test]
fn delimited_file_that_is_not_utf8_names_the_file() {
    let reader = FileReader::new();
    let format = FileFormat::Csv { delimiter: None, has_headers: None };
    let error = reader.read_file("data.csv", vec![b'a', b'\n', 0xff], format).unwrap_err();
    assert_eq!(error.to_string(), "Data parsing error: Invalid UTF-8 in file data.csv");
    let error = reader.read_file("data.tsv", vec![0xc3, 0x28], FileFormat::Tsv).unwrap_err();
    assert_eq!(error.to_string(), "Data parsing error: Invalid UTF-8 in file data.tsv");
}
