use general_etl::models::data_types::{DataRecord, MappingRule, TransformationType};
use general_etl::models::json::{JsonNumber, JsonValue};
use general_etl::transformers::processor::DataProcessor;

fn text(s: &str) -> JsonValue {
    JsonValue::String(s.to_string())
}

fn record(fields: &[(&str, JsonValue)]) -> DataRecord {
    let mut r = DataRecord::new();
    for (k, v) in fields {
        r.insert(k.to_string(), v.clone());
    }
    r
}

fn rule(source: &str, target: &str, t: Option<TransformationType>) -> MappingRule {
    MappingRule {
        source_field: source.to_string(),
        target_field: target.to_string(),
        transformation: t,
    }
}

#[test]
fn uppercase_rule_on_name() {
    let processor = DataProcessor::new();
    let rules = vec![rule("name", "name", Some(TransformationType::Uppercase))];
    let out = processor.process_records(vec![record(&[("name", text("bob"))])], &rules).unwrap();
    assert_eq!(out.len(), 1);
    assert_eq!(out[0].get("name"), Some(&text("BOB")));
    assert_eq!(out[0].fields.len(), 1);
}

#[test]
fn missing_source_field_writes_nothing() {
    let processor = DataProcessor::new();
    let rules = vec![rule("name", "name", Some(TransformationType::Uppercase))];
    let out = processor.process_records(vec![record(&[("other", text("x"))])], &rules).unwrap();
    assert_eq!(out.len(), 1);
    assert_eq!(out[0].get("name"), None);
    assert!(out[0].fields.is_empty());
}

#[test]
fn lowercase_and_copy_rules() {
    let processor = DataProcessor::new();
    let rules = vec![
        rule("name", "lower", Some(TransformationType::Lowercase)),
        rule("age", "years", None),
        rule("age", "calc", Some(TransformationType::Calculate("age * 2".to_string()))),
    ];
    let input = record(&[
        ("name", text("BoB")),
        ("age", JsonValue::Number(JsonNumber::from_i64(7))),
    ]);
    let out = processor.apply_rules(&input, &rules).unwrap();
    assert_eq!(out.get("lower"), Some(&text("bob")));
    assert_eq!(out.get("years"), Some(&JsonValue::Number(JsonNumber::from_i64(7))));
    assert_eq!(out.get("calc"), Some(&JsonValue::Number(JsonNumber::from_i64(14))));
    assert_eq!(out.get("name"), None);
}

#[test]
fn case_rules_on_a_value_that_is_no_string_give_the_empty_string() {
    let processor = DataProcessor::new();
    let rules = vec![rule("n", "n", Some(TransformationType::Uppercase))];
    let out = processor.apply_rules(&record(&[("n", JsonValue::Bool(true))]), &rules).unwrap();
    assert_eq!(out.get("n"), Some(&text("")));
}

#[test]
fn lookup_against_an_unpopulated_key_keeps_the_value() {
    let processor = DataProcessor::new();
    let value = text("42");
    assert_eq!(processor.lookup_value(&value, "category").unwrap(), text("42"));
    let number = JsonValue::Number(JsonNumber::from_i64(3));
    assert_eq!(processor.lookup_value(&number, "category").unwrap(), number);
}

#[test]
fn lookup_finds_what_was_loaded() {
    let mut processor = DataProcessor::new();
    processor.load_mapping(vec![
        ("category:42".to_string(), "Games".to_string()),
        ("category:".to_string(), "None".to_string()),
        ("category:42".to_string(), "Toys".to_string()),
    ]);
    assert_eq!(processor.lookup_value(&text("42"), "category").unwrap(), text("Toys"));
    assert_eq!(processor.lookup_value(&text("43"), "category").unwrap(), text("43"));
    assert_eq!(processor.lookup_value(&text("42"), "other").unwrap(), text("42"));
    assert_eq!(processor.lookup_value(&JsonValue::Null, "category").unwrap(), text("None"));
}

#[test]
fn lookup_rule_in_a_batch() {
    let mut processor = DataProcessor::new();
    processor.load_mapping(vec![("category:1".to_string(), "Games".to_string())]);
    let rules = vec![rule("id", "source_id", Some(TransformationType::Lookup("category".to_string())))];
    let out = processor
        .process_records(vec![record(&[("id", text("1"))]), record(&[("id", text("2"))])], &rules)
        .unwrap();
    assert_eq!(out[0].get("source_id"), Some(&text("Games")));
    assert_eq!(out[1].get("source_id"), Some(&text("2")));
}

#[test]
fn later_rule_overwrites_the_same_target() {
    let processor = DataProcessor::new();
    let rules = vec![
        rule("a", "t", None),
        rule("b", "t", Some(TransformationType::Uppercase)),
    ];
    let out = processor.apply_rules(&record(&[("a", text("x")), ("b", text("y"))]), &rules).unwrap();
    assert_eq!(out.get("t"), Some(&text("Y")));
    assert_eq!(out.fields.len(), 1);
}

#[test]
fn parallel_and_sequential_processing_agree() {
    let mut processor = DataProcessor::new();
    processor.load_mapping(
        (0..50).map(|i| (format!("t:{}", i), format!("v{}", i))).collect(),
    );
    let rules = vec![
        rule("name", "NAME", Some(TransformationType::Uppercase)),
        rule("id", "mapped", Some(TransformationType::Lookup("t".to_string()))),
        rule("id", "id", None),
    ];
    let records: Vec<DataRecord> = (0..500)
        .map(|i| record(&[("name", text(&format!("n{}", i))), ("id", text(&format!("{}", i % 70)))]))
        .collect();
    let sequential = processor.process_records_sequential(&records, &rules).unwrap();
    let parallel = processor.process_records(records, &rules).unwrap();
    assert_eq!(parallel.len(), 500);
    assert_eq!(parallel, sequential);
    assert_eq!(parallel[3].get("NAME"), Some(&text("N3")));
    assert_eq!(parallel[3].get("mapped"), Some(&text("v3")));
    assert_eq!(parallel[60].get("mapped"), Some(&text("60")));
}

#[test]
fn empty_batch_and_empty_rules() {
    let processor = DataProcessor::new();
    assert!(processor.process_records(Vec::new(), &[]).unwrap().is_empty());
    let out = processor.process_records(vec![record(&[("a", text("x"))])], &[]).unwrap();
    assert_eq!(out.len(), 1);
    assert!(out[0].fields.is_empty());
}

fn number(n: i64) -> JsonValue {
    JsonValue::Number(JsonNumber::from_i64(n))
}

fn calculate(expression: &str) -> Option<TransformationType> {
    Some(TransformationType::Calculate(expression.to_string()))
}

#[test]
fn calculate_rule_evaluates_its_expression_over_the_fields() {
    let processor = DataProcessor::new();
    let rules = vec![
        rule("price", "total", calculate("price * quantity")),
        rule("price", "more", calculate("total + 1")),
        rule("price", "price", calculate("price - 3 * 2")),
        rule("price", "fixed", calculate("40 + 2")),
    ];
    let input = record(&[("price", number(5)), ("quantity", number(4))]);
    let out = processor.apply_rules(&input, &rules).unwrap();
    assert_eq!(out.get("total"), Some(&number(20)));
    assert_eq!(out.get("more"), Some(&number(21)));
    assert_eq!(out.get("price"), Some(&number(4)));
    assert_eq!(out.get("fixed"), Some(&number(42)));
}

#[test]
fn calculate_rule_sees_the_output_before_the_input() {
    let processor = DataProcessor::new();
    let rules = vec![rule("a", "a", calculate("a + 1")), rule("a", "b", calculate("a * 10"))];
    let out = processor.apply_rules(&record(&[("a", number(1))]), &rules).unwrap();
    assert_eq!(out.get("a"), Some(&number(2)));
    assert_eq!(out.get("b"), Some(&number(20)));
}

#[test]
fn calculate_rule_is_skipped_where_the_source_field_is_absent() {
    let processor = DataProcessor::new();
    let rules = vec![rule("missing", "x", calculate("no such thing"))];
    let out = processor.apply_rules(&record(&[("a", number(1))]), &rules).unwrap();
    assert!(out.fields.is_empty());
}

#[test]
fn calculate_rule_without_a_value_is_a_transformation_error() {
    let processor = DataProcessor::new();
    let input = record(&[("age", number(7)), ("name", text("bob"))]);
    for expression in ["age +", "age / 2", "name * 2", "other + 1", "", "9223372036854775807 + age"] {
        let rules = vec![rule("age", "copy", None), rule("age", "calc", calculate(expression))];
        let error = processor.apply_rules(&input, &rules).unwrap_err();
        assert_eq!(
            error.to_string(),
            format!("Transformation error: expression cannot be evaluated: {}", expression)
        );
    }
}

#[test]
fn calculate_field_gives_the_value_of_the_expression() {
    let processor = DataProcessor::new();
    let output = record(&[("n", number(3))]);
    let input = record(&[("n", number(100)), ("m", number(-2))]);
    assert_eq!(processor.calculate_field("n * m", &output, &input).unwrap(), number(-6));
    assert_eq!(processor.calculate_field("m", &output, &input).unwrap(), number(-2));
    assert_eq!(
        processor.calculate_field("n m", &output, &input).unwrap_err().to_string(),
        "Transformation error: expression cannot be evaluated: n m"
    );
}

#[test]
fn a_batch_with_a_failing_record_fails_with_the_error_of_that_record() {
    let processor = DataProcessor::new();
    let rules = vec![rule("n", "double", calculate("n * 2"))];
    let records = vec![
        record(&[("n", number(1))]),
        record(&[("n", text("two"))]),
        record(&[("other", number(3))]),
    ];
    let sequential = processor.process_records_sequential(&records, &rules).unwrap_err();
    assert_eq!(sequential.to_string(), "Transformation error: expression cannot be evaluated: n * 2");
    let parallel = processor.process_records(records.clone(), &rules).unwrap_err();
    assert_eq!(parallel.to_string(), sequential.to_string());
    let good = vec![records[0].clone(), records[2].clone()];
    let out = processor.process_records(good.clone(), &rules).unwrap();
    assert_eq!(out, processor.process_records_sequential(&good, &rules).unwrap());
    assert_eq!(out[0].get("double"), Some(&number(2)));
    assert!(out[1].fields.is_empty());
}
