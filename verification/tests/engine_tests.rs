use general_etl::config::settings::{
    AggregateOperation, ComparisonOperator, ConditionConfig, DataType, TransformationConfig,
    TransformationType,
};
use general_etl::models::data_types::DataRecord;
use general_etl::models::json::{JsonNumber, JsonValue};
use general_etl::transformers::conditions::{
    compare_numbers, compare_texts, compare_values, evaluate_condition,
};
use general_etl::transformers::processor::DataProcessor;
use general_etl::transformers::templates::{parse_filter, render_template};
use general_etl::transformers::values::{convert_value, map_value, render_value};
use general_etl::utils::error::EtlError;

fn text(s: &str) -> JsonValue {
    JsonValue::String(s.to_string())
}

fn whole(i: i64) -> JsonValue {
    JsonValue::Number(JsonNumber::from_i64(i))
}

fn float(s: &str) -> JsonValue {
    JsonValue::Number(JsonNumber::Float(s.to_string()))
}

fn record(fields: &[(&str, JsonValue)]) -> DataRecord {
    let mut r = DataRecord::new();
    for (k, v) in fields {
        r.insert(k.to_string(), v.clone());
    }
    r
}

fn rule(name: &str, source: &str, target: Option<&str>, kind: TransformationType) -> TransformationConfig {
    TransformationConfig {
        name: name.to_string(),
        source_field: source.to_string(),
        target_field: target.map(|t| t.to_string()),
        transformation: kind,
        condition: None,
    }
}

fn condition(field: &str, operator: ComparisonOperator, value: JsonValue) -> ConditionConfig {
    ConditionConfig { field: field.to_string(), operator, value }
}

fn custom(function: &str) -> TransformationType {
    TransformationType::Custom { function: function.to_string(), parameters: Vec::new() }
}

fn filter(condition: &str) -> TransformationType {
    TransformationType::Filter { condition: condition.to_string() }
}

#[test]
fn filter_with_a_false_condition_removes_the_record() {
    let processor = DataProcessor::new();
    let rules = vec![
        rule("adults", "age", None, filter("age >= 18")),
        rule("name", "name", None, custom("uppercase")),
    ];
    let records = vec![
        record(&[("name", text("ann")), ("age", whole(30))]),
        record(&[("name", text("bob")), ("age", whole(7))]),
        record(&[("name", text("cy")), ("age", whole(18))]),
    ];
    let out = processor.transform(records, &rules).unwrap();
    assert_eq!(out.len(), 2);
    assert_eq!(out[0].get("name"), Some(&text("ANN")));
    assert_eq!(out[0].get("age"), Some(&whole(30)));
    assert_eq!(out[1].get("name"), Some(&text("CY")));
}

#[test]
fn filter_is_skipped_where_the_source_field_is_absent() {
    let processor = DataProcessor::new();
    let rules = vec![rule("f", "age", None, filter("age >= 18"))];
    let out = processor.transform(vec![record(&[("name", text("x"))])], &rules).unwrap();
    assert_eq!(out.len(), 1);
    assert!(out[0].fields.is_empty());
}

#[test]
fn filter_that_cannot_be_read_names_rule_and_record() {
    let processor = DataProcessor::new();
    let rules = vec![rule("broken", "age", None, filter("age>=18"))];
    let records = vec![record(&[("none", whole(1))]), record(&[("age", whole(1))])];
    let error = processor.transform(records, &rules).unwrap_err();
    assert_eq!(
        error.to_string(),
        "Transformation error: Rule 'broken' failed on record 1: filter condition cannot be read"
    );
}

#[test]
fn conditions_see_what_earlier_rules_wrote() {
    let processor = DataProcessor::new();
    let mut gated = rule("flag", "name", Some("shout"), custom("uppercase"));
    gated.condition = Some(condition("level", ComparisonOperator::Equal, text("HIGH")));
    let rules = vec![rule("level", "level", None, custom("uppercase")), gated];
    let records = vec![
        record(&[("name", text("a")), ("level", text("high"))]),
        record(&[("name", text("b")), ("level", text("low"))]),
    ];
    let out = processor.transform(records, &rules).unwrap();
    assert_eq!(out[0].get("shout"), Some(&text("A")));
    assert_eq!(out[1].get("shout"), None);
    assert_eq!(out[1].get("level"), Some(&text("LOW")));
}

#[test]
fn condition_that_fails_skips_only_its_rule() {
    let processor = DataProcessor::new();
    let mut gated = rule("g", "a", Some("b"), custom("uppercase"));
    gated.condition = Some(condition("missing", ComparisonOperator::Equal, whole(1)));
    let rules = vec![gated, rule("c", "a", Some("c"), custom("lowercase"))];
    let out = processor.transform(vec![record(&[("a", text("Xy"))])], &rules).unwrap();
    assert_eq!(out[0].get("b"), None);
    assert_eq!(out[0].get("c"), Some(&text("xy")));
}

#[test]
fn regex_conditions_are_not_supported() {
    let processor = DataProcessor::new();
    let mut gated = rule("r", "a", None, custom("uppercase"));
    gated.condition = Some(condition("a", ComparisonOperator::Regex, text("x.*")));
    let error = processor.transform(vec![record(&[("a", text("x"))])], &[gated]).unwrap_err();
    assert_eq!(
        error.to_string(),
        "Transformation error: Rule 'r' failed on record 0: condition operator is not supported"
    );
}

#[test]
fn mapping_rule_replaces_mapped_values_only() {
    let processor = DataProcessor::new();
    let kind = TransformationType::Mapping {
        mapping: vec![("a".to_string(), "Alpha".to_string()), ("b".to_string(), "Beta".to_string())],
    };
    let rules = vec![rule("m", "code", Some("label"), kind)];
    let records = vec![
        record(&[("code", text("a"))]),
        record(&[("code", text("z"))]),
        record(&[("code", whole(1))]),
    ];
    let out = processor.transform(records, &rules).unwrap();
    assert_eq!(out[0].get("label"), Some(&text("Alpha")));
    assert_eq!(out[1].get("label"), Some(&text("z")));
    assert_eq!(out[2].get("label"), Some(&whole(1)));
}

#[test]
fn map_value_takes_the_last_entry_of_a_key() {
    let table = vec![("a".to_string(), "1".to_string()), ("a".to_string(), "2".to_string())];
    assert_eq!(map_value(&text("a"), &table), text("2"));
}

#[test]
fn format_rule_renders_a_template() {
    let processor = DataProcessor::new();
    let kind = TransformationType::Format { template: "{last}, {first} ({age}) {none}!".to_string() };
    let rules = vec![rule("f", "first", Some("label"), kind)];
    let records = vec![record(&[("first", text("Ann")), ("last", text("Lee")), ("age", whole(-3))])];
    let out = processor.transform(records, &rules).unwrap();
    assert_eq!(out[0].get("label"), Some(&text("Lee, Ann (-3) !")));
}

#[test]
fn template_edge_cases() {
    let input = record(&[("a", text("x")), ("b", JsonValue::Bool(true)), ("n", JsonValue::Null)]);
    let output = record(&[("a", text("new"))]);
    let render = |t: &str| render_template(t, &output, &input).unwrap();
    assert_eq!(render(""), "");
    assert_eq!(render("plain"), "plain");
    assert_eq!(render("{a}"), "new");
    assert_eq!(render("{b}{n}{b}"), "truetrue");
    assert_eq!(render("open { brace"), "open { brace");
    assert_eq!(render("{a"), "{a");
    assert_eq!(render("}{a}{"), "}new{");
    assert_eq!(render("{}"), "");
    assert_eq!(render("{{a}}"), "}");
}

#[test]
fn template_renders_composite_values_as_json() {
    let input = record(&[
        ("list", JsonValue::Array(vec![whole(1), text("a")])),
        ("f", float("1.5")),
    ]);
    let output = DataRecord::new();
    assert_eq!(render_template("{list}/{f}", &output, &input).unwrap(), "[1,\"a\"]/1.5");
}

#[test]
fn convert_to_integer() {
    assert_eq!(convert_value(&text("42"), DataType::Integer), Some(whole(42)));
    assert_eq!(convert_value(&text("-7"), DataType::Integer), Some(whole(-7)));
    assert_eq!(convert_value(&whole(5), DataType::Integer), Some(whole(5)));
    assert_eq!(convert_value(&text("4.2"), DataType::Integer), None);
    assert_eq!(convert_value(&text("x"), DataType::Integer), None);
    assert_eq!(convert_value(&float("4.0"), DataType::Integer), None);
    assert_eq!(convert_value(&JsonValue::Bool(true), DataType::Integer), None);
    assert_eq!(convert_value(&JsonValue::Null, DataType::Integer), None);
}

#[test]
fn convert_to_string() {
    assert_eq!(convert_value(&whole(42), DataType::String), Some(text("42")));
    assert_eq!(convert_value(&whole(-42), DataType::String), Some(text("-42")));
    assert_eq!(convert_value(&whole(i64::MIN), DataType::String), Some(text("-9223372036854775808")));
    assert_eq!(
        convert_value(&JsonValue::Number(JsonNumber::PosInt(u64::MAX)), DataType::String),
        Some(text("18446744073709551615"))
    );
    assert_eq!(convert_value(&JsonValue::Bool(false), DataType::String), Some(text("false")));
    assert_eq!(convert_value(&float("2.5"), DataType::String), Some(text("2.5")));
    assert_eq!(convert_value(&text("s"), DataType::String), Some(text("s")));
    assert_eq!(convert_value(&JsonValue::Null, DataType::String), None);
    assert_eq!(convert_value(&JsonValue::Array(Vec::new()), DataType::String), None);
}

#[test]
fn convert_to_float() {
    assert_eq!(convert_value(&whole(3), DataType::Float), Some(float("3.0")));
    assert_eq!(convert_value(&whole(-3), DataType::Float), Some(float("-3.0")));
    assert_eq!(convert_value(&whole(9007199254740992), DataType::Float), Some(float("9007199254740992.0")));
    assert_eq!(convert_value(&whole(9007199254740993), DataType::Float), None);
    assert_eq!(convert_value(&whole(-9007199254740993), DataType::Float), None);
    assert_eq!(convert_value(&text("1.25"), DataType::Float), Some(float("1.25")));
    assert_eq!(convert_value(&text("7"), DataType::Float), Some(float("7.0")));
    assert_eq!(convert_value(&text("seven"), DataType::Float), None);
    assert_eq!(convert_value(&float("0.5"), DataType::Float), Some(float("0.5")));
    assert_eq!(convert_value(&JsonValue::Bool(true), DataType::Float), None);
}

#[test]
fn convert_to_boolean() {
    assert_eq!(convert_value(&text("Yes"), DataType::Boolean), Some(JsonValue::Bool(true)));
    assert_eq!(convert_value(&text("0"), DataType::Boolean), Some(JsonValue::Bool(false)));
    assert_eq!(convert_value(&whole(1), DataType::Boolean), Some(JsonValue::Bool(true)));
    assert_eq!(convert_value(&whole(0), DataType::Boolean), Some(JsonValue::Bool(false)));
    assert_eq!(convert_value(&whole(2), DataType::Boolean), None);
    assert_eq!(convert_value(&whole(-1), DataType::Boolean), None);
    assert_eq!(convert_value(&text("maybe"), DataType::Boolean), None);
    assert_eq!(convert_value(&JsonValue::Bool(true), DataType::Boolean), Some(JsonValue::Bool(true)));
}

#[test]
fn convert_to_date_and_datetime() {
    assert_eq!(convert_value(&text("2024-02-29"), DataType::Date), Some(text("2024-02-29")));
    assert_eq!(convert_value(&text("2023-02-29"), DataType::Date), None);
    assert_eq!(convert_value(&text("29.02.2024"), DataType::Date), None);
    assert_eq!(convert_value(&whole(20240229), DataType::Date), None);
    assert_eq!(
        convert_value(&text("1996-12-19T16:39:57-08:00"), DataType::DateTime),
        Some(text("1996-12-19T16:39:57-08:00"))
    );
    assert_eq!(convert_value(&text("1996-12-19"), DataType::DateTime), None);
}

#[test]
fn convert_to_json() {
    assert_eq!(
        convert_value(&text("{\"a\":[1,null]}"), DataType::Json),
        Some(JsonValue::Object(vec![(
            "a".to_string(),
            JsonValue::Array(vec![whole(1), JsonValue::Null])
        )]))
    );
    assert_eq!(convert_value(&text("{"), DataType::Json), None);
    assert_eq!(convert_value(&whole(1), DataType::Json), Some(whole(1)));
}

#[test]
fn convert_rule_that_fails_is_a_transform_error() {
    let processor = DataProcessor::new();
    let rules = vec![rule("to_int", "n", None, TransformationType::Convert { to_type: DataType::Integer })];
    let records = vec![record(&[("n", text("1"))]), record(&[("n", text("one"))])];
    let error = processor.transform_sequential(&records, &rules).unwrap_err();
    assert!(matches!(error, EtlError::TransformError(_)));
    assert_eq!(
        error.to_string(),
        "Transformation error: Rule 'to_int' failed on record 1: value cannot be converted to integer"
    );
    let error = processor.transform(records, &rules).unwrap_err();
    assert_eq!(
        error.to_string(),
        "Transformation error: Rule 'to_int' failed on record 1: value cannot be converted to integer"
    );
}

#[test]
fn custom_lookup_rule() {
    let mut processor = DataProcessor::new();
    processor.load_mapping(vec![("category:1".to_string(), "Games".to_string())]);
    let kind = TransformationType::Custom {
        function: "lookup".to_string(),
        parameters: vec![("table".to_string(), text("category"))],
    };
    let rules = vec![rule("l", "id", Some("category"), kind)];
    let out = processor
        .transform(vec![record(&[("id", text("1"))]), record(&[("id", text("9"))])], &rules)
        .unwrap();
    assert_eq!(out[0].get("category"), Some(&text("Games")));
    assert_eq!(out[1].get("category"), Some(&text("9")));
}

#[test]
fn custom_function_failures() {
    let processor = DataProcessor::new();
    let input = vec![record(&[("id", text("1"))])];
    let error = processor.transform(input.clone(), &[rule("x", "id", None, custom("reverse"))]).unwrap_err();
    assert_eq!(
        error.to_string(),
        "Transformation error: Rule 'x' failed on record 0: unknown function 'reverse'"
    );
    let error = processor.transform(input, &[rule("y", "id", None, custom("lookup"))]).unwrap_err();
    assert_eq!(
        error.to_string(),
        "Transformation error: Rule 'y' failed on record 0: lookup needs a table"
    );
}

#[test]
fn batch_rules_do_nothing_to_a_single_record() {
    let processor = DataProcessor::new();
    let rules = vec![
        rule("a", "n", None, TransformationType::Aggregate { operation: AggregateOperation::Sum, group_by: None }),
        rule("c", "n", Some("m"), TransformationType::Calculate { expression: "n".to_string() }),
    ];
    let out = processor.transform_record(&record(&[("n", whole(2))]), 0, &rules).unwrap().unwrap();
    assert_eq!(out.get("n"), None);
    assert_eq!(out.get("m"), Some(&whole(2)));
}

#[test]
fn parallel_and_sequential_transformation_agree() {
    let processor = DataProcessor::new();
    let rules = vec![
        rule("even", "n", None, filter("parity == \"even\"")),
        rule("name", "name", Some("NAME"), custom("uppercase")),
        rule("n", "n", Some("text"), TransformationType::Convert { to_type: DataType::String }),
    ];
    let records: Vec<DataRecord> = (0..400)
        .map(|i| {
            record(&[
                ("n", whole(i)),
                ("parity", text(if i % 2 == 0 { "even" } else { "odd" })),
                ("name", text(&format!("r{}", i))),
            ])
        })
        .collect();
    let sequential = processor.transform_sequential(&records, &rules).unwrap();
    let parallel = processor.transform(records, &rules).unwrap();
    assert_eq!(parallel.len(), 200);
    assert_eq!(parallel, sequential);
    assert_eq!(parallel[1].get("text"), Some(&text("2")));
    assert_eq!(parallel[1].get("NAME"), Some(&text("R2")));
}

#[test]
fn filter_conditions_are_read_from_text() {
    let c = parse_filter("age >= 18").unwrap();
    assert_eq!(c.field, "age");
    assert_eq!(c.operator, ComparisonOperator::GreaterEqual);
    assert_eq!(c.value, whole(18));
    let c = parse_filter("name contains \"a b\"").unwrap();
    assert_eq!(c.operator, ComparisonOperator::Contains);
    assert_eq!(c.value, text("a b"));
    let c = parse_filter("tag not_in [1, 2]").unwrap();
    assert_eq!(c.operator, ComparisonOperator::NotIn);
    assert_eq!(c.value, JsonValue::Array(vec![whole(1), whole(2)]));
    assert!(parse_filter("age").is_none());
    assert!(parse_filter("age >=").is_none());
    assert!(parse_filter("age >= ").is_none());
    assert!(parse_filter("age ~ 1").is_none());
    assert!(parse_filter("age == {").is_none());
    assert!(parse_filter("").is_none());
    assert_eq!(parse_filter(" == 1").unwrap().field, "");
}

#[test]
fn every_operator_word_is_known() {
    let words = [
        ("==", ComparisonOperator::Equal),
        ("!=", ComparisonOperator::NotEqual),
        (">", ComparisonOperator::GreaterThan),
        ("<", ComparisonOperator::LessThan),
        (">=", ComparisonOperator::GreaterEqual),
        ("<=", ComparisonOperator::LessEqual),
        ("contains", ComparisonOperator::Contains),
        ("starts_with", ComparisonOperator::StartsWith),
        ("ends_with", ComparisonOperator::EndsWith),
        ("regex", ComparisonOperator::Regex),
        ("in", ComparisonOperator::In),
        ("not_in", ComparisonOperator::NotIn),
    ];
    for (word, operator) in words {
        assert_eq!(parse_filter(&format!("f {} 1", word)).unwrap().operator, operator);
    }
}

fn holds(operator: ComparisonOperator, actual: Option<&JsonValue>, expected: JsonValue) -> Option<bool> {
    evaluate_condition(&condition("f", operator, expected), actual)
}

#[test]
fn equality_conditions() {
    assert_eq!(holds(ComparisonOperator::Equal, Some(&whole(1)), whole(1)), Some(true));
    assert_eq!(holds(ComparisonOperator::Equal, Some(&whole(1)), text("1")), Some(false));
    assert_eq!(holds(ComparisonOperator::Equal, None, JsonValue::Null), Some(false));
    assert_eq!(holds(ComparisonOperator::NotEqual, None, whole(1)), Some(true));
    assert_eq!(holds(ComparisonOperator::NotEqual, Some(&text("a")), text("a")), Some(false));
    assert_eq!(holds(ComparisonOperator::NotEqual, Some(&text("a")), text("b")), Some(true));
}

#[test]
fn order_conditions_on_numbers() {
    assert_eq!(holds(ComparisonOperator::GreaterThan, Some(&whole(2)), whole(1)), Some(true));
    assert_eq!(holds(ComparisonOperator::GreaterThan, Some(&whole(1)), whole(1)), Some(false));
    assert_eq!(holds(ComparisonOperator::GreaterEqual, Some(&whole(1)), whole(1)), Some(true));
    assert_eq!(holds(ComparisonOperator::LessThan, Some(&whole(-5)), whole(1)), Some(true));
    assert_eq!(holds(ComparisonOperator::LessEqual, Some(&whole(2)), whole(1)), Some(false));
    assert_eq!(holds(ComparisonOperator::GreaterThan, Some(&float("1.5")), whole(1)), Some(true));
    assert_eq!(holds(ComparisonOperator::LessThan, Some(&whole(1)), float("1.5")), Some(true));
    assert_eq!(holds(ComparisonOperator::GreaterEqual, Some(&float("2.0")), whole(2)), Some(true));
    assert_eq!(holds(ComparisonOperator::LessThan, Some(&float("-0.5")), float("-0.25")), Some(true));
    assert_eq!(holds(ComparisonOperator::GreaterThan, None, whole(1)), Some(false));
    assert_eq!(holds(ComparisonOperator::GreaterThan, Some(&text("2")), whole(1)), Some(false));
    assert_eq!(
        holds(ComparisonOperator::GreaterThan, Some(&JsonValue::Number(JsonNumber::PosInt(u64::MAX))), whole(i64::MAX)),
        Some(true)
    );
}

#[test]
fn order_conditions_on_strings() {
    assert_eq!(holds(ComparisonOperator::LessThan, Some(&text("apple")), text("banana")), Some(true));
    assert_eq!(holds(ComparisonOperator::LessThan, Some(&text("app")), text("apple")), Some(true));
    assert_eq!(holds(ComparisonOperator::GreaterThan, Some(&text("b")), text("apple")), Some(true));
    assert_eq!(holds(ComparisonOperator::GreaterEqual, Some(&text("a")), text("a")), Some(true));
    assert_eq!(holds(ComparisonOperator::LessEqual, Some(&text("")), text("")), Some(true));
    assert_eq!(holds(ComparisonOperator::LessThan, Some(&text("Z")), text("a")), Some(true));
}

#[test]
fn comparison_helpers() {
    assert_eq!(compare_texts("a", "b"), -1);
    assert_eq!(compare_texts("b", "a"), 1);
    assert_eq!(compare_texts("ab", "ab"), 0);
    assert_eq!(compare_texts("ab", "a"), 1);
    assert_eq!(compare_texts("", "a"), -1);
    assert_eq!(compare_numbers(&JsonNumber::NegInt(-1), &JsonNumber::PosInt(0)), Some(-1));
    assert_eq!(compare_numbers(&JsonNumber::PosInt(7), &JsonNumber::PosInt(7)), Some(0));
    assert_eq!(
        compare_numbers(&JsonNumber::Float("1e3".to_string()), &JsonNumber::PosInt(999)),
        Some(1)
    );
    assert_eq!(
        compare_numbers(&JsonNumber::Float("no number".to_string()), &JsonNumber::PosInt(1)),
        None
    );
    assert_eq!(compare_values(&JsonValue::Null, &JsonValue::Null), None);
    assert_eq!(compare_values(&text("a"), &whole(1)), None);
}

#[test]
fn text_conditions() {
    assert_eq!(holds(ComparisonOperator::Contains, Some(&text("hello world")), text("lo w")), Some(true));
    assert_eq!(holds(ComparisonOperator::Contains, Some(&text("hello")), text("")), Some(true));
    assert_eq!(holds(ComparisonOperator::Contains, Some(&text("")), text("")), Some(true));
    assert_eq!(holds(ComparisonOperator::Contains, Some(&text("hello")), text("hello!")), Some(false));
    assert_eq!(holds(ComparisonOperator::Contains, Some(&text("aab")), text("ab")), Some(true));
    assert_eq!(holds(ComparisonOperator::Contains, Some(&text("hello")), whole(1)), Some(false));
    assert_eq!(holds(ComparisonOperator::Contains, None, text("")), Some(false));
    assert_eq!(holds(ComparisonOperator::StartsWith, Some(&text("hello")), text("he")), Some(true));
    assert_eq!(holds(ComparisonOperator::StartsWith, Some(&text("hello")), text("lo")), Some(false));
    assert_eq!(holds(ComparisonOperator::EndsWith, Some(&text("hello")), text("lo")), Some(true));
    assert_eq!(holds(ComparisonOperator::EndsWith, Some(&whole(10)), text("0")), Some(false));
    assert_eq!(holds(ComparisonOperator::Regex, Some(&text("a")), text("a")), None);
}

#[test]
fn membership_conditions() {
    let list = JsonValue::Array(vec![whole(1), text("a"), JsonValue::Null]);
    assert_eq!(holds(ComparisonOperator::In, Some(&whole(1)), list.clone()), Some(true));
    assert_eq!(holds(ComparisonOperator::In, Some(&JsonValue::Null), list.clone()), Some(true));
    assert_eq!(holds(ComparisonOperator::In, Some(&whole(2)), list.clone()), Some(false));
    assert_eq!(holds(ComparisonOperator::In, None, list.clone()), Some(false));
    assert_eq!(holds(ComparisonOperator::In, Some(&whole(1)), whole(1)), Some(false));
    assert_eq!(holds(ComparisonOperator::NotIn, Some(&whole(2)), list.clone()), Some(true));
    assert_eq!(holds(ComparisonOperator::NotIn, Some(&text("a")), list.clone()), Some(false));
    assert_eq!(holds(ComparisonOperator::NotIn, None, list.clone()), Some(true));
    assert_eq!(holds(ComparisonOperator::Contains, Some(&list), text("a")), Some(true));
    assert_eq!(holds(ComparisonOperator::Contains, Some(&list), text("b")), Some(false));
}

#[test]
fn values_render_as_text() {
    assert_eq!(render_value(&JsonValue::Null).unwrap(), "");
    assert_eq!(render_value(&JsonValue::Bool(true)).unwrap(), "true");
    assert_eq!(render_value(&whole(-12)).unwrap(), "-12");
    assert_eq!(render_value(&text("x")).unwrap(), "x");
    assert_eq!(
        render_value(&JsonValue::Object(vec![("k".to_string(), float("0.5"))])).unwrap(),
        "{\"k\":0.5}"
    );
}

#[test]
fn json_values_compare_structurally() {
    let a = JsonValue::Array(vec![whole(1), JsonValue::Object(vec![("k".to_string(), text("v"))])]);
    let b = a.clone();
    assert!(a.same_as(&b));
    assert!(!a.same_as(&JsonValue::Array(vec![whole(1)])));
    assert!(!whole(1).same_as(&float("1.0")));
    assert!(JsonValue::Null.same_as(&JsonValue::Null));
    assert_eq!(text("s").as_str(), Some("s"));
    assert_eq!(whole(1).as_str(), None);
}
