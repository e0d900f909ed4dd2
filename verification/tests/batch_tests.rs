use general_etl::config::settings::{
    AggregateOperation, JoinType, TransformationConfig, TransformationType,
};
use general_etl::models::data_types::DataRecord;
use general_etl::models::json::{JsonNumber, JsonValue};
use general_etl::transformers::aggregate::{
    aggregate_records, aggregate_values, group_records, mean_of,
};
use general_etl::transformers::expressions::{evaluate_expression, words_of};
use general_etl::transformers::join::{join_records, merge_records};
use general_etl::transformers::processor::DataProcessor;

fn text(s: &str) -> JsonValue {
    JsonValue::String(s.to_string())
}

fn whole(i: i64) -> JsonValue {
    JsonValue::Number(JsonNumber::from_i64(i))
}

fn float(s: &str) -> JsonValue {
    JsonValue::Number(JsonNumber::Float(s.to_string()))
}

fn record(fields: &[(&str, JsonValue)]) -> DataRecord {
    let mut r = DataRecord::new();
    for (k, v) in fields {
        r.insert(k.to_string(), v.clone());
    }
    r
}

fn names(list: &[&str]) -> Vec<String> {
    list.iter().map(|s| s.to_string()).collect()
}

fn rule(name: &str, source: &str, target: Option<&str>, kind: TransformationType) -> TransformationConfig {
    TransformationConfig {
        name: name.to_string(),
        source_field: source.to_string(),
        target_field: target.map(|t| t.to_string()),
        transformation: kind,
        condition: None,
    }
}

fn sales() -> Vec<DataRecord> {
    vec![
        record(&[("region", text("north")), ("amount", whole(10)), ("who", text("ann"))]),
        record(&[("region", text("south")), ("amount", whole(5)), ("who", text("bob"))]),
        record(&[("region", text("north")), ("amount", whole(-3)), ("who", text("cy"))]),
        record(&[("amount", whole(7)), ("who", text("dee"))]),
        record(&[("region", text("south")), ("who", text("eve"))]),
    ]
}

#[test]
fn expressions_are_split_at_spaces() {
    assert_eq!(words_of("a + b"), names(&["a", "+", "b"]));
    assert_eq!(words_of(""), names(&[""]));
    assert_eq!(words_of("a  b "), names(&["a", "", "b", ""]));
    assert_eq!(words_of("one"), names(&["one"]));
}

#[test]
fn expressions_are_evaluated_from_left_to_right() {
    let input = record(&[("price", whole(7)), ("quantity", whole(3)), ("name", text("x"))]);
    let output = record(&[("price", whole(10))]);
    let eval = |e: &str| evaluate_expression(e, &output, &input);
    assert_eq!(eval("42"), Some(whole(42)));
    assert_eq!(eval("-42"), Some(whole(-42)));
    assert_eq!(eval("quantity"), Some(whole(3)));
    assert_eq!(eval("price"), Some(whole(10)));
    assert_eq!(eval("price * quantity"), Some(whole(30)));
    assert_eq!(eval("1 + 2 * 3"), Some(whole(9)));
    assert_eq!(eval("quantity - 5 - 5"), Some(whole(-7)));
    assert_eq!(eval("0 * quantity + price"), Some(whole(10)));
}

#[test]
fn expressions_that_cannot_be_evaluated() {
    let input = record(&[("n", whole(1)), ("s", text("x")), ("f", float("1.5"))]);
    let output = DataRecord::new();
    let eval = |e: &str| evaluate_expression(e, &output, &input);
    assert_eq!(eval(""), None);
    assert_eq!(eval("missing"), None);
    assert_eq!(eval("s"), None);
    assert_eq!(eval("f + 1"), None);
    assert_eq!(eval("n +"), None);
    assert_eq!(eval("n + "), None);
    assert_eq!(eval("n / 1"), None);
    assert_eq!(eval("n  + 1"), None);
    assert_eq!(eval("n+1"), None);
    assert_eq!(eval("9223372036854775807 + 1"), None);
    assert_eq!(eval("9223372036854775807 + 0"), Some(whole(i64::MAX)));
    assert_eq!(eval("-9223372036854775808 - 1"), None);
    assert_eq!(eval("-9223372036854775808 * -1"), None);
    assert_eq!(eval("4611686018427387904 * 2"), None);
    assert_eq!(eval("4611686018427387904 * -2"), Some(whole(i64::MIN)));
    assert_eq!(eval("3037000500 * 3037000500"), None);
}

#[test]
fn calculate_rule_writes_the_value_of_its_expression() {
    let processor = DataProcessor::new();
    let rules = vec![
        rule("total", "price", Some("total"), TransformationType::Calculate { expression: "price * quantity".to_string() }),
        rule("more", "price", Some("more"), TransformationType::Calculate { expression: "total + 1".to_string() }),
    ];
    let out = processor
        .transform(vec![record(&[("price", whole(4)), ("quantity", whole(5))])], &rules)
        .unwrap();
    assert_eq!(out[0].get("total"), Some(&whole(20)));
    assert_eq!(out[0].get("more"), Some(&whole(21)));
    let bad = vec![rule("bad", "price", None, TransformationType::Calculate { expression: "price +".to_string() })];
    let error = processor.transform(vec![record(&[("price", whole(4))])], &bad).unwrap_err();
    assert_eq!(
        error.to_string(),
        "Transformation error: Rule 'bad' failed on record 0: expression cannot be evaluated"
    );
}

#[test]
fn records_are_grouped_in_the_order_of_their_first_record() {
    let records = sales();
    let groups = group_records(&records, &names(&["region"]));
    assert_eq!(groups.len(), 3);
    assert_eq!(groups[0].key, vec![Some(text("north"))]);
    assert_eq!(groups[0].members, vec![0, 2]);
    assert_eq!(groups[1].key, vec![Some(text("south"))]);
    assert_eq!(groups[1].members, vec![1, 4]);
    assert_eq!(groups[2].key, vec![None]);
    assert_eq!(groups[2].members, vec![3]);
    let all = group_records(&records, &Vec::new());
    assert_eq!(all.len(), 1);
    assert_eq!(all[0].members, vec![0, 1, 2, 3, 4]);
    assert!(group_records(&Vec::new(), &Vec::new()).is_empty());
}

#[test]
fn sums_by_group() {
    let out = aggregate_records(&sales(), "amount", "total", AggregateOperation::Sum, &names(&["region"])).unwrap();
    assert_eq!(out.len(), 3);
    assert_eq!(out[0], record(&[("region", text("north")), ("total", whole(7))]));
    assert_eq!(out[1], record(&[("region", text("south")), ("total", whole(5))]));
    assert_eq!(out[2], record(&[("total", whole(7))]));
}

#[test]
fn counts_minimum_maximum_and_mean() {
    let by = names(&["region"]);
    let first = |operation| {
        aggregate_records(&sales(), "amount", "x", operation, &by).unwrap()[0].get("x").cloned()
    };
    assert_eq!(first(AggregateOperation::Count), Some(whole(2)));
    assert_eq!(first(AggregateOperation::Min), Some(whole(-3)));
    assert_eq!(first(AggregateOperation::Max), Some(whole(10)));
    assert_eq!(first(AggregateOperation::Average), Some(float("3.500000")));
    let whole_batch = |operation| {
        aggregate_records(&sales(), "amount", "x", operation, &Vec::new()).unwrap()[0].get("x").cloned()
    };
    assert_eq!(whole_batch(AggregateOperation::Count), Some(whole(4)));
    assert_eq!(whole_batch(AggregateOperation::Sum), Some(whole(19)));
    assert_eq!(whole_batch(AggregateOperation::Average), Some(float("4.750000")));
}

#[test]
fn texts_are_put_in_a_row() {
    let out = aggregate_records(&sales(), "who", "all", AggregateOperation::GroupConcat, &names(&["region"])).unwrap();
    assert_eq!(out[0].get("all"), Some(&text("ann,cy")));
    assert_eq!(out[1].get("all"), Some(&text("bob,eve")));
    assert_eq!(out[2].get("all"), Some(&text("dee")));
}

#[test]
fn a_group_without_values() {
    let records = vec![record(&[("g", whole(1))])];
    let by = names(&["g"]);
    let value = |operation| {
        aggregate_records(&records, "v", "x", operation, &by).unwrap()[0].get("x").cloned()
    };
    assert_eq!(value(AggregateOperation::Count), Some(whole(0)));
    assert_eq!(value(AggregateOperation::Sum), Some(whole(0)));
    assert_eq!(value(AggregateOperation::Average), None);
    assert_eq!(value(AggregateOperation::Min), None);
    assert_eq!(value(AggregateOperation::Max), None);
    assert_eq!(value(AggregateOperation::GroupConcat), Some(text("")));
    assert!(aggregate_records(&Vec::new(), "v", "x", AggregateOperation::Count, &by).unwrap().is_empty());
}

#[test]
fn values_that_an_operation_cannot_take() {
    let values = vec![whole(1), text("2")];
    assert_eq!(aggregate_values(AggregateOperation::Sum, &values), None);
    assert_eq!(aggregate_values(AggregateOperation::Min, &values), None);
    assert_eq!(aggregate_values(AggregateOperation::Max, &values), None);
    assert_eq!(aggregate_values(AggregateOperation::Average, &values), None);
    assert_eq!(aggregate_values(AggregateOperation::GroupConcat, &values), None);
    assert_eq!(aggregate_values(AggregateOperation::Count, &values), Some(Some(whole(2))));
    assert_eq!(aggregate_values(AggregateOperation::Sum, &vec![float("1.5")]), None);
    let big = vec![whole(i64::MAX), whole(1)];
    assert_eq!(aggregate_values(AggregateOperation::Sum, &big), None);
    let back = vec![whole(i64::MAX), whole(1), whole(-1)];
    assert_eq!(aggregate_values(AggregateOperation::Sum, &back), None);
    let fits = vec![whole(i64::MAX), whole(-1), whole(1)];
    assert_eq!(aggregate_values(AggregateOperation::Sum, &fits), Some(Some(whole(i64::MAX))));
    let huge = vec![JsonValue::Number(JsonNumber::PosInt(u64::MAX)), whole(-5)];
    assert_eq!(
        aggregate_values(AggregateOperation::Max, &huge),
        Some(Some(JsonValue::Number(JsonNumber::PosInt(u64::MAX))))
    );
    assert_eq!(aggregate_values(AggregateOperation::Min, &huge), Some(Some(whole(-5))));
}

#[test]
fn means_are_cut_off_after_six_places() {
    assert_eq!(mean_of(7, 2), "3.500000");
    assert_eq!(mean_of(1, 3), "0.333333");
    assert_eq!(mean_of(2, 3), "0.666666");
    assert_eq!(mean_of(-1, 3), "-0.333333");
    assert_eq!(mean_of(-7, 2), "-3.500000");
    assert_eq!(mean_of(0, 5), "0.000000");
    assert_eq!(mean_of(10, 1), "10.000000");
    assert_eq!(mean_of(1, 1000000), "0.000001");
    assert_eq!(mean_of(1, 10000000), "0.000000");
    assert_eq!(mean_of(i64::MAX, 1), "9223372036854775807.000000");
    assert_eq!(mean_of(i64::MIN, 2), "-4611686018427387904.000000");
    assert_eq!(mean_of(i64::MAX, usize::MAX), "0.499999");
}

#[test]
fn aggregate_rule_reduces_the_batch() {
    let processor = DataProcessor::new();
    let rules = vec![
        rule("keep", "region", None, TransformationType::Custom { function: "uppercase".to_string(), parameters: Vec::new() }),
        rule("amount", "amount", None, TransformationType::Convert { to_type: general_etl::config::settings::DataType::Integer }),
        rule(
            "total",
            "amount",
            Some("total"),
            TransformationType::Aggregate { operation: AggregateOperation::Sum, group_by: Some(names(&["region"])) },
        ),
    ];
    let out = processor.transform(sales(), &rules).unwrap();
    assert_eq!(out.len(), 3);
    assert_eq!(out[0], record(&[("region", text("NORTH")), ("total", whole(7))]));
    assert_eq!(out[1], record(&[("region", text("SOUTH")), ("total", whole(5))]));
    assert_eq!(out[2], record(&[("total", whole(7))]));
    assert_eq!(processor.transform_sequential(&sales(), &rules).unwrap(), out);
}

#[test]
fn aggregate_rule_that_fails_names_the_rule() {
    let processor = DataProcessor::new();
    let rules = vec![
        rule("who", "who", None, TransformationType::Mapping { mapping: Vec::new() }),
        rule("sum", "who", None, TransformationType::Aggregate { operation: AggregateOperation::Sum, group_by: None }),
    ];
    let error = processor.transform(sales(), &rules).unwrap_err();
    assert_eq!(
        error.to_string(),
        "Transformation error: Rule 'sum' failed: values cannot be aggregated"
    );
}

fn customers() -> Vec<DataRecord> {
    vec![
        record(&[("id", whole(1)), ("name", text("ann"))]),
        record(&[("id", whole(2)), ("name", text("bob"))]),
        record(&[("name", text("nobody"))]),
    ]
}

fn orders() -> Vec<DataRecord> {
    vec![
        record(&[("customer", whole(1)), ("item", text("pen")), ("name", text("order 1"))]),
        record(&[("customer", whole(3)), ("item", text("ink"))]),
        record(&[("customer", whole(1)), ("item", text("pad"))]),
        record(&[("item", text("free"))]),
    ]
}

#[test]
fn merged_records_prefer_the_first() {
    let merged = merge_records(&customers()[0], &orders()[0]);
    assert_eq!(merged.get("name"), Some(&text("ann")));
    assert_eq!(merged.get("item"), Some(&text("pen")));
    assert_eq!(merged.get("customer"), Some(&whole(1)));
    assert_eq!(merged.get("id"), Some(&whole(1)));
    assert_eq!(merged.fields.len(), 4);
}

#[test]
fn inner_join() {
    let out = join_records(&customers(), &orders(), "id", "customer", JoinType::Inner);
    assert_eq!(out.len(), 2);
    assert_eq!(out[0].get("item"), Some(&text("pen")));
    assert_eq!(out[0].get("name"), Some(&text("ann")));
    assert_eq!(out[1].get("item"), Some(&text("pad")));
    assert_eq!(out[1].get("name"), Some(&text("ann")));
}

#[test]
fn left_join() {
    let out = join_records(&customers(), &orders(), "id", "customer", JoinType::Left);
    assert_eq!(out.len(), 4);
    assert_eq!(out[0].get("item"), Some(&text("pen")));
    assert_eq!(out[1].get("item"), Some(&text("pad")));
    assert_eq!(out[2], customers()[1]);
    assert_eq!(out[3], customers()[2]);
}

#[test]
fn right_join() {
    let out = join_records(&customers(), &orders(), "id", "customer", JoinType::Right);
    assert_eq!(out.len(), 4);
    assert_eq!(out[0].get("item"), Some(&text("pen")));
    assert_eq!(out[1].get("item"), Some(&text("pad")));
    assert_eq!(out[2], orders()[1]);
    assert_eq!(out[3], orders()[3]);
}

#[test]
fn full_join() {
    let out = join_records(&customers(), &orders(), "id", "customer", JoinType::Full);
    assert_eq!(out.len(), 6);
    assert_eq!(out[2], customers()[1]);
    assert_eq!(out[3], customers()[2]);
    assert_eq!(out[4], orders()[1]);
    assert_eq!(out[5], orders()[3]);
}

#[test]
fn joins_with_an_empty_side() {
    for kind in [JoinType::Inner, JoinType::Left, JoinType::Right, JoinType::Full] {
        assert!(join_records(&Vec::new(), &Vec::new(), "a", "b", kind).is_empty());
    }
    assert!(join_records(&customers(), &Vec::new(), "id", "customer", JoinType::Inner).is_empty());
    assert_eq!(join_records(&customers(), &Vec::new(), "id", "customer", JoinType::Left), customers());
    assert_eq!(join_records(&Vec::new(), &orders(), "id", "customer", JoinType::Right), orders());
    assert!(join_records(&Vec::new(), &orders(), "id", "customer", JoinType::Left).is_empty());
}

#[test]
fn join_rule_uses_the_named_source() {
    let mut processor = DataProcessor::new();
    processor.add_join_source("orders".to_string(), Vec::new());
    processor.add_join_source("orders".to_string(), orders());
    assert_eq!(processor.join_source("orders").unwrap().len(), 4);
    assert!(processor.join_source("other").is_none());
    let copy = |field: &str| rule(field, field, None, TransformationType::Mapping { mapping: Vec::new() });
    let join = |source: &str| {
        rule(
            "orders",
            "id",
            None,
            TransformationType::Join {
                join_source: source.to_string(),
                join_key: "customer".to_string(),
                join_type: JoinType::Inner,
            },
        )
    };
    let out = processor.transform(customers(), &[copy("id"), copy("name"), join("orders")]).unwrap();
    assert_eq!(out.len(), 2);
    assert_eq!(out[1].get("item"), Some(&text("pad")));
    let error = processor.transform(customers(), &[copy("id"), join("missing")]).unwrap_err();
    assert_eq!(
        error.to_string(),
        "Transformation error: Rule 'orders' failed: unknown join source 'missing'"
    );
}

#[test]
fn batch_rules_come_after_the_rules_of_single_records() {
    let processor = DataProcessor::new();
    let rules = vec![
        rule("count", "n", Some("count"), TransformationType::Aggregate { operation: AggregateOperation::Count, group_by: None }),
        rule("small", "n", None, TransformationType::Filter { condition: "n < 3".to_string() }),
    ];
    let records = (0..10).map(|i| record(&[("n", whole(i))])).collect();
    let out = processor.transform(records, &rules).unwrap();
    assert_eq!(out, vec![record(&[("count", whole(3))])]);
}

#[test]
fn a_cancelled_transformation_gives_no_output() {
    let processor = DataProcessor::new();
    let rules = vec![rule("n", "n", None, TransformationType::Mapping { mapping: Vec::new() })];
    let records: Vec<DataRecord> = (0..20).map(|i| record(&[("n", whole(i))])).collect();
    let cancel = std::sync::atomic::AtomicBool::new(false);
    let out = processor.transform_cancellable(records.clone(), &rules, &cancel).unwrap();
    assert_eq!(out, processor.transform(records.clone(), &rules).unwrap());
    cancel.store(true, std::sync::atomic::Ordering::SeqCst);
    let error = processor.transform_cancellable(records.clone(), &rules, &cancel).unwrap_err();
    assert_eq!(error.to_string(), "Transformation error: Transformation cancelled");
    let error = processor.transform_cancellable(Vec::new(), &rules, &cancel).unwrap_err();
    assert_eq!(error.to_string(), "Transformation error: Transformation cancelled");
    let error = processor.transform_record_unless_cancelled(&records[0], 0, &rules, &cancel).unwrap_err();
    assert_eq!(error.to_string(), "Transformation error: Transformation cancelled");
}
