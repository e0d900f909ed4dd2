use crate::config::settings::{TransformationConfig, TransformationType};
use crate::models::data_types::{
    fields_map, find_field, records_model, DataRecord, RecordModel,
};
use crate::models::json::{JsonModel, JsonValue};
use crate::transformers::conditions::{condition_verdict, evaluate_condition};
use crate::transformers::aggregate::{aggregate_records, aggregation};
use crate::transformers::expressions::{calculated, evaluate_expression};
use crate::transformers::join::{join_records, joined};
use crate::transformers::processor::{looked_up, source_lookup, text_or_empty, DataProcessor};
use crate::utils::text::texts_of;
use crate::transformers::templates::{
    filter_condition, parse_filter, render_template, rendered, view_get, view_value,
};
use crate::transformers::values::{
    convert_value, converted, data_type_name, map_value, mapped_through,
};
use crate::utils::error::{is_transform_error, EtlError, Result};
use crate::utils::text::{
    decimal_digits, decimal_text, lowercase_of, text_concat, text_eq, to_lowercase, to_uppercase,
    uppercase_of,
};
use vstd::prelude::*;
use vstd::string::StringExecFns;

verus! {

/// What a rule makes of the value it reads.
pub enum ValueStep {
    /// The rule writes this value under its target field.
    Write(JsonModel),
    /// The rule does nothing to this record.
    Skip,
    /// The rule removes the record from the batch.
    Drop,
    /// The rule fails, for this reason.
    Fail(Seq<char>),
}

/// What has become of a record after some of the rules.
pub enum RecordStep {
    /// The record is still in the batch, with this output so far.
    Keep(RecordModel),
    /// A filter removed the record from the batch.
    Drop,
    /// A rule failed, with this message.
    Fail(Seq<char>),
}

/// The table that a lookup names: the string that the parameters give
/// under `table`.
pub open spec fn lookup_table(parameters: Seq<(String, JsonValue)>) -> Option<Seq<char>> {
    if fields_map(parameters).contains_key("table"@) {
        match fields_map(parameters)["table"@] {
            JsonModel::String(t) => Some(t),
            _ => None,
        }
    } else {
        None
    }
}

/// What a custom function makes of a value: `uppercase` and `lowercase`
/// change the case of a string, and `lookup` looks the value up in the table
/// that the parameters name. No other function is known.
pub open spec fn custom_step(
    function: Seq<char>,
    parameters: Seq<(String, JsonValue)>,
    value: JsonModel,
    cache: Map<Seq<char>, Seq<char>>,
) -> ValueStep {
    if function == "uppercase"@ {
        ValueStep::Write(JsonModel::String(uppercase_of(text_or_empty(value))))
    } else if function == "lowercase"@ {
        ValueStep::Write(JsonModel::String(lowercase_of(text_or_empty(value))))
    } else if function == "lookup"@ {
        match lookup_table(parameters) {
            Some(table) => ValueStep::Write(looked_up(value, table, cache)),
            None => ValueStep::Fail("lookup needs a table"@),
        }
    } else {
        ValueStep::Fail("unknown function '"@ + function + "'"@)
    }
}

/// What a filter makes of a value: the value itself where the filter's
/// condition holds of the record as the rule sees it, and the end of the
/// record where it does not.
pub open spec fn filter_step(
    condition: Seq<char>,
    value: JsonModel,
    output: RecordModel,
    input: RecordModel,
) -> ValueStep {
    match filter_condition(condition) {
        None => ValueStep::Fail("filter condition cannot be read"@),
        Some(c) => match condition_verdict(c.1, view_get(output, input, c.0), c.2) {
            Some(true) => ValueStep::Write(value),
            Some(false) => ValueStep::Drop,
            None => ValueStep::Fail("condition operator is not supported"@),
        },
    }
}

/// What a kind of transformation makes of the value that a rule reads. An
/// aggregation and a join are the work of the whole batch, and do nothing
/// to the single record.
pub open spec fn kind_step(
    kind: TransformationType,
    value: JsonModel,
    output: RecordModel,
    input: RecordModel,
    cache: Map<Seq<char>, Seq<char>>,
) -> ValueStep {
    match kind {
        TransformationType::Mapping { mapping } => ValueStep::Write(
            mapped_through(value, mapping@),
        ),
        TransformationType::Calculate { expression } => match calculated(
            expression@,
            output,
            input,
        ) {
            Some(v) => ValueStep::Write(v),
            None => ValueStep::Fail("expression cannot be evaluated"@),
        },
        TransformationType::Format { template } => match rendered(template@, output, input) {
            Some(text) => ValueStep::Write(JsonModel::String(text)),
            None => ValueStep::Fail("template cannot be rendered"@),
        },
        TransformationType::Convert { to_type } => match converted(value, to_type) {
            Some(v) => ValueStep::Write(v),
            None => ValueStep::Fail("value cannot be converted to "@ + data_type_name(to_type)),
        },
        TransformationType::Filter { condition } => filter_step(condition@, value, output, input),
        TransformationType::Aggregate { .. } => ValueStep::Skip,
        TransformationType::Join { .. } => ValueStep::Skip,
        TransformationType::Custom { function, parameters } => custom_step(
            function@,
            parameters@,
            value,
            cache,
        ),
    }
}

/// The field that a rule writes: its target field, and its source field
/// where it names no target.
pub open spec fn rule_target(rule: TransformationConfig) -> Seq<char> {
    match rule.target_field {
        Some(t) => t@,
        None => rule.source_field@,
    }
}

/// The message of a rule that failed: the rule, the place of the record in
/// its batch, and the reason.
pub open spec fn rule_failure(name: Seq<char>, index: nat, reason: Seq<char>) -> Seq<char> {
    "Rule '"@ + name + "' failed on record "@ + decimal_digits(index) + ": "@ + reason
}

/// Whether a rule applies to a record: always where it has no condition,
/// else where its condition holds of the record as the rule sees it.
/// Nothing where the condition's operator is not supported.
pub open spec fn rule_gate(rule: TransformationConfig, output: RecordModel, input: RecordModel) -> Option<
    bool,
> {
    match rule.condition {
        Some(c) => condition_verdict(c.operator, view_get(output, input, c.field@), c.value@),
        None => Some(true),
    }
}

/// What one rule makes of a record whose output so far is `output`. A rule
/// whose condition does not hold, or whose source field the input record
/// lacks, changes nothing.
pub open spec fn rule_step(
    output: RecordModel,
    input: RecordModel,
    rule: TransformationConfig,
    cache: Map<Seq<char>, Seq<char>>,
    index: nat,
) -> RecordStep {
    match rule_gate(rule, output, input) {
        None => RecordStep::Fail(
            rule_failure(rule.name@, index, "condition operator is not supported"@),
        ),
        Some(false) => RecordStep::Keep(output),
        Some(true) => if !input.contains_key(rule.source_field@) {
            RecordStep::Keep(output)
        } else {
            match kind_step(rule.transformation, input[rule.source_field@], output, input, cache) {
                ValueStep::Write(v) => RecordStep::Keep(output.insert(rule_target(rule), v)),
                ValueStep::Skip => RecordStep::Keep(output),
                ValueStep::Drop => RecordStep::Drop,
                ValueStep::Fail(reason) => RecordStep::Fail(
                    rule_failure(rule.name@, index, reason),
                ),
            }
        },
    }
}

/// What the rules make of a record, applied in order to an output that
/// starts without fields. A record that a filter removed, or on which a
/// rule failed, is not touched by the rules that follow.
pub open spec fn record_steps(
    input: RecordModel,
    rules: Seq<TransformationConfig>,
    cache: Map<Seq<char>, Seq<char>>,
    index: nat,
) -> RecordStep
    decreases rules.len(),
{
    if rules.len() == 0 {
        RecordStep::Keep(Map::empty())
    } else {
        match record_steps(input, rules.drop_last(), cache, index) {
            RecordStep::Keep(output) => rule_step(output, input, rules.last(), cache, index),
            other => other,
        }
    }
}

/// What a rule makes of the value it reads, as the code hands it on.
pub enum ValueOutcome {
    Write(JsonValue),
    Skip,
    Drop,
    Fail(String),
}

/// Whether what the code hands on is what the rule makes of the value.
pub open spec fn outcome_is(outcome: ValueOutcome, step: ValueStep) -> bool {
    match step {
        ValueStep::Write(v) => outcome matches ValueOutcome::Write(w) && w@ == v,
        ValueStep::Skip => outcome is Skip,
        ValueStep::Drop => outcome is Drop,
        ValueStep::Fail(reason) => outcome matches ValueOutcome::Fail(m) && m@ == reason,
    }
}

/// Whether what transforming a record returned is what the rules make of
/// it.
pub open spec fn transformed_is(result: Result<Option<DataRecord>>, step: RecordStep) -> bool {
    match step {
        RecordStep::Keep(output) => result matches Ok(Some(record)) && record@ == output,
        RecordStep::Drop => result matches Ok(None),
        RecordStep::Fail(message) => result matches Err(EtlError::TransformError(m)) && m@
            == message,
    }
}

impl DataProcessor {
    /// What a custom function makes of a value.
    pub fn apply_custom(
        &self,
        function: &str,
        parameters: &Vec<(String, JsonValue)>,
        value: &JsonValue,
    ) -> (r: ValueOutcome)
        ensures
            outcome_is(r, custom_step(function@, parameters@, value@, self.mappings())),
    {
        let text: &str = match value.as_str() {
            Some(s) => s,
            None => "",
        };
        proof {
            reveal_strlit("");
            assert(text@ =~= text_or_empty(value@));
        }
        if text_eq(function, "uppercase") {
            ValueOutcome::Write(JsonValue::String(to_uppercase(text)))
        } else if text_eq(function, "lowercase") {
            ValueOutcome::Write(JsonValue::String(to_lowercase(text)))
        } else if text_eq(function, "lookup") {
            match find_field(parameters, "table") {
                Some(JsonValue::String(table)) => {
                    match self.lookup_value(value, table.as_str()) {
                        Ok(v) => ValueOutcome::Write(v),
                        Err(_) => ValueOutcome::Skip,
                    }
                },
                _ => ValueOutcome::Fail(String::from_str("lookup needs a table")),
            }
        } else {
            let mut reason = text_concat("unknown function '", function);
            reason.append("'");
            ValueOutcome::Fail(reason)
        }
    }

    /// What a filter makes of a value.
    pub fn apply_filter(
        &self,
        condition: &str,
        value: &JsonValue,
        output: &DataRecord,
        input: &DataRecord,
    ) -> (r: ValueOutcome)
        ensures
            outcome_is(r, filter_step(condition@, value@, output@, input@)),
    {
        match parse_filter(condition) {
            None => ValueOutcome::Fail(String::from_str("filter condition cannot be read")),
            Some(c) => {
                let actual = view_value(output, input, c.field.as_str());
                match evaluate_condition(&c, actual) {
                    Some(true) => ValueOutcome::Write(value.clone()),
                    Some(false) => ValueOutcome::Drop,
                    None => ValueOutcome::Fail(
                        String::from_str("condition operator is not supported"),
                    ),
                }
            },
        }
    }

    /// What a kind of transformation makes of the value that a rule reads.
    pub fn apply_kind(
        &self,
        kind: &TransformationType,
        value: &JsonValue,
        output: &DataRecord,
        input: &DataRecord,
    ) -> (r: ValueOutcome)
        ensures
            outcome_is(r, kind_step(*kind, value@, output@, input@, self.mappings())),
    {
        match kind {
            TransformationType::Mapping { mapping } => ValueOutcome::Write(
                map_value(value, mapping),
            ),
            TransformationType::Calculate { expression } => {
                match evaluate_expression(expression.as_str(), output, input) {
                    Some(v) => ValueOutcome::Write(v),
                    None => ValueOutcome::Fail(String::from_str("expression cannot be evaluated")),
                }
            },
            TransformationType::Format { template } => {
                match render_template(template.as_str(), output, input) {
                    Some(text) => ValueOutcome::Write(JsonValue::String(text)),
                    None => ValueOutcome::Fail(String::from_str("template cannot be rendered")),
                }
            },
            TransformationType::Convert { to_type } => {
                match convert_value(value, *to_type) {
                    Some(v) => ValueOutcome::Write(v),
                    None => {
                        let name: &str = match to_type {
                            crate::config::settings::DataType::String => "string",
                            crate::config::settings::DataType::Integer => "integer",
                            crate::config::settings::DataType::Float => "float",
                            crate::config::settings::DataType::Boolean => "boolean",
                            crate::config::settings::DataType::Date => "date",
                            crate::config::settings::DataType::DateTime => "datetime",
                            crate::config::settings::DataType::Json => "json",
                        };
                        ValueOutcome::Fail(text_concat("value cannot be converted to ", name))
                    },
                }
            },
            TransformationType::Filter { condition } => self.apply_filter(
                condition.as_str(),
                value,
                output,
                input,
            ),
            TransformationType::Aggregate { .. } => ValueOutcome::Skip,
            TransformationType::Join { .. } => ValueOutcome::Skip,
            TransformationType::Custom { function, parameters } => self.apply_custom(
                function.as_str(),
                parameters,
                value,
            ),
        }
    }

    /// The message of a rule that failed.
    pub fn failure_message(name: &str, index: usize, reason: &str) -> (r: String)
        ensures
            r@ == rule_failure(name@, index as nat, reason@),
    {
        let mut message = text_concat("Rule '", name);
        message.append("' failed on record ");
        message.append(decimal_text(index as u64).as_str());
        message.append(": ");
        message.append(reason);
        message
    }

    /// Applies the rules to one record, which stands at place `index` of
    /// its batch: the output record, or nothing where a filter removed the
    /// record, or the error of the first rule that failed.
    pub fn transform_record(
        &self,
        record: &DataRecord,
        index: usize,
        rules: &[TransformationConfig],
    ) -> (r: Result<Option<DataRecord>>)
        ensures
            transformed_is(r, record_steps(record@, rules@, self.mappings(), index as nat)),
    {
        let mut output = DataRecord::new();
        let mut i: usize = 0;
        while i < rules.len()
            invariant
                i <= rules.len(),
                record_steps(record@, rules@.take(i as int), self.mappings(), index as nat)
                    == RecordStep::Keep(output@),
            decreases rules.len() - i,
        {
            let rule = &rules[i];
            proof {
                assert(rules@.take(i + 1).drop_last() =~= rules@.take(i as int));
                assert(rules@.take(i + 1).last() == rules@[i as int]);
            }
            let gate: Option<bool> = match &rule.condition {
                Some(c) => evaluate_condition(c, view_value(&output, record, c.field.as_str())),
                None => Some(true),
            };
            match gate {
                None => {
                    proof {
                        lemma_steps_end(record@, rules@, self.mappings(), index as nat, i + 1);
                    }
                    return Err(
                        EtlError::TransformError(
                            Self::failure_message(
                                rule.name.as_str(),
                                index,
                                "condition operator is not supported",
                            ),
                        ),
                    );
                },
                Some(false) => {},
                Some(true) => {
                    match record.get(rule.source_field.as_str()) {
                        None => {},
                        Some(value) => {
                            match self.apply_kind(&rule.transformation, value, &output, record) {
                                ValueOutcome::Write(v) => {
                                    let target: String = match &rule.target_field {
                                        Some(t) => t.clone(),
                                        None => rule.source_field.clone(),
                                    };
                                    output.insert(target, v);
                                },
                                ValueOutcome::Skip => {},
                                ValueOutcome::Drop => {
                                    proof {
                                        lemma_steps_end(
                                            record@,
                                            rules@,
                                            self.mappings(),
                                            index as nat,
                                            i + 1,
                                        );
                                    }
                                    return Ok(None);
                                },
                                ValueOutcome::Fail(reason) => {
                                    proof {
                                        lemma_steps_end(
                                            record@,
                                            rules@,
                                            self.mappings(),
                                            index as nat,
                                            i + 1,
                                        );
                                    }
                                    return Err(
                                        EtlError::TransformError(
                                            Self::failure_message(
                                                rule.name.as_str(),
                                                index,
                                                reason.as_str(),
                                            ),
                                        ),
                                    );
                                },
                            }
                        },
                    }
                },
            }
            i += 1;
        }
        assert(rules@.take(i as int) =~= rules@);
        Ok(Some(output))
    }
}

/// What the rules make of each record of a batch, in order.
pub open spec fn batch_steps(
    inputs: Seq<RecordModel>,
    rules: Seq<TransformationConfig>,
    cache: Map<Seq<char>, Seq<char>>,
) -> Seq<RecordStep> {
    Seq::new(inputs.len(), |i: int| record_steps(inputs[i], rules, cache, i as nat))
}

/// The output records of the records that are still in the batch, in
/// order.
pub open spec fn kept_records(steps: Seq<RecordStep>) -> Seq<RecordModel>
    decreases steps.len(),
{
    if steps.len() == 0 {
        Seq::empty()
    } else {
        match steps.last() {
            RecordStep::Keep(output) => kept_records(steps.drop_last()).push(output),
            _ => kept_records(steps.drop_last()),
        }
    }
}

/// Whether a rule failed on some record of the batch.
pub open spec fn any_failed(steps: Seq<RecordStep>) -> bool {
    exists|i: int| 0 <= i < steps.len() && (#[trigger] steps[i]) is Fail
}

/// Whether an error is that of a rule that failed on a record.
pub open spec fn is_failure_of(error: EtlError, step: RecordStep) -> bool {
    step matches RecordStep::Fail(message) && (error matches EtlError::TransformError(m) && m@
        == message)
}

/// Whether an error is that of a record of the batch on which a rule
/// failed.
pub open spec fn reports_failure(error: EtlError, steps: Seq<RecordStep>) -> bool {
    exists|i: int| 0 <= i < steps.len() && is_failure_of(error, #[trigger] steps[i])
}

/// Whether an error is that of the first record of the batch on which a
/// rule failed.
pub open spec fn reports_first_failure(error: EtlError, steps: Seq<RecordStep>) -> bool {
    exists|i: int|
        0 <= i < steps.len() && is_failure_of(error, #[trigger] steps[i]) && !any_failed(
            steps.take(i),
        )
}

/// What the rules of the whole batch make of it: the batch, or the message
/// of the rule that failed.
pub type BatchOutcome = core::result::Result<Seq<RecordModel>, Seq<char>>;

/// The message of a rule of the whole batch that failed.
pub open spec fn batch_failure(name: Seq<char>, reason: Seq<char>) -> Seq<char> {
    "Rule '"@ + name + "' failed: "@ + reason
}

/// The fields that an aggregation groups by: those given, or none.
pub open spec fn group_fields(group_by: Option<Vec<String>>) -> Seq<Seq<char>> {
    match group_by {
        Some(fields) => texts_of(fields@),
        None => Seq::empty(),
    }
}

/// What one rule makes of the whole batch. An aggregation reduces the
/// batch to one record for each group, from the values of the rule's source
/// field. A join puts each record together with the records of the named
/// source whose join key holds what the record holds in the rule's source
/// field. Any other rule leaves the batch as it is: its work is done record
/// by record. The condition of a rule is a matter of the single record, and
/// is not consulted here.
#[verifier::opaque]
pub open spec fn batch_rule_applied(
    records: Seq<RecordModel>,
    rule: TransformationConfig,
    sources: Seq<(String, Vec<DataRecord>)>,
) -> BatchOutcome {
    match rule.transformation {
        TransformationType::Aggregate { operation, group_by } => match aggregation(
            records,
            rule.source_field@,
            rule_target(rule),
            operation,
            group_fields(group_by),
        ) {
            Some(out) => Ok(out),
            None => Err(batch_failure(rule.name@, "values cannot be aggregated"@)),
        },
        TransformationType::Join { join_source, join_key, join_type } => match source_lookup(
            sources,
            join_source@,
        ) {
            Some(rights) => Ok(
                joined(records, records_model(rights), rule.source_field@, join_key@, join_type),
            ),
            None => Err(
                batch_failure(rule.name@, "unknown join source '"@ + join_source@ + "'"@),
            ),
        },
        _ => Ok(records),
    }
}

/// What the rules make of the whole batch, applied in order; the first
/// that fails ends the work.
pub open spec fn batch_rules_applied(
    records: Seq<RecordModel>,
    rules: Seq<TransformationConfig>,
    sources: Seq<(String, Vec<DataRecord>)>,
) -> BatchOutcome
    decreases rules.len(),
{
    if rules.len() == 0 {
        Ok(records)
    } else {
        match batch_rules_applied(records, rules.drop_last(), sources) {
            Ok(front) => batch_rule_applied(front, rules.last(), sources),
            Err(message) => Err(message),
        }
    }
}

/// Whether what the rules of the whole batch returned is what they make of
/// it.
pub open spec fn batch_rules_give(result: Result<Vec<DataRecord>>, outcome: BatchOutcome) -> bool {
    match outcome {
        Ok(records) => result matches Ok(out) && records_model(out@) == records,
        Err(message) => result matches Err(e) && is_transform_error(e, message),
    }
}

/// Whether what transforming a batch returned is what the rules make of
/// it. The rules are first applied record by record; the records that are
/// still in the batch then pass, in order, through the rules of the whole
/// batch. The error is that of a record on which a rule failed, or that of
/// a rule of the whole batch.
pub open spec fn batch_is(
    result: Result<Vec<DataRecord>>,
    steps: Seq<RecordStep>,
    rules: Seq<TransformationConfig>,
    sources: Seq<(String, Vec<DataRecord>)>,
) -> bool {
    if any_failed(steps) {
        result matches Err(e) && reports_failure(e, steps)
    } else {
        batch_rules_give(result, batch_rules_applied(kept_records(steps), rules, sources))
    }
}

/// Applies the rules to every record of the batch on rayon's thread pool,
/// with `par_iter`, `enumerate`, `map` and `collect`. Where every call of
/// `DataProcessor::transform_record` succeeds, the results come in the order
/// of the batch, each what the call returned for its record and its place;
/// else the error is that of one of the calls that failed.
#[verifier::external_body]
fn transform_in_parallel(
    processor: &DataProcessor,
    records: &Vec<DataRecord>,
    rules: &[TransformationConfig],
) -> (r: Result<Vec<Option<DataRecord>>>)
    ensures
        match r {
            Ok(outs) => outs.len() == records.len() && forall|i: int|
                0 <= i < outs.len() ==> transformed_is(
                    Ok(#[trigger] outs[i]),
                    record_steps(records[i]@, rules@, processor.mappings(), i as nat),
                ),
            Err(e) => exists|i: int|
                0 <= i < records.len() && transformed_is(
                    Err(e),
                    record_steps((#[trigger] records[i])@, rules@, processor.mappings(), i as nat),
                ),
        },
{
    rayon::iter::ParallelIterator::collect(
        rayon::iter::ParallelIterator::map(
            rayon::iter::IndexedParallelIterator::enumerate(
                rayon::iter::IntoParallelRefIterator::par_iter(records),
            ),
            |(index, record)| processor.transform_record(record, index, rules),
        ),
    )
}

impl DataProcessor {
    /// Gathers the records that are still in the batch.
    fn gather(outcomes: Vec<Option<DataRecord>>, Ghost(steps): Ghost<Seq<RecordStep>>) -> (out:
        Vec<DataRecord>)
        requires
            outcomes.len() == steps.len(),
            forall|i: int|
                0 <= i < steps.len() ==> transformed_is(Ok(#[trigger] outcomes[i]), steps[i]),
        ensures
            !any_failed(steps),
            records_model(out@) == kept_records(steps),
    {
        let ghost given = outcomes@;
        let count: usize = outcomes.len();
        let mut out: Vec<DataRecord> = Vec::new();
        let mut index: usize = 0;
        assert(records_model(out@) =~= kept_records(steps.take(0)));
        for outcome in it: outcomes
            invariant
                index == it.index(),
                it.seq() == given,
                given.len() == count,
                count == steps.len(),
                forall|i: int|
                    0 <= i < steps.len() ==> transformed_is(Ok(#[trigger] given[i]), steps[i]),
                records_model(out@) == kept_records(steps.take(index as int)),
        {
            proof {
                assert(steps.take(index + 1).drop_last() =~= steps.take(index as int));
                assert(steps.take(index + 1).last() == steps[index as int]);
                assert(transformed_is(Ok(given[index as int]), steps[index as int]));
            }
            let ghost before = records_model(out@);
            match outcome {
                Some(record) => {
                    out.push(record);
                    assert(records_model(out@) =~= before.push(record@));
                },
                None => {},
            }
            index += 1;
        }
        assert(steps.take(count as int) =~= steps);
        assert forall|i: int| 0 <= i < steps.len() implies !((#[trigger] steps[i]) is Fail) by {
            assert(transformed_is(Ok(given[i]), steps[i]));
        }
        out
    }

    /// Applies the rules to every record of a batch. A record that a filter
    /// removes is not in the output, and the records that stay keep their
    /// order. The records are processed in parallel; the output is what
    /// processing them one after the other gives. Where rules fail, the
    /// error is that of one of the records on which one failed.
    pub fn transform(&self, records: Vec<DataRecord>, rules: &[TransformationConfig]) -> (r: Result<
        Vec<DataRecord>,
    >)
        ensures
            batch_is(
                r,
                batch_steps(records_model(records@), rules@, self.mappings()),
                rules@,
                self.sources(),
            ),
    {
        let ghost steps = batch_steps(records_model(records@), rules@, self.mappings());
        match transform_in_parallel(self, &records, rules) {
            Ok(outcomes) => {
                let kept = Self::gather(outcomes, Ghost(steps));
                self.apply_batch_rules(kept, rules)
            },
            Err(e) => {
                proof {
                    let i = choose|i: int|
                        0 <= i < records.len() && transformed_is(
                            Err(e),
                            record_steps(
                                (#[trigger] records[i])@,
                                rules@,
                                self.mappings(),
                                i as nat,
                            ),
                        );
                    assert(steps[i] is Fail);
                }
                Err(e)
            },
        }
    }

    /// Applies the rules to every record of a batch, one record after the
    /// other. Where rules fail, the error is that of the first record on
    /// which one failed.
    pub fn transform_sequential(&self, records: &Vec<DataRecord>, rules: &[TransformationConfig]) -> (r:
        Result<Vec<DataRecord>>)
        ensures
            batch_is(
                r,
                batch_steps(records_model(records@), rules@, self.mappings()),
                rules@,
                self.sources(),
            ),
            any_failed(batch_steps(records_model(records@), rules@, self.mappings())) ==> (r
                matches Err(e) && reports_first_failure(
                e,
                batch_steps(records_model(records@), rules@, self.mappings()),
            )),
    {
        let ghost steps = batch_steps(records_model(records@), rules@, self.mappings());
        let mut out: Vec<DataRecord> = Vec::new();
        let mut i: usize = 0;
        assert(records_model(out@) =~= kept_records(steps.take(0)));
        while i < records.len()
            invariant
                i <= records.len(),
                steps == batch_steps(records_model(records@), rules@, self.mappings()),
                !any_failed(steps.take(i as int)),
                records_model(out@) == kept_records(steps.take(i as int)),
            decreases records.len() - i,
        {
            proof {
                assert(steps.take(i + 1).drop_last() =~= steps.take(i as int));
                assert(steps.take(i + 1).last() == steps[i as int]);
            }
            let ghost before = records_model(out@);
            match self.transform_record(&records[i], i, rules) {
                Ok(Some(record)) => {
                    out.push(record);
                    assert(records_model(out@) =~= before.push(record@));
                },
                Ok(None) => {},
                Err(e) => {
                    assert(steps[i as int] is Fail);
                    return Err(e);
                },
            }
            assert forall|k: int| 0 <= k < i + 1 implies !((#[trigger] steps.take(i + 1)[k])
                is Fail) by {
                if k < i {
                    assert(steps.take(i as int)[k] == steps[k]);
                }
            }
            i += 1;
        }
        assert(steps.take(i as int) =~= steps);
        self.apply_batch_rules(out, rules)
    }

    /// The message of a rule of the whole batch that failed.
    pub fn batch_failure_message(name: &str, reason: &str) -> (r: String)
        ensures
            r@ == batch_failure(name@, reason@),
    {
        let mut message = text_concat("Rule '", name);
        message.append("' failed: ");
        message.append(reason);
        message
    }

    /// Passes a batch through an aggregation.
    fn apply_aggregate(&self, records: Vec<DataRecord>, rule: &TransformationConfig) -> (r: Result<
        Vec<DataRecord>,
    >)
        requires
            rule.transformation is Aggregate,
        ensures
            batch_rules_give(
                r,
                batch_rule_applied(records_model(records@), *rule, self.sources()),
            ),
    {
        reveal(batch_rule_applied);
        match &rule.transformation {
            TransformationType::Aggregate { operation, group_by } => {
                let none: Vec<String> = Vec::new();
                assert(texts_of(none@) =~= Seq::<Seq<char>>::empty());
                let by: &Vec<String> = match group_by {
                    Some(fields) => fields,
                    None => &none,
                };
                let target: &str = match &rule.target_field {
                    Some(t) => t.as_str(),
                    None => rule.source_field.as_str(),
                };
                match aggregate_records(
                    &records,
                    rule.source_field.as_str(),
                    target,
                    *operation,
                    by,
                ) {
                    Some(out) => Ok(out),
                    None => Err(
                        EtlError::TransformError(
                            Self::batch_failure_message(
                                rule.name.as_str(),
                                "values cannot be aggregated",
                            ),
                        ),
                    ),
                }
            },
            _ => Ok(records),
        }
    }

    /// Passes a batch through a join.
    fn apply_join(&self, records: Vec<DataRecord>, rule: &TransformationConfig) -> (r: Result<
        Vec<DataRecord>,
    >)
        requires
            rule.transformation is Join,
        ensures
            batch_rules_give(
                r,
                batch_rule_applied(records_model(records@), *rule, self.sources()),
            ),
    {
        reveal(batch_rule_applied);
        match &rule.transformation {
            TransformationType::Join { join_source, join_key, join_type } => {
                match self.join_source(join_source.as_str()) {
                    Some(rights) => Ok(
                        join_records(
                            &records,
                            rights,
                            rule.source_field.as_str(),
                            join_key.as_str(),
                            *join_type,
                        ),
                    ),
                    None => {
                        let mut reason = text_concat("unknown join source '", join_source.as_str());
                        reason.append("'");
                        Err(
                            EtlError::TransformError(
                                Self::batch_failure_message(rule.name.as_str(), reason.as_str()),
                            ),
                        )
                    },
                }
            },
            _ => Ok(records),
        }
    }

    /// Passes a batch through one rule of the whole batch.
    pub fn apply_batch_rule(&self, records: Vec<DataRecord>, rule: &TransformationConfig) -> (r:
        Result<Vec<DataRecord>>)
        ensures
            batch_rules_give(
                r,
                batch_rule_applied(records_model(records@), *rule, self.sources()),
            ),
    {
        reveal(batch_rule_applied);
        match &rule.transformation {
            TransformationType::Aggregate { .. } => self.apply_aggregate(records, rule),
            TransformationType::Join { .. } => self.apply_join(records, rule),
            _ => Ok(records),
        }
    }

    /// Passes a batch through the rules of the whole batch, in order.
    pub fn apply_batch_rules(&self, records: Vec<DataRecord>, rules: &[TransformationConfig]) -> (r:
        Result<Vec<DataRecord>>)
        ensures
            batch_rules_give(
                r,
                batch_rules_applied(records_model(records@), rules@, self.sources()),
            ),
    {
        let ghost start = records_model(records@);
        let mut batch = records;
        let mut i: usize = 0;
        while i < rules.len()
            invariant
                i <= rules.len(),
                start == records_model(records@),
                batch_rules_applied(start, rules@.take(i as int), self.sources())
                    == BatchOutcome::Ok(records_model(batch@)),
            decreases rules.len() - i,
        {
            proof {
                assert(rules@.take(i + 1).drop_last() =~= rules@.take(i as int));
                assert(rules@.take(i + 1).last() == rules@[i as int]);
            }
            match self.apply_batch_rule(batch, &rules[i]) {
                Ok(out) => {
                    batch = out;
                },
                Err(e) => {
                    proof {
                        lemma_batch_rules_end(start, rules@, self.sources(), i + 1);
                    }
                    return Err(e);
                },
            }
            i += 1;
        }
        assert(rules@.take(i as int) =~= rules@);
        Ok(batch)
    }
}

/// Asks `std::sync::atomic::AtomicBool::load` whether the flag is set.
/// The answer depends on when it is asked.
#[verifier::external_body]
fn is_set(flag: &std::sync::atomic::AtomicBool) -> bool {
    flag.load(std::sync::atomic::Ordering::SeqCst)
}

/// Whether an error reports that the work was cancelled.
pub open spec fn is_cancellation(error: EtlError) -> bool {
    error matches EtlError::TransformError(m) && m@ == "Transformation cancelled"@
}

/// Applies the rules to every record of the batch on rayon's thread pool,
/// with `par_iter`, `enumerate`, `map` and `collect`, as long as the flag is
/// not set. Where every call of
/// `DataProcessor::transform_record_unless_cancelled` succeeds, the results
/// come in the order of the batch, each what the call returned for its
/// record and its place; else the error is that of one of the calls that
/// failed.
#[verifier::external_body]
fn transform_in_parallel_unless_cancelled(
    processor: &DataProcessor,
    records: &Vec<DataRecord>,
    rules: &[TransformationConfig],
    cancel: &std::sync::atomic::AtomicBool,
) -> (r: Result<Vec<Option<DataRecord>>>)
    ensures
        match r {
            Ok(outs) => outs.len() == records.len() && forall|i: int|
                0 <= i < outs.len() ==> transformed_is(
                    Ok(#[trigger] outs[i]),
                    record_steps(records[i]@, rules@, processor.mappings(), i as nat),
                ),
            Err(e) => is_cancellation(e) || exists|i: int|
                0 <= i < records.len() && transformed_is(
                    Err(e),
                    record_steps((#[trigger] records[i])@, rules@, processor.mappings(), i as nat),
                ),
        },
{
    rayon::iter::ParallelIterator::collect(
        rayon::iter::ParallelIterator::map(
            rayon::iter::IndexedParallelIterator::enumerate(
                rayon::iter::IntoParallelRefIterator::par_iter(records),
            ),
            |(index, record)|
                processor.transform_record_unless_cancelled(record, index, rules, cancel),
        ),
    )
}

impl DataProcessor {
    /// Applies the rules to one record, unless the flag is set: then the
    /// record is left alone and the cancellation is reported.
    pub fn transform_record_unless_cancelled(
        &self,
        record: &DataRecord,
        index: usize,
        rules: &[TransformationConfig],
        cancel: &std::sync::atomic::AtomicBool,
    ) -> (r: Result<Option<DataRecord>>)
        ensures
            match r {
                Ok(_) => transformed_is(
                    r,
                    record_steps(record@, rules@, self.mappings(), index as nat),
                ),
                Err(e) => is_cancellation(e) || transformed_is(
                    r,
                    record_steps(record@, rules@, self.mappings(), index as nat),
                ),
            },
    {
        if is_set(cancel) {
            return Err(EtlError::TransformError(String::from_str("Transformation cancelled")));
        }
        self.transform_record(record, index, rules)
    }

    /// Applies the rules to every record of a batch, as `transform` does,
    /// for as long as the flag is not set. Once it is set no further record
    /// is taken up, and the batch fails with the cancellation: there is no
    /// output of a part of the batch.
    pub fn transform_cancellable(
        &self,
        records: Vec<DataRecord>,
        rules: &[TransformationConfig],
        cancel: &std::sync::atomic::AtomicBool,
    ) -> (r: Result<Vec<DataRecord>>)
        ensures
            match r {
                Ok(_) => batch_is(
                    r,
                    batch_steps(records_model(records@), rules@, self.mappings()),
                    rules@,
                    self.sources(),
                ),
                Err(e) => is_cancellation(e) || batch_is(
                    r,
                    batch_steps(records_model(records@), rules@, self.mappings()),
                    rules@,
                    self.sources(),
                ),
            },
    {
        let ghost steps = batch_steps(records_model(records@), rules@, self.mappings());
        match transform_in_parallel_unless_cancelled(self, &records, rules, cancel) {
            Ok(outcomes) => {
                let kept = Self::gather(outcomes, Ghost(steps));
                if is_set(cancel) {
                    return Err(
                        EtlError::TransformError(String::from_str("Transformation cancelled")),
                    );
                }
                self.apply_batch_rules(kept, rules)
            },
            Err(e) => {
                proof {
                    if !is_cancellation(e) {
                        let i = choose|i: int|
                            0 <= i < records.len() && transformed_is(
                                Err(e),
                                record_steps(
                                    (#[trigger] records[i])@,
                                    rules@,
                                    self.mappings(),
                                    i as nat,
                                ),
                            );
                        assert(steps[i] is Fail);
                    }
                }
                Err(e)
            },
        }
    }
}

/// Once a rule of the whole batch has failed, the rules that follow change
/// nothing.
pub proof fn lemma_batch_rules_end(
    records: Seq<RecordModel>,
    rules: Seq<TransformationConfig>,
    sources: Seq<(String, Vec<DataRecord>)>,
    upto: int,
)
    requires
        0 <= upto <= rules.len(),
        batch_rules_applied(records, rules.take(upto), sources) is Err,
    ensures
        batch_rules_applied(records, rules, sources) == batch_rules_applied(
            records,
            rules.take(upto),
            sources,
        ),
    decreases rules.len() - upto,
{
    if upto == rules.len() {
        assert(rules.take(upto) =~= rules);
    } else {
        assert(rules.take(upto + 1).drop_last() =~= rules.take(upto));
        lemma_batch_rules_end(records, rules, sources, upto + 1);
    }
}

/// No more records come out of a batch than went in.
pub proof fn lemma_kept_at_most(steps: Seq<RecordStep>)
    ensures
        kept_records(steps).len() <= steps.len(),
    decreases steps.len(),
{
    if steps.len() > 0 {
        lemma_kept_at_most(steps.drop_last());
    }
}

/// A record that is removed makes the output smaller than the input.
pub proof fn law_removed_record_shrinks_batch(steps: Seq<RecordStep>, i: int)
    requires
        0 <= i < steps.len(),
        steps[i] is Drop,
    ensures
        kept_records(steps).len() < steps.len(),
    decreases steps.len(),
{
    lemma_kept_at_most(steps.drop_last());
    if i < steps.len() - 1 {
        law_removed_record_shrinks_batch(steps.drop_last(), i);
    }
}

/// A filter whose condition is false removes the record: where the rules
/// before a filter leave a record in the batch, the filter applies to the
/// record, and the condition of the filter does not hold, the record is not
/// in the output, whatever rules follow.
pub proof fn law_false_filter_removes_record(
    input: RecordModel,
    rules: Seq<TransformationConfig>,
    cache: Map<Seq<char>, Seq<char>>,
    index: nat,
    k: int,
)
    requires
        0 <= k < rules.len(),
        rules[k].transformation is Filter,
        record_steps(input, rules.take(k), cache, index) is Keep,
        rule_gate(rules[k], record_steps(input, rules.take(k), cache, index)->Keep_0, input)
            == Some(true),
        input.contains_key(rules[k].source_field@),
        filter_condition(rules[k].transformation->Filter_condition@) matches Some(c)
            && condition_verdict(
            c.1,
            view_get(record_steps(input, rules.take(k), cache, index)->Keep_0, input, c.0),
            c.2,
        ) == Some(false),
    ensures
        record_steps(input, rules, cache, index) is Drop,
{
    assert(rules.take(k + 1).drop_last() =~= rules.take(k));
    assert(rules.take(k + 1).last() == rules[k]);
    lemma_steps_end(input, rules, cache, index, k + 1);
}

/// Once a record is removed or a rule has failed, the rules that follow
/// change nothing.
pub proof fn lemma_steps_end(
    input: RecordModel,
    rules: Seq<TransformationConfig>,
    cache: Map<Seq<char>, Seq<char>>,
    index: nat,
    upto: int,
)
    requires
        0 <= upto <= rules.len(),
        !(record_steps(input, rules.take(upto), cache, index) is Keep),
    ensures
        record_steps(input, rules, cache, index) == record_steps(
            input,
            rules.take(upto),
            cache,
            index,
        ),
    decreases rules.len() - upto,
{
    if upto == rules.len() {
        assert(rules.take(upto) =~= rules);
    } else {
        assert(rules.take(upto + 1).drop_last() =~= rules.take(upto));
        lemma_steps_end(input, rules, cache, index, upto + 1);
    }
}

/// Whether a rule is the work of the whole batch: an aggregation or a
/// join.
pub open spec fn is_batch_rule(rule: TransformationConfig) -> bool {
    rule.transformation is Aggregate || rule.transformation is Join
}

/// The number of records that were removed from the batch.
pub open spec fn removed_count(steps: Seq<RecordStep>) -> nat
    decreases steps.len(),
{
    if steps.len() == 0 {
        0
    } else if steps.last() is Drop {
        removed_count(steps.drop_last()) + 1
    } else {
        removed_count(steps.drop_last())
    }
}

/// Rules that are all the work of single records leave the batch as it is
/// when the whole batch passes through them.
pub proof fn law_single_record_rules_keep_the_batch(
    records: Seq<RecordModel>,
    rules: Seq<TransformationConfig>,
    sources: Seq<(String, Vec<DataRecord>)>,
)
    requires
        forall|i: int| 0 <= i < rules.len() ==> !is_batch_rule(#[trigger] rules[i]),
    ensures
        batch_rules_applied(records, rules, sources) == BatchOutcome::Ok(records),
    decreases rules.len(),
{
    reveal(batch_rule_applied);
    if rules.len() > 0 {
        assert forall|i: int| 0 <= i < rules.drop_last().len() implies !is_batch_rule(
            #[trigger] rules.drop_last()[i],
        ) by {
            assert(rules.drop_last()[i] == rules[i]);
        }
        law_single_record_rules_keep_the_batch(records, rules.drop_last(), sources);
        assert(!is_batch_rule(rules[rules.len() - 1]));
    }
}

/// Where no rule fails, the records that stay are all the records but
/// those that were removed.
pub proof fn law_kept_count(steps: Seq<RecordStep>)
    requires
        !any_failed(steps),
    ensures
        kept_records(steps).len() + removed_count(steps) == steps.len(),
    decreases steps.len(),
{
    if steps.len() > 0 {
        assert forall|i: int| 0 <= i < steps.drop_last().len() implies !((
        #[trigger] steps.drop_last()[i]) is Fail) by {
            assert(steps.drop_last()[i] == steps[i]);
        }
        law_kept_count(steps.drop_last());
        assert(!(steps[steps.len() - 1] is Fail));
    }
}

/// A batch shrinks by exactly the records that filters remove: where no
/// rule fails and no rule is an aggregation or a join, the output holds the
/// output record of every record that was not removed, in order, and none
/// of a record that was.
pub proof fn law_filters_shrink_the_batch(
    result: Result<Vec<DataRecord>>,
    steps: Seq<RecordStep>,
    rules: Seq<TransformationConfig>,
    sources: Seq<(String, Vec<DataRecord>)>,
)
    requires
        batch_is(result, steps, rules, sources),
        !any_failed(steps),
        forall|i: int| 0 <= i < rules.len() ==> !is_batch_rule(#[trigger] rules[i]),
    ensures
        result matches Ok(out) && records_model(out@) == kept_records(steps) && out@.len()
            + removed_count(steps) == steps.len(),
{
    law_single_record_rules_keep_the_batch(kept_records(steps), rules, sources);
    law_kept_count(steps);
    assert(records_model(result->Ok_0@).len() == result->Ok_0@.len());
}

/// The output of a batch does not depend on the way its records are
/// processed, one after the other or many at a time: two results that both
/// are what the rules make of the batch succeed together and fail together,
/// and where they succeed they hold the same records in the same order.
pub proof fn law_output_is_determined(
    first: Result<Vec<DataRecord>>,
    second: Result<Vec<DataRecord>>,
    steps: Seq<RecordStep>,
    rules: Seq<TransformationConfig>,
    sources: Seq<(String, Vec<DataRecord>)>,
)
    requires
        batch_is(first, steps, rules, sources),
        batch_is(second, steps, rules, sources),
    ensures
        first is Ok <==> second is Ok,
        first matches Ok(a) ==> (second matches Ok(b) && records_model(a@) == records_model(b@)),
{
}

} // verus!
