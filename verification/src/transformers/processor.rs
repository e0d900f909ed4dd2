use crate::models::data_types::{
    records_model, DataRecord, MappingRule, RecordModel, TransformationType,
};
use crate::models::json::{JsonModel, JsonValue};
use crate::transformers::expressions::{calculated, evaluate_expression};
use crate::utils::error::{is_transform_error, EtlError, Result};
use crate::utils::text::{lowercase_of, text_concat, to_lowercase, to_uppercase, uppercase_of};
use vstd::prelude::*;
use vstd::string::StringExecFns;

verus! {

/// `dashmap::DashMap`, a map that many threads can read at once.
#[verifier::external_type_specification]
#[verifier::external_body]
#[verifier::reject_recursive_types(K)]
#[verifier::reject_recursive_types(V)]
#[verifier::reject_recursive_types(S)]
pub struct ExDashMap<K, V, S>(dashmap::DashMap<K, V, S>);

/// What a cache holds: the value under each key.
pub uninterp spec fn cache_entries(cache: dashmap::DashMap<String, String>) -> Map<
    Seq<char>,
    Seq<char>,
>;

/// The cache that holds nothing.
pub open spec fn no_entries() -> Map<Seq<char>, Seq<char>> {
    Map::empty()
}

/// Calls `dashmap::DashMap::new`: a cache that holds nothing.
#[verifier::external_body]
fn new_cache() -> (cache: dashmap::DashMap<String, String>)
    ensures
        cache_entries(cache) == no_entries(),
{
    dashmap::DashMap::new()
}

/// Calls `dashmap::DashMap::insert`: the key holds the value afterwards, and
/// every other key holds what it held.
#[verifier::external_body]
fn cache_insert(cache: &mut dashmap::DashMap<String, String>, key: String, value: String)
    ensures
        cache_entries(*final(cache)) == cache_entries(*old(cache)).insert(key@, value@),
{
    cache.insert(key, value);
}

/// Calls `dashmap::DashMap::get` and copies the value out: what the key
/// holds, or nothing where it holds nothing.
#[verifier::external_body]
fn cache_get(cache: &dashmap::DashMap<String, String>, key: &str) -> (r: Option<String>)
    ensures
        match r {
            Some(value) => cache_entries(*cache).contains_key(key@) && cache_entries(*cache)[key@]
                == value@,
            None => !cache_entries(*cache).contains_key(key@),
        },
{
    cache.get(key).map(|entry| entry.value().clone())
}

/// The text of a string value, and the empty text for any other value.
pub open spec fn text_or_empty(value: JsonModel) -> Seq<char> {
    match value {
        JsonModel::String(s) => s,
        _ => Seq::empty(),
    }
}

/// The key under which the cache holds the entry of `table` for `key`.
pub open spec fn lookup_key(table: Seq<char>, key: Seq<char>) -> Seq<char> {
    table + ":"@ + key
}

/// What a lookup gives: the cached entry of the table for the value's text,
/// as a string, and the value itself where the cache has no such entry.
pub open spec fn looked_up(
    value: JsonModel,
    table: Seq<char>,
    cache: Map<Seq<char>, Seq<char>>,
) -> JsonModel {
    let key = lookup_key(table, text_or_empty(value));
    if cache.contains_key(key) {
        JsonModel::String(cache[key])
    } else {
        value
    }
}

/// What a rule makes of a value: the value that it writes, or the message
/// of its failure.
pub type FieldOutcome = core::result::Result<JsonModel, Seq<char>>;

/// What rules make of a record: the output record, or the message of the
/// first rule that failed.
pub type RecordOutcome = core::result::Result<RecordModel, Seq<char>>;

/// The message of an expression that cannot be evaluated.
pub open spec fn calculation_failure(expression: Seq<char>) -> Seq<char> {
    "expression cannot be evaluated: "@ + expression
}

/// What a calculation gives: the value of the expression over the fields
/// that the rule sees, those of the output so far before those of the input
/// record, or the failure of an expression that has no value there.
pub open spec fn calculation(
    expression: Seq<char>,
    output: RecordModel,
    input: RecordModel,
) -> FieldOutcome {
    match calculated(expression, output, input) {
        Some(v) => Ok(v),
        None => Err(calculation_failure(expression)),
    }
}

/// What a mapping rule makes of the value it reads, given the output so
/// far and the input record. Only a calculation can fail.
pub open spec fn mapped_value(
    transformation: Option<TransformationType>,
    value: JsonModel,
    output: RecordModel,
    input: RecordModel,
    cache: Map<Seq<char>, Seq<char>>,
) -> FieldOutcome {
    match transformation {
        Some(TransformationType::Uppercase) => Ok(
            JsonModel::String(uppercase_of(text_or_empty(value))),
        ),
        Some(TransformationType::Lowercase) => Ok(
            JsonModel::String(lowercase_of(text_or_empty(value))),
        ),
        Some(TransformationType::Calculate(expression)) => calculation(expression@, output, input),
        Some(TransformationType::Lookup(table)) => Ok(looked_up(value, table@, cache)),
        None => Ok(value),
    }
}

/// The output record after one more rule: a rule whose source field the
/// input record lacks changes nothing, any other writes what it makes of
/// that field under its target field, and fails where it makes nothing of
/// it.
pub open spec fn rule_applied(
    output: RecordModel,
    input: RecordModel,
    rule: MappingRule,
    cache: Map<Seq<char>, Seq<char>>,
) -> RecordOutcome {
    if input.contains_key(rule.source_field@) {
        match mapped_value(rule.transformation, input[rule.source_field@], output, input, cache) {
            Ok(v) => Ok(output.insert(rule.target_field@, v)),
            Err(message) => Err(message),
        }
    } else {
        Ok(output)
    }
}

/// The output record of an input record under a list of rules: the rules
/// are applied in order, starting from a record without fields, and the
/// first that fails ends the work.
pub open spec fn rules_applied(
    input: RecordModel,
    rules: Seq<MappingRule>,
    cache: Map<Seq<char>, Seq<char>>,
) -> RecordOutcome
    decreases rules.len(),
{
    if rules.len() == 0 {
        Ok(Map::empty())
    } else {
        match rules_applied(input, rules.drop_last(), cache) {
            Ok(front) => rule_applied(front, input, rules.last(), cache),
            Err(message) => Err(message),
        }
    }
}

/// Whether the rules fail on a record of the batch.
pub open spec fn batch_fails(
    inputs: Seq<RecordModel>,
    rules: Seq<MappingRule>,
    cache: Map<Seq<char>, Seq<char>>,
) -> bool {
    exists|i: int|
        0 <= i < inputs.len() && (#[trigger] rules_applied(inputs[i], rules, cache)) is Err
}

/// The output batch of an input batch on which the rules do not fail: each
/// record under the rules, in the order of the input.
pub open spec fn batch_applied(
    inputs: Seq<RecordModel>,
    rules: Seq<MappingRule>,
    cache: Map<Seq<char>, Seq<char>>,
) -> Seq<RecordModel> {
    Seq::new(inputs.len(), |i: int| rules_applied(inputs[i], rules, cache)->Ok_0)
}

/// Whether an error is the failure of rules on a record.
pub open spec fn is_failure(error: EtlError, outcome: RecordOutcome) -> bool {
    outcome matches Err(message) && is_transform_error(error, message)
}

/// Whether an error is that of the first record of a batch on which the
/// rules fail.
pub open spec fn is_first_failure(
    error: EtlError,
    inputs: Seq<RecordModel>,
    rules: Seq<MappingRule>,
    cache: Map<Seq<char>, Seq<char>>,
) -> bool {
    exists|i: int|
        0 <= i < inputs.len() && is_failure(
            error,
            #[trigger] rules_applied(inputs[i], rules, cache),
        ) && forall|k: int|
            0 <= k < i ==> (#[trigger] rules_applied(inputs[k], rules, cache)) is Ok
}

/// Whether what processing a batch returned is what the rules make of it:
/// the output batch where the rules fail on no record, and else the error
/// of a record on which they fail.
pub open spec fn batch_result_is(
    result: Result<Vec<DataRecord>>,
    inputs: Seq<RecordModel>,
    rules: Seq<MappingRule>,
    cache: Map<Seq<char>, Seq<char>>,
) -> bool {
    if batch_fails(inputs, rules, cache) {
        result matches Err(e) && exists|i: int|
            0 <= i < inputs.len() && is_failure(
                e,
                #[trigger] rules_applied(inputs[i], rules, cache),
            )
    } else {
        result matches Ok(out) && records_model(out@) == batch_applied(inputs, rules, cache)
    }
}

/// The keys and values of a list of entries.
pub open spec fn entry_texts(entries: Seq<(String, String)>) -> Seq<(Seq<char>, Seq<char>)> {
    entries.map_values(|e: (String, String)| (e.0@, e.1@))
}

/// What loading a list of entries makes of a cache: each entry is stored
/// under its key, a later one over an earlier one of the same key.
pub open spec fn entries_loaded(
    cache: Map<Seq<char>, Seq<char>>,
    entries: Seq<(Seq<char>, Seq<char>)>,
) -> Map<Seq<char>, Seq<char>>
    decreases entries.len(),
{
    if entries.len() == 0 {
        cache
    } else {
        entries_loaded(cache, entries.drop_last()).insert(entries.last().0, entries.last().1)
    }
}

/// The records of the source of the given name: those that were added
/// last under it, or nothing where none were.
pub open spec fn source_lookup(sources: Seq<(String, Vec<DataRecord>)>, name: Seq<char>) -> Option<
    Seq<DataRecord>,
>
    decreases sources.len(),
{
    if sources.len() == 0 {
        None
    } else if sources.last().0@ == name {
        Some(sources.last().1@)
    } else {
        source_lookup(sources.drop_last(), name)
    }
}

/// Applies rules to records, with a cache of lookup tables and the records
/// of the sources that a batch can be joined with.
pub struct DataProcessor {
    mapping_cache: dashmap::DashMap<String, String>,
    join_sources: Vec<(String, Vec<DataRecord>)>,
}

/// Whether what applying the rules to a record returned is what the rules
/// make of it: the output record, or the error of the rule that failed.
pub open spec fn applied_is(result: Result<DataRecord>, outcome: RecordOutcome) -> bool {
    match outcome {
        Ok(output) => result matches Ok(record) && record@ == output,
        Err(_) => result matches Err(e) && is_failure(e, outcome),
    }
}

/// Rules that have failed on a record stay failed when more rules follow.
pub proof fn lemma_failure_stays(
    input: RecordModel,
    rules: Seq<MappingRule>,
    k: int,
    cache: Map<Seq<char>, Seq<char>>,
)
    requires
        0 <= k <= rules.len(),
        rules_applied(input, rules.take(k), cache) is Err,
    ensures
        rules_applied(input, rules, cache) == rules_applied(input, rules.take(k), cache),
    decreases rules.len(),
{
    if k == rules.len() {
        assert(rules.take(k) =~= rules);
    } else {
        assert(rules.drop_last().take(k) =~= rules.take(k));
        lemma_failure_stays(input, rules.drop_last(), k, cache);
    }
}

/// Rules without a calculation fail on no record.
pub proof fn law_rules_without_calculation_succeed(
    input: RecordModel,
    rules: Seq<MappingRule>,
    cache: Map<Seq<char>, Seq<char>>,
)
    requires
        forall|i: int|
            0 <= i < rules.len() ==> !((#[trigger] rules[i]).transformation matches Some(
                TransformationType::Calculate(_),
            )),
    ensures
        rules_applied(input, rules, cache) is Ok,
    decreases rules.len(),
{
    if rules.len() > 0 {
        assert forall|i: int| 0 <= i < rules.drop_last().len() implies !((
        #[trigger] rules.drop_last()[i]).transformation matches Some(
            TransformationType::Calculate(_),
        )) by {
            assert(rules.drop_last()[i] == rules[i]);
        }
        law_rules_without_calculation_succeed(input, rules.drop_last(), cache);
        assert(!(rules[rules.len() - 1].transformation matches Some(
            TransformationType::Calculate(_),
        )));
    }
}

/// The output of a batch does not depend on the way its records are
/// processed, one after the other or many at a time: two results that both
/// are what the rules make of the batch succeed together and fail together,
/// and where they succeed they hold the same records in the same order.
pub proof fn law_processing_is_determined(
    first: Result<Vec<DataRecord>>,
    second: Result<Vec<DataRecord>>,
    inputs: Seq<RecordModel>,
    rules: Seq<MappingRule>,
    cache: Map<Seq<char>, Seq<char>>,
)
    requires
        batch_result_is(first, inputs, rules, cache),
        batch_result_is(second, inputs, rules, cache),
    ensures
        first is Ok <==> second is Ok,
        first matches Ok(a) ==> (second matches Ok(b) && records_model(a@) == records_model(b@)),
{
}

/// Applies the rules to every record of the batch on rayon's thread pool,
/// with `par_iter`, `map` and `collect`. Where every call of
/// `DataProcessor::apply_rules` succeeds, the results come in the order of
/// the batch, each what the call returned for its record; else the error is
/// that of one of the calls that failed.
#[verifier::external_body]
fn apply_in_parallel(
    processor: &DataProcessor,
    records: &Vec<DataRecord>,
    rules: &[MappingRule],
) -> (r: Result<Vec<DataRecord>>)
    ensures
        match r {
            Ok(outs) => outs.len() == records.len() && forall|i: int|
                0 <= i < outs.len() ==> applied_is(
                    Ok(#[trigger] outs[i]),
                    rules_applied(records[i]@, rules@, processor.mappings()),
                ),
            Err(e) => exists|i: int|
                0 <= i < records.len() && applied_is(
                    Err(e),
                    rules_applied((#[trigger] records[i])@, rules@, processor.mappings()),
                ),
        },
{
    rayon::iter::ParallelIterator::collect(
        rayon::iter::ParallelIterator::map(
            rayon::iter::IntoParallelRefIterator::par_iter(records),
            |record| processor.apply_rules(record, rules),
        ),
    )
}

impl DataProcessor {
    /// What the cache of lookup tables holds.
    pub closed spec fn mappings(&self) -> Map<Seq<char>, Seq<char>> {
        cache_entries(self.mapping_cache)
    }

    /// The sources that a batch can be joined with, in the order in which
    /// they were added.
    pub closed spec fn sources(&self) -> Seq<(String, Vec<DataRecord>)> {
        self.join_sources@
    }

    /// A processor whose cache holds nothing and which knows no source to
    /// join with.
    pub fn new() -> (r: Self)
        ensures
            r.mappings() == no_entries(),
            r.sources().len() == 0,
    {
        DataProcessor { mapping_cache: new_cache(), join_sources: Vec::new() }
    }

    /// Adds the records of a source that a batch can be joined with, under
    /// a name.
    pub fn add_join_source(&mut self, name: String, records: Vec<DataRecord>)
        ensures
            final(self).sources() == old(self).sources().push((name, records)),
            final(self).mappings() == old(self).mappings(),
    {
        self.join_sources.push((name, records));
    }

    /// The records of the source of the given name.
    pub fn join_source(&self, name: &str) -> (r: Option<&Vec<DataRecord>>)
        ensures
            match r {
                Some(records) => source_lookup(self.sources(), name@) == Some(records@),
                None => source_lookup(self.sources(), name@) is None,
            },
    {
        let mut i: usize = self.join_sources.len();
        assert(self.join_sources@.take(i as int) =~= self.join_sources@);
        while i > 0
            invariant
                i <= self.join_sources.len(),
                source_lookup(self.join_sources@, name@) == source_lookup(
                    self.join_sources@.take(i as int),
                    name@,
                ),
            decreases i,
        {
            i -= 1;
            proof {
                assert(self.join_sources@.take(i + 1).drop_last() =~= self.join_sources@.take(
                    i as int,
                ));
                assert(self.join_sources@.take(i + 1).last() == self.join_sources@[i as int]);
            }
            if crate::utils::text::text_eq(self.join_sources[i].0.as_str(), name) {
                return Some(&self.join_sources[i].1);
            }
        }
        None
    }

    /// Stores lookup entries in the cache, each under its key. This is the
    /// one way to change the cache, and it needs the processor to itself:
    /// while records are processed the cache is only read.
    pub fn load_mapping(&mut self, mapping_data: Vec<(String, String)>)
        ensures
            final(self).mappings() == entries_loaded(
                old(self).mappings(),
                entry_texts(mapping_data@),
            ),
            final(self).sources() == old(self).sources(),
    {
        let ghost given = mapping_data@;
        let ghost entries = entry_texts(mapping_data@);
        let ghost start = self.mappings();
        let mut index: usize = 0;
        let count: usize = mapping_data.len();
        for entry in it: mapping_data
            invariant
                index == it.index(),
                it.seq() == given,
                entries == entry_texts(given),
                entries.len() == count,
                self.sources() == old(self).sources(),
                self.mappings() == entries_loaded(start, entries.take(index as int)),
        {
            let (key, value) = entry;
            proof {
                assert(entries.take(index + 1).drop_last() =~= entries.take(index as int));
                assert(entries.take(index + 1).last() == (entry.0@, entry.1@));
            }
            cache_insert(&mut self.mapping_cache, key, value);
            index += 1;
        }
        assert(entries.take(count as int) =~= entries);
    }

    /// Applies the rules to every record of a batch. The records are
    /// processed in parallel; the output is what processing them one after
    /// the other gives, record for record and in the same order. A mapping
    /// rule removes no record: the output has as many records as the input.
    /// Where the rules fail on a record, the error is that of such a record.
    pub fn process_records(&self, records: Vec<DataRecord>, rules: &[MappingRule]) -> (r: Result<
        Vec<DataRecord>,
    >)
        ensures
            batch_result_is(r, records_model(records@), rules@, self.mappings()),
            r matches Ok(out) ==> out.len() == records.len(),
    {
        let ghost inputs = records_model(records@);
        assert(inputs.len() == records.len());
        assert forall|i: int| 0 <= i < records.len() implies inputs[i] == (
        #[trigger] records[i])@ by {}
        match apply_in_parallel(self, &records, rules) {
            Ok(out) => {
                assert forall|i: int| 0 <= i < inputs.len() implies !((#[trigger] rules_applied(
                    inputs[i],
                    rules@,
                    self.mappings(),
                )) is Err) by {
                    assert(applied_is(
                        Ok(out[i]),
                        rules_applied(records[i]@, rules@, self.mappings()),
                    ));
                }
                assert(records_model(out@) =~= batch_applied(inputs, rules@, self.mappings()));
                Ok(out)
            },
            Err(e) => {
                let ghost at = choose|i: int|
                    0 <= i < records.len() && applied_is(
                        Err(e),
                        rules_applied((#[trigger] records[i])@, rules@, self.mappings()),
                    );
                assert(rules_applied(inputs[at], rules@, self.mappings()) is Err);
                Err(e)
            },
        }
    }

    /// Applies the rules to every record of a batch, one record after the
    /// other. Where the rules fail on a record, the error is that of the
    /// first such record.
    pub fn process_records_sequential(&self, records: &Vec<DataRecord>, rules: &[MappingRule]) -> (r:
        Result<Vec<DataRecord>>)
        ensures
            batch_result_is(r, records_model(records@), rules@, self.mappings()),
            r matches Err(e) ==> is_first_failure(
                e,
                records_model(records@),
                rules@,
                self.mappings(),
            ),
    {
        let ghost inputs = records_model(records@);
        assert(inputs.len() == records.len());
        assert forall|i: int| 0 <= i < records.len() implies inputs[i] == (
        #[trigger] records[i])@ by {}
        let mut out: Vec<DataRecord> = Vec::new();
        let mut i: usize = 0;
        while i < records.len()
            invariant
                i <= records.len(),
                out.len() == i,
                inputs == records_model(records@),
                inputs.len() == records.len(),
                forall|k: int| 0 <= k < records.len() ==> inputs[k] == (#[trigger] records[k])@,
                forall|k: int|
                    0 <= k < i ==> (#[trigger] rules_applied(
                        records[k]@,
                        rules@,
                        self.mappings(),
                    )) == RecordOutcome::Ok(out[k]@),
            decreases records.len() - i,
        {
            match self.apply_rules(&records[i], rules) {
                Ok(record) => {
                    out.push(record);
                },
                Err(e) => {
                    assert(rules_applied(inputs[i as int], rules@, self.mappings()) is Err);
                    return Err(e);
                },
            }
            i += 1;
        }
        assert forall|k: int| 0 <= k < inputs.len() implies !((#[trigger] rules_applied(
            inputs[k],
            rules@,
            self.mappings(),
        )) is Err) by {
            assert(rules_applied(records[k]@, rules@, self.mappings()) is Ok);
        }
        assert(records_model(out@) =~= batch_applied(inputs, rules@, self.mappings()));
        Ok(out)
    }

    /// Builds the output record of one input record: each rule whose
    /// source field the record has writes its target field. A calculation
    /// whose expression has no value fails, and ends the work on the record.
    pub fn apply_rules(&self, record: &DataRecord, rules: &[MappingRule]) -> (r: Result<DataRecord>)
        ensures
            applied_is(r, rules_applied(record@, rules@, self.mappings())),
    {
        let mut new_record = DataRecord::new();
        let mut i: usize = 0;
        while i < rules.len()
            invariant
                i <= rules.len(),
                rules_applied(record@, rules@.take(i as int), self.mappings()) == RecordOutcome::Ok(
                    new_record@,
                ),
            decreases rules.len() - i,
        {
            let rule = &rules[i];
            proof {
                assert(rules@.take(i + 1).drop_last() =~= rules@.take(i as int));
                assert(rules@.take(i + 1).last() == rules@[i as int]);
            }
            match record.get(rule.source_field.as_str()) {
                Some(value) => {
                    let transformed_value = match &rule.transformation {
                        Some(TransformationType::Uppercase) => {
                            let text = match value.as_str() {
                                Some(s) => s,
                                None => "",
                            };
                            proof {
                                reveal_strlit("");
                                assert(text@ =~= text_or_empty(value@));
                            }
                            JsonValue::String(to_uppercase(text))
                        },
                        Some(TransformationType::Lowercase) => {
                            let text = match value.as_str() {
                                Some(s) => s,
                                None => "",
                            };
                            proof {
                                reveal_strlit("");
                                assert(text@ =~= text_or_empty(value@));
                            }
                            JsonValue::String(to_lowercase(text))
                        },
                        Some(TransformationType::Calculate(expr)) => {
                            match self.calculate_field(expr.as_str(), &new_record, record) {
                                Ok(v) => v,
                                Err(e) => {
                                    proof {
                                        lemma_failure_stays(
                                            record@,
                                            rules@,
                                            i + 1,
                                            self.mappings(),
                                        );
                                    }
                                    return Err(e);
                                },
                            }
                        },
                        Some(TransformationType::Lookup(mapping_name)) => {
                            match self.lookup_value(value, mapping_name.as_str()) {
                                Ok(v) => v,
                                Err(e) => {
                                    return Err(e);
                                },
                            }
                        },
                        None => value.clone(),
                    };
                    new_record.insert(rule.target_field.clone(), transformed_value);
                },
                None => {},
            }
            i += 1;
        }
        assert(rules@.take(i as int) =~= rules@);
        Ok(new_record)
    }

    /// The value of a calculated field: that of the expression over the
    /// fields that the rule sees, those of the output so far before those
    /// of the input record. An expression that has no value there is an
    /// error that names it.
    pub fn calculate_field(&self, expr: &str, output: &DataRecord, input: &DataRecord) -> (r:
        Result<JsonValue>)
        ensures
            match calculation(expr@, output@, input@) {
                Ok(v) => r matches Ok(w) && w@ == v,
                Err(message) => r matches Err(e) && is_transform_error(e, message),
            },
    {
        match evaluate_expression(expr, output, input) {
            Some(v) => Ok(v),
            None => Err(
                EtlError::TransformError(text_concat("expression cannot be evaluated: ", expr)),
            ),
        }
    }

    /// Looks the text of a value up in a table of the cache. A value that
    /// the table does not hold stays as it is; that is no error.
    pub fn lookup_value(&self, value: &JsonValue, mapping_name: &str) -> (r: Result<JsonValue>)
        ensures
            r matches Ok(v) && v@ == looked_up(value@, mapping_name@, self.mappings()),
    {
        let key = match value.as_str() {
            Some(s) => s,
            None => "",
        };
        proof {
            reveal_strlit("");
            assert(key@ =~= text_or_empty(value@));
        }
        let mut lookup_key = text_concat(mapping_name, ":");
        lookup_key.append(key);
        match cache_get(&self.mapping_cache, lookup_key.as_str()) {
            Some(mapped_value) => Ok(JsonValue::String(mapped_value)),
            None => Ok(value.clone()),
        }
    }
}

} // verus!
