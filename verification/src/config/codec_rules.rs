use crate::config::codec::{
    decode_object, decode_string, decode_strings, decode_table, decode_value, decoded,
    distinct_names, encode_table, encode_text, encode_texts, field_of, field_path, invalid,
    json_same, lemma_added, lemma_added_other, lemma_json_same_itself, lemma_name_present,
    lemma_present_none, lemma_present_place, lemma_same_arrays, lemma_same_objects, lemma_table,
    lemma_table_one, lemma_texts, lemma_texts_one, lemma_with_field_distinct, member,
    names_distinct, norm_any, norm_object, norm_string, norm_strings, norm_table, optional,
    Pairs, present, put, required, table_texts, with_field, write_object, write_table,
    write_text, write_texts, write_value,
};
use crate::config::codec_enums::{
    decode_aggregate_operation, decode_comparison_operator, decode_data_type, decode_join_type,
    encode_aggregate_operation, encode_comparison_operator, encode_data_type, encode_join_type,
    lemma_aggregate_operation, lemma_aggregate_operation_one, lemma_comparison_operator,
    lemma_comparison_operator_one, lemma_data_type, lemma_data_type_one, lemma_join_type,
    lemma_join_type_one, norm_aggregate_operation, norm_comparison_operator, norm_data_type,
    norm_join_type, write_aggregate_operation, write_comparison_operator, write_data_type,
    write_join_type,
};
use crate::config::settings::{ConditionConfig, TransformationConfig, TransformationType};
use crate::models::json::{
    fields_model, items_model, JsonModel, JsonValue, lemma_fields_model, lemma_items_model,
};
use crate::utils::error::{EtlError, Result};
use crate::utils::text::{text_eq, texts_of};
use vstd::prelude::*;
use vstd::string::StringExecFns;

verus! {

/// The fields of the encoding of a condition, from the encodings of its
/// fields: a field that may be absent is left out where it is.
pub open spec fn condition_config_pairs(f0: JsonModel, f1: JsonModel, f2: JsonModel) -> Pairs {
    let pairs: Pairs = Seq::empty();
    let pairs = with_field(pairs, "field"@, Some(f0));
    let pairs = with_field(pairs, "operator"@, Some(f1));
    let pairs = with_field(pairs, "value"@, Some(f2));
    pairs
}

/// Whether a name is the name of a field of a condition.
pub open spec fn is_condition_config_field(name: Seq<char>) -> bool {
    name == "field"@
        || name == "operator"@
        || name == "value"@
}

/// Whether every field of an object is a field of a condition, and none
/// stands twice.
pub open spec fn only_condition_config_fields(pairs: Pairs) -> bool {
    distinct_names(pairs) && forall|i: int|
        0 <= i < pairs.len() ==> is_condition_config_field((#[trigger] pairs[i]).0)
}

/// The fields of the encoding of a condition.
pub open spec fn encode_condition_config_fields(c: ConditionConfig) -> Pairs {
    condition_config_pairs(
        encode_text(c.field@),
        encode_comparison_operator(c.operator),
        c.value@,
    )
}

/// The encoding of a condition: an object with one field for each of its
/// fields that is there, in their order.
pub open spec fn encode_condition_config(c: ConditionConfig) -> JsonModel {
    JsonModel::Object(encode_condition_config_fields(c))
}

/// The normal form of the fields of a condition: every field is one of its
/// fields and stands once, every field that must be there is there, and every
/// value is in normal form. Nothing where that is not so.
pub open spec fn norm_condition_config_fields(pairs: Pairs) -> Option<Pairs> {
    if !only_condition_config_fields(pairs) {
        None
    } else {
        match (
            required(pairs, "field"@, norm_string(member(pairs, "field"@))),
            required(pairs, "operator"@, norm_comparison_operator(member(pairs, "operator"@))),
            required(pairs, "value"@, norm_any(member(pairs, "value"@))),
        ) {
            (Some(f0), Some(f1), Some(f2)) => Some(
                condition_config_pairs(f0, f1, f2),
            ),
            _ => None,
        }
    }
}

/// The normal form of the encoding of a condition: its fields in their order,
/// each in normal form.
pub open spec fn norm_condition_config(json: JsonModel) -> Option<JsonModel> {
    match json {
        JsonModel::Object(pairs) => match norm_condition_config_fields(pairs) {
            Some(normal) => Some(JsonModel::Object(normal)),
            None => None,
        },
        _ => None,
    }
}

/// Reads a condition.
pub fn decode_condition_config(json: &JsonValue, at: &str) -> (r: Result<ConditionConfig>)
    ensures
        decoded(r, norm_condition_config(json@)),
        r matches Ok(c) ==> Some(encode_condition_config(c)) == norm_condition_config(json@),
{
    let fields = match json {
        JsonValue::Object(fields) => fields,
        _ => {
            return Err(invalid(at));
        },
    };
    proof {
        lemma_fields_model(fields@);
    }
    let mut i: usize = 0;
    while i < fields.len()
        invariant
            i <= fields.len(),
            json@ == JsonModel::Object(fields_model(fields@)),
            fields_model(fields@).len() == fields.len(),
            forall|k: int|
                0 <= k < fields.len() ==> #[trigger] fields_model(fields@)[k] == (
                    fields[k].0@,
                    fields[k].1@,
                ),
            forall|k: int|
                0 <= k < i ==> is_condition_config_field((#[trigger] fields_model(fields@)[k]).0),
        decreases fields.len() - i,
    {
        let name = fields[i].0.as_str();
        let known: bool = text_eq(name, "field")
            || text_eq(name, "operator")
            || text_eq(name, "value");
        if !known {
            assert(!is_condition_config_field(fields_model(fields@)[i as int].0));
            return Err(invalid(field_path(at, name).as_str()));
        }
        i += 1;
    }
    if !names_distinct(fields) {
        return Err(invalid(at));
    }
    let field = match field_of(fields, "field") {
        Some(value) => match decode_string(value, field_path(at, "field").as_str()) {
            Ok(v) => v,
            Err(e) => {
                return Err(e);
            },
        },
        None => {
            return Err(invalid(field_path(at, "field").as_str()));
        },
    };
    let operator = match field_of(fields, "operator") {
        Some(
            value
        ) => match decode_comparison_operator(value, field_path(at, "operator").as_str()) {
            Ok(v) => v,
            Err(e) => {
                return Err(e);
            },
        },
        None => {
            return Err(invalid(field_path(at, "operator").as_str()));
        },
    };
    let value = match field_of(fields, "value") {
        Some(value) => match decode_value(value, field_path(at, "value").as_str()) {
            Ok(v) => v,
            Err(e) => {
                return Err(e);
            },
        },
        None => {
            return Err(invalid(field_path(at, "value").as_str()));
        },
    };
    Ok(ConditionConfig { field, operator, value })
}

/// Writes a condition.
pub fn write_condition_config(c: &ConditionConfig) -> (r: JsonValue)
    ensures
        r@ == encode_condition_config(*c),
{
    let mut fields: Vec<(String, JsonValue)> = Vec::new();
    assert(fields_model(fields@) =~= Seq::empty());
    put(&mut fields, "field", write_text(&c.field));
    put(&mut fields, "operator", write_comparison_operator(&c.operator));
    put(&mut fields, "value", write_value(&c.value));
    JsonValue::Object(fields)
}

/// What an object built as the encoding of a condition holds: its fields and
/// no others, each once, and under each name the value that was given for it.
proof fn lemma_condition_config_pairs(f0: JsonModel, f1: JsonModel, f2: JsonModel)
    ensures
        only_condition_config_fields(condition_config_pairs(f0, f1, f2)),
        present(condition_config_pairs(f0, f1, f2), "field"@),
        member(condition_config_pairs(f0, f1, f2), "field"@) == f0,
        present(condition_config_pairs(f0, f1, f2), "operator"@),
        member(condition_config_pairs(f0, f1, f2), "operator"@) == f1,
        present(condition_config_pairs(f0, f1, f2), "value"@),
        member(condition_config_pairs(f0, f1, f2), "value"@) == f2,
{
    broadcast use {lemma_present_none, lemma_added, lemma_added_other};
    reveal_strlit("field");
    reveal_strlit("operator");
    reveal_strlit("value");
    assert("field"@.len() != "operator"@.len());
    assert("field"@[0] != "value"@[0]);
    assert("operator"@.len() != "value"@.len());
    let s0: Pairs = Seq::empty();
    let s1 = with_field(s0, "field"@, Some(f0));
    lemma_with_field_distinct(s0, "field"@, Some(f0));
    let s2 = with_field(s1, "operator"@, Some(f1));
    lemma_with_field_distinct(s1, "operator"@, Some(f1));
    let s3 = with_field(s2, "value"@, Some(f2));
    lemma_with_field_distinct(s2, "value"@, Some(f2));
    assert forall|i: int| 0 <= i < s3.len() implies is_condition_config_field(
        (#[trigger] s3[i]).0,
    ) by {
        lemma_name_present(s3, i);
    }
    assert(condition_config_pairs(f0, f1, f2) == s3);
}

/// The fields of the encoding of a condition are in normal form.
pub proof fn lemma_condition_config_fields(c: ConditionConfig)
    ensures
        norm_condition_config_fields(
            encode_condition_config_fields(c)
        ) == Some(encode_condition_config_fields(c)),
{
    lemma_comparison_operator(c.operator);
    lemma_condition_config_pairs(
        encode_text(c.field@),
        encode_comparison_operator(c.operator),
        c.value@,
    );
}

/// The normal form of the fields of a condition is the fields themselves but
/// for their order.
pub proof fn lemma_condition_config_fields_same(pairs: Pairs)
    requires
        norm_condition_config_fields(pairs) is Some,
    ensures
        json_same(
            JsonModel::Object(norm_condition_config_fields(pairs)->0),
            JsonModel::Object(pairs),
        ),
{
    let normal = norm_condition_config_fields(pairs)->0;
    if present(pairs, "field"@) {
        lemma_json_same_itself(member(pairs, "field"@));
    }
    if present(pairs, "operator"@) {
        lemma_json_same_itself(member(pairs, "operator"@));
    }
    if present(pairs, "value"@) {
        lemma_json_same_itself(member(pairs, "value"@));
    }
    lemma_condition_config_pairs(
        norm_string(member(pairs, "field"@))->0,
        norm_comparison_operator(member(pairs, "operator"@))->0,
        norm_any(member(pairs, "value"@))->0,
    );
    assert forall|name: Seq<char>| #[trigger] present(normal, name) == present(pairs, name) by {
        if present(pairs, name) {
            lemma_present_place(pairs, name);
        }
        if present(normal, name) {
            lemma_present_place(normal, name);
        }
    }
    assert forall|name: Seq<char>| #[trigger] present(normal, name) implies json_same(
        member(normal, name),
        member(pairs, name),
    ) by {
        lemma_present_place(normal, name);
    }
    lemma_same_objects(normal, pairs);
}

/// The encoding of a condition is in normal form.
pub proof fn lemma_condition_config(c: ConditionConfig)
    ensures
        norm_condition_config(encode_condition_config(c)) == Some(encode_condition_config(c)),
{
    lemma_condition_config_fields(c);
}

/// The normal form of the encoding of a condition is the encoding itself but
/// for the order of fields.
pub proof fn lemma_condition_config_same(json: JsonModel)
    requires
        norm_condition_config(json) is Some,
    ensures
        json_same(norm_condition_config(json)->0, json),
{
    lemma_condition_config_fields_same(json->Object_0);
}

/// Whether two descriptions of a condition hold the same values in every
/// field.
pub open spec fn same_condition_config(a: ConditionConfig, b: ConditionConfig) -> bool {
    a.field@ == b.field@
    && a.operator == b.operator
    && a.value@ == b.value@
}

/// Two descriptions of a condition with the same encoding hold the same
/// values.
pub proof fn lemma_condition_config_one(a: ConditionConfig, b: ConditionConfig)
    requires
        encode_condition_config(a) == encode_condition_config(b),
    ensures
        same_condition_config(a, b),
{
    lemma_condition_config_pairs(
        encode_text(a.field@),
        encode_comparison_operator(a.operator),
        a.value@,
    );
    lemma_condition_config_pairs(
        encode_text(b.field@),
        encode_comparison_operator(b.operator),
        b.value@,
    );
    assert(encode_condition_config_fields(a) == encode_condition_config_fields(b));
    lemma_comparison_operator_one(a.operator, b.operator);
}

/// The fields of the encoding of the variant `map` of a kind of
/// transformation, from the encodings of its fields: a field that may be
/// absent is left out where it is.
pub open spec fn transformation_type_mapping_pairs(f0: JsonModel) -> Pairs {
    let pairs: Pairs = Seq::empty();
    let pairs = with_field(pairs, "type"@, Some(JsonModel::String("map"@)));
    let pairs = with_field(pairs, "mapping"@, Some(f0));
    pairs
}

/// Whether a name is the name of a field of the variant `map` of a kind of
/// transformation.
pub open spec fn is_transformation_type_mapping_field(name: Seq<char>) -> bool {
    name == "type"@
        || name == "mapping"@
}

/// Whether every field of an object is a field of the variant `map` of a kind
/// of transformation, and none stands twice.
pub open spec fn only_transformation_type_mapping_fields(pairs: Pairs) -> bool {
    distinct_names(pairs) && forall|i: int|
        0 <= i < pairs.len() ==> is_transformation_type_mapping_field((#[trigger] pairs[i]).0)
}

/// The normal form of the fields of the variant `map` of a kind of
/// transformation: every field is one of its fields and stands once, every
/// field that must be there is there, and every value is in normal form.
/// Nothing where that is not so.
pub open spec fn norm_transformation_type_mapping_fields(pairs: Pairs) -> Option<Pairs> {
    if !only_transformation_type_mapping_fields(
        pairs
    ) || member(pairs, "type"@) != JsonModel::String("map"@) {
        None
    } else {
        match required(pairs, "mapping"@, norm_table(member(pairs, "mapping"@))) {
            Some(f0) => Some(transformation_type_mapping_pairs(f0)),
            None => None,
        }
    }
}

/// The fields of the encoding of the variant `calculate` of a kind of
/// transformation, from the encodings of its fields: a field that may be
/// absent is left out where it is.
pub open spec fn transformation_type_calculate_pairs(f0: JsonModel) -> Pairs {
    let pairs: Pairs = Seq::empty();
    let pairs = with_field(pairs, "type"@, Some(JsonModel::String("calculate"@)));
    let pairs = with_field(pairs, "expression"@, Some(f0));
    pairs
}

/// Whether a name is the name of a field of the variant `calculate` of a kind
/// of transformation.
pub open spec fn is_transformation_type_calculate_field(name: Seq<char>) -> bool {
    name == "type"@
        || name == "expression"@
}

/// Whether every field of an object is a field of the variant `calculate` of
/// a kind of transformation, and none stands twice.
pub open spec fn only_transformation_type_calculate_fields(pairs: Pairs) -> bool {
    distinct_names(pairs) && forall|i: int|
        0 <= i < pairs.len() ==> is_transformation_type_calculate_field((#[trigger] pairs[i]).0)
}

/// The normal form of the fields of the variant `calculate` of a kind of
/// transformation: every field is one of its fields and stands once, every
/// field that must be there is there, and every value is in normal form.
/// Nothing where that is not so.
pub open spec fn norm_transformation_type_calculate_fields(pairs: Pairs) -> Option<Pairs> {
    if !only_transformation_type_calculate_fields(
        pairs
    ) || member(pairs, "type"@) != JsonModel::String("calculate"@) {
        None
    } else {
        match required(pairs, "expression"@, norm_string(member(pairs, "expression"@))) {
            Some(f0) => Some(transformation_type_calculate_pairs(f0)),
            None => None,
        }
    }
}

/// The fields of the encoding of the variant `format` of a kind of
/// transformation, from the encodings of its fields: a field that may be
/// absent is left out where it is.
pub open spec fn transformation_type_format_pairs(f0: JsonModel) -> Pairs {
    let pairs: Pairs = Seq::empty();
    let pairs = with_field(pairs, "type"@, Some(JsonModel::String("format"@)));
    let pairs = with_field(pairs, "template"@, Some(f0));
    pairs
}

/// Whether a name is the name of a field of the variant `format` of a kind of
/// transformation.
pub open spec fn is_transformation_type_format_field(name: Seq<char>) -> bool {
    name == "type"@
        || name == "template"@
}

/// Whether every field of an object is a field of the variant `format` of a
/// kind of transformation, and none stands twice.
pub open spec fn only_transformation_type_format_fields(pairs: Pairs) -> bool {
    distinct_names(pairs) && forall|i: int|
        0 <= i < pairs.len() ==> is_transformation_type_format_field((#[trigger] pairs[i]).0)
}

/// The normal form of the fields of the variant `format` of a kind of
/// transformation: every field is one of its fields and stands once, every
/// field that must be there is there, and every value is in normal form.
/// Nothing where that is not so.
pub open spec fn norm_transformation_type_format_fields(pairs: Pairs) -> Option<Pairs> {
    if !only_transformation_type_format_fields(
        pairs
    ) || member(pairs, "type"@) != JsonModel::String("format"@) {
        None
    } else {
        match required(pairs, "template"@, norm_string(member(pairs, "template"@))) {
            Some(f0) => Some(transformation_type_format_pairs(f0)),
            None => None,
        }
    }
}

/// The fields of the encoding of the variant `convert` of a kind of
/// transformation, from the encodings of its fields: a field that may be
/// absent is left out where it is.
pub open spec fn transformation_type_convert_pairs(f0: JsonModel) -> Pairs {
    let pairs: Pairs = Seq::empty();
    let pairs = with_field(pairs, "type"@, Some(JsonModel::String("convert"@)));
    let pairs = with_field(pairs, "to_type"@, Some(f0));
    pairs
}

/// Whether a name is the name of a field of the variant `convert` of a kind
/// of transformation.
pub open spec fn is_transformation_type_convert_field(name: Seq<char>) -> bool {
    name == "type"@
        || name == "to_type"@
}

/// Whether every field of an object is a field of the variant `convert` of a
/// kind of transformation, and none stands twice.
pub open spec fn only_transformation_type_convert_fields(pairs: Pairs) -> bool {
    distinct_names(pairs) && forall|i: int|
        0 <= i < pairs.len() ==> is_transformation_type_convert_field((#[trigger] pairs[i]).0)
}

/// The normal form of the fields of the variant `convert` of a kind of
/// transformation: every field is one of its fields and stands once, every
/// field that must be there is there, and every value is in normal form.
/// Nothing where that is not so.
pub open spec fn norm_transformation_type_convert_fields(pairs: Pairs) -> Option<Pairs> {
    if !only_transformation_type_convert_fields(
        pairs
    ) || member(pairs, "type"@) != JsonModel::String("convert"@) {
        None
    } else {
        match required(pairs, "to_type"@, norm_data_type(member(pairs, "to_type"@))) {
            Some(f0) => Some(transformation_type_convert_pairs(f0)),
            None => None,
        }
    }
}

/// The fields of the encoding of the variant `filter` of a kind of
/// transformation, from the encodings of its fields: a field that may be
/// absent is left out where it is.
pub open spec fn transformation_type_filter_pairs(f0: JsonModel) -> Pairs {
    let pairs: Pairs = Seq::empty();
    let pairs = with_field(pairs, "type"@, Some(JsonModel::String("filter"@)));
    let pairs = with_field(pairs, "condition"@, Some(f0));
    pairs
}

/// Whether a name is the name of a field of the variant `filter` of a kind of
/// transformation.
pub open spec fn is_transformation_type_filter_field(name: Seq<char>) -> bool {
    name == "type"@
        || name == "condition"@
}

/// Whether every field of an object is a field of the variant `filter` of a
/// kind of transformation, and none stands twice.
pub open spec fn only_transformation_type_filter_fields(pairs: Pairs) -> bool {
    distinct_names(pairs) && forall|i: int|
        0 <= i < pairs.len() ==> is_transformation_type_filter_field((#[trigger] pairs[i]).0)
}

/// The normal form of the fields of the variant `filter` of a kind of
/// transformation: every field is one of its fields and stands once, every
/// field that must be there is there, and every value is in normal form.
/// Nothing where that is not so.
pub open spec fn norm_transformation_type_filter_fields(pairs: Pairs) -> Option<Pairs> {
    if !only_transformation_type_filter_fields(
        pairs
    ) || member(pairs, "type"@) != JsonModel::String("filter"@) {
        None
    } else {
        match required(pairs, "condition"@, norm_string(member(pairs, "condition"@))) {
            Some(f0) => Some(transformation_type_filter_pairs(f0)),
            None => None,
        }
    }
}

/// The fields of the encoding of the variant `aggregate` of a kind of
/// transformation, from the encodings of its fields: a field that may be
/// absent is left out where it is.
pub open spec fn transformation_type_aggregate_pairs(
    f0: JsonModel,
    f1: Option<JsonModel>,
) -> Pairs {
    let pairs: Pairs = Seq::empty();
    let pairs = with_field(pairs, "type"@, Some(JsonModel::String("aggregate"@)));
    let pairs = with_field(pairs, "operation"@, Some(f0));
    let pairs = with_field(pairs, "group_by"@, f1);
    pairs
}

/// Whether a name is the name of a field of the variant `aggregate` of a kind
/// of transformation.
pub open spec fn is_transformation_type_aggregate_field(name: Seq<char>) -> bool {
    name == "type"@
        || name == "operation"@
        || name == "group_by"@
}

/// Whether every field of an object is a field of the variant `aggregate` of
/// a kind of transformation, and none stands twice.
pub open spec fn only_transformation_type_aggregate_fields(pairs: Pairs) -> bool {
    distinct_names(pairs) && forall|i: int|
        0 <= i < pairs.len() ==> is_transformation_type_aggregate_field((#[trigger] pairs[i]).0)
}

/// The normal form of the fields of the variant `aggregate` of a kind of
/// transformation: every field is one of its fields and stands once, every
/// field that must be there is there, and every value is in normal form.
/// Nothing where that is not so.
pub open spec fn norm_transformation_type_aggregate_fields(pairs: Pairs) -> Option<Pairs> {
    if !only_transformation_type_aggregate_fields(
        pairs
    ) || member(pairs, "type"@) != JsonModel::String("aggregate"@) {
        None
    } else {
        match (
            required(pairs, "operation"@, norm_aggregate_operation(member(pairs, "operation"@))),
            optional(pairs, "group_by"@, norm_strings(member(pairs, "group_by"@))),
        ) {
            (Some(f0), Some(f1)) => Some(
                transformation_type_aggregate_pairs(f0, f1),
            ),
            _ => None,
        }
    }
}

/// The fields of the encoding of the variant `join` of a kind of
/// transformation, from the encodings of its fields: a field that may be
/// absent is left out where it is.
pub open spec fn transformation_type_join_pairs(
    f0: JsonModel,
    f1: JsonModel,
    f2: JsonModel,
) -> Pairs {
    let pairs: Pairs = Seq::empty();
    let pairs = with_field(pairs, "type"@, Some(JsonModel::String("join"@)));
    let pairs = with_field(pairs, "join_source"@, Some(f0));
    let pairs = with_field(pairs, "join_key"@, Some(f1));
    let pairs = with_field(pairs, "join_type"@, Some(f2));
    pairs
}

/// Whether a name is the name of a field of the variant `join` of a kind of
/// transformation.
pub open spec fn is_transformation_type_join_field(name: Seq<char>) -> bool {
    name == "type"@
        || name == "join_source"@
        || name == "join_key"@
        || name == "join_type"@
}

/// Whether every field of an object is a field of the variant `join` of a
/// kind of transformation, and none stands twice.
pub open spec fn only_transformation_type_join_fields(pairs: Pairs) -> bool {
    distinct_names(pairs) && forall|i: int|
        0 <= i < pairs.len() ==> is_transformation_type_join_field((#[trigger] pairs[i]).0)
}

/// The normal form of the fields of the variant `join` of a kind of
/// transformation: every field is one of its fields and stands once, every
/// field that must be there is there, and every value is in normal form.
/// Nothing where that is not so.
pub open spec fn norm_transformation_type_join_fields(pairs: Pairs) -> Option<Pairs> {
    if !only_transformation_type_join_fields(
        pairs
    ) || member(pairs, "type"@) != JsonModel::String("join"@) {
        None
    } else {
        match (
            required(pairs, "join_source"@, norm_string(member(pairs, "join_source"@))),
            required(pairs, "join_key"@, norm_string(member(pairs, "join_key"@))),
            required(pairs, "join_type"@, norm_join_type(member(pairs, "join_type"@))),
        ) {
            (Some(f0), Some(f1), Some(f2)) => Some(
                transformation_type_join_pairs(f0, f1, f2),
            ),
            _ => None,
        }
    }
}

/// The fields of the encoding of the variant `custom` of a kind of
/// transformation, from the encodings of its fields: a field that may be
/// absent is left out where it is.
pub open spec fn transformation_type_custom_pairs(f0: JsonModel, f1: JsonModel) -> Pairs {
    let pairs: Pairs = Seq::empty();
    let pairs = with_field(pairs, "type"@, Some(JsonModel::String("custom"@)));
    let pairs = with_field(pairs, "function"@, Some(f0));
    let pairs = with_field(pairs, "parameters"@, Some(f1));
    pairs
}

/// Whether a name is the name of a field of the variant `custom` of a kind of
/// transformation.
pub open spec fn is_transformation_type_custom_field(name: Seq<char>) -> bool {
    name == "type"@
        || name == "function"@
        || name == "parameters"@
}

/// Whether every field of an object is a field of the variant `custom` of a
/// kind of transformation, and none stands twice.
pub open spec fn only_transformation_type_custom_fields(pairs: Pairs) -> bool {
    distinct_names(pairs) && forall|i: int|
        0 <= i < pairs.len() ==> is_transformation_type_custom_field((#[trigger] pairs[i]).0)
}

/// The normal form of the fields of the variant `custom` of a kind of
/// transformation: every field is one of its fields and stands once, every
/// field that must be there is there, and every value is in normal form.
/// Nothing where that is not so.
pub open spec fn norm_transformation_type_custom_fields(pairs: Pairs) -> Option<Pairs> {
    if !only_transformation_type_custom_fields(
        pairs
    ) || member(pairs, "type"@) != JsonModel::String("custom"@) {
        None
    } else {
        match (
            required(pairs, "function"@, norm_string(member(pairs, "function"@))),
            required(pairs, "parameters"@, norm_object(member(pairs, "parameters"@))),
        ) {
            (Some(f0), Some(f1)) => Some(
                transformation_type_custom_pairs(f0, f1),
            ),
            _ => None,
        }
    }
}

/// The fields of the encoding of a kind of transformation.
pub open spec fn encode_transformation_type_fields(c: TransformationType) -> Pairs {
    match c {
        TransformationType::Mapping { mapping } => transformation_type_mapping_pairs(
            encode_table(table_texts(mapping@)),
        ),
        TransformationType::Calculate { expression } => transformation_type_calculate_pairs(
            encode_text(expression@),
        ),
        TransformationType::Format { template } => transformation_type_format_pairs(
            encode_text(template@),
        ),
        TransformationType::Convert { to_type } => transformation_type_convert_pairs(
            encode_data_type(to_type),
        ),
        TransformationType::Filter { condition } => transformation_type_filter_pairs(
            encode_text(condition@),
        ),
        TransformationType::Aggregate { operation, group_by } => transformation_type_aggregate_pairs(
            encode_aggregate_operation(operation),
            match group_by {
                Some(x) => Some(encode_texts(texts_of(x@))),
                None => None,
            },
        ),
        TransformationType::Join { join_source, join_key, join_type } => transformation_type_join_pairs(
            encode_text(join_source@),
            encode_text(join_key@),
            encode_join_type(join_type),
        ),
        TransformationType::Custom { function, parameters } => transformation_type_custom_pairs(
            encode_text(function@),
            JsonModel::Object(fields_model(parameters@)),
        ),
    }
}

/// The encoding of a kind of transformation: an object with the word of the
/// variant under `type`, and then the fields of the variant that are there.
pub open spec fn encode_transformation_type(c: TransformationType) -> JsonModel {
    JsonModel::Object(encode_transformation_type_fields(c))
}

/// The normal form of the fields of a kind of transformation: those of the
/// variant that the word under `type` names.
pub open spec fn norm_transformation_type_fields(pairs: Pairs) -> Option<Pairs> {
    match member(pairs, "type"@) {
        JsonModel::String(tag) => if tag == "map"@ {
            norm_transformation_type_mapping_fields(pairs)
        } else if tag == "calculate"@ {
            norm_transformation_type_calculate_fields(pairs)
        } else if tag == "format"@ {
            norm_transformation_type_format_fields(pairs)
        } else if tag == "convert"@ {
            norm_transformation_type_convert_fields(pairs)
        } else if tag == "filter"@ {
            norm_transformation_type_filter_fields(pairs)
        } else if tag == "aggregate"@ {
            norm_transformation_type_aggregate_fields(pairs)
        } else if tag == "join"@ {
            norm_transformation_type_join_fields(pairs)
        } else if tag == "custom"@ {
            norm_transformation_type_custom_fields(pairs)
        } else {
            None
        },
        _ => None,
    }
}

/// The normal form of the encoding of a kind of transformation.
pub open spec fn norm_transformation_type(json: JsonModel) -> Option<JsonModel> {
    match json {
        JsonModel::Object(pairs) => match norm_transformation_type_fields(pairs) {
            Some(normal) => Some(JsonModel::Object(normal)),
            None => None,
        },
        _ => None,
    }
}

/// Reads the fields of the variant `map` of a kind of transformation.
fn decode_transformation_type_mapping(
    fields: &Vec<(String, JsonValue)>,
    at: &str,
) -> (r: Result<TransformationType>)
    requires
        member(fields_model(fields@), "type"@) == JsonModel::String("map"@),
    ensures
        match norm_transformation_type_mapping_fields(fields_model(fields@)) {
            Some(normal) => r matches Ok(c) && encode_transformation_type_fields(c) == normal,
            None => r matches Err(EtlError::ConfigError(_)),
        },
{
    proof {
        lemma_fields_model(fields@);
    }
    let mut i: usize = 0;
    while i < fields.len()
        invariant
            i <= fields.len(),
            fields_model(fields@).len() == fields.len(),
            forall|k: int|
                0 <= k < fields.len() ==> #[trigger] fields_model(fields@)[k] == (
                    fields[k].0@,
                    fields[k].1@,
                ),
            forall|k: int|
                0 <= k < i ==> is_transformation_type_mapping_field(
                    (#[trigger] fields_model(fields@)[k]).0
                ),
        decreases fields.len() - i,
    {
        let name = fields[i].0.as_str();
        let known: bool = text_eq(name, "type")
            || text_eq(name, "mapping");
        if !known {
            assert(!is_transformation_type_mapping_field(fields_model(fields@)[i as int].0));
            return Err(invalid(field_path(at, name).as_str()));
        }
        i += 1;
    }
    if !names_distinct(fields) {
        return Err(invalid(at));
    }
    let mapping = match field_of(fields, "mapping") {
        Some(value) => match decode_table(value, field_path(at, "mapping").as_str()) {
            Ok(v) => v,
            Err(e) => {
                return Err(e);
            },
        },
        None => {
            return Err(invalid(field_path(at, "mapping").as_str()));
        },
    };
    Ok(TransformationType::Mapping { mapping })
}

/// Reads the fields of the variant `calculate` of a kind of transformation.
fn decode_transformation_type_calculate(
    fields: &Vec<(String, JsonValue)>,
    at: &str,
) -> (r: Result<TransformationType>)
    requires
        member(fields_model(fields@), "type"@) == JsonModel::String("calculate"@),
    ensures
        match norm_transformation_type_calculate_fields(fields_model(fields@)) {
            Some(normal) => r matches Ok(c) && encode_transformation_type_fields(c) == normal,
            None => r matches Err(EtlError::ConfigError(_)),
        },
{
    proof {
        lemma_fields_model(fields@);
    }
    let mut i: usize = 0;
    while i < fields.len()
        invariant
            i <= fields.len(),
            fields_model(fields@).len() == fields.len(),
            forall|k: int|
                0 <= k < fields.len() ==> #[trigger] fields_model(fields@)[k] == (
                    fields[k].0@,
                    fields[k].1@,
                ),
            forall|k: int|
                0 <= k < i ==> is_transformation_type_calculate_field(
                    (#[trigger] fields_model(fields@)[k]).0
                ),
        decreases fields.len() - i,
    {
        let name = fields[i].0.as_str();
        let known: bool = text_eq(name, "type")
            || text_eq(name, "expression");
        if !known {
            assert(!is_transformation_type_calculate_field(fields_model(fields@)[i as int].0));
            return Err(invalid(field_path(at, name).as_str()));
        }
        i += 1;
    }
    if !names_distinct(fields) {
        return Err(invalid(at));
    }
    let expression = match field_of(fields, "expression") {
        Some(value) => match decode_string(value, field_path(at, "expression").as_str()) {
            Ok(v) => v,
            Err(e) => {
                return Err(e);
            },
        },
        None => {
            return Err(invalid(field_path(at, "expression").as_str()));
        },
    };
    Ok(TransformationType::Calculate { expression })
}

/// Reads the fields of the variant `format` of a kind of transformation.
fn decode_transformation_type_format(
    fields: &Vec<(String, JsonValue)>,
    at: &str,
) -> (r: Result<TransformationType>)
    requires
        member(fields_model(fields@), "type"@) == JsonModel::String("format"@),
    ensures
        match norm_transformation_type_format_fields(fields_model(fields@)) {
            Some(normal) => r matches Ok(c) && encode_transformation_type_fields(c) == normal,
            None => r matches Err(EtlError::ConfigError(_)),
        },
{
    proof {
        lemma_fields_model(fields@);
    }
    let mut i: usize = 0;
    while i < fields.len()
        invariant
            i <= fields.len(),
            fields_model(fields@).len() == fields.len(),
            forall|k: int|
                0 <= k < fields.len() ==> #[trigger] fields_model(fields@)[k] == (
                    fields[k].0@,
                    fields[k].1@,
                ),
            forall|k: int|
                0 <= k < i ==> is_transformation_type_format_field(
                    (#[trigger] fields_model(fields@)[k]).0
                ),
        decreases fields.len() - i,
    {
        let name = fields[i].0.as_str();
        let known: bool = text_eq(name, "type")
            || text_eq(name, "template");
        if !known {
            assert(!is_transformation_type_format_field(fields_model(fields@)[i as int].0));
            return Err(invalid(field_path(at, name).as_str()));
        }
        i += 1;
    }
    if !names_distinct(fields) {
        return Err(invalid(at));
    }
    let template = match field_of(fields, "template") {
        Some(value) => match decode_string(value, field_path(at, "template").as_str()) {
            Ok(v) => v,
            Err(e) => {
                return Err(e);
            },
        },
        None => {
            return Err(invalid(field_path(at, "template").as_str()));
        },
    };
    Ok(TransformationType::Format { template })
}

/// Reads the fields of the variant `convert` of a kind of transformation.
fn decode_transformation_type_convert(
    fields: &Vec<(String, JsonValue)>,
    at: &str,
) -> (r: Result<TransformationType>)
    requires
        member(fields_model(fields@), "type"@) == JsonModel::String("convert"@),
    ensures
        match norm_transformation_type_convert_fields(fields_model(fields@)) {
            Some(normal) => r matches Ok(c) && encode_transformation_type_fields(c) == normal,
            None => r matches Err(EtlError::ConfigError(_)),
        },
{
    proof {
        lemma_fields_model(fields@);
    }
    let mut i: usize = 0;
    while i < fields.len()
        invariant
            i <= fields.len(),
            fields_model(fields@).len() == fields.len(),
            forall|k: int|
                0 <= k < fields.len() ==> #[trigger] fields_model(fields@)[k] == (
                    fields[k].0@,
                    fields[k].1@,
                ),
            forall|k: int|
                0 <= k < i ==> is_transformation_type_convert_field(
                    (#[trigger] fields_model(fields@)[k]).0
                ),
        decreases fields.len() - i,
    {
        let name = fields[i].0.as_str();
        let known: bool = text_eq(name, "type")
            || text_eq(name, "to_type");
        if !known {
            assert(!is_transformation_type_convert_field(fields_model(fields@)[i as int].0));
            return Err(invalid(field_path(at, name).as_str()));
        }
        i += 1;
    }
    if !names_distinct(fields) {
        return Err(invalid(at));
    }
    let to_type = match field_of(fields, "to_type") {
        Some(value) => match decode_data_type(value, field_path(at, "to_type").as_str()) {
            Ok(v) => v,
            Err(e) => {
                return Err(e);
            },
        },
        None => {
            return Err(invalid(field_path(at, "to_type").as_str()));
        },
    };
    Ok(TransformationType::Convert { to_type })
}

/// Reads the fields of the variant `filter` of a kind of transformation.
fn decode_transformation_type_filter(
    fields: &Vec<(String, JsonValue)>,
    at: &str,
) -> (r: Result<TransformationType>)
    requires
        member(fields_model(fields@), "type"@) == JsonModel::String("filter"@),
    ensures
        match norm_transformation_type_filter_fields(fields_model(fields@)) {
            Some(normal) => r matches Ok(c) && encode_transformation_type_fields(c) == normal,
            None => r matches Err(EtlError::ConfigError(_)),
        },
{
    proof {
        lemma_fields_model(fields@);
    }
    let mut i: usize = 0;
    while i < fields.len()
        invariant
            i <= fields.len(),
            fields_model(fields@).len() == fields.len(),
            forall|k: int|
                0 <= k < fields.len() ==> #[trigger] fields_model(fields@)[k] == (
                    fields[k].0@,
                    fields[k].1@,
                ),
            forall|k: int|
                0 <= k < i ==> is_transformation_type_filter_field(
                    (#[trigger] fields_model(fields@)[k]).0
                ),
        decreases fields.len() - i,
    {
        let name = fields[i].0.as_str();
        let known: bool = text_eq(name, "type")
            || text_eq(name, "condition");
        if !known {
            assert(!is_transformation_type_filter_field(fields_model(fields@)[i as int].0));
            return Err(invalid(field_path(at, name).as_str()));
        }
        i += 1;
    }
    if !names_distinct(fields) {
        return Err(invalid(at));
    }
    let condition = match field_of(fields, "condition") {
        Some(value) => match decode_string(value, field_path(at, "condition").as_str()) {
            Ok(v) => v,
            Err(e) => {
                return Err(e);
            },
        },
        None => {
            return Err(invalid(field_path(at, "condition").as_str()));
        },
    };
    Ok(TransformationType::Filter { condition })
}

/// Reads the fields of the variant `aggregate` of a kind of transformation.
fn decode_transformation_type_aggregate(
    fields: &Vec<(String, JsonValue)>,
    at: &str,
) -> (r: Result<TransformationType>)
    requires
        member(fields_model(fields@), "type"@) == JsonModel::String("aggregate"@),
    ensures
        match norm_transformation_type_aggregate_fields(fields_model(fields@)) {
            Some(normal) => r matches Ok(c) && encode_transformation_type_fields(c) == normal,
            None => r matches Err(EtlError::ConfigError(_)),
        },
{
    proof {
        lemma_fields_model(fields@);
    }
    let mut i: usize = 0;
    while i < fields.len()
        invariant
            i <= fields.len(),
            fields_model(fields@).len() == fields.len(),
            forall|k: int|
                0 <= k < fields.len() ==> #[trigger] fields_model(fields@)[k] == (
                    fields[k].0@,
                    fields[k].1@,
                ),
            forall|k: int|
                0 <= k < i ==> is_transformation_type_aggregate_field(
                    (#[trigger] fields_model(fields@)[k]).0
                ),
        decreases fields.len() - i,
    {
        let name = fields[i].0.as_str();
        let known: bool = text_eq(name, "type")
            || text_eq(name, "operation")
            || text_eq(name, "group_by");
        if !known {
            assert(!is_transformation_type_aggregate_field(fields_model(fields@)[i as int].0));
            return Err(invalid(field_path(at, name).as_str()));
        }
        i += 1;
    }
    if !names_distinct(fields) {
        return Err(invalid(at));
    }
    let operation = match field_of(fields, "operation") {
        Some(
            value
        ) => match decode_aggregate_operation(value, field_path(at, "operation").as_str()) {
            Ok(v) => v,
            Err(e) => {
                return Err(e);
            },
        },
        None => {
            return Err(invalid(field_path(at, "operation").as_str()));
        },
    };
    let group_by = match field_of(fields, "group_by") {
        Some(value) => match decode_strings(value, field_path(at, "group_by").as_str()) {
            Ok(v) => Some(v),
            Err(e) => {
                return Err(e);
            },
        },
        None => None,
    };
    Ok(TransformationType::Aggregate { operation, group_by })
}

/// Reads the fields of the variant `join` of a kind of transformation.
fn decode_transformation_type_join(
    fields: &Vec<(String, JsonValue)>,
    at: &str,
) -> (r: Result<TransformationType>)
    requires
        member(fields_model(fields@), "type"@) == JsonModel::String("join"@),
    ensures
        match norm_transformation_type_join_fields(fields_model(fields@)) {
            Some(normal) => r matches Ok(c) && encode_transformation_type_fields(c) == normal,
            None => r matches Err(EtlError::ConfigError(_)),
        },
{
    proof {
        lemma_fields_model(fields@);
    }
    let mut i: usize = 0;
    while i < fields.len()
        invariant
            i <= fields.len(),
            fields_model(fields@).len() == fields.len(),
            forall|k: int|
                0 <= k < fields.len() ==> #[trigger] fields_model(fields@)[k] == (
                    fields[k].0@,
                    fields[k].1@,
                ),
            forall|k: int|
                0 <= k < i ==> is_transformation_type_join_field(
                    (#[trigger] fields_model(fields@)[k]).0
                ),
        decreases fields.len() - i,
    {
        let name = fields[i].0.as_str();
        let known: bool = text_eq(name, "type")
            || text_eq(name, "join_source")
            || text_eq(name, "join_key")
            || text_eq(name, "join_type");
        if !known {
            assert(!is_transformation_type_join_field(fields_model(fields@)[i as int].0));
            return Err(invalid(field_path(at, name).as_str()));
        }
        i += 1;
    }
    if !names_distinct(fields) {
        return Err(invalid(at));
    }
    let join_source = match field_of(fields, "join_source") {
        Some(value) => match decode_string(value, field_path(at, "join_source").as_str()) {
            Ok(v) => v,
            Err(e) => {
                return Err(e);
            },
        },
        None => {
            return Err(invalid(field_path(at, "join_source").as_str()));
        },
    };
    let join_key = match field_of(fields, "join_key") {
        Some(value) => match decode_string(value, field_path(at, "join_key").as_str()) {
            Ok(v) => v,
            Err(e) => {
                return Err(e);
            },
        },
        None => {
            return Err(invalid(field_path(at, "join_key").as_str()));
        },
    };
    let join_type = match field_of(fields, "join_type") {
        Some(value) => match decode_join_type(value, field_path(at, "join_type").as_str()) {
            Ok(v) => v,
            Err(e) => {
                return Err(e);
            },
        },
        None => {
            return Err(invalid(field_path(at, "join_type").as_str()));
        },
    };
    Ok(TransformationType::Join { join_source, join_key, join_type })
}

/// Reads the fields of the variant `custom` of a kind of transformation.
fn decode_transformation_type_custom(
    fields: &Vec<(String, JsonValue)>,
    at: &str,
) -> (r: Result<TransformationType>)
    requires
        member(fields_model(fields@), "type"@) == JsonModel::String("custom"@),
    ensures
        match norm_transformation_type_custom_fields(fields_model(fields@)) {
            Some(normal) => r matches Ok(c) && encode_transformation_type_fields(c) == normal,
            None => r matches Err(EtlError::ConfigError(_)),
        },
{
    proof {
        lemma_fields_model(fields@);
    }
    let mut i: usize = 0;
    while i < fields.len()
        invariant
            i <= fields.len(),
            fields_model(fields@).len() == fields.len(),
            forall|k: int|
                0 <= k < fields.len() ==> #[trigger] fields_model(fields@)[k] == (
                    fields[k].0@,
                    fields[k].1@,
                ),
            forall|k: int|
                0 <= k < i ==> is_transformation_type_custom_field(
                    (#[trigger] fields_model(fields@)[k]).0
                ),
        decreases fields.len() - i,
    {
        let name = fields[i].0.as_str();
        let known: bool = text_eq(name, "type")
            || text_eq(name, "function")
            || text_eq(name, "parameters");
        if !known {
            assert(!is_transformation_type_custom_field(fields_model(fields@)[i as int].0));
            return Err(invalid(field_path(at, name).as_str()));
        }
        i += 1;
    }
    if !names_distinct(fields) {
        return Err(invalid(at));
    }
    let function = match field_of(fields, "function") {
        Some(value) => match decode_string(value, field_path(at, "function").as_str()) {
            Ok(v) => v,
            Err(e) => {
                return Err(e);
            },
        },
        None => {
            return Err(invalid(field_path(at, "function").as_str()));
        },
    };
    let parameters = match field_of(fields, "parameters") {
        Some(value) => match decode_object(value, field_path(at, "parameters").as_str()) {
            Ok(v) => v,
            Err(e) => {
                return Err(e);
            },
        },
        None => {
            return Err(invalid(field_path(at, "parameters").as_str()));
        },
    };
    Ok(TransformationType::Custom { function, parameters })
}

/// Reads a kind of transformation.
pub fn decode_transformation_type(json: &JsonValue, at: &str) -> (r: Result<TransformationType>)
    ensures
        decoded(r, norm_transformation_type(json@)),
        r matches Ok(c) ==> Some(encode_transformation_type(c)) == norm_transformation_type(json@),
{
    let fields = match json {
        JsonValue::Object(fields) => fields,
        _ => {
            return Err(invalid(at));
        },
    };
    let tag = match field_of(fields, "type") {
        Some(JsonValue::String(tag)) => tag.as_str(),
        _ => {
            return Err(invalid(field_path(at, "type").as_str()));
        },
    };
    if text_eq(tag, "map") {
        decode_transformation_type_mapping(fields, at)
    } else if text_eq(tag, "calculate") {
        decode_transformation_type_calculate(fields, at)
    } else if text_eq(tag, "format") {
        decode_transformation_type_format(fields, at)
    } else if text_eq(tag, "convert") {
        decode_transformation_type_convert(fields, at)
    } else if text_eq(tag, "filter") {
        decode_transformation_type_filter(fields, at)
    } else if text_eq(tag, "aggregate") {
        decode_transformation_type_aggregate(fields, at)
    } else if text_eq(tag, "join") {
        decode_transformation_type_join(fields, at)
    } else if text_eq(tag, "custom") {
        decode_transformation_type_custom(fields, at)
    } else {
        Err(invalid(field_path(at, "type").as_str()))
    }
}

/// Writes a kind of transformation.
pub fn write_transformation_type(c: &TransformationType) -> (r: JsonValue)
    ensures
        r@ == encode_transformation_type(*c),
{
    let mut fields: Vec<(String, JsonValue)> = Vec::new();
    assert(fields_model(fields@) =~= Seq::empty());
    match c {
        TransformationType::Mapping { mapping } => {
            put(&mut fields, "type", JsonValue::String(String::from_str("map")));
            put(&mut fields, "mapping", write_table(mapping));
        },
        TransformationType::Calculate { expression } => {
            put(&mut fields, "type", JsonValue::String(String::from_str("calculate")));
            put(&mut fields, "expression", write_text(expression));
        },
        TransformationType::Format { template } => {
            put(&mut fields, "type", JsonValue::String(String::from_str("format")));
            put(&mut fields, "template", write_text(template));
        },
        TransformationType::Convert { to_type } => {
            put(&mut fields, "type", JsonValue::String(String::from_str("convert")));
            put(&mut fields, "to_type", write_data_type(to_type));
        },
        TransformationType::Filter { condition } => {
            put(&mut fields, "type", JsonValue::String(String::from_str("filter")));
            put(&mut fields, "condition", write_text(condition));
        },
        TransformationType::Aggregate { operation, group_by } => {
            put(&mut fields, "type", JsonValue::String(String::from_str("aggregate")));
            put(&mut fields, "operation", write_aggregate_operation(operation));
            match group_by {
                Some(x) => {
                    put(&mut fields, "group_by", write_texts(x));
                },
                None => {},
            }
        },
        TransformationType::Join { join_source, join_key, join_type } => {
            put(&mut fields, "type", JsonValue::String(String::from_str("join")));
            put(&mut fields, "join_source", write_text(join_source));
            put(&mut fields, "join_key", write_text(join_key));
            put(&mut fields, "join_type", write_join_type(join_type));
        },
        TransformationType::Custom { function, parameters } => {
            put(&mut fields, "type", JsonValue::String(String::from_str("custom")));
            put(&mut fields, "function", write_text(function));
            put(&mut fields, "parameters", write_object(parameters));
        },
    }
    JsonValue::Object(fields)
}

/// What an object built as the encoding of the variant `map` of a kind of
/// transformation holds: its fields and no others, each once, and under each
/// name the value that was given for it.
proof fn lemma_transformation_type_mapping_pairs(f0: JsonModel)
    ensures
        only_transformation_type_mapping_fields(transformation_type_mapping_pairs(f0)),
        member(transformation_type_mapping_pairs(f0), "type"@) == JsonModel::String("map"@),
        present(transformation_type_mapping_pairs(f0), "mapping"@),
        member(transformation_type_mapping_pairs(f0), "mapping"@) == f0,
{
    broadcast use {lemma_present_none, lemma_added, lemma_added_other};
    reveal_strlit("type");
    reveal_strlit("mapping");
    assert("type"@.len() != "mapping"@.len());
    let s0: Pairs = Seq::empty();
    let s1 = with_field(s0, "type"@, Some(JsonModel::String("map"@)));
    lemma_with_field_distinct(s0, "type"@, Some(JsonModel::String("map"@)));
    let s2 = with_field(s1, "mapping"@, Some(f0));
    lemma_with_field_distinct(s1, "mapping"@, Some(f0));
    assert forall|i: int| 0 <= i < s2.len() implies is_transformation_type_mapping_field(
        (#[trigger] s2[i]).0,
    ) by {
        lemma_name_present(s2, i);
    }
    assert(transformation_type_mapping_pairs(f0) == s2);
}

/// The fields of the encoding of the variant `map` of a kind of
/// transformation are in normal form.
proof fn lemma_transformation_type_mapping_fields(c: TransformationType)
    requires
        c is Mapping,
    ensures
        norm_transformation_type_mapping_fields(
            encode_transformation_type_fields(c)
        ) == Some(encode_transformation_type_fields(c)),
        member(encode_transformation_type_fields(c), "type"@) == JsonModel::String("map"@),
{
    lemma_table(table_texts(c->Mapping_mapping@));
    lemma_transformation_type_mapping_pairs(encode_table(table_texts(c->Mapping_mapping@)));
}

/// The normal form of the fields of the variant `map` of a kind of
/// transformation is the fields themselves but for their order.
proof fn lemma_transformation_type_mapping_fields_same(pairs: Pairs)
    requires
        norm_transformation_type_mapping_fields(pairs) is Some,
    ensures
        json_same(
            JsonModel::Object(norm_transformation_type_mapping_fields(pairs)->0),
            JsonModel::Object(pairs),
        ),
{
    let normal = norm_transformation_type_mapping_fields(pairs)->0;
    if present(pairs, "mapping"@) {
        lemma_json_same_itself(member(pairs, "mapping"@));
    }
    lemma_json_same_itself(member(pairs, "type"@));
    lemma_transformation_type_mapping_pairs(norm_table(member(pairs, "mapping"@))->0);
    assert forall|name: Seq<char>| #[trigger] present(normal, name) == present(pairs, name) by {
        if present(pairs, name) {
            lemma_present_place(pairs, name);
        }
        if present(normal, name) {
            lemma_present_place(normal, name);
        }
    }
    assert forall|name: Seq<char>| #[trigger] present(normal, name) implies json_same(
        member(normal, name),
        member(pairs, name),
    ) by {
        lemma_present_place(normal, name);
    }
    lemma_same_objects(normal, pairs);
}

/// What an object built as the encoding of the variant `calculate` of a kind
/// of transformation holds: its fields and no others, each once, and under
/// each name the value that was given for it.
proof fn lemma_transformation_type_calculate_pairs(f0: JsonModel)
    ensures
        only_transformation_type_calculate_fields(transformation_type_calculate_pairs(f0)),
        member(transformation_type_calculate_pairs(f0), "type"@) == JsonModel::String("calculate"@),
        present(transformation_type_calculate_pairs(f0), "expression"@),
        member(transformation_type_calculate_pairs(f0), "expression"@) == f0,
{
    broadcast use {lemma_present_none, lemma_added, lemma_added_other};
    reveal_strlit("type");
    reveal_strlit("expression");
    assert("type"@.len() != "expression"@.len());
    let s0: Pairs = Seq::empty();
    let s1 = with_field(s0, "type"@, Some(JsonModel::String("calculate"@)));
    lemma_with_field_distinct(s0, "type"@, Some(JsonModel::String("calculate"@)));
    let s2 = with_field(s1, "expression"@, Some(f0));
    lemma_with_field_distinct(s1, "expression"@, Some(f0));
    assert forall|i: int| 0 <= i < s2.len() implies is_transformation_type_calculate_field(
        (#[trigger] s2[i]).0,
    ) by {
        lemma_name_present(s2, i);
    }
    assert(transformation_type_calculate_pairs(f0) == s2);
}

/// The fields of the encoding of the variant `calculate` of a kind of
/// transformation are in normal form.
proof fn lemma_transformation_type_calculate_fields(c: TransformationType)
    requires
        c is Calculate,
    ensures
        norm_transformation_type_calculate_fields(
            encode_transformation_type_fields(c)
        ) == Some(encode_transformation_type_fields(c)),
        member(encode_transformation_type_fields(c), "type"@) == JsonModel::String("calculate"@),
{
    lemma_transformation_type_calculate_pairs(encode_text(c->Calculate_expression@));
}

/// The normal form of the fields of the variant `calculate` of a kind of
/// transformation is the fields themselves but for their order.
proof fn lemma_transformation_type_calculate_fields_same(pairs: Pairs)
    requires
        norm_transformation_type_calculate_fields(pairs) is Some,
    ensures
        json_same(
            JsonModel::Object(norm_transformation_type_calculate_fields(pairs)->0),
            JsonModel::Object(pairs),
        ),
{
    let normal = norm_transformation_type_calculate_fields(pairs)->0;
    if present(pairs, "expression"@) {
        lemma_json_same_itself(member(pairs, "expression"@));
    }
    lemma_json_same_itself(member(pairs, "type"@));
    lemma_transformation_type_calculate_pairs(norm_string(member(pairs, "expression"@))->0);
    assert forall|name: Seq<char>| #[trigger] present(normal, name) == present(pairs, name) by {
        if present(pairs, name) {
            lemma_present_place(pairs, name);
        }
        if present(normal, name) {
            lemma_present_place(normal, name);
        }
    }
    assert forall|name: Seq<char>| #[trigger] present(normal, name) implies json_same(
        member(normal, name),
        member(pairs, name),
    ) by {
        lemma_present_place(normal, name);
    }
    lemma_same_objects(normal, pairs);
}

/// What an object built as the encoding of the variant `format` of a kind of
/// transformation holds: its fields and no others, each once, and under each
/// name the value that was given for it.
proof fn lemma_transformation_type_format_pairs(f0: JsonModel)
    ensures
        only_transformation_type_format_fields(transformation_type_format_pairs(f0)),
        member(transformation_type_format_pairs(f0), "type"@) == JsonModel::String("format"@),
        present(transformation_type_format_pairs(f0), "template"@),
        member(transformation_type_format_pairs(f0), "template"@) == f0,
{
    broadcast use {lemma_present_none, lemma_added, lemma_added_other};
    reveal_strlit("type");
    reveal_strlit("template");
    assert("type"@.len() != "template"@.len());
    let s0: Pairs = Seq::empty();
    let s1 = with_field(s0, "type"@, Some(JsonModel::String("format"@)));
    lemma_with_field_distinct(s0, "type"@, Some(JsonModel::String("format"@)));
    let s2 = with_field(s1, "template"@, Some(f0));
    lemma_with_field_distinct(s1, "template"@, Some(f0));
    assert forall|i: int| 0 <= i < s2.len() implies is_transformation_type_format_field(
        (#[trigger] s2[i]).0,
    ) by {
        lemma_name_present(s2, i);
    }
    assert(transformation_type_format_pairs(f0) == s2);
}

/// The fields of the encoding of the variant `format` of a kind of
/// transformation are in normal form.
proof fn lemma_transformation_type_format_fields(c: TransformationType)
    requires
        c is Format,
    ensures
        norm_transformation_type_format_fields(
            encode_transformation_type_fields(c)
        ) == Some(encode_transformation_type_fields(c)),
        member(encode_transformation_type_fields(c), "type"@) == JsonModel::String("format"@),
{
    lemma_transformation_type_format_pairs(encode_text(c->Format_template@));
}

/// The normal form of the fields of the variant `format` of a kind of
/// transformation is the fields themselves but for their order.
proof fn lemma_transformation_type_format_fields_same(pairs: Pairs)
    requires
        norm_transformation_type_format_fields(pairs) is Some,
    ensures
        json_same(
            JsonModel::Object(norm_transformation_type_format_fields(pairs)->0),
            JsonModel::Object(pairs),
        ),
{
    let normal = norm_transformation_type_format_fields(pairs)->0;
    if present(pairs, "template"@) {
        lemma_json_same_itself(member(pairs, "template"@));
    }
    lemma_json_same_itself(member(pairs, "type"@));
    lemma_transformation_type_format_pairs(norm_string(member(pairs, "template"@))->0);
    assert forall|name: Seq<char>| #[trigger] present(normal, name) == present(pairs, name) by {
        if present(pairs, name) {
            lemma_present_place(pairs, name);
        }
        if present(normal, name) {
            lemma_present_place(normal, name);
        }
    }
    assert forall|name: Seq<char>| #[trigger] present(normal, name) implies json_same(
        member(normal, name),
        member(pairs, name),
    ) by {
        lemma_present_place(normal, name);
    }
    lemma_same_objects(normal, pairs);
}

/// What an object built as the encoding of the variant `convert` of a kind of
/// transformation holds: its fields and no others, each once, and under each
/// name the value that was given for it.
proof fn lemma_transformation_type_convert_pairs(f0: JsonModel)
    ensures
        only_transformation_type_convert_fields(transformation_type_convert_pairs(f0)),
        member(transformation_type_convert_pairs(f0), "type"@) == JsonModel::String("convert"@),
        present(transformation_type_convert_pairs(f0), "to_type"@),
        member(transformation_type_convert_pairs(f0), "to_type"@) == f0,
{
    broadcast use {lemma_present_none, lemma_added, lemma_added_other};
    reveal_strlit("type");
    reveal_strlit("to_type");
    assert("type"@.len() != "to_type"@.len());
    let s0: Pairs = Seq::empty();
    let s1 = with_field(s0, "type"@, Some(JsonModel::String("convert"@)));
    lemma_with_field_distinct(s0, "type"@, Some(JsonModel::String("convert"@)));
    let s2 = with_field(s1, "to_type"@, Some(f0));
    lemma_with_field_distinct(s1, "to_type"@, Some(f0));
    assert forall|i: int| 0 <= i < s2.len() implies is_transformation_type_convert_field(
        (#[trigger] s2[i]).0,
    ) by {
        lemma_name_present(s2, i);
    }
    assert(transformation_type_convert_pairs(f0) == s2);
}

/// The fields of the encoding of the variant `convert` of a kind of
/// transformation are in normal form.
proof fn lemma_transformation_type_convert_fields(c: TransformationType)
    requires
        c is Convert,
    ensures
        norm_transformation_type_convert_fields(
            encode_transformation_type_fields(c)
        ) == Some(encode_transformation_type_fields(c)),
        member(encode_transformation_type_fields(c), "type"@) == JsonModel::String("convert"@),
{
    lemma_data_type(c->Convert_to_type);
    lemma_transformation_type_convert_pairs(encode_data_type(c->Convert_to_type));
}

/// The normal form of the fields of the variant `convert` of a kind of
/// transformation is the fields themselves but for their order.
proof fn lemma_transformation_type_convert_fields_same(pairs: Pairs)
    requires
        norm_transformation_type_convert_fields(pairs) is Some,
    ensures
        json_same(
            JsonModel::Object(norm_transformation_type_convert_fields(pairs)->0),
            JsonModel::Object(pairs),
        ),
{
    let normal = norm_transformation_type_convert_fields(pairs)->0;
    if present(pairs, "to_type"@) {
        lemma_json_same_itself(member(pairs, "to_type"@));
    }
    lemma_json_same_itself(member(pairs, "type"@));
    lemma_transformation_type_convert_pairs(norm_data_type(member(pairs, "to_type"@))->0);
    assert forall|name: Seq<char>| #[trigger] present(normal, name) == present(pairs, name) by {
        if present(pairs, name) {
            lemma_present_place(pairs, name);
        }
        if present(normal, name) {
            lemma_present_place(normal, name);
        }
    }
    assert forall|name: Seq<char>| #[trigger] present(normal, name) implies json_same(
        member(normal, name),
        member(pairs, name),
    ) by {
        lemma_present_place(normal, name);
    }
    lemma_same_objects(normal, pairs);
}

/// What an object built as the encoding of the variant `filter` of a kind of
/// transformation holds: its fields and no others, each once, and under each
/// name the value that was given for it.
proof fn lemma_transformation_type_filter_pairs(f0: JsonModel)
    ensures
        only_transformation_type_filter_fields(transformation_type_filter_pairs(f0)),
        member(transformation_type_filter_pairs(f0), "type"@) == JsonModel::String("filter"@),
        present(transformation_type_filter_pairs(f0), "condition"@),
        member(transformation_type_filter_pairs(f0), "condition"@) == f0,
{
    broadcast use {lemma_present_none, lemma_added, lemma_added_other};
    reveal_strlit("type");
    reveal_strlit("condition");
    assert("type"@.len() != "condition"@.len());
    let s0: Pairs = Seq::empty();
    let s1 = with_field(s0, "type"@, Some(JsonModel::String("filter"@)));
    lemma_with_field_distinct(s0, "type"@, Some(JsonModel::String("filter"@)));
    let s2 = with_field(s1, "condition"@, Some(f0));
    lemma_with_field_distinct(s1, "condition"@, Some(f0));
    assert forall|i: int| 0 <= i < s2.len() implies is_transformation_type_filter_field(
        (#[trigger] s2[i]).0,
    ) by {
        lemma_name_present(s2, i);
    }
    assert(transformation_type_filter_pairs(f0) == s2);
}

/// The fields of the encoding of the variant `filter` of a kind of
/// transformation are in normal form.
proof fn lemma_transformation_type_filter_fields(c: TransformationType)
    requires
        c is Filter,
    ensures
        norm_transformation_type_filter_fields(
            encode_transformation_type_fields(c)
        ) == Some(encode_transformation_type_fields(c)),
        member(encode_transformation_type_fields(c), "type"@) == JsonModel::String("filter"@),
{
    lemma_transformation_type_filter_pairs(encode_text(c->Filter_condition@));
}

/// The normal form of the fields of the variant `filter` of a kind of
/// transformation is the fields themselves but for their order.
proof fn lemma_transformation_type_filter_fields_same(pairs: Pairs)
    requires
        norm_transformation_type_filter_fields(pairs) is Some,
    ensures
        json_same(
            JsonModel::Object(norm_transformation_type_filter_fields(pairs)->0),
            JsonModel::Object(pairs),
        ),
{
    let normal = norm_transformation_type_filter_fields(pairs)->0;
    if present(pairs, "condition"@) {
        lemma_json_same_itself(member(pairs, "condition"@));
    }
    lemma_json_same_itself(member(pairs, "type"@));
    lemma_transformation_type_filter_pairs(norm_string(member(pairs, "condition"@))->0);
    assert forall|name: Seq<char>| #[trigger] present(normal, name) == present(pairs, name) by {
        if present(pairs, name) {
            lemma_present_place(pairs, name);
        }
        if present(normal, name) {
            lemma_present_place(normal, name);
        }
    }
    assert forall|name: Seq<char>| #[trigger] present(normal, name) implies json_same(
        member(normal, name),
        member(pairs, name),
    ) by {
        lemma_present_place(normal, name);
    }
    lemma_same_objects(normal, pairs);
}

/// What an object built as the encoding of the variant `aggregate` of a kind
/// of transformation holds: its fields and no others, each once, and under
/// each name the value that was given for it.
proof fn lemma_transformation_type_aggregate_pairs(f0: JsonModel, f1: Option<JsonModel>)
    ensures
        only_transformation_type_aggregate_fields(transformation_type_aggregate_pairs(f0, f1)),
        member(
            transformation_type_aggregate_pairs(f0, f1),
            "type"@,
        ) == JsonModel::String("aggregate"@),
        present(transformation_type_aggregate_pairs(f0, f1), "operation"@),
        member(transformation_type_aggregate_pairs(f0, f1), "operation"@) == f0,
        present(transformation_type_aggregate_pairs(f0, f1), "group_by"@) == (f1 is Some),
        f1 is Some ==> member(transformation_type_aggregate_pairs(f0, f1), "group_by"@) == f1->0,
{
    broadcast use {lemma_present_none, lemma_added, lemma_added_other};
    reveal_strlit("type");
    reveal_strlit("operation");
    reveal_strlit("group_by");
    assert("type"@.len() != "operation"@.len());
    assert("type"@.len() != "group_by"@.len());
    assert("operation"@.len() != "group_by"@.len());
    let s0: Pairs = Seq::empty();
    let s1 = with_field(s0, "type"@, Some(JsonModel::String("aggregate"@)));
    lemma_with_field_distinct(s0, "type"@, Some(JsonModel::String("aggregate"@)));
    let s2 = with_field(s1, "operation"@, Some(f0));
    lemma_with_field_distinct(s1, "operation"@, Some(f0));
    let s3 = with_field(s2, "group_by"@, f1);
    lemma_with_field_distinct(s2, "group_by"@, f1);
    assert forall|i: int| 0 <= i < s3.len() implies is_transformation_type_aggregate_field(
        (#[trigger] s3[i]).0,
    ) by {
        lemma_name_present(s3, i);
    }
    assert(transformation_type_aggregate_pairs(f0, f1) == s3);
}

/// The fields of the encoding of the variant `aggregate` of a kind of
/// transformation are in normal form.
proof fn lemma_transformation_type_aggregate_fields(c: TransformationType)
    requires
        c is Aggregate,
    ensures
        norm_transformation_type_aggregate_fields(
            encode_transformation_type_fields(c)
        ) == Some(encode_transformation_type_fields(c)),
        member(encode_transformation_type_fields(c), "type"@) == JsonModel::String("aggregate"@),
{
    lemma_aggregate_operation(c->Aggregate_operation);
    if c->Aggregate_group_by is Some {
        lemma_texts(texts_of(c->Aggregate_group_by->0@));
    }
    lemma_transformation_type_aggregate_pairs(
        encode_aggregate_operation(c->Aggregate_operation),
        match c->Aggregate_group_by { Some(x) => Some(encode_texts(texts_of(x@))), None => None },
    );
}

/// The normal form of the fields of the variant `aggregate` of a kind of
/// transformation is the fields themselves but for their order.
proof fn lemma_transformation_type_aggregate_fields_same(pairs: Pairs)
    requires
        norm_transformation_type_aggregate_fields(pairs) is Some,
    ensures
        json_same(
            JsonModel::Object(norm_transformation_type_aggregate_fields(pairs)->0),
            JsonModel::Object(pairs),
        ),
{
    let normal = norm_transformation_type_aggregate_fields(pairs)->0;
    if present(pairs, "operation"@) {
        lemma_json_same_itself(member(pairs, "operation"@));
    }
    if present(pairs, "group_by"@) {
        lemma_json_same_itself(member(pairs, "group_by"@));
    }
    lemma_json_same_itself(member(pairs, "type"@));
    lemma_transformation_type_aggregate_pairs(
        norm_aggregate_operation(member(pairs, "operation"@))->0,
        optional(pairs, "group_by"@, norm_strings(member(pairs, "group_by"@)))->0,
    );
    assert forall|name: Seq<char>| #[trigger] present(normal, name) == present(pairs, name) by {
        if present(pairs, name) {
            lemma_present_place(pairs, name);
        }
        if present(normal, name) {
            lemma_present_place(normal, name);
        }
    }
    assert forall|name: Seq<char>| #[trigger] present(normal, name) implies json_same(
        member(normal, name),
        member(pairs, name),
    ) by {
        lemma_present_place(normal, name);
    }
    lemma_same_objects(normal, pairs);
}

/// What an object built as the encoding of the variant `join` of a kind of
/// transformation holds: its fields and no others, each once, and under each
/// name the value that was given for it.
proof fn lemma_transformation_type_join_pairs(f0: JsonModel, f1: JsonModel, f2: JsonModel)
    ensures
        only_transformation_type_join_fields(transformation_type_join_pairs(f0, f1, f2)),
        member(transformation_type_join_pairs(f0, f1, f2), "type"@) == JsonModel::String("join"@),
        present(transformation_type_join_pairs(f0, f1, f2), "join_source"@),
        member(transformation_type_join_pairs(f0, f1, f2), "join_source"@) == f0,
        present(transformation_type_join_pairs(f0, f1, f2), "join_key"@),
        member(transformation_type_join_pairs(f0, f1, f2), "join_key"@) == f1,
        present(transformation_type_join_pairs(f0, f1, f2), "join_type"@),
        member(transformation_type_join_pairs(f0, f1, f2), "join_type"@) == f2,
{
    broadcast use {lemma_present_none, lemma_added, lemma_added_other};
    reveal_strlit("type");
    reveal_strlit("join_source");
    reveal_strlit("join_key");
    reveal_strlit("join_type");
    assert("type"@.len() != "join_source"@.len());
    assert("type"@.len() != "join_key"@.len());
    assert("type"@.len() != "join_type"@.len());
    assert("join_source"@.len() != "join_key"@.len());
    assert("join_source"@.len() != "join_type"@.len());
    assert("join_key"@.len() != "join_type"@.len());
    let s0: Pairs = Seq::empty();
    let s1 = with_field(s0, "type"@, Some(JsonModel::String("join"@)));
    lemma_with_field_distinct(s0, "type"@, Some(JsonModel::String("join"@)));
    let s2 = with_field(s1, "join_source"@, Some(f0));
    lemma_with_field_distinct(s1, "join_source"@, Some(f0));
    let s3 = with_field(s2, "join_key"@, Some(f1));
    lemma_with_field_distinct(s2, "join_key"@, Some(f1));
    let s4 = with_field(s3, "join_type"@, Some(f2));
    lemma_with_field_distinct(s3, "join_type"@, Some(f2));
    assert forall|i: int| 0 <= i < s4.len() implies is_transformation_type_join_field(
        (#[trigger] s4[i]).0,
    ) by {
        lemma_name_present(s4, i);
    }
    assert(transformation_type_join_pairs(f0, f1, f2) == s4);
}

/// The fields of the encoding of the variant `join` of a kind of
/// transformation are in normal form.
proof fn lemma_transformation_type_join_fields(c: TransformationType)
    requires
        c is Join,
    ensures
        norm_transformation_type_join_fields(
            encode_transformation_type_fields(c)
        ) == Some(encode_transformation_type_fields(c)),
        member(encode_transformation_type_fields(c), "type"@) == JsonModel::String("join"@),
{
    lemma_join_type(c->Join_join_type);
    lemma_transformation_type_join_pairs(
        encode_text(c->Join_join_source@),
        encode_text(c->Join_join_key@),
        encode_join_type(c->Join_join_type),
    );
}

/// The normal form of the fields of the variant `join` of a kind of
/// transformation is the fields themselves but for their order.
proof fn lemma_transformation_type_join_fields_same(pairs: Pairs)
    requires
        norm_transformation_type_join_fields(pairs) is Some,
    ensures
        json_same(
            JsonModel::Object(norm_transformation_type_join_fields(pairs)->0),
            JsonModel::Object(pairs),
        ),
{
    let normal = norm_transformation_type_join_fields(pairs)->0;
    if present(pairs, "join_source"@) {
        lemma_json_same_itself(member(pairs, "join_source"@));
    }
    if present(pairs, "join_key"@) {
        lemma_json_same_itself(member(pairs, "join_key"@));
    }
    if present(pairs, "join_type"@) {
        lemma_json_same_itself(member(pairs, "join_type"@));
    }
    lemma_json_same_itself(member(pairs, "type"@));
    lemma_transformation_type_join_pairs(
        norm_string(member(pairs, "join_source"@))->0,
        norm_string(member(pairs, "join_key"@))->0,
        norm_join_type(member(pairs, "join_type"@))->0,
    );
    assert forall|name: Seq<char>| #[trigger] present(normal, name) == present(pairs, name) by {
        if present(pairs, name) {
            lemma_present_place(pairs, name);
        }
        if present(normal, name) {
            lemma_present_place(normal, name);
        }
    }
    assert forall|name: Seq<char>| #[trigger] present(normal, name) implies json_same(
        member(normal, name),
        member(pairs, name),
    ) by {
        lemma_present_place(normal, name);
    }
    lemma_same_objects(normal, pairs);
}

/// What an object built as the encoding of the variant `custom` of a kind of
/// transformation holds: its fields and no others, each once, and under each
/// name the value that was given for it.
proof fn lemma_transformation_type_custom_pairs(f0: JsonModel, f1: JsonModel)
    ensures
        only_transformation_type_custom_fields(transformation_type_custom_pairs(f0, f1)),
        member(transformation_type_custom_pairs(f0, f1), "type"@) == JsonModel::String("custom"@),
        present(transformation_type_custom_pairs(f0, f1), "function"@),
        member(transformation_type_custom_pairs(f0, f1), "function"@) == f0,
        present(transformation_type_custom_pairs(f0, f1), "parameters"@),
        member(transformation_type_custom_pairs(f0, f1), "parameters"@) == f1,
{
    broadcast use {lemma_present_none, lemma_added, lemma_added_other};
    reveal_strlit("type");
    reveal_strlit("function");
    reveal_strlit("parameters");
    assert("type"@.len() != "function"@.len());
    assert("type"@.len() != "parameters"@.len());
    assert("function"@.len() != "parameters"@.len());
    let s0: Pairs = Seq::empty();
    let s1 = with_field(s0, "type"@, Some(JsonModel::String("custom"@)));
    lemma_with_field_distinct(s0, "type"@, Some(JsonModel::String("custom"@)));
    let s2 = with_field(s1, "function"@, Some(f0));
    lemma_with_field_distinct(s1, "function"@, Some(f0));
    let s3 = with_field(s2, "parameters"@, Some(f1));
    lemma_with_field_distinct(s2, "parameters"@, Some(f1));
    assert forall|i: int| 0 <= i < s3.len() implies is_transformation_type_custom_field(
        (#[trigger] s3[i]).0,
    ) by {
        lemma_name_present(s3, i);
    }
    assert(transformation_type_custom_pairs(f0, f1) == s3);
}

/// The fields of the encoding of the variant `custom` of a kind of
/// transformation are in normal form.
proof fn lemma_transformation_type_custom_fields(c: TransformationType)
    requires
        c is Custom,
    ensures
        norm_transformation_type_custom_fields(
            encode_transformation_type_fields(c)
        ) == Some(encode_transformation_type_fields(c)),
        member(encode_transformation_type_fields(c), "type"@) == JsonModel::String("custom"@),
{
    lemma_transformation_type_custom_pairs(
        encode_text(c->Custom_function@),
        JsonModel::Object(fields_model(c->Custom_parameters@)),
    );
}

/// The normal form of the fields of the variant `custom` of a kind of
/// transformation is the fields themselves but for their order.
proof fn lemma_transformation_type_custom_fields_same(pairs: Pairs)
    requires
        norm_transformation_type_custom_fields(pairs) is Some,
    ensures
        json_same(
            JsonModel::Object(norm_transformation_type_custom_fields(pairs)->0),
            JsonModel::Object(pairs),
        ),
{
    let normal = norm_transformation_type_custom_fields(pairs)->0;
    if present(pairs, "function"@) {
        lemma_json_same_itself(member(pairs, "function"@));
    }
    if present(pairs, "parameters"@) {
        lemma_json_same_itself(member(pairs, "parameters"@));
    }
    lemma_json_same_itself(member(pairs, "type"@));
    lemma_transformation_type_custom_pairs(
        norm_string(member(pairs, "function"@))->0,
        norm_object(member(pairs, "parameters"@))->0,
    );
    assert forall|name: Seq<char>| #[trigger] present(normal, name) == present(pairs, name) by {
        if present(pairs, name) {
            lemma_present_place(pairs, name);
        }
        if present(normal, name) {
            lemma_present_place(normal, name);
        }
    }
    assert forall|name: Seq<char>| #[trigger] present(normal, name) implies json_same(
        member(normal, name),
        member(pairs, name),
    ) by {
        lemma_present_place(normal, name);
    }
    lemma_same_objects(normal, pairs);
}

/// The encoding of a kind of transformation is in normal form.
pub proof fn lemma_transformation_type(c: TransformationType)
    ensures
        norm_transformation_type(
            encode_transformation_type(c)
        ) == Some(encode_transformation_type(c)),
{
    broadcast use {lemma_present_none, lemma_added, lemma_added_other};
    reveal_strlit("type");
    reveal_strlit("map");
    reveal_strlit("calculate");
    reveal_strlit("format");
    reveal_strlit("convert");
    reveal_strlit("filter");
    reveal_strlit("aggregate");
    reveal_strlit("join");
    reveal_strlit("custom");
    assert("map"@.len() != "calculate"@.len());
    assert("map"@.len() != "format"@.len());
    assert("map"@.len() != "convert"@.len());
    assert("map"@.len() != "filter"@.len());
    assert("map"@.len() != "aggregate"@.len());
    assert("map"@.len() != "join"@.len());
    assert("map"@.len() != "custom"@.len());
    assert("calculate"@.len() != "format"@.len());
    assert("calculate"@.len() != "convert"@.len());
    assert("calculate"@.len() != "filter"@.len());
    assert("calculate"@[0] != "aggregate"@[0]);
    assert("calculate"@.len() != "join"@.len());
    assert("calculate"@.len() != "custom"@.len());
    assert("format"@.len() != "convert"@.len());
    assert("format"@[1] != "filter"@[1]);
    assert("format"@.len() != "aggregate"@.len());
    assert("format"@.len() != "join"@.len());
    assert("format"@[0] != "custom"@[0]);
    assert("convert"@.len() != "filter"@.len());
    assert("convert"@.len() != "aggregate"@.len());
    assert("convert"@.len() != "join"@.len());
    assert("convert"@.len() != "custom"@.len());
    assert("filter"@.len() != "aggregate"@.len());
    assert("filter"@.len() != "join"@.len());
    assert("filter"@[0] != "custom"@[0]);
    assert("aggregate"@.len() != "join"@.len());
    assert("aggregate"@.len() != "custom"@.len());
    assert("join"@.len() != "custom"@.len());
    match c {
        TransformationType::Mapping { .. } => {
            lemma_transformation_type_mapping_fields(c);
            reveal_strlit("mapping");
            assert("type"@.len() != "mapping"@.len());
            assert(
                member(encode_transformation_type_fields(c), "type"@) == JsonModel::String("map"@)
            );
        },
        TransformationType::Calculate { .. } => {
            lemma_transformation_type_calculate_fields(c);
            reveal_strlit("expression");
            assert("type"@.len() != "expression"@.len());
            assert(
                member(
                    encode_transformation_type_fields(c),
                    "type"@,
                ) == JsonModel::String("calculate"@)
            );
        },
        TransformationType::Format { .. } => {
            lemma_transformation_type_format_fields(c);
            reveal_strlit("template");
            assert("type"@.len() != "template"@.len());
            assert(
                member(
                    encode_transformation_type_fields(c),
                    "type"@,
                ) == JsonModel::String("format"@)
            );
        },
        TransformationType::Convert { .. } => {
            lemma_transformation_type_convert_fields(c);
            reveal_strlit("to_type");
            assert("type"@.len() != "to_type"@.len());
            assert(
                member(
                    encode_transformation_type_fields(c),
                    "type"@,
                ) == JsonModel::String("convert"@)
            );
        },
        TransformationType::Filter { .. } => {
            lemma_transformation_type_filter_fields(c);
            reveal_strlit("condition");
            assert("type"@.len() != "condition"@.len());
            assert(
                member(
                    encode_transformation_type_fields(c),
                    "type"@,
                ) == JsonModel::String("filter"@)
            );
        },
        TransformationType::Aggregate { .. } => {
            lemma_transformation_type_aggregate_fields(c);
            reveal_strlit("operation");
            assert("type"@.len() != "operation"@.len());
            reveal_strlit("group_by");
            assert("type"@.len() != "group_by"@.len());
            assert(
                member(
                    encode_transformation_type_fields(c),
                    "type"@,
                ) == JsonModel::String("aggregate"@)
            );
        },
        TransformationType::Join { .. } => {
            lemma_transformation_type_join_fields(c);
            reveal_strlit("join_source");
            assert("type"@.len() != "join_source"@.len());
            reveal_strlit("join_key");
            assert("type"@.len() != "join_key"@.len());
            reveal_strlit("join_type");
            assert("type"@.len() != "join_type"@.len());
            assert(
                member(encode_transformation_type_fields(c), "type"@) == JsonModel::String("join"@)
            );
        },
        TransformationType::Custom { .. } => {
            lemma_transformation_type_custom_fields(c);
            reveal_strlit("function");
            assert("type"@.len() != "function"@.len());
            reveal_strlit("parameters");
            assert("type"@.len() != "parameters"@.len());
            assert(
                member(
                    encode_transformation_type_fields(c),
                    "type"@,
                ) == JsonModel::String("custom"@)
            );
        },
    }
}

/// The normal form of the encoding of a kind of transformation is the
/// encoding itself but for the order of fields.
pub proof fn lemma_transformation_type_same(json: JsonModel)
    requires
        norm_transformation_type(json) is Some,
    ensures
        json_same(norm_transformation_type(json)->0, json),
{
    let pairs = json->Object_0;
    let tag = member(pairs, "type"@)->String_0;
    if tag == "map"@ {
        lemma_transformation_type_mapping_fields_same(pairs);
    } else if tag == "calculate"@ {
        lemma_transformation_type_calculate_fields_same(pairs);
    } else if tag == "format"@ {
        lemma_transformation_type_format_fields_same(pairs);
    } else if tag == "convert"@ {
        lemma_transformation_type_convert_fields_same(pairs);
    } else if tag == "filter"@ {
        lemma_transformation_type_filter_fields_same(pairs);
    } else if tag == "aggregate"@ {
        lemma_transformation_type_aggregate_fields_same(pairs);
    } else if tag == "join"@ {
        lemma_transformation_type_join_fields_same(pairs);
    } else if tag == "custom"@ {
        lemma_transformation_type_custom_fields_same(pairs);
    }
}

/// Whether two descriptions of a kind of transformation are of the same
/// variant and hold the same values in every field.
pub open spec fn same_transformation_type(a: TransformationType, b: TransformationType) -> bool {
    (a is Mapping
        && b is Mapping
        && table_texts(a->Mapping_mapping@) == table_texts(b->Mapping_mapping@))
    || (a is Calculate
        && b is Calculate
        && a->Calculate_expression@ == b->Calculate_expression@)
    || (a is Format
        && b is Format
        && a->Format_template@ == b->Format_template@)
    || (a is Convert
        && b is Convert
        && a->Convert_to_type == b->Convert_to_type)
    || (a is Filter
        && b is Filter
        && a->Filter_condition@ == b->Filter_condition@)
    || (a is Aggregate
        && b is Aggregate
        && a->Aggregate_operation == b->Aggregate_operation
        && (match (a->Aggregate_group_by, b->Aggregate_group_by) {
            (Some(x), Some(y)) => texts_of(x@) == texts_of(y@),
            (None, None) => true,
            _ => false,
        }))
    || (a is Join
        && b is Join
        && a->Join_join_source@ == b->Join_join_source@
        && a->Join_join_key@ == b->Join_join_key@
        && a->Join_join_type == b->Join_join_type)
    || (a is Custom
        && b is Custom
        && a->Custom_function@ == b->Custom_function@
        && fields_model(a->Custom_parameters@) == fields_model(b->Custom_parameters@))
}

/// Two descriptions of a kind of transformation with the same encoding hold
/// the same values.
pub proof fn lemma_transformation_type_one(a: TransformationType, b: TransformationType)
    requires
        encode_transformation_type(a) == encode_transformation_type(b),
    ensures
        same_transformation_type(a, b),
{
    reveal_strlit("map");
    reveal_strlit("calculate");
    reveal_strlit("format");
    reveal_strlit("convert");
    reveal_strlit("filter");
    reveal_strlit("aggregate");
    reveal_strlit("join");
    reveal_strlit("custom");
    assert("map"@.len() != "calculate"@.len());
    assert("map"@.len() != "format"@.len());
    assert("map"@.len() != "convert"@.len());
    assert("map"@.len() != "filter"@.len());
    assert("map"@.len() != "aggregate"@.len());
    assert("map"@.len() != "join"@.len());
    assert("map"@.len() != "custom"@.len());
    assert("calculate"@.len() != "format"@.len());
    assert("calculate"@.len() != "convert"@.len());
    assert("calculate"@.len() != "filter"@.len());
    assert("calculate"@[0] != "aggregate"@[0]);
    assert("calculate"@.len() != "join"@.len());
    assert("calculate"@.len() != "custom"@.len());
    assert("format"@.len() != "convert"@.len());
    assert("format"@[1] != "filter"@[1]);
    assert("format"@.len() != "aggregate"@.len());
    assert("format"@.len() != "join"@.len());
    assert("format"@[0] != "custom"@[0]);
    assert("convert"@.len() != "filter"@.len());
    assert("convert"@.len() != "aggregate"@.len());
    assert("convert"@.len() != "join"@.len());
    assert("convert"@.len() != "custom"@.len());
    assert("filter"@.len() != "aggregate"@.len());
    assert("filter"@.len() != "join"@.len());
    assert("filter"@[0] != "custom"@[0]);
    assert("aggregate"@.len() != "join"@.len());
    assert("aggregate"@.len() != "custom"@.len());
    assert("join"@.len() != "custom"@.len());
    assert(encode_transformation_type_fields(a) == encode_transformation_type_fields(b));
    match a {
        TransformationType::Mapping { .. } => {
            lemma_transformation_type_mapping_pairs(encode_table(table_texts(a->Mapping_mapping@)));
        },
        TransformationType::Calculate { .. } => {
            lemma_transformation_type_calculate_pairs(encode_text(a->Calculate_expression@));
        },
        TransformationType::Format { .. } => {
            lemma_transformation_type_format_pairs(encode_text(a->Format_template@));
        },
        TransformationType::Convert { .. } => {
            lemma_transformation_type_convert_pairs(encode_data_type(a->Convert_to_type));
        },
        TransformationType::Filter { .. } => {
            lemma_transformation_type_filter_pairs(encode_text(a->Filter_condition@));
        },
        TransformationType::Aggregate { .. } => {
            lemma_transformation_type_aggregate_pairs(
                encode_aggregate_operation(a->Aggregate_operation),
                match a->Aggregate_group_by { Some(
                    x
                ) => Some(encode_texts(texts_of(x@))), None => None },
            );
        },
        TransformationType::Join { .. } => {
            lemma_transformation_type_join_pairs(
                encode_text(a->Join_join_source@),
                encode_text(a->Join_join_key@),
                encode_join_type(a->Join_join_type),
            );
        },
        TransformationType::Custom { .. } => {
            lemma_transformation_type_custom_pairs(
                encode_text(a->Custom_function@),
                JsonModel::Object(fields_model(a->Custom_parameters@)),
            );
        },
    }
    match b {
        TransformationType::Mapping { .. } => {
            lemma_transformation_type_mapping_pairs(encode_table(table_texts(b->Mapping_mapping@)));
        },
        TransformationType::Calculate { .. } => {
            lemma_transformation_type_calculate_pairs(encode_text(b->Calculate_expression@));
        },
        TransformationType::Format { .. } => {
            lemma_transformation_type_format_pairs(encode_text(b->Format_template@));
        },
        TransformationType::Convert { .. } => {
            lemma_transformation_type_convert_pairs(encode_data_type(b->Convert_to_type));
        },
        TransformationType::Filter { .. } => {
            lemma_transformation_type_filter_pairs(encode_text(b->Filter_condition@));
        },
        TransformationType::Aggregate { .. } => {
            lemma_transformation_type_aggregate_pairs(
                encode_aggregate_operation(b->Aggregate_operation),
                match b->Aggregate_group_by { Some(
                    x
                ) => Some(encode_texts(texts_of(x@))), None => None },
            );
        },
        TransformationType::Join { .. } => {
            lemma_transformation_type_join_pairs(
                encode_text(b->Join_join_source@),
                encode_text(b->Join_join_key@),
                encode_join_type(b->Join_join_type),
            );
        },
        TransformationType::Custom { .. } => {
            lemma_transformation_type_custom_pairs(
                encode_text(b->Custom_function@),
                JsonModel::Object(fields_model(b->Custom_parameters@)),
            );
        },
    }
    if a is Mapping && b is Mapping {
        lemma_table_one(table_texts(a->Mapping_mapping@), table_texts(b->Mapping_mapping@));
    } else if a is Calculate && b is Calculate {
    } else if a is Format && b is Format {
    } else if a is Convert && b is Convert {
        lemma_data_type_one(a->Convert_to_type, b->Convert_to_type);
    } else if a is Filter && b is Filter {
    } else if a is Aggregate && b is Aggregate {
        lemma_aggregate_operation_one(a->Aggregate_operation, b->Aggregate_operation);
        if a->Aggregate_group_by is Some && b->Aggregate_group_by is Some {
            lemma_texts_one(
                texts_of(a->Aggregate_group_by->0@),
                texts_of(b->Aggregate_group_by->0@),
            );
        }
    } else if a is Join && b is Join {
        lemma_join_type_one(a->Join_join_type, b->Join_join_type);
    } else if a is Custom && b is Custom {
    }
}

/// The fields of the encoding of a transformation rule, from the encodings of
/// its fields: a field that may be absent is left out where it is.
pub open spec fn transformation_config_pairs(
    f0: JsonModel,
    f1: JsonModel,
    f2: Option<JsonModel>,
    f3: JsonModel,
    f4: Option<JsonModel>,
) -> Pairs {
    let pairs: Pairs = Seq::empty();
    let pairs = with_field(pairs, "name"@, Some(f0));
    let pairs = with_field(pairs, "source_field"@, Some(f1));
    let pairs = with_field(pairs, "target_field"@, f2);
    let pairs = with_field(pairs, "transformation"@, Some(f3));
    let pairs = with_field(pairs, "condition"@, f4);
    pairs
}

/// Whether a name is the name of a field of a transformation rule.
pub open spec fn is_transformation_config_field(name: Seq<char>) -> bool {
    name == "name"@
        || name == "source_field"@
        || name == "target_field"@
        || name == "transformation"@
        || name == "condition"@
}

/// Whether every field of an object is a field of a transformation rule, and
/// none stands twice.
pub open spec fn only_transformation_config_fields(pairs: Pairs) -> bool {
    distinct_names(pairs) && forall|i: int|
        0 <= i < pairs.len() ==> is_transformation_config_field((#[trigger] pairs[i]).0)
}

/// The fields of the encoding of a transformation rule.
pub open spec fn encode_transformation_config_fields(c: TransformationConfig) -> Pairs {
    transformation_config_pairs(
        encode_text(c.name@),
        encode_text(c.source_field@),
        match c.target_field {
            Some(x) => Some(encode_text(x@)),
            None => None,
        },
        encode_transformation_type(c.transformation),
        match c.condition {
            Some(x) => Some(encode_condition_config(x)),
            None => None,
        },
    )
}

/// The encoding of a transformation rule: an object with one field for each
/// of its fields that is there, in their order.
pub open spec fn encode_transformation_config(c: TransformationConfig) -> JsonModel {
    JsonModel::Object(encode_transformation_config_fields(c))
}

/// The normal form of the fields of a transformation rule: every field is one
/// of its fields and stands once, every field that must be there is there,
/// and every value is in normal form. Nothing where that is not so.
pub open spec fn norm_transformation_config_fields(pairs: Pairs) -> Option<Pairs> {
    if !only_transformation_config_fields(pairs) {
        None
    } else {
        match (
            required(pairs, "name"@, norm_string(member(pairs, "name"@))),
            required(pairs, "source_field"@, norm_string(member(pairs, "source_field"@))),
            optional(pairs, "target_field"@, norm_string(member(pairs, "target_field"@))),
            required(
                pairs,
                "transformation"@,
                norm_transformation_type(member(pairs, "transformation"@)),
            ),
            optional(pairs, "condition"@, norm_condition_config(member(pairs, "condition"@))),
        ) {
            (Some(f0), Some(f1), Some(f2), Some(f3), Some(f4)) => Some(
                transformation_config_pairs(f0, f1, f2, f3, f4),
            ),
            _ => None,
        }
    }
}

/// The normal form of the encoding of a transformation rule: its fields in
/// their order, each in normal form.
pub open spec fn norm_transformation_config(json: JsonModel) -> Option<JsonModel> {
    match json {
        JsonModel::Object(pairs) => match norm_transformation_config_fields(pairs) {
            Some(normal) => Some(JsonModel::Object(normal)),
            None => None,
        },
        _ => None,
    }
}

/// Reads a transformation rule.
pub fn decode_transformation_config(json: &JsonValue, at: &str) -> (r: Result<TransformationConfig>)
    ensures
        decoded(r, norm_transformation_config(json@)),
        r matches Ok(
            c
        ) ==> Some(encode_transformation_config(c)) == norm_transformation_config(json@),
{
    let fields = match json {
        JsonValue::Object(fields) => fields,
        _ => {
            return Err(invalid(at));
        },
    };
    proof {
        lemma_fields_model(fields@);
    }
    let mut i: usize = 0;
    while i < fields.len()
        invariant
            i <= fields.len(),
            json@ == JsonModel::Object(fields_model(fields@)),
            fields_model(fields@).len() == fields.len(),
            forall|k: int|
                0 <= k < fields.len() ==> #[trigger] fields_model(fields@)[k] == (
                    fields[k].0@,
                    fields[k].1@,
                ),
            forall|k: int|
                0 <= k < i ==> is_transformation_config_field(
                    (#[trigger] fields_model(fields@)[k]).0
                ),
        decreases fields.len() - i,
    {
        let name = fields[i].0.as_str();
        let known: bool = text_eq(name, "name")
            || text_eq(name, "source_field")
            || text_eq(name, "target_field")
            || text_eq(name, "transformation")
            || text_eq(name, "condition");
        if !known {
            assert(!is_transformation_config_field(fields_model(fields@)[i as int].0));
            return Err(invalid(field_path(at, name).as_str()));
        }
        i += 1;
    }
    if !names_distinct(fields) {
        return Err(invalid(at));
    }
    let name = match field_of(fields, "name") {
        Some(value) => match decode_string(value, field_path(at, "name").as_str()) {
            Ok(v) => v,
            Err(e) => {
                return Err(e);
            },
        },
        None => {
            return Err(invalid(field_path(at, "name").as_str()));
        },
    };
    let source_field = match field_of(fields, "source_field") {
        Some(value) => match decode_string(value, field_path(at, "source_field").as_str()) {
            Ok(v) => v,
            Err(e) => {
                return Err(e);
            },
        },
        None => {
            return Err(invalid(field_path(at, "source_field").as_str()));
        },
    };
    let target_field = match field_of(fields, "target_field") {
        Some(value) => match decode_string(value, field_path(at, "target_field").as_str()) {
            Ok(v) => Some(v),
            Err(e) => {
                return Err(e);
            },
        },
        None => None,
    };
    let transformation = match field_of(fields, "transformation") {
        Some(
            value
        ) => match decode_transformation_type(value, field_path(at, "transformation").as_str()) {
            Ok(v) => v,
            Err(e) => {
                return Err(e);
            },
        },
        None => {
            return Err(invalid(field_path(at, "transformation").as_str()));
        },
    };
    let condition = match field_of(fields, "condition") {
        Some(value) => match decode_condition_config(value, field_path(at, "condition").as_str()) {
            Ok(v) => Some(v),
            Err(e) => {
                return Err(e);
            },
        },
        None => None,
    };
    Ok(TransformationConfig { name, source_field, target_field, transformation, condition })
}

/// Writes a transformation rule.
pub fn write_transformation_config(c: &TransformationConfig) -> (r: JsonValue)
    ensures
        r@ == encode_transformation_config(*c),
{
    let mut fields: Vec<(String, JsonValue)> = Vec::new();
    assert(fields_model(fields@) =~= Seq::empty());
    put(&mut fields, "name", write_text(&c.name));
    put(&mut fields, "source_field", write_text(&c.source_field));
    match &c.target_field {
        Some(x) => {
            put(&mut fields, "target_field", write_text(x));
        },
        None => {},
    }
    put(&mut fields, "transformation", write_transformation_type(&c.transformation));
    match &c.condition {
        Some(x) => {
            put(&mut fields, "condition", write_condition_config(x));
        },
        None => {},
    }
    JsonValue::Object(fields)
}

/// What an object built as the encoding of a transformation rule holds: its
/// fields and no others, each once, and under each name the value that was
/// given for it.
proof fn lemma_transformation_config_pairs(
    f0: JsonModel,
    f1: JsonModel,
    f2: Option<JsonModel>,
    f3: JsonModel,
    f4: Option<JsonModel>,
)
    ensures
        only_transformation_config_fields(transformation_config_pairs(f0, f1, f2, f3, f4)),
        present(transformation_config_pairs(f0, f1, f2, f3, f4), "name"@),
        member(transformation_config_pairs(f0, f1, f2, f3, f4), "name"@) == f0,
        present(transformation_config_pairs(f0, f1, f2, f3, f4), "source_field"@),
        member(transformation_config_pairs(f0, f1, f2, f3, f4), "source_field"@) == f1,
        present(transformation_config_pairs(f0, f1, f2, f3, f4), "target_field"@) == (f2 is Some),
        f2 is Some ==> member(
            transformation_config_pairs(f0, f1, f2, f3, f4),
            "target_field"@,
        ) == f2->0,
        present(transformation_config_pairs(f0, f1, f2, f3, f4), "transformation"@),
        member(transformation_config_pairs(f0, f1, f2, f3, f4), "transformation"@) == f3,
        present(transformation_config_pairs(f0, f1, f2, f3, f4), "condition"@) == (f4 is Some),
        f4 is Some ==> member(
            transformation_config_pairs(f0, f1, f2, f3, f4),
            "condition"@,
        ) == f4->0,
{
    broadcast use {lemma_present_none, lemma_added, lemma_added_other};
    reveal_strlit("name");
    reveal_strlit("source_field");
    reveal_strlit("target_field");
    reveal_strlit("transformation");
    reveal_strlit("condition");
    assert("name"@.len() != "source_field"@.len());
    assert("name"@.len() != "target_field"@.len());
    assert("name"@.len() != "transformation"@.len());
    assert("name"@.len() != "condition"@.len());
    assert("source_field"@[0] != "target_field"@[0]);
    assert("source_field"@.len() != "transformation"@.len());
    assert("source_field"@.len() != "condition"@.len());
    assert("target_field"@.len() != "transformation"@.len());
    assert("target_field"@.len() != "condition"@.len());
    assert("transformation"@.len() != "condition"@.len());
    let s0: Pairs = Seq::empty();
    let s1 = with_field(s0, "name"@, Some(f0));
    lemma_with_field_distinct(s0, "name"@, Some(f0));
    let s2 = with_field(s1, "source_field"@, Some(f1));
    lemma_with_field_distinct(s1, "source_field"@, Some(f1));
    let s3 = with_field(s2, "target_field"@, f2);
    lemma_with_field_distinct(s2, "target_field"@, f2);
    let s4 = with_field(s3, "transformation"@, Some(f3));
    lemma_with_field_distinct(s3, "transformation"@, Some(f3));
    let s5 = with_field(s4, "condition"@, f4);
    lemma_with_field_distinct(s4, "condition"@, f4);
    assert forall|i: int| 0 <= i < s5.len() implies is_transformation_config_field(
        (#[trigger] s5[i]).0,
    ) by {
        lemma_name_present(s5, i);
    }
    assert(transformation_config_pairs(f0, f1, f2, f3, f4) == s5);
}

/// The fields of the encoding of a transformation rule are in normal form.
pub proof fn lemma_transformation_config_fields(c: TransformationConfig)
    ensures
        norm_transformation_config_fields(
            encode_transformation_config_fields(c)
        ) == Some(encode_transformation_config_fields(c)),
{
    lemma_transformation_type(c.transformation);
    if c.condition is Some {
        lemma_condition_config(c.condition->0);
    }
    lemma_transformation_config_pairs(
        encode_text(c.name@),
        encode_text(c.source_field@),
        match c.target_field { Some(x) => Some(encode_text(x@)), None => None },
        encode_transformation_type(c.transformation),
        match c.condition { Some(x) => Some(encode_condition_config(x)), None => None },
    );
}

/// The normal form of the fields of a transformation rule is the fields
/// themselves but for their order.
pub proof fn lemma_transformation_config_fields_same(pairs: Pairs)
    requires
        norm_transformation_config_fields(pairs) is Some,
    ensures
        json_same(
            JsonModel::Object(norm_transformation_config_fields(pairs)->0),
            JsonModel::Object(pairs),
        ),
{
    let normal = norm_transformation_config_fields(pairs)->0;
    if present(pairs, "name"@) {
        lemma_json_same_itself(member(pairs, "name"@));
    }
    if present(pairs, "source_field"@) {
        lemma_json_same_itself(member(pairs, "source_field"@));
    }
    if present(pairs, "target_field"@) {
        lemma_json_same_itself(member(pairs, "target_field"@));
    }
    if present(pairs, "transformation"@) {
        lemma_transformation_type_same(member(pairs, "transformation"@));
    }
    if present(pairs, "condition"@) {
        lemma_condition_config_same(member(pairs, "condition"@));
    }
    lemma_transformation_config_pairs(
        norm_string(member(pairs, "name"@))->0,
        norm_string(member(pairs, "source_field"@))->0,
        optional(pairs, "target_field"@, norm_string(member(pairs, "target_field"@)))->0,
        norm_transformation_type(member(pairs, "transformation"@))->0,
        optional(pairs, "condition"@, norm_condition_config(member(pairs, "condition"@)))->0,
    );
    assert forall|name: Seq<char>| #[trigger] present(normal, name) == present(pairs, name) by {
        if present(pairs, name) {
            lemma_present_place(pairs, name);
        }
        if present(normal, name) {
            lemma_present_place(normal, name);
        }
    }
    assert forall|name: Seq<char>| #[trigger] present(normal, name) implies json_same(
        member(normal, name),
        member(pairs, name),
    ) by {
        lemma_present_place(normal, name);
    }
    lemma_same_objects(normal, pairs);
}

/// The encoding of a transformation rule is in normal form.
pub proof fn lemma_transformation_config(c: TransformationConfig)
    ensures
        norm_transformation_config(
            encode_transformation_config(c)
        ) == Some(encode_transformation_config(c)),
{
    lemma_transformation_config_fields(c);
}

/// The normal form of the encoding of a transformation rule is the encoding
/// itself but for the order of fields.
pub proof fn lemma_transformation_config_same(json: JsonModel)
    requires
        norm_transformation_config(json) is Some,
    ensures
        json_same(norm_transformation_config(json)->0, json),
{
    lemma_transformation_config_fields_same(json->Object_0);
}

/// Whether two descriptions of a transformation rule hold the same values in
/// every field.
pub open spec fn same_transformation_config(
    a: TransformationConfig,
    b: TransformationConfig,
) -> bool {
    a.name@ == b.name@
    && a.source_field@ == b.source_field@
    && (match (a.target_field, b.target_field) {
        (Some(x), Some(y)) => x@ == y@,
        (None, None) => true,
        _ => false,
    })
    && same_transformation_type(a.transformation, b.transformation)
    && (match (a.condition, b.condition) {
        (Some(x), Some(y)) => same_condition_config(x, y),
        (None, None) => true,
        _ => false,
    })
}

/// Two descriptions of a transformation rule with the same encoding hold the
/// same values.
pub proof fn lemma_transformation_config_one(a: TransformationConfig, b: TransformationConfig)
    requires
        encode_transformation_config(a) == encode_transformation_config(b),
    ensures
        same_transformation_config(a, b),
{
    lemma_transformation_config_pairs(
        encode_text(a.name@),
        encode_text(a.source_field@),
        match a.target_field { Some(x) => Some(encode_text(x@)), None => None },
        encode_transformation_type(a.transformation),
        match a.condition { Some(x) => Some(encode_condition_config(x)), None => None },
    );
    lemma_transformation_config_pairs(
        encode_text(b.name@),
        encode_text(b.source_field@),
        match b.target_field { Some(x) => Some(encode_text(x@)), None => None },
        encode_transformation_type(b.transformation),
        match b.condition { Some(x) => Some(encode_condition_config(x)), None => None },
    );
    assert(encode_transformation_config_fields(a) == encode_transformation_config_fields(b));
    lemma_transformation_type_one(a.transformation, b.transformation);
    if a.condition is Some && b.condition is Some {
        lemma_condition_config_one(a.condition->0, b.condition->0);
    }
}

/// The encoding of a list: the encodings of its items, in order.
pub open spec fn encode_transformation_config_list(list: Seq<TransformationConfig>) -> JsonModel {
    JsonModel::Array(Seq::new(list.len(), |i: int| encode_transformation_config(list[i])))
}

/// The normal form of the encoding of a list: the normal forms of its items,
/// where every item has one.
pub open spec fn norm_transformation_config_list(json: JsonModel) -> Option<JsonModel> {
    match json {
        JsonModel::Array(items) => if forall|i: int|
            0 <= i < items.len() ==> norm_transformation_config(#[trigger] items[i]) is Some {
            Some(
                JsonModel::Array(
                    Seq::new(items.len(), |i: int| norm_transformation_config(items[i])->0),
                ),
            )
        } else {
            None
        },
        _ => None,
    }
}

/// Reads a list, item by item.
pub fn decode_transformation_config_list(
    json: &JsonValue,
    at: &str,
) -> (r: Result<Vec<TransformationConfig>>)
    ensures
        decoded(r, norm_transformation_config_list(json@)),
        r matches Ok(
            list
        ) ==> Some(
            encode_transformation_config_list(list@)
        ) == norm_transformation_config_list(json@),
{
    match json {
        JsonValue::Array(items) => {
            proof {
                lemma_items_model(items@);
            }
            let mut list: Vec<TransformationConfig> = Vec::new();
            let mut i: usize = 0;
            while i < items.len()
                invariant
                    i <= items.len(),
                    list.len() == i,
                    json@ == JsonModel::Array(items_model(items@)),
                    items_model(items@).len() == items.len(),
                    forall|k: int|
                        0 <= k < items.len() ==> #[trigger] items_model(items@)[k]
                            == items[k]@,
                    forall|k: int|
                        0 <= k < i ==> norm_transformation_config(
                            #[trigger] items_model(items@)[k],
                        ) == Some(encode_transformation_config(list[k])),
                decreases items.len() - i,
            {
                match decode_transformation_config(&items[i], at) {
                    Ok(item) => {
                        list.push(item);
                    },
                    Err(e) => {
                        assert(norm_transformation_config(items_model(items@)[i as int]) is None);
                        return Err(e);
                    },
                }
                i += 1;
            }
            assert(encode_transformation_config_list(list@)->Array_0 =~= norm_transformation_config_list(
                json@,
            )->0->Array_0);
            Ok(list)
        },
        _ => Err(invalid(at)),
    }
}

/// Writes a list, item by item.
pub fn write_transformation_config_list(list: &Vec<TransformationConfig>) -> (r: JsonValue)
    ensures
        r@ == encode_transformation_config_list(list@),
{
    let mut items: Vec<JsonValue> = Vec::new();
    let mut i: usize = 0;
    while i < list.len()
        invariant
            i <= list.len(),
            items.len() == i,
            forall|k: int| 0 <= k < i ==> (
                #[trigger] items[k]
            )@ == encode_transformation_config(list[k]),
        decreases list.len() - i,
    {
        items.push(write_transformation_config(&list[i]));
        i += 1;
    }
    proof {
        lemma_items_model(items@);
        assert(items_model(items@) =~= encode_transformation_config_list(list@)->Array_0);
    }
    JsonValue::Array(items)
}

/// The encoding of a list is in normal form.
pub proof fn lemma_transformation_config_list(list: Seq<TransformationConfig>)
    ensures
        norm_transformation_config_list(
            encode_transformation_config_list(list)
        ) == Some(encode_transformation_config_list(list)),
{
    let items = encode_transformation_config_list(list)->Array_0;
    assert forall|i: int| 0 <= i < items.len() implies norm_transformation_config(
        #[trigger] items[i],
    ) == Some(items[i]) by {
        lemma_transformation_config(list[i]);
    }
    assert(
        norm_transformation_config_list(
            encode_transformation_config_list(list)
        )->0->Array_0 =~= items
    );
}

/// The normal form of the encoding of a list is the encoding itself but for
/// the order of fields.
pub proof fn lemma_transformation_config_list_same(json: JsonModel)
    requires
        norm_transformation_config_list(json) is Some,
    ensures
        json_same(norm_transformation_config_list(json)->0, json),
{
    let items = json->Array_0;
    let normal = norm_transformation_config_list(json)->0->Array_0;
    assert forall|i: int| 0 <= i < normal.len() implies json_same(
        #[trigger] normal[i],
        items[i],
    ) by {
        lemma_transformation_config_same(items[i]);
    }
    lemma_same_arrays(normal, items);
}

/// Whether two lists are as long as each other and hold the same values at
/// every place.
pub open spec fn same_transformation_config_list(
    a: Seq<TransformationConfig>,
    b: Seq<TransformationConfig>,
) -> bool {
    a.len() == b.len() && forall|i: int| 0 <= i < a.len() ==> same_transformation_config(#[trigger] a[i], b[i])
}

/// Two lists with the same encoding hold the same values.
pub proof fn lemma_transformation_config_list_one(
    a: Seq<TransformationConfig>,
    b: Seq<TransformationConfig>,
)
    requires
        encode_transformation_config_list(a) == encode_transformation_config_list(b),
    ensures
        same_transformation_config_list(a, b),
{
    let x = encode_transformation_config_list(a)->Array_0;
    let y = encode_transformation_config_list(b)->Array_0;
    assert(x.len() == a.len() && y.len() == b.len());
    assert forall|i: int| 0 <= i < a.len() implies same_transformation_config(#[trigger] a[i], b[i]) by {
        assert(x[i] == encode_transformation_config(a[i]));
        assert(y[i] == encode_transformation_config(b[i]));
        lemma_transformation_config_one(a[i], b[i]);
    }
}

} // verus!
