use crate::config::codec::{
    decode_string, decoded, distinct_names, encode_text, field_of, field_path, invalid,
    json_same, lemma_added, lemma_added_other, lemma_json_same_itself, lemma_name_present,
    lemma_present_none, lemma_present_place, lemma_same_objects, lemma_with_field_distinct,
    member, names_distinct, norm_string, optional, Pairs, present, put, required, with_field,
    write_text,
};
use crate::config::codec_output::{
    decode_global_settings, decode_output_config, encode_global_settings, encode_output_config,
    lemma_global_settings, lemma_global_settings_one, lemma_global_settings_same,
    lemma_output_config, lemma_output_config_one, lemma_output_config_same, norm_global_settings,
    norm_output_config, same_global_settings, same_output_config, write_global_settings,
    write_output_config,
};
use crate::config::codec_rules::{
    decode_transformation_config_list, encode_transformation_config_list,
    lemma_transformation_config_list, lemma_transformation_config_list_one,
    lemma_transformation_config_list_same, norm_transformation_config_list,
    same_transformation_config_list, write_transformation_config_list,
};
use crate::config::codec_source::{
    decode_data_source_config, encode_data_source_config, lemma_data_source_config,
    lemma_data_source_config_one, lemma_data_source_config_same, norm_data_source_config,
    same_data_source_config, write_data_source_config,
};
use crate::config::settings::{EtlConfig};
use crate::models::json::{
    fields_model, json_pretty_text, json_text_value, JsonModel, JsonValue, lemma_fields_model,
    parse_json_text, write_json_pretty_text,
};
use crate::utils::error::{EtlError, Result};
use crate::utils::text::{text_eq};
use vstd::prelude::*;
use vstd::string::StringExecFns;

verus! {

/// The fields of the encoding of a pipeline definition, from the encodings of
/// its fields: a field that may be absent is left out where it is.
pub open spec fn etl_config_pairs(
    f0: JsonModel,
    f1: Option<JsonModel>,
    f2: JsonModel,
    f3: JsonModel,
    f4: JsonModel,
    f5: Option<JsonModel>,
) -> Pairs {
    let pairs: Pairs = Seq::empty();
    let pairs = with_field(pairs, "name"@, Some(f0));
    let pairs = with_field(pairs, "description"@, f1);
    let pairs = with_field(pairs, "data_source"@, Some(f2));
    let pairs = with_field(pairs, "transformations"@, Some(f3));
    let pairs = with_field(pairs, "output"@, Some(f4));
    let pairs = with_field(pairs, "settings"@, f5);
    pairs
}

/// Whether a name is the name of a field of a pipeline definition.
pub open spec fn is_etl_config_field(name: Seq<char>) -> bool {
    name == "name"@
        || name == "description"@
        || name == "data_source"@
        || name == "transformations"@
        || name == "output"@
        || name == "settings"@
}

/// Whether every field of an object is a field of a pipeline definition, and
/// none stands twice.
pub open spec fn only_etl_config_fields(pairs: Pairs) -> bool {
    distinct_names(pairs) && forall|i: int|
        0 <= i < pairs.len() ==> is_etl_config_field((#[trigger] pairs[i]).0)
}

/// The fields of the encoding of a pipeline definition.
pub open spec fn encode_etl_config_fields(c: EtlConfig) -> Pairs {
    etl_config_pairs(
        encode_text(c.name@),
        match c.description {
            Some(x) => Some(encode_text(x@)),
            None => None,
        },
        encode_data_source_config(c.data_source),
        encode_transformation_config_list(c.transformations@),
        encode_output_config(c.output),
        match c.settings {
            Some(x) => Some(encode_global_settings(x)),
            None => None,
        },
    )
}

/// The encoding of a pipeline definition: an object with one field for each
/// of its fields that is there, in their order.
pub open spec fn encode_etl_config(c: EtlConfig) -> JsonModel {
    JsonModel::Object(encode_etl_config_fields(c))
}

/// The normal form of the fields of a pipeline definition: every field is one
/// of its fields and stands once, every field that must be there is there,
/// and every value is in normal form. Nothing where that is not so.
pub open spec fn norm_etl_config_fields(pairs: Pairs) -> Option<Pairs> {
    if !only_etl_config_fields(pairs) {
        None
    } else {
        match (
            required(pairs, "name"@, norm_string(member(pairs, "name"@))),
            optional(pairs, "description"@, norm_string(member(pairs, "description"@))),
            required(pairs, "data_source"@, norm_data_source_config(member(pairs, "data_source"@))),
            required(
                pairs,
                "transformations"@,
                norm_transformation_config_list(member(pairs, "transformations"@)),
            ),
            required(pairs, "output"@, norm_output_config(member(pairs, "output"@))),
            optional(pairs, "settings"@, norm_global_settings(member(pairs, "settings"@))),
        ) {
            (Some(f0), Some(f1), Some(f2), Some(f3), Some(f4), Some(f5)) => Some(
                etl_config_pairs(f0, f1, f2, f3, f4, f5),
            ),
            _ => None,
        }
    }
}

/// The normal form of the encoding of a pipeline definition: its fields in
/// their order, each in normal form.
pub open spec fn norm_etl_config(json: JsonModel) -> Option<JsonModel> {
    match json {
        JsonModel::Object(pairs) => match norm_etl_config_fields(pairs) {
            Some(normal) => Some(JsonModel::Object(normal)),
            None => None,
        },
        _ => None,
    }
}

/// Reads a pipeline definition.
pub fn decode_etl_config(json: &JsonValue, at: &str) -> (r: Result<EtlConfig>)
    ensures
        decoded(r, norm_etl_config(json@)),
        r matches Ok(c) ==> Some(encode_etl_config(c)) == norm_etl_config(json@),
{
    let fields = match json {
        JsonValue::Object(fields) => fields,
        _ => {
            return Err(invalid(at));
        },
    };
    proof {
        lemma_fields_model(fields@);
    }
    let mut i: usize = 0;
    while i < fields.len()
        invariant
            i <= fields.len(),
            json@ == JsonModel::Object(fields_model(fields@)),
            fields_model(fields@).len() == fields.len(),
            forall|k: int|
                0 <= k < fields.len() ==> #[trigger] fields_model(fields@)[k] == (
                    fields[k].0@,
                    fields[k].1@,
                ),
            forall|k: int|
                0 <= k < i ==> is_etl_config_field((#[trigger] fields_model(fields@)[k]).0),
        decreases fields.len() - i,
    {
        let name = fields[i].0.as_str();
        let known: bool = text_eq(name, "name")
            || text_eq(name, "description")
            || text_eq(name, "data_source")
            || text_eq(name, "transformations")
            || text_eq(name, "output")
            || text_eq(name, "settings");
        if !known {
            assert(!is_etl_config_field(fields_model(fields@)[i as int].0));
            return Err(invalid(field_path(at, name).as_str()));
        }
        i += 1;
    }
    if !names_distinct(fields) {
        return Err(invalid(at));
    }
    let name = match field_of(fields, "name") {
        Some(value) => match decode_string(value, field_path(at, "name").as_str()) {
            Ok(v) => v,
            Err(e) => {
                return Err(e);
            },
        },
        None => {
            return Err(invalid(field_path(at, "name").as_str()));
        },
    };
    let description = match field_of(fields, "description") {
        Some(value) => match decode_string(value, field_path(at, "description").as_str()) {
            Ok(v) => Some(v),
            Err(e) => {
                return Err(e);
            },
        },
        None => None,
    };
    let data_source = match field_of(fields, "data_source") {
        Some(
            value
        ) => match decode_data_source_config(value, field_path(at, "data_source").as_str()) {
            Ok(v) => v,
            Err(e) => {
                return Err(e);
            },
        },
        None => {
            return Err(invalid(field_path(at, "data_source").as_str()));
        },
    };
    let transformations = match field_of(fields, "transformations") {
        Some(
            value
        ) => match decode_transformation_config_list(
            value,
            field_path(at, "transformations").as_str(),
        ) {
            Ok(v) => v,
            Err(e) => {
                return Err(e);
            },
        },
        None => {
            return Err(invalid(field_path(at, "transformations").as_str()));
        },
    };
    let output = match field_of(fields, "output") {
        Some(value) => match decode_output_config(value, field_path(at, "output").as_str()) {
            Ok(v) => v,
            Err(e) => {
                return Err(e);
            },
        },
        None => {
            return Err(invalid(field_path(at, "output").as_str()));
        },
    };
    let settings = match field_of(fields, "settings") {
        Some(value) => match decode_global_settings(value, field_path(at, "settings").as_str()) {
            Ok(v) => Some(v),
            Err(e) => {
                return Err(e);
            },
        },
        None => None,
    };
    Ok(EtlConfig { name, description, data_source, transformations, output, settings })
}

/// Writes a pipeline definition.
pub fn write_etl_config(c: &EtlConfig) -> (r: JsonValue)
    ensures
        r@ == encode_etl_config(*c),
{
    let mut fields: Vec<(String, JsonValue)> = Vec::new();
    assert(fields_model(fields@) =~= Seq::empty());
    put(&mut fields, "name", write_text(&c.name));
    match &c.description {
        Some(x) => {
            put(&mut fields, "description", write_text(x));
        },
        None => {},
    }
    put(&mut fields, "data_source", write_data_source_config(&c.data_source));
    put(&mut fields, "transformations", write_transformation_config_list(&c.transformations));
    put(&mut fields, "output", write_output_config(&c.output));
    match &c.settings {
        Some(x) => {
            put(&mut fields, "settings", write_global_settings(x));
        },
        None => {},
    }
    JsonValue::Object(fields)
}

/// What an object built as the encoding of a pipeline definition holds: its
/// fields and no others, each once, and under each name the value that was
/// given for it.
proof fn lemma_etl_config_pairs(
    f0: JsonModel,
    f1: Option<JsonModel>,
    f2: JsonModel,
    f3: JsonModel,
    f4: JsonModel,
    f5: Option<JsonModel>,
)
    ensures
        only_etl_config_fields(etl_config_pairs(f0, f1, f2, f3, f4, f5)),
        present(etl_config_pairs(f0, f1, f2, f3, f4, f5), "name"@),
        member(etl_config_pairs(f0, f1, f2, f3, f4, f5), "name"@) == f0,
        present(etl_config_pairs(f0, f1, f2, f3, f4, f5), "description"@) == (f1 is Some),
        f1 is Some ==> member(etl_config_pairs(f0, f1, f2, f3, f4, f5), "description"@) == f1->0,
        present(etl_config_pairs(f0, f1, f2, f3, f4, f5), "data_source"@),
        member(etl_config_pairs(f0, f1, f2, f3, f4, f5), "data_source"@) == f2,
        present(etl_config_pairs(f0, f1, f2, f3, f4, f5), "transformations"@),
        member(etl_config_pairs(f0, f1, f2, f3, f4, f5), "transformations"@) == f3,
        present(etl_config_pairs(f0, f1, f2, f3, f4, f5), "output"@),
        member(etl_config_pairs(f0, f1, f2, f3, f4, f5), "output"@) == f4,
        present(etl_config_pairs(f0, f1, f2, f3, f4, f5), "settings"@) == (f5 is Some),
        f5 is Some ==> member(etl_config_pairs(f0, f1, f2, f3, f4, f5), "settings"@) == f5->0,
{
    broadcast use {lemma_present_none, lemma_added, lemma_added_other};
    reveal_strlit("name");
    reveal_strlit("description");
    reveal_strlit("data_source");
    reveal_strlit("transformations");
    reveal_strlit("output");
    reveal_strlit("settings");
    assert("name"@.len() != "description"@.len());
    assert("name"@.len() != "data_source"@.len());
    assert("name"@.len() != "transformations"@.len());
    assert("name"@.len() != "output"@.len());
    assert("name"@.len() != "settings"@.len());
    assert("description"@[1] != "data_source"@[1]);
    assert("description"@.len() != "transformations"@.len());
    assert("description"@.len() != "output"@.len());
    assert("description"@.len() != "settings"@.len());
    assert("data_source"@.len() != "transformations"@.len());
    assert("data_source"@.len() != "output"@.len());
    assert("data_source"@.len() != "settings"@.len());
    assert("transformations"@.len() != "output"@.len());
    assert("transformations"@.len() != "settings"@.len());
    assert("output"@.len() != "settings"@.len());
    let s0: Pairs = Seq::empty();
    let s1 = with_field(s0, "name"@, Some(f0));
    lemma_with_field_distinct(s0, "name"@, Some(f0));
    let s2 = with_field(s1, "description"@, f1);
    lemma_with_field_distinct(s1, "description"@, f1);
    let s3 = with_field(s2, "data_source"@, Some(f2));
    lemma_with_field_distinct(s2, "data_source"@, Some(f2));
    let s4 = with_field(s3, "transformations"@, Some(f3));
    lemma_with_field_distinct(s3, "transformations"@, Some(f3));
    let s5 = with_field(s4, "output"@, Some(f4));
    lemma_with_field_distinct(s4, "output"@, Some(f4));
    let s6 = with_field(s5, "settings"@, f5);
    lemma_with_field_distinct(s5, "settings"@, f5);
    assert forall|i: int| 0 <= i < s6.len() implies is_etl_config_field(
        (#[trigger] s6[i]).0,
    ) by {
        lemma_name_present(s6, i);
    }
    assert(etl_config_pairs(f0, f1, f2, f3, f4, f5) == s6);
}

/// The fields of the encoding of a pipeline definition are in normal form.
pub proof fn lemma_etl_config_fields(c: EtlConfig)
    ensures
        norm_etl_config_fields(encode_etl_config_fields(c)) == Some(encode_etl_config_fields(c)),
{
    lemma_data_source_config(c.data_source);
    lemma_transformation_config_list(c.transformations@);
    lemma_output_config(c.output);
    if c.settings is Some {
        lemma_global_settings(c.settings->0);
    }
    lemma_etl_config_pairs(
        encode_text(c.name@),
        match c.description { Some(x) => Some(encode_text(x@)), None => None },
        encode_data_source_config(c.data_source),
        encode_transformation_config_list(c.transformations@),
        encode_output_config(c.output),
        match c.settings { Some(x) => Some(encode_global_settings(x)), None => None },
    );
}

/// The normal form of the fields of a pipeline definition is the fields
/// themselves but for their order.
pub proof fn lemma_etl_config_fields_same(pairs: Pairs)
    requires
        norm_etl_config_fields(pairs) is Some,
    ensures
        json_same(
            JsonModel::Object(norm_etl_config_fields(pairs)->0),
            JsonModel::Object(pairs),
        ),
{
    let normal = norm_etl_config_fields(pairs)->0;
    if present(pairs, "name"@) {
        lemma_json_same_itself(member(pairs, "name"@));
    }
    if present(pairs, "description"@) {
        lemma_json_same_itself(member(pairs, "description"@));
    }
    if present(pairs, "data_source"@) {
        lemma_data_source_config_same(member(pairs, "data_source"@));
    }
    if present(pairs, "transformations"@) {
        lemma_transformation_config_list_same(member(pairs, "transformations"@));
    }
    if present(pairs, "output"@) {
        lemma_output_config_same(member(pairs, "output"@));
    }
    if present(pairs, "settings"@) {
        lemma_global_settings_same(member(pairs, "settings"@));
    }
    lemma_etl_config_pairs(
        norm_string(member(pairs, "name"@))->0,
        optional(pairs, "description"@, norm_string(member(pairs, "description"@)))->0,
        norm_data_source_config(member(pairs, "data_source"@))->0,
        norm_transformation_config_list(member(pairs, "transformations"@))->0,
        norm_output_config(member(pairs, "output"@))->0,
        optional(pairs, "settings"@, norm_global_settings(member(pairs, "settings"@)))->0,
    );
    assert forall|name: Seq<char>| #[trigger] present(normal, name) == present(pairs, name) by {
        if present(pairs, name) {
            lemma_present_place(pairs, name);
        }
        if present(normal, name) {
            lemma_present_place(normal, name);
        }
    }
    assert forall|name: Seq<char>| #[trigger] present(normal, name) implies json_same(
        member(normal, name),
        member(pairs, name),
    ) by {
        lemma_present_place(normal, name);
    }
    lemma_same_objects(normal, pairs);
}

/// The encoding of a pipeline definition is in normal form.
pub proof fn lemma_etl_config(c: EtlConfig)
    ensures
        norm_etl_config(encode_etl_config(c)) == Some(encode_etl_config(c)),
{
    lemma_etl_config_fields(c);
}

/// The normal form of the encoding of a pipeline definition is the encoding
/// itself but for the order of fields.
pub proof fn lemma_etl_config_same(json: JsonModel)
    requires
        norm_etl_config(json) is Some,
    ensures
        json_same(norm_etl_config(json)->0, json),
{
    lemma_etl_config_fields_same(json->Object_0);
}

/// Whether two descriptions of a pipeline definition hold the same values in
/// every field.
pub open spec fn same_etl_config(a: EtlConfig, b: EtlConfig) -> bool {
    a.name@ == b.name@
    && (match (a.description, b.description) {
        (Some(x), Some(y)) => x@ == y@,
        (None, None) => true,
        _ => false,
    })
    && same_data_source_config(a.data_source, b.data_source)
    && same_transformation_config_list(a.transformations@, b.transformations@)
    && same_output_config(a.output, b.output)
    && (match (a.settings, b.settings) {
        (Some(x), Some(y)) => same_global_settings(x, y),
        (None, None) => true,
        _ => false,
    })
}

/// Two descriptions of a pipeline definition with the same encoding hold the
/// same values.
pub proof fn lemma_etl_config_one(a: EtlConfig, b: EtlConfig)
    requires
        encode_etl_config(a) == encode_etl_config(b),
    ensures
        same_etl_config(a, b),
{
    lemma_etl_config_pairs(
        encode_text(a.name@),
        match a.description { Some(x) => Some(encode_text(x@)), None => None },
        encode_data_source_config(a.data_source),
        encode_transformation_config_list(a.transformations@),
        encode_output_config(a.output),
        match a.settings { Some(x) => Some(encode_global_settings(x)), None => None },
    );
    lemma_etl_config_pairs(
        encode_text(b.name@),
        match b.description { Some(x) => Some(encode_text(x@)), None => None },
        encode_data_source_config(b.data_source),
        encode_transformation_config_list(b.transformations@),
        encode_output_config(b.output),
        match b.settings { Some(x) => Some(encode_global_settings(x)), None => None },
    );
    assert(encode_etl_config_fields(a) == encode_etl_config_fields(b));
    lemma_data_source_config_one(a.data_source, b.data_source);
    lemma_transformation_config_list_one(a.transformations@, b.transformations@);
    lemma_output_config_one(a.output, b.output);
    if a.settings is Some && b.settings is Some {
        lemma_global_settings_one(a.settings->0, b.settings->0);
    }
}

/// A pipeline definition that is written out and read back is the same
/// definition: its encoding is in normal form, so reading it gives a
/// definition with that very encoding.
pub proof fn law_config_round_trip(c: EtlConfig)
    ensures
        norm_etl_config(encode_etl_config(c)) == Some(encode_etl_config(c)),
{
    lemma_etl_config(c);
}

/// A pipeline definition that is read and written again is the input
/// itself, up to the order of the fields of its objects: every value that
/// is read as a definition has a normal form, which is what is written, and
/// that normal form holds the same fields with the same values.
pub proof fn law_written_again_is_the_input(json: JsonModel)
    requires
        norm_etl_config(json) is Some,
    ensures
        json_same(norm_etl_config(json)->0, json),
{
    lemma_etl_config_same(json);
}

/// Two pipeline definitions with the same encoding hold the same values in
/// every field: the encoding leaves nothing of a definition out.
pub proof fn law_encoding_tells_definitions_apart(a: EtlConfig, b: EtlConfig)
    requires
        encode_etl_config(a) == encode_etl_config(b),
    ensures
        same_etl_config(a, b),
{
    lemma_etl_config_one(a, b);
}

/// A pipeline definition that is written out and read back holds the same
/// values in every field as the one that was written: whatever definition
/// reading the encoding gives, it is that one.
pub proof fn law_read_back_is_what_was_written(written: EtlConfig, read: EtlConfig)
    requires
        Some(encode_etl_config(read)) == norm_etl_config(encode_etl_config(written)),
    ensures
        same_etl_config(read, written),
{
    lemma_etl_config(written);
    lemma_etl_config_one(read, written);
}

/// What reading a text as a pipeline definition gives: the normal form of
/// the JSON value that the text writes, or nothing where the text is no
/// JSON or the value is no pipeline definition.
pub open spec fn parsed_config(text: Seq<char>) -> Option<JsonModel> {
    match json_text_value(text) {
        Some(json) => norm_etl_config(json),
        None => None,
    }
}

impl EtlConfig {
    /// Reads a pipeline definition from a JSON value. A field that may be
    /// absent is read as nothing where it is absent; a null in its place, a
    /// field of an unknown name and a name that stands twice are refused.
    pub fn from_json(json: &JsonValue) -> (r: Result<EtlConfig>)
        ensures
            decoded(r, norm_etl_config(json@)),
            r matches Ok(c) ==> Some(encode_etl_config(c)) == norm_etl_config(json@),
    {
        decode_etl_config(json, "config")
    }

    /// Writes a pipeline definition as a JSON value. A field that holds
    /// nothing is left out.
    pub fn to_json(&self) -> (r: JsonValue)
        ensures
            r@ == encode_etl_config(*self),
    {
        write_etl_config(self)
    }

    /// Reads a pipeline definition from JSON text: a text that is no JSON
    /// is one error, a JSON value that is no pipeline definition another.
    pub fn parse(text: &str) -> (r: Result<EtlConfig>)
        ensures
            json_text_value(text@) is None ==> r matches Err(EtlError::JsonError(_)),
            json_text_value(text@) is Some ==> decoded(r, parsed_config(text@)),
            r matches Ok(c) ==> Some(encode_etl_config(c)) == parsed_config(text@),
    {
        match parse_json_text(text) {
            Ok(json) => Self::from_json(&json),
            Err(e) => Err(EtlError::JsonError(e)),
        }
    }

    /// Writes a pipeline definition as indented JSON text.
    pub fn serialize(&self) -> (r: Result<String>)
        ensures
            match r {
                Ok(text) => json_pretty_text(encode_etl_config(*self)) == Some(text@),
                Err(e) => e is JsonError && json_pretty_text(encode_etl_config(*self)) is None,
            },
    {
        match write_json_pretty_text(&self.to_json()) {
            Ok(text) => Ok(text),
            Err(e) => Err(EtlError::JsonError(e)),
        }
    }
}

} // verus!
