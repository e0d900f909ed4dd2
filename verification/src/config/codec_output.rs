use crate::config::codec::{
    decode_bool, decode_char, decode_string, decode_table, decode_u64, decode_usize, decoded,
    distinct_names, encode_char, encode_count, encode_flag, encode_table, encode_text, field_of,
    field_path, invalid, json_same, lemma_added, lemma_added_other, lemma_all_covered,
    lemma_all_found, lemma_char_one, lemma_covered, lemma_found, lemma_json_same_itself,
    lemma_name_present, lemma_present_none, lemma_present_place, lemma_same_objects, lemma_table,
    lemma_table_one, lemma_with_field_distinct, member, names_distinct, norm_char, norm_count,
    norm_flag, norm_string, norm_table, optional, Pairs, present, put, required, table_texts,
    with_field, write_bool, write_char, write_count, write_table, write_text,
};
use crate::config::codec_enums::{
    decode_compression_type, decode_database_driver, decode_write_mode, encode_compression_type,
    encode_database_driver, encode_write_mode, lemma_compression_type,
    lemma_compression_type_one, lemma_database_driver, lemma_database_driver_one,
    lemma_write_mode, lemma_write_mode_one, norm_compression_type, norm_database_driver,
    norm_write_mode, write_compression_type, write_database_driver, write_write_mode,
};
use crate::config::codec_source::{
    decode_auth_config, decode_aws_credentials, encode_auth_config, encode_aws_credentials,
    lemma_auth_config, lemma_auth_config_one, lemma_auth_config_same, lemma_aws_credentials,
    lemma_aws_credentials_one, lemma_aws_credentials_same, norm_auth_config,
    norm_aws_credentials, same_auth_config, same_aws_credentials, write_auth_config,
    write_aws_credentials,
};
use crate::config::settings::{
    GlobalSettings, OutputConfig, OutputDestination, OutputFormat, OutputOptions,
};
use crate::models::json::{fields_model, JsonModel, JsonValue, lemma_fields_model};
use crate::utils::error::{EtlError, Result};
use crate::utils::text::{text_eq};
use vstd::prelude::*;
use vstd::string::StringExecFns;

verus! {

/// The fields of the encoding of the options of an output, from the encodings
/// of its fields: a field that may be absent is left out where it is.
pub open spec fn output_options_pairs(
    f0: Option<JsonModel>,
    f1: Option<JsonModel>,
    f2: Option<JsonModel>,
    f3: Option<JsonModel>,
) -> Pairs {
    let pairs: Pairs = Seq::empty();
    let pairs = with_field(pairs, "batch_size"@, f0);
    let pairs = with_field(pairs, "max_file_size"@, f1);
    let pairs = with_field(pairs, "split_by_field"@, f2);
    let pairs = with_field(pairs, "filename_template"@, f3);
    pairs
}

/// Whether a name is the name of a field of the options of an output.
pub open spec fn is_output_options_field(name: Seq<char>) -> bool {
    name == "batch_size"@
        || name == "max_file_size"@
        || name == "split_by_field"@
        || name == "filename_template"@
}

/// Whether every field of an object is a field of the options of an output,
/// and none stands twice.
pub open spec fn only_output_options_fields(pairs: Pairs) -> bool {
    distinct_names(pairs) && forall|i: int|
        0 <= i < pairs.len() ==> is_output_options_field((#[trigger] pairs[i]).0)
}

/// The fields of the encoding of the options of an output.
pub open spec fn encode_output_options_fields(c: OutputOptions) -> Pairs {
    output_options_pairs(
        match c.batch_size {
            Some(x) => Some(encode_count(x as int)),
            None => None,
        },
        match c.max_file_size {
            Some(x) => Some(encode_count(x as int)),
            None => None,
        },
        match c.split_by_field {
            Some(x) => Some(encode_text(x@)),
            None => None,
        },
        match c.filename_template {
            Some(x) => Some(encode_text(x@)),
            None => None,
        },
    )
}

/// The encoding of the options of an output: an object with one field for
/// each of its fields that is there, in their order.
pub open spec fn encode_output_options(c: OutputOptions) -> JsonModel {
    JsonModel::Object(encode_output_options_fields(c))
}

/// The normal form of the fields of the options of an output: every field is
/// one of its fields and stands once, every field that must be there is
/// there, and every value is in normal form. Nothing where that is not so.
pub open spec fn norm_output_options_fields(pairs: Pairs) -> Option<Pairs> {
    if !only_output_options_fields(pairs) {
        None
    } else {
        match (
            optional(
                pairs,
                "batch_size"@,
                norm_count(member(pairs, "batch_size"@), usize::MAX as int),
            ),
            optional(
                pairs,
                "max_file_size"@,
                norm_count(member(pairs, "max_file_size"@), u64::MAX as int),
            ),
            optional(pairs, "split_by_field"@, norm_string(member(pairs, "split_by_field"@))),
            optional(pairs, "filename_template"@, norm_string(member(pairs, "filename_template"@))),
        ) {
            (Some(f0), Some(f1), Some(f2), Some(f3)) => Some(
                output_options_pairs(f0, f1, f2, f3),
            ),
            _ => None,
        }
    }
}

/// The normal form of the encoding of the options of an output: its fields in
/// their order, each in normal form.
pub open spec fn norm_output_options(json: JsonModel) -> Option<JsonModel> {
    match json {
        JsonModel::Object(pairs) => match norm_output_options_fields(pairs) {
            Some(normal) => Some(JsonModel::Object(normal)),
            None => None,
        },
        _ => None,
    }
}

/// Reads the options of an output.
pub fn decode_output_options(json: &JsonValue, at: &str) -> (r: Result<OutputOptions>)
    ensures
        decoded(r, norm_output_options(json@)),
        r matches Ok(c) ==> Some(encode_output_options(c)) == norm_output_options(json@),
{
    let fields = match json {
        JsonValue::Object(fields) => fields,
        _ => {
            return Err(invalid(at));
        },
    };
    proof {
        lemma_fields_model(fields@);
    }
    let mut i: usize = 0;
    while i < fields.len()
        invariant
            i <= fields.len(),
            json@ == JsonModel::Object(fields_model(fields@)),
            fields_model(fields@).len() == fields.len(),
            forall|k: int|
                0 <= k < fields.len() ==> #[trigger] fields_model(fields@)[k] == (
                    fields[k].0@,
                    fields[k].1@,
                ),
            forall|k: int|
                0 <= k < i ==> is_output_options_field((#[trigger] fields_model(fields@)[k]).0),
        decreases fields.len() - i,
    {
        let name = fields[i].0.as_str();
        let known: bool = text_eq(name, "batch_size")
            || text_eq(name, "max_file_size")
            || text_eq(name, "split_by_field")
            || text_eq(name, "filename_template");
        if !known {
            assert(!is_output_options_field(fields_model(fields@)[i as int].0));
            return Err(invalid(field_path(at, name).as_str()));
        }
        i += 1;
    }
    if !names_distinct(fields) {
        return Err(invalid(at));
    }
    let batch_size = match field_of(fields, "batch_size") {
        Some(value) => match decode_usize(value, field_path(at, "batch_size").as_str()) {
            Ok(v) => Some(v),
            Err(e) => {
                return Err(e);
            },
        },
        None => None,
    };
    let max_file_size = match field_of(fields, "max_file_size") {
        Some(value) => match decode_u64(value, field_path(at, "max_file_size").as_str()) {
            Ok(v) => Some(v),
            Err(e) => {
                return Err(e);
            },
        },
        None => None,
    };
    let split_by_field = match field_of(fields, "split_by_field") {
        Some(value) => match decode_string(value, field_path(at, "split_by_field").as_str()) {
            Ok(v) => Some(v),
            Err(e) => {
                return Err(e);
            },
        },
        None => None,
    };
    let filename_template = match field_of(fields, "filename_template") {
        Some(value) => match decode_string(value, field_path(at, "filename_template").as_str()) {
            Ok(v) => Some(v),
            Err(e) => {
                return Err(e);
            },
        },
        None => None,
    };
    Ok(OutputOptions { batch_size, max_file_size, split_by_field, filename_template })
}

/// Writes the options of an output.
pub fn write_output_options(c: &OutputOptions) -> (r: JsonValue)
    ensures
        r@ == encode_output_options(*c),
{
    let mut fields: Vec<(String, JsonValue)> = Vec::new();
    assert(fields_model(fields@) =~= Seq::empty());
    match &c.batch_size {
        Some(x) => {
            put(&mut fields, "batch_size", write_count(*x as u64));
        },
        None => {},
    }
    match &c.max_file_size {
        Some(x) => {
            put(&mut fields, "max_file_size", write_count(*x));
        },
        None => {},
    }
    match &c.split_by_field {
        Some(x) => {
            put(&mut fields, "split_by_field", write_text(x));
        },
        None => {},
    }
    match &c.filename_template {
        Some(x) => {
            put(&mut fields, "filename_template", write_text(x));
        },
        None => {},
    }
    JsonValue::Object(fields)
}

/// What an object built as the encoding of the options of an output holds:
/// its fields and no others, each once, and under each name the value that
/// was given for it.
proof fn lemma_output_options_pairs(
    f0: Option<JsonModel>,
    f1: Option<JsonModel>,
    f2: Option<JsonModel>,
    f3: Option<JsonModel>,
)
    ensures
        only_output_options_fields(output_options_pairs(f0, f1, f2, f3)),
        present(output_options_pairs(f0, f1, f2, f3), "batch_size"@) == (f0 is Some),
        f0 is Some ==> member(output_options_pairs(f0, f1, f2, f3), "batch_size"@) == f0->0,
        present(output_options_pairs(f0, f1, f2, f3), "max_file_size"@) == (f1 is Some),
        f1 is Some ==> member(output_options_pairs(f0, f1, f2, f3), "max_file_size"@) == f1->0,
        present(output_options_pairs(f0, f1, f2, f3), "split_by_field"@) == (f2 is Some),
        f2 is Some ==> member(output_options_pairs(f0, f1, f2, f3), "split_by_field"@) == f2->0,
        present(output_options_pairs(f0, f1, f2, f3), "filename_template"@) == (f3 is Some),
        f3 is Some ==> member(output_options_pairs(f0, f1, f2, f3), "filename_template"@) == f3->0,
{
    broadcast use {lemma_present_none, lemma_added, lemma_added_other};
    reveal_strlit("batch_size");
    reveal_strlit("max_file_size");
    reveal_strlit("split_by_field");
    reveal_strlit("filename_template");
    assert("batch_size"@.len() != "max_file_size"@.len());
    assert("batch_size"@.len() != "split_by_field"@.len());
    assert("batch_size"@.len() != "filename_template"@.len());
    assert("max_file_size"@.len() != "split_by_field"@.len());
    assert("max_file_size"@.len() != "filename_template"@.len());
    assert("split_by_field"@.len() != "filename_template"@.len());
    let s0: Pairs = Seq::empty();
    let s1 = with_field(s0, "batch_size"@, f0);
    lemma_with_field_distinct(s0, "batch_size"@, f0);
    let s2 = with_field(s1, "max_file_size"@, f1);
    lemma_with_field_distinct(s1, "max_file_size"@, f1);
    let s3 = with_field(s2, "split_by_field"@, f2);
    lemma_with_field_distinct(s2, "split_by_field"@, f2);
    let s4 = with_field(s3, "filename_template"@, f3);
    lemma_with_field_distinct(s3, "filename_template"@, f3);
    assert forall|i: int| 0 <= i < s4.len() implies is_output_options_field(
        (#[trigger] s4[i]).0,
    ) by {
        lemma_name_present(s4, i);
    }
    assert(output_options_pairs(f0, f1, f2, f3) == s4);
}

/// The fields of the encoding of the options of an output are in normal form.
pub proof fn lemma_output_options_fields(c: OutputOptions)
    ensures
        norm_output_options_fields(
            encode_output_options_fields(c)
        ) == Some(encode_output_options_fields(c)),
{
    lemma_output_options_pairs(
        match c.batch_size { Some(x) => Some(encode_count(x as int)), None => None },
        match c.max_file_size { Some(x) => Some(encode_count(x as int)), None => None },
        match c.split_by_field { Some(x) => Some(encode_text(x@)), None => None },
        match c.filename_template { Some(x) => Some(encode_text(x@)), None => None },
    );
}

/// The normal form of the fields of the options of an output is the fields
/// themselves but for their order.
pub proof fn lemma_output_options_fields_same(pairs: Pairs)
    requires
        norm_output_options_fields(pairs) is Some,
    ensures
        json_same(
            JsonModel::Object(norm_output_options_fields(pairs)->0),
            JsonModel::Object(pairs),
        ),
{
    let normal = norm_output_options_fields(pairs)->0;
    if present(pairs, "batch_size"@) {
        lemma_json_same_itself(member(pairs, "batch_size"@));
    }
    if present(pairs, "max_file_size"@) {
        lemma_json_same_itself(member(pairs, "max_file_size"@));
    }
    if present(pairs, "split_by_field"@) {
        lemma_json_same_itself(member(pairs, "split_by_field"@));
    }
    if present(pairs, "filename_template"@) {
        lemma_json_same_itself(member(pairs, "filename_template"@));
    }
    lemma_output_options_pairs(
        optional(
            pairs,
            "batch_size"@,
            norm_count(member(pairs, "batch_size"@), usize::MAX as int),
        )->0,
        optional(
            pairs,
            "max_file_size"@,
            norm_count(member(pairs, "max_file_size"@), u64::MAX as int),
        )->0,
        optional(pairs, "split_by_field"@, norm_string(member(pairs, "split_by_field"@)))->0,
        optional(pairs, "filename_template"@, norm_string(member(pairs, "filename_template"@)))->0,
    );
    assert forall|name: Seq<char>| #[trigger] present(normal, name) == present(pairs, name) by {
        if present(pairs, name) {
            lemma_present_place(pairs, name);
        }
        if present(normal, name) {
            lemma_present_place(normal, name);
        }
    }
    assert forall|name: Seq<char>| #[trigger] present(normal, name) implies json_same(
        member(normal, name),
        member(pairs, name),
    ) by {
        lemma_present_place(normal, name);
    }
    lemma_same_objects(normal, pairs);
}

/// The encoding of the options of an output is in normal form.
pub proof fn lemma_output_options(c: OutputOptions)
    ensures
        norm_output_options(encode_output_options(c)) == Some(encode_output_options(c)),
{
    lemma_output_options_fields(c);
}

/// The normal form of the encoding of the options of an output is the
/// encoding itself but for the order of fields.
pub proof fn lemma_output_options_same(json: JsonModel)
    requires
        norm_output_options(json) is Some,
    ensures
        json_same(norm_output_options(json)->0, json),
{
    lemma_output_options_fields_same(json->Object_0);
}

/// Whether two descriptions of the options of an output hold the same values
/// in every field.
pub open spec fn same_output_options(a: OutputOptions, b: OutputOptions) -> bool {
    (match (a.batch_size, b.batch_size) {
        (Some(x), Some(y)) => x == y,
        (None, None) => true,
        _ => false,
    })
    && (match (a.max_file_size, b.max_file_size) {
        (Some(x), Some(y)) => x == y,
        (None, None) => true,
        _ => false,
    })
    && (match (a.split_by_field, b.split_by_field) {
        (Some(x), Some(y)) => x@ == y@,
        (None, None) => true,
        _ => false,
    })
    && (match (a.filename_template, b.filename_template) {
        (Some(x), Some(y)) => x@ == y@,
        (None, None) => true,
        _ => false,
    })
}

/// Two descriptions of the options of an output with the same encoding hold
/// the same values.
pub proof fn lemma_output_options_one(a: OutputOptions, b: OutputOptions)
    requires
        encode_output_options(a) == encode_output_options(b),
    ensures
        same_output_options(a, b),
{
    lemma_output_options_pairs(
        match a.batch_size { Some(x) => Some(encode_count(x as int)), None => None },
        match a.max_file_size { Some(x) => Some(encode_count(x as int)), None => None },
        match a.split_by_field { Some(x) => Some(encode_text(x@)), None => None },
        match a.filename_template { Some(x) => Some(encode_text(x@)), None => None },
    );
    lemma_output_options_pairs(
        match b.batch_size { Some(x) => Some(encode_count(x as int)), None => None },
        match b.max_file_size { Some(x) => Some(encode_count(x as int)), None => None },
        match b.split_by_field { Some(x) => Some(encode_text(x@)), None => None },
        match b.filename_template { Some(x) => Some(encode_text(x@)), None => None },
    );
    assert(encode_output_options_fields(a) == encode_output_options_fields(b));
}

/// The fields of the encoding of the settings of a run, from the encodings of
/// its fields: a field that may be absent is left out where it is.
pub open spec fn global_settings_pairs(
    f0: Option<JsonModel>,
    f1: Option<JsonModel>,
    f2: Option<JsonModel>,
    f3: Option<JsonModel>,
    f4: Option<JsonModel>,
    f5: Option<JsonModel>,
) -> Pairs {
    let pairs: Pairs = Seq::empty();
    let pairs = with_field(pairs, "parallel_workers"@, f0);
    let pairs = with_field(pairs, "memory_limit_mb"@, f1);
    let pairs = with_field(pairs, "temp_directory"@, f2);
    let pairs = with_field(pairs, "log_level"@, f3);
    let pairs = with_field(pairs, "timeout_seconds"@, f4);
    let pairs = with_field(pairs, "variables"@, f5);
    pairs
}

/// Whether a name is the name of a field of the settings of a run.
pub open spec fn is_global_settings_field(name: Seq<char>) -> bool {
    name == "parallel_workers"@
        || name == "memory_limit_mb"@
        || name == "temp_directory"@
        || name == "log_level"@
        || name == "timeout_seconds"@
        || name == "variables"@
}

/// Whether every field of an object is a field of the settings of a run, and
/// none stands twice.
pub open spec fn only_global_settings_fields(pairs: Pairs) -> bool {
    distinct_names(pairs) && forall|i: int|
        0 <= i < pairs.len() ==> is_global_settings_field((#[trigger] pairs[i]).0)
}

/// The fields of the encoding of the settings of a run.
pub open spec fn encode_global_settings_fields(c: GlobalSettings) -> Pairs {
    global_settings_pairs(
        match c.parallel_workers {
            Some(x) => Some(encode_count(x as int)),
            None => None,
        },
        match c.memory_limit_mb {
            Some(x) => Some(encode_count(x as int)),
            None => None,
        },
        match c.temp_directory {
            Some(x) => Some(encode_text(x@)),
            None => None,
        },
        match c.log_level {
            Some(x) => Some(encode_text(x@)),
            None => None,
        },
        match c.timeout_seconds {
            Some(x) => Some(encode_count(x as int)),
            None => None,
        },
        match c.variables {
            Some(x) => Some(encode_table(table_texts(x@))),
            None => None,
        },
    )
}

/// The encoding of the settings of a run: an object with one field for each
/// of its fields that is there, in their order.
pub open spec fn encode_global_settings(c: GlobalSettings) -> JsonModel {
    JsonModel::Object(encode_global_settings_fields(c))
}

/// The normal form of the fields of the settings of a run: every field is one
/// of its fields and stands once, every field that must be there is there,
/// and every value is in normal form. Nothing where that is not so.
pub open spec fn norm_global_settings_fields(pairs: Pairs) -> Option<Pairs> {
    if !only_global_settings_fields(pairs) {
        None
    } else {
        match (
            optional(
                pairs,
                "parallel_workers"@,
                norm_count(member(pairs, "parallel_workers"@), usize::MAX as int),
            ),
            optional(
                pairs,
                "memory_limit_mb"@,
                norm_count(member(pairs, "memory_limit_mb"@), u64::MAX as int),
            ),
            optional(pairs, "temp_directory"@, norm_string(member(pairs, "temp_directory"@))),
            optional(pairs, "log_level"@, norm_string(member(pairs, "log_level"@))),
            optional(
                pairs,
                "timeout_seconds"@,
                norm_count(member(pairs, "timeout_seconds"@), u64::MAX as int),
            ),
            optional(pairs, "variables"@, norm_table(member(pairs, "variables"@))),
        ) {
            (Some(f0), Some(f1), Some(f2), Some(f3), Some(f4), Some(f5)) => Some(
                global_settings_pairs(f0, f1, f2, f3, f4, f5),
            ),
            _ => None,
        }
    }
}

/// The normal form of the encoding of the settings of a run: its fields in
/// their order, each in normal form.
pub open spec fn norm_global_settings(json: JsonModel) -> Option<JsonModel> {
    match json {
        JsonModel::Object(pairs) => match norm_global_settings_fields(pairs) {
            Some(normal) => Some(JsonModel::Object(normal)),
            None => None,
        },
        _ => None,
    }
}

/// Reads the settings of a run.
pub fn decode_global_settings(json: &JsonValue, at: &str) -> (r: Result<GlobalSettings>)
    ensures
        decoded(r, norm_global_settings(json@)),
        r matches Ok(c) ==> Some(encode_global_settings(c)) == norm_global_settings(json@),
{
    let fields = match json {
        JsonValue::Object(fields) => fields,
        _ => {
            return Err(invalid(at));
        },
    };
    proof {
        lemma_fields_model(fields@);
    }
    let mut i: usize = 0;
    while i < fields.len()
        invariant
            i <= fields.len(),
            json@ == JsonModel::Object(fields_model(fields@)),
            fields_model(fields@).len() == fields.len(),
            forall|k: int|
                0 <= k < fields.len() ==> #[trigger] fields_model(fields@)[k] == (
                    fields[k].0@,
                    fields[k].1@,
                ),
            forall|k: int|
                0 <= k < i ==> is_global_settings_field((#[trigger] fields_model(fields@)[k]).0),
        decreases fields.len() - i,
    {
        let name = fields[i].0.as_str();
        let known: bool = text_eq(name, "parallel_workers")
            || text_eq(name, "memory_limit_mb")
            || text_eq(name, "temp_directory")
            || text_eq(name, "log_level")
            || text_eq(name, "timeout_seconds")
            || text_eq(name, "variables");
        if !known {
            assert(!is_global_settings_field(fields_model(fields@)[i as int].0));
            return Err(invalid(field_path(at, name).as_str()));
        }
        i += 1;
    }
    if !names_distinct(fields) {
        return Err(invalid(at));
    }
    let parallel_workers = match field_of(fields, "parallel_workers") {
        Some(value) => match decode_usize(value, field_path(at, "parallel_workers").as_str()) {
            Ok(v) => Some(v),
            Err(e) => {
                return Err(e);
            },
        },
        None => None,
    };
    let memory_limit_mb = match field_of(fields, "memory_limit_mb") {
        Some(value) => match decode_u64(value, field_path(at, "memory_limit_mb").as_str()) {
            Ok(v) => Some(v),
            Err(e) => {
                return Err(e);
            },
        },
        None => None,
    };
    let temp_directory = match field_of(fields, "temp_directory") {
        Some(value) => match decode_string(value, field_path(at, "temp_directory").as_str()) {
            Ok(v) => Some(v),
            Err(e) => {
                return Err(e);
            },
        },
        None => None,
    };
    let log_level = match field_of(fields, "log_level") {
        Some(value) => match decode_string(value, field_path(at, "log_level").as_str()) {
            Ok(v) => Some(v),
            Err(e) => {
                return Err(e);
            },
        },
        None => None,
    };
    let timeout_seconds = match field_of(fields, "timeout_seconds") {
        Some(value) => match decode_u64(value, field_path(at, "timeout_seconds").as_str()) {
            Ok(v) => Some(v),
            Err(e) => {
                return Err(e);
            },
        },
        None => None,
    };
    let variables = match field_of(fields, "variables") {
        Some(value) => match decode_table(value, field_path(at, "variables").as_str()) {
            Ok(v) => Some(v),
            Err(e) => {
                return Err(e);
            },
        },
        None => None,
    };
    Ok(
        GlobalSettings { parallel_workers, memory_limit_mb, temp_directory, log_level, timeout_seconds, variables }
    )
}

/// Writes the settings of a run.
pub fn write_global_settings(c: &GlobalSettings) -> (r: JsonValue)
    ensures
        r@ == encode_global_settings(*c),
{
    let mut fields: Vec<(String, JsonValue)> = Vec::new();
    assert(fields_model(fields@) =~= Seq::empty());
    match &c.parallel_workers {
        Some(x) => {
            put(&mut fields, "parallel_workers", write_count(*x as u64));
        },
        None => {},
    }
    match &c.memory_limit_mb {
        Some(x) => {
            put(&mut fields, "memory_limit_mb", write_count(*x));
        },
        None => {},
    }
    match &c.temp_directory {
        Some(x) => {
            put(&mut fields, "temp_directory", write_text(x));
        },
        None => {},
    }
    match &c.log_level {
        Some(x) => {
            put(&mut fields, "log_level", write_text(x));
        },
        None => {},
    }
    match &c.timeout_seconds {
        Some(x) => {
            put(&mut fields, "timeout_seconds", write_count(*x));
        },
        None => {},
    }
    match &c.variables {
        Some(x) => {
            put(&mut fields, "variables", write_table(x));
        },
        None => {},
    }
    JsonValue::Object(fields)
}

/// What an object built as the encoding of the settings of a run holds: its
/// fields and no others, each once, and under each name the value that was
/// given for it.
proof fn lemma_global_settings_pairs(
    f0: Option<JsonModel>,
    f1: Option<JsonModel>,
    f2: Option<JsonModel>,
    f3: Option<JsonModel>,
    f4: Option<JsonModel>,
    f5: Option<JsonModel>,
)
    ensures
        only_global_settings_fields(global_settings_pairs(f0, f1, f2, f3, f4, f5)),
        present(global_settings_pairs(f0, f1, f2, f3, f4, f5), "parallel_workers"@) == (f0 is Some),
        f0 is Some ==> member(
            global_settings_pairs(f0, f1, f2, f3, f4, f5),
            "parallel_workers"@,
        ) == f0->0,
        present(global_settings_pairs(f0, f1, f2, f3, f4, f5), "memory_limit_mb"@) == (f1 is Some),
        f1 is Some ==> member(
            global_settings_pairs(f0, f1, f2, f3, f4, f5),
            "memory_limit_mb"@,
        ) == f1->0,
        present(global_settings_pairs(f0, f1, f2, f3, f4, f5), "temp_directory"@) == (f2 is Some),
        f2 is Some ==> member(
            global_settings_pairs(f0, f1, f2, f3, f4, f5),
            "temp_directory"@,
        ) == f2->0,
        present(global_settings_pairs(f0, f1, f2, f3, f4, f5), "log_level"@) == (f3 is Some),
        f3 is Some ==> member(global_settings_pairs(f0, f1, f2, f3, f4, f5), "log_level"@) == f3->0,
        present(global_settings_pairs(f0, f1, f2, f3, f4, f5), "timeout_seconds"@) == (f4 is Some),
        f4 is Some ==> member(
            global_settings_pairs(f0, f1, f2, f3, f4, f5),
            "timeout_seconds"@,
        ) == f4->0,
        present(global_settings_pairs(f0, f1, f2, f3, f4, f5), "variables"@) == (f5 is Some),
        f5 is Some ==> member(global_settings_pairs(f0, f1, f2, f3, f4, f5), "variables"@) == f5->0,
{
    broadcast use {lemma_present_none, lemma_added, lemma_added_other};
    reveal_strlit("parallel_workers");
    reveal_strlit("memory_limit_mb");
    reveal_strlit("temp_directory");
    reveal_strlit("log_level");
    reveal_strlit("timeout_seconds");
    reveal_strlit("variables");
    assert("parallel_workers"@.len() != "memory_limit_mb"@.len());
    assert("parallel_workers"@.len() != "temp_directory"@.len());
    assert("parallel_workers"@.len() != "log_level"@.len());
    assert("parallel_workers"@.len() != "timeout_seconds"@.len());
    assert("parallel_workers"@.len() != "variables"@.len());
    assert("memory_limit_mb"@.len() != "temp_directory"@.len());
    assert("memory_limit_mb"@.len() != "log_level"@.len());
    assert("memory_limit_mb"@[0] != "timeout_seconds"@[0]);
    assert("memory_limit_mb"@.len() != "variables"@.len());
    assert("temp_directory"@.len() != "log_level"@.len());
    assert("temp_directory"@.len() != "timeout_seconds"@.len());
    assert("temp_directory"@.len() != "variables"@.len());
    assert("log_level"@.len() != "timeout_seconds"@.len());
    assert("log_level"@[0] != "variables"@[0]);
    assert("timeout_seconds"@.len() != "variables"@.len());
    let s0: Pairs = Seq::empty();
    let s1 = with_field(s0, "parallel_workers"@, f0);
    lemma_with_field_distinct(s0, "parallel_workers"@, f0);
    let s2 = with_field(s1, "memory_limit_mb"@, f1);
    lemma_with_field_distinct(s1, "memory_limit_mb"@, f1);
    let s3 = with_field(s2, "temp_directory"@, f2);
    lemma_with_field_distinct(s2, "temp_directory"@, f2);
    let s4 = with_field(s3, "log_level"@, f3);
    lemma_with_field_distinct(s3, "log_level"@, f3);
    let s5 = with_field(s4, "timeout_seconds"@, f4);
    lemma_with_field_distinct(s4, "timeout_seconds"@, f4);
    let s6 = with_field(s5, "variables"@, f5);
    lemma_with_field_distinct(s5, "variables"@, f5);
    assert forall|i: int| 0 <= i < s6.len() implies is_global_settings_field(
        (#[trigger] s6[i]).0,
    ) by {
        lemma_name_present(s6, i);
    }
    assert(global_settings_pairs(f0, f1, f2, f3, f4, f5) == s6);
}

/// The fields of the encoding of the settings of a run are in normal form.
pub proof fn lemma_global_settings_fields(c: GlobalSettings)
    ensures
        norm_global_settings_fields(
            encode_global_settings_fields(c)
        ) == Some(encode_global_settings_fields(c)),
{
    if c.variables is Some {
        lemma_table(table_texts(c.variables->0@));
    }
    lemma_global_settings_pairs(
        match c.parallel_workers { Some(x) => Some(encode_count(x as int)), None => None },
        match c.memory_limit_mb { Some(x) => Some(encode_count(x as int)), None => None },
        match c.temp_directory { Some(x) => Some(encode_text(x@)), None => None },
        match c.log_level { Some(x) => Some(encode_text(x@)), None => None },
        match c.timeout_seconds { Some(x) => Some(encode_count(x as int)), None => None },
        match c.variables { Some(x) => Some(encode_table(table_texts(x@))), None => None },
    );
}

/// The normal form of the fields of the settings of a run is the fields
/// themselves but for their order.
pub proof fn lemma_global_settings_fields_same(pairs: Pairs)
    requires
        norm_global_settings_fields(pairs) is Some,
    ensures
        json_same(
            JsonModel::Object(norm_global_settings_fields(pairs)->0),
            JsonModel::Object(pairs),
        ),
{
    let normal = norm_global_settings_fields(pairs)->0;
    if present(pairs, "parallel_workers"@) {
        lemma_json_same_itself(member(pairs, "parallel_workers"@));
    }
    if present(pairs, "memory_limit_mb"@) {
        lemma_json_same_itself(member(pairs, "memory_limit_mb"@));
    }
    if present(pairs, "temp_directory"@) {
        lemma_json_same_itself(member(pairs, "temp_directory"@));
    }
    if present(pairs, "log_level"@) {
        lemma_json_same_itself(member(pairs, "log_level"@));
    }
    if present(pairs, "timeout_seconds"@) {
        lemma_json_same_itself(member(pairs, "timeout_seconds"@));
    }
    if present(pairs, "variables"@) {
        lemma_json_same_itself(member(pairs, "variables"@));
    }
    lemma_global_settings_pairs(
        optional(
            pairs,
            "parallel_workers"@,
            norm_count(member(pairs, "parallel_workers"@), usize::MAX as int),
        )->0,
        optional(
            pairs,
            "memory_limit_mb"@,
            norm_count(member(pairs, "memory_limit_mb"@), u64::MAX as int),
        )->0,
        optional(pairs, "temp_directory"@, norm_string(member(pairs, "temp_directory"@)))->0,
        optional(pairs, "log_level"@, norm_string(member(pairs, "log_level"@)))->0,
        optional(
            pairs,
            "timeout_seconds"@,
            norm_count(member(pairs, "timeout_seconds"@), u64::MAX as int),
        )->0,
        optional(pairs, "variables"@, norm_table(member(pairs, "variables"@)))->0,
    );
    assert forall|name: Seq<char>| #[trigger] present(normal, name) == present(pairs, name) by {
        if present(pairs, name) {
            lemma_present_place(pairs, name);
        }
        if present(normal, name) {
            lemma_present_place(normal, name);
        }
    }
    assert forall|name: Seq<char>| #[trigger] present(normal, name) implies json_same(
        member(normal, name),
        member(pairs, name),
    ) by {
        lemma_present_place(normal, name);
    }
    lemma_same_objects(normal, pairs);
}

/// The encoding of the settings of a run is in normal form.
pub proof fn lemma_global_settings(c: GlobalSettings)
    ensures
        norm_global_settings(encode_global_settings(c)) == Some(encode_global_settings(c)),
{
    lemma_global_settings_fields(c);
}

/// The normal form of the encoding of the settings of a run is the encoding
/// itself but for the order of fields.
pub proof fn lemma_global_settings_same(json: JsonModel)
    requires
        norm_global_settings(json) is Some,
    ensures
        json_same(norm_global_settings(json)->0, json),
{
    lemma_global_settings_fields_same(json->Object_0);
}

/// Whether two descriptions of the settings of a run hold the same values in
/// every field.
pub open spec fn same_global_settings(a: GlobalSettings, b: GlobalSettings) -> bool {
    (match (a.parallel_workers, b.parallel_workers) {
        (Some(x), Some(y)) => x == y,
        (None, None) => true,
        _ => false,
    })
    && (match (a.memory_limit_mb, b.memory_limit_mb) {
        (Some(x), Some(y)) => x == y,
        (None, None) => true,
        _ => false,
    })
    && (match (a.temp_directory, b.temp_directory) {
        (Some(x), Some(y)) => x@ == y@,
        (None, None) => true,
        _ => false,
    })
    && (match (a.log_level, b.log_level) {
        (Some(x), Some(y)) => x@ == y@,
        (None, None) => true,
        _ => false,
    })
    && (match (a.timeout_seconds, b.timeout_seconds) {
        (Some(x), Some(y)) => x == y,
        (None, None) => true,
        _ => false,
    })
    && (match (a.variables, b.variables) {
        (Some(x), Some(y)) => table_texts(x@) == table_texts(y@),
        (None, None) => true,
        _ => false,
    })
}

/// Two descriptions of the settings of a run with the same encoding hold the
/// same values.
pub proof fn lemma_global_settings_one(a: GlobalSettings, b: GlobalSettings)
    requires
        encode_global_settings(a) == encode_global_settings(b),
    ensures
        same_global_settings(a, b),
{
    lemma_global_settings_pairs(
        match a.parallel_workers { Some(x) => Some(encode_count(x as int)), None => None },
        match a.memory_limit_mb { Some(x) => Some(encode_count(x as int)), None => None },
        match a.temp_directory { Some(x) => Some(encode_text(x@)), None => None },
        match a.log_level { Some(x) => Some(encode_text(x@)), None => None },
        match a.timeout_seconds { Some(x) => Some(encode_count(x as int)), None => None },
        match a.variables { Some(x) => Some(encode_table(table_texts(x@))), None => None },
    );
    lemma_global_settings_pairs(
        match b.parallel_workers { Some(x) => Some(encode_count(x as int)), None => None },
        match b.memory_limit_mb { Some(x) => Some(encode_count(x as int)), None => None },
        match b.temp_directory { Some(x) => Some(encode_text(x@)), None => None },
        match b.log_level { Some(x) => Some(encode_text(x@)), None => None },
        match b.timeout_seconds { Some(x) => Some(encode_count(x as int)), None => None },
        match b.variables { Some(x) => Some(encode_table(table_texts(x@))), None => None },
    );
    assert(encode_global_settings_fields(a) == encode_global_settings_fields(b));
    if a.variables is Some && b.variables is Some {
        lemma_table_one(table_texts(a.variables->0@), table_texts(b.variables->0@));
    }
}

/// The fields of the encoding of the variant `csv` of an output format, from
/// the encodings of its fields: a field that may be absent is left out where
/// it is.
pub open spec fn output_format_csv_pairs(
    f0: Option<JsonModel>,
    f1: Option<JsonModel>,
    f2: Option<JsonModel>,
) -> Pairs {
    let pairs: Pairs = Seq::empty();
    let pairs = with_field(pairs, "delimiter"@, f0);
    let pairs = with_field(pairs, "quote_char"@, f1);
    let pairs = with_field(pairs, "headers"@, f2);
    pairs
}

/// Whether a name is the name of a field of the variant `csv` of an output
/// format.
pub open spec fn is_output_format_csv_field(name: Seq<char>) -> bool {
    name == "delimiter"@
        || name == "quote_char"@
        || name == "headers"@
}

/// Whether every field of an object is a field of the variant `csv` of an
/// output format, and none stands twice.
pub open spec fn only_output_format_csv_fields(pairs: Pairs) -> bool {
    distinct_names(pairs) && forall|i: int|
        0 <= i < pairs.len() ==> is_output_format_csv_field((#[trigger] pairs[i]).0)
}

/// The normal form of the fields of the variant `csv` of an output format:
/// every field is one of its fields and stands once, every field that must be
/// there is there, and every value is in normal form. Nothing where that is
/// not so.
pub open spec fn norm_output_format_csv_fields(pairs: Pairs) -> Option<Pairs> {
    if !only_output_format_csv_fields(pairs) {
        None
    } else {
        match (
            optional(pairs, "delimiter"@, norm_char(member(pairs, "delimiter"@))),
            optional(pairs, "quote_char"@, norm_char(member(pairs, "quote_char"@))),
            optional(pairs, "headers"@, norm_flag(member(pairs, "headers"@))),
        ) {
            (Some(f0), Some(f1), Some(f2)) => Some(
                output_format_csv_pairs(f0, f1, f2),
            ),
            _ => None,
        }
    }
}

/// The fields of the encoding of the variant `json` of an output format, from
/// the encodings of its fields: a field that may be absent is left out where
/// it is.
pub open spec fn output_format_json_pairs(f0: Option<JsonModel>) -> Pairs {
    let pairs: Pairs = Seq::empty();
    let pairs = with_field(pairs, "pretty_print"@, f0);
    pairs
}

/// Whether a name is the name of a field of the variant `json` of an output
/// format.
pub open spec fn is_output_format_json_field(name: Seq<char>) -> bool {
    name == "pretty_print"@
}

/// Whether every field of an object is a field of the variant `json` of an
/// output format, and none stands twice.
pub open spec fn only_output_format_json_fields(pairs: Pairs) -> bool {
    distinct_names(pairs) && forall|i: int|
        0 <= i < pairs.len() ==> is_output_format_json_field((#[trigger] pairs[i]).0)
}

/// The normal form of the fields of the variant `json` of an output format:
/// every field is one of its fields and stands once, every field that must be
/// there is there, and every value is in normal form. Nothing where that is
/// not so.
pub open spec fn norm_output_format_json_fields(pairs: Pairs) -> Option<Pairs> {
    if !only_output_format_json_fields(pairs) {
        None
    } else {
        match optional(pairs, "pretty_print"@, norm_flag(member(pairs, "pretty_print"@))) {
            Some(f0) => Some(output_format_json_pairs(f0)),
            None => None,
        }
    }
}

/// The fields of the encoding of the variant `excel` of an output format,
/// from the encodings of its fields: a field that may be absent is left out
/// where it is.
pub open spec fn output_format_excel_pairs(f0: Option<JsonModel>) -> Pairs {
    let pairs: Pairs = Seq::empty();
    let pairs = with_field(pairs, "sheet_name"@, f0);
    pairs
}

/// Whether a name is the name of a field of the variant `excel` of an output
/// format.
pub open spec fn is_output_format_excel_field(name: Seq<char>) -> bool {
    name == "sheet_name"@
}

/// Whether every field of an object is a field of the variant `excel` of an
/// output format, and none stands twice.
pub open spec fn only_output_format_excel_fields(pairs: Pairs) -> bool {
    distinct_names(pairs) && forall|i: int|
        0 <= i < pairs.len() ==> is_output_format_excel_field((#[trigger] pairs[i]).0)
}

/// The normal form of the fields of the variant `excel` of an output format:
/// every field is one of its fields and stands once, every field that must be
/// there is there, and every value is in normal form. Nothing where that is
/// not so.
pub open spec fn norm_output_format_excel_fields(pairs: Pairs) -> Option<Pairs> {
    if !only_output_format_excel_fields(pairs) {
        None
    } else {
        match optional(pairs, "sheet_name"@, norm_string(member(pairs, "sheet_name"@))) {
            Some(f0) => Some(output_format_excel_pairs(f0)),
            None => None,
        }
    }
}

/// The fields of the encoding of the variant `database` of an output format,
/// from the encodings of its fields: a field that may be absent is left out
/// where it is.
pub open spec fn output_format_database_pairs(f0: JsonModel, f1: JsonModel) -> Pairs {
    let pairs: Pairs = Seq::empty();
    let pairs = with_field(pairs, "table_name"@, Some(f0));
    let pairs = with_field(pairs, "mode"@, Some(f1));
    pairs
}

/// Whether a name is the name of a field of the variant `database` of an
/// output format.
pub open spec fn is_output_format_database_field(name: Seq<char>) -> bool {
    name == "table_name"@
        || name == "mode"@
}

/// Whether every field of an object is a field of the variant `database` of
/// an output format, and none stands twice.
pub open spec fn only_output_format_database_fields(pairs: Pairs) -> bool {
    distinct_names(pairs) && forall|i: int|
        0 <= i < pairs.len() ==> is_output_format_database_field((#[trigger] pairs[i]).0)
}

/// The normal form of the fields of the variant `database` of an output
/// format: every field is one of its fields and stands once, every field that
/// must be there is there, and every value is in normal form. Nothing where
/// that is not so.
pub open spec fn norm_output_format_database_fields(pairs: Pairs) -> Option<Pairs> {
    if !only_output_format_database_fields(pairs) {
        None
    } else {
        match (
            required(pairs, "table_name"@, norm_string(member(pairs, "table_name"@))),
            required(pairs, "mode"@, norm_write_mode(member(pairs, "mode"@))),
        ) {
            (Some(f0), Some(f1)) => Some(
                output_format_database_pairs(f0, f1),
            ),
            _ => None,
        }
    }
}

/// The encoding of an output format: the word of a variant without fields,
/// and an object that holds the fields of the variant under its word for any
/// other.
pub open spec fn encode_output_format(c: OutputFormat) -> JsonModel {
    match c {
        OutputFormat::Csv { delimiter, quote_char, headers } => JsonModel::Object(
            seq![
                (
                    "csv"@,
                    JsonModel::Object(
                        output_format_csv_pairs(
                            match delimiter {
                                Some(x) => Some(encode_char(x)),
                                None => None,
                            },
                            match quote_char {
                                Some(x) => Some(encode_char(x)),
                                None => None,
                            },
                            match headers {
                                Some(x) => Some(encode_flag(x)),
                                None => None,
                            },
                        ),
                    ),
                ),
            ],
        ),
        OutputFormat::Json { pretty_print } => JsonModel::Object(
            seq![
                (
                    "json"@,
                    JsonModel::Object(
                        output_format_json_pairs(
                            match pretty_print {
                                Some(x) => Some(encode_flag(x)),
                                None => None,
                            },
                        ),
                    ),
                ),
            ],
        ),
        OutputFormat::Excel { sheet_name } => JsonModel::Object(
            seq![
                (
                    "excel"@,
                    JsonModel::Object(
                        output_format_excel_pairs(
                            match sheet_name {
                                Some(x) => Some(encode_text(x@)),
                                None => None,
                            },
                        ),
                    ),
                ),
            ],
        ),
        OutputFormat::Parquet => JsonModel::String("parquet"@),
        OutputFormat::Database { table_name, mode } => JsonModel::Object(
            seq![
                (
                    "database"@,
                    JsonModel::Object(
                        output_format_database_pairs(
                            encode_text(table_name@),
                            encode_write_mode(mode),
                        ),
                    ),
                ),
            ],
        ),
    }
}

/// The normal form of what stands under the word of a variant of an output
/// format.
pub open spec fn norm_output_format_inner(word: Seq<char>, inner: JsonModel) -> Option<JsonModel> {
    match inner {
        JsonModel::Object(pairs) => if word == "csv"@ {
            match norm_output_format_csv_fields(pairs) {
                Some(normal) => Some(
                    JsonModel::Object(seq![("csv"@, JsonModel::Object(normal))]),
                ),
                None => None,
            }
        } else if word == "json"@ {
            match norm_output_format_json_fields(pairs) {
                Some(normal) => Some(
                    JsonModel::Object(seq![("json"@, JsonModel::Object(normal))]),
                ),
                None => None,
            }
        } else if word == "excel"@ {
            match norm_output_format_excel_fields(pairs) {
                Some(normal) => Some(
                    JsonModel::Object(seq![("excel"@, JsonModel::Object(normal))]),
                ),
                None => None,
            }
        } else if word == "database"@ {
            match norm_output_format_database_fields(pairs) {
                Some(normal) => Some(
                    JsonModel::Object(seq![("database"@, JsonModel::Object(normal))]),
                ),
                None => None,
            }
        } else {
            None
        },
        _ => None,
    }
}

/// The normal form of the encoding of an output format.
pub open spec fn norm_output_format(json: JsonModel) -> Option<JsonModel> {
    match json {
        JsonModel::String(word) => if word == "parquet"@ {
            Some(json)
        } else {
            None
        },
        JsonModel::Object(pairs) => if pairs.len() == 1 {
            norm_output_format_inner(pairs[0].0, pairs[0].1)
        } else {
            None
        },
        _ => None,
    }
}

/// Reads the fields of the variant `csv` of an output format.
fn decode_output_format_csv(inner: &JsonValue, at: &str) -> (r: Result<OutputFormat>)
    ensures
        decoded(r, norm_output_format_inner("csv"@, inner@)),
        r matches Ok(
            c
        ) ==> Some(encode_output_format(c)) == norm_output_format_inner("csv"@, inner@),
{
    proof {
        reveal_strlit("csv");
        reveal_strlit("json");
        reveal_strlit("excel");
        reveal_strlit("database");
        assert("csv"@.len() != "json"@.len());
        assert("csv"@.len() != "excel"@.len());
        assert("csv"@.len() != "database"@.len());
    }
    let fields = match inner {
        JsonValue::Object(fields) => fields,
        _ => {
            return Err(invalid(at));
        },
    };
    proof {
        lemma_fields_model(fields@);
    }
    let mut i: usize = 0;
    while i < fields.len()
        invariant
            i <= fields.len(),
            inner@ == JsonModel::Object(fields_model(fields@)),
            fields_model(fields@).len() == fields.len(),
            forall|k: int|
                0 <= k < fields.len() ==> #[trigger] fields_model(fields@)[k] == (
                    fields[k].0@,
                    fields[k].1@,
                ),
            forall|k: int|
                0 <= k < i ==> is_output_format_csv_field((#[trigger] fields_model(fields@)[k]).0),
        decreases fields.len() - i,
    {
        let name = fields[i].0.as_str();
        let known: bool = text_eq(name, "delimiter")
            || text_eq(name, "quote_char")
            || text_eq(name, "headers");
        if !known {
            proof {
                reveal_strlit("csv");
                reveal_strlit("json");
                reveal_strlit("excel");
                reveal_strlit("database");
                assert("csv"@.len() != "json"@.len());
                assert("csv"@.len() != "excel"@.len());
                assert("csv"@.len() != "database"@.len());
            }
            assert(!is_output_format_csv_field(fields_model(fields@)[i as int].0));
            return Err(invalid(field_path(at, name).as_str()));
        }
        i += 1;
    }
    if !names_distinct(fields) {
        return Err(invalid(at));
    }
    let delimiter = match field_of(fields, "delimiter") {
        Some(value) => match decode_char(value, field_path(at, "delimiter").as_str()) {
            Ok(v) => Some(v),
            Err(e) => {
                return Err(e);
            },
        },
        None => None,
    };
    let quote_char = match field_of(fields, "quote_char") {
        Some(value) => match decode_char(value, field_path(at, "quote_char").as_str()) {
            Ok(v) => Some(v),
            Err(e) => {
                return Err(e);
            },
        },
        None => None,
    };
    let headers = match field_of(fields, "headers") {
        Some(value) => match decode_bool(value, field_path(at, "headers").as_str()) {
            Ok(v) => Some(v),
            Err(e) => {
                return Err(e);
            },
        },
        None => None,
    };
    Ok(OutputFormat::Csv { delimiter, quote_char, headers })
}

/// Reads the fields of the variant `json` of an output format.
fn decode_output_format_json(inner: &JsonValue, at: &str) -> (r: Result<OutputFormat>)
    ensures
        decoded(r, norm_output_format_inner("json"@, inner@)),
        r matches Ok(
            c
        ) ==> Some(encode_output_format(c)) == norm_output_format_inner("json"@, inner@),
{
    proof {
        reveal_strlit("csv");
        reveal_strlit("json");
        reveal_strlit("excel");
        reveal_strlit("database");
        assert("json"@.len() != "csv"@.len());
        assert("json"@.len() != "excel"@.len());
        assert("json"@.len() != "database"@.len());
    }
    let fields = match inner {
        JsonValue::Object(fields) => fields,
        _ => {
            return Err(invalid(at));
        },
    };
    proof {
        lemma_fields_model(fields@);
    }
    let mut i: usize = 0;
    while i < fields.len()
        invariant
            i <= fields.len(),
            inner@ == JsonModel::Object(fields_model(fields@)),
            fields_model(fields@).len() == fields.len(),
            forall|k: int|
                0 <= k < fields.len() ==> #[trigger] fields_model(fields@)[k] == (
                    fields[k].0@,
                    fields[k].1@,
                ),
            forall|k: int|
                0 <= k < i ==> is_output_format_json_field((#[trigger] fields_model(fields@)[k]).0),
        decreases fields.len() - i,
    {
        let name = fields[i].0.as_str();
        let known: bool = text_eq(name, "pretty_print");
        if !known {
            proof {
                reveal_strlit("csv");
                reveal_strlit("json");
                reveal_strlit("excel");
                reveal_strlit("database");
                assert("json"@.len() != "csv"@.len());
                assert("json"@.len() != "excel"@.len());
                assert("json"@.len() != "database"@.len());
            }
            assert(!is_output_format_json_field(fields_model(fields@)[i as int].0));
            return Err(invalid(field_path(at, name).as_str()));
        }
        i += 1;
    }
    if !names_distinct(fields) {
        return Err(invalid(at));
    }
    let pretty_print = match field_of(fields, "pretty_print") {
        Some(value) => match decode_bool(value, field_path(at, "pretty_print").as_str()) {
            Ok(v) => Some(v),
            Err(e) => {
                return Err(e);
            },
        },
        None => None,
    };
    Ok(OutputFormat::Json { pretty_print })
}

/// Reads the fields of the variant `excel` of an output format.
fn decode_output_format_excel(inner: &JsonValue, at: &str) -> (r: Result<OutputFormat>)
    ensures
        decoded(r, norm_output_format_inner("excel"@, inner@)),
        r matches Ok(
            c
        ) ==> Some(encode_output_format(c)) == norm_output_format_inner("excel"@, inner@),
{
    proof {
        reveal_strlit("csv");
        reveal_strlit("json");
        reveal_strlit("excel");
        reveal_strlit("database");
        assert("excel"@.len() != "csv"@.len());
        assert("excel"@.len() != "json"@.len());
        assert("excel"@.len() != "database"@.len());
    }
    let fields = match inner {
        JsonValue::Object(fields) => fields,
        _ => {
            return Err(invalid(at));
        },
    };
    proof {
        lemma_fields_model(fields@);
    }
    let mut i: usize = 0;
    while i < fields.len()
        invariant
            i <= fields.len(),
            inner@ == JsonModel::Object(fields_model(fields@)),
            fields_model(fields@).len() == fields.len(),
            forall|k: int|
                0 <= k < fields.len() ==> #[trigger] fields_model(fields@)[k] == (
                    fields[k].0@,
                    fields[k].1@,
                ),
            forall|k: int|
                0 <= k < i ==> is_output_format_excel_field(
                    (#[trigger] fields_model(fields@)[k]).0
                ),
        decreases fields.len() - i,
    {
        let name = fields[i].0.as_str();
        let known: bool = text_eq(name, "sheet_name");
        if !known {
            proof {
                reveal_strlit("csv");
                reveal_strlit("json");
                reveal_strlit("excel");
                reveal_strlit("database");
                assert("excel"@.len() != "csv"@.len());
                assert("excel"@.len() != "json"@.len());
                assert("excel"@.len() != "database"@.len());
            }
            assert(!is_output_format_excel_field(fields_model(fields@)[i as int].0));
            return Err(invalid(field_path(at, name).as_str()));
        }
        i += 1;
    }
    if !names_distinct(fields) {
        return Err(invalid(at));
    }
    let sheet_name = match field_of(fields, "sheet_name") {
        Some(value) => match decode_string(value, field_path(at, "sheet_name").as_str()) {
            Ok(v) => Some(v),
            Err(e) => {
                return Err(e);
            },
        },
        None => None,
    };
    Ok(OutputFormat::Excel { sheet_name })
}

/// Reads the fields of the variant `database` of an output format.
fn decode_output_format_database(inner: &JsonValue, at: &str) -> (r: Result<OutputFormat>)
    ensures
        decoded(r, norm_output_format_inner("database"@, inner@)),
        r matches Ok(
            c
        ) ==> Some(encode_output_format(c)) == norm_output_format_inner("database"@, inner@),
{
    proof {
        reveal_strlit("csv");
        reveal_strlit("json");
        reveal_strlit("excel");
        reveal_strlit("database");
        assert("database"@.len() != "csv"@.len());
        assert("database"@.len() != "json"@.len());
        assert("database"@.len() != "excel"@.len());
    }
    let fields = match inner {
        JsonValue::Object(fields) => fields,
        _ => {
            return Err(invalid(at));
        },
    };
    proof {
        lemma_fields_model(fields@);
    }
    let mut i: usize = 0;
    while i < fields.len()
        invariant
            i <= fields.len(),
            inner@ == JsonModel::Object(fields_model(fields@)),
            fields_model(fields@).len() == fields.len(),
            forall|k: int|
                0 <= k < fields.len() ==> #[trigger] fields_model(fields@)[k] == (
                    fields[k].0@,
                    fields[k].1@,
                ),
            forall|k: int|
                0 <= k < i ==> is_output_format_database_field(
                    (#[trigger] fields_model(fields@)[k]).0
                ),
        decreases fields.len() - i,
    {
        let name = fields[i].0.as_str();
        let known: bool = text_eq(name, "table_name")
            || text_eq(name, "mode");
        if !known {
            proof {
                reveal_strlit("csv");
                reveal_strlit("json");
                reveal_strlit("excel");
                reveal_strlit("database");
                assert("database"@.len() != "csv"@.len());
                assert("database"@.len() != "json"@.len());
                assert("database"@.len() != "excel"@.len());
            }
            assert(!is_output_format_database_field(fields_model(fields@)[i as int].0));
            return Err(invalid(field_path(at, name).as_str()));
        }
        i += 1;
    }
    if !names_distinct(fields) {
        return Err(invalid(at));
    }
    let table_name = match field_of(fields, "table_name") {
        Some(value) => match decode_string(value, field_path(at, "table_name").as_str()) {
            Ok(v) => v,
            Err(e) => {
                return Err(e);
            },
        },
        None => {
            return Err(invalid(field_path(at, "table_name").as_str()));
        },
    };
    let mode = match field_of(fields, "mode") {
        Some(value) => match decode_write_mode(value, field_path(at, "mode").as_str()) {
            Ok(v) => v,
            Err(e) => {
                return Err(e);
            },
        },
        None => {
            return Err(invalid(field_path(at, "mode").as_str()));
        },
    };
    Ok(OutputFormat::Database { table_name, mode })
}

/// Reads an output format.
pub fn decode_output_format(json: &JsonValue, at: &str) -> (r: Result<OutputFormat>)
    ensures
        decoded(r, norm_output_format(json@)),
        r matches Ok(c) ==> Some(encode_output_format(c)) == norm_output_format(json@),
{
    match json {
        JsonValue::String(s) => {
            let word = s.as_str();
            if text_eq(word, "parquet") {
                Ok(OutputFormat::Parquet)
            } else {
                Err(invalid(at))
            }
        },
        JsonValue::Object(fields) => {
            proof {
                lemma_fields_model(fields@);
            }
            if fields.len() != 1 {
                return Err(invalid(at));
            }
            let key = fields[0].0.as_str();
            let inner = &fields[0].1;
            if text_eq(key, "csv") {
                decode_output_format_csv(inner, field_path(at, "csv").as_str())
            } else if text_eq(key, "json") {
                decode_output_format_json(inner, field_path(at, "json").as_str())
            } else if text_eq(key, "excel") {
                decode_output_format_excel(inner, field_path(at, "excel").as_str())
            } else if text_eq(key, "database") {
                decode_output_format_database(inner, field_path(at, "database").as_str())
            } else {
                Err(invalid(at))
            }
        },
        _ => Err(invalid(at)),
    }
}

/// Writes an output format.
pub fn write_output_format(c: &OutputFormat) -> (r: JsonValue)
    ensures
        r@ == encode_output_format(*c),
{
    match c {
        OutputFormat::Csv { delimiter, quote_char, headers } => {
            let mut fields: Vec<(String, JsonValue)> = Vec::new();
            assert(fields_model(fields@) =~= Seq::empty());
            match delimiter {
                Some(x) => {
                    put(&mut fields, "delimiter", write_char(*x));
                },
                None => {},
            }
            match quote_char {
                Some(x) => {
                    put(&mut fields, "quote_char", write_char(*x));
                },
                None => {},
            }
            match headers {
                Some(x) => {
                    put(&mut fields, "headers", write_bool(*x));
                },
                None => {},
            }
            let mut outer: Vec<(String, JsonValue)> = Vec::new();
            outer.push((String::from_str("csv"), JsonValue::Object(fields)));
            proof {
                lemma_fields_model(outer@);
                assert(fields_model(outer@) =~= seq![
                    ("csv"@, JsonValue::Object(fields)@),
                ]);
            }
            JsonValue::Object(outer)
        },
        OutputFormat::Json { pretty_print } => {
            let mut fields: Vec<(String, JsonValue)> = Vec::new();
            assert(fields_model(fields@) =~= Seq::empty());
            match pretty_print {
                Some(x) => {
                    put(&mut fields, "pretty_print", write_bool(*x));
                },
                None => {},
            }
            let mut outer: Vec<(String, JsonValue)> = Vec::new();
            outer.push((String::from_str("json"), JsonValue::Object(fields)));
            proof {
                lemma_fields_model(outer@);
                assert(fields_model(outer@) =~= seq![
                    ("json"@, JsonValue::Object(fields)@),
                ]);
            }
            JsonValue::Object(outer)
        },
        OutputFormat::Excel { sheet_name } => {
            let mut fields: Vec<(String, JsonValue)> = Vec::new();
            assert(fields_model(fields@) =~= Seq::empty());
            match sheet_name {
                Some(x) => {
                    put(&mut fields, "sheet_name", write_text(x));
                },
                None => {},
            }
            let mut outer: Vec<(String, JsonValue)> = Vec::new();
            outer.push((String::from_str("excel"), JsonValue::Object(fields)));
            proof {
                lemma_fields_model(outer@);
                assert(fields_model(outer@) =~= seq![
                    ("excel"@, JsonValue::Object(fields)@),
                ]);
            }
            JsonValue::Object(outer)
        },
        OutputFormat::Parquet => JsonValue::String(String::from_str("parquet")),
        OutputFormat::Database { table_name, mode } => {
            let mut fields: Vec<(String, JsonValue)> = Vec::new();
            assert(fields_model(fields@) =~= Seq::empty());
            put(&mut fields, "table_name", write_text(table_name));
            put(&mut fields, "mode", write_write_mode(mode));
            let mut outer: Vec<(String, JsonValue)> = Vec::new();
            outer.push((String::from_str("database"), JsonValue::Object(fields)));
            proof {
                lemma_fields_model(outer@);
                assert(fields_model(outer@) =~= seq![
                    ("database"@, JsonValue::Object(fields)@),
                ]);
            }
            JsonValue::Object(outer)
        },
    }
}

/// What an object built as the encoding of the variant `csv` of an output
/// format holds: its fields and no others, each once, and under each name the
/// value that was given for it.
proof fn lemma_output_format_csv_pairs(
    f0: Option<JsonModel>,
    f1: Option<JsonModel>,
    f2: Option<JsonModel>,
)
    ensures
        only_output_format_csv_fields(output_format_csv_pairs(f0, f1, f2)),
        present(output_format_csv_pairs(f0, f1, f2), "delimiter"@) == (f0 is Some),
        f0 is Some ==> member(output_format_csv_pairs(f0, f1, f2), "delimiter"@) == f0->0,
        present(output_format_csv_pairs(f0, f1, f2), "quote_char"@) == (f1 is Some),
        f1 is Some ==> member(output_format_csv_pairs(f0, f1, f2), "quote_char"@) == f1->0,
        present(output_format_csv_pairs(f0, f1, f2), "headers"@) == (f2 is Some),
        f2 is Some ==> member(output_format_csv_pairs(f0, f1, f2), "headers"@) == f2->0,
{
    broadcast use {lemma_present_none, lemma_added, lemma_added_other};
    reveal_strlit("delimiter");
    reveal_strlit("quote_char");
    reveal_strlit("headers");
    assert("delimiter"@.len() != "quote_char"@.len());
    assert("delimiter"@.len() != "headers"@.len());
    assert("quote_char"@.len() != "headers"@.len());
    let s0: Pairs = Seq::empty();
    let s1 = with_field(s0, "delimiter"@, f0);
    lemma_with_field_distinct(s0, "delimiter"@, f0);
    let s2 = with_field(s1, "quote_char"@, f1);
    lemma_with_field_distinct(s1, "quote_char"@, f1);
    let s3 = with_field(s2, "headers"@, f2);
    lemma_with_field_distinct(s2, "headers"@, f2);
    assert forall|i: int| 0 <= i < s3.len() implies is_output_format_csv_field(
        (#[trigger] s3[i]).0,
    ) by {
        lemma_name_present(s3, i);
    }
    assert(output_format_csv_pairs(f0, f1, f2) == s3);
}

/// The fields of the encoding of the variant `csv` of an output format are in
/// normal form.
proof fn lemma_output_format_csv_fields(c: OutputFormat)
    requires
        c is Csv,
    ensures
        norm_output_format_csv_fields(
            output_format_csv_pairs(
                match c->Csv_delimiter { Some(x) => Some(encode_char(x)), None => None },
                match c->Csv_quote_char { Some(x) => Some(encode_char(x)), None => None },
                match c->Csv_headers { Some(x) => Some(encode_flag(x)), None => None },
            )
        ) == Some(
            output_format_csv_pairs(
                match c->Csv_delimiter { Some(x) => Some(encode_char(x)), None => None },
                match c->Csv_quote_char { Some(x) => Some(encode_char(x)), None => None },
                match c->Csv_headers { Some(x) => Some(encode_flag(x)), None => None },
            )
        ),
{
    lemma_output_format_csv_pairs(
        match c->Csv_delimiter { Some(x) => Some(encode_char(x)), None => None },
        match c->Csv_quote_char { Some(x) => Some(encode_char(x)), None => None },
        match c->Csv_headers { Some(x) => Some(encode_flag(x)), None => None },
    );
}

/// The normal form of the fields of the variant `csv` of an output format is
/// the fields themselves but for their order.
proof fn lemma_output_format_csv_fields_same(pairs: Pairs)
    requires
        norm_output_format_csv_fields(pairs) is Some,
    ensures
        json_same(
            JsonModel::Object(norm_output_format_csv_fields(pairs)->0),
            JsonModel::Object(pairs),
        ),
{
    let normal = norm_output_format_csv_fields(pairs)->0;
    if present(pairs, "delimiter"@) {
        lemma_json_same_itself(member(pairs, "delimiter"@));
    }
    if present(pairs, "quote_char"@) {
        lemma_json_same_itself(member(pairs, "quote_char"@));
    }
    if present(pairs, "headers"@) {
        lemma_json_same_itself(member(pairs, "headers"@));
    }
    lemma_output_format_csv_pairs(
        optional(pairs, "delimiter"@, norm_char(member(pairs, "delimiter"@)))->0,
        optional(pairs, "quote_char"@, norm_char(member(pairs, "quote_char"@)))->0,
        optional(pairs, "headers"@, norm_flag(member(pairs, "headers"@)))->0,
    );
    assert forall|name: Seq<char>| #[trigger] present(normal, name) == present(pairs, name) by {
        if present(pairs, name) {
            lemma_present_place(pairs, name);
        }
        if present(normal, name) {
            lemma_present_place(normal, name);
        }
    }
    assert forall|name: Seq<char>| #[trigger] present(normal, name) implies json_same(
        member(normal, name),
        member(pairs, name),
    ) by {
        lemma_present_place(normal, name);
    }
    lemma_same_objects(normal, pairs);
}

/// What an object built as the encoding of the variant `json` of an output
/// format holds: its fields and no others, each once, and under each name the
/// value that was given for it.
proof fn lemma_output_format_json_pairs(f0: Option<JsonModel>)
    ensures
        only_output_format_json_fields(output_format_json_pairs(f0)),
        present(output_format_json_pairs(f0), "pretty_print"@) == (f0 is Some),
        f0 is Some ==> member(output_format_json_pairs(f0), "pretty_print"@) == f0->0,
{
    broadcast use {lemma_present_none, lemma_added, lemma_added_other};
    reveal_strlit("pretty_print");
    let s0: Pairs = Seq::empty();
    let s1 = with_field(s0, "pretty_print"@, f0);
    lemma_with_field_distinct(s0, "pretty_print"@, f0);
    assert forall|i: int| 0 <= i < s1.len() implies is_output_format_json_field(
        (#[trigger] s1[i]).0,
    ) by {
        lemma_name_present(s1, i);
    }
    assert(output_format_json_pairs(f0) == s1);
}

/// The fields of the encoding of the variant `json` of an output format are
/// in normal form.
proof fn lemma_output_format_json_fields(c: OutputFormat)
    requires
        c is Json,
    ensures
        norm_output_format_json_fields(
            output_format_json_pairs(
                match c->Json_pretty_print { Some(x) => Some(encode_flag(x)), None => None }
            )
        ) == Some(
            output_format_json_pairs(
                match c->Json_pretty_print { Some(x) => Some(encode_flag(x)), None => None }
            )
        ),
{
    lemma_output_format_json_pairs(
        match c->Json_pretty_print { Some(x) => Some(encode_flag(x)), None => None }
    );
}

/// The normal form of the fields of the variant `json` of an output format is
/// the fields themselves but for their order.
proof fn lemma_output_format_json_fields_same(pairs: Pairs)
    requires
        norm_output_format_json_fields(pairs) is Some,
    ensures
        json_same(
            JsonModel::Object(norm_output_format_json_fields(pairs)->0),
            JsonModel::Object(pairs),
        ),
{
    let normal = norm_output_format_json_fields(pairs)->0;
    if present(pairs, "pretty_print"@) {
        lemma_json_same_itself(member(pairs, "pretty_print"@));
    }
    lemma_output_format_json_pairs(
        optional(pairs, "pretty_print"@, norm_flag(member(pairs, "pretty_print"@)))->0
    );
    assert forall|name: Seq<char>| #[trigger] present(normal, name) == present(pairs, name) by {
        if present(pairs, name) {
            lemma_present_place(pairs, name);
        }
        if present(normal, name) {
            lemma_present_place(normal, name);
        }
    }
    assert forall|name: Seq<char>| #[trigger] present(normal, name) implies json_same(
        member(normal, name),
        member(pairs, name),
    ) by {
        lemma_present_place(normal, name);
    }
    lemma_same_objects(normal, pairs);
}

/// What an object built as the encoding of the variant `excel` of an output
/// format holds: its fields and no others, each once, and under each name the
/// value that was given for it.
proof fn lemma_output_format_excel_pairs(f0: Option<JsonModel>)
    ensures
        only_output_format_excel_fields(output_format_excel_pairs(f0)),
        present(output_format_excel_pairs(f0), "sheet_name"@) == (f0 is Some),
        f0 is Some ==> member(output_format_excel_pairs(f0), "sheet_name"@) == f0->0,
{
    broadcast use {lemma_present_none, lemma_added, lemma_added_other};
    reveal_strlit("sheet_name");
    let s0: Pairs = Seq::empty();
    let s1 = with_field(s0, "sheet_name"@, f0);
    lemma_with_field_distinct(s0, "sheet_name"@, f0);
    assert forall|i: int| 0 <= i < s1.len() implies is_output_format_excel_field(
        (#[trigger] s1[i]).0,
    ) by {
        lemma_name_present(s1, i);
    }
    assert(output_format_excel_pairs(f0) == s1);
}

/// The fields of the encoding of the variant `excel` of an output format are
/// in normal form.
proof fn lemma_output_format_excel_fields(c: OutputFormat)
    requires
        c is Excel,
    ensures
        norm_output_format_excel_fields(
            output_format_excel_pairs(
                match c->Excel_sheet_name { Some(x) => Some(encode_text(x@)), None => None }
            )
        ) == Some(
            output_format_excel_pairs(
                match c->Excel_sheet_name { Some(x) => Some(encode_text(x@)), None => None }
            )
        ),
{
    lemma_output_format_excel_pairs(
        match c->Excel_sheet_name { Some(x) => Some(encode_text(x@)), None => None }
    );
}

/// The normal form of the fields of the variant `excel` of an output format
/// is the fields themselves but for their order.
proof fn lemma_output_format_excel_fields_same(pairs: Pairs)
    requires
        norm_output_format_excel_fields(pairs) is Some,
    ensures
        json_same(
            JsonModel::Object(norm_output_format_excel_fields(pairs)->0),
            JsonModel::Object(pairs),
        ),
{
    let normal = norm_output_format_excel_fields(pairs)->0;
    if present(pairs, "sheet_name"@) {
        lemma_json_same_itself(member(pairs, "sheet_name"@));
    }
    lemma_output_format_excel_pairs(
        optional(pairs, "sheet_name"@, norm_string(member(pairs, "sheet_name"@)))->0
    );
    assert forall|name: Seq<char>| #[trigger] present(normal, name) == present(pairs, name) by {
        if present(pairs, name) {
            lemma_present_place(pairs, name);
        }
        if present(normal, name) {
            lemma_present_place(normal, name);
        }
    }
    assert forall|name: Seq<char>| #[trigger] present(normal, name) implies json_same(
        member(normal, name),
        member(pairs, name),
    ) by {
        lemma_present_place(normal, name);
    }
    lemma_same_objects(normal, pairs);
}

/// What an object built as the encoding of the variant `database` of an
/// output format holds: its fields and no others, each once, and under each
/// name the value that was given for it.
proof fn lemma_output_format_database_pairs(f0: JsonModel, f1: JsonModel)
    ensures
        only_output_format_database_fields(output_format_database_pairs(f0, f1)),
        present(output_format_database_pairs(f0, f1), "table_name"@),
        member(output_format_database_pairs(f0, f1), "table_name"@) == f0,
        present(output_format_database_pairs(f0, f1), "mode"@),
        member(output_format_database_pairs(f0, f1), "mode"@) == f1,
{
    broadcast use {lemma_present_none, lemma_added, lemma_added_other};
    reveal_strlit("table_name");
    reveal_strlit("mode");
    assert("table_name"@.len() != "mode"@.len());
    let s0: Pairs = Seq::empty();
    let s1 = with_field(s0, "table_name"@, Some(f0));
    lemma_with_field_distinct(s0, "table_name"@, Some(f0));
    let s2 = with_field(s1, "mode"@, Some(f1));
    lemma_with_field_distinct(s1, "mode"@, Some(f1));
    assert forall|i: int| 0 <= i < s2.len() implies is_output_format_database_field(
        (#[trigger] s2[i]).0,
    ) by {
        lemma_name_present(s2, i);
    }
    assert(output_format_database_pairs(f0, f1) == s2);
}

/// The fields of the encoding of the variant `database` of an output format
/// are in normal form.
proof fn lemma_output_format_database_fields(c: OutputFormat)
    requires
        c is Database,
    ensures
        norm_output_format_database_fields(
            output_format_database_pairs(
                encode_text(c->Database_table_name@),
                encode_write_mode(c->Database_mode),
            )
        ) == Some(
            output_format_database_pairs(
                encode_text(c->Database_table_name@),
                encode_write_mode(c->Database_mode),
            )
        ),
{
    lemma_write_mode(c->Database_mode);
    lemma_output_format_database_pairs(
        encode_text(c->Database_table_name@),
        encode_write_mode(c->Database_mode),
    );
}

/// The normal form of the fields of the variant `database` of an output
/// format is the fields themselves but for their order.
proof fn lemma_output_format_database_fields_same(pairs: Pairs)
    requires
        norm_output_format_database_fields(pairs) is Some,
    ensures
        json_same(
            JsonModel::Object(norm_output_format_database_fields(pairs)->0),
            JsonModel::Object(pairs),
        ),
{
    let normal = norm_output_format_database_fields(pairs)->0;
    if present(pairs, "table_name"@) {
        lemma_json_same_itself(member(pairs, "table_name"@));
    }
    if present(pairs, "mode"@) {
        lemma_json_same_itself(member(pairs, "mode"@));
    }
    lemma_output_format_database_pairs(
        norm_string(member(pairs, "table_name"@))->0,
        norm_write_mode(member(pairs, "mode"@))->0,
    );
    assert forall|name: Seq<char>| #[trigger] present(normal, name) == present(pairs, name) by {
        if present(pairs, name) {
            lemma_present_place(pairs, name);
        }
        if present(normal, name) {
            lemma_present_place(normal, name);
        }
    }
    assert forall|name: Seq<char>| #[trigger] present(normal, name) implies json_same(
        member(normal, name),
        member(pairs, name),
    ) by {
        lemma_present_place(normal, name);
    }
    lemma_same_objects(normal, pairs);
}

/// The encoding of an output format is in normal form.
pub proof fn lemma_output_format(c: OutputFormat)
    ensures
        norm_output_format(encode_output_format(c)) == Some(encode_output_format(c)),
{
    reveal_strlit("csv");
    reveal_strlit("json");
    reveal_strlit("excel");
    reveal_strlit("database");
    assert("csv"@.len() != "json"@.len());
    assert("csv"@.len() != "excel"@.len());
    assert("csv"@.len() != "database"@.len());
    assert("json"@.len() != "excel"@.len());
    assert("json"@.len() != "database"@.len());
    assert("excel"@.len() != "database"@.len());
    match c {
        OutputFormat::Csv { .. } => {
            lemma_output_format_csv_fields(c);
            let outer = encode_output_format(c)->Object_0;
            assert(outer.len() == 1 && outer[0].0 == "csv"@);
        },
        OutputFormat::Json { .. } => {
            lemma_output_format_json_fields(c);
            let outer = encode_output_format(c)->Object_0;
            assert(outer.len() == 1 && outer[0].0 == "json"@);
        },
        OutputFormat::Excel { .. } => {
            lemma_output_format_excel_fields(c);
            let outer = encode_output_format(c)->Object_0;
            assert(outer.len() == 1 && outer[0].0 == "excel"@);
        },
        OutputFormat::Parquet => {},
        OutputFormat::Database { .. } => {
            lemma_output_format_database_fields(c);
            let outer = encode_output_format(c)->Object_0;
            assert(outer.len() == 1 && outer[0].0 == "database"@);
        },
    }
}

/// The normal form of the encoding of an output format is the encoding itself
/// but for the order of fields.
pub proof fn lemma_output_format_same(json: JsonModel)
    requires
        norm_output_format(json) is Some,
    ensures
        json_same(norm_output_format(json)->0, json),
{
    match json {
        JsonModel::Object(pairs) => {
            let inner = pairs[0].1->Object_0;
            let normal = norm_output_format(json)->0->Object_0;
            if pairs[0].0 == "csv"@ {
                lemma_output_format_csv_fields_same(inner);
            } else if pairs[0].0 == "json"@ {
                lemma_output_format_json_fields_same(inner);
            } else if pairs[0].0 == "excel"@ {
                lemma_output_format_excel_fields_same(inner);
            } else if pairs[0].0 == "database"@ {
                lemma_output_format_database_fields_same(inner);
            }
            assert(normal.len() == 1 && normal[0].0 == pairs[0].0);
            lemma_found(normal[0], pairs, 1, 0);
            lemma_all_found(normal, pairs, 1);
            lemma_covered(normal, pairs[0], 1, 0);
            lemma_all_covered(normal, pairs, 1);
        },
        _ => {
            lemma_json_same_itself(json);
        },
    }
}

/// Whether two descriptions of an output format are of the same variant and
/// hold the same values in every field.
pub open spec fn same_output_format(a: OutputFormat, b: OutputFormat) -> bool {
    (a is Csv
        && b is Csv
        && (match (a->Csv_delimiter, b->Csv_delimiter) {
            (Some(x), Some(y)) => x == y,
            (None, None) => true,
            _ => false,
        })
        && (match (a->Csv_quote_char, b->Csv_quote_char) {
            (Some(x), Some(y)) => x == y,
            (None, None) => true,
            _ => false,
        })
        && (match (a->Csv_headers, b->Csv_headers) {
            (Some(x), Some(y)) => x == y,
            (None, None) => true,
            _ => false,
        }))
    || (a is Json
        && b is Json
        && (match (a->Json_pretty_print, b->Json_pretty_print) {
            (Some(x), Some(y)) => x == y,
            (None, None) => true,
            _ => false,
        }))
    || (a is Excel
        && b is Excel
        && (match (a->Excel_sheet_name, b->Excel_sheet_name) {
            (Some(x), Some(y)) => x@ == y@,
            (None, None) => true,
            _ => false,
        }))
    || (a is Parquet && b is Parquet)
    || (a is Database
        && b is Database
        && a->Database_table_name@ == b->Database_table_name@
        && a->Database_mode == b->Database_mode)
}

/// Two descriptions of an output format with the same encoding hold the same
/// values.
pub proof fn lemma_output_format_one(a: OutputFormat, b: OutputFormat)
    requires
        encode_output_format(a) == encode_output_format(b),
    ensures
        same_output_format(a, b),
{
    reveal_strlit("csv");
    reveal_strlit("json");
    reveal_strlit("excel");
    reveal_strlit("parquet");
    reveal_strlit("database");
    assert("csv"@.len() != "json"@.len());
    assert("csv"@.len() != "excel"@.len());
    assert("csv"@.len() != "parquet"@.len());
    assert("csv"@.len() != "database"@.len());
    assert("json"@.len() != "excel"@.len());
    assert("json"@.len() != "parquet"@.len());
    assert("json"@.len() != "database"@.len());
    assert("excel"@.len() != "parquet"@.len());
    assert("excel"@.len() != "database"@.len());
    assert("parquet"@.len() != "database"@.len());
    match a {
        OutputFormat::Csv { .. } => {
            lemma_output_format_csv_pairs(
                match a->Csv_delimiter { Some(x) => Some(encode_char(x)), None => None },
                match a->Csv_quote_char { Some(x) => Some(encode_char(x)), None => None },
                match a->Csv_headers { Some(x) => Some(encode_flag(x)), None => None },
            );
            assert(
                encode_output_format(
                    a
                )->Object_0[0] == (
                    "csv"@,
                    JsonModel::Object(
                        output_format_csv_pairs(
                            match a->Csv_delimiter { Some(
                                x
                            ) => Some(encode_char(x)), None => None },
                            match a->Csv_quote_char { Some(
                                x
                            ) => Some(encode_char(x)), None => None },
                            match a->Csv_headers { Some(x) => Some(encode_flag(x)), None => None },
                        )
                    ),
                )
            );
        },
        OutputFormat::Json { .. } => {
            lemma_output_format_json_pairs(
                match a->Json_pretty_print { Some(x) => Some(encode_flag(x)), None => None }
            );
            assert(
                encode_output_format(
                    a
                )->Object_0[0] == (
                    "json"@,
                    JsonModel::Object(
                        output_format_json_pairs(
                            match a->Json_pretty_print { Some(
                                x
                            ) => Some(encode_flag(x)), None => None }
                        )
                    ),
                )
            );
        },
        OutputFormat::Excel { .. } => {
            lemma_output_format_excel_pairs(
                match a->Excel_sheet_name { Some(x) => Some(encode_text(x@)), None => None }
            );
            assert(
                encode_output_format(
                    a
                )->Object_0[0] == (
                    "excel"@,
                    JsonModel::Object(
                        output_format_excel_pairs(
                            match a->Excel_sheet_name { Some(
                                x
                            ) => Some(encode_text(x@)), None => None }
                        )
                    ),
                )
            );
        },
        OutputFormat::Parquet => {},
        OutputFormat::Database { .. } => {
            lemma_output_format_database_pairs(
                encode_text(a->Database_table_name@),
                encode_write_mode(a->Database_mode),
            );
            assert(
                encode_output_format(
                    a
                )->Object_0[0] == (
                    "database"@,
                    JsonModel::Object(
                        output_format_database_pairs(
                            encode_text(a->Database_table_name@),
                            encode_write_mode(a->Database_mode),
                        )
                    ),
                )
            );
        },
    }
    match b {
        OutputFormat::Csv { .. } => {
            lemma_output_format_csv_pairs(
                match b->Csv_delimiter { Some(x) => Some(encode_char(x)), None => None },
                match b->Csv_quote_char { Some(x) => Some(encode_char(x)), None => None },
                match b->Csv_headers { Some(x) => Some(encode_flag(x)), None => None },
            );
            assert(
                encode_output_format(
                    b
                )->Object_0[0] == (
                    "csv"@,
                    JsonModel::Object(
                        output_format_csv_pairs(
                            match b->Csv_delimiter { Some(
                                x
                            ) => Some(encode_char(x)), None => None },
                            match b->Csv_quote_char { Some(
                                x
                            ) => Some(encode_char(x)), None => None },
                            match b->Csv_headers { Some(x) => Some(encode_flag(x)), None => None },
                        )
                    ),
                )
            );
        },
        OutputFormat::Json { .. } => {
            lemma_output_format_json_pairs(
                match b->Json_pretty_print { Some(x) => Some(encode_flag(x)), None => None }
            );
            assert(
                encode_output_format(
                    b
                )->Object_0[0] == (
                    "json"@,
                    JsonModel::Object(
                        output_format_json_pairs(
                            match b->Json_pretty_print { Some(
                                x
                            ) => Some(encode_flag(x)), None => None }
                        )
                    ),
                )
            );
        },
        OutputFormat::Excel { .. } => {
            lemma_output_format_excel_pairs(
                match b->Excel_sheet_name { Some(x) => Some(encode_text(x@)), None => None }
            );
            assert(
                encode_output_format(
                    b
                )->Object_0[0] == (
                    "excel"@,
                    JsonModel::Object(
                        output_format_excel_pairs(
                            match b->Excel_sheet_name { Some(
                                x
                            ) => Some(encode_text(x@)), None => None }
                        )
                    ),
                )
            );
        },
        OutputFormat::Parquet => {},
        OutputFormat::Database { .. } => {
            lemma_output_format_database_pairs(
                encode_text(b->Database_table_name@),
                encode_write_mode(b->Database_mode),
            );
            assert(
                encode_output_format(
                    b
                )->Object_0[0] == (
                    "database"@,
                    JsonModel::Object(
                        output_format_database_pairs(
                            encode_text(b->Database_table_name@),
                            encode_write_mode(b->Database_mode),
                        )
                    ),
                )
            );
        },
    }
    if a is Csv && b is Csv {
        assert(
            output_format_csv_pairs(
                match a->Csv_delimiter { Some(x) => Some(encode_char(x)), None => None },
                match a->Csv_quote_char { Some(x) => Some(encode_char(x)), None => None },
                match a->Csv_headers { Some(x) => Some(encode_flag(x)), None => None },
            ) == output_format_csv_pairs(
                match b->Csv_delimiter { Some(x) => Some(encode_char(x)), None => None },
                match b->Csv_quote_char { Some(x) => Some(encode_char(x)), None => None },
                match b->Csv_headers { Some(x) => Some(encode_flag(x)), None => None },
            )
        );
        if a->Csv_delimiter is Some && b->Csv_delimiter is Some {
            lemma_char_one(a->Csv_delimiter->0, b->Csv_delimiter->0);
        }
        if a->Csv_quote_char is Some && b->Csv_quote_char is Some {
            lemma_char_one(a->Csv_quote_char->0, b->Csv_quote_char->0);
        }
    } else if a is Json && b is Json {
        assert(
            output_format_json_pairs(
                match a->Json_pretty_print { Some(x) => Some(encode_flag(x)), None => None }
            ) == output_format_json_pairs(
                match b->Json_pretty_print { Some(x) => Some(encode_flag(x)), None => None }
            )
        );
    } else if a is Excel && b is Excel {
        assert(
            output_format_excel_pairs(
                match a->Excel_sheet_name { Some(x) => Some(encode_text(x@)), None => None }
            ) == output_format_excel_pairs(
                match b->Excel_sheet_name { Some(x) => Some(encode_text(x@)), None => None }
            )
        );
    } else if a is Database && b is Database {
        assert(
            output_format_database_pairs(
                encode_text(a->Database_table_name@),
                encode_write_mode(a->Database_mode),
            ) == output_format_database_pairs(
                encode_text(b->Database_table_name@),
                encode_write_mode(b->Database_mode),
            )
        );
        lemma_write_mode_one(a->Database_mode, b->Database_mode);
    }
}

/// The fields of the encoding of the variant `local_file` of a destination,
/// from the encodings of its fields: a field that may be absent is left out
/// where it is.
pub open spec fn output_destination_local_file_pairs(
    f0: JsonModel,
    f1: Option<JsonModel>,
) -> Pairs {
    let pairs: Pairs = Seq::empty();
    let pairs = with_field(pairs, "type"@, Some(JsonModel::String("local_file"@)));
    let pairs = with_field(pairs, "path"@, Some(f0));
    let pairs = with_field(pairs, "compress"@, f1);
    pairs
}

/// Whether a name is the name of a field of the variant `local_file` of a
/// destination.
pub open spec fn is_output_destination_local_file_field(name: Seq<char>) -> bool {
    name == "type"@
        || name == "path"@
        || name == "compress"@
}

/// Whether every field of an object is a field of the variant `local_file` of
/// a destination, and none stands twice.
pub open spec fn only_output_destination_local_file_fields(pairs: Pairs) -> bool {
    distinct_names(pairs) && forall|i: int|
        0 <= i < pairs.len() ==> is_output_destination_local_file_field((#[trigger] pairs[i]).0)
}

/// The normal form of the fields of the variant `local_file` of a
/// destination: every field is one of its fields and stands once, every field
/// that must be there is there, and every value is in normal form. Nothing
/// where that is not so.
pub open spec fn norm_output_destination_local_file_fields(pairs: Pairs) -> Option<Pairs> {
    if !only_output_destination_local_file_fields(
        pairs
    ) || member(pairs, "type"@) != JsonModel::String("local_file"@) {
        None
    } else {
        match (
            required(pairs, "path"@, norm_string(member(pairs, "path"@))),
            optional(pairs, "compress"@, norm_compression_type(member(pairs, "compress"@))),
        ) {
            (Some(f0), Some(f1)) => Some(
                output_destination_local_file_pairs(f0, f1),
            ),
            _ => None,
        }
    }
}

/// The fields of the encoding of the variant `s3` of a destination, from the
/// encodings of its fields: a field that may be absent is left out where it
/// is.
pub open spec fn output_destination_s3_pairs(
    f0: JsonModel,
    f1: JsonModel,
    f2: JsonModel,
    f3: Option<JsonModel>,
) -> Pairs {
    let pairs: Pairs = Seq::empty();
    let pairs = with_field(pairs, "type"@, Some(JsonModel::String("s3"@)));
    let pairs = with_field(pairs, "bucket"@, Some(f0));
    let pairs = with_field(pairs, "key"@, Some(f1));
    let pairs = with_field(pairs, "region"@, Some(f2));
    let pairs = with_field(pairs, "credentials"@, f3);
    pairs
}

/// Whether a name is the name of a field of the variant `s3` of a
/// destination.
pub open spec fn is_output_destination_s3_field(name: Seq<char>) -> bool {
    name == "type"@
        || name == "bucket"@
        || name == "key"@
        || name == "region"@
        || name == "credentials"@
}

/// Whether every field of an object is a field of the variant `s3` of a
/// destination, and none stands twice.
pub open spec fn only_output_destination_s3_fields(pairs: Pairs) -> bool {
    distinct_names(pairs) && forall|i: int|
        0 <= i < pairs.len() ==> is_output_destination_s3_field((#[trigger] pairs[i]).0)
}

/// The normal form of the fields of the variant `s3` of a destination: every
/// field is one of its fields and stands once, every field that must be there
/// is there, and every value is in normal form. Nothing where that is not so.
pub open spec fn norm_output_destination_s3_fields(pairs: Pairs) -> Option<Pairs> {
    if !only_output_destination_s3_fields(
        pairs
    ) || member(pairs, "type"@) != JsonModel::String("s3"@) {
        None
    } else {
        match (
            required(pairs, "bucket"@, norm_string(member(pairs, "bucket"@))),
            required(pairs, "key"@, norm_string(member(pairs, "key"@))),
            required(pairs, "region"@, norm_string(member(pairs, "region"@))),
            optional(pairs, "credentials"@, norm_aws_credentials(member(pairs, "credentials"@))),
        ) {
            (Some(f0), Some(f1), Some(f2), Some(f3)) => Some(
                output_destination_s3_pairs(f0, f1, f2, f3),
            ),
            _ => None,
        }
    }
}

/// The fields of the encoding of the variant `database` of a destination,
/// from the encodings of its fields: a field that may be absent is left out
/// where it is.
pub open spec fn output_destination_database_pairs(f0: JsonModel, f1: JsonModel) -> Pairs {
    let pairs: Pairs = Seq::empty();
    let pairs = with_field(pairs, "type"@, Some(JsonModel::String("database"@)));
    let pairs = with_field(pairs, "connection_string"@, Some(f0));
    let pairs = with_field(pairs, "driver"@, Some(f1));
    pairs
}

/// Whether a name is the name of a field of the variant `database` of a
/// destination.
pub open spec fn is_output_destination_database_field(name: Seq<char>) -> bool {
    name == "type"@
        || name == "connection_string"@
        || name == "driver"@
}

/// Whether every field of an object is a field of the variant `database` of a
/// destination, and none stands twice.
pub open spec fn only_output_destination_database_fields(pairs: Pairs) -> bool {
    distinct_names(pairs) && forall|i: int|
        0 <= i < pairs.len() ==> is_output_destination_database_field((#[trigger] pairs[i]).0)
}

/// The normal form of the fields of the variant `database` of a destination:
/// every field is one of its fields and stands once, every field that must be
/// there is there, and every value is in normal form. Nothing where that is
/// not so.
pub open spec fn norm_output_destination_database_fields(pairs: Pairs) -> Option<Pairs> {
    if !only_output_destination_database_fields(
        pairs
    ) || member(pairs, "type"@) != JsonModel::String("database"@) {
        None
    } else {
        match (
            required(pairs, "connection_string"@, norm_string(member(pairs, "connection_string"@))),
            required(pairs, "driver"@, norm_database_driver(member(pairs, "driver"@))),
        ) {
            (Some(f0), Some(f1)) => Some(
                output_destination_database_pairs(f0, f1),
            ),
            _ => None,
        }
    }
}

/// The fields of the encoding of the variant `api` of a destination, from the
/// encodings of its fields: a field that may be absent is left out where it
/// is.
pub open spec fn output_destination_api_pairs(
    f0: JsonModel,
    f1: Option<JsonModel>,
    f2: Option<JsonModel>,
    f3: Option<JsonModel>,
) -> Pairs {
    let pairs: Pairs = Seq::empty();
    let pairs = with_field(pairs, "type"@, Some(JsonModel::String("api"@)));
    let pairs = with_field(pairs, "url"@, Some(f0));
    let pairs = with_field(pairs, "method"@, f1);
    let pairs = with_field(pairs, "headers"@, f2);
    let pairs = with_field(pairs, "auth"@, f3);
    pairs
}

/// Whether a name is the name of a field of the variant `api` of a
/// destination.
pub open spec fn is_output_destination_api_field(name: Seq<char>) -> bool {
    name == "type"@
        || name == "url"@
        || name == "method"@
        || name == "headers"@
        || name == "auth"@
}

/// Whether every field of an object is a field of the variant `api` of a
/// destination, and none stands twice.
pub open spec fn only_output_destination_api_fields(pairs: Pairs) -> bool {
    distinct_names(pairs) && forall|i: int|
        0 <= i < pairs.len() ==> is_output_destination_api_field((#[trigger] pairs[i]).0)
}

/// The normal form of the fields of the variant `api` of a destination: every
/// field is one of its fields and stands once, every field that must be there
/// is there, and every value is in normal form. Nothing where that is not so.
pub open spec fn norm_output_destination_api_fields(pairs: Pairs) -> Option<Pairs> {
    if !only_output_destination_api_fields(
        pairs
    ) || member(pairs, "type"@) != JsonModel::String("api"@) {
        None
    } else {
        match (
            required(pairs, "url"@, norm_string(member(pairs, "url"@))),
            optional(pairs, "method"@, norm_string(member(pairs, "method"@))),
            optional(pairs, "headers"@, norm_table(member(pairs, "headers"@))),
            optional(pairs, "auth"@, norm_auth_config(member(pairs, "auth"@))),
        ) {
            (Some(f0), Some(f1), Some(f2), Some(f3)) => Some(
                output_destination_api_pairs(f0, f1, f2, f3),
            ),
            _ => None,
        }
    }
}

/// The fields of the encoding of a destination.
pub open spec fn encode_output_destination_fields(c: OutputDestination) -> Pairs {
    match c {
        OutputDestination::LocalFile { path, compress } => output_destination_local_file_pairs(
            encode_text(path@),
            match compress {
                Some(x) => Some(encode_compression_type(x)),
                None => None,
            },
        ),
        OutputDestination::S3 { bucket, key, region, credentials } => output_destination_s3_pairs(
            encode_text(bucket@),
            encode_text(key@),
            encode_text(region@),
            match credentials {
                Some(x) => Some(encode_aws_credentials(x)),
                None => None,
            },
        ),
        OutputDestination::Database { connection_string, driver } => output_destination_database_pairs(
            encode_text(connection_string@),
            encode_database_driver(driver),
        ),
        OutputDestination::Api { url, method, headers, auth } => output_destination_api_pairs(
            encode_text(url@),
            match method {
                Some(x) => Some(encode_text(x@)),
                None => None,
            },
            match headers {
                Some(x) => Some(encode_table(table_texts(x@))),
                None => None,
            },
            match auth {
                Some(x) => Some(encode_auth_config(x)),
                None => None,
            },
        ),
    }
}

/// The encoding of a destination: an object with the word of the variant
/// under `type`, and then the fields of the variant that are there.
pub open spec fn encode_output_destination(c: OutputDestination) -> JsonModel {
    JsonModel::Object(encode_output_destination_fields(c))
}

/// The normal form of the fields of a destination: those of the variant that
/// the word under `type` names.
pub open spec fn norm_output_destination_fields(pairs: Pairs) -> Option<Pairs> {
    match member(pairs, "type"@) {
        JsonModel::String(tag) => if tag == "local_file"@ {
            norm_output_destination_local_file_fields(pairs)
        } else if tag == "s3"@ {
            norm_output_destination_s3_fields(pairs)
        } else if tag == "database"@ {
            norm_output_destination_database_fields(pairs)
        } else if tag == "api"@ {
            norm_output_destination_api_fields(pairs)
        } else {
            None
        },
        _ => None,
    }
}

/// The normal form of the encoding of a destination.
pub open spec fn norm_output_destination(json: JsonModel) -> Option<JsonModel> {
    match json {
        JsonModel::Object(pairs) => match norm_output_destination_fields(pairs) {
            Some(normal) => Some(JsonModel::Object(normal)),
            None => None,
        },
        _ => None,
    }
}

/// Reads the fields of the variant `local_file` of a destination.
fn decode_output_destination_local_file(
    fields: &Vec<(String, JsonValue)>,
    at: &str,
) -> (r: Result<OutputDestination>)
    requires
        member(fields_model(fields@), "type"@) == JsonModel::String("local_file"@),
    ensures
        match norm_output_destination_local_file_fields(fields_model(fields@)) {
            Some(normal) => r matches Ok(c) && encode_output_destination_fields(c) == normal,
            None => r matches Err(EtlError::ConfigError(_)),
        },
{
    proof {
        lemma_fields_model(fields@);
    }
    let mut i: usize = 0;
    while i < fields.len()
        invariant
            i <= fields.len(),
            fields_model(fields@).len() == fields.len(),
            forall|k: int|
                0 <= k < fields.len() ==> #[trigger] fields_model(fields@)[k] == (
                    fields[k].0@,
                    fields[k].1@,
                ),
            forall|k: int|
                0 <= k < i ==> is_output_destination_local_file_field(
                    (#[trigger] fields_model(fields@)[k]).0
                ),
        decreases fields.len() - i,
    {
        let name = fields[i].0.as_str();
        let known: bool = text_eq(name, "type")
            || text_eq(name, "path")
            || text_eq(name, "compress");
        if !known {
            assert(!is_output_destination_local_file_field(fields_model(fields@)[i as int].0));
            return Err(invalid(field_path(at, name).as_str()));
        }
        i += 1;
    }
    if !names_distinct(fields) {
        return Err(invalid(at));
    }
    let path = match field_of(fields, "path") {
        Some(value) => match decode_string(value, field_path(at, "path").as_str()) {
            Ok(v) => v,
            Err(e) => {
                return Err(e);
            },
        },
        None => {
            return Err(invalid(field_path(at, "path").as_str()));
        },
    };
    let compress = match field_of(fields, "compress") {
        Some(value) => match decode_compression_type(value, field_path(at, "compress").as_str()) {
            Ok(v) => Some(v),
            Err(e) => {
                return Err(e);
            },
        },
        None => None,
    };
    Ok(OutputDestination::LocalFile { path, compress })
}

/// Reads the fields of the variant `s3` of a destination.
fn decode_output_destination_s3(
    fields: &Vec<(String, JsonValue)>,
    at: &str,
) -> (r: Result<OutputDestination>)
    requires
        member(fields_model(fields@), "type"@) == JsonModel::String("s3"@),
    ensures
        match norm_output_destination_s3_fields(fields_model(fields@)) {
            Some(normal) => r matches Ok(c) && encode_output_destination_fields(c) == normal,
            None => r matches Err(EtlError::ConfigError(_)),
        },
{
    proof {
        lemma_fields_model(fields@);
    }
    let mut i: usize = 0;
    while i < fields.len()
        invariant
            i <= fields.len(),
            fields_model(fields@).len() == fields.len(),
            forall|k: int|
                0 <= k < fields.len() ==> #[trigger] fields_model(fields@)[k] == (
                    fields[k].0@,
                    fields[k].1@,
                ),
            forall|k: int|
                0 <= k < i ==> is_output_destination_s3_field(
                    (#[trigger] fields_model(fields@)[k]).0
                ),
        decreases fields.len() - i,
    {
        let name = fields[i].0.as_str();
        let known: bool = text_eq(name, "type")
            || text_eq(name, "bucket")
            || text_eq(name, "key")
            || text_eq(name, "region")
            || text_eq(name, "credentials");
        if !known {
            assert(!is_output_destination_s3_field(fields_model(fields@)[i as int].0));
            return Err(invalid(field_path(at, name).as_str()));
        }
        i += 1;
    }
    if !names_distinct(fields) {
        return Err(invalid(at));
    }
    let bucket = match field_of(fields, "bucket") {
        Some(value) => match decode_string(value, field_path(at, "bucket").as_str()) {
            Ok(v) => v,
            Err(e) => {
                return Err(e);
            },
        },
        None => {
            return Err(invalid(field_path(at, "bucket").as_str()));
        },
    };
    let key = match field_of(fields, "key") {
        Some(value) => match decode_string(value, field_path(at, "key").as_str()) {
            Ok(v) => v,
            Err(e) => {
                return Err(e);
            },
        },
        None => {
            return Err(invalid(field_path(at, "key").as_str()));
        },
    };
    let region = match field_of(fields, "region") {
        Some(value) => match decode_string(value, field_path(at, "region").as_str()) {
            Ok(v) => v,
            Err(e) => {
                return Err(e);
            },
        },
        None => {
            return Err(invalid(field_path(at, "region").as_str()));
        },
    };
    let credentials = match field_of(fields, "credentials") {
        Some(value) => match decode_aws_credentials(value, field_path(at, "credentials").as_str()) {
            Ok(v) => Some(v),
            Err(e) => {
                return Err(e);
            },
        },
        None => None,
    };
    Ok(OutputDestination::S3 { bucket, key, region, credentials })
}

/// Reads the fields of the variant `database` of a destination.
fn decode_output_destination_database(
    fields: &Vec<(String, JsonValue)>,
    at: &str,
) -> (r: Result<OutputDestination>)
    requires
        member(fields_model(fields@), "type"@) == JsonModel::String("database"@),
    ensures
        match norm_output_destination_database_fields(fields_model(fields@)) {
            Some(normal) => r matches Ok(c) && encode_output_destination_fields(c) == normal,
            None => r matches Err(EtlError::ConfigError(_)),
        },
{
    proof {
        lemma_fields_model(fields@);
    }
    let mut i: usize = 0;
    while i < fields.len()
        invariant
            i <= fields.len(),
            fields_model(fields@).len() == fields.len(),
            forall|k: int|
                0 <= k < fields.len() ==> #[trigger] fields_model(fields@)[k] == (
                    fields[k].0@,
                    fields[k].1@,
                ),
            forall|k: int|
                0 <= k < i ==> is_output_destination_database_field(
                    (#[trigger] fields_model(fields@)[k]).0
                ),
        decreases fields.len() - i,
    {
        let name = fields[i].0.as_str();
        let known: bool = text_eq(name, "type")
            || text_eq(name, "connection_string")
            || text_eq(name, "driver");
        if !known {
            assert(!is_output_destination_database_field(fields_model(fields@)[i as int].0));
            return Err(invalid(field_path(at, name).as_str()));
        }
        i += 1;
    }
    if !names_distinct(fields) {
        return Err(invalid(at));
    }
    let connection_string = match field_of(fields, "connection_string") {
        Some(value) => match decode_string(value, field_path(at, "connection_string").as_str()) {
            Ok(v) => v,
            Err(e) => {
                return Err(e);
            },
        },
        None => {
            return Err(invalid(field_path(at, "connection_string").as_str()));
        },
    };
    let driver = match field_of(fields, "driver") {
        Some(value) => match decode_database_driver(value, field_path(at, "driver").as_str()) {
            Ok(v) => v,
            Err(e) => {
                return Err(e);
            },
        },
        None => {
            return Err(invalid(field_path(at, "driver").as_str()));
        },
    };
    Ok(OutputDestination::Database { connection_string, driver })
}

/// Reads the fields of the variant `api` of a destination.
fn decode_output_destination_api(
    fields: &Vec<(String, JsonValue)>,
    at: &str,
) -> (r: Result<OutputDestination>)
    requires
        member(fields_model(fields@), "type"@) == JsonModel::String("api"@),
    ensures
        match norm_output_destination_api_fields(fields_model(fields@)) {
            Some(normal) => r matches Ok(c) && encode_output_destination_fields(c) == normal,
            None => r matches Err(EtlError::ConfigError(_)),
        },
{
    proof {
        lemma_fields_model(fields@);
    }
    let mut i: usize = 0;
    while i < fields.len()
        invariant
            i <= fields.len(),
            fields_model(fields@).len() == fields.len(),
            forall|k: int|
                0 <= k < fields.len() ==> #[trigger] fields_model(fields@)[k] == (
                    fields[k].0@,
                    fields[k].1@,
                ),
            forall|k: int|
                0 <= k < i ==> is_output_destination_api_field(
                    (#[trigger] fields_model(fields@)[k]).0
                ),
        decreases fields.len() - i,
    {
        let name = fields[i].0.as_str();
        let known: bool = text_eq(name, "type")
            || text_eq(name, "url")
            || text_eq(name, "method")
            || text_eq(name, "headers")
            || text_eq(name, "auth");
        if !known {
            assert(!is_output_destination_api_field(fields_model(fields@)[i as int].0));
            return Err(invalid(field_path(at, name).as_str()));
        }
        i += 1;
    }
    if !names_distinct(fields) {
        return Err(invalid(at));
    }
    let url = match field_of(fields, "url") {
        Some(value) => match decode_string(value, field_path(at, "url").as_str()) {
            Ok(v) => v,
            Err(e) => {
                return Err(e);
            },
        },
        None => {
            return Err(invalid(field_path(at, "url").as_str()));
        },
    };
    let method = match field_of(fields, "method") {
        Some(value) => match decode_string(value, field_path(at, "method").as_str()) {
            Ok(v) => Some(v),
            Err(e) => {
                return Err(e);
            },
        },
        None => None,
    };
    let headers = match field_of(fields, "headers") {
        Some(value) => match decode_table(value, field_path(at, "headers").as_str()) {
            Ok(v) => Some(v),
            Err(e) => {
                return Err(e);
            },
        },
        None => None,
    };
    let auth = match field_of(fields, "auth") {
        Some(value) => match decode_auth_config(value, field_path(at, "auth").as_str()) {
            Ok(v) => Some(v),
            Err(e) => {
                return Err(e);
            },
        },
        None => None,
    };
    Ok(OutputDestination::Api { url, method, headers, auth })
}

/// Reads a destination.
pub fn decode_output_destination(json: &JsonValue, at: &str) -> (r: Result<OutputDestination>)
    ensures
        decoded(r, norm_output_destination(json@)),
        r matches Ok(c) ==> Some(encode_output_destination(c)) == norm_output_destination(json@),
{
    let fields = match json {
        JsonValue::Object(fields) => fields,
        _ => {
            return Err(invalid(at));
        },
    };
    let tag = match field_of(fields, "type") {
        Some(JsonValue::String(tag)) => tag.as_str(),
        _ => {
            return Err(invalid(field_path(at, "type").as_str()));
        },
    };
    if text_eq(tag, "local_file") {
        decode_output_destination_local_file(fields, at)
    } else if text_eq(tag, "s3") {
        decode_output_destination_s3(fields, at)
    } else if text_eq(tag, "database") {
        decode_output_destination_database(fields, at)
    } else if text_eq(tag, "api") {
        decode_output_destination_api(fields, at)
    } else {
        Err(invalid(field_path(at, "type").as_str()))
    }
}

/// Writes a destination.
pub fn write_output_destination(c: &OutputDestination) -> (r: JsonValue)
    ensures
        r@ == encode_output_destination(*c),
{
    let mut fields: Vec<(String, JsonValue)> = Vec::new();
    assert(fields_model(fields@) =~= Seq::empty());
    match c {
        OutputDestination::LocalFile { path, compress } => {
            put(&mut fields, "type", JsonValue::String(String::from_str("local_file")));
            put(&mut fields, "path", write_text(path));
            match compress {
                Some(x) => {
                    put(&mut fields, "compress", write_compression_type(x));
                },
                None => {},
            }
        },
        OutputDestination::S3 { bucket, key, region, credentials } => {
            put(&mut fields, "type", JsonValue::String(String::from_str("s3")));
            put(&mut fields, "bucket", write_text(bucket));
            put(&mut fields, "key", write_text(key));
            put(&mut fields, "region", write_text(region));
            match credentials {
                Some(x) => {
                    put(&mut fields, "credentials", write_aws_credentials(x));
                },
                None => {},
            }
        },
        OutputDestination::Database { connection_string, driver } => {
            put(&mut fields, "type", JsonValue::String(String::from_str("database")));
            put(&mut fields, "connection_string", write_text(connection_string));
            put(&mut fields, "driver", write_database_driver(driver));
        },
        OutputDestination::Api { url, method, headers, auth } => {
            put(&mut fields, "type", JsonValue::String(String::from_str("api")));
            put(&mut fields, "url", write_text(url));
            match method {
                Some(x) => {
                    put(&mut fields, "method", write_text(x));
                },
                None => {},
            }
            match headers {
                Some(x) => {
                    put(&mut fields, "headers", write_table(x));
                },
                None => {},
            }
            match auth {
                Some(x) => {
                    put(&mut fields, "auth", write_auth_config(x));
                },
                None => {},
            }
        },
    }
    JsonValue::Object(fields)
}

/// What an object built as the encoding of the variant `local_file` of a
/// destination holds: its fields and no others, each once, and under each
/// name the value that was given for it.
proof fn lemma_output_destination_local_file_pairs(f0: JsonModel, f1: Option<JsonModel>)
    ensures
        only_output_destination_local_file_fields(output_destination_local_file_pairs(f0, f1)),
        member(
            output_destination_local_file_pairs(f0, f1),
            "type"@,
        ) == JsonModel::String("local_file"@),
        present(output_destination_local_file_pairs(f0, f1), "path"@),
        member(output_destination_local_file_pairs(f0, f1), "path"@) == f0,
        present(output_destination_local_file_pairs(f0, f1), "compress"@) == (f1 is Some),
        f1 is Some ==> member(output_destination_local_file_pairs(f0, f1), "compress"@) == f1->0,
{
    broadcast use {lemma_present_none, lemma_added, lemma_added_other};
    reveal_strlit("type");
    reveal_strlit("path");
    reveal_strlit("compress");
    assert("type"@[0] != "path"@[0]);
    assert("type"@.len() != "compress"@.len());
    assert("path"@.len() != "compress"@.len());
    let s0: Pairs = Seq::empty();
    let s1 = with_field(s0, "type"@, Some(JsonModel::String("local_file"@)));
    lemma_with_field_distinct(s0, "type"@, Some(JsonModel::String("local_file"@)));
    let s2 = with_field(s1, "path"@, Some(f0));
    lemma_with_field_distinct(s1, "path"@, Some(f0));
    let s3 = with_field(s2, "compress"@, f1);
    lemma_with_field_distinct(s2, "compress"@, f1);
    assert forall|i: int| 0 <= i < s3.len() implies is_output_destination_local_file_field(
        (#[trigger] s3[i]).0,
    ) by {
        lemma_name_present(s3, i);
    }
    assert(output_destination_local_file_pairs(f0, f1) == s3);
}

/// The fields of the encoding of the variant `local_file` of a destination
/// are in normal form.
proof fn lemma_output_destination_local_file_fields(c: OutputDestination)
    requires
        c is LocalFile,
    ensures
        norm_output_destination_local_file_fields(
            encode_output_destination_fields(c)
        ) == Some(encode_output_destination_fields(c)),
        member(encode_output_destination_fields(c), "type"@) == JsonModel::String("local_file"@),
{
    if c->LocalFile_compress is Some {
        lemma_compression_type(c->LocalFile_compress->0);
    }
    lemma_output_destination_local_file_pairs(
        encode_text(c->LocalFile_path@),
        match c->LocalFile_compress { Some(x) => Some(encode_compression_type(x)), None => None },
    );
}

/// The normal form of the fields of the variant `local_file` of a destination
/// is the fields themselves but for their order.
proof fn lemma_output_destination_local_file_fields_same(pairs: Pairs)
    requires
        norm_output_destination_local_file_fields(pairs) is Some,
    ensures
        json_same(
            JsonModel::Object(norm_output_destination_local_file_fields(pairs)->0),
            JsonModel::Object(pairs),
        ),
{
    let normal = norm_output_destination_local_file_fields(pairs)->0;
    if present(pairs, "path"@) {
        lemma_json_same_itself(member(pairs, "path"@));
    }
    if present(pairs, "compress"@) {
        lemma_json_same_itself(member(pairs, "compress"@));
    }
    lemma_json_same_itself(member(pairs, "type"@));
    lemma_output_destination_local_file_pairs(
        norm_string(member(pairs, "path"@))->0,
        optional(pairs, "compress"@, norm_compression_type(member(pairs, "compress"@)))->0,
    );
    assert forall|name: Seq<char>| #[trigger] present(normal, name) == present(pairs, name) by {
        if present(pairs, name) {
            lemma_present_place(pairs, name);
        }
        if present(normal, name) {
            lemma_present_place(normal, name);
        }
    }
    assert forall|name: Seq<char>| #[trigger] present(normal, name) implies json_same(
        member(normal, name),
        member(pairs, name),
    ) by {
        lemma_present_place(normal, name);
    }
    lemma_same_objects(normal, pairs);
}

/// What an object built as the encoding of the variant `s3` of a destination
/// holds: its fields and no others, each once, and under each name the value
/// that was given for it.
proof fn lemma_output_destination_s3_pairs(
    f0: JsonModel,
    f1: JsonModel,
    f2: JsonModel,
    f3: Option<JsonModel>,
)
    ensures
        only_output_destination_s3_fields(output_destination_s3_pairs(f0, f1, f2, f3)),
        member(output_destination_s3_pairs(f0, f1, f2, f3), "type"@) == JsonModel::String("s3"@),
        present(output_destination_s3_pairs(f0, f1, f2, f3), "bucket"@),
        member(output_destination_s3_pairs(f0, f1, f2, f3), "bucket"@) == f0,
        present(output_destination_s3_pairs(f0, f1, f2, f3), "key"@),
        member(output_destination_s3_pairs(f0, f1, f2, f3), "key"@) == f1,
        present(output_destination_s3_pairs(f0, f1, f2, f3), "region"@),
        member(output_destination_s3_pairs(f0, f1, f2, f3), "region"@) == f2,
        present(output_destination_s3_pairs(f0, f1, f2, f3), "credentials"@) == (f3 is Some),
        f3 is Some ==> member(output_destination_s3_pairs(f0, f1, f2, f3), "credentials"@) == f3->0,
{
    broadcast use {lemma_present_none, lemma_added, lemma_added_other};
    reveal_strlit("type");
    reveal_strlit("bucket");
    reveal_strlit("key");
    reveal_strlit("region");
    reveal_strlit("credentials");
    assert("type"@.len() != "bucket"@.len());
    assert("type"@.len() != "key"@.len());
    assert("type"@.len() != "region"@.len());
    assert("type"@.len() != "credentials"@.len());
    assert("bucket"@.len() != "key"@.len());
    assert("bucket"@[0] != "region"@[0]);
    assert("bucket"@.len() != "credentials"@.len());
    assert("key"@.len() != "region"@.len());
    assert("key"@.len() != "credentials"@.len());
    assert("region"@.len() != "credentials"@.len());
    let s0: Pairs = Seq::empty();
    let s1 = with_field(s0, "type"@, Some(JsonModel::String("s3"@)));
    lemma_with_field_distinct(s0, "type"@, Some(JsonModel::String("s3"@)));
    let s2 = with_field(s1, "bucket"@, Some(f0));
    lemma_with_field_distinct(s1, "bucket"@, Some(f0));
    let s3 = with_field(s2, "key"@, Some(f1));
    lemma_with_field_distinct(s2, "key"@, Some(f1));
    let s4 = with_field(s3, "region"@, Some(f2));
    lemma_with_field_distinct(s3, "region"@, Some(f2));
    let s5 = with_field(s4, "credentials"@, f3);
    lemma_with_field_distinct(s4, "credentials"@, f3);
    assert forall|i: int| 0 <= i < s5.len() implies is_output_destination_s3_field(
        (#[trigger] s5[i]).0,
    ) by {
        lemma_name_present(s5, i);
    }
    assert(output_destination_s3_pairs(f0, f1, f2, f3) == s5);
}

/// The fields of the encoding of the variant `s3` of a destination are in
/// normal form.
proof fn lemma_output_destination_s3_fields(c: OutputDestination)
    requires
        c is S3,
    ensures
        norm_output_destination_s3_fields(
            encode_output_destination_fields(c)
        ) == Some(encode_output_destination_fields(c)),
        member(encode_output_destination_fields(c), "type"@) == JsonModel::String("s3"@),
{
    if c->S3_credentials is Some {
        lemma_aws_credentials(c->S3_credentials->0);
    }
    lemma_output_destination_s3_pairs(
        encode_text(c->S3_bucket@),
        encode_text(c->S3_key@),
        encode_text(c->S3_region@),
        match c->S3_credentials { Some(x) => Some(encode_aws_credentials(x)), None => None },
    );
}

/// The normal form of the fields of the variant `s3` of a destination is the
/// fields themselves but for their order.
proof fn lemma_output_destination_s3_fields_same(pairs: Pairs)
    requires
        norm_output_destination_s3_fields(pairs) is Some,
    ensures
        json_same(
            JsonModel::Object(norm_output_destination_s3_fields(pairs)->0),
            JsonModel::Object(pairs),
        ),
{
    let normal = norm_output_destination_s3_fields(pairs)->0;
    if present(pairs, "bucket"@) {
        lemma_json_same_itself(member(pairs, "bucket"@));
    }
    if present(pairs, "key"@) {
        lemma_json_same_itself(member(pairs, "key"@));
    }
    if present(pairs, "region"@) {
        lemma_json_same_itself(member(pairs, "region"@));
    }
    if present(pairs, "credentials"@) {
        lemma_aws_credentials_same(member(pairs, "credentials"@));
    }
    lemma_json_same_itself(member(pairs, "type"@));
    lemma_output_destination_s3_pairs(
        norm_string(member(pairs, "bucket"@))->0,
        norm_string(member(pairs, "key"@))->0,
        norm_string(member(pairs, "region"@))->0,
        optional(pairs, "credentials"@, norm_aws_credentials(member(pairs, "credentials"@)))->0,
    );
    assert forall|name: Seq<char>| #[trigger] present(normal, name) == present(pairs, name) by {
        if present(pairs, name) {
            lemma_present_place(pairs, name);
        }
        if present(normal, name) {
            lemma_present_place(normal, name);
        }
    }
    assert forall|name: Seq<char>| #[trigger] present(normal, name) implies json_same(
        member(normal, name),
        member(pairs, name),
    ) by {
        lemma_present_place(normal, name);
    }
    lemma_same_objects(normal, pairs);
}

/// What an object built as the encoding of the variant `database` of a
/// destination holds: its fields and no others, each once, and under each
/// name the value that was given for it.
proof fn lemma_output_destination_database_pairs(f0: JsonModel, f1: JsonModel)
    ensures
        only_output_destination_database_fields(output_destination_database_pairs(f0, f1)),
        member(
            output_destination_database_pairs(f0, f1),
            "type"@,
        ) == JsonModel::String("database"@),
        present(output_destination_database_pairs(f0, f1), "connection_string"@),
        member(output_destination_database_pairs(f0, f1), "connection_string"@) == f0,
        present(output_destination_database_pairs(f0, f1), "driver"@),
        member(output_destination_database_pairs(f0, f1), "driver"@) == f1,
{
    broadcast use {lemma_present_none, lemma_added, lemma_added_other};
    reveal_strlit("type");
    reveal_strlit("connection_string");
    reveal_strlit("driver");
    assert("type"@.len() != "connection_string"@.len());
    assert("type"@.len() != "driver"@.len());
    assert("connection_string"@.len() != "driver"@.len());
    let s0: Pairs = Seq::empty();
    let s1 = with_field(s0, "type"@, Some(JsonModel::String("database"@)));
    lemma_with_field_distinct(s0, "type"@, Some(JsonModel::String("database"@)));
    let s2 = with_field(s1, "connection_string"@, Some(f0));
    lemma_with_field_distinct(s1, "connection_string"@, Some(f0));
    let s3 = with_field(s2, "driver"@, Some(f1));
    lemma_with_field_distinct(s2, "driver"@, Some(f1));
    assert forall|i: int| 0 <= i < s3.len() implies is_output_destination_database_field(
        (#[trigger] s3[i]).0,
    ) by {
        lemma_name_present(s3, i);
    }
    assert(output_destination_database_pairs(f0, f1) == s3);
}

/// The fields of the encoding of the variant `database` of a destination are
/// in normal form.
proof fn lemma_output_destination_database_fields(c: OutputDestination)
    requires
        c is Database,
    ensures
        norm_output_destination_database_fields(
            encode_output_destination_fields(c)
        ) == Some(encode_output_destination_fields(c)),
        member(encode_output_destination_fields(c), "type"@) == JsonModel::String("database"@),
{
    lemma_database_driver(c->Database_driver);
    lemma_output_destination_database_pairs(
        encode_text(c->Database_connection_string@),
        encode_database_driver(c->Database_driver),
    );
}

/// The normal form of the fields of the variant `database` of a destination
/// is the fields themselves but for their order.
proof fn lemma_output_destination_database_fields_same(pairs: Pairs)
    requires
        norm_output_destination_database_fields(pairs) is Some,
    ensures
        json_same(
            JsonModel::Object(norm_output_destination_database_fields(pairs)->0),
            JsonModel::Object(pairs),
        ),
{
    let normal = norm_output_destination_database_fields(pairs)->0;
    if present(pairs, "connection_string"@) {
        lemma_json_same_itself(member(pairs, "connection_string"@));
    }
    if present(pairs, "driver"@) {
        lemma_json_same_itself(member(pairs, "driver"@));
    }
    lemma_json_same_itself(member(pairs, "type"@));
    lemma_output_destination_database_pairs(
        norm_string(member(pairs, "connection_string"@))->0,
        norm_database_driver(member(pairs, "driver"@))->0,
    );
    assert forall|name: Seq<char>| #[trigger] present(normal, name) == present(pairs, name) by {
        if present(pairs, name) {
            lemma_present_place(pairs, name);
        }
        if present(normal, name) {
            lemma_present_place(normal, name);
        }
    }
    assert forall|name: Seq<char>| #[trigger] present(normal, name) implies json_same(
        member(normal, name),
        member(pairs, name),
    ) by {
        lemma_present_place(normal, name);
    }
    lemma_same_objects(normal, pairs);
}

/// What an object built as the encoding of the variant `api` of a destination
/// holds: its fields and no others, each once, and under each name the value
/// that was given for it.
proof fn lemma_output_destination_api_pairs(
    f0: JsonModel,
    f1: Option<JsonModel>,
    f2: Option<JsonModel>,
    f3: Option<JsonModel>,
)
    ensures
        only_output_destination_api_fields(output_destination_api_pairs(f0, f1, f2, f3)),
        member(output_destination_api_pairs(f0, f1, f2, f3), "type"@) == JsonModel::String("api"@),
        present(output_destination_api_pairs(f0, f1, f2, f3), "url"@),
        member(output_destination_api_pairs(f0, f1, f2, f3), "url"@) == f0,
        present(output_destination_api_pairs(f0, f1, f2, f3), "method"@) == (f1 is Some),
        f1 is Some ==> member(output_destination_api_pairs(f0, f1, f2, f3), "method"@) == f1->0,
        present(output_destination_api_pairs(f0, f1, f2, f3), "headers"@) == (f2 is Some),
        f2 is Some ==> member(output_destination_api_pairs(f0, f1, f2, f3), "headers"@) == f2->0,
        present(output_destination_api_pairs(f0, f1, f2, f3), "auth"@) == (f3 is Some),
        f3 is Some ==> member(output_destination_api_pairs(f0, f1, f2, f3), "auth"@) == f3->0,
{
    broadcast use {lemma_present_none, lemma_added, lemma_added_other};
    reveal_strlit("type");
    reveal_strlit("url");
    reveal_strlit("method");
    reveal_strlit("headers");
    reveal_strlit("auth");
    assert("type"@.len() != "url"@.len());
    assert("type"@.len() != "method"@.len());
    assert("type"@.len() != "headers"@.len());
    assert("type"@[0] != "auth"@[0]);
    assert("url"@.len() != "method"@.len());
    assert("url"@.len() != "headers"@.len());
    assert("url"@.len() != "auth"@.len());
    assert("method"@.len() != "headers"@.len());
    assert("method"@.len() != "auth"@.len());
    assert("headers"@.len() != "auth"@.len());
    let s0: Pairs = Seq::empty();
    let s1 = with_field(s0, "type"@, Some(JsonModel::String("api"@)));
    lemma_with_field_distinct(s0, "type"@, Some(JsonModel::String("api"@)));
    let s2 = with_field(s1, "url"@, Some(f0));
    lemma_with_field_distinct(s1, "url"@, Some(f0));
    let s3 = with_field(s2, "method"@, f1);
    lemma_with_field_distinct(s2, "method"@, f1);
    let s4 = with_field(s3, "headers"@, f2);
    lemma_with_field_distinct(s3, "headers"@, f2);
    let s5 = with_field(s4, "auth"@, f3);
    lemma_with_field_distinct(s4, "auth"@, f3);
    assert forall|i: int| 0 <= i < s5.len() implies is_output_destination_api_field(
        (#[trigger] s5[i]).0,
    ) by {
        lemma_name_present(s5, i);
    }
    assert(output_destination_api_pairs(f0, f1, f2, f3) == s5);
}

/// The fields of the encoding of the variant `api` of a destination are in
/// normal form.
proof fn lemma_output_destination_api_fields(c: OutputDestination)
    requires
        c is Api,
    ensures
        norm_output_destination_api_fields(
            encode_output_destination_fields(c)
        ) == Some(encode_output_destination_fields(c)),
        member(encode_output_destination_fields(c), "type"@) == JsonModel::String("api"@),
{
    if c->Api_headers is Some {
        lemma_table(table_texts(c->Api_headers->0@));
    }
    if c->Api_auth is Some {
        lemma_auth_config(c->Api_auth->0);
    }
    lemma_output_destination_api_pairs(
        encode_text(c->Api_url@),
        match c->Api_method { Some(x) => Some(encode_text(x@)), None => None },
        match c->Api_headers { Some(x) => Some(encode_table(table_texts(x@))), None => None },
        match c->Api_auth { Some(x) => Some(encode_auth_config(x)), None => None },
    );
}

/// The normal form of the fields of the variant `api` of a destination is the
/// fields themselves but for their order.
proof fn lemma_output_destination_api_fields_same(pairs: Pairs)
    requires
        norm_output_destination_api_fields(pairs) is Some,
    ensures
        json_same(
            JsonModel::Object(norm_output_destination_api_fields(pairs)->0),
            JsonModel::Object(pairs),
        ),
{
    let normal = norm_output_destination_api_fields(pairs)->0;
    if present(pairs, "url"@) {
        lemma_json_same_itself(member(pairs, "url"@));
    }
    if present(pairs, "method"@) {
        lemma_json_same_itself(member(pairs, "method"@));
    }
    if present(pairs, "headers"@) {
        lemma_json_same_itself(member(pairs, "headers"@));
    }
    if present(pairs, "auth"@) {
        lemma_auth_config_same(member(pairs, "auth"@));
    }
    lemma_json_same_itself(member(pairs, "type"@));
    lemma_output_destination_api_pairs(
        norm_string(member(pairs, "url"@))->0,
        optional(pairs, "method"@, norm_string(member(pairs, "method"@)))->0,
        optional(pairs, "headers"@, norm_table(member(pairs, "headers"@)))->0,
        optional(pairs, "auth"@, norm_auth_config(member(pairs, "auth"@)))->0,
    );
    assert forall|name: Seq<char>| #[trigger] present(normal, name) == present(pairs, name) by {
        if present(pairs, name) {
            lemma_present_place(pairs, name);
        }
        if present(normal, name) {
            lemma_present_place(normal, name);
        }
    }
    assert forall|name: Seq<char>| #[trigger] present(normal, name) implies json_same(
        member(normal, name),
        member(pairs, name),
    ) by {
        lemma_present_place(normal, name);
    }
    lemma_same_objects(normal, pairs);
}

/// The encoding of a destination is in normal form.
pub proof fn lemma_output_destination(c: OutputDestination)
    ensures
        norm_output_destination(encode_output_destination(c)) == Some(encode_output_destination(c)),
{
    broadcast use {lemma_present_none, lemma_added, lemma_added_other};
    reveal_strlit("type");
    reveal_strlit("local_file");
    reveal_strlit("s3");
    reveal_strlit("database");
    reveal_strlit("api");
    assert("local_file"@.len() != "s3"@.len());
    assert("local_file"@.len() != "database"@.len());
    assert("local_file"@.len() != "api"@.len());
    assert("s3"@.len() != "database"@.len());
    assert("s3"@.len() != "api"@.len());
    assert("database"@.len() != "api"@.len());
    match c {
        OutputDestination::LocalFile { .. } => {
            lemma_output_destination_local_file_fields(c);
            reveal_strlit("path");
            assert("type"@[0] != "path"@[0]);
            reveal_strlit("compress");
            assert("type"@.len() != "compress"@.len());
            assert(
                member(
                    encode_output_destination_fields(c),
                    "type"@,
                ) == JsonModel::String("local_file"@)
            );
        },
        OutputDestination::S3 { .. } => {
            lemma_output_destination_s3_fields(c);
            reveal_strlit("bucket");
            assert("type"@.len() != "bucket"@.len());
            reveal_strlit("key");
            assert("type"@.len() != "key"@.len());
            reveal_strlit("region");
            assert("type"@.len() != "region"@.len());
            reveal_strlit("credentials");
            assert("type"@.len() != "credentials"@.len());
            assert(
                member(encode_output_destination_fields(c), "type"@) == JsonModel::String("s3"@)
            );
        },
        OutputDestination::Database { .. } => {
            lemma_output_destination_database_fields(c);
            reveal_strlit("connection_string");
            assert("type"@.len() != "connection_string"@.len());
            reveal_strlit("driver");
            assert("type"@.len() != "driver"@.len());
            assert(
                member(
                    encode_output_destination_fields(c),
                    "type"@,
                ) == JsonModel::String("database"@)
            );
        },
        OutputDestination::Api { .. } => {
            lemma_output_destination_api_fields(c);
            reveal_strlit("url");
            assert("type"@.len() != "url"@.len());
            reveal_strlit("method");
            assert("type"@.len() != "method"@.len());
            reveal_strlit("headers");
            assert("type"@.len() != "headers"@.len());
            reveal_strlit("auth");
            assert("type"@[0] != "auth"@[0]);
            assert(
                member(encode_output_destination_fields(c), "type"@) == JsonModel::String("api"@)
            );
        },
    }
}

/// The normal form of the encoding of a destination is the encoding itself
/// but for the order of fields.
pub proof fn lemma_output_destination_same(json: JsonModel)
    requires
        norm_output_destination(json) is Some,
    ensures
        json_same(norm_output_destination(json)->0, json),
{
    let pairs = json->Object_0;
    let tag = member(pairs, "type"@)->String_0;
    if tag == "local_file"@ {
        lemma_output_destination_local_file_fields_same(pairs);
    } else if tag == "s3"@ {
        lemma_output_destination_s3_fields_same(pairs);
    } else if tag == "database"@ {
        lemma_output_destination_database_fields_same(pairs);
    } else if tag == "api"@ {
        lemma_output_destination_api_fields_same(pairs);
    }
}

/// Whether two descriptions of a destination are of the same variant and hold
/// the same values in every field.
pub open spec fn same_output_destination(a: OutputDestination, b: OutputDestination) -> bool {
    (a is LocalFile
        && b is LocalFile
        && a->LocalFile_path@ == b->LocalFile_path@
        && (match (a->LocalFile_compress, b->LocalFile_compress) {
            (Some(x), Some(y)) => x == y,
            (None, None) => true,
            _ => false,
        }))
    || (a is S3
        && b is S3
        && a->S3_bucket@ == b->S3_bucket@
        && a->S3_key@ == b->S3_key@
        && a->S3_region@ == b->S3_region@
        && (match (a->S3_credentials, b->S3_credentials) {
            (Some(x), Some(y)) => same_aws_credentials(x, y),
            (None, None) => true,
            _ => false,
        }))
    || (a is Database
        && b is Database
        && a->Database_connection_string@ == b->Database_connection_string@
        && a->Database_driver == b->Database_driver)
    || (a is Api
        && b is Api
        && a->Api_url@ == b->Api_url@
        && (match (a->Api_method, b->Api_method) {
            (Some(x), Some(y)) => x@ == y@,
            (None, None) => true,
            _ => false,
        })
        && (match (a->Api_headers, b->Api_headers) {
            (Some(x), Some(y)) => table_texts(x@) == table_texts(y@),
            (None, None) => true,
            _ => false,
        })
        && (match (a->Api_auth, b->Api_auth) {
            (Some(x), Some(y)) => same_auth_config(x, y),
            (None, None) => true,
            _ => false,
        }))
}

/// Two descriptions of a destination with the same encoding hold the same
/// values.
pub proof fn lemma_output_destination_one(a: OutputDestination, b: OutputDestination)
    requires
        encode_output_destination(a) == encode_output_destination(b),
    ensures
        same_output_destination(a, b),
{
    reveal_strlit("local_file");
    reveal_strlit("s3");
    reveal_strlit("database");
    reveal_strlit("api");
    assert("local_file"@.len() != "s3"@.len());
    assert("local_file"@.len() != "database"@.len());
    assert("local_file"@.len() != "api"@.len());
    assert("s3"@.len() != "database"@.len());
    assert("s3"@.len() != "api"@.len());
    assert("database"@.len() != "api"@.len());
    assert(encode_output_destination_fields(a) == encode_output_destination_fields(b));
    match a {
        OutputDestination::LocalFile { .. } => {
            lemma_output_destination_local_file_pairs(
                encode_text(a->LocalFile_path@),
                match a->LocalFile_compress { Some(
                    x
                ) => Some(encode_compression_type(x)), None => None },
            );
        },
        OutputDestination::S3 { .. } => {
            lemma_output_destination_s3_pairs(
                encode_text(a->S3_bucket@),
                encode_text(a->S3_key@),
                encode_text(a->S3_region@),
                match a->S3_credentials { Some(
                    x
                ) => Some(encode_aws_credentials(x)), None => None },
            );
        },
        OutputDestination::Database { .. } => {
            lemma_output_destination_database_pairs(
                encode_text(a->Database_connection_string@),
                encode_database_driver(a->Database_driver),
            );
        },
        OutputDestination::Api { .. } => {
            lemma_output_destination_api_pairs(
                encode_text(a->Api_url@),
                match a->Api_method { Some(x) => Some(encode_text(x@)), None => None },
                match a->Api_headers { Some(
                    x
                ) => Some(encode_table(table_texts(x@))), None => None },
                match a->Api_auth { Some(x) => Some(encode_auth_config(x)), None => None },
            );
        },
    }
    match b {
        OutputDestination::LocalFile { .. } => {
            lemma_output_destination_local_file_pairs(
                encode_text(b->LocalFile_path@),
                match b->LocalFile_compress { Some(
                    x
                ) => Some(encode_compression_type(x)), None => None },
            );
        },
        OutputDestination::S3 { .. } => {
            lemma_output_destination_s3_pairs(
                encode_text(b->S3_bucket@),
                encode_text(b->S3_key@),
                encode_text(b->S3_region@),
                match b->S3_credentials { Some(
                    x
                ) => Some(encode_aws_credentials(x)), None => None },
            );
        },
        OutputDestination::Database { .. } => {
            lemma_output_destination_database_pairs(
                encode_text(b->Database_connection_string@),
                encode_database_driver(b->Database_driver),
            );
        },
        OutputDestination::Api { .. } => {
            lemma_output_destination_api_pairs(
                encode_text(b->Api_url@),
                match b->Api_method { Some(x) => Some(encode_text(x@)), None => None },
                match b->Api_headers { Some(
                    x
                ) => Some(encode_table(table_texts(x@))), None => None },
                match b->Api_auth { Some(x) => Some(encode_auth_config(x)), None => None },
            );
        },
    }
    if a is LocalFile && b is LocalFile {
        if a->LocalFile_compress is Some && b->LocalFile_compress is Some {
            lemma_compression_type_one(a->LocalFile_compress->0, b->LocalFile_compress->0);
        }
    } else if a is S3 && b is S3 {
        if a->S3_credentials is Some && b->S3_credentials is Some {
            lemma_aws_credentials_one(a->S3_credentials->0, b->S3_credentials->0);
        }
    } else if a is Database && b is Database {
        lemma_database_driver_one(a->Database_driver, b->Database_driver);
    } else if a is Api && b is Api {
        if a->Api_headers is Some && b->Api_headers is Some {
            lemma_table_one(table_texts(a->Api_headers->0@), table_texts(b->Api_headers->0@));
        }
        if a->Api_auth is Some && b->Api_auth is Some {
            lemma_auth_config_one(a->Api_auth->0, b->Api_auth->0);
        }
    }
}

/// The fields of the encoding of an output, from the encodings of its fields:
/// a field that may be absent is left out where it is.
pub open spec fn output_config_pairs(f0: JsonModel, f1: JsonModel, f2: Option<JsonModel>) -> Pairs {
    let pairs: Pairs = Seq::empty();
    let pairs = with_field(pairs, "format"@, Some(f0));
    let pairs = with_field(pairs, "destination"@, Some(f1));
    let pairs = with_field(pairs, "options"@, f2);
    pairs
}

/// Whether a name is the name of a field of an output.
pub open spec fn is_output_config_field(name: Seq<char>) -> bool {
    name == "format"@
        || name == "destination"@
        || name == "options"@
}

/// Whether every field of an object is a field of an output, and none stands
/// twice.
pub open spec fn only_output_config_fields(pairs: Pairs) -> bool {
    distinct_names(pairs) && forall|i: int|
        0 <= i < pairs.len() ==> is_output_config_field((#[trigger] pairs[i]).0)
}

/// The fields of the encoding of an output.
pub open spec fn encode_output_config_fields(c: OutputConfig) -> Pairs {
    output_config_pairs(
        encode_output_format(c.format),
        encode_output_destination(c.destination),
        match c.options {
            Some(x) => Some(encode_output_options(x)),
            None => None,
        },
    )
}

/// The encoding of an output: an object with one field for each of its fields
/// that is there, in their order.
pub open spec fn encode_output_config(c: OutputConfig) -> JsonModel {
    JsonModel::Object(encode_output_config_fields(c))
}

/// The normal form of the fields of an output: every field is one of its
/// fields and stands once, every field that must be there is there, and every
/// value is in normal form. Nothing where that is not so.
pub open spec fn norm_output_config_fields(pairs: Pairs) -> Option<Pairs> {
    if !only_output_config_fields(pairs) {
        None
    } else {
        match (
            required(pairs, "format"@, norm_output_format(member(pairs, "format"@))),
            required(pairs, "destination"@, norm_output_destination(member(pairs, "destination"@))),
            optional(pairs, "options"@, norm_output_options(member(pairs, "options"@))),
        ) {
            (Some(f0), Some(f1), Some(f2)) => Some(
                output_config_pairs(f0, f1, f2),
            ),
            _ => None,
        }
    }
}

/// The normal form of the encoding of an output: its fields in their order,
/// each in normal form.
pub open spec fn norm_output_config(json: JsonModel) -> Option<JsonModel> {
    match json {
        JsonModel::Object(pairs) => match norm_output_config_fields(pairs) {
            Some(normal) => Some(JsonModel::Object(normal)),
            None => None,
        },
        _ => None,
    }
}

/// Reads an output.
pub fn decode_output_config(json: &JsonValue, at: &str) -> (r: Result<OutputConfig>)
    ensures
        decoded(r, norm_output_config(json@)),
        r matches Ok(c) ==> Some(encode_output_config(c)) == norm_output_config(json@),
{
    let fields = match json {
        JsonValue::Object(fields) => fields,
        _ => {
            return Err(invalid(at));
        },
    };
    proof {
        lemma_fields_model(fields@);
    }
    let mut i: usize = 0;
    while i < fields.len()
        invariant
            i <= fields.len(),
            json@ == JsonModel::Object(fields_model(fields@)),
            fields_model(fields@).len() == fields.len(),
            forall|k: int|
                0 <= k < fields.len() ==> #[trigger] fields_model(fields@)[k] == (
                    fields[k].0@,
                    fields[k].1@,
                ),
            forall|k: int|
                0 <= k < i ==> is_output_config_field((#[trigger] fields_model(fields@)[k]).0),
        decreases fields.len() - i,
    {
        let name = fields[i].0.as_str();
        let known: bool = text_eq(name, "format")
            || text_eq(name, "destination")
            || text_eq(name, "options");
        if !known {
            assert(!is_output_config_field(fields_model(fields@)[i as int].0));
            return Err(invalid(field_path(at, name).as_str()));
        }
        i += 1;
    }
    if !names_distinct(fields) {
        return Err(invalid(at));
    }
    let format = match field_of(fields, "format") {
        Some(value) => match decode_output_format(value, field_path(at, "format").as_str()) {
            Ok(v) => v,
            Err(e) => {
                return Err(e);
            },
        },
        None => {
            return Err(invalid(field_path(at, "format").as_str()));
        },
    };
    let destination = match field_of(fields, "destination") {
        Some(
            value
        ) => match decode_output_destination(value, field_path(at, "destination").as_str()) {
            Ok(v) => v,
            Err(e) => {
                return Err(e);
            },
        },
        None => {
            return Err(invalid(field_path(at, "destination").as_str()));
        },
    };
    let options = match field_of(fields, "options") {
        Some(value) => match decode_output_options(value, field_path(at, "options").as_str()) {
            Ok(v) => Some(v),
            Err(e) => {
                return Err(e);
            },
        },
        None => None,
    };
    Ok(OutputConfig { format, destination, options })
}

/// Writes an output.
pub fn write_output_config(c: &OutputConfig) -> (r: JsonValue)
    ensures
        r@ == encode_output_config(*c),
{
    let mut fields: Vec<(String, JsonValue)> = Vec::new();
    assert(fields_model(fields@) =~= Seq::empty());
    put(&mut fields, "format", write_output_format(&c.format));
    put(&mut fields, "destination", write_output_destination(&c.destination));
    match &c.options {
        Some(x) => {
            put(&mut fields, "options", write_output_options(x));
        },
        None => {},
    }
    JsonValue::Object(fields)
}

/// What an object built as the encoding of an output holds: its fields and no
/// others, each once, and under each name the value that was given for it.
proof fn lemma_output_config_pairs(f0: JsonModel, f1: JsonModel, f2: Option<JsonModel>)
    ensures
        only_output_config_fields(output_config_pairs(f0, f1, f2)),
        present(output_config_pairs(f0, f1, f2), "format"@),
        member(output_config_pairs(f0, f1, f2), "format"@) == f0,
        present(output_config_pairs(f0, f1, f2), "destination"@),
        member(output_config_pairs(f0, f1, f2), "destination"@) == f1,
        present(output_config_pairs(f0, f1, f2), "options"@) == (f2 is Some),
        f2 is Some ==> member(output_config_pairs(f0, f1, f2), "options"@) == f2->0,
{
    broadcast use {lemma_present_none, lemma_added, lemma_added_other};
    reveal_strlit("format");
    reveal_strlit("destination");
    reveal_strlit("options");
    assert("format"@.len() != "destination"@.len());
    assert("format"@.len() != "options"@.len());
    assert("destination"@.len() != "options"@.len());
    let s0: Pairs = Seq::empty();
    let s1 = with_field(s0, "format"@, Some(f0));
    lemma_with_field_distinct(s0, "format"@, Some(f0));
    let s2 = with_field(s1, "destination"@, Some(f1));
    lemma_with_field_distinct(s1, "destination"@, Some(f1));
    let s3 = with_field(s2, "options"@, f2);
    lemma_with_field_distinct(s2, "options"@, f2);
    assert forall|i: int| 0 <= i < s3.len() implies is_output_config_field(
        (#[trigger] s3[i]).0,
    ) by {
        lemma_name_present(s3, i);
    }
    assert(output_config_pairs(f0, f1, f2) == s3);
}

/// The fields of the encoding of an output are in normal form.
pub proof fn lemma_output_config_fields(c: OutputConfig)
    ensures
        norm_output_config_fields(
            encode_output_config_fields(c)
        ) == Some(encode_output_config_fields(c)),
{
    lemma_output_format(c.format);
    lemma_output_destination(c.destination);
    if c.options is Some {
        lemma_output_options(c.options->0);
    }
    lemma_output_config_pairs(
        encode_output_format(c.format),
        encode_output_destination(c.destination),
        match c.options { Some(x) => Some(encode_output_options(x)), None => None },
    );
}

/// The normal form of the fields of an output is the fields themselves but
/// for their order.
pub proof fn lemma_output_config_fields_same(pairs: Pairs)
    requires
        norm_output_config_fields(pairs) is Some,
    ensures
        json_same(
            JsonModel::Object(norm_output_config_fields(pairs)->0),
            JsonModel::Object(pairs),
        ),
{
    let normal = norm_output_config_fields(pairs)->0;
    if present(pairs, "format"@) {
        lemma_output_format_same(member(pairs, "format"@));
    }
    if present(pairs, "destination"@) {
        lemma_output_destination_same(member(pairs, "destination"@));
    }
    if present(pairs, "options"@) {
        lemma_output_options_same(member(pairs, "options"@));
    }
    lemma_output_config_pairs(
        norm_output_format(member(pairs, "format"@))->0,
        norm_output_destination(member(pairs, "destination"@))->0,
        optional(pairs, "options"@, norm_output_options(member(pairs, "options"@)))->0,
    );
    assert forall|name: Seq<char>| #[trigger] present(normal, name) == present(pairs, name) by {
        if present(pairs, name) {
            lemma_present_place(pairs, name);
        }
        if present(normal, name) {
            lemma_present_place(normal, name);
        }
    }
    assert forall|name: Seq<char>| #[trigger] present(normal, name) implies json_same(
        member(normal, name),
        member(pairs, name),
    ) by {
        lemma_present_place(normal, name);
    }
    lemma_same_objects(normal, pairs);
}

/// The encoding of an output is in normal form.
pub proof fn lemma_output_config(c: OutputConfig)
    ensures
        norm_output_config(encode_output_config(c)) == Some(encode_output_config(c)),
{
    lemma_output_config_fields(c);
}

/// The normal form of the encoding of an output is the encoding itself but
/// for the order of fields.
pub proof fn lemma_output_config_same(json: JsonModel)
    requires
        norm_output_config(json) is Some,
    ensures
        json_same(norm_output_config(json)->0, json),
{
    lemma_output_config_fields_same(json->Object_0);
}

/// Whether two descriptions of an output hold the same values in every field.
pub open spec fn same_output_config(a: OutputConfig, b: OutputConfig) -> bool {
    same_output_format(a.format, b.format)
    && same_output_destination(a.destination, b.destination)
    && (match (a.options, b.options) {
        (Some(x), Some(y)) => same_output_options(x, y),
        (None, None) => true,
        _ => false,
    })
}

/// Two descriptions of an output with the same encoding hold the same values.
pub proof fn lemma_output_config_one(a: OutputConfig, b: OutputConfig)
    requires
        encode_output_config(a) == encode_output_config(b),
    ensures
        same_output_config(a, b),
{
    lemma_output_config_pairs(
        encode_output_format(a.format),
        encode_output_destination(a.destination),
        match a.options { Some(x) => Some(encode_output_options(x)), None => None },
    );
    lemma_output_config_pairs(
        encode_output_format(b.format),
        encode_output_destination(b.destination),
        match b.options { Some(x) => Some(encode_output_options(x)), None => None },
    );
    assert(encode_output_config_fields(a) == encode_output_config_fields(b));
    lemma_output_format_one(a.format, b.format);
    lemma_output_destination_one(a.destination, b.destination);
    if a.options is Some && b.options is Some {
        lemma_output_options_one(a.options->0, b.options->0);
    }
}

} // verus!
