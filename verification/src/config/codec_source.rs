use crate::config::codec::{
    decode_bool, decode_char, decode_string, decode_strings, decode_table, decode_u32,
    decode_u64, decoded, distinct_names, encode_char, encode_count, encode_flag, encode_table,
    encode_text, encode_texts, field_of, field_path, invalid, json_same, lemma_added,
    lemma_added_other, lemma_all_covered, lemma_all_found, lemma_char_one, lemma_covered,
    lemma_found, lemma_json_same_itself, lemma_name_present, lemma_present_none,
    lemma_present_place, lemma_same_objects, lemma_table, lemma_table_one, lemma_texts,
    lemma_texts_one, lemma_with_field_distinct, member, names_distinct, norm_char, norm_count,
    norm_flag, norm_string, norm_strings, norm_table, optional, Pairs, present, put, required,
    table_texts, with_field, write_bool, write_char, write_count, write_table, write_text,
    write_texts,
};
use crate::config::codec_enums::{
    decode_auth_type, decode_database_driver, encode_auth_type, encode_database_driver,
    lemma_auth_type, lemma_auth_type_one, lemma_database_driver, lemma_database_driver_one,
    norm_auth_type, norm_database_driver, write_auth_type, write_database_driver,
};
use crate::config::multiplier::{
    decode_multiplier, encode_multiplier, lemma_multiplier, lemma_multiplier_one,
    norm_multiplier, write_multiplier,
};
use crate::config::settings::{
    AuthConfig, AuthCredentials, AwsCredentials, DataSourceConfig, FileFormat, RetryConfig,
};
use crate::models::json::{fields_model, JsonModel, JsonValue, lemma_fields_model};
use crate::utils::error::{EtlError, Result};
use crate::utils::text::{text_eq, texts_of};
use vstd::prelude::*;
use vstd::string::StringExecFns;

verus! {

/// The fields of the encoding of the credentials of an object store, from the
/// encodings of its fields: a field that may be absent is left out where it
/// is.
pub open spec fn aws_credentials_pairs(
    f0: JsonModel,
    f1: JsonModel,
    f2: Option<JsonModel>,
) -> Pairs {
    let pairs: Pairs = Seq::empty();
    let pairs = with_field(pairs, "access_key_id"@, Some(f0));
    let pairs = with_field(pairs, "secret_access_key"@, Some(f1));
    let pairs = with_field(pairs, "session_token"@, f2);
    pairs
}

/// Whether a name is the name of a field of the credentials of an object
/// store.
pub open spec fn is_aws_credentials_field(name: Seq<char>) -> bool {
    name == "access_key_id"@
        || name == "secret_access_key"@
        || name == "session_token"@
}

/// Whether every field of an object is a field of the credentials of an
/// object store, and none stands twice.
pub open spec fn only_aws_credentials_fields(pairs: Pairs) -> bool {
    distinct_names(pairs) && forall|i: int|
        0 <= i < pairs.len() ==> is_aws_credentials_field((#[trigger] pairs[i]).0)
}

/// The fields of the encoding of the credentials of an object store.
pub open spec fn encode_aws_credentials_fields(c: AwsCredentials) -> Pairs {
    aws_credentials_pairs(
        encode_text(c.access_key_id@),
        encode_text(c.secret_access_key@),
        match c.session_token {
            Some(x) => Some(encode_text(x@)),
            None => None,
        },
    )
}

/// The encoding of the credentials of an object store: an object with one
/// field for each of its fields that is there, in their order.
pub open spec fn encode_aws_credentials(c: AwsCredentials) -> JsonModel {
    JsonModel::Object(encode_aws_credentials_fields(c))
}

/// The normal form of the fields of the credentials of an object store: every
/// field is one of its fields and stands once, every field that must be there
/// is there, and every value is in normal form. Nothing where that is not so.
pub open spec fn norm_aws_credentials_fields(pairs: Pairs) -> Option<Pairs> {
    if !only_aws_credentials_fields(pairs) {
        None
    } else {
        match (
            required(pairs, "access_key_id"@, norm_string(member(pairs, "access_key_id"@))),
            required(pairs, "secret_access_key"@, norm_string(member(pairs, "secret_access_key"@))),
            optional(pairs, "session_token"@, norm_string(member(pairs, "session_token"@))),
        ) {
            (Some(f0), Some(f1), Some(f2)) => Some(
                aws_credentials_pairs(f0, f1, f2),
            ),
            _ => None,
        }
    }
}

/// The normal form of the encoding of the credentials of an object store: its
/// fields in their order, each in normal form.
pub open spec fn norm_aws_credentials(json: JsonModel) -> Option<JsonModel> {
    match json {
        JsonModel::Object(pairs) => match norm_aws_credentials_fields(pairs) {
            Some(normal) => Some(JsonModel::Object(normal)),
            None => None,
        },
        _ => None,
    }
}

/// Reads the credentials of an object store.
pub fn decode_aws_credentials(json: &JsonValue, at: &str) -> (r: Result<AwsCredentials>)
    ensures
        decoded(r, norm_aws_credentials(json@)),
        r matches Ok(c) ==> Some(encode_aws_credentials(c)) == norm_aws_credentials(json@),
{
    let fields = match json {
        JsonValue::Object(fields) => fields,
        _ => {
            return Err(invalid(at));
        },
    };
    proof {
        lemma_fields_model(fields@);
    }
    let mut i: usize = 0;
    while i < fields.len()
        invariant
            i <= fields.len(),
            json@ == JsonModel::Object(fields_model(fields@)),
            fields_model(fields@).len() == fields.len(),
            forall|k: int|
                0 <= k < fields.len() ==> #[trigger] fields_model(fields@)[k] == (
                    fields[k].0@,
                    fields[k].1@,
                ),
            forall|k: int|
                0 <= k < i ==> is_aws_credentials_field((#[trigger] fields_model(fields@)[k]).0),
        decreases fields.len() - i,
    {
        let name = fields[i].0.as_str();
        let known: bool = text_eq(name, "access_key_id")
            || text_eq(name, "secret_access_key")
            || text_eq(name, "session_token");
        if !known {
            assert(!is_aws_credentials_field(fields_model(fields@)[i as int].0));
            return Err(invalid(field_path(at, name).as_str()));
        }
        i += 1;
    }
    if !names_distinct(fields) {
        return Err(invalid(at));
    }
    let access_key_id = match field_of(fields, "access_key_id") {
        Some(value) => match decode_string(value, field_path(at, "access_key_id").as_str()) {
            Ok(v) => v,
            Err(e) => {
                return Err(e);
            },
        },
        None => {
            return Err(invalid(field_path(at, "access_key_id").as_str()));
        },
    };
    let secret_access_key = match field_of(fields, "secret_access_key") {
        Some(value) => match decode_string(value, field_path(at, "secret_access_key").as_str()) {
            Ok(v) => v,
            Err(e) => {
                return Err(e);
            },
        },
        None => {
            return Err(invalid(field_path(at, "secret_access_key").as_str()));
        },
    };
    let session_token = match field_of(fields, "session_token") {
        Some(value) => match decode_string(value, field_path(at, "session_token").as_str()) {
            Ok(v) => Some(v),
            Err(e) => {
                return Err(e);
            },
        },
        None => None,
    };
    Ok(AwsCredentials { access_key_id, secret_access_key, session_token })
}

/// Writes the credentials of an object store.
pub fn write_aws_credentials(c: &AwsCredentials) -> (r: JsonValue)
    ensures
        r@ == encode_aws_credentials(*c),
{
    let mut fields: Vec<(String, JsonValue)> = Vec::new();
    assert(fields_model(fields@) =~= Seq::empty());
    put(&mut fields, "access_key_id", write_text(&c.access_key_id));
    put(&mut fields, "secret_access_key", write_text(&c.secret_access_key));
    match &c.session_token {
        Some(x) => {
            put(&mut fields, "session_token", write_text(x));
        },
        None => {},
    }
    JsonValue::Object(fields)
}

/// What an object built as the encoding of the credentials of an object store
/// holds: its fields and no others, each once, and under each name the value
/// that was given for it.
proof fn lemma_aws_credentials_pairs(f0: JsonModel, f1: JsonModel, f2: Option<JsonModel>)
    ensures
        only_aws_credentials_fields(aws_credentials_pairs(f0, f1, f2)),
        present(aws_credentials_pairs(f0, f1, f2), "access_key_id"@),
        member(aws_credentials_pairs(f0, f1, f2), "access_key_id"@) == f0,
        present(aws_credentials_pairs(f0, f1, f2), "secret_access_key"@),
        member(aws_credentials_pairs(f0, f1, f2), "secret_access_key"@) == f1,
        present(aws_credentials_pairs(f0, f1, f2), "session_token"@) == (f2 is Some),
        f2 is Some ==> member(aws_credentials_pairs(f0, f1, f2), "session_token"@) == f2->0,
{
    broadcast use {lemma_present_none, lemma_added, lemma_added_other};
    reveal_strlit("access_key_id");
    reveal_strlit("secret_access_key");
    reveal_strlit("session_token");
    assert("access_key_id"@.len() != "secret_access_key"@.len());
    assert("access_key_id"@[0] != "session_token"@[0]);
    assert("secret_access_key"@.len() != "session_token"@.len());
    let s0: Pairs = Seq::empty();
    let s1 = with_field(s0, "access_key_id"@, Some(f0));
    lemma_with_field_distinct(s0, "access_key_id"@, Some(f0));
    let s2 = with_field(s1, "secret_access_key"@, Some(f1));
    lemma_with_field_distinct(s1, "secret_access_key"@, Some(f1));
    let s3 = with_field(s2, "session_token"@, f2);
    lemma_with_field_distinct(s2, "session_token"@, f2);
    assert forall|i: int| 0 <= i < s3.len() implies is_aws_credentials_field(
        (#[trigger] s3[i]).0,
    ) by {
        lemma_name_present(s3, i);
    }
    assert(aws_credentials_pairs(f0, f1, f2) == s3);
}

/// The fields of the encoding of the credentials of an object store are in
/// normal form.
pub proof fn lemma_aws_credentials_fields(c: AwsCredentials)
    ensures
        norm_aws_credentials_fields(
            encode_aws_credentials_fields(c)
        ) == Some(encode_aws_credentials_fields(c)),
{
    lemma_aws_credentials_pairs(
        encode_text(c.access_key_id@),
        encode_text(c.secret_access_key@),
        match c.session_token { Some(x) => Some(encode_text(x@)), None => None },
    );
}

/// The normal form of the fields of the credentials of an object store is the
/// fields themselves but for their order.
pub proof fn lemma_aws_credentials_fields_same(pairs: Pairs)
    requires
        norm_aws_credentials_fields(pairs) is Some,
    ensures
        json_same(
            JsonModel::Object(norm_aws_credentials_fields(pairs)->0),
            JsonModel::Object(pairs),
        ),
{
    let normal = norm_aws_credentials_fields(pairs)->0;
    if present(pairs, "access_key_id"@) {
        lemma_json_same_itself(member(pairs, "access_key_id"@));
    }
    if present(pairs, "secret_access_key"@) {
        lemma_json_same_itself(member(pairs, "secret_access_key"@));
    }
    if present(pairs, "session_token"@) {
        lemma_json_same_itself(member(pairs, "session_token"@));
    }
    lemma_aws_credentials_pairs(
        norm_string(member(pairs, "access_key_id"@))->0,
        norm_string(member(pairs, "secret_access_key"@))->0,
        optional(pairs, "session_token"@, norm_string(member(pairs, "session_token"@)))->0,
    );
    assert forall|name: Seq<char>| #[trigger] present(normal, name) == present(pairs, name) by {
        if present(pairs, name) {
            lemma_present_place(pairs, name);
        }
        if present(normal, name) {
            lemma_present_place(normal, name);
        }
    }
    assert forall|name: Seq<char>| #[trigger] present(normal, name) implies json_same(
        member(normal, name),
        member(pairs, name),
    ) by {
        lemma_present_place(normal, name);
    }
    lemma_same_objects(normal, pairs);
}

/// The encoding of the credentials of an object store is in normal form.
pub proof fn lemma_aws_credentials(c: AwsCredentials)
    ensures
        norm_aws_credentials(encode_aws_credentials(c)) == Some(encode_aws_credentials(c)),
{
    lemma_aws_credentials_fields(c);
}

/// The normal form of the encoding of the credentials of an object store is
/// the encoding itself but for the order of fields.
pub proof fn lemma_aws_credentials_same(json: JsonModel)
    requires
        norm_aws_credentials(json) is Some,
    ensures
        json_same(norm_aws_credentials(json)->0, json),
{
    lemma_aws_credentials_fields_same(json->Object_0);
}

/// Whether two descriptions of the credentials of an object store hold the
/// same values in every field.
pub open spec fn same_aws_credentials(a: AwsCredentials, b: AwsCredentials) -> bool {
    a.access_key_id@ == b.access_key_id@
    && a.secret_access_key@ == b.secret_access_key@
    && (match (a.session_token, b.session_token) {
        (Some(x), Some(y)) => x@ == y@,
        (None, None) => true,
        _ => false,
    })
}

/// Two descriptions of the credentials of an object store with the same
/// encoding hold the same values.
pub proof fn lemma_aws_credentials_one(a: AwsCredentials, b: AwsCredentials)
    requires
        encode_aws_credentials(a) == encode_aws_credentials(b),
    ensures
        same_aws_credentials(a, b),
{
    lemma_aws_credentials_pairs(
        encode_text(a.access_key_id@),
        encode_text(a.secret_access_key@),
        match a.session_token { Some(x) => Some(encode_text(x@)), None => None },
    );
    lemma_aws_credentials_pairs(
        encode_text(b.access_key_id@),
        encode_text(b.secret_access_key@),
        match b.session_token { Some(x) => Some(encode_text(x@)), None => None },
    );
    assert(encode_aws_credentials_fields(a) == encode_aws_credentials_fields(b));
}

/// The fields of the encoding of the credentials of a request, from the
/// encodings of its fields: a field that may be absent is left out where it
/// is.
pub open spec fn auth_credentials_pairs(
    f0: Option<JsonModel>,
    f1: Option<JsonModel>,
    f2: Option<JsonModel>,
    f3: Option<JsonModel>,
    f4: Option<JsonModel>,
) -> Pairs {
    let pairs: Pairs = Seq::empty();
    let pairs = with_field(pairs, "username"@, f0);
    let pairs = with_field(pairs, "password"@, f1);
    let pairs = with_field(pairs, "token"@, f2);
    let pairs = with_field(pairs, "api_key"@, f3);
    let pairs = with_field(pairs, "header_name"@, f4);
    pairs
}

/// Whether a name is the name of a field of the credentials of a request.
pub open spec fn is_auth_credentials_field(name: Seq<char>) -> bool {
    name == "username"@
        || name == "password"@
        || name == "token"@
        || name == "api_key"@
        || name == "header_name"@
}

/// Whether every field of an object is a field of the credentials of a
/// request, and none stands twice.
pub open spec fn only_auth_credentials_fields(pairs: Pairs) -> bool {
    distinct_names(pairs) && forall|i: int|
        0 <= i < pairs.len() ==> is_auth_credentials_field((#[trigger] pairs[i]).0)
}

/// The fields of the encoding of the credentials of a request.
pub open spec fn encode_auth_credentials_fields(c: AuthCredentials) -> Pairs {
    auth_credentials_pairs(
        match c.username {
            Some(x) => Some(encode_text(x@)),
            None => None,
        },
        match c.password {
            Some(x) => Some(encode_text(x@)),
            None => None,
        },
        match c.token {
            Some(x) => Some(encode_text(x@)),
            None => None,
        },
        match c.api_key {
            Some(x) => Some(encode_text(x@)),
            None => None,
        },
        match c.header_name {
            Some(x) => Some(encode_text(x@)),
            None => None,
        },
    )
}

/// The encoding of the credentials of a request: an object with one field for
/// each of its fields that is there, in their order.
pub open spec fn encode_auth_credentials(c: AuthCredentials) -> JsonModel {
    JsonModel::Object(encode_auth_credentials_fields(c))
}

/// The normal form of the fields of the credentials of a request: every field
/// is one of its fields and stands once, every field that must be there is
/// there, and every value is in normal form. Nothing where that is not so.
pub open spec fn norm_auth_credentials_fields(pairs: Pairs) -> Option<Pairs> {
    if !only_auth_credentials_fields(pairs) {
        None
    } else {
        match (
            optional(pairs, "username"@, norm_string(member(pairs, "username"@))),
            optional(pairs, "password"@, norm_string(member(pairs, "password"@))),
            optional(pairs, "token"@, norm_string(member(pairs, "token"@))),
            optional(pairs, "api_key"@, norm_string(member(pairs, "api_key"@))),
            optional(pairs, "header_name"@, norm_string(member(pairs, "header_name"@))),
        ) {
            (Some(f0), Some(f1), Some(f2), Some(f3), Some(f4)) => Some(
                auth_credentials_pairs(f0, f1, f2, f3, f4),
            ),
            _ => None,
        }
    }
}

/// The normal form of the encoding of the credentials of a request: its
/// fields in their order, each in normal form.
pub open spec fn norm_auth_credentials(json: JsonModel) -> Option<JsonModel> {
    match json {
        JsonModel::Object(pairs) => match norm_auth_credentials_fields(pairs) {
            Some(normal) => Some(JsonModel::Object(normal)),
            None => None,
        },
        _ => None,
    }
}

/// Reads the credentials of a request.
pub fn decode_auth_credentials(json: &JsonValue, at: &str) -> (r: Result<AuthCredentials>)
    ensures
        decoded(r, norm_auth_credentials(json@)),
        r matches Ok(c) ==> Some(encode_auth_credentials(c)) == norm_auth_credentials(json@),
{
    let fields = match json {
        JsonValue::Object(fields) => fields,
        _ => {
            return Err(invalid(at));
        },
    };
    proof {
        lemma_fields_model(fields@);
    }
    let mut i: usize = 0;
    while i < fields.len()
        invariant
            i <= fields.len(),
            json@ == JsonModel::Object(fields_model(fields@)),
            fields_model(fields@).len() == fields.len(),
            forall|k: int|
                0 <= k < fields.len() ==> #[trigger] fields_model(fields@)[k] == (
                    fields[k].0@,
                    fields[k].1@,
                ),
            forall|k: int|
                0 <= k < i ==> is_auth_credentials_field((#[trigger] fields_model(fields@)[k]).0),
        decreases fields.len() - i,
    {
        let name = fields[i].0.as_str();
        let known: bool = text_eq(name, "username")
            || text_eq(name, "password")
            || text_eq(name, "token")
            || text_eq(name, "api_key")
            || text_eq(name, "header_name");
        if !known {
            assert(!is_auth_credentials_field(fields_model(fields@)[i as int].0));
            return Err(invalid(field_path(at, name).as_str()));
        }
        i += 1;
    }
    if !names_distinct(fields) {
        return Err(invalid(at));
    }
    let username = match field_of(fields, "username") {
        Some(value) => match decode_string(value, field_path(at, "username").as_str()) {
            Ok(v) => Some(v),
            Err(e) => {
                return Err(e);
            },
        },
        None => None,
    };
    let password = match field_of(fields, "password") {
        Some(value) => match decode_string(value, field_path(at, "password").as_str()) {
            Ok(v) => Some(v),
            Err(e) => {
                return Err(e);
            },
        },
        None => None,
    };
    let token = match field_of(fields, "token") {
        Some(value) => match decode_string(value, field_path(at, "token").as_str()) {
            Ok(v) => Some(v),
            Err(e) => {
                return Err(e);
            },
        },
        None => None,
    };
    let api_key = match field_of(fields, "api_key") {
        Some(value) => match decode_string(value, field_path(at, "api_key").as_str()) {
            Ok(v) => Some(v),
            Err(e) => {
                return Err(e);
            },
        },
        None => None,
    };
    let header_name = match field_of(fields, "header_name") {
        Some(value) => match decode_string(value, field_path(at, "header_name").as_str()) {
            Ok(v) => Some(v),
            Err(e) => {
                return Err(e);
            },
        },
        None => None,
    };
    Ok(AuthCredentials { username, password, token, api_key, header_name })
}

/// Writes the credentials of a request.
pub fn write_auth_credentials(c: &AuthCredentials) -> (r: JsonValue)
    ensures
        r@ == encode_auth_credentials(*c),
{
    let mut fields: Vec<(String, JsonValue)> = Vec::new();
    assert(fields_model(fields@) =~= Seq::empty());
    match &c.username {
        Some(x) => {
            put(&mut fields, "username", write_text(x));
        },
        None => {},
    }
    match &c.password {
        Some(x) => {
            put(&mut fields, "password", write_text(x));
        },
        None => {},
    }
    match &c.token {
        Some(x) => {
            put(&mut fields, "token", write_text(x));
        },
        None => {},
    }
    match &c.api_key {
        Some(x) => {
            put(&mut fields, "api_key", write_text(x));
        },
        None => {},
    }
    match &c.header_name {
        Some(x) => {
            put(&mut fields, "header_name", write_text(x));
        },
        None => {},
    }
    JsonValue::Object(fields)
}

/// What an object built as the encoding of the credentials of a request
/// holds: its fields and no others, each once, and under each name the value
/// that was given for it.
proof fn lemma_auth_credentials_pairs(
    f0: Option<JsonModel>,
    f1: Option<JsonModel>,
    f2: Option<JsonModel>,
    f3: Option<JsonModel>,
    f4: Option<JsonModel>,
)
    ensures
        only_auth_credentials_fields(auth_credentials_pairs(f0, f1, f2, f3, f4)),
        present(auth_credentials_pairs(f0, f1, f2, f3, f4), "username"@) == (f0 is Some),
        f0 is Some ==> member(auth_credentials_pairs(f0, f1, f2, f3, f4), "username"@) == f0->0,
        present(auth_credentials_pairs(f0, f1, f2, f3, f4), "password"@) == (f1 is Some),
        f1 is Some ==> member(auth_credentials_pairs(f0, f1, f2, f3, f4), "password"@) == f1->0,
        present(auth_credentials_pairs(f0, f1, f2, f3, f4), "token"@) == (f2 is Some),
        f2 is Some ==> member(auth_credentials_pairs(f0, f1, f2, f3, f4), "token"@) == f2->0,
        present(auth_credentials_pairs(f0, f1, f2, f3, f4), "api_key"@) == (f3 is Some),
        f3 is Some ==> member(auth_credentials_pairs(f0, f1, f2, f3, f4), "api_key"@) == f3->0,
        present(auth_credentials_pairs(f0, f1, f2, f3, f4), "header_name"@) == (f4 is Some),
        f4 is Some ==> member(auth_credentials_pairs(f0, f1, f2, f3, f4), "header_name"@) == f4->0,
{
    broadcast use {lemma_present_none, lemma_added, lemma_added_other};
    reveal_strlit("username");
    reveal_strlit("password");
    reveal_strlit("token");
    reveal_strlit("api_key");
    reveal_strlit("header_name");
    assert("username"@[0] != "password"@[0]);
    assert("username"@.len() != "token"@.len());
    assert("username"@.len() != "api_key"@.len());
    assert("username"@.len() != "header_name"@.len());
    assert("password"@.len() != "token"@.len());
    assert("password"@.len() != "api_key"@.len());
    assert("password"@.len() != "header_name"@.len());
    assert("token"@.len() != "api_key"@.len());
    assert("token"@.len() != "header_name"@.len());
    assert("api_key"@.len() != "header_name"@.len());
    let s0: Pairs = Seq::empty();
    let s1 = with_field(s0, "username"@, f0);
    lemma_with_field_distinct(s0, "username"@, f0);
    let s2 = with_field(s1, "password"@, f1);
    lemma_with_field_distinct(s1, "password"@, f1);
    let s3 = with_field(s2, "token"@, f2);
    lemma_with_field_distinct(s2, "token"@, f2);
    let s4 = with_field(s3, "api_key"@, f3);
    lemma_with_field_distinct(s3, "api_key"@, f3);
    let s5 = with_field(s4, "header_name"@, f4);
    lemma_with_field_distinct(s4, "header_name"@, f4);
    assert forall|i: int| 0 <= i < s5.len() implies is_auth_credentials_field(
        (#[trigger] s5[i]).0,
    ) by {
        lemma_name_present(s5, i);
    }
    assert(auth_credentials_pairs(f0, f1, f2, f3, f4) == s5);
}

/// The fields of the encoding of the credentials of a request are in normal
/// form.
pub proof fn lemma_auth_credentials_fields(c: AuthCredentials)
    ensures
        norm_auth_credentials_fields(
            encode_auth_credentials_fields(c)
        ) == Some(encode_auth_credentials_fields(c)),
{
    lemma_auth_credentials_pairs(
        match c.username { Some(x) => Some(encode_text(x@)), None => None },
        match c.password { Some(x) => Some(encode_text(x@)), None => None },
        match c.token { Some(x) => Some(encode_text(x@)), None => None },
        match c.api_key { Some(x) => Some(encode_text(x@)), None => None },
        match c.header_name { Some(x) => Some(encode_text(x@)), None => None },
    );
}

/// The normal form of the fields of the credentials of a request is the
/// fields themselves but for their order.
pub proof fn lemma_auth_credentials_fields_same(pairs: Pairs)
    requires
        norm_auth_credentials_fields(pairs) is Some,
    ensures
        json_same(
            JsonModel::Object(norm_auth_credentials_fields(pairs)->0),
            JsonModel::Object(pairs),
        ),
{
    let normal = norm_auth_credentials_fields(pairs)->0;
    if present(pairs, "username"@) {
        lemma_json_same_itself(member(pairs, "username"@));
    }
    if present(pairs, "password"@) {
        lemma_json_same_itself(member(pairs, "password"@));
    }
    if present(pairs, "token"@) {
        lemma_json_same_itself(member(pairs, "token"@));
    }
    if present(pairs, "api_key"@) {
        lemma_json_same_itself(member(pairs, "api_key"@));
    }
    if present(pairs, "header_name"@) {
        lemma_json_same_itself(member(pairs, "header_name"@));
    }
    lemma_auth_credentials_pairs(
        optional(pairs, "username"@, norm_string(member(pairs, "username"@)))->0,
        optional(pairs, "password"@, norm_string(member(pairs, "password"@)))->0,
        optional(pairs, "token"@, norm_string(member(pairs, "token"@)))->0,
        optional(pairs, "api_key"@, norm_string(member(pairs, "api_key"@)))->0,
        optional(pairs, "header_name"@, norm_string(member(pairs, "header_name"@)))->0,
    );
    assert forall|name: Seq<char>| #[trigger] present(normal, name) == present(pairs, name) by {
        if present(pairs, name) {
            lemma_present_place(pairs, name);
        }
        if present(normal, name) {
            lemma_present_place(normal, name);
        }
    }
    assert forall|name: Seq<char>| #[trigger] present(normal, name) implies json_same(
        member(normal, name),
        member(pairs, name),
    ) by {
        lemma_present_place(normal, name);
    }
    lemma_same_objects(normal, pairs);
}

/// The encoding of the credentials of a request is in normal form.
pub proof fn lemma_auth_credentials(c: AuthCredentials)
    ensures
        norm_auth_credentials(encode_auth_credentials(c)) == Some(encode_auth_credentials(c)),
{
    lemma_auth_credentials_fields(c);
}

/// The normal form of the encoding of the credentials of a request is the
/// encoding itself but for the order of fields.
pub proof fn lemma_auth_credentials_same(json: JsonModel)
    requires
        norm_auth_credentials(json) is Some,
    ensures
        json_same(norm_auth_credentials(json)->0, json),
{
    lemma_auth_credentials_fields_same(json->Object_0);
}

/// Whether two descriptions of the credentials of a request hold the same
/// values in every field.
pub open spec fn same_auth_credentials(a: AuthCredentials, b: AuthCredentials) -> bool {
    (match (a.username, b.username) {
        (Some(x), Some(y)) => x@ == y@,
        (None, None) => true,
        _ => false,
    })
    && (match (a.password, b.password) {
        (Some(x), Some(y)) => x@ == y@,
        (None, None) => true,
        _ => false,
    })
    && (match (a.token, b.token) {
        (Some(x), Some(y)) => x@ == y@,
        (None, None) => true,
        _ => false,
    })
    && (match (a.api_key, b.api_key) {
        (Some(x), Some(y)) => x@ == y@,
        (None, None) => true,
        _ => false,
    })
    && (match (a.header_name, b.header_name) {
        (Some(x), Some(y)) => x@ == y@,
        (None, None) => true,
        _ => false,
    })
}

/// Two descriptions of the credentials of a request with the same encoding
/// hold the same values.
pub proof fn lemma_auth_credentials_one(a: AuthCredentials, b: AuthCredentials)
    requires
        encode_auth_credentials(a) == encode_auth_credentials(b),
    ensures
        same_auth_credentials(a, b),
{
    lemma_auth_credentials_pairs(
        match a.username { Some(x) => Some(encode_text(x@)), None => None },
        match a.password { Some(x) => Some(encode_text(x@)), None => None },
        match a.token { Some(x) => Some(encode_text(x@)), None => None },
        match a.api_key { Some(x) => Some(encode_text(x@)), None => None },
        match a.header_name { Some(x) => Some(encode_text(x@)), None => None },
    );
    lemma_auth_credentials_pairs(
        match b.username { Some(x) => Some(encode_text(x@)), None => None },
        match b.password { Some(x) => Some(encode_text(x@)), None => None },
        match b.token { Some(x) => Some(encode_text(x@)), None => None },
        match b.api_key { Some(x) => Some(encode_text(x@)), None => None },
        match b.header_name { Some(x) => Some(encode_text(x@)), None => None },
    );
    assert(encode_auth_credentials_fields(a) == encode_auth_credentials_fields(b));
}

/// The fields of the encoding of an authentication scheme with its
/// credentials, from the encodings of its fields: a field that may be absent
/// is left out where it is.
pub open spec fn auth_config_pairs(f0: JsonModel, f1: JsonModel) -> Pairs {
    let pairs: Pairs = Seq::empty();
    let pairs = with_field(pairs, "auth_type"@, Some(f0));
    let pairs = with_field(pairs, "credentials"@, Some(f1));
    pairs
}

/// Whether a name is the name of a field of an authentication scheme with its
/// credentials.
pub open spec fn is_auth_config_field(name: Seq<char>) -> bool {
    name == "auth_type"@
        || name == "credentials"@
}

/// Whether every field of an object is a field of an authentication scheme
/// with its credentials, and none stands twice.
pub open spec fn only_auth_config_fields(pairs: Pairs) -> bool {
    distinct_names(pairs) && forall|i: int|
        0 <= i < pairs.len() ==> is_auth_config_field((#[trigger] pairs[i]).0)
}

/// The fields of the encoding of an authentication scheme with its
/// credentials.
pub open spec fn encode_auth_config_fields(c: AuthConfig) -> Pairs {
    auth_config_pairs(
        encode_auth_type(c.auth_type),
        encode_auth_credentials(c.credentials),
    )
}

/// The encoding of an authentication scheme with its credentials: an object
/// with one field for each of its fields that is there, in their order.
pub open spec fn encode_auth_config(c: AuthConfig) -> JsonModel {
    JsonModel::Object(encode_auth_config_fields(c))
}

/// The normal form of the fields of an authentication scheme with its
/// credentials: every field is one of its fields and stands once, every field
/// that must be there is there, and every value is in normal form. Nothing
/// where that is not so.
pub open spec fn norm_auth_config_fields(pairs: Pairs) -> Option<Pairs> {
    if !only_auth_config_fields(pairs) {
        None
    } else {
        match (
            required(pairs, "auth_type"@, norm_auth_type(member(pairs, "auth_type"@))),
            required(pairs, "credentials"@, norm_auth_credentials(member(pairs, "credentials"@))),
        ) {
            (Some(f0), Some(f1)) => Some(
                auth_config_pairs(f0, f1),
            ),
            _ => None,
        }
    }
}

/// The normal form of the encoding of an authentication scheme with its
/// credentials: its fields in their order, each in normal form.
pub open spec fn norm_auth_config(json: JsonModel) -> Option<JsonModel> {
    match json {
        JsonModel::Object(pairs) => match norm_auth_config_fields(pairs) {
            Some(normal) => Some(JsonModel::Object(normal)),
            None => None,
        },
        _ => None,
    }
}

/// Reads an authentication scheme with its credentials.
pub fn decode_auth_config(json: &JsonValue, at: &str) -> (r: Result<AuthConfig>)
    ensures
        decoded(r, norm_auth_config(json@)),
        r matches Ok(c) ==> Some(encode_auth_config(c)) == norm_auth_config(json@),
{
    let fields = match json {
        JsonValue::Object(fields) => fields,
        _ => {
            return Err(invalid(at));
        },
    };
    proof {
        lemma_fields_model(fields@);
    }
    let mut i: usize = 0;
    while i < fields.len()
        invariant
            i <= fields.len(),
            json@ == JsonModel::Object(fields_model(fields@)),
            fields_model(fields@).len() == fields.len(),
            forall|k: int|
                0 <= k < fields.len() ==> #[trigger] fields_model(fields@)[k] == (
                    fields[k].0@,
                    fields[k].1@,
                ),
            forall|k: int|
                0 <= k < i ==> is_auth_config_field((#[trigger] fields_model(fields@)[k]).0),
        decreases fields.len() - i,
    {
        let name = fields[i].0.as_str();
        let known: bool = text_eq(name, "auth_type")
            || text_eq(name, "credentials");
        if !known {
            assert(!is_auth_config_field(fields_model(fields@)[i as int].0));
            return Err(invalid(field_path(at, name).as_str()));
        }
        i += 1;
    }
    if !names_distinct(fields) {
        return Err(invalid(at));
    }
    let auth_type = match field_of(fields, "auth_type") {
        Some(value) => match decode_auth_type(value, field_path(at, "auth_type").as_str()) {
            Ok(v) => v,
            Err(e) => {
                return Err(e);
            },
        },
        None => {
            return Err(invalid(field_path(at, "auth_type").as_str()));
        },
    };
    let credentials = match field_of(fields, "credentials") {
        Some(
            value
        ) => match decode_auth_credentials(value, field_path(at, "credentials").as_str()) {
            Ok(v) => v,
            Err(e) => {
                return Err(e);
            },
        },
        None => {
            return Err(invalid(field_path(at, "credentials").as_str()));
        },
    };
    Ok(AuthConfig { auth_type, credentials })
}

/// Writes an authentication scheme with its credentials.
pub fn write_auth_config(c: &AuthConfig) -> (r: JsonValue)
    ensures
        r@ == encode_auth_config(*c),
{
    let mut fields: Vec<(String, JsonValue)> = Vec::new();
    assert(fields_model(fields@) =~= Seq::empty());
    put(&mut fields, "auth_type", write_auth_type(&c.auth_type));
    put(&mut fields, "credentials", write_auth_credentials(&c.credentials));
    JsonValue::Object(fields)
}

/// What an object built as the encoding of an authentication scheme with its
/// credentials holds: its fields and no others, each once, and under each
/// name the value that was given for it.
proof fn lemma_auth_config_pairs(f0: JsonModel, f1: JsonModel)
    ensures
        only_auth_config_fields(auth_config_pairs(f0, f1)),
        present(auth_config_pairs(f0, f1), "auth_type"@),
        member(auth_config_pairs(f0, f1), "auth_type"@) == f0,
        present(auth_config_pairs(f0, f1), "credentials"@),
        member(auth_config_pairs(f0, f1), "credentials"@) == f1,
{
    broadcast use {lemma_present_none, lemma_added, lemma_added_other};
    reveal_strlit("auth_type");
    reveal_strlit("credentials");
    assert("auth_type"@.len() != "credentials"@.len());
    let s0: Pairs = Seq::empty();
    let s1 = with_field(s0, "auth_type"@, Some(f0));
    lemma_with_field_distinct(s0, "auth_type"@, Some(f0));
    let s2 = with_field(s1, "credentials"@, Some(f1));
    lemma_with_field_distinct(s1, "credentials"@, Some(f1));
    assert forall|i: int| 0 <= i < s2.len() implies is_auth_config_field(
        (#[trigger] s2[i]).0,
    ) by {
        lemma_name_present(s2, i);
    }
    assert(auth_config_pairs(f0, f1) == s2);
}

/// The fields of the encoding of an authentication scheme with its
/// credentials are in normal form.
pub proof fn lemma_auth_config_fields(c: AuthConfig)
    ensures
        norm_auth_config_fields(encode_auth_config_fields(c)) == Some(encode_auth_config_fields(c)),
{
    lemma_auth_type(c.auth_type);
    lemma_auth_credentials(c.credentials);
    lemma_auth_config_pairs(encode_auth_type(c.auth_type), encode_auth_credentials(c.credentials));
}

/// The normal form of the fields of an authentication scheme with its
/// credentials is the fields themselves but for their order.
pub proof fn lemma_auth_config_fields_same(pairs: Pairs)
    requires
        norm_auth_config_fields(pairs) is Some,
    ensures
        json_same(
            JsonModel::Object(norm_auth_config_fields(pairs)->0),
            JsonModel::Object(pairs),
        ),
{
    let normal = norm_auth_config_fields(pairs)->0;
    if present(pairs, "auth_type"@) {
        lemma_json_same_itself(member(pairs, "auth_type"@));
    }
    if present(pairs, "credentials"@) {
        lemma_auth_credentials_same(member(pairs, "credentials"@));
    }
    lemma_auth_config_pairs(
        norm_auth_type(member(pairs, "auth_type"@))->0,
        norm_auth_credentials(member(pairs, "credentials"@))->0,
    );
    assert forall|name: Seq<char>| #[trigger] present(normal, name) == present(pairs, name) by {
        if present(pairs, name) {
            lemma_present_place(pairs, name);
        }
        if present(normal, name) {
            lemma_present_place(normal, name);
        }
    }
    assert forall|name: Seq<char>| #[trigger] present(normal, name) implies json_same(
        member(normal, name),
        member(pairs, name),
    ) by {
        lemma_present_place(normal, name);
    }
    lemma_same_objects(normal, pairs);
}

/// The encoding of an authentication scheme with its credentials is in normal
/// form.
pub proof fn lemma_auth_config(c: AuthConfig)
    ensures
        norm_auth_config(encode_auth_config(c)) == Some(encode_auth_config(c)),
{
    lemma_auth_config_fields(c);
}

/// The normal form of the encoding of an authentication scheme with its
/// credentials is the encoding itself but for the order of fields.
pub proof fn lemma_auth_config_same(json: JsonModel)
    requires
        norm_auth_config(json) is Some,
    ensures
        json_same(norm_auth_config(json)->0, json),
{
    lemma_auth_config_fields_same(json->Object_0);
}

/// Whether two descriptions of an authentication scheme with its credentials
/// hold the same values in every field.
pub open spec fn same_auth_config(a: AuthConfig, b: AuthConfig) -> bool {
    a.auth_type == b.auth_type
    && same_auth_credentials(a.credentials, b.credentials)
}

/// Two descriptions of an authentication scheme with its credentials with the
/// same encoding hold the same values.
pub proof fn lemma_auth_config_one(a: AuthConfig, b: AuthConfig)
    requires
        encode_auth_config(a) == encode_auth_config(b),
    ensures
        same_auth_config(a, b),
{
    lemma_auth_config_pairs(encode_auth_type(a.auth_type), encode_auth_credentials(a.credentials));
    lemma_auth_config_pairs(encode_auth_type(b.auth_type), encode_auth_credentials(b.credentials));
    assert(encode_auth_config_fields(a) == encode_auth_config_fields(b));
    lemma_auth_type_one(a.auth_type, b.auth_type);
    lemma_auth_credentials_one(a.credentials, b.credentials);
}

/// The fields of the encoding of a retry policy, from the encodings of its
/// fields: a field that may be absent is left out where it is.
pub open spec fn retry_config_pairs(
    f0: JsonModel,
    f1: JsonModel,
    f2: JsonModel,
    f3: JsonModel,
) -> Pairs {
    let pairs: Pairs = Seq::empty();
    let pairs = with_field(pairs, "max_attempts"@, Some(f0));
    let pairs = with_field(pairs, "initial_delay_ms"@, Some(f1));
    let pairs = with_field(pairs, "max_delay_ms"@, Some(f2));
    let pairs = with_field(pairs, "backoff_multiplier"@, Some(f3));
    pairs
}

/// Whether a name is the name of a field of a retry policy.
pub open spec fn is_retry_config_field(name: Seq<char>) -> bool {
    name == "max_attempts"@
        || name == "initial_delay_ms"@
        || name == "max_delay_ms"@
        || name == "backoff_multiplier"@
}

/// Whether every field of an object is a field of a retry policy, and none
/// stands twice.
pub open spec fn only_retry_config_fields(pairs: Pairs) -> bool {
    distinct_names(pairs) && forall|i: int|
        0 <= i < pairs.len() ==> is_retry_config_field((#[trigger] pairs[i]).0)
}

/// The fields of the encoding of a retry policy.
pub open spec fn encode_retry_config_fields(c: RetryConfig) -> Pairs {
    retry_config_pairs(
        encode_count(c.max_attempts as int),
        encode_count(c.initial_delay_ms as int),
        encode_count(c.max_delay_ms as int),
        encode_multiplier(c.backoff_multiplier_permille as int),
    )
}

/// The encoding of a retry policy: an object with one field for each of its
/// fields that is there, in their order.
pub open spec fn encode_retry_config(c: RetryConfig) -> JsonModel {
    JsonModel::Object(encode_retry_config_fields(c))
}

/// The normal form of the fields of a retry policy: every field is one of its
/// fields and stands once, every field that must be there is there, and every
/// value is in normal form. Nothing where that is not so.
pub open spec fn norm_retry_config_fields(pairs: Pairs) -> Option<Pairs> {
    if !only_retry_config_fields(pairs) {
        None
    } else {
        match (
            required(
                pairs,
                "max_attempts"@,
                norm_count(member(pairs, "max_attempts"@), u32::MAX as int),
            ),
            required(
                pairs,
                "initial_delay_ms"@,
                norm_count(member(pairs, "initial_delay_ms"@), u64::MAX as int),
            ),
            required(
                pairs,
                "max_delay_ms"@,
                norm_count(member(pairs, "max_delay_ms"@), u64::MAX as int),
            ),
            required(
                pairs,
                "backoff_multiplier"@,
                norm_multiplier(member(pairs, "backoff_multiplier"@)),
            ),
        ) {
            (Some(f0), Some(f1), Some(f2), Some(f3)) => Some(
                retry_config_pairs(f0, f1, f2, f3),
            ),
            _ => None,
        }
    }
}

/// The normal form of the encoding of a retry policy: its fields in their
/// order, each in normal form.
pub open spec fn norm_retry_config(json: JsonModel) -> Option<JsonModel> {
    match json {
        JsonModel::Object(pairs) => match norm_retry_config_fields(pairs) {
            Some(normal) => Some(JsonModel::Object(normal)),
            None => None,
        },
        _ => None,
    }
}

/// Reads a retry policy.
pub fn decode_retry_config(json: &JsonValue, at: &str) -> (r: Result<RetryConfig>)
    ensures
        decoded(r, norm_retry_config(json@)),
        r matches Ok(c) ==> Some(encode_retry_config(c)) == norm_retry_config(json@),
{
    let fields = match json {
        JsonValue::Object(fields) => fields,
        _ => {
            return Err(invalid(at));
        },
    };
    proof {
        lemma_fields_model(fields@);
    }
    let mut i: usize = 0;
    while i < fields.len()
        invariant
            i <= fields.len(),
            json@ == JsonModel::Object(fields_model(fields@)),
            fields_model(fields@).len() == fields.len(),
            forall|k: int|
                0 <= k < fields.len() ==> #[trigger] fields_model(fields@)[k] == (
                    fields[k].0@,
                    fields[k].1@,
                ),
            forall|k: int|
                0 <= k < i ==> is_retry_config_field((#[trigger] fields_model(fields@)[k]).0),
        decreases fields.len() - i,
    {
        let name = fields[i].0.as_str();
        let known: bool = text_eq(name, "max_attempts")
            || text_eq(name, "initial_delay_ms")
            || text_eq(name, "max_delay_ms")
            || text_eq(name, "backoff_multiplier");
        if !known {
            assert(!is_retry_config_field(fields_model(fields@)[i as int].0));
            return Err(invalid(field_path(at, name).as_str()));
        }
        i += 1;
    }
    if !names_distinct(fields) {
        return Err(invalid(at));
    }
    let max_attempts = match field_of(fields, "max_attempts") {
        Some(value) => match decode_u32(value, field_path(at, "max_attempts").as_str()) {
            Ok(v) => v,
            Err(e) => {
                return Err(e);
            },
        },
        None => {
            return Err(invalid(field_path(at, "max_attempts").as_str()));
        },
    };
    let initial_delay_ms = match field_of(fields, "initial_delay_ms") {
        Some(value) => match decode_u64(value, field_path(at, "initial_delay_ms").as_str()) {
            Ok(v) => v,
            Err(e) => {
                return Err(e);
            },
        },
        None => {
            return Err(invalid(field_path(at, "initial_delay_ms").as_str()));
        },
    };
    let max_delay_ms = match field_of(fields, "max_delay_ms") {
        Some(value) => match decode_u64(value, field_path(at, "max_delay_ms").as_str()) {
            Ok(v) => v,
            Err(e) => {
                return Err(e);
            },
        },
        None => {
            return Err(invalid(field_path(at, "max_delay_ms").as_str()));
        },
    };
    let backoff_multiplier = match field_of(fields, "backoff_multiplier") {
        Some(
            value
        ) => match decode_multiplier(value, field_path(at, "backoff_multiplier").as_str()) {
            Ok(v) => v,
            Err(e) => {
                return Err(e);
            },
        },
        None => {
            return Err(invalid(field_path(at, "backoff_multiplier").as_str()));
        },
    };
    Ok(
        RetryConfig { max_attempts, initial_delay_ms, max_delay_ms, backoff_multiplier_permille: backoff_multiplier }
    )
}

/// Writes a retry policy.
pub fn write_retry_config(c: &RetryConfig) -> (r: JsonValue)
    ensures
        r@ == encode_retry_config(*c),
{
    let mut fields: Vec<(String, JsonValue)> = Vec::new();
    assert(fields_model(fields@) =~= Seq::empty());
    put(&mut fields, "max_attempts", write_count(c.max_attempts as u64));
    put(&mut fields, "initial_delay_ms", write_count(c.initial_delay_ms));
    put(&mut fields, "max_delay_ms", write_count(c.max_delay_ms));
    put(&mut fields, "backoff_multiplier", write_multiplier(c.backoff_multiplier_permille));
    JsonValue::Object(fields)
}

/// What an object built as the encoding of a retry policy holds: its fields
/// and no others, each once, and under each name the value that was given for
/// it.
proof fn lemma_retry_config_pairs(f0: JsonModel, f1: JsonModel, f2: JsonModel, f3: JsonModel)
    ensures
        only_retry_config_fields(retry_config_pairs(f0, f1, f2, f3)),
        present(retry_config_pairs(f0, f1, f2, f3), "max_attempts"@),
        member(retry_config_pairs(f0, f1, f2, f3), "max_attempts"@) == f0,
        present(retry_config_pairs(f0, f1, f2, f3), "initial_delay_ms"@),
        member(retry_config_pairs(f0, f1, f2, f3), "initial_delay_ms"@) == f1,
        present(retry_config_pairs(f0, f1, f2, f3), "max_delay_ms"@),
        member(retry_config_pairs(f0, f1, f2, f3), "max_delay_ms"@) == f2,
        present(retry_config_pairs(f0, f1, f2, f3), "backoff_multiplier"@),
        member(retry_config_pairs(f0, f1, f2, f3), "backoff_multiplier"@) == f3,
{
    broadcast use {lemma_present_none, lemma_added, lemma_added_other};
    reveal_strlit("max_attempts");
    reveal_strlit("initial_delay_ms");
    reveal_strlit("max_delay_ms");
    reveal_strlit("backoff_multiplier");
    assert("max_attempts"@.len() != "initial_delay_ms"@.len());
    assert("max_attempts"@[4] != "max_delay_ms"@[4]);
    assert("max_attempts"@.len() != "backoff_multiplier"@.len());
    assert("initial_delay_ms"@.len() != "max_delay_ms"@.len());
    assert("initial_delay_ms"@.len() != "backoff_multiplier"@.len());
    assert("max_delay_ms"@.len() != "backoff_multiplier"@.len());
    let s0: Pairs = Seq::empty();
    let s1 = with_field(s0, "max_attempts"@, Some(f0));
    lemma_with_field_distinct(s0, "max_attempts"@, Some(f0));
    let s2 = with_field(s1, "initial_delay_ms"@, Some(f1));
    lemma_with_field_distinct(s1, "initial_delay_ms"@, Some(f1));
    let s3 = with_field(s2, "max_delay_ms"@, Some(f2));
    lemma_with_field_distinct(s2, "max_delay_ms"@, Some(f2));
    let s4 = with_field(s3, "backoff_multiplier"@, Some(f3));
    lemma_with_field_distinct(s3, "backoff_multiplier"@, Some(f3));
    assert forall|i: int| 0 <= i < s4.len() implies is_retry_config_field(
        (#[trigger] s4[i]).0,
    ) by {
        lemma_name_present(s4, i);
    }
    assert(retry_config_pairs(f0, f1, f2, f3) == s4);
}

/// The fields of the encoding of a retry policy are in normal form.
pub proof fn lemma_retry_config_fields(c: RetryConfig)
    ensures
        norm_retry_config_fields(
            encode_retry_config_fields(c)
        ) == Some(encode_retry_config_fields(c)),
{
    lemma_multiplier(c.backoff_multiplier_permille);
    lemma_retry_config_pairs(
        encode_count(c.max_attempts as int),
        encode_count(c.initial_delay_ms as int),
        encode_count(c.max_delay_ms as int),
        encode_multiplier(c.backoff_multiplier_permille as int),
    );
}

/// The normal form of the fields of a retry policy is the fields themselves
/// but for their order.
pub proof fn lemma_retry_config_fields_same(pairs: Pairs)
    requires
        norm_retry_config_fields(pairs) is Some,
    ensures
        json_same(
            JsonModel::Object(norm_retry_config_fields(pairs)->0),
            JsonModel::Object(pairs),
        ),
{
    let normal = norm_retry_config_fields(pairs)->0;
    if present(pairs, "max_attempts"@) {
        lemma_json_same_itself(member(pairs, "max_attempts"@));
    }
    if present(pairs, "initial_delay_ms"@) {
        lemma_json_same_itself(member(pairs, "initial_delay_ms"@));
    }
    if present(pairs, "max_delay_ms"@) {
        lemma_json_same_itself(member(pairs, "max_delay_ms"@));
    }
    if present(pairs, "backoff_multiplier"@) {
        lemma_json_same_itself(member(pairs, "backoff_multiplier"@));
    }
    lemma_retry_config_pairs(
        norm_count(member(pairs, "max_attempts"@), u32::MAX as int)->0,
        norm_count(member(pairs, "initial_delay_ms"@), u64::MAX as int)->0,
        norm_count(member(pairs, "max_delay_ms"@), u64::MAX as int)->0,
        norm_multiplier(member(pairs, "backoff_multiplier"@))->0,
    );
    assert forall|name: Seq<char>| #[trigger] present(normal, name) == present(pairs, name) by {
        if present(pairs, name) {
            lemma_present_place(pairs, name);
        }
        if present(normal, name) {
            lemma_present_place(normal, name);
        }
    }
    assert forall|name: Seq<char>| #[trigger] present(normal, name) implies json_same(
        member(normal, name),
        member(pairs, name),
    ) by {
        lemma_present_place(normal, name);
    }
    lemma_same_objects(normal, pairs);
}

/// The encoding of a retry policy is in normal form.
pub proof fn lemma_retry_config(c: RetryConfig)
    ensures
        norm_retry_config(encode_retry_config(c)) == Some(encode_retry_config(c)),
{
    lemma_retry_config_fields(c);
}

/// The normal form of the encoding of a retry policy is the encoding itself
/// but for the order of fields.
pub proof fn lemma_retry_config_same(json: JsonModel)
    requires
        norm_retry_config(json) is Some,
    ensures
        json_same(norm_retry_config(json)->0, json),
{
    lemma_retry_config_fields_same(json->Object_0);
}

/// Whether two descriptions of a retry policy hold the same values in every
/// field.
pub open spec fn same_retry_config(a: RetryConfig, b: RetryConfig) -> bool {
    a.max_attempts == b.max_attempts
    && a.initial_delay_ms == b.initial_delay_ms
    && a.max_delay_ms == b.max_delay_ms
    && a.backoff_multiplier_permille == b.backoff_multiplier_permille
}

/// Two descriptions of a retry policy with the same encoding hold the same
/// values.
pub proof fn lemma_retry_config_one(a: RetryConfig, b: RetryConfig)
    requires
        encode_retry_config(a) == encode_retry_config(b),
    ensures
        same_retry_config(a, b),
{
    lemma_retry_config_pairs(
        encode_count(a.max_attempts as int),
        encode_count(a.initial_delay_ms as int),
        encode_count(a.max_delay_ms as int),
        encode_multiplier(a.backoff_multiplier_permille as int),
    );
    lemma_retry_config_pairs(
        encode_count(b.max_attempts as int),
        encode_count(b.initial_delay_ms as int),
        encode_count(b.max_delay_ms as int),
        encode_multiplier(b.backoff_multiplier_permille as int),
    );
    assert(encode_retry_config_fields(a) == encode_retry_config_fields(b));
    lemma_multiplier_one(a.backoff_multiplier_permille, b.backoff_multiplier_permille);
}

/// The fields of the encoding of the variant `csv` of a file format, from the
/// encodings of its fields: a field that may be absent is left out where it
/// is.
pub open spec fn file_format_csv_pairs(f0: Option<JsonModel>, f1: Option<JsonModel>) -> Pairs {
    let pairs: Pairs = Seq::empty();
    let pairs = with_field(pairs, "delimiter"@, f0);
    let pairs = with_field(pairs, "has_headers"@, f1);
    pairs
}

/// Whether a name is the name of a field of the variant `csv` of a file
/// format.
pub open spec fn is_file_format_csv_field(name: Seq<char>) -> bool {
    name == "delimiter"@
        || name == "has_headers"@
}

/// Whether every field of an object is a field of the variant `csv` of a file
/// format, and none stands twice.
pub open spec fn only_file_format_csv_fields(pairs: Pairs) -> bool {
    distinct_names(pairs) && forall|i: int|
        0 <= i < pairs.len() ==> is_file_format_csv_field((#[trigger] pairs[i]).0)
}

/// The normal form of the fields of the variant `csv` of a file format: every
/// field is one of its fields and stands once, every field that must be there
/// is there, and every value is in normal form. Nothing where that is not so.
pub open spec fn norm_file_format_csv_fields(pairs: Pairs) -> Option<Pairs> {
    if !only_file_format_csv_fields(pairs) {
        None
    } else {
        match (
            optional(pairs, "delimiter"@, norm_char(member(pairs, "delimiter"@))),
            optional(pairs, "has_headers"@, norm_flag(member(pairs, "has_headers"@))),
        ) {
            (Some(f0), Some(f1)) => Some(
                file_format_csv_pairs(f0, f1),
            ),
            _ => None,
        }
    }
}

/// The fields of the encoding of the variant `zip` of a file format, from the
/// encodings of its fields: a field that may be absent is left out where it
/// is.
pub open spec fn file_format_zip_pairs(f0: Option<JsonModel>, f1: JsonModel) -> Pairs {
    let pairs: Pairs = Seq::empty();
    let pairs = with_field(pairs, "extract_path"@, f0);
    let pairs = with_field(pairs, "target_files"@, Some(f1));
    pairs
}

/// Whether a name is the name of a field of the variant `zip` of a file
/// format.
pub open spec fn is_file_format_zip_field(name: Seq<char>) -> bool {
    name == "extract_path"@
        || name == "target_files"@
}

/// Whether every field of an object is a field of the variant `zip` of a file
/// format, and none stands twice.
pub open spec fn only_file_format_zip_fields(pairs: Pairs) -> bool {
    distinct_names(pairs) && forall|i: int|
        0 <= i < pairs.len() ==> is_file_format_zip_field((#[trigger] pairs[i]).0)
}

/// The normal form of the fields of the variant `zip` of a file format: every
/// field is one of its fields and stands once, every field that must be there
/// is there, and every value is in normal form. Nothing where that is not so.
pub open spec fn norm_file_format_zip_fields(pairs: Pairs) -> Option<Pairs> {
    if !only_file_format_zip_fields(pairs) {
        None
    } else {
        match (
            optional(pairs, "extract_path"@, norm_string(member(pairs, "extract_path"@))),
            required(pairs, "target_files"@, norm_strings(member(pairs, "target_files"@))),
        ) {
            (Some(f0), Some(f1)) => Some(
                file_format_zip_pairs(f0, f1),
            ),
            _ => None,
        }
    }
}

/// The encoding of a file format: the word of a variant without fields, and
/// an object that holds the fields of the variant under its word for any
/// other.
pub open spec fn encode_file_format(c: FileFormat) -> JsonModel {
    match c {
        FileFormat::Json => JsonModel::String("json"@),
        FileFormat::Csv { delimiter, has_headers } => JsonModel::Object(
            seq![
                (
                    "csv"@,
                    JsonModel::Object(
                        file_format_csv_pairs(
                            match delimiter {
                                Some(x) => Some(encode_char(x)),
                                None => None,
                            },
                            match has_headers {
                                Some(x) => Some(encode_flag(x)),
                                None => None,
                            },
                        ),
                    ),
                ),
            ],
        ),
        FileFormat::Tsv => JsonModel::String("tsv"@),
        FileFormat::Excel => JsonModel::String("excel"@),
        FileFormat::Parquet => JsonModel::String("parquet"@),
        FileFormat::Zip { extract_path, target_files } => JsonModel::Object(
            seq![
                (
                    "zip"@,
                    JsonModel::Object(
                        file_format_zip_pairs(
                            match extract_path {
                                Some(x) => Some(encode_text(x@)),
                                None => None,
                            },
                            encode_texts(texts_of(target_files@)),
                        ),
                    ),
                ),
            ],
        ),
    }
}

/// The normal form of what stands under the word of a variant of a file
/// format.
pub open spec fn norm_file_format_inner(word: Seq<char>, inner: JsonModel) -> Option<JsonModel> {
    match inner {
        JsonModel::Object(pairs) => if word == "csv"@ {
            match norm_file_format_csv_fields(pairs) {
                Some(normal) => Some(
                    JsonModel::Object(seq![("csv"@, JsonModel::Object(normal))]),
                ),
                None => None,
            }
        } else if word == "zip"@ {
            match norm_file_format_zip_fields(pairs) {
                Some(normal) => Some(
                    JsonModel::Object(seq![("zip"@, JsonModel::Object(normal))]),
                ),
                None => None,
            }
        } else {
            None
        },
        _ => None,
    }
}

/// The normal form of the encoding of a file format.
pub open spec fn norm_file_format(json: JsonModel) -> Option<JsonModel> {
    match json {
        JsonModel::String(word) => if word == "json"@
            || word == "tsv"@
            || word == "excel"@
            || word == "parquet"@ {
            Some(json)
        } else {
            None
        },
        JsonModel::Object(pairs) => if pairs.len() == 1 {
            norm_file_format_inner(pairs[0].0, pairs[0].1)
        } else {
            None
        },
        _ => None,
    }
}

/// Reads the fields of the variant `csv` of a file format.
fn decode_file_format_csv(inner: &JsonValue, at: &str) -> (r: Result<FileFormat>)
    ensures
        decoded(r, norm_file_format_inner("csv"@, inner@)),
        r matches Ok(c) ==> Some(encode_file_format(c)) == norm_file_format_inner("csv"@, inner@),
{
    proof {
        reveal_strlit("csv");
        reveal_strlit("zip");
        assert("csv"@[0] != "zip"@[0]);
    }
    let fields = match inner {
        JsonValue::Object(fields) => fields,
        _ => {
            return Err(invalid(at));
        },
    };
    proof {
        lemma_fields_model(fields@);
    }
    let mut i: usize = 0;
    while i < fields.len()
        invariant
            i <= fields.len(),
            inner@ == JsonModel::Object(fields_model(fields@)),
            fields_model(fields@).len() == fields.len(),
            forall|k: int|
                0 <= k < fields.len() ==> #[trigger] fields_model(fields@)[k] == (
                    fields[k].0@,
                    fields[k].1@,
                ),
            forall|k: int|
                0 <= k < i ==> is_file_format_csv_field((#[trigger] fields_model(fields@)[k]).0),
        decreases fields.len() - i,
    {
        let name = fields[i].0.as_str();
        let known: bool = text_eq(name, "delimiter")
            || text_eq(name, "has_headers");
        if !known {
            proof {
                reveal_strlit("csv");
                reveal_strlit("zip");
                assert("csv"@[0] != "zip"@[0]);
            }
            assert(!is_file_format_csv_field(fields_model(fields@)[i as int].0));
            return Err(invalid(field_path(at, name).as_str()));
        }
        i += 1;
    }
    if !names_distinct(fields) {
        return Err(invalid(at));
    }
    let delimiter = match field_of(fields, "delimiter") {
        Some(value) => match decode_char(value, field_path(at, "delimiter").as_str()) {
            Ok(v) => Some(v),
            Err(e) => {
                return Err(e);
            },
        },
        None => None,
    };
    let has_headers = match field_of(fields, "has_headers") {
        Some(value) => match decode_bool(value, field_path(at, "has_headers").as_str()) {
            Ok(v) => Some(v),
            Err(e) => {
                return Err(e);
            },
        },
        None => None,
    };
    Ok(FileFormat::Csv { delimiter, has_headers })
}

/// Reads the fields of the variant `zip` of a file format.
fn decode_file_format_zip(inner: &JsonValue, at: &str) -> (r: Result<FileFormat>)
    ensures
        decoded(r, norm_file_format_inner("zip"@, inner@)),
        r matches Ok(c) ==> Some(encode_file_format(c)) == norm_file_format_inner("zip"@, inner@),
{
    proof {
        reveal_strlit("csv");
        reveal_strlit("zip");
        assert("zip"@[0] != "csv"@[0]);
    }
    let fields = match inner {
        JsonValue::Object(fields) => fields,
        _ => {
            return Err(invalid(at));
        },
    };
    proof {
        lemma_fields_model(fields@);
    }
    let mut i: usize = 0;
    while i < fields.len()
        invariant
            i <= fields.len(),
            inner@ == JsonModel::Object(fields_model(fields@)),
            fields_model(fields@).len() == fields.len(),
            forall|k: int|
                0 <= k < fields.len() ==> #[trigger] fields_model(fields@)[k] == (
                    fields[k].0@,
                    fields[k].1@,
                ),
            forall|k: int|
                0 <= k < i ==> is_file_format_zip_field((#[trigger] fields_model(fields@)[k]).0),
        decreases fields.len() - i,
    {
        let name = fields[i].0.as_str();
        let known: bool = text_eq(name, "extract_path")
            || text_eq(name, "target_files");
        if !known {
            proof {
                reveal_strlit("csv");
                reveal_strlit("zip");
                assert("zip"@[0] != "csv"@[0]);
            }
            assert(!is_file_format_zip_field(fields_model(fields@)[i as int].0));
            return Err(invalid(field_path(at, name).as_str()));
        }
        i += 1;
    }
    if !names_distinct(fields) {
        return Err(invalid(at));
    }
    let extract_path = match field_of(fields, "extract_path") {
        Some(value) => match decode_string(value, field_path(at, "extract_path").as_str()) {
            Ok(v) => Some(v),
            Err(e) => {
                return Err(e);
            },
        },
        None => None,
    };
    let target_files = match field_of(fields, "target_files") {
        Some(value) => match decode_strings(value, field_path(at, "target_files").as_str()) {
            Ok(v) => v,
            Err(e) => {
                return Err(e);
            },
        },
        None => {
            return Err(invalid(field_path(at, "target_files").as_str()));
        },
    };
    Ok(FileFormat::Zip { extract_path, target_files })
}

/// Reads a file format.
pub fn decode_file_format(json: &JsonValue, at: &str) -> (r: Result<FileFormat>)
    ensures
        decoded(r, norm_file_format(json@)),
        r matches Ok(c) ==> Some(encode_file_format(c)) == norm_file_format(json@),
{
    match json {
        JsonValue::String(s) => {
            let word = s.as_str();
            if text_eq(word, "json") {
                Ok(FileFormat::Json)
            } else if text_eq(word, "tsv") {
                Ok(FileFormat::Tsv)
            } else if text_eq(word, "excel") {
                Ok(FileFormat::Excel)
            } else if text_eq(word, "parquet") {
                Ok(FileFormat::Parquet)
            } else {
                Err(invalid(at))
            }
        },
        JsonValue::Object(fields) => {
            proof {
                lemma_fields_model(fields@);
            }
            if fields.len() != 1 {
                return Err(invalid(at));
            }
            let key = fields[0].0.as_str();
            let inner = &fields[0].1;
            if text_eq(key, "csv") {
                decode_file_format_csv(inner, field_path(at, "csv").as_str())
            } else if text_eq(key, "zip") {
                decode_file_format_zip(inner, field_path(at, "zip").as_str())
            } else {
                Err(invalid(at))
            }
        },
        _ => Err(invalid(at)),
    }
}

/// Writes a file format.
pub fn write_file_format(c: &FileFormat) -> (r: JsonValue)
    ensures
        r@ == encode_file_format(*c),
{
    match c {
        FileFormat::Json => JsonValue::String(String::from_str("json")),
        FileFormat::Csv { delimiter, has_headers } => {
            let mut fields: Vec<(String, JsonValue)> = Vec::new();
            assert(fields_model(fields@) =~= Seq::empty());
            match delimiter {
                Some(x) => {
                    put(&mut fields, "delimiter", write_char(*x));
                },
                None => {},
            }
            match has_headers {
                Some(x) => {
                    put(&mut fields, "has_headers", write_bool(*x));
                },
                None => {},
            }
            let mut outer: Vec<(String, JsonValue)> = Vec::new();
            outer.push((String::from_str("csv"), JsonValue::Object(fields)));
            proof {
                lemma_fields_model(outer@);
                assert(fields_model(outer@) =~= seq![
                    ("csv"@, JsonValue::Object(fields)@),
                ]);
            }
            JsonValue::Object(outer)
        },
        FileFormat::Tsv => JsonValue::String(String::from_str("tsv")),
        FileFormat::Excel => JsonValue::String(String::from_str("excel")),
        FileFormat::Parquet => JsonValue::String(String::from_str("parquet")),
        FileFormat::Zip { extract_path, target_files } => {
            let mut fields: Vec<(String, JsonValue)> = Vec::new();
            assert(fields_model(fields@) =~= Seq::empty());
            match extract_path {
                Some(x) => {
                    put(&mut fields, "extract_path", write_text(x));
                },
                None => {},
            }
            put(&mut fields, "target_files", write_texts(target_files));
            let mut outer: Vec<(String, JsonValue)> = Vec::new();
            outer.push((String::from_str("zip"), JsonValue::Object(fields)));
            proof {
                lemma_fields_model(outer@);
                assert(fields_model(outer@) =~= seq![
                    ("zip"@, JsonValue::Object(fields)@),
                ]);
            }
            JsonValue::Object(outer)
        },
    }
}

/// What an object built as the encoding of the variant `csv` of a file format
/// holds: its fields and no others, each once, and under each name the value
/// that was given for it.
proof fn lemma_file_format_csv_pairs(f0: Option<JsonModel>, f1: Option<JsonModel>)
    ensures
        only_file_format_csv_fields(file_format_csv_pairs(f0, f1)),
        present(file_format_csv_pairs(f0, f1), "delimiter"@) == (f0 is Some),
        f0 is Some ==> member(file_format_csv_pairs(f0, f1), "delimiter"@) == f0->0,
        present(file_format_csv_pairs(f0, f1), "has_headers"@) == (f1 is Some),
        f1 is Some ==> member(file_format_csv_pairs(f0, f1), "has_headers"@) == f1->0,
{
    broadcast use {lemma_present_none, lemma_added, lemma_added_other};
    reveal_strlit("delimiter");
    reveal_strlit("has_headers");
    assert("delimiter"@.len() != "has_headers"@.len());
    let s0: Pairs = Seq::empty();
    let s1 = with_field(s0, "delimiter"@, f0);
    lemma_with_field_distinct(s0, "delimiter"@, f0);
    let s2 = with_field(s1, "has_headers"@, f1);
    lemma_with_field_distinct(s1, "has_headers"@, f1);
    assert forall|i: int| 0 <= i < s2.len() implies is_file_format_csv_field(
        (#[trigger] s2[i]).0,
    ) by {
        lemma_name_present(s2, i);
    }
    assert(file_format_csv_pairs(f0, f1) == s2);
}

/// The fields of the encoding of the variant `csv` of a file format are in
/// normal form.
proof fn lemma_file_format_csv_fields(c: FileFormat)
    requires
        c is Csv,
    ensures
        norm_file_format_csv_fields(
            file_format_csv_pairs(
                match c->Csv_delimiter { Some(x) => Some(encode_char(x)), None => None },
                match c->Csv_has_headers { Some(x) => Some(encode_flag(x)), None => None },
            )
        ) == Some(
            file_format_csv_pairs(
                match c->Csv_delimiter { Some(x) => Some(encode_char(x)), None => None },
                match c->Csv_has_headers { Some(x) => Some(encode_flag(x)), None => None },
            )
        ),
{
    lemma_file_format_csv_pairs(
        match c->Csv_delimiter { Some(x) => Some(encode_char(x)), None => None },
        match c->Csv_has_headers { Some(x) => Some(encode_flag(x)), None => None },
    );
}

/// The normal form of the fields of the variant `csv` of a file format is the
/// fields themselves but for their order.
proof fn lemma_file_format_csv_fields_same(pairs: Pairs)
    requires
        norm_file_format_csv_fields(pairs) is Some,
    ensures
        json_same(
            JsonModel::Object(norm_file_format_csv_fields(pairs)->0),
            JsonModel::Object(pairs),
        ),
{
    let normal = norm_file_format_csv_fields(pairs)->0;
    if present(pairs, "delimiter"@) {
        lemma_json_same_itself(member(pairs, "delimiter"@));
    }
    if present(pairs, "has_headers"@) {
        lemma_json_same_itself(member(pairs, "has_headers"@));
    }
    lemma_file_format_csv_pairs(
        optional(pairs, "delimiter"@, norm_char(member(pairs, "delimiter"@)))->0,
        optional(pairs, "has_headers"@, norm_flag(member(pairs, "has_headers"@)))->0,
    );
    assert forall|name: Seq<char>| #[trigger] present(normal, name) == present(pairs, name) by {
        if present(pairs, name) {
            lemma_present_place(pairs, name);
        }
        if present(normal, name) {
            lemma_present_place(normal, name);
        }
    }
    assert forall|name: Seq<char>| #[trigger] present(normal, name) implies json_same(
        member(normal, name),
        member(pairs, name),
    ) by {
        lemma_present_place(normal, name);
    }
    lemma_same_objects(normal, pairs);
}

/// What an object built as the encoding of the variant `zip` of a file format
/// holds: its fields and no others, each once, and under each name the value
/// that was given for it.
proof fn lemma_file_format_zip_pairs(f0: Option<JsonModel>, f1: JsonModel)
    ensures
        only_file_format_zip_fields(file_format_zip_pairs(f0, f1)),
        present(file_format_zip_pairs(f0, f1), "extract_path"@) == (f0 is Some),
        f0 is Some ==> member(file_format_zip_pairs(f0, f1), "extract_path"@) == f0->0,
        present(file_format_zip_pairs(f0, f1), "target_files"@),
        member(file_format_zip_pairs(f0, f1), "target_files"@) == f1,
{
    broadcast use {lemma_present_none, lemma_added, lemma_added_other};
    reveal_strlit("extract_path");
    reveal_strlit("target_files");
    assert("extract_path"@[0] != "target_files"@[0]);
    let s0: Pairs = Seq::empty();
    let s1 = with_field(s0, "extract_path"@, f0);
    lemma_with_field_distinct(s0, "extract_path"@, f0);
    let s2 = with_field(s1, "target_files"@, Some(f1));
    lemma_with_field_distinct(s1, "target_files"@, Some(f1));
    assert forall|i: int| 0 <= i < s2.len() implies is_file_format_zip_field(
        (#[trigger] s2[i]).0,
    ) by {
        lemma_name_present(s2, i);
    }
    assert(file_format_zip_pairs(f0, f1) == s2);
}

/// The fields of the encoding of the variant `zip` of a file format are in
/// normal form.
proof fn lemma_file_format_zip_fields(c: FileFormat)
    requires
        c is Zip,
    ensures
        norm_file_format_zip_fields(
            file_format_zip_pairs(
                match c->Zip_extract_path { Some(x) => Some(encode_text(x@)), None => None },
                encode_texts(texts_of(c->Zip_target_files@)),
            )
        ) == Some(
            file_format_zip_pairs(
                match c->Zip_extract_path { Some(x) => Some(encode_text(x@)), None => None },
                encode_texts(texts_of(c->Zip_target_files@)),
            )
        ),
{
    lemma_texts(texts_of(c->Zip_target_files@));
    lemma_file_format_zip_pairs(
        match c->Zip_extract_path { Some(x) => Some(encode_text(x@)), None => None },
        encode_texts(texts_of(c->Zip_target_files@)),
    );
}

/// The normal form of the fields of the variant `zip` of a file format is the
/// fields themselves but for their order.
proof fn lemma_file_format_zip_fields_same(pairs: Pairs)
    requires
        norm_file_format_zip_fields(pairs) is Some,
    ensures
        json_same(
            JsonModel::Object(norm_file_format_zip_fields(pairs)->0),
            JsonModel::Object(pairs),
        ),
{
    let normal = norm_file_format_zip_fields(pairs)->0;
    if present(pairs, "extract_path"@) {
        lemma_json_same_itself(member(pairs, "extract_path"@));
    }
    if present(pairs, "target_files"@) {
        lemma_json_same_itself(member(pairs, "target_files"@));
    }
    lemma_file_format_zip_pairs(
        optional(pairs, "extract_path"@, norm_string(member(pairs, "extract_path"@)))->0,
        norm_strings(member(pairs, "target_files"@))->0,
    );
    assert forall|name: Seq<char>| #[trigger] present(normal, name) == present(pairs, name) by {
        if present(pairs, name) {
            lemma_present_place(pairs, name);
        }
        if present(normal, name) {
            lemma_present_place(normal, name);
        }
    }
    assert forall|name: Seq<char>| #[trigger] present(normal, name) implies json_same(
        member(normal, name),
        member(pairs, name),
    ) by {
        lemma_present_place(normal, name);
    }
    lemma_same_objects(normal, pairs);
}

/// The encoding of a file format is in normal form.
pub proof fn lemma_file_format(c: FileFormat)
    ensures
        norm_file_format(encode_file_format(c)) == Some(encode_file_format(c)),
{
    reveal_strlit("csv");
    reveal_strlit("zip");
    assert("csv"@[0] != "zip"@[0]);
    match c {
        FileFormat::Json => {},
        FileFormat::Csv { .. } => {
            lemma_file_format_csv_fields(c);
            let outer = encode_file_format(c)->Object_0;
            assert(outer.len() == 1 && outer[0].0 == "csv"@);
        },
        FileFormat::Tsv => {},
        FileFormat::Excel => {},
        FileFormat::Parquet => {},
        FileFormat::Zip { .. } => {
            lemma_file_format_zip_fields(c);
            let outer = encode_file_format(c)->Object_0;
            assert(outer.len() == 1 && outer[0].0 == "zip"@);
        },
    }
}

/// The normal form of the encoding of a file format is the encoding itself
/// but for the order of fields.
pub proof fn lemma_file_format_same(json: JsonModel)
    requires
        norm_file_format(json) is Some,
    ensures
        json_same(norm_file_format(json)->0, json),
{
    match json {
        JsonModel::Object(pairs) => {
            let inner = pairs[0].1->Object_0;
            let normal = norm_file_format(json)->0->Object_0;
            if pairs[0].0 == "csv"@ {
                lemma_file_format_csv_fields_same(inner);
            } else if pairs[0].0 == "zip"@ {
                lemma_file_format_zip_fields_same(inner);
            }
            assert(normal.len() == 1 && normal[0].0 == pairs[0].0);
            lemma_found(normal[0], pairs, 1, 0);
            lemma_all_found(normal, pairs, 1);
            lemma_covered(normal, pairs[0], 1, 0);
            lemma_all_covered(normal, pairs, 1);
        },
        _ => {
            lemma_json_same_itself(json);
        },
    }
}

/// Whether two descriptions of a file format are of the same variant and hold
/// the same values in every field.
pub open spec fn same_file_format(a: FileFormat, b: FileFormat) -> bool {
    (a is Json && b is Json)
    || (a is Csv
        && b is Csv
        && (match (a->Csv_delimiter, b->Csv_delimiter) {
            (Some(x), Some(y)) => x == y,
            (None, None) => true,
            _ => false,
        })
        && (match (a->Csv_has_headers, b->Csv_has_headers) {
            (Some(x), Some(y)) => x == y,
            (None, None) => true,
            _ => false,
        }))
    || (a is Tsv && b is Tsv)
    || (a is Excel && b is Excel)
    || (a is Parquet && b is Parquet)
    || (a is Zip
        && b is Zip
        && (match (a->Zip_extract_path, b->Zip_extract_path) {
            (Some(x), Some(y)) => x@ == y@,
            (None, None) => true,
            _ => false,
        })
        && texts_of(a->Zip_target_files@) == texts_of(b->Zip_target_files@))
}

/// Two descriptions of a file format with the same encoding hold the same
/// values.
pub proof fn lemma_file_format_one(a: FileFormat, b: FileFormat)
    requires
        encode_file_format(a) == encode_file_format(b),
    ensures
        same_file_format(a, b),
{
    reveal_strlit("json");
    reveal_strlit("csv");
    reveal_strlit("tsv");
    reveal_strlit("excel");
    reveal_strlit("parquet");
    reveal_strlit("zip");
    assert("json"@.len() != "csv"@.len());
    assert("json"@.len() != "tsv"@.len());
    assert("json"@.len() != "excel"@.len());
    assert("json"@.len() != "parquet"@.len());
    assert("json"@.len() != "zip"@.len());
    assert("csv"@[0] != "tsv"@[0]);
    assert("csv"@.len() != "excel"@.len());
    assert("csv"@.len() != "parquet"@.len());
    assert("csv"@[0] != "zip"@[0]);
    assert("tsv"@.len() != "excel"@.len());
    assert("tsv"@.len() != "parquet"@.len());
    assert("tsv"@[0] != "zip"@[0]);
    assert("excel"@.len() != "parquet"@.len());
    assert("excel"@.len() != "zip"@.len());
    assert("parquet"@.len() != "zip"@.len());
    match a {
        FileFormat::Json => {},
        FileFormat::Csv { .. } => {
            lemma_file_format_csv_pairs(
                match a->Csv_delimiter { Some(x) => Some(encode_char(x)), None => None },
                match a->Csv_has_headers { Some(x) => Some(encode_flag(x)), None => None },
            );
            assert(
                encode_file_format(
                    a
                )->Object_0[0] == (
                    "csv"@,
                    JsonModel::Object(
                        file_format_csv_pairs(
                            match a->Csv_delimiter { Some(
                                x
                            ) => Some(encode_char(x)), None => None },
                            match a->Csv_has_headers { Some(
                                x
                            ) => Some(encode_flag(x)), None => None },
                        )
                    ),
                )
            );
        },
        FileFormat::Tsv => {},
        FileFormat::Excel => {},
        FileFormat::Parquet => {},
        FileFormat::Zip { .. } => {
            lemma_file_format_zip_pairs(
                match a->Zip_extract_path { Some(x) => Some(encode_text(x@)), None => None },
                encode_texts(texts_of(a->Zip_target_files@)),
            );
            assert(
                encode_file_format(
                    a
                )->Object_0[0] == (
                    "zip"@,
                    JsonModel::Object(
                        file_format_zip_pairs(
                            match a->Zip_extract_path { Some(
                                x
                            ) => Some(encode_text(x@)), None => None },
                            encode_texts(texts_of(a->Zip_target_files@)),
                        )
                    ),
                )
            );
        },
    }
    match b {
        FileFormat::Json => {},
        FileFormat::Csv { .. } => {
            lemma_file_format_csv_pairs(
                match b->Csv_delimiter { Some(x) => Some(encode_char(x)), None => None },
                match b->Csv_has_headers { Some(x) => Some(encode_flag(x)), None => None },
            );
            assert(
                encode_file_format(
                    b
                )->Object_0[0] == (
                    "csv"@,
                    JsonModel::Object(
                        file_format_csv_pairs(
                            match b->Csv_delimiter { Some(
                                x
                            ) => Some(encode_char(x)), None => None },
                            match b->Csv_has_headers { Some(
                                x
                            ) => Some(encode_flag(x)), None => None },
                        )
                    ),
                )
            );
        },
        FileFormat::Tsv => {},
        FileFormat::Excel => {},
        FileFormat::Parquet => {},
        FileFormat::Zip { .. } => {
            lemma_file_format_zip_pairs(
                match b->Zip_extract_path { Some(x) => Some(encode_text(x@)), None => None },
                encode_texts(texts_of(b->Zip_target_files@)),
            );
            assert(
                encode_file_format(
                    b
                )->Object_0[0] == (
                    "zip"@,
                    JsonModel::Object(
                        file_format_zip_pairs(
                            match b->Zip_extract_path { Some(
                                x
                            ) => Some(encode_text(x@)), None => None },
                            encode_texts(texts_of(b->Zip_target_files@)),
                        )
                    ),
                )
            );
        },
    }
    if a is Csv && b is Csv {
        assert(
            file_format_csv_pairs(
                match a->Csv_delimiter { Some(x) => Some(encode_char(x)), None => None },
                match a->Csv_has_headers { Some(x) => Some(encode_flag(x)), None => None },
            ) == file_format_csv_pairs(
                match b->Csv_delimiter { Some(x) => Some(encode_char(x)), None => None },
                match b->Csv_has_headers { Some(x) => Some(encode_flag(x)), None => None },
            )
        );
        if a->Csv_delimiter is Some && b->Csv_delimiter is Some {
            lemma_char_one(a->Csv_delimiter->0, b->Csv_delimiter->0);
        }
    } else if a is Zip && b is Zip {
        assert(
            file_format_zip_pairs(
                match a->Zip_extract_path { Some(x) => Some(encode_text(x@)), None => None },
                encode_texts(texts_of(a->Zip_target_files@)),
            ) == file_format_zip_pairs(
                match b->Zip_extract_path { Some(x) => Some(encode_text(x@)), None => None },
                encode_texts(texts_of(b->Zip_target_files@)),
            )
        );
        lemma_texts_one(texts_of(a->Zip_target_files@), texts_of(b->Zip_target_files@));
    }
}

/// The fields of the encoding of the variant `api` of a data source, from the
/// encodings of its fields: a field that may be absent is left out where it
/// is.
pub open spec fn data_source_config_api_pairs(
    f0: JsonModel,
    f1: Option<JsonModel>,
    f2: Option<JsonModel>,
    f3: Option<JsonModel>,
    f4: Option<JsonModel>,
) -> Pairs {
    let pairs: Pairs = Seq::empty();
    let pairs = with_field(pairs, "type"@, Some(JsonModel::String("api"@)));
    let pairs = with_field(pairs, "url"@, Some(f0));
    let pairs = with_field(pairs, "method"@, f1);
    let pairs = with_field(pairs, "headers"@, f2);
    let pairs = with_field(pairs, "auth"@, f3);
    let pairs = with_field(pairs, "retry"@, f4);
    pairs
}

/// Whether a name is the name of a field of the variant `api` of a data
/// source.
pub open spec fn is_data_source_config_api_field(name: Seq<char>) -> bool {
    name == "type"@
        || name == "url"@
        || name == "method"@
        || name == "headers"@
        || name == "auth"@
        || name == "retry"@
}

/// Whether every field of an object is a field of the variant `api` of a data
/// source, and none stands twice.
pub open spec fn only_data_source_config_api_fields(pairs: Pairs) -> bool {
    distinct_names(pairs) && forall|i: int|
        0 <= i < pairs.len() ==> is_data_source_config_api_field((#[trigger] pairs[i]).0)
}

/// The normal form of the fields of the variant `api` of a data source: every
/// field is one of its fields and stands once, every field that must be there
/// is there, and every value is in normal form. Nothing where that is not so.
pub open spec fn norm_data_source_config_api_fields(pairs: Pairs) -> Option<Pairs> {
    if !only_data_source_config_api_fields(
        pairs
    ) || member(pairs, "type"@) != JsonModel::String("api"@) {
        None
    } else {
        match (
            required(pairs, "url"@, norm_string(member(pairs, "url"@))),
            optional(pairs, "method"@, norm_string(member(pairs, "method"@))),
            optional(pairs, "headers"@, norm_table(member(pairs, "headers"@))),
            optional(pairs, "auth"@, norm_auth_config(member(pairs, "auth"@))),
            optional(pairs, "retry"@, norm_retry_config(member(pairs, "retry"@))),
        ) {
            (Some(f0), Some(f1), Some(f2), Some(f3), Some(f4)) => Some(
                data_source_config_api_pairs(f0, f1, f2, f3, f4),
            ),
            _ => None,
        }
    }
}

/// The fields of the encoding of the variant `local_file` of a data source,
/// from the encodings of its fields: a field that may be absent is left out
/// where it is.
pub open spec fn data_source_config_local_file_pairs(
    f0: JsonModel,
    f1: JsonModel,
    f2: Option<JsonModel>,
) -> Pairs {
    let pairs: Pairs = Seq::empty();
    let pairs = with_field(pairs, "type"@, Some(JsonModel::String("local_file"@)));
    let pairs = with_field(pairs, "path"@, Some(f0));
    let pairs = with_field(pairs, "format"@, Some(f1));
    let pairs = with_field(pairs, "encoding"@, f2);
    pairs
}

/// Whether a name is the name of a field of the variant `local_file` of a
/// data source.
pub open spec fn is_data_source_config_local_file_field(name: Seq<char>) -> bool {
    name == "type"@
        || name == "path"@
        || name == "format"@
        || name == "encoding"@
}

/// Whether every field of an object is a field of the variant `local_file` of
/// a data source, and none stands twice.
pub open spec fn only_data_source_config_local_file_fields(pairs: Pairs) -> bool {
    distinct_names(pairs) && forall|i: int|
        0 <= i < pairs.len() ==> is_data_source_config_local_file_field((#[trigger] pairs[i]).0)
}

/// The normal form of the fields of the variant `local_file` of a data
/// source: every field is one of its fields and stands once, every field that
/// must be there is there, and every value is in normal form. Nothing where
/// that is not so.
pub open spec fn norm_data_source_config_local_file_fields(pairs: Pairs) -> Option<Pairs> {
    if !only_data_source_config_local_file_fields(
        pairs
    ) || member(pairs, "type"@) != JsonModel::String("local_file"@) {
        None
    } else {
        match (
            required(pairs, "path"@, norm_string(member(pairs, "path"@))),
            required(pairs, "format"@, norm_file_format(member(pairs, "format"@))),
            optional(pairs, "encoding"@, norm_string(member(pairs, "encoding"@))),
        ) {
            (Some(f0), Some(f1), Some(f2)) => Some(
                data_source_config_local_file_pairs(f0, f1, f2),
            ),
            _ => None,
        }
    }
}

/// The fields of the encoding of the variant `database` of a data source,
/// from the encodings of its fields: a field that may be absent is left out
/// where it is.
pub open spec fn data_source_config_database_pairs(
    f0: JsonModel,
    f1: JsonModel,
    f2: JsonModel,
) -> Pairs {
    let pairs: Pairs = Seq::empty();
    let pairs = with_field(pairs, "type"@, Some(JsonModel::String("database"@)));
    let pairs = with_field(pairs, "connection_string"@, Some(f0));
    let pairs = with_field(pairs, "query"@, Some(f1));
    let pairs = with_field(pairs, "driver"@, Some(f2));
    pairs
}

/// Whether a name is the name of a field of the variant `database` of a data
/// source.
pub open spec fn is_data_source_config_database_field(name: Seq<char>) -> bool {
    name == "type"@
        || name == "connection_string"@
        || name == "query"@
        || name == "driver"@
}

/// Whether every field of an object is a field of the variant `database` of a
/// data source, and none stands twice.
pub open spec fn only_data_source_config_database_fields(pairs: Pairs) -> bool {
    distinct_names(pairs) && forall|i: int|
        0 <= i < pairs.len() ==> is_data_source_config_database_field((#[trigger] pairs[i]).0)
}

/// The normal form of the fields of the variant `database` of a data source:
/// every field is one of its fields and stands once, every field that must be
/// there is there, and every value is in normal form. Nothing where that is
/// not so.
pub open spec fn norm_data_source_config_database_fields(pairs: Pairs) -> Option<Pairs> {
    if !only_data_source_config_database_fields(
        pairs
    ) || member(pairs, "type"@) != JsonModel::String("database"@) {
        None
    } else {
        match (
            required(pairs, "connection_string"@, norm_string(member(pairs, "connection_string"@))),
            required(pairs, "query"@, norm_string(member(pairs, "query"@))),
            required(pairs, "driver"@, norm_database_driver(member(pairs, "driver"@))),
        ) {
            (Some(f0), Some(f1), Some(f2)) => Some(
                data_source_config_database_pairs(f0, f1, f2),
            ),
            _ => None,
        }
    }
}

/// The fields of the encoding of the variant `s3` of a data source, from the
/// encodings of its fields: a field that may be absent is left out where it
/// is.
pub open spec fn data_source_config_s3_pairs(
    f0: JsonModel,
    f1: JsonModel,
    f2: JsonModel,
    f3: Option<JsonModel>,
) -> Pairs {
    let pairs: Pairs = Seq::empty();
    let pairs = with_field(pairs, "type"@, Some(JsonModel::String("s3"@)));
    let pairs = with_field(pairs, "bucket"@, Some(f0));
    let pairs = with_field(pairs, "key"@, Some(f1));
    let pairs = with_field(pairs, "region"@, Some(f2));
    let pairs = with_field(pairs, "credentials"@, f3);
    pairs
}

/// Whether a name is the name of a field of the variant `s3` of a data
/// source.
pub open spec fn is_data_source_config_s3_field(name: Seq<char>) -> bool {
    name == "type"@
        || name == "bucket"@
        || name == "key"@
        || name == "region"@
        || name == "credentials"@
}

/// Whether every field of an object is a field of the variant `s3` of a data
/// source, and none stands twice.
pub open spec fn only_data_source_config_s3_fields(pairs: Pairs) -> bool {
    distinct_names(pairs) && forall|i: int|
        0 <= i < pairs.len() ==> is_data_source_config_s3_field((#[trigger] pairs[i]).0)
}

/// The normal form of the fields of the variant `s3` of a data source: every
/// field is one of its fields and stands once, every field that must be there
/// is there, and every value is in normal form. Nothing where that is not so.
pub open spec fn norm_data_source_config_s3_fields(pairs: Pairs) -> Option<Pairs> {
    if !only_data_source_config_s3_fields(
        pairs
    ) || member(pairs, "type"@) != JsonModel::String("s3"@) {
        None
    } else {
        match (
            required(pairs, "bucket"@, norm_string(member(pairs, "bucket"@))),
            required(pairs, "key"@, norm_string(member(pairs, "key"@))),
            required(pairs, "region"@, norm_string(member(pairs, "region"@))),
            optional(pairs, "credentials"@, norm_aws_credentials(member(pairs, "credentials"@))),
        ) {
            (Some(f0), Some(f1), Some(f2), Some(f3)) => Some(
                data_source_config_s3_pairs(f0, f1, f2, f3),
            ),
            _ => None,
        }
    }
}

/// The fields of the encoding of a data source.
pub open spec fn encode_data_source_config_fields(c: DataSourceConfig) -> Pairs {
    match c {
        DataSourceConfig::Api { url, method, headers, auth, retry } => data_source_config_api_pairs(
            encode_text(url@),
            match method {
                Some(x) => Some(encode_text(x@)),
                None => None,
            },
            match headers {
                Some(x) => Some(encode_table(table_texts(x@))),
                None => None,
            },
            match auth {
                Some(x) => Some(encode_auth_config(x)),
                None => None,
            },
            match retry {
                Some(x) => Some(encode_retry_config(x)),
                None => None,
            },
        ),
        DataSourceConfig::LocalFile { path, format, encoding } => data_source_config_local_file_pairs(
            encode_text(path@),
            encode_file_format(format),
            match encoding {
                Some(x) => Some(encode_text(x@)),
                None => None,
            },
        ),
        DataSourceConfig::Database { connection_string, query, driver } => data_source_config_database_pairs(
            encode_text(connection_string@),
            encode_text(query@),
            encode_database_driver(driver),
        ),
        DataSourceConfig::S3 { bucket, key, region, credentials } => data_source_config_s3_pairs(
            encode_text(bucket@),
            encode_text(key@),
            encode_text(region@),
            match credentials {
                Some(x) => Some(encode_aws_credentials(x)),
                None => None,
            },
        ),
    }
}

/// The encoding of a data source: an object with the word of the variant
/// under `type`, and then the fields of the variant that are there.
pub open spec fn encode_data_source_config(c: DataSourceConfig) -> JsonModel {
    JsonModel::Object(encode_data_source_config_fields(c))
}

/// The normal form of the fields of a data source: those of the variant that
/// the word under `type` names.
pub open spec fn norm_data_source_config_fields(pairs: Pairs) -> Option<Pairs> {
    match member(pairs, "type"@) {
        JsonModel::String(tag) => if tag == "api"@ {
            norm_data_source_config_api_fields(pairs)
        } else if tag == "local_file"@ {
            norm_data_source_config_local_file_fields(pairs)
        } else if tag == "database"@ {
            norm_data_source_config_database_fields(pairs)
        } else if tag == "s3"@ {
            norm_data_source_config_s3_fields(pairs)
        } else {
            None
        },
        _ => None,
    }
}

/// The normal form of the encoding of a data source.
pub open spec fn norm_data_source_config(json: JsonModel) -> Option<JsonModel> {
    match json {
        JsonModel::Object(pairs) => match norm_data_source_config_fields(pairs) {
            Some(normal) => Some(JsonModel::Object(normal)),
            None => None,
        },
        _ => None,
    }
}

/// Reads the fields of the variant `api` of a data source.
fn decode_data_source_config_api(
    fields: &Vec<(String, JsonValue)>,
    at: &str,
) -> (r: Result<DataSourceConfig>)
    requires
        member(fields_model(fields@), "type"@) == JsonModel::String("api"@),
    ensures
        match norm_data_source_config_api_fields(fields_model(fields@)) {
            Some(normal) => r matches Ok(c) && encode_data_source_config_fields(c) == normal,
            None => r matches Err(EtlError::ConfigError(_)),
        },
{
    proof {
        lemma_fields_model(fields@);
    }
    let mut i: usize = 0;
    while i < fields.len()
        invariant
            i <= fields.len(),
            fields_model(fields@).len() == fields.len(),
            forall|k: int|
                0 <= k < fields.len() ==> #[trigger] fields_model(fields@)[k] == (
                    fields[k].0@,
                    fields[k].1@,
                ),
            forall|k: int|
                0 <= k < i ==> is_data_source_config_api_field(
                    (#[trigger] fields_model(fields@)[k]).0
                ),
        decreases fields.len() - i,
    {
        let name = fields[i].0.as_str();
        let known: bool = text_eq(name, "type")
            || text_eq(name, "url")
            || text_eq(name, "method")
            || text_eq(name, "headers")
            || text_eq(name, "auth")
            || text_eq(name, "retry");
        if !known {
            assert(!is_data_source_config_api_field(fields_model(fields@)[i as int].0));
            return Err(invalid(field_path(at, name).as_str()));
        }
        i += 1;
    }
    if !names_distinct(fields) {
        return Err(invalid(at));
    }
    let url = match field_of(fields, "url") {
        Some(value) => match decode_string(value, field_path(at, "url").as_str()) {
            Ok(v) => v,
            Err(e) => {
                return Err(e);
            },
        },
        None => {
            return Err(invalid(field_path(at, "url").as_str()));
        },
    };
    let method = match field_of(fields, "method") {
        Some(value) => match decode_string(value, field_path(at, "method").as_str()) {
            Ok(v) => Some(v),
            Err(e) => {
                return Err(e);
            },
        },
        None => None,
    };
    let headers = match field_of(fields, "headers") {
        Some(value) => match decode_table(value, field_path(at, "headers").as_str()) {
            Ok(v) => Some(v),
            Err(e) => {
                return Err(e);
            },
        },
        None => None,
    };
    let auth = match field_of(fields, "auth") {
        Some(value) => match decode_auth_config(value, field_path(at, "auth").as_str()) {
            Ok(v) => Some(v),
            Err(e) => {
                return Err(e);
            },
        },
        None => None,
    };
    let retry = match field_of(fields, "retry") {
        Some(value) => match decode_retry_config(value, field_path(at, "retry").as_str()) {
            Ok(v) => Some(v),
            Err(e) => {
                return Err(e);
            },
        },
        None => None,
    };
    Ok(DataSourceConfig::Api { url, method, headers, auth, retry })
}

/// Reads the fields of the variant `local_file` of a data source.
fn decode_data_source_config_local_file(
    fields: &Vec<(String, JsonValue)>,
    at: &str,
) -> (r: Result<DataSourceConfig>)
    requires
        member(fields_model(fields@), "type"@) == JsonModel::String("local_file"@),
    ensures
        match norm_data_source_config_local_file_fields(fields_model(fields@)) {
            Some(normal) => r matches Ok(c) && encode_data_source_config_fields(c) == normal,
            None => r matches Err(EtlError::ConfigError(_)),
        },
{
    proof {
        lemma_fields_model(fields@);
    }
    let mut i: usize = 0;
    while i < fields.len()
        invariant
            i <= fields.len(),
            fields_model(fields@).len() == fields.len(),
            forall|k: int|
                0 <= k < fields.len() ==> #[trigger] fields_model(fields@)[k] == (
                    fields[k].0@,
                    fields[k].1@,
                ),
            forall|k: int|
                0 <= k < i ==> is_data_source_config_local_file_field(
                    (#[trigger] fields_model(fields@)[k]).0
                ),
        decreases fields.len() - i,
    {
        let name = fields[i].0.as_str();
        let known: bool = text_eq(name, "type")
            || text_eq(name, "path")
            || text_eq(name, "format")
            || text_eq(name, "encoding");
        if !known {
            assert(!is_data_source_config_local_file_field(fields_model(fields@)[i as int].0));
            return Err(invalid(field_path(at, name).as_str()));
        }
        i += 1;
    }
    if !names_distinct(fields) {
        return Err(invalid(at));
    }
    let path = match field_of(fields, "path") {
        Some(value) => match decode_string(value, field_path(at, "path").as_str()) {
            Ok(v) => v,
            Err(e) => {
                return Err(e);
            },
        },
        None => {
            return Err(invalid(field_path(at, "path").as_str()));
        },
    };
    let format = match field_of(fields, "format") {
        Some(value) => match decode_file_format(value, field_path(at, "format").as_str()) {
            Ok(v) => v,
            Err(e) => {
                return Err(e);
            },
        },
        None => {
            return Err(invalid(field_path(at, "format").as_str()));
        },
    };
    let encoding = match field_of(fields, "encoding") {
        Some(value) => match decode_string(value, field_path(at, "encoding").as_str()) {
            Ok(v) => Some(v),
            Err(e) => {
                return Err(e);
            },
        },
        None => None,
    };
    Ok(DataSourceConfig::LocalFile { path, format, encoding })
}

/// Reads the fields of the variant `database` of a data source.
fn decode_data_source_config_database(
    fields: &Vec<(String, JsonValue)>,
    at: &str,
) -> (r: Result<DataSourceConfig>)
    requires
        member(fields_model(fields@), "type"@) == JsonModel::String("database"@),
    ensures
        match norm_data_source_config_database_fields(fields_model(fields@)) {
            Some(normal) => r matches Ok(c) && encode_data_source_config_fields(c) == normal,
            None => r matches Err(EtlError::ConfigError(_)),
        },
{
    proof {
        lemma_fields_model(fields@);
    }
    let mut i: usize = 0;
    while i < fields.len()
        invariant
            i <= fields.len(),
            fields_model(fields@).len() == fields.len(),
            forall|k: int|
                0 <= k < fields.len() ==> #[trigger] fields_model(fields@)[k] == (
                    fields[k].0@,
                    fields[k].1@,
                ),
            forall|k: int|
                0 <= k < i ==> is_data_source_config_database_field(
                    (#[trigger] fields_model(fields@)[k]).0
                ),
        decreases fields.len() - i,
    {
        let name = fields[i].0.as_str();
        let known: bool = text_eq(name, "type")
            || text_eq(name, "connection_string")
            || text_eq(name, "query")
            || text_eq(name, "driver");
        if !known {
            assert(!is_data_source_config_database_field(fields_model(fields@)[i as int].0));
            return Err(invalid(field_path(at, name).as_str()));
        }
        i += 1;
    }
    if !names_distinct(fields) {
        return Err(invalid(at));
    }
    let connection_string = match field_of(fields, "connection_string") {
        Some(value) => match decode_string(value, field_path(at, "connection_string").as_str()) {
            Ok(v) => v,
            Err(e) => {
                return Err(e);
            },
        },
        None => {
            return Err(invalid(field_path(at, "connection_string").as_str()));
        },
    };
    let query = match field_of(fields, "query") {
        Some(value) => match decode_string(value, field_path(at, "query").as_str()) {
            Ok(v) => v,
            Err(e) => {
                return Err(e);
            },
        },
        None => {
            return Err(invalid(field_path(at, "query").as_str()));
        },
    };
    let driver = match field_of(fields, "driver") {
        Some(value) => match decode_database_driver(value, field_path(at, "driver").as_str()) {
            Ok(v) => v,
            Err(e) => {
                return Err(e);
            },
        },
        None => {
            return Err(invalid(field_path(at, "driver").as_str()));
        },
    };
    Ok(DataSourceConfig::Database { connection_string, query, driver })
}

/// Reads the fields of the variant `s3` of a data source.
fn decode_data_source_config_s3(
    fields: &Vec<(String, JsonValue)>,
    at: &str,
) -> (r: Result<DataSourceConfig>)
    requires
        member(fields_model(fields@), "type"@) == JsonModel::String("s3"@),
    ensures
        match norm_data_source_config_s3_fields(fields_model(fields@)) {
            Some(normal) => r matches Ok(c) && encode_data_source_config_fields(c) == normal,
            None => r matches Err(EtlError::ConfigError(_)),
        },
{
    proof {
        lemma_fields_model(fields@);
    }
    let mut i: usize = 0;
    while i < fields.len()
        invariant
            i <= fields.len(),
            fields_model(fields@).len() == fields.len(),
            forall|k: int|
                0 <= k < fields.len() ==> #[trigger] fields_model(fields@)[k] == (
                    fields[k].0@,
                    fields[k].1@,
                ),
            forall|k: int|
                0 <= k < i ==> is_data_source_config_s3_field(
                    (#[trigger] fields_model(fields@)[k]).0
                ),
        decreases fields.len() - i,
    {
        let name = fields[i].0.as_str();
        let known: bool = text_eq(name, "type")
            || text_eq(name, "bucket")
            || text_eq(name, "key")
            || text_eq(name, "region")
            || text_eq(name, "credentials");
        if !known {
            assert(!is_data_source_config_s3_field(fields_model(fields@)[i as int].0));
            return Err(invalid(field_path(at, name).as_str()));
        }
        i += 1;
    }
    if !names_distinct(fields) {
        return Err(invalid(at));
    }
    let bucket = match field_of(fields, "bucket") {
        Some(value) => match decode_string(value, field_path(at, "bucket").as_str()) {
            Ok(v) => v,
            Err(e) => {
                return Err(e);
            },
        },
        None => {
            return Err(invalid(field_path(at, "bucket").as_str()));
        },
    };
    let key = match field_of(fields, "key") {
        Some(value) => match decode_string(value, field_path(at, "key").as_str()) {
            Ok(v) => v,
            Err(e) => {
                return Err(e);
            },
        },
        None => {
            return Err(invalid(field_path(at, "key").as_str()));
        },
    };
    let region = match field_of(fields, "region") {
        Some(value) => match decode_string(value, field_path(at, "region").as_str()) {
            Ok(v) => v,
            Err(e) => {
                return Err(e);
            },
        },
        None => {
            return Err(invalid(field_path(at, "region").as_str()));
        },
    };
    let credentials = match field_of(fields, "credentials") {
        Some(value) => match decode_aws_credentials(value, field_path(at, "credentials").as_str()) {
            Ok(v) => Some(v),
            Err(e) => {
                return Err(e);
            },
        },
        None => None,
    };
    Ok(DataSourceConfig::S3 { bucket, key, region, credentials })
}

/// Reads a data source.
pub fn decode_data_source_config(json: &JsonValue, at: &str) -> (r: Result<DataSourceConfig>)
    ensures
        decoded(r, norm_data_source_config(json@)),
        r matches Ok(c) ==> Some(encode_data_source_config(c)) == norm_data_source_config(json@),
{
    let fields = match json {
        JsonValue::Object(fields) => fields,
        _ => {
            return Err(invalid(at));
        },
    };
    let tag = match field_of(fields, "type") {
        Some(JsonValue::String(tag)) => tag.as_str(),
        _ => {
            return Err(invalid(field_path(at, "type").as_str()));
        },
    };
    if text_eq(tag, "api") {
        decode_data_source_config_api(fields, at)
    } else if text_eq(tag, "local_file") {
        decode_data_source_config_local_file(fields, at)
    } else if text_eq(tag, "database") {
        decode_data_source_config_database(fields, at)
    } else if text_eq(tag, "s3") {
        decode_data_source_config_s3(fields, at)
    } else {
        Err(invalid(field_path(at, "type").as_str()))
    }
}

/// Writes a data source.
pub fn write_data_source_config(c: &DataSourceConfig) -> (r: JsonValue)
    ensures
        r@ == encode_data_source_config(*c),
{
    let mut fields: Vec<(String, JsonValue)> = Vec::new();
    assert(fields_model(fields@) =~= Seq::empty());
    match c {
        DataSourceConfig::Api { url, method, headers, auth, retry } => {
            put(&mut fields, "type", JsonValue::String(String::from_str("api")));
            put(&mut fields, "url", write_text(url));
            match method {
                Some(x) => {
                    put(&mut fields, "method", write_text(x));
                },
                None => {},
            }
            match headers {
                Some(x) => {
                    put(&mut fields, "headers", write_table(x));
                },
                None => {},
            }
            match auth {
                Some(x) => {
                    put(&mut fields, "auth", write_auth_config(x));
                },
                None => {},
            }
            match retry {
                Some(x) => {
                    put(&mut fields, "retry", write_retry_config(x));
                },
                None => {},
            }
        },
        DataSourceConfig::LocalFile { path, format, encoding } => {
            put(&mut fields, "type", JsonValue::String(String::from_str("local_file")));
            put(&mut fields, "path", write_text(path));
            put(&mut fields, "format", write_file_format(format));
            match encoding {
                Some(x) => {
                    put(&mut fields, "encoding", write_text(x));
                },
                None => {},
            }
        },
        DataSourceConfig::Database { connection_string, query, driver } => {
            put(&mut fields, "type", JsonValue::String(String::from_str("database")));
            put(&mut fields, "connection_string", write_text(connection_string));
            put(&mut fields, "query", write_text(query));
            put(&mut fields, "driver", write_database_driver(driver));
        },
        DataSourceConfig::S3 { bucket, key, region, credentials } => {
            put(&mut fields, "type", JsonValue::String(String::from_str("s3")));
            put(&mut fields, "bucket", write_text(bucket));
            put(&mut fields, "key", write_text(key));
            put(&mut fields, "region", write_text(region));
            match credentials {
                Some(x) => {
                    put(&mut fields, "credentials", write_aws_credentials(x));
                },
                None => {},
            }
        },
    }
    JsonValue::Object(fields)
}

/// What an object built as the encoding of the variant `api` of a data source
/// holds: its fields and no others, each once, and under each name the value
/// that was given for it.
proof fn lemma_data_source_config_api_pairs(
    f0: JsonModel,
    f1: Option<JsonModel>,
    f2: Option<JsonModel>,
    f3: Option<JsonModel>,
    f4: Option<JsonModel>,
)
    ensures
        only_data_source_config_api_fields(data_source_config_api_pairs(f0, f1, f2, f3, f4)),
        member(
            data_source_config_api_pairs(f0, f1, f2, f3, f4),
            "type"@,
        ) == JsonModel::String("api"@),
        present(data_source_config_api_pairs(f0, f1, f2, f3, f4), "url"@),
        member(data_source_config_api_pairs(f0, f1, f2, f3, f4), "url"@) == f0,
        present(data_source_config_api_pairs(f0, f1, f2, f3, f4), "method"@) == (f1 is Some),
        f1 is Some ==> member(data_source_config_api_pairs(f0, f1, f2, f3, f4), "method"@) == f1->0,
        present(data_source_config_api_pairs(f0, f1, f2, f3, f4), "headers"@) == (f2 is Some),
        f2 is Some ==> member(
            data_source_config_api_pairs(f0, f1, f2, f3, f4),
            "headers"@,
        ) == f2->0,
        present(data_source_config_api_pairs(f0, f1, f2, f3, f4), "auth"@) == (f3 is Some),
        f3 is Some ==> member(data_source_config_api_pairs(f0, f1, f2, f3, f4), "auth"@) == f3->0,
        present(data_source_config_api_pairs(f0, f1, f2, f3, f4), "retry"@) == (f4 is Some),
        f4 is Some ==> member(data_source_config_api_pairs(f0, f1, f2, f3, f4), "retry"@) == f4->0,
{
    broadcast use {lemma_present_none, lemma_added, lemma_added_other};
    reveal_strlit("type");
    reveal_strlit("url");
    reveal_strlit("method");
    reveal_strlit("headers");
    reveal_strlit("auth");
    reveal_strlit("retry");
    assert("type"@.len() != "url"@.len());
    assert("type"@.len() != "method"@.len());
    assert("type"@.len() != "headers"@.len());
    assert("type"@[0] != "auth"@[0]);
    assert("type"@.len() != "retry"@.len());
    assert("url"@.len() != "method"@.len());
    assert("url"@.len() != "headers"@.len());
    assert("url"@.len() != "auth"@.len());
    assert("url"@.len() != "retry"@.len());
    assert("method"@.len() != "headers"@.len());
    assert("method"@.len() != "auth"@.len());
    assert("method"@.len() != "retry"@.len());
    assert("headers"@.len() != "auth"@.len());
    assert("headers"@.len() != "retry"@.len());
    assert("auth"@.len() != "retry"@.len());
    let s0: Pairs = Seq::empty();
    let s1 = with_field(s0, "type"@, Some(JsonModel::String("api"@)));
    lemma_with_field_distinct(s0, "type"@, Some(JsonModel::String("api"@)));
    let s2 = with_field(s1, "url"@, Some(f0));
    lemma_with_field_distinct(s1, "url"@, Some(f0));
    let s3 = with_field(s2, "method"@, f1);
    lemma_with_field_distinct(s2, "method"@, f1);
    let s4 = with_field(s3, "headers"@, f2);
    lemma_with_field_distinct(s3, "headers"@, f2);
    let s5 = with_field(s4, "auth"@, f3);
    lemma_with_field_distinct(s4, "auth"@, f3);
    let s6 = with_field(s5, "retry"@, f4);
    lemma_with_field_distinct(s5, "retry"@, f4);
    assert forall|i: int| 0 <= i < s6.len() implies is_data_source_config_api_field(
        (#[trigger] s6[i]).0,
    ) by {
        lemma_name_present(s6, i);
    }
    assert(data_source_config_api_pairs(f0, f1, f2, f3, f4) == s6);
}

/// The fields of the encoding of the variant `api` of a data source are in
/// normal form.
proof fn lemma_data_source_config_api_fields(c: DataSourceConfig)
    requires
        c is Api,
    ensures
        norm_data_source_config_api_fields(
            encode_data_source_config_fields(c)
        ) == Some(encode_data_source_config_fields(c)),
        member(encode_data_source_config_fields(c), "type"@) == JsonModel::String("api"@),
{
    if c->Api_headers is Some {
        lemma_table(table_texts(c->Api_headers->0@));
    }
    if c->Api_auth is Some {
        lemma_auth_config(c->Api_auth->0);
    }
    if c->Api_retry is Some {
        lemma_retry_config(c->Api_retry->0);
    }
    lemma_data_source_config_api_pairs(
        encode_text(c->Api_url@),
        match c->Api_method { Some(x) => Some(encode_text(x@)), None => None },
        match c->Api_headers { Some(x) => Some(encode_table(table_texts(x@))), None => None },
        match c->Api_auth { Some(x) => Some(encode_auth_config(x)), None => None },
        match c->Api_retry { Some(x) => Some(encode_retry_config(x)), None => None },
    );
}

/// The normal form of the fields of the variant `api` of a data source is the
/// fields themselves but for their order.
proof fn lemma_data_source_config_api_fields_same(pairs: Pairs)
    requires
        norm_data_source_config_api_fields(pairs) is Some,
    ensures
        json_same(
            JsonModel::Object(norm_data_source_config_api_fields(pairs)->0),
            JsonModel::Object(pairs),
        ),
{
    let normal = norm_data_source_config_api_fields(pairs)->0;
    if present(pairs, "url"@) {
        lemma_json_same_itself(member(pairs, "url"@));
    }
    if present(pairs, "method"@) {
        lemma_json_same_itself(member(pairs, "method"@));
    }
    if present(pairs, "headers"@) {
        lemma_json_same_itself(member(pairs, "headers"@));
    }
    if present(pairs, "auth"@) {
        lemma_auth_config_same(member(pairs, "auth"@));
    }
    if present(pairs, "retry"@) {
        lemma_retry_config_same(member(pairs, "retry"@));
    }
    lemma_json_same_itself(member(pairs, "type"@));
    lemma_data_source_config_api_pairs(
        norm_string(member(pairs, "url"@))->0,
        optional(pairs, "method"@, norm_string(member(pairs, "method"@)))->0,
        optional(pairs, "headers"@, norm_table(member(pairs, "headers"@)))->0,
        optional(pairs, "auth"@, norm_auth_config(member(pairs, "auth"@)))->0,
        optional(pairs, "retry"@, norm_retry_config(member(pairs, "retry"@)))->0,
    );
    assert forall|name: Seq<char>| #[trigger] present(normal, name) == present(pairs, name) by {
        if present(pairs, name) {
            lemma_present_place(pairs, name);
        }
        if present(normal, name) {
            lemma_present_place(normal, name);
        }
    }
    assert forall|name: Seq<char>| #[trigger] present(normal, name) implies json_same(
        member(normal, name),
        member(pairs, name),
    ) by {
        lemma_present_place(normal, name);
    }
    lemma_same_objects(normal, pairs);
}

/// What an object built as the encoding of the variant `local_file` of a data
/// source holds: its fields and no others, each once, and under each name the
/// value that was given for it.
proof fn lemma_data_source_config_local_file_pairs(
    f0: JsonModel,
    f1: JsonModel,
    f2: Option<JsonModel>,
)
    ensures
        only_data_source_config_local_file_fields(data_source_config_local_file_pairs(f0, f1, f2)),
        member(
            data_source_config_local_file_pairs(f0, f1, f2),
            "type"@,
        ) == JsonModel::String("local_file"@),
        present(data_source_config_local_file_pairs(f0, f1, f2), "path"@),
        member(data_source_config_local_file_pairs(f0, f1, f2), "path"@) == f0,
        present(data_source_config_local_file_pairs(f0, f1, f2), "format"@),
        member(data_source_config_local_file_pairs(f0, f1, f2), "format"@) == f1,
        present(data_source_config_local_file_pairs(f0, f1, f2), "encoding"@) == (f2 is Some),
        f2 is Some ==> member(
            data_source_config_local_file_pairs(f0, f1, f2),
            "encoding"@,
        ) == f2->0,
{
    broadcast use {lemma_present_none, lemma_added, lemma_added_other};
    reveal_strlit("type");
    reveal_strlit("path");
    reveal_strlit("format");
    reveal_strlit("encoding");
    assert("type"@[0] != "path"@[0]);
    assert("type"@.len() != "format"@.len());
    assert("type"@.len() != "encoding"@.len());
    assert("path"@.len() != "format"@.len());
    assert("path"@.len() != "encoding"@.len());
    assert("format"@.len() != "encoding"@.len());
    let s0: Pairs = Seq::empty();
    let s1 = with_field(s0, "type"@, Some(JsonModel::String("local_file"@)));
    lemma_with_field_distinct(s0, "type"@, Some(JsonModel::String("local_file"@)));
    let s2 = with_field(s1, "path"@, Some(f0));
    lemma_with_field_distinct(s1, "path"@, Some(f0));
    let s3 = with_field(s2, "format"@, Some(f1));
    lemma_with_field_distinct(s2, "format"@, Some(f1));
    let s4 = with_field(s3, "encoding"@, f2);
    lemma_with_field_distinct(s3, "encoding"@, f2);
    assert forall|i: int| 0 <= i < s4.len() implies is_data_source_config_local_file_field(
        (#[trigger] s4[i]).0,
    ) by {
        lemma_name_present(s4, i);
    }
    assert(data_source_config_local_file_pairs(f0, f1, f2) == s4);
}

/// The fields of the encoding of the variant `local_file` of a data source
/// are in normal form.
proof fn lemma_data_source_config_local_file_fields(c: DataSourceConfig)
    requires
        c is LocalFile,
    ensures
        norm_data_source_config_local_file_fields(
            encode_data_source_config_fields(c)
        ) == Some(encode_data_source_config_fields(c)),
        member(encode_data_source_config_fields(c), "type"@) == JsonModel::String("local_file"@),
{
    lemma_file_format(c->LocalFile_format);
    lemma_data_source_config_local_file_pairs(
        encode_text(c->LocalFile_path@),
        encode_file_format(c->LocalFile_format),
        match c->LocalFile_encoding { Some(x) => Some(encode_text(x@)), None => None },
    );
}

/// The normal form of the fields of the variant `local_file` of a data source
/// is the fields themselves but for their order.
proof fn lemma_data_source_config_local_file_fields_same(pairs: Pairs)
    requires
        norm_data_source_config_local_file_fields(pairs) is Some,
    ensures
        json_same(
            JsonModel::Object(norm_data_source_config_local_file_fields(pairs)->0),
            JsonModel::Object(pairs),
        ),
{
    let normal = norm_data_source_config_local_file_fields(pairs)->0;
    if present(pairs, "path"@) {
        lemma_json_same_itself(member(pairs, "path"@));
    }
    if present(pairs, "format"@) {
        lemma_file_format_same(member(pairs, "format"@));
    }
    if present(pairs, "encoding"@) {
        lemma_json_same_itself(member(pairs, "encoding"@));
    }
    lemma_json_same_itself(member(pairs, "type"@));
    lemma_data_source_config_local_file_pairs(
        norm_string(member(pairs, "path"@))->0,
        norm_file_format(member(pairs, "format"@))->0,
        optional(pairs, "encoding"@, norm_string(member(pairs, "encoding"@)))->0,
    );
    assert forall|name: Seq<char>| #[trigger] present(normal, name) == present(pairs, name) by {
        if present(pairs, name) {
            lemma_present_place(pairs, name);
        }
        if present(normal, name) {
            lemma_present_place(normal, name);
        }
    }
    assert forall|name: Seq<char>| #[trigger] present(normal, name) implies json_same(
        member(normal, name),
        member(pairs, name),
    ) by {
        lemma_present_place(normal, name);
    }
    lemma_same_objects(normal, pairs);
}

/// What an object built as the encoding of the variant `database` of a data
/// source holds: its fields and no others, each once, and under each name the
/// value that was given for it.
proof fn lemma_data_source_config_database_pairs(f0: JsonModel, f1: JsonModel, f2: JsonModel)
    ensures
        only_data_source_config_database_fields(data_source_config_database_pairs(f0, f1, f2)),
        member(
            data_source_config_database_pairs(f0, f1, f2),
            "type"@,
        ) == JsonModel::String("database"@),
        present(data_source_config_database_pairs(f0, f1, f2), "connection_string"@),
        member(data_source_config_database_pairs(f0, f1, f2), "connection_string"@) == f0,
        present(data_source_config_database_pairs(f0, f1, f2), "query"@),
        member(data_source_config_database_pairs(f0, f1, f2), "query"@) == f1,
        present(data_source_config_database_pairs(f0, f1, f2), "driver"@),
        member(data_source_config_database_pairs(f0, f1, f2), "driver"@) == f2,
{
    broadcast use {lemma_present_none, lemma_added, lemma_added_other};
    reveal_strlit("type");
    reveal_strlit("connection_string");
    reveal_strlit("query");
    reveal_strlit("driver");
    assert("type"@.len() != "connection_string"@.len());
    assert("type"@.len() != "query"@.len());
    assert("type"@.len() != "driver"@.len());
    assert("connection_string"@.len() != "query"@.len());
    assert("connection_string"@.len() != "driver"@.len());
    assert("query"@.len() != "driver"@.len());
    let s0: Pairs = Seq::empty();
    let s1 = with_field(s0, "type"@, Some(JsonModel::String("database"@)));
    lemma_with_field_distinct(s0, "type"@, Some(JsonModel::String("database"@)));
    let s2 = with_field(s1, "connection_string"@, Some(f0));
    lemma_with_field_distinct(s1, "connection_string"@, Some(f0));
    let s3 = with_field(s2, "query"@, Some(f1));
    lemma_with_field_distinct(s2, "query"@, Some(f1));
    let s4 = with_field(s3, "driver"@, Some(f2));
    lemma_with_field_distinct(s3, "driver"@, Some(f2));
    assert forall|i: int| 0 <= i < s4.len() implies is_data_source_config_database_field(
        (#[trigger] s4[i]).0,
    ) by {
        lemma_name_present(s4, i);
    }
    assert(data_source_config_database_pairs(f0, f1, f2) == s4);
}

/// The fields of the encoding of the variant `database` of a data source are
/// in normal form.
proof fn lemma_data_source_config_database_fields(c: DataSourceConfig)
    requires
        c is Database,
    ensures
        norm_data_source_config_database_fields(
            encode_data_source_config_fields(c)
        ) == Some(encode_data_source_config_fields(c)),
        member(encode_data_source_config_fields(c), "type"@) == JsonModel::String("database"@),
{
    lemma_database_driver(c->Database_driver);
    lemma_data_source_config_database_pairs(
        encode_text(c->Database_connection_string@),
        encode_text(c->Database_query@),
        encode_database_driver(c->Database_driver),
    );
}

/// The normal form of the fields of the variant `database` of a data source
/// is the fields themselves but for their order.
proof fn lemma_data_source_config_database_fields_same(pairs: Pairs)
    requires
        norm_data_source_config_database_fields(pairs) is Some,
    ensures
        json_same(
            JsonModel::Object(norm_data_source_config_database_fields(pairs)->0),
            JsonModel::Object(pairs),
        ),
{
    let normal = norm_data_source_config_database_fields(pairs)->0;
    if present(pairs, "connection_string"@) {
        lemma_json_same_itself(member(pairs, "connection_string"@));
    }
    if present(pairs, "query"@) {
        lemma_json_same_itself(member(pairs, "query"@));
    }
    if present(pairs, "driver"@) {
        lemma_json_same_itself(member(pairs, "driver"@));
    }
    lemma_json_same_itself(member(pairs, "type"@));
    lemma_data_source_config_database_pairs(
        norm_string(member(pairs, "connection_string"@))->0,
        norm_string(member(pairs, "query"@))->0,
        norm_database_driver(member(pairs, "driver"@))->0,
    );
    assert forall|name: Seq<char>| #[trigger] present(normal, name) == present(pairs, name) by {
        if present(pairs, name) {
            lemma_present_place(pairs, name);
        }
        if present(normal, name) {
            lemma_present_place(normal, name);
        }
    }
    assert forall|name: Seq<char>| #[trigger] present(normal, name) implies json_same(
        member(normal, name),
        member(pairs, name),
    ) by {
        lemma_present_place(normal, name);
    }
    lemma_same_objects(normal, pairs);
}

/// What an object built as the encoding of the variant `s3` of a data source
/// holds: its fields and no others, each once, and under each name the value
/// that was given for it.
proof fn lemma_data_source_config_s3_pairs(
    f0: JsonModel,
    f1: JsonModel,
    f2: JsonModel,
    f3: Option<JsonModel>,
)
    ensures
        only_data_source_config_s3_fields(data_source_config_s3_pairs(f0, f1, f2, f3)),
        member(data_source_config_s3_pairs(f0, f1, f2, f3), "type"@) == JsonModel::String("s3"@),
        present(data_source_config_s3_pairs(f0, f1, f2, f3), "bucket"@),
        member(data_source_config_s3_pairs(f0, f1, f2, f3), "bucket"@) == f0,
        present(data_source_config_s3_pairs(f0, f1, f2, f3), "key"@),
        member(data_source_config_s3_pairs(f0, f1, f2, f3), "key"@) == f1,
        present(data_source_config_s3_pairs(f0, f1, f2, f3), "region"@),
        member(data_source_config_s3_pairs(f0, f1, f2, f3), "region"@) == f2,
        present(data_source_config_s3_pairs(f0, f1, f2, f3), "credentials"@) == (f3 is Some),
        f3 is Some ==> member(data_source_config_s3_pairs(f0, f1, f2, f3), "credentials"@) == f3->0,
{
    broadcast use {lemma_present_none, lemma_added, lemma_added_other};
    reveal_strlit("type");
    reveal_strlit("bucket");
    reveal_strlit("key");
    reveal_strlit("region");
    reveal_strlit("credentials");
    assert("type"@.len() != "bucket"@.len());
    assert("type"@.len() != "key"@.len());
    assert("type"@.len() != "region"@.len());
    assert("type"@.len() != "credentials"@.len());
    assert("bucket"@.len() != "key"@.len());
    assert("bucket"@[0] != "region"@[0]);
    assert("bucket"@.len() != "credentials"@.len());
    assert("key"@.len() != "region"@.len());
    assert("key"@.len() != "credentials"@.len());
    assert("region"@.len() != "credentials"@.len());
    let s0: Pairs = Seq::empty();
    let s1 = with_field(s0, "type"@, Some(JsonModel::String("s3"@)));
    lemma_with_field_distinct(s0, "type"@, Some(JsonModel::String("s3"@)));
    let s2 = with_field(s1, "bucket"@, Some(f0));
    lemma_with_field_distinct(s1, "bucket"@, Some(f0));
    let s3 = with_field(s2, "key"@, Some(f1));
    lemma_with_field_distinct(s2, "key"@, Some(f1));
    let s4 = with_field(s3, "region"@, Some(f2));
    lemma_with_field_distinct(s3, "region"@, Some(f2));
    let s5 = with_field(s4, "credentials"@, f3);
    lemma_with_field_distinct(s4, "credentials"@, f3);
    assert forall|i: int| 0 <= i < s5.len() implies is_data_source_config_s3_field(
        (#[trigger] s5[i]).0,
    ) by {
        lemma_name_present(s5, i);
    }
    assert(data_source_config_s3_pairs(f0, f1, f2, f3) == s5);
}

/// The fields of the encoding of the variant `s3` of a data source are in
/// normal form.
proof fn lemma_data_source_config_s3_fields(c: DataSourceConfig)
    requires
        c is S3,
    ensures
        norm_data_source_config_s3_fields(
            encode_data_source_config_fields(c)
        ) == Some(encode_data_source_config_fields(c)),
        member(encode_data_source_config_fields(c), "type"@) == JsonModel::String("s3"@),
{
    if c->S3_credentials is Some {
        lemma_aws_credentials(c->S3_credentials->0);
    }
    lemma_data_source_config_s3_pairs(
        encode_text(c->S3_bucket@),
        encode_text(c->S3_key@),
        encode_text(c->S3_region@),
        match c->S3_credentials { Some(x) => Some(encode_aws_credentials(x)), None => None },
    );
}

/// The normal form of the fields of the variant `s3` of a data source is the
/// fields themselves but for their order.
proof fn lemma_data_source_config_s3_fields_same(pairs: Pairs)
    requires
        norm_data_source_config_s3_fields(pairs) is Some,
    ensures
        json_same(
            JsonModel::Object(norm_data_source_config_s3_fields(pairs)->0),
            JsonModel::Object(pairs),
        ),
{
    let normal = norm_data_source_config_s3_fields(pairs)->0;
    if present(pairs, "bucket"@) {
        lemma_json_same_itself(member(pairs, "bucket"@));
    }
    if present(pairs, "key"@) {
        lemma_json_same_itself(member(pairs, "key"@));
    }
    if present(pairs, "region"@) {
        lemma_json_same_itself(member(pairs, "region"@));
    }
    if present(pairs, "credentials"@) {
        lemma_aws_credentials_same(member(pairs, "credentials"@));
    }
    lemma_json_same_itself(member(pairs, "type"@));
    lemma_data_source_config_s3_pairs(
        norm_string(member(pairs, "bucket"@))->0,
        norm_string(member(pairs, "key"@))->0,
        norm_string(member(pairs, "region"@))->0,
        optional(pairs, "credentials"@, norm_aws_credentials(member(pairs, "credentials"@)))->0,
    );
    assert forall|name: Seq<char>| #[trigger] present(normal, name) == present(pairs, name) by {
        if present(pairs, name) {
            lemma_present_place(pairs, name);
        }
        if present(normal, name) {
            lemma_present_place(normal, name);
        }
    }
    assert forall|name: Seq<char>| #[trigger] present(normal, name) implies json_same(
        member(normal, name),
        member(pairs, name),
    ) by {
        lemma_present_place(normal, name);
    }
    lemma_same_objects(normal, pairs);
}

/// The encoding of a data source is in normal form.
pub proof fn lemma_data_source_config(c: DataSourceConfig)
    ensures
        norm_data_source_config(encode_data_source_config(c)) == Some(encode_data_source_config(c)),
{
    broadcast use {lemma_present_none, lemma_added, lemma_added_other};
    reveal_strlit("type");
    reveal_strlit("api");
    reveal_strlit("local_file");
    reveal_strlit("database");
    reveal_strlit("s3");
    assert("api"@.len() != "local_file"@.len());
    assert("api"@.len() != "database"@.len());
    assert("api"@.len() != "s3"@.len());
    assert("local_file"@.len() != "database"@.len());
    assert("local_file"@.len() != "s3"@.len());
    assert("database"@.len() != "s3"@.len());
    match c {
        DataSourceConfig::Api { .. } => {
            lemma_data_source_config_api_fields(c);
            reveal_strlit("url");
            assert("type"@.len() != "url"@.len());
            reveal_strlit("method");
            assert("type"@.len() != "method"@.len());
            reveal_strlit("headers");
            assert("type"@.len() != "headers"@.len());
            reveal_strlit("auth");
            assert("type"@[0] != "auth"@[0]);
            reveal_strlit("retry");
            assert("type"@.len() != "retry"@.len());
            assert(
                member(encode_data_source_config_fields(c), "type"@) == JsonModel::String("api"@)
            );
        },
        DataSourceConfig::LocalFile { .. } => {
            lemma_data_source_config_local_file_fields(c);
            reveal_strlit("path");
            assert("type"@[0] != "path"@[0]);
            reveal_strlit("format");
            assert("type"@.len() != "format"@.len());
            reveal_strlit("encoding");
            assert("type"@.len() != "encoding"@.len());
            assert(
                member(
                    encode_data_source_config_fields(c),
                    "type"@,
                ) == JsonModel::String("local_file"@)
            );
        },
        DataSourceConfig::Database { .. } => {
            lemma_data_source_config_database_fields(c);
            reveal_strlit("connection_string");
            assert("type"@.len() != "connection_string"@.len());
            reveal_strlit("query");
            assert("type"@.len() != "query"@.len());
            reveal_strlit("driver");
            assert("type"@.len() != "driver"@.len());
            assert(
                member(
                    encode_data_source_config_fields(c),
                    "type"@,
                ) == JsonModel::String("database"@)
            );
        },
        DataSourceConfig::S3 { .. } => {
            lemma_data_source_config_s3_fields(c);
            reveal_strlit("bucket");
            assert("type"@.len() != "bucket"@.len());
            reveal_strlit("key");
            assert("type"@.len() != "key"@.len());
            reveal_strlit("region");
            assert("type"@.len() != "region"@.len());
            reveal_strlit("credentials");
            assert("type"@.len() != "credentials"@.len());
            assert(
                member(encode_data_source_config_fields(c), "type"@) == JsonModel::String("s3"@)
            );
        },
    }
}

/// The normal form of the encoding of a data source is the encoding itself
/// but for the order of fields.
pub proof fn lemma_data_source_config_same(json: JsonModel)
    requires
        norm_data_source_config(json) is Some,
    ensures
        json_same(norm_data_source_config(json)->0, json),
{
    let pairs = json->Object_0;
    let tag = member(pairs, "type"@)->String_0;
    if tag == "api"@ {
        lemma_data_source_config_api_fields_same(pairs);
    } else if tag == "local_file"@ {
        lemma_data_source_config_local_file_fields_same(pairs);
    } else if tag == "database"@ {
        lemma_data_source_config_database_fields_same(pairs);
    } else if tag == "s3"@ {
        lemma_data_source_config_s3_fields_same(pairs);
    }
}

/// Whether two descriptions of a data source are of the same variant and hold
/// the same values in every field.
pub open spec fn same_data_source_config(a: DataSourceConfig, b: DataSourceConfig) -> bool {
    (a is Api
        && b is Api
        && a->Api_url@ == b->Api_url@
        && (match (a->Api_method, b->Api_method) {
            (Some(x), Some(y)) => x@ == y@,
            (None, None) => true,
            _ => false,
        })
        && (match (a->Api_headers, b->Api_headers) {
            (Some(x), Some(y)) => table_texts(x@) == table_texts(y@),
            (None, None) => true,
            _ => false,
        })
        && (match (a->Api_auth, b->Api_auth) {
            (Some(x), Some(y)) => same_auth_config(x, y),
            (None, None) => true,
            _ => false,
        })
        && (match (a->Api_retry, b->Api_retry) {
            (Some(x), Some(y)) => same_retry_config(x, y),
            (None, None) => true,
            _ => false,
        }))
    || (a is LocalFile
        && b is LocalFile
        && a->LocalFile_path@ == b->LocalFile_path@
        && same_file_format(a->LocalFile_format, b->LocalFile_format)
        && (match (a->LocalFile_encoding, b->LocalFile_encoding) {
            (Some(x), Some(y)) => x@ == y@,
            (None, None) => true,
            _ => false,
        }))
    || (a is Database
        && b is Database
        && a->Database_connection_string@ == b->Database_connection_string@
        && a->Database_query@ == b->Database_query@
        && a->Database_driver == b->Database_driver)
    || (a is S3
        && b is S3
        && a->S3_bucket@ == b->S3_bucket@
        && a->S3_key@ == b->S3_key@
        && a->S3_region@ == b->S3_region@
        && (match (a->S3_credentials, b->S3_credentials) {
            (Some(x), Some(y)) => same_aws_credentials(x, y),
            (None, None) => true,
            _ => false,
        }))
}

/// Two descriptions of a data source with the same encoding hold the same
/// values.
pub proof fn lemma_data_source_config_one(a: DataSourceConfig, b: DataSourceConfig)
    requires
        encode_data_source_config(a) == encode_data_source_config(b),
    ensures
        same_data_source_config(a, b),
{
    reveal_strlit("api");
    reveal_strlit("local_file");
    reveal_strlit("database");
    reveal_strlit("s3");
    assert("api"@.len() != "local_file"@.len());
    assert("api"@.len() != "database"@.len());
    assert("api"@.len() != "s3"@.len());
    assert("local_file"@.len() != "database"@.len());
    assert("local_file"@.len() != "s3"@.len());
    assert("database"@.len() != "s3"@.len());
    assert(encode_data_source_config_fields(a) == encode_data_source_config_fields(b));
    match a {
        DataSourceConfig::Api { .. } => {
            lemma_data_source_config_api_pairs(
                encode_text(a->Api_url@),
                match a->Api_method { Some(x) => Some(encode_text(x@)), None => None },
                match a->Api_headers { Some(
                    x
                ) => Some(encode_table(table_texts(x@))), None => None },
                match a->Api_auth { Some(x) => Some(encode_auth_config(x)), None => None },
                match a->Api_retry { Some(x) => Some(encode_retry_config(x)), None => None },
            );
        },
        DataSourceConfig::LocalFile { .. } => {
            lemma_data_source_config_local_file_pairs(
                encode_text(a->LocalFile_path@),
                encode_file_format(a->LocalFile_format),
                match a->LocalFile_encoding { Some(x) => Some(encode_text(x@)), None => None },
            );
        },
        DataSourceConfig::Database { .. } => {
            lemma_data_source_config_database_pairs(
                encode_text(a->Database_connection_string@),
                encode_text(a->Database_query@),
                encode_database_driver(a->Database_driver),
            );
        },
        DataSourceConfig::S3 { .. } => {
            lemma_data_source_config_s3_pairs(
                encode_text(a->S3_bucket@),
                encode_text(a->S3_key@),
                encode_text(a->S3_region@),
                match a->S3_credentials { Some(
                    x
                ) => Some(encode_aws_credentials(x)), None => None },
            );
        },
    }
    match b {
        DataSourceConfig::Api { .. } => {
            lemma_data_source_config_api_pairs(
                encode_text(b->Api_url@),
                match b->Api_method { Some(x) => Some(encode_text(x@)), None => None },
                match b->Api_headers { Some(
                    x
                ) => Some(encode_table(table_texts(x@))), None => None },
                match b->Api_auth { Some(x) => Some(encode_auth_config(x)), None => None },
                match b->Api_retry { Some(x) => Some(encode_retry_config(x)), None => None },
            );
        },
        DataSourceConfig::LocalFile { .. } => {
            lemma_data_source_config_local_file_pairs(
                encode_text(b->LocalFile_path@),
                encode_file_format(b->LocalFile_format),
                match b->LocalFile_encoding { Some(x) => Some(encode_text(x@)), None => None },
            );
        },
        DataSourceConfig::Database { .. } => {
            lemma_data_source_config_database_pairs(
                encode_text(b->Database_connection_string@),
                encode_text(b->Database_query@),
                encode_database_driver(b->Database_driver),
            );
        },
        DataSourceConfig::S3 { .. } => {
            lemma_data_source_config_s3_pairs(
                encode_text(b->S3_bucket@),
                encode_text(b->S3_key@),
                encode_text(b->S3_region@),
                match b->S3_credentials { Some(
                    x
                ) => Some(encode_aws_credentials(x)), None => None },
            );
        },
    }
    if a is Api && b is Api {
        if a->Api_headers is Some && b->Api_headers is Some {
            lemma_table_one(table_texts(a->Api_headers->0@), table_texts(b->Api_headers->0@));
        }
        if a->Api_auth is Some && b->Api_auth is Some {
            lemma_auth_config_one(a->Api_auth->0, b->Api_auth->0);
        }
        if a->Api_retry is Some && b->Api_retry is Some {
            lemma_retry_config_one(a->Api_retry->0, b->Api_retry->0);
        }
    } else if a is LocalFile && b is LocalFile {
        lemma_file_format_one(a->LocalFile_format, b->LocalFile_format);
    } else if a is Database && b is Database {
        lemma_database_driver_one(a->Database_driver, b->Database_driver);
    } else if a is S3 && b is S3 {
        if a->S3_credentials is Some && b->S3_credentials is Some {
            lemma_aws_credentials_one(a->S3_credentials->0, b->S3_credentials->0);
        }
    }
}

} // verus!
