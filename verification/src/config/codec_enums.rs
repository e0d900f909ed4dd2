use crate::config::codec::{decoded, invalid};
use crate::config::settings::{
    AggregateOperation, AuthType, ComparisonOperator, CompressionType, DatabaseDriver, DataType,
    JoinType, WriteMode,
};
use crate::models::json::{JsonModel, JsonValue};
use crate::utils::error::{Result};
use crate::utils::text::{text_eq};
use vstd::prelude::*;
use vstd::string::StringExecFns;

verus! {

/// The word that writes a database driver.
pub open spec fn database_driver_name(v: DatabaseDriver) -> Seq<char> {
    match v {
        DatabaseDriver::Postgres => "postgres"@,
        DatabaseDriver::Mysql => "mysql"@,
        DatabaseDriver::Sqlite => "sqlite"@,
        DatabaseDriver::Surreal => "surreal"@,
    }
}

/// The encoding of a database driver: its word.
pub open spec fn encode_database_driver(v: DatabaseDriver) -> JsonModel {
    JsonModel::String(database_driver_name(v))
}

/// The normal form of the encoding of a database driver: the word itself,
/// where it is one of the words.
pub open spec fn norm_database_driver(json: JsonModel) -> Option<JsonModel> {
    match json {
        JsonModel::String(s) =>
            if exists|v: DatabaseDriver| s == #[trigger] database_driver_name(v) {
                Some(json)
            } else {
                None
            },
        _ => None,
    }
}

/// Reads a database driver.
pub fn decode_database_driver(json: &JsonValue, at: &str) -> (r: Result<DatabaseDriver>)
    ensures
        decoded(r, norm_database_driver(json@)),
        r matches Ok(v) ==> Some(encode_database_driver(v)) == norm_database_driver(json@),
{
    match json {
        JsonValue::String(s) => {
            let word = s.as_str();
            if text_eq(word, "postgres") {
                assert(s@ == database_driver_name(DatabaseDriver::Postgres));
                Ok(DatabaseDriver::Postgres)
            } else if text_eq(word, "mysql") {
                assert(s@ == database_driver_name(DatabaseDriver::Mysql));
                Ok(DatabaseDriver::Mysql)
            } else if text_eq(word, "sqlite") {
                assert(s@ == database_driver_name(DatabaseDriver::Sqlite));
                Ok(DatabaseDriver::Sqlite)
            } else if text_eq(word, "surreal") {
                assert(s@ == database_driver_name(DatabaseDriver::Surreal));
                Ok(DatabaseDriver::Surreal)
            } else {
                Err(invalid(at))
            }
        },
        _ => Err(invalid(at)),
    }
}

/// Writes a database driver.
pub fn write_database_driver(v: &DatabaseDriver) -> (r: JsonValue)
    ensures
        r@ == encode_database_driver(*v),
{
    let word: &str = match v {
        DatabaseDriver::Postgres => "postgres",
        DatabaseDriver::Mysql => "mysql",
        DatabaseDriver::Sqlite => "sqlite",
        DatabaseDriver::Surreal => "surreal",
    };
    JsonValue::String(String::from_str(word))
}

/// The encoding of a database driver is in normal form.
pub proof fn lemma_database_driver(v: DatabaseDriver)
    ensures
        norm_database_driver(encode_database_driver(v)) == Some(encode_database_driver(v)),
{
    assert(database_driver_name(v) == database_driver_name(v));
}

/// Two values of a database driver with the same encoding are the same.
pub proof fn lemma_database_driver_one(a: DatabaseDriver, b: DatabaseDriver)
    requires
        encode_database_driver(a) == encode_database_driver(b),
    ensures
        a == b,
{
    reveal_strlit("postgres");
    reveal_strlit("mysql");
    reveal_strlit("sqlite");
    reveal_strlit("surreal");
    assert("postgres"@.len() != "mysql"@.len());
    assert("postgres"@.len() != "sqlite"@.len());
    assert("postgres"@.len() != "surreal"@.len());
    assert("mysql"@.len() != "sqlite"@.len());
    assert("mysql"@.len() != "surreal"@.len());
    assert("sqlite"@.len() != "surreal"@.len());
    assert(database_driver_name(a) == database_driver_name(b));
}

/// The word that writes an authentication scheme.
pub open spec fn auth_type_name(v: AuthType) -> Seq<char> {
    match v {
        AuthType::BasicAuth => "basic_auth"@,
        AuthType::BearerToken => "bearer_token"@,
        AuthType::ApiKey => "api_key"@,
        AuthType::OAuth2 => "o_auth2"@,
    }
}

/// The encoding of an authentication scheme: its word.
pub open spec fn encode_auth_type(v: AuthType) -> JsonModel {
    JsonModel::String(auth_type_name(v))
}

/// The normal form of the encoding of an authentication scheme: the word
/// itself, where it is one of the words.
pub open spec fn norm_auth_type(json: JsonModel) -> Option<JsonModel> {
    match json {
        JsonModel::String(s) =>
            if exists|v: AuthType| s == #[trigger] auth_type_name(v) {
                Some(json)
            } else {
                None
            },
        _ => None,
    }
}

/// Reads an authentication scheme.
pub fn decode_auth_type(json: &JsonValue, at: &str) -> (r: Result<AuthType>)
    ensures
        decoded(r, norm_auth_type(json@)),
        r matches Ok(v) ==> Some(encode_auth_type(v)) == norm_auth_type(json@),
{
    match json {
        JsonValue::String(s) => {
            let word = s.as_str();
            if text_eq(word, "basic_auth") {
                assert(s@ == auth_type_name(AuthType::BasicAuth));
                Ok(AuthType::BasicAuth)
            } else if text_eq(word, "bearer_token") {
                assert(s@ == auth_type_name(AuthType::BearerToken));
                Ok(AuthType::BearerToken)
            } else if text_eq(word, "api_key") {
                assert(s@ == auth_type_name(AuthType::ApiKey));
                Ok(AuthType::ApiKey)
            } else if text_eq(word, "o_auth2") {
                assert(s@ == auth_type_name(AuthType::OAuth2));
                Ok(AuthType::OAuth2)
            } else {
                Err(invalid(at))
            }
        },
        _ => Err(invalid(at)),
    }
}

/// Writes an authentication scheme.
pub fn write_auth_type(v: &AuthType) -> (r: JsonValue)
    ensures
        r@ == encode_auth_type(*v),
{
    let word: &str = match v {
        AuthType::BasicAuth => "basic_auth",
        AuthType::BearerToken => "bearer_token",
        AuthType::ApiKey => "api_key",
        AuthType::OAuth2 => "o_auth2",
    };
    JsonValue::String(String::from_str(word))
}

/// The encoding of an authentication scheme is in normal form.
pub proof fn lemma_auth_type(v: AuthType)
    ensures
        norm_auth_type(encode_auth_type(v)) == Some(encode_auth_type(v)),
{
    assert(auth_type_name(v) == auth_type_name(v));
}

/// Two values of an authentication scheme with the same encoding are the
/// same.
pub proof fn lemma_auth_type_one(a: AuthType, b: AuthType)
    requires
        encode_auth_type(a) == encode_auth_type(b),
    ensures
        a == b,
{
    reveal_strlit("basic_auth");
    reveal_strlit("bearer_token");
    reveal_strlit("api_key");
    reveal_strlit("o_auth2");
    assert("basic_auth"@.len() != "bearer_token"@.len());
    assert("basic_auth"@.len() != "api_key"@.len());
    assert("basic_auth"@.len() != "o_auth2"@.len());
    assert("bearer_token"@.len() != "api_key"@.len());
    assert("bearer_token"@.len() != "o_auth2"@.len());
    assert("api_key"@[0] != "o_auth2"@[0]);
    assert(auth_type_name(a) == auth_type_name(b));
}

/// The word that writes a declared type.
pub open spec fn data_type_name(v: DataType) -> Seq<char> {
    match v {
        DataType::String => "string"@,
        DataType::Integer => "integer"@,
        DataType::Float => "float"@,
        DataType::Boolean => "boolean"@,
        DataType::Date => "date"@,
        DataType::DateTime => "date_time"@,
        DataType::Json => "json"@,
    }
}

/// The encoding of a declared type: its word.
pub open spec fn encode_data_type(v: DataType) -> JsonModel {
    JsonModel::String(data_type_name(v))
}

/// The normal form of the encoding of a declared type: the word itself, where
/// it is one of the words.
pub open spec fn norm_data_type(json: JsonModel) -> Option<JsonModel> {
    match json {
        JsonModel::String(s) =>
            if exists|v: DataType| s == #[trigger] data_type_name(v) {
                Some(json)
            } else {
                None
            },
        _ => None,
    }
}

/// Reads a declared type.
pub fn decode_data_type(json: &JsonValue, at: &str) -> (r: Result<DataType>)
    ensures
        decoded(r, norm_data_type(json@)),
        r matches Ok(v) ==> Some(encode_data_type(v)) == norm_data_type(json@),
{
    match json {
        JsonValue::String(s) => {
            let word = s.as_str();
            if text_eq(word, "string") {
                assert(s@ == data_type_name(DataType::String));
                Ok(DataType::String)
            } else if text_eq(word, "integer") {
                assert(s@ == data_type_name(DataType::Integer));
                Ok(DataType::Integer)
            } else if text_eq(word, "float") {
                assert(s@ == data_type_name(DataType::Float));
                Ok(DataType::Float)
            } else if text_eq(word, "boolean") {
                assert(s@ == data_type_name(DataType::Boolean));
                Ok(DataType::Boolean)
            } else if text_eq(word, "date") {
                assert(s@ == data_type_name(DataType::Date));
                Ok(DataType::Date)
            } else if text_eq(word, "date_time") {
                assert(s@ == data_type_name(DataType::DateTime));
                Ok(DataType::DateTime)
            } else if text_eq(word, "json") {
                assert(s@ == data_type_name(DataType::Json));
                Ok(DataType::Json)
            } else {
                Err(invalid(at))
            }
        },
        _ => Err(invalid(at)),
    }
}

/// Writes a declared type.
pub fn write_data_type(v: &DataType) -> (r: JsonValue)
    ensures
        r@ == encode_data_type(*v),
{
    let word: &str = match v {
        DataType::String => "string",
        DataType::Integer => "integer",
        DataType::Float => "float",
        DataType::Boolean => "boolean",
        DataType::Date => "date",
        DataType::DateTime => "date_time",
        DataType::Json => "json",
    };
    JsonValue::String(String::from_str(word))
}

/// The encoding of a declared type is in normal form.
pub proof fn lemma_data_type(v: DataType)
    ensures
        norm_data_type(encode_data_type(v)) == Some(encode_data_type(v)),
{
    assert(data_type_name(v) == data_type_name(v));
}

/// Two values of a declared type with the same encoding are the same.
pub proof fn lemma_data_type_one(a: DataType, b: DataType)
    requires
        encode_data_type(a) == encode_data_type(b),
    ensures
        a == b,
{
    reveal_strlit("string");
    reveal_strlit("integer");
    reveal_strlit("float");
    reveal_strlit("boolean");
    reveal_strlit("date");
    reveal_strlit("date_time");
    reveal_strlit("json");
    assert("string"@.len() != "integer"@.len());
    assert("string"@.len() != "float"@.len());
    assert("string"@.len() != "boolean"@.len());
    assert("string"@.len() != "date"@.len());
    assert("string"@.len() != "date_time"@.len());
    assert("string"@.len() != "json"@.len());
    assert("integer"@.len() != "float"@.len());
    assert("integer"@[0] != "boolean"@[0]);
    assert("integer"@.len() != "date"@.len());
    assert("integer"@.len() != "date_time"@.len());
    assert("integer"@.len() != "json"@.len());
    assert("float"@.len() != "boolean"@.len());
    assert("float"@.len() != "date"@.len());
    assert("float"@.len() != "date_time"@.len());
    assert("float"@.len() != "json"@.len());
    assert("boolean"@.len() != "date"@.len());
    assert("boolean"@.len() != "date_time"@.len());
    assert("boolean"@.len() != "json"@.len());
    assert("date"@.len() != "date_time"@.len());
    assert("date"@[0] != "json"@[0]);
    assert("date_time"@.len() != "json"@.len());
    assert(data_type_name(a) == data_type_name(b));
}

/// The word that writes an aggregation.
pub open spec fn aggregate_operation_name(v: AggregateOperation) -> Seq<char> {
    match v {
        AggregateOperation::Count => "count"@,
        AggregateOperation::Sum => "sum"@,
        AggregateOperation::Average => "average"@,
        AggregateOperation::Min => "min"@,
        AggregateOperation::Max => "max"@,
        AggregateOperation::GroupConcat => "group_concat"@,
    }
}

/// The encoding of an aggregation: its word.
pub open spec fn encode_aggregate_operation(v: AggregateOperation) -> JsonModel {
    JsonModel::String(aggregate_operation_name(v))
}

/// The normal form of the encoding of an aggregation: the word itself, where
/// it is one of the words.
pub open spec fn norm_aggregate_operation(json: JsonModel) -> Option<JsonModel> {
    match json {
        JsonModel::String(s) =>
            if exists|v: AggregateOperation| s == #[trigger] aggregate_operation_name(v) {
                Some(json)
            } else {
                None
            },
        _ => None,
    }
}

/// Reads an aggregation.
pub fn decode_aggregate_operation(json: &JsonValue, at: &str) -> (r: Result<AggregateOperation>)
    ensures
        decoded(r, norm_aggregate_operation(json@)),
        r matches Ok(v) ==> Some(encode_aggregate_operation(v)) == norm_aggregate_operation(json@),
{
    match json {
        JsonValue::String(s) => {
            let word = s.as_str();
            if text_eq(word, "count") {
                assert(s@ == aggregate_operation_name(AggregateOperation::Count));
                Ok(AggregateOperation::Count)
            } else if text_eq(word, "sum") {
                assert(s@ == aggregate_operation_name(AggregateOperation::Sum));
                Ok(AggregateOperation::Sum)
            } else if text_eq(word, "average") {
                assert(s@ == aggregate_operation_name(AggregateOperation::Average));
                Ok(AggregateOperation::Average)
            } else if text_eq(word, "min") {
                assert(s@ == aggregate_operation_name(AggregateOperation::Min));
                Ok(AggregateOperation::Min)
            } else if text_eq(word, "max") {
                assert(s@ == aggregate_operation_name(AggregateOperation::Max));
                Ok(AggregateOperation::Max)
            } else if text_eq(word, "group_concat") {
                assert(s@ == aggregate_operation_name(AggregateOperation::GroupConcat));
                Ok(AggregateOperation::GroupConcat)
            } else {
                Err(invalid(at))
            }
        },
        _ => Err(invalid(at)),
    }
}

/// Writes an aggregation.
pub fn write_aggregate_operation(v: &AggregateOperation) -> (r: JsonValue)
    ensures
        r@ == encode_aggregate_operation(*v),
{
    let word: &str = match v {
        AggregateOperation::Count => "count",
        AggregateOperation::Sum => "sum",
        AggregateOperation::Average => "average",
        AggregateOperation::Min => "min",
        AggregateOperation::Max => "max",
        AggregateOperation::GroupConcat => "group_concat",
    };
    JsonValue::String(String::from_str(word))
}

/// The encoding of an aggregation is in normal form.
pub proof fn lemma_aggregate_operation(v: AggregateOperation)
    ensures
        norm_aggregate_operation(
            encode_aggregate_operation(v)
        ) == Some(encode_aggregate_operation(v)),
{
    assert(aggregate_operation_name(v) == aggregate_operation_name(v));
}

/// Two values of an aggregation with the same encoding are the same.
pub proof fn lemma_aggregate_operation_one(a: AggregateOperation, b: AggregateOperation)
    requires
        encode_aggregate_operation(a) == encode_aggregate_operation(b),
    ensures
        a == b,
{
    reveal_strlit("count");
    reveal_strlit("sum");
    reveal_strlit("average");
    reveal_strlit("min");
    reveal_strlit("max");
    reveal_strlit("group_concat");
    assert("count"@.len() != "sum"@.len());
    assert("count"@.len() != "average"@.len());
    assert("count"@.len() != "min"@.len());
    assert("count"@.len() != "max"@.len());
    assert("count"@.len() != "group_concat"@.len());
    assert("sum"@.len() != "average"@.len());
    assert("sum"@[0] != "min"@[0]);
    assert("sum"@[0] != "max"@[0]);
    assert("sum"@.len() != "group_concat"@.len());
    assert("average"@.len() != "min"@.len());
    assert("average"@.len() != "max"@.len());
    assert("average"@.len() != "group_concat"@.len());
    assert("min"@[1] != "max"@[1]);
    assert("min"@.len() != "group_concat"@.len());
    assert("max"@.len() != "group_concat"@.len());
    assert(aggregate_operation_name(a) == aggregate_operation_name(b));
}

/// The word that writes a kind of join.
pub open spec fn join_type_name(v: JoinType) -> Seq<char> {
    match v {
        JoinType::Inner => "inner"@,
        JoinType::Left => "left"@,
        JoinType::Right => "right"@,
        JoinType::Full => "full"@,
    }
}

/// The encoding of a kind of join: its word.
pub open spec fn encode_join_type(v: JoinType) -> JsonModel {
    JsonModel::String(join_type_name(v))
}

/// The normal form of the encoding of a kind of join: the word itself, where
/// it is one of the words.
pub open spec fn norm_join_type(json: JsonModel) -> Option<JsonModel> {
    match json {
        JsonModel::String(s) =>
            if exists|v: JoinType| s == #[trigger] join_type_name(v) {
                Some(json)
            } else {
                None
            },
        _ => None,
    }
}

/// Reads a kind of join.
pub fn decode_join_type(json: &JsonValue, at: &str) -> (r: Result<JoinType>)
    ensures
        decoded(r, norm_join_type(json@)),
        r matches Ok(v) ==> Some(encode_join_type(v)) == norm_join_type(json@),
{
    match json {
        JsonValue::String(s) => {
            let word = s.as_str();
            if text_eq(word, "inner") {
                assert(s@ == join_type_name(JoinType::Inner));
                Ok(JoinType::Inner)
            } else if text_eq(word, "left") {
                assert(s@ == join_type_name(JoinType::Left));
                Ok(JoinType::Left)
            } else if text_eq(word, "right") {
                assert(s@ == join_type_name(JoinType::Right));
                Ok(JoinType::Right)
            } else if text_eq(word, "full") {
                assert(s@ == join_type_name(JoinType::Full));
                Ok(JoinType::Full)
            } else {
                Err(invalid(at))
            }
        },
        _ => Err(invalid(at)),
    }
}

/// Writes a kind of join.
pub fn write_join_type(v: &JoinType) -> (r: JsonValue)
    ensures
        r@ == encode_join_type(*v),
{
    let word: &str = match v {
        JoinType::Inner => "inner",
        JoinType::Left => "left",
        JoinType::Right => "right",
        JoinType::Full => "full",
    };
    JsonValue::String(String::from_str(word))
}

/// The encoding of a kind of join is in normal form.
pub proof fn lemma_join_type(v: JoinType)
    ensures
        norm_join_type(encode_join_type(v)) == Some(encode_join_type(v)),
{
    assert(join_type_name(v) == join_type_name(v));
}

/// Two values of a kind of join with the same encoding are the same.
pub proof fn lemma_join_type_one(a: JoinType, b: JoinType)
    requires
        encode_join_type(a) == encode_join_type(b),
    ensures
        a == b,
{
    reveal_strlit("inner");
    reveal_strlit("left");
    reveal_strlit("right");
    reveal_strlit("full");
    assert("inner"@.len() != "left"@.len());
    assert("inner"@[0] != "right"@[0]);
    assert("inner"@.len() != "full"@.len());
    assert("left"@.len() != "right"@.len());
    assert("left"@[0] != "full"@[0]);
    assert("right"@.len() != "full"@.len());
    assert(join_type_name(a) == join_type_name(b));
}

/// The word that writes a comparison.
pub open spec fn comparison_operator_name(v: ComparisonOperator) -> Seq<char> {
    match v {
        ComparisonOperator::Equal => "equal"@,
        ComparisonOperator::NotEqual => "not_equal"@,
        ComparisonOperator::GreaterThan => "greater_than"@,
        ComparisonOperator::LessThan => "less_than"@,
        ComparisonOperator::GreaterEqual => "greater_equal"@,
        ComparisonOperator::LessEqual => "less_equal"@,
        ComparisonOperator::Contains => "contains"@,
        ComparisonOperator::StartsWith => "starts_with"@,
        ComparisonOperator::EndsWith => "ends_with"@,
        ComparisonOperator::Regex => "regex"@,
        ComparisonOperator::In => "in"@,
        ComparisonOperator::NotIn => "not_in"@,
    }
}

/// The encoding of a comparison: its word.
pub open spec fn encode_comparison_operator(v: ComparisonOperator) -> JsonModel {
    JsonModel::String(comparison_operator_name(v))
}

/// The normal form of the encoding of a comparison: the word itself, where it
/// is one of the words.
pub open spec fn norm_comparison_operator(json: JsonModel) -> Option<JsonModel> {
    match json {
        JsonModel::String(s) =>
            if exists|v: ComparisonOperator| s == #[trigger] comparison_operator_name(v) {
                Some(json)
            } else {
                None
            },
        _ => None,
    }
}

/// Reads a comparison.
pub fn decode_comparison_operator(json: &JsonValue, at: &str) -> (r: Result<ComparisonOperator>)
    ensures
        decoded(r, norm_comparison_operator(json@)),
        r matches Ok(v) ==> Some(encode_comparison_operator(v)) == norm_comparison_operator(json@),
{
    match json {
        JsonValue::String(s) => {
            let word = s.as_str();
            if text_eq(word, "equal") {
                assert(s@ == comparison_operator_name(ComparisonOperator::Equal));
                Ok(ComparisonOperator::Equal)
            } else if text_eq(word, "not_equal") {
                assert(s@ == comparison_operator_name(ComparisonOperator::NotEqual));
                Ok(ComparisonOperator::NotEqual)
            } else if text_eq(word, "greater_than") {
                assert(s@ == comparison_operator_name(ComparisonOperator::GreaterThan));
                Ok(ComparisonOperator::GreaterThan)
            } else if text_eq(word, "less_than") {
                assert(s@ == comparison_operator_name(ComparisonOperator::LessThan));
                Ok(ComparisonOperator::LessThan)
            } else if text_eq(word, "greater_equal") {
                assert(s@ == comparison_operator_name(ComparisonOperator::GreaterEqual));
                Ok(ComparisonOperator::GreaterEqual)
            } else if text_eq(word, "less_equal") {
                assert(s@ == comparison_operator_name(ComparisonOperator::LessEqual));
                Ok(ComparisonOperator::LessEqual)
            } else if text_eq(word, "contains") {
                assert(s@ == comparison_operator_name(ComparisonOperator::Contains));
                Ok(ComparisonOperator::Contains)
            } else if text_eq(word, "starts_with") {
                assert(s@ == comparison_operator_name(ComparisonOperator::StartsWith));
                Ok(ComparisonOperator::StartsWith)
            } else if text_eq(word, "ends_with") {
                assert(s@ == comparison_operator_name(ComparisonOperator::EndsWith));
                Ok(ComparisonOperator::EndsWith)
            } else if text_eq(word, "regex") {
                assert(s@ == comparison_operator_name(ComparisonOperator::Regex));
                Ok(ComparisonOperator::Regex)
            } else if text_eq(word, "in") {
                assert(s@ == comparison_operator_name(ComparisonOperator::In));
                Ok(ComparisonOperator::In)
            } else if text_eq(word, "not_in") {
                assert(s@ == comparison_operator_name(ComparisonOperator::NotIn));
                Ok(ComparisonOperator::NotIn)
            } else {
                Err(invalid(at))
            }
        },
        _ => Err(invalid(at)),
    }
}

/// Writes a comparison.
pub fn write_comparison_operator(v: &ComparisonOperator) -> (r: JsonValue)
    ensures
        r@ == encode_comparison_operator(*v),
{
    let word: &str = match v {
        ComparisonOperator::Equal => "equal",
        ComparisonOperator::NotEqual => "not_equal",
        ComparisonOperator::GreaterThan => "greater_than",
        ComparisonOperator::LessThan => "less_than",
        ComparisonOperator::GreaterEqual => "greater_equal",
        ComparisonOperator::LessEqual => "less_equal",
        ComparisonOperator::Contains => "contains",
        ComparisonOperator::StartsWith => "starts_with",
        ComparisonOperator::EndsWith => "ends_with",
        ComparisonOperator::Regex => "regex",
        ComparisonOperator::In => "in",
        ComparisonOperator::NotIn => "not_in",
    };
    JsonValue::String(String::from_str(word))
}

/// The encoding of a comparison is in normal form.
pub proof fn lemma_comparison_operator(v: ComparisonOperator)
    ensures
        norm_comparison_operator(
            encode_comparison_operator(v)
        ) == Some(encode_comparison_operator(v)),
{
    assert(comparison_operator_name(v) == comparison_operator_name(v));
}

/// Two values of a comparison with the same encoding are the same.
pub proof fn lemma_comparison_operator_one(a: ComparisonOperator, b: ComparisonOperator)
    requires
        encode_comparison_operator(a) == encode_comparison_operator(b),
    ensures
        a == b,
{
    reveal_strlit("equal");
    reveal_strlit("not_equal");
    reveal_strlit("greater_than");
    reveal_strlit("less_than");
    reveal_strlit("greater_equal");
    reveal_strlit("less_equal");
    reveal_strlit("contains");
    reveal_strlit("starts_with");
    reveal_strlit("ends_with");
    reveal_strlit("regex");
    reveal_strlit("in");
    reveal_strlit("not_in");
    assert("equal"@.len() != "not_equal"@.len());
    assert("equal"@.len() != "greater_than"@.len());
    assert("equal"@.len() != "less_than"@.len());
    assert("equal"@.len() != "greater_equal"@.len());
    assert("equal"@.len() != "less_equal"@.len());
    assert("equal"@.len() != "contains"@.len());
    assert("equal"@.len() != "starts_with"@.len());
    assert("equal"@.len() != "ends_with"@.len());
    assert("equal"@[0] != "regex"@[0]);
    assert("equal"@.len() != "in"@.len());
    assert("equal"@.len() != "not_in"@.len());
    assert("not_equal"@.len() != "greater_than"@.len());
    assert("not_equal"@[0] != "less_than"@[0]);
    assert("not_equal"@.len() != "greater_equal"@.len());
    assert("not_equal"@.len() != "less_equal"@.len());
    assert("not_equal"@.len() != "contains"@.len());
    assert("not_equal"@.len() != "starts_with"@.len());
    assert("not_equal"@[0] != "ends_with"@[0]);
    assert("not_equal"@.len() != "regex"@.len());
    assert("not_equal"@.len() != "in"@.len());
    assert("not_equal"@.len() != "not_in"@.len());
    assert("greater_than"@.len() != "less_than"@.len());
    assert("greater_than"@.len() != "greater_equal"@.len());
    assert("greater_than"@.len() != "less_equal"@.len());
    assert("greater_than"@.len() != "contains"@.len());
    assert("greater_than"@.len() != "starts_with"@.len());
    assert("greater_than"@.len() != "ends_with"@.len());
    assert("greater_than"@.len() != "regex"@.len());
    assert("greater_than"@.len() != "in"@.len());
    assert("greater_than"@.len() != "not_in"@.len());
    assert("less_than"@.len() != "greater_equal"@.len());
    assert("less_than"@.len() != "less_equal"@.len());
    assert("less_than"@.len() != "contains"@.len());
    assert("less_than"@.len() != "starts_with"@.len());
    assert("less_than"@[0] != "ends_with"@[0]);
    assert("less_than"@.len() != "regex"@.len());
    assert("less_than"@.len() != "in"@.len());
    assert("less_than"@.len() != "not_in"@.len());
    assert("greater_equal"@.len() != "less_equal"@.len());
    assert("greater_equal"@.len() != "contains"@.len());
    assert("greater_equal"@.len() != "starts_with"@.len());
    assert("greater_equal"@.len() != "ends_with"@.len());
    assert("greater_equal"@.len() != "regex"@.len());
    assert("greater_equal"@.len() != "in"@.len());
    assert("greater_equal"@.len() != "not_in"@.len());
    assert("less_equal"@.len() != "contains"@.len());
    assert("less_equal"@.len() != "starts_with"@.len());
    assert("less_equal"@.len() != "ends_with"@.len());
    assert("less_equal"@.len() != "regex"@.len());
    assert("less_equal"@.len() != "in"@.len());
    assert("less_equal"@.len() != "not_in"@.len());
    assert("contains"@.len() != "starts_with"@.len());
    assert("contains"@.len() != "ends_with"@.len());
    assert("contains"@.len() != "regex"@.len());
    assert("contains"@.len() != "in"@.len());
    assert("contains"@.len() != "not_in"@.len());
    assert("starts_with"@.len() != "ends_with"@.len());
    assert("starts_with"@.len() != "regex"@.len());
    assert("starts_with"@.len() != "in"@.len());
    assert("starts_with"@.len() != "not_in"@.len());
    assert("ends_with"@.len() != "regex"@.len());
    assert("ends_with"@.len() != "in"@.len());
    assert("ends_with"@.len() != "not_in"@.len());
    assert("regex"@.len() != "in"@.len());
    assert("regex"@.len() != "not_in"@.len());
    assert("in"@.len() != "not_in"@.len());
    assert(comparison_operator_name(a) == comparison_operator_name(b));
}

/// The word that writes a compression.
pub open spec fn compression_type_name(v: CompressionType) -> Seq<char> {
    match v {
        CompressionType::Gzip => "gzip"@,
        CompressionType::Zip => "zip"@,
        CompressionType::Bzip2 => "bzip2"@,
        CompressionType::Zstd => "zstd"@,
    }
}

/// The encoding of a compression: its word.
pub open spec fn encode_compression_type(v: CompressionType) -> JsonModel {
    JsonModel::String(compression_type_name(v))
}

/// The normal form of the encoding of a compression: the word itself, where
/// it is one of the words.
pub open spec fn norm_compression_type(json: JsonModel) -> Option<JsonModel> {
    match json {
        JsonModel::String(s) =>
            if exists|v: CompressionType| s == #[trigger] compression_type_name(v) {
                Some(json)
            } else {
                None
            },
        _ => None,
    }
}

/// Reads a compression.
pub fn decode_compression_type(json: &JsonValue, at: &str) -> (r: Result<CompressionType>)
    ensures
        decoded(r, norm_compression_type(json@)),
        r matches Ok(v) ==> Some(encode_compression_type(v)) == norm_compression_type(json@),
{
    match json {
        JsonValue::String(s) => {
            let word = s.as_str();
            if text_eq(word, "gzip") {
                assert(s@ == compression_type_name(CompressionType::Gzip));
                Ok(CompressionType::Gzip)
            } else if text_eq(word, "zip") {
                assert(s@ == compression_type_name(CompressionType::Zip));
                Ok(CompressionType::Zip)
            } else if text_eq(word, "bzip2") {
                assert(s@ == compression_type_name(CompressionType::Bzip2));
                Ok(CompressionType::Bzip2)
            } else if text_eq(word, "zstd") {
                assert(s@ == compression_type_name(CompressionType::Zstd));
                Ok(CompressionType::Zstd)
            } else {
                Err(invalid(at))
            }
        },
        _ => Err(invalid(at)),
    }
}

/// Writes a compression.
pub fn write_compression_type(v: &CompressionType) -> (r: JsonValue)
    ensures
        r@ == encode_compression_type(*v),
{
    let word: &str = match v {
        CompressionType::Gzip => "gzip",
        CompressionType::Zip => "zip",
        CompressionType::Bzip2 => "bzip2",
        CompressionType::Zstd => "zstd",
    };
    JsonValue::String(String::from_str(word))
}

/// The encoding of a compression is in normal form.
pub proof fn lemma_compression_type(v: CompressionType)
    ensures
        norm_compression_type(encode_compression_type(v)) == Some(encode_compression_type(v)),
{
    assert(compression_type_name(v) == compression_type_name(v));
}

/// Two values of a compression with the same encoding are the same.
pub proof fn lemma_compression_type_one(a: CompressionType, b: CompressionType)
    requires
        encode_compression_type(a) == encode_compression_type(b),
    ensures
        a == b,
{
    reveal_strlit("gzip");
    reveal_strlit("zip");
    reveal_strlit("bzip2");
    reveal_strlit("zstd");
    assert("gzip"@.len() != "zip"@.len());
    assert("gzip"@.len() != "bzip2"@.len());
    assert("gzip"@[0] != "zstd"@[0]);
    assert("zip"@.len() != "bzip2"@.len());
    assert("zip"@.len() != "zstd"@.len());
    assert("bzip2"@.len() != "zstd"@.len());
    assert(compression_type_name(a) == compression_type_name(b));
}

/// The word that writes a write mode.
pub open spec fn write_mode_name(v: WriteMode) -> Seq<char> {
    match v {
        WriteMode::Overwrite => "overwrite"@,
        WriteMode::Append => "append"@,
        WriteMode::Upsert => "upsert"@,
    }
}

/// The encoding of a write mode: its word.
pub open spec fn encode_write_mode(v: WriteMode) -> JsonModel {
    JsonModel::String(write_mode_name(v))
}

/// The normal form of the encoding of a write mode: the word itself, where it
/// is one of the words.
pub open spec fn norm_write_mode(json: JsonModel) -> Option<JsonModel> {
    match json {
        JsonModel::String(s) =>
            if exists|v: WriteMode| s == #[trigger] write_mode_name(v) {
                Some(json)
            } else {
                None
            },
        _ => None,
    }
}

/// Reads a write mode.
pub fn decode_write_mode(json: &JsonValue, at: &str) -> (r: Result<WriteMode>)
    ensures
        decoded(r, norm_write_mode(json@)),
        r matches Ok(v) ==> Some(encode_write_mode(v)) == norm_write_mode(json@),
{
    match json {
        JsonValue::String(s) => {
            let word = s.as_str();
            if text_eq(word, "overwrite") {
                assert(s@ == write_mode_name(WriteMode::Overwrite));
                Ok(WriteMode::Overwrite)
            } else if text_eq(word, "append") {
                assert(s@ == write_mode_name(WriteMode::Append));
                Ok(WriteMode::Append)
            } else if text_eq(word, "upsert") {
                assert(s@ == write_mode_name(WriteMode::Upsert));
                Ok(WriteMode::Upsert)
            } else {
                Err(invalid(at))
            }
        },
        _ => Err(invalid(at)),
    }
}

/// Writes a write mode.
pub fn write_write_mode(v: &WriteMode) -> (r: JsonValue)
    ensures
        r@ == encode_write_mode(*v),
{
    let word: &str = match v {
        WriteMode::Overwrite => "overwrite",
        WriteMode::Append => "append",
        WriteMode::Upsert => "upsert",
    };
    JsonValue::String(String::from_str(word))
}

/// The encoding of a write mode is in normal form.
pub proof fn lemma_write_mode(v: WriteMode)
    ensures
        norm_write_mode(encode_write_mode(v)) == Some(encode_write_mode(v)),
{
    assert(write_mode_name(v) == write_mode_name(v));
}

/// Two values of a write mode with the same encoding are the same.
pub proof fn lemma_write_mode_one(a: WriteMode, b: WriteMode)
    requires
        encode_write_mode(a) == encode_write_mode(b),
    ensures
        a == b,
{
    reveal_strlit("overwrite");
    reveal_strlit("append");
    reveal_strlit("upsert");
    assert("overwrite"@.len() != "append"@.len());
    assert("overwrite"@.len() != "upsert"@.len());
    assert("append"@[0] != "upsert"@[0]);
    assert(write_mode_name(a) == write_mode_name(b));
}

} // verus!
