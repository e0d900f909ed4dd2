use crate::config::settings::DataType;
use crate::models::json::{
    float_number_of, integer_number, json_compact_text, json_text_value, parse_float_number,
    parse_json_text, write_json_text, JsonModel, JsonNumber, JsonNumberModel, JsonValue,
};
use crate::transformers::conditions::{integer_text, number_text, number_to_text};
use crate::utils::text::{
    lowercase_of, parse_i64, parse_i64_spec, text_concat, text_eq, to_lowercase,
};
use vstd::prelude::*;
use vstd::string::StringExecFns;

verus! {

/// Whether `chrono::NaiveDate::parse_from_str` reads a text as a date in
/// the given format.
pub uninterp spec fn date_text_accepts(text: Seq<char>, format: Seq<char>) -> bool;

/// Whether `chrono::DateTime::parse_from_rfc3339` reads a text as a date
/// and time.
pub uninterp spec fn datetime_text_accepts(text: Seq<char>) -> bool;

/// Asks `chrono::NaiveDate::parse_from_str` whether a text is a date in the
/// given format.
#[verifier::external_body]
fn is_date_text(text: &str, format: &str) -> (r: bool)
    ensures
        r == date_text_accepts(text@, format@),
{
    chrono::NaiveDate::parse_from_str(text, format).is_ok()
}

/// Asks `chrono::DateTime::parse_from_rfc3339` whether a text is a date and
/// time.
#[verifier::external_body]
fn is_datetime_text(text: &str) -> (r: bool)
    ensures
        r == datetime_text_accepts(text@),
{
    chrono::DateTime::parse_from_rfc3339(text).is_ok()
}

/// The text that stands for a value where a text is asked for: a string is
/// its own text, a number its digits, a boolean `true` or `false`, null the
/// empty text, and an array or an object its compact JSON text.
pub open spec fn value_text(value: JsonModel) -> Option<Seq<char>> {
    match value {
        JsonModel::Null => Some(Seq::empty()),
        JsonModel::Bool(b) => Some(
            if b {
                "true"@
            } else {
                "false"@
            },
        ),
        JsonModel::Number(n) => Some(number_text(n)),
        JsonModel::String(s) => Some(s),
        _ => json_compact_text(value),
    }
}

/// The largest integer up to which every integer is a floating-point
/// number of double precision: two to the power of 53.
pub const EXACT_FLOAT_LIMIT: u64 = 9007199254740992;

/// What a value is as a string, without loss: the text of a string, a
/// number or a boolean.
pub open spec fn as_string(value: JsonModel) -> Option<JsonModel> {
    match value {
        JsonModel::String(_) | JsonModel::Number(_) | JsonModel::Bool(_) => Some(
            JsonModel::String(value_text(value)->0),
        ),
        _ => None,
    }
}

/// What a value is as an integer, without loss: an integer itself, and the
/// integer that a string writes.
pub open spec fn as_integer(value: JsonModel) -> Option<JsonModel> {
    match value {
        JsonModel::Number(JsonNumberModel::PosInt(_)) | JsonModel::Number(
            JsonNumberModel::NegInt(_),
        ) => Some(value),
        JsonModel::String(s) => match parse_i64_spec(s) {
            Some(i) => Some(JsonModel::Number(integer_number(i as int))),
            None => None,
        },
        _ => None,
    }
}

/// The floating-point number of an integer that is small enough to be one
/// exactly: its digits with `.0` after them.
pub open spec fn exact_float(i: int) -> Option<JsonModel> {
    if -EXACT_FLOAT_LIMIT <= i <= EXACT_FLOAT_LIMIT {
        Some(JsonModel::Number(JsonNumberModel::Float(integer_text(i) + ".0"@)))
    } else {
        None
    }
}

/// What a value is as a floating-point number, without loss: such a number
/// itself, an integer that is one exactly, and the number that a string
/// writes.
pub open spec fn as_float(value: JsonModel) -> Option<JsonModel> {
    match value {
        JsonModel::Number(JsonNumberModel::Float(_)) => Some(value),
        JsonModel::Number(JsonNumberModel::PosInt(u)) => exact_float(u as int),
        JsonModel::Number(JsonNumberModel::NegInt(i)) => exact_float(i as int),
        JsonModel::String(s) => match float_number_of(s) {
            Some(n) => Some(JsonModel::Number(n)),
            None => None,
        },
        _ => None,
    }
}

/// What a value is as a boolean, without loss: a boolean itself, the
/// integers one and zero, and a string that is, whatever its case, `true`
/// or `yes` or `1`, or `false` or `no` or `0`.
pub open spec fn as_boolean(value: JsonModel) -> Option<JsonModel> {
    match value {
        JsonModel::Bool(_) => Some(value),
        JsonModel::Number(JsonNumberModel::PosInt(u)) => if u == 1 {
            Some(JsonModel::Bool(true))
        } else if u == 0 {
            Some(JsonModel::Bool(false))
        } else {
            None
        },
        JsonModel::String(s) => {
            let word = lowercase_of(s);
            if word == "true"@ || word == "yes"@ || word == "1"@ {
                Some(JsonModel::Bool(true))
            } else if word == "false"@ || word == "no"@ || word == "0"@ {
                Some(JsonModel::Bool(false))
            } else {
                None
            }
        },
        _ => None,
    }
}

/// What a value is as a value of a declared type, where it can be one
/// without loss. A date is a string of the form year-month-day, a date and
/// time a string of the form of RFC 3339, and either stays a string. As
/// JSON, a string is the value that its text writes, and any other value
/// stays as it is.
pub open spec fn converted(value: JsonModel, to_type: DataType) -> Option<JsonModel> {
    match to_type {
        DataType::String => as_string(value),
        DataType::Integer => as_integer(value),
        DataType::Float => as_float(value),
        DataType::Boolean => as_boolean(value),
        DataType::Date => match value {
            JsonModel::String(s) => if date_text_accepts(s, "%Y-%m-%d"@) {
                Some(value)
            } else {
                None
            },
            _ => None,
        },
        DataType::DateTime => match value {
            JsonModel::String(s) => if datetime_text_accepts(s) {
                Some(value)
            } else {
                None
            },
            _ => None,
        },
        DataType::Json => match value {
            JsonModel::String(s) => json_text_value(s),
            _ => Some(value),
        },
    }
}

/// The name of a declared type, as error messages write it.
pub open spec fn data_type_name(to_type: DataType) -> Seq<char> {
    match to_type {
        DataType::String => "string"@,
        DataType::Integer => "integer"@,
        DataType::Float => "float"@,
        DataType::Boolean => "boolean"@,
        DataType::Date => "date"@,
        DataType::DateTime => "datetime"@,
        DataType::Json => "json"@,
    }
}

/// The text that stands for a value where a text is asked for.
pub fn render_value(value: &JsonValue) -> (r: Option<String>)
    ensures
        match r {
            Some(text) => value_text(value@) == Some(text@),
            None => value_text(value@) is None,
        },
{
    match value {
        JsonValue::Null => {
            proof {
                reveal_strlit("");
            }
            let text = String::from_str("");
            assert(text@ =~= Seq::<char>::empty());
            Some(text)
        },
        JsonValue::Bool(b) => Some(
            if *b {
                String::from_str("true")
            } else {
                String::from_str("false")
            },
        ),
        JsonValue::Number(n) => Some(number_to_text(n)),
        JsonValue::String(s) => Some(s.clone()),
        _ => match write_json_text(value) {
            Ok(text) => Some(text),
            Err(_) => None,
        },
    }
}

/// The floating-point number of an integer, where it is one exactly.
fn float_of_integer(negative: bool, magnitude: u64) -> (r: Option<JsonValue>)
    requires
        negative ==> magnitude > 0,
    ensures
        match r {
            Some(v) => exact_float(
                if negative {
                    -(magnitude as int)
                } else {
                    magnitude as int
                },
            ) == Some(v@),
            None => exact_float(
                if negative {
                    -(magnitude as int)
                } else {
                    magnitude as int
                },
            ) is None,
        },
{
    if magnitude > EXACT_FLOAT_LIMIT {
        return None;
    }
    let digits = crate::utils::text::decimal_text(magnitude);
    let mut text = if negative {
        text_concat("-", digits.as_str())
    } else {
        digits
    };
    text.append(".0");
    Some(JsonValue::Number(JsonNumber::Float(text)))
}

/// Converts a value to a declared type, where it can be converted without
/// loss.
pub fn convert_value(value: &JsonValue, to_type: DataType) -> (r: Option<JsonValue>)
    ensures
        match r {
            Some(v) => converted(value@, to_type) == Some(v@),
            None => converted(value@, to_type) is None,
        },
{
    match to_type {
        DataType::String => match value {
            JsonValue::String(_) | JsonValue::Number(_) | JsonValue::Bool(_) => {
                match render_value(value) {
                    Some(text) => Some(JsonValue::String(text)),
                    None => None,
                }
            },
            _ => None,
        },
        DataType::Integer => match value {
            JsonValue::Number(JsonNumber::PosInt(u)) => Some(
                JsonValue::Number(JsonNumber::PosInt(*u)),
            ),
            JsonValue::Number(JsonNumber::NegInt(i)) => Some(
                JsonValue::Number(JsonNumber::NegInt(*i)),
            ),
            JsonValue::String(s) => match parse_i64(s.as_str()) {
                Some(i) => Some(JsonValue::Number(JsonNumber::from_i64(i))),
                None => None,
            },
            _ => None,
        },
        DataType::Float => match value {
            JsonValue::Number(JsonNumber::Float(t)) => Some(
                JsonValue::Number(JsonNumber::Float(t.clone())),
            ),
            JsonValue::Number(JsonNumber::PosInt(u)) => float_of_integer(false, *u),
            JsonValue::Number(JsonNumber::NegInt(i)) => {
                if *i >= 0 {
                    float_of_integer(false, *i as u64)
                } else {
                    float_of_integer(true, (-(*i as i128)) as u64)
                }
            },
            JsonValue::String(s) => match parse_float_number(s.as_str()) {
                Some(n) => Some(JsonValue::Number(n)),
                None => None,
            },
            _ => None,
        },
        DataType::Boolean => match value {
            JsonValue::Bool(b) => Some(JsonValue::Bool(*b)),
            JsonValue::Number(JsonNumber::PosInt(u)) => {
                if *u == 1 {
                    Some(JsonValue::Bool(true))
                } else if *u == 0 {
                    Some(JsonValue::Bool(false))
                } else {
                    None
                }
            },
            JsonValue::String(s) => {
                let lowered = to_lowercase(s.as_str());
                let word = lowered.as_str();
                if text_eq(word, "true") || text_eq(word, "yes") || text_eq(word, "1") {
                    Some(JsonValue::Bool(true))
                } else if text_eq(word, "false") || text_eq(word, "no") || text_eq(word, "0") {
                    Some(JsonValue::Bool(false))
                } else {
                    None
                }
            },
            _ => None,
        },
        DataType::Date => match value {
            JsonValue::String(s) => {
                if is_date_text(s.as_str(), "%Y-%m-%d") {
                    Some(JsonValue::String(s.clone()))
                } else {
                    None
                }
            },
            _ => None,
        },
        DataType::DateTime => match value {
            JsonValue::String(s) => {
                if is_datetime_text(s.as_str()) {
                    Some(JsonValue::String(s.clone()))
                } else {
                    None
                }
            },
            _ => None,
        },
        DataType::Json => match value {
            JsonValue::String(s) => match parse_json_text(s.as_str()) {
                Ok(v) => Some(v),
                Err(_) => None,
            },
            _ => Some(value.clone()),
        },
    }
}

/// The value that a table gives for a key: that of the last entry with the
/// key, or nothing where no entry has it.
pub open spec fn table_lookup(table: Seq<(String, String)>, key: Seq<char>) -> Option<Seq<char>>
    decreases table.len(),
{
    if table.len() == 0 {
        None
    } else if table.last().0@ == key {
        Some(table.last().1@)
    } else {
        table_lookup(table.drop_last(), key)
    }
}

/// What a mapping table makes of a value: the entry of the table for the
/// text of a string, as a string, and any other value unchanged.
pub open spec fn mapped_through(value: JsonModel, table: Seq<(String, String)>) -> JsonModel {
    match value {
        JsonModel::String(s) => match table_lookup(table, s) {
            Some(t) => JsonModel::String(t),
            None => value,
        },
        _ => value,
    }
}

/// Looks a key up in a table.
pub fn lookup_in_table<'a>(table: &'a Vec<(String, String)>, key: &str) -> (r: Option<&'a String>)
    ensures
        match r {
            Some(v) => table_lookup(table@, key@) == Some(v@),
            None => table_lookup(table@, key@) is None,
        },
{
    let mut i: usize = table.len();
    assert(table@.take(i as int) =~= table@);
    while i > 0
        invariant
            i <= table.len(),
            table_lookup(table@, key@) == table_lookup(table@.take(i as int), key@),
        decreases i,
    {
        i -= 1;
        proof {
            assert(table@.take(i + 1).drop_last() =~= table@.take(i as int));
            assert(table@.take(i + 1).last() == table@[i as int]);
        }
        if text_eq(table[i].0.as_str(), key) {
            return Some(&table[i].1);
        }
    }
    None
}

/// Passes a value through a mapping table.
pub fn map_value(value: &JsonValue, table: &Vec<(String, String)>) -> (r: JsonValue)
    ensures
        r@ == mapped_through(value@, table@),
{
    match value {
        JsonValue::String(s) => match lookup_in_table(table, s.as_str()) {
            Some(t) => JsonValue::String(t.clone()),
            None => value.clone(),
        },
        _ => value.clone(),
    }
}

} // verus!
