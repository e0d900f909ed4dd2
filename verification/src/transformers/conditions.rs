use crate::config::settings::{ComparisonOperator, ConditionConfig};
use crate::models::json::{
    compare_number_texts, items_model, lemma_items_model, number_text_order, JsonModel,
    JsonNumber, JsonNumberModel, JsonValue,
};
use crate::utils::text::{chars_of, decimal_digits, decimal_text, has_prefix, has_suffix, text_concat};
use vstd::prelude::*;
use vstd::string::StringExecFns;

verus! {

/// The integer that a number writes, where it writes one.
pub open spec fn integer_value(n: JsonNumberModel) -> Option<int> {
    match n {
        JsonNumberModel::PosInt(u) => Some(u as int),
        JsonNumberModel::NegInt(i) => Some(i as int),
        JsonNumberModel::Float(_) => None,
    }
}

/// The text of an integer: its digits, after a `-` where it is negative.
pub open spec fn integer_text(i: int) -> Seq<char> {
    if i >= 0 {
        decimal_digits(i as nat)
    } else {
        "-"@ + decimal_digits((-i) as nat)
    }
}

/// The text that writes a number.
pub open spec fn number_text(n: JsonNumberModel) -> Seq<char> {
    match n {
        JsonNumberModel::PosInt(u) => integer_text(u as int),
        JsonNumberModel::NegInt(i) => integer_text(i as int),
        JsonNumberModel::Float(t) => t,
    }
}

/// How one integer stands to another: -1 below, 0 level, 1 above.
pub open spec fn integer_order(a: int, b: int) -> i8 {
    if a < b {
        -1i8
    } else if a == b {
        0
    } else {
        1
    }
}

/// How one number stands to another: two integers are compared exactly, and
/// any other pair as floating-point numbers, by their texts.
pub open spec fn number_order(a: JsonNumberModel, b: JsonNumberModel) -> Option<i8> {
    match (integer_value(a), integer_value(b)) {
        (Some(x), Some(y)) => Some(integer_order(x, y)),
        _ => number_text_order(number_text(a), number_text(b)),
    }
}

/// How one text stands to another in the order of the dictionary, character
/// by character: -1 before, 0 equal, 1 after.
pub open spec fn text_order(a: Seq<char>, b: Seq<char>) -> i8
    decreases a.len(),
{
    if a.len() == 0 {
        if b.len() == 0 {
            0
        } else {
            -1i8
        }
    } else if b.len() == 0 {
        1
    } else if (a[0] as u32) < (b[0] as u32) {
        -1i8
    } else if (a[0] as u32) > (b[0] as u32) {
        1
    } else {
        text_order(a.skip(1), b.skip(1))
    }
}

/// How one value stands to another, where the two can be ordered: numbers
/// by size, strings by the dictionary, and nothing else.
pub open spec fn value_order(a: JsonModel, b: JsonModel) -> Option<i8> {
    match (a, b) {
        (JsonModel::Number(x), JsonModel::Number(y)) => number_order(x, y),
        (JsonModel::String(x), JsonModel::String(y)) => Some(text_order(x, y)),
        _ => None,
    }
}

/// The run of `width` characters of `hay` that starts at `start`.
pub open spec fn window(hay: Seq<char>, start: int, width: nat) -> Seq<char> {
    hay.subrange(start, start + width)
}

/// Whether `needle` stands somewhere in `hay` as one run.
pub open spec fn has_substring(hay: Seq<char>, needle: Seq<char>) -> bool {
    exists|i: int|
        0 <= i && i + needle.len() <= hay.len() && #[trigger] window(hay, i, needle.len())
            == needle
}

/// Whether a value holds another: a string holds the strings that stand in
/// it as one run, an array holds its elements.
pub open spec fn value_contains(actual: JsonModel, expected: JsonModel) -> bool {
    match (actual, expected) {
        (JsonModel::String(a), JsonModel::String(e)) => has_substring(a, e),
        (JsonModel::Array(items), _) => items.contains(expected),
        _ => false,
    }
}

/// Whether a value is one of a list: the list is an array, and the value
/// one of its elements.
pub open spec fn value_among(actual: JsonModel, expected: JsonModel) -> bool {
    match expected {
        JsonModel::Array(items) => items.contains(actual),
        _ => false,
    }
}

/// Whether a comparison holds of a field's value, absent where the record
/// has no such field, and a literal; nothing where the operator is not
/// supported. An absent field equals nothing, is among nothing, and stands
/// in no order to anything.
pub open spec fn condition_verdict(
    operator: ComparisonOperator,
    actual: Option<JsonModel>,
    expected: JsonModel,
) -> Option<bool> {
    match operator {
        ComparisonOperator::Equal => Some(actual == Some(expected)),
        ComparisonOperator::NotEqual => Some(actual != Some(expected)),
        ComparisonOperator::GreaterThan => Some(
            actual matches Some(a) && value_order(a, expected) == Some(1i8),
        ),
        ComparisonOperator::LessThan => Some(
            actual matches Some(a) && value_order(a, expected) == Some(-1i8),
        ),
        ComparisonOperator::GreaterEqual => Some(
            actual matches Some(a) && (value_order(a, expected) == Some(1i8) || value_order(
                a,
                expected,
            ) == Some(0i8)),
        ),
        ComparisonOperator::LessEqual => Some(
            actual matches Some(a) && (value_order(a, expected) == Some(-1i8) || value_order(
                a,
                expected,
            ) == Some(0i8)),
        ),
        ComparisonOperator::Contains => Some(
            actual matches Some(a) && value_contains(a, expected),
        ),
        ComparisonOperator::StartsWith => Some(
            match (actual, expected) {
                (Some(JsonModel::String(a)), JsonModel::String(e)) => e.is_prefix_of(a),
                _ => false,
            },
        ),
        ComparisonOperator::EndsWith => Some(
            match (actual, expected) {
                (Some(JsonModel::String(a)), JsonModel::String(e)) => e.is_suffix_of(a),
                _ => false,
            },
        ),
        ComparisonOperator::Regex => None,
        ComparisonOperator::In => Some(actual matches Some(a) && value_among(a, expected)),
        ComparisonOperator::NotIn => Some(!(actual matches Some(a) && value_among(a, expected))),
    }
}

/// The mathematical value of a value that may be absent.
pub open spec fn option_model(value: Option<&JsonValue>) -> Option<JsonModel> {
    match value {
        Some(v) => Some(v@),
        None => None,
    }
}

/// Writes a number as text.
pub fn number_to_text(n: &JsonNumber) -> (r: String)
    ensures
        r@ == number_text(n@),
{
    match n {
        JsonNumber::PosInt(u) => decimal_text(*u),
        JsonNumber::NegInt(i) => {
            if *i >= 0 {
                decimal_text(*i as u64)
            } else {
                let magnitude: u64 = (-(*i as i128)) as u64;
                text_concat("-", decimal_text(magnitude).as_str())
            }
        },
        JsonNumber::Float(t) => t.clone(),
    }
}

/// How one number stands to another.
pub fn compare_numbers(a: &JsonNumber, b: &JsonNumber) -> (r: Option<i8>)
    ensures
        r == number_order(a@, b@),
{
    let x: Option<i128> = match a {
        JsonNumber::PosInt(u) => Some(*u as i128),
        JsonNumber::NegInt(i) => Some(*i as i128),
        JsonNumber::Float(_) => None,
    };
    let y: Option<i128> = match b {
        JsonNumber::PosInt(u) => Some(*u as i128),
        JsonNumber::NegInt(i) => Some(*i as i128),
        JsonNumber::Float(_) => None,
    };
    match (x, y) {
        (Some(x), Some(y)) => {
            if x < y {
                Some(-1)
            } else if x == y {
                Some(0)
            } else {
                Some(1)
            }
        },
        _ => compare_number_texts(number_to_text(a).as_str(), number_to_text(b).as_str()),
    }
}

proof fn lemma_text_order_skip(a: Seq<char>, b: Seq<char>, k: int)
    requires
        0 <= k <= a.len(),
        k <= b.len(),
        forall|j: int| 0 <= j < k ==> a[j] == b[j],
    ensures
        text_order(a, b) == text_order(a.skip(k), b.skip(k)),
    decreases k,
{
    if k == 0 {
        assert(a.skip(0) =~= a);
        assert(b.skip(0) =~= b);
    } else {
        assert(a[0] == b[0]);
        lemma_text_order_skip(a.skip(1), b.skip(1), k - 1);
        assert(a.skip(1).skip(k - 1) =~= a.skip(k));
        assert(b.skip(1).skip(k - 1) =~= b.skip(k));
    }
}

/// How one text stands to another in the order of the dictionary.
pub fn compare_texts(a: &str, b: &str) -> (r: i8)
    ensures
        r == text_order(a@, b@),
{
    let x = chars_of(a);
    let y = chars_of(b);
    let mut i: usize = 0;
    while i < x.len() && i < y.len()
        invariant
            i <= x.len(),
            i <= y.len(),
            x@ == a@,
            y@ == b@,
            forall|j: int| 0 <= j < i ==> x[j] == y[j],
        decreases x.len() - i,
    {
        if x[i] != y[i] {
            let cx: u32 = x[i] as u32;
            let cy: u32 = y[i] as u32;
            proof {
                lemma_text_order_skip(x@, y@, i as int);
                assert(x@.skip(i as int)[0] == x[i as int]);
                assert(y@.skip(i as int)[0] == y[i as int]);
                vstd::utf8::char_u32_cast(x[i as int], cx);
                vstd::utf8::char_u32_cast(y[i as int], cy);
                assert(cx != cy);
            }
            return if cx < cy {
                -1
            } else {
                1
            };
        }
        i += 1;
    }
    proof {
        lemma_text_order_skip(x@, y@, i as int);
    }
    if i < x.len() {
        1
    } else if i < y.len() {
        -1
    } else {
        0
    }
}

/// Whether `needle` stands somewhere in `hay` as one run.
pub fn contains_text(hay: &Vec<char>, needle: &Vec<char>) -> (r: bool)
    ensures
        r == has_substring(hay@, needle@),
{
    if needle.len() > hay.len() {
        return false;
    }
    let last: usize = hay.len() - needle.len();
    let mut i: usize = 0;
    while i <= last
        invariant
            i <= last + 1,
            last == hay.len() - needle.len(),
            forall|k: int| 0 <= k < i ==> #[trigger] window(hay@, k, needle@.len()) != needle@,
        decreases last + 1 - i,
    {
        let mut j: usize = 0;
        let mut same: bool = true;
        while j < needle.len()
            invariant
                j <= needle.len(),
                i + needle.len() <= hay.len(),
                same == (forall|k: int| 0 <= k < j ==> hay[i + k] == needle[k]),
            decreases needle.len() - j,
        {
            if hay[i + j] != needle[j] {
                same = false;
            }
            j += 1;
        }
        if same {
            assert(window(hay@, i as int, needle@.len()) =~= needle@);
            return true;
        }
        proof {
            let k = choose|k: int| 0 <= k < needle.len() && hay[i + k] != needle[k];
            assert(window(hay@, i as int, needle@.len())[k] != needle@[k]);
        }
        i += 1;
    }
    false
}

/// Whether a value is an element of a list of values.
pub fn array_contains(items: &Vec<JsonValue>, value: &JsonValue) -> (r: bool)
    ensures
        r == items_model(items@).contains(value@),
{
    proof {
        lemma_items_model(items@);
    }
    let mut i: usize = 0;
    while i < items.len()
        invariant
            i <= items.len(),
            items_model(items@).len() == items.len(),
            forall|k: int| 0 <= k < items.len() ==> #[trigger] items_model(items@)[k] == items[k]@,
            forall|k: int| 0 <= k < i ==> items[k]@ != value@,
        decreases items.len() - i,
    {
        if items[i].same_as(value) {
            assert(items_model(items@)[i as int] == value@);
            return true;
        }
        i += 1;
    }
    false
}

/// How one value stands to another, where the two can be ordered.
pub fn compare_values(a: &JsonValue, b: &JsonValue) -> (r: Option<i8>)
    ensures
        r == value_order(a@, b@),
{
    match (a, b) {
        (JsonValue::Number(x), JsonValue::Number(y)) => compare_numbers(x, y),
        (JsonValue::String(x), JsonValue::String(y)) => Some(
            compare_texts(x.as_str(), y.as_str()),
        ),
        _ => None,
    }
}

/// Decides whether a condition holds of the value of its field, which is
/// absent where the record has no such field. Nothing is decided for an
/// operator that is not supported.
pub fn evaluate_condition(condition: &ConditionConfig, actual: Option<&JsonValue>) -> (r: Option<
    bool,
>)
    ensures
        r == condition_verdict(condition.operator, option_model(actual), condition.value@),
{
    let expected = &condition.value;
    match condition.operator {
        ComparisonOperator::Equal => Some(
            match actual {
                Some(a) => a.same_as(expected),
                None => false,
            },
        ),
        ComparisonOperator::NotEqual => Some(
            match actual {
                Some(a) => !a.same_as(expected),
                None => true,
            },
        ),
        ComparisonOperator::GreaterThan => Some(
            match actual {
                Some(a) => compare_values(a, expected) == Some(1),
                None => false,
            },
        ),
        ComparisonOperator::LessThan => Some(
            match actual {
                Some(a) => compare_values(a, expected) == Some(-1),
                None => false,
            },
        ),
        ComparisonOperator::GreaterEqual => Some(
            match actual {
                Some(a) => {
                    let order = compare_values(a, expected);
                    order == Some(1) || order == Some(0)
                },
                None => false,
            },
        ),
        ComparisonOperator::LessEqual => Some(
            match actual {
                Some(a) => {
                    let order = compare_values(a, expected);
                    order == Some(-1) || order == Some(0)
                },
                None => false,
            },
        ),
        ComparisonOperator::Contains => Some(
            match (actual, expected) {
                (Some(JsonValue::String(a)), JsonValue::String(e)) => contains_text(
                    &chars_of(a.as_str()),
                    &chars_of(e.as_str()),
                ),
                (Some(JsonValue::Array(items)), _) => array_contains(items, expected),
                _ => false,
            },
        ),
        ComparisonOperator::StartsWith => Some(
            match (actual, expected) {
                (Some(JsonValue::String(a)), JsonValue::String(e)) => has_prefix(
                    &chars_of(a.as_str()),
                    &chars_of(e.as_str()),
                ),
                _ => false,
            },
        ),
        ComparisonOperator::EndsWith => Some(
            match (actual, expected) {
                (Some(JsonValue::String(a)), JsonValue::String(e)) => has_suffix(
                    &chars_of(a.as_str()),
                    &chars_of(e.as_str()),
                ),
                _ => false,
            },
        ),
        ComparisonOperator::Regex => None,
        ComparisonOperator::In => Some(
            match (actual, expected) {
                (Some(a), JsonValue::Array(items)) => array_contains(items, a),
                _ => false,
            },
        ),
        ComparisonOperator::NotIn => Some(
            match (actual, expected) {
                (Some(a), JsonValue::Array(items)) => !array_contains(items, a),
                _ => true,
            },
        ),
    }
}

} // verus!
