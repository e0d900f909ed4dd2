use crate::models::data_types::{DataRecord, RecordModel};
use crate::models::json::{integer_number, JsonModel, JsonNumber, JsonNumberModel, JsonValue};
use crate::transformers::templates::{
    find_char, first_index, slice_chars, view_get, view_value,
};
use crate::utils::text::{chars_of, parse_i64, parse_i64_spec, text_eq, text_of_chars, texts_of};
use vstd::prelude::*;

verus! {

/// The words of a text: the runs between its spaces, empty runs included.
pub open spec fn split_words(text: Seq<char>) -> Seq<Seq<char>>
    decreases text.len(),
{
    let a = first_index(text, ' ') as int;
    if a >= text.len() {
        seq![text]
    } else {
        seq![text.take(a)] + split_words(text.skip(a + 1))
    }
}

/// Splits a text at its spaces.
pub fn words_of(text: &str) -> (r: Vec<String>)
    ensures
        texts_of(r@) == split_words(text@),
{
    let t = chars_of(text);
    let mut words: Vec<String> = Vec::new();
    let mut from: usize = 0;
    assert(t@.skip(0) =~= t@);
    assert(Seq::<Seq<char>>::empty() + split_words(t@) =~= split_words(t@));
    loop
        invariant_except_break
            split_words(t@) == texts_of(words@) + split_words(t@.skip(from as int)),
        invariant
            from <= t.len(),
            t@ == text@,
        ensures
            texts_of(words@) == split_words(text@),
        decreases t.len() - from,
    {
        let ghost rest = t@.skip(from as int);
        let ghost before = texts_of(words@);
        let to: usize = find_char(&t, from, ' ');
        let word = text_of_chars(&slice_chars(&t, from, to));
        proof {
            assert(rest.take(to - from) =~= t@.subrange(from as int, to as int));
            if to < t.len() {
                assert(rest.skip(to - from + 1) =~= t@.skip(to + 1));
            } else {
                assert(rest.take(to - from) =~= rest);
            }
        }
        words.push(word);
        assert(texts_of(words@) =~= before.push(word@));
        if to >= t.len() {
            assert(before + seq![rest] =~= before.push(rest));
            break ;
        }
        proof {
            let tail = split_words(t@.skip(to + 1));
            assert(before + (seq![word@] + tail) =~= before.push(word@) + tail);
        }
        from = to + 1;
    }
    words
}

/// An integer where it fits 64 bits, and nothing where it does not.
pub open spec fn checked(v: int) -> Option<int> {
    if i64::MIN <= v <= i64::MAX {
        Some(v)
    } else {
        None
    }
}

/// The integer that a word of an expression stands for: the integer it
/// writes, or the integer that the field of that name holds.
pub open spec fn term_value(word: Seq<char>, output: RecordModel, input: RecordModel) -> Option<
    int,
> {
    match parse_i64_spec(word) {
        Some(i) => Some(i as int),
        None => match view_get(output, input, word) {
            Some(JsonModel::Number(JsonNumberModel::PosInt(u))) => checked(u as int),
            Some(JsonModel::Number(JsonNumberModel::NegInt(i))) => Some(i as int),
            _ => None,
        },
    }
}

/// What an operator makes of two integers, where the result fits 64 bits.
pub open spec fn applied(operator: Seq<char>, a: int, b: int) -> Option<int> {
    if operator == "+"@ {
        checked(a + b)
    } else if operator == "-"@ {
        checked(a - b)
    } else if operator == "*"@ {
        checked(a * b)
    } else {
        None
    }
}

/// The value of the rest of an expression, an operator and a term at a
/// time from left to right, given the value of what stands before it.
pub open spec fn evaluated_from(
    value: int,
    words: Seq<Seq<char>>,
    output: RecordModel,
    input: RecordModel,
) -> Option<int>
    decreases words.len(),
{
    if words.len() == 0 {
        Some(value)
    } else if words.len() == 1 {
        None
    } else {
        match term_value(words[1], output, input) {
            None => None,
            Some(b) => match applied(words[0], value, b) {
                None => None,
                Some(v) => evaluated_from(v, words.skip(2), output, input),
            },
        }
    }
}

/// The value of an expression: terms, each an integer or the name of a
/// field that holds one, with `+`, `-` or `*` between them and single spaces
/// around these, taken from left to right. Nothing where the text is not of
/// that form, a field holds no integer, or a result does not fit 64 bits.
pub open spec fn calculated(expression: Seq<char>, output: RecordModel, input: RecordModel) -> Option<
    JsonModel,
> {
    let words = split_words(expression);
    match term_value(words[0], output, input) {
        None => None,
        Some(a) => match evaluated_from(a, words.skip(1), output, input) {
            Some(v) => Some(JsonModel::Number(integer_number(v))),
            None => None,
        },
    }
}

/// The splitting of a text gives at least one word.
pub proof fn lemma_split_words_nonempty(text: Seq<char>)
    ensures
        split_words(text).len() >= 1,
{
}

/// The integer that a word of an expression stands for.
pub fn read_term(word: &str, output: &DataRecord, input: &DataRecord) -> (r: Option<i64>)
    ensures
        match r {
            Some(v) => term_value(word@, output@, input@) == Some(v as int),
            None => term_value(word@, output@, input@) is None,
        },
{
    match parse_i64(word) {
        Some(i) => Some(i),
        None => match view_value(output, input, word) {
            Some(JsonValue::Number(JsonNumber::PosInt(u))) => {
                if *u <= 9223372036854775807 {
                    Some(*u as i64)
                } else {
                    None
                }
            },
            Some(JsonValue::Number(JsonNumber::NegInt(i))) => Some(*i),
            _ => None,
        },
    }
}

/// What an operator makes of two integers.
pub fn apply_operator(operator: &str, a: i64, b: i64) -> (r: Option<i64>)
    ensures
        match r {
            Some(v) => applied(operator@, a as int, b as int) == Some(v as int),
            None => applied(operator@, a as int, b as int) is None,
        },
{
    let wide: i128 = if text_eq(operator, "+") {
        a as i128 + b as i128
    } else if text_eq(operator, "-") {
        a as i128 - b as i128
    } else if text_eq(operator, "*") {
        assert(-0x8000_0000_0000_0000 * 0x8000_0000_0000_0000 <= (a as int) * (b as int)
            <= 0x8000_0000_0000_0000 * 0x8000_0000_0000_0000) by (nonlinear_arith)
            requires
                -0x8000_0000_0000_0000 <= a <= 0x7fff_ffff_ffff_ffff,
                -0x8000_0000_0000_0000 <= b <= 0x7fff_ffff_ffff_ffff,
        ;
        (a as i128) * (b as i128)
    } else {
        return None;
    };
    if -9223372036854775808 <= wide && wide <= 9223372036854775807 {
        Some(wide as i64)
    } else {
        None
    }
}

/// Evaluates an expression against the fields that a rule sees.
pub fn evaluate_expression(expression: &str, output: &DataRecord, input: &DataRecord) -> (r:
    Option<JsonValue>)
    ensures
        match r {
            Some(v) => calculated(expression@, output@, input@) == Some(v@),
            None => calculated(expression@, output@, input@) is None,
        },
{
    let words = words_of(expression);
    proof {
        lemma_split_words_nonempty(expression@);
    }
    let ghost all = texts_of(words@);
    let first = match read_term(words[0].as_str(), output, input) {
        Some(v) => v,
        None => {
            return None;
        },
    };
    let mut value: i64 = first;
    let mut i: usize = 1;
    while i < words.len()
        invariant
            1 <= i <= words.len(),
            all == texts_of(words@),
            all == split_words(expression@),
            term_value(all[0], output@, input@) == Some(first as int),
            evaluated_from(first as int, all.skip(1), output@, input@) == evaluated_from(
                value as int,
                all.skip(i as int),
                output@,
                input@,
            ),
        decreases words.len() - i,
    {
        let ghost rest = all.skip(i as int);
        assert(rest.len() > 0 && rest[0] == words[i as int]@);
        if i + 1 >= words.len() {
            return None;
        }
        assert(rest[1] == words[i + 1]@);
        assert(rest.skip(2) =~= all.skip(i + 2));
        let term = match read_term(words[i + 1].as_str(), output, input) {
            Some(v) => v,
            None => {
                return None;
            },
        };
        value = match apply_operator(words[i].as_str(), value, term) {
            Some(v) => v,
            None => {
                return None;
            },
        };
        i += 2;
    }
    Some(JsonValue::Number(JsonNumber::from_i64(value)))
}

} // verus!
