use crate::config::codec::{decoded, invalid};
use crate::models::json::{JsonModel, JsonNumber, JsonNumberModel, JsonValue};
use crate::utils::error::{EtlError, Result};
use crate::utils::text::{
    all_digits, chars_of, decimal_digits, decimal_text, digit_char, digit_text, digit_value, digits_value,
    is_digit, lemma_decimal_digits, lemma_three_digits, read_digits, text_eq,
};
use vstd::prelude::*;
use vstd::string::StringExecFns;

verus! {

/// A count of thousandths written as a decimal number with a fraction: the
/// whole part, a point, and then one to three digits, as few as write the
/// thousandths that are left over.
pub open spec fn thousandths_text(n: nat) -> Seq<char> {
    let whole = decimal_digits(n / 1000);
    let rest = n % 1000;
    if rest % 100 == 0 {
        whole + seq!['.', digit_char(rest / 100)]
    } else if rest % 10 == 0 {
        whole + seq!['.', digit_char(rest / 100), digit_char(rest / 10 % 10)]
    } else {
        whole + seq!['.', digit_char(rest / 100), digit_char(rest / 10 % 10), digit_char(rest % 10)]
    }
}

/// What one unit of the last of a number of decimal places counts in
/// thousandths.
pub open spec fn place_weight(places: int) -> int {
    if places == 1 {
        100
    } else if places == 2 {
        10
    } else {
        1
    }
}

/// The thousandths that a text with a point before its last `places`
/// characters writes: nothing unless digits stand before the point and
/// after it.
pub open spec fn pointed_thousandths(text: Seq<char>, places: int) -> Option<int> {
    let cut = text.len() - places - 1;
    if all_digits(text.take(cut)) && all_digits(text.skip(cut + 1)) {
        Some(
            digits_value(text.take(cut)) * 1000 + digits_value(text.skip(cut + 1)) * place_weight(
                places,
            ),
        )
    } else {
        None
    }
}

/// The thousandths that a decimal number with a fraction writes: digits, a
/// point, and one to three digits more.
pub open spec fn thousandths_of(text: Seq<char>) -> Option<int> {
    if text.len() >= 3 && text[text.len() - 2] == '.' {
        pointed_thousandths(text, 1)
    } else if text.len() >= 4 && text[text.len() - 3] == '.' {
        pointed_thousandths(text, 2)
    } else if text.len() >= 5 && text[text.len() - 4] == '.' {
        pointed_thousandths(text, 3)
    } else {
        None
    }
}

/// The encoding of a multiplier that is held in thousandths: the number
/// with a fraction that the thousandths write.
pub open spec fn encode_multiplier(n: int) -> JsonModel {
    JsonModel::Number(JsonNumberModel::Float(thousandths_text(n as nat)))
}

/// A multiplier in normal form: itself, where it is a number with a
/// fraction whose text is that of a count of thousandths that fits.
pub open spec fn norm_multiplier(json: JsonModel) -> Option<JsonModel> {
    match json {
        JsonModel::Number(JsonNumberModel::Float(text)) => match thousandths_of(text) {
            Some(n) => if 0 <= n <= u64::MAX && thousandths_text(n as nat) == text {
                Some(json)
            } else {
                None
            },
            None => None,
        },
        _ => None,
    }
}

/// Writes a count of thousandths as a decimal number.
pub fn thousandths_string(n: u64) -> (r: String)
    ensures
        r@ == thousandths_text(n as nat),
{
    let mut s = decimal_text(n / 1000);
    let rest: u64 = n % 1000;
    proof {
        reveal_strlit(".");
    }
    s.append(".");
    s.append(digit_text(rest / 100));
    if rest % 100 != 0 {
        s.append(digit_text(rest / 10 % 10));
        if rest % 10 != 0 {
            s.append(digit_text(rest % 10));
        }
    }
    assert(s@ =~= thousandths_text(n as nat));
    s
}

/// Reads the thousandths of a text with a point before its last `places`
/// characters.
fn read_pointed(chars: &Vec<char>, places: usize) -> (r: Option<u64>)
    requires
        1 <= places <= 3,
        chars.len() >= places + 2,
    ensures
        r == match pointed_thousandths(chars@, places as int) {
            Some(n) => if 0 <= n <= u64::MAX {
                Some(n as u64)
            } else {
                None
            },
            None => None,
        },
{
    let cut: usize = chars.len() - places - 1;
    let weight: u64 = if places == 1 {
        100
    } else if places == 2 {
        10
    } else {
        1
    };
    assert(chars@.take(cut as int) =~= chars@.subrange(0, cut as int));
    assert(chars@.skip(cut + 1) =~= chars@.subrange(cut + 1, chars.len() as int));
    let whole = read_digits(chars, 0, cut);
    let part = read_digits(chars, cut + 1, chars.len());
    proof {
        if all_digits(chars@.skip(cut + 1)) {
            lemma_three_digits(chars@.skip(cut + 1));
        }
        if all_digits(chars@.take(cut as int)) {
            lemma_three_digits(Seq::<char>::empty());
        }
    }
    match (whole, part) {
        (Some(w), Some(p)) => {
            let low: u64 = p * weight;
            if w > (u64::MAX - low) / 1000 {
                None
            } else {
                Some(w * 1000 + low)
            }
        },
        _ => None,
    }
}

/// Reads the thousandths that a decimal number with a fraction writes.
pub fn read_thousandths(text: &str) -> (r: Option<u64>)
    ensures
        r == match thousandths_of(text@) {
            Some(n) => if 0 <= n <= u64::MAX {
                Some(n as u64)
            } else {
                None
            },
            None => None,
        },
{
    let chars = chars_of(text);
    let len: usize = chars.len();
    if len >= 3 && chars[len - 2] == '.' {
        read_pointed(&chars, 1)
    } else if len >= 4 && chars[len - 3] == '.' {
        read_pointed(&chars, 2)
    } else if len >= 5 && chars[len - 4] == '.' {
        read_pointed(&chars, 3)
    } else {
        None
    }
}

/// Reads a multiplier as a count of thousandths.
pub fn decode_multiplier(json: &JsonValue, path: &str) -> (r: Result<u64>)
    ensures
        decoded(r, norm_multiplier(json@)),
        r matches Ok(n) ==> Some(encode_multiplier(n as int)) == norm_multiplier(json@),
{
    let text = match json {
        JsonValue::Number(JsonNumber::Float(text)) => text,
        _ => {
            return Err(invalid(path));
        },
    };
    match read_thousandths(text.as_str()) {
        Some(n) => {
            let again = thousandths_string(n);
            if text_eq(again.as_str(), text.as_str()) {
                Ok(n)
            } else {
                Err(invalid(path))
            }
        },
        None => Err(invalid(path)),
    }
}

/// Writes a multiplier that is held in thousandths.
pub fn write_multiplier(n: u64) -> (r: JsonValue)
    ensures
        r@ == encode_multiplier(n as int),
{
    JsonValue::Number(JsonNumber::Float(thousandths_string(n)))
}

/// A digit is written by its character.
proof fn lemma_digit_char(d: nat)
    requires
        d < 10,
    ensures
        is_digit(digit_char(d)),
        digit_value(digit_char(d)) == d,
{
}

/// What digits, a point and one to three digits more write.
proof fn lemma_pointed(whole: Seq<char>, tail: Seq<char>)
    requires
        whole.len() >= 1,
        all_digits(whole),
        1 <= tail.len() <= 3,
        all_digits(tail),
    ensures
        thousandths_of(whole + seq!['.'] + tail) == Some(
            digits_value(whole) * 1000 + digits_value(tail) * place_weight(tail.len() as int),
        ),
{
    let text = whole + seq!['.'] + tail;
    let cut = whole.len() as int;
    assert(text.len() == cut + 1 + tail.len());
    assert(text[cut] == '.');
    assert(text.take(cut) =~= whole);
    assert(text.skip(cut + 1) =~= tail);
    if tail.len() >= 2 {
        assert(text[text.len() - 2] == tail[tail.len() - 2]);
        assert(is_digit(tail[tail.len() - 2]));
    }
    if tail.len() == 3 {
        assert(text[text.len() - 3] == tail[0]);
        assert(is_digit(tail[0]));
    }
}

/// The text of a count of thousandths writes that count.
pub proof fn lemma_thousandths(n: nat)
    ensures
        thousandths_of(thousandths_text(n)) == Some(n as int),
{
    let whole = decimal_digits(n / 1000);
    let rest = n % 1000;
    let text = thousandths_text(n);
    lemma_decimal_digits(n / 1000);
    let a = digit_char(rest / 100);
    let b = digit_char(rest / 10 % 10);
    let c = digit_char(rest % 10);
    lemma_digit_char(rest / 100);
    lemma_digit_char(rest / 10 % 10);
    lemma_digit_char(rest % 10);
    let tail = if rest % 100 == 0 {
        seq![a]
    } else if rest % 10 == 0 {
        seq![a, b]
    } else {
        seq![a, b, c]
    };
    assert(text =~= whole + seq!['.'] + tail);
    lemma_tail_digits(tail);
    lemma_pointed(whole, tail);
    lemma_rest(rest, tail.len() as int);
}

/// A number below a thousand is what its digits count.
proof fn lemma_rest(rest: nat, places: int)
    requires
        rest < 1000,
        places == 1 ==> rest % 100 == 0,
        places == 2 ==> rest % 10 == 0,
        1 <= places <= 3,
    ensures
        places == 1 ==> rest == (rest / 100) * 100,
        places == 2 ==> rest == ((rest / 100) * 10 + rest / 10 % 10) * 10,
        places == 3 ==> rest == (rest / 100) * 100 + (rest / 10 % 10) * 10 + rest % 10,
{
}

/// What one, two or three digits write.
proof fn lemma_tail_digits(tail: Seq<char>)
    requires
        1 <= tail.len() <= 3,
    ensures
        tail.len() == 1 ==> digits_value(tail) == digit_value(tail[0]),
        tail.len() == 2 ==> digits_value(tail) == digit_value(tail[0]) * 10 + digit_value(tail[1]),
        tail.len() == 3 ==> digits_value(tail) == digit_value(tail[0]) * 100 + digit_value(tail[1])
            * 10 + digit_value(tail[2]),
    decreases tail.len(),
{
    if tail.len() == 1 {
        assert(tail.drop_last() =~= Seq::<char>::empty());
        assert(digits_value(tail.drop_last()) == 0);
    } else {
        lemma_tail_digits(tail.drop_last());
    }
}

/// The encoding of a multiplier is in normal form.
pub proof fn lemma_multiplier(n: u64)
    ensures
        norm_multiplier(encode_multiplier(n as int)) == Some(encode_multiplier(n as int)),
{
    lemma_thousandths(n as nat);
}

/// Two multipliers with the same encoding are the same.
pub proof fn lemma_multiplier_one(a: u64, b: u64)
    requires
        encode_multiplier(a as int) == encode_multiplier(b as int),
    ensures
        a == b,
{
    lemma_thousandths(a as nat);
    lemma_thousandths(b as nat);
}

} // verus!
