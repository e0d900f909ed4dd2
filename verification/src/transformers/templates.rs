use crate::config::settings::{ComparisonOperator, ConditionConfig};
use crate::models::data_types::{DataRecord, RecordModel};
use crate::models::json::{json_text_value, parse_json_text, JsonModel, JsonValue};
use crate::transformers::conditions::option_model;
use crate::transformers::values::{render_value, value_text};
use crate::utils::text::{chars_of, text_eq, text_of_chars};
use vstd::prelude::*;

verus! {

/// The value of a field as a rule sees it while a record is transformed:
/// what the rules before it wrote, and the input record's value otherwise.
pub open spec fn view_get(output: RecordModel, input: RecordModel, field: Seq<char>) -> Option<
    JsonModel,
> {
    if output.contains_key(field) {
        Some(output[field])
    } else if input.contains_key(field) {
        Some(input[field])
    } else {
        None
    }
}

/// The value of a field as a rule sees it while a record is transformed.
pub fn view_value<'a>(output: &'a DataRecord, input: &'a DataRecord, field: &str) -> (r: Option<
    &'a JsonValue,
>)
    ensures
        option_model(r) == view_get(output@, input@, field@),
{
    match output.get(field) {
        Some(v) => Some(v),
        None => input.get(field),
    }
}

/// The place of the first `c` in `s`, and the length of `s` where it holds
/// none.
pub open spec fn first_index(s: Seq<char>, c: char) -> nat
    decreases s.len(),
{
    if s.len() == 0 {
        0
    } else if s[0] == c {
        0
    } else {
        1 + first_index(s.skip(1), c)
    }
}

/// `first_index` is the place before which no `c` stands and at which one
/// does, or the text ends.
pub proof fn lemma_first_index(s: Seq<char>, c: char, n: int)
    requires
        0 <= n <= s.len(),
        forall|k: int| 0 <= k < n ==> s[k] != c,
        n == s.len() || s[n] == c,
    ensures
        first_index(s, c) == n,
    decreases n,
{
    if n > 0 {
        assert(s[0] != c);
        lemma_first_index(s.skip(1), c, n - 1);
    }
}

/// The place of the first `c` at or after `from`, and the length of the
/// text where none follows.
pub(crate) fn find_char(text: &Vec<char>, from: usize, c: char) -> (r: usize)
    requires
        from <= text.len(),
    ensures
        from <= r <= text.len(),
        r == from + first_index(text@.skip(from as int), c),
{
    let mut i: usize = from;
    while i < text.len() && text[i] != c
        invariant
            from <= i <= text.len(),
            forall|k: int| from <= k < i ==> text[k] != c,
        decreases text.len() - i,
    {
        i += 1;
    }
    proof {
        lemma_first_index(text@.skip(from as int), c, i - from);
    }
    i
}

/// The characters of a text from one place up to another.
pub(crate) fn slice_chars(text: &Vec<char>, from: usize, to: usize) -> (r: Vec<char>)
    requires
        from <= to <= text.len(),
    ensures
        r@ == text@.subrange(from as int, to as int),
{
    let mut out: Vec<char> = Vec::new();
    let mut i: usize = from;
    while i < to
        invariant
            from <= i <= to,
            to <= text.len(),
            out@ == text@.subrange(from as int, i as int),
        decreases to - i,
    {
        out.push(text[i]);
        assert(text@.subrange(from as int, i + 1) =~= text@.subrange(from as int, i as int).push(
            text[i as int],
        ));
        i += 1;
    }
    out
}

/// The text that a placeholder stands for: the text of the field's value,
/// and nothing where the record has no such field.
pub open spec fn field_text(output: RecordModel, input: RecordModel, field: Seq<char>) -> Option<
    Seq<char>,
> {
    match view_get(output, input, field) {
        Some(v) => value_text(v),
        None => Some(Seq::empty()),
    }
}

/// A text put before another that may be absent.
pub open spec fn prepend(front: Seq<char>, rest: Option<Seq<char>>) -> Option<Seq<char>> {
    match rest {
        Some(r) => Some(front + r),
        None => None,
    }
}

/// What a template renders to: each `{name}` is replaced by the text of the
/// field of that name, and every other character stands for itself, a `{`
/// that no `}` follows included. Nothing is rendered where a value has no
/// text.
pub open spec fn rendered(template: Seq<char>, output: RecordModel, input: RecordModel) -> Option<
    Seq<char>,
>
    decreases template.len(),
{
    if template.len() == 0 {
        Some(Seq::empty())
    } else {
        let close = first_index(template.skip(1), '}') as int;
        if template[0] == '{' && close < template.len() - 1 {
            match field_text(output, input, template.subrange(1, 1 + close)) {
                None => None,
                Some(text) => prepend(text, rendered(template.skip(close + 2), output, input)),
            }
        } else {
            prepend(seq![template[0]], rendered(template.skip(1), output, input))
        }
    }
}

/// Renders a template against the fields that a rule sees.
pub fn render_template(template: &str, output: &DataRecord, input: &DataRecord) -> (r: Option<
    String,
>)
    ensures
        match r {
            Some(text) => rendered(template@, output@, input@) == Some(text@),
            None => rendered(template@, output@, input@) is None,
        },
{
    let t = chars_of(template);
    let mut acc: Vec<char> = Vec::new();
    let mut i: usize = 0;
    assert(t@.skip(0) =~= t@);
    assert(Seq::<char>::empty() + t@ =~= t@);
    proof {
        let whole = rendered(t@, output@, input@);
        if whole is Some {
            assert(Seq::<char>::empty() + whole->0 =~= whole->0);
        }
    }
    while i < t.len()
        invariant
            i <= t.len(),
            t@ == template@,
            rendered(t@, output@, input@) == prepend(
                acc@,
                rendered(t@.skip(i as int), output@, input@),
            ),
        decreases t.len() - i,
    {
        let ghost rest = t@.skip(i as int);
        let ghost before = acc@;
        assert(rest.len() > 0 && rest[0] == t[i as int]);
        assert(rest.skip(1) =~= t@.skip(i + 1));
        let close: usize = if t[i] == '{' {
            find_char(&t, i + 1, '}')
        } else {
            t.len()
        };
        if t[i] == '{' && close < t.len() {
            let name = text_of_chars(&slice_chars(&t, i + 1, close));
            proof {
                assert(rest.subrange(1, 1 + (close - i - 1)) =~= t@.subrange(i + 1, close as int));
                assert(rest.skip((close - i - 1) + 2) =~= t@.skip(close + 1));
            }
            let text: String = match view_value(output, input, name.as_str()) {
                Some(v) => match render_value(v) {
                    Some(text) => text,
                    None => {
                        return None;
                    },
                },
                None => String::new(),
            };
            let mut piece = chars_of(text.as_str());
            acc.append(&mut piece);
            proof {
                let tail = rendered(t@.skip(close + 1), output@, input@);
                if tail is Some {
                    assert(before + (text@ + tail->0) =~= (before + text@) + tail->0);
                }
            }
            i = close + 1;
        } else {
            acc.push(t[i]);
            proof {
                let tail = rendered(t@.skip(i + 1), output@, input@);
                if tail is Some {
                    assert(before + (seq![t[i as int]] + tail->0) =~= before.push(t[i as int])
                        + tail->0);
                }
            }
            i += 1;
        }
    }
    assert(acc@ + Seq::<char>::empty() =~= acc@);
    Some(text_of_chars(&acc))
}

/// The operator that a word of a filter condition names.
pub open spec fn operator_of(word: Seq<char>) -> Option<ComparisonOperator> {
    if word == "=="@ {
        Some(ComparisonOperator::Equal)
    } else if word == "!="@ {
        Some(ComparisonOperator::NotEqual)
    } else if word == ">"@ {
        Some(ComparisonOperator::GreaterThan)
    } else if word == "<"@ {
        Some(ComparisonOperator::LessThan)
    } else if word == ">="@ {
        Some(ComparisonOperator::GreaterEqual)
    } else if word == "<="@ {
        Some(ComparisonOperator::LessEqual)
    } else if word == "contains"@ {
        Some(ComparisonOperator::Contains)
    } else if word == "starts_with"@ {
        Some(ComparisonOperator::StartsWith)
    } else if word == "ends_with"@ {
        Some(ComparisonOperator::EndsWith)
    } else if word == "regex"@ {
        Some(ComparisonOperator::Regex)
    } else if word == "in"@ {
        Some(ComparisonOperator::In)
    } else if word == "not_in"@ {
        Some(ComparisonOperator::NotIn)
    } else {
        None
    }
}

/// The operator that a word of a filter condition names.
pub fn read_operator(word: &str) -> (r: Option<ComparisonOperator>)
    ensures
        r == operator_of(word@),
{
    if text_eq(word, "==") {
        Some(ComparisonOperator::Equal)
    } else if text_eq(word, "!=") {
        Some(ComparisonOperator::NotEqual)
    } else if text_eq(word, ">") {
        Some(ComparisonOperator::GreaterThan)
    } else if text_eq(word, "<") {
        Some(ComparisonOperator::LessThan)
    } else if text_eq(word, ">=") {
        Some(ComparisonOperator::GreaterEqual)
    } else if text_eq(word, "<=") {
        Some(ComparisonOperator::LessEqual)
    } else if text_eq(word, "contains") {
        Some(ComparisonOperator::Contains)
    } else if text_eq(word, "starts_with") {
        Some(ComparisonOperator::StartsWith)
    } else if text_eq(word, "ends_with") {
        Some(ComparisonOperator::EndsWith)
    } else if text_eq(word, "regex") {
        Some(ComparisonOperator::Regex)
    } else if text_eq(word, "in") {
        Some(ComparisonOperator::In)
    } else if text_eq(word, "not_in") {
        Some(ComparisonOperator::NotIn)
    } else {
        None
    }
}

/// The parts of a condition: the field, the operator and the literal.
pub type ConditionModel = (Seq<char>, ComparisonOperator, JsonModel);

/// The condition that the text of a filter writes: the name of a field, a
/// space, the word of an operator, a space, and a literal in JSON; nothing
/// where the text is not of that form.
pub open spec fn filter_condition(text: Seq<char>) -> Option<ConditionModel> {
    let a = first_index(text, ' ') as int;
    if a >= text.len() {
        None
    } else {
        let rest = text.skip(a + 1);
        let b = first_index(rest, ' ') as int;
        if b >= rest.len() {
            None
        } else {
            match (operator_of(rest.take(b)), json_text_value(rest.skip(b + 1))) {
                (Some(operator), Some(literal)) => Some((text.take(a), operator, literal)),
                _ => None,
            }
        }
    }
}

/// The parts of a condition of the configuration.
pub open spec fn condition_model(condition: ConditionConfig) -> ConditionModel {
    (condition.field@, condition.operator, condition.value@)
}

/// Reads the text of a filter as a condition.
pub fn parse_filter(text: &str) -> (r: Option<ConditionConfig>)
    ensures
        match r {
            Some(c) => filter_condition(text@) == Some(condition_model(c)),
            None => filter_condition(text@) is None,
        },
{
    let t = chars_of(text);
    assert(t@.skip(0) =~= t@);
    let a: usize = find_char(&t, 0, ' ');
    if a >= t.len() {
        return None;
    }
    let b: usize = find_char(&t, a + 1, ' ');
    if b >= t.len() {
        return None;
    }
    let ghost rest = t@.skip(a + 1);
    proof {
        assert(rest.take(b - a - 1) =~= t@.subrange(a + 1, b as int));
        assert(rest.skip(b - a - 1 + 1) =~= t@.subrange(b + 1, t@.len() as int));
        assert(t@.take(a as int) =~= t@.subrange(0, a as int));
    }
    let word = text_of_chars(&slice_chars(&t, a + 1, b));
    let operator = match read_operator(word.as_str()) {
        Some(operator) => operator,
        None => {
            return None;
        },
    };
    let literal_text = text_of_chars(&slice_chars(&t, b + 1, t.len()));
    let value = match parse_json_text(literal_text.as_str()) {
        Ok(value) => value,
        Err(_) => {
            return None;
        },
    };
    let field = text_of_chars(&slice_chars(&t, 0, a));
    Some(ConditionConfig { field, operator, value })
}

} // verus!
