use vstd::prelude::*;

verus! {

/// A JSON number: a non-negative integer, a negative integer, or a finite
/// number with a fraction or an exponent, held by a decimal text. A number
/// that was read has the text that `serde_json` writes for it; one that the
/// library computes has the text that the computation states. Two such
/// numbers are the same where their texts are: `3.5` and `3.500000` are
/// told apart.
#[derive(Debug, PartialEq, Eq)]
pub enum JsonNumber {
    PosInt(u64),
    NegInt(i64),
    Float(String),
}

/// The mathematical value of a [`JsonNumber`].
pub enum JsonNumberModel {
    PosInt(u64),
    NegInt(i64),
    Float(Seq<char>),
}

impl View for JsonNumber {
    type V = JsonNumberModel;

    open spec fn view(&self) -> JsonNumberModel {
        match self {
            JsonNumber::PosInt(u) => JsonNumberModel::PosInt(*u),
            JsonNumber::NegInt(i) => JsonNumberModel::NegInt(*i),
            JsonNumber::Float(t) => JsonNumberModel::Float(t@),
        }
    }
}

/// The JSON number that stands for the integer `i`.
pub open spec fn integer_number(i: int) -> JsonNumberModel {
    if i >= 0 {
        JsonNumberModel::PosInt(i as u64)
    } else {
        JsonNumberModel::NegInt(i as i64)
    }
}

impl Clone for JsonNumber {
    fn clone(&self) -> (r: Self)
        ensures
            r@ == self@,
    {
        match self {
            JsonNumber::PosInt(u) => JsonNumber::PosInt(*u),
            JsonNumber::NegInt(i) => JsonNumber::NegInt(*i),
            JsonNumber::Float(t) => JsonNumber::Float(t.clone()),
        }
    }
}

impl JsonNumber {
    /// The number that stands for a signed integer.
    pub fn from_i64(i: i64) -> (r: Self)
        ensures
            r@ == integer_number(i as int),
    {
        if i >= 0 {
            JsonNumber::PosInt(i as u64)
        } else {
            JsonNumber::NegInt(i)
        }
    }

    /// The number that stands for an index or a count.
    pub fn from_usize(n: usize) -> (r: Self)
        ensures
            r@ == integer_number(n as int),
    {
        JsonNumber::PosInt(n as u64)
    }

    /// Whether two numbers are written the same way.
    pub fn same_as(&self, other: &JsonNumber) -> (r: bool)
        ensures
            r == (self@ == other@),
    {
        match (self, other) {
            (JsonNumber::PosInt(a), JsonNumber::PosInt(b)) => *a == *b,
            (JsonNumber::NegInt(a), JsonNumber::NegInt(b)) => *a == *b,
            (JsonNumber::Float(a), JsonNumber::Float(b)) => *a == *b,
            _ => false,
        }
    }
}

/// A dynamically typed JSON value.
#[derive(Debug, PartialEq, Eq)]
pub enum JsonValue {
    Null,
    Bool(bool),
    Number(JsonNumber),
    String(String),
    Array(Vec<JsonValue>),
    Object(Vec<(String, JsonValue)>),
}

/// The mathematical value of a [`JsonValue`].
#[verifier::ext_equal]
pub enum JsonModel {
    Null,
    Bool(bool),
    Number(JsonNumberModel),
    String(Seq<char>),
    Array(Seq<JsonModel>),
    Object(Seq<(Seq<char>, JsonModel)>),
}

/// The mathematical value of one JSON value.
pub open spec fn json_model(v: JsonValue) -> JsonModel
    decreases v,
{
    match v {
        JsonValue::Null => JsonModel::Null,
        JsonValue::Bool(b) => JsonModel::Bool(b),
        JsonValue::Number(n) => JsonModel::Number(n@),
        JsonValue::String(s) => JsonModel::String(s@),
        JsonValue::Array(items) => JsonModel::Array(items_model(items@)),
        JsonValue::Object(fields) => JsonModel::Object(fields_model(fields@)),
    }
}

/// The mathematical values of a sequence of JSON values, in order.
pub open spec fn items_model(items: Seq<JsonValue>) -> Seq<JsonModel>
    decreases items,
{
    if items.len() == 0 {
        Seq::empty()
    } else {
        items_model(items.drop_last()).push(json_model(items.last()))
    }
}

/// The mathematical values of a sequence of named JSON values, in order.
pub open spec fn fields_model(fields: Seq<(String, JsonValue)>) -> Seq<(Seq<char>, JsonModel)>
    decreases fields,
{
    if fields.len() == 0 {
        Seq::empty()
    } else {
        fields_model(fields.drop_last()).push((fields.last().0@, json_model(fields.last().1)))
    }
}

impl View for JsonValue {
    type V = JsonModel;

    open spec fn view(&self) -> JsonModel {
        json_model(*self)
    }
}

/// `items_model` keeps the length and maps each item to its model.
pub proof fn lemma_items_model(items: Seq<JsonValue>)
    ensures
        items_model(items).len() == items.len(),
        forall|i: int| 0 <= i < items.len() ==> #[trigger] items_model(items)[i] == items[i]@,
    decreases items.len(),
{
    if items.len() > 0 {
        lemma_items_model(items.drop_last());
    }
}

/// `fields_model` keeps the length and maps each field to its name and model.
pub proof fn lemma_fields_model(fields: Seq<(String, JsonValue)>)
    ensures
        fields_model(fields).len() == fields.len(),
        forall|i: int|
            0 <= i < fields.len() ==> #[trigger] fields_model(fields)[i] == (
                fields[i].0@,
                fields[i].1@,
            ),
    decreases fields.len(),
{
    if fields.len() > 0 {
        lemma_fields_model(fields.drop_last());
    }
}

impl Clone for JsonValue {
    fn clone(&self) -> (r: Self)
        ensures
            r@ == self@,
        decreases self,
    {
        match self {
            JsonValue::Null => JsonValue::Null,
            JsonValue::Bool(b) => JsonValue::Bool(*b),
            JsonValue::Number(n) => JsonValue::Number(n.clone()),
            JsonValue::String(s) => JsonValue::String(s.clone()),
            JsonValue::Array(items) => {
                let mut out: Vec<JsonValue> = Vec::new();
                let mut i: usize = 0;
                while i < items.len()
                    invariant
                        i <= items.len(),
                        out.len() == i,
                        *self == JsonValue::Array(*items),
                        forall|k: int| 0 <= k < i ==> out[k]@ == items[k]@,
                    decreases items.len() - i,
                {
                    assert(decreases_to!(*self => self->Array_0));
                    out.push(items[i].clone());
                    i += 1;
                }
                proof {
                    lemma_items_model(out@);
                    lemma_items_model(items@);
                    assert(items_model(out@) =~= items_model(items@));
                }
                JsonValue::Array(out)
            },
            JsonValue::Object(fields) => {
                let mut out: Vec<(String, JsonValue)> = Vec::new();
                let mut i: usize = 0;
                while i < fields.len()
                    invariant
                        i <= fields.len(),
                        out.len() == i,
                        *self == JsonValue::Object(*fields),
                        forall|k: int|
                            0 <= k < i ==> out[k].0@ == fields[k].0@ && out[k].1@ == fields[k].1@,
                    decreases fields.len() - i,
                {
                    assert(decreases_to!(*self => self->Object_0));
                    out.push((fields[i].0.clone(), fields[i].1.clone()));
                    i += 1;
                }
                proof {
                    lemma_fields_model(out@);
                    lemma_fields_model(fields@);
                    assert(fields_model(out@) =~= fields_model(fields@));
                }
                JsonValue::Object(out)
            },
        }
    }
}

impl JsonValue {
    /// The text of a string value, and nothing for any other value.
    pub open spec fn spec_as_str(&self) -> Option<Seq<char>> {
        match self {
            JsonValue::String(s) => Some(s@),
            _ => None,
        }
    }

    /// The text of a string value, and nothing for any other value.
    pub fn as_str(&self) -> (r: Option<&str>)
        ensures
            match r {
                Some(s) => self.spec_as_str() == Some(s@),
                None => self.spec_as_str() is None,
            },
    {
        match self {
            JsonValue::String(s) => Some(s.as_str()),
            _ => None,
        }
    }

    /// Whether two values are the same JSON value.
    pub fn same_as(&self, other: &JsonValue) -> (r: bool)
        ensures
            r == (self@ == other@),
        decreases self,
    {
        match (self, other) {
            (JsonValue::Null, JsonValue::Null) => true,
            (JsonValue::Bool(a), JsonValue::Bool(b)) => *a == *b,
            (JsonValue::Number(a), JsonValue::Number(b)) => a.same_as(b),
            (JsonValue::String(a), JsonValue::String(b)) => *a == *b,
            (JsonValue::Array(a), JsonValue::Array(b)) => {
                proof {
                    lemma_items_model(a@);
                    lemma_items_model(b@);
                }
                if a.len() != b.len() {
                    return false;
                }
                let mut i: usize = 0;
                while i < a.len()
                    invariant
                        i <= a.len(),
                        a.len() == b.len(),
                        *self == JsonValue::Array(*a),
                        *other == JsonValue::Array(*b),
                        forall|k: int| 0 <= k < i ==> a[k]@ == b[k]@,
                    decreases a.len() - i,
                {
                    assert(decreases_to!(*self => self->Array_0));
                    if !a[i].same_as(&b[i]) {
                        proof {
                            lemma_items_model(a@);
                            lemma_items_model(b@);
                            assert(items_model(a@)[i as int] != items_model(b@)[i as int]);
                        }
                        return false;
                    }
                    i += 1;
                }
                assert(items_model(a@) =~= items_model(b@));
                true
            },
            (JsonValue::Object(a), JsonValue::Object(b)) => {
                proof {
                    lemma_fields_model(a@);
                    lemma_fields_model(b@);
                }
                if a.len() != b.len() {
                    return false;
                }
                let mut i: usize = 0;
                while i < a.len()
                    invariant
                        i <= a.len(),
                        a.len() == b.len(),
                        *self == JsonValue::Object(*a),
                        *other == JsonValue::Object(*b),
                        forall|k: int| 0 <= k < i ==> a[k].0@ == b[k].0@ && a[k].1@ == b[k].1@,
                    decreases a.len() - i,
                {
                    assert(decreases_to!(*self => self->Object_0));
                    if !(a[i].0 == b[i].0) || !a[i].1.same_as(&b[i].1) {
                        proof {
                            lemma_fields_model(a@);
                            lemma_fields_model(b@);
                            assert(fields_model(a@)[i as int] != fields_model(b@)[i as int]);
                        }
                        return false;
                    }
                    i += 1;
                }
                assert(fields_model(a@) =~= fields_model(b@));
                true
            },
            _ => false,
        }
    }
}

/// `serde_json::Value`, handed over by the parser and converted at once.
#[verifier::external_type_specification]
#[verifier::external_body]
pub struct ExSerdeValue(serde_json::Value);

/// `serde_json::Number`, handed over by the parser and converted at once.
#[verifier::external_type_specification]
#[verifier::external_body]
pub struct ExSerdeNumber(serde_json::Number);

/// What `serde_json::from_str` makes of a text: the value that it parses to,
/// or nothing where it reports an error.
pub uninterp spec fn json_text_value(text: Seq<char>) -> Option<JsonModel>;

/// Converts a `serde_json::Number`: `as_u64` and `as_i64` tell its integer
/// forms apart, and any other number is kept by the text `to_string` gives it.
#[verifier::external_body]
fn number_from_serde(n: &serde_json::Number) -> JsonNumber {
    if let Some(u) = n.as_u64() {
        JsonNumber::PosInt(u)
    } else if let Some(i) = n.as_i64() {
        JsonNumber::NegInt(i)
    } else {
        JsonNumber::Float(n.to_string())
    }
}

/// Converts a `serde_json::Value`, variant for variant; an object's fields
/// come in the order in which its map hands them out.
#[verifier::external_body]
fn value_from_serde(v: serde_json::Value) -> JsonValue {
    match v {
        serde_json::Value::Null => JsonValue::Null,
        serde_json::Value::Bool(b) => JsonValue::Bool(b),
        serde_json::Value::Number(n) => JsonValue::Number(number_from_serde(&n)),
        serde_json::Value::String(s) => JsonValue::String(s),
        serde_json::Value::Array(a) => JsonValue::Array(a.into_iter().map(value_from_serde).collect()),
        serde_json::Value::Object(m) => JsonValue::Object(
            m.into_iter().map(|(k, x)| (k, value_from_serde(x))).collect(),
        ),
    }
}

/// Calls `serde_json::from_str` for a `serde_json::Value` and converts what it
/// returns. The result is a function of the text alone: the same text always
/// parses to the same value, or always fails.
#[verifier::external_body]
pub(crate) fn parse_json_text(text: &str) -> (r: Result<JsonValue, serde_json::Error>)
    ensures
        match r {
            Ok(v) => json_text_value(text@) == Some(v@),
            Err(_) => json_text_value(text@) is None,
        },
{
    serde_json::from_str::<serde_json::Value>(text).map(value_from_serde)
}

/// The JSON number that a text stands for when it is read as a
/// floating-point number: what `serde_json::Number::from_f64` makes of the
/// number that `str::parse` reads, or nothing where the text is no such
/// number or the number is not finite.
pub uninterp spec fn float_number_of(text: Seq<char>) -> Option<JsonNumberModel>;

/// Reads a text as a floating-point number with `str::parse`, hands the
/// number to `serde_json::Number::from_f64` and converts what comes back.
#[verifier::external_body]
pub(crate) fn parse_float_number(text: &str) -> (r: Option<JsonNumber>)
    ensures
        match r {
            Some(n) => float_number_of(text@) == Some(n@),
            None => float_number_of(text@) is None,
        },
{
    text.parse().ok().and_then(serde_json::Number::from_f64).map(|n| number_from_serde(&n))
}

/// The compact JSON text that `serde_json::to_string` writes for a value,
/// or nothing where it reports an error.
pub uninterp spec fn json_compact_text(value: JsonModel) -> Option<Seq<char>>;

/// The indented JSON text that `serde_json::to_string_pretty` writes for a
/// value, or nothing where it reports an error.
pub uninterp spec fn json_pretty_text(value: JsonModel) -> Option<Seq<char>>;

/// Converts a number to a `serde_json::Number`. A number with a fraction or
/// an exponent is read back from its text with `str::parse`; nothing comes
/// back where the text is no JSON number.
#[verifier::external_body]
fn number_to_serde(n: &JsonNumber) -> Option<serde_json::Number> {
    match n {
        JsonNumber::PosInt(u) => Some(serde_json::Number::from(*u)),
        JsonNumber::NegInt(i) => Some(serde_json::Number::from(*i)),
        JsonNumber::Float(text) => text.parse().ok(),
    }
}

/// Converts a value to a `serde_json::Value`, variant for variant. A number
/// that cannot be converted becomes `null`, as `serde_json` itself does with
/// a number that is not finite.
#[verifier::external_body]
fn value_to_serde(v: &JsonValue) -> serde_json::Value {
    match v {
        JsonValue::Null => serde_json::Value::Null,
        JsonValue::Bool(b) => serde_json::Value::Bool(*b),
        JsonValue::Number(n) => number_to_serde(n).map_or(
            serde_json::Value::Null,
            serde_json::Value::Number,
        ),
        JsonValue::String(s) => serde_json::Value::String(s.clone()),
        JsonValue::Array(a) => serde_json::Value::Array(a.iter().map(value_to_serde).collect()),
        JsonValue::Object(m) => serde_json::Value::Object(
            m.iter().map(|(k, x)| (k.clone(), value_to_serde(x))).collect(),
        ),
    }
}

/// Converts a value and calls `serde_json::to_string` on it. The text is a
/// function of the value alone.
#[verifier::external_body]
pub(crate) fn write_json_text(value: &JsonValue) -> (r: Result<String, serde_json::Error>)
    ensures
        match r {
            Ok(text) => json_compact_text(value@) == Some(text@),
            Err(_) => json_compact_text(value@) is None,
        },
{
    serde_json::to_string(&value_to_serde(value))
}

/// Converts a value and calls `serde_json::to_string_pretty` on it. The text
/// is a function of the value alone.
#[verifier::external_body]
pub(crate) fn write_json_pretty_text(value: &JsonValue) -> (r: Result<String, serde_json::Error>)
    ensures
        match r {
            Ok(text) => json_pretty_text(value@) == Some(text@),
            Err(_) => json_pretty_text(value@) is None,
        },
{
    serde_json::to_string_pretty(&value_to_serde(value))
}

/// Reads two texts as JSON numbers with `str::parse`, takes each as a
/// floating-point number with `serde_json::Number::as_f64`, and asks
/// `partial_cmp` how the first stands to the second: below, level or above,
/// or nothing where a text is no number.
#[verifier::external_body]
pub(crate) fn compare_number_texts(a: &str, b: &str) -> (r: Option<i8>)
    ensures
        r == number_text_order(a@, b@),
{
    let x = a.parse::<serde_json::Number>().ok()?.as_f64()?;
    let y = b.parse::<serde_json::Number>().ok()?.as_f64()?;
    match x.partial_cmp(&y)? {
        std::cmp::Ordering::Less => Some(-1),
        std::cmp::Ordering::Equal => Some(0),
        std::cmp::Ordering::Greater => Some(1),
    }
}

/// How the number that one text writes stands to the number that another
/// writes, both taken as floating-point numbers: -1 below, 0 level, 1 above,
/// or nothing where a text is no JSON number.
pub uninterp spec fn number_text_order(a: Seq<char>, b: Seq<char>) -> Option<i8>;

} // verus!
