use crate::models::data_types::{
    find_field, lemma_fields_map_absent, lemma_fields_map_model, lemma_fields_map_present,
    pairs_map,
};
use crate::models::json::{
    fields_model, items_model, lemma_fields_model, lemma_items_model, JsonModel, JsonNumber,
    JsonNumberModel, JsonValue,
};
use crate::utils::error::{EtlError, Result};
use crate::utils::text::{chars_of, text_concat, text_eq, text_of_chars, texts_of};
use vstd::prelude::*;
use vstd::string::StringExecFns;

verus! {

/// The fields of a JSON object: names and values, in order.
pub type Pairs = Seq<(Seq<char>, JsonModel)>;

/// Whether an object has a field of the name.
pub open spec fn present(pairs: Pairs, name: Seq<char>) -> bool {
    pairs_map(pairs).contains_key(name)
}

/// The value of a field of an object: that of the last field of the name,
/// and null where the object has no such field.
pub open spec fn member(pairs: Pairs, name: Seq<char>) -> JsonModel {
    if pairs_map(pairs).contains_key(name) {
        pairs_map(pairs)[name]
    } else {
        JsonModel::Null
    }
}

/// An object with one field more, where there is a value for it, and the
/// object as it is where there is none.
pub open spec fn with_field(pairs: Pairs, name: Seq<char>, value: Option<JsonModel>) -> Pairs {
    match value {
        Some(v) => pairs.push((name, v)),
        None => pairs,
    }
}

/// Whether no name occurs twice among the fields of an object.
pub open spec fn distinct_names(pairs: Pairs) -> bool {
    forall|i: int, j: int| 0 <= i < j < pairs.len() ==> pairs[i].0 != pairs[j].0
}

/// The value of a field that must be there: nothing where the object has
/// no field of the name.
pub open spec fn required(pairs: Pairs, name: Seq<char>, normal: Option<JsonModel>) -> Option<
    JsonModel,
> {
    if present(pairs, name) {
        normal
    } else {
        None
    }
}

/// The value of a field that may be absent: no value where the object has
/// no field of the name, and nothing at all where it has one whose value
/// has no normal form. A field that is there with null is not absent.
pub open spec fn optional(pairs: Pairs, name: Seq<char>, normal: Option<JsonModel>) -> Option<
    Option<JsonModel>,
> {
    if present(pairs, name) {
        match normal {
            Some(n) => Some(Some(n)),
            None => None,
        }
    } else {
        Some(None)
    }
}

/// An object without fields has no field of any name.
pub broadcast proof fn lemma_present_none(name: Seq<char>)
    ensures
        !#[trigger] present(Seq::empty(), name),
{
}

/// A field that was added is there, with its value.
pub broadcast proof fn lemma_added(pairs: Pairs, name: Seq<char>, value: JsonModel)
    ensures
        #![trigger present(with_field(pairs, name, Some(value)), name)]
        #![trigger member(with_field(pairs, name, Some(value)), name)]
        present(with_field(pairs, name, Some(value)), name),
        member(with_field(pairs, name, Some(value)), name) == value,
{
    assert(pairs.push((name, value)).drop_last() =~= pairs);
}

/// A field that was added leaves the fields of other names as they are.
pub broadcast proof fn lemma_added_other(
    pairs: Pairs,
    name: Seq<char>,
    other: Seq<char>,
    value: Option<JsonModel>,
)
    requires
        name != other,
    ensures
        #![trigger present(with_field(pairs, other, value), name)]
        #![trigger member(with_field(pairs, other, value), name)]
        present(with_field(pairs, other, value), name) == present(pairs, name),
        member(with_field(pairs, other, value), name) == member(pairs, name),
{
    if value is Some {
        assert(pairs.push((other, value->0)).drop_last() =~= pairs);
    }
}

/// The name of the field at a place of an object is the name of a field
/// of the object.
pub proof fn lemma_name_present(pairs: Pairs, i: int)
    requires
        0 <= i < pairs.len(),
    ensures
        present(pairs, pairs[i].0),
    decreases pairs.len(),
{
    if i < pairs.len() - 1 {
        lemma_name_present(pairs.drop_last(), i);
        assert(pairs.drop_last()[i] == pairs[i]);
    }
}

/// An object without a name twice stays so with one field more whose name
/// it did not have.
pub proof fn lemma_with_field_distinct(pairs: Pairs, name: Seq<char>, value: Option<JsonModel>)
    requires
        distinct_names(pairs),
        !present(pairs, name),
    ensures
        distinct_names(with_field(pairs, name, value)),
{
    if value is Some {
        let more = with_field(pairs, name, value);
        assert forall|i: int, j: int| 0 <= i < j < more.len() implies more[i].0 != more[j].0 by {
            if j == pairs.len() {
                lemma_name_present(pairs, i);
            }
        }
    }
}

/// A field that an object has stands at some place in it.
pub proof fn lemma_present_place(pairs: Pairs, name: Seq<char>)
    requires
        present(pairs, name),
    ensures
        exists|i: int| 0 <= i < pairs.len() && (#[trigger] pairs[i]) == (name, member(pairs, name)),
    decreases pairs.len(),
{
    if pairs.len() > 0 {
        if pairs.last().0 == name {
            assert(pairs[pairs.len() - 1] == (name, member(pairs, name)));
        } else {
            lemma_present_place(pairs.drop_last(), name);
            let i = choose|i: int|
                0 <= i < pairs.drop_last().len() && (#[trigger] pairs.drop_last()[i]) == (
                    name,
                    member(pairs.drop_last(), name),
                );
            assert(pairs[i] == (name, member(pairs, name)));
        }
    }
}

/// In an object without a name twice, the field at a place is the field of
/// its name.
pub proof fn lemma_place_present(pairs: Pairs, i: int)
    requires
        distinct_names(pairs),
        0 <= i < pairs.len(),
    ensures
        present(pairs, pairs[i].0),
        member(pairs, pairs[i].0) == pairs[i].1,
    decreases pairs.len(),
{
    if i < pairs.len() - 1 {
        assert(pairs[pairs.len() - 1].0 != pairs[i].0);
        assert forall|a: int, b: int| 0 <= a < b < pairs.drop_last().len() implies pairs.drop_last()[a].0
            != pairs.drop_last()[b].0 by {
            assert(pairs.drop_last()[a] == pairs[a]);
            assert(pairs.drop_last()[b] == pairs[b]);
        }
        lemma_place_present(pairs.drop_last(), i);
        assert(pairs.drop_last()[i] == pairs[i]);
    }
}

/// Whether two JSON values are the same but for the order of the fields of
/// their objects: arrays item by item, and objects where each field of the
/// one has a field of its name in the other whose value is the same but for
/// that order.
pub open spec fn json_same(a: JsonModel, b: JsonModel) -> bool
    decreases a, 0nat, 0nat,
{
    match a {
        JsonModel::Array(x) => b matches JsonModel::Array(y) && x.len() == y.len() && items_same(
            x,
            y,
            x.len(),
        ),
        JsonModel::Object(p) => b matches JsonModel::Object(q) && all_found(p, q, p.len())
            && all_covered(p, q, q.len()),
        _ => a == b,
    }
}

/// Whether the first `n` items of two lists are the same, item by item.
pub open spec fn items_same(x: Seq<JsonModel>, y: Seq<JsonModel>, n: nat) -> bool
    decreases x, 0nat, n,
{
    if n == 0 || n > x.len() {
        true
    } else {
        items_same(x, y, (n - 1) as nat) && json_same(x[n - 1], y[n - 1])
    }
}

/// Whether a field has a field of its name and the same value among the
/// first `m` fields of an object.
pub open spec fn found(f: (Seq<char>, JsonModel), q: Pairs, m: nat) -> bool
    decreases f, 0nat, m,
{
    if m == 0 || m > q.len() {
        false
    } else {
        (q[m - 1].0 == f.0 && json_same(f.1, q[m - 1].1)) || found(f, q, (m - 1) as nat)
    }
}

/// Whether each of the first `n` fields of an object is found in another.
pub open spec fn all_found(p: Pairs, q: Pairs, n: nat) -> bool
    decreases p, 0nat, n,
{
    if n == 0 || n > p.len() {
        true
    } else {
        all_found(p, q, (n - 1) as nat) && found(p[n - 1], q, q.len())
    }
}

/// Whether a field of another object has a field of its name and the same
/// value among the first `n` fields of an object.
pub open spec fn covered(p: Pairs, g: (Seq<char>, JsonModel), n: nat) -> bool
    decreases p, 0nat, n,
{
    if n == 0 || n > p.len() {
        false
    } else {
        (p[n - 1].0 == g.0 && json_same(p[n - 1].1, g.1)) || covered(p, g, (n - 1) as nat)
    }
}

/// Whether each of the first `m` fields of another object is covered by an
/// object.
pub open spec fn all_covered(p: Pairs, q: Pairs, m: nat) -> bool
    decreases p, 1nat, m,
{
    if m == 0 || m > q.len() {
        true
    } else {
        all_covered(p, q, (m - 1) as nat) && covered(p, q[m - 1], p.len())
    }
}

/// The first items of two lists are the same where each pair of them is.
pub proof fn lemma_items_same(x: Seq<JsonModel>, y: Seq<JsonModel>, n: nat)
    requires
        n <= x.len(),
        forall|i: int| 0 <= i < n ==> json_same(#[trigger] x[i], y[i]),
    ensures
        items_same(x, y, n),
    decreases n,
{
    if n > 0 {
        lemma_items_same(x, y, (n - 1) as nat);
    }
}

/// A field is found where some field of the object has its name and the
/// same value.
pub proof fn lemma_found(f: (Seq<char>, JsonModel), q: Pairs, m: nat, k: int)
    requires
        0 <= k < m <= q.len(),
        q[k].0 == f.0,
        json_same(f.1, q[k].1),
    ensures
        found(f, q, m),
    decreases m,
{
    if k < m - 1 {
        lemma_found(f, q, (m - 1) as nat, k);
    }
}

/// Each of the first fields is found where each has a field of its name
/// and the same value.
pub proof fn lemma_all_found(p: Pairs, q: Pairs, n: nat)
    requires
        n <= p.len(),
        forall|i: int| 0 <= i < n ==> found(#[trigger] p[i], q, q.len()),
    ensures
        all_found(p, q, n),
    decreases n,
{
    if n > 0 {
        lemma_all_found(p, q, (n - 1) as nat);
    }
}

/// A field is covered where some field of the object has its name and the
/// same value.
pub proof fn lemma_covered(p: Pairs, g: (Seq<char>, JsonModel), n: nat, i: int)
    requires
        0 <= i < n <= p.len(),
        p[i].0 == g.0,
        json_same(p[i].1, g.1),
    ensures
        covered(p, g, n),
    decreases n,
{
    if i < n - 1 {
        lemma_covered(p, g, (n - 1) as nat, i);
    }
}

/// Each of the first fields is covered where each has a field of its name
/// and the same value.
pub proof fn lemma_all_covered(p: Pairs, q: Pairs, m: nat)
    requires
        m <= q.len(),
        forall|k: int| 0 <= k < m ==> covered(p, #[trigger] q[k], p.len()),
    ensures
        all_covered(p, q, m),
    decreases m,
{
    if m > 0 {
        lemma_all_covered(p, q, (m - 1) as nat);
    }
}

/// Every JSON value is the same as itself.
pub proof fn lemma_json_same_itself(a: JsonModel)
    ensures
        json_same(a, a),
    decreases a,
{
    match a {
        JsonModel::Array(x) => {
            assert forall|i: int| 0 <= i < x.len() implies json_same(#[trigger] x[i], x[i]) by {
                lemma_json_same_itself(x[i]);
            }
            lemma_items_same(x, x, x.len());
        },
        JsonModel::Object(p) => {
            assert forall|i: int| 0 <= i < p.len() implies found(
                #[trigger] p[i],
                p,
                p.len(),
            ) && covered(p, p[i], p.len()) by {
                lemma_json_same_itself(p[i].1);
                lemma_found(p[i], p, p.len(), i);
                lemma_covered(p, p[i], p.len(), i);
            }
            lemma_all_found(p, p, p.len());
            lemma_all_covered(p, p, p.len());
        },
        _ => {},
    }
}

/// Two lists are the same where they are as long as each other and each
/// pair of their items is the same.
pub proof fn lemma_same_arrays(x: Seq<JsonModel>, y: Seq<JsonModel>)
    requires
        x.len() == y.len(),
        forall|i: int| 0 <= i < x.len() ==> json_same(#[trigger] x[i], y[i]),
    ensures
        json_same(JsonModel::Array(x), JsonModel::Array(y)),
{
    lemma_items_same(x, y, x.len());
}

/// Two objects without a name twice are the same but for the order of
/// their fields where they have fields of the same names and the values
/// under each name are the same but for that order.
pub proof fn lemma_same_objects(n: Pairs, j: Pairs)
    requires
        distinct_names(n),
        distinct_names(j),
        forall|name: Seq<char>| #[trigger] present(n, name) == present(j, name),
        forall|name: Seq<char>|
            #[trigger] present(n, name) ==> json_same(member(n, name), member(j, name)),
    ensures
        json_same(JsonModel::Object(n), JsonModel::Object(j)),
{
    assert forall|i: int| 0 <= i < n.len() implies found(#[trigger] n[i], j, j.len()) by {
        lemma_place_present(n, i);
        assert(present(j, n[i].0));
        lemma_present_place(j, n[i].0);
        let k = choose|k: int| 0 <= k < j.len() && (#[trigger] j[k]) == (n[i].0, member(j, n[i].0));
        lemma_found(n[i], j, j.len(), k);
    }
    lemma_all_found(n, j, n.len());
    assert forall|k: int| 0 <= k < j.len() implies covered(n, #[trigger] j[k], n.len()) by {
        lemma_place_present(j, k);
        assert(present(n, j[k].0));
        lemma_present_place(n, j[k].0);
        let i = choose|i: int| 0 <= i < n.len() && (#[trigger] n[i]) == (j[k].0, member(n, j[k].0));
        lemma_covered(n, j[k], n.len(), i);
    }
    lemma_all_covered(n, j, j.len());
}

/// The value of a field of an object, if the object has the field.
pub fn field_of<'a>(fields: &'a Vec<(String, JsonValue)>, name: &str) -> (r: Option<&'a JsonValue>)
    ensures
        match r {
            Some(v) => present(fields_model(fields@), name@) && v@ == member(
                fields_model(fields@),
                name@,
            ),
            None => !present(fields_model(fields@), name@),
        },
{
    proof {
        lemma_fields_map_model(fields@);
    }
    find_field(fields, name)
}

/// Whether no name occurs twice among the fields of an object.
pub fn names_distinct(fields: &Vec<(String, JsonValue)>) -> (r: bool)
    ensures
        r == distinct_names(fields_model(fields@)),
{
    proof {
        lemma_fields_model(fields@);
    }
    let mut j: usize = 0;
    while j < fields.len()
        invariant
            j <= fields.len(),
            fields_model(fields@).len() == fields.len(),
            forall|k: int|
                0 <= k < fields.len() ==> #[trigger] fields_model(fields@)[k] == (
                    fields[k].0@,
                    fields[k].1@,
                ),
            forall|a: int, b: int| 0 <= a < b < j ==> fields[a].0@ != fields[b].0@,
        decreases fields.len() - j,
    {
        let mut i: usize = 0;
        while i < j
            invariant
                i <= j < fields.len(),
                fields_model(fields@).len() == fields.len(),
                forall|k: int|
                    0 <= k < fields.len() ==> #[trigger] fields_model(fields@)[k] == (
                        fields[k].0@,
                        fields[k].1@,
                    ),
                forall|a: int| 0 <= a < i ==> fields[a].0@ != fields[j as int].0@,
            decreases j - i,
        {
            if text_eq(fields[i].0.as_str(), fields[j].0.as_str()) {
                assert(fields_model(fields@)[i as int].0 == fields_model(fields@)[j as int].0);
                return false;
            }
            i += 1;
        }
        j += 1;
    }
    true
}

/// The encoding of a flag.
pub open spec fn encode_flag(flag: bool) -> JsonModel {
    JsonModel::Bool(flag)
}

/// A boolean in normal form: itself.
pub open spec fn norm_flag(json: JsonModel) -> Option<JsonModel> {
    match json {
        JsonModel::Bool(_) => Some(json),
        _ => None,
    }
}

/// The encoding of a character: a string of that one character.
pub open spec fn encode_char(c: char) -> JsonModel {
    JsonModel::String(seq![c])
}

/// A string of one character in normal form: itself.
pub open spec fn norm_char(json: JsonModel) -> Option<JsonModel> {
    match json {
        JsonModel::String(s) => if s.len() == 1 {
            Some(json)
        } else {
            None
        },
        _ => None,
    }
}

/// Reads a flag.
pub fn decode_bool(json: &JsonValue, path: &str) -> (r: Result<bool>)
    ensures
        decoded(r, norm_flag(json@)),
        r matches Ok(b) ==> Some(encode_flag(b)) == norm_flag(json@),
{
    match json {
        JsonValue::Bool(b) => Ok(*b),
        _ => Err(invalid(path)),
    }
}

/// Reads a character.
pub fn decode_char(json: &JsonValue, path: &str) -> (r: Result<char>)
    ensures
        decoded(r, norm_char(json@)),
        r matches Ok(c) ==> Some(encode_char(c)) == norm_char(json@),
{
    match json {
        JsonValue::String(s) => {
            let chars = chars_of(s.as_str());
            if chars.len() == 1 {
                assert(s@ =~= seq![chars[0]]);
                Ok(chars[0])
            } else {
                Err(invalid(path))
            }
        },
        _ => Err(invalid(path)),
    }
}

/// Reads a size.
pub fn decode_usize(json: &JsonValue, path: &str) -> (r: Result<usize>)
    ensures
        decoded(r, norm_count(json@, usize::MAX as int)),
        r matches Ok(n) ==> Some(encode_count(n as int)) == norm_count(json@, usize::MAX as int),
{
    match json {
        JsonValue::Number(JsonNumber::PosInt(u)) => {
            if *u <= usize::MAX as u64 {
                Ok(*u as usize)
            } else {
                Err(invalid(path))
            }
        },
        _ => Err(invalid(path)),
    }
}

/// Writes a flag.
pub fn write_bool(flag: bool) -> (r: JsonValue)
    ensures
        r@ == encode_flag(flag),
{
    JsonValue::Bool(flag)
}

/// Writes a character.
pub fn write_char(c: char) -> (r: JsonValue)
    ensures
        r@ == encode_char(c),
{
    let mut chars: Vec<char> = Vec::new();
    chars.push(c);
    assert(chars@ =~= seq![c]);
    JsonValue::String(text_of_chars(&chars))
}

/// The error of a configuration that cannot be read, naming the field.
pub fn invalid(path: &str) -> (e: EtlError)
    ensures
        e matches EtlError::ConfigError(m) && m@ == "Invalid configuration: "@ + path@,
{
    EtlError::ConfigError(text_concat("Invalid configuration: ", path))
}

/// The path of a field of an object at a path.
pub fn field_path(path: &str, name: &str) -> (r: String)
    ensures
        r@ == path@ + "."@ + name@,
{
    let mut joined = text_concat(path, ".");
    joined.append(name);
    joined
}

/// configuration where it has none.
pub open spec fn decoded<T>(result: Result<T>, normal: Option<JsonModel>) -> bool {
    match normal {
        Some(_) => result is Ok,
        None => result matches Err(EtlError::ConfigError(_)),
    }
}

/// The encoding of a text.
pub open spec fn encode_text(text: Seq<char>) -> JsonModel {
    JsonModel::String(text)
}

/// A string in normal form: itself.
pub open spec fn norm_string(json: JsonModel) -> Option<JsonModel> {
    match json {
        JsonModel::String(_) => Some(json),
        _ => None,
    }
}

/// The encoding of a count.
pub open spec fn encode_count(n: int) -> JsonModel {
    JsonModel::Number(JsonNumberModel::PosInt(n as u64))
}

/// A count below a limit in normal form: itself.
pub open spec fn norm_count(json: JsonModel, limit: int) -> Option<JsonModel> {
    match json {
        JsonModel::Number(JsonNumberModel::PosInt(u)) => if u <= limit {
            Some(json)
        } else {
            None
        },
        _ => None,
    }
}

/// The encoding of a list of texts.
pub open spec fn encode_texts(texts: Seq<Seq<char>>) -> JsonModel {
    JsonModel::Array(Seq::new(texts.len(), |i: int| JsonModel::String(texts[i])))
}

/// Whether every value of a list is a string.
pub open spec fn all_strings(items: Seq<JsonModel>) -> bool {
    forall|i: int| 0 <= i < items.len() ==> (#[trigger] items[i]) is String
}

/// A list of strings in normal form: itself.
pub open spec fn norm_strings(json: JsonModel) -> Option<JsonModel> {
    match json {
        JsonModel::Array(items) => if all_strings(items) {
            Some(json)
        } else {
            None
        },
        _ => None,
    }
}

/// The names and values of a table of texts.
pub open spec fn table_texts(table: Seq<(String, String)>) -> Seq<(Seq<char>, Seq<char>)> {
    Seq::new(table.len(), |i: int| (table[i].0@, table[i].1@))
}

/// name, in the order of the table.
pub open spec fn encode_table(table: Seq<(Seq<char>, Seq<char>)>) -> JsonModel {
    JsonModel::Object(Seq::new(table.len(), |i: int| (table[i].0, JsonModel::String(table[i].1))))
}

/// Whether every field of an object is a string.
pub open spec fn all_string_fields(pairs: Pairs) -> bool {
    forall|i: int| 0 <= i < pairs.len() ==> (#[trigger] pairs[i]).1 is String
}

/// An object of strings in normal form: itself.
pub open spec fn norm_table(json: JsonModel) -> Option<JsonModel> {
    match json {
        JsonModel::Object(pairs) => if all_string_fields(pairs) {
            Some(json)
        } else {
            None
        },
        _ => None,
    }
}

/// An object in normal form: itself.
pub open spec fn norm_object(json: JsonModel) -> Option<JsonModel> {
    match json {
        JsonModel::Object(_) => Some(json),
        _ => None,
    }
}

/// Any value in normal form: itself.
pub open spec fn norm_any(json: JsonModel) -> Option<JsonModel> {
    Some(json)
}

/// Reads a string.
pub fn decode_string(json: &JsonValue, path: &str) -> (r: Result<String>)
    ensures
        decoded(r, norm_string(json@)),
        r matches Ok(text) ==> Some(encode_text(text@)) == norm_string(json@),
{
    match json {
        JsonValue::String(s) => Ok(s.clone()),
        _ => Err(invalid(path)),
    }
}

/// Reads a count of at most 64 bits.
pub fn decode_u64(json: &JsonValue, path: &str) -> (r: Result<u64>)
    ensures
        decoded(r, norm_count(json@, u64::MAX as int)),
        r matches Ok(n) ==> Some(encode_count(n as int)) == norm_count(json@, u64::MAX as int),
{
    match json {
        JsonValue::Number(JsonNumber::PosInt(u)) => Ok(*u),
        _ => Err(invalid(path)),
    }
}

/// Reads a count of at most 32 bits.
pub fn decode_u32(json: &JsonValue, path: &str) -> (r: Result<u32>)
    ensures
        decoded(r, norm_count(json@, u32::MAX as int)),
        r matches Ok(n) ==> Some(encode_count(n as int)) == norm_count(json@, u32::MAX as int),
{
    match json {
        JsonValue::Number(JsonNumber::PosInt(u)) => {
            if *u <= 4294967295 {
                Ok(*u as u32)
            } else {
                Err(invalid(path))
            }
        },
        _ => Err(invalid(path)),
    }
}

/// Reads a list of strings.
pub fn decode_strings(json: &JsonValue, path: &str) -> (r: Result<Vec<String>>)
    ensures
        decoded(r, norm_strings(json@)),
        r matches Ok(list) ==> Some(encode_texts(texts_of(list@))) == norm_strings(json@),
{
    match json {
        JsonValue::Array(items) => {
            proof {
                lemma_items_model(items@);
            }
            let mut list: Vec<String> = Vec::new();
            let mut i: usize = 0;
            while i < items.len()
                invariant
                    i <= items.len(),
                    list.len() == i,
                    json@ == JsonModel::Array(items_model(items@)),
                    items_model(items@).len() == items.len(),
                    forall|k: int|
                        0 <= k < items.len() ==> #[trigger] items_model(items@)[k] == items[k]@,
                    forall|k: int|
                        0 <= k < i ==> items_model(items@)[k] == JsonModel::String(
                            (#[trigger] list[k])@,
                        ),
                decreases items.len() - i,
            {
                match &items[i] {
                    JsonValue::String(s) => {
                        list.push(s.clone());
                    },
                    _ => {
                        assert(!(items_model(items@)[i as int] is String));
                        return Err(invalid(path));
                    },
                }
                i += 1;
            }
            assert(encode_texts(texts_of(list@))->Array_0 =~= items_model(items@));
            Ok(list)
        },
        _ => Err(invalid(path)),
    }
}

/// Reads a table of texts.
pub fn decode_table(json: &JsonValue, path: &str) -> (r: Result<Vec<(String, String)>>)
    ensures
        decoded(r, norm_table(json@)),
        r matches Ok(table) ==> Some(encode_table(table_texts(table@))) == norm_table(json@),
{
    match json {
        JsonValue::Object(fields) => {
            proof {
                lemma_fields_model(fields@);
            }
            let mut table: Vec<(String, String)> = Vec::new();
            let mut i: usize = 0;
            while i < fields.len()
                invariant
                    i <= fields.len(),
                    table.len() == i,
                    json@ == JsonModel::Object(fields_model(fields@)),
                    fields_model(fields@).len() == fields.len(),
                    forall|k: int|
                        0 <= k < fields.len() ==> #[trigger] fields_model(fields@)[k] == (
                            fields[k].0@,
                            fields[k].1@,
                        ),
                    forall|k: int|
                        0 <= k < i ==> fields_model(fields@)[k] == (
                            (#[trigger] table[k]).0@,
                            JsonModel::String(table[k].1@),
                        ),
                decreases fields.len() - i,
            {
                match &fields[i].1 {
                    JsonValue::String(s) => {
                        table.push((fields[i].0.clone(), s.clone()));
                    },
                    _ => {
                        assert(!(fields_model(fields@)[i as int].1 is String));
                        return Err(invalid(path));
                    },
                }
                i += 1;
            }
            assert(encode_table(table_texts(table@))->Object_0 =~= fields_model(fields@));
            Ok(table)
        },
        _ => Err(invalid(path)),
    }
}

/// Reads the fields of an object, each with its value.
pub fn decode_object(json: &JsonValue, path: &str) -> (r: Result<Vec<(String, JsonValue)>>)
    ensures
        decoded(r, norm_object(json@)),
        r matches Ok(fields) ==> Some(JsonModel::Object(fields_model(fields@))) == norm_object(
            json@,
        ),
{
    match json {
        JsonValue::Object(_) => match json.clone() {
            JsonValue::Object(fields) => Ok(fields),
            _ => Err(invalid(path)),
        },
        _ => Err(invalid(path)),
    }
}

/// Reads any value.
pub fn decode_value(json: &JsonValue, path: &str) -> (r: Result<JsonValue>)
    ensures
        decoded(r, norm_any(json@)),
        r matches Ok(v) ==> Some(v@) == norm_any(json@),
{
    Ok(json.clone())
}

/// Writes a text.
pub fn write_text(text: &String) -> (r: JsonValue)
    ensures
        r@ == encode_text(text@),
{
    JsonValue::String(text.clone())
}

/// Writes a count.
pub fn write_count(n: u64) -> (r: JsonValue)
    ensures
        r@ == encode_count(n as int),
{
    JsonValue::Number(JsonNumber::PosInt(n))
}

/// Writes a list of texts.
pub fn write_texts(list: &Vec<String>) -> (r: JsonValue)
    ensures
        r@ == encode_texts(texts_of(list@)),
{
    let mut items: Vec<JsonValue> = Vec::new();
    let mut i: usize = 0;
    while i < list.len()
        invariant
            i <= list.len(),
            items.len() == i,
            forall|k: int| 0 <= k < i ==> (#[trigger] items[k])@ == JsonModel::String(list[k]@),
        decreases list.len() - i,
    {
        items.push(JsonValue::String(list[i].clone()));
        i += 1;
    }
    proof {
        lemma_items_model(items@);
        assert(items_model(items@) =~= encode_texts(texts_of(list@))->Array_0);
    }
    JsonValue::Array(items)
}

/// Writes a table of texts.
pub fn write_table(table: &Vec<(String, String)>) -> (r: JsonValue)
    ensures
        r@ == encode_table(table_texts(table@)),
{
    let mut fields: Vec<(String, JsonValue)> = Vec::new();
    let mut i: usize = 0;
    while i < table.len()
        invariant
            i <= table.len(),
            fields.len() == i,
            forall|k: int|
                0 <= k < i ==> (#[trigger] fields[k]).0@ == table[k].0@ && fields[k].1@
                    == JsonModel::String(table[k].1@),
        decreases table.len() - i,
    {
        fields.push((table[i].0.clone(), JsonValue::String(table[i].1.clone())));
        i += 1;
    }
    proof {
        lemma_fields_model(fields@);
        assert(fields_model(fields@) =~= encode_table(table_texts(table@))->Object_0);
    }
    JsonValue::Object(fields)
}

/// Writes the fields of an object, each with its value.
pub fn write_object(fields: &Vec<(String, JsonValue)>) -> (r: JsonValue)
    ensures
        r@ == JsonModel::Object(fields_model(fields@)),
{
    let mut out: Vec<(String, JsonValue)> = Vec::new();
    let mut i: usize = 0;
    while i < fields.len()
        invariant
            i <= fields.len(),
            out.len() == i,
            forall|k: int|
                0 <= k < i ==> (#[trigger] out[k]).0@ == fields[k].0@ && out[k].1@ == fields[k].1@,
        decreases fields.len() - i,
    {
        out.push((fields[i].0.clone(), fields[i].1.clone()));
        i += 1;
    }
    proof {
        lemma_fields_model(fields@);
        lemma_fields_model(out@);
        assert(fields_model(out@) =~= fields_model(fields@));
    }
    JsonValue::Object(out)
}

/// Writes any value.
pub fn write_value(value: &JsonValue) -> (r: JsonValue)
    ensures
        r@ == value@,
{
    value.clone()
}

/// Adds a field to an object that is being written.
pub fn put(fields: &mut Vec<(String, JsonValue)>, name: &str, value: JsonValue)
    ensures
        fields_model(final(fields)@) == fields_model(old(fields)@).push((name@, value@)),
{
    let ghost before = fields@;
    fields.push((String::from_str(name), value));
    assert(fields@.drop_last() =~= before);
}

/// The encoding of a list of texts is in normal form.
pub proof fn lemma_texts(texts: Seq<Seq<char>>)
    ensures
        norm_strings(encode_texts(texts)) == Some(encode_texts(texts)),
{
}

/// The encoding of a table of texts is in normal form.
pub proof fn lemma_table(table: Seq<(Seq<char>, Seq<char>)>)
    ensures
        norm_table(encode_table(table)) == Some(encode_table(table)),
{
}

/// Two characters with the same encoding are the same.
pub proof fn lemma_char_one(a: char, b: char)
    requires
        encode_char(a) == encode_char(b),
    ensures
        a == b,
{
    assert(seq![a][0] == seq![b][0]);
}

/// Two lists of strings with the same encoding are the same.
pub proof fn lemma_texts_one(a: Seq<Seq<char>>, b: Seq<Seq<char>>)
    requires
        encode_texts(a) == encode_texts(b),
    ensures
        a == b,
{
    let x = encode_texts(a)->Array_0;
    let y = encode_texts(b)->Array_0;
    assert(x.len() == a.len() && y.len() == b.len());
    assert forall|i: int| 0 <= i < a.len() implies a[i] == b[i] by {
        assert(x[i] == JsonModel::String(a[i]));
        assert(y[i] == JsonModel::String(b[i]));
    }
    assert(a =~= b);
}

/// Two tables of strings with the same encoding are the same.
pub proof fn lemma_table_one(a: Seq<(Seq<char>, Seq<char>)>, b: Seq<(Seq<char>, Seq<char>)>)
    requires
        encode_table(a) == encode_table(b),
    ensures
        a == b,
{
    let x = encode_table(a)->Object_0;
    let y = encode_table(b)->Object_0;
    assert(x.len() == a.len() && y.len() == b.len());
    assert forall|i: int| 0 <= i < a.len() implies a[i] == b[i] by {
        assert(x[i] == (a[i].0, JsonModel::String(a[i].1)));
        assert(y[i] == (b[i].0, JsonModel::String(b[i].1)));
    }
    assert(a =~= b);
}

} // verus!
