use crate::config::settings::AggregateOperation;
use crate::models::data_types::{records_model, DataRecord, RecordModel};
use crate::models::json::{integer_number, JsonModel, JsonNumber, JsonNumberModel, JsonValue};
use crate::transformers::expressions::checked;
use crate::models::json::{items_model, lemma_items_model};
use crate::utils::text::{
    decimal_digits, decimal_text, digit_char, digit_text, text_concat, texts_of,
};
use vstd::prelude::*;
use vstd::string::StringExecFns;

verus! {

/// The key of a group: for each field that the batch is grouped by, the
/// value of the field, or nothing where a record lacks it.
pub type GroupKey = Seq<Option<JsonModel>>;

/// A group: its key, and its records in the order of the batch.
pub type GroupModel = (GroupKey, Seq<RecordModel>);

/// The key of the group that a record belongs to.
pub open spec fn record_key(record: RecordModel, by: Seq<Seq<char>>) -> GroupKey {
    Seq::new(
        by.len(),
        |i: int|
            if record.contains_key(by[i]) {
                Some(record[by[i]])
            } else {
                None
            },
    )
}

/// The place of the first group with the given key, and the number of the
/// groups where none has it.
pub open spec fn key_place(groups: Seq<GroupModel>, key: GroupKey) -> int
    decreases groups.len(),
{
    if groups.len() == 0 {
        0
    } else if groups[0].0 == key {
        0
    } else {
        1 + key_place(groups.skip(1), key)
    }
}

/// The groups of a batch, in the order in which their first records stand
/// in the batch: each record joins the group of its key, and opens a group
/// where there is none yet.
pub open spec fn grouped(records: Seq<RecordModel>, by: Seq<Seq<char>>) -> Seq<GroupModel>
    decreases records.len(),
{
    if records.len() == 0 {
        Seq::empty()
    } else {
        let front = grouped(records.drop_last(), by);
        let key = record_key(records.last(), by);
        let place = key_place(front, key);
        if place < front.len() {
            front.update(place, (key, front[place].1.push(records.last())))
        } else {
            front.push((key, seq![records.last()]))
        }
    }
}

/// The values that the records of a group hold in a field, in order; a
/// record that lacks the field gives none.
pub open spec fn member_values(members: Seq<RecordModel>, source: Seq<char>) -> Seq<JsonModel>
    decreases members.len(),
{
    if members.len() == 0 {
        Seq::empty()
    } else if members.last().contains_key(source) {
        member_values(members.drop_last(), source).push(members.last()[source])
    } else {
        member_values(members.drop_last(), source)
    }
}

/// The integer that a value is, where it is one.
pub open spec fn value_integer(value: JsonModel) -> Option<int> {
    match value {
        JsonModel::Number(JsonNumberModel::PosInt(u)) => Some(u as int),
        JsonModel::Number(JsonNumberModel::NegInt(i)) => Some(i as int),
        _ => None,
    }
}

/// The sum of values that are all integers, added up in order, where every
/// sum on the way fits 64 bits.
pub open spec fn running_sum(values: Seq<JsonModel>) -> Option<int>
    decreases values.len(),
{
    if values.len() == 0 {
        Some(0)
    } else {
        match (running_sum(values.drop_last()), value_integer(values.last())) {
            (Some(sum), Some(v)) => checked(sum + v),
            _ => None,
        }
    }
}

/// The least, or the greatest, of values that are all integers, and
/// nothing for no values at all.
pub open spec fn extreme(values: Seq<JsonModel>, greatest: bool) -> Option<Option<int>>
    decreases values.len(),
{
    if values.len() == 0 {
        Some(None)
    } else {
        match (extreme(values.drop_last(), greatest), value_integer(values.last())) {
            (Some(None), Some(v)) => Some(Some(v)),
            (Some(Some(best)), Some(v)) => Some(
                Some(
                    if (greatest && v > best) || (!greatest && v < best) {
                        v
                    } else {
                        best
                    },
                ),
            ),
            _ => None,
        }
    }
}

/// The texts of values that are all strings, with a comma between each
/// two.
pub open spec fn concatenated(values: Seq<JsonModel>) -> Option<Seq<char>>
    decreases values.len(),
{
    if values.len() == 0 {
        Some(Seq::empty())
    } else {
        match (concatenated(values.drop_last()), values.last()) {
            (Some(front), JsonModel::String(s)) => Some(
                if values.len() == 1 {
                    s
                } else {
                    front + ","@ + s
                },
            ),
            _ => None,
        }
    }
}

/// Six digits of a number below a million, with zeros in front.
pub open spec fn six_digits(n: int) -> Seq<char> {
    seq![
        digit_char((n / 100000 % 10) as nat),
        digit_char((n / 10000 % 10) as nat),
        digit_char((n / 1000 % 10) as nat),
        digit_char((n / 100 % 10) as nat),
        digit_char((n / 10 % 10) as nat),
        digit_char((n % 10) as nat),
    ]
}

/// The text of the mean of a sum over a count, cut off after six decimal
/// places.
pub open spec fn mean_text(sum: int, count: int) -> Seq<char> {
    let size = if sum < 0 {
        -sum
    } else {
        sum
    };
    let sign = if sum < 0 {
        "-"@
    } else {
        Seq::<char>::empty()
    };
    sign + decimal_digits((size / count) as nat) + "."@ + six_digits(
        size % count * 1000000 / count,
    )
}

/// What an operation makes of the values of a group: a count of them, or
/// the sum, the mean, the least or the greatest of integers, or the texts
/// of strings in a row. The outer nothing stands for values that the
/// operation cannot take, the inner for a group without values where the
/// operation needs one.
pub open spec fn aggregated(operation: AggregateOperation, values: Seq<JsonModel>) -> Option<
    Option<JsonModel>,
> {
    match operation {
        AggregateOperation::Count => Some(
            Some(JsonModel::Number(JsonNumberModel::PosInt(values.len() as u64))),
        ),
        AggregateOperation::Sum => match running_sum(values) {
            Some(sum) => Some(Some(JsonModel::Number(integer_number(sum)))),
            None => None,
        },
        AggregateOperation::Average => match running_sum(values) {
            Some(sum) => if values.len() == 0 {
                Some(None)
            } else {
                Some(
                    Some(
                        JsonModel::Number(
                            JsonNumberModel::Float(mean_text(sum, values.len() as int)),
                        ),
                    ),
                )
            },
            None => None,
        },
        AggregateOperation::Min => match extreme(values, false) {
            Some(Some(v)) => Some(Some(JsonModel::Number(integer_number(v)))),
            Some(None) => Some(None),
            None => None,
        },
        AggregateOperation::Max => match extreme(values, true) {
            Some(Some(v)) => Some(Some(JsonModel::Number(integer_number(v)))),
            Some(None) => Some(None),
            None => None,
        },
        AggregateOperation::GroupConcat => match concatenated(values) {
            Some(text) => Some(Some(JsonModel::String(text))),
            None => None,
        },
    }
}

/// The fields that a group is named by: each field that the batch is
/// grouped by and that the records of the group have, with its value.
pub open spec fn key_record(by: Seq<Seq<char>>, key: GroupKey) -> RecordModel
    decreases by.len(),
{
    if by.len() == 0 || key.len() != by.len() {
        Map::empty()
    } else {
        match key.last() {
            Some(v) => key_record(by.drop_last(), key.drop_last()).insert(by.last(), v),
            None => key_record(by.drop_last(), key.drop_last()),
        }
    }
}

/// The record of a group: the fields that name the group and, under the
/// target, what the operation makes of the group.
pub open spec fn group_record(
    by: Seq<Seq<char>>,
    key: GroupKey,
    target: Seq<char>,
    result: Option<JsonModel>,
) -> RecordModel {
    match result {
        Some(v) => key_record(by, key).insert(target, v),
        None => key_record(by, key),
    }
}

/// What an aggregation makes of a batch: one record for each group, in the
/// order of the groups, or nothing where the operation cannot take the
/// values of some group.
pub open spec fn aggregation(
    records: Seq<RecordModel>,
    source: Seq<char>,
    target: Seq<char>,
    operation: AggregateOperation,
    by: Seq<Seq<char>>,
) -> Option<Seq<RecordModel>> {
    let groups = grouped(records, by);
    if forall|g: int|
        0 <= g < groups.len() ==> aggregated(
            operation,
            member_values((#[trigger] groups[g]).1, source),
        ) is Some {
        Some(
            Seq::new(
                groups.len(),
                |g: int|
                    group_record(
                        by,
                        groups[g].0,
                        target,
                        aggregated(operation, member_values(groups[g].1, source))->0,
                    ),
            ),
        )
    } else {
        None
    }
}

/// The mathematical value of a key.
pub open spec fn key_model(key: Seq<Option<JsonValue>>) -> GroupKey {
    Seq::new(
        key.len(),
        |i: int|
            match key[i] {
                Some(v) => Some(v@),
                None => None,
            },
    )
}

/// The records of a batch at the given places.
pub open spec fn records_at(records: Seq<DataRecord>, places: Seq<usize>) -> Seq<RecordModel> {
    Seq::new(places.len(), |k: int| records[places[k] as int]@)
}

/// The key of the group that a record belongs to.
pub fn key_of(record: &DataRecord, by: &Vec<String>) -> (r: Vec<Option<JsonValue>>)
    ensures
        key_model(r@) == record_key(record@, texts_of(by@)),
{
    let mut key: Vec<Option<JsonValue>> = Vec::new();
    let mut i: usize = 0;
    while i < by.len()
        invariant
            i <= by.len(),
            key.len() == i,
            forall|k: int|
                0 <= k < i ==> (match #[trigger] key[k] {
                    Some(v) => Some(v@),
                    None => None,
                }) == record_key(record@, texts_of(by@))[k],
        decreases by.len() - i,
    {
        let part: Option<JsonValue> = match record.get(by[i].as_str()) {
            Some(v) => Some(v.clone()),
            None => None,
        };
        key.push(part);
        i += 1;
    }
    assert(key_model(key@) =~= record_key(record@, texts_of(by@)));
    key
}

/// Whether two keys are the same.
pub fn same_key(a: &Vec<Option<JsonValue>>, b: &Vec<Option<JsonValue>>) -> (r: bool)
    ensures
        r == (key_model(a@) == key_model(b@)),
{
    if a.len() != b.len() {
        assert(key_model(a@).len() != key_model(b@).len());
        return false;
    }
    let mut i: usize = 0;
    while i < a.len()
        invariant
            i <= a.len(),
            a.len() == b.len(),
            forall|k: int| 0 <= k < i ==> key_model(a@)[k] == key_model(b@)[k],
        decreases a.len() - i,
    {
        let same: bool = match (&a[i], &b[i]) {
            (Some(x), Some(y)) => x.same_as(y),
            (None, None) => true,
            _ => false,
        };
        if !same {
            assert(key_model(a@)[i as int] != key_model(b@)[i as int]);
            return false;
        }
        i += 1;
    }
    assert(key_model(a@) =~= key_model(b@));
    true
}

/// `key_place` is the place before which no group has the key and at which
/// one has it, or the groups end.
pub proof fn lemma_key_place(groups: Seq<GroupModel>, key: GroupKey, n: int)
    requires
        0 <= n <= groups.len(),
        forall|k: int| 0 <= k < n ==> (#[trigger] groups[k]).0 != key,
        n == groups.len() || groups[n].0 == key,
    ensures
        key_place(groups, key) == n,
    decreases n,
{
    if n > 0 {
        assert(groups[0].0 != key);
        lemma_key_place(groups.skip(1), key, n - 1);
    }
}

/// A group as the code holds it: its key, and the places of its records in
/// the batch.
pub struct Group {
    pub key: Vec<Option<JsonValue>>,
    pub members: Vec<usize>,
}

/// Whether the groups that the code holds are the groups of the records.
pub open spec fn groups_are(
    groups: Seq<Group>,
    records: Seq<DataRecord>,
    models: Seq<GroupModel>,
) -> bool {
    &&& groups.len() == models.len()
    &&& forall|g: int|
        0 <= g < groups.len() ==> {
            &&& key_model((#[trigger] groups[g]).key@) == models[g].0
            &&& records_at(records, groups[g].members@) == models[g].1
            &&& forall|k: int|
                0 <= k < groups[g].members.len() ==> (#[trigger] groups[g].members[k])
                    < records.len()
        }
}

/// Sorts the records of a batch into groups by the given fields.
pub fn group_records(records: &Vec<DataRecord>, by: &Vec<String>) -> (r: Vec<Group>)
    ensures
        groups_are(r@, records@, grouped(records_model(records@), texts_of(by@))),
{
    let ghost all = records_model(records@);
    let ghost fields = texts_of(by@);
    let mut groups: Vec<Group> = Vec::new();
    let mut i: usize = 0;
    assert(all.take(0) =~= Seq::<RecordModel>::empty());
    while i < records.len()
        invariant
            i <= records.len(),
            all == records_model(records@),
            fields == texts_of(by@),
            groups_are(groups@, records@, grouped(all.take(i as int), fields)),
        decreases records.len() - i,
    {
        let ghost before = grouped(all.take(i as int), fields);
        let ghost held = groups@;
        proof {
            assert(all.take(i + 1).drop_last() =~= all.take(i as int));
            assert(all.take(i + 1).last() == records[i as int]@);
        }
        let key = key_of(&records[i], by);
        let mut place: usize = 0;
        while place < groups.len() && !same_key(&groups[place].key, &key)
            invariant
                place <= groups.len(),
                groups@ == held,
                groups_are(held, records@, before),
                forall|k: int| 0 <= k < place ==> (#[trigger] before[k]).0 != key_model(key@),
            decreases groups.len() - place,
        {
            place += 1;
        }
        proof {
            lemma_key_place(before, key_model(key@), place as int);
        }
        if place < groups.len() {
            let ghost old_members = groups[place as int].members@;
            let mut group = groups.remove(place);
            group.members.push(i);
            groups.insert(place, group);
            proof {
                let after = grouped(all.take(i + 1), fields);
                assert(records_at(records@, old_members.push(i)) =~= records_at(
                    records@,
                    old_members,
                ).push(records[i as int]@));
                assert forall|g: int| 0 <= g < groups.len() implies {
                    &&& key_model((#[trigger] groups[g]).key@) == after[g].0
                    &&& records_at(records@, groups[g].members@) == after[g].1
                    &&& forall|k: int|
                        0 <= k < groups[g].members.len() ==> (#[trigger] groups[g].members[k])
                            < records.len()
                } by {
                    if g != place {
                        assert(groups[g] == held[g]);
                    }
                }
            }
        } else {
            let mut members: Vec<usize> = Vec::new();
            members.push(i);
            groups.push(Group { key, members });
            proof {
                let after = grouped(all.take(i + 1), fields);
                assert(records_at(records@, seq![i]) =~= seq![records[i as int]@]);
                assert forall|g: int| 0 <= g < groups.len() implies {
                    &&& key_model((#[trigger] groups[g]).key@) == after[g].0
                    &&& records_at(records@, groups[g].members@) == after[g].1
                    &&& forall|k: int|
                        0 <= k < groups[g].members.len() ==> (#[trigger] groups[g].members[k])
                            < records.len()
                } by {
                    if g < held.len() {
                        assert(groups[g] == held[g]);
                    }
                }
            }
        }
        i += 1;
    }
    assert(all.take(records.len() as int) =~= all);
    groups
}

/// The values that the records at the given places hold in a field.
pub(crate) fn values_of(records: &Vec<DataRecord>, members: &Vec<usize>, source: &str) -> (r: Vec<
    JsonValue,
>)
    requires
        forall|k: int| 0 <= k < members.len() ==> (#[trigger] members[k]) < records.len(),
    ensures
        items_model(r@) == member_values(records_at(records@, members@), source@),
{
    let ghost all = records_at(records@, members@);
    let mut values: Vec<JsonValue> = Vec::new();
    let mut k: usize = 0;
    assert(all.take(0) =~= Seq::<RecordModel>::empty());
    while k < members.len()
        invariant
            k <= members.len(),
            all == records_at(records@, members@),
            forall|j: int| 0 <= j < members.len() ==> (#[trigger] members[j]) < records.len(),
            items_model(values@) == member_values(all.take(k as int), source@),
        decreases members.len() - k,
    {
        proof {
            assert(all.take(k + 1).drop_last() =~= all.take(k as int));
            assert(all.take(k + 1).last() == records[members[k as int] as int]@);
        }
        match records[members[k]].get(source) {
            Some(v) => {
                let ghost before = values@;
                values.push(v.clone());
                assert(values@.drop_last() =~= before);
            },
            None => {},
        }
        k += 1;
    }
    assert(all.take(members.len() as int) =~= all);
    values
}

/// The integer that a value is, where it is one.
pub fn integer_of(value: &JsonValue) -> (r: Option<i128>)
    ensures
        match r {
            Some(v) => value_integer(value@) == Some(v as int) && -0x8000_0000_0000_0000 <= v
                <= 0xFFFF_FFFF_FFFF_FFFF,
            None => value_integer(value@) is None,
        },
{
    match value {
        JsonValue::Number(JsonNumber::PosInt(u)) => Some(*u as i128),
        JsonValue::Number(JsonNumber::NegInt(i)) => Some(*i as i128),
        _ => None,
    }
}

/// The sum of values that are all integers.
pub fn sum_values(values: &Vec<JsonValue>) -> (r: Option<i64>)
    ensures
        match r {
            Some(sum) => running_sum(items_model(values@)) == Some(sum as int),
            None => running_sum(items_model(values@)) is None,
        },
{
    let ghost all = items_model(values@);
    proof {
        lemma_items_model(values@);
    }
    let mut sum: i64 = 0;
    let mut k: usize = 0;
    while k < values.len()
        invariant
            k <= values.len(),
            all == items_model(values@),
            all.len() == values.len(),
            forall|j: int| 0 <= j < values.len() ==> #[trigger] all[j] == values[j]@,
            running_sum(all.take(k as int)) == Some(sum as int),
        decreases values.len() - k,
    {
        proof {
            assert(all.take(k + 1).drop_last() =~= all.take(k as int));
            assert(all.take(k + 1).last() == all[k as int]);
        }
        let next: i128 = match integer_of(&values[k]) {
            Some(v) => sum as i128 + v,
            None => {
                proof {
                    lemma_sum_fails(all, k + 1);
                }
                return None;
            },
        };
        if next < -9223372036854775808 || next > 9223372036854775807 {
            proof {
                lemma_sum_fails(all, k + 1);
            }
            return None;
        }
        sum = next as i64;
        k += 1;
    }
    assert(all.take(values.len() as int) =~= all);
    Some(sum)
}

/// Where the sum of the values up to some place fails, the sum of all of
/// them fails.
pub proof fn lemma_sum_fails(values: Seq<JsonModel>, upto: int)
    requires
        0 <= upto <= values.len(),
        running_sum(values.take(upto)) is None,
    ensures
        running_sum(values) is None,
    decreases values.len() - upto,
{
    if upto == values.len() {
        assert(values.take(upto) =~= values);
    } else {
        assert(values.take(upto + 1).drop_last() =~= values.take(upto));
        lemma_sum_fails(values, upto + 1);
    }
}

/// Where the least, or the greatest, of the values up to some place fails,
/// that of all of them fails.
pub proof fn lemma_extreme_fails(values: Seq<JsonModel>, greatest: bool, upto: int)
    requires
        0 <= upto <= values.len(),
        extreme(values.take(upto), greatest) is None,
    ensures
        extreme(values, greatest) is None,
    decreases values.len() - upto,
{
    if upto == values.len() {
        assert(values.take(upto) =~= values);
    } else {
        assert(values.take(upto + 1).drop_last() =~= values.take(upto));
        lemma_extreme_fails(values, greatest, upto + 1);
    }
}

/// Where the texts of the values up to some place cannot be put in a row,
/// those of all of them cannot.
pub proof fn lemma_concatenation_fails(values: Seq<JsonModel>, upto: int)
    requires
        0 <= upto <= values.len(),
        concatenated(values.take(upto)) is None,
    ensures
        concatenated(values) is None,
    decreases values.len() - upto,
{
    if upto == values.len() {
        assert(values.take(upto) =~= values);
    } else {
        assert(values.take(upto + 1).drop_last() =~= values.take(upto));
        lemma_concatenation_fails(values, upto + 1);
    }
}

/// The least, or the greatest, of values that are all integers.
pub fn extreme_value(values: &Vec<JsonValue>, greatest: bool) -> (r: Option<Option<i128>>)
    ensures
        match r {
            Some(Some(v)) => extreme(items_model(values@), greatest) == Some(Some(v as int))
                && -0x8000_0000_0000_0000 <= v <= 0xFFFF_FFFF_FFFF_FFFF,
            Some(None) => extreme(items_model(values@), greatest) == Some(None::<int>),
            None => extreme(items_model(values@), greatest) is None,
        },
{
    let ghost all = items_model(values@);
    proof {
        lemma_items_model(values@);
    }
    let mut best: Option<i128> = None;
    let mut k: usize = 0;
    while k < values.len()
        invariant
            k <= values.len(),
            all == items_model(values@),
            all.len() == values.len(),
            forall|j: int| 0 <= j < values.len() ==> #[trigger] all[j] == values[j]@,
            extreme(all.take(k as int), greatest) == Some(
                match best {
                    Some(b) => Some(b as int),
                    None => None,
                },
            ),
            best matches Some(b) ==> -0x8000_0000_0000_0000 <= b <= 0xFFFF_FFFF_FFFF_FFFF,
        decreases values.len() - k,
    {
        proof {
            assert(all.take(k + 1).drop_last() =~= all.take(k as int));
            assert(all.take(k + 1).last() == all[k as int]);
        }
        match integer_of(&values[k]) {
            Some(v) => {
                best = match best {
                    None => Some(v),
                    Some(b) => if (greatest && v > b) || (!greatest && v < b) {
                        Some(v)
                    } else {
                        Some(b)
                    },
                };
            },
            None => {
                proof {
                    lemma_extreme_fails(all, greatest, k + 1);
                }
                return None;
            },
        }
        k += 1;
    }
    assert(all.take(values.len() as int) =~= all);
    Some(best)
}

/// The texts of values that are all strings, with a comma between each
/// two.
pub fn concatenate_values(values: &Vec<JsonValue>) -> (r: Option<String>)
    ensures
        match r {
            Some(text) => concatenated(items_model(values@)) == Some(text@),
            None => concatenated(items_model(values@)) is None,
        },
{
    let ghost all = items_model(values@);
    proof {
        lemma_items_model(values@);
    }
    let mut text = String::new();
    let mut k: usize = 0;
    while k < values.len()
        invariant
            k <= values.len(),
            all == items_model(values@),
            all.len() == values.len(),
            forall|j: int| 0 <= j < values.len() ==> #[trigger] all[j] == values[j]@,
            concatenated(all.take(k as int)) == Some(text@),
        decreases values.len() - k,
    {
        proof {
            assert(all.take(k + 1).drop_last() =~= all.take(k as int));
            assert(all.take(k + 1).last() == all[k as int]);
        }
        match &values[k] {
            JsonValue::String(s) => {
                if k == 0 {
                    text = s.clone();
                } else {
                    text.append(",");
                    text.append(s.as_str());
                }
            },
            _ => {
                proof {
                    lemma_concatenation_fails(all, k + 1);
                }
                return None;
            },
        }
        k += 1;
    }
    assert(all.take(values.len() as int) =~= all);
    Some(text)
}

/// Writes the mean of a sum over a count.
pub fn mean_of(sum: i64, count: usize) -> (r: String)
    requires
        count > 0,
    ensures
        r@ == mean_text(sum as int, count as int),
{
    let size: u64 = if sum < 0 {
        (-(sum as i128)) as u64
    } else {
        sum as u64
    };
    let count: u64 = count as u64;
    let whole: u64 = size / count;
    let rest: u64 = size % count;
    assert(0 <= (rest as int) * 1000000 / (count as int) < 1000000) by (nonlinear_arith)
        requires
            0 <= rest < count,
    ;
    assert((rest as int) * 1000000 <= 0xFFFF_FFFF_FFFF_FFFF * 1000000) by (nonlinear_arith)
        requires
            0 <= rest <= 0xFFFF_FFFF_FFFF_FFFF,
    ;
    let part: u64 = ((rest as u128) * 1000000 / (count as u128)) as u64;
    let mut text = if sum < 0 {
        text_concat("-", decimal_text(whole).as_str())
    } else {
        proof {
            assert(Seq::<char>::empty() + decimal_digits(whole as nat) =~= decimal_digits(
                whole as nat,
            ));
        }
        decimal_text(whole)
    };
    text.append(".");
    text.append(digit_text(part / 100000 % 10));
    text.append(digit_text(part / 10000 % 10));
    text.append(digit_text(part / 1000 % 10));
    text.append(digit_text(part / 100 % 10));
    text.append(digit_text(part / 10 % 10));
    text.append(digit_text(part % 10));
    assert(text@ =~= mean_text(sum as int, count as int));
    text
}

/// What an operation makes of the values of a group.
pub fn aggregate_values(operation: AggregateOperation, values: &Vec<JsonValue>) -> (r: Option<
    Option<JsonValue>,
>)
    ensures
        match r {
            Some(Some(v)) => aggregated(operation, items_model(values@)) == Some(Some(v@)),
            Some(None) => aggregated(operation, items_model(values@)) == Some(None::<JsonModel>),
            None => aggregated(operation, items_model(values@)) is None,
        },
{
    proof {
        lemma_items_model(values@);
    }
    match operation {
        AggregateOperation::Count => Some(
            Some(JsonValue::Number(JsonNumber::PosInt(values.len() as u64))),
        ),
        AggregateOperation::Sum => match sum_values(values) {
            Some(sum) => Some(Some(JsonValue::Number(JsonNumber::from_i64(sum)))),
            None => None,
        },
        AggregateOperation::Average => match sum_values(values) {
            Some(sum) => {
                if values.len() == 0 {
                    Some(None)
                } else {
                    Some(Some(JsonValue::Number(JsonNumber::Float(mean_of(sum, values.len())))))
                }
            },
            None => None,
        },
        AggregateOperation::Min => match extreme_value(values, false) {
            Some(Some(v)) => Some(Some(JsonValue::Number(number_of(v)))),
            Some(None) => Some(None),
            None => None,
        },
        AggregateOperation::Max => match extreme_value(values, true) {
            Some(Some(v)) => Some(Some(JsonValue::Number(number_of(v)))),
            Some(None) => Some(None),
            None => None,
        },
        AggregateOperation::GroupConcat => match concatenate_values(values) {
            Some(text) => Some(Some(JsonValue::String(text))),
            None => None,
        },
    }
}

/// The number that stands for an integer which some number holds.
pub(crate) fn number_of(v: i128) -> (r: JsonNumber)
    requires
        -0x8000_0000_0000_0000 <= v <= 0xFFFF_FFFF_FFFF_FFFF,
    ensures
        r@ == integer_number(v as int),
{
    if v >= 0 {
        JsonNumber::PosInt(v as u64)
    } else {
        JsonNumber::NegInt(v as i64)
    }
}

/// The record of the fields that name a group.
pub(crate) fn named_record(by: &Vec<String>, key: &Vec<Option<JsonValue>>) -> (r: DataRecord)
    requires
        key.len() == by.len(),
    ensures
        r@ == key_record(texts_of(by@), key_model(key@)),
{
    let ghost fields = texts_of(by@);
    let ghost parts = key_model(key@);
    let mut record = DataRecord::new();
    let mut i: usize = 0;
    while i < by.len()
        invariant
            i <= by.len(),
            key.len() == by.len(),
            fields == texts_of(by@),
            parts == key_model(key@),
            record@ == key_record(fields.take(i as int), parts.take(i as int)),
        decreases by.len() - i,
    {
        proof {
            assert(fields.take(i + 1).drop_last() =~= fields.take(i as int));
            assert(parts.take(i + 1).drop_last() =~= parts.take(i as int));
            assert(fields.take(i + 1).last() == by[i as int]@);
            assert(parts.take(i + 1).last() == parts[i as int]);
        }
        match &key[i] {
            Some(v) => {
                record.insert(by[i].clone(), v.clone());
            },
            None => {},
        }
        i += 1;
    }
    assert(fields.take(by.len() as int) =~= fields);
    assert(parts.take(by.len() as int) =~= parts);
    record
}

/// Reduces a batch to one record for each group: the fields that name the
/// group and, under the target, what the operation makes of the values
/// that the records of the group hold in the source field. Nothing where
/// the operation cannot take the values of some group.
pub fn aggregate_records(
    records: &Vec<DataRecord>,
    source: &str,
    target: &str,
    operation: AggregateOperation,
    by: &Vec<String>,
) -> (r: Option<Vec<DataRecord>>)
    ensures
        match r {
            Some(out) => aggregation(
                records_model(records@),
                source@,
                target@,
                operation,
                texts_of(by@),
            ) == Some(records_model(out@)),
            None => aggregation(
                records_model(records@),
                source@,
                target@,
                operation,
                texts_of(by@),
            ) is None,
        },
{
    let ghost fields = texts_of(by@);
    let ghost models = grouped(records_model(records@), fields);
    let groups = group_records(records, by);
    proof {
        lemma_group_keys(records_model(records@), fields);
    }
    let mut out: Vec<DataRecord> = Vec::new();
    let mut g: usize = 0;
    while g < groups.len()
        invariant
            g <= groups.len(),
            fields == texts_of(by@),
            models == grouped(records_model(records@), fields),
            groups_are(groups@, records@, models),
            forall|j: int| 0 <= j < models.len() ==> (#[trigger] models[j]).0.len() == by.len(),
            out.len() == g,
            forall|j: int|
                0 <= j < g ==> aggregated(
                    operation,
                    member_values((#[trigger] models[j]).1, source@),
                ) is Some,
            forall|j: int|
                0 <= j < g ==> (#[trigger] out[j])@ == group_record(
                    fields,
                    models[j].0,
                    target@,
                    aggregated(operation, member_values(models[j].1, source@))->0,
                ),
        decreases groups.len() - g,
    {
        let group = &groups[g];
        assert(key_model(group.key@) == models[g as int].0);
        assert(key_model(group.key@).len() == group.key.len());
        let values = values_of(records, &group.members, source);
        let result = match aggregate_values(operation, &values) {
            Some(result) => result,
            None => {
                return None;
            },
        };
        let mut record = named_record(by, &group.key);
        match result {
            Some(v) => {
                record.insert(String::from_str(target), v);
            },
            None => {},
        }
        out.push(record);
        g += 1;
    }
    assert(records_model(out@) =~= aggregation(
        records_model(records@),
        source@,
        target@,
        operation,
        fields,
    )->0);
    Some(out)
}

/// The key of every group has one part for each field that the batch is
/// grouped by.
pub proof fn lemma_group_keys(records: Seq<RecordModel>, by: Seq<Seq<char>>)
    ensures
        forall|j: int|
            0 <= j < grouped(records, by).len() ==> (#[trigger] grouped(records, by)[j]).0.len()
                == by.len(),
    decreases records.len(),
{
    if records.len() > 0 {
        lemma_group_keys(records.drop_last(), by);
        let front = grouped(records.drop_last(), by);
        let key = record_key(records.last(), by);
        let place = key_place(front, key);
        let after = grouped(records, by);
        lemma_key_place_bounds(front, key);
        assert forall|j: int| 0 <= j < after.len() implies (#[trigger] after[j]).0.len()
            == by.len() by {
            if place < front.len() {
                if j != place {
                    assert(after[j] == front[j]);
                }
            } else {
                if j < front.len() {
                    assert(after[j] == front[j]);
                }
            }
        }
    }
}

/// The place of a key is a place among the groups, or their number.
pub proof fn lemma_key_place_bounds(groups: Seq<GroupModel>, key: GroupKey)
    ensures
        0 <= key_place(groups, key) <= groups.len(),
    decreases groups.len(),
{
    if groups.len() > 0 && groups[0].0 != key {
        lemma_key_place_bounds(groups.skip(1), key);
    }
}

} // verus!
