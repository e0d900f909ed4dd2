use crate::models::json::{fields_model, JsonModel, JsonValue};
use vstd::prelude::*;

verus! {

/// The mathematical value of a record: a mapping from field name to value.
pub type RecordModel = Map<Seq<char>, JsonModel>;

/// The mathematical values of a batch of records, in order.
pub open spec fn records_model(records: Seq<DataRecord>) -> Seq<RecordModel> {
    records.map_values(|r: DataRecord| r@)
}

/// The mapping that a list of named values stands for: where a name occurs
/// more than once, its last occurrence counts.
pub open spec fn fields_map(fields: Seq<(String, JsonValue)>) -> Map<Seq<char>, JsonModel>
    decreases fields.len(),
{
    if fields.len() == 0 {
        Map::empty()
    } else {
        fields_map(fields.drop_last()).insert(fields.last().0@, fields.last().1@)
    }
}

/// The mapping that a list of named mathematical values stands for: where a
/// name occurs more than once, its last occurrence counts.
pub open spec fn pairs_map(pairs: Seq<(Seq<char>, JsonModel)>) -> Map<Seq<char>, JsonModel>
    decreases pairs.len(),
{
    if pairs.len() == 0 {
        Map::empty()
    } else {
        pairs_map(pairs.drop_last()).insert(pairs.last().0, pairs.last().1)
    }
}

/// The mapping of a list of fields is the mapping of the fields' models.
pub proof fn lemma_fields_map_model(fields: Seq<(String, JsonValue)>)
    ensures
        fields_map(fields) == pairs_map(fields_model(fields)),
    decreases fields.len(),
{
    if fields.len() > 0 {
        lemma_fields_map_model(fields.drop_last());
        assert(fields_model(fields).drop_last() =~= fields_model(fields.drop_last()));
    }
}

/// Whether `i` is the last place in `fields` that is named `key`.
pub open spec fn is_last_occurrence(
    fields: Seq<(String, JsonValue)>,
    key: Seq<char>,
    i: int,
) -> bool {
    &&& 0 <= i < fields.len()
    &&& fields[i].0@ == key
    &&& forall|j: int| i < j < fields.len() ==> fields[j].0@ != key
}

/// A name that occurs nowhere in `fields` is not in its mapping.
pub proof fn lemma_fields_map_absent(fields: Seq<(String, JsonValue)>, key: Seq<char>)
    requires
        forall|j: int| 0 <= j < fields.len() ==> fields[j].0@ != key,
    ensures
        !fields_map(fields).contains_key(key),
    decreases fields.len(),
{
    if fields.len() > 0 {
        lemma_fields_map_absent(fields.drop_last(), key);
    }
}

/// The mapping gives each name the value at its last occurrence.
pub proof fn lemma_fields_map_present(fields: Seq<(String, JsonValue)>, key: Seq<char>, i: int)
    requires
        is_last_occurrence(fields, key, i),
    ensures
        fields_map(fields).contains_key(key),
        fields_map(fields)[key] == fields[i].1@,
    decreases fields.len(),
{
    if i < fields.len() - 1 {
        lemma_fields_map_present(fields.drop_last(), key, i);
    }
}

/// Replacing the last occurrence of a name changes the mapping at that name only.
pub proof fn lemma_fields_map_update(
    fields: Seq<(String, JsonValue)>,
    i: int,
    entry: (String, JsonValue),
)
    requires
        is_last_occurrence(fields, entry.0@, i),
    ensures
        fields_map(fields.update(i, entry)) == fields_map(fields).insert(entry.0@, entry.1@),
    decreases fields.len(),
{
    let updated = fields.update(i, entry);
    if i == fields.len() - 1 {
        assert(updated.drop_last() =~= fields.drop_last());
        assert(fields_map(updated) =~= fields_map(fields).insert(entry.0@, entry.1@));
    } else {
        lemma_fields_map_update(fields.drop_last(), i, entry);
        assert(updated.drop_last() =~= fields.drop_last().update(i, entry));
        assert(fields_map(updated) =~= fields_map(fields).insert(entry.0@, entry.1@));
    }
}

/// The place of the last field named `key` in a list of fields, if there is
/// one.
pub fn last_position(fields: &Vec<(String, JsonValue)>, key: &str) -> (r: Option<usize>)
    ensures
        match r {
            Some(i) => is_last_occurrence(fields@, key@, i as int),
            None => forall|j: int| 0 <= j < fields.len() ==> fields[j].0@ != key@,
        },
{
    let mut i: usize = fields.len();
    while i > 0
        invariant
            i <= fields.len(),
            forall|j: int| i <= j < fields.len() ==> fields[j].0@ != key@,
        decreases i,
    {
        i -= 1;
        if crate::utils::text::text_eq(fields[i].0.as_str(), key) {
            return Some(i);
        }
    }
    None
}

/// The value of the last field named `key` in a list of fields, if there
/// is one.
pub fn find_field<'a>(fields: &'a Vec<(String, JsonValue)>, key: &str) -> (r: Option<
    &'a JsonValue,
>)
    ensures
        match r {
            Some(v) => fields_map(fields@).contains_key(key@) && fields_map(fields@)[key@] == v@,
            None => !fields_map(fields@).contains_key(key@),
        },
{
    match last_position(fields, key) {
        Some(i) => {
            proof {
                lemma_fields_map_present(fields@, key@, i as int);
            }
            Some(&fields[i].1)
        },
        None => {
            proof {
                lemma_fields_map_absent(fields@, key@);
            }
            None
        },
    }
}

/// One row or document: a mapping from field name to value.
#[derive(Debug, PartialEq, Eq)]
pub struct DataRecord {
    pub fields: Vec<(String, JsonValue)>,
}

impl View for DataRecord {
    type V = Map<Seq<char>, JsonModel>;

    open spec fn view(&self) -> Map<Seq<char>, JsonModel> {
        fields_map(self.fields@)
    }
}

impl Clone for DataRecord {
    fn clone(&self) -> (r: Self)
        ensures
            r@ == self@,
    {
        let mut out: Vec<(String, JsonValue)> = Vec::new();
        let mut i: usize = 0;
        while i < self.fields.len()
            invariant
                i <= self.fields.len(),
                fields_map(out@) == fields_map(self.fields@.take(i as int)),
            decreases self.fields.len() - i,
        {
            let ghost before = out@;
            out.push((self.fields[i].0.clone(), self.fields[i].1.clone()));
            proof {
                let next = self.fields@.take(i + 1);
                assert(out@.drop_last() =~= before);
                assert(next.drop_last() =~= self.fields@.take(i as int));
            }
            i += 1;
        }
        assert(self.fields@.take(i as int) =~= self.fields@);
        DataRecord { fields: out }
    }
}

impl DataRecord {
    /// A record without fields.
    pub fn new() -> (r: Self)
        ensures
            r@ == Map::<Seq<char>, JsonModel>::empty(),
    {
        DataRecord { fields: Vec::new() }
    }

    /// The place of the last field named `key`, if there is one.
    fn position(&self, key: &str) -> (r: Option<usize>)
        ensures
            match r {
                Some(i) => is_last_occurrence(self.fields@, key@, i as int),
                None => forall|j: int| 0 <= j < self.fields.len() ==> self.fields[j].0@ != key@,
            },
    {
        last_position(&self.fields, key)
    }

    /// The value of the field named `key`, if the record has one.
    pub fn get(&self, key: &str) -> (r: Option<&JsonValue>)
        ensures
            match r {
                Some(v) => self@.contains_key(key@) && self@[key@] == v@,
                None => !self@.contains_key(key@),
            },
    {
        find_field(&self.fields, key)
    }

    /// Whether the record has a field named `key`.
    pub fn contains_key(&self, key: &str) -> (r: bool)
        ensures
            r == self@.contains_key(key@),
    {
        self.get(key).is_some()
    }

    /// Sets the field named `key` to `value`, replacing what it held.
    pub fn insert(&mut self, key: String, value: JsonValue)
        ensures
            final(self)@ == old(self)@.insert(key@, value@),
    {
        match self.position(key.as_str()) {
            Some(i) => {
                proof {
                    lemma_fields_map_update(self.fields@, i as int, (key, value));
                }
                self.fields.set(i, (key, value));
            },
            None => {
                self.fields.push((key, value));
                assert(self.fields@.drop_last() =~= old(self).fields@);
            },
        }
    }
}

/// How a mapped field is changed on its way to the output record.
#[derive(Debug, Clone, PartialEq, Eq)]
pub enum TransformationType {
    Uppercase,
    Lowercase,
    Calculate(String),
    Lookup(String),
}

/// One field-to-field mapping with an optional change of the value.
#[derive(Debug, Clone, PartialEq, Eq)]
pub struct MappingRule {
    pub source_field: String,
    pub target_field: String,
    pub transformation: Option<TransformationType>,
}

/// What a run reports about itself: where the data came from, when the
/// transformation ended (milliseconds since the Unix epoch, UTC) and how many
/// records it produced.
#[derive(Debug, Clone, PartialEq, Eq)]
pub struct Metadata {
    pub source: String,
    pub timestamp: i64,
    pub record_count: usize,
}

/// The records a run produced, with the run's metadata.
#[derive(Debug, Clone, PartialEq, Eq)]
pub struct ProcessedData {
    pub records: Vec<DataRecord>,
    pub metadata: Metadata,
}

} // verus!
