use crate::config::settings::JoinType;
use crate::models::data_types::{fields_map, records_model, DataRecord, RecordModel};
use vstd::prelude::*;

verus! {

/// Whether a record of the batch and a record of the other source belong
/// together: both have their key field, and the two values are the same.
pub open spec fn keys_match(
    left: RecordModel,
    right: RecordModel,
    left_key: Seq<char>,
    right_key: Seq<char>,
) -> bool {
    left.contains_key(left_key) && right.contains_key(right_key) && left[left_key]
        == right[right_key]
}

/// The record of two records that belong together: the fields of both, and
/// the value of the batch's record where both have a field.
pub open spec fn merged(left: RecordModel, right: RecordModel) -> RecordModel {
    right.union_prefer_right(left)
}

/// The records that a record of the batch makes with the records of the
/// other source that belong to it, in the order of the other source.
pub open spec fn matches_of(
    left: RecordModel,
    rights: Seq<RecordModel>,
    left_key: Seq<char>,
    right_key: Seq<char>,
) -> Seq<RecordModel>
    decreases rights.len(),
{
    if rights.len() == 0 {
        Seq::empty()
    } else {
        let front = matches_of(left, rights.drop_last(), left_key, right_key);
        if keys_match(left, rights.last(), left_key, right_key) {
            front.push(merged(left, rights.last()))
        } else {
            front
        }
    }
}

/// The output of one record of the batch: the records it makes with the
/// other source, and the record itself where it makes none and records
/// without a partner are kept.
pub open spec fn left_rows(
    left: RecordModel,
    rights: Seq<RecordModel>,
    left_key: Seq<char>,
    right_key: Seq<char>,
    keep_alone: bool,
) -> Seq<RecordModel> {
    let made = matches_of(left, rights, left_key, right_key);
    if made.len() == 0 && keep_alone {
        seq![left]
    } else {
        made
    }
}

/// The output of the records of the batch, record after record.
pub open spec fn left_part(
    lefts: Seq<RecordModel>,
    rights: Seq<RecordModel>,
    left_key: Seq<char>,
    right_key: Seq<char>,
    keep_alone: bool,
) -> Seq<RecordModel>
    decreases lefts.len(),
{
    if lefts.len() == 0 {
        Seq::empty()
    } else {
        left_part(lefts.drop_last(), rights, left_key, right_key, keep_alone) + left_rows(
            lefts.last(),
            rights,
            left_key,
            right_key,
            keep_alone,
        )
    }
}

/// Whether a record of the other source belongs to some record of the
/// batch.
pub open spec fn has_partner(
    lefts: Seq<RecordModel>,
    right: RecordModel,
    left_key: Seq<char>,
    right_key: Seq<char>,
) -> bool {
    exists|i: int| 0 <= i < lefts.len() && keys_match(#[trigger] lefts[i], right, left_key, right_key)
}

/// The records of the other source that belong to no record of the batch,
/// in order.
pub open spec fn right_part(
    lefts: Seq<RecordModel>,
    rights: Seq<RecordModel>,
    left_key: Seq<char>,
    right_key: Seq<char>,
) -> Seq<RecordModel>
    decreases rights.len(),
{
    if rights.len() == 0 {
        Seq::empty()
    } else {
        let front = right_part(lefts, rights.drop_last(), left_key, right_key);
        if has_partner(lefts, rights.last(), left_key, right_key) {
            front
        } else {
            front.push(rights.last())
        }
    }
}

/// Whether a kind of join keeps the records of the batch that have no
/// partner.
pub open spec fn keeps_left(join_type: JoinType) -> bool {
    join_type == JoinType::Left || join_type == JoinType::Full
}

/// Whether a kind of join keeps the records of the other source that have
/// no partner.
pub open spec fn keeps_right(join_type: JoinType) -> bool {
    join_type == JoinType::Right || join_type == JoinType::Full
}

/// What a join makes of a batch and the records of another source: for
/// each record of the batch, in order, its records with its partners; a
/// left and a full join keep a record without a partner as it is; a right
/// and a full join add, at the end, the records of the other source that
/// have no partner.
pub open spec fn joined(
    lefts: Seq<RecordModel>,
    rights: Seq<RecordModel>,
    left_key: Seq<char>,
    right_key: Seq<char>,
    join_type: JoinType,
) -> Seq<RecordModel> {
    let first = left_part(lefts, rights, left_key, right_key, keeps_left(join_type));
    if keeps_right(join_type) {
        first + right_part(lefts, rights, left_key, right_key)
    } else {
        first
    }
}

/// Whether two records belong together.
pub fn records_match(left: &DataRecord, right: &DataRecord, left_key: &str, right_key: &str) -> (r:
    bool)
    ensures
        r == keys_match(left@, right@, left_key@, right_key@),
{
    match (left.get(left_key), right.get(right_key)) {
        (Some(a), Some(b)) => a.same_as(b),
        _ => false,
    }
}

/// Puts two records together: the fields of both, and the value of the
/// first where both have a field.
pub fn merge_records(left: &DataRecord, right: &DataRecord) -> (r: DataRecord)
    ensures
        r@ == merged(left@, right@),
{
    let mut out = right.clone();
    let mut i: usize = 0;
    assert(right@.union_prefer_right(fields_map(left.fields@.take(0))) =~= right@);
    while i < left.fields.len()
        invariant
            i <= left.fields.len(),
            out@ == right@.union_prefer_right(fields_map(left.fields@.take(i as int))),
        decreases left.fields.len() - i,
    {
        let ghost before = fields_map(left.fields@.take(i as int));
        proof {
            assert(left.fields@.take(i + 1).drop_last() =~= left.fields@.take(i as int));
            assert(left.fields@.take(i + 1).last() == left.fields@[i as int]);
        }
        out.insert(left.fields[i].0.clone(), left.fields[i].1.clone());
        assert(out@ =~= right@.union_prefer_right(
            before.insert(left.fields@[i as int].0@, left.fields@[i as int].1@),
        ));
        i += 1;
    }
    assert(left.fields@.take(left.fields.len() as int) =~= left.fields@);
    out
}

/// Joins a batch with the records of another source.
pub fn join_records(
    lefts: &Vec<DataRecord>,
    rights: &Vec<DataRecord>,
    left_key: &str,
    right_key: &str,
    join_type: JoinType,
) -> (r: Vec<DataRecord>)
    ensures
        records_model(r@) == joined(
            records_model(lefts@),
            records_model(rights@),
            left_key@,
            right_key@,
            join_type,
        ),
{
    let ghost ls = records_model(lefts@);
    let ghost rs = records_model(rights@);
    let keep_left: bool = match join_type {
        JoinType::Left => true,
        JoinType::Full => true,
        _ => false,
    };
    let keep_right: bool = match join_type {
        JoinType::Right => true,
        JoinType::Full => true,
        _ => false,
    };
    let mut out: Vec<DataRecord> = Vec::new();
    let mut i: usize = 0;
    assert(records_model(out@) =~= left_part(ls.take(0), rs, left_key@, right_key@, keep_left));
    while i < lefts.len()
        invariant
            i <= lefts.len(),
            ls == records_model(lefts@),
            rs == records_model(rights@),
            records_model(out@) == left_part(
                ls.take(i as int),
                rs,
                left_key@,
                right_key@,
                keep_left,
            ),
        decreases lefts.len() - i,
    {
        let ghost before = records_model(out@);
        proof {
            assert(ls.take(i + 1).drop_last() =~= ls.take(i as int));
            assert(ls.take(i + 1).last() == lefts[i as int]@);
        }
        let left = &lefts[i];
        let mut made: usize = 0;
        let mut k: usize = 0;
        assert(records_model(out@) =~= before + matches_of(
            left@,
            rs.take(0),
            left_key@,
            right_key@,
        ));
        while k < rights.len()
            invariant
                k <= rights.len(),
                rs == records_model(rights@),
                made == matches_of(left@, rs.take(k as int), left_key@, right_key@).len(),
                records_model(out@) == before + matches_of(
                    left@,
                    rs.take(k as int),
                    left_key@,
                    right_key@,
                ),
            decreases rights.len() - k,
        {
            let ghost so_far = matches_of(left@, rs.take(k as int), left_key@, right_key@);
            proof {
                assert(rs.take(k + 1).drop_last() =~= rs.take(k as int));
                assert(rs.take(k + 1).last() == rights[k as int]@);
            }
            if records_match(left, &rights[k], left_key, right_key) {
                let record = merge_records(left, &rights[k]);
                let ghost held = records_model(out@);
                out.push(record);
                assert(made < usize::MAX) by {
                    lemma_matches_at_most(left@, rs.take(k as int), left_key@, right_key@);
                }
                made += 1;
                assert(records_model(out@) =~= held.push(record@));
                assert(held.push(record@) =~= before + so_far.push(record@));
            }
            k += 1;
        }
        assert(rs.take(rights.len() as int) =~= rs);
        if made == 0 && keep_left {
            let ghost held = records_model(out@);
            out.push(left.clone());
            assert(records_model(out@) =~= held.push(left@));
            assert(held.push(left@) =~= before + seq![left@]);
        }
        i += 1;
    }
    assert(ls.take(lefts.len() as int) =~= ls);
    if keep_right {
        let ghost first = records_model(out@);
        let mut k: usize = 0;
        assert(records_model(out@) =~= first + right_part(ls, rs.take(0), left_key@, right_key@));
        while k < rights.len()
            invariant
                k <= rights.len(),
                ls == records_model(lefts@),
                rs == records_model(rights@),
                records_model(out@) == first + right_part(
                    ls,
                    rs.take(k as int),
                    left_key@,
                    right_key@,
                ),
            decreases rights.len() - k,
        {
            let ghost so_far = right_part(ls, rs.take(k as int), left_key@, right_key@);
            proof {
                assert(rs.take(k + 1).drop_last() =~= rs.take(k as int));
                assert(rs.take(k + 1).last() == rights[k as int]@);
            }
            let right = &rights[k];
            let mut found: bool = false;
            let mut j: usize = 0;
            while j < lefts.len() && !found
                invariant
                    j <= lefts.len(),
                    ls == records_model(lefts@),
                    found ==> has_partner(ls, right@, left_key@, right_key@),
                    !found ==> forall|m: int|
                        0 <= m < j ==> !keys_match(#[trigger] ls[m], right@, left_key@, right_key@),
                decreases lefts.len() - j + (if found {
                    0int
                } else {
                    1int
                }),
            {
                if records_match(&lefts[j], right, left_key, right_key) {
                    assert(keys_match(ls[j as int], right@, left_key@, right_key@));
                    found = true;
                } else {
                    j += 1;
                }
            }
            if !found {
                let ghost held = records_model(out@);
                out.push(right.clone());
                assert(records_model(out@) =~= held.push(right@));
                assert(held.push(right@) =~= first + so_far.push(right@));
            }
            k += 1;
        }
        assert(rs.take(rights.len() as int) =~= rs);
    }
    out
}

/// A record makes no more records than the other source has.
pub proof fn lemma_matches_at_most(
    left: RecordModel,
    rights: Seq<RecordModel>,
    left_key: Seq<char>,
    right_key: Seq<char>,
)
    ensures
        matches_of(left, rights, left_key, right_key).len() <= rights.len(),
    decreases rights.len(),
{
    if rights.len() > 0 {
        lemma_matches_at_most(left, rights.drop_last(), left_key, right_key);
    }
}

} // verus!
