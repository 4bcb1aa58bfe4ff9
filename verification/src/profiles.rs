//! The profile collection: an ordered sequence of connection records, unique
//! by id, that is read and written as one document.

use vstd::prelude::*;
use crate::connection::{Connection, ConnectionView, views};

verus! {

/// Some record of `records` has the id `id`.
pub open spec fn has_id(records: Seq<ConnectionView>, id: Seq<char>) -> bool {
    exists|i: int| 0 <= i < records.len() && (#[trigger] records[i]).id == id
}

/// `i` is the position of the first record of `records` with the id `id`.
pub open spec fn is_first(records: Seq<ConnectionView>, id: Seq<char>, i: int) -> bool {
    &&& 0 <= i < records.len()
    &&& records[i].id == id
    &&& forall|j: int| 0 <= j < i ==> (#[trigger] records[j]).id != id
}

/// No two records share an id.
pub open spec fn unique_ids(records: Seq<ConnectionView>) -> bool {
    forall|i: int, j: int|
        0 <= i < j < records.len() ==> (#[trigger] records[i]).id != (#[trigger] records[j]).id
}

/// What a document stands for: its records, or no records where it is absent
/// or could not be read.
pub open spec fn loaded(document: Option<Vec<Connection>>) -> Seq<ConnectionView> {
    match document {
        Some(records) => views(records@),
        None => Seq::empty(),
    }
}

/// The collection after `record` was written into it: in the place of the
/// first record with the same id, or at the end where there is none.
pub open spec fn upserted(records: Seq<ConnectionView>, record: ConnectionView) -> Seq<
    ConnectionView,
> {
    if has_id(records, record.id) {
        Seq::new(
            records.len(),
            |i: int| if is_first(records, record.id, i) { record } else { records[i] },
        )
    } else {
        records.push(record)
    }
}

/// The records of a document. A missing or unreadable document is a
/// collection without records, never a failure.
pub fn load_all(document: Option<Vec<Connection>>) -> (records: Vec<Connection>)
    ensures
        views(records@) == loaded(document),
        document.is_none() ==> records@.len() == 0,
{
    match document {
        Some(records) => records,
        None => {
            let records: Vec<Connection> = Vec::new();
            assert(views(records@) =~= Seq::empty());
            records
        },
    }
}

/// The position of the first record with the id `id`, if there is one.
pub fn find_connection(records: &Vec<Connection>, id: &String) -> (found: Option<usize>)
    ensures
        match found {
            Some(i) => is_first(views(records@), id@, i as int),
            None => !has_id(views(records@), id@),
        },
{
    let mut i: usize = 0;
    while i < records.len()
        invariant
            i <= records.len(),
            forall|j: int| 0 <= j < i ==> (#[trigger] views(records@)[j]).id != id@,
        decreases records.len() - i,
    {
        if records[i].id.eq(id) {
            return Some(i);
        }
        i += 1;
    }
    None
}

/// Writes `record` into the collection: a record with the same id is replaced
/// where it stands, and the others keep their places; without one, `record`
/// is appended.
pub fn upsert(records: &mut Vec<Connection>, record: Connection)
    ensures
        views(final(records)@) == upserted(views(old(records)@), record@),
{
    let found = find_connection(records, &record.id);
    match found {
        Some(i) => {
            records.set(i, record);
        },
        None => {
            records.push(record);
        },
    }
    assert(views(records@) =~= upserted(views(old(records)@), record@));
}

/// Writing a record keeps the ids of a collection unique.
pub proof fn upsert_keeps_ids_unique(records: Seq<ConnectionView>, record: ConnectionView)
    requires
        unique_ids(records),
    ensures
        unique_ids(upserted(records, record)),
{
    let after = upserted(records, record);
    if has_id(records, record.id) {
        assert forall|i: int, j: int| 0 <= i < j < after.len() implies (#[trigger] after[i]).id
            != (#[trigger] after[j]).id by {
            assert(after[i].id == records[i].id);
            assert(after[j].id == records[j].id);
        }
    } else {
        assert forall|i: int, j: int| 0 <= i < j < after.len() implies (#[trigger] after[i]).id
            != (#[trigger] after[j]).id by {
            if j == records.len() {
                assert(records[i].id != record.id);
            } else {
                assert(after[i].id == records[i].id);
                assert(after[j].id == records[j].id);
            }
        }
    }
}

/// After a record was written, the first record under its id is that record.
pub proof fn upsert_stores_record(records: Seq<ConnectionView>, record: ConnectionView)
    ensures
        has_id(upserted(records, record), record.id),
        exists|i: int|
            is_first(upserted(records, record), record.id, i) && upserted(records, record)[i]
                == record,
{
    let after = upserted(records, record);
    if has_id(records, record.id) {
        let k = choose|k: int| 0 <= k < records.len() && (#[trigger] records[k]).id == record.id;
        first_position_exists(records, record.id, k);
        let i = choose|i: int| is_first(records, record.id, i);
        assert forall|j: int| 0 <= j < i implies (#[trigger] after[j]).id != record.id by {
            assert(records[j].id != record.id);
        }
        assert(after[i] == record);
        assert(is_first(after, record.id, i));
    } else {
        let i = records.len() as int;
        assert forall|j: int| 0 <= j < i implies (#[trigger] after[j]).id != record.id by {
            assert(records[j].id != record.id);
        }
        assert(after[i] == record);
        assert(is_first(after, record.id, i));
    }
}

/// Where some record has the id, one of them is the first.
proof fn first_position_exists(records: Seq<ConnectionView>, id: Seq<char>, k: int)
    requires
        0 <= k < records.len(),
        records[k].id == id,
    ensures
        exists|i: int| is_first(records, id, i),
    decreases k,
{
    if forall|j: int| 0 <= j < k ==> (#[trigger] records[j]).id != id {
        assert(is_first(records, id, k));
    } else {
        let j = choose|j: int| 0 <= j < k && (#[trigger] records[j]).id == id;
        first_position_exists(records, id, j);
    }
}

/// A write adds the id written and no other: the collection afterwards holds
/// exactly the ids it held before and that one.
pub proof fn upsert_keeps_ids(
    records: Seq<ConnectionView>,
    record: ConnectionView,
    id: Seq<char>,
)
    ensures
        has_id(upserted(records, record), id) <==> (id == record.id || has_id(records, id)),
{
    let after = upserted(records, record);
    upsert_stores_record(records, record);
    if has_id(records, record.id) {
        assert forall|j: int| 0 <= j < records.len() implies (#[trigger] after[j]).id
            == records[j].id by {}
        if has_id(after, id) {
            let k = choose|k: int| 0 <= k < after.len() && (#[trigger] after[k]).id == id;
            assert(records[k].id == id);
        }
        if has_id(records, id) {
            let k = choose|k: int| 0 <= k < records.len() && (#[trigger] records[k]).id == id;
            assert(after[k].id == id);
        }
    } else {
        if has_id(after, id) && id != record.id {
            let k = choose|k: int| 0 <= k < after.len() && (#[trigger] after[k]).id == id;
            assert(records[k].id == id);
        }
        if has_id(records, id) {
            let k = choose|k: int| 0 <= k < records.len() && (#[trigger] records[k]).id == id;
            assert(after[k].id == id);
        }
    }
}

/// Writing the same record a second time changes nothing; and in a
/// collection with unique ids exactly one record then has its id, which is
/// the record written.
pub proof fn upsert_is_idempotent(records: Seq<ConnectionView>, record: ConnectionView)
    ensures
        upserted(upserted(records, record), record) == upserted(records, record),
        unique_ids(records) ==> exists|i: int|
            {
                &&& 0 <= i < upserted(records, record).len()
                &&& upserted(records, record)[i] == record
                &&& forall|j: int|
                    0 <= j < upserted(records, record).len() && j != i ==> (
                    #[trigger] upserted(records, record)[j]).id != record.id
            },
{
    let once = upserted(records, record);
    let twice = upserted(once, record);
    upsert_stores_record(records, record);
    let i = choose|i: int| is_first(once, record.id, i) && once[i] == record;
    assert(twice =~= once);
    if unique_ids(records) {
        upsert_keeps_ids_unique(records, record);
        assert forall|j: int| 0 <= j < once.len() && j != i implies (#[trigger] once[j]).id
            != record.id by {
            if j < i {
                assert(once[j].id != once[i].id);
            } else {
                assert(once[i].id != once[j].id);
            }
        }
    }
}

/// Writing a record whose id is already stored replaces that record where it
/// stands: the collection keeps its length, the record keeps its position,
/// and every other record is unchanged.
pub proof fn upsert_replaces_in_place(
    records: Seq<ConnectionView>,
    record: ConnectionView,
    position: int,
)
    requires
        unique_ids(records),
        0 <= position < records.len(),
        records[position].id == record.id,
    ensures
        upserted(records, record) == records.update(position, record),
        upserted(records, record).len() == records.len(),
        upserted(records, record)[position] == record,
        forall|j: int|
            0 <= j < records.len() && j != position ==> upserted(records, record)[j]
                == #[trigger] records[j],
{
    let after = upserted(records, record);
    assert(has_id(records, record.id));
    assert forall|j: int| 0 <= j < records.len() implies (is_first(records, record.id, j) <==> j
        == position) by {
        if j < position {
            assert(records[j].id != records[position].id);
        } else if j > position {
            assert(records[position].id != records[j].id);
        } else {
            assert forall|k: int| 0 <= k < position implies (#[trigger] records[k]).id
                != record.id by {
                assert(records[k].id != records[position].id);
            }
        }
    }
    assert(after =~= records.update(position, record));
}

/// Writing a record whose id is not stored appends it and changes no other
/// record.
pub proof fn upsert_appends_new(records: Seq<ConnectionView>, record: ConnectionView)
    requires
        !has_id(records, record.id),
    ensures
        upserted(records, record) == records.push(record),
{
}

} // verus!
