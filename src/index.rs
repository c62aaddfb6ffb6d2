//! Secondary indexes: a grouping key maps to the JSON list of the ids of the
//! entities that belong to it.
use vstd::prelude::*;

use crate::codec::{decode_ids, encode_ids, ids_parse};
use crate::engine::{write_insert, write_remove, write_table, Snapshot};
use crate::error::DbError;

verus! {

broadcast use vstd::seq_lib::group_seq_properties, vstd::seq_lib::group_filter_ensures;

/// An index table read as lists: `None` where the stored text is malformed.
pub open spec fn index_view(m: Map<Seq<char>, Seq<char>>) -> Map<Seq<char>, Option<Seq<Seq<char>>>> {
    m.map_values(|s: Seq<char>| ids_parse(s))
}

/// The list under `key`, the empty list where the key is absent.
pub open spec fn ids_under(ix: Map<Seq<char>, Option<Seq<Seq<char>>>>, key: Seq<char>) -> Option<Seq<Seq<char>>> {
    if ix.contains_key(key) {
        ix[key]
    } else {
        Some(Seq::empty())
    }
}

/// The list with `id` appended, unless it is already there.
pub open spec fn with_id(ids: Seq<Seq<char>>, id: Seq<char>) -> Seq<Seq<char>> {
    if ids.contains(id) {
        ids
    } else {
        ids.push(id)
    }
}

/// Holds of every id but `id`.
pub open spec fn other_than(id: Seq<char>) -> spec_fn(Seq<char>) -> bool {
    |x: Seq<char>| x != id
}

/// The list with every occurrence of `id` taken out, the rest in order.
pub open spec fn without_id(ids: Seq<Seq<char>>, id: Seq<char>) -> Seq<Seq<char>> {
    ids.filter(other_than(id))
}

/// Index `ix` after `id` is added under `key`.
pub open spec fn index_add(ix: Map<Seq<char>, Option<Seq<Seq<char>>>>, key: Seq<char>, id: Seq<char>) -> Map<Seq<char>, Option<Seq<Seq<char>>>> {
    ix.insert(key, Some(with_id(ids_under(ix, key)->Some_0, id)))
}

/// Index `ix` after `id` is removed from under `key`.
pub open spec fn index_remove(ix: Map<Seq<char>, Option<Seq<Seq<char>>>>, key: Seq<char>, id: Seq<char>) -> Map<Seq<char>, Option<Seq<Seq<char>>>> {
    ix.insert(key, Some(without_id(ids_under(ix, key)->Some_0, id)))
}

/// Appends `id` to `ids` unless it is already there.
pub fn add_id(ids: &mut Vec<String>, id: &str)
    ensures
        final(ids).deep_view() == with_id(old(ids).deep_view(), id@),
{
    let target = id.to_owned();
    let mut i: usize = 0;
    while i < ids.len()
        invariant
            ids.deep_view() == old(ids).deep_view(),
            i <= ids.len(),
            target@ == id@,
            forall|j: int| 0 <= j < i ==> ids.deep_view()[j] != id@,
        decreases ids.len() - i,
    {
        if ids[i] == target {
            assert(ids.deep_view()[i as int] == id@);
            assert(old(ids).deep_view().contains(id@));
            return;
        }
        i += 1;
    }
    assert(!old(ids).deep_view().contains(id@));
    ids.push(target);
    assert(ids.deep_view() =~= old(ids).deep_view().push(id@));
}

/// The ids other than `id`, in their order.
pub fn remove_id(ids: &Vec<String>, id: &str) -> (r: Vec<String>)
    ensures
        r.deep_view() == without_id(ids.deep_view(), id@),
{
    let target = id.to_owned();
    let mut out: Vec<String> = Vec::new();
    let mut i: usize = 0;
    while i < ids.len()
        invariant
            i <= ids.len(),
            target@ == id@,
            out.deep_view() == without_id(ids.deep_view().take(i as int), id@),
        decreases ids.len() - i,
    {
        let ghost pred = other_than(id@);
        proof {
            assert(ids.deep_view().take(i + 1) =~= ids.deep_view().take(i as int).push(ids.deep_view()[i as int]));
            ids.deep_view().take(i as int).lemma_filter_push(ids.deep_view()[i as int], pred);
        }
        if ids[i] != target {
            out.push(ids[i].clone());
            assert(out.deep_view() =~= without_id(ids.deep_view().take(i as int), id@).push(ids.deep_view()[i as int]));
        }
        i += 1;
    }
    assert(ids.deep_view().take(ids.len() as int) =~= ids.deep_view());
    out
}

/// Reads the list under `key` in the index table `index`: empty where the key
/// is absent, `Serialization` where the stored text is malformed.
pub fn load_ids(snap: &Snapshot, index: &str, key: &str) -> (r: Result<Vec<String>, DbError>)
    requires
        index@.len() > 0,
    ensures
        r matches Ok(ids) ==> ids_under(index_view(snap.table(index@)), key@) == Some(ids.deep_view()),
        r matches Err(e) ==> e is Storage || (e is Serialization && ids_under(index_view(snap.table(index@)), key@) is None),
{
    match snap.fetch(index, key)? {
        None => Ok(Vec::new()),
        Some(text) => match decode_ids(&text) {
            Ok(ids) => Ok(ids),
            Err(msg) => Err(DbError::Serialization(msg)),
        },
    }
}

/// Writes `ids` as the list under `key` in the index table `index`.
pub fn store_ids(txn: &mut redb::WriteTransaction, index: &str, key: &str, ids: &Vec<String>) -> (r: Result<(), DbError>)
    requires
        index@.len() > 0,
    ensures
        r is Ok ==> index_view(write_table(*final(txn), index@)) == index_view(write_table(*old(txn), index@)).insert(key@, Some(ids.deep_view())),
        r is Ok ==> forall|n: Seq<char>| n != index@ ==> #[trigger] write_table(*final(txn), n) == write_table(*old(txn), n),
        r matches Err(e) ==> e is Storage,
{
    let text = match encode_ids(ids) {
        Ok(t) => t,
        Err(msg) => return Err(DbError::Serialization(msg)),
    };
    match write_insert(txn, index, key, &text) {
        Ok(()) => {},
        Err(e) => return Err(DbError::Storage(e)),
    }
    assert(index_view(write_table(*final(txn), index@)) =~= index_view(write_table(*old(txn), index@)).insert(key@, Some(ids.deep_view())));
    Ok(())
}

/// Adds `id` to the list under `key` in the index table `index`.
pub fn add_to_index(txn: &mut redb::WriteTransaction, index: &str, key: &str, id: &str) -> (r: Result<(), DbError>)
    requires
        index@.len() > 0,
    ensures
        r is Ok ==> ids_under(index_view(write_table(*old(txn), index@)), key@) is Some,
        r is Ok ==> index_view(write_table(*final(txn), index@)) == index_add(index_view(write_table(*old(txn), index@)), key@, id@),
        r is Ok ==> forall|n: Seq<char>| n != index@ ==> #[trigger] write_table(*final(txn), n) == write_table(*old(txn), n),
        r matches Err(e) ==> e is Storage
            || (e is Serialization && ids_under(index_view(write_table(*old(txn), index@)), key@) is None),
        ids_under(index_view(write_table(*old(txn), index@)), key@) is None ==> r is Err,
{
    let mut ids = load_ids(&Snapshot::Write(&*txn), index, key)?;
    add_id(&mut ids, id);
    store_ids(txn, index, key, &ids)
}

/// Removes `id` from the list under `key` in the index table `index`; the
/// list is written back even where it ends up empty.
pub fn remove_from_index(txn: &mut redb::WriteTransaction, index: &str, key: &str, id: &str) -> (r: Result<(), DbError>)
    requires
        index@.len() > 0,
    ensures
        r is Ok ==> ids_under(index_view(write_table(*old(txn), index@)), key@) is Some,
        r is Ok ==> index_view(write_table(*final(txn), index@)) == index_remove(index_view(write_table(*old(txn), index@)), key@, id@),
        r is Ok ==> forall|n: Seq<char>| n != index@ ==> #[trigger] write_table(*final(txn), n) == write_table(*old(txn), n),
        r matches Err(e) ==> e is Storage
            || (e is Serialization && ids_under(index_view(write_table(*old(txn), index@)), key@) is None),
        ids_under(index_view(write_table(*old(txn), index@)), key@) is None ==> r is Err,
{
    let ids = load_ids(&Snapshot::Write(&*txn), index, key)?;
    let kept = remove_id(&ids, id);
    store_ids(txn, index, key, &kept)
}

/// Removes the whole list stored under `key` in the index table `index`.
pub fn drop_index_entry(txn: &mut redb::WriteTransaction, index: &str, key: &str) -> (r: Result<(), DbError>)
    requires
        index@.len() > 0,
    ensures
        r is Ok ==> index_view(write_table(*final(txn), index@)) == index_view(write_table(*old(txn), index@)).remove(key@),
        r is Ok ==> forall|n: Seq<char>| n != index@ ==> #[trigger] write_table(*final(txn), n) == write_table(*old(txn), n),
        r matches Err(e) ==> e is Storage,
{
    match write_remove(txn, index, key) {
        Ok(()) => {},
        Err(e) => return Err(DbError::Storage(e)),
    }
    assert(index_view(write_table(*final(txn), index@)) =~= index_view(write_table(*old(txn), index@)).remove(key@));
    Ok(())
}

} // verus!
