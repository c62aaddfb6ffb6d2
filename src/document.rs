//! Typed access to the primary tables: each maps an entity id to the JSON
//! document of that entity.
use vstd::prelude::*;

use crate::engine::{read_entries, read_table, write_insert, write_remove, write_table, Snapshot};
use crate::error::DbError;
use crate::index::ids_under;
use crate::order::{sort_by_name, sorted_by_name, views, Named};

verus! {

broadcast use vstd::seq_lib::group_seq_properties, vstd::seq_lib::group_filter_ensures,
    vstd::seq_lib::group_to_multiset_ensures, vstd::multiset::group_multiset_axioms;

/// An entity stored as a JSON document under its id.
pub trait Document: Named + View + Sized {
    /// What the document text reads as, `None` where it is malformed.
    spec fn parse(s: Seq<char>) -> Option<Self::V>;

    fn encode(&self) -> (r: Result<String, String>)
        ensures
            r is Ok,
            r matches Ok(s) ==> Self::parse(s@) == Some(self@);

    fn decode(s: &str) -> (r: Result<Self, String>)
        ensures
            match Self::parse(s@) {
                Some(v) => r matches Ok(x) && x@ == v,
                None => r is Err,
            };
}

/// A primary table read as entities: `None` where a document is malformed.
pub open spec fn docs_view<T: Document>(m: Map<Seq<char>, Seq<char>>) -> Map<Seq<char>, Option<T::V>> {
    m.map_values(|s: Seq<char>| T::parse(s))
}

/// The ids of `ids` that have a document in `m`, each read as an entity.
pub open spec fn live_docs<T: Document>(m: Map<Seq<char>, Option<T::V>>, ids: Seq<Seq<char>>) -> Seq<T::V> {
    ids.filter(|k: Seq<char>| m.contains_key(k)).map_values(|k: Seq<char>| m[k]->Some_0)
}

/// Every id of `ids` that has a document in `m` has a well-formed one.
pub open spec fn all_readable<T: Document>(m: Map<Seq<char>, Option<T::V>>, ids: Seq<Seq<char>>) -> bool {
    forall|k: Seq<char>| ids.contains(k) && m.contains_key(k) ==> (#[trigger] m[k]) is Some
}

/// `m` holds a document under `k` that does not read as an entity.
pub open spec fn malformed_at<V>(m: Map<Seq<char>, Option<V>>, k: Seq<char>) -> bool {
    m.contains_key(k) && m[k] is None
}

/// The index `ix` holds a well-formed list under `key`, and each of its ids
/// that has a document in `docs` has a well-formed one.
pub open spec fn list_readable<T: Document>(docs: Map<Seq<char>, Option<T::V>>, ix: Map<Seq<char>, Option<Seq<Seq<char>>>>, key: Seq<char>) -> bool {
    ids_under(ix, key) is Some && all_readable::<T>(docs, ids_under(ix, key)->Some_0)
}

/// Reads the entity stored under `id`: `NotFound` where there is none,
/// `Serialization` where its document is malformed.
pub fn get_doc<T: Document>(snap: &Snapshot, table: &str, id: &str) -> (r: Result<T, DbError>)
    requires
        table@.len() > 0,
    ensures
        r matches Ok(x) ==> docs_view::<T>(snap.table(table@)).contains_key(id@)
            && docs_view::<T>(snap.table(table@))[id@] == Some(x@),
        r matches Err(e) ==> e is Storage
            || (e is NotFound && !docs_view::<T>(snap.table(table@)).contains_key(id@))
            || (e is Serialization && docs_view::<T>(snap.table(table@)).contains_key(id@)
                && docs_view::<T>(snap.table(table@))[id@] is None),
{
    match snap.fetch(table, id)? {
        None => Err(DbError::NotFound(id.to_owned())),
        Some(text) => match T::decode(&text) {
            Ok(x) => Ok(x),
            Err(msg) => Err(DbError::Serialization(msg)),
        },
    }
}

/// `o`'s value where it holds one, `keep` otherwise.
pub open spec fn or_keep<A>(o: Option<A>, keep: A) -> A {
    match o {
        Some(a) => a,
        None => keep,
    }
}

/// Reads the entities of `ids` in order of their names; ids without a
/// document are skipped, a malformed document is a `Serialization` error.
pub fn list_docs<T: Document>(snap: &Snapshot, table: &str, ids: &Vec<String>) -> (r: Result<Vec<T>, DbError>)
    requires
        table@.len() > 0,
    ensures
        r matches Ok(v) ==> sorted_by_name(v@)
            && views(v@).to_multiset() == live_docs::<T>(docs_view::<T>(snap.table(table@)), ids.deep_view()).to_multiset()
            && all_readable::<T>(docs_view::<T>(snap.table(table@)), ids.deep_view()),
        r matches Err(e) ==> e is Storage
            || (e is Serialization && !all_readable::<T>(docs_view::<T>(snap.table(table@)), ids.deep_view())),
{
    let ghost m = docs_view::<T>(snap.table(table@));
    let ghost idv = ids.deep_view();
    let mut found: Vec<T> = Vec::new();
    let mut i: usize = 0;
    while i < ids.len()
        invariant
            i <= ids.len(),
            table@.len() > 0,
            m == docs_view::<T>(snap.table(table@)),
            idv == ids.deep_view(),
            views(found@) == live_docs::<T>(m, idv.take(i as int)),
            all_readable::<T>(m, idv.take(i as int)),
        decreases ids.len() - i,
    {
        let ghost k = idv[i as int];
        proof {
            assert(idv.take(i + 1) =~= idv.take(i as int).push(k));
            idv.take(i as int).lemma_filter_push(k, |k: Seq<char>| m.contains_key(k));
        }
        match snap.fetch(table, ids[i].as_str())? {
            None => {
                assert(live_docs::<T>(m, idv.take(i + 1)) =~= live_docs::<T>(m, idv.take(i as int)));
            },
            Some(text) => match T::decode(&text) {
                Ok(x) => {
                    let ghost before = found@;
                    found.push(x);
                    assert(views(found@) =~= views(before).push(x@));
                    assert(live_docs::<T>(m, idv.take(i + 1)) =~= live_docs::<T>(m, idv.take(i as int)).push(m[k]->Some_0));
                },
                Err(msg) => {
                    assert(idv.contains(k));
                    return Err(DbError::Serialization(msg));
                },
            },
        }
        i += 1;
    }
    assert(idv.take(ids.len() as int) =~= idv);
    Ok(sort_by_name(found))
}

/// Some document of `m` reads as `x`.
pub open spec fn stored_somewhere<V>(m: Map<Seq<char>, Option<V>>, x: V) -> bool {
    exists|k: Seq<char>| #[trigger] m.contains_key(k) && m[k] == Some(x)
}

/// Reads every entity of the table, in order of their names.
pub fn scan_docs<T: Document>(txn: &redb::ReadTransaction, table: &str) -> (r: Result<Vec<T>, DbError>)
    requires
        table@.len() > 0,
    ensures
        r matches Ok(v) ==> sorted_by_name(v@)
            && (forall|i: int| 0 <= i < v.len() ==> stored_somewhere(docs_view::<T>(read_table(*txn, table@)), #[trigger] v@[i]@))
            && (forall|k: Seq<char>| #[trigger] docs_view::<T>(read_table(*txn, table@)).contains_key(k)
                ==> docs_view::<T>(read_table(*txn, table@))[k] is Some
                && views(v@).contains(docs_view::<T>(read_table(*txn, table@))[k]->Some_0)),
        r matches Err(e) ==> e is Storage || (e is Serialization && exists|k: Seq<char>|
            #[trigger] docs_view::<T>(read_table(*txn, table@)).contains_key(k) && docs_view::<T>(read_table(*txn, table@))[k] is None),
{
    let ghost m = read_table(*txn, table@);
    let entries = match read_entries(txn, table) {
        Ok(v) => v,
        Err(e) => return Err(DbError::Storage(e)),
    };
    let ghost ev = entries.deep_view();
    let mut found: Vec<T> = Vec::new();
    let mut i: usize = 0;
    while i < entries.len()
        invariant
            i <= entries.len(),
            ev == entries.deep_view(),
            m == read_table(*txn, table@),
            crate::engine::lists_entries(ev, m),
            found.len() == i,
            forall|j: int| 0 <= j < i ==> T::parse(ev[j].1) == Some(#[trigger] found@[j]@),
        decreases entries.len() - i,
    {
        match T::decode(entries[i].1.as_str()) {
            Ok(x) => found.push(x),
            Err(msg) => {
                assert(docs_view::<T>(m).contains_key(ev[i as int].0));
                return Err(DbError::Serialization(msg));
            },
        }
        i += 1;
    }
    let ghost unsorted = found@;
    let sorted = sort_by_name(found);
    proof {
        let dv = docs_view::<T>(m);
        assert forall|k: Seq<char>| #[trigger] dv.contains_key(k) implies dv[k] is Some && views(sorted@).contains(dv[k]->Some_0) by {
            let j = choose|j: int| 0 <= j < ev.len() && ev[j].0 == k;
            assert(views(unsorted)[j] == dv[k]->Some_0);
            assert(views(unsorted).to_multiset().count(dv[k]->Some_0) > 0);
        }
        assert forall|i: int| 0 <= i < sorted.len() implies stored_somewhere(dv, #[trigger] sorted@[i]@) by {
            assert(views(sorted@)[i] == sorted@[i]@);
            assert(views(sorted@).to_multiset().count(sorted@[i]@) > 0);
            assert(views(unsorted).contains(sorted@[i]@));
            let j = choose|j: int| 0 <= j < unsorted.len() && views(unsorted)[j] == sorted@[i]@;
            assert(views(unsorted)[j] == unsorted[j]@);
            assert(T::parse(ev[j].1) == Some(unsorted[j]@));
            assert(dv.contains_key(ev[j].0));
            assert(dv[ev[j].0] == Some(sorted@[i]@));
        }
    }
    Ok(sorted)
}

/// Stores `x` under `key`, replacing any earlier document.
pub fn put_doc<T: Document>(txn: &mut redb::WriteTransaction, table: &str, key: &str, x: &T) -> (r: Result<(), DbError>)
    requires
        table@.len() > 0,
    ensures
        r is Ok ==> docs_view::<T>(write_table(*final(txn), table@)) == docs_view::<T>(write_table(*old(txn), table@)).insert(key@, Some(x@)),
        r is Ok ==> forall|n: Seq<char>| n != table@ ==> #[trigger] write_table(*final(txn), n) == write_table(*old(txn), n),
        r matches Err(e) ==> e is Storage,
{
    let text = match x.encode() {
        Ok(t) => t,
        Err(msg) => return Err(DbError::Serialization(msg)),
    };
    match write_insert(txn, table, key, &text) {
        Ok(()) => {},
        Err(e) => return Err(DbError::Storage(e)),
    }
    assert(docs_view::<T>(write_table(*final(txn), table@)) =~= docs_view::<T>(write_table(*old(txn), table@)).insert(key@, Some(x@)));
    Ok(())
}

/// Removes the document stored under `id`, if any.
pub fn delete_doc<T: Document>(txn: &mut redb::WriteTransaction, table: &str, id: &str) -> (r: Result<(), DbError>)
    requires
        table@.len() > 0,
    ensures
        r is Ok ==> docs_view::<T>(write_table(*final(txn), table@)) == docs_view::<T>(write_table(*old(txn), table@)).remove(id@),
        r is Ok ==> forall|n: Seq<char>| n != table@ ==> #[trigger] write_table(*final(txn), n) == write_table(*old(txn), n),
        r matches Err(e) ==> e is Storage,
{
    match write_remove(txn, table, id) {
        Ok(()) => {},
        Err(e) => return Err(DbError::Storage(e)),
    }
    assert(docs_view::<T>(write_table(*final(txn), table@)) =~= docs_view::<T>(write_table(*old(txn), table@)).remove(id@));
    Ok(())
}

} // verus!
