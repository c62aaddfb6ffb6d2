//! Properties that hold across operations, stated over the transaction
//! models that the operations' contracts use.
use vstd::prelude::*;

use crate::collection::{collection_index_of, collections_of, new_collection, CollectionView, CreateCollectionInput};
use crate::document::live_docs;
use crate::engine::{write_table, COLLECTIONS_BY_WORKSPACE, REQUESTS_BY_WORKSPACE};
use crate::index::{ids_under, index_add, index_remove, index_view, other_than, without_id};
use crate::request::{new_request, reparented, requests_of, standalone, without_collection, CreateRequestInput, RequestView};
use crate::variable::{new_variable, variables_of, CreateVariableInput};
use crate::workspace::{
    groups_of, joined, leave_prior, lemma_relink_all_at, left, new_group, other_group, new_workspace, relink_all, relinked,
    workspaces_of, CreateSyncGroupInput, CreateWorkspaceInput, SyncGroupView, WorkspaceView,
};

verus! {

broadcast use vstd::seq_lib::group_seq_properties, vstd::seq_lib::group_filter_ensures;

/// Once `create_workspace_in` has stored a workspace made from `input` under
/// `id`, reading `id` gives back the input's fields.
pub proof fn law_workspace_round_trip(t0: redb::WriteTransaction, t1: redb::WriteTransaction, input: CreateWorkspaceInput, id: Seq<char>, now: i64, w: WorkspaceView)
    requires
        w == new_workspace(id, input, now),
        workspaces_of(t1) == workspaces_of(t0).insert(id, Some(w)),
    ensures
        workspaces_of(t1).contains_key(id),
        workspaces_of(t1)[id] matches Some(got) && got.id == id && got.name == input.name@
            && got.description == input.description@ && got.tags == input.tags.deep_view()
            && got.sync_group_id is None,
{
}

/// Once `create_sync_group_in` has stored a sync group made from `input`
/// under `id`, reading `id` gives back the input's fields.
pub proof fn law_sync_group_round_trip(t0: redb::WriteTransaction, t1: redb::WriteTransaction, input: CreateSyncGroupInput, id: Seq<char>, now: i64, g: SyncGroupView)
    requires
        g == new_group(id, input, now),
        groups_of(t1) == groups_of(t0).insert(id, Some(g)),
    ensures
        groups_of(t1).contains_key(id),
        groups_of(t1)[id] matches Some(got) && got.id == id && got.name == input.name@
            && got.workspace_ids == input.workspace_ids.deep_view()
            && got.synced_variable_names == input.synced_variable_names.deep_view()
            && got.sync_secrets == input.sync_secrets,
{
}

/// Once `create_collection_in` has stored a collection made from `input`
/// under `id`, reading `id` gives back the input's fields.
pub proof fn law_collection_round_trip(t0: redb::WriteTransaction, t1: redb::WriteTransaction, input: CreateCollectionInput, id: Seq<char>, now: i64, c: CollectionView)
    requires
        c == new_collection(id, input, now),
        collections_of(t1) == collections_of(t0).insert(id, Some(c)),
    ensures
        collections_of(t1).contains_key(id),
        collections_of(t1)[id] matches Some(got) && got.id == id && got.name == input.name@
            && got.description == input.description@ && got.workspace_id == input.workspace_id@,
{
}

/// Once `create_request_in` has stored a request made from `input` under
/// `id`, reading `id` gives back the input's fields.
pub proof fn law_request_round_trip(t0: redb::WriteTransaction, t1: redb::WriteTransaction, input: CreateRequestInput, id: Seq<char>, now: i64, q: RequestView)
    requires
        q == new_request(id, input, now),
        requests_of(t1) == requests_of(t0).insert(id, Some(q)),
    ensures
        requests_of(t1).contains_key(id),
        requests_of(t1)[id] == Some(new_request(id, input, now)),
{
}

/// Once `create_variable_in` has stored a variable made from `input` under
/// `id`, reading `id` gives back the input's fields.
pub proof fn law_variable_round_trip(t0: redb::WriteTransaction, t1: redb::WriteTransaction, input: CreateVariableInput, id: Seq<char>, now: i64, v: crate::variable::VariableView)
    requires
        v == new_variable(id, input, now),
        variables_of(t1) == variables_of(t0).insert(id, Some(v)),
    ensures
        variables_of(t1).contains_key(id),
        variables_of(t1)[id] == Some(new_variable(id, input, now)),
{
}

/// The list under `parent` names each live child of `parent` once, and
/// nothing else.
pub open spec fn children_indexed(colls: Map<Seq<char>, Option<CollectionView>>, ix: Map<Seq<char>, Option<Seq<Seq<char>>>>, parent: Seq<char>) -> bool {
    &&& ids_under(ix, parent) is Some
    &&& ids_under(ix, parent)->Some_0.no_duplicates()
    &&& forall|k: Seq<char>| #[trigger] ids_under(ix, parent)->Some_0.contains(k)
        <==> (colls.contains_key(k) && colls[k] is Some && colls[k]->Some_0.workspace_id == parent)
}

/// Creating a collection under a fresh id keeps the index of every workspace
/// consistent with the collections.
pub proof fn law_index_consistent_after_create(
    colls: Map<Seq<char>, Option<CollectionView>>,
    ix: Map<Seq<char>, Option<Seq<Seq<char>>>>,
    parent: Seq<char>,
    id: Seq<char>,
    c: CollectionView,
)
    requires
        children_indexed(colls, ix, parent),
        !colls.contains_key(id),
    ensures
        children_indexed(colls.insert(id, Some(c)), index_add(ix, c.workspace_id, id), parent),
{
    let l = ids_under(ix, parent)->Some_0;
    let colls2 = colls.insert(id, Some(c));
    let ix2 = index_add(ix, c.workspace_id, id);
    if c.workspace_id == parent {
        assert(!l.contains(id));
        assert(ids_under(ix2, parent)->Some_0 == l.push(id));
        assert forall|i: int, j: int| 0 <= i < j < l.push(id).len() implies l.push(id)[i] != l.push(id)[j] by {
            if j == l.len() {
                assert(l.contains(l[i]));
            }
        }
        assert forall|k: Seq<char>| #[trigger] ids_under(ix2, parent)->Some_0.contains(k)
            <==> (colls2.contains_key(k) && colls2[k] is Some && colls2[k]->Some_0.workspace_id == parent) by {
            if k != id {
                if l.push(id).contains(k) {
                    let j = choose|j: int| 0 <= j < l.push(id).len() && l.push(id)[j] == k;
                    assert(l[j] == k);
                }
            } else {
                assert(l.push(id)[l.len() as int] == id);
            }
        }
    } else {
        assert(ids_under(ix2, parent) == ids_under(ix, parent));
        assert forall|k: Seq<char>| #[trigger] ids_under(ix2, parent)->Some_0.contains(k)
            <==> (colls2.contains_key(k) && colls2[k] is Some && colls2[k]->Some_0.workspace_id == parent) by {
            if k == id {
                assert(!l.contains(id));
            }
        }
    }
}

/// Deleting a collection keeps the index of every workspace consistent with
/// the collections.
pub proof fn law_index_consistent_after_delete(
    colls: Map<Seq<char>, Option<CollectionView>>,
    ix: Map<Seq<char>, Option<Seq<Seq<char>>>>,
    parent: Seq<char>,
    id: Seq<char>,
    c: CollectionView,
)
    requires
        children_indexed(colls, ix, parent),
        colls.contains_key(id),
        colls[id] == Some(c),
        ids_under(ix, c.workspace_id) is Some,
    ensures
        children_indexed(colls.remove(id), index_remove(ix, c.workspace_id, id), parent),
{
    let l = ids_under(ix, parent)->Some_0;
    let colls2 = colls.remove(id);
    let ix2 = index_remove(ix, c.workspace_id, id);
    if c.workspace_id == parent {
        let l2 = without_id(l, id);
        assert(ids_under(ix2, parent)->Some_0 == l2);
        let pred = other_than(id);
        assert forall|k: Seq<char>| #[trigger] l2.contains(k) <==> (l.contains(k) && k != id) by {
            if l.contains(k) && k != id {
                let j = choose|j: int| 0 <= j < l.len() && l[j] == k;
                l.lemma_filter_contains(pred, j);
            }
            if l2.contains(k) {
                l.lemma_filter_contains_rev(pred, k);
                let j = choose|j: int| 0 <= j < l2.len() && l2[j] == k;
                l.lemma_filter_pred(pred, j);
            }
        }
        assert(l2.no_duplicates()) by {
            assert forall|i: int, j: int| 0 <= i < j < l2.len() implies l2[i] != l2[j] by {
                lemma_filter_no_duplicates(l, pred, i, j);
            }
        }
    } else {
        assert(ids_under(ix2, parent) == ids_under(ix, parent));
    }
}

proof fn lemma_filter_no_duplicates(s: Seq<Seq<char>>, pred: spec_fn(Seq<char>) -> bool, i: int, j: int)
    requires
        s.no_duplicates(),
        0 <= i < j < s.filter(pred).len(),
    ensures
        s.filter(pred)[i] != s.filter(pred)[j],
    decreases s.len(),
{
    reveal(Seq::filter);
    let rest = s.drop_last();
    assert(rest.no_duplicates());
    if pred(s.last()) {
        assert(s.filter(pred) == rest.filter(pred).push(s.last()));
        if j == rest.filter(pred).len() {
            assert(rest.filter(pred).contains(rest.filter(pred)[i]));
            rest.lemma_filter_contains_rev(pred, rest.filter(pred)[i]);
            let a = choose|a: int| 0 <= a < rest.len() && rest[a] == rest.filter(pred)[i];
            assert(s[a] == rest[a]);
            assert(s[s.len() - 1] == s.last());
        } else {
            lemma_filter_no_duplicates(rest, pred, i, j);
        }
    } else {
        assert(s.filter(pred) == rest.filter(pred));
        lemma_filter_no_duplicates(rest, pred, i, j);
    }
}

/// Where the index is consistent, listing the children of `parent` gives
/// exactly its live children.
pub proof fn law_listing_is_live_children(
    colls: Map<Seq<char>, Option<CollectionView>>,
    ix: Map<Seq<char>, Option<Seq<Seq<char>>>>,
    parent: Seq<char>,
    x: CollectionView,
)
    requires
        children_indexed(colls, ix, parent),
    ensures
        live_docs::<crate::collection::Collection>(colls, ids_under(ix, parent)->Some_0).contains(x)
            <==> exists|k: Seq<char>| #[trigger] colls.contains_key(k) && colls[k] == Some(x) && x.workspace_id == parent,
{
    let l = ids_under(ix, parent)->Some_0;
    let pred = |k: Seq<char>| colls.contains_key(k);
    let f = |k: Seq<char>| colls[k]->Some_0;
    assert(l.filter(pred) == l) by {
        assert forall|i: int| 0 <= i < l.len() implies pred(#[trigger] l[i]) by {
            assert(l.contains(l[i]));
        }
        lemma_filter_all(l, pred);
    }
    let live = l.filter(pred).map_values(f);
    if live.contains(x) {
        let i = choose|i: int| 0 <= i < live.len() && live[i] == x;
        assert(l.contains(l[i]));
        assert(colls.contains_key(l[i]));
    }
    if exists|k: Seq<char>| #[trigger] colls.contains_key(k) && colls[k] == Some(x) && x.workspace_id == parent {
        let k = choose|k: Seq<char>| #[trigger] colls.contains_key(k) && colls[k] == Some(x) && x.workspace_id == parent;
        assert(l.contains(k));
        let i = choose|i: int| 0 <= i < l.len() && l[i] == k;
        assert(live[i] == x);
    }
}

proof fn lemma_filter_all(s: Seq<Seq<char>>, pred: spec_fn(Seq<char>) -> bool)
    requires
        forall|i: int| 0 <= i < s.len() ==> pred(#[trigger] s[i]),
    ensures
        s.filter(pred) == s,
    decreases s.len(),
{
    reveal(Seq::filter);
    if s.len() > 0 {
        lemma_filter_all(s.drop_last(), pred);
        assert(s.drop_last().push(s.last()) =~= s);
    } else {
        assert(s.filter(pred) =~= s);
    }
}

/// Moving a request from collection `from` to a different collection `to`
/// takes it off the list of `from` and puts it on the list of `to`.
pub proof fn law_reparent(ix: Map<Seq<char>, Option<Seq<Seq<char>>>>, from: Seq<char>, to: Seq<char>, id: Seq<char>)
    requires
        from != to,
        ids_under(ix, from) is Some,
        ids_under(index_remove(ix, from, id), to) is Some,
    ensures
        !ids_under(reparented(ix, Some(from), Some(to), id), from)->Some_0.contains(id),
        ids_under(reparented(ix, Some(from), Some(to), id), to)->Some_0.contains(id),
{
    let pred = other_than(id);
    let l = ids_under(ix, from)->Some_0;
    if l.filter(pred).contains(id) {
        let i = choose|i: int| 0 <= i < l.filter(pred).len() && l.filter(pred)[i] == id;
        assert(pred(l.filter(pred)[i]));
    }
    let l2 = ids_under(index_remove(ix, from, id), to)->Some_0;
    if !l2.contains(id) {
        assert(l2.push(id)[l2.len() as int] == id);
    }
}

/// A request without a collection is listed by the standalone query exactly
/// where it is listed at all; one with a collection never is.
pub proof fn law_standalone_listing(v: Seq<RequestView>, q: RequestView)
    ensures
        q.collection_id is None ==> (standalone(v).contains(q) <==> v.contains(q)),
        q.collection_id is Some ==> !standalone(v).contains(q),
{
    let pred = without_collection();
    if standalone(v).contains(q) {
        let i = choose|i: int| 0 <= i < standalone(v).len() && standalone(v)[i] == q;
        assert(pred(standalone(v)[i]));
        v.lemma_filter_contains_rev(pred, q);
    }
    if q.collection_id is None && v.contains(q) {
        let i = choose|i: int| 0 <= i < v.len() && v[i] == q;
        v.lemma_filter_contains(pred, i);
    }
}

/// After `add_workspace_to_sync_group_in(g, w)`, the workspace names the
/// group, the group lists the workspace, and a group the workspace belonged
/// to before no longer lists it.
pub proof fn law_add_to_sync_group_links_both(t0: redb::WriteTransaction, t1: redb::WriteTransaction, g: Seq<char>, w: Seq<char>, now: i64)
    requires
        groups_of(t0).contains_key(g) && groups_of(t0)[g] is Some,
        workspaces_of(t0).contains_key(w) && workspaces_of(t0)[w] is Some,
        groups_of(t1) == leave_prior(groups_of(t0), other_group(workspaces_of(t0)[w]->Some_0, g), w, now)
            .insert(g, Some(joined(groups_of(t0)[g]->Some_0, w, now))),
        workspaces_of(t1) == workspaces_of(t0).insert(w, Some(relinked(workspaces_of(t0)[w]->Some_0, Some(g), now))),
    ensures
        workspaces_of(t1)[w]->Some_0.sync_group_id == Some(g),
        groups_of(t1)[g]->Some_0.workspace_ids.contains(w),
        forall|g0: Seq<char>| g0 != g && #[trigger] groups_of(t1).contains_key(g0) && groups_of(t1)[g0] is Some
            && workspaces_of(t0)[w]->Some_0.sync_group_id == Some(g0)
            ==> !groups_of(t1)[g0]->Some_0.workspace_ids.contains(w),
{
    let ids = groups_of(t0)[g]->Some_0.workspace_ids;
    if !ids.contains(w) {
        assert(ids.push(w)[ids.len() as int] == w);
    }
    assert forall|g0: Seq<char>| g0 != g && #[trigger] groups_of(t1).contains_key(g0) && groups_of(t1)[g0] is Some
        && workspaces_of(t0)[w]->Some_0.sync_group_id == Some(g0)
        implies !groups_of(t1)[g0]->Some_0.workspace_ids.contains(w) by {
        lemma_without_lacks(groups_of(t0)[g0]->Some_0.workspace_ids, w);
    }
}

proof fn lemma_without_lacks(ids: Seq<Seq<char>>, w: Seq<char>)
    ensures
        !without_id(ids, w).contains(w),
{
    let pred = other_than(w);
    if without_id(ids, w).contains(w) {
        let i = choose|i: int| 0 <= i < without_id(ids, w).len() && without_id(ids, w)[i] == w;
        assert(pred(without_id(ids, w)[i]));
    }
}

/// After `remove_workspace_from_sync_group_in(g, w)`, the workspace names no
/// group and the group no longer lists the workspace.
pub proof fn law_remove_from_sync_group_unlinks_both(t0: redb::WriteTransaction, t1: redb::WriteTransaction, g: Seq<char>, w: Seq<char>, now: i64)
    requires
        groups_of(t0).contains_key(g) && groups_of(t0)[g] is Some,
        workspaces_of(t0).contains_key(w) && workspaces_of(t0)[w] is Some,
        groups_of(t1) == groups_of(t0).insert(g, Some(left(groups_of(t0)[g]->Some_0, w, now))),
        workspaces_of(t1) == workspaces_of(t0).insert(w, Some(relinked(workspaces_of(t0)[w]->Some_0, None, now))),
    ensures
        workspaces_of(t1)[w]->Some_0.sync_group_id is None,
        !groups_of(t1)[g]->Some_0.workspace_ids.contains(w),
{
    lemma_without_lacks(groups_of(t0)[g]->Some_0.workspace_ids, w);
}

/// Deleting a workspace removes it and the collection and request lists kept
/// under it, takes it out of its sync group's member list, and leaves every
/// collection and request document as it was.
pub proof fn law_delete_workspace_cascade(t0: redb::WriteTransaction, t1: redb::WriteTransaction, w: Seq<char>, now: i64)
    requires
        workspaces_of(t0).contains_key(w) && workspaces_of(t0)[w] is Some,
        workspaces_of(t1) == workspaces_of(t0).remove(w),
        groups_of(t1) == leave_prior(groups_of(t0), workspaces_of(t0)[w]->Some_0.sync_group_id, w, now),
        index_view(write_table(t1, COLLECTIONS_BY_WORKSPACE@)) == index_view(write_table(t0, COLLECTIONS_BY_WORKSPACE@)).remove(w),
        index_view(write_table(t1, REQUESTS_BY_WORKSPACE@)) == index_view(write_table(t0, REQUESTS_BY_WORKSPACE@)).remove(w),
        collections_of(t1) == collections_of(t0),
        requests_of(t1) == requests_of(t0),
    ensures
        !workspaces_of(t1).contains_key(w),
        ids_under(collection_index_of(t1), w) == Some(Seq::<Seq<char>>::empty()),
        ids_under(index_view(write_table(t1, REQUESTS_BY_WORKSPACE@)), w) == Some(Seq::<Seq<char>>::empty()),
        collections_of(t1) == collections_of(t0),
        requests_of(t1) == requests_of(t0),
        workspaces_of(t0)[w]->Some_0.sync_group_id matches Some(g) ==> (groups_of(t1).contains_key(g) && groups_of(t1)[g] is Some
            ==> !groups_of(t1)[g]->Some_0.workspace_ids.contains(w)),
{
    if let Some(g) = workspaces_of(t0)[w]->Some_0.sync_group_id {
        if groups_of(t0).contains_key(g) && groups_of(t0)[g] is Some {
            lemma_without_lacks(groups_of(t0)[g]->Some_0.workspace_ids, w);
        }
    }
}

/// Deleting a sync group clears the group of every workspace it listed.
pub proof fn law_delete_sync_group_clears_members(t0: redb::WriteTransaction, t1: redb::WriteTransaction, g: Seq<char>, w: Seq<char>, now: i64)
    requires
        groups_of(t0).contains_key(g) && groups_of(t0)[g] is Some,
        groups_of(t0)[g]->Some_0.workspace_ids.contains(w),
        workspaces_of(t0).contains_key(w) && workspaces_of(t0)[w] is Some,
        workspaces_of(t1) == relink_all(workspaces_of(t0), groups_of(t0)[g]->Some_0.workspace_ids, None, now),
    ensures
        workspaces_of(t1).contains_key(w),
        workspaces_of(t1)[w]->Some_0.sync_group_id is None,
{
    lemma_relink_all_at(workspaces_of(t0), groups_of(t0)[g]->Some_0.workspace_ids, None, now, w);
}

} // verus!
