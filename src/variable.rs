//! Variables, each defined at one scope, and their resolution across the
//! global, workspace, collection and request scopes.
use vstd::prelude::*;
use vstd::multiset::Multiset;
use vstd::string::StringExecFns;

use crate::codec::{decode_variable, encode_variable, new_id, now_millis, variable_record_parse};
use crate::db::Database;
use crate::document::{
    delete_doc, docs_view, get_doc, list_docs, list_readable, live_docs, malformed_at, or_keep, put_doc, Document,
};
use crate::engine::{lemma_table_names_distinct, same_except, write_table, Snapshot, VARIABLES, VARIABLES_BY_SCOPE};
use crate::error::{DbError, DbResult};
use crate::index::{add_to_index, ids_under, index_add, index_remove, index_view, load_ids, remove_from_index};
use crate::order::{sort_by_name, sorted_by_name, views, Named};

verus! {

broadcast use vstd::seq_lib::group_to_multiset_ensures, vstd::multiset::group_multiset_axioms;

#[derive(Clone, Copy, Debug, PartialEq, Eq, Structural)]
pub enum VariableScope {
    Global,
    Workspace,
    Collection,
    Request,
}

impl Default for VariableScope {
    fn default() -> (r: VariableScope)
        ensures
            r == VariableScope::Global,
    {
        VariableScope::Global
    }
}

/// The number a scope is stored as.
pub open spec fn scope_code(s: VariableScope) -> u8 {
    match s {
        VariableScope::Global => 0,
        VariableScope::Workspace => 1,
        VariableScope::Collection => 2,
        VariableScope::Request => 3,
    }
}

/// The scope stored as number `c` (for `c` up to 3).
pub open spec fn scope_of_code(c: u8) -> VariableScope {
    if c == 0 {
        VariableScope::Global
    } else if c == 1 {
        VariableScope::Workspace
    } else if c == 2 {
        VariableScope::Collection
    } else {
        VariableScope::Request
    }
}

/// The grouping key of the variables of a scope: `global`, or the scope's
/// name and the id of the owner, joined by a colon.
pub open spec fn scope_key_of(scope: VariableScope, owner: Seq<char>) -> Seq<char> {
    match scope {
        VariableScope::Global => "global"@,
        VariableScope::Workspace => "workspace:"@ + owner,
        VariableScope::Collection => "collection:"@ + owner,
        VariableScope::Request => "request:"@ + owner,
    }
}

impl VariableScope {
    pub fn code(self) -> (r: u8)
        ensures
            r == scope_code(self),
    {
        match self {
            VariableScope::Global => 0,
            VariableScope::Workspace => 1,
            VariableScope::Collection => 2,
            VariableScope::Request => 3,
        }
    }

    pub fn from_code(c: u8) -> (r: Option<VariableScope>)
        ensures
            r matches Some(s) ==> s == scope_of_code(c),
            r is None <==> c > 3,
    {
        match c {
            0 => Some(VariableScope::Global),
            1 => Some(VariableScope::Workspace),
            2 => Some(VariableScope::Collection),
            3 => Some(VariableScope::Request),
            _ => None,
        }
    }

    /// The grouping key of this scope for the owner with id `owner`.
    pub fn key_for(self, owner: &str) -> (r: String)
        ensures
            r@ == scope_key_of(self, owner@),
    {
        match self {
            VariableScope::Global => String::from_str("global"),
            VariableScope::Workspace => String::from_str("workspace:").concat(owner),
            VariableScope::Collection => String::from_str("collection:").concat(owner),
            VariableScope::Request => String::from_str("request:").concat(owner),
        }
    }
}

#[derive(Debug)]
pub struct Variable {
    pub id: String,
    pub name: String,
    pub value: String,
    pub scope: VariableScope,
    /// The id of the owner; absent for the global scope.
    pub scope_id: Option<String>,
    pub is_secret: bool,
    pub description: Option<String>,
    /// Milliseconds since the Unix epoch.
    pub created_at: i64,
    /// Milliseconds since the Unix epoch.
    pub updated_at: i64,
}

pub struct VariableView {
    pub id: Seq<char>,
    pub name: Seq<char>,
    pub value: Seq<char>,
    pub scope: VariableScope,
    pub scope_id: Option<Seq<char>>,
    pub is_secret: bool,
    pub description: Option<Seq<char>>,
    pub created_at: i64,
    pub updated_at: i64,
}

impl View for Variable {
    type V = VariableView;

    open spec fn view(&self) -> VariableView {
        VariableView {
            id: self.id@,
            name: self.name@,
            value: self.value@,
            scope: self.scope,
            scope_id: self.scope_id.deep_view(),
            is_secret: self.is_secret,
            description: self.description.deep_view(),
            created_at: self.created_at,
            updated_at: self.updated_at,
        }
    }
}

/// The grouping key of a variable; a missing owner id reads as empty.
pub open spec fn variable_key(v: VariableView) -> Seq<char> {
    scope_key_of(v.scope, or_keep(v.scope_id, Seq::empty()))
}

impl Variable {
    /// The grouping key under which the scope index lists this variable.
    pub fn scope_key(&self) -> (r: String)
        ensures
            r@ == variable_key(self@),
    {
        proof {
            reveal_strlit("");
        }
        match &self.scope_id {
            Some(owner) => self.scope.key_for(owner.as_str()),
            None => self.scope.key_for(""),
        }
    }
}

/// A variable as its document stores it: the scope as a number.
pub struct VariableRecord {
    pub id: String,
    pub name: String,
    pub value: String,
    pub scope: u8,
    pub scope_id: Option<String>,
    pub is_secret: bool,
    pub description: Option<String>,
    pub created_at: i64,
    pub updated_at: i64,
}

pub struct VariableRecordView {
    pub id: Seq<char>,
    pub name: Seq<char>,
    pub value: Seq<char>,
    pub scope: u8,
    pub scope_id: Option<Seq<char>>,
    pub is_secret: bool,
    pub description: Option<Seq<char>>,
    pub created_at: i64,
    pub updated_at: i64,
}

impl View for VariableRecord {
    type V = VariableRecordView;

    open spec fn view(&self) -> VariableRecordView {
        VariableRecordView {
            id: self.id@,
            name: self.name@,
            value: self.value@,
            scope: self.scope,
            scope_id: self.scope_id.deep_view(),
            is_secret: self.is_secret,
            description: self.description.deep_view(),
            created_at: self.created_at,
            updated_at: self.updated_at,
        }
    }
}

/// The record a variable is stored as.
pub open spec fn variable_record_of(v: VariableView) -> VariableRecordView {
    VariableRecordView {
        id: v.id,
        name: v.name,
        value: v.value,
        scope: scope_code(v.scope),
        scope_id: v.scope_id,
        is_secret: v.is_secret,
        description: v.description,
        created_at: v.created_at,
        updated_at: v.updated_at,
    }
}

/// The variable a record stands for, `None` where the scope is out of range.
pub open spec fn variable_of_record(r: VariableRecordView) -> Option<VariableView> {
    if r.scope <= 3 {
        Some(VariableView {
            id: r.id,
            name: r.name,
            value: r.value,
            scope: scope_of_code(r.scope),
            scope_id: r.scope_id,
            is_secret: r.is_secret,
            description: r.description,
            created_at: r.created_at,
            updated_at: r.updated_at,
        })
    } else {
        None
    }
}

impl Named for Variable {
    open spec fn name_view(&self) -> Seq<char> {
        self.name@
    }

    fn name_str(&self) -> (r: &str) {
        self.name.as_str()
    }
}

impl Document for Variable {
    open spec fn parse(s: Seq<char>) -> Option<VariableView> {
        match variable_record_parse(s) {
            Some(r) => variable_of_record(r),
            None => None,
        }
    }

    fn encode(&self) -> (r: Result<String, String>) {
        assert(scope_of_code(scope_code(self.scope)) == self.scope);
        encode_variable(self, self.scope.code())
    }

    fn decode(s: &str) -> (r: Result<Variable, String>) {
        let rec = decode_variable(s)?;
        match VariableScope::from_code(rec.scope) {
            Some(scope) => Ok(Variable {
                id: rec.id,
                name: rec.name,
                value: rec.value,
                scope,
                scope_id: rec.scope_id,
                is_secret: rec.is_secret,
                description: rec.description,
                created_at: rec.created_at,
                updated_at: rec.updated_at,
            }),
            None => Err(String::from_str("unknown scope number")),
        }
    }
}

pub struct CreateVariableInput {
    pub name: String,
    pub value: String,
    pub scope: VariableScope,
    pub scope_id: Option<String>,
    pub is_secret: bool,
    pub description: Option<String>,
}

pub struct UpdateVariableInput {
    pub id: String,
    pub name: Option<String>,
    pub value: Option<String>,
    pub is_secret: Option<bool>,
    pub description: Option<String>,
}

/// A variable as resolution hands it out.
#[derive(Debug)]
pub struct ResolvedVariable {
    pub name: String,
    pub value: String,
    pub scope: VariableScope,
    pub is_secret: bool,
}

pub struct ResolvedView {
    pub name: Seq<char>,
    pub value: Seq<char>,
    pub scope: VariableScope,
    pub is_secret: bool,
}

impl View for ResolvedVariable {
    type V = ResolvedView;

    open spec fn view(&self) -> ResolvedView {
        ResolvedView { name: self.name@, value: self.value@, scope: self.scope, is_secret: self.is_secret }
    }
}

impl Named for ResolvedVariable {
    open spec fn name_view(&self) -> Seq<char> {
        self.name@
    }

    fn name_str(&self) -> (r: &str) {
        self.name.as_str()
    }
}

/// The variables of a write transaction.
pub open spec fn variables_of(t: redb::WriteTransaction) -> Map<Seq<char>, Option<VariableView>> {
    docs_view::<Variable>(write_table(t, VARIABLES@))
}

/// The variable-by-scope index of a write transaction.
pub open spec fn scope_index_of(t: redb::WriteTransaction) -> Map<Seq<char>, Option<Seq<Seq<char>>>> {
    index_view(write_table(t, VARIABLES_BY_SCOPE@))
}

/// A new variable made from `input`.
pub open spec fn new_variable(id: Seq<char>, input: CreateVariableInput, now: i64) -> VariableView {
    VariableView {
        id,
        name: input.name@,
        value: input.value@,
        scope: input.scope,
        scope_id: input.scope_id.deep_view(),
        is_secret: input.is_secret,
        description: input.description.deep_view(),
        created_at: now,
        updated_at: now,
    }
}

/// `v` with the fields that `input` supplies.
pub open spec fn updated_variable(v: VariableView, input: UpdateVariableInput, now: i64) -> VariableView {
    VariableView {
        id: input.id@,
        name: or_keep(input.name.deep_view(), v.name),
        value: or_keep(input.value.deep_view(), v.value),
        is_secret: or_keep(input.is_secret, v.is_secret),
        description: if input.description is Some { input.description.deep_view() } else { v.description },
        updated_at: now,
        ..v
    }
}

/// What resolution keeps of a variable.
pub open spec fn resolved_of(v: VariableView) -> ResolvedView {
    ResolvedView { name: v.name, value: v.value, scope: v.scope, is_secret: v.is_secret }
}

/// `m` after each variable of `vars`, in order, sets the entry of its name.
pub open spec fn overlay(m: Map<Seq<char>, ResolvedView>, vars: Seq<VariableView>) -> Map<Seq<char>, ResolvedView>
    decreases vars.len(),
{
    if vars.len() == 0 {
        m
    } else {
        overlay(m, vars.drop_last()).insert(vars.last().name, resolved_of(vars.last()))
    }
}

/// The name-to-variable mapping of four scope layers, each overriding the
/// ones before it: global, workspace, collection, request.
pub open spec fn resolution(global: Seq<VariableView>, workspace: Seq<VariableView>, collection: Seq<VariableView>, request: Seq<VariableView>) -> Map<Seq<char>, ResolvedView> {
    overlay(overlay(overlay(overlay(Map::empty(), global), workspace), collection), request)
}

/// `v` lists the entries of `m`, each once.
pub open spec fn lists_mapping(v: Seq<ResolvedView>, m: Map<Seq<char>, ResolvedView>) -> bool {
    &&& forall|i: int| 0 <= i < v.len() ==> m.contains_key(#[trigger] v[i].name) && m[v[i].name] == v[i]
    &&& forall|k: Seq<char>| #[trigger] m.contains_key(k) ==> exists|i: int| 0 <= i < v.len() && v[i].name == k
    &&& forall|i: int, j: int| 0 <= i < j < v.len() ==> (#[trigger] v[i]).name != (#[trigger] v[j]).name
}

fn copy_opt(o: &Option<String>) -> (r: Option<String>)
    ensures
        r.deep_view() == o.deep_view(),
{
    match o {
        Some(s) => Some(s.clone()),
        None => None,
    }
}

/// Sets the entry of `var`'s name in the mapping that `out` lists.
fn overlay_one(out: &mut Vec<ResolvedVariable>, var: &Variable, Ghost(m): Ghost<Map<Seq<char>, ResolvedView>>)
    requires
        lists_mapping(views(old(out)@), m),
    ensures
        lists_mapping(views(final(out)@), m.insert(var.name@, resolved_of(var@))),
{
    let item = ResolvedVariable { name: var.name.clone(), value: var.value.clone(), scope: var.scope, is_secret: var.is_secret };
    let mut i: usize = 0;
    while i < out.len()
        invariant
            i <= out.len(),
            out@ == old(out)@,
            lists_mapping(views(old(out)@), m),
            item@ == resolved_of(var@),
            forall|j: int| 0 <= j < i ==> (#[trigger] views(out@)[j]).name != var.name@,
        decreases out.len() - i,
    {
        if out[i].name == var.name {
            let ghost before = views(out@);
            out.set(i, item);
            assert(views(out@) =~= before.update(i as int, resolved_of(var@)));
            let ghost nm = m.insert(var.name@, resolved_of(var@));
            assert forall|k: Seq<char>| #[trigger] nm.contains_key(k) implies exists|j: int| 0 <= j < views(out@).len() && views(out@)[j].name == k by {
                if k != var.name@ {
                    assert(m.contains_key(k));
                    let j = choose|j: int| 0 <= j < before.len() && before[j].name == k;
                    assert(views(out@)[j].name == k);
                } else {
                    assert(views(out@)[i as int].name == k);
                }
            }
            assert(before[i as int].name == var.name@);
            assert forall|a: int| 0 <= a < views(out@).len() implies nm.contains_key(#[trigger] views(out@)[a].name) && nm[views(out@)[a].name] == views(out@)[a] by {
                if a != i {
                    assert(before[a].name != before[i as int].name);
                }
            }
            assert forall|a: int, b: int| 0 <= a < b < views(out@).len() implies (#[trigger] views(out@)[a]).name != (#[trigger] views(out@)[b]).name by {
                assert(before[a].name != before[b].name);
            }
            return;
        }
        i += 1;
    }
    let ghost before = views(out@);
    out.push(item);
    assert(views(out@) =~= before.push(resolved_of(var@)));
    let ghost nm = m.insert(var.name@, resolved_of(var@));
    assert forall|k: Seq<char>| #[trigger] nm.contains_key(k) implies exists|j: int| 0 <= j < views(out@).len() && views(out@)[j].name == k by {
        if k != var.name@ {
            assert(m.contains_key(k));
            let j = choose|j: int| 0 <= j < before.len() && before[j].name == k;
            assert(views(out@)[j].name == k);
        } else {
            assert(views(out@)[before.len() as int].name == k);
        }
    }
}

/// Sets, in order, the entry of each variable of `vars`.
fn overlay_all(out: &mut Vec<ResolvedVariable>, vars: &Vec<Variable>, Ghost(m): Ghost<Map<Seq<char>, ResolvedView>>)
    requires
        lists_mapping(views(old(out)@), m),
    ensures
        lists_mapping(views(final(out)@), overlay(m, views(vars@))),
{
    let mut i: usize = 0;
    while i < vars.len()
        invariant
            i <= vars.len(),
            lists_mapping(views(out@), overlay(m, views(vars@).take(i as int))),
        decreases vars.len() - i,
    {
        assert(views(vars@).take(i + 1).drop_last() =~= views(vars@).take(i as int));
        overlay_one(out, &vars[i], Ghost(overlay(m, views(vars@).take(i as int))));
        i += 1;
    }
    assert(views(vars@).take(vars.len() as int) =~= views(vars@));
}

/// Merges four scope layers, each overriding the ones before it by variable
/// name, and lists the outcome in order of names.
pub fn resolve_layers(global: &Vec<Variable>, workspace: &Vec<Variable>, collection: &Vec<Variable>, request: &Vec<Variable>) -> (r: Vec<ResolvedVariable>)
    ensures
        sorted_by_name(r@),
        lists_mapping(views(r@), resolution(views(global@), views(workspace@), views(collection@), views(request@))),
{
    let mut out: Vec<ResolvedVariable> = Vec::new();
    let ghost m0 = Map::<Seq<char>, ResolvedView>::empty();
    assert(views(out@) =~= Seq::<ResolvedView>::empty());
    overlay_all(&mut out, global, Ghost(m0));
    let ghost m1 = overlay(m0, views(global@));
    overlay_all(&mut out, workspace, Ghost(m1));
    let ghost m2 = overlay(m1, views(workspace@));
    overlay_all(&mut out, collection, Ghost(m2));
    let ghost m3 = overlay(m2, views(collection@));
    overlay_all(&mut out, request, Ghost(m3));
    let ghost m4 = overlay(m3, views(request@));
    let ghost unsorted = views(out@);
    let sorted = sort_by_name(out);
    proof {
        let s = views(sorted@);
        assert forall|i: int| 0 <= i < s.len() implies m4.contains_key(#[trigger] s[i].name) && m4[s[i].name] == s[i] by {
            assert(s.to_multiset().count(s[i]) > 0);
            assert(unsorted.contains(s[i]));
        }
        assert forall|k: Seq<char>| #[trigger] m4.contains_key(k) implies exists|i: int| 0 <= i < s.len() && s[i].name == k by {
            let j = choose|j: int| 0 <= j < unsorted.len() && unsorted[j].name == k;
            assert(unsorted.to_multiset().count(unsorted[j]) > 0);
            assert(s.contains(unsorted[j]));
        }
        assert forall|i: int, j: int| 0 <= i < j < s.len() implies (#[trigger] s[i]).name != (#[trigger] s[j]).name by {
            if s[i].name == s[j].name {
                assert(s.to_multiset().count(s[i]) > 0);
                assert(unsorted.contains(s[i]));
                assert(s[i] == m4[s[i].name]);
                assert(s[j] == m4[s[j].name]);
                assert(s.to_multiset().count(s[i]) >= 2) by {
                    assert(s[i] == s[j]);
                    assert(s.remove(j).to_multiset() == s.to_multiset().remove(s[j]));
                    assert(s.remove(j)[i] == s[i]);
                    assert(s.remove(j).to_multiset().count(s[i]) > 0);
                }
                let a = choose|a: int| 0 <= a < unsorted.len() && unsorted[a] == s[i];
                assert(unsorted.remove(a).to_multiset() == unsorted.to_multiset().remove(unsorted[a]));
                assert(unsorted.remove(a).to_multiset().count(s[i]) > 0);
                assert(unsorted.remove(a).contains(s[i]));
                let b = choose|b: int| 0 <= b < unsorted.remove(a).len() && unsorted.remove(a)[b] == s[i];
                let bb = if b < a { b } else { b + 1 };
                assert(unsorted[bb] == s[i]);
                assert(bb != a);
            }
        }
    }
    sorted
}

/// The variables that the scope index lists under `key` in snapshot tables
/// `docs` and `index`, ids without a document skipped.
pub open spec fn listed_under(docs: Map<Seq<char>, Seq<char>>, index: Map<Seq<char>, Seq<char>>, key: Seq<char>) -> Multiset<VariableView> {
    live_docs::<Variable>(docs_view::<Variable>(docs), ids_under(index_view(index), key)->Some_0).to_multiset()
}

/// A layer of resolution: the variables listed under the owner's key, or
/// none where no owner is given.
pub open spec fn layer_matches(layer: Seq<VariableView>, docs: Map<Seq<char>, Seq<char>>, index: Map<Seq<char>, Seq<char>>, scope: VariableScope, owner: Option<Seq<char>>) -> bool {
    match owner {
        Some(o) => layer.to_multiset() == listed_under(docs, index, scope_key_of(scope, o)),
        None => layer == Seq::<VariableView>::empty(),
    }
}

/// The scope index holds a well-formed list under `key`, and each listed
/// variable that has a document has a well-formed one.
pub open spec fn scope_readable(docs: Map<Seq<char>, Seq<char>>, index: Map<Seq<char>, Seq<char>>, key: Seq<char>) -> bool {
    list_readable::<Variable>(docs_view::<Variable>(docs), index_view(index), key)
}

/// A layer that is read: always where an owner is given.
pub open spec fn layer_readable(docs: Map<Seq<char>, Seq<char>>, index: Map<Seq<char>, Seq<char>>, scope: VariableScope, owner: Option<Seq<char>>) -> bool {
    match owner {
        Some(o) => scope_readable(docs, index, scope_key_of(scope, o)),
        None => true,
    }
}

/// A variable of a scope other than global must name its owner.
pub open spec fn lacks_owner(scope: VariableScope, scope_id: Option<Seq<char>>) -> bool {
    scope != VariableScope::Global && scope_id is None
}

/// Rejects a variable of a scope other than global without an owner id.
pub fn check_scope(scope: VariableScope, scope_id: &Option<String>) -> (r: DbResult<()>)
    ensures
        r is Ok <==> !lacks_owner(scope, scope_id.deep_view()),
        r matches Err(e) ==> e is InvalidInput,
{
    match (scope, scope_id) {
        (VariableScope::Global, _) => Ok(()),
        (_, Some(_)) => Ok(()),
        (_, None) => Err(DbError::InvalidInput(String::from_str("a variable of this scope needs a scope id"))),
    }
}

/// Reads the variable stored under `id`.
pub fn get_variable_in(snap: &Snapshot, id: &str) -> (r: DbResult<Variable>)
    ensures
        r matches Ok(v) ==> docs_view::<Variable>(snap.table(VARIABLES@)).contains_key(id@)
            && docs_view::<Variable>(snap.table(VARIABLES@))[id@] == Some(v@),
        r matches Err(e) ==> e is Storage
            || (e is NotFound && !docs_view::<Variable>(snap.table(VARIABLES@)).contains_key(id@))
            || (e is Serialization && docs_view::<Variable>(snap.table(VARIABLES@)).contains_key(id@)
                && docs_view::<Variable>(snap.table(VARIABLES@))[id@] is None),
{
    proof { lemma_table_names_distinct(); }
    get_doc::<Variable>(snap, VARIABLES, id)
}

/// The variables that the scope index lists under `key`, in order of their
/// names; ids without a variable are skipped.
pub fn get_variables_by_scope_key_in(snap: &Snapshot, key: &str) -> (r: DbResult<Vec<Variable>>)
    ensures
        r matches Ok(v) ==> scope_readable(snap.table(VARIABLES@), snap.table(VARIABLES_BY_SCOPE@), key@)
            && sorted_by_name(v@)
            && views(v@).to_multiset() == listed_under(snap.table(VARIABLES@), snap.table(VARIABLES_BY_SCOPE@), key@),
        r matches Err(e) ==> e is Storage
            || (e is Serialization && !scope_readable(snap.table(VARIABLES@), snap.table(VARIABLES_BY_SCOPE@), key@)),
{
    proof { lemma_table_names_distinct(); }
    let ids = load_ids(snap, VARIABLES_BY_SCOPE, key)?;
    list_docs::<Variable>(snap, VARIABLES, &ids)
}

/// The layer of `scope` for the owner `owner`, empty where none is given.
fn layer_for(snap: &Snapshot, scope: VariableScope, owner: Option<&str>) -> (r: DbResult<Vec<Variable>>)
    ensures
        r matches Ok(v) ==> layer_matches(views(v@), snap.table(VARIABLES@), snap.table(VARIABLES_BY_SCOPE@), scope, crate::workspace::opt_view(owner))
            && layer_readable(snap.table(VARIABLES@), snap.table(VARIABLES_BY_SCOPE@), scope, crate::workspace::opt_view(owner)),
        r matches Err(e) ==> e is Storage
            || (e is Serialization && !layer_readable(snap.table(VARIABLES@), snap.table(VARIABLES_BY_SCOPE@), scope, crate::workspace::opt_view(owner))),
{
    match owner {
        Some(o) => {
            let key = scope.key_for(o);
            get_variables_by_scope_key_in(snap, key.as_str())
        },
        None => {
            let v: Vec<Variable> = Vec::new();
            assert(views(v@) =~= Seq::<VariableView>::empty());
            Ok(v)
        },
    }
}

/// Resolves the variables visible from the given owners: the global ones,
/// then those of the workspace, the collection and the request where given,
/// each layer overriding the earlier ones by name; in order of names, each
/// name once.
pub fn get_resolved_in(snap: &Snapshot, workspace_id: Option<&str>, collection_id: Option<&str>, request_id: Option<&str>) -> (r: DbResult<Vec<ResolvedVariable>>)
    ensures
        r matches Ok(v) ==> sorted_by_name(v@) && exists|g: Seq<VariableView>, w: Seq<VariableView>, c: Seq<VariableView>, q: Seq<VariableView>|
            g.to_multiset() == listed_under(snap.table(VARIABLES@), snap.table(VARIABLES_BY_SCOPE@), "global"@)
            && layer_matches(w, snap.table(VARIABLES@), snap.table(VARIABLES_BY_SCOPE@), VariableScope::Workspace, crate::workspace::opt_view(workspace_id))
            && layer_matches(c, snap.table(VARIABLES@), snap.table(VARIABLES_BY_SCOPE@), VariableScope::Collection, crate::workspace::opt_view(collection_id))
            && layer_matches(q, snap.table(VARIABLES@), snap.table(VARIABLES_BY_SCOPE@), VariableScope::Request, crate::workspace::opt_view(request_id))
            && lists_mapping(views(v@), #[trigger] resolution(g, w, c, q)),
        r matches Ok(v) ==> forall|i: int, j: int| 0 <= i < j < v.len() ==> (#[trigger] v@[i]).name@ != (#[trigger] v@[j]).name@,
        r matches Err(e) ==> e is Storage || (e is Serialization && !(
            scope_readable(snap.table(VARIABLES@), snap.table(VARIABLES_BY_SCOPE@), "global"@)
            && layer_readable(snap.table(VARIABLES@), snap.table(VARIABLES_BY_SCOPE@), VariableScope::Workspace, crate::workspace::opt_view(workspace_id))
            && layer_readable(snap.table(VARIABLES@), snap.table(VARIABLES_BY_SCOPE@), VariableScope::Collection, crate::workspace::opt_view(collection_id))
            && layer_readable(snap.table(VARIABLES@), snap.table(VARIABLES_BY_SCOPE@), VariableScope::Request, crate::workspace::opt_view(request_id)))),
{
    let global_key = VariableScope::Global.key_for("");
    let global = get_variables_by_scope_key_in(snap, global_key.as_str())?;
    let workspace = layer_for(snap, VariableScope::Workspace, workspace_id)?;
    let collection = layer_for(snap, VariableScope::Collection, collection_id)?;
    let request = layer_for(snap, VariableScope::Request, request_id)?;
    let out = resolve_layers(&global, &workspace, &collection, &request);
    assert(lists_mapping(views(out@), resolution(views(global@), views(workspace@), views(collection@), views(request@))));
    assert forall|i: int, j: int| 0 <= i < j < out.len() implies (#[trigger] out@[i]).name@ != (#[trigger] out@[j]).name@ by {
        assert(views(out@)[i] == out@[i]@ && views(out@)[j] == out@[j]@);
    }
    Ok(out)
}

/// Stores a new variable made from `input` under `id` and lists it under its
/// scope key; a variable of a scope other than global needs an owner id.
pub fn create_variable_in(txn: &mut redb::WriteTransaction, input: CreateVariableInput, id: &str, now: i64) -> (r: DbResult<Variable>)
    ensures
        r matches Ok(v) ==> !lacks_owner(input.scope, input.scope_id.deep_view())
            && v@ == new_variable(id@, input, now)
            && variables_of(*final(txn)) == variables_of(*old(txn)).insert(id@, Some(v@))
            && scope_index_of(*final(txn)) == index_add(scope_index_of(*old(txn)), variable_key(v@), id@)
            && same_except(*final(txn), *old(txn), set![VARIABLES@, VARIABLES_BY_SCOPE@]),
        lacks_owner(input.scope, input.scope_id.deep_view()) ==> (r is Err && r->Err_0 is InvalidInput),
        r matches Err(e) ==> e is Storage
            || (e is InvalidInput && lacks_owner(input.scope, input.scope_id.deep_view()))
            || (e is Serialization && ids_under(scope_index_of(*old(txn)), variable_key(new_variable(id@, input, now))) is None),
{
    proof { lemma_table_names_distinct(); }
    check_scope(input.scope, &input.scope_id)?;
    let v = Variable {
        id: id.to_owned(),
        name: input.name,
        value: input.value,
        scope: input.scope,
        scope_id: input.scope_id,
        is_secret: input.is_secret,
        description: input.description,
        created_at: now,
        updated_at: now,
    };
    let key = v.scope_key();
    put_doc(txn, VARIABLES, id, &v)?;
    add_to_index(txn, VARIABLES_BY_SCOPE, key.as_str(), id)?;
    Ok(v)
}

/// Applies the fields that `input` supplies to the variable it names; its
/// scope does not change.
pub fn update_variable_in(txn: &mut redb::WriteTransaction, input: UpdateVariableInput, now: i64) -> (r: DbResult<Variable>)
    ensures
        r matches Ok(v) ==> variables_of(*old(txn)).contains_key(input.id@)
            && variables_of(*old(txn))[input.id@] is Some
            && v@ == updated_variable(variables_of(*old(txn))[input.id@]->Some_0, input, now)
            && variables_of(*final(txn)) == variables_of(*old(txn)).insert(input.id@, Some(v@))
            && same_except(*final(txn), *old(txn), set![VARIABLES@]),
        r matches Err(e) ==> e is Storage
            || (e is NotFound && !variables_of(*old(txn)).contains_key(input.id@))
            || (e is Serialization && malformed_at(variables_of(*old(txn)), input.id@)),
{
    proof { lemma_table_names_distinct(); }
    let mut v = get_variable_in(&Snapshot::Write(&*txn), input.id.as_str())?;
    v.id = input.id.clone();
    if let Some(name) = input.name {
        v.name = name;
    }
    if let Some(value) = input.value {
        v.value = value;
    }
    if let Some(secret) = input.is_secret {
        v.is_secret = secret;
    }
    if let Some(description) = input.description {
        v.description = Some(description);
    }
    v.updated_at = now;
    put_doc(txn, VARIABLES, input.id.as_str(), &v)?;
    Ok(v)
}

/// Deletes the variable stored under `id` and takes it out of its scope's
/// list.
pub fn delete_variable_in(txn: &mut redb::WriteTransaction, id: &str) -> (r: DbResult<()>)
    ensures
        r is Ok ==> variables_of(*old(txn)).contains_key(id@) && variables_of(*old(txn))[id@] is Some,
        r is Ok ==> variables_of(*final(txn)) == variables_of(*old(txn)).remove(id@),
        r is Ok ==> scope_index_of(*final(txn)) == index_remove(scope_index_of(*old(txn)), variable_key(variables_of(*old(txn))[id@]->Some_0), id@),
        r is Ok ==> same_except(*final(txn), *old(txn), set![VARIABLES@, VARIABLES_BY_SCOPE@]),
        r matches Err(e) ==> e is Storage
            || (e is NotFound && !variables_of(*old(txn)).contains_key(id@))
            || (e is Serialization && (malformed_at(variables_of(*old(txn)), id@)
                || ids_under(scope_index_of(*old(txn)), variable_key(variables_of(*old(txn))[id@]->Some_0)) is None)),
{
    proof { lemma_table_names_distinct(); }
    let v = get_variable_in(&Snapshot::Write(&*txn), id)?;
    let key = v.scope_key();
    delete_doc::<Variable>(txn, VARIABLES, id)?;
    remove_from_index(txn, VARIABLES_BY_SCOPE, key.as_str(), id)?;
    Ok(())
}

/// Variable operations, each in a transaction of its own.
pub struct VariableService {
    db: Database,
}

impl VariableService {
    pub fn new(db: Database) -> (r: VariableService) {
        VariableService { db }
    }

    pub fn get(&self, id: &str) -> (r: DbResult<Variable>) {
        let txn = self.db.begin_read()?;
        get_variable_in(&Snapshot::Read(&txn), id)
    }

    fn get_by_scope(&self, scope: VariableScope, owner: &str) -> (r: DbResult<Vec<Variable>>) {
        let key = scope.key_for(owner);
        let txn = self.db.begin_read()?;
        get_variables_by_scope_key_in(&Snapshot::Read(&txn), key.as_str())
    }

    pub fn get_global(&self) -> (r: DbResult<Vec<Variable>>) {
        self.get_by_scope(VariableScope::Global, "")
    }

    pub fn get_by_workspace(&self, workspace_id: &str) -> (r: DbResult<Vec<Variable>>) {
        self.get_by_scope(VariableScope::Workspace, workspace_id)
    }

    pub fn get_by_collection(&self, collection_id: &str) -> (r: DbResult<Vec<Variable>>) {
        self.get_by_scope(VariableScope::Collection, collection_id)
    }

    pub fn get_by_request(&self, request_id: &str) -> (r: DbResult<Vec<Variable>>) {
        self.get_by_scope(VariableScope::Request, request_id)
    }

    pub fn get_resolved(&self, workspace_id: Option<&str>, collection_id: Option<&str>, request_id: Option<&str>) -> (r: DbResult<Vec<ResolvedVariable>>)
        ensures
            r matches Ok(v) ==> sorted_by_name(v@),
            r matches Ok(v) ==> forall|i: int, j: int| 0 <= i < j < v.len() ==> (#[trigger] v@[i]).name@ != (#[trigger] v@[j]).name@,
    {
        let txn = self.db.begin_read()?;
        get_resolved_in(&Snapshot::Read(&txn), workspace_id, collection_id, request_id)
    }

    pub fn create(&self, input: CreateVariableInput) -> (r: DbResult<Variable>)
        ensures
            r matches Ok(v) ==> v@ == new_variable(v.id@, input, v.created_at),
            lacks_owner(input.scope, input.scope_id.deep_view()) ==> (r is Err && r->Err_0 is InvalidInput),
    {
        check_scope(input.scope, &input.scope_id)?;
        let id = new_id();
        let now = now_millis();
        let mut txn = self.db.begin_write()?;
        let v = create_variable_in(&mut txn, input, id.as_str(), now)?;
        Database::commit(txn)?;
        Ok(v)
    }

    pub fn update(&self, input: UpdateVariableInput) -> (r: DbResult<Variable>)
        ensures
            r matches Ok(v) ==> v.id@ == input.id@
                && exists|prev: VariableView| v@ == #[trigger] updated_variable(prev, input, v.updated_at),
    {
        let ghost given = input;
        let now = now_millis();
        let mut txn = self.db.begin_write()?;
        let ghost before = variables_of(txn);
        let v = update_variable_in(&mut txn, input, now)?;
        assert(v@ == updated_variable(before[given.id@]->Some_0, given, v.updated_at));
        Database::commit(txn)?;
        Ok(v)
    }

    pub fn delete(&self, id: &str) -> (r: DbResult<()>)
        ensures
            r matches Err(e) ==> !(e is Database) && !(e is InvalidInput),
    {
        let mut txn = self.db.begin_write()?;
        delete_variable_in(&mut txn, id)?;
        Database::commit(txn)
    }
}

} // verus!
