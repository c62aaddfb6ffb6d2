//! Requests: each belongs to a workspace, and optionally to one of its
//! collections; one without a collection is standalone.
use vstd::prelude::*;
use vstd::string::StringExecFns;

use crate::codec::{decode_request, encode_request, new_id, now_millis, request_record_parse};
use crate::db::Database;
use crate::document::{
    all_readable, delete_doc, docs_view, get_doc, list_docs, list_readable, live_docs, malformed_at, or_keep,
    put_doc, Document,
};
use crate::engine::{
    lemma_table_names_distinct, same_except, write_table, Snapshot, REQUESTS, REQUESTS_BY_COLLECTION,
    REQUESTS_BY_WORKSPACE,
};
use crate::error::{DbError, DbResult};
use crate::index::{add_to_index, ids_under, index_add, index_remove, index_view, load_ids, remove_from_index};
use crate::order::{sort_by_name, sorted_by_name, views, Named};

verus! {

broadcast use vstd::seq_lib::group_seq_properties, vstd::seq_lib::group_filter_ensures;

#[derive(Clone, Copy, Debug, PartialEq, Eq, Structural)]
pub enum HttpMethod {
    Get,
    Post,
    Put,
    Patch,
    Delete,
    Head,
    Options,
}

impl Default for HttpMethod {
    fn default() -> (r: HttpMethod)
        ensures
            r == HttpMethod::Get,
    {
        HttpMethod::Get
    }
}

#[derive(Clone, Copy, Debug, PartialEq, Eq, Structural)]
pub enum BodyType {
    Empty,
    Json,
    Xml,
    Text,
    Html,
    FormData,
    XWwwFormUrlencoded,
}

impl Default for BodyType {
    fn default() -> (r: BodyType)
        ensures
            r == BodyType::Empty,
    {
        BodyType::Empty
    }
}

/// The number a method is stored as.
pub open spec fn method_code(m: HttpMethod) -> u8 {
    match m {
        HttpMethod::Get => 0,
        HttpMethod::Post => 1,
        HttpMethod::Put => 2,
        HttpMethod::Patch => 3,
        HttpMethod::Delete => 4,
        HttpMethod::Head => 5,
        HttpMethod::Options => 6,
    }
}

/// The number a body type is stored as.
pub open spec fn body_type_code(b: BodyType) -> u8 {
    match b {
        BodyType::Empty => 0,
        BodyType::Json => 1,
        BodyType::Xml => 2,
        BodyType::Text => 3,
        BodyType::Html => 4,
        BodyType::FormData => 5,
        BodyType::XWwwFormUrlencoded => 6,
    }
}

/// The method stored as number `c` (for `c` up to 6).
pub open spec fn method_of_code(c: u8) -> HttpMethod {
    if c == 0 {
        HttpMethod::Get
    } else if c == 1 {
        HttpMethod::Post
    } else if c == 2 {
        HttpMethod::Put
    } else if c == 3 {
        HttpMethod::Patch
    } else if c == 4 {
        HttpMethod::Delete
    } else if c == 5 {
        HttpMethod::Head
    } else {
        HttpMethod::Options
    }
}

/// The body type stored as number `c` (for `c` up to 6).
pub open spec fn body_type_of_code(c: u8) -> BodyType {
    if c == 0 {
        BodyType::Empty
    } else if c == 1 {
        BodyType::Json
    } else if c == 2 {
        BodyType::Xml
    } else if c == 3 {
        BodyType::Text
    } else if c == 4 {
        BodyType::Html
    } else if c == 5 {
        BodyType::FormData
    } else {
        BodyType::XWwwFormUrlencoded
    }
}

impl HttpMethod {
    pub fn code(self) -> (r: u8)
        ensures
            r == method_code(self),
    {
        match self {
            HttpMethod::Get => 0,
            HttpMethod::Post => 1,
            HttpMethod::Put => 2,
            HttpMethod::Patch => 3,
            HttpMethod::Delete => 4,
            HttpMethod::Head => 5,
            HttpMethod::Options => 6,
        }
    }

    pub fn from_code(c: u8) -> (r: Option<HttpMethod>)
        ensures
            r matches Some(m) ==> method_code(m) == c && m == method_of_code(c),
            r is None <==> c > 6,
    {
        match c {
            0 => Some(HttpMethod::Get),
            1 => Some(HttpMethod::Post),
            2 => Some(HttpMethod::Put),
            3 => Some(HttpMethod::Patch),
            4 => Some(HttpMethod::Delete),
            5 => Some(HttpMethod::Head),
            6 => Some(HttpMethod::Options),
            _ => None,
        }
    }
}

impl BodyType {
    pub fn code(self) -> (r: u8)
        ensures
            r == body_type_code(self),
    {
        match self {
            BodyType::Empty => 0,
            BodyType::Json => 1,
            BodyType::Xml => 2,
            BodyType::Text => 3,
            BodyType::Html => 4,
            BodyType::FormData => 5,
            BodyType::XWwwFormUrlencoded => 6,
        }
    }

    pub fn from_code(c: u8) -> (r: Option<BodyType>)
        ensures
            r matches Some(b) ==> body_type_code(b) == c && b == body_type_of_code(c),
            r is None <==> c > 6,
    {
        match c {
            0 => Some(BodyType::Empty),
            1 => Some(BodyType::Json),
            2 => Some(BodyType::Xml),
            3 => Some(BodyType::Text),
            4 => Some(BodyType::Html),
            5 => Some(BodyType::FormData),
            6 => Some(BodyType::XWwwFormUrlencoded),
            _ => None,
        }
    }
}

#[derive(Debug)]
pub struct RequestHeader {
    pub key: String,
    pub value: String,
    pub enabled: bool,
}

impl View for RequestHeader {
    type V = (Seq<char>, Seq<char>, bool);

    open spec fn view(&self) -> (Seq<char>, Seq<char>, bool) {
        (self.key@, self.value@, self.enabled)
    }
}

#[derive(Debug)]
pub struct RequestParam {
    pub key: String,
    pub value: String,
    pub enabled: bool,
}

impl View for RequestParam {
    type V = (Seq<char>, Seq<char>, bool);

    open spec fn view(&self) -> (Seq<char>, Seq<char>, bool) {
        (self.key@, self.value@, self.enabled)
    }
}

#[derive(Debug)]
pub struct FormDataItem {
    pub key: String,
    pub value: String,
    /// `"text"` or `"file"`.
    pub item_type: String,
    pub enabled: bool,
}

impl View for FormDataItem {
    type V = (Seq<char>, Seq<char>, Seq<char>, bool);

    open spec fn view(&self) -> (Seq<char>, Seq<char>, Seq<char>, bool) {
        (self.key@, self.value@, self.item_type@, self.enabled)
    }
}

#[derive(Debug)]
pub struct Request {
    pub id: String,
    pub name: String,
    pub method: HttpMethod,
    pub url: String,
    pub headers: Vec<RequestHeader>,
    pub params: Vec<RequestParam>,
    pub body_type: BodyType,
    pub body: String,
    pub form_data: Vec<FormDataItem>,
    pub collection_id: Option<String>,
    pub workspace_id: String,
    /// Milliseconds since the Unix epoch.
    pub created_at: i64,
    /// Milliseconds since the Unix epoch.
    pub updated_at: i64,
}

pub struct RequestView {
    pub id: Seq<char>,
    pub name: Seq<char>,
    pub method: HttpMethod,
    pub url: Seq<char>,
    pub headers: Seq<(Seq<char>, Seq<char>, bool)>,
    pub params: Seq<(Seq<char>, Seq<char>, bool)>,
    pub body_type: BodyType,
    pub body: Seq<char>,
    pub form_data: Seq<(Seq<char>, Seq<char>, Seq<char>, bool)>,
    pub collection_id: Option<Seq<char>>,
    pub workspace_id: Seq<char>,
    pub created_at: i64,
    pub updated_at: i64,
}

impl View for Request {
    type V = RequestView;

    open spec fn view(&self) -> RequestView {
        RequestView {
            id: self.id@,
            name: self.name@,
            method: self.method,
            url: self.url@,
            headers: views(self.headers@),
            params: views(self.params@),
            body_type: self.body_type,
            body: self.body@,
            form_data: views(self.form_data@),
            collection_id: self.collection_id.deep_view(),
            workspace_id: self.workspace_id@,
            created_at: self.created_at,
            updated_at: self.updated_at,
        }
    }
}

/// A request as its document stores it: method and body type as numbers.
pub struct RequestRecord {
    pub id: String,
    pub name: String,
    pub method: u8,
    pub url: String,
    pub headers: Vec<(String, String, bool)>,
    pub params: Vec<(String, String, bool)>,
    pub body_type: u8,
    pub body: String,
    pub form_data: Vec<(String, String, String, bool)>,
    pub collection_id: Option<String>,
    pub workspace_id: String,
    pub created_at: i64,
    pub updated_at: i64,
}

pub struct RequestRecordView {
    pub id: Seq<char>,
    pub name: Seq<char>,
    pub method: u8,
    pub url: Seq<char>,
    pub headers: Seq<(Seq<char>, Seq<char>, bool)>,
    pub params: Seq<(Seq<char>, Seq<char>, bool)>,
    pub body_type: u8,
    pub body: Seq<char>,
    pub form_data: Seq<(Seq<char>, Seq<char>, Seq<char>, bool)>,
    pub collection_id: Option<Seq<char>>,
    pub workspace_id: Seq<char>,
    pub created_at: i64,
    pub updated_at: i64,
}

impl View for RequestRecord {
    type V = RequestRecordView;

    open spec fn view(&self) -> RequestRecordView {
        RequestRecordView {
            id: self.id@,
            name: self.name@,
            method: self.method,
            url: self.url@,
            headers: self.headers.deep_view(),
            params: self.params.deep_view(),
            body_type: self.body_type,
            body: self.body@,
            form_data: self.form_data.deep_view(),
            collection_id: self.collection_id.deep_view(),
            workspace_id: self.workspace_id@,
            created_at: self.created_at,
            updated_at: self.updated_at,
        }
    }
}

fn header_fields(v: &Vec<RequestHeader>) -> (r: Vec<(String, String, bool)>)
    ensures
        r.deep_view() == views(v@),
{
    let mut out: Vec<(String, String, bool)> = Vec::new();
    let mut i: usize = 0;
    while i < v.len()
        invariant
            i <= v.len(),
            out.deep_view() == views(v@).take(i as int),
        decreases v.len() - i,
    {
        let h = &v[i];
        let ghost prev = out.deep_view();
        out.push((h.key.clone(), h.value.clone(), h.enabled));
        assert(out.deep_view() =~= prev.push(views(v@)[i as int]));
        assert(out.deep_view() =~= views(v@).take(i + 1));
        i += 1;
    }
    assert(views(v@).take(v.len() as int) =~= views(v@));
    out
}

fn param_fields(v: &Vec<RequestParam>) -> (r: Vec<(String, String, bool)>)
    ensures
        r.deep_view() == views(v@),
{
    let mut out: Vec<(String, String, bool)> = Vec::new();
    let mut i: usize = 0;
    while i < v.len()
        invariant
            i <= v.len(),
            out.deep_view() == views(v@).take(i as int),
        decreases v.len() - i,
    {
        let p = &v[i];
        let ghost prev = out.deep_view();
        out.push((p.key.clone(), p.value.clone(), p.enabled));
        assert(out.deep_view() =~= prev.push(views(v@)[i as int]));
        assert(out.deep_view() =~= views(v@).take(i + 1));
        i += 1;
    }
    assert(views(v@).take(v.len() as int) =~= views(v@));
    out
}

fn form_fields(v: &Vec<FormDataItem>) -> (r: Vec<(String, String, String, bool)>)
    ensures
        r.deep_view() == views(v@),
{
    let mut out: Vec<(String, String, String, bool)> = Vec::new();
    let mut i: usize = 0;
    while i < v.len()
        invariant
            i <= v.len(),
            out.deep_view() == views(v@).take(i as int),
        decreases v.len() - i,
    {
        let f = &v[i];
        let ghost prev = out.deep_view();
        out.push((f.key.clone(), f.value.clone(), f.item_type.clone(), f.enabled));
        assert(out.deep_view() =~= prev.push(views(v@)[i as int]));
        assert(out.deep_view() =~= views(v@).take(i + 1));
        i += 1;
    }
    assert(views(v@).take(v.len() as int) =~= views(v@));
    out
}

fn headers_of(v: &Vec<(String, String, bool)>) -> (r: Vec<RequestHeader>)
    ensures
        views(r@) == v.deep_view(),
{
    let mut out: Vec<RequestHeader> = Vec::new();
    let mut i: usize = 0;
    while i < v.len()
        invariant
            i <= v.len(),
            views(out@) == v.deep_view().take(i as int),
        decreases v.len() - i,
    {
        let (k, val, e) = &v[i];
        let ghost prev = views(out@);
        out.push(RequestHeader { key: k.clone(), value: val.clone(), enabled: *e });
        assert(views(out@) =~= prev.push(v.deep_view()[i as int]));
        assert(views(out@) =~= v.deep_view().take(i + 1));
        i += 1;
    }
    assert(v.deep_view().take(v.len() as int) =~= v.deep_view());
    out
}

fn params_of(v: &Vec<(String, String, bool)>) -> (r: Vec<RequestParam>)
    ensures
        views(r@) == v.deep_view(),
{
    let mut out: Vec<RequestParam> = Vec::new();
    let mut i: usize = 0;
    while i < v.len()
        invariant
            i <= v.len(),
            views(out@) == v.deep_view().take(i as int),
        decreases v.len() - i,
    {
        let (k, val, e) = &v[i];
        let ghost prev = views(out@);
        out.push(RequestParam { key: k.clone(), value: val.clone(), enabled: *e });
        assert(views(out@) =~= prev.push(v.deep_view()[i as int]));
        assert(views(out@) =~= v.deep_view().take(i + 1));
        i += 1;
    }
    assert(v.deep_view().take(v.len() as int) =~= v.deep_view());
    out
}

fn form_items_of(v: &Vec<(String, String, String, bool)>) -> (r: Vec<FormDataItem>)
    ensures
        views(r@) == v.deep_view(),
{
    let mut out: Vec<FormDataItem> = Vec::new();
    let mut i: usize = 0;
    while i < v.len()
        invariant
            i <= v.len(),
            views(out@) == v.deep_view().take(i as int),
        decreases v.len() - i,
    {
        let (k, val, t, e) = &v[i];
        let ghost prev = views(out@);
        out.push(FormDataItem { key: k.clone(), value: val.clone(), item_type: t.clone(), enabled: *e });
        assert(views(out@) =~= prev.push(v.deep_view()[i as int]));
        assert(views(out@) =~= v.deep_view().take(i + 1));
        i += 1;
    }
    assert(v.deep_view().take(v.len() as int) =~= v.deep_view());
    out
}

/// The record a request is stored as.
pub open spec fn record_of(r: RequestView) -> RequestRecordView {
    RequestRecordView {
        id: r.id,
        name: r.name,
        method: method_code(r.method),
        url: r.url,
        headers: r.headers,
        params: r.params,
        body_type: body_type_code(r.body_type),
        body: r.body,
        form_data: r.form_data,
        collection_id: r.collection_id,
        workspace_id: r.workspace_id,
        created_at: r.created_at,
        updated_at: r.updated_at,
    }
}

/// The request a record stands for, `None` where a number is out of range.
pub open spec fn request_of_record(v: RequestRecordView) -> Option<RequestView> {
    if v.method <= 6 && v.body_type <= 6 {
        Some(RequestView {
            id: v.id,
            name: v.name,
            method: method_of_code(v.method),
            url: v.url,
            headers: v.headers,
            params: v.params,
            body_type: body_type_of_code(v.body_type),
            body: v.body,
            form_data: v.form_data,
            collection_id: v.collection_id,
            workspace_id: v.workspace_id,
            created_at: v.created_at,
            updated_at: v.updated_at,
        })
    } else {
        None
    }
}

proof fn lemma_codes_invert(r: RequestView)
    ensures
        request_of_record(record_of(r)) == Some(r),
{
    assert(method_of_code(method_code(r.method)) == r.method);
    assert(body_type_of_code(body_type_code(r.body_type)) == r.body_type);
}

impl Named for Request {
    open spec fn name_view(&self) -> Seq<char> {
        self.name@
    }

    fn name_str(&self) -> (r: &str) {
        self.name.as_str()
    }
}

impl Document for Request {
    open spec fn parse(s: Seq<char>) -> Option<RequestView> {
        match request_record_parse(s) {
            Some(v) => request_of_record(v),
            None => None,
        }
    }

    fn encode(&self) -> (r: Result<String, String>) {
        proof { lemma_codes_invert(self@); }
        let rec = RequestRecord {
            id: self.id.clone(),
            name: self.name.clone(),
            method: self.method.code(),
            url: self.url.clone(),
            headers: header_fields(&self.headers),
            params: param_fields(&self.params),
            body_type: self.body_type.code(),
            body: self.body.clone(),
            form_data: form_fields(&self.form_data),
            collection_id: copy_opt(&self.collection_id),
            workspace_id: self.workspace_id.clone(),
            created_at: self.created_at,
            updated_at: self.updated_at,
        };
        assert(rec@ == record_of(self@));
        encode_request(&rec)
    }

    fn decode(s: &str) -> (r: Result<Request, String>) {
        let rec = decode_request(s)?;
        let method = HttpMethod::from_code(rec.method);
        let body_type = BodyType::from_code(rec.body_type);
        match (method, body_type) {
            (Some(m), Some(b)) => {
                let req = Request {
                    id: rec.id,
                    name: rec.name,
                    method: m,
                    url: rec.url,
                    headers: headers_of(&rec.headers),
                    params: params_of(&rec.params),
                    body_type: b,
                    body: rec.body,
                    form_data: form_items_of(&rec.form_data),
                    collection_id: rec.collection_id,
                    workspace_id: rec.workspace_id,
                    created_at: rec.created_at,
                    updated_at: rec.updated_at,
                };
                Ok(req)
            },
            _ => Err(String::from_str("unknown method or body type number")),
        }
    }
}

pub struct CreateRequestInput {
    pub name: String,
    pub method: HttpMethod,
    pub url: String,
    pub headers: Vec<RequestHeader>,
    pub params: Vec<RequestParam>,
    pub body_type: BodyType,
    pub body: String,
    pub form_data: Vec<FormDataItem>,
    pub collection_id: Option<String>,
    pub workspace_id: String,
}

pub struct UpdateRequestInput {
    pub id: String,
    pub name: Option<String>,
    pub method: Option<HttpMethod>,
    pub url: Option<String>,
    pub headers: Option<Vec<RequestHeader>>,
    pub params: Option<Vec<RequestParam>>,
    pub body_type: Option<BodyType>,
    pub body: Option<String>,
    pub form_data: Option<Vec<FormDataItem>>,
    /// `Some(None)` moves the request out of its collection.
    pub collection_id: Option<Option<String>>,
}

/// The requests of a write transaction.
pub open spec fn requests_of(t: redb::WriteTransaction) -> Map<Seq<char>, Option<RequestView>> {
    docs_view::<Request>(write_table(t, REQUESTS@))
}

/// The request-by-collection index of a write transaction.
pub open spec fn by_collection_of(t: redb::WriteTransaction) -> Map<Seq<char>, Option<Seq<Seq<char>>>> {
    index_view(write_table(t, REQUESTS_BY_COLLECTION@))
}

/// The request-by-workspace index of a write transaction.
pub open spec fn by_workspace_of(t: redb::WriteTransaction) -> Map<Seq<char>, Option<Seq<Seq<char>>>> {
    index_view(write_table(t, REQUESTS_BY_WORKSPACE@))
}

/// A new request made from `input`.
pub open spec fn new_request(id: Seq<char>, input: CreateRequestInput, now: i64) -> RequestView {
    RequestView {
        id,
        name: input.name@,
        method: input.method,
        url: input.url@,
        headers: views(input.headers@),
        params: views(input.params@),
        body_type: input.body_type,
        body: input.body@,
        form_data: views(input.form_data@),
        collection_id: input.collection_id.deep_view(),
        workspace_id: input.workspace_id@,
        created_at: now,
        updated_at: now,
    }
}

/// `r` with the fields that `input` supplies.
pub open spec fn updated_request(r: RequestView, input: UpdateRequestInput, now: i64) -> RequestView {
    RequestView {
        id: input.id@,
        name: or_keep(input.name.deep_view(), r.name),
        method: or_keep(input.method, r.method),
        url: or_keep(input.url.deep_view(), r.url),
        headers: if input.headers is Some { views(input.headers->Some_0@) } else { r.headers },
        params: if input.params is Some { views(input.params->Some_0@) } else { r.params },
        body_type: or_keep(input.body_type, r.body_type),
        body: or_keep(input.body.deep_view(), r.body),
        form_data: if input.form_data is Some { views(input.form_data->Some_0@) } else { r.form_data },
        collection_id: or_keep(input.collection_id.deep_view(), r.collection_id),
        updated_at: now,
        ..r
    }
}

/// The index after `id` moves from collection `from` to collection `to`; no
/// change where the two are the same.
pub open spec fn reparented(ix: Map<Seq<char>, Option<Seq<Seq<char>>>>, from: Option<Seq<char>>, to: Option<Seq<char>>, id: Seq<char>) -> Map<Seq<char>, Option<Seq<Seq<char>>>> {
    if from == to {
        ix
    } else {
        let removed = match from {
            Some(c) => index_remove(ix, c, id),
            None => ix,
        };
        match to {
            Some(c) => index_add(removed, c, id),
            None => removed,
        }
    }
}

/// Holds of a request without a collection.
pub open spec fn without_collection() -> spec_fn(RequestView) -> bool {
    |r: RequestView| r.collection_id is None
}

/// The standalone requests among `v`.
pub open spec fn standalone(v: Seq<RequestView>) -> Seq<RequestView> {
    v.filter(without_collection())
}

fn copy_opt(o: &Option<String>) -> (r: Option<String>)
    ensures
        r.deep_view() == o.deep_view(),
{
    match o {
        Some(s) => Some(s.clone()),
        None => None,
    }
}

fn same_opt(a: &Option<String>, b: &Option<String>) -> (r: bool)
    ensures
        r == (a.deep_view() == b.deep_view()),
{
    match (a, b) {
        (Some(x), Some(y)) => *x == *y,
        (None, None) => true,
        _ => false,
    }
}

/// Reads the request stored under `id`.
pub fn get_request_in(snap: &Snapshot, id: &str) -> (r: DbResult<Request>)
    ensures
        r matches Ok(q) ==> docs_view::<Request>(snap.table(REQUESTS@)).contains_key(id@)
            && docs_view::<Request>(snap.table(REQUESTS@))[id@] == Some(q@),
        r matches Err(e) ==> e is Storage
            || (e is NotFound && !docs_view::<Request>(snap.table(REQUESTS@)).contains_key(id@))
            || (e is Serialization && docs_view::<Request>(snap.table(REQUESTS@)).contains_key(id@)
                && docs_view::<Request>(snap.table(REQUESTS@))[id@] is None),
{
    proof { lemma_table_names_distinct(); }
    get_doc::<Request>(snap, REQUESTS, id)
}

/// The requests that the index lists under `collection_id`, in order of their
/// names; ids without a request are skipped.
pub fn get_requests_by_collection_in(snap: &Snapshot, collection_id: &str) -> (r: DbResult<Vec<Request>>)
    ensures
        r matches Ok(v) ==> list_readable::<Request>(docs_view::<Request>(snap.table(REQUESTS@)), index_view(snap.table(REQUESTS_BY_COLLECTION@)), collection_id@)
            && sorted_by_name(v@)
            && views(v@).to_multiset() == live_docs::<Request>(
                docs_view::<Request>(snap.table(REQUESTS@)),
                ids_under(index_view(snap.table(REQUESTS_BY_COLLECTION@)), collection_id@)->Some_0,
            ).to_multiset(),
        r matches Err(e) ==> e is Storage || (e is Serialization
            && !list_readable::<Request>(docs_view::<Request>(snap.table(REQUESTS@)), index_view(snap.table(REQUESTS_BY_COLLECTION@)), collection_id@)),
{
    proof { lemma_table_names_distinct(); }
    let ids = load_ids(snap, REQUESTS_BY_COLLECTION, collection_id)?;
    list_docs::<Request>(snap, REQUESTS, &ids)
}

/// Every request that the index lists under `workspace_id`, with or without
/// a collection, in order of their names.
pub fn get_all_requests_by_workspace_in(snap: &Snapshot, workspace_id: &str) -> (r: DbResult<Vec<Request>>)
    ensures
        r matches Ok(v) ==> list_readable::<Request>(docs_view::<Request>(snap.table(REQUESTS@)), index_view(snap.table(REQUESTS_BY_WORKSPACE@)), workspace_id@)
            && sorted_by_name(v@)
            && views(v@).to_multiset() == live_docs::<Request>(
                docs_view::<Request>(snap.table(REQUESTS@)),
                ids_under(index_view(snap.table(REQUESTS_BY_WORKSPACE@)), workspace_id@)->Some_0,
            ).to_multiset(),
        r matches Err(e) ==> e is Storage || (e is Serialization
            && !list_readable::<Request>(docs_view::<Request>(snap.table(REQUESTS@)), index_view(snap.table(REQUESTS_BY_WORKSPACE@)), workspace_id@)),
{
    proof { lemma_table_names_distinct(); }
    let ids = load_ids(snap, REQUESTS_BY_WORKSPACE, workspace_id)?;
    list_docs::<Request>(snap, REQUESTS, &ids)
}

/// The standalone requests that the index lists under `workspace_id`, in
/// order of their names.
pub fn get_standalone_requests_by_workspace_in(snap: &Snapshot, workspace_id: &str) -> (r: DbResult<Vec<Request>>)
    ensures
        r matches Ok(v) ==> list_readable::<Request>(docs_view::<Request>(snap.table(REQUESTS@)), index_view(snap.table(REQUESTS_BY_WORKSPACE@)), workspace_id@)
            && sorted_by_name(v@)
            && views(v@).to_multiset() == standalone(live_docs::<Request>(
                docs_view::<Request>(snap.table(REQUESTS@)),
                ids_under(index_view(snap.table(REQUESTS_BY_WORKSPACE@)), workspace_id@)->Some_0,
            )).to_multiset(),
        r matches Err(e) ==> e is Storage || (e is Serialization
            && !list_readable::<Request>(docs_view::<Request>(snap.table(REQUESTS@)), index_view(snap.table(REQUESTS_BY_WORKSPACE@)), workspace_id@)),
{
    proof { lemma_table_names_distinct(); }
    let ids = load_ids(snap, REQUESTS_BY_WORKSPACE, workspace_id)?;
    let ghost m = docs_view::<Request>(snap.table(REQUESTS@));
    let ghost idv = ids.deep_view();
    let mut found: Vec<Request> = Vec::new();
    let mut i: usize = 0;
    while i < ids.len()
        invariant
            i <= ids.len(),
            m == docs_view::<Request>(snap.table(REQUESTS@)),
            idv == ids.deep_view(),
            views(found@) == standalone(live_docs::<Request>(m, idv.take(i as int))),
            all_readable::<Request>(m, idv.take(i as int)),
            ids_under(index_view(snap.table(REQUESTS_BY_WORKSPACE@)), workspace_id@) == Some(idv),
        decreases ids.len() - i,
    {
        let ghost k = idv[i as int];
        let ghost pred = without_collection();
        proof {
            assert(idv.take(i + 1) =~= idv.take(i as int).push(k));
            idv.take(i as int).lemma_filter_push(k, |k: Seq<char>| m.contains_key(k));
        }
        match get_request_in(snap, ids[i].as_str()) {
            Ok(q) => {
                proof {
                    assert(live_docs::<Request>(m, idv.take(i + 1)) =~= live_docs::<Request>(m, idv.take(i as int)).push(q@));
                    live_docs::<Request>(m, idv.take(i as int)).lemma_filter_push(q@, pred);
                }
                if q.collection_id.is_none() {
                    let ghost before = found@;
                    found.push(q);
                    assert(views(found@) =~= views(before).push(found@[found.len() - 1]@));
                }
            },
            Err(DbError::NotFound(_)) => {
                assert(live_docs::<Request>(m, idv.take(i + 1)) =~= live_docs::<Request>(m, idv.take(i as int)));
            },
            Err(e) => {
                proof {
                    assert(idv[i as int] == k);
                    assert(idv.contains(k));
                    if e is Serialization {
                        assert(m.contains_key(k) && m[k] is None);
                        assert(!all_readable::<Request>(m, idv));
                    }
                }
                return Err(e);
            },
        }
        assert forall|x: Seq<char>| idv.take(i + 1).contains(x) && m.contains_key(x) implies (#[trigger] m[x]) is Some by {
            if x != k {
                assert(idv.take(i as int).contains(x));
            }
        }
        i += 1;
    }
    assert(idv.take(ids.len() as int) =~= idv);
    Ok(sort_by_name(found))
}

/// Stores a new request made from `input` under `id`, and lists it under its
/// workspace and, where it has one, under its collection.
pub fn create_request_in(txn: &mut redb::WriteTransaction, input: CreateRequestInput, id: &str, now: i64) -> (r: DbResult<Request>)
    ensures
        r matches Ok(q) ==> q@ == new_request(id@, input, now)
            && requests_of(*final(txn)) == requests_of(*old(txn)).insert(id@, Some(q@))
            && by_workspace_of(*final(txn)) == index_add(by_workspace_of(*old(txn)), input.workspace_id@, id@)
            && by_collection_of(*final(txn)) == match input.collection_id.deep_view() {
                Some(c) => index_add(by_collection_of(*old(txn)), c, id@),
                None => by_collection_of(*old(txn)),
            }
            && same_except(*final(txn), *old(txn), set![REQUESTS@, REQUESTS_BY_WORKSPACE@, REQUESTS_BY_COLLECTION@]),
        r matches Err(e) ==> e is Storage || (e is Serialization
            && (ids_under(by_workspace_of(*old(txn)), input.workspace_id@) is None
                || (input.collection_id is Some && ids_under(by_collection_of(*old(txn)), input.collection_id.deep_view()->Some_0) is None))),
{
    proof { lemma_table_names_distinct(); }
    let q = Request {
        id: id.to_owned(),
        name: input.name,
        method: input.method,
        url: input.url,
        headers: input.headers,
        params: input.params,
        body_type: input.body_type,
        body: input.body,
        form_data: input.form_data,
        collection_id: input.collection_id,
        workspace_id: input.workspace_id,
        created_at: now,
        updated_at: now,
    };
    put_doc(txn, REQUESTS, id, &q)?;
    add_to_index(txn, REQUESTS_BY_WORKSPACE, q.workspace_id.as_str(), id)?;
    if let Some(c) = &q.collection_id {
        add_to_index(txn, REQUESTS_BY_COLLECTION, c.as_str(), id)?;
    }
    Ok(q)
}

/// Applies the fields that `input` supplies to the request it names; where
/// its collection changes, it moves from the old collection's list to the
/// new one's.
pub fn update_request_in(txn: &mut redb::WriteTransaction, input: UpdateRequestInput, now: i64) -> (r: DbResult<Request>)
    ensures
        r matches Ok(q) ==> requests_of(*old(txn)).contains_key(input.id@)
            && requests_of(*old(txn))[input.id@] is Some
            && q@ == updated_request(requests_of(*old(txn))[input.id@]->Some_0, input, now)
            && requests_of(*final(txn)) == requests_of(*old(txn)).insert(input.id@, Some(q@))
            && by_collection_of(*final(txn)) == reparented(by_collection_of(*old(txn)),
                requests_of(*old(txn))[input.id@]->Some_0.collection_id, q@.collection_id, input.id@)
            && same_except(*final(txn), *old(txn), set![REQUESTS@, REQUESTS_BY_COLLECTION@]),
        r matches Err(e) ==> e is Storage
            || (e is NotFound && !requests_of(*old(txn)).contains_key(input.id@))
            || (e is Serialization && (malformed_at(requests_of(*old(txn)), input.id@)
                || (requests_of(*old(txn))[input.id@]->Some_0.collection_id is Some
                    && ids_under(by_collection_of(*old(txn)), requests_of(*old(txn))[input.id@]->Some_0.collection_id->Some_0) is None)
                || (updated_request(requests_of(*old(txn))[input.id@]->Some_0, input, now).collection_id is Some
                    && ids_under(by_collection_of(*old(txn)), updated_request(requests_of(*old(txn))[input.id@]->Some_0, input, now).collection_id->Some_0) is None))),
{
    proof { lemma_table_names_distinct(); }
    let mut q = get_request_in(&Snapshot::Write(&*txn), input.id.as_str())?;
    let ghost q0 = q@;
    q.id = input.id.clone();
    let old_collection = copy_opt(&q.collection_id);
    if let Some(name) = input.name {
        q.name = name;
    }
    if let Some(method) = input.method {
        q.method = method;
    }
    if let Some(url) = input.url {
        q.url = url;
    }
    if let Some(headers) = input.headers {
        q.headers = headers;
    }
    if let Some(params) = input.params {
        q.params = params;
    }
    if let Some(body_type) = input.body_type {
        q.body_type = body_type;
    }
    if let Some(body) = input.body {
        q.body = body;
    }
    if let Some(form_data) = input.form_data {
        q.form_data = form_data;
    }
    if let Some(collection_id) = input.collection_id {
        q.collection_id = collection_id;
    }
    q.updated_at = now;
    assert(q@ == updated_request(q0, input, now));
    put_doc(txn, REQUESTS, input.id.as_str(), &q)?;
    if !same_opt(&old_collection, &q.collection_id) {
        if let Some(from) = &old_collection {
            remove_from_index(txn, REQUESTS_BY_COLLECTION, from.as_str(), input.id.as_str())?;
        }
        if let Some(to) = &q.collection_id {
            add_to_index(txn, REQUESTS_BY_COLLECTION, to.as_str(), input.id.as_str())?;
        }
    }
    Ok(q)
}

/// Deletes the request stored under `id` and takes it out of the lists of
/// its workspace and of its collection.
pub fn delete_request_in(txn: &mut redb::WriteTransaction, id: &str) -> (r: DbResult<()>)
    ensures
        r is Ok ==> requests_of(*old(txn)).contains_key(id@) && requests_of(*old(txn))[id@] is Some,
        r is Ok ==> requests_of(*final(txn)) == requests_of(*old(txn)).remove(id@),
        r is Ok ==> by_workspace_of(*final(txn)) == index_remove(by_workspace_of(*old(txn)), requests_of(*old(txn))[id@]->Some_0.workspace_id, id@),
        r is Ok ==> by_collection_of(*final(txn)) == match requests_of(*old(txn))[id@]->Some_0.collection_id {
            Some(c) => index_remove(by_collection_of(*old(txn)), c, id@),
            None => by_collection_of(*old(txn)),
        },
        r is Ok ==> same_except(*final(txn), *old(txn), set![REQUESTS@, REQUESTS_BY_WORKSPACE@, REQUESTS_BY_COLLECTION@]),
        r matches Err(e) ==> e is Storage
            || (e is NotFound && !requests_of(*old(txn)).contains_key(id@))
            || (e is Serialization && (malformed_at(requests_of(*old(txn)), id@)
                || ids_under(by_workspace_of(*old(txn)), requests_of(*old(txn))[id@]->Some_0.workspace_id) is None
                || (requests_of(*old(txn))[id@]->Some_0.collection_id is Some
                    && ids_under(by_collection_of(*old(txn)), requests_of(*old(txn))[id@]->Some_0.collection_id->Some_0) is None))),
{
    proof { lemma_table_names_distinct(); }
    let q = get_request_in(&Snapshot::Write(&*txn), id)?;
    delete_doc::<Request>(txn, REQUESTS, id)?;
    remove_from_index(txn, REQUESTS_BY_WORKSPACE, q.workspace_id.as_str(), id)?;
    if let Some(c) = &q.collection_id {
        remove_from_index(txn, REQUESTS_BY_COLLECTION, c.as_str(), id)?;
    }
    Ok(())
}

/// Request operations, each in a transaction of its own.
pub struct RequestService {
    db: Database,
}

impl RequestService {
    pub fn new(db: Database) -> (r: RequestService) {
        RequestService { db }
    }

    pub fn get(&self, id: &str) -> (r: DbResult<Request>) {
        let txn = self.db.begin_read()?;
        get_request_in(&Snapshot::Read(&txn), id)
    }

    pub fn get_by_collection(&self, collection_id: &str) -> (r: DbResult<Vec<Request>>) {
        let txn = self.db.begin_read()?;
        get_requests_by_collection_in(&Snapshot::Read(&txn), collection_id)
    }

    pub fn get_standalone_by_workspace(&self, workspace_id: &str) -> (r: DbResult<Vec<Request>>)
        ensures
            r matches Ok(v) ==> forall|i: int| 0 <= i < v.len() ==> (#[trigger] v@[i]).collection_id is None,
    {
        let txn = self.db.begin_read()?;
        let r = get_standalone_requests_by_workspace_in(&Snapshot::Read(&txn), workspace_id);
        proof {
            if r is Ok {
                let v = r->Ok_0;
                assert forall|i: int| 0 <= i < v.len() implies (#[trigger] v@[i]).collection_id is None by {
                    assert(views(v@)[i] == v@[i]@);
                    assert(views(v@).to_multiset().count(v@[i]@) > 0);
                }
            }
        }
        r
    }

    pub fn get_all_by_workspace(&self, workspace_id: &str) -> (r: DbResult<Vec<Request>>) {
        let txn = self.db.begin_read()?;
        get_all_requests_by_workspace_in(&Snapshot::Read(&txn), workspace_id)
    }

    pub fn create(&self, input: CreateRequestInput) -> (r: DbResult<Request>)
        ensures
            r matches Ok(q) ==> q@ == new_request(q.id@, input, q.created_at),
    {
        let id = new_id();
        let now = now_millis();
        let mut txn = self.db.begin_write()?;
        let q = create_request_in(&mut txn, input, id.as_str(), now)?;
        Database::commit(txn)?;
        Ok(q)
    }

    pub fn update(&self, input: UpdateRequestInput) -> (r: DbResult<Request>)
        ensures
            r matches Ok(q) ==> q.id@ == input.id@
                && exists|prev: RequestView| q@ == #[trigger] updated_request(prev, input, q.updated_at),
    {
        let ghost given = input;
        let now = now_millis();
        let mut txn = self.db.begin_write()?;
        let ghost before = requests_of(txn);
        let q = update_request_in(&mut txn, input, now)?;
        assert(q@ == updated_request(before[given.id@]->Some_0, given, q.updated_at));
        Database::commit(txn)?;
        Ok(q)
    }

    pub fn delete(&self, id: &str) -> (r: DbResult<()>)
        ensures
            r matches Err(e) ==> !(e is Database),
    {
        let mut txn = self.db.begin_write()?;
        delete_request_in(&mut txn, id)?;
        Database::commit(txn)
    }
}

} // verus!
