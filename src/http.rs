//! Descriptions of outgoing HTTP requests and their responses, and the URL
//! that a request is sent to.
use vstd::prelude::*;
use vstd::string::StringExecFns;
use vstd::utf8::encode_utf8;

use crate::order::views;

verus! {

pub struct HttpRequest {
    pub method: String,
    pub url: String,
    pub headers: Vec<HttpRequestHeader>,
    pub params: Vec<HttpRequestParam>,
    pub body_type: String,
    pub body: String,
    pub form_data: Vec<HttpFormDataItem>,
}

pub struct HttpRequestHeader {
    pub key: String,
    pub value: String,
    pub enabled: bool,
}

pub struct HttpRequestParam {
    pub key: String,
    pub value: String,
    pub enabled: bool,
}

impl View for HttpRequestParam {
    type V = (Seq<char>, Seq<char>, bool);

    open spec fn view(&self) -> (Seq<char>, Seq<char>, bool) {
        (self.key@, self.value@, self.enabled)
    }
}

pub struct HttpFormDataItem {
    pub key: String,
    pub value: String,
    /// `"text"` or `"file"`.
    pub item_type: String,
    pub enabled: bool,
}

pub struct HttpResponse {
    pub status: u16,
    pub status_text: String,
    pub headers: Vec<HttpResponseHeader>,
    pub body: String,
    pub time_ms: u64,
    pub size_bytes: usize,
}

pub struct HttpResponseHeader {
    pub key: String,
    pub value: String,
}

/// A byte that percent-encoding leaves as it is.
pub open spec fn unreserved(b: u8) -> bool {
    (48 <= b <= 57) || (65 <= b <= 90) || (97 <= b <= 122) || b == 45 || b == 46 || b == 95 || b == 126
}

/// The upper-case hexadecimal digit of `d` (below 16).
pub open spec fn hex_digit(d: u8) -> char {
    if d < 10 {
        (48 + d) as char
    } else {
        (55 + d) as char
    }
}

/// Percent-encoding of a byte string.
pub open spec fn percent_encoded(b: Seq<u8>) -> Seq<char>
    decreases b.len(),
{
    if b.len() == 0 {
        Seq::empty()
    } else {
        let last = b.last();
        let tail = if unreserved(last) {
            seq![last as char]
        } else {
            seq!['%', hex_digit(last / 16), hex_digit(last % 16)]
        };
        percent_encoded(b.drop_last()) + tail
    }
}

/// Relies on urlencoding::encode: every byte of the UTF-8 text but ASCII
/// letters, digits and `-._~` becomes `%` and two upper-case hex digits.
#[verifier::external_body]
fn url_encode(s: &str) -> (r: String)
    ensures
        r@ == percent_encoded(encode_utf8(s@)),
{
    urlencoding::encode(s).into_owned()
}

/// A parameter that goes into the query: switched on, with a key.
pub open spec fn sent(p: (Seq<char>, Seq<char>, bool)) -> bool {
    p.2 && p.0.len() > 0
}

/// The `key=value` pairs of the parameters that are sent, joined by `&`.
pub open spec fn query_of(params: Seq<(Seq<char>, Seq<char>, bool)>) -> Seq<char>
    decreases params.len(),
{
    if params.len() == 0 {
        Seq::empty()
    } else {
        let p = params.last();
        let front = query_of(params.drop_last());
        if !sent(p) {
            front
        } else {
            let pair = percent_encoded(encode_utf8(p.0)) + "="@ + percent_encoded(encode_utf8(p.1));
            if front.len() == 0 {
                pair
            } else {
                front + "&"@ + pair
            }
        }
    }
}

/// `url` with the query of `params` appended: after `?`, or after `&` where
/// the URL holds a `?` already; `url` itself where no parameter is sent.
pub open spec fn url_with_query(url: Seq<char>, params: Seq<(Seq<char>, Seq<char>, bool)>) -> Seq<char> {
    let q = query_of(params);
    if q.len() == 0 {
        url
    } else if encode_utf8(url).contains(63u8) {
        url + "&"@ + q
    } else {
        url + "?"@ + q
    }
}

fn holds_question_mark(s: &str) -> (r: bool)
    ensures
        r == encode_utf8(s@).contains(63u8),
{
    let bytes = s.as_bytes();
    let mut i: usize = 0;
    while i < bytes.len()
        invariant
            i <= bytes.len(),
            bytes@ == encode_utf8(s@),
            forall|j: int| 0 <= j < i ==> bytes@[j] != 63u8,
        decreases bytes.len() - i,
    {
        if bytes[i] == 63u8 {
            return true;
        }
        i += 1;
    }
    false
}

/// The URL that `url` and `params` send a request to.
pub fn build_url(url: &str, params: &Vec<HttpRequestParam>) -> (r: String)
    ensures
        r@ == url_with_query(url@, views(params@)),
{
    let mut query = String::new();
    let mut i: usize = 0;
    proof {
        reveal_strlit("=");
        reveal_strlit("&");
        reveal_strlit("?");
        assert(views(params@).take(0) =~= Seq::<(Seq<char>, Seq<char>, bool)>::empty());
    }
    while i < params.len()
        invariant
            i <= params.len(),
            query@ == query_of(views(params@).take(i as int)),
        decreases params.len() - i,
    {
        let p = &params[i];
        proof {
            assert(views(params@).take(i + 1).drop_last() =~= views(params@).take(i as int));
            assert(views(params@)[i as int] == p@);
        }
        if p.enabled && !p.key.as_str().is_empty() {
            let key = url_encode(p.key.as_str());
            let value = url_encode(p.value.as_str());
            if !query.as_str().is_empty() {
                query.append("&");
            }
            query.append(key.as_str());
            query.append("=");
            query.append(value.as_str());
        }
        i += 1;
    }
    proof {
        assert(views(params@).take(params.len() as int) =~= views(params@));
    }
    if query.as_str().is_empty() {
        return url.to_owned();
    }
    let mut out = url.to_owned();
    if holds_question_mark(url) {
        out.append("&");
    } else {
        out.append("?");
    }
    out.append(query.as_str());
    out
}

} // verus!
