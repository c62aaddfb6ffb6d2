//! Ordering by display name: the byte-wise lexicographic order of the UTF-8
//! text, which is the order of `str`.
use vstd::prelude::*;
use vstd::utf8::encode_utf8;

verus! {

broadcast use vstd::seq_lib::group_to_multiset_ensures, vstd::multiset::group_multiset_axioms;

/// A value listed in order of its name.
pub trait Named {
    spec fn name_view(&self) -> Seq<char>;

    fn name_str(&self) -> (r: &str)
        ensures
            r@ == self.name_view();
}

/// `a` comes no later than `b` in lexicographic byte order.
pub open spec fn bytes_le(a: Seq<u8>, b: Seq<u8>) -> bool
    decreases a.len(),
{
    if a.len() == 0 {
        true
    } else if b.len() == 0 {
        false
    } else if a[0] != b[0] {
        a[0] < b[0]
    } else {
        bytes_le(a.drop_first(), b.drop_first())
    }
}

/// Name `a` sorts no later than name `b`.
pub open spec fn name_le(a: Seq<char>, b: Seq<char>) -> bool {
    bytes_le(encode_utf8(a), encode_utf8(b))
}

/// The views of the values, in their order.
pub open spec fn views<T: View>(s: Seq<T>) -> Seq<T::V> {
    s.map_values(|x: T| x@)
}

/// The values stand in order of their names.
pub open spec fn sorted_by_name<T: Named>(s: Seq<T>) -> bool {
    forall|i: int, j: int| 0 <= i < j < s.len() ==> name_le(#[trigger] s[i].name_view(), #[trigger] s[j].name_view())
}

pub proof fn lemma_bytes_le_total(a: Seq<u8>, b: Seq<u8>)
    ensures
        bytes_le(a, b) || bytes_le(b, a),
    decreases a.len(),
{
    if a.len() > 0 && b.len() > 0 && a[0] == b[0] {
        lemma_bytes_le_total(a.drop_first(), b.drop_first());
    }
}

pub proof fn lemma_bytes_le_trans(a: Seq<u8>, b: Seq<u8>, c: Seq<u8>)
    requires
        bytes_le(a, b),
        bytes_le(b, c),
    ensures
        bytes_le(a, c),
    decreases a.len(),
{
    if a.len() > 0 && b.len() > 0 && c.len() > 0 && a[0] == b[0] && b[0] == c[0] {
        lemma_bytes_le_trans(a.drop_first(), b.drop_first(), c.drop_first());
    }
}

/// Compares two byte strings in lexicographic order.
pub fn bytes_le_exec(a: &[u8], b: &[u8]) -> (r: bool)
    ensures
        r == bytes_le(a@, b@),
{
    let mut i: usize = 0;
    assert(a@.subrange(0, a@.len() as int) =~= a@);
    assert(b@.subrange(0, b@.len() as int) =~= b@);
    while i < a.len() && i < b.len()
        invariant
            i <= a.len(),
            i <= b.len(),
            bytes_le(a@, b@) == bytes_le(a@.subrange(i as int, a@.len() as int), b@.subrange(i as int, b@.len() as int)),
        decreases a.len() - i,
    {
        let ghost sa = a@.subrange(i as int, a@.len() as int);
        let ghost sb = b@.subrange(i as int, b@.len() as int);
        if a[i] != b[i] {
            return a[i] < b[i];
        }
        assert(sa.drop_first() =~= a@.subrange(i + 1, a@.len() as int));
        assert(sb.drop_first() =~= b@.subrange(i + 1, b@.len() as int));
        i += 1;
    }
    i == a.len()
}

/// Name `a` sorts no later than name `b`.
pub fn name_le_exec(a: &str, b: &str) -> (r: bool)
    ensures
        r == name_le(a@, b@),
{
    bytes_le_exec(a.as_bytes(), b.as_bytes())
}

/// The values, in order of their names.
pub fn sort_by_name<T: Named + View>(v: Vec<T>) -> (r: Vec<T>)
    ensures
        sorted_by_name(r@),
        views(r@).to_multiset() == views(v@).to_multiset(),
{
    let mut out: Vec<T> = Vec::new();
    let mut rest = v;
    while rest.len() > 0
        invariant
            sorted_by_name(out@),
            views(out@).to_multiset().add(views(rest@).to_multiset()) == views(v@).to_multiset(),
        decreases rest.len(),
    {
        let ghost before = rest@;
        let x = rest.pop().unwrap();
        assert(before =~= rest@.push(x));
        assert(views(before) =~= views(rest@).push(x@));
        let mut p: usize = 0;
        while p < out.len() && name_le_exec(out[p].name_str(), x.name_str())
            invariant
                p <= out.len(),
                forall|k: int| 0 <= k < p ==> name_le(#[trigger] out@[k].name_view(), x.name_view()),
            decreases out.len() - p,
        {
            p += 1;
        }
        proof {
            if p < out.len() {
                lemma_bytes_le_total(encode_utf8(out@[p as int].name_view()), encode_utf8(x.name_view()));
                assert forall|k: int| p <= k < out.len() implies name_le(x.name_view(), #[trigger] out@[k].name_view()) by {
                    if k > p {
                        lemma_bytes_le_trans(encode_utf8(x.name_view()), encode_utf8(out@[p as int].name_view()), encode_utf8(out@[k].name_view()));
                    }
                }
            }
        }
        let ghost prev = out@;
        out.insert(p, x);
        assert(views(out@) =~= views(prev).insert(p as int, x@));
        assert forall|i: int, j: int| 0 <= i < j < out@.len() implies name_le(#[trigger] out@[i].name_view(), #[trigger] out@[j].name_view()) by {
            if j < p {
                assert(out@[i] == prev[i] && out@[j] == prev[j]);
            } else if j == p {
                assert(out@[i] == prev[i]);
            } else if i == p {
                assert(out@[j] == prev[j - 1]);
            } else if i < p {
                assert(out@[i] == prev[i] && out@[j] == prev[j - 1]);
                lemma_bytes_le_trans(encode_utf8(prev[i].name_view()), encode_utf8(x.name_view()), encode_utf8(prev[j - 1].name_view()));
            } else {
                assert(out@[i] == prev[i - 1] && out@[j] == prev[j - 1]);
            }
        }
    }
    assert(views(rest@) =~= Seq::<T::V>::empty());
    assert(views(out@).to_multiset().add(views(rest@).to_multiset()) =~= views(out@).to_multiset());
    out
}

} // verus!
