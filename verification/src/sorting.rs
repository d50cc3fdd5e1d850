//! Stable ordering of references by their comments, in natural or in plain
//! byte order.
use vstd::prelude::*;
use vstd::string::StringSliceAdditionalSpecFns;
use crate::graph::{PbxValue, PVal, all_items_view, lemma_items_view};
use crate::natural::{natural_from, natural_cmp};
use crate::rules::{value_comment_spec, pbx_value_comment};
use crate::text::{lex_lt, str_lt};

verus! {

/// Whether reference `a` is ordered strictly before `b` by comment.
pub open spec fn comment_before(a: PVal, b: PVal, natural: bool) -> bool {
    if natural {
        natural_from(
            vstd::utf8::encode_utf8(value_comment_spec(a)),
            vstd::utf8::encode_utf8(value_comment_spec(b)),
            0,
            0,
            false,
        ) < 0
    } else {
        lex_lt(value_comment_spec(a), value_comment_spec(b))
    }
}

/// Stable insertion of `x` into an ordered sequence.
pub open spec fn ins_by_comment(s: Seq<PVal>, x: PVal, natural: bool) -> Seq<PVal>
    decreases s.len(),
{
    if s.len() == 0 {
        seq![x]
    } else if comment_before(x, s.last(), natural) {
        ins_by_comment(s.drop_last(), x, natural).push(s.last())
    } else {
        s.push(x)
    }
}

/// The first `n` values stably sorted by comment.
pub open spec fn sort_by_comment(s: Seq<PVal>, n: int, natural: bool) -> Seq<PVal>
    decreases n,
{
    if n <= 0 || n > s.len() {
        Seq::empty()
    } else {
        ins_by_comment(sort_by_comment(s, n - 1, natural), s[n - 1], natural)
    }
}

proof fn lemma_ins_by_comment(s: Seq<PVal>, x: PVal, natural: bool, p: int)
    requires
        0 <= p <= s.len(),
        forall|q: int| p <= q < s.len() ==> comment_before(x, #[trigger] s[q], natural),
        p > 0 ==> !comment_before(x, s[p - 1], natural),
    ensures
        ins_by_comment(s, x, natural) == s.take(p).push(x) + s.skip(p),
    decreases s.len(),
{
    if s.len() == 0 {
        assert(s.take(p).push(x) + s.skip(p) =~= seq![x]);
    } else if p == s.len() {
        assert(s.take(p) =~= s);
        assert(s.take(p).push(x) + s.skip(p) =~= s.push(x));
    } else {
        let d = s.drop_last();
        assert forall|q: int| p <= q < d.len() implies comment_before(x, #[trigger] d[q], natural) by {
            assert(d[q] == s[q]);
        }
        if p > 0 {
            assert(d[p - 1] == s[p - 1]);
        }
        lemma_ins_by_comment(d, x, natural, p);
        assert(d.take(p) =~= s.take(p));
        assert(d.skip(p).push(s.last()) =~= s.skip(p));
        assert((d.take(p).push(x) + d.skip(p)).push(s.last()) =~= s.take(p).push(x) + s.skip(p));
    }
}

fn is_before(x: &PbxValue, y: &PbxValue, natural: bool) -> (r: bool)
    ensures
        r == comment_before(x@, y@, natural),
{
    let a = pbx_value_comment(x);
    let b = pbx_value_comment(y);
    if natural {
        match natural_cmp(a.as_str(), b.as_str()) {
            std::cmp::Ordering::Less => true,
            _ => false,
        }
    } else {
        str_lt(a.as_str(), b.as_str())
    }
}

/// References stably sorted by their comments (`sort_by` on the comments).
pub fn sort_refs_by_comment(values: Vec<PbxValue>, natural: bool) -> (r: Vec<PbxValue>)
    ensures
        all_items_view(r@) == sort_by_comment(all_items_view(values@), values@.len() as int, natural),
{
    let ghost all = all_items_view(values@);
    proof {
        lemma_items_view(values@, values@.len() as int);
    }
    let total = values.len();
    let mut rest = values;
    let ghost orig = rest@;
    let mut out: Vec<PbxValue> = Vec::new();
    let mut i: usize = 0;
    proof {
        lemma_items_view(out@, 0);
    }
    while rest.len() > 0
        invariant
            total == orig.len(),
            all == all_items_view(orig),
            all.len() == orig.len(),
            forall|q: int| 0 <= q < orig.len() ==> #[trigger] all[q] == orig[q]@,
            i <= orig.len(),
            rest@ == orig.skip(i as int),
            all_items_view(out@) == sort_by_comment(all, i as int, natural),
        decreases rest.len(),
    {
        let x = rest.remove(0);
        proof {
            assert(orig[i as int] == x);
            lemma_items_view(out@, out@.len() as int);
        }
        let ghost os = all_items_view(out@);
        let mut p: usize = out.len();
        while p > 0 && is_before(&x, &out[p - 1], natural)
            invariant
                p <= out@.len(),
                os == all_items_view(out@),
                os.len() == out@.len(),
                forall|q: int| 0 <= q < out@.len() ==> #[trigger] os[q] == out@[q]@,
                forall|q: int| p <= q < os.len() ==> comment_before(x@, #[trigger] os[q], natural),
            decreases p,
        {
            p = p - 1;
        }
        proof {
            if p > 0 {
                assert(os[p - 1] == out@[p - 1]@);
            }
            lemma_ins_by_comment(os, x@, natural, p as int);
            assert(all[i as int] == x@);
        }
        let ghost before = out@;
        out.insert(p, x);
        proof {
            lemma_items_view(out@, out@.len() as int);
            assert(all_items_view(out@) =~= os.take(p as int).push(x@) + os.skip(p as int)) by {
                assert forall|q: int| 0 <= q < out@.len() implies #[trigger] all_items_view(out@)[q] == (os.take(p as int).push(x@) + os.skip(p as int))[q] by {
                    if q < p {
                        assert(out@[q] == before[q]);
                    } else if q > p {
                        assert(out@[q] == before[q - 1]);
                    }
                }
            }
            assert(rest@ =~= orig.skip(i + 1));
        }
        i = i + 1;
    }
    proof {
        assert(i == orig.len());
    }
    out
}

} // verus!
