//! The order of a group's children: files before groups, then by name in
//! natural order, then by identifier; `Frameworks` and `Products` go last
//! where `Products` is among them.
use vstd::prelude::*;
use crate::graph::{PbxGraph, PbxValue, PVal, all_items_view, lemma_items_view};
use crate::natural::{natural_from, natural_group_cmp};
use crate::rules::{value_comment_spec, pbx_value_comment};
use crate::smap::{lookup, entries_view, keys_sorted, smap_find};
use crate::text::{lex_lt, str_lt, str_eq, string_from, concat3};

verus! {

/// A child of a group that is itself a group or a folder.
pub open spec fn group_or_folder(g: PbxGraph, v: PVal) -> bool {
    match v {
        PVal::Ref(id, _) => match lookup(g.objs(), id) {
            Some(o) => o.isa == "PBXGroup"@ || o.isa == "PBXVariantGroup"@ || o.isa == "XCVersionGroup"@
                || o.isa == "PBXFileSystemSynchronizedRootGroup"@ || (o.isa == "PBXFileReference"@ && lookup(
                o.fields,
                "lastKnownFileType"@,
            ) == Some(PVal::Str("folder"@))),
            None => false,
        },
        _ => false,
    }
}

/// A string field of the object a child refers to.
pub open spec fn child_string_field(g: PbxGraph, v: PVal, key: Seq<char>) -> Option<Seq<char>> {
    match v {
        PVal::Ref(id, _) => match lookup(g.objs(), id) {
            Some(o) => match lookup(o.fields, key) {
                Some(PVal::Str(s)) => Some(s),
                _ => None,
            },
            None => None,
        },
        _ => None,
    }
}

/// The text a child is ordered by: its name (or path, or comment), its
/// name and its path, separated by tabs.
pub open spec fn child_sort_text(g: PbxGraph, v: PVal) -> Seq<char> {
    if v is Ref {
        let name = child_string_field(g, v, "name"@);
        let path = child_string_field(g, v, "path"@);
        let first = match name {
            Some(n) => n,
            None => match path {
                Some(p) => p,
                None => value_comment_spec(v),
            },
        };
        first + "\t"@ + (match name {
            Some(n) => n,
            None => Seq::empty(),
        }) + "\t"@ + match path {
            Some(p) => p,
            None => Seq::empty(),
        }
    } else {
        value_comment_spec(v)
    }
}

/// The identifier a child refers to.
pub open spec fn child_id(v: PVal) -> Option<Seq<char>> {
    match v {
        PVal::Ref(id, _) => Some(id),
        _ => None,
    }
}

/// Whether child `a` is ordered strictly before child `b`.
pub open spec fn child_before(g: PbxGraph, a: PVal, b: PVal) -> bool {
    let oa: int = if group_or_folder(g, a) { 1 } else { 0 };
    let ob: int = if group_or_folder(g, b) { 1 } else { 0 };
    if oa != ob {
        oa < ob
    } else {
        let c = natural_from(
            vstd::utf8::encode_utf8(child_sort_text(g, a)),
            vstd::utf8::encode_utf8(child_sort_text(g, b)),
            0,
            0,
            true,
        );
        if c != 0 {
            c < 0
        } else {
            match (child_id(a), child_id(b)) {
                (None, Some(_)) => true,
                (Some(x), Some(y)) => lex_lt(x, y),
                _ => false,
            }
        }
    }
}

/// Stable insertion of a child into ordered children.
pub open spec fn ins_child(g: PbxGraph, s: Seq<PVal>, x: PVal) -> Seq<PVal>
    decreases s.len(),
{
    if s.len() == 0 {
        seq![x]
    } else if child_before(g, x, s.last()) {
        ins_child(g, s.drop_last(), x).push(s.last())
    } else {
        s.push(x)
    }
}

/// The first `n` children stably ordered.
pub open spec fn sort_children(g: PbxGraph, s: Seq<PVal>, n: int) -> Seq<PVal>
    decreases n,
{
    if n <= 0 || n > s.len() {
        Seq::empty()
    } else {
        ins_child(g, sort_children(g, s, n - 1), s[n - 1])
    }
}

/// Children that go last.
pub open spec fn is_late(v: PVal) -> bool {
    value_comment_spec(v) == "Frameworks"@ || value_comment_spec(v) == "Products"@
}

/// The first `n` children that go last (or, with `late` false, the others).
pub open spec fn keep_late(s: Seq<PVal>, n: int, late: bool) -> Seq<PVal>
    decreases n,
{
    if n <= 0 || n > s.len() {
        Seq::empty()
    } else if is_late(s[n - 1]) == late {
        keep_late(s, n - 1, late).push(s[n - 1])
    } else {
        keep_late(s, n - 1, late)
    }
}

/// Whether a child's comment is `Products`.
pub open spec fn has_products(s: Seq<PVal>) -> bool {
    exists|i: int| 0 <= i < s.len() && value_comment_spec(#[trigger] s[i]) == "Products"@
}

/// A group's children in the order they are written; the children of
/// `Products` and `Carthage` keep their order.
pub open spec fn group_children_order(g: PbxGraph, group_name: Seq<char>, children: Seq<PVal>) -> Seq<PVal> {
    if group_name == "Products"@ || group_name == "Carthage"@ {
        children
    } else {
        let s = sort_children(g, children, children.len() as int);
        if has_products(s) {
            keep_late(s, s.len() as int, false) + keep_late(s, s.len() as int, true)
        } else {
            s
        }
    }
}

fn string_field_of(graph: &PbxGraph, v: &PbxValue, key: &str) -> (r: Option<String>)
    requires
        graph.wf(),
    ensures
        match r {
            Some(s) => child_string_field(*graph, v@, key@) == Some(s@),
            None => child_string_field(*graph, v@, key@) is None,
        },
{
    match v {
        PbxValue::Ref { id, .. } => match smap_find(&graph.objects, id.as_str()) {
            Some(i) => {
                let o = &graph.objects[i].1;
                proof {
                    assert(graph.objects@[i as int].1.wf());
                }
                match smap_find(&o.fields, key) {
                    Some(j) => match &o.fields[j].1 {
                        PbxValue::String(s) => Some(s.clone()),
                        _ => None,
                    },
                    None => None,
                }
            },
            None => None,
        },
        _ => None,
    }
}

/// The text a child is ordered by.
pub fn group_child_name_path_sort_string(graph: &PbxGraph, child: &PbxValue) -> (r: String)
    requires
        graph.wf(),
    ensures
        r@ == child_sort_text(*graph, child@),
{
    match child {
        PbxValue::Ref { .. } => {
            let name = string_field_of(graph, child, "name");
            let path = string_field_of(graph, child, "path");
            let first = match &name {
                Some(n) => n.clone(),
                None => match &path {
                    Some(p) => p.clone(),
                    None => pbx_value_comment(child),
                },
            };
            let n = match &name {
                Some(n) => n.clone(),
                None => String::new(),
            };
            let p = match &path {
                Some(p) => p.clone(),
                None => String::new(),
            };
            let s = concat3(first.as_str(), "\t", n.as_str());
            concat3(s.as_str(), "\t", p.as_str())
        },
        _ => pbx_value_comment(child),
    }
}

/// Whether a child is a group or a folder.
pub fn group_child_is_group_or_folder(graph: &PbxGraph, child: &PbxValue) -> (r: bool)
    requires
        graph.wf(),
    ensures
        r == group_or_folder(*graph, child@),
{
    match child {
        PbxValue::Ref { id, .. } => match smap_find(&graph.objects, id.as_str()) {
            Some(i) => {
                let o = &graph.objects[i].1;
                proof {
                    assert(graph.objects@[i as int].1.wf());
                }
                let isa = o.isa.as_str();
                if str_eq(isa, "PBXGroup") || str_eq(isa, "PBXVariantGroup") || str_eq(isa, "XCVersionGroup") || str_eq(
                    isa,
                    "PBXFileSystemSynchronizedRootGroup",
                ) {
                    true
                } else if str_eq(isa, "PBXFileReference") {
                    match smap_find(&o.fields, "lastKnownFileType") {
                        Some(j) => match &o.fields[j].1 {
                            PbxValue::String(s) => str_eq(s.as_str(), "folder"),
                            _ => false,
                        },
                        None => false,
                    }
                } else {
                    false
                }
            },
            None => false,
        },
        _ => false,
    }
}

/// Whether one child is ordered strictly before another.
fn child_is_before(graph: &PbxGraph, a: &PbxValue, b: &PbxValue) -> (r: bool)
    requires
        graph.wf(),
    ensures
        r == child_before(*graph, a@, b@),
{
    let ga = group_child_is_group_or_folder(graph, a);
    let gb = group_child_is_group_or_folder(graph, b);
    if ga != gb {
        return !ga;
    }
    let sa = group_child_name_path_sort_string(graph, a);
    let sb = group_child_name_path_sort_string(graph, b);
    match natural_group_cmp(sa.as_str(), sb.as_str()) {
        std::cmp::Ordering::Less => true,
        std::cmp::Ordering::Greater => false,
        std::cmp::Ordering::Equal => match (a, b) {
            (PbxValue::Ref { id: x, .. }, PbxValue::Ref { id: y, .. }) => str_lt(x.as_str(), y.as_str()),
            (PbxValue::Ref { .. }, _) => false,
            (_, PbxValue::Ref { .. }) => true,
            _ => false,
        },
    }
}

proof fn lemma_ins_child(g: PbxGraph, s: Seq<PVal>, x: PVal, p: int)
    requires
        0 <= p <= s.len(),
        forall|q: int| p <= q < s.len() ==> child_before(g, x, #[trigger] s[q]),
        p > 0 ==> !child_before(g, x, s[p - 1]),
    ensures
        ins_child(g, s, x) == s.take(p).push(x) + s.skip(p),
    decreases s.len(),
{
    if s.len() == 0 {
        assert(s.take(p).push(x) + s.skip(p) =~= seq![x]);
    } else if p == s.len() {
        assert(s.take(p) =~= s);
        assert(s.take(p).push(x) + s.skip(p) =~= s.push(x));
    } else {
        let d = s.drop_last();
        assert forall|q: int| p <= q < d.len() implies child_before(g, x, #[trigger] d[q]) by {
            assert(d[q] == s[q]);
        }
        if p > 0 {
            assert(d[p - 1] == s[p - 1]);
        }
        lemma_ins_child(g, d, x, p);
        assert(d.take(p) =~= s.take(p));
        assert(d.skip(p).push(s.last()) =~= s.skip(p));
        assert((d.take(p).push(x) + d.skip(p)).push(s.last()) =~= s.take(p).push(x) + s.skip(p));
    }
}

fn sort_group_children(graph: &PbxGraph, values: Vec<PbxValue>) -> (r: Vec<PbxValue>)
    requires
        graph.wf(),
    ensures
        all_items_view(r@) == sort_children(*graph, all_items_view(values@), values@.len() as int),
{
    let ghost all = all_items_view(values@);
    proof {
        lemma_items_view(values@, values@.len() as int);
    }
    let total = values.len();
    let mut rest = values;
    let ghost orig = rest@;
    let mut out: Vec<PbxValue> = Vec::new();
    let mut i: usize = 0;
    proof {
        lemma_items_view(out@, 0);
    }
    while rest.len() > 0
        invariant
            graph.wf(),
            total == orig.len(),
            all == all_items_view(orig),
            all.len() == orig.len(),
            forall|q: int| 0 <= q < orig.len() ==> #[trigger] all[q] == orig[q]@,
            i <= orig.len(),
            rest@ == orig.skip(i as int),
            all_items_view(out@) == sort_children(*graph, all, i as int),
        decreases rest.len(),
    {
        let x = rest.remove(0);
        proof {
            assert(orig[i as int] == x);
            lemma_items_view(out@, out@.len() as int);
        }
        let ghost os = all_items_view(out@);
        let mut p: usize = out.len();
        while p > 0 && child_is_before(graph, &x, &out[p - 1])
            invariant
                graph.wf(),
                p <= out@.len(),
                os == all_items_view(out@),
                os.len() == out@.len(),
                forall|q: int| 0 <= q < out@.len() ==> #[trigger] os[q] == out@[q]@,
                forall|q: int| p <= q < os.len() ==> child_before(*graph, x@, #[trigger] os[q]),
            decreases p,
        {
            p = p - 1;
        }
        proof {
            if p > 0 {
                assert(os[p - 1] == out@[p - 1]@);
            }
            lemma_ins_child(*graph, os, x@, p as int);
            assert(all[i as int] == x@);
        }
        let ghost before = out@;
        out.insert(p, x);
        proof {
            lemma_items_view(out@, out@.len() as int);
            assert(all_items_view(out@) =~= os.take(p as int).push(x@) + os.skip(p as int)) by {
                assert forall|q: int| 0 <= q < out@.len() implies #[trigger] all_items_view(out@)[q] == (os.take(p as int).push(x@) + os.skip(p as int))[q] by {
                    if q < p {
                        assert(out@[q] == before[q]);
                    } else if q > p {
                        assert(out@[q] == before[q - 1]);
                    }
                }
            }
            assert(rest@ =~= orig.skip(i + 1));
        }
        i = i + 1;
    }
    proof {
        assert(i == orig.len());
    }
    out
}

fn is_late_value(v: &PbxValue) -> (r: bool)
    ensures
        r == is_late(v@),
{
    let c = pbx_value_comment(v);
    str_eq(c.as_str(), "Frameworks") || str_eq(c.as_str(), "Products")
}

/// A group's children in the order they are written.
pub fn sorted_group_children(graph: &PbxGraph, group_name: &str, children: Vec<PbxValue>) -> (r: Vec<PbxValue>)
    requires
        graph.wf(),
    ensures
        all_items_view(r@) == group_children_order(*graph, group_name@, all_items_view(children@)),
{
    if str_eq(group_name, "Products") || str_eq(group_name, "Carthage") {
        return children;
    }
    proof {
        lemma_items_view(children@, children@.len() as int);
    }
    let sorted = sort_group_children(graph, children);
    let ghost sv = all_items_view(sorted@);
    proof {
        lemma_items_view(sorted@, sorted@.len() as int);
    }
    let mut any_products = false;
    let mut i: usize = 0;
    while i < sorted.len()
        invariant
            sv == all_items_view(sorted@),
            sv.len() == sorted@.len(),
            forall|q: int| 0 <= q < sorted@.len() ==> #[trigger] sv[q] == sorted@[q]@,
            i <= sorted@.len(),
            any_products == exists|q: int| 0 <= q < i && value_comment_spec(#[trigger] sv[q]) == "Products"@,
        decreases sorted.len() - i,
    {
        let c = pbx_value_comment(&sorted[i]);
        if str_eq(c.as_str(), "Products") {
            any_products = true;
        }
        proof {
            assert(sv[i as int] == sorted@[i as int]@);
        }
        i = i + 1;
    }
    if !any_products {
        return sorted;
    }
    let mut early: Vec<PbxValue> = Vec::new();
    let mut late: Vec<PbxValue> = Vec::new();
    proof {
        lemma_items_view(early@, 0);
        lemma_items_view(late@, 0);
    }
    let total = sorted.len();
    let mut rest = sorted;
    let ghost orig = rest@;
    let mut k: usize = 0;
    while rest.len() > 0
        invariant
            sv == all_items_view(orig),
            sv.len() == orig.len(),
            total == orig.len(),
            forall|q: int| 0 <= q < orig.len() ==> #[trigger] sv[q] == orig[q]@,
            k <= orig.len(),
            rest@ == orig.skip(k as int),
            all_items_view(early@) == keep_late(sv, k as int, false),
            all_items_view(late@) == keep_late(sv, k as int, true),
        decreases rest.len(),
    {
        let x = rest.remove(0);
        proof {
            assert(orig[k as int] == x);
            assert(sv[k as int] == x@);
        }
        let is_l = is_late_value(&x);
        if is_l {
            let ghost b = late@;
            late.push(x);
            proof {
                lemma_items_view(late@, late@.len() as int);
                lemma_items_view(b, b.len() as int);
                assert(all_items_view(late@) =~= all_items_view(b).push(sv[k as int]));
            }
        } else {
            let ghost b = early@;
            early.push(x);
            proof {
                lemma_items_view(early@, early@.len() as int);
                lemma_items_view(b, b.len() as int);
                assert(all_items_view(early@) =~= all_items_view(b).push(sv[k as int]));
            }
        }
        proof {
            assert(rest@ =~= orig.skip(k + 1));
        }
        k = k + 1;
    }
    let ghost e0 = early@;
    let ghost l0 = late@;
    let mut late = late;
    early.append(&mut late);
    proof {
        lemma_items_view(early@, early@.len() as int);
        lemma_items_view(e0, e0.len() as int);
        lemma_items_view(l0, l0.len() as int);
        assert(early@ == e0 + l0);
        assert(all_items_view(early@) =~= all_items_view(e0) + all_items_view(l0)) by {
            assert forall|q: int| 0 <= q < early@.len() implies #[trigger] all_items_view(early@)[q] == (all_items_view(e0) + all_items_view(l0))[q] by {
                if q < e0.len() {
                    assert(early@[q] == e0[q]);
                } else {
                    assert(early@[q] == l0[q - e0.len()]);
                }
            }
        }
    }
    early
}

proof fn lemma_ins_child_below(g: PbxGraph, s: Seq<PVal>, x: PVal, d: nat)
    requires
        crate::depth::items_below(s, d),
        crate::graph::pdepth(x) < d,
    ensures
        crate::depth::items_below(ins_child(g, s, x), d),
    decreases s.len(),
{
    if s.len() > 0 && child_before(g, x, s.last()) {
        let dd = s.drop_last();
        assert forall|i: int| 0 <= i < dd.len() implies crate::graph::pdepth(#[trigger] dd[i]) < d by {
            assert(dd[i] == s[i]);
        }
        lemma_ins_child_below(g, dd, x, d);
        let r = ins_child(g, dd, x).push(s.last());
        assert forall|i: int| 0 <= i < r.len() implies crate::graph::pdepth(#[trigger] r[i]) < d by {
            if i < r.len() - 1 {
                assert(r[i] == ins_child(g, dd, x)[i]);
            }
        }
    } else if s.len() > 0 {
        let r = s.push(x);
        assert forall|i: int| 0 <= i < r.len() implies crate::graph::pdepth(#[trigger] r[i]) < d by {
            if i < s.len() {
                assert(r[i] == s[i]);
            }
        }
    }
}

proof fn lemma_sort_children_below(g: PbxGraph, s: Seq<PVal>, n: int, d: nat)
    requires
        crate::depth::items_below(s, d),
        0 <= n <= s.len(),
    ensures
        crate::depth::items_below(sort_children(g, s, n), d),
    decreases n,
{
    if n > 0 {
        lemma_sort_children_below(g, s, n - 1, d);
        lemma_ins_child_below(g, sort_children(g, s, n - 1), s[n - 1], d);
    }
}

proof fn lemma_keep_late_below(s: Seq<PVal>, n: int, late: bool, d: nat)
    requires
        crate::depth::items_below(s, d),
        0 <= n <= s.len(),
    ensures
        crate::depth::items_below(keep_late(s, n, late), d),
    decreases n,
{
    if n > 0 {
        lemma_keep_late_below(s, n - 1, late, d);
        let k = keep_late(s, n - 1, late);
        if is_late(s[n - 1]) == late {
            let r = k.push(s[n - 1]);
            assert forall|i: int| 0 <= i < r.len() implies crate::graph::pdepth(#[trigger] r[i]) < d by {
                if i < k.len() {
                    assert(r[i] == k[i]);
                }
            }
        }
    }
}

/// Ordering a group's children keeps them as shallow as they were.
pub proof fn lemma_group_children_below(g: PbxGraph, group_name: Seq<char>, s: Seq<PVal>, d: nat)
    requires
        crate::depth::items_below(s, d),
    ensures
        crate::depth::items_below(group_children_order(g, group_name, s), d),
{
    if !(group_name == "Products"@ || group_name == "Carthage"@) {
        lemma_sort_children_below(g, s, s.len() as int, d);
        let t = sort_children(g, s, s.len() as int);
        if has_products(t) {
            lemma_keep_late_below(t, t.len() as int, false, d);
            lemma_keep_late_below(t, t.len() as int, true, d);
            let a = keep_late(t, t.len() as int, false);
            let b = keep_late(t, t.len() as int, true);
            assert forall|i: int| 0 <= i < (a + b).len() implies crate::graph::pdepth(#[trigger] (a + b)[i]) < d by {
                if i < a.len() {
                    assert((a + b)[i] == a[i]);
                } else {
                    assert((a + b)[i] == b[i - a.len()]);
                }
            }
        }
    }
}

} // verus!
