//! Bounds on how deeply values nest, so that a graph built from a project
//! can always be written.
use vstd::prelude::*;
use crate::graph::{PVal, OView, PbxGraph, pdepth, arr_depth, dict_depth, add_post, merge_post, merge_lookup, merge_children, lemma_arr_depth};
use crate::smap::{lookup, keys_sorted, has_key, key_index, lemma_lookup_at, entries_view};
use crate::json::{JsonValue, json_to_pval, json_items, json_dict};
use crate::plist::{jdepth, jitems_depth, jentries_depth};
use crate::smap::sins;

verus! {

/// Every entry of a key-value sequence nests less than `d` deep.
pub open spec fn entries_below(es: Seq<(Seq<char>, PVal)>, d: nat) -> bool {
    forall|i: int| 0 <= i < es.len() ==> pdepth(#[trigger] es[i].1) < d
}

/// Every value of a sequence nests less than `d` deep.
pub open spec fn items_below(vs: Seq<PVal>, d: nat) -> bool {
    forall|i: int| 0 <= i < vs.len() ==> pdepth(#[trigger] vs[i]) < d
}

pub proof fn lemma_dict_depth_below(es: Seq<(Seq<char>, PVal)>, n: int, d: nat)
    requires
        entries_below(es, d),
        0 <= n <= es.len(),
    ensures
        dict_depth(es, n) < d || (n == 0 && dict_depth(es, n) == 0),
        d > 0 ==> dict_depth(es, n) < d,
    decreases n,
{
    if n > 0 {
        lemma_dict_depth_below(es, n - 1, d);
        assert(pdepth(es[n - 1].1) < d);
    }
}

pub proof fn lemma_arr_depth_below(vs: Seq<PVal>, n: int, d: nat)
    requires
        items_below(vs, d),
        0 <= n <= vs.len(),
    ensures
        d > 0 ==> arr_depth(vs, n) < d,
    decreases n,
{
    if n > 0 {
        lemma_arr_depth_below(vs, n - 1, d);
        assert(pdepth(vs[n - 1]) < d);
    }
}

/// A dictionary whose entries nest less than `d` deep nests at most `d` deep.
pub proof fn lemma_dict_below(es: Seq<(Seq<char>, PVal)>, d: nat)
    requires
        entries_below(es, d),
        d > 0,
    ensures
        pdepth(PVal::Dict(es)) <= d,
{
    lemma_dict_depth_below(es, es.len() as int, d);
}

/// An array whose items nest less than `d` deep nests at most `d` deep.
pub proof fn lemma_array_below(vs: Seq<PVal>, d: nat)
    requires
        items_below(vs, d),
        d > 0,
    ensures
        pdepth(PVal::Array(vs)) <= d,
{
    lemma_arr_depth_below(vs, vs.len() as int, d);
}

/// Storing an entry keeps every entry below a bound the new one is below.
pub proof fn lemma_sins_below(s: Seq<(Seq<char>, PVal)>, k: Seq<char>, v: PVal, d: nat)
    requires
        entries_below(s, d),
        pdepth(v) < d,
    ensures
        entries_below(sins(s, k, v), d),
    decreases s.len(),
{
    if s.len() == 0 {
    } else if s[0].0 == k {
        let r = s.update(0, (k, v));
        assert forall|i: int| 0 <= i < r.len() implies pdepth(#[trigger] r[i].1) < d by {
            if i > 0 {
                assert(r[i] == s[i]);
            }
        }
    } else if crate::text::lex_lt(k, s[0].0) {
        let r = seq![(k, v)] + s;
        assert forall|i: int| 0 <= i < r.len() implies pdepth(#[trigger] r[i].1) < d by {
            if i > 0 {
                assert(r[i] == s[i - 1]);
            }
        }
    } else {
        let t = s.drop_first();
        assert forall|i: int| 0 <= i < t.len() implies pdepth(#[trigger] t[i].1) < d by {
            assert(t[i] == s[i + 1]);
        }
        lemma_sins_below(t, k, v, d);
        let r = seq![s[0]] + sins(t, k, v);
        assert forall|i: int| 0 <= i < r.len() implies pdepth(#[trigger] r[i].1) < d by {
            if i > 0 {
                assert(r[i] == sins(t, k, v)[i - 1]);
            }
        }
    }
}

/// A JSON value nests no deeper as a project value than it does itself.
pub proof fn lemma_json_depth(j: &JsonValue)
    ensures
        pdepth(json_to_pval(j)) <= jdepth(j),
    decreases j,
{
    match j {
        JsonValue::Array(items) => {
            lemma_json_items_depth(items@, items@.len() as int);
            lemma_array_below(json_items(items@, items@.len() as int), 1 + jitems_depth(items@, items@.len() as int));
        },
        JsonValue::Object(es) => {
            lemma_json_dict_depth(es@, es@.len() as int);
            lemma_dict_below(json_dict(es@, es@.len() as int), 1 + jentries_depth(es@, es@.len() as int));
        },
        _ => {},
    }
}

proof fn lemma_json_items_depth(items: Seq<JsonValue>, n: int)
    requires
        0 <= n <= items.len(),
    ensures
        json_items(items, n).len() == n,
        items_below(json_items(items, n), 1 + jitems_depth(items, n)),
    decreases items, n,
{
    if n > 0 {
        lemma_json_items_depth(items, n - 1);
        assert(decreases_to!(items => items[n - 1]));
        lemma_json_depth(&items[n - 1]);
        let r = json_items(items, n);
        assert forall|i: int| 0 <= i < r.len() implies pdepth(#[trigger] r[i]) < 1 + jitems_depth(items, n) by {
            if i < n - 1 {
                assert(r[i] == json_items(items, n - 1)[i]);
            }
        }
    }
}

proof fn lemma_json_dict_depth(es: Seq<(String, JsonValue)>, n: int)
    requires
        0 <= n <= es.len(),
    ensures
        entries_below(json_dict(es, n), 1 + jentries_depth(es, n)),
    decreases es, n,
{
    if n > 0 {
        lemma_json_dict_depth(es, n - 1);
        assert(decreases_to!(es => es[n - 1]));
        assert(decreases_to!(es[n - 1] => es[n - 1].1));
        lemma_json_depth(&es[n - 1].1);
        let prev = json_dict(es, n - 1);
        let d: nat = 1 + jentries_depth(es, n);
        assert forall|i: int| 0 <= i < prev.len() implies pdepth(#[trigger] prev[i].1) < d by {}
        lemma_sins_below(prev, es[n - 1].0@, json_to_pval(&es[n - 1].1), d);
    }
}

/// Every field of every object of the graph nests less than `d` deep.
pub open spec fn graph_below(g: PbxGraph, d: nat) -> bool {
    forall|i: int| 0 <= i < g.objs().len() ==> entries_below(#[trigger] g.objs()[i].1.fields, d)
}

/// An object's fields nest less than `d` deep when every value found under
/// a key does.
pub proof fn lemma_fields_below(fields: Seq<(Seq<char>, PVal)>, d: nat)
    requires
        keys_sorted(fields),
        forall|k: Seq<char>| #[trigger] lookup(fields, k) is Some ==> pdepth(lookup(fields, k)->0) < d,
    ensures
        entries_below(fields, d),
{
    assert forall|i: int| 0 <= i < fields.len() implies pdepth(#[trigger] fields[i].1) < d by {
        lemma_lookup_at(fields, i);
        assert(lookup(fields, fields[i].0) is Some);
    }
}

proof fn lemma_objs_below(old: PbxGraph, new: PbxGraph, r: Seq<char>, o: OView, d: nat)
    requires
        graph_below(old, d),
        keys_sorted(old.objs()),
        keys_sorted(new.objs()),
        entries_below(o.fields, d),
        forall|k: Seq<char>| k != r ==> #[trigger] lookup(new.objs(), k) == lookup(old.objs(), k),
        lookup(new.objs(), r) == Some(o),
    ensures
        graph_below(new, d),
{
    assert forall|i: int| 0 <= i < new.objs().len() implies entries_below(#[trigger] new.objs()[i].1.fields, d) by {
        let k = new.objs()[i].0;
        lemma_lookup_at(new.objs(), i);
        if k != r {
            let j = key_index(old.objs(), k);
            assert(has_key(old.objs(), k));
            lemma_lookup_at(old.objs(), j);
            assert(entries_below(old.objs()[j].1.fields, d));
        }
    }
}

/// Adding an object whose fields are below a bound keeps the graph below it.
pub proof fn lemma_add_below(old: PbxGraph, new: PbxGraph, key: Seq<char>, o: OView, r: Seq<char>, d: nat)
    requires
        old.wf(),
        graph_below(old, d),
        add_post(old, new, key, o, r),
        entries_below(o.fields, d),
    ensures
        graph_below(new, d),
{
    if lookup(old.objs(), r) is None {
        lemma_objs_below(old, new, r, o, d);
    }
}

proof fn lemma_merge_children_from(acc: Seq<PVal>, new: Seq<PVal>, n: int, d: nat)
    requires
        items_below(acc, d),
        0 <= n <= new.len(),
        items_below(new, d),
    ensures
        items_below(merge_children(acc, new, n), d),
    decreases n,
{
    if n > 0 {
        lemma_merge_children_from(acc, new, n - 1, d);
        let a = merge_children(acc, new, n - 1);
        if !a.contains(new[n - 1]) {
            let b = a.push(new[n - 1]);
            assert forall|i: int| 0 <= i < b.len() implies pdepth(#[trigger] b[i]) < d by {
                if i < a.len() {
                    assert(b[i] == a[i]);
                }
            }
        }
    }
}

pub proof fn lemma_array_items_below(vs: Seq<PVal>, d: nat)
    requires
        pdepth(PVal::Array(vs)) < d,
    ensures
        items_below(vs, (d - 1) as nat),
{
    assert forall|i: int| 0 <= i < vs.len() implies pdepth(#[trigger] vs[i]) < (d - 1) as nat by {
        lemma_arr_depth(vs, vs.len() as int, i);
    }
}

/// Adding or merging a group whose fields are below a bound keeps the graph
/// below it.
pub proof fn lemma_merge_below(old: PbxGraph, new: PbxGraph, key: Seq<char>, o: OView, r: Seq<char>, d: nat)
    requires
        old.wf(),
        graph_below(old, d),
        merge_post(old, new, key, o, r),
        entries_below(o.fields, d),
        keys_sorted(o.fields),
    ensures
        graph_below(new, d),
{
    if lookup(old.objs(), r) is None {
        lemma_add_below(old, new, key, o, r, d);
    } else {
        let e = lookup(old.objs(), r)->0;
        let m = lookup(new.objs(), r)->0;
        let j = key_index(old.objs(), r);
        lemma_lookup_at(old.objs(), j);
        assert(entries_below(e.fields, d));
        assert(old.objects@[j].1.wf());
        assert(keys_sorted(e.fields));
        let jn = key_index(new.objs(), r);
        lemma_lookup_at(new.objs(), jn);
        assert(new.objects@[jn].1.wf());
        assert(keys_sorted(m.fields));
        assert forall|k: Seq<char>| #[trigger] lookup(m.fields, k) is Some implies pdepth(lookup(m.fields, k)->0) < d by {
            if has_key(e.fields, k) {
                lemma_lookup_at(e.fields, key_index(e.fields, k));
            }
            if has_key(o.fields, k) {
                lemma_lookup_at(o.fields, key_index(o.fields, k));
            }
            if k == "children"@ && (lookup(e.fields, k) matches Some(PVal::Array(_))) && (lookup(o.fields, k) matches Some(PVal::Array(_))) {
                let ec = lookup(e.fields, k)->0->Array_0;
                let nc = lookup(o.fields, k)->0->Array_0;
                lemma_array_items_below(ec, d);
                lemma_array_items_below(nc, d);
                lemma_merge_children_from(ec, nc, nc.len() as int, (d - 1) as nat);
                if d > 1 {
                    lemma_array_below(merge_children(ec, nc, nc.len() as int), (d - 1) as nat);
                } else {
                    assert(pdepth(PVal::Array(ec)) >= 1);
                }
            }
        }
        lemma_fields_below(m.fields, d);
        lemma_objs_below(old, new, r, m, d);
    }
}

} // verus!
