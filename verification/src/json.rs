//! JSON values as a project specification holds them (attributes, raw
//! settings, package descriptions), and their conversion to project values.
use vstd::prelude::*;
use crate::graph::{PbxValue, PVal, lemma_dict_view_entries, lemma_items_view, items_view};
use crate::smap::{entries_view, keys_sorted, sins, smap_insert};
use crate::text::string_from;

verus! {

/// A JSON number: its canonical text, and its value when it is an integer
/// that fits in 64 signed bits.
pub struct JsonNumber {
    pub text: String,
    pub as_i64: Option<i64>,
    pub is_integer: bool,
}

/// A JSON value; object entries keep the order of the document.
pub enum JsonValue {
    Null,
    Bool(bool),
    Number(JsonNumber),
    String(String),
    Array(Vec<JsonValue>),
    Object(Vec<(String, JsonValue)>),
}

/// The project value a JSON value becomes in a project file: booleans become
/// `YES`/`NO`, numbers their text, null the empty string, and objects
/// dictionaries in key order where a later entry overrides an earlier one.
pub open spec fn json_to_pval(j: &JsonValue) -> PVal
    decreases j,
{
    match j {
        JsonValue::Null => PVal::Str(Seq::empty()),
        JsonValue::Bool(b) => PVal::Str(if *b { "YES"@ } else { "NO"@ }),
        JsonValue::Number(n) => PVal::Str(n.text@),
        JsonValue::String(s) => PVal::Str(s@),
        JsonValue::Array(items) => PVal::Array(json_items(items@, items@.len() as int)),
        JsonValue::Object(es) => PVal::Dict(json_dict(es@, es@.len() as int)),
    }
}

/// The converted first `n` items of an array.
pub open spec fn json_items(items: Seq<JsonValue>, n: int) -> Seq<PVal>
    decreases items, n,
{
    if n <= 0 || n > items.len() {
        Seq::empty()
    } else {
        json_items(items, n - 1).push(json_to_pval(&items[n - 1]))
    }
}

/// The converted first `n` entries of an object, in key order.
pub open spec fn json_dict(es: Seq<(String, JsonValue)>, n: int) -> Seq<(Seq<char>, PVal)>
    decreases es, n,
{
    if n <= 0 || n > es.len() {
        Seq::empty()
    } else {
        sins(json_dict(es, n - 1), es[n - 1].0@, json_to_pval(&es[n - 1].1))
    }
}

/// The project value for a JSON value.
pub fn pbx_value_from_json(value: &JsonValue) -> (r: PbxValue)
    ensures
        r@ == json_to_pval(value),
    decreases value,
{
    match value {
        JsonValue::Bool(b) => {
            if *b {
                PbxValue::String(string_from("YES"))
            } else {
                PbxValue::String(string_from("NO"))
            }
        }
        JsonValue::Number(n) => PbxValue::String(n.text.clone()),
        JsonValue::String(s) => PbxValue::String(s.clone()),
        JsonValue::Null => {
            let r = PbxValue::String(String::new());
            r
        }
        JsonValue::Array(items) => {
            let mut out: Vec<PbxValue> = Vec::new();
            let mut i: usize = 0;
            while i < items.len()
                invariant
                    *value == JsonValue::Array(*items),
                    i <= items@.len(),
                    items_view(out@, out@.len() as int) == json_items(items@, i as int),
                    out@.len() == i,
                decreases items.len() - i,
            {
                proof {
                    assert(decreases_to!(*value => value->Array_0));
                    assert(decreases_to!(*items => items@));
                    assert(decreases_to!(items@ => items@[i as int]));
                }
                let c = pbx_value_from_json(&items[i]);
                let ghost before = out@;
                out.push(c);
                proof {
                    lemma_items_view(out@, out@.len() as int);
                    lemma_items_view(before, before.len() as int);
                    assert(items_view(out@, out@.len() as int) =~= items_view(before, before.len() as int).push(c@));
                }
                i = i + 1;
            }
            PbxValue::Array(out)
        }
        JsonValue::Object(es) => {
            let mut out: Vec<(String, PbxValue)> = Vec::new();
            let mut i: usize = 0;
            proof {
                assert(entries_view(out@) =~= Seq::<(Seq<char>, PVal)>::empty());
            }
            while i < es.len()
                invariant
                    *value == JsonValue::Object(*es),
                    i <= es@.len(),
                    keys_sorted(entries_view(out@)),
                    entries_view(out@) == json_dict(es@, i as int),
                decreases es.len() - i,
            {
                proof {
                    assert(decreases_to!(*value => value->Object_0));
                    assert(decreases_to!(*es => es@));
                    assert(decreases_to!(es@ => es@[i as int]));
                    assert(decreases_to!(es@[i as int] => es@[i as int].1));
                }
                let c = pbx_value_from_json(&es[i].1);
                smap_insert(&mut out, es[i].0.clone(), c);
                i = i + 1;
            }
            proof {
                lemma_dict_view_entries(out@);
            }
            PbxValue::Dict(out)
        }
    }
}


/// The value of the first entry of an object with a key.
pub open spec fn json_entry_spec(es: Seq<(String, JsonValue)>, key: Seq<char>) -> Option<JsonValue>
    decreases es.len(),
{
    if es.len() == 0 {
        None
    } else if es[0].0@ == key {
        Some(es[0].1)
    } else {
        json_entry_spec(es.skip(1), key)
    }
}

/// The value of the first entry of an object with a key.
pub fn json_entry<'a>(es: &'a Vec<(String, JsonValue)>, key: &str) -> (r: Option<&'a JsonValue>)
    ensures
        match r {
            Some(v) => json_entry_spec(es@, key@) == Some(*v),
            None => json_entry_spec(es@, key@) is None,
        },
{
    let mut i: usize = 0;
    proof {
        assert(es@.skip(0) =~= es@);
    }
    while i < es.len()
        invariant
            i <= es@.len(),
            json_entry_spec(es@, key@) == json_entry_spec(es@.skip(i as int), key@),
        decreases es.len() - i,
    {
        proof {
            assert(es@.skip(i as int).skip(1) =~= es@.skip(i + 1));
            assert(es@.skip(i as int)[0] == es@[i as int]);
        }
        if crate::text::str_eq(es[i].0.as_str(), key) {
            return Some(&es[i].1);
        }
        i = i + 1;
    }
    None
}

} // verus!
