//! Property lists: the Info.plist a target is given, and the XML text of a
//! property list.
use vstd::prelude::*;
use crate::graph::{tabs, write_tabs};
use crate::json::JsonValue;
use crate::products::{ProductType, bundle_package_type, bundle_package_type_spec};
use crate::scheme::{plist_header, push_plist_header};
use crate::text::{push_str, string_from};
use crate::xml::{xml_escape_spec, push_xml_escaped};

verus! {

/// How deeply arrays and objects nest inside a JSON value.
pub open spec fn jdepth(v: &JsonValue) -> nat
    decreases v,
{
    match v {
        JsonValue::Array(items) => 1 + jitems_depth(items@, items@.len() as int),
        JsonValue::Object(es) => 1 + jentries_depth(es@, es@.len() as int),
        _ => 0,
    }
}

/// The deepest nesting among the first `n` items.
pub open spec fn jitems_depth(items: Seq<JsonValue>, n: int) -> nat
    decreases items, n,
{
    if n <= 0 || n > items.len() {
        0
    } else {
        let a = jitems_depth(items, n - 1);
        let b = jdepth(&items[n - 1]);
        if a >= b { a } else { b }
    }
}

/// The deepest nesting among the first `n` entries.
pub open spec fn jentries_depth(es: Seq<(String, JsonValue)>, n: int) -> nat
    decreases es, n,
{
    if n <= 0 || n > es.len() {
        0
    } else {
        let a = jentries_depth(es, n - 1);
        let b = jdepth(&es[n - 1].1);
        if a >= b { a } else { b }
    }
}

proof fn lemma_jitems_depth(items: Seq<JsonValue>, n: int, i: int)
    requires
        0 <= i < n <= items.len(),
    ensures
        jdepth(&items[i]) <= jitems_depth(items, n),
    decreases n,
{
    if i < n - 1 {
        lemma_jitems_depth(items, n - 1, i);
    }
}

proof fn lemma_jentries_depth(es: Seq<(String, JsonValue)>, n: int, i: int)
    requires
        0 <= i < n <= es.len(),
    ensures
        jdepth(&es[i].1) <= jentries_depth(es, n),
    decreases n,
{
    if i < n - 1 {
        lemma_jentries_depth(es, n - 1, i);
    }
}

/// A value of a property list as written at an indentation level.
pub open spec fn plist_value_text(v: &JsonValue, indent: nat) -> Seq<char>
    decreases v,
{
    tabs(indent) + match v {
        JsonValue::Bool(b) => if *b { "<true/>\n"@ } else { "<false/>\n"@ },
        JsonValue::Number(n) => if n.is_integer {
            "<integer>"@ + n.text@ + "</integer>\n"@
        } else {
            "<real>"@ + n.text@ + "</real>\n"@
        },
        JsonValue::Array(items) => "<array>\n"@ + plist_items_text(items@, items@.len() as int, indent + 1)
            + tabs(indent) + "</array>\n"@,
        JsonValue::Object(es) => "<dict>\n"@ + plist_entries_text(es@, es@.len() as int, indent + 1)
            + tabs(indent) + "</dict>\n"@,
        JsonValue::Null => "<string></string>\n"@,
        JsonValue::String(s) => "<string>"@ + xml_escape_spec(s@) + "</string>\n"@,
    }
}

/// The first `n` items of an array, each on its own lines.
pub open spec fn plist_items_text(items: Seq<JsonValue>, n: int, indent: nat) -> Seq<char>
    decreases items, n,
{
    if n <= 0 || n > items.len() {
        Seq::empty()
    } else {
        plist_items_text(items, n - 1, indent) + plist_value_text(&items[n - 1], indent)
    }
}

/// The first `n` entries of a dictionary: each key, then its value.
pub open spec fn plist_entries_text(es: Seq<(String, JsonValue)>, n: int, indent: nat) -> Seq<char>
    decreases es, n,
{
    if n <= 0 || n > es.len() {
        Seq::empty()
    } else {
        plist_entries_text(es, n - 1, indent) + tabs(indent) + "<key>"@ + xml_escape_spec(es[n - 1].0@)
            + "</key>\n"@ + plist_value_text(&es[n - 1].1, indent)
    }
}

/// Appends one key of a dictionary.
fn write_plist_key(output: &mut String, key: &str, indent: usize)
    ensures
        final(output)@ == old(output)@ + tabs(indent as nat) + "<key>"@ + xml_escape_spec(key@) + "</key>\n"@,
{
    write_tabs(output, indent);
    push_str(output, "<key>");
    push_xml_escaped(output, key);
    push_str(output, "</key>\n");
}

/// Appends a value of a property list.
pub fn write_plist_value(output: &mut String, value: &JsonValue, indent: usize)
    requires
        indent + jdepth(value) < usize::MAX,
    ensures
        final(output)@ == old(output)@ + plist_value_text(value, indent as nat),
    decreases value,
{
    write_tabs(output, indent);
    match value {
        JsonValue::Bool(b) => {
            if *b {
                push_str(output, "<true/>\n");
            } else {
                push_str(output, "<false/>\n");
            }
        }
        JsonValue::Number(n) => {
            if n.is_integer {
                push_str(output, "<integer>");
                output.append(n.text.as_str());
                push_str(output, "</integer>\n");
            } else {
                push_str(output, "<real>");
                output.append(n.text.as_str());
                push_str(output, "</real>\n");
            }
        }
        JsonValue::Array(items) => {
            push_str(output, "<array>\n");
            let ghost start = output@;
            let mut i: usize = 0;
            while i < items.len()
                invariant
                    *value == JsonValue::Array(*items),
                    indent + jdepth(value) < usize::MAX,
                    i <= items@.len(),
                    output@ == start + plist_items_text(items@, i as int, (indent + 1) as nat),
                decreases items.len() - i,
            {
                proof {
                    assert(decreases_to!(*value => value->Array_0));
                    assert(decreases_to!(*items => items@));
                    assert(decreases_to!(items@ => items@[i as int]));
                    lemma_jitems_depth(items@, items@.len() as int, i as int);
                }
                write_plist_value(output, &items[i], indent + 1);
                i = i + 1;
            }
            write_tabs(output, indent);
            push_str(output, "</array>\n");
        }
        JsonValue::Object(es) => {
            push_str(output, "<dict>\n");
            let ghost start = output@;
            let mut i: usize = 0;
            while i < es.len()
                invariant
                    *value == JsonValue::Object(*es),
                    indent + jdepth(value) < usize::MAX,
                    i <= es@.len(),
                    output@ == start + plist_entries_text(es@, i as int, (indent + 1) as nat),
                decreases es.len() - i,
            {
                proof {
                    assert(decreases_to!(*value => value->Object_0));
                    assert(decreases_to!(*es => es@));
                    assert(decreases_to!(es@ => es@[i as int]));
                    assert(decreases_to!(es@[i as int] => es@[i as int].1));
                    lemma_jentries_depth(es@, es@.len() as int, i as int);
                }
                write_plist_key(output, es[i].0.as_str(), indent + 1);
                write_plist_value(output, &es[i].1, indent + 1);
                i = i + 1;
            }
            write_tabs(output, indent);
            push_str(output, "</dict>\n");
        }
        JsonValue::Null => {
            push_str(output, "<string></string>\n");
        }
        JsonValue::String(s) => {
            push_str(output, "<string>");
            push_xml_escaped(output, s.as_str());
            push_str(output, "</string>\n");
        }
    }
}

/// Every value of a property list can be written inside its dictionary.
pub open spec fn plist_depth_ok(properties: Seq<(String, JsonValue)>) -> bool {
    forall|i: int| 0 <= i < properties.len() ==> 2 + jdepth(&#[trigger] properties[i].1) < usize::MAX
}

/// A property list whose top-level dictionary holds the given properties.
pub open spec fn plist_xml_spec(properties: Seq<(String, JsonValue)>) -> Seq<char> {
    plist_header() + "<plist version=\"1.0\">\n"@ + tabs(0) + "<dict>\n"@ + plist_entries_text(
        properties,
        properties.len() as int,
        1,
    ) + tabs(0) + "</dict>\n"@ + "</plist>\n"@
}

/// The XML text of a property list.
pub fn plist_xml(properties: &Vec<(String, JsonValue)>) -> (r: String)
    requires
        plist_depth_ok(properties@),
    ensures
        r@ == plist_xml_spec(properties@),
{
    let mut output = String::new();
    push_plist_header(&mut output);
    push_str(&mut output, "<plist version=\"1.0\">\n");
    write_plist_dict(&mut output, properties, 0);
    push_str(&mut output, "</plist>\n");
    output
}

/// Appends a dictionary of properties.
fn write_plist_dict(output: &mut String, values: &Vec<(String, JsonValue)>, indent: usize)
    requires
        forall|i: int| 0 <= i < values@.len() ==> indent + 2 + jdepth(&#[trigger] values@[i].1) < usize::MAX,
    ensures
        final(output)@ == old(output)@ + tabs(indent as nat) + "<dict>\n"@ + plist_entries_text(
            values@,
            values@.len() as int,
            (indent + 1) as nat,
        ) + tabs(indent as nat) + "</dict>\n"@,
{
    write_tabs(output, indent);
    push_str(output, "<dict>\n");
    let ghost start = output@;
    let mut i: usize = 0;
    while i < values.len()
        invariant
            forall|i: int| 0 <= i < values@.len() ==> indent + 2 + jdepth(&#[trigger] values@[i].1) < usize::MAX,
            i <= values@.len(),
            output@ == start + plist_entries_text(values@, i as int, (indent + 1) as nat),
        decreases values.len() - i,
    {
        proof {
            assert(indent + 2 + jdepth(&values@[i as int].1) < usize::MAX);
        }
        write_plist_key(output, values[i].0.as_str(), indent + 1);
        write_plist_value(output, &values[i].1, indent + 1);
        i = i + 1;
    }
    write_tabs(output, indent);
    push_str(output, "</dict>\n");
}

/// The position of the first of the first `n` properties with key `k`, or
/// -1 when there is none.
pub open spec fn prop_index(s: Seq<(String, JsonValue)>, k: Seq<char>, n: int) -> int
    decreases n,
{
    if n <= 0 {
        -1
    } else {
        let p = prop_index(s, k, n - 1);
        if p >= 0 {
            p
        } else if s[n - 1].0@ == k {
            n - 1
        } else {
            -1
        }
    }
}

/// Setting a property: an existing key keeps its place and takes the new
/// value, a new key goes last.
pub open spec fn prop_insert(s: Seq<(String, JsonValue)>, k: String, v: JsonValue) -> Seq<(String, JsonValue)> {
    let p = prop_index(s, k@, s.len() as int);
    if p >= 0 {
        s.update(p, (k, v))
    } else {
        s.push((k, v))
    }
}

proof fn lemma_prop_index_stable(s: Seq<(String, JsonValue)>, k: Seq<char>, n: int, m: int)
    requires
        0 <= n <= m,
        prop_index(s, k, n) >= 0,
    ensures
        prop_index(s, k, m) == prop_index(s, k, n),
    decreases m - n,
{
    if m > n {
        lemma_prop_index_stable(s, k, n, m - 1);
    }
}

/// Sets a property in place.
pub fn prop_set(props: &mut Vec<(String, JsonValue)>, key: String, value: JsonValue)
    ensures
        final(props)@ == prop_insert(old(props)@, key, value),
{
    let ghost s = props@;
    let mut i: usize = 0;
    while i < props.len()
        invariant
            props@ == s,
            s == old(props)@,
            i <= s.len(),
            prop_index(s, key@, i as int) == -1,
        decreases props.len() - i,
    {
        if crate::text::str_eq(props[i].0.as_str(), key.as_str()) {
            proof {
                assert(prop_index(s, key@, i + 1) == i);
                lemma_prop_index_stable(s, key@, i + 1, s.len() as int);
            }
            let ghost k = key;
            let ghost v = value;
            props.set(i, (key, value));
            proof {
                assert(prop_index(s, k@, s.len() as int) == i);
                assert(props@ == s.update(i as int, (k, v)));
            }
            return;
        }
        i = i + 1;
    }
    props.push((key, value));
}

/// The properties of a generated Info.plist, before the ones the
/// specification gives.
pub open spec fn info_plist_defaults(t: ProductType) -> Seq<(Seq<char>, Seq<char>)> {
    seq![
        ("CFBundleIdentifier"@, "$(PRODUCT_BUNDLE_IDENTIFIER)"@),
        ("CFBundleInfoDictionaryVersion"@, "6.0"@),
        ("CFBundleName"@, "$(PRODUCT_NAME)"@),
        ("CFBundleDevelopmentRegion"@, "$(DEVELOPMENT_LANGUAGE)"@),
        ("CFBundleShortVersionString"@, "1.0"@),
        ("CFBundleVersion"@, "1"@),
    ] + (if t != ProductType::Bundle {
        seq![("CFBundleExecutable"@, "$(EXECUTABLE_NAME)"@)]
    } else {
        Seq::empty()
    }) + match bundle_package_type_spec(t) {
        Some(p) => seq![("CFBundlePackageType"@, p)],
        None => Seq::empty(),
    }
}

/// The properties after setting the first `n` of `attrs` in turn.
pub open spec fn props_after(base: Seq<(String, JsonValue)>, attrs: Seq<(String, JsonValue)>, n: int) -> Seq<(String, JsonValue)>
    decreases n,
{
    if n <= 0 || n > attrs.len() {
        base
    } else {
        prop_insert(props_after(base, attrs, n - 1), attrs[n - 1].0, attrs[n - 1].1)
    }
}

/// Whether a property list holds exactly the given string properties, in
/// order.
pub open spec fn holds_strings(props: Seq<(String, JsonValue)>, strings: Seq<(Seq<char>, Seq<char>)>) -> bool {
    &&& props.len() == strings.len()
    &&& forall|i: int| 0 <= i < props.len() ==> #[trigger] props[i].0@ == strings[i].0 && (match props[i].1 {
        JsonValue::String(v) => v@ == strings[i].1,
        _ => false,
    })
}

fn push_string_prop(props: &mut Vec<(String, JsonValue)>, key: &str, value: &str)
    ensures
        final(props)@.len() == old(props)@.len() + 1,
        forall|i: int| 0 <= i < old(props)@.len() ==> #[trigger] final(props)@[i] == old(props)@[i],
        final(props)@.last().0@ == key@,
        final(props)@.last().1 matches JsonValue::String(v) && v@ == value@,
{
    props.push((string_from(key), JsonValue::String(string_from(value))));
}

/// The properties of a target's generated Info.plist: the bundle
/// identifier, name, region, versions, executable (not for plain bundles)
/// and package type where the product has one, then the specification's own
/// attributes, each set in turn.
pub fn info_plist_properties(target_type: &ProductType, attributes: Vec<(String, JsonValue)>) -> (r: Vec<(String, JsonValue)>)
    ensures
        exists|base: Seq<(String, JsonValue)>| holds_strings(base, info_plist_defaults(*target_type))
            && r@ == props_after(base, attributes@, attributes@.len() as int),
{
    let mut props: Vec<(String, JsonValue)> = Vec::new();
    push_string_prop(&mut props, "CFBundleIdentifier", "$(PRODUCT_BUNDLE_IDENTIFIER)");
    push_string_prop(&mut props, "CFBundleInfoDictionaryVersion", "6.0");
    push_string_prop(&mut props, "CFBundleName", "$(PRODUCT_NAME)");
    push_string_prop(&mut props, "CFBundleDevelopmentRegion", "$(DEVELOPMENT_LANGUAGE)");
    push_string_prop(&mut props, "CFBundleShortVersionString", "1.0");
    push_string_prop(&mut props, "CFBundleVersion", "1");
    let is_bundle = match target_type {
        ProductType::Bundle => true,
        _ => false,
    };
    if !is_bundle {
        push_string_prop(&mut props, "CFBundleExecutable", "$(EXECUTABLE_NAME)");
    }
    if let Some(package_type) = bundle_package_type(target_type) {
        push_string_prop(&mut props, "CFBundlePackageType", package_type);
    }
    let ghost base = props@;
    proof {
        assert(holds_strings(base, info_plist_defaults(*target_type)));
    }
    let ghost all = attributes@;
    let total = attributes.len();
    let mut rest = attributes;
    let mut i: usize = 0;
    while rest.len() > 0
        invariant
            i <= all.len(),
            all.len() == total,
            rest@ == all.skip(i as int),
            props@ == props_after(base, all, i as int),
        decreases rest.len(),
    {
        let (key, value) = rest.remove(0);
        proof {
            assert(all[i as int] == (key, value));
        }
        prop_set(&mut props, key, value);
        proof {
            assert(rest@ =~= all.skip(i + 1));
        }
        i = i + 1;
    }
    proof {
        assert(i == all.len());
    }
    props
}

} // verus!
