use xgr_pbxproj::embed::{bucket_insert, order_embed_phases, CopyBucket, CopyFilesSettings};
use xgr_pbxproj::graph::{object_id, quote, quote_pbx_key, PbxGraph, PbxObject, PbxValue};
use xgr_pbxproj::natural::natural_cmp;
use xgr_pbxproj::rules::pbx_value_comment;
use xgr_pbxproj::sorting::sort_refs_by_comment;
use xgr_pbxproj::xml::xml_escape;
use std::cmp::Ordering;

fn group(name: &str, children: &[&str]) -> PbxObject {
    let refs = children
        .iter()
        .map(|c| PbxValue::reference((*c).to_owned(), (*c).to_owned()))
        .collect::<Vec<_>>();
    PbxObject::new("PBXGroup", name.to_owned()).field("children", PbxValue::Array(refs))
}

fn child_ids(graph: &PbxGraph, id: &str) -> Vec<String> {
    let object = &graph.objects.iter().find(|(k, _)| k == id).expect("stored").1;
    match &object.fields.iter().find(|(k, _)| k == "children").expect("children").1 {
        PbxValue::Array(items) => items
            .iter()
            .map(|v| match v {
                PbxValue::Ref { id, .. } => id.clone(),
                _ => panic!("not a reference"),
            })
            .collect(),
        _ => panic!("not an array"),
    }
}

#[test]
fn adding_under_a_used_key_keeps_the_first_object() {
    let mut graph = PbxGraph::new();
    let first = graph.add("group:Sources", PbxObject::new("PBXGroup", "Sources".to_owned()));
    let second = graph.add("group:Sources", PbxObject::new("PBXVariantGroup", "Other".to_owned()));
    assert_eq!(first, second);
    assert_eq!(graph.objects.len(), 1);
    assert_eq!(graph.objects[0].1.isa, "PBXGroup");
    assert_eq!(graph.comments, vec![(first.clone(), "Sources".to_owned())]);
}

#[test]
fn object_ids_have_twenty_four_hex_digits_and_stand_bare() {
    for key in ["project", "nativeTarget:App", "", "group:Sources/ü"] {
        let id = object_id(key, 0);
        assert_eq!(id.len(), 24);
        assert!(id.chars().all(|c| c.is_ascii_hexdigit() && !c.is_ascii_lowercase()));
        assert_eq!(quote_pbx_key(&id), id);
    }
}

fn fnv_reference(key: &str) -> String {
    let mut hash = 0xcbf29ce484222325u64;
    for byte in key.as_bytes() {
        hash ^= u64::from(*byte);
        hash = hash.wrapping_mul(0x100000001b3);
    }
    let second = hash.rotate_left(17) ^ 0x9e3779b97f4a7c15;
    format!("{hash:016X}{:08X}", second as u32)
}

#[test]
fn object_ids_follow_the_hash_of_their_key() {
    assert_eq!(object_id("project", 0), fnv_reference("project"));
    assert_eq!(object_id("nativeTarget:App", 0), fnv_reference("nativeTarget:App"));
    assert_ne!(object_id("project", 0), object_id("project", 1));
}

#[test]
fn merging_groups_keeps_children_and_adds_new_ones_once() {
    let mut graph = PbxGraph::new();
    let id = graph.add_or_merge_group("group:Sources", group("Sources", &["A", "B"]));
    let again = graph.add_or_merge_group("group:Sources", group("Sources", &["B", "C", "A", "D"]));
    assert_eq!(id, again);
    assert_eq!(child_ids(&graph, &id), vec!["A", "B", "C", "D"]);
}

#[test]
fn sorting_by_comment_reorders_only() {
    let names = ["b.swift", "a10.swift", "a2.swift", "B.swift", "a2.swift"];
    let refs = || {
        names
            .iter()
            .enumerate()
            .map(|(i, n)| PbxValue::reference(format!("ID{i}"), (*n).to_owned()))
            .collect::<Vec<_>>()
    };
    let natural = sort_refs_by_comment(refs(), true);
    let natural_names = natural.iter().map(pbx_value_comment).collect::<Vec<_>>();
    assert_eq!(natural_names, vec!["B.swift", "a2.swift", "a2.swift", "a10.swift", "b.swift"]);
    let bytes = sort_refs_by_comment(refs(), false);
    let byte_names = bytes.iter().map(pbx_value_comment).collect::<Vec<_>>();
    assert_eq!(byte_names, vec!["B.swift", "a10.swift", "a2.swift", "a2.swift", "b.swift"]);
    let ids = bytes
        .iter()
        .map(|v| match v {
            PbxValue::Ref { id, .. } => id.clone(),
            _ => panic!("not a reference"),
        })
        .collect::<Vec<_>>();
    assert_eq!(ids, vec!["ID3", "ID1", "ID2", "ID4", "ID0"]);
}

#[test]
fn natural_order_is_reflexive_and_antisymmetric() {
    let pairs = [("file2", "file10"), ("a", "b"), ("x9y", "x10y"), ("same", "same"), ("ab", "a")];
    for (a, b) in pairs {
        assert_eq!(natural_cmp(a, a), Ordering::Equal);
        assert_eq!(natural_cmp(a, b), natural_cmp(b, a).reverse());
    }
    assert_eq!(natural_cmp("file2", "file10"), Ordering::Less);
    assert_eq!(natural_cmp("ab", "a"), Ordering::Greater);
}

#[test]
fn escaping_plain_text_changes_nothing() {
    assert_eq!(xml_escape("Hello World 123"), "Hello World 123");
    let escaped = xml_escape("<a href=\"x\">Tom & 'Jerry'</a>");
    assert_eq!(escaped, "&lt;a href=&quot;x&quot;&gt;Tom &amp; &apos;Jerry&apos;&lt;/a&gt;");
    assert!(!escaped.contains('<') && !escaped.contains('>') && !escaped.contains('"') && !escaped.contains('\''));
}

fn settings(spec: i64, path: &str, name: &str) -> CopyFilesSettings {
    CopyFilesSettings { dst_subfolder_spec: spec, dst_path: path.to_owned(), phase_name: name.to_owned() }
}

#[test]
fn copy_buckets_stay_in_destination_order() {
    let mut buckets: Vec<CopyBucket> = Vec::new();
    let file = |id: &str| PbxValue::reference(id.to_owned(), id.to_owned());
    bucket_insert(&mut buckets, settings(16, "$(CONTENTS_FOLDER_PATH)/Watch", "Embed Watch Content"), file("W"));
    bucket_insert(&mut buckets, settings(10, "", "Embed Frameworks"), file("F1"));
    bucket_insert(&mut buckets, settings(13, "", "Embed Foundation Extensions"), file("E"));
    bucket_insert(&mut buckets, settings(10, "", "Embed Frameworks"), file("F2"));
    let keys = buckets.iter().map(|b| b.settings.dst_subfolder_spec).collect::<Vec<_>>();
    assert_eq!(keys, vec![10, 13, 16]);
    assert_eq!(buckets[0].files.len(), 2);
    assert_eq!(buckets[1].files.len(), 1);
}

#[test]
fn embedding_phases_run_extensions_then_frameworks_then_the_rest() {
    let phases = vec![
        ("P1".to_owned(), "Embed Frameworks".to_owned()),
        ("P2".to_owned(), "Embed Watch Content".to_owned()),
        ("P3".to_owned(), "Embed Foundation Extensions".to_owned()),
        ("P4".to_owned(), "Embed App Clips".to_owned()),
    ];
    let ordered = order_embed_phases(&phases);
    let ids = ordered.iter().map(|p| p.0.as_str()).collect::<Vec<_>>();
    assert_eq!(ids, vec!["P3", "P1", "P2", "P4"]);
}

#[test]
fn quoting_leaves_bare_words_and_escapes_the_rest() {
    assert_eq!(quote("Sources/App.swift"), "Sources/App.swift");
    assert_eq!(quote(""), "\"\"");
    assert_eq!(quote("a b"), "\"a b\"");
    assert_eq!(quote("say \"hi\"\n"), "\"say \\\"hi\\\"\\n\"");
}
