//! Embedding: which dependencies a target copies into its product, where
//! each goes, and the copy-files phases that gather them by destination.
use vstd::prelude::*;
use crate::depth::{lemma_array_below, lemma_dict_below, lemma_fields_below};
use crate::generator::{PbxGenerator, all_refs, field_cap, adds_at, stored_as, build_file_field, find_target, lemma_refs_shallow, push_ref, sdk_reference_path,
    target_dependency_platform_filter};
use crate::graph::{PbxObject, PbxValue, PVal, all_items_view, items_view, lemma_items_view, pdepth, object_id_spec};
use crate::smap::{keys_sorted, lookup, smap_find};
use crate::text::{concat2, concat3, contains_str, push_dec_i64, push_str};
use crate::model::{Dependency, DependencyType, Target};
use crate::products::{ProductType, is_framework, is_framework_spec, product_type_is_app, product_type_is_app_spec,
    product_type_is_test, product_type_is_test_spec};
use crate::smap::entries_view;
use crate::text::{lex_lt, str_eq, str_lt, string_from};
use crate::json::{JsonValue, json_entry, json_entry_spec};
use crate::rules::{json_string_spec, json_string_value};

verus! {

/// Where a copy-files phase puts what it copies: the destination folder
/// kind, a path inside it, and the phase's name.
pub struct CopyFilesSettings {
    pub dst_subfolder_spec: i64,
    pub dst_path: String,
    pub phase_name: String,
}

/// The view of a copy destination.
pub open spec fn settings_view(s: CopyFilesSettings) -> (int, Seq<char>, Seq<char>) {
    (s.dst_subfolder_spec as int, s.dst_path@, s.phase_name@)
}

/// Where the product of a target of each kind is embedded.
pub open spec fn target_destination_spec(t: ProductType) -> Option<(int, Seq<char>, Seq<char>)> {
    match t {
        ProductType::Framework | ProductType::StaticFramework => Some((10, ""@, "Embed Frameworks"@)),
        ProductType::WatchApp | ProductType::Watch2App => Some((16, "$(CONTENTS_FOLDER_PATH)/Watch"@, "Embed Watch Content"@)),
        ProductType::AppExtension | ProductType::XcodeExtension | ProductType::IntentsServiceExtension
        | ProductType::WatchExtension | ProductType::Watch2Extension | ProductType::TvExtension
        | ProductType::MessagesExtension | ProductType::StickerPack => Some((13, ""@, "Embed Foundation Extensions"@)),
        ProductType::ExtensionKitExtension => Some((16, "$(EXTENSIONS_FOLDER_PATH)"@, "Embed Foundation Extensions"@)),
        ProductType::XpcService => Some((16, "$(CONTENTS_FOLDER_PATH)/XPCServices"@, "CopyFiles"@)),
        ProductType::OnDemandInstallCapableApplication => Some((16, "$(CONTENTS_FOLDER_PATH)/AppClips"@, "Embed App Clips"@)),
        ProductType::SystemExtension | ProductType::DriverExtension => Some((
            16,
            "$(SYSTEM_EXTENSIONS_FOLDER_PATH)"@,
            "Embed System Extensions"@,
        )),
        _ => None,
    }
}

fn settings(spec: i64, path: &str, name: &str) -> (r: CopyFilesSettings)
    ensures
        settings_view(r) == (spec as int, path@, name@),
{
    CopyFilesSettings { dst_subfolder_spec: spec, dst_path: string_from(path), phase_name: string_from(name) }
}

/// The folder kind a copy destination names.
pub open spec fn destination_kind_spec(d: Seq<char>) -> Option<int> {
    if d == "absolute"@ {
        Some(0)
    } else if d == "wrapper"@ {
        Some(1)
    } else if d == "executables"@ {
        Some(6)
    } else if d == "resources"@ {
        Some(7)
    } else if d == "frameworks"@ {
        Some(10)
    } else if d == "sharedFrameworks"@ {
        Some(11)
    } else if d == "sharedSupport"@ {
        Some(12)
    } else if d == "plugins"@ {
        Some(13)
    } else if d == "javaResources"@ {
        Some(15)
    } else if d == "productsDirectory"@ {
        Some(16)
    } else {
        None
    }
}

/// A string entry of an object, or a default.
pub open spec fn entry_string_or(es: Seq<(String, JsonValue)>, key: Seq<char>, default: Seq<char>) -> Seq<char> {
    match json_entry_spec(es, key) {
        Some(j) => match json_string_spec(&j) {
            Some(s) => s,
            None => default,
        },
        None => default,
    }
}

/// Where a copy phase the specification describes puts what it copies:
/// its destination (frameworks unless it names one), the subpath it names,
/// and a name that follows the destination. Nothing for a value that is
/// not an object or a destination that is not known.
pub open spec fn copy_settings_from_json_spec(v: &JsonValue) -> Option<(int, Seq<char>, Seq<char>)> {
    match v {
        JsonValue::Object(es) => {
            let d = entry_string_or(es@, "destination"@, "frameworks"@);
            match destination_kind_spec(d) {
                Some(n) => Some((
                    n,
                    entry_string_or(es@, "subpath"@, ""@),
                    if d == "frameworks"@ {
                        "Embed Frameworks"@
                    } else if d == "plugins"@ {
                        "Embed Dependencies"@
                    } else {
                        "Copy Files"@
                    },
                )),
                None => None,
            }
        },
        _ => None,
    }
}

fn entry_string_or_default(es: &Vec<(String, JsonValue)>, key: &str, default: &str) -> (r: String)
    ensures
        r@ == entry_string_or(es@, key@, default@),
{
    match json_entry(es, key) {
        Some(j) => match json_string_value(j) {
            Some(s) => s,
            None => string_from(default),
        },
        None => string_from(default),
    }
}

/// Where a copy phase the specification describes puts what it copies.
pub fn copy_files_settings_from_value(v: &JsonValue) -> (r: Option<CopyFilesSettings>)
    ensures
        match r {
            Some(s) => copy_settings_from_json_spec(v) == Some(settings_view(s)),
            None => copy_settings_from_json_spec(v) is None,
        },
{
    match v {
        JsonValue::Object(es) => {
            let d = entry_string_or_default(es, "destination", "frameworks");
            let ds = d.as_str();
            let kind: Option<i64> = if str_eq(ds, "absolute") {
                Some(0)
            } else if str_eq(ds, "wrapper") {
                Some(1)
            } else if str_eq(ds, "executables") {
                Some(6)
            } else if str_eq(ds, "resources") {
                Some(7)
            } else if str_eq(ds, "frameworks") {
                Some(10)
            } else if str_eq(ds, "sharedFrameworks") {
                Some(11)
            } else if str_eq(ds, "sharedSupport") {
                Some(12)
            } else if str_eq(ds, "plugins") {
                Some(13)
            } else if str_eq(ds, "javaResources") {
                Some(15)
            } else if str_eq(ds, "productsDirectory") {
                Some(16)
            } else {
                None
            };
            match kind {
                Some(n) => {
                    let subpath = entry_string_or_default(es, "subpath", "");
                    let name = if str_eq(ds, "frameworks") {
                        "Embed Frameworks"
                    } else if str_eq(ds, "plugins") {
                        "Embed Dependencies"
                    } else {
                        "Copy Files"
                    };
                    Some(CopyFilesSettings { dst_subfolder_spec: n, dst_path: subpath, phase_name: string_from(name) })
                },
                None => None,
            }
        },
        _ => None,
    }
}

/// Where the product of a target dependency is embedded: where the copy
/// phase its dependency describes puts it, or else by its product.
pub open spec fn target_dependency_destination_spec(d: Dependency, t: ProductType) -> Option<(int, Seq<char>, Seq<char>)> {
    match d.copy_phase {
        Some(v) => match copy_settings_from_json_spec(&v) {
            Some(s) => Some(s),
            None => target_destination_spec(t),
        },
        None => target_destination_spec(t),
    }
}

/// Where the product of a target dependency is embedded.
pub fn copy_files_settings_for_target_dependency(dependency: &Dependency, product_type: &ProductType) -> (r: Option<CopyFilesSettings>)
    ensures
        match r {
            Some(s) => target_dependency_destination_spec(*dependency, *product_type) == Some(settings_view(s)),
            None => target_dependency_destination_spec(*dependency, *product_type) is None,
        },
{
    if let Some(v) = &dependency.copy_phase {
        if let Some(s) = copy_files_settings_from_value(v) {
            return Some(s);
        }
    }
    copy_files_settings_for_product(product_type)
}

/// Where a framework or SDK library a target embeds goes: where the copy
/// phase its dependency describes puts it, or else among the embedded
/// frameworks.
pub open spec fn embedded_destination_spec(d: Dependency) -> (int, Seq<char>, Seq<char>) {
    match d.copy_phase {
        Some(v) => match copy_settings_from_json_spec(&v) {
            Some(s) => s,
            None => (10, ""@, "Embed Frameworks"@),
        },
        None => (10, ""@, "Embed Frameworks"@),
    }
}

/// Where a framework or SDK library a target embeds goes.
pub fn copy_files_settings_for_embedded_dependency(dependency: &Dependency) -> (r: CopyFilesSettings)
    ensures
        settings_view(r) == embedded_destination_spec(*dependency),
{
    if let Some(v) = &dependency.copy_phase {
        if let Some(s) = copy_files_settings_from_value(v) {
            return s;
        }
    }
    settings(10, "", "Embed Frameworks")
}

/// Where the product of a target is embedded by default.
fn copy_files_settings_for_product(product_type: &ProductType) -> (r: Option<CopyFilesSettings>)
    ensures
        match r {
            Some(s) => target_destination_spec(*product_type) == Some(settings_view(s)),
            None => target_destination_spec(*product_type) is None,
        },
{
    match product_type {
        ProductType::Framework | ProductType::StaticFramework => Some(settings(10, "", "Embed Frameworks")),
        ProductType::WatchApp | ProductType::Watch2App => Some(settings(16, "$(CONTENTS_FOLDER_PATH)/Watch", "Embed Watch Content")),
        ProductType::AppExtension | ProductType::XcodeExtension | ProductType::IntentsServiceExtension
        | ProductType::WatchExtension | ProductType::Watch2Extension | ProductType::TvExtension
        | ProductType::MessagesExtension | ProductType::StickerPack => Some(settings(13, "", "Embed Foundation Extensions")),
        ProductType::ExtensionKitExtension => Some(settings(16, "$(EXTENSIONS_FOLDER_PATH)", "Embed Foundation Extensions")),
        ProductType::XpcService => Some(settings(16, "$(CONTENTS_FOLDER_PATH)/XPCServices", "CopyFiles")),
        ProductType::OnDemandInstallCapableApplication => Some(settings(16, "$(CONTENTS_FOLDER_PATH)/AppClips", "Embed App Clips")),
        ProductType::SystemExtension | ProductType::DriverExtension => Some(settings(
            16,
            "$(SYSTEM_EXTENSIONS_FOLDER_PATH)",
            "Embed System Extensions",
        )),
        _ => None,
    }
}

/// Products a target embeds by default when it depends on their target.
pub open spec fn default_embed_target_product_spec(t: ProductType) -> bool {
    match t {
        ProductType::Framework | ProductType::AppExtension | ProductType::XcodeExtension
        | ProductType::IntentsServiceExtension | ProductType::WatchExtension | ProductType::Watch2Extension
        | ProductType::TvExtension | ProductType::MessagesExtension | ProductType::StickerPack
        | ProductType::ExtensionKitExtension | ProductType::XpcService | ProductType::SystemExtension
        | ProductType::DriverExtension | ProductType::OnDemandInstallCapableApplication | ProductType::WatchApp
        | ProductType::Watch2App => true,
        _ => false,
    }
}

/// Products a target embeds by default when it depends on their target.
pub fn default_embed_target_product(t: &ProductType) -> (r: bool)
    ensures
        r == default_embed_target_product_spec(*t),
{
    match t {
        ProductType::Framework | ProductType::AppExtension | ProductType::XcodeExtension
        | ProductType::IntentsServiceExtension | ProductType::WatchExtension | ProductType::Watch2Extension
        | ProductType::TvExtension | ProductType::MessagesExtension | ProductType::StickerPack
        | ProductType::ExtensionKitExtension | ProductType::XpcService | ProductType::SystemExtension
        | ProductType::DriverExtension | ProductType::OnDemandInstallCapableApplication | ProductType::WatchApp
        | ProductType::Watch2App => true,
        _ => false,
    }
}

/// Extension products, which embed what their dependencies produce.
pub open spec fn embeds_as_extension_spec(t: ProductType) -> bool {
    match t {
        ProductType::AppExtension | ProductType::XcodeExtension | ProductType::IntentsServiceExtension
        | ProductType::WatchExtension | ProductType::Watch2Extension | ProductType::TvExtension
        | ProductType::MessagesExtension | ProductType::StickerPack | ProductType::ExtensionKitExtension => true,
        _ => false,
    }
}

fn embeds_as_extension(t: &ProductType) -> (r: bool)
    ensures
        r == embeds_as_extension_spec(*t),
{
    match t {
        ProductType::AppExtension | ProductType::XcodeExtension | ProductType::IntentsServiceExtension
        | ProductType::WatchExtension | ProductType::Watch2Extension | ProductType::TvExtension
        | ProductType::MessagesExtension | ProductType::StickerPack | ProductType::ExtensionKitExtension => true,
        _ => false,
    }
}

/// Whether a target embeds the product of a target it depends on: as the
/// dependency says, else when the product is one that is embedded by
/// default — into a test bundle only frameworks, otherwise only into
/// applications and extensions.
pub open spec fn should_embed_target_dependency_spec(parent: Target, dependency: Dependency, dependency_target: Target) -> bool {
    match dependency.embed {
        Some(v) => v,
        None => if !default_embed_target_product_spec(dependency_target.target_type) {
            false
        } else if product_type_is_test_spec(parent.target_type) {
            is_framework_spec(dependency_target.target_type)
        } else {
            product_type_is_app_spec(parent.target_type) || embeds_as_extension_spec(parent.target_type)
        },
    }
}

/// Whether a target embeds the product of a target it depends on.
pub fn should_embed_target_dependency(parent: &Target, dependency: &Dependency, dependency_target: &Target) -> (r: bool)
    ensures
        r == should_embed_target_dependency_spec(*parent, *dependency, *dependency_target),
{
    if let Some(v) = dependency.embed {
        return v;
    }
    if !default_embed_target_product(&dependency_target.target_type) {
        return false;
    }
    if product_type_is_test(&parent.target_type) {
        return is_framework(&dependency_target.target_type);
    }
    product_type_is_app(&parent.target_type) || embeds_as_extension(&parent.target_type)
}

/// Whether a target embeds a framework or SDK it depends on: libraries and
/// frameworks only when the dependency asks; otherwise as it says, else
/// frameworks yes and SDKs no.
pub open spec fn should_embed_external_dependency_spec(target: Target, dependency: Dependency) -> bool {
    let packaged = match target.target_type {
        ProductType::Framework | ProductType::StaticFramework | ProductType::StaticLibrary => true,
        _ => false,
    };
    if packaged && dependency.embed != Some(true) {
        false
    } else {
        match dependency.dependency_type {
            DependencyType::Framework => match dependency.embed {
                Some(v) => v,
                None => true,
            },
            DependencyType::Sdk { .. } => match dependency.embed {
                Some(v) => v,
                None => false,
            },
            DependencyType::Target | DependencyType::Bundle => false,
        }
    }
}

/// Whether a target embeds a framework or SDK it depends on.
pub fn should_embed_external_dependency(target: &Target, dependency: &Dependency) -> (r: bool)
    ensures
        r == should_embed_external_dependency_spec(*target, *dependency),
{
    let packaged = match target.target_type {
        ProductType::Framework | ProductType::StaticFramework | ProductType::StaticLibrary => true,
        _ => false,
    };
    let asks = match dependency.embed {
        Some(v) => v,
        None => false,
    };
    if packaged && !asks {
        return false;
    }
    match dependency.dependency_type {
        DependencyType::Framework => match dependency.embed {
            Some(v) => v,
            None => true,
        },
        DependencyType::Sdk { .. } => match dependency.embed {
            Some(v) => v,
            None => false,
        },
        DependencyType::Target | DependencyType::Bundle => false,
    }
}

/// The attributes a copied file is written with: code signing and header
/// removal, each when asked for.
pub open spec fn copy_attributes(code_sign: bool, remove_headers: bool) -> Seq<Seq<char>> {
    (if code_sign { seq!["CodeSignOnCopy"@] } else { Seq::empty() }) + (if remove_headers {
        seq!["RemoveHeadersOnCopy"@]
    } else {
        Seq::empty()
    })
}

/// The settings of a copied build file; none when it has no attributes.
pub open spec fn copy_build_file_settings_spec(code_sign: bool, remove_headers: bool) -> Option<PVal> {
    let attrs = copy_attributes(code_sign, remove_headers);
    if attrs.len() == 0 {
        None
    } else {
        Some(PVal::Dict(seq![("ATTRIBUTES"@, PVal::Array(attrs.map_values(|a: Seq<char>| PVal::Str(a))))]))
    }
}

/// The settings of a copied build file.
pub fn copy_build_file_settings(code_sign: bool, remove_headers: bool) -> (r: Option<PbxValue>)
    ensures
        match r {
            Some(v) => copy_build_file_settings_spec(code_sign, remove_headers) == Some(v@) && pdepth(v@) <= 2,
            None => copy_build_file_settings_spec(code_sign, remove_headers) is None,
        },
{
    let mut attributes: Vec<PbxValue> = Vec::new();
    if code_sign {
        attributes.push(PbxValue::String(string_from("CodeSignOnCopy")));
    }
    if remove_headers {
        attributes.push(PbxValue::String(string_from("RemoveHeadersOnCopy")));
    }
    if attributes.len() == 0 {
        return None;
    }
    proof {
        lemma_items_view(attributes@, attributes@.len() as int);
        assert(items_view(attributes@, attributes@.len() as int) =~= copy_attributes(code_sign, remove_headers).map_values(
            |a: Seq<char>| PVal::Str(a),
        ));
    }
    let mut dict: Vec<(String, PbxValue)> = Vec::new();
    dict.push((string_from("ATTRIBUTES"), PbxValue::Array(attributes)));
    let r = PbxValue::Dict(dict);
    proof {
        assert forall|i: int| 0 <= i < all_items_view(attributes@).len() implies pdepth(#[trigger] all_items_view(attributes@)[i]) < 1 by {
            assert(all_items_view(attributes@)[i] is Str);
        }
        lemma_array_below(all_items_view(attributes@), 1);
        crate::graph::lemma_dict_view(dict@, 1);
        lemma_dict_below(crate::graph::dict_view(dict@, 1), 2);
        assert(crate::graph::dict_view(dict@, 1) =~= seq![("ATTRIBUTES"@, PVal::Array(copy_attributes(code_sign, remove_headers).map_values(
            |a: Seq<char>| PVal::Str(a),
        )))]);
    }
    Some(r)
}

/// The settings of the copied product of a target dependency: signed
/// unless the dependency says otherwise, by default only frameworks and
/// XPC services.
pub open spec fn target_copy_code_sign(dependency: Dependency, dependency_target: Target) -> bool {
    match dependency.code_sign {
        Some(v) => v,
        None => is_framework_spec(dependency_target.target_type) || dependency_target.target_type == ProductType::XpcService,
    }
}

/// The order embedding phases come in: extensions, then frameworks, then
/// the rest.
pub open spec fn phase_name_order_spec(name: Seq<char>) -> int {
    if name == "Embed Foundation Extensions"@ {
        0
    } else if name == "Embed Frameworks"@ {
        1
    } else {
        2
    }
}

/// The order embedding phases come in.
pub fn copy_files_phase_name_order(name: &str) -> (r: i64)
    ensures
        r == phase_name_order_spec(name@),
{
    if str_eq(name, "Embed Foundation Extensions") {
        0
    } else if str_eq(name, "Embed Frameworks") {
        1
    } else {
        2
    }
}

/// Whether an embedding phase only runs when installing: when the target
/// asks for that and the phase embeds frameworks, system extensions or
/// dependencies.
pub open spec fn run_only_when_installing_spec(only_on_install: bool, name: Seq<char>) -> bool {
    only_on_install && (name == "Embed Frameworks"@ || name == "Embed System Extensions"@ || name == "Embed Dependencies"@)
}

/// Whether an embedding phase only runs when installing.
pub fn run_only_when_installing(only_on_install: bool, name: &str) -> (r: bool)
    ensures
        r == run_only_when_installing_spec(only_on_install, name@),
{
    only_on_install && (str_eq(name, "Embed Frameworks") || str_eq(name, "Embed System Extensions") || str_eq(
        name,
        "Embed Dependencies",
    ))
}

/// The order of copy destinations: by folder kind, then path, then phase
/// name.
pub open spec fn dest_lt(a: (int, Seq<char>, Seq<char>), b: (int, Seq<char>, Seq<char>)) -> bool {
    a.0 < b.0 || (a.0 == b.0 && (lex_lt(a.1, b.1) || (a.1 == b.1 && lex_lt(a.2, b.2))))
}

/// Whether one copy destination comes before another.
pub fn destination_lt(a: &CopyFilesSettings, b: &CopyFilesSettings) -> (r: bool)
    ensures
        r == dest_lt(settings_view(*a), settings_view(*b)),
{
    if a.dst_subfolder_spec != b.dst_subfolder_spec {
        return a.dst_subfolder_spec < b.dst_subfolder_spec;
    }
    if str_lt(a.dst_path.as_str(), b.dst_path.as_str()) {
        return true;
    }
    if !str_eq(a.dst_path.as_str(), b.dst_path.as_str()) {
        return false;
    }
    str_lt(a.phase_name.as_str(), b.phase_name.as_str())
}

/// A copy destination with the build files copied there.
pub struct CopyBucket {
    pub settings: CopyFilesSettings,
    pub files: Vec<PbxValue>,
}

/// The view of a copy bucket.
pub open spec fn bucket_view(b: CopyBucket) -> ((int, Seq<char>, Seq<char>), Seq<PVal>) {
    (settings_view(b.settings), all_items_view(b.files@))
}

/// The views of copy buckets.
pub open spec fn buckets_view(bs: Seq<CopyBucket>) -> Seq<((int, Seq<char>, Seq<char>), Seq<PVal>)> {
    bs.map_values(|b: CopyBucket| bucket_view(b))
}

/// Buckets kept in destination order: a file joins the bucket of its
/// destination, or a new bucket where its destination belongs.
pub open spec fn bucket_insert_spec(b: Seq<((int, Seq<char>, Seq<char>), Seq<PVal>)>, k: (int, Seq<char>, Seq<char>), v: PVal) -> Seq<
    ((int, Seq<char>, Seq<char>), Seq<PVal>),
>
    decreases b.len(),
{
    if b.len() == 0 {
        seq![(k, seq![v])]
    } else if b[0].0 == k {
        b.update(0, (k, b[0].1.push(v)))
    } else if dest_lt(k, b[0].0) {
        seq![(k, seq![v])] + b
    } else {
        seq![b[0]] + bucket_insert_spec(b.skip(1), k, v)
    }
}

fn same_destination(a: &CopyFilesSettings, b: &CopyFilesSettings) -> (r: bool)
    ensures
        r == (settings_view(*a) == settings_view(*b)),
{
    a.dst_subfolder_spec == b.dst_subfolder_spec && str_eq(a.dst_path.as_str(), b.dst_path.as_str()) && str_eq(
        a.phase_name.as_str(),
        b.phase_name.as_str(),
    )
}

/// Adds a build file to the bucket of its destination.
pub fn bucket_insert(buckets: &mut Vec<CopyBucket>, settings: CopyFilesSettings, file: PbxValue)
    ensures
        buckets_view(final(buckets)@) == bucket_insert_spec(buckets_view(old(buckets)@), settings_view(settings), file@),
{
    let ghost v0 = buckets_view(buckets@);
    let ghost k = settings_view(settings);
    let mut i: usize = 0;
    proof {
        assert(v0.skip(0) =~= v0);
        assert(v0.take(0) + bucket_insert_spec(v0.skip(0), k, file@) =~= bucket_insert_spec(v0, k, file@));
    }
    while i < buckets.len()
        invariant
            i <= buckets@.len(),
            buckets_view(buckets@) == v0,
            v0 == buckets_view(old(buckets)@),
            v0.len() == buckets@.len(),
            k == settings_view(settings),
            bucket_insert_spec(v0, k, file@) == v0.take(i as int) + bucket_insert_spec(v0.skip(i as int), k, file@),
        decreases buckets.len() - i,
    {
        proof {
            assert(v0.skip(i as int)[0] == v0[i as int]);
            assert(v0.skip(i as int).skip(1) =~= v0.skip(i + 1));
            assert(v0.take(i + 1) =~= v0.take(i as int).push(v0[i as int]));
        }
        if same_destination(&buckets[i].settings, &settings) {
            let mut b = buckets.remove(i);
            let ghost files0 = b.files@;
            b.files.push(file);
            proof {
                lemma_items_view(files0, files0.len() as int);
                lemma_items_view(b.files@, b.files@.len() as int);
                assert(all_items_view(b.files@) =~= all_items_view(files0).push(file@));
            }
            buckets.insert(i, b);
            proof {
                assert(buckets_view(buckets@) =~= v0.update(i as int, (k, v0[i as int].1.push(file@))));
                assert(v0.take(i as int) + v0.skip(i as int).update(0, (k, v0[i as int].1.push(file@))) =~= v0.update(
                    i as int,
                    (k, v0[i as int].1.push(file@)),
                ));
            }
            return;
        }
        if destination_lt(&settings, &buckets[i].settings) {
            let mut files: Vec<PbxValue> = Vec::new();
            files.push(file);
            proof {
                lemma_items_view(files@, 1);
                assert(all_items_view(files@) =~= seq![file@]);
            }
            let nb = CopyBucket { settings, files };
            buckets.insert(i, nb);
            proof {
                assert(buckets_view(buckets@) =~= v0.take(i as int) + (seq![(k, seq![file@])] + v0.skip(i as int)));
            }
            return;
        }
        proof {
            assert(v0.take(i + 1) + bucket_insert_spec(v0.skip(i + 1), k, file@) =~= v0.take(i as int) + bucket_insert_spec(
                v0.skip(i as int),
                k,
                file@,
            ));
        }
        i = i + 1;
    }
    let mut files: Vec<PbxValue> = Vec::new();
    files.push(file);
    proof {
        lemma_items_view(files@, 1);
        assert(all_items_view(files@) =~= seq![file@]);
        assert(v0.skip(i as int).len() == 0);
    }
    buckets.push(CopyBucket { settings, files });
    proof {
        assert(buckets_view(buckets@) =~= v0.take(i as int) + seq![(k, seq![file@])]);
        assert(v0.take(i as int) =~= v0);
    }
}

/// Every bucket holds only references.
pub open spec fn buckets_all_refs(b: Seq<((int, Seq<char>, Seq<char>), Seq<PVal>)>) -> bool {
    forall|i: int| 0 <= i < b.len() ==> all_refs(#[trigger] b[i].1)
}

proof fn lemma_insert_refs(b: Seq<((int, Seq<char>, Seq<char>), Seq<PVal>)>, k: (int, Seq<char>, Seq<char>), v: PVal)
    requires
        buckets_all_refs(b),
        v is Ref,
    ensures
        buckets_all_refs(bucket_insert_spec(b, k, v)),
    decreases b.len(),
{
    let r = bucket_insert_spec(b, k, v);
    if b.len() == 0 {
        assert(all_refs(r[0].1));
    } else if b[0].0 == k {
        assert(all_refs(b[0].1));
        assert(all_refs(b[0].1.push(v)));
        assert forall|i: int| 0 <= i < r.len() implies all_refs(#[trigger] r[i].1) by {
            if i > 0 {
                assert(r[i] == b[i]);
            }
        }
    } else if dest_lt(k, b[0].0) {
        assert forall|i: int| 0 <= i < r.len() implies all_refs(#[trigger] r[i].1) by {
            if i > 0 {
                assert(r[i] == b[i - 1]);
            } else {
                assert(all_refs(seq![v]));
            }
        }
    } else {
        lemma_insert_refs(b.skip(1), k, v);
        let t = bucket_insert_spec(b.skip(1), k, v);
        assert forall|i: int| 0 <= i < r.len() implies all_refs(#[trigger] r[i].1) by {
            if i > 0 {
                assert(r[i] == t[i - 1]);
            } else {
                assert(r[0] == b[0]);
            }
        }
    }
}

/// The embedding phases named with an order, keeping their order.
pub open spec fn phases_with_order(ps: Seq<(Seq<char>, Seq<char>)>, o: int) -> Seq<(Seq<char>, Seq<char>)>
    decreases ps.len(),
{
    if ps.len() == 0 {
        Seq::empty()
    } else {
        phases_with_order(ps.drop_last(), o) + if phase_name_order_spec(ps.last().1) == o {
            seq![ps.last()]
        } else {
            Seq::empty()
        }
    }
}

/// Embedding phases in the order they run: extensions first, then
/// frameworks, then the rest, each group keeping its order.
pub open spec fn ordered_phases_spec(ps: Seq<(Seq<char>, Seq<char>)>) -> Seq<(Seq<char>, Seq<char>)> {
    phases_with_order(ps, 0) + phases_with_order(ps, 1) + phases_with_order(ps, 2)
}

/// The view of phases as identifier and name.
pub open spec fn phases_view(ps: Seq<(String, String)>) -> Seq<(Seq<char>, Seq<char>)> {
    ps.map_values(|p: (String, String)| (p.0@, p.1@))
}

fn push_phases_with_order(out: &mut Vec<(String, String)>, ps: &Vec<(String, String)>, o: i64)
    ensures
        phases_view(final(out)@) == phases_view(old(out)@) + phases_with_order(phases_view(ps@), o as int),
{
    let ghost b = phases_view(out@);
    let ghost pv = phases_view(ps@);
    let mut i: usize = 0;
    while i < ps.len()
        invariant
            i <= ps@.len(),
            pv == phases_view(ps@),
            phases_view(out@) == b + phases_with_order(pv.take(i as int), o as int),
        decreases ps.len() - i,
    {
        proof {
            assert(pv.take(i + 1).drop_last() =~= pv.take(i as int));
            assert(pv.take(i + 1).last() == pv[i as int]);
        }
        if copy_files_phase_name_order(ps[i].1.as_str()) == o {
            let ghost before = out@;
            let p = (ps[i].0.clone(), ps[i].1.clone());
            out.push(p);
            proof {
                assert(phases_view(out@) =~= phases_view(before).push((p.0@, p.1@)));
            }
        }
        proof {
            assert(phases_view(out@) =~= b + phases_with_order(pv.take(i + 1), o as int));
        }
        i = i + 1;
    }
    proof {
        assert(pv.take(i as int) =~= pv);
    }
}

/// Embedding phases in the order they run.
pub fn order_embed_phases(ps: &Vec<(String, String)>) -> (r: Vec<(String, String)>)
    ensures
        phases_view(r@) == ordered_phases_spec(phases_view(ps@)),
{
    let mut out: Vec<(String, String)> = Vec::new();
    proof {
        assert(phases_view(out@) =~= Seq::<(Seq<char>, Seq<char>)>::empty());
    }
    push_phases_with_order(&mut out, ps, 0);
    push_phases_with_order(&mut out, ps, 1);
    push_phases_with_order(&mut out, ps, 2);
    proof {
        assert(phases_view(out@) =~= ordered_phases_spec(phases_view(ps@)));
    }
    out
}

/// The platform a destination filter names, in the spelling of the
/// project file.
pub open spec fn destination_filter_spec(f: Seq<char>) -> Option<Seq<char>> {
    if f == "iOS"@ || f == "ios"@ {
        Some("ios"@)
    } else if f == "tvOS"@ || f == "tvos"@ {
        Some("tvos"@)
    } else if f == "macOS"@ || f == "macos"@ {
        Some("macos"@)
    } else if f == "macCatalyst"@ || f == "maccatalyst"@ {
        Some("maccatalyst"@)
    } else if f == "watchOS"@ || f == "watchos"@ {
        Some("watchos"@)
    } else if f == "visionOS"@ || f == "xros"@ {
        Some("xros"@)
    } else {
        None
    }
}

/// The platform a destination filter names.
pub fn supported_destination_filter(f: &str) -> (r: Option<&'static str>)
    ensures
        match r {
            Some(p) => destination_filter_spec(f@) == Some(p@),
            None => destination_filter_spec(f@) is None,
        },
{
    if str_eq(f, "iOS") || str_eq(f, "ios") {
        Some("ios")
    } else if str_eq(f, "tvOS") || str_eq(f, "tvos") {
        Some("tvos")
    } else if str_eq(f, "macOS") || str_eq(f, "macos") {
        Some("macos")
    } else if str_eq(f, "macCatalyst") || str_eq(f, "maccatalyst") {
        Some("maccatalyst")
    } else if str_eq(f, "watchOS") || str_eq(f, "watchos") {
        Some("watchos")
    } else if str_eq(f, "visionOS") || str_eq(f, "xros") {
        Some("xros")
    } else {
        None
    }
}

/// The platforms the destination filters of a dependency name, in order,
/// skipping filters that name none.
pub open spec fn platform_filters_spec(filters: Seq<String>) -> Seq<Seq<char>>
    decreases filters.len(),
{
    if filters.len() == 0 {
        Seq::empty()
    } else {
        let rest = platform_filters_spec(filters.drop_last());
        match destination_filter_spec(filters.last()@) {
            Some(p) => rest.push(p),
            None => rest,
        }
    }
}

/// The platforms the destination filters of a dependency name.
pub fn platform_filters_for_dependency(dependency: &Dependency) -> (r: Vec<String>)
    ensures
        r@.map_values(|s: String| s@) == platform_filters_spec(dependency.destination_filters@),
{
    let fs = &dependency.destination_filters;
    let mut out: Vec<String> = Vec::new();
    let mut i: usize = 0;
    while i < fs.len()
        invariant
            fs == &dependency.destination_filters,
            i <= fs@.len(),
            out@.map_values(|s: String| s@) == platform_filters_spec(fs@.take(i as int)),
        decreases fs.len() - i,
    {
        proof {
            assert(fs@.take(i + 1).drop_last() =~= fs@.take(i as int));
            assert(fs@.take(i + 1).last() == fs@[i as int]);
        }
        let ghost before = out@;
        if let Some(p) = supported_destination_filter(fs[i].as_str()) {
            out.push(string_from(p));
            proof {
                assert(out@.map_values(|s: String| s@) =~= before.map_values(|s: String| s@).push(p@));
            }
        }
        i = i + 1;
    }
    proof {
        assert(fs@.take(i as int) =~= fs@);
    }
    out
}

/// What embedding the product of a target dependency makes of the buckets:
/// where the dependency names a target of the project (the first of that
/// name, not one of another project) that the target embeds, that has a
/// destination and a product reference, its product is added under that
/// destination; else they stay.
pub open spec fn embed_target_spec(
    project: &crate::model::Project,
    product_refs: Seq<(String, String)>,
    target: Target,
    dependency: Dependency,
    old_buckets: Seq<((int, Seq<char>, Seq<char>), Seq<PVal>)>,
) -> Seq<((int, Seq<char>, Seq<char>), Seq<PVal>)> {
    let reference = dependency.reference@;
    if crate::text::contains_seq(reference, "/"@) {
        old_buckets
    } else {
        match crate::transitive::first_named(project.targets@, reference, 0) {
            None => old_buckets,
            Some(i) => {
                let dt = project.targets@[i];
                if !should_embed_target_dependency_spec(target, dependency, dt) {
                    old_buckets
                } else {
                    match target_dependency_destination_spec(dependency, dt.target_type) {
                        None => old_buckets,
                        Some(dest) => if lookup(entries_view(product_refs), reference) is None {
                            old_buckets
                        } else {
                            bucket_insert_spec(
                                old_buckets,
                                dest,
                                PVal::Ref(
                                    object_id_spec("targetDependencyCopyBuildFile:"@ + target.name@ + ":"@ + reference, 0),
                                    Some(dt.product_filename@ + " in "@ + dest.2),
                                ),
                            )
                        },
                    }
                }
            },
        }
    }
}

/// The buckets after embedding the first `n` frameworks and SDK libraries
/// a target embeds.
pub open spec fn external_buckets(target: Target, n: int) -> Seq<((int, Seq<char>, Seq<char>), Seq<PVal>)>
    decreases n,
{
    if n <= 0 || n > target.dependencies@.len() {
        Seq::empty()
    } else {
        let b = external_buckets(target, n - 1);
        let d = target.dependencies@[n - 1];
        if (d.dependency_type is Framework || d.dependency_type is Sdk) && should_embed_external_dependency_spec(target, d) {
            bucket_insert_spec(
                b,
                embedded_destination_spec(d),
                PVal::Ref(
                    object_id_spec("dependencyCopyBuildFile:"@ + target.name@ + ":"@ + d.reference@, 0),
                    Some(crate::paths::display_name_spec(d.reference@) + " in "@ + embedded_destination_spec(d).2),
                ),
            )
        } else {
            b
        }
    }
}

/// The buckets after embedding, over `base`, the products of the first `n`
/// target dependencies of a target.
pub open spec fn target_buckets(
    project: &crate::model::Project,
    product_refs: Seq<(String, String)>,
    target: Target,
    base: Seq<((int, Seq<char>, Seq<char>), Seq<PVal>)>,
    n: int,
) -> Seq<((int, Seq<char>, Seq<char>), Seq<PVal>)>
    decreases n,
{
    if n <= 0 || n > target.dependencies@.len() {
        base
    } else {
        let b = target_buckets(project, product_refs, target, base, n - 1);
        let d = target.dependencies@[n - 1];
        if d.dependency_type is Target {
            embed_target_spec(project, product_refs, target, d, b)
        } else {
            b
        }
    }
}

/// The copy destinations of a target and what goes to each, in order.
pub open spec fn embed_buckets_spec(project: &crate::model::Project, product_refs: Seq<(String, String)>, target: Target)
    -> Seq<((int, Seq<char>, Seq<char>), Seq<PVal>)> {
    target_buckets(project, product_refs, target, external_buckets(target, target.dependencies@.len() as int),
        target.dependencies@.len() as int)
}

/// The build files that copy into a target's resources the products of the
/// messages applications among its first `n` dependencies (the first target
/// of each name, with a product reference).
pub open spec fn resource_files_spec(
    project: &crate::model::Project,
    product_refs: Seq<(String, String)>,
    target: Target,
    n: int,
) -> Seq<PVal>
    decreases n,
{
    if n <= 0 || n > target.dependencies@.len() {
        Seq::empty()
    } else {
        let r = resource_files_spec(project, product_refs, target, n - 1);
        let d = target.dependencies@[n - 1];
        if d.dependency_type is Target {
            match crate::transitive::first_named(project.targets@, d.reference@, 0) {
                Some(i) => if project.targets@[i].target_type == ProductType::MessagesApplication
                    && lookup(entries_view(product_refs), d.reference@) is Some {
                    r.push(PVal::Ref(
                        object_id_spec("targetDependencyResourceBuildFile:"@ + target.name@ + ":"@ + d.reference@, 0),
                        Some(project.targets@[i].product_filename@ + " in Resources"@),
                    ))
                } else {
                    r
                },
                None => r,
            }
        } else {
            r
        }
    }
}

/// The view of an optional text.
pub open spec fn opt_str_view(o: Option<&str>) -> Option<Seq<char>> {
    match o {
        Some(t) => Some(t@),
        None => None,
    }
}

/// A field of a copy-files phase.
pub open spec fn copy_phase_field(k: Seq<char>, name: Option<Seq<char>>, dst_subfolder_spec: int, dst_path: Seq<char>,
    install_only: bool, files: Seq<PVal>) -> Option<PVal> {
    if k == "buildActionMask"@ {
        Some(PVal::Int(if install_only { 8 } else { 2147483647 }))
    } else if k == "dstPath"@ {
        Some(PVal::Str(dst_path))
    } else if k == "dstSubfolderSpec"@ {
        Some(PVal::Int(dst_subfolder_spec))
    } else if k == "files"@ {
        Some(PVal::Array(files))
    } else if k == "name"@ {
        match name {
            Some(n) => Some(PVal::Str(n)),
            None => None,
        }
    } else if k == "runOnlyForDeploymentPostprocessing"@ {
        Some(PVal::Int(if install_only { 1 } else { 0 }))
    } else {
        None
    }
}

proof fn lemma_copy_phase_keys()
    ensures
        "buildActionMask"@ != "dstPath"@,
        "buildActionMask"@ != "dstSubfolderSpec"@,
        "buildActionMask"@ != "files"@,
        "buildActionMask"@ != "name"@,
        "buildActionMask"@ != "runOnlyForDeploymentPostprocessing"@,
        "dstPath"@ != "dstSubfolderSpec"@,
        "dstPath"@ != "files"@,
        "dstPath"@ != "name"@,
        "dstPath"@ != "runOnlyForDeploymentPostprocessing"@,
        "dstSubfolderSpec"@ != "files"@,
        "dstSubfolderSpec"@ != "name"@,
        "dstSubfolderSpec"@ != "runOnlyForDeploymentPostprocessing"@,
        "files"@ != "name"@,
        "files"@ != "runOnlyForDeploymentPostprocessing"@,
        "name"@ != "runOnlyForDeploymentPostprocessing"@,
{
    reveal_strlit("buildActionMask");
    reveal_strlit("dstPath");
    reveal_strlit("dstSubfolderSpec");
    reveal_strlit("files");
    reveal_strlit("name");
    reveal_strlit("runOnlyForDeploymentPostprocessing");
    assert("buildActionMask"@.len() == 15);
    assert("dstPath"@.len() == 7);
    assert("dstSubfolderSpec"@.len() == 16);
    assert("files"@.len() == 5);
    assert("name"@.len() == 4);
    assert("runOnlyForDeploymentPostprocessing"@.len() == 34);
}

impl<'a> PbxGenerator<'a> {
    fn add_copied_build_file(&mut self, key: &str, comment: String, file_ref: String, name: String,
        platform_filter: Option<String>, settings: Option<PbxValue>, filters: &Vec<String>) -> (r: PbxValue)
        requires
            old(self).inv(),
            settings is Some ==> pdepth(settings->0@) <= 2,
        ensures
            final(self).inv(),
            crate::generator::keeps_natives(old(self).graph, final(self).graph),
            final(self).project == old(self).project,
            final(self).product_refs == old(self).product_refs,
            r@ is Ref,
            r@ == PVal::Ref(object_id_spec(key@, 0), Some(comment@)),
            adds_at(old(self).graph, final(self).graph, object_id_spec(key@, 0)),
            stored_as(old(self).graph, final(self).graph, object_id_spec(key@, 0), "PBXBuildFile"@, comment@,
                |k: Seq<char>| build_file_field(k, file_ref@, name@, crate::schemes::opt_string(platform_filter),
                crate::generator::opt_pval(settings), crate::scripts::views(filters@))),
    {
        proof {
            crate::generator::lemma_build_file_keys();
        }
        let ghost fr = file_ref@;
        let ghost nm = name@;
        let ghost pf = crate::schemes::opt_string(platform_filter);
        let ghost sv = crate::generator::opt_pval(settings);
        let mut object = PbxObject::new("PBXBuildFile", comment.clone()).field("fileRef", PbxValue::reference(file_ref, name));
        if let Some(f) = platform_filter {
            object = object.field("platformFilter", PbxValue::String(f));
        }
        if let Some(s) = settings {
            object = object.field("settings", s);
        }
        if filters.len() > 0 {
            object = object.field("platformFilters", crate::scripts::strings_value(filters));
        }
        proof {
            assert forall|k: Seq<char>| #[trigger] lookup(object@.fields, k) is Some implies pdepth(lookup(object@.fields, k)->0) < field_cap() by {}
            lemma_fields_below(object@.fields, field_cap());
        }
        proof {
            assert(crate::scripts::views(filters@).len() == filters@.len());
            assert forall|k: Seq<char>| #[trigger] lookup(object@.fields, k) == build_file_field(k, fr, nm, pf, sv,
                crate::scripts::views(filters@)) by {}
        }
        let ghost g0 = self.graph;
        let ghost o = object@;
        proof {
            reveal_strlit("PBXBuildFile");
            assert("PBXBuildFile"@.len() == 12);
            crate::generator::lemma_other_class("PBXBuildFile"@);
        }
        let id = self.add_object(key, object);
        proof {
            crate::generator::lemma_add_adds_at(g0, self.graph, key@, o, id@);
        }
        PbxValue::reference(id, comment)
    }

    /// Adds a copy-files phase.
    pub fn add_copy_files_build_phase_with_name(&mut self, key: &str, name: Option<&str>, dst_subfolder_spec: i64,
        dst_path: &str, run_only_for_deployment_postprocessing: bool, files: Vec<PbxValue>) -> (r: String)
        requires
            old(self).inv(),
            all_refs(all_items_view(files@)),
        ensures
            final(self).inv(),
            crate::generator::keeps_natives(old(self).graph, final(self).graph),
            final(self).project == old(self).project,
            final(self).product_refs == old(self).product_refs,
            r@ == object_id_spec("buildPhase:"@ + key@, 0),
            adds_at(old(self).graph, final(self).graph, r@),
            stored_as(old(self).graph, final(self).graph, r@, "PBXCopyFilesBuildPhase"@,
                match name { Some(n) => n@, None => "CopyFiles"@ },
                |k: Seq<char>| copy_phase_field(k, opt_str_view(name),
                    dst_subfolder_spec as int, dst_path@, run_only_for_deployment_postprocessing, all_items_view(files@))),
    {
        proof {
            lemma_copy_phase_keys();
        }
        let ghost fv = all_items_view(files@);
        let comment = match name {
            Some(n) => string_from(n),
            None => string_from("CopyFiles"),
        };
        proof {
            lemma_refs_shallow(all_items_view(files@));
        }
        let mut object = PbxObject::new("PBXCopyFilesBuildPhase", comment)
            .field("buildActionMask", PbxValue::Int(if run_only_for_deployment_postprocessing { 8 } else { 2147483647 }))
            .field("dstPath", PbxValue::String(string_from(dst_path)))
            .field("dstSubfolderSpec", PbxValue::Int(dst_subfolder_spec))
            .field("files", PbxValue::Array(files));
        if let Some(n) = name {
            object = object.field("name", PbxValue::String(string_from(n)));
        }
        object = object.field("runOnlyForDeploymentPostprocessing", PbxValue::Int(
            if run_only_for_deployment_postprocessing { 1 } else { 0 },
        ));
        proof {
            assert forall|k: Seq<char>| #[trigger] lookup(object@.fields, k) is Some implies pdepth(lookup(object@.fields, k)->0) < field_cap() by {}
            lemma_fields_below(object@.fields, field_cap());
            assert forall|k: Seq<char>| #[trigger] lookup(object@.fields, k) == copy_phase_field(k,
                opt_str_view(name),
                dst_subfolder_spec as int, dst_path@, run_only_for_deployment_postprocessing, fv) by {}
        }
        let full = concat2("buildPhase:", key);
        let ghost g0 = self.graph;
        let ghost o = object@;
        proof {
            reveal_strlit("PBXCopyFilesBuildPhase");
            assert("PBXCopyFilesBuildPhase"@.len() == 22);
            crate::generator::lemma_other_class("PBXCopyFilesBuildPhase"@);
        }
        let r = self.add_object(full.as_str(), object);
        proof {
            crate::generator::lemma_add_adds_at(g0, self.graph, full@, o, r@);
        }
        r
    }

    fn embed_external_dependency(&mut self, buckets: &mut Vec<CopyBucket>, target: &Target, dependency: &Dependency)
        requires
            old(self).inv(),
            buckets_all_refs(buckets_view(old(buckets)@)),
        ensures
            buckets_all_refs(buckets_view(final(buckets)@)),
            final(self).inv(),
            crate::generator::keeps_natives(old(self).graph, final(self).graph),
            final(self).project == old(self).project,
            final(self).product_refs == old(self).product_refs,
            buckets_view(final(buckets)@) == bucket_insert_spec(
                buckets_view(old(buckets)@),
                embedded_destination_spec(*dependency),
                PVal::Ref(
                    object_id_spec("dependencyCopyBuildFile:"@ + target.name@ + ":"@ + dependency.reference@, 0),
                    Some(crate::paths::display_name_spec(dependency.reference@) + " in "@ + embedded_destination_spec(*dependency).2),
                ),
            ),
    {
        let reference = dependency.reference.as_str();
        let is_sdk = match &dependency.dependency_type {
            DependencyType::Sdk { .. } => true,
            _ => false,
        };
        let destination = copy_files_settings_for_embedded_dependency(dependency);
        let name = crate::paths::display_name(reference);
        let comment = concat3(name.as_str(), " in ", destination.phase_name.as_str());
        let source_tree = if is_sdk { "SDKROOT" } else { "<group>" };
        let path = if is_sdk { sdk_reference_path(reference, "SDKROOT") } else { string_from(reference) };
        let ref_key = if is_sdk { concat2("sdkRef:", path.as_str()) } else { concat2("navigatorFrameworkRef:", path.as_str()) };
        let file_type = crate::products::file_type_for_path(reference, None);
        let file_name = if is_sdk { None } else { Some(name.clone()) };
        let file_ref = self.add_file_reference(ref_key.as_str(), name.clone(), Some(path), Some(file_type), file_name,
            source_tree, true);
        let code_sign = match dependency.code_sign {
            Some(v) => v,
            None => true,
        };
        let copy_settings = copy_build_file_settings(code_sign, dependency.remove_headers);
        let key = concat3("dependencyCopyBuildFile:", target.name.as_str(), ":");
        let key = concat2(key.as_str(), reference);
        let filters = platform_filters_for_dependency(dependency);
        let file = self.add_copied_build_file(key.as_str(), comment, file_ref, name, None, copy_settings, &filters);
        proof {
            lemma_insert_refs(buckets_view(buckets@), settings_view(destination), file@);
        }
        bucket_insert(buckets, destination, file);
    }

    fn embed_target_dependency(&mut self, buckets: &mut Vec<CopyBucket>, target: &Target, dependency: &Dependency)
        requires
            old(self).inv(),
            buckets_all_refs(buckets_view(old(buckets)@)),
        ensures
            buckets_all_refs(buckets_view(final(buckets)@)),
            final(self).inv(),
            crate::generator::keeps_natives(old(self).graph, final(self).graph),
            final(self).project == old(self).project,
            final(self).product_refs == old(self).product_refs,
            buckets_view(final(buckets)@) == embed_target_spec(old(self).project, old(self).product_refs@, *target,
                *dependency, buckets_view(old(buckets)@)),
    {
        let reference = dependency.reference.as_str();
        if contains_str(reference, "/") {
            return;
        }
        let ti = match crate::transitive::find_first_target(self.project, reference) {
            Some(ti) => ti,
            None => return,
        };
        let dependency_target = &self.project.targets[ti];
        if !should_embed_target_dependency(target, dependency, dependency_target) {
            return;
        }
        let destination = match copy_files_settings_for_target_dependency(dependency, &dependency_target.target_type) {
            Some(d) => d,
            None => return,
        };
        let product_ref = match smap_find(&self.product_refs, reference) {
            Some(pi) => self.product_refs[pi].1.clone(),
            None => return,
        };
        let filename = dependency_target.product_filename.clone();
        let comment = concat3(filename.as_str(), " in ", destination.phase_name.as_str());
        let code_sign = match dependency.code_sign {
            Some(v) => v,
            None => is_framework(&dependency_target.target_type) || match dependency_target.target_type {
                ProductType::XpcService => true,
                _ => false,
            },
        };
        let copy_settings = copy_build_file_settings(code_sign, dependency.remove_headers);
        let platform_filter = target_dependency_platform_filter(Some(dependency));
        let key = concat3("targetDependencyCopyBuildFile:", target.name.as_str(), ":");
        let key = concat2(key.as_str(), reference);
        let filters = platform_filters_for_dependency(dependency);
        let file = self.add_copied_build_file(key.as_str(), comment, product_ref, filename, platform_filter, copy_settings,
            &filters);
        proof {
            lemma_insert_refs(buckets_view(buckets@), settings_view(destination), file@);
        }
        bucket_insert(buckets, destination, file);
    }

    /// The phases that embed what a target's dependencies produce: the
    /// frameworks and SDKs it embeds, then the products of the targets it
    /// embeds, gathered by destination in destination order; each phase
    /// with its name.
    pub fn target_dependency_copy_files_phases(&mut self, target: &Target) -> (r: Vec<(String, String)>)
        requires
            old(self).inv(),
        ensures
            final(self).inv(),
            crate::generator::keeps_natives(old(self).graph, final(self).graph),
            final(self).project == old(self).project,
            final(self).product_refs == old(self).product_refs,
            r@.len() == embed_buckets_spec(old(self).project, old(self).product_refs@, *target).len(),
            forall|q: int| 0 <= q < r@.len() ==> {
                let b = #[trigger] embed_buckets_spec(old(self).project, old(self).product_refs@, *target)[q];
                &&& r@[q].1@ == b.0.2
                &&& r@[q].0@ == object_id_spec("buildPhase:"@ + (target.name@ + ":CopyTargetDependencies:"@
                    + crate::text::dec_int(b.0.0) + ":"@ + b.0.1), 0)
            },
    {
        let ghost b_final = embed_buckets_spec(self.project, self.product_refs@, *target);
        let mut buckets: Vec<CopyBucket> = Vec::new();
        proof {
            assert(buckets_view(buckets@) =~= Seq::<((int, Seq<char>, Seq<char>), Seq<PVal>)>::empty());
        }
        let mut i: usize = 0;
        while i < target.dependencies.len()
            invariant
                self.inv(),
                crate::generator::keeps_natives(old(self).graph, self.graph),
                self.project == old(self).project,
                self.product_refs == old(self).product_refs,
                i <= target.dependencies@.len(),
                buckets_all_refs(buckets_view(buckets@)),
                buckets_view(buckets@) == external_buckets(*target, i as int),
            decreases target.dependencies.len() - i,
        {
            let dependency = &target.dependencies[i];
            let external = match dependency.dependency_type {
                DependencyType::Framework | DependencyType::Sdk { .. } => true,
                DependencyType::Target | DependencyType::Bundle => false,
            };
            if external && should_embed_external_dependency(target, dependency) {
                self.embed_external_dependency(&mut buckets, target, dependency);
            }
            i = i + 1;
        }
        let mut j: usize = 0;
        while j < target.dependencies.len()
            invariant
                self.inv(),
                crate::generator::keeps_natives(old(self).graph, self.graph),
                self.project == old(self).project,
                self.product_refs == old(self).product_refs,
                j <= target.dependencies@.len(),
                buckets_all_refs(buckets_view(buckets@)),
                buckets_view(buckets@) == target_buckets(self.project, self.product_refs@, *target,
                    external_buckets(*target, target.dependencies@.len() as int), j as int),
                b_final == embed_buckets_spec(self.project, self.product_refs@, *target),
            decreases target.dependencies.len() - j,
        {
            let dependency = &target.dependencies[j];
            let is_target = match dependency.dependency_type {
                DependencyType::Target => true,
                _ => false,
            };
            if is_target {
                self.embed_target_dependency(&mut buckets, target, dependency);
            }
            j = j + 1;
        }
        let mut phases: Vec<(String, String)> = Vec::new();
        while buckets.len() > 0
            invariant
                self.inv(),
                crate::generator::keeps_natives(old(self).graph, self.graph),
                self.project == old(self).project,
                self.product_refs == old(self).product_refs,
                buckets_all_refs(buckets_view(buckets@)),
                b_final == embed_buckets_spec(old(self).project, old(self).product_refs@, *target),
                phases@.len() + buckets@.len() == b_final.len(),
                buckets_view(buckets@) == b_final.skip(phases@.len() as int),
                forall|q: int| 0 <= q < phases@.len() ==> {
                    let b = #[trigger] b_final[q];
                    &&& phases@[q].1@ == b.0.2
                    &&& phases@[q].0@ == object_id_spec("buildPhase:"@ + (target.name@ + ":CopyTargetDependencies:"@
                        + crate::text::dec_int(b.0.0) + ":"@ + b.0.1), 0)
                },
            decreases buckets.len(),
        {
            let ghost bv = buckets_view(buckets@);
            let b = buckets.remove(0);
            proof {
                assert(buckets_view(buckets@) =~= bv.skip(1));
                assert(all_refs(bv[0].1));
            }
            let name = b.settings.phase_name;
            let run_only = run_only_when_installing(target.only_copy_files_on_install, name.as_str());
            let mut key = concat2(target.name.as_str(), ":CopyTargetDependencies:");
            push_dec_i64(&mut key, b.settings.dst_subfolder_spec);
            push_str(&mut key, ":");
            push_str(&mut key, b.settings.dst_path.as_str());
            let phase_name = if str_eq(name.as_str(), "CopyFiles") { None } else { Some(name.as_str()) };
            let files = b.files;
            proof {
                assert(bucket_view(b) == bv[0]);
            }
            let id = self.add_copy_files_build_phase_with_name(key.as_str(), phase_name, b.settings.dst_subfolder_spec,
                b.settings.dst_path.as_str(), run_only, files);
            let ghost p0 = phases@;
            phases.push((id, name.clone()));
            proof {
                assert(bv[0] == b_final[p0.len() as int]);
                assert(b_final.skip(p0.len() as int).skip(1) =~= b_final.skip(phases@.len() as int));
                assert forall|q: int| 0 <= q < phases@.len() implies {
                    let b = #[trigger] b_final[q];
                    &&& phases@[q].1@ == b.0.2
                    &&& phases@[q].0@ == object_id_spec("buildPhase:"@ + (target.name@ + ":CopyTargetDependencies:"@
                        + crate::text::dec_int(b.0.0) + ":"@ + b.0.1), 0)
                } by {
                    if q < p0.len() {
                        assert(phases@[q] == p0[q]);
                    }
                }
            }
        }
        phases
    }

    /// The build files that copy the products of the messages applications
    /// a target depends on into its resources.
    pub fn target_dependency_resource_files(&mut self, target: &Target) -> (r: Vec<PbxValue>)
        requires
            old(self).inv(),
        ensures
            final(self).inv(),
            crate::generator::keeps_natives(old(self).graph, final(self).graph),
            final(self).project == old(self).project,
            final(self).product_refs == old(self).product_refs,
            all_refs(all_items_view(r@)),
            all_items_view(r@) == resource_files_spec(old(self).project, old(self).product_refs@, *target,
                target.dependencies@.len() as int),
    {
        let mut files: Vec<PbxValue> = Vec::new();
        proof {
            lemma_items_view(files@, 0);
        }
        let mut i: usize = 0;
        while i < target.dependencies.len()
            invariant
                self.inv(),
                crate::generator::keeps_natives(old(self).graph, self.graph),
                self.project == old(self).project,
                self.product_refs == old(self).product_refs,
                i <= target.dependencies@.len(),
                all_refs(all_items_view(files@)),
                all_items_view(files@) == resource_files_spec(self.project, self.product_refs@, *target, i as int),
            decreases target.dependencies.len() - i,
        {
            let dependency = &target.dependencies[i];
            let is_target = match dependency.dependency_type {
                DependencyType::Target => true,
                _ => false,
            };
            if is_target {
                if let Some(ti) = crate::transitive::find_first_target(self.project, dependency.reference.as_str()) {
                    let dependency_target = &self.project.targets[ti];
                    let is_messages = match dependency_target.target_type {
                        ProductType::MessagesApplication => true,
                        _ => false,
                    };
                    if is_messages {
                        if let Some(pi) = smap_find(&self.product_refs, dependency.reference.as_str()) {
                            let product_ref = self.product_refs[pi].1.clone();
                            let filename = dependency_target.product_filename.clone();
                            let comment = concat2(filename.as_str(), " in Resources");
                            let code_sign = match dependency.code_sign {
                                Some(v) => v,
                                None => is_framework(&dependency_target.target_type),
                            };
                            let copy_settings = copy_build_file_settings(code_sign, dependency.remove_headers);
                            let key = concat3("targetDependencyResourceBuildFile:", target.name.as_str(), ":");
                            let key = concat2(key.as_str(), dependency.reference.as_str());
                            let filters = platform_filters_for_dependency(dependency);
                            let file = self.add_copied_build_file(key.as_str(), comment, product_ref, filename, None,
                                copy_settings, &filters);
                            let ghost before = files@;
                            files.push(file);
                            proof {
                                lemma_items_view(files@, files@.len() as int);
                                lemma_items_view(before, before.len() as int);
                                assert forall|q: int| 0 <= q < files@.len() implies (#[trigger] all_items_view(files@)[q]) is Ref by {
                                    if q < before.len() {
                                        assert(files@[q] == before[q]);
                                        assert(all_items_view(before)[q] is Ref);
                                    }
                                }
                                assert forall|q: int| 0 <= q < before.len() implies all_items_view(files@)[q]
                                    == #[trigger] all_items_view(before)[q] by {
                                    assert(files@[q] == before[q]);
                                }
                                assert(all_items_view(files@) =~= all_items_view(before).push(files@[before.len() as int]@));
                            }
                        }
                    }
                }
            }
            i = i + 1;
        }
        files
    }
}

/// Appends references to references.
pub fn append_refs(a: &mut Vec<PbxValue>, b: Vec<PbxValue>)
    requires
        all_refs(all_items_view(old(a)@)),
        all_refs(all_items_view(b@)),
    ensures
        all_refs(all_items_view(final(a)@)),
        final(a)@ == old(a)@ + b@,
{
    let mut b = b;
    let ghost a0 = a@;
    let ghost b0 = b@;
    proof {
        lemma_items_view(a0, a0.len() as int);
        lemma_items_view(b0, b0.len() as int);
    }
    a.append(&mut b);
    proof {
        lemma_items_view(a@, a@.len() as int);
        assert forall|q: int| 0 <= q < a@.len() implies (#[trigger] all_items_view(a@)[q]) is Ref by {
            if q < a0.len() {
                assert(a@[q] == a0[q]);
                assert(all_items_view(a0)[q] is Ref);
            } else {
                assert(a@[q] == b0[q - a0.len()]);
                assert(all_items_view(b0)[q - a0.len()] is Ref);
            }
        }
        assert(a@ =~= a0 + b0);
    }
}


impl<'a> PbxGenerator<'a> {
    /// The phase that copies the bundles a target depends on into its
    /// resources, under `buildPhase:`, the target's name and `:CopyBundles`;
    /// none for a target that depends on no bundle.
    pub fn bundle_copy_files_phase(&mut self, target: &Target) -> (r: Option<String>)
        requires
            old(self).inv(),
        ensures
            final(self).inv(),
            crate::generator::keeps_natives(old(self).graph, final(self).graph),
            final(self).project == old(self).project,
            final(self).product_refs == old(self).product_refs,
            r is Some <==> exists|i: int| 0 <= i < target.dependencies@.len()
                && (#[trigger] target.dependencies@[i]).dependency_type is Bundle,
    {
        let mut files: Vec<PbxValue> = Vec::new();
        proof {
            lemma_items_view(files@, 0);
        }
        let mut i: usize = 0;
        while i < target.dependencies.len()
            invariant
                self.inv(),
                crate::generator::keeps_natives(old(self).graph, self.graph),
                self.project == old(self).project,
                self.product_refs == old(self).product_refs,
                i <= target.dependencies@.len(),
                all_refs(all_items_view(files@)),
                (files@.len() > 0) <==> exists|q: int| 0 <= q < i && (#[trigger] target.dependencies@[q]).dependency_type is Bundle,
            decreases target.dependencies.len() - i,
        {
            let dependency = &target.dependencies[i];
            let is_bundle = match dependency.dependency_type {
                DependencyType::Bundle => true,
                _ => false,
            };
            if is_bundle {
                let reference = dependency.reference.as_str();
                let name = crate::paths::display_name(reference);
                let ref_key = concat2("bundleDependencyRef:", reference);
                let file_type = crate::products::file_type_for_path(reference, None);
                let file_ref = self.add_file_reference(ref_key.as_str(), name.clone(), Some(string_from(reference)),
                    Some(file_type), None, "BUILT_PRODUCTS_DIR", true);
                let comment = concat2(name.as_str(), " in Copy Bundle Resources");
                let code_sign = match dependency.code_sign {
                    Some(v) => v,
                    None => true,
                };
                let copy_settings = copy_build_file_settings(code_sign, dependency.remove_headers);
                let filters = platform_filters_for_dependency(dependency);
                let key = concat3("bundleBuildFile:", target.name.as_str(), ":");
                let key = concat2(key.as_str(), reference);
                let file = self.add_copied_build_file(key.as_str(), comment, file_ref, name, None, copy_settings, &filters);
                let ghost before = files@;
                files.push(file);
                proof {
                    lemma_items_view(files@, files@.len() as int);
                    lemma_items_view(before, before.len() as int);
                    assert forall|q: int| 0 <= q < files@.len() implies (#[trigger] all_items_view(files@)[q]) is Ref by {
                        if q < before.len() {
                            assert(files@[q] == before[q]);
                            assert(all_items_view(before)[q] is Ref);
                        }
                    }
                    assert(target.dependencies@[i as int].dependency_type is Bundle);
                }
            }
            i = i + 1;
        }
        if files.len() == 0 {
            return None;
        }
        proof {
            lemma_refs_shallow(all_items_view(files@));
        }
        let object = PbxObject::new("PBXCopyFilesBuildPhase", string_from("Copy Bundle Resources"))
            .field("buildActionMask", PbxValue::Int(2147483647))
            .field("dstSubfolderSpec", PbxValue::Int(7))
            .field("files", PbxValue::Array(files))
            .field("name", PbxValue::String(string_from("Copy Bundle Resources")))
            .field("runOnlyForDeploymentPostprocessing", PbxValue::Int(0));
        proof {
            assert forall|k: Seq<char>| #[trigger] lookup(object@.fields, k) is Some implies pdepth(lookup(object@.fields, k)->0) < field_cap() by {}
            lemma_fields_below(object@.fields, field_cap());
        }
        let key = concat3("buildPhase:", target.name.as_str(), ":CopyBundles");
        proof {
            reveal_strlit("PBXCopyFilesBuildPhase");
            assert("PBXCopyFilesBuildPhase"@.len() == 22);
            crate::generator::lemma_other_class("PBXCopyFilesBuildPhase"@);
        }
        Some(self.add_object(key.as_str(), object))
    }
}

} // verus!
