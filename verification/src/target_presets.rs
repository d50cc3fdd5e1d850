//! The settings a target starts from by its product and platform: run
//! paths, test hosts, framework versioning and the like, and the `-ObjC`
//! flag an application needs for the Objective-C libraries it links.
use vstd::prelude::*;
use crate::graph::{PbxValue, PVal, all_items_view, lemma_items_view};
use crate::model::{Dependency, DependencyType, Project, Target};
use crate::paths::{extension, extension_spec};
use crate::products::{Platform, ProductType, is_watch_app_product, is_watch_app_product_spec, product_type_is_app,
    product_type_is_app_spec};
use crate::schemes::{target_named, target_position};
use crate::text::{concat2, concat3, str_eq, string_from};

verus! {

/// A list of strings as a project value.
pub open spec fn strs(items: Seq<Seq<char>>) -> PVal {
    PVal::Array(items.map_values(|s: Seq<char>| PVal::Str(s)))
}

/// The run paths of an executable on a platform.
pub open spec fn executable_rpaths(p: Platform) -> PVal {
    if p == Platform::Macos {
        strs(seq!["$(inherited)"@, "@executable_path/../Frameworks"@])
    } else {
        strs(seq!["$(inherited)"@, "@executable_path/Frameworks"@])
    }
}

/// The run paths of a test bundle on a platform.
pub open spec fn test_rpaths(p: Platform) -> PVal {
    if p == Platform::Macos {
        strs(seq!["$(inherited)"@, "@executable_path/../Frameworks"@, "@loader_path/../Frameworks"@])
    } else {
        strs(seq!["$(inherited)"@, "@executable_path/Frameworks"@, "@loader_path/Frameworks"@])
    }
}

/// The run paths of a watch or messages extension.
pub open spec fn extension_rpaths() -> PVal {
    strs(seq!["$(inherited)"@, "@executable_path/Frameworks"@, "@executable_path/../../Frameworks"@])
}

/// Application products a test bundle runs inside.
pub open spec fn is_host_app(t: ProductType) -> bool {
    t == ProductType::Application || t == ProductType::OnDemandInstallCapableApplication
}

/// The first dependency of a target on an application target of the
/// project, with that target.
pub open spec fn app_dependency(project: &Project, deps: Seq<Dependency>) -> Option<(Seq<char>, Target)>
    decreases deps.len(),
{
    if deps.len() == 0 {
        None
    } else {
        let d = deps[0];
        let here = if d.dependency_type is Target {
            match target_named(project, d.reference@) {
                Some(x) => if is_host_app(x.target_type) { Some((d.reference@, x)) } else { None },
                None => None,
            }
        } else {
            None
        };
        if here is Some { here } else { app_dependency(project, deps.skip(1)) }
    }
}

/// The test host of a unit test bundle: the executable of the first
/// application it depends on.
pub open spec fn test_host_spec(project: &Project, t: Target) -> Option<Seq<char>> {
    match app_dependency(project, t.dependencies@) {
        Some((_, h)) => Some("$(BUILT_PRODUCTS_DIR)/"@ + h.product_filename@ + if h.platform == Platform::Macos {
            "/Contents/MacOS/"@ + h.product_name@
        } else {
            "/"@ + h.product_name@
        }),
        None => None,
    }
}

/// The first dependency of a target on an application target of the
/// project: its position among the dependencies and the target's position.
pub fn first_app_dependency(project: &Project, target: &Target) -> (r: Option<(usize, usize)>)
    ensures
        match r {
            Some((d, k)) => d < target.dependencies@.len() && k < project.targets@.len()
                && app_dependency(project, target.dependencies@) == Some((target.dependencies@[d as int].reference@, project.targets@[k as int])),
            None => app_dependency(project, target.dependencies@) is None,
        },
{
    let ghost deps = target.dependencies@;
    let mut i: usize = 0;
    proof {
        assert(deps.skip(0) =~= deps);
    }
    while i < target.dependencies.len()
        invariant
            deps == target.dependencies@,
            i <= deps.len(),
            app_dependency(project, deps) == app_dependency(project, deps.skip(i as int)),
        decreases target.dependencies.len() - i,
    {
        proof {
            assert(deps.skip(i as int).skip(1) =~= deps.skip(i + 1));
            assert(deps.skip(i as int)[0] == deps[i as int]);
        }
        let d = &target.dependencies[i];
        let is_target = match d.dependency_type {
            DependencyType::Target => true,
            _ => false,
        };
        if is_target {
            if let Some(k) = target_position(project, d.reference.as_str()) {
                let host = match project.targets[k].target_type {
                    ProductType::Application | ProductType::OnDemandInstallCapableApplication => true,
                    _ => false,
                };
                if host {
                    return Some((i, k));
                }
            }
        }
        i = i + 1;
    }
    None
}

/// The target a UI test bundle tests: the first application target it
/// depends on.
pub fn test_target_reference_name(project: &Project, target: &Target) -> (r: Option<String>)
    ensures
        crate::schemes::opt_string(r) == match app_dependency(project, target.dependencies@) {
            Some((n, _)) => Some(n),
            None => None,
        },
{
    match first_app_dependency(project, target) {
        Some((d, _)) => Some(target.dependencies[d].reference.clone()),
        None => None,
    }
}

/// The test host of a unit test bundle.
pub fn test_host_setting(project: &Project, target: &Target) -> (r: Option<String>)
    ensures
        crate::schemes::opt_string(r) == test_host_spec(project, *target),
{
    match first_app_dependency(project, target) {
        Some((_, k)) => {
            let h = &project.targets[k];
            let tail = match h.platform {
                Platform::Macos => concat2("/Contents/MacOS/", h.product_name.as_str()),
                _ => concat2("/", h.product_name.as_str()),
            };
            Some(concat3("$(BUILT_PRODUCTS_DIR)/", h.product_filename.as_str(), tail.as_str()))
        },
        None => None,
    }
}

/// The presets of a framework target on a platform, in the order they are
/// set.
pub open spec fn framework_presets(p: Platform) -> Seq<(Seq<char>, PVal)> {
    seq![
        ("CODE_SIGN_IDENTITY"@, PVal::Str(""@)),
        ("CURRENT_PROJECT_VERSION"@, PVal::Int(1)),
        ("DEFINES_MODULE"@, PVal::Str("YES"@)),
        ("DYLIB_COMPATIBILITY_VERSION"@, PVal::Int(1)),
        ("DYLIB_CURRENT_VERSION"@, PVal::Int(1)),
        ("DYLIB_INSTALL_NAME_BASE"@, PVal::Str("@rpath"@)),
        ("INSTALL_PATH"@, PVal::Str("$(LOCAL_LIBRARY_DIR)/Frameworks"@)),
    ] + (if p == Platform::Macos {
        seq![("COMBINE_HIDPI_IMAGES"@, PVal::Str("YES"@)), ("LD_RUNPATH_SEARCH_PATHS"@, executable_rpaths(Platform::Macos))]
    } else if p == Platform::Watchos {
        Seq::empty()
    } else {
        seq![("LD_RUNPATH_SEARCH_PATHS"@, executable_rpaths(Platform::Ios))]
    }) + seq![("SKIP_INSTALL"@, PVal::Str("YES"@)), ("VERSIONING_SYSTEM"@, PVal::Str("apple-generic"@))]
}

/// The presets of an application target.
pub open spec fn app_presets(t: Target) -> Seq<(Seq<char>, PVal)> {
    (if t.target_type == ProductType::Application {
        seq![("ASSETCATALOG_COMPILER_APPICON_NAME"@, PVal::Str("AppIcon"@))]
    } else {
        Seq::empty()
    }) + (if t.platform == Platform::Ios && t.target_type == ProductType::Application {
        seq![("CODE_SIGN_IDENTITY"@, PVal::Str("iPhone Developer"@))]
    } else {
        Seq::empty()
    }) + (if t.platform != Platform::Watchos {
        seq![("LD_RUNPATH_SEARCH_PATHS"@, executable_rpaths(t.platform))]
    } else {
        Seq::empty()
    }) + (if is_watch_app_product_spec(t.target_type) {
        seq![("SKIP_INSTALL"@, PVal::Str("YES"@))]
    } else {
        Seq::empty()
    })
}

/// The presets of a target by its kind of product.
pub open spec fn kind_presets(project: &Project, t: Target) -> Seq<(Seq<char>, PVal)> {
    if product_type_is_app_spec(t.target_type) {
        app_presets(t)
    } else if t.target_type == ProductType::UnitTestBundle {
        seq![("LD_RUNPATH_SEARCH_PATHS"@, test_rpaths(t.platform))] + (match test_host_spec(project, t) {
            Some(h) => seq![("TEST_HOST"@, PVal::Str(h))],
            None => Seq::empty(),
        }) + seq![("BUNDLE_LOADER"@, PVal::Str("$(TEST_HOST)"@))]
    } else if t.target_type == ProductType::UiTestBundle {
        seq![("LD_RUNPATH_SEARCH_PATHS"@, test_rpaths(t.platform))] + match app_dependency(project, t.dependencies@) {
            Some((_, h)) => seq![("BUNDLE_LOADER"@, PVal::Str("$(TEST_HOST)"@)), ("TEST_TARGET_NAME"@, PVal::Str(h.product_name@))],
            None => Seq::empty(),
        }
    } else if t.target_type == ProductType::StaticLibrary {
        (if t.platform != Platform::Watchos {
            seq![("LD_RUNPATH_SEARCH_PATHS"@, executable_rpaths(t.platform))]
        } else {
            Seq::empty()
        }) + seq![("SKIP_INSTALL"@, PVal::Str("YES"@))]
    } else if t.target_type == ProductType::Bundle || t.target_type is Other {
        seq![("LD_RUNPATH_SEARCH_PATHS"@, executable_rpaths(t.platform))]
    } else if t.target_type == ProductType::WatchExtension || t.target_type == ProductType::Watch2Extension {
        seq![
            ("ASSETCATALOG_COMPILER_COMPLICATION_NAME"@, PVal::Str("Complication"@)),
            ("LD_RUNPATH_SEARCH_PATHS"@, extension_rpaths()),
            ("SKIP_INSTALL"@, PVal::Str("YES"@)),
        ]
    } else if t.target_type == ProductType::MessagesExtension {
        seq![
            ("ASSETCATALOG_COMPILER_APPICON_NAME"@, PVal::Str("iMessage App Icon"@)),
            ("LD_RUNPATH_SEARCH_PATHS"@, extension_rpaths()),
        ]
    } else if t.target_type == ProductType::StickerPack {
        seq![("LD_RUNPATH_SEARCH_PATHS"@, executable_rpaths(Platform::Ios))]
    } else if t.target_type == ProductType::SystemExtension || t.target_type == ProductType::DriverExtension
        || t.target_type == ProductType::XpcService || t.target_type == ProductType::CommandLineTool {
        seq![("LD_RUNPATH_SEARCH_PATHS"@, executable_rpaths(t.platform))]
    } else {
        Seq::empty()
    }
}

/// The presets of a target, in the order they are set; where a key comes
/// twice, the first value is the one kept.
pub open spec fn target_presets_spec(project: &Project, t: Target) -> Seq<(Seq<char>, PVal)> {
    (if t.platform == Platform::Macos {
        seq![("COMBINE_HIDPI_IMAGES"@, PVal::Str("YES"@))]
    } else {
        Seq::empty()
    }) + kind_presets(project, t) + if t.target_type == ProductType::Framework || t.target_type == ProductType::StaticFramework {
        framework_presets(t.platform)
    } else {
        Seq::empty()
    }
}

/// The view of a list of settings in order.
pub open spec fn pairs_view(s: Seq<(String, PbxValue)>) -> Seq<(Seq<char>, PVal)> {
    s.map_values(|e: (String, PbxValue)| (e.0@, e.1@))
}

fn str_array(items: Vec<PbxValue>, view: Ghost<Seq<Seq<char>>>) -> (r: PbxValue)
    requires
        items@.len() == view@.len(),
        forall|k: int| 0 <= k < items@.len() ==> #[trigger] items@[k]@ == PVal::Str(view@[k]),
    ensures
        r@ == strs(view@),
        crate::graph::pdepth(r@) <= 1,
{
    proof {
        lemma_items_view(items@, items@.len() as int);
        assert forall|k: int| 0 <= k < all_items_view(items@).len() implies #[trigger] all_items_view(items@)[k]
            == view@.map_values(|s: Seq<char>| PVal::Str(s))[k] by {
            assert(all_items_view(items@)[k] == items@[k]@);
        }
        assert(all_items_view(items@) =~= view@.map_values(|s: Seq<char>| PVal::Str(s)));
        assert forall|k: int| 0 <= k < all_items_view(items@).len() implies crate::graph::pdepth(#[trigger] all_items_view(items@)[k]) < 1 by {
            assert(all_items_view(items@)[k] is Str);
        }
        crate::depth::lemma_array_below(all_items_view(items@), 1);
    }
    PbxValue::Array(items)
}

fn strs2(a: &str, b: &str) -> (r: PbxValue)
    ensures
        r@ == strs(seq![a@, b@]),
        crate::graph::pdepth(r@) <= 1,
{
    let mut v: Vec<PbxValue> = Vec::new();
    v.push(PbxValue::String(string_from(a)));
    v.push(PbxValue::String(string_from(b)));
    let ghost view = seq![a@, b@];
    let r = str_array(v, Ghost(view));
    r
}

fn strs3(a: &str, b: &str, c: &str) -> (r: PbxValue)
    ensures
        r@ == strs(seq![a@, b@, c@]),
        crate::graph::pdepth(r@) <= 1,
{
    let mut v: Vec<PbxValue> = Vec::new();
    v.push(PbxValue::String(string_from(a)));
    v.push(PbxValue::String(string_from(b)));
    v.push(PbxValue::String(string_from(c)));
    let ghost view = seq![a@, b@, c@];
    let r = str_array(v, Ghost(view));
    r
}

pub(crate) fn rpaths(platform: Platform, test: bool) -> (r: PbxValue)
    ensures
        r@ == if test { test_rpaths(platform) } else { executable_rpaths(platform) },
        crate::graph::pdepth(r@) <= 1,
{
    let macos = match platform {
        Platform::Macos => true,
        _ => false,
    };
    if test {
        if macos {
            strs3("$(inherited)", "@executable_path/../Frameworks", "@loader_path/../Frameworks")
        } else {
            strs3("$(inherited)", "@executable_path/Frameworks", "@loader_path/Frameworks")
        }
    } else {
        if macos {
            strs2("$(inherited)", "@executable_path/../Frameworks")
        } else {
            strs2("$(inherited)", "@executable_path/Frameworks")
        }
    }
}

fn push_pair(out: &mut Vec<(String, PbxValue)>, key: &str, value: PbxValue)
    requires
        crate::graph::pdepth(value@) <= 1,
        forall|k: int| 0 <= k < old(out)@.len() ==> crate::graph::pdepth(#[trigger] old(out)@[k].1@) <= 1,
    ensures
        pairs_view(final(out)@) == pairs_view(old(out)@).push((key@, value@)),
        forall|k: int| 0 <= k < final(out)@.len() ==> crate::graph::pdepth(#[trigger] final(out)@[k].1@) <= 1,
{
    let ghost b = out@;
    out.push((string_from(key), value));
    proof {
        assert(pairs_view(out@) =~= pairs_view(b).push((key@, value@)));
        assert forall|k: int| 0 <= k < out@.len() implies crate::graph::pdepth(#[trigger] out@[k].1@) <= 1 by {
            if k < b.len() {
                assert(out@[k] == b[k]);
            }
        }
    }
}

fn str_value(s: &str) -> (r: PbxValue)
    ensures
        r@ == PVal::Str(s@),
        crate::graph::pdepth(r@) <= 1,
{
    PbxValue::String(string_from(s))
}

fn push_framework_presets(out: &mut Vec<(String, PbxValue)>, platform: Platform)
    requires
        forall|k: int| 0 <= k < old(out)@.len() ==> crate::graph::pdepth(#[trigger] old(out)@[k].1@) <= 1,
    ensures
        pairs_view(final(out)@) == pairs_view(old(out)@) + framework_presets(platform),
        forall|k: int| 0 <= k < final(out)@.len() ==> crate::graph::pdepth(#[trigger] final(out)@[k].1@) <= 1,
{
    let ghost b = pairs_view(out@);
    push_pair(out, "CODE_SIGN_IDENTITY", str_value(""));
    push_pair(out, "CURRENT_PROJECT_VERSION", PbxValue::Int(1));
    push_pair(out, "DEFINES_MODULE", str_value("YES"));
    push_pair(out, "DYLIB_COMPATIBILITY_VERSION", PbxValue::Int(1));
    push_pair(out, "DYLIB_CURRENT_VERSION", PbxValue::Int(1));
    push_pair(out, "DYLIB_INSTALL_NAME_BASE", str_value("@rpath"));
    push_pair(out, "INSTALL_PATH", str_value("$(LOCAL_LIBRARY_DIR)/Frameworks"));
    match platform {
        Platform::Macos => {
            push_pair(out, "COMBINE_HIDPI_IMAGES", str_value("YES"));
            push_pair(out, "LD_RUNPATH_SEARCH_PATHS", rpaths(Platform::Macos, false));
        },
        Platform::Watchos => {},
        _ => {
            push_pair(out, "LD_RUNPATH_SEARCH_PATHS", rpaths(Platform::Ios, false));
        },
    }
    push_pair(out, "SKIP_INSTALL", str_value("YES"));
    push_pair(out, "VERSIONING_SYSTEM", str_value("apple-generic"));
    proof {
        assert(pairs_view(out@) =~= b + framework_presets(platform));
    }
}

fn push_app_presets(out: &mut Vec<(String, PbxValue)>, t: &Target)
    requires
        forall|k: int| 0 <= k < old(out)@.len() ==> crate::graph::pdepth(#[trigger] old(out)@[k].1@) <= 1,
    ensures
        pairs_view(final(out)@) == pairs_view(old(out)@) + app_presets(*t),
        forall|k: int| 0 <= k < final(out)@.len() ==> crate::graph::pdepth(#[trigger] final(out)@[k].1@) <= 1,
{
    let ghost b = pairs_view(out@);
    let is_application = match t.target_type {
        ProductType::Application => true,
        _ => false,
    };
    let ios = match t.platform {
        Platform::Ios => true,
        _ => false,
    };
    let watchos = match t.platform {
        Platform::Watchos => true,
        _ => false,
    };
    if is_application {
        push_pair(out, "ASSETCATALOG_COMPILER_APPICON_NAME", str_value("AppIcon"));
    }
    if ios && is_application {
        push_pair(out, "CODE_SIGN_IDENTITY", str_value("iPhone Developer"));
    }
    if !watchos {
        push_pair(out, "LD_RUNPATH_SEARCH_PATHS", rpaths(t.platform, false));
    }
    if is_watch_app_product(&t.target_type) {
        push_pair(out, "SKIP_INSTALL", str_value("YES"));
    }
    proof {
        assert(pairs_view(out@) =~= b + app_presets(*t));
    }
}

#[verifier::spinoff_prover]
#[verifier::rlimit(40)]
fn push_kind_presets(out: &mut Vec<(String, PbxValue)>, project: &Project, t: &Target)
    requires
        forall|k: int| 0 <= k < old(out)@.len() ==> crate::graph::pdepth(#[trigger] old(out)@[k].1@) <= 1,
    ensures
        pairs_view(final(out)@) == pairs_view(old(out)@) + kind_presets(project, *t),
        forall|k: int| 0 <= k < final(out)@.len() ==> crate::graph::pdepth(#[trigger] final(out)@[k].1@) <= 1,
{
    let ghost b = pairs_view(out@);
    if product_type_is_app(&t.target_type) {
        push_app_presets(out, t);
        return;
    }
    match t.target_type {
        ProductType::UnitTestBundle => {
            push_pair(out, "LD_RUNPATH_SEARCH_PATHS", rpaths(t.platform, true));
            if let Some(h) = test_host_setting(project, t) {
                push_pair(out, "TEST_HOST", PbxValue::String(h));
            }
            push_pair(out, "BUNDLE_LOADER", str_value("$(TEST_HOST)"));
        },
        ProductType::UiTestBundle => {
            push_pair(out, "LD_RUNPATH_SEARCH_PATHS", rpaths(t.platform, true));
            if let Some((_, k)) = first_app_dependency(project, t) {
                push_pair(out, "BUNDLE_LOADER", str_value("$(TEST_HOST)"));
                push_pair(out, "TEST_TARGET_NAME", PbxValue::String(project.targets[k].product_name.clone()));
            }
        },
        ProductType::StaticLibrary => {
            let watchos = match t.platform {
                Platform::Watchos => true,
                _ => false,
            };
            if !watchos {
                push_pair(out, "LD_RUNPATH_SEARCH_PATHS", rpaths(t.platform, false));
            }
            push_pair(out, "SKIP_INSTALL", str_value("YES"));
        },
        ProductType::Bundle | ProductType::Other(_) => {
            push_pair(out, "LD_RUNPATH_SEARCH_PATHS", rpaths(t.platform, false));
        },
        ProductType::WatchExtension | ProductType::Watch2Extension => {
            push_pair(out, "ASSETCATALOG_COMPILER_COMPLICATION_NAME", str_value("Complication"));
            push_pair(out, "LD_RUNPATH_SEARCH_PATHS", strs3("$(inherited)", "@executable_path/Frameworks", "@executable_path/../../Frameworks"));
            push_pair(out, "SKIP_INSTALL", str_value("YES"));
        },
        ProductType::MessagesExtension => {
            push_pair(out, "ASSETCATALOG_COMPILER_APPICON_NAME", str_value("iMessage App Icon"));
            push_pair(out, "LD_RUNPATH_SEARCH_PATHS", strs3("$(inherited)", "@executable_path/Frameworks", "@executable_path/../../Frameworks"));
        },
        ProductType::StickerPack => {
            push_pair(out, "LD_RUNPATH_SEARCH_PATHS", rpaths(Platform::Ios, false));
        },
        ProductType::SystemExtension | ProductType::DriverExtension | ProductType::XpcService
        | ProductType::CommandLineTool => {
            push_pair(out, "LD_RUNPATH_SEARCH_PATHS", rpaths(t.platform, false));
        },
        _ => {},
    }
    proof {
        assert(pairs_view(out@) =~= b + kind_presets(project, *t));
    }
}

/// The presets of a target, in the order they are set.
pub fn target_setting_presets(project: &Project, t: &Target) -> (r: Vec<(String, PbxValue)>)
    ensures
        pairs_view(r@) == target_presets_spec(project, *t),
        forall|k: int| 0 <= k < r@.len() ==> crate::graph::pdepth(#[trigger] r@[k].1@) <= 1,
{
    let mut out: Vec<(String, PbxValue)> = Vec::new();
    proof {
        assert(pairs_view(out@) =~= Seq::<(Seq<char>, PVal)>::empty());
    }
    if let Platform::Macos = t.platform {
        push_pair(&mut out, "COMBINE_HIDPI_IMAGES", str_value("YES"));
    }
    let ghost a = pairs_view(out@);
    push_kind_presets(&mut out, project, t);
    let ghost b = pairs_view(out@);
    let framework = match t.target_type {
        ProductType::Framework | ProductType::StaticFramework => true,
        _ => false,
    };
    if framework {
        push_framework_presets(&mut out, t.platform);
    }
    proof {
        assert(pairs_view(out@) =~= target_presets_spec(project, *t));
    }
    out
}

/// Files whose sources are Objective-C implementation files.
pub open spec fn is_objc_source(path: Seq<char>) -> bool {
    extension_spec(path) == Some("m"@) || extension_spec(path) == Some("mm"@)
}

/// Whether linking a target's product needs `-ObjC`: as the target says,
/// else for static libraries and targets with Objective-C sources.
pub open spec fn requires_objc_spec(t: Target) -> bool {
    match t.requires_objc_linking {
        Some(v) => v,
        None => t.target_type == ProductType::StaticLibrary || exists|i: int|
            0 <= i < t.files@.len() && is_objc_source(#[trigger] t.files@[i]@),
    }
}

/// Whether a target links a target whose product needs `-ObjC`.
pub open spec fn dependencies_require_objc(project: &Project, t: Target) -> bool {
    exists|i: int|
        0 <= i < t.dependencies@.len() && (#[trigger] t.dependencies@[i]).dependency_type is Target
            && t.dependencies@[i].link != Some(false) && match target_named(project, t.dependencies@[i].reference@) {
            Some(x) => requires_objc_spec(x),
            None => false,
        }
}

fn is_objc_source_file(path: &str) -> (r: bool)
    ensures
        r == is_objc_source(path@),
{
    match extension(path) {
        Some(e) => {
            proof {
                reveal_strlit("m");
                reveal_strlit("mm");
            }
            str_eq(e.as_str(), "m") || str_eq(e.as_str(), "mm")
        },
        None => false,
    }
}

/// Whether linking a target's product needs `-ObjC`.
pub fn target_requires_objc_linking(t: &Target) -> (r: bool)
    ensures
        r == requires_objc_spec(*t),
{
    if let Some(v) = t.requires_objc_linking {
        return v;
    }
    if let ProductType::StaticLibrary = t.target_type {
        return true;
    }
    let mut i: usize = 0;
    while i < t.files.len()
        invariant
            i <= t.files@.len(),
            t.requires_objc_linking is None,
            t.target_type != ProductType::StaticLibrary,
            forall|k: int| 0 <= k < i ==> !is_objc_source(#[trigger] t.files@[k]@),
        decreases t.files.len() - i,
    {
        if is_objc_source_file(t.files[i].as_str()) {
            return true;
        }
        i = i + 1;
    }
    false
}

/// Whether a target links a target whose product needs `-ObjC`.
pub fn target_dependencies_require_objc_linking(project: &Project, t: &Target) -> (r: bool)
    ensures
        r == dependencies_require_objc(project, *t),
{
    let mut i: usize = 0;
    while i < t.dependencies.len()
        invariant
            i <= t.dependencies@.len(),
            forall|k: int|
                0 <= k < i ==> !((#[trigger] t.dependencies@[k]).dependency_type is Target && t.dependencies@[k].link
                    != Some(false) && match target_named(project, t.dependencies@[k].reference@) {
                    Some(x) => requires_objc_spec(x),
                    None => false,
                }),
        decreases t.dependencies.len() - i,
    {
        let d = &t.dependencies[i];
        let is_target = match d.dependency_type {
            DependencyType::Target => true,
            _ => false,
        };
        let unlinked = match d.link {
            Some(v) => !v,
            None => false,
        };
        if is_target && !unlinked {
            if let Some(k) = target_position(project, d.reference.as_str()) {
                if target_requires_objc_linking(&project.targets[k]) {
                    return true;
                }
            }
        }
        i = i + 1;
    }
    false
}

} // verus!
