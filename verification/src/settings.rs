//! Build settings: the presets a project starts from, and settings by
//! configuration as the project file holds them.
use vstd::prelude::*;
use crate::configs::{config_names, config_names_spec};
use crate::graph::{PbxValue, PVal};
use crate::json::{JsonValue, json_to_pval, pbx_value_from_json};
use crate::model::{Project, Target, settings_shallow, config_settings_shallow};
use crate::products::{Platform, sdk_root, sdk_root_spec};
use crate::rules::{is_debug_config_name, pbx_bool};
use crate::smap::{entries_view, keys_sorted, lookup, sins, smap_insert, smap_contains};
use crate::text::{string_from, ends_with_seq};
use crate::target_defaults::{deploy_ins, deployment_key_spec, insert_deployment_target};

verus! {

/// The settings every project configuration starts from, unless the
/// specification turns presets off.
pub open spec fn project_presets() -> Seq<(Seq<char>, Seq<char>)> {
    seq![
        ("ALWAYS_SEARCH_USER_PATHS"@, "NO"@),
        ("CLANG_ANALYZER_NONNULL"@, "YES"@),
        ("CLANG_ANALYZER_NUMBER_OBJECT_CONVERSION"@, "YES_AGGRESSIVE"@),
        ("CLANG_CXX_LANGUAGE_STANDARD"@, "gnu++14"@),
        ("CLANG_CXX_LIBRARY"@, "libc++"@),
        ("CLANG_ENABLE_MODULES"@, "YES"@),
        ("CLANG_ENABLE_OBJC_ARC"@, "YES"@),
        ("CLANG_ENABLE_OBJC_WEAK"@, "YES"@),
        ("CLANG_WARN_BLOCK_CAPTURE_AUTORELEASING"@, "YES"@),
        ("CLANG_WARN_BOOL_CONVERSION"@, "YES"@),
        ("CLANG_WARN_COMMA"@, "YES"@),
        ("CLANG_WARN_CONSTANT_CONVERSION"@, "YES"@),
        ("CLANG_WARN_DEPRECATED_OBJC_IMPLEMENTATIONS"@, "YES"@),
        ("CLANG_WARN_DIRECT_OBJC_ISA_USAGE"@, "YES_ERROR"@),
        ("CLANG_WARN_DOCUMENTATION_COMMENTS"@, "YES"@),
        ("CLANG_WARN_EMPTY_BODY"@, "YES"@),
        ("CLANG_WARN_ENUM_CONVERSION"@, "YES"@),
        ("CLANG_WARN_INFINITE_RECURSION"@, "YES"@),
        ("CLANG_WARN_INT_CONVERSION"@, "YES"@),
        ("CLANG_WARN_NON_LITERAL_NULL_CONVERSION"@, "YES"@),
        ("CLANG_WARN_OBJC_IMPLICIT_RETAIN_SELF"@, "YES"@),
        ("CLANG_WARN_OBJC_LITERAL_CONVERSION"@, "YES"@),
        ("CLANG_WARN_OBJC_ROOT_CLASS"@, "YES_ERROR"@),
        ("CLANG_WARN_QUOTED_INCLUDE_IN_FRAMEWORK_HEADER"@, "YES"@),
        ("CLANG_WARN_RANGE_LOOP_ANALYSIS"@, "YES"@),
        ("CLANG_WARN_STRICT_PROTOTYPES"@, "YES"@),
        ("CLANG_WARN_SUSPICIOUS_MOVE"@, "YES"@),
        ("CLANG_WARN_UNGUARDED_AVAILABILITY"@, "YES_AGGRESSIVE"@),
        ("CLANG_WARN_UNREACHABLE_CODE"@, "YES"@),
        ("CLANG_WARN__DUPLICATE_METHOD_MATCH"@, "YES"@),
        ("COPY_PHASE_STRIP"@, "NO"@),
        ("ENABLE_STRICT_OBJC_MSGSEND"@, "YES"@),
        ("GCC_C_LANGUAGE_STANDARD"@, "gnu11"@),
        ("GCC_NO_COMMON_BLOCKS"@, "YES"@),
        ("GCC_WARN_64_TO_32_BIT_CONVERSION"@, "YES"@),
        ("GCC_WARN_ABOUT_RETURN_TYPE"@, "YES_ERROR"@),
        ("GCC_WARN_UNDECLARED_SELECTOR"@, "YES"@),
        ("GCC_WARN_UNINITIALIZED_AUTOS"@, "YES_AGGRESSIVE"@),
        ("GCC_WARN_UNUSED_FUNCTION"@, "YES"@),
        ("GCC_WARN_UNUSED_VARIABLE"@, "YES"@),
        ("MTL_FAST_MATH"@, "YES"@),
        ("SWIFT_VERSION"@, "5.0"@),
    ]
}

/// The project presets, in order.
pub fn project_preset_table() -> (t: Vec<(String, String)>)
    ensures
        t@.map_values(|e: (String, String)| (e.0@, e.1@)) == project_presets(),
{
    let mut t: Vec<(String, String)> = Vec::new();
    t.push((string_from("ALWAYS_SEARCH_USER_PATHS"), string_from("NO")));
    t.push((string_from("CLANG_ANALYZER_NONNULL"), string_from("YES")));
    t.push((string_from("CLANG_ANALYZER_NUMBER_OBJECT_CONVERSION"), string_from("YES_AGGRESSIVE")));
    t.push((string_from("CLANG_CXX_LANGUAGE_STANDARD"), string_from("gnu++14")));
    t.push((string_from("CLANG_CXX_LIBRARY"), string_from("libc++")));
    t.push((string_from("CLANG_ENABLE_MODULES"), string_from("YES")));
    t.push((string_from("CLANG_ENABLE_OBJC_ARC"), string_from("YES")));
    t.push((string_from("CLANG_ENABLE_OBJC_WEAK"), string_from("YES")));
    t.push((string_from("CLANG_WARN_BLOCK_CAPTURE_AUTORELEASING"), string_from("YES")));
    t.push((string_from("CLANG_WARN_BOOL_CONVERSION"), string_from("YES")));
    t.push((string_from("CLANG_WARN_COMMA"), string_from("YES")));
    t.push((string_from("CLANG_WARN_CONSTANT_CONVERSION"), string_from("YES")));
    t.push((string_from("CLANG_WARN_DEPRECATED_OBJC_IMPLEMENTATIONS"), string_from("YES")));
    t.push((string_from("CLANG_WARN_DIRECT_OBJC_ISA_USAGE"), string_from("YES_ERROR")));
    t.push((string_from("CLANG_WARN_DOCUMENTATION_COMMENTS"), string_from("YES")));
    t.push((string_from("CLANG_WARN_EMPTY_BODY"), string_from("YES")));
    t.push((string_from("CLANG_WARN_ENUM_CONVERSION"), string_from("YES")));
    t.push((string_from("CLANG_WARN_INFINITE_RECURSION"), string_from("YES")));
    t.push((string_from("CLANG_WARN_INT_CONVERSION"), string_from("YES")));
    t.push((string_from("CLANG_WARN_NON_LITERAL_NULL_CONVERSION"), string_from("YES")));
    t.push((string_from("CLANG_WARN_OBJC_IMPLICIT_RETAIN_SELF"), string_from("YES")));
    t.push((string_from("CLANG_WARN_OBJC_LITERAL_CONVERSION"), string_from("YES")));
    t.push((string_from("CLANG_WARN_OBJC_ROOT_CLASS"), string_from("YES_ERROR")));
    t.push((string_from("CLANG_WARN_QUOTED_INCLUDE_IN_FRAMEWORK_HEADER"), string_from("YES")));
    t.push((string_from("CLANG_WARN_RANGE_LOOP_ANALYSIS"), string_from("YES")));
    t.push((string_from("CLANG_WARN_STRICT_PROTOTYPES"), string_from("YES")));
    t.push((string_from("CLANG_WARN_SUSPICIOUS_MOVE"), string_from("YES")));
    t.push((string_from("CLANG_WARN_UNGUARDED_AVAILABILITY"), string_from("YES_AGGRESSIVE")));
    t.push((string_from("CLANG_WARN_UNREACHABLE_CODE"), string_from("YES")));
    t.push((string_from("CLANG_WARN__DUPLICATE_METHOD_MATCH"), string_from("YES")));
    t.push((string_from("COPY_PHASE_STRIP"), string_from("NO")));
    t.push((string_from("ENABLE_STRICT_OBJC_MSGSEND"), string_from("YES")));
    t.push((string_from("GCC_C_LANGUAGE_STANDARD"), string_from("gnu11")));
    t.push((string_from("GCC_NO_COMMON_BLOCKS"), string_from("YES")));
    t.push((string_from("GCC_WARN_64_TO_32_BIT_CONVERSION"), string_from("YES")));
    t.push((string_from("GCC_WARN_ABOUT_RETURN_TYPE"), string_from("YES_ERROR")));
    t.push((string_from("GCC_WARN_UNDECLARED_SELECTOR"), string_from("YES")));
    t.push((string_from("GCC_WARN_UNINITIALIZED_AUTOS"), string_from("YES_AGGRESSIVE")));
    t.push((string_from("GCC_WARN_UNUSED_FUNCTION"), string_from("YES")));
    t.push((string_from("GCC_WARN_UNUSED_VARIABLE"), string_from("YES")));
    t.push((string_from("MTL_FAST_MATH"), string_from("YES")));
    t.push((string_from("SWIFT_VERSION"), string_from("5.0")));
    proof {
        assert(t@.map_values(|e: (String, String)| (e.0@, e.1@)) =~= project_presets());
    }
    t
}

/// Settings after giving each of the first `n` presets its value where the
/// settings do not set it.
pub open spec fn presets_applied(base: Seq<(Seq<char>, PVal)>, table: Seq<(Seq<char>, Seq<char>)>, n: int) -> Seq<(Seq<char>, PVal)>
    decreases n,
{
    if n <= 0 || n > table.len() {
        base
    } else {
        let acc = presets_applied(base, table, n - 1);
        if lookup(acc, table[n - 1].0) is Some {
            acc
        } else {
            sins(acc, table[n - 1].0, PVal::Str(table[n - 1].1))
        }
    }
}

/// The settings a debug configuration sets over the presets.
pub open spec fn debug_overrides(s: Seq<(Seq<char>, PVal)>) -> Seq<(Seq<char>, PVal)> {
    let s = sins(s, "DEBUG_INFORMATION_FORMAT"@, PVal::Str("dwarf"@));
    let s = sins(s, "ENABLE_TESTABILITY"@, PVal::Str("YES"@));
    let s = sins(s, "GCC_DYNAMIC_NO_PIC"@, PVal::Str("NO"@));
    let s = sins(s, "GCC_OPTIMIZATION_LEVEL"@, PVal::Str("0"@));
    let s = sins(s, "GCC_PREPROCESSOR_DEFINITIONS"@, PVal::Array(seq![PVal::Str("$(inherited)"@), PVal::Str("DEBUG=1"@)]));
    let s = sins(s, "MTL_ENABLE_DEBUG_INFO"@, PVal::Str("INCLUDE_SOURCE"@));
    let s = sins(s, "ONLY_ACTIVE_ARCH"@, PVal::Str("YES"@));
    let s = sins(s, "SWIFT_ACTIVE_COMPILATION_CONDITIONS"@, PVal::Str("DEBUG"@));
    sins(s, "SWIFT_OPTIMIZATION_LEVEL"@, PVal::Str("-Onone"@))
}

/// The settings a release configuration sets over the presets.
pub open spec fn release_overrides(s: Seq<(Seq<char>, PVal)>) -> Seq<(Seq<char>, PVal)> {
    let s = sins(s, "DEBUG_INFORMATION_FORMAT"@, PVal::Str("dwarf-with-dsym"@));
    let s = sins(s, "ENABLE_NS_ASSERTIONS"@, PVal::Str("NO"@));
    let s = sins(s, "MTL_ENABLE_DEBUG_INFO"@, PVal::Str("NO"@));
    let s = sins(s, "SWIFT_COMPILATION_MODE"@, PVal::Str("wholemodule"@));
    sins(s, "SWIFT_OPTIMIZATION_LEVEL"@, PVal::Str("-O"@))
}

/// The settings after the project presets for a configuration: missing
/// presets filled in, then the debug or release settings set.
pub open spec fn project_presets_spec(s: Seq<(Seq<char>, PVal)>, config: Seq<char>) -> Seq<(Seq<char>, PVal)> {
    let p = presets_applied(s, project_presets(), project_presets().len() as int);
    if config == "Debug"@ || ends_with_seq(config, " Debug"@) {
        debug_overrides(p)
    } else {
        release_overrides(p)
    }
}

fn set_str(settings: &mut Vec<(String, PbxValue)>, key: &str, value: &str)
    requires
        keys_sorted(entries_view(old(settings)@)),
    ensures
        keys_sorted(entries_view(final(settings)@)),
        entries_view(final(settings)@) == sins(entries_view(old(settings)@), key@, PVal::Str(value@)),
{
    smap_insert(settings, string_from(key), PbxValue::String(string_from(value)));
}

/// Fills in the project presets and sets the debug or release settings.
pub fn insert_project_setting_presets(settings: &mut Vec<(String, PbxValue)>, config: &str)
    requires
        keys_sorted(entries_view(old(settings)@)),
    ensures
        keys_sorted(entries_view(final(settings)@)),
        entries_view(final(settings)@) == project_presets_spec(entries_view(old(settings)@), config@),
{
    let table = project_preset_table();
    let ghost tv = table@.map_values(|e: (String, String)| (e.0@, e.1@));
    let ghost base = entries_view(settings@);
    let mut i: usize = 0;
    while i < table.len()
        invariant
            tv == table@.map_values(|e: (String, String)| (e.0@, e.1@)),
            tv == project_presets(),
            i <= table@.len(),
            keys_sorted(entries_view(settings@)),
            entries_view(settings@) == presets_applied(base, tv, i as int),
        decreases table.len() - i,
    {
        proof {
            assert(tv[i as int] == (table@[i as int].0@, table@[i as int].1@));
        }
        if !smap_contains(settings, table[i].0.as_str()) {
            smap_insert(settings, table[i].0.clone(), PbxValue::String(table[i].1.clone()));
        }
        i = i + 1;
    }
    if is_debug_config_name(config) {
        set_str(settings, "DEBUG_INFORMATION_FORMAT", "dwarf");
        set_str(settings, "ENABLE_TESTABILITY", "YES");
        set_str(settings, "GCC_DYNAMIC_NO_PIC", "NO");
        set_str(settings, "GCC_OPTIMIZATION_LEVEL", "0");
        let mut defs: Vec<PbxValue> = Vec::new();
        defs.push(PbxValue::String(string_from("$(inherited)")));
        defs.push(PbxValue::String(string_from("DEBUG=1")));
        proof {
            crate::graph::lemma_items_view(defs@, 2);
            assert(defs@[0]@ == PVal::Str("$(inherited)"@));
            assert(defs@[1]@ == PVal::Str("DEBUG=1"@));
            assert(crate::graph::items_view(defs@, 2) =~= seq![PVal::Str("$(inherited)"@), PVal::Str("DEBUG=1"@)]);
        }
        let defs_value = PbxValue::Array(defs);
        smap_insert(settings, string_from("GCC_PREPROCESSOR_DEFINITIONS"), defs_value);
        set_str(settings, "MTL_ENABLE_DEBUG_INFO", "INCLUDE_SOURCE");
        set_str(settings, "ONLY_ACTIVE_ARCH", "YES");
        set_str(settings, "SWIFT_ACTIVE_COMPILATION_CONDITIONS", "DEBUG");
        set_str(settings, "SWIFT_OPTIMIZATION_LEVEL", "-Onone");
    } else {
        set_str(settings, "DEBUG_INFORMATION_FORMAT", "dwarf-with-dsym");
        set_str(settings, "ENABLE_NS_ASSERTIONS", "NO");
        set_str(settings, "MTL_ENABLE_DEBUG_INFO", "NO");
        set_str(settings, "SWIFT_COMPILATION_MODE", "wholemodule");
        set_str(settings, "SWIFT_OPTIMIZATION_LEVEL", "-O");
    }
}

/// The one platform every target that names a platform builds for, if
/// there is exactly one.
pub open spec fn single_platform_spec(targets: Seq<Target>) -> Option<Platform> {
    if exists|i: int| 0 <= i < targets.len() && targets[i].platform != Platform::Auto {
        let i = choose|i: int| 0 <= i < targets.len() && targets[i].platform != Platform::Auto;
        let p = targets[i].platform;
        if forall|j: int| 0 <= j < targets.len() && targets[j].platform != Platform::Auto ==> #[trigger] targets[j].platform == p {
            Some(p)
        } else {
            None
        }
    } else {
        None
    }
}

/// The platform of a project whose targets all build for the same one.
pub fn single_project_platform(project: &Project) -> (r: Option<Platform>)
    ensures
        r == single_platform_spec(project.targets@),
{
    let targets = &project.targets;
    let mut found: Option<Platform> = None;
    let mut mixed = false;
    let mut i: usize = 0;
    while i < targets.len()
        invariant
            targets == &project.targets,
            i <= targets@.len(),
            found is None ==> forall|j: int| 0 <= j < i ==> #[trigger] targets@[j].platform == Platform::Auto,
            found matches Some(p) ==> p != Platform::Auto && exists|j: int| 0 <= j < i && #[trigger] targets@[j].platform == p,
            found matches Some(p) ==> (mixed <==> exists|j: int| 0 <= j < i && #[trigger] targets@[j].platform != Platform::Auto && targets@[j].platform != p),
            found is None ==> !mixed,
        decreases targets.len() - i,
    {
        let p = targets[i].platform;
        if p != Platform::Auto {
            match found {
                None => {
                    found = Some(p);
                },
                Some(q) => {
                    if p != q {
                        mixed = true;
                    }
                },
            }
        }
        i = i + 1;
    }
    let ghost ts = targets@;
    proof {
        if let Some(p) = found {
            let i = choose|i: int| 0 <= i < ts.len() && ts[i].platform != Platform::Auto;
            let j = choose|j: int| 0 <= j < ts.len() && #[trigger] ts[j].platform == p;
            if !mixed {
                assert(ts[i].platform == p);
            } else {
                let k = choose|k: int| 0 <= k < ts.len() && #[trigger] ts[k].platform != Platform::Auto && ts[k].platform != p;
                if ts[i].platform == p {
                    assert(ts[k].platform != ts[i].platform);
                } else {
                    assert(ts[j].platform != ts[i].platform);
                }
            }
        }
    }
    if mixed {
        None
    } else {
        found
    }
}

/// Whether some target leaves its platform to its destinations.
pub open spec fn any_auto_spec(targets: Seq<Target>) -> bool {
    exists|i: int| 0 <= i < targets.len() && #[trigger] targets[i].platform == Platform::Auto
}

fn any_auto_platform(project: &Project) -> (r: bool)
    ensures
        r == any_auto_spec(project.targets@),
{
    let targets = &project.targets;
    let mut i: usize = 0;
    while i < targets.len()
        invariant
            targets == &project.targets,
            i <= targets@.len(),
            forall|j: int| 0 <= j < i ==> #[trigger] targets@[j].platform != Platform::Auto,
        decreases targets.len() - i,
    {
        if targets[i].platform == Platform::Auto {
            return true;
        }
        i = i + 1;
    }
    false
}

/// The settings a project configuration has before the specification's own:
/// the product name, the SDK of the project's single platform (or `auto`
/// where a target leaves its platform open), the deployment targets the
/// project sets, then the presets.
pub open spec fn project_defaults_spec(project: &Project, config: Seq<char>) -> Seq<(Seq<char>, PVal)> {
    let s1 = sins(Seq::empty(), "PRODUCT_NAME"@, PVal::Str("$(TARGET_NAME)"@));
    let s2 = match single_platform_spec(project.targets@) {
        Some(p) => sins(s1, "SDKROOT"@, PVal::Str(sdk_root_spec(p))),
        None => if any_auto_spec(project.targets@) {
            sins(s1, "SDKROOT"@, PVal::Str("auto"@))
        } else {
            s1
        },
    };
    let s3 = deployment_targets_spec(s2, project.options.deployment_target);
    if project.options.setting_presets_none {
        s3
    } else {
        project_presets_spec(s3, config)
    }
}

/// Settings with the project's deployment target of each platform set.
pub open spec fn deployment_targets_spec(s: Seq<(Seq<char>, PVal)>, dt: crate::model::DeploymentTargets) -> Seq<(Seq<char>, PVal)> {
    let s = deploy_ins(s, Platform::Ios, dt.ios);
    let s = deploy_ins(s, Platform::Macos, dt.macos);
    let s = deploy_ins(s, Platform::Tvos, dt.tvos);
    let s = deploy_ins(s, Platform::Watchos, dt.watchos);
    deploy_ins(s, Platform::Visionos, dt.visionos)
}

/// The settings a project configuration has before the specification's own.
pub fn project_default_build_settings(project: &Project, config: &str) -> (r: Vec<(String, PbxValue)>)
    ensures
        keys_sorted(entries_view(r@)),
        entries_view(r@) == project_defaults_spec(project, config@),
{
    let mut settings: Vec<(String, PbxValue)> = Vec::new();
    proof {
        assert(entries_view(settings@) =~= Seq::<(Seq<char>, PVal)>::empty());
    }
    set_str(&mut settings, "PRODUCT_NAME", "$(TARGET_NAME)");
    match single_project_platform(project) {
        Some(p) => {
            set_str(&mut settings, "SDKROOT", sdk_root(p));
        },
        None => {
            if any_auto_platform(project) {
                set_str(&mut settings, "SDKROOT", "auto");
            }
        },
    }
    let dt = &project.options.deployment_target;
    insert_deployment_target(&mut settings, Platform::Ios, &dt.ios);
    insert_deployment_target(&mut settings, Platform::Macos, &dt.macos);
    insert_deployment_target(&mut settings, Platform::Tvos, &dt.tvos);
    insert_deployment_target(&mut settings, Platform::Watchos, &dt.watchos);
    insert_deployment_target(&mut settings, Platform::Visionos, &dt.visionos);
    if !project.options.setting_presets_none {
        insert_project_setting_presets(&mut settings, config);
    }
    settings
}

/// Settings after setting each of the first `n` JSON settings in turn.
pub open spec fn json_extend(base: Seq<(Seq<char>, PVal)>, es: Seq<(String, JsonValue)>, n: int) -> Seq<(Seq<char>, PVal)>
    decreases n,
{
    if n <= 0 || n > es.len() {
        base
    } else {
        sins(json_extend(base, es, n - 1), es[n - 1].0@, json_to_pval(&es[n - 1].1))
    }
}

/// Sets each of the specification's settings over the ones there.
pub fn extend_with_json(settings: &mut Vec<(String, PbxValue)>, json: &Vec<(String, JsonValue)>)
    requires
        keys_sorted(entries_view(old(settings)@)),
    ensures
        keys_sorted(entries_view(final(settings)@)),
        entries_view(final(settings)@) == json_extend(entries_view(old(settings)@), json@, json@.len() as int),
        crate::depth::entries_below(entries_view(old(settings)@), 1001) && settings_shallow(json@)
            ==> crate::depth::entries_below(entries_view(final(settings)@), 1001),
{
    let ghost base = entries_view(settings@);
    let mut i: usize = 0;
    while i < json.len()
        invariant
            i <= json@.len(),
            keys_sorted(entries_view(settings@)),
            entries_view(settings@) == json_extend(base, json@, i as int),
            crate::depth::entries_below(base, 1001) && settings_shallow(json@)
                ==> crate::depth::entries_below(entries_view(settings@), 1001),
        decreases json.len() - i,
    {
        let ghost before = entries_view(settings@);
        let v = pbx_value_from_json(&json[i].1);
        proof {
            crate::depth::lemma_json_depth(&json@[i as int].1);
            if crate::depth::entries_below(base, 1001) && settings_shallow(json@) {
                assert(crate::plist::jdepth(&json@[i as int].1) < 1000);
                crate::depth::lemma_sins_below(before, json@[i as int].0@, v@, 1001);
            }
        }
        smap_insert(settings, json[i].0.clone(), v);
        i = i + 1;
    }
}

/// The specification's settings for a configuration: the first list given
/// for it, or none.
pub open spec fn json_settings_of(list: Seq<(String, Vec<(String, JsonValue)>)>, c: Seq<char>, n: int) -> Seq<(String, JsonValue)>
    decreases n,
{
    if n <= 0 || n > list.len() {
        Seq::empty()
    } else if list[list.len() - n].0@ == c {
        list[list.len() - n].1@
    } else {
        json_settings_of(list, c, n - 1)
    }
}

/// The position of the first list of settings for a configuration.
pub(crate) fn find_config_settings(list: &Vec<(String, Vec<(String, JsonValue)>)>, c: &str) -> (r: Option<usize>)
    ensures
        match r {
            Some(i) => i < list@.len() && json_settings_of(list@, c@, list@.len() as int) == list@[i as int].1@,
            None => json_settings_of(list@, c@, list@.len() as int) == Seq::<(String, JsonValue)>::empty(),
        },
{
    let mut i: usize = 0;
    while i < list.len()
        invariant
            i <= list@.len(),
            json_settings_of(list@, c@, list@.len() as int) == json_settings_of(list@, c@, list@.len() - i),
        decreases list.len() - i,
    {
        if crate::text::str_eq(list[i].0.as_str(), c) {
            return Some(i);
        }
        i = i + 1;
    }
    None
}

/// The settings of a list for a configuration, as project values.
fn json_settings_map(list: &Vec<(String, Vec<(String, JsonValue)>)>, c: &str, base: Vec<(String, PbxValue)>) -> (r: Vec<(String, PbxValue)>)
    requires
        keys_sorted(entries_view(base@)),
    ensures
        keys_sorted(entries_view(r@)),
        entries_view(r@) == json_extend(entries_view(base@), json_settings_of(list@, c@, list@.len() as int),
            json_settings_of(list@, c@, list@.len() as int).len() as int),
        crate::depth::entries_below(entries_view(base@), 1001) && config_settings_shallow(list@)
            ==> crate::depth::entries_below(entries_view(r@), 1001),
{
    let mut settings = base;
    match find_config_settings(list, c) {
        Some(i) => {
            proof {
                if config_settings_shallow(list@) {
                    assert(settings_shallow(list@[i as int].1@));
                }
            }
            extend_with_json(&mut settings, &list[i].1);
        },
        None => {},
    }
    settings
}

proof fn lemma_presets_below(base: Seq<(Seq<char>, PVal)>, table: Seq<(Seq<char>, Seq<char>)>, n: int)
    requires
        crate::depth::entries_below(base, 1001),
    ensures
        crate::depth::entries_below(presets_applied(base, table, n), 1001),
    decreases n,
{
    if n > 0 && n <= table.len() {
        lemma_presets_below(base, table, n - 1);
        let acc = presets_applied(base, table, n - 1);
        if lookup(acc, table[n - 1].0) is None {
            crate::depth::lemma_sins_below(acc, table[n - 1].0, PVal::Str(table[n - 1].1), 1001);
        }
    }
}

proof fn lemma_defaults_below(project: &Project, config: Seq<char>)
    ensures
        crate::depth::entries_below(project_defaults_spec(project, config), 1001),
{
    let e = Seq::<(Seq<char>, PVal)>::empty();
    crate::depth::lemma_sins_below(e, "PRODUCT_NAME"@, PVal::Str("$(TARGET_NAME)"@), 1001);
    let s1 = sins(e, "PRODUCT_NAME"@, PVal::Str("$(TARGET_NAME)"@));
    match single_platform_spec(project.targets@) {
        Some(p) => crate::depth::lemma_sins_below(s1, "SDKROOT"@, PVal::Str(sdk_root_spec(p)), 1001),
        None => crate::depth::lemma_sins_below(s1, "SDKROOT"@, PVal::Str("auto"@), 1001),
    }
    let s2 = match single_platform_spec(project.targets@) {
        Some(p) => sins(s1, "SDKROOT"@, PVal::Str(sdk_root_spec(p))),
        None => if any_auto_spec(project.targets@) {
            sins(s1, "SDKROOT"@, PVal::Str("auto"@))
        } else {
            s1
        },
    };
    let dt = project.options.deployment_target;
    lemma_deploy_below(s2, Platform::Ios, dt.ios);
    let s3 = deploy_ins(s2, Platform::Ios, dt.ios);
    lemma_deploy_below(s3, Platform::Macos, dt.macos);
    let s4 = deploy_ins(s3, Platform::Macos, dt.macos);
    lemma_deploy_below(s4, Platform::Tvos, dt.tvos);
    let s5 = deploy_ins(s4, Platform::Tvos, dt.tvos);
    lemma_deploy_below(s5, Platform::Watchos, dt.watchos);
    let s6 = deploy_ins(s5, Platform::Watchos, dt.watchos);
    lemma_deploy_below(s6, Platform::Visionos, dt.visionos);
    let s7 = deployment_targets_spec(s2, dt);
    lemma_presets_below(s7, project_presets(), project_presets().len() as int);
    let p = presets_applied(s7, project_presets(), project_presets().len() as int);
    lemma_overrides_below(p);
}

proof fn lemma_overrides_below(p: Seq<(Seq<char>, PVal)>)
    requires
        crate::depth::entries_below(p, 1001),
    ensures
        crate::depth::entries_below(debug_overrides(p), 1001),
        crate::depth::entries_below(release_overrides(p), 1001),
{
    let a = PVal::Array(seq![PVal::Str("$(inherited)"@), PVal::Str("DEBUG=1"@)]);
    assert(pdepth_small(a)) by {
        crate::depth::lemma_array_below(seq![PVal::Str("$(inherited)"@), PVal::Str("DEBUG=1"@)], 1);
    }
    let s = sins(p, "DEBUG_INFORMATION_FORMAT"@, PVal::Str("dwarf"@));
    crate::depth::lemma_sins_below(p, "DEBUG_INFORMATION_FORMAT"@, PVal::Str("dwarf"@), 1001);
    let s3 = sins(s, "ENABLE_TESTABILITY"@, PVal::Str("YES"@));
    crate::depth::lemma_sins_below(s, "ENABLE_TESTABILITY"@, PVal::Str("YES"@), 1001);
    let s4 = sins(s3, "GCC_DYNAMIC_NO_PIC"@, PVal::Str("NO"@));
    crate::depth::lemma_sins_below(s3, "GCC_DYNAMIC_NO_PIC"@, PVal::Str("NO"@), 1001);
    let s5 = sins(s4, "GCC_OPTIMIZATION_LEVEL"@, PVal::Str("0"@));
    crate::depth::lemma_sins_below(s4, "GCC_OPTIMIZATION_LEVEL"@, PVal::Str("0"@), 1001);
    let s6 = sins(s5, "GCC_PREPROCESSOR_DEFINITIONS"@, a);
    crate::depth::lemma_sins_below(s5, "GCC_PREPROCESSOR_DEFINITIONS"@, a, 1001);
    let s7 = sins(s6, "MTL_ENABLE_DEBUG_INFO"@, PVal::Str("INCLUDE_SOURCE"@));
    crate::depth::lemma_sins_below(s6, "MTL_ENABLE_DEBUG_INFO"@, PVal::Str("INCLUDE_SOURCE"@), 1001);
    let s8 = sins(s7, "ONLY_ACTIVE_ARCH"@, PVal::Str("YES"@));
    crate::depth::lemma_sins_below(s7, "ONLY_ACTIVE_ARCH"@, PVal::Str("YES"@), 1001);
    let s9 = sins(s8, "SWIFT_ACTIVE_COMPILATION_CONDITIONS"@, PVal::Str("DEBUG"@));
    crate::depth::lemma_sins_below(s8, "SWIFT_ACTIVE_COMPILATION_CONDITIONS"@, PVal::Str("DEBUG"@), 1001);
    crate::depth::lemma_sins_below(s9, "SWIFT_OPTIMIZATION_LEVEL"@, PVal::Str("-Onone"@), 1001);
    let r1 = sins(p, "DEBUG_INFORMATION_FORMAT"@, PVal::Str("dwarf-with-dsym"@));
    crate::depth::lemma_sins_below(p, "DEBUG_INFORMATION_FORMAT"@, PVal::Str("dwarf-with-dsym"@), 1001);
    let r2 = sins(r1, "ENABLE_NS_ASSERTIONS"@, PVal::Str("NO"@));
    crate::depth::lemma_sins_below(r1, "ENABLE_NS_ASSERTIONS"@, PVal::Str("NO"@), 1001);
    let r3 = sins(r2, "MTL_ENABLE_DEBUG_INFO"@, PVal::Str("NO"@));
    crate::depth::lemma_sins_below(r2, "MTL_ENABLE_DEBUG_INFO"@, PVal::Str("NO"@), 1001);
    let r4 = sins(r3, "SWIFT_COMPILATION_MODE"@, PVal::Str("wholemodule"@));
    crate::depth::lemma_sins_below(r3, "SWIFT_COMPILATION_MODE"@, PVal::Str("wholemodule"@), 1001);
    crate::depth::lemma_sins_below(r4, "SWIFT_OPTIMIZATION_LEVEL"@, PVal::Str("-O"@), 1001);
}

proof fn lemma_deploy_below(s: Seq<(Seq<char>, PVal)>, p: Platform, v: Option<String>)
    requires
        crate::depth::entries_below(s, 1001),
    ensures
        crate::depth::entries_below(deploy_ins(s, p, v), 1001),
{
    if let Some(x) = v {
        if p != Platform::Auto {
            crate::depth::lemma_sins_below(s, deployment_key_spec(p), PVal::Str(x@), 1001);
        }
    }
}

spec fn pdepth_small(v: PVal) -> bool {
    crate::graph::pdepth(v) <= 1
}

/// Settings by configuration looked up by their views.
pub proof fn lemma_sbc_lookup(s: Seq<(String, Vec<(String, PbxValue)>)>)
    requires
        keys_sorted(entries_view(s)),
    ensures
        keys_sorted(crate::generator::sbc_view(s)),
        forall|c: Seq<char>| #[trigger] lookup(crate::generator::sbc_view(s), c) == match lookup(entries_view(s), c) {
            Some(v) => Some(entries_view(v)),
            None => None,
        },
{
    let a = entries_view(s);
    let b = crate::generator::sbc_view(s);
    assert forall|i: int, j: int| 0 <= i < j < b.len() implies crate::text::lex_lt(#[trigger] b[i].0, #[trigger] b[j].0) by {
        assert(b[i].0 == a[i].0 && b[j].0 == a[j].0);
    }
    assert forall|c: Seq<char>| #[trigger] lookup(b, c) == match lookup(a, c) {
        Some(v) => Some(entries_view(v)),
        None => None,
    } by {
        if crate::smap::has_key(a, c) {
            let i = crate::smap::key_index(a, c);
            crate::smap::lemma_lookup_at(a, i);
            assert(b[i].0 == c);
            crate::smap::lemma_lookup_at(b, i);
        } else if crate::smap::has_key(b, c) {
            let i = crate::smap::key_index(b, c);
            assert(a[i].0 == c);
        }
    }
}

/// A project configuration's settings: its defaults, then the
/// specification's settings for it.
pub open spec fn project_config_settings(project: &Project, c: Seq<char>) -> Seq<(Seq<char>, PVal)> {
    let js = json_settings_of(project.settings@, c, project.settings@.len() as int);
    json_extend(project_defaults_spec(project, c), js, js.len() as int)
}

/// The project's settings for each configuration.
pub fn project_build_settings_by_config(project: &Project) -> (r: Vec<(String, Vec<(String, PbxValue)>)>)
    requires
        config_settings_shallow(project.settings@),
    ensures
        keys_sorted(entries_view(r@)),
        keys_sorted(crate::generator::sbc_view(r@)),
        forall|i: int| 0 <= i < r@.len() ==> keys_sorted(entries_view(#[trigger] r@[i].1@)),
        crate::generator::settings_by_config_shallow(r@),
        forall|c: Seq<char>| #[trigger] lookup(crate::generator::sbc_view(r@), c) == if config_names_spec(project).contains(c) {
            Some(project_config_settings(project, c))
        } else {
            None
        },
{
    let names = config_names(project);
    let ghost nv = names@.map_values(|s: String| s@);
    let mut out: Vec<(String, Vec<(String, PbxValue)>)> = Vec::new();
    proof {
        assert(crate::generator::sbc_view(out@) =~= Seq::<(Seq<char>, Seq<(Seq<char>, PVal)>)>::empty());
    }
    let mut i: usize = 0;
    while i < names.len()
        invariant
            nv == names@.map_values(|s: String| s@),
            nv == config_names_spec(project),
            config_settings_shallow(project.settings@),
            i <= names@.len(),
            keys_sorted(entries_view(out@)),
            keys_sorted(crate::generator::sbc_view(out@)),
            forall|q: int| 0 <= q < out@.len() ==> keys_sorted(entries_view(#[trigger] out@[q].1@)),
            forall|q: int| 0 <= q < out@.len() ==> crate::depth::entries_below(entries_view(#[trigger] out@[q].1@), 1001),
            forall|c: Seq<char>| #[trigger] lookup(crate::generator::sbc_view(out@), c) == if nv.take(i as int).contains(c) {
                Some(project_config_settings(project, c))
            } else {
                None
            },
        decreases names.len() - i,
    {
        let c = names[i].as_str();
        let defaults = project_default_build_settings(project, c);
        proof {
            lemma_defaults_below(project, c@);
        }
        let settings = json_settings_map(&project.settings, c, defaults);
        let ghost o0 = out@;
        let ghost sv = entries_view(settings@);
        proof {
            lemma_sbc_lookup(o0);
        }
        smap_insert(&mut out, names[i].clone(), settings);
        proof {
            lemma_sbc_lookup(out@);
            assert forall|q: int| 0 <= q < out@.len() implies crate::depth::entries_below(entries_view(#[trigger] out@[q].1@), 1001)
                && keys_sorted(entries_view(out@[q].1@)) by {
                let k = out@[q].0@;
                crate::smap::lemma_lookup_at(entries_view(out@), q);
                if k != c@ {
                    let j = crate::smap::key_index(entries_view(o0), k);
                    crate::smap::lemma_lookup_at(entries_view(o0), j);
                }
            }
            assert(nv[i as int] == c@);
            assert(sv == project_config_settings(project, c@));
            let t0 = nv.take(i as int);
            let t1 = nv.take(i + 1);
            assert(t1 =~= t0.push(c@));
            assert forall|cc: Seq<char>| #[trigger] t1.contains(cc) == (t0.contains(cc) || cc == c@) by {
                if t0.contains(cc) {
                    let k = choose|k: int| 0 <= k < t0.len() && t0[k] == cc;
                    assert(t1[k] == cc);
                }
                if cc == c@ {
                    assert(t1[i as int] == cc);
                }
                if t1.contains(cc) {
                    let k = choose|k: int| 0 <= k < t1.len() && t1[k] == cc;
                    if k < i {
                        assert(t0[k] == cc);
                    }
                }
            }
            assert forall|cc: Seq<char>| #[trigger] lookup(crate::generator::sbc_view(out@), cc) == if t1.contains(cc) {
                Some(project_config_settings(project, cc))
            } else {
                None
            } by {
                assert(lookup(crate::generator::sbc_view(out@), cc) == match lookup(entries_view(out@), cc) {
                    Some(v) => Some(entries_view(v)),
                    None => None,
                });
                assert(lookup(crate::generator::sbc_view(o0), cc) == match lookup(entries_view(o0), cc) {
                    Some(v) => Some(entries_view(v)),
                    None => None,
                });
                if cc == c@ {
                    assert(lookup(entries_view(out@), cc) == Some(settings@));
                } else {
                    assert(lookup(entries_view(out@), cc) == lookup(entries_view(o0), cc));
                }
            }
        }
        i = i + 1;
    }
    proof {
        assert(nv.take(names@.len() as int) =~= nv);
        assert forall|q: int, j: int| 0 <= q < out@.len() && 0 <= j < out@[q].1@.len() implies crate::graph::pdepth(#[trigger] out@[q].1@[j].1@) < 1001 by {
            assert(crate::depth::entries_below(entries_view(out@[q].1@), 1001));
            assert(entries_view(out@[q].1@)[j] == (out@[q].1@[j].0@, out@[q].1@[j].1@));
            assert(crate::graph::pdepth(entries_view(out@[q].1@)[j].1) < 1001);
        }
    }
    out
}

/// A setting given its value only where none is set.
pub open spec fn or_ins(s: Seq<(Seq<char>, PVal)>, k: Seq<char>, v: PVal) -> Seq<(Seq<char>, PVal)> {
    if lookup(s, k) is Some { s } else { sins(s, k, v) }
}

/// The path of an optional property list.
pub open spec fn plist_path(p: Option<crate::model::Plist>) -> Option<Seq<char>> {
    match p {
        Some(pl) => match pl.path {
            Some(path) => Some(path@),
            None => None,
        },
        None => None,
    }
}

/// Settings with each of the first `n` entries set where its key is not
/// set yet.
pub open spec fn or_ins_all(s: Seq<(Seq<char>, PVal)>, es: Seq<(Seq<char>, PVal)>, n: int) -> Seq<(Seq<char>, PVal)>
    decreases n,
{
    if n <= 0 || n > es.len() {
        s
    } else {
        or_ins(or_ins_all(s, es, n - 1), es[n - 1].0, es[n - 1].1)
    }
}

/// The linker flags an application gets when it links Objective-C code.
pub open spec fn objc_flags() -> PVal {
    crate::target_presets::strs(seq!["$(inherited)"@, "-ObjC"@])
}

/// A target configuration's settings: the specification's, then where they
/// are not set the target's defaults, its Info.plist and entitlements, and
/// `-ObjC` for an application that links Objective-C code.
pub open spec fn target_config_settings(project: &Project, t: Target, c: Seq<char>) -> Seq<(Seq<char>, PVal)> {
    let js = json_settings_of(t.settings@, c, t.settings@.len() as int);
    let s0 = json_extend(Seq::empty(), js, js.len() as int);
    let d = crate::target_defaults::target_defaults_spec(project, t);
    let s3 = or_ins_all(s0, d, d.len() as int);
    let s4 = match plist_path(t.info_plist) {
        Some(path) => or_ins(s3, "INFOPLIST_FILE"@, PVal::Str(path)),
        None => s3,
    };
    let s5 = match plist_path(t.entitlements_plist) {
        Some(path) => or_ins(s4, "CODE_SIGN_ENTITLEMENTS"@, PVal::Str(path)),
        None => s4,
    };
    if crate::products::product_type_is_app_spec(t.target_type) && crate::target_presets::dependencies_require_objc(project, t) {
        or_ins(s5, "OTHER_LDFLAGS"@, objc_flags())
    } else {
        s5
    }
}

fn or_insert_value(settings: &mut Vec<(String, PbxValue)>, key: &str, value: PbxValue)
    requires
        keys_sorted(entries_view(old(settings)@)),
        crate::graph::pdepth(value@) <= 1,
    ensures
        keys_sorted(entries_view(final(settings)@)),
        crate::depth::entries_below(entries_view(old(settings)@), 1001)
            ==> crate::depth::entries_below(entries_view(final(settings)@), 1001),
        crate::depth::entries_below(entries_view(old(settings)@), 2)
            ==> crate::depth::entries_below(entries_view(final(settings)@), 2),
        entries_view(final(settings)@) == or_ins(entries_view(old(settings)@), key@, value@),
{
    if !smap_contains(settings, key) {
        proof {
            if crate::depth::entries_below(entries_view(settings@), 1001) {
                crate::depth::lemma_sins_below(entries_view(settings@), key@, value@, 1001);
            }
            if crate::depth::entries_below(entries_view(settings@), 2) {
                crate::depth::lemma_sins_below(entries_view(settings@), key@, value@, 2);
            }
        }
        smap_insert(settings, string_from(key), value);
    }
}

/// Gives each entry of `presets` its value, in order, where its key is not
/// set yet.
pub(crate) fn apply_presets(settings: &mut Vec<(String, PbxValue)>, presets: Vec<(String, PbxValue)>)
    requires
        keys_sorted(entries_view(old(settings)@)),
        forall|k: int| 0 <= k < presets@.len() ==> crate::graph::pdepth(#[trigger] presets@[k].1@) <= 1,
    ensures
        keys_sorted(entries_view(final(settings)@)),
        crate::depth::entries_below(entries_view(old(settings)@), 1001)
            ==> crate::depth::entries_below(entries_view(final(settings)@), 1001),
        crate::depth::entries_below(entries_view(old(settings)@), 2)
            ==> crate::depth::entries_below(entries_view(final(settings)@), 2),
        entries_view(final(settings)@) == or_ins_all(
            entries_view(old(settings)@),
            crate::target_presets::pairs_view(presets@),
            presets@.len() as int,
        ),
{
    let ghost s0 = entries_view(settings@);
    let ghost pv = crate::target_presets::pairs_view(presets@);
    let ghost all = presets@;
    let total = presets.len();
    let mut rest = presets;
    let mut i: usize = 0;
    while rest.len() > 0
        invariant
            i <= all.len(),
            all.len() == total,
            rest@ == all.skip(i as int),
            pv == crate::target_presets::pairs_view(all),
            forall|k: int| 0 <= k < all.len() ==> crate::graph::pdepth(#[trigger] all[k].1@) <= 1,
            keys_sorted(entries_view(settings@)),
            crate::depth::entries_below(s0, 1001) ==> crate::depth::entries_below(entries_view(settings@), 1001),
            crate::depth::entries_below(s0, 2) ==> crate::depth::entries_below(entries_view(settings@), 2),
            entries_view(settings@) == or_ins_all(s0, pv, i as int),
        decreases rest.len(),
    {
        let (key, value) = rest.remove(0);
        proof {
            assert(all[i as int] == (key, value));
            assert(pv[i as int] == (key@, value@));
        }
        or_insert_value(settings, key.as_str(), value);
        proof {
            assert(rest@ =~= all.skip(i + 1));
        }
        i = i + 1;
    }
}

fn or_insert_str(settings: &mut Vec<(String, PbxValue)>, key: &str, value: &str)
    requires
        keys_sorted(entries_view(old(settings)@)),
        crate::depth::entries_below(entries_view(old(settings)@), 1001),
    ensures
        keys_sorted(entries_view(final(settings)@)),
        crate::depth::entries_below(entries_view(final(settings)@), 1001),
        entries_view(final(settings)@) == or_ins(entries_view(old(settings)@), key@, PVal::Str(value@)),
{
    if !smap_contains(settings, key) {
        proof {
            crate::depth::lemma_sins_below(entries_view(settings@), key@, PVal::Str(value@), 1001);
        }
        set_str(settings, key, value);
    }
}

fn plist_path_of(p: &Option<crate::model::Plist>) -> (r: Option<String>)
    ensures
        match r {
            Some(s) => plist_path(*p) == Some(s@),
            None => plist_path(*p) is None,
        },
{
    match p {
        Some(pl) => match &pl.path {
            Some(path) => Some(path.clone()),
            None => None,
        },
        None => None,
    }
}

/// A target's settings for one configuration.
#[verifier::spinoff_prover]
#[verifier::rlimit(40)]
pub fn target_config_build_settings(project: &Project, target: &Target, c: &str) -> (r: Vec<(String, PbxValue)>)
    requires
        config_settings_shallow(target.settings@),
    ensures
        keys_sorted(entries_view(r@)),
        crate::depth::entries_below(entries_view(r@), 1001),
        entries_view(r@) == target_config_settings(project, *target, c@),
{
    let empty: Vec<(String, PbxValue)> = Vec::new();
    proof {
        assert(entries_view(empty@) =~= Seq::<(Seq<char>, PVal)>::empty());
    }
    let mut settings = json_settings_map(&target.settings, c, empty);
    let defaults = crate::target_defaults::target_default_build_settings(project, target);
    let ghost dv = crate::target_presets::pairs_view(defaults@);
    proof {
        assert(dv =~= entries_view(defaults@));
    }
    apply_presets(&mut settings, defaults);
    if let Some(path) = plist_path_of(&target.info_plist) {
        or_insert_str(&mut settings, "INFOPLIST_FILE", path.as_str());
    }
    if let Some(path) = plist_path_of(&target.entitlements_plist) {
        or_insert_str(&mut settings, "CODE_SIGN_ENTITLEMENTS", path.as_str());
    }
    if crate::products::product_type_is_app(&target.target_type)
        && crate::target_presets::target_dependencies_require_objc_linking(project, target) {
        let mut flags: Vec<PbxValue> = Vec::new();
        flags.push(PbxValue::String(string_from("$(inherited)")));
        flags.push(PbxValue::String(string_from("-ObjC")));
        proof {
            crate::graph::lemma_items_view(flags@, 2);
            assert(crate::graph::all_items_view(flags@) =~= seq!["$(inherited)"@, "-ObjC"@].map_values(|s: Seq<char>| PVal::Str(s)));
            assert forall|k: int| 0 <= k < 2 implies crate::graph::pdepth(#[trigger] crate::graph::all_items_view(flags@)[k]) < 1 by {
                assert(crate::graph::all_items_view(flags@)[k] is Str);
            }
            crate::depth::lemma_array_below(crate::graph::all_items_view(flags@), 1);
        }
        or_insert_value(&mut settings, "OTHER_LDFLAGS", PbxValue::Array(flags));
    }
    settings
}

/// A target's settings for each configuration.
pub fn target_build_settings_by_config(project: &Project, target: &Target) -> (r: Vec<(String, Vec<(String, PbxValue)>)>)
    requires
        config_settings_shallow(target.settings@),
    ensures
        keys_sorted(entries_view(r@)),
        keys_sorted(crate::generator::sbc_view(r@)),
        forall|i: int| 0 <= i < r@.len() ==> keys_sorted(entries_view(#[trigger] r@[i].1@)),
        crate::generator::settings_by_config_shallow(r@),
        forall|c: Seq<char>| #[trigger] lookup(crate::generator::sbc_view(r@), c) == if config_names_spec(project).contains(c) {
            Some(target_config_settings(project, *target, c))
        } else {
            None
        },
{
    let names = config_names(project);
    let ghost nv = names@.map_values(|s: String| s@);
    let mut out: Vec<(String, Vec<(String, PbxValue)>)> = Vec::new();
    proof {
        assert(crate::generator::sbc_view(out@) =~= Seq::<(Seq<char>, Seq<(Seq<char>, PVal)>)>::empty());
        assert(entries_view(out@) =~= Seq::<(Seq<char>, Seq<(String, PbxValue)>)>::empty());
    }
    let mut i: usize = 0;
    while i < names.len()
        invariant
            nv == names@.map_values(|s: String| s@),
            nv == config_names_spec(project),
            config_settings_shallow(target.settings@),
            i <= names@.len(),
            keys_sorted(entries_view(out@)),
            keys_sorted(crate::generator::sbc_view(out@)),
            forall|q: int| 0 <= q < out@.len() ==> keys_sorted(entries_view(#[trigger] out@[q].1@)),
            forall|q: int| 0 <= q < out@.len() ==> crate::depth::entries_below(entries_view(#[trigger] out@[q].1@), 1001),
            forall|c: Seq<char>| #[trigger] lookup(crate::generator::sbc_view(out@), c) == if nv.take(i as int).contains(c) {
                Some(target_config_settings(project, *target, c))
            } else {
                None
            },
        decreases names.len() - i,
    {
        let c = names[i].as_str();
        let settings = target_config_build_settings(project, target, c);
        let ghost o0 = out@;
        let ghost sv = entries_view(settings@);
        proof {
            lemma_sbc_lookup(o0);
        }
        smap_insert(&mut out, names[i].clone(), settings);
        proof {
            lemma_sbc_lookup(out@);
            assert forall|q: int| 0 <= q < out@.len() implies crate::depth::entries_below(entries_view(#[trigger] out@[q].1@), 1001)
                && keys_sorted(entries_view(out@[q].1@)) by {
                let k = out@[q].0@;
                crate::smap::lemma_lookup_at(entries_view(out@), q);
                if k != c@ {
                    let j = crate::smap::key_index(entries_view(o0), k);
                    crate::smap::lemma_lookup_at(entries_view(o0), j);
                }
            }
            assert(nv[i as int] == c@);
            let t0 = nv.take(i as int);
            let t1 = nv.take(i + 1);
            assert(t1 =~= t0.push(c@));
            assert forall|cc: Seq<char>| #[trigger] t1.contains(cc) == (t0.contains(cc) || cc == c@) by {
                if t0.contains(cc) {
                    let k = choose|k: int| 0 <= k < t0.len() && t0[k] == cc;
                    assert(t1[k] == cc);
                }
                if cc == c@ {
                    assert(t1[i as int] == cc);
                }
                if t1.contains(cc) {
                    let k = choose|k: int| 0 <= k < t1.len() && t1[k] == cc;
                    if k < i {
                        assert(t0[k] == cc);
                    }
                }
            }
            assert forall|cc: Seq<char>| #[trigger] lookup(crate::generator::sbc_view(out@), cc) == if t1.contains(cc) {
                Some(target_config_settings(project, *target, cc))
            } else {
                None
            } by {
                assert(lookup(crate::generator::sbc_view(out@), cc) == match lookup(entries_view(out@), cc) {
                    Some(v) => Some(entries_view(v)),
                    None => None,
                });
                assert(lookup(crate::generator::sbc_view(o0), cc) == match lookup(entries_view(o0), cc) {
                    Some(v) => Some(entries_view(v)),
                    None => None,
                });
                if cc != c@ {
                    assert(lookup(entries_view(out@), cc) == lookup(entries_view(o0), cc));
                }
            }
        }
        i = i + 1;
    }
    proof {
        assert(nv.take(names@.len() as int) =~= nv);
        assert forall|q: int, j: int| 0 <= q < out@.len() && 0 <= j < out@[q].1@.len() implies crate::graph::pdepth(#[trigger] out@[q].1@[j].1@) < 1001 by {
            assert(crate::depth::entries_below(entries_view(out@[q].1@), 1001));
            assert(entries_view(out@[q].1@)[j] == (out@[q].1@[j].0@, out@[q].1@[j].1@));
            assert(crate::graph::pdepth(entries_view(out@[q].1@)[j].1) < 1001);
        }
    }
    out
}

/// The settings a list gives a configuration, with no defaults under them.
pub open spec fn json_config_settings(list: Seq<(String, Vec<(String, JsonValue)>)>, c: Seq<char>) -> Seq<(Seq<char>, PVal)> {
    let js = json_settings_of(list, c, list.len() as int);
    json_extend(Seq::empty(), js, js.len() as int)
}

/// The settings a list gives each configuration of a project, with no
/// defaults under them.
pub fn json_build_settings_by_config(project: &Project, list: &Vec<(String, Vec<(String, JsonValue)>)>) -> (r: Vec<(String, Vec<(String, PbxValue)>)>)
    requires
        config_settings_shallow(list@),
    ensures
        keys_sorted(entries_view(r@)),
        keys_sorted(crate::generator::sbc_view(r@)),
        forall|i: int| 0 <= i < r@.len() ==> keys_sorted(entries_view(#[trigger] r@[i].1@)),
        crate::generator::settings_by_config_shallow(r@),
        forall|c: Seq<char>| #[trigger] lookup(crate::generator::sbc_view(r@), c) == if config_names_spec(project).contains(c) {
            Some(json_config_settings(list@, c))
        } else {
            None
        },
{
    let names = config_names(project);
    let ghost nv = names@.map_values(|s: String| s@);
    let mut out: Vec<(String, Vec<(String, PbxValue)>)> = Vec::new();
    proof {
        assert(crate::generator::sbc_view(out@) =~= Seq::<(Seq<char>, Seq<(Seq<char>, PVal)>)>::empty());
        assert(entries_view(out@) =~= Seq::<(Seq<char>, Seq<(String, PbxValue)>)>::empty());
    }
    let mut i: usize = 0;
    while i < names.len()
        invariant
            nv == names@.map_values(|s: String| s@),
            nv == config_names_spec(project),
            config_settings_shallow(list@),
            i <= names@.len(),
            keys_sorted(entries_view(out@)),
            keys_sorted(crate::generator::sbc_view(out@)),
            forall|q: int| 0 <= q < out@.len() ==> keys_sorted(entries_view(#[trigger] out@[q].1@)),
            forall|q: int| 0 <= q < out@.len() ==> crate::depth::entries_below(entries_view(#[trigger] out@[q].1@), 1001),
            forall|c: Seq<char>| #[trigger] lookup(crate::generator::sbc_view(out@), c) == if nv.take(i as int).contains(c) {
                Some(json_config_settings(list@, c))
            } else {
                None
            },
        decreases names.len() - i,
    {
        let c = names[i].as_str();
        let empty: Vec<(String, PbxValue)> = Vec::new();
        proof {
            assert(entries_view(empty@) =~= Seq::<(Seq<char>, PVal)>::empty());
        }
        let settings = json_settings_map(list, c, empty);
        let ghost o0 = out@;
        let ghost sv = entries_view(settings@);
        proof {
            lemma_sbc_lookup(o0);
        }
        smap_insert(&mut out, names[i].clone(), settings);
        proof {
            lemma_sbc_lookup(out@);
            assert forall|q: int| 0 <= q < out@.len() implies crate::depth::entries_below(entries_view(#[trigger] out@[q].1@), 1001)
                && keys_sorted(entries_view(out@[q].1@)) by {
                let k = out@[q].0@;
                crate::smap::lemma_lookup_at(entries_view(out@), q);
                if k != c@ {
                    let j = crate::smap::key_index(entries_view(o0), k);
                    crate::smap::lemma_lookup_at(entries_view(o0), j);
                }
            }
            assert(nv[i as int] == c@);
            let t0 = nv.take(i as int);
            let t1 = nv.take(i + 1);
            assert(t1 =~= t0.push(c@));
            assert forall|cc: Seq<char>| #[trigger] t1.contains(cc) == (t0.contains(cc) || cc == c@) by {
                if t0.contains(cc) {
                    let k = choose|k: int| 0 <= k < t0.len() && t0[k] == cc;
                    assert(t1[k] == cc);
                }
                if cc == c@ {
                    assert(t1[i as int] == cc);
                }
                if t1.contains(cc) {
                    let k = choose|k: int| 0 <= k < t1.len() && t1[k] == cc;
                    if k < i {
                        assert(t0[k] == cc);
                    }
                }
            }
            assert forall|cc: Seq<char>| #[trigger] lookup(crate::generator::sbc_view(out@), cc) == if t1.contains(cc) {
                Some(json_config_settings(list@, cc))
            } else {
                None
            } by {
                assert(lookup(crate::generator::sbc_view(out@), cc) == match lookup(entries_view(out@), cc) {
                    Some(v) => Some(entries_view(v)),
                    None => None,
                });
                assert(lookup(crate::generator::sbc_view(o0), cc) == match lookup(entries_view(o0), cc) {
                    Some(v) => Some(entries_view(v)),
                    None => None,
                });
                if cc != c@ {
                    assert(lookup(entries_view(out@), cc) == lookup(entries_view(o0), cc));
                }
            }
        }
        i = i + 1;
    }
    proof {
        assert(nv.take(names@.len() as int) =~= nv);
        assert forall|q: int, j: int| 0 <= q < out@.len() && 0 <= j < out@[q].1@.len() implies crate::graph::pdepth(#[trigger] out@[q].1@[j].1@) < 1001 by {
            assert(crate::depth::entries_below(entries_view(out@[q].1@), 1001));
            assert(entries_view(out@[q].1@)[j] == (out@[q].1@[j].0@, out@[q].1@[j].1@));
            assert(crate::graph::pdepth(entries_view(out@[q].1@)[j].1) < 1001);
        }
    }
    out
}

} // verus!
