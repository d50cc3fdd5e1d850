//! The project a generator writes: its configurations, settings and
//! targets, with every file a target builds already listed.
use vstd::prelude::*;
use crate::json::JsonValue;
use crate::plist::{jdepth, jentries_depth, jitems_depth};
use crate::products::{Platform, ProductType};
use crate::scheme::{Breakpoint, EnvironmentVariable};
use crate::scripts::{BuildRule, BuildScript};
use crate::schemes::{SchemeAction, SchemeBuild, SchemeProfile, SchemeRun, SchemeTest, SchemeTestTarget, TestPlan};

verus! {

/// A property list a target has generated: where it goes, and the
/// properties the specification gives it.
pub struct Plist {
    pub path: Option<String>,
    pub attributes: Vec<(String, JsonValue)>,
}

/// What a dependency of a target names.
pub enum DependencyType {
    Target,
    Framework,
    Sdk { root: Option<String> },
    Bundle,
}

/// The platform a dependency is limited to.
#[derive(PartialEq, Eq, Structural, Clone, Copy)]
pub enum PlatformFilter {
    All,
    Ios,
    Macos,
}

/// A dependency of a target.
pub struct Dependency {
    pub reference: String,
    pub dependency_type: DependencyType,
    pub link: Option<bool>,
    pub embed: Option<bool>,
    pub code_sign: Option<bool>,
    pub remove_headers: bool,
    pub weak_link: bool,
    pub platform_filter: PlatformFilter,
    pub destination_filters: Vec<String>,
    pub copy_phase: Option<JsonValue>,
}

/// Whether a scheme is shared, shown, and where it is ordered.
pub struct SchemeManagement {
    pub shared: bool,
    pub is_shown: Option<bool>,
    pub order_hint: Option<i64>,
}

/// A scheme generated for a target, possibly once per configuration
/// variant, with the settings its actions share.
pub struct TargetScheme {
    pub config_variants: Vec<String>,
    pub management: Option<SchemeManagement>,
    pub pre_actions: Vec<SchemeAction>,
    pub post_actions: Vec<SchemeAction>,
    pub test_targets: Vec<SchemeTestTarget>,
    pub gather_coverage_data: bool,
    pub disable_main_thread_checker: bool,
    pub stop_on_every_main_thread_checker_issue: bool,
    pub disable_thread_performance_checker: bool,
    pub coverage_targets: Vec<String>,
    pub test_plans: Vec<TestPlan>,
    pub environment_variables: Vec<EnvironmentVariable>,
    pub command_line_arguments: Vec<(String, bool)>,
    pub store_kit_configuration: Option<String>,
    pub language: Option<String>,
    pub region: Option<String>,
}

/// A scheme the specification declares: what it builds, and the settings
/// of its actions where it gives them.
pub struct Scheme {
    pub name: String,
    pub management: SchemeManagement,
    pub build: SchemeBuild,
    pub test: Option<SchemeTest>,
    pub run: Option<SchemeRun>,
    pub profile: Option<SchemeProfile>,
    pub analyze_config: Option<String>,
    pub archive_config: Option<String>,
}

/// A target: its product, platform, the files it builds (paths relative to
/// the project, in the order they were found), its dependencies and its
/// build settings for each configuration.
pub struct Target {
    pub name: String,
    pub product_name: String,
    pub target_type: ProductType,
    pub platform: Platform,
    pub product_filename: String,
    pub files: Vec<String>,
    pub dependencies: Vec<Dependency>,
    pub settings: Vec<(String, Vec<(String, JsonValue)>)>,
    pub attributes: Vec<(String, JsonValue)>,
    pub info_plist: Option<Plist>,
    pub entitlements_plist: Option<Plist>,
    pub target_scheme: Option<TargetScheme>,
    pub only_copy_files_on_install: bool,
    pub requires_objc_linking: Option<bool>,
    pub supported_destinations: Vec<String>,
    pub deployment_target: Option<String>,
    pub pre_build_scripts: Vec<BuildScript>,
    pub post_compile_scripts: Vec<BuildScript>,
    pub post_build_scripts: Vec<BuildScript>,
    pub build_rules: Vec<BuildRule>,
    pub put_resources_before_sources_build_phase: bool,
    pub transitively_link_dependencies: Option<bool>,
    pub legacy: Option<JsonValue>,
}

/// A target that builds nothing itself: it runs its scripts after the
/// targets it names.
pub struct AggregateTarget {
    pub name: String,
    pub targets: Vec<String>,
    pub build_scripts: Vec<BuildScript>,
    pub settings: Vec<(String, Vec<(String, JsonValue)>)>,
}

/// The deployment target the project sets for each platform, if any.
pub struct DeploymentTargets {
    pub ios: Option<String>,
    pub macos: Option<String>,
    pub tvos: Option<String>,
    pub watchos: Option<String>,
    pub visionos: Option<String>,
}

/// Options of the specification that shape the project file.
pub struct SpecOptions {
    pub development_language: Option<String>,
    pub default_config: Option<String>,
    pub indent_width: Option<i64>,
    pub tab_width: Option<i64>,
    pub uses_tabs: Option<bool>,
    pub use_base_internationalization: bool,
    pub setting_presets_none: bool,
    pub scheme_path_prefix: Option<String>,
    pub xcode_version: Option<JsonValue>,
    pub bundle_id_prefix: Option<String>,
    pub transitively_link_dependencies: bool,
    pub deployment_target: DeploymentTargets,
}

/// A project: its name, configurations (name and kind, in the order the
/// specification gives them), project build settings for each
/// configuration, attributes, targets, schemes, breakpoints, and the
/// regions of the localized directories found among its sources.
pub struct Project {
    pub name: String,
    pub configs: Vec<(String, String)>,
    pub settings: Vec<(String, Vec<(String, JsonValue)>)>,
    pub attributes: Vec<(String, JsonValue)>,
    pub targets: Vec<Target>,
    pub aggregate_targets: Vec<AggregateTarget>,
    pub options: SpecOptions,
    pub schemes: Vec<Scheme>,
    pub breakpoints: Vec<Breakpoint>,
    pub regions: Vec<String>,
}

/// The nesting depth every JSON value of a project stays under.
pub open spec fn json_depth_cap() -> nat {
    1000
}

/// Every value of a list of settings nests less than the cap.
pub open spec fn settings_shallow(s: Seq<(String, JsonValue)>) -> bool {
    forall|i: int| 0 <= i < s.len() ==> jdepth(&#[trigger] s[i].1) < json_depth_cap()
}

/// Every value of settings by configuration nests less than the cap.
pub open spec fn config_settings_shallow(s: Seq<(String, Vec<(String, JsonValue)>)>) -> bool {
    forall|i: int| 0 <= i < s.len() ==> settings_shallow(#[trigger] s[i].1@)
}

/// Every JSON value a target holds nests less than the cap.
pub open spec fn target_shallow(t: Target) -> bool {
    &&& config_settings_shallow(t.settings@)
    &&& settings_shallow(t.attributes@)
}

/// Every JSON value of a project nests less than the cap: a bound far
/// beyond what a specification file can hold, under which the project
/// file can always be written.
pub open spec fn project_shallow(p: &Project) -> bool {
    &&& config_settings_shallow(p.settings@)
    &&& settings_shallow(p.attributes@)
    &&& forall|i: int| 0 <= i < p.targets@.len() ==> target_shallow(#[trigger] p.targets@[i])
    &&& forall|i: int| 0 <= i < p.aggregate_targets@.len() ==> config_settings_shallow(#[trigger] p.aggregate_targets@[i].settings@)
}

proof fn lemma_items_below(items: Seq<JsonValue>, n: int, c: nat)
    requires
        0 <= n <= items.len(),
    ensures
        (jitems_depth(items, n) < c) == (c > 0 && forall|i: int| 0 <= i < n ==> jdepth(&#[trigger] items[i]) < c),
    decreases n,
{
    if n > 0 {
        lemma_items_below(items, n - 1, c);
    }
}

proof fn lemma_entries_below(es: Seq<(String, JsonValue)>, n: int, c: nat)
    requires
        0 <= n <= es.len(),
    ensures
        (jentries_depth(es, n) < c) == (c > 0 && forall|i: int| 0 <= i < n ==> jdepth(&#[trigger] es[i].1) < c),
    decreases n,
{
    if n > 0 {
        lemma_entries_below(es, n - 1, c);
    }
}

/// Whether a JSON value nests less than `cap` deep.
pub fn json_below(v: &JsonValue, cap: u64) -> (r: bool)
    ensures
        r == (jdepth(v) < cap),
    decreases v,
{
    match v {
        JsonValue::Array(items) => {
            if cap <= 1 {
                return false;
            }
            proof {
                lemma_items_below(items@, items@.len() as int, (cap - 1) as nat);
            }
            let mut i: usize = 0;
            while i < items.len()
                invariant
                    *v == JsonValue::Array(*items),
                    cap > 1,
                    i <= items@.len(),
                    forall|k: int| 0 <= k < i ==> jdepth(&#[trigger] items@[k]) < cap - 1,
                decreases items.len() - i,
            {
                proof {
                    assert(decreases_to!(*v => v->Array_0));
                    assert(decreases_to!(*items => items@));
                    assert(decreases_to!(items@ => items@[i as int]));
                }
                if !json_below(&items[i], cap - 1) {
                    proof {
                        lemma_items_below(items@, items@.len() as int, (cap - 1) as nat);
                    }
                    return false;
                }
                i = i + 1;
            }
            true
        },
        JsonValue::Object(es) => {
            if cap <= 1 {
                return false;
            }
            proof {
                lemma_entries_below(es@, es@.len() as int, (cap - 1) as nat);
            }
            let mut i: usize = 0;
            while i < es.len()
                invariant
                    *v == JsonValue::Object(*es),
                    cap > 1,
                    i <= es@.len(),
                    forall|k: int| 0 <= k < i ==> jdepth(&#[trigger] es@[k].1) < cap - 1,
                decreases es.len() - i,
            {
                proof {
                    assert(decreases_to!(*v => v->Object_0));
                    assert(decreases_to!(*es => es@));
                    assert(decreases_to!(es@ => es@[i as int]));
                    assert(decreases_to!(es@[i as int] => es@[i as int].1));
                }
                if !json_below(&es[i].1, cap - 1) {
                    proof {
                        lemma_entries_below(es@, es@.len() as int, (cap - 1) as nat);
                    }
                    return false;
                }
                i = i + 1;
            }
            true
        },
        _ => cap > 0,
    }
}

/// Whether every value of a list of settings nests less than the cap.
pub fn settings_are_shallow(s: &Vec<(String, JsonValue)>) -> (r: bool)
    ensures
        r == settings_shallow(s@),
{
    let mut i: usize = 0;
    while i < s.len()
        invariant
            i <= s@.len(),
            forall|k: int| 0 <= k < i ==> jdepth(&#[trigger] s@[k].1) < json_depth_cap(),
        decreases s.len() - i,
    {
        if !json_below(&s[i].1, 1000) {
            return false;
        }
        i = i + 1;
    }
    true
}

/// Whether every value of settings by configuration nests less than the cap.
pub fn config_settings_are_shallow(s: &Vec<(String, Vec<(String, JsonValue)>)>) -> (r: bool)
    ensures
        r == config_settings_shallow(s@),
{
    let mut i: usize = 0;
    while i < s.len()
        invariant
            i <= s@.len(),
            forall|k: int| 0 <= k < i ==> settings_shallow(#[trigger] s@[k].1@),
        decreases s.len() - i,
    {
        if !settings_are_shallow(&s[i].1) {
            return false;
        }
        i = i + 1;
    }
    true
}

/// Whether every JSON value of a project nests less than the cap, so that
/// its project file can be written.
pub fn project_is_shallow(p: &Project) -> (r: bool)
    ensures
        r == project_shallow(p),
{
    if !config_settings_are_shallow(&p.settings) || !settings_are_shallow(&p.attributes) {
        return false;
    }
    let mut i: usize = 0;
    while i < p.targets.len()
        invariant
            i <= p.targets@.len(),
            forall|k: int| 0 <= k < i ==> target_shallow(#[trigger] p.targets@[k]),
        decreases p.targets.len() - i,
    {
        let t = &p.targets[i];
        if !config_settings_are_shallow(&t.settings) || !settings_are_shallow(&t.attributes) {
            return false;
        }
        i = i + 1;
    }
    let mut a: usize = 0;
    while a < p.aggregate_targets.len()
        invariant
            a <= p.aggregate_targets@.len(),
            forall|k: int| 0 <= k < p.targets@.len() ==> target_shallow(#[trigger] p.targets@[k]),
            forall|k: int| 0 <= k < a ==> config_settings_shallow(#[trigger] p.aggregate_targets@[k].settings@),
        decreases p.aggregate_targets.len() - a,
    {
        if !config_settings_are_shallow(&p.aggregate_targets[a].settings) {
            return false;
        }
        a = a + 1;
    }
    true
}

} // verus!
