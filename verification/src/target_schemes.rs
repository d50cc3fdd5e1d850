//! Scheme files generated for a target: the target (and, for a watch
//! application, its host) built for every action, tested, launched and
//! profiled with the settings of the target's scheme.
use vstd::prelude::*;
use crate::configs::{variant_config, variant_config_spec};
use crate::model::{DependencyType, Project, Scheme, Target, TargetScheme};
use crate::products::{is_watch_app_product, is_watch_app_product_spec, runnable_scheme_target_type,
    runnable_scheme_target_type_spec, scheme_target_is_app_extension, scheme_target_is_app_extension_spec};
use crate::scheme::{BuildType, EnvironmentVariable};
use crate::scheme_files::{config_or_default, scheme_head_text, scheme_xml, scheme_xml_spec, simple_action_text};
use crate::schemes::{ActionContext, ActionView, BuildView, ProfileView, RunView, SchemeAction, SchemeBuild,
    SchemeBuildTarget, SchemeProfile, SchemeRun, SchemeTest, SchemeTestTarget, TestPlan, TestView, build_action_text,
    build_target_view, launch_action_text, opt_string, profile_action_text, test_action_text, write_build_action,
    write_launch_action, write_profile_action, write_test_action};
use crate::smap::{entries_view, keys_sorted};
use crate::text::{push_str, str_eq};
use crate::xml::write_simple_action;

verus! {

/// The actions every target of a target scheme is built for.
pub open spec fn all_build_types() -> Seq<BuildType> {
    seq![BuildType::Running, BuildType::Testing, BuildType::Profiling, BuildType::Analyzing, BuildType::Archiving]
}

/// Whether a target depends on the target with a name.
pub open spec fn depends_on_target(t: Target, name: Seq<char>) -> bool {
    exists|k: int|
        0 <= k < t.dependencies@.len() && (#[trigger] t.dependencies@[k]).dependency_type is Target
            && t.dependencies@[k].reference@ == name
}

/// The position of the first of the first `n` targets that depends on the
/// target with a name, or -1.
pub open spec fn host_index(targets: Seq<Target>, name: Seq<char>, n: int) -> int
    decreases n,
{
    if n <= 0 || n > targets.len() {
        -1
    } else {
        let p = host_index(targets, name, n - 1);
        if p >= 0 {
            p
        } else if depends_on_target(targets[n - 1], name) {
            n - 1
        } else {
            -1
        }
    }
}

/// The host of a watch application: the first target that depends on it.
pub open spec fn watch_host(project: &Project, t: Target) -> Option<Target> {
    let p = host_index(project.targets@, t.name@, project.targets@.len() as int);
    if is_watch_app_product_spec(t.target_type) && p >= 0 {
        Some(project.targets@[p])
    } else {
        None
    }
}

/// The build action of a target scheme.
pub open spec fn target_scheme_build(project: &Project, t: Target, ts: TargetScheme) -> BuildView {
    BuildView {
        targets: seq![(t.name@, all_build_types())] + match watch_host(project, t) {
            Some(h) => seq![(h.name@, all_build_types())],
            None => Seq::empty(),
        },
        parallelize_build: true,
        build_implicit_dependencies: true,
        run_post_actions_on_failure: false,
        pre_actions: ts.pre_actions@,
        post_actions: ts.post_actions@,
    }
}

/// The test settings of a target scheme.
pub open spec fn target_scheme_test(ts: TargetScheme, debug: Seq<char>) -> TestView {
    TestView {
        config: Some(debug),
        gather_coverage_data: ts.gather_coverage_data,
        debug_enabled: true,
        disable_main_thread_checker: ts.disable_main_thread_checker,
        stop_on_every_main_thread_checker_issue: ts.stop_on_every_main_thread_checker_issue,
        custom_lldb_init: None,
        pre_actions: Seq::empty(),
        post_actions: Seq::empty(),
        macro_expansion: None,
        targets: ts.test_targets@,
        coverage_targets: ts.coverage_targets@,
        test_plans: ts.test_plans@,
        environment_variables: ts.environment_variables@,
        command_line_arguments: Seq::empty(),
        capture_screenshots_automatically: None,
        delete_screenshots_when_each_test_succeeds: None,
        preferred_screen_capture_format: None,
    }
}

/// The launch settings of a target scheme.
pub open spec fn target_scheme_run(ts: TargetScheme, debug: Seq<char>) -> RunView {
    RunView {
        config: Some(debug),
        debug_enabled: true,
        launch_automatically_substyle: None,
        ask_for_app_to_launch: false,
        custom_lldb_init: None,
        custom_working_directory: None,
        enable_gpu_frame_capture_mode: None,
        store_kit_configuration: opt_string(ts.store_kit_configuration),
        macro_expansion: None,
        default_location: None,
        disable_main_thread_checker: ts.disable_main_thread_checker,
        stop_on_every_main_thread_checker_issue: ts.stop_on_every_main_thread_checker_issue,
        disable_thread_performance_checker: ts.disable_thread_performance_checker,
        command_line_arguments: ts.command_line_arguments@,
        language: opt_string(ts.language),
        region: opt_string(ts.region),
        environment_variables: ts.environment_variables@,
    }
}

/// The profile settings of a target scheme.
pub open spec fn target_scheme_profile(ts: TargetScheme, release: Seq<char>) -> ProfileView {
    ProfileView { config: Some(release), environment_variables: ts.environment_variables@, ask_for_app_to_launch: false }
}

/// The target a target scheme launches: the target itself, when it is one
/// a scheme runs directly.
pub open spec fn target_runnable(t: Target) -> Option<Seq<char>> {
    if runnable_scheme_target_type_spec(t.target_type) { Some(t.name@) } else { None }
}

/// The target whose macros a target scheme's launch and profile actions
/// expand with: the target itself, when it is not run directly.
pub open spec fn target_macro(t: Target) -> Option<Seq<char>> {
    if runnable_scheme_target_type_spec(t.target_type) { None } else { Some(t.name@) }
}

/// The context of an action of a target scheme.
pub open spec fn target_context(t: Target, macro_expansion: Option<Seq<char>>, emit_empty: bool, config: Seq<char>) -> ActionView {
    ActionView {
        runnable: target_runnable(t),
        macro_expansion: macro_expansion,
        emit_empty_arguments: emit_empty,
        default_config: config,
    }
}

/// The test, launch and profile actions of a target scheme.
#[verifier::opaque]
pub open spec fn target_scheme_actions(project: &Project, t: Target, ts: TargetScheme, debug: Seq<char>, release: Seq<char>,
    id_map: Seq<(Seq<char>, Seq<char>)>) -> Seq<char> {
    test_action_text(project, target_scheme_test(ts, debug), target_context(t, Some(t.name@), true, debug), id_map, 1)
        + launch_action_text(
        project,
        target_scheme_run(ts, debug),
        target_context(t, target_macro(t), ts.gather_coverage_data, debug),
        id_map,
        1,
    ) + profile_action_text(
        project,
        target_scheme_profile(ts, release),
        target_context(t, target_macro(t), ts.gather_coverage_data, release),
        id_map,
        1,
    )
}

/// The file of a target scheme written with a debug and a release
/// configuration.
pub open spec fn target_scheme_text(project: &Project, t: Target, ts: TargetScheme, debug: Seq<char>, release: Seq<char>,
    id_map: Seq<(Seq<char>, Seq<char>)>) -> Seq<char> {
    scheme_head_text(project, scheme_target_is_app_extension_spec(t.target_type)) + build_action_text(
        project,
        target_scheme_build(project, t, ts),
        id_map,
        1,
    ) + target_scheme_actions(project, t, ts, debug, release, id_map) + simple_action_text("AnalyzeAction"@, debug)
        + simple_action_text("ArchiveAction"@, release) + "</Scheme>\n"@
}

/// The file of the scheme generated for a target, for one configuration
/// variant or none.
#[verifier::opaque]
pub open spec fn target_scheme_xml_spec(project: &Project, t: Target, ts: TargetScheme, variant: Option<Seq<char>>,
    id_map: Seq<(Seq<char>, Seq<char>)>) -> Seq<char> {
    target_scheme_text(
        project,
        t,
        ts,
        variant_config_spec(project.configs@, variant, "debug"@),
        variant_config_spec(project.configs@, variant, "release"@),
        id_map,
    )
}

fn clone_opt(a: &Option<String>) -> (r: Option<String>)
    ensures
        r == *a,
{
    match a {
        Some(x) => Some(x.clone()),
        None => None,
    }
}

fn clone_action(a: &SchemeAction) -> (r: SchemeAction)
    ensures
        r == *a,
{
    SchemeAction { name: a.name.clone(), script: a.script.clone(), settings_target: clone_opt(&a.settings_target) }
}

fn clone_actions(v: &Vec<SchemeAction>) -> (r: Vec<SchemeAction>)
    ensures
        r@ == v@,
{
    let mut r: Vec<SchemeAction> = Vec::new();
    let mut i: usize = 0;
    while i < v.len()
        invariant
            i <= v@.len(),
            r@ == v@.take(i as int),
        decreases v.len() - i,
    {
        r.push(clone_action(&v[i]));
        proof {
            assert(v@.take(i + 1) =~= v@.take(i as int).push(v@[i as int]));
        }
        i = i + 1;
    }
    proof {
        assert(v@.take(i as int) =~= v@);
    }
    r
}

fn clone_test_targets(v: &Vec<SchemeTestTarget>) -> (r: Vec<SchemeTestTarget>)
    ensures
        r@ == v@,
{
    let mut r: Vec<SchemeTestTarget> = Vec::new();
    let mut i: usize = 0;
    while i < v.len()
        invariant
            i <= v@.len(),
            r@ == v@.take(i as int),
        decreases v.len() - i,
    {
        let t = &v[i];
        r.push(SchemeTestTarget {
            target_reference: t.target_reference.clone(),
            skipped: t.skipped,
            parallelizable: t.parallelizable,
            random_execution_order: t.random_execution_order,
            location: clone_opt(&t.location),
        });
        proof {
            assert(v@.take(i + 1) =~= v@.take(i as int).push(v@[i as int]));
        }
        i = i + 1;
    }
    proof {
        assert(v@.take(i as int) =~= v@);
    }
    r
}

fn clone_strings(v: &Vec<String>) -> (r: Vec<String>)
    ensures
        r@ == v@,
{
    let mut r: Vec<String> = Vec::new();
    let mut i: usize = 0;
    while i < v.len()
        invariant
            i <= v@.len(),
            r@ == v@.take(i as int),
        decreases v.len() - i,
    {
        r.push(v[i].clone());
        proof {
            assert(v@.take(i + 1) =~= v@.take(i as int).push(v@[i as int]));
        }
        i = i + 1;
    }
    proof {
        assert(v@.take(i as int) =~= v@);
    }
    r
}

fn clone_plans(v: &Vec<TestPlan>) -> (r: Vec<TestPlan>)
    ensures
        r@ == v@,
{
    let mut r: Vec<TestPlan> = Vec::new();
    let mut i: usize = 0;
    while i < v.len()
        invariant
            i <= v@.len(),
            r@ == v@.take(i as int),
        decreases v.len() - i,
    {
        r.push(TestPlan { path: v[i].path.clone(), default_plan: v[i].default_plan });
        proof {
            assert(v@.take(i + 1) =~= v@.take(i as int).push(v@[i as int]));
        }
        i = i + 1;
    }
    proof {
        assert(v@.take(i as int) =~= v@);
    }
    r
}

fn clone_variables(v: &Vec<EnvironmentVariable>) -> (r: Vec<EnvironmentVariable>)
    ensures
        r@ == v@,
{
    let mut r: Vec<EnvironmentVariable> = Vec::new();
    let mut i: usize = 0;
    while i < v.len()
        invariant
            i <= v@.len(),
            r@ == v@.take(i as int),
        decreases v.len() - i,
    {
        r.push(EnvironmentVariable { variable: v[i].variable.clone(), value: v[i].value.clone(), enabled: v[i].enabled });
        proof {
            assert(v@.take(i + 1) =~= v@.take(i as int).push(v@[i as int]));
        }
        i = i + 1;
    }
    proof {
        assert(v@.take(i as int) =~= v@);
    }
    r
}

fn clone_arguments(v: &Vec<(String, bool)>) -> (r: Vec<(String, bool)>)
    ensures
        r@ == v@,
{
    let mut r: Vec<(String, bool)> = Vec::new();
    let mut i: usize = 0;
    while i < v.len()
        invariant
            i <= v@.len(),
            r@ == v@.take(i as int),
        decreases v.len() - i,
    {
        r.push((v[i].0.clone(), v[i].1));
        proof {
            assert(v@.take(i + 1) =~= v@.take(i as int).push(v@[i as int]));
        }
        i = i + 1;
    }
    proof {
        assert(v@.take(i as int) =~= v@);
    }
    r
}

fn all_types() -> (r: Vec<BuildType>)
    ensures
        r@ == all_build_types(),
{
    let r = vec![BuildType::Running, BuildType::Testing, BuildType::Profiling, BuildType::Analyzing, BuildType::Archiving];
    proof {
        assert(r@ =~= all_build_types());
    }
    r
}

fn depends_on(t: &Target, name: &str) -> (r: bool)
    ensures
        r == depends_on_target(*t, name@),
{
    let mut k: usize = 0;
    while k < t.dependencies.len()
        invariant
            k <= t.dependencies@.len(),
            forall|j: int|
                0 <= j < k ==> !((#[trigger] t.dependencies@[j]).dependency_type is Target && t.dependencies@[j].reference@
                    == name@),
        decreases t.dependencies.len() - k,
    {
        let d = &t.dependencies[k];
        let is_target = match d.dependency_type {
            DependencyType::Target => true,
            _ => false,
        };
        if is_target && str_eq(d.reference.as_str(), name) {
            return true;
        }
        k = k + 1;
    }
    false
}

proof fn lemma_host_index(targets: Seq<Target>, name: Seq<char>, n: int, m: int)
    requires
        0 <= n <= m <= targets.len(),
        host_index(targets, name, n) >= 0,
    ensures
        host_index(targets, name, m) == host_index(targets, name, n),
    decreases m - n,
{
    if m > n {
        lemma_host_index(targets, name, n, m - 1);
    }
}

/// The host of a watch application target.
fn find_watch_host(project: &Project, t: &Target) -> (r: Option<usize>)
    ensures
        match r {
            Some(i) => i < project.targets@.len() && watch_host(project, *t) == Some(project.targets@[i as int]),
            None => watch_host(project, *t) is None,
        },
{
    if !is_watch_app_product(&t.target_type) {
        return None;
    }
    let mut i: usize = 0;
    while i < project.targets.len()
        invariant
            i <= project.targets@.len(),
            is_watch_app_product_spec(t.target_type),
            host_index(project.targets@, t.name@, i as int) == -1,
        decreases project.targets.len() - i,
    {
        if depends_on(&project.targets[i], t.name.as_str()) {
            proof {
                assert(host_index(project.targets@, t.name@, i + 1) == i);
                lemma_host_index(project.targets@, t.name@, i + 1, project.targets@.len() as int);
            }
            return Some(i);
        }
        i = i + 1;
    }
    None
}

fn build_of(project: &Project, t: &Target, ts: &TargetScheme) -> (r: SchemeBuild)
    ensures
        r@ == target_scheme_build(project, *t, *ts),
{
    let mut targets: Vec<SchemeBuildTarget> = Vec::new();
    targets.push(SchemeBuildTarget { target: t.name.clone(), build_types: all_types() });
    let host = find_watch_host(project, t);
    if let Some(h) = host {
        targets.push(SchemeBuildTarget { target: project.targets[h].name.clone(), build_types: all_types() });
    }
    let r = SchemeBuild {
        targets,
        parallelize_build: true,
        build_implicit_dependencies: true,
        run_post_actions_on_failure: false,
        pre_actions: clone_actions(&ts.pre_actions),
        post_actions: clone_actions(&ts.post_actions),
    };
    proof {
        assert(r@.targets =~= target_scheme_build(project, *t, *ts).targets);
    }
    r
}

fn test_of(ts: &TargetScheme, debug: &String) -> (r: SchemeTest)
    ensures
        r@ == target_scheme_test(*ts, debug@),
{
    SchemeTest {
        config: Some(debug.clone()),
        gather_coverage_data: ts.gather_coverage_data,
        debug_enabled: true,
        disable_main_thread_checker: ts.disable_main_thread_checker,
        stop_on_every_main_thread_checker_issue: ts.stop_on_every_main_thread_checker_issue,
        custom_lldb_init: None,
        pre_actions: Vec::new(),
        post_actions: Vec::new(),
        macro_expansion: None,
        targets: clone_test_targets(&ts.test_targets),
        coverage_targets: clone_strings(&ts.coverage_targets),
        test_plans: clone_plans(&ts.test_plans),
        environment_variables: clone_variables(&ts.environment_variables),
        command_line_arguments: Vec::new(),
        capture_screenshots_automatically: None,
        delete_screenshots_when_each_test_succeeds: None,
        preferred_screen_capture_format: None,
    }
}

fn run_of(ts: &TargetScheme, debug: &String) -> (r: SchemeRun)
    ensures
        r@ == target_scheme_run(*ts, debug@),
{
    SchemeRun {
        config: Some(debug.clone()),
        debug_enabled: true,
        launch_automatically_substyle: None,
        ask_for_app_to_launch: false,
        custom_lldb_init: None,
        custom_working_directory: None,
        enable_gpu_frame_capture_mode: None,
        store_kit_configuration: clone_opt(&ts.store_kit_configuration),
        macro_expansion: None,
        default_location: None,
        disable_main_thread_checker: ts.disable_main_thread_checker,
        stop_on_every_main_thread_checker_issue: ts.stop_on_every_main_thread_checker_issue,
        disable_thread_performance_checker: ts.disable_thread_performance_checker,
        command_line_arguments: clone_arguments(&ts.command_line_arguments),
        language: clone_opt(&ts.language),
        region: clone_opt(&ts.region),
        environment_variables: clone_variables(&ts.environment_variables),
    }
}

fn context_of(t: &Target, macro_expansion: Option<String>, emit_empty: bool, config: &String) -> (r: ActionContext)
    ensures
        r@ == target_context(*t, opt_string(macro_expansion), emit_empty, config@),
{
    let runnable = if runnable_scheme_target_type(&t.target_type) { Some(t.name.clone()) } else { None };
    ActionContext { runnable, macro_expansion, emit_empty_arguments: emit_empty, default_config: config.clone() }
}

fn macro_of(t: &Target) -> (r: Option<String>)
    ensures
        opt_string(r) == target_macro(*t),
{
    if runnable_scheme_target_type(&t.target_type) { None } else { Some(t.name.clone()) }
}

#[verifier::spinoff_prover]
#[verifier::rlimit(60)]
fn write_target_scheme_actions(output: &mut String, project: &Project, t: &Target, ts: &TargetScheme, debug: &String,
    release: &String, object_id_map: &Vec<(String, String)>)
    requires
        keys_sorted(entries_view(object_id_map@)),
    ensures
        final(output)@ == old(output)@ + target_scheme_actions(project, *t, *ts, debug@, release@, entries_view(object_id_map@)),
{
    let ghost s0 = output@;
    let test = test_of(ts, debug);
    let test_cx = context_of(t, Some(t.name.clone()), true, debug);
    write_test_action(output, project, &test, &test_cx, object_id_map, 1);
    let ghost a = output@;
    let run = run_of(ts, debug);
    let run_cx = context_of(t, macro_of(t), ts.gather_coverage_data, debug);
    write_launch_action(output, project, &run, &run_cx, object_id_map, 1);
    let ghost b = output@;
    let profile = SchemeProfile {
        config: Some(release.clone()),
        environment_variables: clone_variables(&ts.environment_variables),
        ask_for_app_to_launch: false,
    };
    let profile_cx = context_of(t, macro_of(t), ts.gather_coverage_data, release);
    proof {
        assert(profile@ == target_scheme_profile(*ts, release@));
    }
    write_profile_action(output, project, &profile, &profile_cx, object_id_map, 1);
    proof {
        reveal(target_scheme_actions);
        assert(output@ =~= s0 + target_scheme_actions(project, *t, *ts, debug@, release@, entries_view(object_id_map@)));
    }
}

#[verifier::spinoff_prover]
#[verifier::rlimit(80)]
fn target_scheme_with(project: &Project, target: &Target, scheme: &TargetScheme, debug: &String, release: &String,
    object_id_map: &Vec<(String, String)>) -> (r: String)
    requires
        keys_sorted(entries_view(object_id_map@)),
    ensures
        r@ == target_scheme_text(project, *target, *scheme, debug@, release@, entries_view(object_id_map@)),
{
    let ghost m = entries_view(object_id_map@);
    let mut output = String::new();
    crate::scheme_files::write_scheme_head(&mut output, project, scheme_target_is_app_extension(&target.target_type));
    let build = build_of(project, target, scheme);
    write_build_action(&mut output, project, &build, object_id_map, 1);
    let ghost a = output@;
    write_target_scheme_actions(&mut output, project, target, scheme, debug, release, object_id_map);
    let ghost b = output@;
    write_simple_action(&mut output, "AnalyzeAction", "buildConfiguration", debug.as_str(), 1);
    write_simple_action(&mut output, "ArchiveAction", "buildConfiguration", release.as_str(), 1);
    push_str(&mut output, "</Scheme>\n");
    proof {
        assert(output@ =~= target_scheme_text(project, *target, *scheme, debug@, release@, m));
    }
    output
}

/// The file of the scheme generated for a target, for one configuration
/// variant or none: the variant's debug configuration for building,
/// testing, launching and analyzing, its release configuration for
/// profiling and archiving.
pub fn target_scheme_xml(project: &Project, target: &Target, scheme: &TargetScheme, variant: Option<&str>,
    object_id_map: &Vec<(String, String)>) -> (r: String)
    requires
        keys_sorted(entries_view(object_id_map@)),
    ensures
        r@ == target_scheme_xml_spec(project, *target, *scheme, crate::schemes::opt_name(variant), entries_view(object_id_map@)),
{
    let debug = variant_config(project, variant, "debug");
    let release = variant_config(project, variant, "release");
    proof {
        assert(crate::schemes::opt_name(variant) == match variant {
            Some(v) => Some(v@),
            None => None::<Seq<char>>,
        });
        reveal(target_scheme_xml_spec);
    }
    target_scheme_with(project, target, scheme, &debug, &release, object_id_map)
}

/// The shared scheme files of the declared schemes: each shared scheme's
/// name and file.
pub open spec fn declared_scheme_files(project: &Project, schemes: Seq<Scheme>, id_map: Seq<(Seq<char>, Seq<char>)>) -> Seq<(Seq<char>, Seq<char>)>
    decreases schemes.len(),
{
    if schemes.len() == 0 {
        Seq::empty()
    } else {
        let s = schemes.last();
        declared_scheme_files(project, schemes.drop_last(), id_map) + if s.management.shared {
            seq![(s.name@, scheme_xml_spec(project, s, id_map))]
        } else {
            Seq::empty()
        }
    }
}

/// The scheme files generated for a target: one named after the target, or
/// one per configuration variant.
pub open spec fn variant_scheme_files(project: &Project, t: Target, ts: TargetScheme, id_map: Seq<(Seq<char>, Seq<char>)>) -> Seq<(Seq<char>, Seq<char>)> {
    let vs = ts.config_variants@;
    if vs.len() == 0 {
        seq![(t.name@, target_scheme_xml_spec(project, t, ts, None, id_map))]
    } else {
        Seq::new(vs.len(), |i: int| (t.name@ + " "@ + vs[i]@, target_scheme_xml_spec(project, t, ts, Some(vs[i]@), id_map)))
    }
}

/// The scheme files generated for targets that have a scheme.
pub open spec fn target_scheme_files(project: &Project, targets: Seq<Target>, id_map: Seq<(Seq<char>, Seq<char>)>) -> Seq<(Seq<char>, Seq<char>)>
    decreases targets.len(),
{
    if targets.len() == 0 {
        Seq::empty()
    } else {
        let t = targets.last();
        target_scheme_files(project, targets.drop_last(), id_map) + match t.target_scheme {
            Some(ts) => variant_scheme_files(project, t, ts, id_map),
            None => Seq::empty(),
        }
    }
}

/// The view of named files.
pub open spec fn files_view(files: Seq<(String, String)>) -> Seq<(Seq<char>, Seq<char>)> {
    files.map_values(|f: (String, String)| (f.0@, f.1@))
}

fn push_variant_files(files: &mut Vec<(String, String)>, project: &Project, t: &Target, ts: &TargetScheme,
    object_id_map: &Vec<(String, String)>)
    requires
        keys_sorted(entries_view(object_id_map@)),
    ensures
        files_view(final(files)@) == files_view(old(files)@) + variant_scheme_files(project, *t, *ts, entries_view(object_id_map@)),
{
    let ghost b = files_view(files@);
    let ghost m = entries_view(object_id_map@);
    if ts.config_variants.len() == 0 {
        let xml = target_scheme_xml(project, t, ts, None, object_id_map);
        files.push((t.name.clone(), xml));
        proof {
            assert(files_view(files@) =~= b + variant_scheme_files(project, *t, *ts, m));
        }
        return;
    }
    let mut j: usize = 0;
    while j < ts.config_variants.len()
        invariant
            keys_sorted(entries_view(object_id_map@)),
            m == entries_view(object_id_map@),
            j <= ts.config_variants@.len(),
            ts.config_variants@.len() > 0,
            files_view(files@) == b + variant_scheme_files(project, *t, *ts, m).take(j as int),
        decreases ts.config_variants.len() - j,
    {
        let v = &ts.config_variants[j];
        let name = crate::text::concat3(t.name.as_str(), " ", v.as_str());
        let xml = target_scheme_xml(project, t, ts, Some(v.as_str()), object_id_map);
        let ghost before = files@;
        files.push((name, xml));
        proof {
            let fs = variant_scheme_files(project, *t, *ts, m);
            assert(files_view(files@) =~= files_view(before).push((name@, xml@)));
            assert(fs[j as int] == (name@, xml@));
            assert(fs.take(j + 1) =~= fs.take(j as int).push(fs[j as int]));
        }
        j = j + 1;
    }
    proof {
        let fs = variant_scheme_files(project, *t, *ts, m);
        assert(fs.take(ts.config_variants@.len() as int) =~= fs);
    }
}

/// The shared scheme files a project writes, each with its name: the
/// declared schemes that are shared, then the schemes generated for
/// targets, in order.
pub fn scheme_files(project: &Project, object_id_map: &Vec<(String, String)>) -> (r: Vec<(String, String)>)
    requires
        keys_sorted(entries_view(object_id_map@)),
    ensures
        files_view(r@) == declared_scheme_files(project, project.schemes@, entries_view(object_id_map@)) + target_scheme_files(
            project,
            project.targets@,
            entries_view(object_id_map@),
        ),
{
    let ghost m = entries_view(object_id_map@);
    let mut files: Vec<(String, String)> = Vec::new();
    let mut i: usize = 0;
    while i < project.schemes.len()
        invariant
            keys_sorted(entries_view(object_id_map@)),
            m == entries_view(object_id_map@),
            i <= project.schemes@.len(),
            files_view(files@) == declared_scheme_files(project, project.schemes@.take(i as int), m),
        decreases project.schemes.len() - i,
    {
        let s = &project.schemes[i];
        let ghost before = files@;
        if s.management.shared {
            let xml = scheme_xml(project, s, object_id_map);
            files.push((s.name.clone(), xml));
            proof {
                assert(files_view(files@) =~= files_view(before).push((s.name@, xml@)));
            }
        }
        proof {
            assert(project.schemes@.take(i + 1).drop_last() =~= project.schemes@.take(i as int));
            assert(files_view(files@) =~= declared_scheme_files(project, project.schemes@.take(i + 1), m));
        }
        i = i + 1;
    }
    proof {
        assert(project.schemes@.take(i as int) =~= project.schemes@);
    }
    let ghost d = files_view(files@);
    let mut k: usize = 0;
    while k < project.targets.len()
        invariant
            keys_sorted(entries_view(object_id_map@)),
            m == entries_view(object_id_map@),
            k <= project.targets@.len(),
            d == declared_scheme_files(project, project.schemes@, m),
            files_view(files@) == d + target_scheme_files(project, project.targets@.take(k as int), m),
        decreases project.targets.len() - k,
    {
        let t = &project.targets[k];
        if let Some(ts) = &t.target_scheme {
            push_variant_files(&mut files, project, t, ts, object_id_map);
        }
        proof {
            assert(project.targets@.take(k + 1).drop_last() =~= project.targets@.take(k as int));
            assert(files_view(files@) =~= d + target_scheme_files(project, project.targets@.take(k + 1), m));
        }
        k = k + 1;
    }
    proof {
        assert(project.targets@.take(k as int) =~= project.targets@);
    }
    files
}

} // verus!
