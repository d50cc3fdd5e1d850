//! Whole scheme files: the schemes a specification declares, with the
//! actions they leave out written with their defaults.
use vstd::prelude::*;
use crate::configs::{default_config_for, default_config_spec};
use crate::model::{Project, Scheme, SchemeManagement, Target};
use crate::products::{product_type_is_runnable, product_type_is_runnable_spec, scheme_target_is_app_extension,
    scheme_target_is_app_extension_spec};
use crate::scheme::{BuildType, SchemeManagementState, has_build_type};
use crate::schemes::{ActionContext, ActionView, SchemeBuildTarget, SchemeProfile, SchemeRun, SchemeTest, TestView, RunView, ProfileView, attr_if,
    build_action_text, debugger_attrs, launch_action_text, launch_attrs, launch_fixed_attrs, macro_expansion_text,
    opt_string, profile_action_text, profile_attrs, profile_runnable_text, runnable_text, target_named, target_position,
    test_action_text, test_attrs, testables_block, write_build_action, write_launch_action, write_profile_action,
    write_test_action};
use crate::smap::{entries_view, keys_sorted};
use crate::text::{push_str, string_from};
use crate::version::{last_upgrade_version, last_upgrade_version_spec};
use crate::xml::{end_tag_text, indent_text, multiline_start_text, simple_action_attrs, write_multiline_start,
    write_simple_action, xml_escape, xml_escape_spec};

verus! {

/// The first target of a build action that the project has and that a
/// scheme can launch; with `testing`, only among those built for testing.
pub open spec fn first_runnable(project: &Project, ts: Seq<SchemeBuildTarget>, testing: bool) -> Option<Seq<char>>
    decreases ts.len(),
{
    if ts.len() == 0 {
        None
    } else {
        let t = ts[0];
        let launchable = match target_named(project, t.target@) {
            Some(x) => product_type_is_runnable_spec(x.target_type),
            None => false,
        };
        if launchable && (!testing || t.build_types@.contains(BuildType::Testing)) {
            Some(t.target@)
        } else {
            first_runnable(project, ts.skip(1), testing)
        }
    }
}

fn find_runnable(project: &Project, targets: &Vec<SchemeBuildTarget>, testing: bool) -> (r: Option<String>)
    ensures
        opt_string(r) == first_runnable(project, targets@, testing),
{
    let mut i: usize = 0;
    proof {
        assert(targets@.skip(0) =~= targets@);
    }
    while i < targets.len()
        invariant
            i <= targets@.len(),
            first_runnable(project, targets@, testing) == first_runnable(project, targets@.skip(i as int), testing),
        decreases targets.len() - i,
    {
        proof {
            assert(targets@.skip(i as int).skip(1) =~= targets@.skip(i + 1));
            assert(targets@.skip(i as int)[0] == targets@[i as int]);
        }
        let t = &targets[i];
        let launchable = match target_position(project, t.target.as_str()) {
            Some(k) => product_type_is_runnable(&project.targets[k].target_type),
            None => false,
        };
        if launchable && (!testing || has_build_type(&t.build_types, BuildType::Testing)) {
            return Some(t.target.clone());
        }
        i = i + 1;
    }
    None
}

/// The first target of a build action that a scheme can launch.
pub fn first_runnable_scheme_target(project: &Project, targets: &Vec<SchemeBuildTarget>) -> (r: Option<String>)
    ensures
        opt_string(r) == first_runnable(project, targets@, false),
{
    find_runnable(project, targets, false)
}

/// The first target built for testing that a scheme can launch.
pub fn first_testing_runnable_scheme_target(project: &Project, targets: &Vec<SchemeBuildTarget>) -> (r: Option<String>)
    ensures
        opt_string(r) == first_runnable(project, targets@, true),
{
    find_runnable(project, targets, true)
}

/// The first of two optional names that is there.
pub open spec fn or_else(a: Option<Seq<char>>, b: Option<Seq<char>>) -> Option<Seq<char>> {
    match a {
        Some(x) => Some(x),
        None => b,
    }
}

fn or_else_string(a: Option<String>, b: Option<String>) -> (r: Option<String>)
    ensures
        opt_string(r) == or_else(opt_string(a), opt_string(b)),
{
    match a {
        Some(x) => Some(x),
        None => b,
    }
}

fn opt_clone(a: &Option<String>) -> (r: Option<String>)
    ensures
        opt_string(r) == opt_string(*a),
{
    match a {
        Some(x) => Some(x.clone()),
        None => None,
    }
}

/// The first target a scheme builds.
pub open spec fn primary_target(s: Scheme) -> Option<Seq<char>> {
    if s.build.targets@.len() > 0 { Some(s.build.targets@[0].target@) } else { None }
}

/// The target whose macros a scheme's profile action expands with: the
/// first target it builds, when none of its targets can be launched.
pub open spec fn default_macro(project: &Project, s: Scheme) -> Option<Seq<char>> {
    if first_runnable(project, s.build.targets@, false) is None { primary_target(s) } else { None }
}

/// The target whose macros a scheme's launch action expands with.
pub open spec fn run_macro(project: &Project, s: Scheme) -> Option<Seq<char>> {
    or_else(
        match s.run {
            Some(r) => opt_string(r.macro_expansion),
            None => None,
        },
        default_macro(project, s),
    )
}

/// The target whose macros a scheme's test action expands with.
pub open spec fn test_macro(project: &Project, s: Scheme) -> Option<Seq<char>> {
    or_else(
        match s.test {
            Some(t) => opt_string(t.macro_expansion),
            None => None,
        },
        or_else(first_runnable(project, s.build.targets@, true), or_else(run_macro(project, s), primary_target(s))),
    )
}

/// The context of a scheme's test action.
pub open spec fn test_context(project: &Project, s: Scheme) -> ActionView {
    ActionView {
        runnable: first_runnable(project, s.build.targets@, false),
        macro_expansion: test_macro(project, s),
        emit_empty_arguments: s.test is Some,
        default_config: default_config_spec(project.configs@, "debug"@),
    }
}

/// The context of a scheme's launch action.
pub open spec fn run_context(project: &Project, s: Scheme) -> ActionView {
    ActionView {
        runnable: first_runnable(project, s.build.targets@, false),
        macro_expansion: run_macro(project, s),
        emit_empty_arguments: s.run is Some,
        default_config: default_config_spec(project.configs@, "debug"@),
    }
}

/// The context of a scheme's profile action.
pub open spec fn profile_context(project: &Project, s: Scheme) -> ActionView {
    ActionView {
        runnable: first_runnable(project, s.build.targets@, false),
        macro_expansion: default_macro(project, s),
        emit_empty_arguments: s.profile is Some,
        default_config: default_config_spec(project.configs@, "release"@),
    }
}

/// Test settings a scheme that gives none is written with.
pub open spec fn test_is_default(t: TestView) -> bool {
    &&& t.config is None
    &&& !t.gather_coverage_data
    &&& t.debug_enabled
    &&& !t.disable_main_thread_checker
    &&& !t.stop_on_every_main_thread_checker_issue
    &&& t.custom_lldb_init is None
    &&& t.pre_actions.len() == 0
    &&& t.post_actions.len() == 0
    &&& t.macro_expansion is None
    &&& t.targets.len() == 0
    &&& t.coverage_targets.len() == 0
    &&& t.test_plans.len() == 0
    &&& t.environment_variables.len() == 0
    &&& t.command_line_arguments.len() == 0
    &&& t.capture_screenshots_automatically is None
    &&& t.delete_screenshots_when_each_test_succeeds is None
    &&& t.preferred_screen_capture_format is None
}

/// Launch settings a scheme that gives none is written with.
pub open spec fn run_is_default(r: RunView) -> bool {
    &&& r.config is None
    &&& r.debug_enabled
    &&& r.launch_automatically_substyle is None
    &&& !r.ask_for_app_to_launch
    &&& r.custom_lldb_init is None
    &&& r.custom_working_directory is None
    &&& r.enable_gpu_frame_capture_mode is None
    &&& r.store_kit_configuration is None
    &&& r.macro_expansion is None
    &&& r.default_location is None
    &&& !r.disable_main_thread_checker
    &&& !r.stop_on_every_main_thread_checker_issue
    &&& !r.disable_thread_performance_checker
    &&& r.command_line_arguments.len() == 0
    &&& r.language is None
    &&& r.region is None
    &&& r.environment_variables.len() == 0
}

/// Profile settings a scheme that gives none is written with.
pub open spec fn profile_is_default(p: ProfileView) -> bool {
    p.config is None && p.environment_variables.len() == 0 && !p.ask_for_app_to_launch
}

/// The test action of a scheme that gives no test settings.
pub open spec fn default_test_text(project: &Project, cx: ActionView, id_map: Seq<(Seq<char>, Seq<char>)>) -> Seq<char> {
    multiline_start_text(
        1,
        "TestAction"@,
        seq![("buildConfiguration"@, xml_escape_spec(cx.default_config))] + debugger_attrs(true) + seq![
            ("shouldUseLaunchSchemeArgsEnv"@, "YES"@),
            ("onlyGenerateCoverageForSpecifiedTargets"@, "NO"@),
        ],
    ) + macro_expansion_text(project, cx.macro_expansion, id_map, 2) + indent_text(2) + "<Testables>\n"@ + end_tag_text(
        2,
        "Testables"@,
    ) + end_tag_text(1, "TestAction"@)
}

/// The launch action of a scheme that gives no launch settings.
pub open spec fn default_launch_text(project: &Project, cx: ActionView, id_map: Seq<(Seq<char>, Seq<char>)>) -> Seq<char> {
    multiline_start_text(
        1,
        "LaunchAction"@,
        seq![("buildConfiguration"@, xml_escape_spec(cx.default_config))] + debugger_attrs(true) + seq![
            ("launchStyle"@, "0"@),
            ("useCustomWorkingDirectory"@, "NO"@),
        ] + launch_fixed_attrs(),
    ) + runnable_text(project, cx.runnable, id_map, 1) + macro_expansion_text(project, cx.macro_expansion, id_map, 2)
        + end_tag_text(1, "LaunchAction"@)
}

/// The profile action of a scheme that gives no profile settings.
pub open spec fn default_profile_text(project: &Project, cx: ActionView, id_map: Seq<(Seq<char>, Seq<char>)>) -> Seq<char> {
    multiline_start_text(
        1,
        "ProfileAction"@,
        seq![
            ("buildConfiguration"@, xml_escape_spec(cx.default_config)),
            ("shouldUseLaunchSchemeArgsEnv"@, "YES"@),
            ("savedToolIdentifier"@, ""@),
            ("useCustomWorkingDirectory"@, "NO"@),
            ("debugDocumentVersioning"@, "YES"@),
        ],
    ) + profile_runnable_text(project, cx.runnable, id_map, 1) + macro_expansion_text(project, cx.macro_expansion, id_map, 2)
        + end_tag_text(1, "ProfileAction"@)
}

proof fn lemma_default_test(project: &Project, t: TestView, cx: ActionView, id_map: Seq<(Seq<char>, Seq<char>)>)
    requires
        test_is_default(t),
        !cx.emit_empty_arguments,
    ensures
        test_action_text(project, t, cx, id_map, 1) == default_test_text(project, cx, id_map),
{
    assert(test_attrs(t, cx.default_config) =~= seq![("buildConfiguration"@, xml_escape_spec(cx.default_config))]
        + debugger_attrs(true) + seq![
        ("shouldUseLaunchSchemeArgsEnv"@, "YES"@),
        ("onlyGenerateCoverageForSpecifiedTargets"@, "NO"@),
    ]);
    assert(testables_block(project, t.targets, id_map, 1) =~= indent_text(2) + "<Testables>\n"@ + end_tag_text(2, "Testables"@));
    assert(test_action_text(project, t, cx, id_map, 1) =~= default_test_text(project, cx, id_map));
}

proof fn lemma_default_run(project: &Project, r: RunView, cx: ActionView, id_map: Seq<(Seq<char>, Seq<char>)>)
    requires
        run_is_default(r),
        !cx.emit_empty_arguments,
    ensures
        launch_action_text(project, r, cx, id_map, 1) == default_launch_text(project, cx, id_map),
{
    assert(launch_attrs(r, cx.default_config) =~= seq![("buildConfiguration"@, xml_escape_spec(cx.default_config))]
        + debugger_attrs(true) + seq![("launchStyle"@, "0"@), ("useCustomWorkingDirectory"@, "NO"@)]
        + launch_fixed_attrs());
    assert(launch_action_text(project, r, cx, id_map, 1) =~= default_launch_text(project, cx, id_map));
}

proof fn lemma_default_profile(project: &Project, p: ProfileView, cx: ActionView, id_map: Seq<(Seq<char>, Seq<char>)>)
    requires
        profile_is_default(p),
        !cx.emit_empty_arguments,
    ensures
        profile_action_text(project, p, cx, id_map, 1) == default_profile_text(project, cx, id_map),
{
    assert(profile_attrs(p, cx.default_config) =~= seq![
        ("buildConfiguration"@, xml_escape_spec(cx.default_config)),
        ("shouldUseLaunchSchemeArgsEnv"@, "YES"@),
        ("savedToolIdentifier"@, ""@),
        ("useCustomWorkingDirectory"@, "NO"@),
        ("debugDocumentVersioning"@, "YES"@),
    ]);
    assert(profile_action_text(project, p, cx, id_map, 1) =~= default_profile_text(project, cx, id_map));
}

fn default_scheme_test() -> (r: SchemeTest)
    ensures
        test_is_default(r@),
{
    SchemeTest {
        config: None,
        gather_coverage_data: false,
        debug_enabled: true,
        disable_main_thread_checker: false,
        stop_on_every_main_thread_checker_issue: false,
        custom_lldb_init: None,
        pre_actions: Vec::new(),
        post_actions: Vec::new(),
        macro_expansion: None,
        targets: Vec::new(),
        coverage_targets: Vec::new(),
        test_plans: Vec::new(),
        environment_variables: Vec::new(),
        command_line_arguments: Vec::new(),
        capture_screenshots_automatically: None,
        delete_screenshots_when_each_test_succeeds: None,
        preferred_screen_capture_format: None,
    }
}

fn default_scheme_run() -> (r: SchemeRun)
    ensures
        run_is_default(r@),
{
    SchemeRun {
        config: None,
        debug_enabled: true,
        launch_automatically_substyle: None,
        ask_for_app_to_launch: false,
        custom_lldb_init: None,
        custom_working_directory: None,
        enable_gpu_frame_capture_mode: None,
        store_kit_configuration: None,
        macro_expansion: None,
        default_location: None,
        disable_main_thread_checker: false,
        stop_on_every_main_thread_checker_issue: false,
        disable_thread_performance_checker: false,
        command_line_arguments: Vec::new(),
        language: None,
        region: None,
        environment_variables: Vec::new(),
    }
}

fn default_scheme_profile() -> (r: SchemeProfile)
    ensures
        profile_is_default(r@),
{
    SchemeProfile { config: None, environment_variables: Vec::new(), ask_for_app_to_launch: false }
}

/// A scheme's test action: its own settings, else the defaults.
pub open spec fn scheme_test_text(project: &Project, s: Scheme, id_map: Seq<(Seq<char>, Seq<char>)>) -> Seq<char> {
    match s.test {
        Some(t) => test_action_text(project, t@, test_context(project, s), id_map, 1),
        None => default_test_text(project, test_context(project, s), id_map),
    }
}

/// A scheme's launch action: its own settings, else the defaults.
pub open spec fn scheme_launch_text(project: &Project, s: Scheme, id_map: Seq<(Seq<char>, Seq<char>)>) -> Seq<char> {
    match s.run {
        Some(r) => launch_action_text(project, r@, run_context(project, s), id_map, 1),
        None => default_launch_text(project, run_context(project, s), id_map),
    }
}

/// A scheme's profile action: its own settings, else the defaults.
pub open spec fn scheme_profile_text(project: &Project, s: Scheme, id_map: Seq<(Seq<char>, Seq<char>)>) -> Seq<char> {
    match s.profile {
        Some(p) => profile_action_text(project, p@, profile_context(project, s), id_map, 1),
        None => default_profile_text(project, profile_context(project, s), id_map),
    }
}

/// An action holding only its configuration.
pub open spec fn simple_action_text(element: Seq<char>, config: Seq<char>) -> Seq<char> {
    multiline_start_text(1, element, simple_action_attrs(element, "buildConfiguration"@, config)) + end_tag_text(1, element)
}

/// The configuration an action uses: its own, else the given default.
pub open spec fn config_or_default(config: Option<String>, default: Seq<char>) -> Seq<char> {
    match config {
        Some(c) => c@,
        None => default,
    }
}

/// Whether the first target a scheme builds is an extension.
pub open spec fn created_for_extension(project: &Project, primary: Option<Seq<char>>) -> bool {
    match primary {
        Some(n) => match target_named(project, n) {
            Some(t) => scheme_target_is_app_extension_spec(t.target_type),
            None => false,
        },
        None => false,
    }
}

/// The attributes of a scheme file's root element.
pub open spec fn scheme_root_attrs(project: &Project, for_extension: bool) -> Seq<(Seq<char>, Seq<char>)> {
    seq![("LastUpgradeVersion"@, xml_escape_spec(last_upgrade_version_spec(project)))] + attr_if(
        for_extension,
        "wasCreatedForAppExtension"@,
        "YES"@,
    ) + seq![("version"@, "1.7"@)]
}

/// The start of a scheme file.
pub open spec fn scheme_head_text(project: &Project, for_extension: bool) -> Seq<char> {
    "<?xml version=\"1.0\" encoding=\"UTF-8\"?>\n"@ + multiline_start_text(0, "Scheme"@, scheme_root_attrs(project, for_extension))
}

/// The file of a scheme the specification declares.
#[verifier::opaque]
pub open spec fn scheme_xml_spec(project: &Project, s: Scheme, id_map: Seq<(Seq<char>, Seq<char>)>) -> Seq<char> {
    scheme_head_text(project, created_for_extension(project, primary_target(s))) + build_action_text(project, s.build@, id_map, 1)
        + scheme_test_text(project, s, id_map) + scheme_launch_text(project, s, id_map) + scheme_profile_text(project, s, id_map)
        + simple_action_text(
        "AnalyzeAction"@,
        config_or_default(s.analyze_config, default_config_spec(project.configs@, "debug"@)),
    ) + simple_action_text(
        "ArchiveAction"@,
        config_or_default(s.archive_config, default_config_spec(project.configs@, "release"@)),
    ) + "</Scheme>\n"@
}

/// Appends the start of a scheme file.
pub fn write_scheme_head(output: &mut String, project: &Project, for_extension: bool)
    ensures
        final(output)@ == old(output)@ + scheme_head_text(project, for_extension),
{
    push_str(output, "<?xml version=\"1.0\" encoding=\"UTF-8\"?>\n");
    let mut attrs: Vec<(String, String)> = Vec::new();
    let version = last_upgrade_version(project);
    attrs.push((string_from("LastUpgradeVersion"), xml_escape(version.as_str())));
    if for_extension {
        attrs.push((string_from("wasCreatedForAppExtension"), string_from("YES")));
    }
    attrs.push((string_from("version"), string_from("1.7")));
    proof {
        assert(entries_view(attrs@) =~= scheme_root_attrs(project, for_extension));
    }
    write_multiline_start(output, 0, "Scheme", &attrs);
}

fn primary_of(s: &Scheme) -> (r: Option<String>)
    ensures
        opt_string(r) == primary_target(*s),
{
    if s.build.targets.len() > 0 {
        Some(s.build.targets[0].target.clone())
    } else {
        None
    }
}

fn is_created_for_extension(project: &Project, primary: &Option<String>) -> (r: bool)
    ensures
        r == created_for_extension(project, opt_string(*primary)),
{
    match primary {
        Some(n) => match target_position(project, n.as_str()) {
            Some(k) => scheme_target_is_app_extension(&project.targets[k].target_type),
            None => false,
        },
        None => false,
    }
}

fn scheme_test_macro(project: &Project, s: &Scheme, run_macro: &Option<String>, primary: &Option<String>) -> (r: Option<String>)
    requires
        opt_string(*run_macro) == crate::scheme_files::run_macro(project, *s),
        opt_string(*primary) == primary_target(*s),
    ensures
        opt_string(r) == test_macro(project, *s),
{
    let own = match &s.test {
        Some(t) => opt_clone(&t.macro_expansion),
        None => None,
    };
    let testing = first_testing_runnable_scheme_target(project, &s.build.targets);
    or_else_string(own, or_else_string(testing, or_else_string(opt_clone(run_macro), opt_clone(primary))))
}

/// The contexts of a scheme's test, launch and profile actions.
fn scheme_contexts(project: &Project, s: &Scheme) -> (r: (ActionContext, ActionContext, ActionContext))
    ensures
        r.0@ == test_context(project, *s),
        r.1@ == run_context(project, *s),
        r.2@ == profile_context(project, *s),
{
    let debug = default_config_for(project, "debug");
    let release = default_config_for(project, "release");
    let runnable = first_runnable_scheme_target(project, &s.build.targets);
    let primary = primary_of(s);
    let default_macro = if runnable.is_none() { opt_clone(&primary) } else { None };
    let own_run = match &s.run {
        Some(r) => opt_clone(&r.macro_expansion),
        None => None,
    };
    let run_macro = or_else_string(own_run, opt_clone(&default_macro));
    let test_macro = scheme_test_macro(project, s, &run_macro, &primary);
    let test_cx = ActionContext {
        runnable: opt_clone(&runnable),
        macro_expansion: test_macro,
        emit_empty_arguments: s.test.is_some(),
        default_config: debug.clone(),
    };
    let run_cx = ActionContext {
        runnable: opt_clone(&runnable),
        macro_expansion: run_macro,
        emit_empty_arguments: s.run.is_some(),
        default_config: debug,
    };
    let profile_cx = ActionContext {
        runnable,
        macro_expansion: default_macro,
        emit_empty_arguments: s.profile.is_some(),
        default_config: release,
    };
    (test_cx, run_cx, profile_cx)
}

fn write_scheme_test(output: &mut String, project: &Project, s: &Scheme, cx: &ActionContext,
    object_id_map: &Vec<(String, String)>)
    requires
        keys_sorted(entries_view(object_id_map@)),
        cx@ == test_context(project, *s),
    ensures
        final(output)@ == old(output)@ + scheme_test_text(project, *s, entries_view(object_id_map@)),
{
    match &s.test {
        Some(t) => write_test_action(output, project, t, cx, object_id_map, 1),
        None => {
            let t = default_scheme_test();
            proof {
                lemma_default_test(project, t@, cx@, entries_view(object_id_map@));
            }
            write_test_action(output, project, &t, cx, object_id_map, 1);
        },
    }
}

fn write_scheme_launch(output: &mut String, project: &Project, s: &Scheme, cx: &ActionContext,
    object_id_map: &Vec<(String, String)>)
    requires
        keys_sorted(entries_view(object_id_map@)),
        cx@ == run_context(project, *s),
    ensures
        final(output)@ == old(output)@ + scheme_launch_text(project, *s, entries_view(object_id_map@)),
{
    match &s.run {
        Some(r) => write_launch_action(output, project, r, cx, object_id_map, 1),
        None => {
            let r = default_scheme_run();
            proof {
                lemma_default_run(project, r@, cx@, entries_view(object_id_map@));
            }
            write_launch_action(output, project, &r, cx, object_id_map, 1);
        },
    }
}

fn write_scheme_profile(output: &mut String, project: &Project, s: &Scheme, cx: &ActionContext,
    object_id_map: &Vec<(String, String)>)
    requires
        keys_sorted(entries_view(object_id_map@)),
        cx@ == profile_context(project, *s),
    ensures
        final(output)@ == old(output)@ + scheme_profile_text(project, *s, entries_view(object_id_map@)),
{
    match &s.profile {
        Some(p) => write_profile_action(output, project, p, cx, object_id_map, 1),
        None => {
            let p = default_scheme_profile();
            proof {
                lemma_default_profile(project, p@, cx@, entries_view(object_id_map@));
            }
            write_profile_action(output, project, &p, cx, object_id_map, 1);
        },
    }
}

fn config_or_string(config: &Option<String>, default: String) -> (r: String)
    ensures
        r@ == config_or_default(*config, default@),
{
    match config {
        Some(c) => c.clone(),
        None => default,
    }
}

/// The file of a scheme the specification declares: its build action, then
/// its test, launch, profile, analyze and archive actions, each with its
/// own settings or the defaults, the launched product being the first
/// target it builds that can be launched.
#[verifier::spinoff_prover]
#[verifier::rlimit(40)]
pub fn scheme_xml(project: &Project, scheme: &Scheme, object_id_map: &Vec<(String, String)>) -> (r: String)
    requires
        keys_sorted(entries_view(object_id_map@)),
    ensures
        r@ == scheme_xml_spec(project, *scheme, entries_view(object_id_map@)),
{
    let ghost m = entries_view(object_id_map@);
    let (test_cx, run_cx, profile_cx) = scheme_contexts(project, scheme);
    let primary = primary_of(scheme);
    let mut output = String::new();
    write_scheme_head(&mut output, project, is_created_for_extension(project, &primary));
    write_build_action(&mut output, project, &scheme.build, object_id_map, 1);
    let ghost a = output@;
    write_scheme_test(&mut output, project, scheme, &test_cx, object_id_map);
    write_scheme_launch(&mut output, project, scheme, &run_cx, object_id_map);
    write_scheme_profile(&mut output, project, scheme, &profile_cx, object_id_map);
    let ghost b = output@;
    let analyze = config_or_string(&scheme.analyze_config, default_config_for(project, "debug"));
    write_simple_action(&mut output, "AnalyzeAction", "buildConfiguration", analyze.as_str(), 1);
    let archive = config_or_string(&scheme.archive_config, default_config_for(project, "release"));
    write_simple_action(&mut output, "ArchiveAction", "buildConfiguration", archive.as_str(), 1);
    push_str(&mut output, "</Scheme>\n");
    proof {
        reveal(scheme_xml_spec);
        assert(output@ =~= scheme_xml_spec(project, *scheme, m));
    }
    output
}

/// What the scheme management file records of a scheme.
pub open spec fn state_view(s: SchemeManagementState) -> (Seq<char>, bool, Option<bool>, Option<i64>) {
    (s.name@, s.shared, s.is_shown, s.order_hint)
}

/// What the scheme management file records of each of its schemes.
pub open spec fn states_view(states: Seq<SchemeManagementState>) -> Seq<(Seq<char>, bool, Option<bool>, Option<i64>)> {
    states.map_values(|s: SchemeManagementState| state_view(s))
}

/// The declared schemes that set whether they are shown or where they are
/// ordered.
pub open spec fn declared_states(schemes: Seq<Scheme>) -> Seq<(Seq<char>, bool, Option<bool>, Option<i64>)>
    decreases schemes.len(),
{
    if schemes.len() == 0 {
        Seq::empty()
    } else {
        let s = schemes.last();
        declared_states(schemes.drop_last()) + if s.management.is_shown is Some || s.management.order_hint is Some {
            seq![(s.name@, s.management.shared, s.management.is_shown, s.management.order_hint)]
        } else {
            Seq::empty()
        }
    }
}

/// The schemes generated for a target with management settings: one
/// named after the target, or one per configuration variant.
pub open spec fn variant_states(name: Seq<char>, variants: Seq<String>, m: SchemeManagement) -> Seq<(Seq<char>, bool, Option<bool>, Option<i64>)> {
    if variants.len() == 0 {
        seq![(name, m.shared, m.is_shown, m.order_hint)]
    } else {
        Seq::new(variants.len(), |i: int| (name + " "@ + variants[i]@, m.shared, m.is_shown, m.order_hint))
    }
}

/// The target schemes that have management settings.
pub open spec fn target_states(targets: Seq<Target>) -> Seq<(Seq<char>, bool, Option<bool>, Option<i64>)>
    decreases targets.len(),
{
    if targets.len() == 0 {
        Seq::empty()
    } else {
        let t = targets.last();
        target_states(targets.drop_last()) + match t.target_scheme {
            Some(ts) => match ts.management {
                Some(m) => variant_states(t.name@, ts.config_variants@, m),
                None => Seq::empty(),
            },
            None => Seq::empty(),
        }
    }
}

fn push_variant_states(states: &mut Vec<SchemeManagementState>, name: &String, variants: &Vec<String>, m: &SchemeManagement)
    ensures
        states_view(final(states)@) == states_view(old(states)@) + variant_states(name@, variants@, *m),
{
    let ghost b = states_view(states@);
    if variants.len() == 0 {
        states.push(SchemeManagementState { name: name.clone(), shared: m.shared, is_shown: m.is_shown, order_hint: m.order_hint });
        proof {
            assert(states_view(states@) =~= b + variant_states(name@, variants@, *m));
        }
        return;
    }
    let mut j: usize = 0;
    while j < variants.len()
        invariant
            j <= variants@.len(),
            variants@.len() > 0,
            states_view(states@) == b + variant_states(name@, variants@, *m).take(j as int),
        decreases variants.len() - j,
    {
        let full = crate::text::concat3(name.as_str(), " ", variants[j].as_str());
        let ghost before = states@;
        let st = SchemeManagementState { name: full, shared: m.shared, is_shown: m.is_shown, order_hint: m.order_hint };
        states.push(st);
        proof {
            let vs = variant_states(name@, variants@, *m);
            assert(states_view(states@) =~= states_view(before).push(state_view(st)));
            assert(vs[j as int] == state_view(st));
            assert(vs.take(j + 1) =~= vs.take(j as int).push(vs[j as int]));
            assert(states_view(states@) =~= b + vs.take(j + 1));
        }
        j = j + 1;
    }
    proof {
        assert(variant_states(name@, variants@, *m).take(variants@.len() as int) =~= variant_states(name@, variants@, *m));
    }
}

/// The schemes whose management the user's scheme management file records:
/// the declared schemes that set whether they are shown or where they are
/// ordered, then the schemes generated for targets with management
/// settings, in order.
pub fn scheme_management_states(project: &Project) -> (r: Vec<SchemeManagementState>)
    ensures
        states_view(r@) == declared_states(project.schemes@) + target_states(project.targets@),
{
    let mut states: Vec<SchemeManagementState> = Vec::new();
    let mut i: usize = 0;
    while i < project.schemes.len()
        invariant
            i <= project.schemes@.len(),
            states_view(states@) == declared_states(project.schemes@.take(i as int)),
        decreases project.schemes.len() - i,
    {
        let s = &project.schemes[i];
        let ghost b = states_view(states@);
        if s.management.is_shown.is_some() || s.management.order_hint.is_some() {
            states.push(SchemeManagementState {
                name: s.name.clone(),
                shared: s.management.shared,
                is_shown: s.management.is_shown,
                order_hint: s.management.order_hint,
            });
        }
        proof {
            assert(project.schemes@.take(i + 1).drop_last() =~= project.schemes@.take(i as int));
            assert(states_view(states@) =~= declared_states(project.schemes@.take(i + 1)));
        }
        i = i + 1;
    }
    proof {
        assert(project.schemes@.take(i as int) =~= project.schemes@);
    }
    let ghost d = states_view(states@);
    let mut k: usize = 0;
    while k < project.targets.len()
        invariant
            k <= project.targets@.len(),
            d == declared_states(project.schemes@),
            states_view(states@) == d + target_states(project.targets@.take(k as int)),
        decreases project.targets.len() - k,
    {
        let t = &project.targets[k];
        let ghost b = states_view(states@);
        if let Some(ts) = &t.target_scheme {
            if let Some(m) = &ts.management {
                push_variant_states(&mut states, &t.name, &ts.config_variants, m);
            }
        }
        proof {
            assert(project.targets@.take(k + 1).drop_last() =~= project.targets@.take(k as int));
            assert(states_view(states@) =~= d + target_states(project.targets@.take(k + 1)));
        }
        k = k + 1;
    }
    proof {
        assert(project.targets@.take(k as int) =~= project.targets@);
    }
    states
}

} // verus!
