//! Scheme files: the build, test, launch, profile, analyze and archive
//! actions of a scheme, with references to the targets they build.
use vstd::prelude::*;
use crate::graph::{mapped, mapped_id, object_id, object_id_spec};
use crate::model::{Project, Target};
use crate::scheme::{BuildType, EnvironmentVariable, build_entry_attrs, write_build_action_entry_start};
use crate::smap::{entries_view, keys_sorted};
use crate::text::{concat2, concat3, push_str, str_eq, string_from, ends_with_seq, ends_with_str};
use crate::paths::{seg_start, last_segment};
use crate::products::{is_watch_app_product, is_watch_app_product_spec};
use crate::configs::{scheme_prefixed, scheme_prefixed_path};
use crate::xml::{xml_escape, xml_escape_spec, push_xml_escaped, indent_text, write_indent, multiline_start_text,
    write_multiline_start, end_tag_text, write_end_tag};

verus! {

/// A script a scheme action runs before or after it.
pub struct SchemeAction {
    pub name: String,
    pub script: String,
    pub settings_target: Option<String>,
}

/// A target of a scheme's build action and the actions it is built for.
pub struct SchemeBuildTarget {
    pub target: String,
    pub build_types: Vec<BuildType>,
}

/// A scheme's build action.
pub struct SchemeBuild {
    pub targets: Vec<SchemeBuildTarget>,
    pub parallelize_build: bool,
    pub build_implicit_dependencies: bool,
    pub run_post_actions_on_failure: bool,
    pub pre_actions: Vec<SchemeAction>,
    pub post_actions: Vec<SchemeAction>,
}

/// A build action target as a name and the actions it is built for.
pub open spec fn build_target_view(t: SchemeBuildTarget) -> (Seq<char>, Seq<BuildType>) {
    (t.target@, t.build_types@)
}

/// The view of a build action.
pub struct BuildView {
    pub targets: Seq<(Seq<char>, Seq<BuildType>)>,
    pub parallelize_build: bool,
    pub build_implicit_dependencies: bool,
    pub run_post_actions_on_failure: bool,
    pub pre_actions: Seq<SchemeAction>,
    pub post_actions: Seq<SchemeAction>,
}

impl View for SchemeBuild {
    type V = BuildView;

    open spec fn view(&self) -> BuildView {
        BuildView {
            targets: self.targets@.map_values(|t: SchemeBuildTarget| build_target_view(t)),
            parallelize_build: self.parallelize_build,
            build_implicit_dependencies: self.build_implicit_dependencies,
            run_post_actions_on_failure: self.run_post_actions_on_failure,
            pre_actions: self.pre_actions@,
            post_actions: self.post_actions@,
        }
    }
}

/// The position of the first target with a name, or -1.
pub open spec fn target_index(targets: Seq<Target>, name: Seq<char>, n: int) -> int
    decreases n,
{
    if n <= 0 || n > targets.len() {
        -1
    } else {
        let p = target_index(targets, name, n - 1);
        if p >= 0 {
            p
        } else if targets[n - 1].name@ == name {
            n - 1
        } else {
            -1
        }
    }
}

/// The target of a project with a name.
pub open spec fn target_named(project: &Project, name: Seq<char>) -> Option<Target> {
    let p = target_index(project.targets@, name, project.targets@.len() as int);
    if p >= 0 { Some(project.targets@[p]) } else { None }
}

proof fn lemma_target_index(targets: Seq<Target>, name: Seq<char>, n: int, m: int)
    requires
        0 <= n <= m <= targets.len(),
        target_index(targets, name, n) >= 0,
    ensures
        target_index(targets, name, m) == target_index(targets, name, n),
    decreases m - n,
{
    if m > n {
        lemma_target_index(targets, name, n, m - 1);
    }
}

proof fn lemma_target_index_bound(targets: Seq<Target>, name: Seq<char>, n: int)
    requires
        0 <= n <= targets.len(),
    ensures
        -1 <= target_index(targets, name, n) < n,
    decreases n,
{
    if n > 0 {
        lemma_target_index_bound(targets, name, n - 1);
    }
}

/// The position of the target with a name.
#[verifier::spinoff_prover]
#[verifier::rlimit(60)]
pub fn target_position(project: &Project, name: &str) -> (r: Option<usize>)
    ensures
        match r {
            Some(i) => i < project.targets@.len() && target_named(project, name@) == Some(project.targets@[i as int]),
            None => target_named(project, name@) is None,
        },
{
    let mut i: usize = 0;
    while i < project.targets.len()
        invariant
            i <= project.targets@.len(),
            target_index(project.targets@, name@, i as int) == -1,
        decreases project.targets.len() - i,
    {
        if str_eq(project.targets[i].name.as_str(), name) {
            proof {
                assert(target_index(project.targets@, name@, i + 1) == i);
                lemma_target_index(project.targets@, name@, i + 1, project.targets@.len() as int);
            }
            return Some(i);
        }
        i = i + 1;
    }
    None
}

/// The attributes of a reference to a target's product.
pub open spec fn buildable_attrs(project: &Project, t: Target, id_map: Seq<(Seq<char>, Seq<char>)>) -> Seq<(Seq<char>, Seq<char>)> {
    seq![
        ("BuildableIdentifier"@, "primary"@),
        ("BlueprintIdentifier"@, mapped(object_id_spec("nativeTarget:"@ + t.name@, 0), id_map)),
        ("BuildableName"@, xml_escape_spec(t.product_filename@)),
        ("BlueprintName"@, xml_escape_spec(t.name@)),
        ("ReferencedContainer"@, "container:"@ + xml_escape_spec(project.name@) + ".xcodeproj"@),
    ]
}

/// A reference to a target's product.
pub open spec fn buildable_reference_text(project: &Project, t: Target, id_map: Seq<(Seq<char>, Seq<char>)>, indent: nat) -> Seq<char> {
    multiline_start_text(indent, "BuildableReference"@, buildable_attrs(project, t, id_map)) + end_tag_text(
        indent,
        "BuildableReference"@,
    )
}

/// Appends a reference to a target's product, under the identifier the
/// target was written with.
#[verifier::spinoff_prover]
#[verifier::rlimit(60)]
pub fn write_buildable_reference(output: &mut String, project: &Project, target: &Target,
    object_id_map: &Vec<(String, String)>, indent: usize)
    requires
        keys_sorted(entries_view(object_id_map@)),
        indent < usize::MAX,
    ensures
        final(output)@ == old(output)@ + buildable_reference_text(project, *target, entries_view(object_id_map@), indent as nat),
{
    let key = concat2("nativeTarget:", target.name.as_str());
    let raw_id = object_id(key.as_str(), 0);
    let mut attrs: Vec<(String, String)> = Vec::new();
    attrs.push((string_from("BuildableIdentifier"), string_from("primary")));
    attrs.push((string_from("BlueprintIdentifier"), mapped_id(raw_id.as_str(), object_id_map)));
    attrs.push((string_from("BuildableName"), xml_escape(target.product_filename.as_str())));
    attrs.push((string_from("BlueprintName"), xml_escape(target.name.as_str())));
    let name = xml_escape(project.name.as_str());
    attrs.push((string_from("ReferencedContainer"), concat3("container:", name.as_str(), ".xcodeproj")));
    proof {
        assert(entries_view(attrs@) =~= buildable_attrs(project, *target, entries_view(object_id_map@)));
    }
    write_multiline_start(output, indent, "BuildableReference", &attrs);
    write_end_tag(output, indent, "BuildableReference");
}

/// The macro expansion of an action: a reference to the named target's
/// product, when the project has that target.
pub open spec fn macro_expansion_text(project: &Project, target_name: Option<Seq<char>>,
    id_map: Seq<(Seq<char>, Seq<char>)>, indent: nat) -> Seq<char> {
    match target_name {
        Some(n) => match target_named(project, n) {
            Some(t) => indent_text(indent) + "<MacroExpansion>\n"@ + buildable_reference_text(project, t, id_map, indent + 1)
                + end_tag_text(indent, "MacroExpansion"@),
            None => Seq::empty(),
        },
        None => Seq::empty(),
    }
}

/// The view of an optional name.
pub open spec fn opt_name(o: Option<&str>) -> Option<Seq<char>> {
    match o {
        Some(s) => Some(s@),
        None => None,
    }
}

/// Appends the macro expansion of an action.
#[verifier::spinoff_prover]
#[verifier::rlimit(60)]
pub fn write_macro_expansion(output: &mut String, project: &Project, target_name: Option<&str>,
    object_id_map: &Vec<(String, String)>, indent: usize)
    requires
        keys_sorted(entries_view(object_id_map@)),
        indent + 1 < usize::MAX,
    ensures
        final(output)@ == old(output)@ + macro_expansion_text(project, opt_name(target_name), entries_view(object_id_map@), indent as nat),
{
    let name = match target_name {
        Some(n) => n,
        None => return,
    };
    match target_position(project, name) {
        Some(i) => {
            write_indent(output, indent);
            push_str(output, "<MacroExpansion>\n");
            write_buildable_reference(output, project, &project.targets[i], object_id_map, indent + 1);
            write_end_tag(output, indent, "MacroExpansion");
        },
        None => {},
    }
}

/// The attributes of a script action's content.
pub open spec fn action_content_attrs(a: SchemeAction) -> Seq<(Seq<char>, Seq<char>)> {
    seq![("title"@, xml_escape_spec(a.name@)), ("scriptText"@, xml_escape_spec(a.script@))]
}

/// The environment a script action takes from a target, when it names one
/// of the project.
pub open spec fn environment_buildable_text(project: &Project, a: SchemeAction, id_map: Seq<(Seq<char>, Seq<char>)>, indent: nat) -> Seq<char> {
    match a.settings_target {
        Some(n) => match target_named(project, n@) {
            Some(t) => indent_text(indent + 3) + "<EnvironmentBuildable>\n"@ + buildable_reference_text(project, t, id_map, indent + 4)
                + end_tag_text(indent + 3, "EnvironmentBuildable"@),
            None => Seq::empty(),
        },
        None => Seq::empty(),
    }
}

/// The start of a script action inside its container.
pub open spec fn execution_action_head(container: Seq<char>, a: SchemeAction, indent: nat) -> Seq<char> {
    indent_text(indent) + "<"@ + container + ">\n"@ + multiline_start_text(
        indent + 1,
        "ExecutionAction"@,
        seq![("ActionType"@, "Xcode.IDEStandardExecutionActionsCore.ExecutionActionType.ShellScriptAction"@)],
    ) + multiline_start_text(indent + 2, "ActionContent"@, action_content_attrs(a))
}

/// The end of a script action inside its container.
pub open spec fn execution_action_tail(container: Seq<char>, indent: nat) -> Seq<char> {
    end_tag_text(indent + 2, "ActionContent"@) + end_tag_text(indent + 1, "ExecutionAction"@) + end_tag_text(indent, container)
}

/// A script action inside its container.
pub open spec fn execution_action_text(project: &Project, container: Seq<char>, a: SchemeAction,
    id_map: Seq<(Seq<char>, Seq<char>)>, indent: nat) -> Seq<char> {
    execution_action_head(container, a, indent) + environment_buildable_text(project, a, id_map, indent)
        + execution_action_tail(container, indent)
}

#[verifier::spinoff_prover]
#[verifier::rlimit(60)]
fn write_execution_action_head(output: &mut String, container: &str, action: &SchemeAction, indent: usize)
    requires
        indent + 5 < usize::MAX,
    ensures
        final(output)@ == old(output)@ + execution_action_head(container@, *action, indent as nat),
{
    let ghost s0 = output@;
    write_indent(output, indent);
    push_str(output, "<");
    output.append(container);
    push_str(output, ">\n");
    let mut kind: Vec<(String, String)> = Vec::new();
    kind.push((string_from("ActionType"), string_from("Xcode.IDEStandardExecutionActionsCore.ExecutionActionType.ShellScriptAction")));
    proof {
        assert(entries_view(kind@) =~= seq![("ActionType"@, "Xcode.IDEStandardExecutionActionsCore.ExecutionActionType.ShellScriptAction"@)]);
    }
    write_multiline_start(output, indent + 1, "ExecutionAction", &kind);
    let mut content: Vec<(String, String)> = Vec::new();
    content.push((string_from("title"), xml_escape(action.name.as_str())));
    content.push((string_from("scriptText"), xml_escape(action.script.as_str())));
    proof {
        assert(entries_view(content@) =~= action_content_attrs(*action));
    }
    write_multiline_start(output, indent + 2, "ActionContent", &content);
}

#[verifier::spinoff_prover]
#[verifier::rlimit(60)]
fn write_environment_buildable(output: &mut String, project: &Project, action: &SchemeAction,
    object_id_map: &Vec<(String, String)>, indent: usize)
    requires
        keys_sorted(entries_view(object_id_map@)),
        indent + 5 < usize::MAX,
    ensures
        final(output)@ == old(output)@ + environment_buildable_text(project, *action, entries_view(object_id_map@), indent as nat),
{
    if let Some(n) = &action.settings_target {
        if let Some(i) = target_position(project, n.as_str()) {
            write_indent(output, indent + 3);
            push_str(output, "<EnvironmentBuildable>\n");
            write_buildable_reference(output, project, &project.targets[i], object_id_map, indent + 4);
            write_end_tag(output, indent + 3, "EnvironmentBuildable");
        }
    }
}

/// Appends a script action inside its container.
#[verifier::spinoff_prover]
#[verifier::rlimit(40)]
pub fn write_execution_action(output: &mut String, project: &Project, container: &str, action: &SchemeAction,
    object_id_map: &Vec<(String, String)>, indent: usize)
    requires
        keys_sorted(entries_view(object_id_map@)),
        indent + 5 < usize::MAX,
    ensures
        final(output)@ == old(output)@ + execution_action_text(project, container@, *action, entries_view(object_id_map@), indent as nat),
{
    let ghost s0 = output@;
    write_execution_action_head(output, container, action, indent);
    write_environment_buildable(output, project, action, object_id_map, indent);
    let ghost s2 = output@;
    write_end_tag(output, indent + 2, "ActionContent");
    write_end_tag(output, indent + 1, "ExecutionAction");
    write_end_tag(output, indent, container);
    proof {
        assert(output@ =~= s2 + execution_action_tail(container@, indent as nat));
    }
}

/// The first `n` script actions inside their containers.
pub open spec fn execution_actions_text(project: &Project, container: Seq<char>, actions: Seq<SchemeAction>, n: int,
    id_map: Seq<(Seq<char>, Seq<char>)>, indent: nat) -> Seq<char>
    decreases n,
{
    if n <= 0 || n > actions.len() {
        Seq::empty()
    } else {
        execution_actions_text(project, container, actions, n - 1, id_map, indent) + execution_action_text(
            project,
            container,
            actions[n - 1],
            id_map,
            indent,
        )
    }
}

/// Appends script actions, each inside its own container.
#[verifier::spinoff_prover]
#[verifier::rlimit(30)]
pub fn write_execution_actions(output: &mut String, project: &Project, container: &str, actions: &Vec<SchemeAction>,
    object_id_map: &Vec<(String, String)>, indent: usize)
    requires
        keys_sorted(entries_view(object_id_map@)),
        indent + 5 < usize::MAX,
    ensures
        final(output)@ == old(output)@ + execution_actions_text(project, container@, actions@, actions@.len() as int,
            entries_view(object_id_map@), indent as nat),
{
    let ghost start = output@;
    let mut i: usize = 0;
    while i < actions.len()
        invariant
            keys_sorted(entries_view(object_id_map@)),
            indent + 5 < usize::MAX,
            i <= actions@.len(),
            output@ == start + execution_actions_text(project, container@, actions@, i as int, entries_view(object_id_map@), indent as nat),
        decreases actions.len() - i,
    {
        write_execution_action(output, project, container, &actions[i], object_id_map, indent);
        i = i + 1;
    }
}

/// One entry of a build action: the targets of the project it builds.
pub open spec fn build_entry_text(project: &Project, bt: (Seq<char>, Seq<BuildType>), id_map: Seq<(Seq<char>, Seq<char>)>, indent: nat) -> Seq<char> {
    match target_named(project, bt.0) {
        Some(t) => multiline_start_text(indent + 2, "BuildActionEntry"@, build_entry_attrs(bt.1))
            + buildable_reference_text(project, t, id_map, indent + 3) + end_tag_text(indent + 2, "BuildActionEntry"@),
        None => Seq::empty(),
    }
}

/// The first `n` build entries.
pub open spec fn build_entries_text(project: &Project, ts: Seq<(Seq<char>, Seq<BuildType>)>, n: int,
    id_map: Seq<(Seq<char>, Seq<char>)>, indent: nat) -> Seq<char>
    decreases n,
{
    if n <= 0 || n > ts.len() {
        Seq::empty()
    } else {
        build_entries_text(project, ts, n - 1, id_map, indent) + build_entry_text(project, ts[n - 1], id_map, indent)
    }
}

/// The attributes of a build action.
pub open spec fn build_action_attrs(b: BuildView) -> Seq<(Seq<char>, Seq<char>)> {
    seq![
        ("parallelizeBuildables"@, crate::xml::bool_xml_spec(b.parallelize_build)),
        ("buildImplicitDependencies"@, crate::xml::bool_xml_spec(b.build_implicit_dependencies)),
        ("runPostActionsOnFailure"@, crate::xml::bool_xml_spec(b.run_post_actions_on_failure)),
    ]
}

/// The entries of a build action.
pub open spec fn build_action_entries_text(project: &Project, b: BuildView, id_map: Seq<(Seq<char>, Seq<char>)>, indent: nat) -> Seq<char> {
    indent_text(indent + 1) + "<BuildActionEntries>\n"@ + build_entries_text(
        project,
        b.targets,
        b.targets.len() as int,
        id_map,
        indent,
    ) + end_tag_text(indent + 1, "BuildActionEntries"@)
}

/// A scheme's build action.
pub open spec fn build_action_text(project: &Project, b: BuildView, id_map: Seq<(Seq<char>, Seq<char>)>, indent: nat) -> Seq<char> {
    multiline_start_text(indent, "BuildAction"@, build_action_attrs(b)) + execution_actions_text(
        project,
        "PreActions"@,
        b.pre_actions,
        b.pre_actions.len() as int,
        id_map,
        indent + 1,
    ) + build_action_entries_text(project, b, id_map, indent) + execution_actions_text(
        project,
        "PostActions"@,
        b.post_actions,
        b.post_actions.len() as int,
        id_map,
        indent + 1,
    ) + end_tag_text(indent, "BuildAction"@)
}

/// Appends the entries of a build action.
#[verifier::spinoff_prover]
#[verifier::rlimit(60)]
fn write_build_action_entries(output: &mut String, project: &Project, build: &SchemeBuild,
    object_id_map: &Vec<(String, String)>, indent: usize)
    requires
        keys_sorted(entries_view(object_id_map@)),
        indent + 6 < usize::MAX,
    ensures
        final(output)@ == old(output)@ + build_action_entries_text(project, build@, entries_view(object_id_map@), indent as nat),
{
    let ghost s0 = output@;
    write_indent(output, indent + 1);
    push_str(output, "<BuildActionEntries>\n");
    let ghost start = output@;
    let mut i: usize = 0;
    while i < build.targets.len()
        invariant
            keys_sorted(entries_view(object_id_map@)),
            indent + 6 < usize::MAX,
            i <= build.targets@.len(),
            output@ == start + build_entries_text(project, build@.targets, i as int, entries_view(object_id_map@), indent as nat),
        decreases build.targets.len() - i,
    {
        let bt = &build.targets[i];
        let ghost before = output@;
        if let Some(ti) = target_position(project, bt.target.as_str()) {
            write_build_action_entry_start(output, indent + 2, &bt.build_types);
            write_buildable_reference(output, project, &project.targets[ti], object_id_map, indent + 3);
            write_end_tag(output, indent + 2, "BuildActionEntry");
        }
        proof {
            assert(output@ =~= before + build_entry_text(project, build@.targets[i as int], entries_view(object_id_map@), indent as nat));
        }
        i = i + 1;
    }
    write_end_tag(output, indent + 1, "BuildActionEntries");
}

/// Appends a scheme's build action.
#[verifier::spinoff_prover]
#[verifier::rlimit(80)]
pub fn write_build_action(output: &mut String, project: &Project, build: &SchemeBuild,
    object_id_map: &Vec<(String, String)>, indent: usize)
    requires
        keys_sorted(entries_view(object_id_map@)),
        indent + 6 < usize::MAX,
    ensures
        final(output)@ == old(output)@ + build_action_text(project, build@, entries_view(object_id_map@), indent as nat),
{
    let mut attrs: Vec<(String, String)> = Vec::new();
    attrs.push((string_from("parallelizeBuildables"), string_from(crate::xml::bool_xml(build.parallelize_build))));
    attrs.push((string_from("buildImplicitDependencies"), string_from(crate::xml::bool_xml(build.build_implicit_dependencies))));
    attrs.push((string_from("runPostActionsOnFailure"), string_from(crate::xml::bool_xml(build.run_post_actions_on_failure))));
    proof {
        assert(entries_view(attrs@) =~= build_action_attrs(build@));
    }
    write_multiline_start(output, indent, "BuildAction", &attrs);
    write_execution_actions(output, project, "PreActions", &build.pre_actions, object_id_map, indent + 1);
    write_build_action_entries(output, project, build, object_id_map, indent);
    write_execution_actions(output, project, "PostActions", &build.post_actions, object_id_map, indent + 1);
    write_end_tag(output, indent, "BuildAction");
}

/// A test target of a scheme's test action.
pub struct SchemeTestTarget {
    pub target_reference: String,
    pub skipped: bool,
    pub parallelizable: bool,
    pub random_execution_order: bool,
    pub location: Option<String>,
}

/// A test plan of a scheme.
pub struct TestPlan {
    pub path: String,
    pub default_plan: bool,
}

/// The settings of a scheme's test action.
pub struct SchemeTest {
    pub config: Option<String>,
    pub gather_coverage_data: bool,
    pub debug_enabled: bool,
    pub disable_main_thread_checker: bool,
    pub stop_on_every_main_thread_checker_issue: bool,
    pub custom_lldb_init: Option<String>,
    pub pre_actions: Vec<SchemeAction>,
    pub post_actions: Vec<SchemeAction>,
    pub macro_expansion: Option<String>,
    pub targets: Vec<SchemeTestTarget>,
    pub coverage_targets: Vec<String>,
    pub test_plans: Vec<TestPlan>,
    pub environment_variables: Vec<EnvironmentVariable>,
    pub command_line_arguments: Vec<(String, bool)>,
    pub capture_screenshots_automatically: Option<bool>,
    pub delete_screenshots_when_each_test_succeeds: Option<bool>,
    pub preferred_screen_capture_format: Option<String>,
}

/// The view of a test action's settings.
pub struct TestView {
    pub config: Option<Seq<char>>,
    pub gather_coverage_data: bool,
    pub debug_enabled: bool,
    pub disable_main_thread_checker: bool,
    pub stop_on_every_main_thread_checker_issue: bool,
    pub custom_lldb_init: Option<Seq<char>>,
    pub pre_actions: Seq<SchemeAction>,
    pub post_actions: Seq<SchemeAction>,
    pub macro_expansion: Option<Seq<char>>,
    pub targets: Seq<SchemeTestTarget>,
    pub coverage_targets: Seq<String>,
    pub test_plans: Seq<TestPlan>,
    pub environment_variables: Seq<EnvironmentVariable>,
    pub command_line_arguments: Seq<(String, bool)>,
    pub capture_screenshots_automatically: Option<bool>,
    pub delete_screenshots_when_each_test_succeeds: Option<bool>,
    pub preferred_screen_capture_format: Option<Seq<char>>,
}

impl View for SchemeTest {
    type V = TestView;

    open spec fn view(&self) -> TestView {
        TestView {
            config: opt_string(self.config),
            gather_coverage_data: self.gather_coverage_data,
            debug_enabled: self.debug_enabled,
            disable_main_thread_checker: self.disable_main_thread_checker,
            stop_on_every_main_thread_checker_issue: self.stop_on_every_main_thread_checker_issue,
            custom_lldb_init: opt_string(self.custom_lldb_init),
            pre_actions: self.pre_actions@,
            post_actions: self.post_actions@,
            macro_expansion: opt_string(self.macro_expansion),
            targets: self.targets@,
            coverage_targets: self.coverage_targets@,
            test_plans: self.test_plans@,
            environment_variables: self.environment_variables@,
            command_line_arguments: self.command_line_arguments@,
            capture_screenshots_automatically: self.capture_screenshots_automatically,
            delete_screenshots_when_each_test_succeeds: self.delete_screenshots_when_each_test_succeeds,
            preferred_screen_capture_format: opt_string(self.preferred_screen_capture_format),
        }
    }
}

/// What an action is written with besides its own settings: the product it
/// runs, the target its macros expand with, whether it writes its
/// arguments even when there are none, and the configuration it falls back
/// to.
pub struct ActionContext {
    pub runnable: Option<String>,
    pub macro_expansion: Option<String>,
    pub emit_empty_arguments: bool,
    pub default_config: String,
}

/// The view of an action's context.
pub struct ActionView {
    pub runnable: Option<Seq<char>>,
    pub macro_expansion: Option<Seq<char>>,
    pub emit_empty_arguments: bool,
    pub default_config: Seq<char>,
}

impl View for ActionContext {
    type V = ActionView;

    open spec fn view(&self) -> ActionView {
        ActionView {
            runnable: opt_string(self.runnable),
            macro_expansion: opt_string(self.macro_expansion),
            emit_empty_arguments: self.emit_empty_arguments,
            default_config: self.default_config@,
        }
    }
}

/// An attribute given only when a condition holds.
pub open spec fn attr_if(c: bool, k: Seq<char>, v: Seq<char>) -> Seq<(Seq<char>, Seq<char>)> {
    if c { seq![(k, v)] } else { Seq::empty() }
}

/// An attribute given only when a value is there, escaped.
pub open spec fn attr_opt(o: Option<Seq<char>>, k: Seq<char>) -> Seq<(Seq<char>, Seq<char>)> {
    match o {
        Some(v) => seq![(k, xml_escape_spec(v))],
        None => Seq::empty(),
    }
}

/// How long the attachments of a test run are kept.
pub open spec fn attachment_lifetime(capture: Option<bool>, delete: Option<bool>) -> Option<Seq<char>> {
    match (capture, delete) {
        (Some(false), _) => Some("keepNever"@),
        (Some(true), Some(false)) => Some("keepAlways"@),
        _ => None,
    }
}

/// The configuration an action uses: its own, else the default.
pub open spec fn action_config(config: Option<Seq<char>>, default: Seq<char>) -> Seq<char> {
    match config {
        Some(c) => c,
        None => default,
    }
}

/// The identifiers of the debugger and launcher of an action.
pub open spec fn debugger_attrs(debug_enabled: bool) -> Seq<(Seq<char>, Seq<char>)> {
    seq![
        ("selectedDebuggerIdentifier"@, if debug_enabled { "Xcode.DebuggerFoundation.Debugger.LLDB"@ } else { ""@ }),
        ("selectedLauncherIdentifier"@, if debug_enabled {
            "Xcode.DebuggerFoundation.Launcher.LLDB"@
        } else {
            "Xcode.IDEFoundation.Launcher.PosixSpawn"@
        }),
    ]
}

/// The attributes of a test action.
pub open spec fn test_attrs(o: TestView, default_config: Seq<char>) -> Seq<(Seq<char>, Seq<char>)> {
    seq![("buildConfiguration"@, xml_escape_spec(action_config(o.config, default_config)))] + debugger_attrs(o.debug_enabled)
        + seq![(
        "shouldUseLaunchSchemeArgsEnv"@,
        if o.command_line_arguments.len() == 0 && o.environment_variables.len() == 0 { "YES"@ } else { "NO"@ },
    )] + attr_if(o.disable_main_thread_checker, "disableMainThreadChecker"@, "YES"@) + attr_if(
        o.gather_coverage_data,
        "codeCoverageEnabled"@,
        "YES"@,
    ) + seq![(
        "onlyGenerateCoverageForSpecifiedTargets"@,
        if o.coverage_targets.len() > 0 && o.gather_coverage_data { "YES"@ } else { "NO"@ },
    )] + attr_if(o.stop_on_every_main_thread_checker_issue, "stopOnEveryMainThreadCheckerIssue"@, "YES"@) + (match attachment_lifetime(
        o.capture_screenshots_automatically,
        o.delete_screenshots_when_each_test_succeeds,
    ) {
        Some(v) => seq![("systemAttachmentLifetime"@, v)],
        None => Seq::empty(),
    }) + attr_opt(o.preferred_screen_capture_format, "preferredScreenCaptureFormat"@) + attr_opt(
        o.custom_lldb_init,
        "customLLDBInitFile"@,
    )
}

#[verifier::spinoff_prover]
#[verifier::rlimit(60)]
fn push_attr(attrs: &mut Vec<(String, String)>, k: &str, v: String)
    ensures
        entries_view(final(attrs)@) == entries_view(old(attrs)@) + seq![(k@, v@)],
{
    let ghost b = entries_view(attrs@);
    attrs.push((string_from(k), v));
    proof {
        assert(entries_view(attrs@) =~= b + seq![(k@, v@)]);
    }
}

#[verifier::spinoff_prover]
#[verifier::rlimit(60)]
fn push_attr_opt(attrs: &mut Vec<(String, String)>, k: &str, v: &Option<String>)
    ensures
        entries_view(final(attrs)@) == entries_view(old(attrs)@) + attr_opt(opt_string(*v), k@),
{
    let ghost b = entries_view(attrs@);
    match v {
        Some(x) => push_attr(attrs, k, xml_escape(x.as_str())),
        None => {
            proof {
                assert(b + attr_opt(opt_string(*v), k@) =~= b);
            }
        },
    }
}

#[verifier::spinoff_prover]
#[verifier::rlimit(60)]
fn push_attr_if(attrs: &mut Vec<(String, String)>, c: bool, k: &str, v: &str)
    ensures
        entries_view(final(attrs)@) == entries_view(old(attrs)@) + attr_if(c, k@, v@),
{
    let ghost b = entries_view(attrs@);
    if c {
        push_attr(attrs, k, string_from(v));
    } else {
        proof {
            assert(b + attr_if(c, k@, v@) =~= b);
        }
    }
}

#[verifier::spinoff_prover]
#[verifier::rlimit(60)]
fn push_debugger_attrs(attrs: &mut Vec<(String, String)>, debug_enabled: bool)
    ensures
        entries_view(final(attrs)@) == entries_view(old(attrs)@) + debugger_attrs(debug_enabled),
{
    let ghost b = entries_view(attrs@);
    push_attr(attrs, "selectedDebuggerIdentifier", string_from(if debug_enabled { "Xcode.DebuggerFoundation.Debugger.LLDB" } else { "" }));
    push_attr(attrs, "selectedLauncherIdentifier", string_from(if debug_enabled {
        "Xcode.DebuggerFoundation.Launcher.LLDB"
    } else {
        "Xcode.IDEFoundation.Launcher.PosixSpawn"
    }));
    proof {
        assert(entries_view(attrs@) =~= b + debugger_attrs(debug_enabled));
    }
}

#[verifier::spinoff_prover]
#[verifier::rlimit(60)]
fn config_or(config: &Option<String>, default: &String) -> (r: String)
    ensures
        r@ == action_config(opt_string(*config), default@),
{
    match config {
        Some(c) => c.clone(),
        None => default.clone(),
    }
}

/// The attributes of a test action.
#[verifier::spinoff_prover]
#[verifier::rlimit(60)]
pub fn test_action_attrs(o: &SchemeTest, default_config: &String) -> (r: Vec<(String, String)>)
    ensures
        entries_view(r@) == test_attrs(o@, default_config@),
{
    let mut attrs: Vec<(String, String)> = Vec::new();
    let ghost e = entries_view(attrs@);
    proof {
        assert(e =~= Seq::<(Seq<char>, Seq<char>)>::empty());
    }
    let config = config_or(&o.config, default_config);
    push_attr(&mut attrs, "buildConfiguration", xml_escape(config.as_str()));
    push_debugger_attrs(&mut attrs, o.debug_enabled);
    let launch_env = o.command_line_arguments.len() == 0 && o.environment_variables.len() == 0;
    push_attr(&mut attrs, "shouldUseLaunchSchemeArgsEnv", string_from(if launch_env { "YES" } else { "NO" }));
    push_attr_if(&mut attrs, o.disable_main_thread_checker, "disableMainThreadChecker", "YES");
    push_attr_if(&mut attrs, o.gather_coverage_data, "codeCoverageEnabled", "YES");
    let only = o.coverage_targets.len() > 0 && o.gather_coverage_data;
    push_attr(&mut attrs, "onlyGenerateCoverageForSpecifiedTargets", string_from(if only { "YES" } else { "NO" }));
    push_attr_if(&mut attrs, o.stop_on_every_main_thread_checker_issue, "stopOnEveryMainThreadCheckerIssue", "YES");
    let ghost before_lifetime = entries_view(attrs@);
    match (o.capture_screenshots_automatically, o.delete_screenshots_when_each_test_succeeds) {
        (Some(false), _) => push_attr(&mut attrs, "systemAttachmentLifetime", string_from("keepNever")),
        (Some(true), Some(false)) => push_attr(&mut attrs, "systemAttachmentLifetime", string_from("keepAlways")),
        _ => {},
    }
    push_attr_opt(&mut attrs, "preferredScreenCaptureFormat", &o.preferred_screen_capture_format);
    push_attr_opt(&mut attrs, "customLLDBInitFile", &o.custom_lldb_init);
    proof {
        assert(entries_view(attrs@) =~= test_attrs(o@, default_config@));
    }
    attrs
}

/// The location scenario of a testable: a `.gpx` file under the scheme
/// path prefix, else a named location.
pub open spec fn location_text(project: &Project, location: Option<Seq<char>>, indent: nat) -> Seq<char> {
    match location {
        Some(l) => {
            let gpx = ends_with_seq(l, ".gpx"@);
            let id = if gpx { scheme_prefixed(project, l) } else { l };
            indent_text(indent) + "<LocationScenarioReference identifier=\""@ + xml_escape_spec(id) + "\" referenceType=\""@
                + (if gpx { "0"@ } else { "1"@ }) + "\"/>\n"@
        },
        None => Seq::empty(),
    }
}

/// The attributes of a testable.
pub open spec fn testable_attrs(t: SchemeTestTarget) -> Seq<(Seq<char>, Seq<char>)> {
    seq![("skipped"@, crate::xml::bool_xml_spec(t.skipped)), ("parallelizable"@, crate::xml::bool_xml_spec(t.parallelizable))]
        + attr_if(t.random_execution_order, "testExecutionOrdering"@, "random"@)
}

/// The name of the target a test target refers to: what follows its last `/`.
pub open spec fn test_target_name(t: SchemeTestTarget) -> Seq<char> {
    t.target_reference@.skip(seg_start(t.target_reference@))
}

/// A testable: written only for a target of the project.
pub open spec fn testable_text(project: &Project, t: SchemeTestTarget, id_map: Seq<(Seq<char>, Seq<char>)>, indent: nat) -> Seq<char> {
    match target_named(project, test_target_name(t)) {
        Some(target) => multiline_start_text(indent + 2, "TestableReference"@, testable_attrs(t)) + buildable_reference_text(
            project,
            target,
            id_map,
            indent + 3,
        ) + location_text(project, opt_string(t.location), indent + 3) + end_tag_text(indent + 2, "TestableReference"@),
        None => Seq::empty(),
    }
}

/// The first `n` testables.
pub open spec fn testables_text(project: &Project, ts: Seq<SchemeTestTarget>, n: int, id_map: Seq<(Seq<char>, Seq<char>)>, indent: nat) -> Seq<char>
    decreases n,
{
    if n <= 0 || n > ts.len() {
        Seq::empty()
    } else {
        testables_text(project, ts, n - 1, id_map, indent) + testable_text(project, ts[n - 1], id_map, indent)
    }
}

#[verifier::spinoff_prover]
#[verifier::rlimit(60)]
fn write_location(output: &mut String, project: &Project, location: &Option<String>, indent: usize)
    requires
        indent < usize::MAX,
    ensures
        final(output)@ == old(output)@ + location_text(project, opt_string(*location), indent as nat),
{
    if let Some(l) = location {
        let ghost s0 = output@;
        write_indent(output, indent);
        let gpx = ends_with_str(l.as_str(), ".gpx");
        let id = if gpx { scheme_prefixed_path(project, l.as_str()) } else { l.clone() };
        push_str(output, "<LocationScenarioReference identifier=\"");
        push_xml_escaped(output, id.as_str());
        push_str(output, "\" referenceType=\"");
        push_str(output, if gpx { "0" } else { "1" });
        push_str(output, "\"/>\n");
        proof {
            assert(output@ =~= s0 + location_text(project, opt_string(*location), indent as nat));
        }
    }
}

#[verifier::spinoff_prover]
#[verifier::rlimit(60)]
fn write_testable(output: &mut String, project: &Project, t: &SchemeTestTarget,
    object_id_map: &Vec<(String, String)>, indent: usize)
    requires
        keys_sorted(entries_view(object_id_map@)),
        indent + 6 < usize::MAX,
    ensures
        final(output)@ == old(output)@ + testable_text(project, *t, entries_view(object_id_map@), indent as nat),
{
    let name = last_segment(t.target_reference.as_str());
    if let Some(ti) = target_position(project, name.as_str()) {
        let mut attrs: Vec<(String, String)> = Vec::new();
        push_attr(&mut attrs, "skipped", string_from(crate::xml::bool_xml(t.skipped)));
        push_attr(&mut attrs, "parallelizable", string_from(crate::xml::bool_xml(t.parallelizable)));
        push_attr_if(&mut attrs, t.random_execution_order, "testExecutionOrdering", "random");
        proof {
            assert(entries_view(attrs@) =~= testable_attrs(*t));
        }
        write_multiline_start(output, indent + 2, "TestableReference", &attrs);
        write_buildable_reference(output, project, &project.targets[ti], object_id_map, indent + 3);
        write_location(output, project, &t.location, indent + 3);
        write_end_tag(output, indent + 2, "TestableReference");
    }
}

/// The testables of a test action.
pub open spec fn testables_block(project: &Project, ts: Seq<SchemeTestTarget>, id_map: Seq<(Seq<char>, Seq<char>)>, indent: nat) -> Seq<char> {
    indent_text(indent + 1) + "<Testables>\n"@ + testables_text(project, ts, ts.len() as int, id_map, indent)
        + end_tag_text(indent + 1, "Testables"@)
}

#[verifier::spinoff_prover]
#[verifier::rlimit(60)]
fn write_testables(output: &mut String, project: &Project, ts: &Vec<SchemeTestTarget>,
    object_id_map: &Vec<(String, String)>, indent: usize)
    requires
        keys_sorted(entries_view(object_id_map@)),
        indent + 6 < usize::MAX,
    ensures
        final(output)@ == old(output)@ + testables_block(project, ts@, entries_view(object_id_map@), indent as nat),
{
    write_indent(output, indent + 1);
    push_str(output, "<Testables>\n");
    let ghost start = output@;
    let mut i: usize = 0;
    while i < ts.len()
        invariant
            keys_sorted(entries_view(object_id_map@)),
            indent + 6 < usize::MAX,
            i <= ts@.len(),
            output@ == start + testables_text(project, ts@, i as int, entries_view(object_id_map@), indent as nat),
        decreases ts.len() - i,
    {
        write_testable(output, project, &ts[i], object_id_map, indent);
        i = i + 1;
    }
    write_end_tag(output, indent + 1, "Testables");
}

/// One test plan reference.
pub open spec fn test_plan_text(p: TestPlan, indent: nat) -> Seq<char> {
    indent_text(indent) + "<TestPlanReference reference=\"container:"@ + xml_escape_spec(p.path@) + "\" default=\""@
        + crate::xml::bool_xml_spec(p.default_plan) + "\"/>\n"@
}

/// The first `n` test plan references.
pub open spec fn test_plan_items(ps: Seq<TestPlan>, n: int, indent: nat) -> Seq<char>
    decreases n,
{
    if n <= 0 || n > ps.len() {
        Seq::empty()
    } else {
        test_plan_items(ps, n - 1, indent) + test_plan_text(ps[n - 1], indent)
    }
}

/// The test plans of a test action; nothing when there are none.
pub open spec fn test_plans_text(ps: Seq<TestPlan>, indent: nat) -> Seq<char> {
    if ps.len() == 0 {
        Seq::empty()
    } else {
        indent_text(indent + 1) + "<TestPlans>\n"@ + test_plan_items(ps, ps.len() as int, indent + 2) + end_tag_text(
            indent + 1,
            "TestPlans"@,
        )
    }
}

#[verifier::spinoff_prover]
#[verifier::rlimit(60)]
fn write_test_plans(output: &mut String, ps: &Vec<TestPlan>, indent: usize)
    requires
        indent + 3 < usize::MAX,
    ensures
        final(output)@ == old(output)@ + test_plans_text(ps@, indent as nat),
{
    if ps.len() == 0 {
        return;
    }
    write_indent(output, indent + 1);
    push_str(output, "<TestPlans>\n");
    let ghost start = output@;
    let mut i: usize = 0;
    while i < ps.len()
        invariant
            indent + 3 < usize::MAX,
            i <= ps@.len(),
            output@ == start + test_plan_items(ps@, i as int, (indent + 2) as nat),
        decreases ps.len() - i,
    {
        let ghost before = output@;
        write_indent(output, indent + 2);
        push_str(output, "<TestPlanReference reference=\"container:");
        push_xml_escaped(output, ps[i].path.as_str());
        push_str(output, "\" default=\"");
        push_str(output, crate::xml::bool_xml(ps[i].default_plan));
        push_str(output, "\"/>\n");
        proof {
            assert(output@ =~= before + test_plan_text(ps@[i as int], (indent + 2) as nat));
        }
        i = i + 1;
    }
    write_end_tag(output, indent + 1, "TestPlans");
}

/// A coverage target: a reference to a target of the project.
pub open spec fn coverage_target_text(project: &Project, name: Seq<char>, id_map: Seq<(Seq<char>, Seq<char>)>, indent: nat) -> Seq<char> {
    match target_named(project, name) {
        Some(t) => buildable_reference_text(project, t, id_map, indent),
        None => Seq::empty(),
    }
}

/// The first `n` coverage targets.
pub open spec fn coverage_items(project: &Project, names: Seq<String>, n: int, id_map: Seq<(Seq<char>, Seq<char>)>, indent: nat) -> Seq<char>
    decreases n,
{
    if n <= 0 || n > names.len() {
        Seq::empty()
    } else {
        coverage_items(project, names, n - 1, id_map, indent) + coverage_target_text(project, names[n - 1]@, id_map, indent)
    }
}

/// The code coverage targets of a test action; nothing when there are none.
pub open spec fn coverage_text(project: &Project, names: Seq<String>, id_map: Seq<(Seq<char>, Seq<char>)>, indent: nat) -> Seq<char> {
    if names.len() == 0 {
        Seq::empty()
    } else {
        indent_text(indent + 1) + "<CodeCoverageTargets>\n"@ + coverage_items(project, names, names.len() as int, id_map, indent + 2)
            + end_tag_text(indent + 1, "CodeCoverageTargets"@)
    }
}

#[verifier::spinoff_prover]
#[verifier::rlimit(60)]
fn write_coverage_targets(output: &mut String, project: &Project, names: &Vec<String>,
    object_id_map: &Vec<(String, String)>, indent: usize)
    requires
        keys_sorted(entries_view(object_id_map@)),
        indent + 3 < usize::MAX,
    ensures
        final(output)@ == old(output)@ + coverage_text(project, names@, entries_view(object_id_map@), indent as nat),
{
    if names.len() == 0 {
        return;
    }
    write_indent(output, indent + 1);
    push_str(output, "<CodeCoverageTargets>\n");
    let ghost start = output@;
    let mut i: usize = 0;
    while i < names.len()
        invariant
            keys_sorted(entries_view(object_id_map@)),
            indent + 3 < usize::MAX,
            i <= names@.len(),
            output@ == start + coverage_items(project, names@, i as int, entries_view(object_id_map@), (indent + 2) as nat),
        decreases names.len() - i,
    {
        if let Some(ti) = target_position(project, names[i].as_str()) {
            write_buildable_reference(output, project, &project.targets[ti], object_id_map, indent + 2);
        }
        i = i + 1;
    }
    write_end_tag(output, indent + 1, "CodeCoverageTargets");
}

/// The view of an optional owned name.
pub open spec fn opt_string(o: Option<String>) -> Option<Seq<char>> {
    match o {
        Some(s) => Some(s@),
        None => None,
    }
}

#[verifier::spinoff_prover]
#[verifier::rlimit(60)]
fn as_opt_str(o: &Option<String>) -> (r: Option<&str>)
    ensures
        opt_name(r) == opt_string(*o),
{
    match o {
        Some(s) => Some(s.as_str()),
        None => None,
    }
}

/// The command line arguments of an action, when it has arguments or
/// environment variables or asks for them anyway.
pub open spec fn arguments_if(args: Seq<(String, bool)>, vars: Seq<EnvironmentVariable>, emit_empty: bool, indent: nat) -> Seq<char> {
    if args.len() > 0 || vars.len() > 0 || emit_empty {
        crate::scheme::command_line_arguments_text(args, indent)
    } else {
        Seq::empty()
    }
}

/// The first half of a test action: its attributes, pre-actions, macro
/// expansion and testables.
pub open spec fn test_action_head(project: &Project, o: TestView, cx: ActionView, id_map: Seq<(Seq<char>, Seq<char>)>, indent: nat) -> Seq<char> {
    multiline_start_text(indent, "TestAction"@, test_attrs(o, cx.default_config)) + execution_actions_text(
        project,
        "PreActions"@,
        o.pre_actions,
        o.pre_actions.len() as int,
        id_map,
        indent + 1,
    ) + macro_expansion_text(project, cx.macro_expansion, id_map, indent + 1) + testables_block(
        project,
        o.targets,
        id_map,
        indent,
    )
}

/// The test plans, arguments and environment of a test action.
pub open spec fn test_action_options_text(o: TestView, cx: ActionView, indent: nat) -> Seq<char> {
    test_plans_text(o.test_plans, indent) + arguments_if(
        o.command_line_arguments,
        o.environment_variables,
        cx.emit_empty_arguments,
        indent + 1,
    ) + crate::scheme::environment_variables_text(o.environment_variables, indent + 1)
}

/// The second half of a test action: its test plans, arguments,
/// environment, coverage targets and post-actions.
pub open spec fn test_action_tail(project: &Project, o: TestView, cx: ActionView, id_map: Seq<(Seq<char>, Seq<char>)>, indent: nat) -> Seq<char> {
    test_action_options_text(o, cx, indent) + coverage_text(project, o.coverage_targets, id_map, indent) + execution_actions_text(
        project,
        "PostActions"@,
        o.post_actions,
        o.post_actions.len() as int,
        id_map,
        indent + 1,
    ) + end_tag_text(indent, "TestAction"@)
}

/// A scheme's test action.
pub open spec fn test_action_text(project: &Project, o: TestView, cx: ActionView, id_map: Seq<(Seq<char>, Seq<char>)>, indent: nat) -> Seq<char> {
    test_action_head(project, o, cx, id_map, indent) + test_action_tail(project, o, cx, id_map, indent)
}

#[verifier::spinoff_prover]
#[verifier::rlimit(60)]
fn write_test_action_head(output: &mut String, project: &Project, o: &SchemeTest, cx: &ActionContext,
    object_id_map: &Vec<(String, String)>, indent: usize)
    requires
        keys_sorted(entries_view(object_id_map@)),
        indent + 6 < usize::MAX,
    ensures
        final(output)@ == old(output)@ + test_action_head(project, o@, cx@, entries_view(object_id_map@), indent as nat),
{
    let attrs = test_action_attrs(o, &cx.default_config);
    write_multiline_start(output, indent, "TestAction", &attrs);
    write_execution_actions(output, project, "PreActions", &o.pre_actions, object_id_map, indent + 1);
    write_macro_expansion(output, project, as_opt_str(&cx.macro_expansion), object_id_map, indent + 1);
    write_testables(output, project, &o.targets, object_id_map, indent);
}

#[verifier::spinoff_prover]
#[verifier::rlimit(60)]
fn write_test_action_options(output: &mut String, o: &SchemeTest, cx: &ActionContext, indent: usize)
    requires
        indent + 6 < usize::MAX,
    ensures
        final(output)@ == old(output)@ + test_action_options_text(o@, cx@, indent as nat),
{
    let ghost s0 = output@;
    write_test_plans(output, &o.test_plans, indent);
    let ghost a = output@;
    if o.command_line_arguments.len() > 0 || o.environment_variables.len() > 0 || cx.emit_empty_arguments {
        crate::scheme::write_command_line_arguments(output, &o.command_line_arguments, indent + 1);
    }
    assert(output@ == a + arguments_if(o.command_line_arguments@, o.environment_variables@,
        cx.emit_empty_arguments, (indent + 1) as nat));
    let ghost b = output@;
    crate::scheme::write_environment_variables(output, &o.environment_variables, indent + 1);
    proof {
        assert(output@ =~= s0 + test_action_options_text(o@, cx@, indent as nat));
    }
}

#[verifier::spinoff_prover]
#[verifier::rlimit(40)]
fn write_test_action_tail(output: &mut String, project: &Project, o: &SchemeTest, cx: &ActionContext,
    object_id_map: &Vec<(String, String)>, indent: usize)
    requires
        keys_sorted(entries_view(object_id_map@)),
        indent + 6 < usize::MAX,
    ensures
        final(output)@ == old(output)@ + test_action_tail(project, o@, cx@, entries_view(object_id_map@), indent as nat),
{
    let ghost s0 = output@;
    let ghost m = entries_view(object_id_map@);
    write_test_action_options(output, o, cx, indent);
    let ghost a = output@;
    write_coverage_targets(output, project, &o.coverage_targets, object_id_map, indent);
    let ghost b = output@;
    write_execution_actions(output, project, "PostActions", &o.post_actions, object_id_map, indent + 1);
    let ghost c = output@;
    write_end_tag(output, indent, "TestAction");
    proof {
        assert(output@ =~= s0 + test_action_tail(project, o@, cx@, m, indent as nat));
    }
}

/// Appends a scheme's test action: the tests it runs with their
/// configuration, and the targets whose coverage it gathers.
#[verifier::spinoff_prover]
pub fn write_test_action(output: &mut String, project: &Project, o: &SchemeTest, cx: &ActionContext,
    object_id_map: &Vec<(String, String)>, indent: usize)
    requires
        keys_sorted(entries_view(object_id_map@)),
        indent + 6 < usize::MAX,
    ensures
        final(output)@ == old(output)@ + test_action_text(project, o@, cx@, entries_view(object_id_map@), indent as nat),
{
    let ghost s0 = output@;
    write_test_action_head(output, project, o, cx, object_id_map, indent);
    let ghost s1 = output@;
    write_test_action_tail(output, project, o, cx, object_id_map, indent);
    proof {
        assert(output@ =~= s0 + test_action_text(project, o@, cx@, entries_view(object_id_map@), indent as nat));
    }
}

/// The settings of a scheme's launch action.
pub struct SchemeRun {
    pub config: Option<String>,
    pub debug_enabled: bool,
    pub launch_automatically_substyle: Option<String>,
    pub ask_for_app_to_launch: bool,
    pub custom_lldb_init: Option<String>,
    pub custom_working_directory: Option<String>,
    pub enable_gpu_frame_capture_mode: Option<String>,
    pub store_kit_configuration: Option<String>,
    pub macro_expansion: Option<String>,
    pub default_location: Option<String>,
    pub disable_main_thread_checker: bool,
    pub stop_on_every_main_thread_checker_issue: bool,
    pub disable_thread_performance_checker: bool,
    pub command_line_arguments: Vec<(String, bool)>,
    pub language: Option<String>,
    pub region: Option<String>,
    pub environment_variables: Vec<EnvironmentVariable>,
}

/// The view of a launch action's settings.
pub struct RunView {
    pub config: Option<Seq<char>>,
    pub debug_enabled: bool,
    pub launch_automatically_substyle: Option<Seq<char>>,
    pub ask_for_app_to_launch: bool,
    pub custom_lldb_init: Option<Seq<char>>,
    pub custom_working_directory: Option<Seq<char>>,
    pub enable_gpu_frame_capture_mode: Option<Seq<char>>,
    pub store_kit_configuration: Option<Seq<char>>,
    pub macro_expansion: Option<Seq<char>>,
    pub default_location: Option<Seq<char>>,
    pub disable_main_thread_checker: bool,
    pub stop_on_every_main_thread_checker_issue: bool,
    pub disable_thread_performance_checker: bool,
    pub command_line_arguments: Seq<(String, bool)>,
    pub language: Option<Seq<char>>,
    pub region: Option<Seq<char>>,
    pub environment_variables: Seq<EnvironmentVariable>,
}

impl View for SchemeRun {
    type V = RunView;

    open spec fn view(&self) -> RunView {
        RunView {
            config: opt_string(self.config),
            debug_enabled: self.debug_enabled,
            launch_automatically_substyle: opt_string(self.launch_automatically_substyle),
            ask_for_app_to_launch: self.ask_for_app_to_launch,
            custom_lldb_init: opt_string(self.custom_lldb_init),
            custom_working_directory: opt_string(self.custom_working_directory),
            enable_gpu_frame_capture_mode: opt_string(self.enable_gpu_frame_capture_mode),
            store_kit_configuration: opt_string(self.store_kit_configuration),
            macro_expansion: opt_string(self.macro_expansion),
            default_location: opt_string(self.default_location),
            disable_main_thread_checker: self.disable_main_thread_checker,
            stop_on_every_main_thread_checker_issue: self.stop_on_every_main_thread_checker_issue,
            disable_thread_performance_checker: self.disable_thread_performance_checker,
            command_line_arguments: self.command_line_arguments@,
            language: opt_string(self.language),
            region: opt_string(self.region),
            environment_variables: self.environment_variables@,
        }
    }
}

/// The attributes of a launch action up to its working directory.
pub open spec fn launch_attrs_head(o: RunView, default_config: Seq<char>) -> Seq<(Seq<char>, Seq<char>)> {
    seq![("buildConfiguration"@, xml_escape_spec(action_config(o.config, default_config)))] + debugger_attrs(o.debug_enabled)
        + attr_if(o.disable_main_thread_checker, "disableMainThreadChecker"@, "YES"@) + seq![("launchStyle"@, "0"@)]
        + attr_if(o.ask_for_app_to_launch, "askForAppToLaunch"@, "YES"@) + seq![(
        "useCustomWorkingDirectory"@,
        crate::xml::bool_xml_spec(o.custom_working_directory is Some),
    )] + attr_opt(o.custom_working_directory, "customWorkingDirectory"@)
}

/// The fixed attributes every launch action has.
pub open spec fn launch_fixed_attrs() -> Seq<(Seq<char>, Seq<char>)> {
    seq![
        ("ignoresPersistentStateOnLaunch"@, "NO"@),
        ("debugDocumentVersioning"@, "YES"@),
        ("debugServiceExtension"@, "internal"@),
        ("allowLocationSimulation"@, "YES"@),
    ]
}

/// The attributes of a launch action after its working directory.
pub open spec fn launch_attrs_tail(o: RunView) -> Seq<(Seq<char>, Seq<char>)> {
    attr_opt(o.custom_lldb_init, "customLLDBInitFile"@) + attr_opt(o.enable_gpu_frame_capture_mode, "enableGPUFrameCaptureMode"@)
        + attr_opt(o.language, "language"@) + attr_opt(o.region, "region"@) + launch_fixed_attrs() + attr_opt(
        o.launch_automatically_substyle,
        "launchAutomaticallySubstyle"@,
    ) + attr_if(o.stop_on_every_main_thread_checker_issue, "stopOnEveryMainThreadCheckerIssue"@, "YES"@) + attr_if(
        o.disable_thread_performance_checker,
        "disableThreadPerformanceChecker"@,
        "YES"@,
    )
}

/// The attributes of a launch action.
pub open spec fn launch_attrs(o: RunView, default_config: Seq<char>) -> Seq<(Seq<char>, Seq<char>)> {
    launch_attrs_head(o, default_config) + launch_attrs_tail(o)
}

#[verifier::spinoff_prover]
#[verifier::rlimit(60)]
fn launch_attrs_head_vec(o: &SchemeRun, default_config: &String) -> (r: Vec<(String, String)>)
    ensures
        entries_view(r@) == launch_attrs_head(o@, default_config@),
{
    let mut attrs: Vec<(String, String)> = Vec::new();
    proof {
        assert(entries_view(attrs@) =~= Seq::<(Seq<char>, Seq<char>)>::empty());
    }
    let config = config_or(&o.config, default_config);
    push_attr(&mut attrs, "buildConfiguration", xml_escape(config.as_str()));
    push_debugger_attrs(&mut attrs, o.debug_enabled);
    push_attr_if(&mut attrs, o.disable_main_thread_checker, "disableMainThreadChecker", "YES");
    push_attr(&mut attrs, "launchStyle", string_from("0"));
    push_attr_if(&mut attrs, o.ask_for_app_to_launch, "askForAppToLaunch", "YES");
    push_attr(&mut attrs, "useCustomWorkingDirectory", string_from(crate::xml::bool_xml(o.custom_working_directory.is_some())));
    push_attr_opt(&mut attrs, "customWorkingDirectory", &o.custom_working_directory);
    proof {
        assert(entries_view(attrs@) =~= launch_attrs_head(o@, default_config@));
    }
    attrs
}

#[verifier::spinoff_prover]
#[verifier::rlimit(40)]
fn push_launch_attrs_tail(attrs: &mut Vec<(String, String)>, o: &SchemeRun)
    ensures
        entries_view(final(attrs)@) == entries_view(old(attrs)@) + launch_attrs_tail(o@),
{
    let ghost b = entries_view(attrs@);
    push_attr_opt(attrs, "customLLDBInitFile", &o.custom_lldb_init);
    push_attr_opt(attrs, "enableGPUFrameCaptureMode", &o.enable_gpu_frame_capture_mode);
    push_attr_opt(attrs, "language", &o.language);
    push_attr_opt(attrs, "region", &o.region);
    push_attr(attrs, "ignoresPersistentStateOnLaunch", string_from("NO"));
    push_attr(attrs, "debugDocumentVersioning", string_from("YES"));
    push_attr(attrs, "debugServiceExtension", string_from("internal"));
    push_attr(attrs, "allowLocationSimulation", string_from("YES"));
    push_attr_opt(attrs, "launchAutomaticallySubstyle", &o.launch_automatically_substyle);
    push_attr_if(attrs, o.stop_on_every_main_thread_checker_issue, "stopOnEveryMainThreadCheckerIssue", "YES");
    push_attr_if(attrs, o.disable_thread_performance_checker, "disableThreadPerformanceChecker", "YES");
    proof {
        assert(entries_view(attrs@) =~= b + launch_attrs_tail(o@));
    }
}

/// The attributes of a launch action.
#[verifier::spinoff_prover]
#[verifier::rlimit(60)]
pub fn launch_action_attrs(o: &SchemeRun, default_config: &String) -> (r: Vec<(String, String)>)
    ensures
        entries_view(r@) == launch_attrs(o@, default_config@),
{
    let mut attrs = launch_attrs_head_vec(o, default_config);
    push_launch_attrs_tail(&mut attrs, o);
    attrs
}

/// The product a launch action runs: a remote runnable for a watch
/// application, else the product itself.
pub open spec fn runnable_text(project: &Project, runnable: Option<Seq<char>>, id_map: Seq<(Seq<char>, Seq<char>)>, indent: nat) -> Seq<char> {
    match runnable {
        Some(n) => match target_named(project, n) {
            Some(t) => {
                let watch = is_watch_app_product_spec(t.target_type);
                let element = if watch { "RemoteRunnable"@ } else { "BuildableProductRunnable"@ };
                multiline_start_text(indent + 1, element, seq![("runnableDebuggingMode"@, if watch { "2"@ } else { "0"@ })])
                    + buildable_reference_text(project, t, id_map, indent + 2) + end_tag_text(indent + 1, element)
            },
            None => Seq::empty(),
        },
        None => Seq::empty(),
    }
}

#[verifier::spinoff_prover]
#[verifier::rlimit(60)]
fn write_runnable(output: &mut String, project: &Project, runnable: &Option<String>,
    object_id_map: &Vec<(String, String)>, indent: usize)
    requires
        keys_sorted(entries_view(object_id_map@)),
        indent + 3 < usize::MAX,
    ensures
        final(output)@ == old(output)@ + runnable_text(project, opt_string(*runnable), entries_view(object_id_map@), indent as nat),
{
    if let Some(n) = runnable {
        if let Some(ti) = target_position(project, n.as_str()) {
            let t = &project.targets[ti];
            let watch = is_watch_app_product(&t.target_type);
            let element = if watch { "RemoteRunnable" } else { "BuildableProductRunnable" };
            let mut attrs: Vec<(String, String)> = Vec::new();
            attrs.push((string_from("runnableDebuggingMode"), string_from(if watch { "2" } else { "0" })));
            proof {
                assert(entries_view(attrs@) =~= seq![("runnableDebuggingMode"@, if watch { "2"@ } else { "0"@ })]);
            }
            write_multiline_start(output, indent + 1, element, &attrs);
            write_buildable_reference(output, project, t, object_id_map, indent + 2);
            write_end_tag(output, indent + 1, element);
        }
    }
}

/// The StoreKit configuration a launch action uses.
pub open spec fn store_kit_text(project: &Project, configuration: Option<Seq<char>>, indent: nat) -> Seq<char> {
    match configuration {
        Some(c) => indent_text(indent) + "<StoreKitConfigurationFileReference identifier=\""@ + xml_escape_spec(
            scheme_prefixed(project, c),
        ) + "\"/>\n"@,
        None => Seq::empty(),
    }
}

#[verifier::spinoff_prover]
#[verifier::rlimit(60)]
fn write_store_kit(output: &mut String, project: &Project, configuration: &Option<String>, indent: usize)
    ensures
        final(output)@ == old(output)@ + store_kit_text(project, opt_string(*configuration), indent as nat),
{
    if let Some(c) = configuration {
        let ghost s0 = output@;
        write_indent(output, indent);
        push_str(output, "<StoreKitConfigurationFileReference identifier=\"");
        let path = scheme_prefixed_path(project, c.as_str());
        push_xml_escaped(output, path.as_str());
        push_str(output, "\"/>\n");
        proof {
            assert(output@ =~= s0 + store_kit_text(project, opt_string(*configuration), indent as nat));
        }
    }
}

/// The first half of a launch action: its attributes, runnable, StoreKit
/// configuration and macro expansion.
pub open spec fn launch_action_head(project: &Project, o: RunView, cx: ActionView, id_map: Seq<(Seq<char>, Seq<char>)>, indent: nat) -> Seq<char> {
    multiline_start_text(indent, "LaunchAction"@, launch_attrs(o, cx.default_config)) + runnable_text(project, cx.runnable, id_map, indent)
        + store_kit_text(project, o.store_kit_configuration, indent + 1) + macro_expansion_text(
        project,
        cx.macro_expansion,
        id_map,
        indent + 1,
    )
}

/// The second half of a launch action: its simulated location, arguments
/// and environment.
pub open spec fn launch_action_tail(project: &Project, o: RunView, cx: ActionView, indent: nat) -> Seq<char> {
    location_text(project, o.default_location, indent + 1) + arguments_if(
        o.command_line_arguments,
        o.environment_variables,
        cx.emit_empty_arguments,
        indent + 1,
    ) + crate::scheme::environment_variables_text(o.environment_variables, indent + 1) + end_tag_text(indent, "LaunchAction"@)
}

/// A scheme's launch action.
pub open spec fn launch_action_text(project: &Project, o: RunView, cx: ActionView, id_map: Seq<(Seq<char>, Seq<char>)>, indent: nat) -> Seq<char> {
    launch_action_head(project, o, cx, id_map, indent) + launch_action_tail(project, o, cx, indent)
}

#[verifier::spinoff_prover]
#[verifier::rlimit(40)]
fn write_launch_action_head(output: &mut String, project: &Project, o: &SchemeRun, cx: &ActionContext,
    object_id_map: &Vec<(String, String)>, indent: usize)
    requires
        keys_sorted(entries_view(object_id_map@)),
        indent + 6 < usize::MAX,
    ensures
        final(output)@ == old(output)@ + launch_action_head(project, o@, cx@, entries_view(object_id_map@), indent as nat),
{
    let ghost s0 = output@;
    let ghost m = entries_view(object_id_map@);
    let attrs = launch_action_attrs(o, &cx.default_config);
    write_multiline_start(output, indent, "LaunchAction", &attrs);
    let ghost a = output@;
    write_runnable(output, project, &cx.runnable, object_id_map, indent);
    let ghost b = output@;
    write_store_kit(output, project, &o.store_kit_configuration, indent + 1);
    let ghost c = output@;
    write_macro_expansion(output, project, as_opt_str(&cx.macro_expansion), object_id_map, indent + 1);
    proof {
        assert(output@ =~= s0 + launch_action_head(project, o@, cx@, m, indent as nat));
    }
}

#[verifier::spinoff_prover]
#[verifier::rlimit(40)]
fn write_launch_action_tail(output: &mut String, project: &Project, o: &SchemeRun, cx: &ActionContext, indent: usize)
    requires
        indent + 6 < usize::MAX,
    ensures
        final(output)@ == old(output)@ + launch_action_tail(project, o@, cx@, indent as nat),
{
    let ghost s0 = output@;
    write_location(output, project, &o.default_location, indent + 1);
    let ghost a = output@;
    if o.command_line_arguments.len() > 0 || o.environment_variables.len() > 0 || cx.emit_empty_arguments {
        crate::scheme::write_command_line_arguments(output, &o.command_line_arguments, indent + 1);
    }
    assert(output@ == a + arguments_if(o.command_line_arguments@, o.environment_variables@,
        cx.emit_empty_arguments, (indent + 1) as nat));
    crate::scheme::write_environment_variables(output, &o.environment_variables, indent + 1);
    write_end_tag(output, indent, "LaunchAction");
    proof {
        assert(output@ =~= s0 + launch_action_tail(project, o@, cx@, indent as nat));
    }
}

/// Appends a scheme's launch action: the product it runs, with its
/// configuration, arguments and environment.
#[verifier::spinoff_prover]
pub fn write_launch_action(output: &mut String, project: &Project, o: &SchemeRun, cx: &ActionContext,
    object_id_map: &Vec<(String, String)>, indent: usize)
    requires
        keys_sorted(entries_view(object_id_map@)),
        indent + 6 < usize::MAX,
    ensures
        final(output)@ == old(output)@ + launch_action_text(project, o@, cx@, entries_view(object_id_map@), indent as nat),
{
    let ghost s0 = output@;
    write_launch_action_head(output, project, o, cx, object_id_map, indent);
    write_launch_action_tail(output, project, o, cx, indent);
    proof {
        assert(output@ =~= s0 + launch_action_text(project, o@, cx@, entries_view(object_id_map@), indent as nat));
    }
}

/// The settings of a scheme's profile action.
pub struct SchemeProfile {
    pub config: Option<String>,
    pub environment_variables: Vec<EnvironmentVariable>,
    pub ask_for_app_to_launch: bool,
}

/// The view of a profile action's settings.
pub struct ProfileView {
    pub config: Option<Seq<char>>,
    pub environment_variables: Seq<EnvironmentVariable>,
    pub ask_for_app_to_launch: bool,
}

impl View for SchemeProfile {
    type V = ProfileView;

    open spec fn view(&self) -> ProfileView {
        ProfileView {
            config: opt_string(self.config),
            environment_variables: self.environment_variables@,
            ask_for_app_to_launch: self.ask_for_app_to_launch,
        }
    }
}

/// The attributes of a profile action.
pub open spec fn profile_attrs(o: ProfileView, default_config: Seq<char>) -> Seq<(Seq<char>, Seq<char>)> {
    seq![
        ("buildConfiguration"@, xml_escape_spec(action_config(o.config, default_config))),
        ("shouldUseLaunchSchemeArgsEnv"@, if o.environment_variables.len() == 0 { "YES"@ } else { "NO"@ }),
        ("savedToolIdentifier"@, ""@),
        ("useCustomWorkingDirectory"@, "NO"@),
        ("debugDocumentVersioning"@, "YES"@),
    ] + attr_if(o.ask_for_app_to_launch, "askForAppToLaunch"@, "YES"@)
}

/// The product a profile action runs.
pub open spec fn profile_runnable_text(project: &Project, runnable: Option<Seq<char>>, id_map: Seq<(Seq<char>, Seq<char>)>, indent: nat) -> Seq<char> {
    match runnable {
        Some(n) => match target_named(project, n) {
            Some(t) => multiline_start_text(indent + 1, "BuildableProductRunnable"@, seq![("runnableDebuggingMode"@, "0"@)])
                + buildable_reference_text(project, t, id_map, indent + 2) + end_tag_text(indent + 1, "BuildableProductRunnable"@),
            None => Seq::empty(),
        },
        None => Seq::empty(),
    }
}

/// The command line arguments a profile action writes: none of its own,
/// but the element when it has an environment or asks for it.
pub open spec fn profile_arguments_text(o: ProfileView, emit_empty: bool, indent: nat) -> Seq<char> {
    if o.environment_variables.len() > 0 || emit_empty {
        crate::scheme::command_line_arguments_text(Seq::empty(), indent)
    } else {
        Seq::empty()
    }
}

/// The first half of a profile action: its attributes, runnable and
/// arguments.
pub open spec fn profile_action_head(project: &Project, o: ProfileView, cx: ActionView, id_map: Seq<(Seq<char>, Seq<char>)>, indent: nat) -> Seq<char> {
    multiline_start_text(indent, "ProfileAction"@, profile_attrs(o, cx.default_config)) + profile_runnable_text(
        project,
        cx.runnable,
        id_map,
        indent,
    ) + profile_arguments_text(o, cx.emit_empty_arguments, indent + 1)
}

/// The second half of a profile action: its macro expansion and
/// environment.
pub open spec fn profile_action_tail(project: &Project, o: ProfileView, cx: ActionView, id_map: Seq<(Seq<char>, Seq<char>)>, indent: nat) -> Seq<char> {
    macro_expansion_text(project, cx.macro_expansion, id_map, indent + 1)
        + crate::scheme::environment_variables_text(o.environment_variables, indent + 1) + end_tag_text(indent, "ProfileAction"@)
}

/// A scheme's profile action.
pub open spec fn profile_action_text(project: &Project, o: ProfileView, cx: ActionView, id_map: Seq<(Seq<char>, Seq<char>)>, indent: nat) -> Seq<char> {
    profile_action_head(project, o, cx, id_map, indent) + profile_action_tail(project, o, cx, id_map, indent)
}

#[verifier::spinoff_prover]
#[verifier::rlimit(60)]
fn write_profile_arguments(output: &mut String, o: &SchemeProfile, emit_empty: bool, indent: usize)
    requires
        indent + 1 < usize::MAX,
    ensures
        final(output)@ == old(output)@ + profile_arguments_text(o@, emit_empty, indent as nat),
{
    if o.environment_variables.len() > 0 || emit_empty {
        let none: Vec<(String, bool)> = Vec::new();
        crate::scheme::write_command_line_arguments(output, &none, indent);
        proof {
            assert(none@ =~= Seq::<(String, bool)>::empty());
        }
    }
}

#[verifier::spinoff_prover]
#[verifier::rlimit(60)]
fn profile_action_attrs(o: &SchemeProfile, default_config: &String) -> (r: Vec<(String, String)>)
    ensures
        entries_view(r@) == profile_attrs(o@, default_config@),
{
    let mut attrs: Vec<(String, String)> = Vec::new();
    proof {
        assert(entries_view(attrs@) =~= Seq::<(Seq<char>, Seq<char>)>::empty());
    }
    let config = config_or(&o.config, default_config);
    push_attr(&mut attrs, "buildConfiguration", xml_escape(config.as_str()));
    push_attr(&mut attrs, "shouldUseLaunchSchemeArgsEnv", string_from(if o.environment_variables.len() == 0 { "YES" } else { "NO" }));
    push_attr(&mut attrs, "savedToolIdentifier", string_from(""));
    push_attr(&mut attrs, "useCustomWorkingDirectory", string_from("NO"));
    push_attr(&mut attrs, "debugDocumentVersioning", string_from("YES"));
    push_attr_if(&mut attrs, o.ask_for_app_to_launch, "askForAppToLaunch", "YES");
    proof {
        assert(entries_view(attrs@) =~= profile_attrs(o@, default_config@));
    }
    attrs
}

#[verifier::spinoff_prover]
#[verifier::rlimit(60)]
fn write_profile_runnable(output: &mut String, project: &Project, runnable: &Option<String>,
    object_id_map: &Vec<(String, String)>, indent: usize)
    requires
        keys_sorted(entries_view(object_id_map@)),
        indent + 3 < usize::MAX,
    ensures
        final(output)@ == old(output)@ + profile_runnable_text(project, opt_string(*runnable), entries_view(object_id_map@), indent as nat),
{
    if let Some(n) = runnable {
        if let Some(ti) = target_position(project, n.as_str()) {
            let mut attrs: Vec<(String, String)> = Vec::new();
            attrs.push((string_from("runnableDebuggingMode"), string_from("0")));
            proof {
                assert(entries_view(attrs@) =~= seq![("runnableDebuggingMode"@, "0"@)]);
            }
            write_multiline_start(output, indent + 1, "BuildableProductRunnable", &attrs);
            write_buildable_reference(output, project, &project.targets[ti], object_id_map, indent + 2);
            write_end_tag(output, indent + 1, "BuildableProductRunnable");
        }
    }
}

#[verifier::spinoff_prover]
#[verifier::rlimit(60)]
fn write_profile_head(output: &mut String, project: &Project, o: &SchemeProfile, cx: &ActionContext,
    object_id_map: &Vec<(String, String)>, indent: usize)
    requires
        keys_sorted(entries_view(object_id_map@)),
        indent + 6 < usize::MAX,
    ensures
        final(output)@ == old(output)@ + profile_action_head(project, o@, cx@, entries_view(object_id_map@), indent as nat),
{
    let ghost s0 = output@;
    let attrs = profile_action_attrs(o, &cx.default_config);
    write_multiline_start(output, indent, "ProfileAction", &attrs);
    let ghost a = output@;
    write_profile_runnable(output, project, &cx.runnable, object_id_map, indent);
    let ghost b = output@;
    write_profile_arguments(output, o, cx.emit_empty_arguments, indent + 1);
    proof {
        assert(output@ =~= s0 + profile_action_head(project, o@, cx@, entries_view(object_id_map@), indent as nat));
    }
}

#[verifier::spinoff_prover]
#[verifier::rlimit(60)]
fn write_profile_tail(output: &mut String, project: &Project, o: &SchemeProfile, cx: &ActionContext,
    object_id_map: &Vec<(String, String)>, indent: usize)
    requires
        keys_sorted(entries_view(object_id_map@)),
        indent + 6 < usize::MAX,
    ensures
        final(output)@ == old(output)@ + profile_action_tail(project, o@, cx@, entries_view(object_id_map@), indent as nat),
{
    let ghost s0 = output@;
    write_macro_expansion(output, project, as_opt_str(&cx.macro_expansion), object_id_map, indent + 1);
    let ghost a = output@;
    crate::scheme::write_environment_variables(output, &o.environment_variables, indent + 1);
    let ghost b = output@;
    write_end_tag(output, indent, "ProfileAction");
    proof {
        assert(output@ =~= s0 + profile_action_tail(project, o@, cx@, entries_view(object_id_map@), indent as nat));
    }
}

/// Appends a scheme's profile action: the product it profiles, with its
/// configuration and environment.
#[verifier::spinoff_prover]
#[verifier::rlimit(60)]
pub fn write_profile_action(output: &mut String, project: &Project, o: &SchemeProfile, cx: &ActionContext,
    object_id_map: &Vec<(String, String)>, indent: usize)
    requires
        keys_sorted(entries_view(object_id_map@)),
        indent + 6 < usize::MAX,
    ensures
        final(output)@ == old(output)@ + profile_action_text(project, o@, cx@, entries_view(object_id_map@), indent as nat),
{
    let ghost s0 = output@;
    write_profile_head(output, project, o, cx, object_id_map, indent);
    write_profile_tail(output, project, o, cx, object_id_map, indent);
    proof {
        assert(output@ =~= s0 + profile_action_text(project, o@, cx@, entries_view(object_id_map@), indent as nat));
    }
}

} // verus!
