//! Run-script build phases and build rules of a target.
use vstd::prelude::*;
use crate::depth::{lemma_array_below, lemma_fields_below};
use crate::generator::{PbxGenerator, adds_at, all_refs, field_cap, lemma_add_adds_at, push_ref, stored_as};
use crate::graph::{PbxObject, PbxValue, PVal, all_items_view, object_id_spec, pdepth};
use crate::rules::{normalize_build_setting_paths, normalized_path, string_array};
use crate::smap::lookup;
use crate::target_defaults::join_with;
use crate::target_presets::strs;
use crate::text::{concat2, concat3, ends_with_seq, ends_with_str, push_str, str_eq, string_from};
use crate::configs::{config_names, config_names_spec};
use crate::files::BuildPhase;
use crate::generator::FileBuildRefs;
use crate::json::JsonValue;
use crate::model::{Project, Target};
use crate::products::ProductType;
use crate::rules::{json_bool_spec, json_bool_value, json_string_spec, json_string_value};
use crate::settings::{find_config_settings, json_settings_of};

verus! {

/// What a run script runs: its text, or a file the text was read from.
pub enum BuildScriptKind {
    Script(String),
    Path { path: String, text: String },
}

/// A run script of a target.
pub struct BuildScript {
    pub name: Option<String>,
    pub script: BuildScriptKind,
    pub input_files: Vec<String>,
    pub output_files: Vec<String>,
    pub input_file_lists: Vec<String>,
    pub output_file_lists: Vec<String>,
    pub shell: Option<String>,
    pub run_only_when_installing: bool,
    pub show_env_vars: bool,
    pub based_on_dependency_analysis: bool,
    pub discovered_dependency_file: Option<String>,
}

/// The files a build rule applies to: a file type, or a name pattern.
pub enum BuildRuleFileType {
    Type(String),
    Pattern(String),
}

/// What a build rule does: run a compiler, or a script.
pub enum BuildRuleAction {
    CompilerSpec(String),
    Script(String),
}

/// A build rule of a target.
pub struct BuildRule {
    pub name: Option<String>,
    pub file_type: BuildRuleFileType,
    pub action: BuildRuleAction,
    pub output_files: Vec<String>,
    pub output_files_compiler_flags: Vec<String>,
    pub run_once_per_architecture: bool,
}

/// The views of a list of strings.
pub open spec fn views(v: Seq<String>) -> Seq<Seq<char>> {
    v.map_values(|s: String| s@)
}

/// An optional name, or a default.
pub open spec fn name_or(name: Option<String>, default: Seq<char>) -> Seq<char> {
    match name {
        Some(n) => n@,
        None => default,
    }
}

/// The name a run script is shown under.
pub open spec fn script_name(s: BuildScript) -> Seq<char> {
    name_or(s.name, "Run Script"@)
}

/// The text a run script runs.
pub open spec fn script_text(s: BuildScript) -> Seq<char> {
    match s.script {
        BuildScriptKind::Script(t) => t@,
        BuildScriptKind::Path { text, .. } => text@,
    }
}

/// What tells run scripts of a target apart: the name, the script or the
/// path of its file, and the input and output files, joined by colons.
pub open spec fn build_script_key_spec(s: BuildScript) -> Seq<char> {
    let source = match s.script {
        BuildScriptKind::Script(t) => t@,
        BuildScriptKind::Path { path, .. } => path@,
    };
    script_name(s) + ":"@ + source + ":"@ + join_with(views(s.input_files@), ","@) + ":"@ + join_with(
        views(s.output_files@),
        ","@,
    )
}

/// Strings joined with a separator.
pub fn join_strings(v: &Vec<String>, sep: &str) -> (r: String)
    ensures
        r@ == join_with(views(v@), sep@),
{
    let mut out = String::new();
    let mut i: usize = 0;
    while i < v.len()
        invariant
            i <= v@.len(),
            out@ == join_with(views(v@.take(i as int)), sep@),
        decreases v.len() - i,
    {
        let ghost before = views(v@.take(i as int));
        proof {
            assert(views(v@.take(i + 1)) =~= before.push(v@[i as int]@));
            assert(before.push(v@[i as int]@).drop_last() =~= before);
        }
        if i > 0 {
            push_str(&mut out, sep);
        }
        push_str(&mut out, v[i].as_str());
        proof {
            if i == 0 {
                assert(before.len() == 0);
                assert(out@ =~= join_with(views(v@.take(i + 1)), sep@));
            } else {
                assert(out@ =~= join_with(views(v@.take(i + 1)), sep@));
            }
        }
        i = i + 1;
    }
    proof {
        assert(v@.take(i as int) =~= v@);
    }
    out
}

/// What tells run scripts of a target apart.
pub fn build_script_key(s: &BuildScript) -> (r: String)
    ensures
        r@ == build_script_key_spec(*s),
{
    let name = match &s.name {
        Some(n) => n.clone(),
        None => string_from("Run Script"),
    };
    let source = match &s.script {
        BuildScriptKind::Script(t) => t.as_str(),
        BuildScriptKind::Path { path, .. } => path.as_str(),
    };
    let inputs = join_strings(&s.input_files, ",");
    let outputs = join_strings(&s.output_files, ",");
    let mut out = concat3(name.as_str(), ":", source);
    push_str(&mut out, ":");
    push_str(&mut out, inputs.as_str());
    push_str(&mut out, ":");
    push_str(&mut out, outputs.as_str());
    out
}

/// Paths with a directory prefix before their first build setting dropped,
/// as a project value.
pub open spec fn normalized_paths(v: Seq<String>) -> PVal {
    strs(views(v).map_values(|p: Seq<char>| normalized_path(p)))
}

/// A field every run-script phase has.
pub open spec fn script_base_field(k: Seq<char>, s: BuildScript) -> Option<PVal> {
    if k == "buildActionMask"@ {
        Some(PVal::Int(2147483647))
    } else if k == "files"@ {
        Some(PVal::Array(Seq::empty()))
    } else if k == "inputFileListPaths"@ {
        Some(normalized_paths(s.input_file_lists@))
    } else if k == "inputPaths"@ {
        Some(normalized_paths(s.input_files@))
    } else if k == "outputFileListPaths"@ {
        Some(normalized_paths(s.output_file_lists@))
    } else if k == "outputPaths"@ {
        Some(normalized_paths(s.output_files@))
    } else if k == "runOnlyForDeploymentPostprocessing"@ {
        Some(PVal::Int(if s.run_only_when_installing { 1 } else { 0 }))
    } else if k == "shellPath"@ {
        Some(PVal::Str(name_or(s.shell, "/bin/sh"@)))
    } else if k == "shellScript"@ {
        Some(PVal::Str(script_text(s)))
    } else {
        None
    }
}

/// A field of a run-script phase: the fields every phase has, its name
/// where the script has one, `showEnvVarsInLog` off where the script hides
/// its environment, `alwaysOutOfDate` where it does not go by dependency
/// analysis, and its dependency file where it names one.
pub open spec fn script_field(k: Seq<char>, s: BuildScript) -> Option<PVal> {
    if k == "name"@ {
        match s.name {
            Some(n) => Some(PVal::Str(n@)),
            None => None,
        }
    } else if k == "showEnvVarsInLog"@ {
        if s.show_env_vars { None } else { Some(PVal::Int(0)) }
    } else if k == "alwaysOutOfDate"@ {
        if s.based_on_dependency_analysis { None } else { Some(PVal::Int(1)) }
    } else if k == "dependencyFile"@ {
        match s.discovered_dependency_file {
            Some(f) => Some(PVal::Str(f@)),
            None => None,
        }
    } else {
        script_base_field(k, s)
    }
}

/// A list of paths, normalized, as a project value.
fn normalized_paths_value(v: &Vec<String>) -> (r: PbxValue)
    ensures
        r@ == normalized_paths(v@),
        pdepth(r@) <= 1,
{
    let n = normalize_build_setting_paths(v);
    let r = string_array(&n);
    proof {
        let items = r@->Array_0;
        assert(items =~= views(v@).map_values(|p: Seq<char>| normalized_path(p)).map_values(|s: Seq<char>| PVal::Str(s)));
        assert forall|i: int| 0 <= i < items.len() implies pdepth(#[trigger] items[i]) < 1 by {
            assert(items[i] is Str);
        }
        lemma_array_below(items, 1);
    }
    r
}

/// A list of strings as a project value.
pub(crate) fn strings_value(v: &Vec<String>) -> (r: PbxValue)
    ensures
        r@ == strs(views(v@)),
        pdepth(r@) <= 1,
{
    let r = string_array(v);
    proof {
        let items = r@->Array_0;
        assert(items =~= views(v@).map_values(|s: Seq<char>| PVal::Str(s)));
        assert forall|i: int| 0 <= i < items.len() implies pdepth(#[trigger] items[i]) < 1 by {
            assert(items[i] is Str);
        }
        lemma_array_below(items, 1);
    }
    r
}

/// The fields every run-script phase of a script has.
#[verifier::spinoff_prover]
#[verifier::rlimit(60)]
fn shell_script_base_object(s: &BuildScript, name: String) -> (r: PbxObject)
    ensures
        r.wf(),
        r@.isa == "PBXShellScriptBuildPhase"@,
        r@.comment == Some(name@),
        forall|k: Seq<char>| #[trigger] lookup(r@.fields, k) == script_base_field(k, *s),
        forall|k: Seq<char>| #[trigger] lookup(r@.fields, k) is Some ==> pdepth(lookup(r@.fields, k)->0) <= 1,
{
    let text = match &s.script {
        BuildScriptKind::Script(t) => t.clone(),
        BuildScriptKind::Path { text, .. } => text.clone(),
    };
    let shell = match &s.shell {
        Some(sh) => sh.clone(),
        None => string_from("/bin/sh"),
    };
    let no_files: Vec<PbxValue> = Vec::new();
    proof {
        reveal_strlit("buildActionMask");
        reveal_strlit("files");
        reveal_strlit("inputFileListPaths");
        reveal_strlit("inputPaths");
        reveal_strlit("outputFileListPaths");
        reveal_strlit("outputPaths");
        reveal_strlit("runOnlyForDeploymentPostprocessing");
        reveal_strlit("shellPath");
        reveal_strlit("shellScript");
        assert(no_files@.len() == 0);
        assert(all_items_view(no_files@) =~= Seq::<PVal>::empty());
        lemma_array_below(Seq::<PVal>::empty(), 1);
    }
    PbxObject::new("PBXShellScriptBuildPhase", name)
        .field("buildActionMask", PbxValue::Int(2147483647))
        .field("files", PbxValue::Array(no_files))
        .field("inputFileListPaths", normalized_paths_value(&s.input_file_lists))
        .field("inputPaths", normalized_paths_value(&s.input_files))
        .field("outputFileListPaths", normalized_paths_value(&s.output_file_lists))
        .field("outputPaths", normalized_paths_value(&s.output_files))
        .field("runOnlyForDeploymentPostprocessing", PbxValue::Int(if s.run_only_when_installing { 1 } else { 0 }))
        .field("shellPath", PbxValue::String(shell))
        .field("shellScript", PbxValue::String(text))
}

/// The run-script phase object of a script.
#[verifier::spinoff_prover]
#[verifier::rlimit(60)]
pub fn shell_script_object(s: &BuildScript) -> (r: PbxObject)
    ensures
        r.wf(),
        r@.isa == "PBXShellScriptBuildPhase"@,
        r@.comment == Some(script_name(*s)),
        forall|k: Seq<char>| #[trigger] lookup(r@.fields, k) == script_field(k, *s),
        forall|k: Seq<char>| #[trigger] lookup(r@.fields, k) is Some ==> pdepth(lookup(r@.fields, k)->0) <= 1,
{
    let name = match &s.name {
        Some(n) => n.clone(),
        None => string_from("Run Script"),
    };
    let mut object = shell_script_base_object(s, name.clone());
    let ghost base = object@.fields;
    proof {
        reveal_strlit("buildActionMask");
        reveal_strlit("files");
        reveal_strlit("inputFileListPaths");
        reveal_strlit("inputPaths");
        reveal_strlit("outputFileListPaths");
        reveal_strlit("outputPaths");
        reveal_strlit("runOnlyForDeploymentPostprocessing");
        reveal_strlit("shellPath");
        reveal_strlit("shellScript");
        reveal_strlit("name");
        reveal_strlit("showEnvVarsInLog");
        reveal_strlit("alwaysOutOfDate");
        reveal_strlit("dependencyFile");
    }
    if s.name.is_some() {
        object = object.field("name", PbxValue::String(name));
    }
    let ghost f1 = object@.fields;
    if !s.show_env_vars {
        object = object.field("showEnvVarsInLog", PbxValue::Int(0));
    }
    let ghost f2 = object@.fields;
    if !s.based_on_dependency_analysis {
        object = object.field("alwaysOutOfDate", PbxValue::Int(1));
    }
    let ghost f3 = object@.fields;
    if let Some(f) = &s.discovered_dependency_file {
        object = object.field("dependencyFile", PbxValue::String(f.clone()));
    }
    proof {
        assert(lookup(object@.fields, "name"@) == script_field("name"@, *s));
        assert(lookup(object@.fields, "showEnvVarsInLog"@) == script_field("showEnvVarsInLog"@, *s));
        assert(lookup(object@.fields, "alwaysOutOfDate"@) == script_field("alwaysOutOfDate"@, *s));
        assert(lookup(object@.fields, "dependencyFile"@) == script_field("dependencyFile"@, *s));
        assert(lookup(object@.fields, "shellPath"@) == script_field("shellPath"@, *s));
        assert forall|k: Seq<char>| #[trigger] lookup(object@.fields, k) == script_field(k, *s) by {
            if k != "dependencyFile"@ {
                assert(lookup(object@.fields, k) == lookup(f3, k));
            }
            if k != "alwaysOutOfDate"@ {
                assert(lookup(f3, k) == lookup(f2, k));
            }
            if k != "showEnvVarsInLog"@ {
                assert(lookup(f2, k) == lookup(f1, k));
            }
            if k != "name"@ {
                assert(lookup(f1, k) == lookup(base, k));
            }
        }
    }
    object
}

/// The name a build rule is shown under.
pub open spec fn rule_name(r: BuildRule) -> Seq<char> {
    name_or(r.name, "Build Rule"@)
}

/// A field of a build rule.
pub open spec fn rule_field(k: Seq<char>, r: BuildRule) -> Option<PVal> {
    if k == "compilerSpec"@ {
        Some(PVal::Str(match r.action {
            BuildRuleAction::CompilerSpec(c) => c@,
            BuildRuleAction::Script(_) => "com.apple.compilers.proxy.script"@,
        }))
    } else if k == "fileType"@ {
        Some(PVal::Str(match r.file_type {
            BuildRuleFileType::Type(t) => t@,
            BuildRuleFileType::Pattern(_) => "pattern.proxy"@,
        }))
    } else if k == "isEditable"@ {
        Some(PVal::Int(1))
    } else if k == "name"@ {
        Some(PVal::Str(rule_name(r)))
    } else if k == "outputFiles"@ {
        Some(strs(views(r.output_files@)))
    } else if k == "outputFilesCompilerFlags"@ {
        Some(strs(views(r.output_files_compiler_flags@)))
    } else if k == "runOncePerArchitecture"@ {
        Some(PVal::Int(if r.run_once_per_architecture { 1 } else { 0 }))
    } else if k == "filePatterns"@ {
        match r.file_type {
            BuildRuleFileType::Pattern(p) => Some(PVal::Str(p@)),
            BuildRuleFileType::Type(_) => None,
        }
    } else if k == "script"@ {
        match r.action {
            BuildRuleAction::Script(s) => Some(PVal::Str(s@)),
            BuildRuleAction::CompilerSpec(_) => None,
        }
    } else {
        None
    }
}

/// The build rule object of a rule.
#[verifier::spinoff_prover]
#[verifier::rlimit(60)]
pub fn build_rule_object(rule: &BuildRule) -> (r: PbxObject)
    ensures
        r.wf(),
        r@.isa == "PBXBuildRule"@,
        r@.comment == Some(rule_name(*rule)),
        forall|k: Seq<char>| #[trigger] lookup(r@.fields, k) == rule_field(k, *rule),
        forall|k: Seq<char>| #[trigger] lookup(r@.fields, k) is Some ==> pdepth(lookup(r@.fields, k)->0) <= 1,
{
    let name = match &rule.name {
        Some(n) => n.clone(),
        None => string_from("Build Rule"),
    };
    let file_type = match &rule.file_type {
        BuildRuleFileType::Type(t) => t.clone(),
        BuildRuleFileType::Pattern(_) => string_from("pattern.proxy"),
    };
    let compiler_spec = match &rule.action {
        BuildRuleAction::CompilerSpec(c) => c.clone(),
        BuildRuleAction::Script(_) => string_from("com.apple.compilers.proxy.script"),
    };
    proof {
        reveal_strlit("compilerSpec");
        reveal_strlit("fileType");
        reveal_strlit("isEditable");
        reveal_strlit("name");
        reveal_strlit("outputFiles");
        reveal_strlit("outputFilesCompilerFlags");
        reveal_strlit("runOncePerArchitecture");
        reveal_strlit("filePatterns");
        reveal_strlit("script");
    }
    let mut object = PbxObject::new("PBXBuildRule", name.clone())
        .field("compilerSpec", PbxValue::String(compiler_spec))
        .field("fileType", PbxValue::String(file_type))
        .field("isEditable", PbxValue::Int(1))
        .field("name", PbxValue::String(name))
        .field("outputFiles", strings_value(&rule.output_files))
        .field("outputFilesCompilerFlags", strings_value(&rule.output_files_compiler_flags))
        .field("runOncePerArchitecture", PbxValue::Int(if rule.run_once_per_architecture { 1 } else { 0 }));
    if let BuildRuleFileType::Pattern(p) = &rule.file_type {
        object = object.field("filePatterns", PbxValue::String(p.clone()));
    }
    if let BuildRuleAction::Script(s) = &rule.action {
        object = object.field("script", PbxValue::String(s.clone()));
    }
    object
}

impl<'a> PbxGenerator<'a> {
    /// Stores a run-script phase of a target under `shellScript:`, the
    /// target's name and the script's key.
    pub fn add_shell_script_build_phase(&mut self, target_name: &str, script: &BuildScript) -> (r: String)
        requires
            old(self).inv(),
        ensures
            final(self).inv(),
            crate::generator::keeps_natives(old(self).graph, final(self).graph),
            final(self).project == old(self).project,
            final(self).product_refs == old(self).product_refs,
            r@ == object_id_spec("shellScript:"@ + target_name@ + ":"@ + build_script_key_spec(*script), 0),
            adds_at(old(self).graph, final(self).graph, r@),
            stored_as(old(self).graph, final(self).graph, r@, "PBXShellScriptBuildPhase"@, script_name(*script),
                |k: Seq<char>| script_field(k, *script)),
    {
        let object = shell_script_object(script);
        proof {
            lemma_fields_below(object@.fields, field_cap());
        }
        let script_key = build_script_key(script);
        let key = concat3("shellScript:", target_name, ":");
        let key = concat2(key.as_str(), script_key.as_str());
        let ghost g0 = self.graph;
        let ghost o = object@;
        proof {
            reveal_strlit("PBXShellScriptBuildPhase");
            assert("PBXShellScriptBuildPhase"@.len() == 24);
            crate::generator::lemma_other_class("PBXShellScriptBuildPhase"@);
        }
        let r = self.add_object(key.as_str(), object);
        proof {
            lemma_add_adds_at(g0, self.graph, key@, o, r@);
            assert(key@ == "shellScript:"@ + target_name@ + ":"@ + build_script_key_spec(*script));
        }
        r
    }

    /// Stores the run-script phases of a list of scripts, in order, and
    /// gives references to them.
    pub fn shell_script_phases(&mut self, target_name: &str, scripts: &Vec<BuildScript>) -> (r: Vec<PbxValue>)
        requires
            old(self).inv(),
        ensures
            final(self).inv(),
            crate::generator::keeps_natives(old(self).graph, final(self).graph),
            final(self).project == old(self).project,
            final(self).product_refs == old(self).product_refs,
            r@.len() == scripts@.len(),
            all_refs(all_items_view(r@)),
            forall|i: int| 0 <= i < scripts@.len() ==> (#[trigger] r@[i])@ == PVal::Ref(
                object_id_spec("shellScript:"@ + target_name@ + ":"@ + build_script_key_spec(scripts@[i]), 0),
                Some(script_name(scripts@[i])),
            ),
    {
        let mut out: Vec<PbxValue> = Vec::new();
        proof {
            crate::graph::lemma_items_view(out@, 0);
        }
        let mut i: usize = 0;
        while i < scripts.len()
            invariant
                self.inv(),
                crate::generator::keeps_natives(old(self).graph, self.graph),
                self.project == old(self).project,
                self.product_refs == old(self).product_refs,
                i <= scripts@.len(),
                out@.len() == i,
                all_refs(all_items_view(out@)),
                forall|q: int| 0 <= q < i ==> (#[trigger] out@[q])@ == PVal::Ref(
                    object_id_spec("shellScript:"@ + target_name@ + ":"@ + build_script_key_spec(scripts@[q]), 0),
                    Some(script_name(scripts@[q])),
                ),
            decreases scripts.len() - i,
        {
            let script = &scripts[i];
            let id = self.add_shell_script_build_phase(target_name, script);
            let comment = match &script.name {
                Some(n) => n.clone(),
                None => string_from("Run Script"),
            };
            let ghost before = out@;
            out.push(PbxValue::reference(id, comment));
            proof {
                crate::graph::lemma_items_view(out@, out@.len() as int);
                crate::graph::lemma_items_view(before, before.len() as int);
                assert forall|q: int| 0 <= q < out@.len() implies (#[trigger] all_items_view(out@)[q]) is Ref by {
                    if q < before.len() {
                        assert(out@[q] == before[q]);
                        assert(all_items_view(before)[q] is Ref);
                    }
                }
                assert forall|q: int| 0 <= q < i + 1 implies (#[trigger] out@[q])@ == PVal::Ref(
                    object_id_spec("shellScript:"@ + target_name@ + ":"@ + build_script_key_spec(scripts@[q]), 0),
                    Some(script_name(scripts@[q])),
                ) by {
                    if q < i {
                        assert(out@[q] == before[q]);
                    }
                }
            }
            i = i + 1;
        }
        out
    }

    /// Stores a build rule of a target under `buildRule:`, the target's
    /// name and the rule's position.
    pub fn add_build_rule(&mut self, target_name: &str, index: u64, rule: &BuildRule) -> (r: String)
        requires
            old(self).inv(),
        ensures
            final(self).inv(),
            crate::generator::keeps_natives(old(self).graph, final(self).graph),
            final(self).project == old(self).project,
            final(self).product_refs == old(self).product_refs,
            adds_at(old(self).graph, final(self).graph, r@),
            stored_as(old(self).graph, final(self).graph, r@, "PBXBuildRule"@, rule_name(*rule),
                |k: Seq<char>| rule_field(k, *rule)),
    {
        let object = build_rule_object(rule);
        proof {
            lemma_fields_below(object@.fields, field_cap());
        }
        let mut key = concat3("buildRule:", target_name, ":");
        crate::text::push_dec_u64(&mut key, index);
        let ghost g0 = self.graph;
        let ghost o = object@;
        proof {
            reveal_strlit("PBXBuildRule");
            assert("PBXBuildRule"@.len() == 12);
            crate::generator::lemma_other_class("PBXBuildRule"@);
        }
        let r = self.add_object(key.as_str(), object);
        proof {
            lemma_add_adds_at(g0, self.graph, key@, o, r@);
        }
        r
    }

    /// Stores the build rules of a target, in order, and gives references
    /// to them.
    pub fn build_rules(&mut self, target_name: &str, rules: &Vec<BuildRule>) -> (r: Vec<PbxValue>)
        requires
            old(self).inv(),
        ensures
            final(self).inv(),
            crate::generator::keeps_natives(old(self).graph, final(self).graph),
            final(self).project == old(self).project,
            final(self).product_refs == old(self).product_refs,
            r@.len() == rules@.len(),
            all_refs(all_items_view(r@)),
    {
        let mut out: Vec<PbxValue> = Vec::new();
        proof {
            crate::graph::lemma_items_view(out@, 0);
        }
        let mut i: usize = 0;
        while i < rules.len()
            invariant
                self.inv(),
                crate::generator::keeps_natives(old(self).graph, self.graph),
                self.project == old(self).project,
                self.product_refs == old(self).product_refs,
                i <= rules@.len(),
                out@.len() == i,
                all_refs(all_items_view(out@)),
            decreases rules.len() - i,
        {
            let rule = &rules[i];
            let id = self.add_build_rule(target_name, i as u64, rule);
            let comment = match &rule.name {
                Some(n) => n.clone(),
                None => string_from("Build Rule"),
            };
            push_ref(&mut out, id, comment.as_str());
            i = i + 1;
        }
        out
    }
}


/// The value a list of settings ends up giving a key: that of its last
/// entry with the key.
pub open spec fn last_setting(es: Seq<(String, JsonValue)>, key: Seq<char>) -> Option<JsonValue>
    decreases es.len(),
{
    if es.len() == 0 {
        None
    } else if es.last().0@ == key {
        Some(es.last().1)
    } else {
        last_setting(es.drop_last(), key)
    }
}

pub(crate) fn find_last_setting<'a>(es: &'a Vec<(String, JsonValue)>, key: &str) -> (r: Option<&'a JsonValue>)
    ensures
        match r {
            Some(v) => last_setting(es@, key@) == Some(*v),
            None => last_setting(es@, key@) is None,
        },
{
    let mut i: usize = es.len();
    proof {
        assert(es@.take(es@.len() as int) =~= es@);
    }
    while i > 0
        invariant
            i <= es@.len(),
            last_setting(es@, key@) == last_setting(es@.take(i as int), key@),
        decreases i,
    {
        proof {
            assert(es@.take(i as int).drop_last() =~= es@.take(i - 1));
            assert(es@.take(i as int).last() == es@[i - 1]);
        }
        if str_eq(es[i - 1].0.as_str(), key) {
            return Some(&es[i - 1].1);
        }
        i = i - 1;
    }
    proof {
        assert(es@.take(0) =~= Seq::<(String, JsonValue)>::empty());
    }
    None
}

/// The first configuration of a project.
pub open spec fn first_config_name(project: &Project) -> Seq<char> {
    if config_names_spec(project).len() > 0 { config_names_spec(project)[0] } else { "Debug"@ }
}

/// Whether a static library copies the Objective-C interface header of its
/// Swift sources: it compiles Swift, and its settings for the first
/// configuration neither empty the header's name nor turn installing it off.
pub open spec fn copies_swift_objc_header_spec(project: &Project, t: Target, files: Seq<FileBuildRefs>) -> bool {
    let es = json_settings_of(t.settings@, first_config_name(project), t.settings@.len() as int);
    &&& t.target_type == ProductType::StaticLibrary
    &&& exists|i: int| 0 <= i < files.len() && (#[trigger] files[i]).build_phase == Some(BuildPhase::Sources)
        && ends_with_seq(files[i].name@, ".swift"@)
    &&& !(last_setting(es, "SWIFT_OBJC_INTERFACE_HEADER_NAME"@) matches Some(j) && json_string_spec(&j) == Some(""@))
    &&& match last_setting(es, "SWIFT_INSTALL_OBJC_HEADER"@) {
        Some(j) => json_bool_spec(&j) != Some(false),
        None => true,
    }
}

fn compiles_swift(files: &Vec<FileBuildRefs>) -> (r: bool)
    ensures
        r == exists|i: int| 0 <= i < files@.len() && (#[trigger] files@[i]).build_phase == Some(BuildPhase::Sources)
            && ends_with_seq(files@[i].name@, ".swift"@),
{
    let mut i: usize = 0;
    while i < files.len()
        invariant
            i <= files@.len(),
            forall|q: int| 0 <= q < i ==> !((#[trigger] files@[q]).build_phase == Some(BuildPhase::Sources)
                && ends_with_seq(files@[q].name@, ".swift"@)),
        decreases files.len() - i,
    {
        let is_sources = match files[i].build_phase {
            Some(BuildPhase::Sources) => true,
            _ => false,
        };
        if is_sources && ends_with_str(files[i].name.as_str(), ".swift") {
            return true;
        }
        i = i + 1;
    }
    false
}

/// Whether a static library copies the Objective-C interface header of its
/// Swift sources.
pub fn should_copy_swift_objc_header(project: &Project, t: &Target, files: &Vec<FileBuildRefs>) -> (r: bool)
    ensures
        r == copies_swift_objc_header_spec(project, *t, files@),
{
    let is_static = match t.target_type {
        ProductType::StaticLibrary => true,
        _ => false,
    };
    if !is_static || !compiles_swift(files) {
        return false;
    }
    let names = config_names(project);
    let config = if names.len() > 0 { names[0].clone() } else { string_from("Debug") };
    proof {
        let nv = names@.map_values(|s: String| s@);
        if names@.len() > 0 {
            assert(nv[0] == names@[0]@);
        }
    }
    proof {
        assert(config@ == first_config_name(project));
    }
    let empty: Vec<(String, JsonValue)> = Vec::new();
    proof {
        assert(empty@ =~= Seq::<(String, JsonValue)>::empty());
    }
    let es = match find_config_settings(&t.settings, config.as_str()) {
        Some(i) => &t.settings[i].1,
        None => &empty,
    };
    let empty_name = match find_last_setting(es, "SWIFT_OBJC_INTERFACE_HEADER_NAME") {
        Some(j) => match json_string_value(j) {
            Some(v) => str_eq(v.as_str(), ""),
            None => false,
        },
        None => false,
    };
    if empty_name {
        return false;
    }
    match find_last_setting(es, "SWIFT_INSTALL_OBJC_HEADER") {
        Some(j) => match json_bool_value(j) {
            Some(b) => b,
            None => true,
        },
        None => true,
    }
}

/// A field of the phase that copies the Objective-C interface header.
pub open spec fn header_phase_field(k: Seq<char>) -> Option<PVal> {
    if k == "buildActionMask"@ {
        Some(PVal::Int(2147483647))
    } else if k == "files"@ {
        Some(PVal::Array(Seq::empty()))
    } else if k == "inputPaths"@ {
        Some(strs(seq!["$(DERIVED_SOURCES_DIR)/$(SWIFT_OBJC_INTERFACE_HEADER_NAME)"@]))
    } else if k == "name"@ {
        Some(PVal::Str("Copy Swift Objective-C Interface Header"@))
    } else if k == "outputPaths"@ {
        Some(strs(seq!["$(BUILT_PRODUCTS_DIR)/include/$(PRODUCT_MODULE_NAME)/$(SWIFT_OBJC_INTERFACE_HEADER_NAME)"@]))
    } else if k == "runOnlyForDeploymentPostprocessing"@ {
        Some(PVal::Int(0))
    } else if k == "shellPath"@ {
        Some(PVal::Str("/bin/sh"@))
    } else if k == "shellScript"@ {
        Some(PVal::Str("ditto \"${SCRIPT_INPUT_FILE_0}\" \"${SCRIPT_OUTPUT_FILE_0}\"\n"@))
    } else {
        None
    }
}

fn one_string(s: &str) -> (r: PbxValue)
    ensures
        r@ == strs(seq![s@]),
        pdepth(r@) <= 1,
{
    let mut v: Vec<String> = Vec::new();
    v.push(string_from(s));
    proof {
        assert(views(v@) =~= seq![s@]);
    }
    strings_value(&v)
}

impl<'a> PbxGenerator<'a> {
    /// Stores, for a static library that copies the Objective-C interface
    /// header of its Swift sources, the phase that copies it, under
    /// `swiftObjCHeader:` and the target's name.
    #[verifier::rlimit(40)]
    pub fn add_swift_objc_header_phase(&mut self, target: &Target, files: &Vec<FileBuildRefs>) -> (r: Option<String>)
        requires
            old(self).inv(),
        ensures
            final(self).inv(),
            crate::generator::keeps_natives(old(self).graph, final(self).graph),
            final(self).project == old(self).project,
            final(self).product_refs == old(self).product_refs,
            r is Some <==> copies_swift_objc_header_spec(old(self).project, *target, files@),
            match r {
                Some(id) => id@ == object_id_spec("swiftObjCHeader:"@ + target.name@, 0)
                    && adds_at(old(self).graph, final(self).graph, id@)
                    && stored_as(old(self).graph, final(self).graph, id@, "PBXShellScriptBuildPhase"@,
                        "Copy Swift Objective-C Interface Header"@, |k: Seq<char>| header_phase_field(k)),
                None => final(self).graph == old(self).graph,
            },
    {
        if !should_copy_swift_objc_header(self.project, target, files) {
            return None;
        }
        let no_files: Vec<PbxValue> = Vec::new();
        proof {
            reveal_strlit("buildActionMask");
            reveal_strlit("files");
            reveal_strlit("inputPaths");
            reveal_strlit("name");
            reveal_strlit("outputPaths");
            reveal_strlit("runOnlyForDeploymentPostprocessing");
            reveal_strlit("shellPath");
            reveal_strlit("shellScript");
            assert(all_items_view(no_files@) =~= Seq::<PVal>::empty());
            lemma_array_below(Seq::<PVal>::empty(), 1);
        }
        let object = PbxObject::new("PBXShellScriptBuildPhase", string_from("Copy Swift Objective-C Interface Header"))
            .field("buildActionMask", PbxValue::Int(2147483647))
            .field("files", PbxValue::Array(no_files))
            .field("inputPaths", one_string("$(DERIVED_SOURCES_DIR)/$(SWIFT_OBJC_INTERFACE_HEADER_NAME)"))
            .field("name", PbxValue::String(string_from("Copy Swift Objective-C Interface Header")))
            .field("outputPaths", one_string("$(BUILT_PRODUCTS_DIR)/include/$(PRODUCT_MODULE_NAME)/$(SWIFT_OBJC_INTERFACE_HEADER_NAME)"))
            .field("runOnlyForDeploymentPostprocessing", PbxValue::Int(0))
            .field("shellPath", PbxValue::String(string_from("/bin/sh")))
            .field("shellScript", PbxValue::String(string_from("ditto \"${SCRIPT_INPUT_FILE_0}\" \"${SCRIPT_OUTPUT_FILE_0}\"\n")));
        proof {
            assert forall|k: Seq<char>| #[trigger] lookup(object@.fields, k) == header_phase_field(k) by {}
            assert forall|k: Seq<char>| #[trigger] lookup(object@.fields, k) is Some implies pdepth(lookup(object@.fields, k)->0) < field_cap() by {
                assert(lookup(object@.fields, k) == header_phase_field(k));
            }
            lemma_fields_below(object@.fields, field_cap());
        }
        let key = concat2("swiftObjCHeader:", target.name.as_str());
        let ghost g0 = self.graph;
        let ghost o = object@;
        proof {
            reveal_strlit("PBXShellScriptBuildPhase");
            assert("PBXShellScriptBuildPhase"@.len() == 24);
            crate::generator::lemma_other_class("PBXShellScriptBuildPhase"@);
        }
        let r = self.add_object(key.as_str(), object);
        proof {
            lemma_add_adds_at(g0, self.graph, key@, o, r@);
        }
        Some(r)
    }
}

} // verus!
