use xgr_pbxproj::graph::{PbxObject, PbxValue};
use xgr_pbxproj::model::{DeploymentTargets, Project, SpecOptions, Target};
use xgr_pbxproj::products::{Platform, ProductType};
use xgr_pbxproj::scripts::{
    build_rule_object, build_script_key, join_strings, shell_script_object, BuildRule, BuildRuleAction,
    BuildRuleFileType, BuildScript, BuildScriptKind,
};
use xgr_pbxproj::ProjectWriter;
use xgr_pbxproj::json::JsonValue;

fn script(name: Option<&str>, text: &str) -> BuildScript {
    BuildScript {
        name: name.map(|n| n.to_owned()),
        script: BuildScriptKind::Script(text.to_owned()),
        input_files: Vec::new(),
        output_files: Vec::new(),
        input_file_lists: Vec::new(),
        output_file_lists: Vec::new(),
        shell: None,
        run_only_when_installing: false,
        show_env_vars: true,
        based_on_dependency_analysis: true,
        discovered_dependency_file: None,
    }
}

fn field<'a>(object: &'a PbxObject, key: &str) -> Option<&'a PbxValue> {
    object.fields.iter().find(|(k, _)| k == key).map(|(_, v)| v)
}

fn str_field(object: &PbxObject, key: &str) -> Option<String> {
    match field(object, key) {
        Some(PbxValue::String(s)) => Some(s.clone()),
        _ => None,
    }
}

fn int_field(object: &PbxObject, key: &str) -> Option<i64> {
    match field(object, key) {
        Some(PbxValue::Int(i)) => Some(*i),
        _ => None,
    }
}

fn strs_field(object: &PbxObject, key: &str) -> Option<Vec<String>> {
    match field(object, key) {
        Some(PbxValue::Array(items)) => Some(
            items
                .iter()
                .map(|i| match i {
                    PbxValue::String(s) => s.clone(),
                    _ => "?".to_owned(),
                })
                .collect(),
        ),
        _ => None,
    }
}

fn target() -> Target {
    Target {
        name: "App".to_owned(),
        product_name: "App".to_owned(),
        target_type: ProductType::Application,
        platform: Platform::Ios,
        product_filename: "App.app".to_owned(),
        files: vec!["Sources/App/Main.swift".to_owned(), "Sources/App/Assets.xcassets".to_owned()],
        dependencies: Vec::new(),
        settings: Vec::new(),
        attributes: Vec::new(),
        info_plist: None,
        entitlements_plist: None,
        target_scheme: None,
        only_copy_files_on_install: false,
        requires_objc_linking: None,
        supported_destinations: Vec::new(),
        deployment_target: None,
        pre_build_scripts: Vec::new(),
        post_compile_scripts: Vec::new(),
        post_build_scripts: Vec::new(),
        build_rules: Vec::new(),
        put_resources_before_sources_build_phase: false,
        transitively_link_dependencies: None,
        legacy: None,
    }
}

fn project(t: Target) -> Project {
    Project {
        name: "Demo".to_owned(),
        configs: Vec::new(),
        settings: Vec::new(),
        attributes: Vec::new(),
        targets: vec![t],
        aggregate_targets: Vec::new(),
        options: SpecOptions {
            development_language: None,
            default_config: None,
            indent_width: None,
            tab_width: None,
            uses_tabs: None,
            use_base_internationalization: true,
            setting_presets_none: false,
            scheme_path_prefix: None,
            xcode_version: None,
            bundle_id_prefix: None,
            transitively_link_dependencies: false,
            deployment_target: DeploymentTargets { ios: None, macos: None, tvos: None, watchos: None, visionos: None },
        },
        schemes: Vec::new(),
        breakpoints: Vec::new(),
        regions: Vec::new(),
    }
}

fn build_phases_of(pbxproj: &str) -> String {
    let start = pbxproj.find("buildPhases = (").expect("a target with build phases");
    let rest = &pbxproj[start..];
    let end = rest.find(");").expect("the end of the build phases");
    rest[..end].to_owned()
}

#[test]
fn strings_join_with_a_separator() {
    assert_eq!(join_strings(&vec!["a".to_owned(), "b".to_owned(), "c".to_owned()], ","), "a,b,c");
    assert_eq!(join_strings(&vec!["a".to_owned()], ","), "a");
    assert_eq!(join_strings(&Vec::new(), ","), "");
}

#[test]
fn a_script_key_holds_its_name_text_and_files() {
    let mut s = script(None, "echo hi");
    s.input_files = vec!["a".to_owned(), "b".to_owned()];
    s.output_files = vec!["c".to_owned()];
    assert_eq!(build_script_key(&s), "Run Script:echo hi:a,b:c");
    let mut s = script(Some("Lint"), "ignored");
    s.script = BuildScriptKind::Path { path: "scripts/lint.sh".to_owned(), text: "swiftlint".to_owned() };
    assert_eq!(build_script_key(&s), "Lint:scripts/lint.sh::");
}

#[test]
fn a_script_phase_holds_its_defaults() {
    let s = script(None, "echo hi");
    let object = shell_script_object(&s);
    assert_eq!(object.isa, "PBXShellScriptBuildPhase");
    assert_eq!(object.comment.as_deref(), Some("Run Script"));
    assert_eq!(int_field(&object, "buildActionMask"), Some(2147483647));
    assert_eq!(str_field(&object, "shellPath"), Some("/bin/sh".to_owned()));
    assert_eq!(str_field(&object, "shellScript"), Some("echo hi".to_owned()));
    assert_eq!(int_field(&object, "runOnlyForDeploymentPostprocessing"), Some(0));
    assert!(field(&object, "name").is_none());
    assert!(field(&object, "showEnvVarsInLog").is_none());
    assert!(field(&object, "alwaysOutOfDate").is_none());
    assert!(field(&object, "dependencyFile").is_none());
    assert_eq!(strs_field(&object, "inputPaths"), Some(Vec::new()));
}

#[test]
fn a_script_phase_holds_what_its_script_sets() {
    let mut s = script(Some("Generate"), "make");
    s.script = BuildScriptKind::Path { path: "gen.sh".to_owned(), text: "./gen".to_owned() };
    s.input_files = vec!["Sources/$(SRCROOT)/in.txt".to_owned(), "plain.txt".to_owned()];
    s.output_file_lists = vec!["$(DERIVED_FILE_DIR)/out.xcfilelist".to_owned()];
    s.shell = Some("/bin/zsh".to_owned());
    s.run_only_when_installing = true;
    s.show_env_vars = false;
    s.based_on_dependency_analysis = false;
    s.discovered_dependency_file = Some("$(DERIVED_FILE_DIR)/deps.d".to_owned());
    let object = shell_script_object(&s);
    assert_eq!(str_field(&object, "name"), Some("Generate".to_owned()));
    assert_eq!(str_field(&object, "shellScript"), Some("./gen".to_owned()));
    assert_eq!(str_field(&object, "shellPath"), Some("/bin/zsh".to_owned()));
    assert_eq!(int_field(&object, "runOnlyForDeploymentPostprocessing"), Some(1));
    assert_eq!(int_field(&object, "showEnvVarsInLog"), Some(0));
    assert_eq!(int_field(&object, "alwaysOutOfDate"), Some(1));
    assert_eq!(str_field(&object, "dependencyFile"), Some("$(DERIVED_FILE_DIR)/deps.d".to_owned()));
    assert_eq!(
        strs_field(&object, "inputPaths"),
        Some(vec!["$(SRCROOT)/in.txt".to_owned(), "plain.txt".to_owned()])
    );
    assert_eq!(
        strs_field(&object, "outputFileListPaths"),
        Some(vec!["$(DERIVED_FILE_DIR)/out.xcfilelist".to_owned()])
    );
}

#[test]
fn a_pattern_rule_runs_its_script() {
    let rule = BuildRule {
        name: None,
        file_type: BuildRuleFileType::Pattern("*.proto".to_owned()),
        action: BuildRuleAction::Script("protoc $(INPUT_FILE_PATH)".to_owned()),
        output_files: vec!["$(DERIVED_FILE_DIR)/$(INPUT_FILE_BASE).swift".to_owned()],
        output_files_compiler_flags: Vec::new(),
        run_once_per_architecture: false,
    };
    let object = build_rule_object(&rule);
    assert_eq!(object.isa, "PBXBuildRule");
    assert_eq!(str_field(&object, "name"), Some("Build Rule".to_owned()));
    assert_eq!(str_field(&object, "fileType"), Some("pattern.proxy".to_owned()));
    assert_eq!(str_field(&object, "filePatterns"), Some("*.proto".to_owned()));
    assert_eq!(str_field(&object, "compilerSpec"), Some("com.apple.compilers.proxy.script".to_owned()));
    assert_eq!(str_field(&object, "script"), Some("protoc $(INPUT_FILE_PATH)".to_owned()));
    assert_eq!(int_field(&object, "isEditable"), Some(1));
    assert_eq!(int_field(&object, "runOncePerArchitecture"), Some(0));
}

#[test]
fn a_type_rule_runs_its_compiler() {
    let rule = BuildRule {
        name: Some("Metal".to_owned()),
        file_type: BuildRuleFileType::Type("sourcecode.metal".to_owned()),
        action: BuildRuleAction::CompilerSpec("com.apple.compilers.metal".to_owned()),
        output_files: Vec::new(),
        output_files_compiler_flags: vec!["-O".to_owned()],
        run_once_per_architecture: true,
    };
    let object = build_rule_object(&rule);
    assert_eq!(str_field(&object, "fileType"), Some("sourcecode.metal".to_owned()));
    assert_eq!(str_field(&object, "compilerSpec"), Some("com.apple.compilers.metal".to_owned()));
    assert!(field(&object, "filePatterns").is_none());
    assert!(field(&object, "script").is_none());
    assert_eq!(strs_field(&object, "outputFilesCompilerFlags"), Some(vec!["-O".to_owned()]));
    assert_eq!(int_field(&object, "runOncePerArchitecture"), Some(1));
}

#[test]
fn scripts_run_before_and_after_the_other_phases() {
    let mut t = target();
    t.pre_build_scripts = vec![script(Some("Lint"), "swiftlint")];
    t.post_compile_scripts = vec![script(Some("Strip"), "strip")];
    t.post_build_scripts = vec![script(Some("Upload"), "upload")];
    let generated = match ProjectWriter::generate(&project(t)) {
        Ok(g) => g,
        Err(_) => panic!("generation failed"),
    };
    let phases = build_phases_of(&generated.pbxproj);
    let lint = phases.find("/* Lint */").expect("the pre-build script");
    let sources = phases.find("/* Sources */").expect("the sources phase");
    let strip = phases.find("/* Strip */").expect("the post-compile script");
    let resources = phases.find("/* Resources */").expect("the resources phase");
    let upload = phases.find("/* Upload */").expect("the post-build script");
    assert!(lint < sources && sources < strip && strip < resources && resources < upload);
    assert!(generated.pbxproj.contains("/* Begin PBXShellScriptBuildPhase section */"));
    assert!(generated.pbxproj.contains("\t\t\tshellScript = swiftlint;\n"));
}

#[test]
fn resources_can_come_before_sources() {
    let mut t = target();
    t.put_resources_before_sources_build_phase = true;
    let generated = match ProjectWriter::generate(&project(t)) {
        Ok(g) => g,
        Err(_) => panic!("generation failed"),
    };
    let phases = build_phases_of(&generated.pbxproj);
    let sources = phases.find("/* Sources */").expect("the sources phase");
    let resources = phases.find("/* Resources */").expect("the resources phase");
    assert!(resources < sources);
}

#[test]
fn a_target_lists_its_build_rules() {
    let mut t = target();
    t.build_rules = vec![BuildRule {
        name: Some("Protos".to_owned()),
        file_type: BuildRuleFileType::Pattern("*.proto".to_owned()),
        action: BuildRuleAction::Script("protoc".to_owned()),
        output_files: Vec::new(),
        output_files_compiler_flags: Vec::new(),
        run_once_per_architecture: false,
    }];
    let generated = match ProjectWriter::generate(&project(t)) {
        Ok(g) => g,
        Err(_) => panic!("generation failed"),
    };
    assert!(generated.pbxproj.contains("/* Begin PBXBuildRule section */"));
    assert!(generated.pbxproj.contains("/* Protos */,\n"));
    assert!(generated.pbxproj.contains("\t\t\tfilePatterns = \"*.proto\";\n"));
}

fn swift_refs(name: &str) -> Vec<xgr_pbxproj::generator::FileBuildRefs> {
    vec![xgr_pbxproj::generator::FileBuildRefs {
        build_file_id: Some("ID".to_owned()),
        name: name.to_owned(),
        build_phase: Some(xgr_pbxproj::files::BuildPhase::Sources),
    }]
}

fn static_library(settings: Vec<(&str, JsonValue)>) -> Project {
    let mut t = target();
    t.name = "Kit".to_owned();
    t.product_name = "Kit".to_owned();
    t.target_type = ProductType::StaticLibrary;
    t.product_filename = "libKit.a".to_owned();
    t.files = vec!["Sources/Kit/Kit.swift".to_owned()];
    t.settings = vec![(
        "Debug".to_owned(),
        settings.into_iter().map(|(k, v)| (k.to_owned(), v)).collect(),
    )];
    project(t)
}

#[test]
fn a_swift_static_library_copies_its_objc_header() {
    use_should_copy(&static_library(Vec::new()), "Kit.swift", true);
    use_should_copy(&static_library(Vec::new()), "Kit.m", false);
    use_should_copy(
        &static_library(vec![("SWIFT_INSTALL_OBJC_HEADER", JsonValue::Bool(false))]),
        "Kit.swift",
        false,
    );
    use_should_copy(
        &static_library(vec![("SWIFT_OBJC_INTERFACE_HEADER_NAME", JsonValue::String(String::new()))]),
        "Kit.swift",
        false,
    );
    use_should_copy(
        &static_library(vec![("SWIFT_INSTALL_OBJC_HEADER", JsonValue::String("maybe".to_owned()))]),
        "Kit.swift",
        true,
    );
    let mut app = static_library(Vec::new());
    app.targets[0].target_type = ProductType::Application;
    use_should_copy(&app, "Kit.swift", false);
}

fn use_should_copy(p: &Project, file: &str, expected: bool) {
    assert_eq!(
        xgr_pbxproj::scripts::should_copy_swift_objc_header(p, &p.targets[0], &swift_refs(file)),
        expected
    );
}

#[test]
fn the_project_of_a_swift_static_library_holds_the_header_phase() {
    let generated = match ProjectWriter::generate(&static_library(Vec::new())) {
        Ok(g) => g,
        Err(_) => panic!("generation failed"),
    };
    let phases = build_phases_of(&generated.pbxproj);
    assert!(phases.contains("/* Copy Swift Objective-C Interface Header */"));
    assert!(generated
        .pbxproj
        .contains("\t\t\tshellScript = \"ditto \\\"${SCRIPT_INPUT_FILE_0}\\\" \\\"${SCRIPT_OUTPUT_FILE_0}\\\"\\n\";\n"));
}

#[test]
fn an_aggregate_target_runs_its_scripts_after_the_targets_it_names() {
    let mut p = project(target());
    p.aggregate_targets = vec![xgr_pbxproj::model::AggregateTarget {
        name: "Everything".to_owned(),
        targets: vec!["App".to_owned()],
        build_scripts: vec![script(Some("Archive"), "zip")],
        settings: vec![("Debug".to_owned(), vec![("FOO".to_owned(), JsonValue::String("bar".to_owned()))])],
    }];
    let generated = match ProjectWriter::generate(&p) {
        Ok(g) => g,
        Err(_) => panic!("generation failed"),
    };
    let text = &generated.pbxproj;
    assert!(text.contains("/* Begin PBXAggregateTarget section */"));
    assert!(text.contains("/* Everything */ = {\n\t\t\tisa = PBXAggregateTarget;\n"));
    assert!(text.contains("/* Build configuration list for PBXAggregateTarget \"Everything\" */"));
    assert!(text.contains("/* Archive */,\n"));
    assert!(text.contains("\t\t\t\tFOO = bar;\n"));
    let targets_start = text.find("\t\t\ttargets = (").expect("the project's targets");
    let targets = &text[targets_start..];
    let targets = &targets[..targets.find(");").expect("their end")];
    assert!(targets.find("/* App */").expect("the app") < targets.find("/* Everything */").expect("the aggregate"));
}

#[test]
fn a_dependency_on_an_aggregate_target_points_at_it() {
    let mut t = target();
    t.dependencies = vec![xgr_pbxproj::model::Dependency {
        reference: "Everything".to_owned(),
        dependency_type: xgr_pbxproj::model::DependencyType::Target,
        link: Some(false),
        embed: None,
        code_sign: None,
        remove_headers: false,
        weak_link: false,
        platform_filter: xgr_pbxproj::model::PlatformFilter::All,
        destination_filters: Vec::new(),
        copy_phase: None,
    }];
    let mut p = project(t);
    p.aggregate_targets = vec![xgr_pbxproj::model::AggregateTarget {
        name: "Everything".to_owned(),
        targets: Vec::new(),
        build_scripts: Vec::new(),
        settings: Vec::new(),
    }];
    let generated = match ProjectWriter::generate(&p) {
        Ok(g) => g,
        Err(_) => panic!("generation failed"),
    };
    let text = &generated.pbxproj;
    let marker = " /* Everything */ = {\n\t\t\tisa = PBXAggregateTarget;";
    let at = text.find(marker).expect("the aggregate target");
    let line_start = text[..at].rfind('\n').expect("its line") + 1;
    let aggregate_id = text[line_start..at].trim().to_owned();
    assert!(generated.pbxproj.contains(&format!("target = {aggregate_id} /* Everything */;")));
}

#[test]
fn a_legacy_target_runs_its_tool() {
    let mut t = target();
    t.name = "Make".to_owned();
    t.product_name = "Make".to_owned();
    t.target_type = ProductType::Other(String::new());
    t.legacy = Some(JsonValue::Object(vec![
        ("toolPath".to_owned(), JsonValue::String("/usr/bin/make".to_owned())),
        ("workingDirectory".to_owned(), JsonValue::String("native".to_owned())),
        ("passSettings".to_owned(), JsonValue::Bool(true)),
    ]));
    let generated = match ProjectWriter::generate(&project(t)) {
        Ok(g) => g,
        Err(_) => panic!("generation failed"),
    };
    let text = &generated.pbxproj;
    assert!(text.contains("/* Make */ = {\n\t\t\tisa = PBXLegacyTarget;\n"));
    assert!(text.contains("\t\t\tbuildToolPath = /usr/bin/make;\n"));
    assert!(text.contains("\t\t\tbuildWorkingDirectory = native;\n"));
    assert!(text.contains("\t\t\tpassBuildSettingsInEnvironment = 1;\n"));
    assert!(!text.contains("isa = PBXNativeTarget;"));
}
