use xgr_pbxproj::model::{DeploymentTargets, Project, Scheme, SchemeManagement, SpecOptions, Target, TargetScheme};
use xgr_pbxproj::products::{Platform, ProductType};
use xgr_pbxproj::scheme::{scheme_management_plist, BuildType, EnvironmentVariable, SchemeManagementState};
use xgr_pbxproj::scheme_files::{first_runnable_scheme_target, scheme_management_states, scheme_xml};
use xgr_pbxproj::schemes::{SchemeBuild, SchemeBuildTarget, SchemeRun, SchemeTestTarget};
use xgr_pbxproj::target_schemes::{scheme_files, target_scheme_xml};
use xgr_pbxproj::version::{last_upgrade_version, xcode_version_last_upgrade_check};
use xgr_pbxproj::json::JsonValue;

fn options() -> SpecOptions {
    SpecOptions {
        development_language: None,
        default_config: None,
        indent_width: None,
        tab_width: None,
        uses_tabs: None,
        use_base_internationalization: true,
        setting_presets_none: false,
        scheme_path_prefix: None,
        xcode_version: None,
        bundle_id_prefix: None,
        transitively_link_dependencies: false,
        deployment_target: DeploymentTargets { ios: None, macos: None, tvos: None, watchos: None, visionos: None },
    }
}

fn target(name: &str, target_type: ProductType, filename: &str) -> Target {
    Target {
        name: name.to_owned(),
        product_name: name.to_owned(),
        target_type,
        platform: Platform::Ios,
        product_filename: filename.to_owned(),
        files: Vec::new(),
        dependencies: Vec::new(),
        settings: Vec::new(),
        attributes: Vec::new(),
        info_plist: None,
        entitlements_plist: None,
        target_scheme: None,
        only_copy_files_on_install: false,
        requires_objc_linking: None,
        supported_destinations: Vec::new(),
        deployment_target: None,
        pre_build_scripts: Vec::new(),
        post_compile_scripts: Vec::new(),
        post_build_scripts: Vec::new(),
        build_rules: Vec::new(),
        put_resources_before_sources_build_phase: false,
        transitively_link_dependencies: None,
        legacy: None,
    }
}

fn project(targets: Vec<Target>, schemes: Vec<Scheme>) -> Project {
    Project {
        name: "Demo".to_owned(),
        configs: vec![("Debug".to_owned(), "debug".to_owned()), ("Release".to_owned(), "release".to_owned())],
        settings: Vec::new(),
        attributes: Vec::new(),
        targets,
        aggregate_targets: Vec::new(),
        options: options(),
        schemes,
        breakpoints: Vec::new(),
        regions: Vec::new(),
    }
}

fn all_types() -> Vec<BuildType> {
    vec![BuildType::Running, BuildType::Testing, BuildType::Profiling, BuildType::Analyzing, BuildType::Archiving]
}

fn build(targets: &[&str]) -> SchemeBuild {
    SchemeBuild {
        targets: targets
            .iter()
            .map(|t| SchemeBuildTarget { target: (*t).to_owned(), build_types: all_types() })
            .collect(),
        parallelize_build: true,
        build_implicit_dependencies: true,
        run_post_actions_on_failure: false,
        pre_actions: Vec::new(),
        post_actions: Vec::new(),
    }
}

fn scheme(name: &str, targets: &[&str]) -> Scheme {
    Scheme {
        name: name.to_owned(),
        management: SchemeManagement { shared: true, is_shown: None, order_hint: None },
        build: build(targets),
        test: None,
        run: None,
        profile: None,
        analyze_config: None,
        archive_config: None,
    }
}

fn target_scheme(variants: &[&str]) -> TargetScheme {
    TargetScheme {
        config_variants: variants.iter().map(|v| (*v).to_owned()).collect(),
        management: None,
        pre_actions: Vec::new(),
        post_actions: Vec::new(),
        test_targets: vec![SchemeTestTarget {
            target_reference: "AppTests".to_owned(),
            skipped: false,
            parallelizable: true,
            random_execution_order: false,
            location: None,
        }],
        gather_coverage_data: false,
        disable_main_thread_checker: false,
        stop_on_every_main_thread_checker_issue: false,
        disable_thread_performance_checker: false,
        coverage_targets: Vec::new(),
        test_plans: Vec::new(),
        environment_variables: Vec::new(),
        command_line_arguments: Vec::new(),
        store_kit_configuration: None,
        language: None,
        region: None,
    }
}

fn id_map() -> Vec<(String, String)> {
    Vec::new()
}

#[test]
fn a_declared_scheme_without_settings_gets_default_actions() {
    let p = project(vec![target("App", ProductType::Application, "App.app")], vec![scheme("App", &["App"])]);
    let xml = scheme_xml(&p, &p.schemes[0], &id_map());
    assert!(xml.starts_with("<?xml version=\"1.0\" encoding=\"UTF-8\"?>\n<Scheme\n   LastUpgradeVersion = \"1430\"\n   version = \"1.7\">\n"));
    assert!(xml.contains("   <BuildAction\n      parallelizeBuildables = \"YES\"\n      buildImplicitDependencies = \"YES\"\n      runPostActionsOnFailure = \"NO\">\n"));
    assert!(xml.contains("            BuildableName = \"App.app\"\n            BlueprintName = \"App\"\n            ReferencedContainer = \"container:Demo.xcodeproj\">\n"));
    assert!(xml.contains("   <TestAction\n      buildConfiguration = \"Debug\"\n      selectedDebuggerIdentifier = \"Xcode.DebuggerFoundation.Debugger.LLDB\"\n      selectedLauncherIdentifier = \"Xcode.DebuggerFoundation.Launcher.LLDB\"\n      shouldUseLaunchSchemeArgsEnv = \"YES\"\n      onlyGenerateCoverageForSpecifiedTargets = \"NO\">\n      <MacroExpansion>\n"));
    assert!(xml.contains("      <Testables>\n      </Testables>\n   </TestAction>\n"));
    assert!(xml.contains("      <BuildableProductRunnable\n         runnableDebuggingMode = \"0\">\n"));
    assert!(xml.contains("   <ProfileAction\n      buildConfiguration = \"Release\"\n      shouldUseLaunchSchemeArgsEnv = \"YES\"\n      savedToolIdentifier = \"\"\n      useCustomWorkingDirectory = \"NO\"\n      debugDocumentVersioning = \"YES\">\n"));
    assert!(xml.contains("   <AnalyzeAction\n      buildConfiguration = \"Debug\">\n   </AnalyzeAction>\n"));
    assert!(xml.ends_with("   <ArchiveAction\n      buildConfiguration = \"Release\"\n      revealArchiveInOrganizer = \"YES\">\n   </ArchiveAction>\n</Scheme>\n"));
    assert!(!xml.contains("CommandLineArguments"));
}

#[test]
fn a_launch_action_with_settings_writes_its_arguments_and_environment() {
    let mut s = scheme("App", &["App"]);
    s.run = Some(SchemeRun {
        config: Some("Release".to_owned()),
        debug_enabled: false,
        launch_automatically_substyle: None,
        ask_for_app_to_launch: false,
        custom_lldb_init: None,
        custom_working_directory: Some("/tmp/work".to_owned()),
        enable_gpu_frame_capture_mode: None,
        store_kit_configuration: None,
        macro_expansion: None,
        default_location: Some("London, England".to_owned()),
        disable_main_thread_checker: false,
        stop_on_every_main_thread_checker_issue: false,
        disable_thread_performance_checker: false,
        command_line_arguments: vec![("-verbose".to_owned(), true)],
        language: None,
        region: None,
        environment_variables: vec![EnvironmentVariable { variable: "MODE".to_owned(), value: "a&b".to_owned(), enabled: true }],
    });
    let p = project(vec![target("App", ProductType::Application, "App.app")], vec![s]);
    let xml = scheme_xml(&p, &p.schemes[0], &id_map());
    assert!(xml.contains("   <LaunchAction\n      buildConfiguration = \"Release\"\n      selectedDebuggerIdentifier = \"\"\n      selectedLauncherIdentifier = \"Xcode.IDEFoundation.Launcher.PosixSpawn\"\n      launchStyle = \"0\"\n      useCustomWorkingDirectory = \"YES\"\n      customWorkingDirectory = \"/tmp/work\"\n"));
    assert!(xml.contains("      <LocationScenarioReference identifier=\"London, England\" referenceType=\"1\"/>\n"));
    assert!(xml.contains("      <CommandLineArguments>\n         <CommandLineArgument\n            argument = \"-verbose\"\n            isEnabled = \"YES\">\n         </CommandLineArgument>\n      </CommandLineArguments>\n"));
    assert!(xml.contains("            key = \"MODE\"\n            value = \"a&amp;b\"\n            isEnabled = \"YES\">\n"));
}

#[test]
fn a_scheme_of_a_library_expands_macros_with_its_first_target() {
    let p = project(vec![target("Core", ProductType::Framework, "Core.framework")], vec![scheme("Core", &["Core"])]);
    assert_eq!(first_runnable_scheme_target(&p, &p.schemes[0].build.targets), None);
    let xml = scheme_xml(&p, &p.schemes[0], &id_map());
    assert!(xml.contains("      <MacroExpansion>\n"));
    assert!(!xml.contains("BuildableProductRunnable"));
}

#[test]
fn a_target_scheme_per_variant_uses_the_variant_configurations() {
    let mut app = target("App", ProductType::Application, "App.app");
    app.target_scheme = Some(target_scheme(&["Staging"]));
    let tests = target("AppTests", ProductType::UnitTestBundle, "AppTests.xctest");
    let mut p = project(vec![app, tests], Vec::new());
    p.configs = vec![
        ("Debug".to_owned(), "debug".to_owned()),
        ("Staging Debug".to_owned(), "debug".to_owned()),
        ("Release".to_owned(), "release".to_owned()),
        ("Staging Release".to_owned(), "release".to_owned()),
    ];
    let files = scheme_files(&p, &id_map());
    assert_eq!(files.len(), 1);
    assert_eq!(files[0].0, "App Staging");
    let xml = &files[0].1;
    assert!(xml.contains("   <TestAction\n      buildConfiguration = \"Staging Debug\"\n"));
    assert!(xml.contains("            BlueprintName = \"AppTests\"\n"));
    assert!(xml.contains("   <ArchiveAction\n      buildConfiguration = \"Staging Release\"\n"));
    assert!(xml.contains("      <CommandLineArguments>\n      </CommandLineArguments>\n"));
    let plain = target_scheme_xml(&p, &p.targets[0], p.targets[0].target_scheme.as_ref().unwrap(), None, &id_map());
    assert!(plain.contains("   <TestAction\n      buildConfiguration = \"Debug\"\n"));
}

#[test]
fn a_watch_app_scheme_also_builds_its_host() {
    let watch = target("Watch", ProductType::Watch2App, "Watch.app");
    let mut host = target("Host", ProductType::Application, "Host.app");
    host.dependencies = vec![xgr_pbxproj::model::Dependency {
        reference: "Watch".to_owned(),
        dependency_type: xgr_pbxproj::model::DependencyType::Target,
        link: None,
        embed: None,
        code_sign: None,
        remove_headers: false,
        weak_link: false,
        platform_filter: xgr_pbxproj::model::PlatformFilter::All,
        destination_filters: Vec::new(),
        copy_phase: None,
    }];
    let p = project(vec![watch, host], Vec::new());
    let xml = target_scheme_xml(&p, &p.targets[0], &target_scheme(&[]), None, &id_map());
    assert!(xml.contains("BlueprintName = \"Watch\""));
    assert!(xml.contains("BlueprintName = \"Host\""));
    assert!(xml.contains("      <RemoteRunnable\n         runnableDebuggingMode = \"2\">\n"));
}

#[test]
fn management_states_list_declared_then_target_schemes() {
    let mut s = scheme("Shared", &[]);
    s.management = SchemeManagement { shared: true, is_shown: Some(false), order_hint: Some(3) };
    let quiet = scheme("Quiet", &[]);
    let mut app = target("App", ProductType::Application, "App.app");
    let mut ts = target_scheme(&["Alpha", "Beta"]);
    ts.management = Some(SchemeManagement { shared: false, is_shown: None, order_hint: Some(1) });
    app.target_scheme = Some(ts);
    let p = project(vec![app], vec![s, quiet]);
    let states = scheme_management_states(&p);
    let names = states.iter().map(|s| s.name.as_str()).collect::<Vec<_>>();
    assert_eq!(names, vec!["Shared", "App Alpha", "App Beta"]);
    let plist = scheme_management_plist(&states);
    assert!(plist.contains("\t\t<key>Shared.xcscheme_^#shared#^_</key>\n\t\t<dict>\n\t\t\t<key>isShown</key>\n\t\t\t<false />\n\t\t\t<key>orderHint</key>\n\t\t\t<integer>3</integer>\n\t\t</dict>\n"));
    assert!(plist.contains("\t\t<key>App Alpha.xcscheme</key>\n"));
}

#[test]
fn the_management_file_of_no_states_is_an_empty_dictionary() {
    let states: Vec<SchemeManagementState> = Vec::new();
    let plist = scheme_management_plist(&states);
    assert!(plist.ends_with("<plist version=\"1.0\">\n<dict>\n\t<key>SchemeUserState</key>\n\t<dict>\n\t</dict>\n</dict>\n</plist>\n"));
}

#[test]
fn xcode_versions_give_upgrade_checks() {
    assert_eq!(xcode_version_last_upgrade_check("15.2"), Some("1502".to_owned()));
    assert_eq!(xcode_version_last_upgrade_check("14"), Some("1400".to_owned()));
    assert_eq!(xcode_version_last_upgrade_check("16.10"), Some("1610".to_owned()));
    assert_eq!(xcode_version_last_upgrade_check("+15.3.1"), Some("1503".to_owned()));
    assert_eq!(xcode_version_last_upgrade_check("17.0"), None);
    assert_eq!(xcode_version_last_upgrade_check("beta"), None);
    assert_eq!(xcode_version_last_upgrade_check("15."), None);
    assert_eq!(xcode_version_last_upgrade_check("99999999999999999999.1"), None);
}

#[test]
fn the_upgrade_version_prefers_the_attribute() {
    let mut p = project(Vec::new(), Vec::new());
    assert_eq!(last_upgrade_version(&p), "1430");
    p.options.xcode_version = Some(JsonValue::String("15.0".to_owned()));
    assert_eq!(last_upgrade_version(&p), "1500");
    p.attributes = vec![("LastUpgradeCheck".to_owned(), JsonValue::String("1600".to_owned()))];
    assert_eq!(last_upgrade_version(&p), "1600");
    let xml = scheme_xml(&p, &scheme("Empty", &[]), &id_map());
    assert!(xml.contains("LastUpgradeVersion = \"1600\""));
}
