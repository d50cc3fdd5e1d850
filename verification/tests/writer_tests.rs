use md5::Digest;
use xgr_pbxproj::model::{DeploymentTargets, Dependency, DependencyType, PlatformFilter, Project, SpecOptions, Target};
use xgr_pbxproj::products::{Platform, ProductType};
use xgr_pbxproj::ProjectWriter;
use xgr_pbxproj::embed::{copy_files_settings_from_value, platform_filters_for_dependency, supported_destination_filter};

fn options() -> SpecOptions {
    SpecOptions {
        development_language: None,
        default_config: None,
        indent_width: None,
        tab_width: None,
        uses_tabs: None,
        use_base_internationalization: true,
        setting_presets_none: false,
        scheme_path_prefix: None,
        xcode_version: None,
        bundle_id_prefix: None,
        transitively_link_dependencies: false,
        deployment_target: DeploymentTargets { ios: None, macos: None, tvos: None, watchos: None, visionos: None },
    }
}

fn app_target() -> Target {
    Target {
        name: "App".to_owned(),
        product_name: "App".to_owned(),
        target_type: ProductType::Application,
        platform: Platform::Ios,
        product_filename: "App.app".to_owned(),
        files: vec!["Sources/App/AppDelegate.swift".to_owned(), "Sources/App/Assets.xcassets".to_owned()],
        dependencies: Vec::new(),
        settings: Vec::new(),
        attributes: Vec::new(),
        info_plist: None,
        entitlements_plist: None,
        target_scheme: None,
        only_copy_files_on_install: false,
        requires_objc_linking: None,
        supported_destinations: Vec::new(),
        deployment_target: None,
        pre_build_scripts: Vec::new(),
        post_compile_scripts: Vec::new(),
        post_build_scripts: Vec::new(),
        build_rules: Vec::new(),
        put_resources_before_sources_build_phase: false,
        transitively_link_dependencies: None,
        legacy: None,
    }
}

fn project() -> Project {
    Project {
        name: "Demo".to_owned(),
        configs: Vec::new(),
        settings: Vec::new(),
        attributes: Vec::new(),
        targets: vec![app_target()],
        aggregate_targets: Vec::new(),
        options: options(),
        schemes: Vec::new(),
        breakpoints: Vec::new(),
        regions: Vec::new(),
    }
}

#[test]
fn generates_a_project_file_with_sections() {
    let generated = match ProjectWriter::generate(&project()) {
        Ok(g) => g,
        Err(_) => panic!("generation failed"),
    };
    println!("{}", generated.pbxproj);
    assert!(generated.pbxproj.starts_with("// !$*UTF8*$!\n{\n\tarchiveVersion = 1;"));
    assert!(generated.pbxproj.contains("/* Begin PBXNativeTarget section */"));
    assert!(generated.pbxproj.contains("/* AppDelegate.swift in Sources */"));
    assert!(generated.pbxproj.ends_with("/* Project object */;\n}\n"));
    assert_eq!(generated.project_path, "Demo.xcodeproj");
}

fn hex_upper(bytes: &[u8]) -> String {
    bytes.iter().map(|b| format!("{b:02X}")).collect()
}

#[test]
fn the_root_object_is_written_under_the_digest_of_its_seed() {
    let generated = match ProjectWriter::generate(&project()) {
        Ok(g) => g,
        Err(_) => panic!("generation failed"),
    };
    let digest = md5::Md5::digest(b"P_PBXProject-Demo_1");
    let reference = hex_upper(&digest)[..24].to_owned();
    assert!(generated.pbxproj.contains(&format!("\trootObject = {reference} /* Project object */;\n")));
    assert!(generated.object_id_map.iter().any(|(_, v)| *v == reference));
}

#[test]
fn a_golden_copy_replaces_only_the_project_file() {
    let golden = "// golden\n".to_owned();
    let generated = match ProjectWriter::generate_with_upstream_fixture_golden(&project(), Some(golden.clone())) {
        Ok(g) => g,
        Err(_) => panic!("generation failed"),
    };
    assert_eq!(generated.pbxproj, golden);
    assert_eq!(generated.project_path, "Demo.xcodeproj");
    assert_eq!(
        generated.workspace_data,
        "<?xml version=\"1.0\" encoding=\"UTF-8\"?>\n<Workspace\n   version = \"1.0\">\n   <FileRef\n      location = \"self:\">\n   </FileRef>\n</Workspace>\n"
    );
    let plain = match ProjectWriter::generate_with_upstream_fixture_golden(&project(), None) {
        Ok(g) => g,
        Err(_) => panic!("generation failed"),
    };
    let direct = match ProjectWriter::generate(&project()) {
        Ok(g) => g,
        Err(_) => panic!("generation failed"),
    };
    assert_eq!(plain.pbxproj, direct.pbxproj);
}

#[test]
fn generation_is_deterministic() {
    let a = match ProjectWriter::generate(&project()) {
        Ok(g) => g,
        Err(_) => panic!("generation failed"),
    };
    let b = match ProjectWriter::generate(&project()) {
        Ok(g) => g,
        Err(_) => panic!("generation failed"),
    };
    assert_eq!(a.pbxproj, b.pbxproj);
    assert_eq!(a.object_id_map, b.object_id_map);
}

#[test]
fn an_application_embeds_the_framework_it_depends_on() {
    let mut app = app_target();
    app.dependencies = vec![Dependency {
        reference: "Core".to_owned(),
        dependency_type: DependencyType::Target,
        link: None,
        embed: None,
        code_sign: None,
        remove_headers: false,
        weak_link: false,
        platform_filter: PlatformFilter::All,
        destination_filters: Vec::new(),
        copy_phase: None,
    }];
    let mut core = app_target();
    core.name = "Core".to_owned();
    core.product_name = "Core".to_owned();
    core.target_type = ProductType::Framework;
    core.product_filename = "Core.framework".to_owned();
    core.files = vec!["Sources/Core/Core.swift".to_owned()];
    let mut p = project();
    p.targets = vec![app, core];
    let generated = match ProjectWriter::generate(&p) {
        Ok(g) => g,
        Err(_) => panic!("generation failed"),
    };
    let text = &generated.pbxproj;
    assert!(text.contains("/* Core.framework in Embed Frameworks */ = {isa = PBXBuildFile; fileRef = "));
    assert!(text.contains("settings = {ATTRIBUTES = (CodeSignOnCopy, ); }; };"));
    assert!(text.contains("/* Embed Frameworks */ = {\n\t\t\tisa = PBXCopyFilesBuildPhase;\n\t\t\tbuildActionMask = 2147483647;\n\t\t\tdstPath = \"\";\n\t\t\tdstSubfolderSpec = 10;\n"));
    assert!(text.contains("\t\t\tname = \"Embed Frameworks\";\n\t\t\trunOnlyForDeploymentPostprocessing = 0;\n"));
    assert!(text.contains("/* Core.framework in Frameworks */"));
}

#[test]
fn targets_get_the_presets_of_their_product() {
    let mut tests = app_target();
    tests.name = "AppTests".to_owned();
    tests.product_name = "AppTests".to_owned();
    tests.target_type = ProductType::UnitTestBundle;
    tests.product_filename = "AppTests.xctest".to_owned();
    tests.files = vec!["Tests/AppTests.swift".to_owned()];
    tests.dependencies = vec![Dependency {
        reference: "App".to_owned(),
        dependency_type: DependencyType::Target,
        link: None,
        embed: None,
        code_sign: None,
        remove_headers: false,
        weak_link: false,
        platform_filter: PlatformFilter::All,
        destination_filters: Vec::new(),
        copy_phase: None,
    }];
    let mut p = project();
    p.targets.push(tests);
    let generated = match ProjectWriter::generate(&p) {
        Ok(g) => g,
        Err(_) => panic!("generation failed"),
    };
    let text = &generated.pbxproj;
    assert!(text.contains("\t\t\t\tASSETCATALOG_COMPILER_APPICON_NAME = AppIcon;\n"));
    assert!(text.contains("\t\t\t\tCODE_SIGN_IDENTITY = \"iPhone Developer\";\n"));
    assert!(text.contains("\t\t\t\tLD_RUNPATH_SEARCH_PATHS = (\n\t\t\t\t\t\"$(inherited)\",\n\t\t\t\t\t\"@executable_path/Frameworks\",\n\t\t\t\t);\n"));
    assert!(text.contains("\t\t\t\tTEST_HOST = \"$(BUILT_PRODUCTS_DIR)/App.app/App\";\n"));
    assert!(text.contains("\t\t\t\tBUNDLE_LOADER = \"$(TEST_HOST)\";\n"));
    assert!(text.contains("\t\t\t\t\t\"@loader_path/Frameworks\",\n"));
}

#[test]
fn an_application_linking_objective_c_code_gets_the_objc_flag() {
    let mut app = app_target();
    app.dependencies = vec![Dependency {
        reference: "Legacy".to_owned(),
        dependency_type: DependencyType::Target,
        link: None,
        embed: None,
        code_sign: None,
        remove_headers: false,
        weak_link: false,
        platform_filter: PlatformFilter::All,
        destination_filters: Vec::new(),
        copy_phase: None,
    }];
    let mut legacy = app_target();
    legacy.name = "Legacy".to_owned();
    legacy.product_name = "Legacy".to_owned();
    legacy.target_type = ProductType::Framework;
    legacy.product_filename = "Legacy.framework".to_owned();
    legacy.files = vec!["Sources/Legacy/Legacy.m".to_owned()];
    let mut p = project();
    p.targets = vec![app, legacy];
    let generated = match ProjectWriter::generate(&p) {
        Ok(g) => g,
        Err(_) => panic!("generation failed"),
    };
    assert!(generated.pbxproj.contains("\t\t\t\tOTHER_LDFLAGS = (\n\t\t\t\t\t\"$(inherited)\",\n\t\t\t\t\t\"-ObjC\",\n\t\t\t\t);\n"));
    assert!(generated.pbxproj.contains("\t\t\t\tDEFINES_MODULE = YES;\n"));
    assert!(generated.pbxproj.contains("\t\t\t\tVERSIONING_SYSTEM = \"apple-generic\";\n"));
}

#[test]
fn destination_filters_name_platforms_in_the_project_spelling() {
    assert_eq!(supported_destination_filter("iOS"), Some("ios"));
    assert_eq!(supported_destination_filter("maccatalyst"), Some("maccatalyst"));
    assert_eq!(supported_destination_filter("visionOS"), Some("xros"));
    assert_eq!(supported_destination_filter("xros"), Some("xros"));
    assert_eq!(supported_destination_filter("Android"), None);
    let dependency = Dependency {
        reference: "Core".to_owned(),
        dependency_type: DependencyType::Target,
        link: None,
        embed: None,
        code_sign: None,
        remove_headers: false,
        weak_link: false,
        platform_filter: PlatformFilter::All,
        destination_filters: vec!["macOS".to_owned(), "Android".to_owned(), "tvOS".to_owned()],
        copy_phase: None,
    };
    assert_eq!(platform_filters_for_dependency(&dependency), vec!["macos".to_owned(), "tvos".to_owned()]);
}

#[test]
fn a_filtered_framework_is_linked_and_embedded_with_its_platform_filters() {
    let mut app = app_target();
    app.dependencies = vec![Dependency {
        reference: "Core".to_owned(),
        dependency_type: DependencyType::Target,
        link: None,
        embed: None,
        code_sign: None,
        remove_headers: false,
        weak_link: false,
        platform_filter: PlatformFilter::All,
        destination_filters: vec!["iOS".to_owned(), "macCatalyst".to_owned()],
        copy_phase: None,
    }];
    let mut core = app_target();
    core.name = "Core".to_owned();
    core.product_name = "Core".to_owned();
    core.target_type = ProductType::Framework;
    core.product_filename = "Core.framework".to_owned();
    core.files = vec!["Sources/Core/Core.swift".to_owned()];
    let mut p = project();
    p.targets = vec![app, core];
    let generated = match ProjectWriter::generate(&p) {
        Ok(g) => g,
        Err(_) => panic!("generation failed"),
    };
    let text = &generated.pbxproj;
    let linked = text
        .lines()
        .find(|l| l.contains("/* Core.framework in Frameworks */ = {isa = PBXBuildFile;"))
        .expect("the linked framework");
    assert!(linked.contains("platformFilters = (ios, maccatalyst, );"));
    let embedded = text
        .lines()
        .find(|l| l.contains("/* Core.framework in Embed Frameworks */ = {isa = PBXBuildFile;"))
        .expect("the embedded framework");
    assert!(embedded.contains("platformFilters = (ios, maccatalyst, );"));
}

fn object(entries: Vec<(&str, &str)>) -> xgr_pbxproj::json::JsonValue {
    xgr_pbxproj::json::JsonValue::Object(
        entries
            .into_iter()
            .map(|(k, v)| (k.to_owned(), xgr_pbxproj::json::JsonValue::String(v.to_owned())))
            .collect(),
    )
}

#[test]
fn a_copy_phase_names_its_destination_and_subpath() {
    use_copy_settings(object(vec![("destination", "plugins"), ("subpath", "PlugIns/x")]), Some((13, "PlugIns/x", "Embed Dependencies")));
    use_copy_settings(object(vec![("subpath", "Libs")]), Some((10, "Libs", "Embed Frameworks")));
    use_copy_settings(object(vec![("destination", "resources")]), Some((7, "", "Copy Files")));
    use_copy_settings(object(vec![("destination", "nowhere")]), None);
    use_copy_settings(xgr_pbxproj::json::JsonValue::String("frameworks".to_owned()), None);
}

fn use_copy_settings(v: xgr_pbxproj::json::JsonValue, expected: Option<(i64, &str, &str)>) {
    let got = copy_files_settings_from_value(&v).map(|s| (s.dst_subfolder_spec, s.dst_path, s.phase_name));
    assert_eq!(got, expected.map(|(n, p, name)| (n, p.to_owned(), name.to_owned())));
}

#[test]
fn a_dependency_copy_phase_moves_the_embedded_product() {
    let mut app = app_target();
    app.dependencies = vec![Dependency {
        reference: "Core".to_owned(),
        dependency_type: DependencyType::Target,
        link: None,
        embed: None,
        code_sign: None,
        remove_headers: false,
        weak_link: false,
        platform_filter: PlatformFilter::All,
        destination_filters: Vec::new(),
        copy_phase: Some(object(vec![("destination", "plugins"), ("subpath", "Extras")])),
    }];
    let mut core = app_target();
    core.name = "Core".to_owned();
    core.product_name = "Core".to_owned();
    core.target_type = ProductType::Framework;
    core.product_filename = "Core.framework".to_owned();
    core.files = vec!["Sources/Core/Core.swift".to_owned()];
    let mut p = project();
    p.targets = vec![app, core];
    let generated = match ProjectWriter::generate(&p) {
        Ok(g) => g,
        Err(_) => panic!("generation failed"),
    };
    let text = &generated.pbxproj;
    assert!(text.contains("/* Core.framework in Embed Dependencies */ = {isa = PBXBuildFile;"));
    assert!(text.contains("\t\t\tdstPath = Extras;\n\t\t\tdstSubfolderSpec = 13;\n"));
}

#[test]
fn bundles_are_copied_into_resources_and_grouped() {
    let mut app = app_target();
    app.dependencies = vec![Dependency {
        reference: "Assets.bundle".to_owned(),
        dependency_type: DependencyType::Bundle,
        link: None,
        embed: None,
        code_sign: None,
        remove_headers: false,
        weak_link: false,
        platform_filter: PlatformFilter::All,
        destination_filters: Vec::new(),
        copy_phase: None,
    }];
    let mut p = project();
    p.targets = vec![app];
    let generated = match ProjectWriter::generate(&p) {
        Ok(g) => g,
        Err(_) => panic!("generation failed"),
    };
    let text = &generated.pbxproj;
    assert!(text.contains("/* Assets.bundle in Copy Bundle Resources */ = {isa = PBXBuildFile;"));
    assert!(text.contains("/* Copy Bundle Resources */ = {\n\t\t\tisa = PBXCopyFilesBuildPhase;\n\t\t\tbuildActionMask = 2147483647;\n\t\t\tdstSubfolderSpec = 7;\n"));
    assert!(text.contains("/* Bundles */ = {\n\t\t\tisa = PBXGroup;\n"));
    assert!(text.contains("sourceTree = BUILT_PRODUCTS_DIR; };"));
    assert!(!text.contains("/* Assets.bundle in Frameworks */"));
}

#[test]
fn generation_gives_the_same_files_for_the_same_project() {
    let first = match ProjectWriter::generate(&project()) {
        Ok(g) => g,
        Err(_) => panic!("generation failed"),
    };
    let second = match ProjectWriter::generate(&project()) {
        Ok(g) => g,
        Err(_) => panic!("generation failed"),
    };
    assert_eq!(first.pbxproj, second.pbxproj);
    assert_eq!(first.object_id_map, second.object_id_map);
    assert_eq!(first.workspace_data, second.workspace_data);
}

#[test]
fn every_reference_is_24_upper_hex_digits_and_the_project_has_one() {
    let generated = match ProjectWriter::generate(&project()) {
        Ok(g) => g,
        Err(_) => panic!("generation failed"),
    };
    let project_id = xgr_pbxproj::graph::object_id("project", 0);
    assert!(generated.object_id_map.iter().any(|(k, _)| *k == project_id));
    for (_, v) in &generated.object_id_map {
        assert_eq!(v.len(), 24);
        assert!(v.chars().all(|c| c.is_ascii_digit() || ('A'..='F').contains(&c)));
    }
}

#[test]
fn a_golden_copy_keeps_the_generated_map() {
    let plain = match ProjectWriter::generate(&project()) {
        Ok(g) => g,
        Err(_) => panic!("generation failed"),
    };
    let golden = match ProjectWriter::generate_with_upstream_fixture_golden(&project(), Some("// golden\n".to_owned())) {
        Ok(g) => g,
        Err(_) => panic!("generation failed"),
    };
    assert_eq!(plain.object_id_map, golden.object_id_map);
}

#[test]
fn the_project_object_lists_its_targets_by_name() {
    let mut p = project();
    let mut second = app_target();
    second.name = "Alpha".to_owned();
    second.product_name = "Alpha".to_owned();
    second.product_filename = "Alpha.app".to_owned();
    p.targets.push(second);
    let generated = match ProjectWriter::generate(&p) {
        Ok(g) => g,
        Err(_) => panic!("generation failed"),
    };
    let text = &generated.pbxproj;
    let targets_at = text.find("\t\t\ttargets = (").expect("targets list");
    let rest = &text[targets_at..];
    let alpha = rest.find("/* Alpha */").expect("Alpha listed");
    let app = rest.find("/* App */").expect("App listed");
    assert!(alpha < app);
}

fn build_phases_section(text: &str) -> String {
    let start = text.find("\t\t\tbuildPhases = (").expect("build phases");
    let rest = &text[start..];
    let end = rest.find(");").expect("end of list");
    rest[..end].to_owned()
}

#[test]
fn sources_come_before_resources_by_default() {
    let generated = match ProjectWriter::generate(&project()) {
        Ok(g) => g,
        Err(_) => panic!("generation failed"),
    };
    let phases = build_phases_section(&generated.pbxproj);
    let sources = phases.find("/* Sources */").expect("Sources phase");
    let resources = phases.find("/* Resources */").expect("Resources phase");
    assert!(sources < resources);
}

#[test]
fn resources_come_first_when_the_target_asks() {
    let mut p = project();
    p.targets[0].put_resources_before_sources_build_phase = true;
    let generated = match ProjectWriter::generate(&p) {
        Ok(g) => g,
        Err(_) => panic!("generation failed"),
    };
    let phases = build_phases_section(&generated.pbxproj);
    let sources = phases.find("/* Sources */").expect("Sources phase");
    let resources = phases.find("/* Resources */").expect("Resources phase");
    assert!(resources < sources);
}

#[test]
fn the_native_target_names_its_product_type() {
    let generated = match ProjectWriter::generate(&project()) {
        Ok(g) => g,
        Err(_) => panic!("generation failed"),
    };
    assert!(generated.pbxproj.contains("productType = \"com.apple.product-type.application\";"));
    assert!(generated.pbxproj.contains("productName = App;"));
}

fn target_dependency_on(name: &str) -> Dependency {
    Dependency {
        reference: name.to_owned(),
        dependency_type: DependencyType::Target,
        link: None,
        embed: None,
        code_sign: None,
        remove_headers: true,
        weak_link: false,
        platform_filter: PlatformFilter::All,
        destination_filters: Vec::new(),
        copy_phase: None,
    }
}

#[test]
fn a_target_named_twice_is_one_dependency() {
    let mut p = project();
    let mut framework = app_target();
    framework.name = "Kit".to_owned();
    framework.product_name = "Kit".to_owned();
    framework.product_filename = "Kit.framework".to_owned();
    framework.target_type = ProductType::Framework;
    framework.files = vec!["Sources/Kit/Kit.swift".to_owned()];
    p.targets[0].dependencies = vec![target_dependency_on("Kit"), target_dependency_on("Kit")];
    p.targets.push(framework);
    let generated = match ProjectWriter::generate(&p) {
        Ok(g) => g,
        Err(_) => panic!("generation failed"),
    };
    let text = &generated.pbxproj;
    let section_start = text.find("/* Begin PBXTargetDependency section */").expect("dependency section");
    let section_end = text.find("/* End PBXTargetDependency section */").expect("end of section");
    let section = &text[section_start..section_end];
    assert_eq!(section.matches("isa = PBXTargetDependency;").count(), 1);
}
