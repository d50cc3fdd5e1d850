use xgr_pbxproj::model::{
    DeploymentTargets, Dependency, DependencyType, PlatformFilter, Project, SpecOptions, Target,
};
use xgr_pbxproj::products::{Platform, ProductType};
use xgr_pbxproj::transitive::{find_first_target, native_target_dependency_names, target_uses_transitive_dependencies};
use xgr_pbxproj::ProjectWriter;

fn dependency(reference: &str, dependency_type: DependencyType) -> Dependency {
    Dependency {
        reference: reference.to_owned(),
        dependency_type,
        link: None,
        embed: None,
        code_sign: None,
        remove_headers: false,
        weak_link: false,
        platform_filter: PlatformFilter::All,
        destination_filters: Vec::new(),
        copy_phase: None,
    }
}

fn target(name: &str, target_type: ProductType, filename: &str, deps: Vec<Dependency>) -> Target {
    Target {
        name: name.to_owned(),
        product_name: name.to_owned(),
        target_type,
        platform: Platform::Ios,
        product_filename: filename.to_owned(),
        files: vec![format!("Sources/{name}/{name}.swift")],
        dependencies: deps,
        settings: Vec::new(),
        attributes: Vec::new(),
        info_plist: None,
        entitlements_plist: None,
        target_scheme: None,
        only_copy_files_on_install: false,
        requires_objc_linking: Some(false),
        supported_destinations: Vec::new(),
        deployment_target: None,
        pre_build_scripts: Vec::new(),
        post_compile_scripts: Vec::new(),
        post_build_scripts: Vec::new(),
        build_rules: Vec::new(),
        put_resources_before_sources_build_phase: false,
        transitively_link_dependencies: None,
        legacy: None,
    }
}

fn project(targets: Vec<Target>, transitive: bool) -> Project {
    Project {
        name: "Demo".to_owned(),
        configs: Vec::new(),
        settings: Vec::new(),
        attributes: Vec::new(),
        targets,
        aggregate_targets: Vec::new(),
        options: SpecOptions {
            development_language: None,
            default_config: None,
            indent_width: None,
            tab_width: None,
            uses_tabs: None,
            use_base_internationalization: true,
            setting_presets_none: false,
            scheme_path_prefix: None,
            xcode_version: None,
            bundle_id_prefix: None,
            transitively_link_dependencies: transitive,
            deployment_target: DeploymentTargets { ios: None, macos: None, tvos: None, watchos: None, visionos: None },
        },
        schemes: Vec::new(),
        breakpoints: Vec::new(),
        regions: Vec::new(),
    }
}

fn chain(transitive: bool) -> Project {
    let app = target(
        "App",
        ProductType::Application,
        "App.app",
        vec![
            dependency("Feature", DependencyType::Target),
            dependency("UIKit.framework", DependencyType::Sdk { root: None }),
            dependency("Feature", DependencyType::Target),
        ],
    );
    let feature = target(
        "Feature",
        ProductType::Framework,
        "Feature.framework",
        vec![
            dependency("Storage", DependencyType::Target),
            dependency("Vendor/Tool.framework", DependencyType::Framework),
        ],
    );
    let storage = target(
        "Storage",
        ProductType::StaticLibrary,
        "libStorage.a",
        vec![dependency("Feature", DependencyType::Target), dependency("libz.tbd", DependencyType::Sdk { root: None })],
    );
    project(vec![app, feature, storage], transitive)
}

#[test]
fn without_transitive_linking_only_named_targets_count_once_each() {
    let p = chain(false);
    assert!(!target_uses_transitive_dependencies(&p, &p.targets[0]));
    assert_eq!(native_target_dependency_names(&p, &p.targets[0]), vec!["Feature".to_owned()]);
}

#[test]
fn transitive_linking_follows_dependencies_breadth_first_and_stops_at_cycles() {
    let p = chain(true);
    assert!(target_uses_transitive_dependencies(&p, &p.targets[0]));
    assert_eq!(
        native_target_dependency_names(&p, &p.targets[0]),
        vec!["Feature".to_owned(), "Storage".to_owned()]
    );
    assert_eq!(
        native_target_dependency_names(&p, &p.targets[2]),
        vec!["Feature".to_owned(), "Storage".to_owned()]
    );
}

#[test]
fn a_target_can_turn_transitive_linking_on_for_itself() {
    let mut p = chain(false);
    p.targets[0].transitively_link_dependencies = Some(true);
    assert!(target_uses_transitive_dependencies(&p, &p.targets[0]));
    assert!(!target_uses_transitive_dependencies(&p, &p.targets[1]));
}

#[test]
fn the_first_target_with_a_name_is_found() {
    let p = chain(false);
    assert_eq!(find_first_target(&p, "Storage"), Some(2));
    assert_eq!(find_first_target(&p, "Missing"), None);
}

#[test]
fn an_application_links_what_its_dependencies_link_when_transitive() {
    let generated = match ProjectWriter::generate(&chain(true)) {
        Ok(g) => g,
        Err(_) => panic!("generation failed"),
    };
    let text = &generated.pbxproj;
    assert!(text.contains("/* libStorage.a in Frameworks */ = {isa = PBXBuildFile;"));
    assert!(text.contains("/* Tool.framework in Frameworks */ = {isa = PBXBuildFile;"));
    assert!(text.contains("/* libz.tbd in Frameworks */ = {isa = PBXBuildFile;"));
}

#[test]
fn without_transitive_linking_nothing_more_is_linked() {
    let count = |p: &Project| match ProjectWriter::generate(p) {
        Ok(g) => g.pbxproj.matches("/* libz.tbd in Frameworks */ = {isa = PBXBuildFile;").count(),
        Err(_) => panic!("generation failed"),
    };
    assert_eq!(count(&chain(false)), 1);
    assert_eq!(count(&chain(true)), 4);
}

#[test]
fn an_application_depends_on_the_static_libraries_below_it() {
    let generated = match ProjectWriter::generate(&chain(true)) {
        Ok(g) => g,
        Err(_) => panic!("generation failed"),
    };
    let app_start = generated.pbxproj.find("/* App */ = {\n\t\t\tisa = PBXNativeTarget;").expect("the app target");
    let app = &generated.pbxproj[app_start..];
    let deps_start = app.find("dependencies = (").expect("its dependencies");
    let deps = &app[deps_start..];
    let deps = &deps[..deps.find(");").expect("the end of its dependencies")];
    assert_eq!(deps.matches("/* PBXTargetDependency */").count(), 2);
}
