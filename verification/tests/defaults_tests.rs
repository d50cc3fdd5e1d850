use xgr_pbxproj::graph::PbxValue;
use xgr_pbxproj::model::{DeploymentTargets, Project, SpecOptions, Target};
use xgr_pbxproj::products::{Platform, ProductType};
use xgr_pbxproj::settings::project_default_build_settings;
use xgr_pbxproj::target_defaults::{
    bundle_identifier_suffix, deployment_target_setting, supported_platforms_setting,
    target_default_build_settings, targeted_device_family_for_destinations,
};
use xgr_pbxproj::ProjectWriter;

fn options() -> SpecOptions {
    SpecOptions {
        development_language: None,
        default_config: None,
        indent_width: None,
        tab_width: None,
        uses_tabs: None,
        use_base_internationalization: true,
        setting_presets_none: false,
        scheme_path_prefix: None,
        xcode_version: None,
        bundle_id_prefix: None,
        transitively_link_dependencies: false,
        deployment_target: DeploymentTargets { ios: None, macos: None, tvos: None, watchos: None, visionos: None },
    }
}

fn target(name: &str, platform: Platform, destinations: &[&str]) -> Target {
    Target {
        name: name.to_owned(),
        product_name: name.to_owned(),
        target_type: ProductType::Application,
        platform,
        product_filename: format!("{name}.app"),
        files: vec![format!("Sources/{name}/Main.swift")],
        dependencies: Vec::new(),
        settings: Vec::new(),
        attributes: Vec::new(),
        info_plist: None,
        entitlements_plist: None,
        target_scheme: None,
        only_copy_files_on_install: false,
        requires_objc_linking: None,
        supported_destinations: destinations.iter().map(|d| d.to_string()).collect(),
        deployment_target: None,
        pre_build_scripts: Vec::new(),
        post_compile_scripts: Vec::new(),
        post_build_scripts: Vec::new(),
        build_rules: Vec::new(),
        put_resources_before_sources_build_phase: false,
        transitively_link_dependencies: None,
        legacy: None,
    }
}

fn project(targets: Vec<Target>) -> Project {
    Project {
        name: "Demo".to_owned(),
        configs: Vec::new(),
        settings: Vec::new(),
        attributes: Vec::new(),
        targets,
        aggregate_targets: Vec::new(),
        options: options(),
        schemes: Vec::new(),
        breakpoints: Vec::new(),
        regions: Vec::new(),
    }
}

fn string_setting(settings: &[(String, PbxValue)], key: &str) -> Option<String> {
    settings.iter().find(|(k, _)| k == key).and_then(|(_, v)| match v {
        PbxValue::String(s) => Some(s.clone()),
        _ => None,
    })
}

fn array_setting(settings: &[(String, PbxValue)], key: &str) -> Option<Vec<String>> {
    settings.iter().find(|(k, _)| k == key).and_then(|(_, v)| match v {
        PbxValue::Array(items) => Some(
            items
                .iter()
                .map(|i| match i {
                    PbxValue::String(s) => s.clone(),
                    _ => String::new(),
                })
                .collect(),
        ),
        _ => None,
    })
}

#[test]
fn bundle_identifier_suffix_turns_underscores_into_hyphens_and_drops_spaces() {
    assert_eq!(bundle_identifier_suffix("My_App Name"), "My-AppName");
    assert_eq!(bundle_identifier_suffix("App"), "App");
    assert_eq!(bundle_identifier_suffix(""), "");
}

#[test]
fn deployment_target_settings_follow_the_platform() {
    assert_eq!(deployment_target_setting(Platform::Ios), "IPHONEOS_DEPLOYMENT_TARGET");
    assert_eq!(deployment_target_setting(Platform::Macos), "MACOSX_DEPLOYMENT_TARGET");
    assert_eq!(deployment_target_setting(Platform::Visionos), "XROS_DEPLOYMENT_TARGET");
    assert_eq!(deployment_target_setting(Platform::Auto), "");
}

#[test]
fn supported_platforms_list_each_destination_once_in_a_fixed_order() {
    let t = target("App", Platform::Auto, &["macOS", "iOS"]);
    assert_eq!(supported_platforms_setting(&t), Some("iphoneos iphonesimulator macosx".to_owned()));
    let t = target("App", Platform::Auto, &["visionOS", "tvOS", "watchOS"]);
    assert_eq!(
        supported_platforms_setting(&t),
        Some("appletvos appletvsimulator watchos watchsimulator xros xrsimulator".to_owned())
    );
}

#[test]
fn a_destination_listed_twice_repeats_every_listed_destination() {
    let t = target("App", Platform::Auto, &["macOS", "iOS", "iOS"]);
    assert_eq!(
        supported_platforms_setting(&t),
        Some("iphoneos iphonesimulator iphoneos iphonesimulator macosx".to_owned())
    );
    let t = target("App", Platform::Auto, &["tvOS", "tvOS", "iOS"]);
    assert_eq!(targeted_device_family_for_destinations(&t), Some("1,2,3,3".to_owned()));
}

#[test]
fn destinations_without_platforms_give_no_setting() {
    let t = target("App", Platform::Auto, &[]);
    assert_eq!(supported_platforms_setting(&t), None);
    let t = target("App", Platform::Auto, &["macCatalyst"]);
    assert_eq!(supported_platforms_setting(&t), None);
    let t = target("App", Platform::Auto, &["macOS"]);
    assert_eq!(targeted_device_family_for_destinations(&t), None);
}

#[test]
fn device_families_follow_the_destinations() {
    let t = target("App", Platform::Auto, &["visionOS", "iOS"]);
    assert_eq!(targeted_device_family_for_destinations(&t), Some("1,2,7".to_owned()));
    let t = target("App", Platform::Auto, &["watchOS"]);
    assert_eq!(targeted_device_family_for_destinations(&t), Some("4".to_owned()));
}

#[test]
fn a_target_with_destinations_gets_the_auto_sdk_and_destination_presets() {
    let t = target("App", Platform::Auto, &["iOS", "macOS"]);
    let p = project(vec![t]);
    let d = target_default_build_settings(&p, &p.targets[0]);
    assert_eq!(string_setting(&d, "SDKROOT"), Some("auto".to_owned()));
    assert_eq!(string_setting(&d, "SUPPORTED_PLATFORMS"), Some("iphoneos iphonesimulator macosx".to_owned()));
    assert_eq!(string_setting(&d, "TARGETED_DEVICE_FAMILY"), Some("1,2".to_owned()));
    assert_eq!(string_setting(&d, "SUPPORTS_MACCATALYST"), Some("NO".to_owned()));
    assert_eq!(string_setting(&d, "SUPPORTS_MAC_DESIGNED_FOR_IPHONE_IPAD"), Some("NO".to_owned()));
    assert_eq!(string_setting(&d, "SUPPORTS_XR_DESIGNED_FOR_IPHONE_IPAD"), Some("YES".to_owned()));
    assert_eq!(string_setting(&d, "ASSETCATALOG_COMPILER_APPICON_NAME"), Some("AppIcon".to_owned()));
    assert_eq!(string_setting(&d, "CODE_SIGN_IDENTITY"), Some("iPhone Developer".to_owned()));
    assert_eq!(
        array_setting(&d, "LD_RUNPATH_SEARCH_PATHS"),
        Some(vec!["$(inherited)".to_owned(), "@executable_path/Frameworks".to_owned()])
    );
    let keys: Vec<&String> = d.iter().map(|(k, _)| k).collect();
    let mut sorted = keys.clone();
    sorted.sort();
    assert_eq!(keys, sorted);
}

#[test]
fn a_mac_only_target_with_destinations_clears_the_device_family() {
    let t = target("App", Platform::Auto, &["macOS"]);
    let p = project(vec![t]);
    let d = target_default_build_settings(&p, &p.targets[0]);
    assert_eq!(string_setting(&d, "SUPPORTED_PLATFORMS"), Some("macosx".to_owned()));
    assert_eq!(string_setting(&d, "TARGETED_DEVICE_FAMILY"), Some("".to_owned()));
    assert_eq!(string_setting(&d, "COMBINE_HIDPI_IMAGES"), Some("YES".to_owned()));
    assert_eq!(string_setting(&d, "SUPPORTS_MAC_DESIGNED_FOR_IPHONE_IPAD"), Some("NO".to_owned()));
}

#[test]
fn a_tv_app_with_destinations_gets_the_top_shelf_icon() {
    let t = target("App", Platform::Auto, &["tvOS"]);
    let p = project(vec![t]);
    let d = target_default_build_settings(&p, &p.targets[0]);
    assert_eq!(string_setting(&d, "ASSETCATALOG_COMPILER_APPICON_NAME"), Some("App Icon & Top Shelf Image".to_owned()));
    assert_eq!(string_setting(&d, "ASSETCATALOG_COMPILER_LAUNCHIMAGE_NAME"), Some("LaunchImage".to_owned()));
    assert_eq!(string_setting(&d, "SUPPORTS_MAC_DESIGNED_FOR_IPHONE_IPAD"), Some("NO".to_owned()));
    assert_eq!(string_setting(&d, "CODE_SIGN_IDENTITY"), None);
}

#[test]
fn turning_presets_off_keeps_only_the_sdk_of_a_target_with_destinations() {
    let t = target("App", Platform::Auto, &["iOS"]);
    let mut p = project(vec![t]);
    p.options.setting_presets_none = true;
    let d = target_default_build_settings(&p, &p.targets[0]);
    assert_eq!(d.len(), 1);
    assert_eq!(string_setting(&d, "SDKROOT"), Some("auto".to_owned()));
}

#[test]
fn the_bundle_prefix_and_deployment_target_reach_the_target_defaults() {
    let mut t = target("My_App", Platform::Ios, &[]);
    t.deployment_target = Some("15.0".to_owned());
    let mut p = project(vec![t]);
    p.options.bundle_id_prefix = Some("com.example".to_owned());
    let d = target_default_build_settings(&p, &p.targets[0]);
    assert_eq!(string_setting(&d, "PRODUCT_BUNDLE_IDENTIFIER"), Some("com.example.My-App".to_owned()));
    assert_eq!(string_setting(&d, "IPHONEOS_DEPLOYMENT_TARGET"), Some("15.0".to_owned()));
    assert_eq!(string_setting(&d, "SDKROOT"), Some("iphoneos".to_owned()));
    assert_eq!(string_setting(&d, "TARGETED_DEVICE_FAMILY"), Some("1,2".to_owned()));
    assert_eq!(string_setting(&d, "SUPPORTED_PLATFORMS"), None);
}

#[test]
fn the_project_sets_the_deployment_targets_it_names() {
    let mut p = project(vec![target("App", Platform::Macos, &[])]);
    p.options.deployment_target.macos = Some("13.0".to_owned());
    p.options.deployment_target.watchos = Some("9.0".to_owned());
    let d = project_default_build_settings(&p, "Debug");
    assert_eq!(string_setting(&d, "MACOSX_DEPLOYMENT_TARGET"), Some("13.0".to_owned()));
    assert_eq!(string_setting(&d, "WATCHOS_DEPLOYMENT_TARGET"), Some("9.0".to_owned()));
    assert_eq!(string_setting(&d, "IPHONEOS_DEPLOYMENT_TARGET"), None);
    assert_eq!(string_setting(&d, "SDKROOT"), Some("macosx".to_owned()));
}

#[test]
fn the_project_file_holds_the_bundle_identifier() {
    let mut p = project(vec![target("App", Platform::Ios, &[])]);
    p.options.bundle_id_prefix = Some("com.example".to_owned());
    let generated = match ProjectWriter::generate(&p) {
        Ok(g) => g,
        Err(_) => panic!("generation failed"),
    };
    assert!(generated.pbxproj.contains("\t\t\t\tPRODUCT_BUNDLE_IDENTIFIER = com.example.App;\n"));
}

#[test]
fn a_setting_of_the_specification_wins_over_a_default() {
    let mut t = target("App", Platform::Ios, &[]);
    t.settings = vec![(
        "Debug".to_owned(),
        vec![("SDKROOT".to_owned(), xgr_pbxproj::json::JsonValue::String("macosx".to_owned()))],
    )];
    let p = project(vec![t]);
    let generated = match ProjectWriter::generate(&p) {
        Ok(g) => g,
        Err(_) => panic!("generation failed"),
    };
    assert!(generated.pbxproj.contains("\t\t\t\tSDKROOT = macosx;\n"));
    assert!(generated.pbxproj.contains("\t\t\t\tSDKROOT = iphoneos;\n"));
}
