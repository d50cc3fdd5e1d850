//! Product types and platforms, and what the project file records for them.
use vstd::prelude::*;
use crate::paths::{ext_file_type, ext_file_type_spec, extension, extension_spec};
use crate::text::string_from;

verus! {

/// The kind of product a target builds.
pub enum ProductType {
    Application,
    OnDemandInstallCapableApplication,
    Framework,
    StaticFramework,
    DynamicLibrary,
    StaticLibrary,
    Bundle,
    UnitTestBundle,
    UiTestBundle,
    OcUnitTestBundle,
    AppExtension,
    XcodeExtension,
    IntentsServiceExtension,
    CommandLineTool,
    WatchApp,
    Watch2App,
    WatchExtension,
    Watch2Extension,
    TvExtension,
    MessagesApplication,
    MessagesExtension,
    StickerPack,
    XpcService,
    InstrumentsPackage,
    MetalLibrary,
    SystemExtension,
    ExtensionKitExtension,
    DriverExtension,
    Other(String),
}

/// The platform a target builds for; `Auto` leaves it to the destinations.
#[derive(PartialEq, Eq, Structural, Clone, Copy)]
pub enum Platform {
    Ios,
    Macos,
    Tvos,
    Watchos,
    Visionos,
    Auto,
}

/// A copy of a product type.
pub fn copy_product_type(t: &ProductType) -> (r: ProductType)
    ensures
        r == *t,
{
    match t {
        ProductType::Other(s) => ProductType::Other(s.clone()),
        ProductType::Application => ProductType::Application,
        ProductType::OnDemandInstallCapableApplication => ProductType::OnDemandInstallCapableApplication,
        ProductType::Framework => ProductType::Framework,
        ProductType::StaticFramework => ProductType::StaticFramework,
        ProductType::DynamicLibrary => ProductType::DynamicLibrary,
        ProductType::StaticLibrary => ProductType::StaticLibrary,
        ProductType::Bundle => ProductType::Bundle,
        ProductType::UnitTestBundle => ProductType::UnitTestBundle,
        ProductType::UiTestBundle => ProductType::UiTestBundle,
        ProductType::OcUnitTestBundle => ProductType::OcUnitTestBundle,
        ProductType::AppExtension => ProductType::AppExtension,
        ProductType::XcodeExtension => ProductType::XcodeExtension,
        ProductType::IntentsServiceExtension => ProductType::IntentsServiceExtension,
        ProductType::CommandLineTool => ProductType::CommandLineTool,
        ProductType::WatchApp => ProductType::WatchApp,
        ProductType::Watch2App => ProductType::Watch2App,
        ProductType::WatchExtension => ProductType::WatchExtension,
        ProductType::Watch2Extension => ProductType::Watch2Extension,
        ProductType::TvExtension => ProductType::TvExtension,
        ProductType::MessagesApplication => ProductType::MessagesApplication,
        ProductType::MessagesExtension => ProductType::MessagesExtension,
        ProductType::StickerPack => ProductType::StickerPack,
        ProductType::XpcService => ProductType::XpcService,
        ProductType::InstrumentsPackage => ProductType::InstrumentsPackage,
        ProductType::MetalLibrary => ProductType::MetalLibrary,
        ProductType::SystemExtension => ProductType::SystemExtension,
        ProductType::ExtensionKitExtension => ProductType::ExtensionKitExtension,
        ProductType::DriverExtension => ProductType::DriverExtension,
    }
}

/// The SDK a platform builds against.
pub open spec fn sdk_root_spec(p: Platform) -> Seq<char> {
    match p {
        Platform::Ios => "iphoneos"@,
        Platform::Macos => "macosx"@,
        Platform::Tvos => "appletvos"@,
        Platform::Watchos => "watchos"@,
        Platform::Visionos => "xros"@,
        Platform::Auto => "auto"@,
    }
}

/// The SDK a platform builds against.
pub fn sdk_root(p: Platform) -> (r: &'static str)
    ensures
        r@ == sdk_root_spec(p),
{
    match p {
        Platform::Ios => "iphoneos",
        Platform::Macos => "macosx",
        Platform::Tvos => "appletvos",
        Platform::Watchos => "watchos",
        Platform::Visionos => "xros",
        Platform::Auto => "auto",
    }
}

/// The device family setting of a platform.
pub open spec fn targeted_device_family_spec(p: Platform) -> Option<Seq<char>> {
    match p {
        Platform::Ios => Some("1,2"@),
        Platform::Tvos => Some("3"@),
        Platform::Watchos => Some("4"@),
        Platform::Visionos => Some("7"@),
        Platform::Macos | Platform::Auto => None,
    }
}

/// The device family setting of a platform.
pub fn targeted_device_family(p: Platform) -> (r: Option<&'static str>)
    ensures
        match r {
            Some(s) => targeted_device_family_spec(p) == Some(s@),
            None => targeted_device_family_spec(p) is None,
        },
{
    match p {
        Platform::Ios => Some("1,2"),
        Platform::Tvos => Some("3"),
        Platform::Watchos => Some("4"),
        Platform::Visionos => Some("7"),
        Platform::Macos | Platform::Auto => None,
    }
}

/// The Carthage build directory of a platform.
pub open spec fn carthage_platform_dir_spec(p: Platform) -> Seq<char> {
    match p {
        Platform::Macos => "Mac"@,
        Platform::Tvos => "tvOS"@,
        Platform::Watchos => "watchOS"@,
        Platform::Visionos => "visionOS"@,
        Platform::Ios | Platform::Auto => "iOS"@,
    }
}

/// The Carthage build directory of a platform.
pub fn carthage_platform_dir(p: Platform) -> (r: &'static str)
    ensures
        r@ == carthage_platform_dir_spec(p),
{
    match p {
        Platform::Macos => "Mac",
        Platform::Tvos => "tvOS",
        Platform::Watchos => "watchOS",
        Platform::Visionos => "visionOS",
        Platform::Ios | Platform::Auto => "iOS",
    }
}

/// Platforms whose embedded frameworks are stripped of simulator slices.
pub fn platform_requires_simulator_stripping(p: Platform) -> (r: bool)
    ensures
        r == (p != Platform::Macos),
{
    match p {
        Platform::Auto | Platform::Ios | Platform::Tvos | Platform::Watchos | Platform::Visionos => true,
        Platform::Macos => false,
    }
}

/// A target with an unnamed custom product type builds with an external tool.
pub open spec fn is_legacy_spec(t: ProductType) -> bool {
    match t {
        ProductType::Other(s) => s@.len() == 0,
        _ => false,
    }
}

/// A target with an unnamed custom product type builds with an external tool.
pub fn is_legacy_product(t: &ProductType) -> (r: bool)
    ensures
        r == is_legacy_spec(*t),
{
    match t {
        ProductType::Other(s) => s.as_str().is_empty(),
        _ => false,
    }
}

/// The bundle package type recorded in a generated Info.plist.
pub open spec fn bundle_package_type_spec(t: ProductType) -> Option<Seq<char>> {
    match t {
        ProductType::UnitTestBundle | ProductType::UiTestBundle | ProductType::Bundle => Some("BNDL"@),
        ProductType::Application | ProductType::Watch2App => Some("APPL"@),
        ProductType::Framework => Some("FMWK"@),
        ProductType::XpcService | ProductType::AppExtension => Some("XPC!"@),
        _ => None,
    }
}

/// The bundle package type recorded in a generated Info.plist.
pub fn bundle_package_type(t: &ProductType) -> (r: Option<&'static str>)
    ensures
        match r {
            Some(s) => bundle_package_type_spec(*t) == Some(s@),
            None => bundle_package_type_spec(*t) is None,
        },
{
    match t {
        ProductType::UnitTestBundle | ProductType::UiTestBundle | ProductType::Bundle => Some("BNDL"),
        ProductType::Application | ProductType::Watch2App => Some("APPL"),
        ProductType::Framework => Some("FMWK"),
        ProductType::XpcService | ProductType::AppExtension => Some("XPC!"),
        _ => None,
    }
}

/// Products whose reference records an explicit file type instead of a
/// last known one.
pub open spec fn product_uses_explicit_file_type_spec(t: ProductType, p: Platform) -> bool {
    match t {
        ProductType::Framework | ProductType::StaticFramework | ProductType::XcodeExtension
        | ProductType::IntentsServiceExtension | ProductType::WatchExtension
        | ProductType::Watch2Extension | ProductType::TvExtension | ProductType::XpcService
        | ProductType::SystemExtension | ProductType::DriverExtension
        | ProductType::ExtensionKitExtension => true,
        ProductType::Application | ProductType::UnitTestBundle | ProductType::UiTestBundle
        | ProductType::OcUnitTestBundle | ProductType::StaticLibrary => p == Platform::Macos || p
            == Platform::Watchos,
        ProductType::WatchApp | ProductType::Watch2App => true,
        _ => false,
    }
}

/// Products whose reference records an explicit file type.
pub fn product_uses_explicit_file_type(t: &ProductType, p: Platform) -> (r: bool)
    ensures
        r == product_uses_explicit_file_type_spec(*t, p),
{
    match t {
        ProductType::Framework | ProductType::StaticFramework | ProductType::XcodeExtension
        | ProductType::IntentsServiceExtension | ProductType::WatchExtension
        | ProductType::Watch2Extension | ProductType::TvExtension | ProductType::XpcService
        | ProductType::SystemExtension | ProductType::DriverExtension
        | ProductType::ExtensionKitExtension => true,
        ProductType::Application | ProductType::UnitTestBundle | ProductType::UiTestBundle
        | ProductType::OcUnitTestBundle | ProductType::StaticLibrary => p == Platform::Macos || p
            == Platform::Watchos,
        ProductType::WatchApp | ProductType::Watch2App => true,
        _ => false,
    }
}

/// The file type of a path, or of a target's product when one is given.
pub open spec fn file_type_for_path_spec(path: Seq<char>, product: Option<ProductType>) -> Seq<char> {
    match product {
        Some(t) => product_file_type_spec(t),
        None => match extension_spec(path) {
            Some(e) => ext_file_type_spec(e),
            None => "file"@,
        },
    }
}

/// The file type of a path, or of a target's product when one is given.
pub fn file_type_for_path(path: &str, product: Option<&ProductType>) -> (r: String)
    ensures
        r@ == file_type_for_path_spec(
            path@,
            match product {
                Some(t) => Some(*t),
                None => None,
            },
        ),
{
    match product {
        Some(t) => string_from(product_file_type(t)),
        None => match extension(path) {
            Some(e) => string_from(ext_file_type(e.as_str())),
            None => string_from("file"),
        },
    }
}

/// Watch application products.
pub open spec fn is_watch_app_product_spec(product_type: ProductType) -> bool {
    match product_type {
        ProductType::WatchApp | ProductType::Watch2App => true,
        _ => false,
    }
}

/// Watch application products.
pub fn is_watch_app_product(product_type: &ProductType) -> (r: bool)
    ensures
        r == is_watch_app_product_spec(*product_type),
{
    match product_type {
        ProductType::WatchApp | ProductType::Watch2App => true,
        _ => false,
    }
}

/// Application products.
pub open spec fn product_type_is_app_spec(product_type: ProductType) -> bool {
    match product_type {
        ProductType::Application | ProductType::OnDemandInstallCapableApplication | ProductType::WatchApp | ProductType::Watch2App | ProductType::MessagesApplication => true,
        _ => false,
    }
}

/// Application products.
pub fn product_type_is_app(product_type: &ProductType) -> (r: bool)
    ensures
        r == product_type_is_app_spec(*product_type),
{
    match product_type {
        ProductType::Application | ProductType::OnDemandInstallCapableApplication | ProductType::WatchApp | ProductType::Watch2App | ProductType::MessagesApplication => true,
        _ => false,
    }
}

/// Test bundle products.
pub open spec fn product_type_is_test_spec(product_type: ProductType) -> bool {
    match product_type {
        ProductType::UnitTestBundle | ProductType::UiTestBundle | ProductType::OcUnitTestBundle => true,
        _ => false,
    }
}

/// Test bundle products.
pub fn product_type_is_test(product_type: &ProductType) -> (r: bool)
    ensures
        r == product_type_is_test_spec(*product_type),
{
    match product_type {
        ProductType::UnitTestBundle | ProductType::UiTestBundle | ProductType::OcUnitTestBundle => true,
        _ => false,
    }
}

/// Products a scheme can launch.
pub open spec fn product_type_is_runnable_spec(product_type: ProductType) -> bool {
    match product_type {
        ProductType::Application | ProductType::OnDemandInstallCapableApplication | ProductType::WatchApp | ProductType::Watch2App | ProductType::MessagesApplication | ProductType::CommandLineTool | ProductType::AppExtension | ProductType::XcodeExtension | ProductType::IntentsServiceExtension | ProductType::MessagesExtension | ProductType::WatchExtension | ProductType::Watch2Extension | ProductType::TvExtension => true,
        _ => false,
    }
}

/// Products a scheme can launch.
pub fn product_type_is_runnable(product_type: &ProductType) -> (r: bool)
    ensures
        r == product_type_is_runnable_spec(*product_type),
{
    match product_type {
        ProductType::Application | ProductType::OnDemandInstallCapableApplication | ProductType::WatchApp | ProductType::Watch2App | ProductType::MessagesApplication | ProductType::CommandLineTool | ProductType::AppExtension | ProductType::XcodeExtension | ProductType::IntentsServiceExtension | ProductType::MessagesExtension | ProductType::WatchExtension | ProductType::Watch2Extension | ProductType::TvExtension => true,
        _ => false,
    }
}

/// Extension products, for which a scheme is marked as created for an extension.
pub open spec fn scheme_target_is_app_extension_spec(product_type: ProductType) -> bool {
    match product_type {
        ProductType::AppExtension | ProductType::XcodeExtension | ProductType::IntentsServiceExtension | ProductType::MessagesExtension | ProductType::WatchExtension | ProductType::Watch2Extension | ProductType::TvExtension => true,
        _ => false,
    }
}

/// Extension products, for which a scheme is marked as created for an extension.
pub fn scheme_target_is_app_extension(product_type: &ProductType) -> (r: bool)
    ensures
        r == scheme_target_is_app_extension_spec(*product_type),
{
    match product_type {
        ProductType::AppExtension | ProductType::XcodeExtension | ProductType::IntentsServiceExtension | ProductType::MessagesExtension | ProductType::WatchExtension | ProductType::Watch2Extension | ProductType::TvExtension => true,
        _ => false,
    }
}

/// Products that a target scheme runs directly.
pub open spec fn runnable_scheme_target_type_spec(product_type: ProductType) -> bool {
    match product_type {
        ProductType::Application | ProductType::OnDemandInstallCapableApplication | ProductType::WatchApp | ProductType::Watch2App | ProductType::CommandLineTool | ProductType::AppExtension | ProductType::ExtensionKitExtension => true,
        _ => false,
    }
}

/// Products that a target scheme runs directly.
pub fn runnable_scheme_target_type(product_type: &ProductType) -> (r: bool)
    ensures
        r == runnable_scheme_target_type_spec(*product_type),
{
    match product_type {
        ProductType::Application | ProductType::OnDemandInstallCapableApplication | ProductType::WatchApp | ProductType::Watch2App | ProductType::CommandLineTool | ProductType::AppExtension | ProductType::ExtensionKitExtension => true,
        _ => false,
    }
}

/// Framework products.
pub open spec fn is_framework_spec(product_type: ProductType) -> bool {
    match product_type {
        ProductType::Framework | ProductType::StaticFramework => true,
        _ => false,
    }
}

/// Framework products.
pub fn is_framework(product_type: &ProductType) -> (r: bool)
    ensures
        r == is_framework_spec(*product_type),
{
    match product_type {
        ProductType::Framework | ProductType::StaticFramework => true,
        _ => false,
    }
}

/// Library products.
pub open spec fn is_library_spec(product_type: ProductType) -> bool {
    match product_type {
        ProductType::StaticLibrary | ProductType::DynamicLibrary => true,
        _ => false,
    }
}

/// Library products.
pub fn is_library(product_type: &ProductType) -> (r: bool)
    ensures
        r == is_library_spec(*product_type),
{
    match product_type {
        ProductType::StaticLibrary | ProductType::DynamicLibrary => true,
        _ => false,
    }
}

/// Products that have a Headers build phase.
pub open spec fn target_supports_headers_phase_spec(product_type: ProductType) -> bool {
    match product_type {
        ProductType::Framework | ProductType::StaticFramework | ProductType::DynamicLibrary => true,
        _ => false,
    }
}

/// Products that have a Headers build phase.
pub fn target_supports_headers_phase(product_type: &ProductType) -> (r: bool)
    ensures
        r == target_supports_headers_phase_spec(*product_type),
{
    match product_type {
        ProductType::Framework | ProductType::StaticFramework | ProductType::DynamicLibrary => true,
        _ => false,
    }
}

/// Static library products.
pub open spec fn is_static_library_spec(product_type: ProductType) -> bool {
    match product_type {
        ProductType::StaticLibrary => true,
        _ => false,
    }
}

/// Static library products.
pub fn is_static_library(product_type: &ProductType) -> (r: bool)
    ensures
        r == is_static_library_spec(*product_type),
{
    match product_type {
        ProductType::StaticLibrary => true,
        _ => false,
    }
}

/// Command line tool products.
pub open spec fn is_command_line_tool_spec(product_type: ProductType) -> bool {
    match product_type {
        ProductType::CommandLineTool => true,
        _ => false,
    }
}

/// Command line tool products.
pub fn is_command_line_tool(product_type: &ProductType) -> (r: bool)
    ensures
        r == is_command_line_tool_spec(*product_type),
{
    match product_type {
        ProductType::CommandLineTool => true,
        _ => false,
    }
}

/// The product type identifier written into a native target.
pub open spec fn product_type_raw_spec(product_type: ProductType) -> Seq<char> {
    match product_type {
        ProductType::Application => "com.apple.product-type.application"@,
        ProductType::OnDemandInstallCapableApplication => "com.apple.product-type.application.on-demand-install-capable"@,
        ProductType::Framework => "com.apple.product-type.framework"@,
        ProductType::StaticFramework => "com.apple.product-type.framework.static"@,
        ProductType::DynamicLibrary => "com.apple.product-type.library.dynamic"@,
        ProductType::StaticLibrary => "com.apple.product-type.library.static"@,
        ProductType::Bundle => "com.apple.product-type.bundle"@,
        ProductType::UnitTestBundle => "com.apple.product-type.bundle.unit-test"@,
        ProductType::UiTestBundle => "com.apple.product-type.bundle.ui-testing"@,
        ProductType::OcUnitTestBundle => "com.apple.product-type.bundle.ocunit-test"@,
        ProductType::AppExtension => "com.apple.product-type.app-extension"@,
        ProductType::XcodeExtension => "com.apple.product-type.xcode-extension"@,
        ProductType::IntentsServiceExtension => "com.apple.product-type.app-extension.intents-service"@,
        ProductType::CommandLineTool => "com.apple.product-type.tool"@,
        ProductType::WatchApp => "com.apple.product-type.application.watchapp"@,
        ProductType::Watch2App => "com.apple.product-type.application.watchapp2"@,
        ProductType::WatchExtension => "com.apple.product-type.watchkit-extension"@,
        ProductType::Watch2Extension => "com.apple.product-type.watchkit2-extension"@,
        ProductType::TvExtension => "com.apple.product-type.tv-app-extension"@,
        ProductType::MessagesApplication => "com.apple.product-type.application.messages"@,
        ProductType::MessagesExtension => "com.apple.product-type.app-extension.messages"@,
        ProductType::StickerPack => "com.apple.product-type.app-extension.messages-sticker-pack"@,
        ProductType::XpcService => "com.apple.product-type.xpc-service"@,
        ProductType::InstrumentsPackage => "com.apple.product-type.instruments-package"@,
        ProductType::MetalLibrary => "com.apple.product-type.metal-library"@,
        ProductType::SystemExtension => "com.apple.product-type.system-extension"@,
        ProductType::ExtensionKitExtension => "com.apple.product-type.extensionkit-extension"@,
        ProductType::DriverExtension => "com.apple.product-type.driver-extension"@,
        ProductType::Other(_) => "com.apple.product-type"@,
    }
}

/// The product type identifier written into a native target.
pub fn product_type_raw(product_type: &ProductType) -> (r: &'static str)
    ensures
        r@ == product_type_raw_spec(*product_type),
{
    match product_type {
        ProductType::Application => "com.apple.product-type.application",
        ProductType::OnDemandInstallCapableApplication => "com.apple.product-type.application.on-demand-install-capable",
        ProductType::Framework => "com.apple.product-type.framework",
        ProductType::StaticFramework => "com.apple.product-type.framework.static",
        ProductType::DynamicLibrary => "com.apple.product-type.library.dynamic",
        ProductType::StaticLibrary => "com.apple.product-type.library.static",
        ProductType::Bundle => "com.apple.product-type.bundle",
        ProductType::UnitTestBundle => "com.apple.product-type.bundle.unit-test",
        ProductType::UiTestBundle => "com.apple.product-type.bundle.ui-testing",
        ProductType::OcUnitTestBundle => "com.apple.product-type.bundle.ocunit-test",
        ProductType::AppExtension => "com.apple.product-type.app-extension",
        ProductType::XcodeExtension => "com.apple.product-type.xcode-extension",
        ProductType::IntentsServiceExtension => "com.apple.product-type.app-extension.intents-service",
        ProductType::CommandLineTool => "com.apple.product-type.tool",
        ProductType::WatchApp => "com.apple.product-type.application.watchapp",
        ProductType::Watch2App => "com.apple.product-type.application.watchapp2",
        ProductType::WatchExtension => "com.apple.product-type.watchkit-extension",
        ProductType::Watch2Extension => "com.apple.product-type.watchkit2-extension",
        ProductType::TvExtension => "com.apple.product-type.tv-app-extension",
        ProductType::MessagesApplication => "com.apple.product-type.application.messages",
        ProductType::MessagesExtension => "com.apple.product-type.app-extension.messages",
        ProductType::StickerPack => "com.apple.product-type.app-extension.messages-sticker-pack",
        ProductType::XpcService => "com.apple.product-type.xpc-service",
        ProductType::InstrumentsPackage => "com.apple.product-type.instruments-package",
        ProductType::MetalLibrary => "com.apple.product-type.metal-library",
        ProductType::SystemExtension => "com.apple.product-type.system-extension",
        ProductType::ExtensionKitExtension => "com.apple.product-type.extensionkit-extension",
        ProductType::DriverExtension => "com.apple.product-type.driver-extension",
        ProductType::Other(_) => "com.apple.product-type",
    }
}

/// The file type of a target's product.
pub open spec fn product_file_type_spec(product_type: ProductType) -> Seq<char> {
    match product_type {
        ProductType::Application | ProductType::OnDemandInstallCapableApplication | ProductType::WatchApp | ProductType::Watch2App | ProductType::MessagesApplication => "wrapper.application"@,
        ProductType::Framework | ProductType::StaticFramework => "wrapper.framework"@,
        ProductType::StaticLibrary => "archive.ar"@,
        ProductType::DynamicLibrary => "compiled.mach-o.dylib"@,
        ProductType::Bundle => "wrapper.cfbundle"@,
        ProductType::UnitTestBundle | ProductType::UiTestBundle | ProductType::OcUnitTestBundle => "wrapper.cfbundle"@,
        ProductType::CommandLineTool => "compiled.mach-o.executable"@,
        ProductType::AppExtension | ProductType::XcodeExtension | ProductType::IntentsServiceExtension | ProductType::MessagesExtension | ProductType::StickerPack | ProductType::WatchExtension | ProductType::Watch2Extension | ProductType::TvExtension => "wrapper.app-extension"@,
        ProductType::XpcService => "wrapper.xpc-service"@,
        ProductType::InstrumentsPackage => "wrapper.cfbundle"@,
        ProductType::MetalLibrary => "archive.metal-library"@,
        ProductType::SystemExtension => "wrapper.system-extension"@,
        ProductType::DriverExtension => "wrapper.driver-extension"@,
        _ => "wrapper.cfbundle"@,
    }
}

/// The file type of a target's product.
pub fn product_file_type(product_type: &ProductType) -> (r: &'static str)
    ensures
        r@ == product_file_type_spec(*product_type),
{
    match product_type {
        ProductType::Application | ProductType::OnDemandInstallCapableApplication | ProductType::WatchApp | ProductType::Watch2App | ProductType::MessagesApplication => "wrapper.application",
        ProductType::Framework | ProductType::StaticFramework => "wrapper.framework",
        ProductType::StaticLibrary => "archive.ar",
        ProductType::DynamicLibrary => "compiled.mach-o.dylib",
        ProductType::Bundle => "wrapper.cfbundle",
        ProductType::UnitTestBundle | ProductType::UiTestBundle | ProductType::OcUnitTestBundle => "wrapper.cfbundle",
        ProductType::CommandLineTool => "compiled.mach-o.executable",
        ProductType::AppExtension | ProductType::XcodeExtension | ProductType::IntentsServiceExtension | ProductType::MessagesExtension | ProductType::StickerPack | ProductType::WatchExtension | ProductType::Watch2Extension | ProductType::TvExtension => "wrapper.app-extension",
        ProductType::XpcService => "wrapper.xpc-service",
        ProductType::InstrumentsPackage => "wrapper.cfbundle",
        ProductType::MetalLibrary => "archive.metal-library",
        ProductType::SystemExtension => "wrapper.system-extension",
        ProductType::DriverExtension => "wrapper.driver-extension",
        _ => "wrapper.cfbundle",
    }
}

} // verus!
