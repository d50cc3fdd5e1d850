//! The build phase each file of a target goes to.
use vstd::prelude::*;
use crate::model::Target;
use crate::paths::{file_name_spec, extension_spec, is_copy_files_source_spec, is_header_file_spec, is_source_file_spec,
    is_unphased_file_spec, is_module_copy_file_spec, is_copy_files_source, is_header_file, is_source_file, is_unphased_file,
    has_extension, is_module_copy_file, file_name};
use crate::products::{ProductType, is_framework_spec, target_supports_headers_phase_spec, is_framework,
    target_supports_headers_phase};
use crate::settings::plist_path;

verus! {

/// The build phases a file can go to.
#[derive(PartialEq, Eq, Structural, Clone, Copy)]
pub enum BuildPhase {
    Sources,
    Resources,
    Headers,
    CopyFiles,
    CopyHeaders,
}

/// The name of a build phase.
pub open spec fn phase_text(p: BuildPhase) -> Seq<char> {
    match p {
        BuildPhase::Sources => "Sources"@,
        BuildPhase::Resources => "Resources"@,
        BuildPhase::Headers => "Headers"@,
        BuildPhase::CopyFiles => "CopyFiles"@,
        BuildPhase::CopyHeaders => "CopyHeaders"@,
    }
}

/// The name of a build phase.
pub fn phase_str(p: BuildPhase) -> (r: &'static str)
    ensures
        r@ == phase_text(p),
{
    match p {
        BuildPhase::Sources => "Sources",
        BuildPhase::Resources => "Resources",
        BuildPhase::Headers => "Headers",
        BuildPhase::CopyFiles => "CopyFiles",
        BuildPhase::CopyHeaders => "CopyHeaders",
    }
}

/// The phase a file goes to by its kind: files copied as they are, headers,
/// compiled sources, nothing for files no phase takes, resources for other
/// files with an extension.
pub open spec fn phase_for_source_spec(path: Seq<char>) -> Option<BuildPhase> {
    if is_copy_files_source_spec(path) {
        Some(BuildPhase::CopyFiles)
    } else if is_header_file_spec(path) {
        Some(BuildPhase::Headers)
    } else if is_source_file_spec(path) {
        Some(BuildPhase::Sources)
    } else if is_unphased_file_spec(path) {
        None
    } else if extension_spec(path) is Some {
        Some(BuildPhase::Resources)
    } else {
        None
    }
}

/// The phase a file goes to by its kind.
pub fn build_phase_for_source(path: &str) -> (r: Option<BuildPhase>)
    ensures
        r == phase_for_source_spec(path@),
{
    if is_copy_files_source(path) {
        Some(BuildPhase::CopyFiles)
    } else if is_header_file(path) {
        Some(BuildPhase::Headers)
    } else if is_source_file(path) {
        Some(BuildPhase::Sources)
    } else if is_unphased_file(path) {
        None
    } else if has_extension(path) {
        Some(BuildPhase::Resources)
    } else {
        None
    }
}

/// The phase a file of a target goes to: none for its Info.plist; public
/// headers of a static library are copied; module files are copied only
/// into frameworks and static libraries, and headers go to a headers phase
/// only of targets that have one.
pub open spec fn file_phase_spec(t: Target, path: Seq<char>) -> Option<BuildPhase> {
    let base = if file_name_spec(path) == Some("Info.plist"@) || plist_path(t.info_plist) == Some(path) {
        None
    } else {
        phase_for_source_spec(path)
    };
    if base == Some(BuildPhase::Headers) && t.target_type == ProductType::StaticLibrary {
        Some(BuildPhase::CopyHeaders)
    } else if (base == Some(BuildPhase::CopyFiles) && is_module_copy_file_spec(path) && !(is_framework_spec(t.target_type)
        || t.target_type == ProductType::StaticLibrary)) || (base == Some(BuildPhase::Headers)
        && !target_supports_headers_phase_spec(t.target_type)) {
        None
    } else {
        base
    }
}

fn is_static_library_type(t: &ProductType) -> (r: bool)
    ensures
        r == (*t == ProductType::StaticLibrary),
{
    match t {
        ProductType::StaticLibrary => true,
        _ => false,
    }
}

/// The phase a file of a target goes to.
pub fn file_phase(target: &Target, path: &str) -> (r: Option<BuildPhase>)
    ensures
        r == file_phase_spec(*target, path@),
{
    let is_plist_name = match file_name(path) {
        Some(n) => crate::text::str_eq(n.as_str(), "Info.plist"),
        None => false,
    };
    let is_plist_path = match &target.info_plist {
        Some(pl) => match &pl.path {
            Some(p) => crate::text::str_eq(p.as_str(), path),
            None => false,
        },
        None => false,
    };
    let base = if is_plist_name || is_plist_path {
        None
    } else {
        build_phase_for_source(path)
    };
    let static_lib = is_static_library_type(&target.target_type);
    if base == Some(BuildPhase::Headers) && static_lib {
        Some(BuildPhase::CopyHeaders)
    } else if (base == Some(BuildPhase::CopyFiles) && is_module_copy_file(path) && !(is_framework(&target.target_type)
        || static_lib)) || (base == Some(BuildPhase::Headers) && !target_supports_headers_phase(&target.target_type)) {
        None
    } else {
        base
    }
}

} // verus!
