//! Path names as the project writer reads them: the last component, its
//! extension and stem, and the file kinds that extensions stand for.
use vstd::prelude::*;
use crate::text::{chars_of, push_char, str_eq};

verus! {

/// Where the last component of `s` starts: just after its last `/`.
pub open spec fn seg_start(s: Seq<char>) -> int
    decreases s.len(),
{
    if s.len() == 0 {
        0
    } else if s.last() == '/' {
        s.len() as int
    } else {
        seg_start(s.drop_last())
    }
}

/// The last normal component of a path (`Path::file_name`): trailing
/// slashes and `.` components are passed over; `..` or nothing gives none.
pub open spec fn file_name_spec(s: Seq<char>) -> Option<Seq<char>>
    decreases s.len(),
{
    if s.len() == 0 {
        None
    } else if s.last() == '/' {
        file_name_spec(s.drop_last())
    } else {
        let k = seg_start(s);
        proof {
            lemma_seg_start_bound(s);
        }
        let seg = s.skip(k);
        if seg == seq!['.'] {
            if k == 0 {
                None
            } else {
                file_name_spec(s.take(k - 1))
            }
        } else if seg == seq!['.', '.'] {
            None
        } else {
            Some(seg)
        }
    }
}

/// The position of the last `.` in `s`, or -1.
pub open spec fn last_dot(s: Seq<char>) -> int
    decreases s.len(),
{
    if s.len() == 0 {
        -1
    } else if s.last() == '.' {
        s.len() - 1
    } else {
        last_dot(s.drop_last())
    }
}

/// The extension of a path (`Path::extension`): what follows the last dot
/// of the file name, when that dot is not its first character.
pub open spec fn extension_spec(s: Seq<char>) -> Option<Seq<char>> {
    match file_name_spec(s) {
        Some(n) => if last_dot(n) > 0 {
            Some(n.skip(last_dot(n) + 1))
        } else {
            None
        },
        None => None,
    }
}

/// The stem of a path (`Path::file_stem`): the file name without its extension.
pub open spec fn file_stem_spec(s: Seq<char>) -> Option<Seq<char>> {
    match file_name_spec(s) {
        Some(n) => if last_dot(n) > 0 {
            Some(n.take(last_dot(n)))
        } else {
            Some(n)
        },
        None => None,
    }
}

/// The name shown for a path: its file name, or the path itself.
pub open spec fn display_name_spec(s: Seq<char>) -> Seq<char> {
    match file_name_spec(s) {
        Some(n) => n,
        None => s,
    }
}

/// The characters of `cs` from `a` up to `b` as a string.
pub fn string_of_range(cs: &Vec<char>, a: usize, b: usize) -> (r: String)
    requires
        a <= b <= cs@.len(),
    ensures
        r@ == cs@.subrange(a as int, b as int),
{
    let mut r = String::new();
    let mut i: usize = a;
    while i < b
        invariant
            a <= i <= b,
            b <= cs@.len(),
            r@ == cs@.subrange(a as int, i as int),
        decreases b - i,
    {
        push_char(&mut r, cs[i]);
        proof {
            assert(cs@.subrange(a as int, i + 1) =~= cs@.subrange(a as int, i as int).push(cs@[i as int]));
        }
        i = i + 1;
    }
    r
}

fn seg_start_upto(cs: &Vec<char>, end: usize) -> (k: usize)
    requires
        end <= cs@.len(),
    ensures
        k as int == seg_start(cs@.take(end as int)),
        k <= end,
    decreases end,
{
    if end == 0 {
        0
    } else if cs[end - 1] == '/' {
        end
    } else {
        proof {
            assert(cs@.take(end as int).drop_last() =~= cs@.take(end - 1));
        }
        seg_start_upto(cs, end - 1)
    }
}

pub proof fn lemma_seg_start_bound(s: Seq<char>)
    ensures
        0 <= seg_start(s) <= s.len(),
        seg_start(s) > 0 ==> s[seg_start(s) - 1] == '/',
        forall|i: int| seg_start(s) <= i < s.len() ==> s[i] != '/',
    decreases s.len(),
{
    if s.len() > 0 && s.last() != '/' {
        let d = s.drop_last();
        lemma_seg_start_bound(d);
        assert forall|i: int| seg_start(s) <= i < s.len() implies s[i] != '/' by {
            if i < s.len() - 1 {
                assert(s[i] == d[i]);
            }
        }
        if seg_start(s) > 0 {
            assert(s[seg_start(s) - 1] == d[seg_start(d) - 1]);
        }
    }
}

/// The text after the last `/` of a path, all of it when it has none: the
/// last item of `split('/')`.
pub fn last_segment(path: &str) -> (r: String)
    ensures
        r@ == path@.skip(seg_start(path@)),
{
    let cs = chars_of(path);
    let k = seg_start_upto(&cs, cs.len());
    proof {
        assert(cs@.take(cs@.len() as int) =~= cs@);
        lemma_seg_start_bound(path@);
        assert(path@.skip(k as int) =~= cs@.subrange(k as int, cs@.len() as int));
    }
    string_of_range(&cs, k, cs.len())
}

fn file_name_upto(cs: &Vec<char>, end: usize) -> (r: Option<String>)
    requires
        end <= cs@.len(),
    ensures
        match r {
            Some(n) => file_name_spec(cs@.take(end as int)) == Some(n@),
            None => file_name_spec(cs@.take(end as int)) is None,
        },
    decreases end,
{
    let ghost s = cs@.take(end as int);
    if end == 0 {
        return None;
    }
    if cs[end - 1] == '/' {
        proof {
            assert(s.drop_last() =~= cs@.take(end - 1));
        }
        return file_name_upto(cs, end - 1);
    }
    let k = seg_start_upto(cs, end);
    proof {
        lemma_seg_start_bound(s);
        assert(s.skip(k as int) =~= cs@.subrange(k as int, end as int));
    }
    let n = end - k;
    if n == 1 && cs[k] == '.' {
        proof {
            assert(s.skip(k as int) =~= seq!['.']);
        }
        if k == 0 {
            return None;
        }
        proof {
            assert(s.take(k - 1) =~= cs@.take(k - 1));
        }
        return file_name_upto(cs, k - 1);
    }
    proof {
        if s.skip(k as int) == seq!['.'] {
            assert(s.skip(k as int)[0] == cs@[k as int]);
        }
    }
    if n == 2 && cs[k] == '.' && cs[k + 1] == '.' {
        proof {
            assert(s.skip(k as int) =~= seq!['.', '.']);
        }
        return None;
    }
    proof {
        if s.skip(k as int) == seq!['.', '.'] {
            assert(s.skip(k as int)[0] == cs@[k as int]);
            assert(s.skip(k as int)[1] == cs@[k + 1]);
        }
    }
    Some(string_of_range(cs, k, end))
}

/// The last normal component of a path.
pub fn file_name(path: &str) -> (r: Option<String>)
    ensures
        match r {
            Some(n) => file_name_spec(path@) == Some(n@),
            None => file_name_spec(path@) is None,
        },
{
    let cs = chars_of(path);
    proof {
        assert(cs@.take(cs@.len() as int) =~= cs@);
    }
    file_name_upto(&cs, cs.len())
}

fn last_dot_of(cs: &Vec<char>) -> (r: Option<usize>)
    ensures
        match r {
            Some(d) => d as int == last_dot(cs@) && d < cs.len(),
            None => last_dot(cs@) == -1,
        },
{
    let mut i: usize = cs.len();
    proof {
        assert(cs@.take(i as int) =~= cs@);
    }
    while i > 0
        invariant
            i <= cs@.len(),
            last_dot(cs@) == last_dot(cs@.take(i as int)),
        decreases i,
    {
        if cs[i - 1] == '.' {
            return Some(i - 1);
        }
        proof {
            assert(cs@.take(i as int).drop_last() =~= cs@.take(i - 1));
        }
        i = i - 1;
    }
    None
}

/// The extension of a path.
pub fn extension(path: &str) -> (r: Option<String>)
    ensures
        match r {
            Some(e) => extension_spec(path@) == Some(e@),
            None => extension_spec(path@) is None,
        },
{
    match file_name(path) {
        Some(n) => {
            let cs = chars_of(n.as_str());
            match last_dot_of(&cs) {
                Some(d) => if d > 0 {
                    proof {
                        assert(cs@.skip(d + 1) =~= cs@.subrange(d + 1, cs@.len() as int));
                    }
                    Some(string_of_range(&cs, d + 1, cs.len()))
                } else {
                    None
                },
                None => None,
            }
        }
        None => None,
    }
}

/// The stem of a path.
pub fn file_stem(path: &str) -> (r: Option<String>)
    ensures
        match r {
            Some(e) => file_stem_spec(path@) == Some(e@),
            None => file_stem_spec(path@) is None,
        },
{
    match file_name(path) {
        Some(n) => {
            let cs = chars_of(n.as_str());
            match last_dot_of(&cs) {
                Some(d) => if d > 0 {
                    proof {
                        assert(cs@.take(d as int) =~= cs@.subrange(0, d as int));
                    }
                    Some(string_of_range(&cs, 0, d))
                } else {
                    Some(n)
                },
                None => Some(n),
            }
        }
        None => None,
    }
}

/// The name shown for a path.
pub fn display_name(path: &str) -> (r: String)
    ensures
        r@ == display_name_spec(path@),
{
    match file_name(path) {
        Some(n) => n,
        None => path.to_owned(),
    }
}

/// Whether a path has an extension.
pub fn has_extension(path: &str) -> (r: bool)
    ensures
        r == (extension_spec(path@) is Some),
{
    extension(path).is_some()
}

/// Paths whose files are compiled in a Sources phase.
pub open spec fn is_source_file_spec(path: Seq<char>) -> bool {
    match extension_spec(path) {
        Some(e) => e == "swift"@ || e == "gyb"@ || e == "m"@ || e == "mm"@ || e == "c"@ || e == "cc"@ || e == "cpp"@ || e == "cp"@ || e == "cxx"@ || e == "S"@ || e == "xcdatamodeld"@ || e == "xcmappingmodel"@ || e == "intentdefinition"@ || e == "metal"@ || e == "mlmodel"@ || e == "mlpackage"@ || e == "rcproject"@ || e == "iig"@ || e == "docc"@,
        None => false,
    }
}

/// Paths whose files are compiled in a Sources phase.
pub fn is_source_file(path: &str) -> (r: bool)
    ensures
        r == is_source_file_spec(path@),
{
    match extension(path) {
        Some(e) => str_eq(e.as_str(), "swift") || str_eq(e.as_str(), "gyb") || str_eq(e.as_str(), "m") || str_eq(e.as_str(), "mm") || str_eq(e.as_str(), "c") || str_eq(e.as_str(), "cc") || str_eq(e.as_str(), "cpp") || str_eq(e.as_str(), "cp") || str_eq(e.as_str(), "cxx") || str_eq(e.as_str(), "S") || str_eq(e.as_str(), "xcdatamodeld") || str_eq(e.as_str(), "xcmappingmodel") || str_eq(e.as_str(), "intentdefinition") || str_eq(e.as_str(), "metal") || str_eq(e.as_str(), "mlmodel") || str_eq(e.as_str(), "mlpackage") || str_eq(e.as_str(), "rcproject") || str_eq(e.as_str(), "iig") || str_eq(e.as_str(), "docc"),
        None => false,
    }
}

/// Paths of header files.
pub open spec fn is_header_file_spec(path: Seq<char>) -> bool {
    match extension_spec(path) {
        Some(e) => e == "h"@ || e == "hh"@ || e == "hpp"@ || e == "ipp"@ || e == "tpp"@ || e == "hxx"@ || e == "def"@,
        None => false,
    }
}

/// Paths of header files.
pub fn is_header_file(path: &str) -> (r: bool)
    ensures
        r == is_header_file_spec(path@),
{
    match extension(path) {
        Some(e) => str_eq(e.as_str(), "h") || str_eq(e.as_str(), "hh") || str_eq(e.as_str(), "hpp") || str_eq(e.as_str(), "ipp") || str_eq(e.as_str(), "tpp") || str_eq(e.as_str(), "hxx") || str_eq(e.as_str(), "def"),
        None => false,
    }
}

/// Paths that are copied by a Copy Files phase.
pub open spec fn is_copy_files_source_spec(path: Seq<char>) -> bool {
    match extension_spec(path) {
        Some(e) => e == "framework"@ || e == "modulemap"@ || e == "swiftcrossimport"@ || e == "swiftoverlay"@ || e == "xcframework"@ || e == "xpc"@,
        None => false,
    }
}

/// Paths that are copied by a Copy Files phase.
pub fn is_copy_files_source(path: &str) -> (r: bool)
    ensures
        r == is_copy_files_source_spec(path@),
{
    match extension(path) {
        Some(e) => str_eq(e.as_str(), "framework") || str_eq(e.as_str(), "modulemap") || str_eq(e.as_str(), "swiftcrossimport") || str_eq(e.as_str(), "swiftoverlay") || str_eq(e.as_str(), "xcframework") || str_eq(e.as_str(), "xpc"),
        None => false,
    }
}

/// Paths of module description files.
pub open spec fn is_module_copy_file_spec(path: Seq<char>) -> bool {
    match extension_spec(path) {
        Some(e) => e == "modulemap"@ || e == "swiftcrossimport"@ || e == "swiftoverlay"@,
        None => false,
    }
}

/// Paths of module description files.
pub fn is_module_copy_file(path: &str) -> (r: bool)
    ensures
        r == is_module_copy_file_spec(path@),
{
    match extension(path) {
        Some(e) => str_eq(e.as_str(), "modulemap") || str_eq(e.as_str(), "swiftcrossimport") || str_eq(e.as_str(), "swiftoverlay"),
        None => false,
    }
}

/// Paths that belong to no build phase.
pub open spec fn is_unphased_file_spec(path: Seq<char>) -> bool {
    match extension_spec(path) {
        Some(e) => e == "xcconfig"@ || e == "entitlements"@ || e == "gpx"@ || e == "lproj"@ || e == "xcfilelist"@ || e == "apns"@ || e == "pch"@ || e == "xctestplan"@,
        None => false,
    }
}

/// Paths that belong to no build phase.
pub fn is_unphased_file(path: &str) -> (r: bool)
    ensures
        r == is_unphased_file_spec(path@),
{
    match extension(path) {
        Some(e) => str_eq(e.as_str(), "xcconfig") || str_eq(e.as_str(), "entitlements") || str_eq(e.as_str(), "gpx") || str_eq(e.as_str(), "lproj") || str_eq(e.as_str(), "xcfilelist") || str_eq(e.as_str(), "apns") || str_eq(e.as_str(), "pch") || str_eq(e.as_str(), "xctestplan"),
        None => false,
    }
}

/// Paths of directories that Xcode treats as one file.
pub open spec fn is_wrapper_path_spec(path: Seq<char>) -> bool {
    match extension_spec(path) {
        Some(e) => e == "app"@ || e == "bundle"@ || e == "docc"@ || e == "icon"@ || e == "playground"@ || e == "scnassets"@ || e == "swiftcrossimport"@ || e == "swiftoverlay"@ || e == "framework"@ || e == "xpc"@ || e == "xcassets"@ || e == "xcdatamodeld"@ || e == "xcmappingmodel"@ || e == "xctestplan"@,
        None => false,
    }
}

/// Paths of directories that Xcode treats as one file.
pub fn is_wrapper_path(path: &str) -> (r: bool)
    ensures
        r == is_wrapper_path_spec(path@),
{
    match extension(path) {
        Some(e) => str_eq(e.as_str(), "app") || str_eq(e.as_str(), "bundle") || str_eq(e.as_str(), "docc") || str_eq(e.as_str(), "icon") || str_eq(e.as_str(), "playground") || str_eq(e.as_str(), "scnassets") || str_eq(e.as_str(), "swiftcrossimport") || str_eq(e.as_str(), "swiftoverlay") || str_eq(e.as_str(), "framework") || str_eq(e.as_str(), "xpc") || str_eq(e.as_str(), "xcassets") || str_eq(e.as_str(), "xcdatamodeld") || str_eq(e.as_str(), "xcmappingmodel") || str_eq(e.as_str(), "xctestplan"),
        None => false,
    }
}

/// The file type Xcode records for an extension.
pub open spec fn ext_file_type_spec(e: Seq<char>) -> Seq<char> {
        if e == "swift"@ {
            "sourcecode.swift"@
        } else
        if e == "d"@ {
            "sourcecode.dtrace"@
        } else
        if e == "m"@ {
            "sourcecode.c.objc"@
        } else
        if e == "mm"@ {
            "sourcecode.cpp.objcpp"@
        } else
        if e == "cpp"@ || e == "cc"@ || e == "cxx"@ || e == "cp"@ {
            "sourcecode.cpp.cpp"@
        } else
        if e == "h"@ || e == "hh"@ || e == "hpp"@ || e == "ipp"@ || e == "tpp"@ || e == "hxx"@ || e == "def"@ {
            "sourcecode.c.h"@
        } else
        if e == "plist"@ {
            "text.plist"@
        } else
        if e == "txt"@ {
            "text"@
        } else
        if e == "yml"@ || e == "yaml"@ {
            "text.yaml"@
        } else
        if e == "md"@ || e == "markdown"@ {
            "net.daringfireball.markdown"@
        } else
        if e == "json"@ {
            "text.json"@
        } else
        if e == "html"@ {
            "text.html"@
        } else
        if e == "sh"@ {
            "text.script.sh"@
        } else
        if e == "png"@ {
            "image.png"@
        } else
        if e == "gif"@ {
            "image.gif"@
        } else
        if e == "jpg"@ || e == "jpeg"@ {
            "image.jpeg"@
        } else
        if e == "mp3"@ {
            "audio.mp3"@
        } else
        if e == "dae"@ {
            "text.xml.dae"@
        } else
        if e == "js"@ {
            "sourcecode.javascript"@
        } else
        if e == "metal"@ {
            "sourcecode.metal"@
        } else
        if e == "strings"@ {
            "text.plist.strings"@
        } else
        if e == "stringsdict"@ {
            "text.plist.stringsdict"@
        } else
        if e == "entitlements"@ {
            "text.plist.entitlements"@
        } else
        if e == "xcconfig"@ {
            "text.xcconfig"@
        } else
        if e == "xcfilelist"@ {
            "text.xcfilelist"@
        } else
        if e == "xcstrings"@ {
            "text.json.xcstrings"@
        } else
        if e == "apns"@ {
            "text"@
        } else
        if e == "playground"@ {
            "file.playground"@
        } else
        if e == "xcassets"@ {
            "folder.assetcatalog"@
        } else
        if e == "xcdatamodel"@ {
            "wrapper.xcdatamodel"@
        } else
        if e == "xcmappingmodel"@ {
            "wrapper.xcmappingmodel"@
        } else
        if e == "docc"@ {
            "folder.documentationcatalog"@
        } else
        if e == "icon"@ {
            "wrapper.icon"@
        } else
        if e == "iig"@ {
            "sourcecode.iig"@
        } else
        if e == "modulemap"@ {
            "sourcecode.module-map"@
        } else
        if e == "scnassets"@ {
            "wrapper.scnassets"@
        } else
        if e == "swiftcrossimport"@ {
            "wrapper.swiftcrossimport"@
        } else
        if e == "swiftoverlay"@ {
            "file"@
        } else
        if e == "storyboard"@ {
            "file.storyboard"@
        } else
        if e == "xib"@ {
            "file.xib"@
        } else
        if e == "framework"@ {
            "wrapper.framework"@
        } else
        if e == "xcframework"@ {
            "wrapper.xcframework"@
        } else
        if e == "xpc"@ {
            "wrapper.xpc-service"@
        } else
        if e == "a"@ {
            "archive.ar"@
        } else
        if e == "bin"@ {
            "archive.macbinary"@
        } else
        if e == "zip"@ {
            "archive.zip"@
        } else
        if e == "dylib"@ {
            "compiled.mach-o.dylib"@
        } else
        if e == "tbd"@ {
            "sourcecode.text-based-dylib-definition"@
        } else
        if e == "bundle"@ {
            "wrapper.cfbundle"@
        } else
        if e == "xctestplan"@ {
            "text"@
        } else {
            "file"@
        }
}

/// The file type Xcode records for an extension.
pub fn ext_file_type(e: &str) -> (r: &'static str)
    ensures
        r@ == ext_file_type_spec(e@),
{
        if str_eq(e, "swift") {
            "sourcecode.swift"
        } else
        if str_eq(e, "d") {
            "sourcecode.dtrace"
        } else
        if str_eq(e, "m") {
            "sourcecode.c.objc"
        } else
        if str_eq(e, "mm") {
            "sourcecode.cpp.objcpp"
        } else
        if str_eq(e, "cpp") || str_eq(e, "cc") || str_eq(e, "cxx") || str_eq(e, "cp") {
            "sourcecode.cpp.cpp"
        } else
        if str_eq(e, "h") || str_eq(e, "hh") || str_eq(e, "hpp") || str_eq(e, "ipp") || str_eq(e, "tpp") || str_eq(e, "hxx") || str_eq(e, "def") {
            "sourcecode.c.h"
        } else
        if str_eq(e, "plist") {
            "text.plist"
        } else
        if str_eq(e, "txt") {
            "text"
        } else
        if str_eq(e, "yml") || str_eq(e, "yaml") {
            "text.yaml"
        } else
        if str_eq(e, "md") || str_eq(e, "markdown") {
            "net.daringfireball.markdown"
        } else
        if str_eq(e, "json") {
            "text.json"
        } else
        if str_eq(e, "html") {
            "text.html"
        } else
        if str_eq(e, "sh") {
            "text.script.sh"
        } else
        if str_eq(e, "png") {
            "image.png"
        } else
        if str_eq(e, "gif") {
            "image.gif"
        } else
        if str_eq(e, "jpg") || str_eq(e, "jpeg") {
            "image.jpeg"
        } else
        if str_eq(e, "mp3") {
            "audio.mp3"
        } else
        if str_eq(e, "dae") {
            "text.xml.dae"
        } else
        if str_eq(e, "js") {
            "sourcecode.javascript"
        } else
        if str_eq(e, "metal") {
            "sourcecode.metal"
        } else
        if str_eq(e, "strings") {
            "text.plist.strings"
        } else
        if str_eq(e, "stringsdict") {
            "text.plist.stringsdict"
        } else
        if str_eq(e, "entitlements") {
            "text.plist.entitlements"
        } else
        if str_eq(e, "xcconfig") {
            "text.xcconfig"
        } else
        if str_eq(e, "xcfilelist") {
            "text.xcfilelist"
        } else
        if str_eq(e, "xcstrings") {
            "text.json.xcstrings"
        } else
        if str_eq(e, "apns") {
            "text"
        } else
        if str_eq(e, "playground") {
            "file.playground"
        } else
        if str_eq(e, "xcassets") {
            "folder.assetcatalog"
        } else
        if str_eq(e, "xcdatamodel") {
            "wrapper.xcdatamodel"
        } else
        if str_eq(e, "xcmappingmodel") {
            "wrapper.xcmappingmodel"
        } else
        if str_eq(e, "docc") {
            "folder.documentationcatalog"
        } else
        if str_eq(e, "icon") {
            "wrapper.icon"
        } else
        if str_eq(e, "iig") {
            "sourcecode.iig"
        } else
        if str_eq(e, "modulemap") {
            "sourcecode.module-map"
        } else
        if str_eq(e, "scnassets") {
            "wrapper.scnassets"
        } else
        if str_eq(e, "swiftcrossimport") {
            "wrapper.swiftcrossimport"
        } else
        if str_eq(e, "swiftoverlay") {
            "file"
        } else
        if str_eq(e, "storyboard") {
            "file.storyboard"
        } else
        if str_eq(e, "xib") {
            "file.xib"
        } else
        if str_eq(e, "framework") {
            "wrapper.framework"
        } else
        if str_eq(e, "xcframework") {
            "wrapper.xcframework"
        } else
        if str_eq(e, "xpc") {
            "wrapper.xpc-service"
        } else
        if str_eq(e, "a") {
            "archive.ar"
        } else
        if str_eq(e, "bin") {
            "archive.macbinary"
        } else
        if str_eq(e, "zip") {
            "archive.zip"
        } else
        if str_eq(e, "dylib") {
            "compiled.mach-o.dylib"
        } else
        if str_eq(e, "tbd") {
            "sourcecode.text-based-dylib-definition"
        } else
        if str_eq(e, "bundle") {
            "wrapper.cfbundle"
        } else
        if str_eq(e, "xctestplan") {
            "text"
        } else {
            "file"
        }
}

} // verus!
