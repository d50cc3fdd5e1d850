//! The settings a target gets unless its specification sets them: its
//! bundle identifier, SDK, device families and supported platforms, its
//! deployment target, and the presets of its product.
use vstd::prelude::*;
use crate::graph::{PbxValue, PVal, pdepth};
use crate::depth::lemma_sins_below;
use crate::rules::pbx_bool;
use crate::depth::entries_below;
use crate::products::ProductType;
use crate::settings::{apply_presets, or_ins_all};
use crate::target_presets::rpaths;
use crate::model::{Project, Target};
use crate::products::{Platform, sdk_root, sdk_root_spec, targeted_device_family, targeted_device_family_spec};
use crate::smap::{entries_view, keys_sorted, sins, smap_insert};
use crate::target_presets::{pairs_view, target_presets_spec, target_setting_presets};
use crate::text::{concat2, concat3, push_char, push_str, str_eq, string_from};

verus! {

/// A target name as the end of a bundle identifier: underscores become
/// hyphens and spaces are dropped.
pub open spec fn bundle_id_suffix(name: Seq<char>) -> Seq<char>
    decreases name.len(),
{
    if name.len() == 0 {
        Seq::empty()
    } else {
        let c = name.last();
        bundle_id_suffix(name.drop_last()) + if c == '_' {
            seq!['-']
        } else if c == ' ' {
            Seq::empty()
        } else {
            seq![c]
        }
    }
}

/// A target name as the end of a bundle identifier.
pub fn bundle_identifier_suffix(name: &str) -> (r: String)
    ensures
        r@ == bundle_id_suffix(name@),
{
    let cs = crate::text::chars_of(name);
    let mut out = String::new();
    let mut i: usize = 0;
    while i < cs.len()
        invariant
            i <= cs@.len(),
            cs@ == name@,
            out@ == bundle_id_suffix(cs@.take(i as int)),
        decreases cs.len() - i,
    {
        let c = cs[i];
        proof {
            assert(cs@.take(i + 1).drop_last() =~= cs@.take(i as int));
            assert(cs@.take(i + 1).last() == c);
        }
        if c == '_' {
            push_char(&mut out, '-');
        } else if c != ' ' {
            push_char(&mut out, c);
        }
        proof {
            assert(out@ =~= bundle_id_suffix(cs@.take(i + 1)));
        }
        i = i + 1;
    }
    proof {
        assert(cs@.take(i as int) =~= cs@);
    }
    out
}

/// The setting that holds a platform's deployment target; none for a
/// target whose platform follows its destinations.
pub open spec fn deployment_key_spec(p: Platform) -> Seq<char> {
    match p {
        Platform::Ios => "IPHONEOS_DEPLOYMENT_TARGET"@,
        Platform::Macos => "MACOSX_DEPLOYMENT_TARGET"@,
        Platform::Tvos => "TVOS_DEPLOYMENT_TARGET"@,
        Platform::Watchos => "WATCHOS_DEPLOYMENT_TARGET"@,
        Platform::Visionos => "XROS_DEPLOYMENT_TARGET"@,
        Platform::Auto => ""@,
    }
}

/// The setting that holds a platform's deployment target.
pub fn deployment_target_setting(p: Platform) -> (r: &'static str)
    ensures
        r@ == deployment_key_spec(p),
{
    match p {
        Platform::Ios => "IPHONEOS_DEPLOYMENT_TARGET",
        Platform::Macos => "MACOSX_DEPLOYMENT_TARGET",
        Platform::Tvos => "TVOS_DEPLOYMENT_TARGET",
        Platform::Watchos => "WATCHOS_DEPLOYMENT_TARGET",
        Platform::Visionos => "XROS_DEPLOYMENT_TARGET",
        Platform::Auto => "",
    }
}

/// How often a destination is listed.
pub open spec fn dest_count(sd: Seq<String>, d: Seq<char>) -> nat
    decreases sd.len(),
{
    if sd.len() == 0 {
        0
    } else {
        dest_count(sd.drop_last(), d) + if sd.last()@ == d { 1nat } else { 0nat }
    }
}

/// Whether some destination is listed twice.
pub open spec fn has_duplicate_destinations(sd: Seq<String>) -> bool {
    exists|i: int, j: int| 0 <= i < j < sd.len() && #[trigger] sd[i]@ == #[trigger] sd[j]@
}

/// A sequence repeated `n` times.
pub open spec fn repeat(s: Seq<Seq<char>>, n: nat) -> Seq<Seq<char>>
    decreases n,
{
    if n == 0 { Seq::empty() } else { repeat(s, (n - 1) as nat) + s }
}

/// What a destination adds, once or as often as it is listed when some
/// destination is listed twice.
pub open spec fn per_destination(sd: Seq<String>, d: Seq<char>, items: Seq<Seq<char>>) -> Seq<Seq<char>> {
    if has_duplicate_destinations(sd) {
        repeat(items, dest_count(sd, d))
    } else if dest_count(sd, d) > 0 {
        items
    } else {
        Seq::empty()
    }
}

/// The platforms of a target's supported destinations.
pub open spec fn supported_platform_names(sd: Seq<String>) -> Seq<Seq<char>> {
    per_destination(sd, "iOS"@, seq!["iphoneos"@, "iphonesimulator"@]) + per_destination(
        sd,
        "tvOS"@,
        seq!["appletvos"@, "appletvsimulator"@],
    ) + per_destination(sd, "watchOS"@, seq!["watchos"@, "watchsimulator"@]) + per_destination(
        sd,
        "visionOS"@,
        seq!["xros"@, "xrsimulator"@],
    ) + per_destination(sd, "macOS"@, seq!["macosx"@])
}

/// Words joined with a separator.
pub open spec fn join_with(words: Seq<Seq<char>>, sep: Seq<char>) -> Seq<char>
    decreases words.len(),
{
    if words.len() == 0 {
        Seq::empty()
    } else if words.len() == 1 {
        words[0]
    } else {
        join_with(words.drop_last(), sep) + sep + words.last()
    }
}

/// The supported platforms setting of a target with destinations.
pub open spec fn supported_platforms_spec(sd: Seq<String>) -> Option<Seq<char>> {
    let names = supported_platform_names(sd);
    if names.len() == 0 { None } else { Some(join_with(names, " "@)) }
}

/// The device families of a target's supported destinations.
pub open spec fn destination_families(sd: Seq<String>) -> Seq<Seq<char>> {
    per_destination(sd, "iOS"@, seq!["1"@, "2"@]) + per_destination(sd, "tvOS"@, seq!["3"@]) + per_destination(
        sd,
        "watchOS"@,
        seq!["4"@],
    ) + per_destination(sd, "visionOS"@, seq!["7"@])
}

/// The device family setting of a target with destinations.
pub open spec fn destination_family_spec(sd: Seq<String>) -> Option<Seq<char>> {
    let f = destination_families(sd);
    if f.len() == 0 { None } else { Some(join_with(f, ","@)) }
}

/// Whether a destination is listed.
pub open spec fn has_dest(sd: Seq<String>, d: Seq<char>) -> bool {
    exists|i: int| 0 <= i < sd.len() && (#[trigger] sd[i])@ == d
}

/// A flag value.
pub open spec fn flag(b: bool) -> PVal {
    PVal::Str(if b { "YES"@ } else { "NO"@ })
}

/// The settings a target's destinations imply, set over `s`.
pub open spec fn destination_presets(s: Seq<(Seq<char>, PVal)>, t: Target) -> Seq<(Seq<char>, PVal)> {
    let sd = t.supported_destinations@;
    let ios = has_dest(sd, "iOS"@);
    let tvos = has_dest(sd, "tvOS"@);
    let vision = has_dest(sd, "visionOS"@);
    let macos = has_dest(sd, "macOS"@);
    let catalyst = has_dest(sd, "macCatalyst"@);
    let s1 = sins(s, "SUPPORTS_MACCATALYST"@, flag(catalyst));
    let s2 = if macos && !ios && !tvos && !vision {
        sins(
            sins(sins(s1, "COMBINE_HIDPI_IMAGES"@, flag(true)), "SUPPORTS_MAC_DESIGNED_FOR_IPHONE_IPAD"@, flag(false)),
            "TARGETED_DEVICE_FAMILY"@,
            PVal::Str(""@),
        )
    } else {
        s1
    };
    let s3 = if ios || tvos || vision {
        sins(s2, "SUPPORTS_MAC_DESIGNED_FOR_IPHONE_IPAD"@, flag(ios && !macos && !catalyst))
    } else {
        s2
    };
    let s4 = if ios || vision { sins(s3, "SUPPORTS_XR_DESIGNED_FOR_IPHONE_IPAD"@, flag(ios && !vision)) } else { s3 };
    if t.target_type == crate::products::ProductType::Application {
        let s5 = if ios || tvos {
            sins(s4, "LD_RUNPATH_SEARCH_PATHS"@, crate::target_presets::executable_rpaths(Platform::Ios))
        } else {
            s4
        };
        let s6 = if tvos && !ios {
            sins(
                sins(s5, "ASSETCATALOG_COMPILER_APPICON_NAME"@, PVal::Str("App Icon & Top Shelf Image"@)),
                "ASSETCATALOG_COMPILER_LAUNCHIMAGE_NAME"@,
                PVal::Str("LaunchImage"@),
            )
        } else if ios || vision {
            sins(s5, "ASSETCATALOG_COMPILER_APPICON_NAME"@, PVal::Str("AppIcon"@))
        } else {
            s5
        };
        if ios { sins(s6, "CODE_SIGN_IDENTITY"@, PVal::Str("iPhone Developer"@)) } else { s6 }
    } else {
        s4
    }
}


/// Entries whose values nest at most one level deep.
pub open spec fn shallow_map(d: Seq<(String, PbxValue)>) -> bool {
    forall|k: int| 0 <= k < d.len() ==> pdepth(#[trigger] d[k].1@) <= 1
}

fn put(d: &mut Vec<(String, PbxValue)>, key: &str, value: PbxValue)
    requires
        keys_sorted(entries_view(old(d)@)),
        shallow_map(old(d)@),
        pdepth(value@) <= 1,
    ensures
        keys_sorted(entries_view(final(d)@)),
        shallow_map(final(d)@),
        entries_view(final(d)@) == sins(entries_view(old(d)@), key@, value@),
{
    let ghost e0 = entries_view(d@);
    proof {
        assert forall|i: int| 0 <= i < e0.len() implies pdepth(#[trigger] e0[i].1) < 2 by {
            assert(e0[i].1 == d@[i].1@);
        }
        lemma_sins_below(e0, key@, value@, 2);
    }
    smap_insert(d, string_from(key), value);
    proof {
        let e1 = entries_view(d@);
        assert forall|k: int| 0 <= k < d@.len() implies pdepth(#[trigger] d@[k].1@) <= 1 by {
            assert(e1[k].1 == d@[k].1@);
        }
    }
}

fn put_str(d: &mut Vec<(String, PbxValue)>, key: &str, value: &str)
    requires
        keys_sorted(entries_view(old(d)@)),
        shallow_map(old(d)@),
    ensures
        keys_sorted(entries_view(final(d)@)),
        shallow_map(final(d)@),
        entries_view(final(d)@) == sins(entries_view(old(d)@), key@, PVal::Str(value@)),
{
    put(d, key, PbxValue::String(string_from(value)));
}

fn put_flag(d: &mut Vec<(String, PbxValue)>, key: &str, b: bool)
    requires
        keys_sorted(entries_view(old(d)@)),
        shallow_map(old(d)@),
    ensures
        keys_sorted(entries_view(final(d)@)),
        shallow_map(final(d)@),
        entries_view(final(d)@) == sins(entries_view(old(d)@), key@, flag(b)),
{
    put(d, key, pbx_bool(b));
}

/// Whether a destination is listed.
pub fn has_supported_destination(t: &Target, d: &str) -> (r: bool)
    ensures
        r == has_dest(t.supported_destinations@, d@),
{
    let sd = &t.supported_destinations;
    let mut i: usize = 0;
    while i < sd.len()
        invariant
            sd == &t.supported_destinations,
            i <= sd@.len(),
            forall|j: int| 0 <= j < i ==> (#[trigger] sd@[j])@ != d@,
        decreases sd.len() - i,
    {
        if str_eq(sd[i].as_str(), d) {
            return true;
        }
        i = i + 1;
    }
    false
}

fn count_destination(sd: &Vec<String>, d: &str) -> (n: usize)
    ensures
        n == dest_count(sd@, d@),
{
    let mut n: usize = 0;
    let mut i: usize = 0;
    while i < sd.len()
        invariant
            i <= sd@.len(),
            n <= i,
            n == dest_count(sd@.take(i as int), d@),
        decreases sd.len() - i,
    {
        proof {
            assert(sd@.take(i + 1).drop_last() =~= sd@.take(i as int));
            assert(sd@.take(i + 1).last() == sd@[i as int]);
        }
        if str_eq(sd[i].as_str(), d) {
            n = n + 1;
        }
        i = i + 1;
    }
    proof {
        assert(sd@.take(i as int) =~= sd@);
    }
    n
}

fn has_duplicates(sd: &Vec<String>) -> (r: bool)
    ensures
        r == has_duplicate_destinations(sd@),
{
    let mut j: usize = 0;
    while j < sd.len()
        invariant
            j <= sd@.len(),
            forall|a: int, b: int| 0 <= a < b < j ==> (#[trigger] sd@[a])@ != (#[trigger] sd@[b])@,
        decreases sd.len() - j,
    {
        let mut i: usize = 0;
        while i < j
            invariant
                j < sd@.len(),
                i <= j,
                forall|a: int| 0 <= a < i ==> (#[trigger] sd@[a])@ != sd@[j as int]@,
            decreases j - i,
        {
            if str_eq(sd[i].as_str(), sd[j].as_str()) {
                return true;
            }
            i = i + 1;
        }
        j = j + 1;
    }
    false
}

proof fn lemma_repeat_one(s: Seq<Seq<char>>)
    ensures
        repeat(s, 1) == s,
{
    assert(repeat(s, 0) == Seq::<Seq<char>>::empty());
    assert(repeat(s, 1) =~= s);
}

/// How often a destination's words are added.
fn destination_times(sd: &Vec<String>, dup: bool, d: &str, Ghost(items): Ghost<Seq<Seq<char>>>) -> (n: usize)
    requires
        dup == has_duplicate_destinations(sd@),
    ensures
        repeat(items, n as nat) == per_destination(sd@, d@, items),
{
    let c = count_destination(sd, d);
    proof {
        lemma_repeat_one(items);
    }
    if dup {
        c
    } else if c > 0 {
        1
    } else {
        0
    }
}

fn add_word(out: &mut String, any: &mut bool, w: &str, sep: &str, Ghost(words): Ghost<Seq<Seq<char>>>)
    requires
        old(out)@ == join_with(words, sep@),
        *old(any) == (words.len() > 0),
    ensures
        final(out)@ == join_with(words.push(w@), sep@),
        *final(any),
{
    proof {
        assert(words.push(w@).drop_last() =~= words);
    }
    if *any {
        push_str(out, sep);
    }
    push_str(out, w);
    *any = true;
    proof {
        if words.len() == 0 {
            assert(out@ =~= join_with(words.push(w@), sep@));
        } else {
            assert(out@ =~= join_with(words.push(w@), sep@));
        }
    }
}

/// Adds a destination's words, `times` times over.
fn add_destination(
    out: &mut String,
    any: &mut bool,
    times: usize,
    w1: &str,
    w2: Option<&str>,
    sep: &str,
    Ghost(words): Ghost<Seq<Seq<char>>>,
)
    requires
        old(out)@ == join_with(words, sep@),
        *old(any) == (words.len() > 0),
    ensures
        final(out)@ == join_with(words + repeat(word_items(w1@, w2), times as nat), sep@),
        *final(any) == ((words + repeat(word_items(w1@, w2), times as nat)).len() > 0),
{
    let ghost items = word_items(w1@, w2);
    let mut k: usize = 0;
    while k < times
        invariant
            k <= times,
            out@ == join_with(words + repeat(items, k as nat), sep@),
            *any == ((words + repeat(items, k as nat)).len() > 0),
            items == word_items(w1@, w2),
        decreases times - k,
    {
        let ghost before = words + repeat(items, k as nat);
        add_word(out, any, w1, sep, Ghost(before));
        match w2 {
            Some(w) => {
                add_word(out, any, w, sep, Ghost(before.push(w1@)));
                proof {
                    assert(before.push(w1@).push(w@) =~= words + repeat(items, (k + 1) as nat));
                }
            },
            None => {
                proof {
                    assert(before.push(w1@) =~= words + repeat(items, (k + 1) as nat));
                }
            },
        }
        k = k + 1;
    }
}

/// One word, or two.
pub open spec fn word_items(w1: Seq<char>, w2: Option<&str>) -> Seq<Seq<char>> {
    match w2 {
        Some(w) => seq![w1, w@],
        None => seq![w1],
    }
}

/// The supported platforms of a target with destinations, space separated.
pub fn supported_platforms_setting(t: &Target) -> (r: Option<String>)
    ensures
        match r {
            Some(s) => supported_platforms_spec(t.supported_destinations@) == Some(s@),
            None => supported_platforms_spec(t.supported_destinations@) is None,
        },
{
    let sd = &t.supported_destinations;
    let dup = has_duplicates(sd);
    let mut out = String::new();
    let mut any = false;
    let ghost w0 = Seq::<Seq<char>>::empty();
    proof {
        assert(out@ =~= join_with(w0, " "@));
    }
    let n = destination_times(sd, dup, "iOS", Ghost(word_items("iphoneos"@, Some("iphonesimulator"))));
    add_destination(&mut out, &mut any, n, "iphoneos", Some("iphonesimulator"), " ", Ghost(w0));
    let ghost w1 = w0 + per_destination(sd@, "iOS"@, seq!["iphoneos"@, "iphonesimulator"@]);
    let n = destination_times(sd, dup, "tvOS", Ghost(word_items("appletvos"@, Some("appletvsimulator"))));
    add_destination(&mut out, &mut any, n, "appletvos", Some("appletvsimulator"), " ", Ghost(w1));
    let ghost w2 = w1 + per_destination(sd@, "tvOS"@, seq!["appletvos"@, "appletvsimulator"@]);
    let n = destination_times(sd, dup, "watchOS", Ghost(word_items("watchos"@, Some("watchsimulator"))));
    add_destination(&mut out, &mut any, n, "watchos", Some("watchsimulator"), " ", Ghost(w2));
    let ghost w3 = w2 + per_destination(sd@, "watchOS"@, seq!["watchos"@, "watchsimulator"@]);
    let n = destination_times(sd, dup, "visionOS", Ghost(word_items("xros"@, Some("xrsimulator"))));
    add_destination(&mut out, &mut any, n, "xros", Some("xrsimulator"), " ", Ghost(w3));
    let ghost w4 = w3 + per_destination(sd@, "visionOS"@, seq!["xros"@, "xrsimulator"@]);
    let n = destination_times(sd, dup, "macOS", Ghost(word_items("macosx"@, None)));
    add_destination(&mut out, &mut any, n, "macosx", None, " ", Ghost(w4));
    let ghost w5 = w4 + per_destination(sd@, "macOS"@, seq!["macosx"@]);
    proof {
        assert(w5 =~= supported_platform_names(sd@));
    }
    if any {
        Some(out)
    } else {
        None
    }
}

/// The device families of a target with destinations, comma separated.
pub fn targeted_device_family_for_destinations(t: &Target) -> (r: Option<String>)
    ensures
        match r {
            Some(s) => destination_family_spec(t.supported_destinations@) == Some(s@),
            None => destination_family_spec(t.supported_destinations@) is None,
        },
{
    let sd = &t.supported_destinations;
    let dup = has_duplicates(sd);
    let mut out = String::new();
    let mut any = false;
    let ghost w0 = Seq::<Seq<char>>::empty();
    proof {
        assert(out@ =~= join_with(w0, ","@));
    }
    let n = destination_times(sd, dup, "iOS", Ghost(word_items("1"@, Some("2"))));
    add_destination(&mut out, &mut any, n, "1", Some("2"), ",", Ghost(w0));
    let ghost w1 = w0 + per_destination(sd@, "iOS"@, seq!["1"@, "2"@]);
    let n = destination_times(sd, dup, "tvOS", Ghost(word_items("3"@, None)));
    add_destination(&mut out, &mut any, n, "3", None, ",", Ghost(w1));
    let ghost w2 = w1 + per_destination(sd@, "tvOS"@, seq!["3"@]);
    let n = destination_times(sd, dup, "watchOS", Ghost(word_items("4"@, None)));
    add_destination(&mut out, &mut any, n, "4", None, ",", Ghost(w2));
    let ghost w3 = w2 + per_destination(sd@, "watchOS"@, seq!["4"@]);
    let n = destination_times(sd, dup, "visionOS", Ghost(word_items("7"@, None)));
    add_destination(&mut out, &mut any, n, "7", None, ",", Ghost(w3));
    let ghost w4 = w3 + per_destination(sd@, "visionOS"@, seq!["7"@]);
    proof {
        assert(w4 =~= destination_families(sd@));
    }
    if any {
        Some(out)
    } else {
        None
    }
}


/// Sets the settings a target's destinations imply.
pub fn insert_supported_destination_presets(d: &mut Vec<(String, PbxValue)>, t: &Target)
    requires
        keys_sorted(entries_view(old(d)@)),
        shallow_map(old(d)@),
    ensures
        keys_sorted(entries_view(final(d)@)),
        shallow_map(final(d)@),
        entries_view(final(d)@) == destination_presets(entries_view(old(d)@), *t),
{
    let ios = has_supported_destination(t, "iOS");
    let tvos = has_supported_destination(t, "tvOS");
    let vision = has_supported_destination(t, "visionOS");
    let macos = has_supported_destination(t, "macOS");
    let catalyst = has_supported_destination(t, "macCatalyst");
    put_flag(d, "SUPPORTS_MACCATALYST", catalyst);
    if macos && !ios && !tvos && !vision {
        put_flag(d, "COMBINE_HIDPI_IMAGES", true);
        put_flag(d, "SUPPORTS_MAC_DESIGNED_FOR_IPHONE_IPAD", false);
        put_str(d, "TARGETED_DEVICE_FAMILY", "");
    }
    if ios || tvos || vision {
        put_flag(d, "SUPPORTS_MAC_DESIGNED_FOR_IPHONE_IPAD", ios && !macos && !catalyst);
    }
    if ios || vision {
        put_flag(d, "SUPPORTS_XR_DESIGNED_FOR_IPHONE_IPAD", ios && !vision);
    }
    let application = match t.target_type {
        ProductType::Application => true,
        _ => false,
    };
    if application {
        if ios || tvos {
            put(d, "LD_RUNPATH_SEARCH_PATHS", rpaths(Platform::Ios, false));
        }
        if tvos && !ios {
            put_str(d, "ASSETCATALOG_COMPILER_APPICON_NAME", "App Icon & Top Shelf Image");
            put_str(d, "ASSETCATALOG_COMPILER_LAUNCHIMAGE_NAME", "LaunchImage");
        } else if ios || vision {
            put_str(d, "ASSETCATALOG_COMPILER_APPICON_NAME", "AppIcon");
        }
        if ios {
            put_str(d, "CODE_SIGN_IDENTITY", "iPhone Developer");
        }
    }
}

/// The settings a target has unless its specification sets them: its
/// bundle identifier under the project's prefix; the SDK and device family
/// of its platform, or for a target whose platform follows its
/// destinations the `auto` SDK, its supported platforms, device families
/// and the settings its destinations imply; its deployment target; then
/// the presets of its product where none of these set them.
pub open spec fn target_defaults_spec(project: &Project, t: Target) -> Seq<(Seq<char>, PVal)> {
    let none = project.options.setting_presets_none;
    let sd = t.supported_destinations@;
    let d1 = match project.options.bundle_id_prefix {
        Some(p) => sins(
            Seq::empty(),
            "PRODUCT_BUNDLE_IDENTIFIER"@,
            PVal::Str(p@ + "."@ + bundle_id_suffix(t.name@)),
        ),
        None => Seq::empty(),
    };
    let d2 = if t.platform != Platform::Auto {
        let a = sins(d1, "SDKROOT"@, PVal::Str(sdk_root_spec(t.platform)));
        match targeted_device_family_spec(t.platform) {
            Some(f) => if none { a } else { sins(a, "TARGETED_DEVICE_FAMILY"@, PVal::Str(f)) },
            None => a,
        }
    } else {
        match supported_platforms_spec(sd) {
            Some(sp) => {
                let a = sins(d1, "SDKROOT"@, PVal::Str("auto"@));
                if none {
                    a
                } else {
                    let b = sins(a, "SUPPORTED_PLATFORMS"@, PVal::Str(sp));
                    let c = match destination_family_spec(sd) {
                        Some(f) => sins(b, "TARGETED_DEVICE_FAMILY"@, PVal::Str(f)),
                        None => b,
                    };
                    destination_presets(c, t)
                }
            },
            None => d1,
        }
    };
    let d3 = match t.deployment_target {
        Some(v) => if t.platform != Platform::Auto {
            sins(d2, deployment_key_spec(t.platform), PVal::Str(v@))
        } else {
            d2
        },
        None => d2,
    };
    if none {
        d3
    } else {
        let p = target_presets_spec(project, t);
        or_ins_all(d3, p, p.len() as int)
    }
}

/// A map whose values nest at most one level deep, in the terms of entries.
pub proof fn lemma_shallow_below(d: Seq<(String, PbxValue)>)
    ensures
        shallow_map(d) <==> entries_below(entries_view(d), 2),
{
    let e = entries_view(d);
    if shallow_map(d) {
        assert forall|i: int| 0 <= i < e.len() implies pdepth(#[trigger] e[i].1) < 2 by {
            assert(e[i].1 == d[i].1@);
        }
    }
    if entries_below(e, 2) {
        assert forall|k: int| 0 <= k < d.len() implies pdepth(#[trigger] d[k].1@) <= 1 by {
            assert(e[k].1 == d[k].1@);
        }
    }
}

/// The settings a target has unless its specification sets them.
#[verifier::spinoff_prover]
pub fn target_default_build_settings(project: &Project, t: &Target) -> (r: Vec<(String, PbxValue)>)
    ensures
        keys_sorted(entries_view(r@)),
        shallow_map(r@),
        entries_view(r@) == target_defaults_spec(project, *t),
{
    let none = project.options.setting_presets_none;
    let mut d: Vec<(String, PbxValue)> = Vec::new();
    proof {
        assert(entries_view(d@) =~= Seq::<(Seq<char>, PVal)>::empty());
    }
    if let Some(prefix) = &project.options.bundle_id_prefix {
        let suffix = bundle_identifier_suffix(t.name.as_str());
        let id = concat3(prefix.as_str(), ".", suffix.as_str());
        put_str(&mut d, "PRODUCT_BUNDLE_IDENTIFIER", id.as_str());
    }
    if t.platform != Platform::Auto {
        put_str(&mut d, "SDKROOT", sdk_root(t.platform));
        if let Some(f) = targeted_device_family(t.platform) {
            if !none {
                put_str(&mut d, "TARGETED_DEVICE_FAMILY", f);
            }
        }
    } else if let Some(sp) = supported_platforms_setting(t) {
        put_str(&mut d, "SDKROOT", "auto");
        if !none {
            put_str(&mut d, "SUPPORTED_PLATFORMS", sp.as_str());
            if let Some(f) = targeted_device_family_for_destinations(t) {
                put_str(&mut d, "TARGETED_DEVICE_FAMILY", f.as_str());
            }
            insert_supported_destination_presets(&mut d, t);
        }
    }
    if let Some(v) = &t.deployment_target {
        let key = deployment_target_setting(t.platform);
        if t.platform != Platform::Auto {
            put_str(&mut d, key, v.as_str());
        }
    }
    if !none {
        let presets = target_setting_presets(project, t);
        let ghost pv = pairs_view(presets@);
        proof {
            lemma_shallow_below(d@);
        }
        apply_presets(&mut d, presets);
        proof {
            lemma_shallow_below(d@);
            assert(pv == target_presets_spec(project, *t));
        }
    }
    d
}


/// Settings with a platform's deployment target set, where one is given.
pub open spec fn deploy_ins(s: Seq<(Seq<char>, PVal)>, p: Platform, v: Option<String>) -> Seq<(Seq<char>, PVal)> {
    match v {
        Some(x) => if p != Platform::Auto { sins(s, deployment_key_spec(p), PVal::Str(x@)) } else { s },
        None => s,
    }
}

/// Sets a platform's deployment target, where one is given.
pub fn insert_deployment_target(settings: &mut Vec<(String, PbxValue)>, p: Platform, v: &Option<String>)
    requires
        keys_sorted(entries_view(old(settings)@)),
    ensures
        keys_sorted(entries_view(final(settings)@)),
        entries_view(final(settings)@) == deploy_ins(entries_view(old(settings)@), p, *v),
        entries_below(entries_view(old(settings)@), 1001) ==> entries_below(entries_view(final(settings)@), 1001),
{
    if let Some(x) = v {
        if p != Platform::Auto {
            proof {
                if entries_below(entries_view(settings@), 1001) {
                    lemma_sins_below(entries_view(settings@), deployment_key_spec(p), PVal::Str(x@), 1001);
                }
            }
            smap_insert(settings, string_from(deployment_target_setting(p)), PbxValue::String(x.clone()));
        }
    }
}

} // verus!
