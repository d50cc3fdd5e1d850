//! Small rules of the project model: wildcard patterns, group ordering
//! patterns, reading settings values, and names derived from paths.
use vstd::prelude::*;
use vstd::string::StringSliceAdditionalSpecFns;
use crate::graph::{PbxValue, PVal, opt_view};
use crate::json::JsonValue;
use crate::text::{contains_seq, contains_str, ends_with_seq, ends_with_str, find_from, find_str, str_eq,
    string_from, strip_prefix, chars_of, starts_with_seq};

verus! {

/// Whether a byte matches a bracket class: single bytes, or ranges `a-z`
/// read from the start of the class on.
pub open spec fn class_from(class: Seq<u8>, idx: int, value: u8) -> bool
    decreases class.len() - idx,
{
    if idx < 0 || idx >= class.len() {
        false
    } else if idx + 2 < class.len() && class[idx + 1] == 45 {
        (class[idx] <= value && value <= class[idx + 2]) || class_from(class, idx + 3, value)
    } else {
        class[idx] == value || class_from(class, idx + 1, value)
    }
}

/// The position of the first `]` in a pattern, or -1.
pub open spec fn close_from(p: Seq<u8>, i: int) -> int
    decreases p.len() - i,
{
    if i < 0 || i >= p.len() {
        -1
    } else if p[i] == 93 {
        i
    } else {
        close_from(p, i + 1)
    }
}

/// Shell-style matching of a whole text: `*` any run, `?` one byte, `[..]`
/// a class (a `[` with no `]` after it matches itself), anything else
/// itself.
pub open spec fn wildcard(p: Seq<u8>, t: Seq<u8>) -> bool
    decreases p.len(), t.len(),
{
    if p.len() == 0 {
        t.len() == 0
    } else if p[0] == 42 {
        wildcard(p.skip(1), t) || (t.len() > 0 && wildcard(p, t.skip(1)))
    } else if p[0] == 63 {
        t.len() > 0 && wildcard(p.skip(1), t.skip(1))
    } else if p[0] == 91 {
        if t.len() == 0 {
            false
        } else {
            let end = close_from(p, 0);
            proof {
                lemma_close_from(p, 0);
            }
            if end < 0 {
                p[0] == t[0] && wildcard(p.skip(1), t.skip(1))
            } else {
                class_from(p.subrange(1, end), 0, t[0]) && wildcard(p.skip(end + 1), t.skip(1))
            }
        }
    } else {
        t.len() > 0 && p[0] == t[0] && wildcard(p.skip(1), t.skip(1))
    }
}

pub proof fn lemma_close_from(p: Seq<u8>, i: int)
    requires
        0 <= i,
    ensures
        close_from(p, i) == -1 || (i <= close_from(p, i) < p.len() && p[close_from(p, i)] == 93),
        close_from(p, i) == -1 ==> forall|k: int| i <= k < p.len() ==> p[k] != 93,
        close_from(p, i) >= 0 ==> forall|k: int| i <= k < close_from(p, i) ==> p[k] != 93,
    decreases p.len() - i,
{
    if i < p.len() && p[i] != 93 {
        lemma_close_from(p, i + 1);
    }
}

/// Whether a byte matches the class `p[start..end]`.
fn class_matches(p: &[u8], start: usize, end: usize, value: u8) -> (r: bool)
    requires
        start <= end <= p@.len(),
    ensures
        r == class_from(p@.subrange(start as int, end as int), 0, value),
{
    let ghost class = p@.subrange(start as int, end as int);
    let mut index: usize = start;
    while index < end
        invariant
            start <= index,
            end <= p@.len(),
            class == p@.subrange(start as int, end as int),
            class_from(class, 0, value) == class_from(class, index - start, value),
        decreases end - index,
    {
        if end - index > 2 && p[index + 1] == 45u8 {
            if p[index] <= value && value <= p[index + 2] {
                return true;
            }
            index = index + 3;
        } else {
            if p[index] == value {
                return true;
            }
            index = index + 1;
        }
    }
    false
}

/// Whether `t[ti..]` matches the pattern `p[pi..]`.
fn wildcard_at(p: &[u8], t: &[u8], pi: usize, ti: usize) -> (r: bool)
    requires
        pi <= p@.len(),
        ti <= t@.len(),
    ensures
        r == wildcard(p@.skip(pi as int), t@.skip(ti as int)),
    decreases p@.len() - pi, t@.len() - ti,
{
    let ghost ps = p@.skip(pi as int);
    let ghost ts = t@.skip(ti as int);
    if pi == p.len() {
        return ti == t.len();
    }
    proof {
        assert(ps.skip(1) =~= p@.skip(pi + 1));
        if ti < t@.len() {
            assert(ts.skip(1) =~= t@.skip(ti + 1));
        }
    }
    let c = p[pi];
    if c == 42u8 {
        if wildcard_at(p, t, pi + 1, ti) {
            return true;
        }
        ti < t.len() && wildcard_at(p, t, pi, ti + 1)
    } else if c == 63u8 {
        ti < t.len() && wildcard_at(p, t, pi + 1, ti + 1)
    } else if c == 91u8 {
        if ti == t.len() {
            return false;
        }
        let mut end: usize = pi;
        while end < p.len() && p[end] != 93u8
            invariant
                pi <= end <= p@.len(),
                forall|k: int| pi <= k < end ==> p@[k] != 93,
            decreases p@.len() - end,
        {
            end = end + 1;
        }
        proof {
            lemma_close_from(ps, 0);
            if end < p.len() {
                assert(ps[end - pi] == 93);
                if close_from(ps, 0) >= 0 && close_from(ps, 0) < end - pi {
                    assert(p@[pi + close_from(ps, 0)] != 93);
                }
                if close_from(ps, 0) == -1 {
                    assert(ps[end - pi] != 93);
                }
                assert(close_from(ps, 0) == end - pi);
                assert(ps.subrange(1, end - pi) =~= p@.subrange(pi + 1, end as int));
                assert(ps.skip(end - pi + 1) =~= p@.skip(end + 1));
            } else {
                if close_from(ps, 0) >= 0 {
                    assert(p@[pi + close_from(ps, 0)] == 93);
                }
                assert(close_from(ps, 0) == -1);
            }
        }
        if end == p.len() {
            c == t[ti] && wildcard_at(p, t, pi + 1, ti + 1)
        } else {
            class_matches(p, pi + 1, end, t[ti]) && wildcard_at(p, t, end + 1, ti + 1)
        }
    } else {
        ti < t.len() && c == t[ti] && wildcard_at(p, t, pi + 1, ti + 1)
    }
}

/// Whether a whole text matches a shell-style pattern.
pub fn wildcard_match(pattern: &str, text: &str) -> (r: bool)
    ensures
        r == wildcard(pattern.spec_bytes(), text.spec_bytes()),
{
    let p = pattern.as_bytes();
    let t = text.as_bytes();
    proof {
        assert(p@.skip(0) =~= p@);
        assert(t@.skip(0) =~= t@);
    }
    wildcard_at(p, t, 0, 0)
}

/// Whether a group ordering's pattern names a group: no pattern names
/// every group; `^.*x$` names the groups ending in `x`; any other pattern
/// names the groups equal to it or containing it.
pub open spec fn group_ordering_matches_spec(pattern: Option<Seq<char>>, name: Seq<char>) -> bool {
    match pattern {
        None => true,
        Some(p) => if p == name {
            true
        } else if starts_with_seq(p, "^.*"@) && ends_with_seq(p.skip(3), "$"@) {
            ends_with_seq(name, p.subrange(3, p.len() - 1))
        } else {
            contains_seq(name, p)
        },
    }
}

/// Whether a group ordering's pattern names the group.
pub fn group_ordering_matches(pattern: Option<&str>, group_name: &str) -> (r: bool)
    ensures
        r == group_ordering_matches_spec(
            match pattern {
                Some(p) => Some(p@),
                None => None,
            },
            group_name@,
        ),
{
    let pattern = match pattern {
        Some(p) => p,
        None => return true,
    };
    if str_eq(pattern, group_name) {
        return true;
    }
    proof {
        reveal_strlit("^.*");
        reveal_strlit("$");
    }
    if let Some(rest) = strip_prefix(pattern, "^.*") {
        if ends_with_str(rest.as_str(), "$") {
            let cs = chars_of(rest.as_str());
            let mid = crate::paths::string_of_range(&cs, 0, cs.len() - 1);
            proof {
                assert(mid@ =~= pattern@.subrange(3, pattern@.len() - 1));
            }
            return ends_with_str(group_name, mid.as_str());
        }
    }
    contains_str(group_name, pattern)
}

/// The comment of a reference, or nothing for other values.
pub open spec fn value_comment_spec(v: PVal) -> Seq<char> {
    match v {
        PVal::Ref(_, Some(c)) => c,
        _ => Seq::empty(),
    }
}

/// The comment written after a reference value.
pub fn pbx_value_comment(value: &PbxValue) -> (r: String)
    ensures
        r@ == value_comment_spec(value@),
{
    match value {
        PbxValue::Ref { comment: Some(c), .. } => c.clone(),
        _ => String::new(),
    }
}

/// The identifier a reference value points to.
pub fn pbx_value_id(value: &PbxValue) -> (r: Option<String>)
    ensures
        match value@ {
            PVal::Ref(id, _) => r is Some && r->0@ == id,
            _ => r is None,
        },
{
    match value {
        PbxValue::Ref { id, .. } => Some(id.clone()),
        _ => None,
    }
}

/// The text of a string value.
pub fn pbx_string(value: &PbxValue) -> (r: Option<String>)
    ensures
        match value@ {
            PVal::Str(s) => r is Some && r->0@ == s,
            _ => r is None,
        },
{
    match value {
        PbxValue::String(s) => Some(s.clone()),
        _ => None,
    }
}

/// A boolean as the project file writes flags: 1 or 0.
pub fn bool_int(value: bool) -> (r: i64)
    ensures
        r == (if value { 1int } else { 0int }),
{
    if value { 1 } else { 0 }
}

/// A boolean as a settings string: `YES` or `NO`.
pub fn pbx_bool(value: bool) -> (r: PbxValue)
    ensures
        r@ == PVal::Str(if value { "YES"@ } else { "NO"@ }),
{
    if value {
        PbxValue::String(string_from("YES"))
    } else {
        PbxValue::String(string_from("NO"))
    }
}

/// A list of strings as an array value.
pub fn string_array(values: &Vec<String>) -> (r: PbxValue)
    ensures
        r@ is Array,
        r@->Array_0.len() == values@.len(),
        forall|i: int| 0 <= i < values@.len() ==> #[trigger] r@->Array_0[i] == PVal::Str(values@[i]@),
{
    let mut out: Vec<PbxValue> = Vec::new();
    let mut i: usize = 0;
    while i < values.len()
        invariant
            i <= values@.len(),
            out@.len() == i,
            forall|k: int| 0 <= k < i ==> #[trigger] out@[k]@ == PVal::Str(values@[k]@),
        decreases values.len() - i,
    {
        out.push(PbxValue::String(values[i].clone()));
        i = i + 1;
    }
    proof {
        crate::graph::lemma_items_view(out@, out@.len() as int);
    }
    let ghost items = out@;
    let r = PbxValue::Array(out);
    proof {
        assert forall|i: int| 0 <= i < values@.len() implies #[trigger] r@->Array_0[i] == PVal::Str(values@[i]@) by {
            assert(r@->Array_0[i] == crate::graph::value_view(&items[i]));
            assert(items[i]@ == PVal::Str(values@[i]@));
        }
    }
    r
}

/// Words read as a boolean by the lenient readers.
pub open spec fn boolish_spec(v: &JsonValue) -> Option<bool> {
    match v {
        JsonValue::Bool(b) => Some(*b),
        JsonValue::String(s) => if s@ == "true"@ || s@ == "True"@ || s@ == "TRUE"@ || s@ == "yes"@ || s@ == "YES"@ {
            Some(true)
        } else if s@ == "false"@ || s@ == "False"@ || s@ == "FALSE"@ || s@ == "no"@ || s@ == "NO"@ {
            Some(false)
        } else {
            None
        },
        _ => None,
    }
}

/// A JSON value read as a boolean: a boolean, or a word for one.
pub fn boolish_value(value: &JsonValue) -> (r: Option<bool>)
    ensures
        r == boolish_spec(value),
{
    match value {
        JsonValue::Bool(b) => Some(*b),
        JsonValue::String(s) => {
            let s = s.as_str();
            if str_eq(s, "true") || str_eq(s, "True") || str_eq(s, "TRUE") || str_eq(s, "yes") || str_eq(s, "YES") {
                Some(true)
            } else if str_eq(s, "false") || str_eq(s, "False") || str_eq(s, "FALSE") || str_eq(s, "no") || str_eq(
                s,
                "NO",
            ) {
                Some(false)
            } else {
                None
            }
        },
        _ => None,
    }
}

/// A settings value read as a string: strings as they are, numbers as their
/// text, booleans as `true` or `false`.
pub open spec fn json_string_spec(v: &JsonValue) -> Option<Seq<char>> {
    match v {
        JsonValue::String(s) => Some(s@),
        JsonValue::Number(n) => Some(n.text@),
        JsonValue::Bool(b) => Some(if *b { "true"@ } else { "false"@ }),
        _ => None,
    }
}

/// A settings value read as a string.
pub fn json_string_value(value: &JsonValue) -> (r: Option<String>)
    ensures
        match r {
            Some(s) => json_string_spec(value) == Some(s@),
            None => json_string_spec(value) is None,
        },
{
    match value {
        JsonValue::String(s) => Some(s.clone()),
        JsonValue::Number(n) => Some(n.text.clone()),
        JsonValue::Bool(b) => if *b {
            Some(string_from("true"))
        } else {
            Some(string_from("false"))
        },
        _ => None,
    }
}

/// A settings value read as a flag: booleans, the usual words and `1`/`0`,
/// and integers (non-zero is true).
pub open spec fn json_bool_spec(v: &JsonValue) -> Option<bool> {
    match v {
        JsonValue::Bool(b) => Some(*b),
        JsonValue::String(s) => if s@ == "YES"@ || s@ == "yes"@ || s@ == "true"@ || s@ == "TRUE"@ || s@ == "1"@ {
            Some(true)
        } else if s@ == "NO"@ || s@ == "no"@ || s@ == "false"@ || s@ == "FALSE"@ || s@ == "0"@ {
            Some(false)
        } else {
            None
        },
        JsonValue::Number(n) => match n.as_i64 {
            Some(i) => Some(i != 0),
            None => None,
        },
        _ => None,
    }
}

/// A settings value read as a flag.
pub fn json_bool_value(value: &JsonValue) -> (r: Option<bool>)
    ensures
        r == json_bool_spec(value),
{
    match value {
        JsonValue::Bool(b) => Some(*b),
        JsonValue::String(s) => {
            let s = s.as_str();
            if str_eq(s, "YES") || str_eq(s, "yes") || str_eq(s, "true") || str_eq(s, "TRUE") || str_eq(s, "1") {
                Some(true)
            } else if str_eq(s, "NO") || str_eq(s, "no") || str_eq(s, "false") || str_eq(s, "FALSE") || str_eq(
                s,
                "0",
            ) {
                Some(false)
            } else {
                None
            }
        },
        JsonValue::Number(n) => match n.as_i64 {
            Some(i) => Some(i != 0),
            None => None,
        },
        _ => None,
    }
}

/// A plist path that names a file as it stands, with no build setting in it.
pub fn is_static_plist_path(path: &str) -> (r: bool)
    ensures
        r == (!contains_seq(path@, "$("@) && !contains_seq(path@, "${"@)),
{
    !contains_str(path, "$(") && !contains_str(path, "${")
}

/// Whether a configuration is a debug one by its name.
pub fn is_debug_config_name(config: &str) -> (r: bool)
    ensures
        r == (config@ == "Debug"@ || ends_with_seq(config@, " Debug"@)),
{
    str_eq(config, "Debug") || ends_with_str(config, " Debug")
}

/// The key under which a configuration file's reference is stored.
pub fn config_file_reference_key(path: &str) -> (r: String)
    ensures
        r@ == "navigatorFileRef:"@ + path@,
{
    crate::text::concat2("navigatorFileRef:", path)
}

/// A search path with a build setting after a directory prefix keeps only
/// the part from the setting on.
pub open spec fn normalized_path(p: Seq<char>) -> Seq<char> {
    let i = find_from(p, "$("@, 0);
    if i > 0 && p[i - 1] == '/' {
        p.skip(i)
    } else {
        p
    }
}

/// Search paths with a directory prefix before their first build setting
/// dropped.
pub fn normalize_build_setting_paths(paths: &Vec<String>) -> (r: Vec<String>)
    ensures
        r@.len() == paths@.len(),
        forall|i: int| 0 <= i < paths@.len() ==> #[trigger] r@[i]@ == normalized_path(paths@[i]@),
{
    let mut out: Vec<String> = Vec::new();
    let mut i: usize = 0;
    while i < paths.len()
        invariant
            i <= paths@.len(),
            out@.len() == i,
            forall|k: int| 0 <= k < i ==> #[trigger] out@[k]@ == normalized_path(paths@[k]@),
        decreases paths.len() - i,
    {
        let p = paths[i].as_str();
        let cs = chars_of(p);
        proof {
            crate::text::lemma_find_from_bound(p@, "$("@, 0);
            assert(cs@ == p@);
        }
        let n = match find_str(p, "$(") {
            Some(idx) => {
                if idx > 0 && cs[idx - 1] == '/' {
                    crate::paths::string_of_range(&cs, idx, cs.len())
                } else {
                    paths[i].clone()
                }
            },
            None => paths[i].clone(),
        };
        out.push(n);
        proof {
            assert(out@[i as int]@ == normalized_path(paths@[i as int]@)) by {
                let q = paths@[i as int]@;
                let j = find_from(q, "$("@, 0);
                if j > 0 && q[j - 1] == '/' {
                    assert(cs@.subrange(j, cs@.len() as int) =~= q.skip(j));
                }
            }
        }
        i = i + 1;
    }
    out
}

} // verus!
