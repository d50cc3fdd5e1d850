//! Build configurations: the order they are written in, and the ones
//! schemes and lists fall back on.
use vstd::prelude::*;
use crate::model::Project;
use crate::text::{lex_lt, str_lt, str_eq, ends_with_seq, ends_with_str, string_from, concat2};

verus! {

/// The environment of a configuration named `<environment> Debug` or
/// `<environment> Release`.
pub open spec fn env_of(c: Seq<char>) -> Option<Seq<char>> {
    if ends_with_seq(c, " Debug"@) {
        Some(c.take(c.len() - 6))
    } else if ends_with_seq(c, " Release"@) {
        Some(c.take(c.len() - 8))
    } else {
        None
    }
}

/// The distinct environments of the first `n` configurations, in order of
/// first appearance.
pub open spec fn envs(names: Seq<Seq<char>>, n: int) -> Seq<Seq<char>>
    decreases n,
{
    if n <= 0 || n > names.len() {
        Seq::empty()
    } else {
        let e = envs(names, n - 1);
        match env_of(names[n - 1]) {
            Some(x) => if e.contains(x) { e } else { e.push(x) },
            None => e,
        }
    }
}

/// Inserting a string into a sorted sequence.
pub open spec fn str_ins(s: Seq<Seq<char>>, x: Seq<char>) -> Seq<Seq<char>>
    decreases s.len(),
{
    if s.len() == 0 {
        seq![x]
    } else if lex_lt(x, s.last()) {
        str_ins(s.drop_last(), x).push(s.last())
    } else {
        s.push(x)
    }
}

/// The first `n` strings of a sequence in ascending order.
pub open spec fn str_sort(s: Seq<Seq<char>>, n: int) -> Seq<Seq<char>>
    decreases n,
{
    if n <= 0 || n > s.len() {
        Seq::empty()
    } else {
        str_ins(str_sort(s, n - 1), s[n - 1])
    }
}

/// The configurations of the first `n` environments present, each
/// environment's debug configuration before its release one.
pub open spec fn env_configs(es: Seq<Seq<char>>, n: int, names: Seq<Seq<char>>) -> Seq<Seq<char>>
    decreases n,
{
    if n <= 0 || n > es.len() {
        Seq::empty()
    } else {
        let d = es[n - 1] + " Debug"@;
        let r = es[n - 1] + " Release"@;
        env_configs(es, n - 1, names) + (if names.contains(d) { seq![d] } else { Seq::empty() }) + (if names.contains(r) {
            seq![r]
        } else {
            Seq::empty()
        })
    }
}

/// The order configurations are written in: when every name is an
/// environment's debug or release configuration, by environment and debug
/// first; otherwise as the specification gives them.
pub open spec fn ordered_config_names_spec(names: Seq<Seq<char>>) -> Seq<Seq<char>> {
    let es = envs(names, names.len() as int);
    if (forall|i: int| 0 <= i < names.len() ==> #[trigger] env_of(names[i]) is Some) && es.len() > 0 {
        let sorted = str_sort(es, es.len() as int);
        env_configs(sorted, sorted.len() as int, names)
    } else {
        names
    }
}

/// The names of the configurations.
pub open spec fn config_keys(configs: Seq<(String, String)>) -> Seq<Seq<char>> {
    configs.map_values(|c: (String, String)| c.0@)
}

/// The environment of a configuration name, when it has one.
pub fn env_name(c: &str) -> (r: Option<String>)
    ensures
        match r {
            Some(x) => env_of(c@) == Some(x@),
            None => env_of(c@) is None,
        },
{
    proof {
        reveal_strlit(" Debug");
        reveal_strlit(" Release");
    }
    let cs = crate::text::chars_of(c);
    if ends_with_str(c, " Debug") {
        Some(crate::paths::string_of_range(&cs, 0, cs.len() - 6))
    } else if ends_with_str(c, " Release") {
        Some(crate::paths::string_of_range(&cs, 0, cs.len() - 8))
    } else {
        None
    }
}

fn contains_string(v: &Vec<String>, x: &str) -> (r: bool)
    ensures
        r == v@.map_values(|s: String| s@).contains(x@),
{
    let ghost vs = v@.map_values(|s: String| s@);
    let mut i: usize = 0;
    while i < v.len()
        invariant
            vs == v@.map_values(|s: String| s@),
            i <= v@.len(),
            forall|k: int| 0 <= k < i ==> vs[k] != x@,
        decreases v.len() - i,
    {
        if str_eq(v[i].as_str(), x) {
            proof {
                assert(vs[i as int] == x@);
            }
            return true;
        }
        i = i + 1;
    }
    false
}

fn has_config(configs: &Vec<(String, String)>, name: &str) -> (r: bool)
    ensures
        r == config_keys(configs@).contains(name@),
{
    let ghost ks = config_keys(configs@);
    let mut i: usize = 0;
    while i < configs.len()
        invariant
            ks == config_keys(configs@),
            i <= configs@.len(),
            forall|k: int| 0 <= k < i ==> ks[k] != name@,
        decreases configs.len() - i,
    {
        if str_eq(configs[i].0.as_str(), name) {
            proof {
                assert(ks[i as int] == name@);
            }
            return true;
        }
        i = i + 1;
    }
    false
}

proof fn lemma_str_ins(s: Seq<Seq<char>>, x: Seq<char>, p: int)
    requires
        0 <= p <= s.len(),
        forall|q: int| p <= q < s.len() ==> lex_lt(x, #[trigger] s[q]),
        p > 0 ==> !lex_lt(x, s[p - 1]),
    ensures
        str_ins(s, x) == s.take(p).push(x) + s.skip(p),
    decreases s.len(),
{
    if s.len() == 0 {
        assert(s.take(p).push(x) + s.skip(p) =~= seq![x]);
    } else if p == s.len() {
        assert(s.take(p) =~= s);
        assert(s.take(p).push(x) + s.skip(p) =~= s.push(x));
    } else {
        let d = s.drop_last();
        assert forall|q: int| p <= q < d.len() implies lex_lt(x, #[trigger] d[q]) by {
            assert(d[q] == s[q]);
        }
        if p > 0 {
            assert(d[p - 1] == s[p - 1]);
        }
        lemma_str_ins(d, x, p);
        assert(d.take(p) =~= s.take(p));
        assert(d.skip(p).push(s.last()) =~= s.skip(p));
        assert((d.take(p).push(x) + d.skip(p)).push(s.last()) =~= s.take(p).push(x) + s.skip(p));
    }
}

/// The strings in ascending order.
fn sort_strings(v: &Vec<String>) -> (r: Vec<String>)
    ensures
        r@.map_values(|s: String| s@) == str_sort(v@.map_values(|s: String| s@), v@.len() as int),
{
    let ghost vs = v@.map_values(|s: String| s@);
    let mut out: Vec<String> = Vec::new();
    let mut i: usize = 0;
    while i < v.len()
        invariant
            vs == v@.map_values(|s: String| s@),
            i <= v@.len(),
            out@.map_values(|s: String| s@) == str_sort(vs, i as int),
        decreases v.len() - i,
    {
        let x = v[i].clone();
        let ghost os = out@.map_values(|s: String| s@);
        let mut p: usize = out.len();
        while p > 0 && str_lt(x.as_str(), out[p - 1].as_str())
            invariant
                p <= out@.len(),
                os == out@.map_values(|s: String| s@),
                forall|q: int| p <= q < os.len() ==> lex_lt(x@, #[trigger] os[q]),
            decreases p,
        {
            p = p - 1;
        }
        proof {
            lemma_str_ins(os, x@, p as int);
            assert(vs[i as int] == x@);
        }
        out.insert(p, x);
        proof {
            assert(out@.map_values(|s: String| s@) =~= os.take(p as int).push(vs[i as int]) + os.skip(p as int));
        }
        i = i + 1;
    }
    out
}

/// The configuration names in the order they are written.
pub fn ordered_config_names(configs: &Vec<(String, String)>) -> (r: Vec<String>)
    ensures
        r@.map_values(|s: String| s@) == ordered_config_names_spec(config_keys(configs@)),
{
    let ghost names = config_keys(configs@);
    let mut environments: Vec<String> = Vec::new();
    let mut all_environment_configs = true;
    let mut i: usize = 0;
    while i < configs.len() && all_environment_configs
        invariant
            names == config_keys(configs@),
            i <= configs@.len(),
            all_environment_configs ==> forall|k: int| 0 <= k < i ==> #[trigger] env_of(names[k]) is Some,
            !all_environment_configs ==> exists|k: int| 0 <= k < i && #[trigger] env_of(names[k]) is None,
            all_environment_configs ==> environments@.map_values(|s: String| s@) == envs(names, i as int),
        decreases configs.len() - i,
    {
        proof {
            assert(names[i as int] == configs@[i as int].0@);
        }
        match env_name(configs[i].0.as_str()) {
            None => {
                all_environment_configs = false;
            },
            Some(environment) => {
                let ghost before = environments@.map_values(|s: String| s@);
                if !contains_string(&environments, environment.as_str()) {
                    environments.push(environment);
                    proof {
                        assert(environments@.map_values(|s: String| s@) =~= before.push(env_of(names[i as int])->0));
                    }
                }
            },
        }
        i = i + 1;
    }
    if all_environment_configs && environments.len() > 0 {
        proof {
            assert(i == configs@.len());
        }
        let sorted = sort_strings(&environments);
        let ghost ss = sorted@.map_values(|s: String| s@);
        let mut ordered: Vec<String> = Vec::new();
        let mut e: usize = 0;
        while e < sorted.len()
            invariant
                names == config_keys(configs@),
                ss == sorted@.map_values(|s: String| s@),
                e <= sorted@.len(),
                ordered@.map_values(|s: String| s@) == env_configs(ss, e as int, names),
            decreases sorted.len() - e,
        {
            let ghost before = ordered@.map_values(|s: String| s@);
            let d = concat2(sorted[e].as_str(), " Debug");
            let r = concat2(sorted[e].as_str(), " Release");
            let hd = has_config(configs, d.as_str());
            let hr = has_config(configs, r.as_str());
            if hd {
                ordered.push(d);
            }
            let ghost mid = ordered@.map_values(|s: String| s@);
            if hr {
                ordered.push(r);
            }
            proof {
                assert(ss[e as int] == sorted@[e as int]@);
                if hd {
                    assert(mid =~= before + seq![ss[e as int] + " Debug"@]);
                } else {
                    assert(mid =~= before + Seq::<Seq<char>>::empty());
                }
                if hr {
                    assert(ordered@.map_values(|s: String| s@) =~= mid + seq![ss[e as int] + " Release"@]);
                } else {
                    assert(ordered@.map_values(|s: String| s@) =~= mid + Seq::<Seq<char>>::empty());
                }
            }
            e = e + 1;
        }
        return ordered;
    }
    let mut all: Vec<String> = Vec::new();
    let mut k: usize = 0;
    while k < configs.len()
        invariant
            names == config_keys(configs@),
            k <= configs@.len(),
            all@.map_values(|s: String| s@) == names.take(k as int),
        decreases configs.len() - k,
    {
        let ghost before = all@.map_values(|s: String| s@);
        let c = configs[k].0.clone();
        all.push(c);
        proof {
            assert(names[k as int] == configs@[k as int].0@);
            assert(all@.map_values(|s: String| s@) =~= before.push(c@));
            assert(all@.map_values(|s: String| s@) =~= names.take(k + 1));
        }
        k = k + 1;
    }
    proof {
        assert(names.take(configs@.len() as int) =~= names);
    }
    all
}

/// A character in ASCII lower case.
pub open spec fn lower_char(c: char) -> char {
    if 'A' <= c && c <= 'Z' {
        ((c as u32) + 32) as char
    } else {
        c
    }
}

/// A string in ASCII lower case.
pub open spec fn lower_seq(s: Seq<char>) -> Seq<char> {
    s.map_values(|c: char| lower_char(c))
}

fn lower_of(c: char) -> (r: char)
    ensures
        r == lower_char(c),
{
    if 'A' <= c && c <= 'Z' {
        let b: u8 = ((c as u32) + 32) as u8;
        b as char
    } else {
        c
    }
}

/// A string in ASCII lower case (`str::to_ascii_lowercase`).
pub fn to_ascii_lowercase(s: &str) -> (r: String)
    ensures
        r@ == lower_seq(s@),
{
    let cs = crate::text::chars_of(s);
    let mut out = String::new();
    let mut i: usize = 0;
    while i < cs.len()
        invariant
            cs@ == s@,
            i <= cs@.len(),
            out@ == lower_seq(cs@.take(i as int)),
        decreases cs.len() - i,
    {
        let c = lower_of(cs[i]);
        crate::text::push_char(&mut out, c);
        proof {
            assert(lower_seq(cs@.take(i + 1)) =~= lower_seq(cs@.take(i as int)).push(lower_char(cs@[i as int])));
        }
        i = i + 1;
    }
    proof {
        assert(cs@.take(cs@.len() as int) =~= cs@);
    }
    out
}

/// Whether two strings are equal ignoring ASCII case.
pub fn eq_ignore_ascii_case(a: &str, b: &str) -> (r: bool)
    ensures
        r == (lower_seq(a@) == lower_seq(b@)),
{
    let x = to_ascii_lowercase(a);
    let y = to_ascii_lowercase(b);
    str_eq(x.as_str(), y.as_str())
}

/// The position of the first configuration of a kind, ignoring case, or -1.
pub open spec fn first_of_kind(configs: Seq<(String, String)>, kind: Seq<char>, n: int) -> int
    decreases n,
{
    if n <= 0 || n > configs.len() {
        -1
    } else {
        let p = first_of_kind(configs, kind, n - 1);
        if p >= 0 {
            p
        } else if lower_seq(configs[n - 1].1@) == lower_seq(kind) {
            n - 1
        } else {
            -1
        }
    }
}

proof fn lemma_first_of_kind_stable(configs: Seq<(String, String)>, kind: Seq<char>, n: int, m: int)
    requires
        0 <= n <= m <= configs.len(),
        first_of_kind(configs, kind, n) >= 0,
    ensures
        first_of_kind(configs, kind, m) == first_of_kind(configs, kind, n),
        0 <= first_of_kind(configs, kind, n) < n,
    decreases m - n,
{
    if m > n {
        lemma_first_of_kind_stable(configs, kind, n, m - 1);
    } else {
        lemma_first_of_kind_bound(configs, kind, n);
    }
}

proof fn lemma_first_of_kind_bound(configs: Seq<(String, String)>, kind: Seq<char>, n: int)
    requires
        0 <= n <= configs.len(),
    ensures
        first_of_kind(configs, kind, n) < n,
        first_of_kind(configs, kind, n) >= -1,
    decreases n,
{
    if n > 0 {
        lemma_first_of_kind_bound(configs, kind, n - 1);
    }
}

/// The configuration a scheme uses for a kind: the first configuration of
/// that kind, else `Release` for release and `Debug` for anything else.
pub open spec fn default_config_spec(configs: Seq<(String, String)>, kind: Seq<char>) -> Seq<char> {
    let p = first_of_kind(configs, kind, configs.len() as int);
    if p >= 0 {
        configs[p].0@
    } else if kind == "release"@ {
        "Release"@
    } else {
        "Debug"@
    }
}

/// The configuration a scheme uses for a kind.
pub fn default_config_for(project: &Project, kind: &str) -> (r: String)
    ensures
        r@ == default_config_spec(project.configs@, kind@),
{
    let configs = &project.configs;
    let mut i: usize = 0;
    while i < configs.len()
        invariant
            configs == &project.configs,
            i <= configs@.len(),
            first_of_kind(configs@, kind@, i as int) == -1,
        decreases configs.len() - i,
    {
        if eq_ignore_ascii_case(configs[i].1.as_str(), kind) {
            proof {
                assert(first_of_kind(configs@, kind@, i + 1) == i);
                lemma_first_of_kind_stable(configs@, kind@, i + 1, configs@.len() as int);
            }
            let c = configs[i].0.clone();
            proof {
                assert(c@ == configs@[i as int].0@);
                assert(default_config_spec(configs@, kind@) == configs@[i as int].0@);
            }
            return c;
        }
        i = i + 1;
    }
    if str_eq(kind, "release") {
        string_from("Release")
    } else {
        string_from("Debug")
    }
}

/// The position of the first configuration of a kind whose name holds the
/// variant, ignoring case, or -1.
pub open spec fn first_variant_of_kind(configs: Seq<(String, String)>, variant: Seq<char>, kind: Seq<char>, n: int) -> int
    decreases n,
{
    if n <= 0 || n > configs.len() {
        -1
    } else {
        let p = first_variant_of_kind(configs, variant, kind, n - 1);
        if p >= 0 {
            p
        } else if lower_seq(configs[n - 1].1@) == lower_seq(kind) && crate::text::contains_seq(
            lower_seq(configs[n - 1].0@),
            lower_seq(variant),
        ) {
            n - 1
        } else {
            -1
        }
    }
}

proof fn lemma_first_variant_stable(configs: Seq<(String, String)>, variant: Seq<char>, kind: Seq<char>, n: int, m: int)
    requires
        0 <= n <= m <= configs.len(),
        first_variant_of_kind(configs, variant, kind, n) >= 0,
    ensures
        first_variant_of_kind(configs, variant, kind, m) == first_variant_of_kind(configs, variant, kind, n),
    decreases m - n,
{
    if m > n {
        lemma_first_variant_stable(configs, variant, kind, n, m - 1);
    }
}

/// The configuration a variant's scheme uses for a kind: the first of that
/// kind whose name holds the variant, else the kind's default.
pub open spec fn variant_config_spec(configs: Seq<(String, String)>, variant: Option<Seq<char>>, kind: Seq<char>) -> Seq<char> {
    match variant {
        Some(v) => {
            let p = first_variant_of_kind(configs, v, kind, configs.len() as int);
            if p >= 0 {
                configs[p].0@
            } else {
                default_config_spec(configs, kind)
            }
        },
        None => default_config_spec(configs, kind),
    }
}

/// The configuration a variant's scheme uses for a kind.
pub fn variant_config(project: &Project, variant: Option<&str>, kind: &str) -> (r: String)
    ensures
        r@ == variant_config_spec(project.configs@, match variant {
            Some(v) => Some(v@),
            None => None,
        }, kind@),
{
    if let Some(v) = variant {
        let configs = &project.configs;
        let lv = to_ascii_lowercase(v);
        let mut i: usize = 0;
        while i < configs.len()
            invariant
                configs == &project.configs,
                i <= configs@.len(),
                variant == Some(v),
                lv@ == lower_seq(v@),
                first_variant_of_kind(configs@, v@, kind@, i as int) == -1,
            decreases configs.len() - i,
        {
            if eq_ignore_ascii_case(configs[i].1.as_str(), kind) {
                let ln = to_ascii_lowercase(configs[i].0.as_str());
                if crate::text::contains_str(ln.as_str(), lv.as_str()) {
                    proof {
                        assert(first_variant_of_kind(configs@, v@, kind@, i + 1) == i);
                        lemma_first_variant_stable(configs@, v@, kind@, i + 1, configs@.len() as int);
                    }
                    let c = configs[i].0.clone();
                    proof {
                        assert(c@ == configs@[i as int].0@);
                    }
                    return c;
                }
            }
            i = i + 1;
        }
    }
    default_config_for(project, kind)
}

/// The configuration names of a project: its own in writing order, or
/// `Debug` and `Release` when it declares none.
pub open spec fn config_names_spec(project: &Project) -> Seq<Seq<char>> {
    if project.configs@.len() == 0 {
        seq!["Debug"@, "Release"@]
    } else {
        ordered_config_names_spec(config_keys(project.configs@))
    }
}

/// The configuration names of a project.
pub fn config_names(project: &Project) -> (r: Vec<String>)
    ensures
        r@.map_values(|s: String| s@) == config_names_spec(project),
{
    if project.configs.len() == 0 {
        let mut v: Vec<String> = Vec::new();
        v.push(string_from("Debug"));
        v.push(string_from("Release"));
        proof {
            assert(v@.map_values(|s: String| s@) =~= seq!["Debug"@, "Release"@]);
        }
        v
    } else {
        ordered_config_names(&project.configs)
    }
}

/// The configuration a list names as its default: the specification's
/// choice, else the first configuration name, else `Debug`.
pub open spec fn default_configuration_name_spec(project: &Project) -> Seq<char> {
    match project.options.default_config {
        Some(c) => c@,
        None => if config_names_spec(project).len() > 0 {
            config_names_spec(project)[0]
        } else {
            "Debug"@
        },
    }
}

/// The configuration a list names as its default.
pub fn default_configuration_name(project: &Project) -> (r: String)
    ensures
        r@ == default_configuration_name_spec(project),
{
    match &project.options.default_config {
        Some(c) => c.clone(),
        None => {
            let names = config_names(project);
            if names.len() > 0 {
                proof {
                    assert(names@.map_values(|s: String| s@)[0] == names@[0]@);
                }
                names[0].clone()
            } else {
                string_from("Debug")
            }
        },
    }
}

/// The development language of a project, `en` unless it names one.
pub fn development_language(project: &Project) -> (r: String)
    ensures
        r@ == match project.options.development_language {
            Some(l) => l@,
            None => "en"@,
        },
{
    match &project.options.development_language {
        Some(l) => l.clone(),
        None => string_from("en"),
    }
}

/// A path as scheme files write it: after the scheme path prefix, when the
/// project has a non-empty one.
pub open spec fn scheme_prefixed(project: &Project, path: Seq<char>) -> Seq<char> {
    match project.options.scheme_path_prefix {
        Some(p) => if p@.len() > 0 { p@ + path } else { path },
        None => path,
    }
}

/// A path inside the project directory as schemes name it.
pub fn scheme_prefixed_path(project: &Project, path: &str) -> (r: String)
    ensures
        r@ == scheme_prefixed(project, path@),
{
    match &project.options.scheme_path_prefix {
        Some(prefix) => if prefix.as_str().is_empty() {
            string_from(path)
        } else {
            concat2(prefix.as_str(), path)
        },
        None => string_from(path),
    }
}

} // verus!
