//! Source directories: which entries of a directory its group shows, and
//! in what order.
use vstd::prelude::*;
use crate::natural::{natural_from, natural_cmp};
use crate::paths::{display_name, display_name_spec, extension, extension_spec};
use crate::text::{ends_with_seq, ends_with_str, str_eq};

verus! {

/// Whether a directory entry, by its name, takes part in a source group:
/// hidden entries (but `.swiftlint.yml`), `Carthage`, projects and `.orig`
/// files are left out.
pub open spec fn directory_entry_shown_spec(name: Seq<char>) -> bool {
    &&& (!(name.len() > 0 && name[0] == '.') || name == ".swiftlint.yml"@)
    &&& name != "Carthage"@
    &&& !ends_with_seq(name, ".xcodeproj"@)
    &&& extension_spec(name) != Some("orig"@)
}

/// Whether a directory entry, by its name, takes part in a source group.
pub fn directory_entry_shown(name: &str) -> (r: bool)
    ensures
        r == directory_entry_shown_spec(name@),
{
    let hidden = match name.chars().next() {
        Some(c) => c == '.',
        None => false,
    };
    proof {
        if name@.len() > 0 {
            assert(name@[0] == name@.first());
        }
    }
    if hidden && !str_eq(name, ".swiftlint.yml") {
        return false;
    }
    if str_eq(name, "Carthage") || ends_with_str(name, ".xcodeproj") {
        return false;
    }
    match extension(name) {
        Some(e) => !str_eq(e.as_str(), "orig"),
        None => true,
    }
}

/// Whether name `a` comes strictly before `b` in natural order of the
/// names shown for them.
pub open spec fn entry_before(a: Seq<char>, b: Seq<char>) -> bool {
    natural_from(
        vstd::utf8::encode_utf8(display_name_spec(a)),
        vstd::utf8::encode_utf8(display_name_spec(b)),
        0,
        0,
        false,
    ) < 0
}

/// Stable insertion of a name into names in order.
pub open spec fn ins_entry(s: Seq<Seq<char>>, x: Seq<char>) -> Seq<Seq<char>>
    decreases s.len(),
{
    if s.len() == 0 {
        seq![x]
    } else if entry_before(x, s.last()) {
        ins_entry(s.drop_last(), x).push(s.last())
    } else {
        s.push(x)
    }
}

/// The names among the first `n` that a source group shows, stably sorted
/// in natural order.
pub open spec fn shown_entries(names: Seq<Seq<char>>, n: int) -> Seq<Seq<char>>
    decreases n,
{
    if n <= 0 || n > names.len() {
        Seq::empty()
    } else if directory_entry_shown_spec(names[n - 1]) {
        ins_entry(shown_entries(names, n - 1), names[n - 1])
    } else {
        shown_entries(names, n - 1)
    }
}

fn entry_is_before(x: &String, y: &String) -> (r: bool)
    ensures
        r == entry_before(x@, y@),
{
    let a = display_name(x.as_str());
    let b = display_name(y.as_str());
    match natural_cmp(a.as_str(), b.as_str()) {
        std::cmp::Ordering::Less => true,
        _ => false,
    }
}

proof fn lemma_ins_entry(s: Seq<Seq<char>>, x: Seq<char>, p: int)
    requires
        0 <= p <= s.len(),
        forall|q: int| p <= q < s.len() ==> entry_before(x, #[trigger] s[q]),
        p > 0 ==> !entry_before(x, s[p - 1]),
    ensures
        ins_entry(s, x) == s.take(p).push(x) + s.skip(p),
    decreases s.len(),
{
    if s.len() == 0 {
        assert(s.take(p).push(x) + s.skip(p) =~= seq![x]);
    } else if p == s.len() {
        assert(s.take(p) =~= s);
        assert(s.take(p).push(x) + s.skip(p) =~= s.push(x));
    } else {
        let d = s.drop_last();
        assert forall|q: int| p <= q < d.len() implies entry_before(x, #[trigger] d[q]) by {
            assert(d[q] == s[q]);
        }
        if p > 0 {
            assert(d[p - 1] == s[p - 1]);
        }
        lemma_ins_entry(d, x, p);
        assert(d.take(p) =~= s.take(p));
        assert(d.skip(p).push(s.last()) =~= s.skip(p));
        assert((d.take(p).push(x) + d.skip(p)).push(s.last()) =~= s.take(p).push(x) + s.skip(p));
    }
}

/// The entries of a directory that its source group shows, given by name,
/// in the natural order of their names (`sort_by` with the natural order).
pub fn directory_group_entries(names: &Vec<String>) -> (r: Vec<String>)
    ensures
        r@.map_values(|s: String| s@) == shown_entries(names@.map_values(|s: String| s@), names@.len() as int),
{
    let ghost all = names@.map_values(|s: String| s@);
    let mut out: Vec<String> = Vec::new();
    let mut i: usize = 0;
    proof {
        assert(out@.map_values(|s: String| s@) =~= Seq::<Seq<char>>::empty());
    }
    while i < names.len()
        invariant
            all == names@.map_values(|s: String| s@),
            i <= names@.len(),
            out@.map_values(|s: String| s@) == shown_entries(all, i as int),
        decreases names.len() - i,
    {
        let x = &names[i];
        proof {
            assert(all[i as int] == x@);
        }
        if directory_entry_shown(x.as_str()) {
            let ghost os = out@.map_values(|s: String| s@);
            let mut p: usize = out.len();
            while p > 0 && entry_is_before(x, &out[p - 1])
                invariant
                    p <= out@.len(),
                    os == out@.map_values(|s: String| s@),
                    forall|q: int| p <= q < os.len() ==> entry_before(x@, #[trigger] os[q]),
                decreases p,
            {
                p = p - 1;
            }
            proof {
                if p > 0 {
                    assert(os[p - 1] == out@[p - 1]@);
                }
                lemma_ins_entry(os, x@, p as int);
            }
            let ghost before = out@;
            out.insert(p, x.clone());
            proof {
                let ov = out@.map_values(|s: String| s@);
                assert(ov =~= os.take(p as int).push(x@) + os.skip(p as int)) by {
                    assert forall|q: int| 0 <= q < out@.len() implies #[trigger] ov[q]
                        == (os.take(p as int).push(x@) + os.skip(p as int))[q] by {
                        if q < p {
                            assert(out@[q] == before[q]);
                        } else if q > p {
                            assert(out@[q] == before[q - 1]);
                        }
                    }
                }
            }
        }
        i = i + 1;
    }
    out
}

/// A path without its trailing slashes.
pub open spec fn trim_trailing_slashes(s: Seq<char>) -> Seq<char>
    decreases s.len(),
{
    if s.len() > 0 && s.last() == '/' {
        trim_trailing_slashes(s.drop_last())
    } else {
        s
    }
}

/// Whether a source path is a file group or lies under one.
pub open spec fn path_is_under_group_spec(path: Seq<char>, group: Seq<char>) -> bool {
    path == group || crate::text::starts_with_seq(path, trim_trailing_slashes(group) + seq!['/'])
}

/// Whether a source path is a file group or lies under one.
pub fn path_is_under_group(path: &str, group: &str) -> (r: bool)
    ensures
        r == path_is_under_group_spec(path@, group@),
{
    if str_eq(path, group) {
        return true;
    }
    let p = crate::text::chars_of(path);
    let g = crate::text::chars_of(group);
    let mut n: usize = g.len();
    proof {
        assert(g@.take(n as int) =~= g@);
    }
    while n > 0 && g[n - 1] == '/'
        invariant
            n <= g@.len(),
            trim_trailing_slashes(g@.take(n as int)) == trim_trailing_slashes(g@),
        decreases n,
    {
        proof {
            assert(g@.take(n as int).drop_last() =~= g@.take(n - 1));
        }
        n = n - 1;
    }
    let ghost stem = g@.take(n as int);
    proof {
        if n > 0 {
            assert(stem.last() == g@[n - 1]);
        }
        assert(trim_trailing_slashes(stem) == stem);
        assert(trim_trailing_slashes(group@) == stem);
        assert((stem + seq!['/']).len() == n + 1);
    }
    if n >= p.len() {
        proof {
            assert(!crate::text::starts_with_seq(path@, trim_trailing_slashes(group@) + seq!['/']));
        }
        return false;
    }
    let mut i: usize = 0;
    while i < n
        invariant
            n < p@.len(),
            n <= g@.len(),
            i <= n,
            stem == g@.take(n as int),
            trim_trailing_slashes(group@) == stem,
            p@ == path@,
            g@ == group@,
            forall|j: int| 0 <= j < i ==> p@[j] == g@[j],
        decreases n - i,
    {
        if p[i] != g[i] {
            proof {
                assert(p@.take(n + 1)[i as int] == p@[i as int]);
                assert((stem + seq!['/'])[i as int] == g@[i as int]);
                assert(p@.take(n + 1)[i as int] != (stem + seq!['/'])[i as int]);
                assert(p@.take(n + 1) != stem + seq!['/']);
                assert(!crate::text::starts_with_seq(path@, trim_trailing_slashes(group@) + seq!['/']));
            }
            return false;
        }
        i = i + 1;
    }
    let r = p[n] == '/';
    proof {
        assert forall|j: int| 0 <= j < n implies p@.take(n + 1)[j] == (stem + seq!['/'])[j] by {
            assert(p@[j] == g@[j]);
        }
        if r {
            assert(p@.take(n + 1) =~= stem + seq!['/']);
        } else {
            assert(p@.take(n + 1)[n as int] != (stem + seq!['/'])[n as int]);
            assert(p@.take(n + 1) != stem + seq!['/']);
        }
    }
    r
}

} // verus!
