//! The upgrade version written into projects and schemes: the project's
//! `LastUpgradeCheck` attribute, else the one its Xcode version stands for.
use vstd::prelude::*;
use crate::json::JsonValue;
use crate::model::Project;
use crate::rules::{json_string_spec, json_string_value};
use crate::text::{chars_of, dec_nat, push_char, push_dec_u64, string_from};
use crate::paths::string_of_range;

verus! {

/// Whether every character of `s` is an ASCII digit.
pub open spec fn all_digits(s: Seq<char>) -> bool {
    forall|i: int| 0 <= i < s.len() ==> '0' <= #[trigger] s[i] <= '9'
}

/// The value of a run of decimal digits.
pub open spec fn digits_nat(s: Seq<char>) -> nat
    decreases s.len(),
{
    if s.len() == 0 {
        0
    } else {
        digits_nat(s.drop_last()) * 10 + ((s.last() as u32) - ('0' as u32)) as nat
    }
}

/// An unsigned number as `u64::from_str` reads it: an optional `+`, then
/// one or more decimal digits, with a value that fits in 64 bits.
pub open spec fn parse_u64_spec(s: Seq<char>) -> Option<nat> {
    let d = if s.len() > 0 && s[0] == '+' { s.skip(1) } else { s };
    if d.len() > 0 && all_digits(d) && digits_nat(d) <= u64::MAX {
        Some(digits_nat(d))
    } else {
        None
    }
}

proof fn lemma_digits_grow(s: Seq<char>, i: int)
    requires
        0 <= i <= s.len(),
        all_digits(s),
    ensures
        digits_nat(s.take(i)) <= digits_nat(s),
    decreases s.len() - i,
{
    if i < s.len() {
        lemma_digits_grow(s, i + 1);
        assert(s.take(i + 1).drop_last() =~= s.take(i));
        let a = digits_nat(s.take(i));
        assert(a <= a * 10) by (nonlinear_arith);
    } else {
        assert(s.take(i) =~= s);
    }
}

/// Reads an unsigned 64-bit number.
pub fn parse_u64(s: &Vec<char>, start: usize, end: usize) -> (r: Option<u64>)
    requires
        start <= end <= s@.len(),
    ensures
        match r {
            Some(v) => parse_u64_spec(s@.subrange(start as int, end as int)) == Some(v as nat),
            None => parse_u64_spec(s@.subrange(start as int, end as int)) is None,
        },
{
    let ghost whole = s@.subrange(start as int, end as int);
    let mut i = start;
    if i < end && s[i] == '+' {
        i = i + 1;
    }
    let ghost d = s@.subrange(i as int, end as int);
    proof {
        if whole.len() > 0 && whole[0] == '+' {
            assert(whole.skip(1) =~= d);
        } else {
            assert(whole =~= d);
        }
    }
    if i == end {
        return None;
    }
    let first = i;
    let mut acc: u64 = 0;
    while i < end
        invariant
            first <= i <= end,
            end <= s@.len(),
            d == s@.subrange(first as int, end as int),
            d.len() > 0,
            parse_u64_spec(s@.subrange(start as int, end as int)) == (if all_digits(d) && digits_nat(d) <= u64::MAX {
                Some(digits_nat(d))
            } else {
                None
            }),
            all_digits(d.take(i - first)),
            acc as nat == digits_nat(d.take(i - first)),
        decreases end - i,
    {
        let c = s[i];
        proof {
            assert(d[i - first] == c);
        }
        if !('0' <= c && c <= '9') {
            proof {
                assert(!all_digits(d));
            }
            return None;
        }
        proof {
            assert(d.take(i + 1 - first).drop_last() =~= d.take(i - first));
            assert(d.take(i + 1 - first).last() == c);
        }
        let digit = (c as u32 - '0' as u32) as u64;
        let next = match acc.checked_mul(10) {
            Some(m) => m.checked_add(digit),
            None => None,
        };
        match next {
            Some(v) => {
                acc = v;
            },
            None => {
                proof {
                    assert(all_digits(d.take(i + 1 - first)));
                    if all_digits(d) {
                        assert(d.take(i + 1 - first) =~= d.take(i + 1 - first));
                        lemma_digits_grow(d, i + 1 - first);
                    }
                }
                return None;
            },
        }
        i = i + 1;
    }
    proof {
        assert(d.take(i - first) =~= d);
    }
    Some(acc)
}

/// The position of the first `.` of `s`, or -1.
pub open spec fn first_dot(s: Seq<char>) -> int
    decreases s.len(),
{
    if s.len() == 0 {
        -1
    } else if s[0] == '.' {
        0
    } else {
        let p = first_dot(s.skip(1));
        if p < 0 { -1 } else { p + 1 }
    }
}

/// The text of `s` up to its first `.`, all of it when it has none.
pub open spec fn before_dot(s: Seq<char>) -> Seq<char> {
    let p = first_dot(s);
    if p < 0 { s } else { s.take(p) }
}

/// A number written with at least two digits.
pub open spec fn two_digits(n: nat) -> Seq<char> {
    if n < 10 { seq!['0'] + dec_nat(n) } else { dec_nat(n) }
}

/// The upgrade version an Xcode version such as `15.2` stands for: the
/// major version then the minor one in two digits (`1502`); none for a major
/// version above 16 or parts that are not numbers.
pub open spec fn xcode_version_check_spec(v: Seq<char>) -> Option<Seq<char>> {
    let p = first_dot(v);
    let major = before_dot(v);
    let minor = if p < 0 { "0"@ } else { before_dot(v.skip(p + 1)) };
    match (parse_u64_spec(major), parse_u64_spec(minor)) {
        (Some(a), Some(b)) => if a > 16 { None } else { Some(dec_nat(a) + two_digits(b)) },
        _ => None,
    }
}

proof fn lemma_first_dot(s: Seq<char>)
    ensures
        -1 <= first_dot(s) < s.len(),
        first_dot(s) >= 0 ==> s[first_dot(s)] == '.',
        forall|i: int| 0 <= i < s.len() && (first_dot(s) < 0 || i < first_dot(s)) ==> s[i] != '.',
    decreases s.len(),
{
    if s.len() > 0 && s[0] != '.' {
        lemma_first_dot(s.skip(1));
        assert forall|i: int| 0 <= i < s.len() && (first_dot(s) < 0 || i < first_dot(s)) implies s[i] != '.' by {
            if i > 0 {
                assert(s[i] == s.skip(1)[i - 1]);
            }
        }
    }
}

/// The first `.` at or after `from`, up to `end`.
fn find_dot(s: &Vec<char>, from: usize, end: usize) -> (r: usize)
    requires
        from <= end <= s@.len(),
    ensures
        first_dot(s@.subrange(from as int, end as int)) == (if r == end { -1 } else { r - from }),
        from <= r <= end,
{
    let ghost t = s@.subrange(from as int, end as int);
    let mut i = from;
    while i < end
        invariant
            from <= i <= end,
            end <= s@.len(),
            t == s@.subrange(from as int, end as int),
            forall|k: int| from <= k < i ==> s@[k] != '.',
        decreases end - i,
    {
        if s[i] == '.' {
            proof {
                lemma_first_dot(t);
                let p = first_dot(t);
                assert(t[i - from] == '.');
                if p < 0 || p > i - from {
                    assert(t[i - from] != '.');
                }
                if 0 <= p < i - from {
                    assert(t[p] == s@[from + p]);
                }
            }
            return i;
        }
        i = i + 1;
    }
    proof {
        lemma_first_dot(t);
        let p = first_dot(t);
        if p >= 0 {
            assert(t[p] == s@[from + p]);
        }
    }
    end
}

fn push_two_digits(out: &mut String, n: u64)
    ensures
        final(out)@ == old(out)@ + two_digits(n as nat),
{
    if n < 10 {
        push_char(out, '0');
    }
    let ghost before = out@;
    push_dec_u64(out, n);
    proof {
        if n < 10 {
            assert(out@ =~= old(out)@ + two_digits(n as nat));
        }
    }
}

/// The upgrade version an Xcode version stands for.
pub fn xcode_version_last_upgrade_check(version: &str) -> (r: Option<String>)
    ensures
        crate::schemes::opt_string(r) == xcode_version_check_spec(version@),
{
    let cs = chars_of(version);
    let n = cs.len();
    let p = find_dot(&cs, 0, n);
    proof {
        assert(cs@.subrange(0, n as int) =~= version@);
        assert(cs@.subrange(0, p as int) =~= before_dot(version@));
    }
    let major = match parse_u64(&cs, 0, p) {
        Some(v) => v,
        None => return None,
    };
    let minor = if p == n {
        let zero: Vec<char> = vec!['0'];
        proof {
            assert(zero@.subrange(0, 1) =~= "0"@) by {
                reveal_strlit("0");
            }
        }
        parse_u64(&zero, 0, 1)
    } else {
        let q = find_dot(&cs, p + 1, n);
        proof {
            assert(cs@.subrange(p + 1, n as int) =~= version@.skip(p + 1));
            assert(cs@.subrange(p + 1, q as int) =~= before_dot(version@.skip(p + 1)));
        }
        parse_u64(&cs, p + 1, q)
    };
    let minor = match minor {
        Some(v) => v,
        None => return None,
    };
    if major > 16 {
        return None;
    }
    let mut out = String::new();
    push_dec_u64(&mut out, major);
    push_two_digits(&mut out, minor);
    proof {
        assert(out@ =~= dec_nat(major as nat) + two_digits(minor as nat));
    }
    Some(out)
}

/// The version a project was last checked for upgrades with: its
/// `LastUpgradeCheck` attribute when that is a string, else the one its
/// Xcode version stands for, else `1430`.
pub open spec fn last_upgrade_version_spec(project: &Project) -> Seq<char> {
    match crate::generator::attribute_string_spec(project.attributes@, "LastUpgradeCheck"@) {
        Some(v) => v,
        None => match project.options.xcode_version {
            Some(j) => match json_string_spec(&j) {
                Some(s) => match xcode_version_check_spec(s) {
                    Some(c) => c,
                    None => "1430"@,
                },
                None => "1430"@,
            },
            None => "1430"@,
        },
    }
}

/// The version a project was last checked for upgrades with.
pub fn last_upgrade_version(project: &Project) -> (r: String)
    ensures
        r@ == last_upgrade_version_spec(project),
{
    if let Some(v) = crate::generator::attribute_string(&project.attributes, "LastUpgradeCheck") {
        return v;
    }
    if let Some(j) = &project.options.xcode_version {
        if let Some(s) = json_string_value(j) {
            if let Some(c) = xcode_version_last_upgrade_check(s.as_str()) {
                return c;
            }
        }
    }
    string_from("1430")
}

} // verus!
