//! Natural ordering of names: runs of digits compare by their value, other
//! bytes one by one; the group ordering also ignores case and puts `_`, `-`
//! and `.` before letters.
use vstd::prelude::*;
use std::cmp::Ordering;
use vstd::string::StringSliceAdditionalSpecFns;

verus! {

/// An ASCII digit.
pub open spec fn is_digit(b: u8) -> bool {
    48 <= b <= 57
}

/// Where the run of digits starting at `i` ends.
pub open spec fn digit_run_end(s: Seq<u8>, i: int) -> int
    decreases s.len() - i,
{
    if 0 <= i < s.len() && is_digit(s[i]) {
        digit_run_end(s, i + 1)
    } else {
        i
    }
}

/// The value of the digits `s[i..e]`.
pub open spec fn digits_value(s: Seq<u8>, i: int, e: int) -> nat
    decreases e - i,
{
    if e <= i {
        0
    } else {
        digits_value(s, i, e - 1) * 10 + (s[e - 1] - 48) as nat
    }
}

/// A run of digits read as a 64-bit number; a run too large to read counts
/// as zero.
pub open spec fn run_number(s: Seq<u8>, i: int, e: int) -> nat {
    let v = digits_value(s, i, e);
    if v <= u64::MAX { v } else { 0 }
}

/// The byte a group name is ordered by: lower case, with `_` first and
/// `-`, `.` just after the punctuation they replace.
pub open spec fn group_key(b: u8) -> u8 {
    let c: u8 = if 65 <= b <= 90 { (b + 32) as u8 } else { b };
    if c == 95 {
        0
    } else if c == 45 {
        41
    } else if c == 46 {
        42
    } else {
        c
    }
}

/// The byte compared at a position.
pub open spec fn compared_byte(b: u8, group: bool) -> u8 {
    if group { group_key(b) } else { b }
}

pub proof fn lemma_run_end(s: Seq<u8>, i: int)
    requires
        0 <= i <= s.len(),
    ensures
        i <= digit_run_end(s, i) <= s.len(),
        forall|k: int| i <= k < digit_run_end(s, i) ==> is_digit(#[trigger] s[k]),
        digit_run_end(s, i) < s.len() ==> !is_digit(s[digit_run_end(s, i)]),
    decreases s.len() - i,
{
    if i < s.len() && is_digit(s[i]) {
        lemma_run_end(s, i + 1);
    }
}

/// The natural order of `l` and `r` from positions `i` and `j` on, as -1,
/// 0 or 1; once one side is used up, the longer string comes last.
pub open spec fn natural_from(l: Seq<u8>, r: Seq<u8>, i: int, j: int, group: bool) -> int
    decreases l.len() - i + r.len() - j,
    when 0 <= i <= l.len() && 0 <= j <= r.len()
{
    if i < l.len() && j < r.len() {
        if is_digit(l[i]) && is_digit(r[j]) {
            let ie = digit_run_end(l, i);
            let je = digit_run_end(r, j);
            let a = run_number(l, i, ie);
            let b = run_number(r, j, je);
            if a < b {
                -1
            } else if a > b {
                1
            } else {
                proof {
                    lemma_run_end(l, i);
                    lemma_run_end(r, j);
                }
                natural_from(l, r, ie, je, group)
            }
        } else {
            let a = compared_byte(l[i], group);
            let b = compared_byte(r[j], group);
            if a < b {
                -1
            } else if a > b {
                1
            } else {
                natural_from(l, r, i + 1, j + 1, group)
            }
        }
    } else if l.len() < r.len() {
        -1
    } else if l.len() > r.len() {
        1
    } else {
        0
    }
}

/// The ordering a sign stands for.
pub open spec fn ordering_of(sign: int) -> Ordering {
    if sign < 0 {
        Ordering::Less
    } else if sign > 0 {
        Ordering::Greater
    } else {
        Ordering::Equal
    }
}

/// The 64-bit value of a run of digits, or zero when it does not fit.
fn digit_run_value(s: &[u8], start: usize, end: usize) -> (r: u64)
    requires
        start <= end <= s@.len(),
        forall|k: int| start <= k < end ==> is_digit(#[trigger] s@[k]),
    ensures
        r == run_number(s@, start as int, end as int),
{
    let mut v: u64 = 0;
    let mut over = false;
    let mut k: usize = start;
    while k < end
        invariant
            start <= k <= end <= s@.len(),
            forall|q: int| start <= q < end ==> is_digit(#[trigger] s@[q]),
            over ==> digits_value(s@, start as int, k as int) > u64::MAX,
            !over ==> v == digits_value(s@, start as int, k as int),
        decreases end - k,
    {
        let b = s[k];
        proof {
            assert(is_digit(s@[k as int]));
        }
        let d: u64 = (b - 48u8) as u64;
        if !over {
            match v.checked_mul(10) {
                Some(m) => match m.checked_add(d) {
                    Some(x) => {
                        v = x;
                    },
                    None => {
                        over = true;
                    },
                },
                None => {
                    over = true;
                },
            }
        }
        k = k + 1;
    }
    if over {
        0
    } else {
        v
    }
}

/// The byte compared for the group ordering.
pub fn natural_sort_byte(byte: u8) -> (r: u8)
    ensures
        r == (if byte == 95 { 0 } else if byte == 45 { 41 } else if byte == 46 { 42 } else { byte }),
{
    if byte == 95u8 {
        0
    } else if byte == 45u8 {
        41
    } else if byte == 46u8 {
        42
    } else {
        byte
    }
}

fn compared(b: u8, group: bool) -> (r: u8)
    ensures
        r == compared_byte(b, group),
{
    if group {
        let c: u8 = if 65u8 <= b && b <= 90u8 { b + 32 } else { b };
        natural_sort_byte(c)
    } else {
        b
    }
}

/// Compares two byte strings in natural order.
fn natural_sign(left: &[u8], right: &[u8], group: bool) -> (r: i8)
    ensures
        r == natural_from(left@, right@, 0, 0, group),
{
    let ghost l = left@;
    let ghost rr = right@;
    let mut i: usize = 0;
    let mut j: usize = 0;
    while i < left.len() && j < right.len()
        invariant
            l == left@,
            rr == right@,
            i <= l.len(),
            j <= rr.len(),
            natural_from(l, rr, i as int, j as int, group) == natural_from(l, rr, 0, 0, group),
        decreases l.len() - i + rr.len() - j,
    {
        let a = left[i];
        let b = right[j];
        if 48u8 <= a && a <= 57u8 && 48u8 <= b && b <= 57u8 {
            let i0 = i;
            let j0 = j;
            proof {
                lemma_run_end(l, i as int);
                lemma_run_end(rr, j as int);
            }
            while i < left.len() && 48u8 <= left[i] && left[i] <= 57u8
                invariant
                    l == left@,
                    i0 <= i <= l.len(),
                    digit_run_end(l, i0 as int) == digit_run_end(l, i as int),
                decreases l.len() - i,
            {
                i = i + 1;
            }
            while j < right.len() && 48u8 <= right[j] && right[j] <= 57u8
                invariant
                    rr == right@,
                    j0 <= j <= rr.len(),
                    digit_run_end(rr, j0 as int) == digit_run_end(rr, j as int),
                decreases rr.len() - j,
            {
                j = j + 1;
            }
            proof {
                assert(digit_run_end(l, i as int) == i);
                assert(digit_run_end(rr, j as int) == j);
            }
            let x = digit_run_value(left, i0, i);
            let y = digit_run_value(right, j0, j);
            if x < y {
                return -1;
            } else if x > y {
                return 1;
            }
        } else {
            let ca = compared(a, group);
            let cb = compared(b, group);
            if ca < cb {
                return -1;
            } else if ca > cb {
                return 1;
            }
            i = i + 1;
            j = j + 1;
        }
    }
    if left.len() < right.len() {
        -1
    } else if left.len() > right.len() {
        1
    } else {
        0
    }
}

/// Natural order of two names, byte by byte.
pub fn natural_cmp(left: &str, right: &str) -> (r: Ordering)
    ensures
        r == ordering_of(natural_from(left.spec_bytes(), right.spec_bytes(), 0, 0, false)),
{
    let s = natural_sign(left.as_bytes(), right.as_bytes(), false);
    if s < 0 {
        Ordering::Less
    } else if s > 0 {
        Ordering::Greater
    } else {
        Ordering::Equal
    }
}

/// Natural order of two group children's names, ignoring case.
pub fn natural_group_cmp(left: &str, right: &str) -> (r: Ordering)
    ensures
        r == ordering_of(natural_from(left.spec_bytes(), right.spec_bytes(), 0, 0, true)),
{
    let s = natural_sign(left.as_bytes(), right.as_bytes(), true);
    if s < 0 {
        Ordering::Less
    } else if s > 0 {
        Ordering::Greater
    } else {
        Ordering::Equal
    }
}

} // verus!
