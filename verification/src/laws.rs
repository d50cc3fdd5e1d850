//! What holds of the library across calls: objects keep the identifier and
//! contents they were first stored with, identifiers are written bare,
//! merged groups keep their children, orderings only reorder, escaped text
//! holds no markup, quoted strings read back as themselves, the group order
//! ignores case, compiled files go to the Sources phase, configurations get
//! their debug or release settings, and a property set reads back.
use vstd::prelude::*;
use vstd::seq_lib::{lemma_multiset_commutative, to_multiset_build};
use crate::embed::{bucket_insert_spec, dest_lt, ordered_phases_spec, phase_name_order_spec, phases_with_order};
use crate::natural::{compared_byte, digit_run_end, is_digit, lemma_run_end, natural_from, run_number};
use crate::graph::{OView, PVal, PbxGraph, add_post, hex_digit_char, merge_children, object_id_spec, quote_key_spec};
use crate::smap::{lookup, keys_sorted, sins};
use crate::sorting::{comment_before, ins_by_comment, sort_by_comment};
use crate::text::{hex_char, hex_fixed, lemma_lex_irreflexive, lemma_lex_total, lemma_lex_transitive, lex_lt};
use crate::xml::{xml_escape_char, xml_escape_spec};

verus! {

/// Storing an object under a key that already holds one returns the same
/// identifier and changes nothing: the first object stored under a key is
/// the one the project keeps.
pub proof fn law_add_keeps_first(
    g0: PbxGraph,
    g1: PbxGraph,
    g2: PbxGraph,
    key: Seq<char>,
    first: OView,
    second: OView,
    r1: Seq<char>,
    r2: Seq<char>,
)
    requires
        add_post(g0, g1, key, first, r1),
        add_post(g1, g2, key, second, r2),
    ensures
        r2 == r1,
        lookup(g1.objs(), r1) is Some,
        g2.objs() == g1.objs(),
        g2.cmts() == g1.cmts(),
{
    if lookup(g0.objs(), r1) is None {
        assert(lookup(g1.objs(), r1) == Some(first));
    }
}

proof fn lemma_hex_fixed(n: nat, width: nat)
    ensures
        hex_fixed(n, width).len() == width,
        forall|i: int| 0 <= i < width ==> hex_digit_char(#[trigger] hex_fixed(n, width)[i]),
    decreases width,
{
    if width > 0 {
        lemma_hex_fixed(n / 16, (width - 1) as nat);
        let d = (n % 16) as nat;
        assert(hex_digit_char(hex_char(d)));
        let h = hex_fixed(n, width);
        assert forall|i: int| 0 <= i < width implies hex_digit_char(#[trigger] h[i]) by {
            if i < width - 1 {
                assert(h[i] == hex_fixed(n / 16, (width - 1) as nat)[i]);
            }
        }
    }
}

/// Every object identifier has twenty-four hexadecimal digits, so it is
/// written bare wherever it stands as a key.
pub proof fn law_object_id_written_bare(key: Seq<char>, salt: u64)
    ensures
        object_id_spec(key, salt).len() == 24,
        quote_key_spec(object_id_spec(key, salt)) == object_id_spec(key, salt),
{
    let id = object_id_spec(key, salt);
    let h = crate::graph::fnv_hash(vstd::utf8::encode_utf8(key), 0xcbf29ce484222325u64 ^ salt);
    let second = crate::graph::rotl17(h) ^ 0x9e3779b97f4a7c15u64;
    let a = hex_fixed(h as nat, 16);
    let b = hex_fixed((second as u32) as nat, 8);
    lemma_hex_fixed(h as nat, 16);
    lemma_hex_fixed((second as u32) as nat, 8);
    assert(id == a + b);
    assert forall|i: int| 0 <= i < id.len() implies hex_digit_char(#[trigger] id[i]) by {
        if i < 16 {
            assert(id[i] == a[i]);
        } else {
            assert(id[i] == b[i - 16]);
        }
    }
}

/// Merging a group into the one stored under the same key keeps the
/// stored children first and in order, adds every new child, adds only
/// children of the two, and adds none twice.
pub proof fn law_merge_children(existing: Seq<PVal>, incoming: Seq<PVal>, n: int)
    requires
        0 <= n <= incoming.len(),
    ensures
        merge_children(existing, incoming, n).len() >= existing.len(),
        merge_children(existing, incoming, n).take(existing.len() as int) == existing,
        forall|i: int| 0 <= i < n ==> merge_children(existing, incoming, n).contains(#[trigger] incoming[i]),
        forall|x: PVal| #[trigger] merge_children(existing, incoming, n).contains(x) ==> existing.contains(x) || incoming.contains(x),
        existing.no_duplicates() ==> merge_children(existing, incoming, n).no_duplicates(),
    decreases n,
{
    if n == 0 {
        assert(existing.take(existing.len() as int) =~= existing);
    } else {
        law_merge_children(existing, incoming, n - 1);
        let a = merge_children(existing, incoming, n - 1);
        let x = incoming[n - 1];
        let m = merge_children(existing, incoming, n);
        if !a.contains(x) {
            assert(m == a.push(x));
            assert(m.take(existing.len() as int) =~= a.take(existing.len() as int));
            assert forall|i: int| 0 <= i < n implies m.contains(#[trigger] incoming[i]) by {
                if i < n - 1 {
                    let j = choose|j: int| 0 <= j < a.len() && a[j] == incoming[i];
                    assert(m[j] == incoming[i]);
                } else {
                    assert(m[a.len() as int] == x);
                }
            }
            assert forall|y: PVal| #[trigger] m.contains(y) implies existing.contains(y) || incoming.contains(y) by {
                let j = choose|j: int| 0 <= j < m.len() && m[j] == y;
                if j < a.len() {
                    assert(a[j] == y);
                    assert(a.contains(y));
                } else {
                    assert(incoming[n - 1] == y);
                }
            }
            if existing.no_duplicates() {
                assert forall|i: int, j: int| 0 <= i < m.len() && 0 <= j < m.len() && i != j implies m[i] != m[j] by {
                    if i < a.len() && j < a.len() {
                    } else if i < a.len() {
                        assert(a[i] == m[i]);
                        if m[i] == m[j] {
                            assert(a.contains(x));
                        }
                    } else {
                        assert(a[j] == m[j]);
                        if m[i] == m[j] {
                            assert(a.contains(x));
                        }
                    }
                }
            }
        }
    }
}

/// Sorting by comment keeps every reference and adds none: the result is a
/// rearrangement of its input.
pub proof fn law_sort_is_permutation(s: Seq<PVal>, n: int, natural: bool)
    requires
        0 <= n <= s.len(),
    ensures
        sort_by_comment(s, n, natural).to_multiset() == s.take(n).to_multiset(),
    decreases n,
{
    if n == 0 {
        assert(s.take(0) =~= Seq::<PVal>::empty());
    } else {
        law_sort_is_permutation(s, n - 1, natural);
        lemma_ins_multiset(sort_by_comment(s, n - 1, natural), s[n - 1], natural);
        assert(s.take(n) =~= s.take(n - 1).push(s[n - 1]));
        to_multiset_build(s.take(n - 1), s[n - 1]);
    }
}

proof fn lemma_ins_multiset(t: Seq<PVal>, x: PVal, natural: bool)
    ensures
        ins_by_comment(t, x, natural).to_multiset() == t.to_multiset().insert(x),
    decreases t.len(),
{
    if t.len() == 0 {
        to_multiset_build(t, x);
        assert(seq![x] =~= t.push(x));
    } else if comment_before(x, t.last(), natural) {
        let d = t.drop_last();
        lemma_ins_multiset(d, x, natural);
        to_multiset_build(ins_by_comment(d, x, natural), t.last());
        to_multiset_build(d, t.last());
        assert(d.push(t.last()) =~= t);
        assert(t.to_multiset().insert(x) =~= d.to_multiset().insert(t.last()).insert(x));
        assert(d.to_multiset().insert(x).insert(t.last()) =~= d.to_multiset().insert(t.last()).insert(x));
    } else {
        to_multiset_build(t, x);
    }
}

proof fn lemma_byte_order(a: PVal, b: PVal, c: PVal)
    requires
        !comment_before(a, b, false),
        !comment_before(b, c, false),
    ensures
        !comment_before(a, c, false),
{
    let ca = crate::rules::value_comment_spec(a);
    let cb = crate::rules::value_comment_spec(b);
    let cc = crate::rules::value_comment_spec(c);
    lemma_lex_total(ca, cb);
    lemma_lex_total(cb, cc);
    if lex_lt(ca, cc) {
        if ca == cb {
        } else {
            assert(lex_lt(cb, ca));
            lemma_lex_transitive(cb, ca, cc);
        }
    }
}

/// Whether no reference comes after a later one in byte order of comments.
pub open spec fn sorted_by_bytes(s: Seq<PVal>) -> bool {
    forall|i: int, j: int| 0 <= i < j < s.len() ==> !comment_before(#[trigger] s[j], #[trigger] s[i], false)
}

proof fn lemma_ins_sorted(t: Seq<PVal>, x: PVal)
    requires
        sorted_by_bytes(t),
    ensures
        sorted_by_bytes(ins_by_comment(t, x, false)),
        ins_by_comment(t, x, false).to_multiset() == t.to_multiset().insert(x),
    decreases t.len(),
{
    lemma_ins_multiset(t, x, false);
    if t.len() == 0 {
    } else if comment_before(x, t.last(), false) {
        let d = t.drop_last();
        let l = t.last();
        assert(sorted_by_bytes(d)) by {
            assert forall|i: int, j: int| 0 <= i < j < d.len() implies !comment_before(#[trigger] d[j], #[trigger] d[i], false) by {
                assert(d[i] == t[i] && d[j] == t[j]);
            }
        }
        lemma_ins_sorted(d, x);
        let r0 = ins_by_comment(d, x, false);
        let r = r0.push(l);
        lemma_lex_total(crate::rules::value_comment_spec(x), crate::rules::value_comment_spec(l));
        assert forall|i: int| 0 <= i < r0.len() implies !comment_before(l, #[trigger] r0[i], false) by {
            let y = r0[i];
            assert(r0.to_multiset().count(y) > 0) by {
                assert(r0.contains(y));
                vstd::seq_lib::to_multiset_contains(r0, y);
            }
            assert(d.to_multiset().insert(x).count(y) > 0);
            if y != x {
                vstd::seq_lib::to_multiset_contains(d, y);
                assert(d.contains(y));
                let k = choose|k: int| 0 <= k < d.len() && d[k] == y;
                assert(t[k] == y && t[t.len() - 1] == l);
            }
        }
        assert forall|i: int, j: int| 0 <= i < j < r.len() implies !comment_before(#[trigger] r[j], #[trigger] r[i], false) by {
            if j == r.len() - 1 {
                assert(r[j] == l);
                assert(r[i] == r0[i]);
            } else {
                assert(r[i] == r0[i] && r[j] == r0[j]);
            }
        }
    } else {
        let r = t.push(x);
        assert forall|i: int, j: int| 0 <= i < j < r.len() implies !comment_before(#[trigger] r[j], #[trigger] r[i], false) by {
            if j == r.len() - 1 {
                assert(r[j] == x);
                if i < t.len() - 1 {
                    assert(!comment_before(t[t.len() - 1], t[i], false));
                    lemma_byte_order(x, t[t.len() - 1], t[i]);
                }
            } else {
                assert(r[i] == t[i] && r[j] == t[j]);
            }
        }
    }
}

/// Sorting by comments in byte order leaves no reference after a later
/// one.
pub proof fn law_sort_by_bytes_is_sorted(s: Seq<PVal>, n: int)
    requires
        0 <= n <= s.len(),
    ensures
        sorted_by_bytes(sort_by_comment(s, n, false)),
    decreases n,
{
    if n > 0 {
        law_sort_by_bytes_is_sorted(s, n - 1);
        lemma_ins_sorted(sort_by_comment(s, n - 1, false), s[n - 1]);
    }
}

/// The characters that stand for themselves in XML.
pub open spec fn plain_xml_char(c: char) -> bool {
    c != '&' && c != '<' && c != '>' && c != '"' && c != '\''
}

/// Escaping text without markup characters leaves it as it is.
pub proof fn law_xml_escape_plain(s: Seq<char>)
    requires
        forall|i: int| 0 <= i < s.len() ==> plain_xml_char(#[trigger] s[i]),
    ensures
        xml_escape_spec(s) == s,
    decreases s.len(),
{
    if s.len() > 0 {
        assert(plain_xml_char(s[s.len() - 1]));
        law_xml_escape_plain(s.drop_last());
        assert(s.drop_last().push(s.last()) =~= s);
    }
}

proof fn lemma_escape_char_no_markup(c: char)
    ensures
        forall|i: int| 0 <= i < xml_escape_char(c).len() ==> {
            let e = #[trigger] xml_escape_char(c)[i];
            e != '<' && e != '>' && e != '"' && e != '\''
        },
{
    reveal_strlit("&amp;");
    reveal_strlit("&lt;");
    reveal_strlit("&gt;");
    reveal_strlit("&quot;");
    reveal_strlit("&apos;");
}

/// Escaped text holds no angle bracket or quote: it cannot end an
/// attribute or open an element.
pub proof fn law_xml_escape_no_markup(s: Seq<char>)
    ensures
        forall|i: int| 0 <= i < xml_escape_spec(s).len() ==> {
            let e = #[trigger] xml_escape_spec(s)[i];
            e != '<' && e != '>' && e != '"' && e != '\''
        },
    decreases s.len(),
{
    if s.len() > 0 {
        law_xml_escape_no_markup(s.drop_last());
        lemma_escape_char_no_markup(s.last());
        let a = xml_escape_spec(s.drop_last());
        let b = xml_escape_char(s.last());
        assert forall|i: int| 0 <= i < xml_escape_spec(s).len() implies {
            let e = #[trigger] xml_escape_spec(s)[i];
            e != '<' && e != '>' && e != '"' && e != '\''
        } by {
            if i < a.len() {
                assert(xml_escape_spec(s)[i] == a[i]);
            } else {
                assert(xml_escape_spec(s)[i] == b[i - a.len()]);
            }
        }
    }
}

/// Putting embedding phases in running order only reorders them.
pub proof fn law_embed_order_is_permutation(ps: Seq<(Seq<char>, Seq<char>)>)
    ensures
        ordered_phases_spec(ps).to_multiset() == ps.to_multiset(),
    decreases ps.len(),
{
    broadcast use vstd::multiset::group_multiset_axioms;

    if ps.len() == 0 {
        assert(ordered_phases_spec(ps) =~= ps);
    } else {
        let d = ps.drop_last();
        let l = ps.last();
        law_embed_order_is_permutation(d);
        let w0 = phases_with_order(d, 0);
        let w1 = phases_with_order(d, 1);
        let w2 = phases_with_order(d, 2);
        let o = phase_name_order_spec(l.1);
        let v0 = if o == 0 { w0.push(l) } else { w0 };
        let v1 = if o == 1 { w1.push(l) } else { w1 };
        let v2 = if o == 2 { w2.push(l) } else { w2 };
        assert(phases_with_order(ps, 0) =~= v0);
        assert(phases_with_order(ps, 1) =~= v1);
        assert(phases_with_order(ps, 2) =~= v2);
        lemma_multiset_commutative(v0 + v1, v2);
        lemma_multiset_commutative(v0, v1);
        lemma_multiset_commutative(w0 + w1, w2);
        lemma_multiset_commutative(w0, w1);
        to_multiset_build(w0, l);
        to_multiset_build(w1, l);
        to_multiset_build(w2, l);
        to_multiset_build(d, l);
        assert(d.push(l) =~= ps);
        let m0 = w0.to_multiset();
        let m1 = w1.to_multiset();
        let m2 = w2.to_multiset();
        assert(d.to_multiset() == m0.add(m1).add(m2));
        if o == 0 {
            assert(m0.insert(l).add(m1).add(m2) =~= m0.add(m1).add(m2).insert(l));
        } else if o == 1 {
            assert(m0.add(m1.insert(l)).add(m2) =~= m0.add(m1).add(m2).insert(l));
        } else {
            assert(m0.add(m1).add(m2.insert(l)) =~= m0.add(m1).add(m2).insert(l));
        }
        assert(ordered_phases_spec(ps).to_multiset() =~= ps.to_multiset());
    }
}

/// Copy destinations in strictly increasing order.
pub open spec fn dests_sorted(b: Seq<((int, Seq<char>, Seq<char>), Seq<PVal>)>) -> bool {
    forall|i: int, j: int| 0 <= i < j < b.len() ==> dest_lt(#[trigger] b[i].0, #[trigger] b[j].0)
}

proof fn lemma_dest_order(a: (int, Seq<char>, Seq<char>), b: (int, Seq<char>, Seq<char>), c: (int, Seq<char>, Seq<char>))
    ensures
        !dest_lt(a, a),
        dest_lt(a, b) && dest_lt(b, c) ==> dest_lt(a, c),
        a != b ==> dest_lt(a, b) || dest_lt(b, a),
{
    lemma_lex_irreflexive(a.1);
    lemma_lex_irreflexive(a.2);
    lemma_lex_total(a.1, b.1);
    lemma_lex_total(a.2, b.2);
    if dest_lt(a, b) && dest_lt(b, c) {
        if lex_lt(a.1, b.1) && lex_lt(b.1, c.1) {
            lemma_lex_transitive(a.1, b.1, c.1);
        }
        if lex_lt(a.2, b.2) && lex_lt(b.2, c.2) {
            lemma_lex_transitive(a.2, b.2, c.2);
        }
    }
}

/// Copy buckets gain a file: destinations stay in strictly increasing
/// order, the file's destination is among them afterwards, and no other
/// destination appears.
pub proof fn law_bucket_insert_keeps_order(b: Seq<((int, Seq<char>, Seq<char>), Seq<PVal>)>, k: (int, Seq<char>, Seq<char>), v: PVal)
    requires
        dests_sorted(b),
    ensures
        dests_sorted(bucket_insert_spec(b, k, v)),
        exists|i: int| 0 <= i < bucket_insert_spec(b, k, v).len() && (#[trigger] bucket_insert_spec(b, k, v)[i]).0 == k,
        forall|i: int|
            0 <= i < bucket_insert_spec(b, k, v).len() ==> (#[trigger] bucket_insert_spec(b, k, v)[i]).0 == k || exists|j: int|
                0 <= j < b.len() && b[j].0 == bucket_insert_spec(b, k, v)[i].0,
    decreases b.len(),
{
    let r = bucket_insert_spec(b, k, v);
    if b.len() == 0 {
        assert(r[0].0 == k);
    } else if b[0].0 == k {
        assert(r[0].0 == k);
        assert forall|i: int| 0 <= i < r.len() implies (#[trigger] r[i]).0 == k || exists|j: int| 0 <= j < b.len() && b[j].0 == r[i].0 by {
            assert(r[i].0 == b[i].0);
        }
        assert forall|i: int, j: int| 0 <= i < j < r.len() implies dest_lt(#[trigger] r[i].0, #[trigger] r[j].0) by {
            assert(r[i].0 == b[i].0 && r[j].0 == b[j].0);
        }
    } else if dest_lt(k, b[0].0) {
        assert(r[0].0 == k);
        assert forall|i: int| 0 <= i < r.len() implies (#[trigger] r[i]).0 == k || exists|j: int| 0 <= j < b.len() && b[j].0 == r[i].0 by {
            if i > 0 {
                assert(r[i] == b[i - 1]);
            }
        }
        assert forall|i: int, j: int| 0 <= i < j < r.len() implies dest_lt(#[trigger] r[i].0, #[trigger] r[j].0) by {
            if i == 0 {
                assert(r[j] == b[j - 1]);
                if j - 1 > 0 {
                    assert(dest_lt(b[0].0, b[j - 1].0));
                    lemma_dest_order(k, b[0].0, b[j - 1].0);
                }
            } else {
                assert(r[i] == b[i - 1] && r[j] == b[j - 1]);
            }
        }
    } else {
        let t = b.skip(1);
        assert(dests_sorted(t)) by {
            assert forall|i: int, j: int| 0 <= i < j < t.len() implies dest_lt(#[trigger] t[i].0, #[trigger] t[j].0) by {
                assert(t[i] == b[i + 1] && t[j] == b[j + 1]);
            }
        }
        law_bucket_insert_keeps_order(t, k, v);
        let u = bucket_insert_spec(t, k, v);
        assert(r == seq![b[0]] + u);
        lemma_dest_order(k, b[0].0, b[0].0);
        assert(dest_lt(b[0].0, k));
        assert forall|i: int| 0 <= i < u.len() implies dest_lt(b[0].0, #[trigger] u[i].0) by {
            if u[i].0 == k {
            } else {
                let j = choose|j: int| 0 <= j < t.len() && t[j].0 == u[i].0;
                assert(t[j] == b[j + 1]);
            }
        }
        let wi = choose|i: int| 0 <= i < u.len() && (#[trigger] u[i]).0 == k;
        assert(r[wi + 1] == u[wi]);
        assert forall|i: int| 0 <= i < r.len() implies (#[trigger] r[i]).0 == k || exists|j: int| 0 <= j < b.len() && b[j].0 == r[i].0 by {
            if i == 0 {
                assert(b[0].0 == r[0].0);
            } else {
                assert(r[i] == u[i - 1]);
                if u[i - 1].0 != k {
                    let j = choose|j: int| 0 <= j < t.len() && t[j].0 == u[i - 1].0;
                    assert(b[j + 1].0 == r[i].0);
                }
            }
        }
        assert forall|i: int, j: int| 0 <= i < j < r.len() implies dest_lt(#[trigger] r[i].0, #[trigger] r[j].0) by {
            if i == 0 {
                assert(r[j] == u[j - 1]);
            } else {
                assert(r[i] == u[i - 1] && r[j] == u[j - 1]);
            }
        }
    }
}

/// Every name is in natural order the same as itself.
pub proof fn law_natural_reflexive(s: Seq<u8>, i: int, group: bool)
    requires
        0 <= i <= s.len(),
    ensures
        natural_from(s, s, i, i, group) == 0,
    decreases s.len() - i,
{
    if i < s.len() {
        if is_digit(s[i]) {
            lemma_run_end(s, i);
            law_natural_reflexive(s, digit_run_end(s, i), group);
        } else {
            law_natural_reflexive(s, i + 1, group);
        }
    }
}

/// Comparing two names in natural order the other way round gives the
/// opposite answer.
pub proof fn law_natural_antisymmetric(l: Seq<u8>, r: Seq<u8>, i: int, j: int, group: bool)
    requires
        0 <= i <= l.len(),
        0 <= j <= r.len(),
    ensures
        natural_from(l, r, i, j, group) == -natural_from(r, l, j, i, group),
    decreases l.len() - i + r.len() - j,
{
    if i < l.len() && j < r.len() {
        if is_digit(l[i]) && is_digit(r[j]) {
            lemma_run_end(l, i);
            lemma_run_end(r, j);
            let ie = digit_run_end(l, i);
            let je = digit_run_end(r, j);
            if run_number(l, i, ie) == run_number(r, j, je) {
                law_natural_antisymmetric(l, r, ie, je, group);
            }
        } else if compared_byte(l[i], group) == compared_byte(r[j], group) {
            law_natural_antisymmetric(l, r, i + 1, j + 1, group);
        }
    }
}

} // verus!

verus! {

/// Ordering a group's children only rearranges them: every child is kept,
/// as often as it was given, and none is added.
pub proof fn law_group_children_order_is_permutation(g: PbxGraph, group_name: Seq<char>, children: Seq<PVal>)
    ensures
        crate::groups::group_children_order(g, group_name, children).to_multiset() == children.to_multiset(),
{
    if !(group_name == "Products"@ || group_name == "Carthage"@) {
        let n = children.len() as int;
        lemma_sort_children_multiset(g, children, n);
        assert(children.take(n) =~= children);
        let s = crate::groups::sort_children(g, children, n);
        if crate::groups::has_products(s) {
            lemma_keep_late_multiset(s, s.len() as int);
            assert(s.take(s.len() as int) =~= s);
        }
    }
}

proof fn lemma_ins_child_multiset(g: PbxGraph, t: Seq<PVal>, x: PVal)
    ensures
        crate::groups::ins_child(g, t, x).to_multiset() == t.to_multiset().insert(x),
    decreases t.len(),
{
    if t.len() == 0 {
        to_multiset_build(t, x);
        assert(seq![x] =~= t.push(x));
    } else if crate::groups::child_before(g, x, t.last()) {
        let d = t.drop_last();
        lemma_ins_child_multiset(g, d, x);
        to_multiset_build(crate::groups::ins_child(g, d, x), t.last());
        to_multiset_build(d, t.last());
        assert(d.push(t.last()) =~= t);
        assert(t.to_multiset().insert(x) =~= d.to_multiset().insert(t.last()).insert(x));
        assert(d.to_multiset().insert(x).insert(t.last()) =~= d.to_multiset().insert(t.last()).insert(x));
    } else {
        to_multiset_build(t, x);
    }
}

proof fn lemma_sort_children_multiset(g: PbxGraph, s: Seq<PVal>, n: int)
    requires
        0 <= n <= s.len(),
    ensures
        crate::groups::sort_children(g, s, n).to_multiset() == s.take(n).to_multiset(),
    decreases n,
{
    if n == 0 {
        assert(s.take(0) =~= Seq::<PVal>::empty());
    } else {
        lemma_sort_children_multiset(g, s, n - 1);
        lemma_ins_child_multiset(g, crate::groups::sort_children(g, s, n - 1), s[n - 1]);
        assert(s.take(n) =~= s.take(n - 1).push(s[n - 1]));
        to_multiset_build(s.take(n - 1), s[n - 1]);
    }
}

proof fn lemma_keep_late_multiset(s: Seq<PVal>, n: int)
    requires
        0 <= n <= s.len(),
    ensures
        (crate::groups::keep_late(s, n, false) + crate::groups::keep_late(s, n, true)).to_multiset()
            == s.take(n).to_multiset(),
    decreases n,
{
    let a = crate::groups::keep_late(s, n, false);
    let b = crate::groups::keep_late(s, n, true);
    if n == 0 {
        assert(s.take(0) =~= Seq::<PVal>::empty());
        assert(a + b =~= Seq::<PVal>::empty());
    } else {
        lemma_keep_late_multiset(s, n - 1);
        let a0 = crate::groups::keep_late(s, n - 1, false);
        let b0 = crate::groups::keep_late(s, n - 1, true);
        let x = s[n - 1];
        assert(s.take(n) =~= s.take(n - 1).push(x));
        to_multiset_build(s.take(n - 1), x);
        lemma_multiset_commutative(a0, b0);
        if crate::groups::is_late(x) {
            assert(b == b0.push(x));
            assert(a == a0);
            lemma_multiset_commutative(a0, b);
            to_multiset_build(b0, x);
        } else {
            assert(a == a0.push(x));
            assert(b == b0);
            lemma_multiset_commutative(a, b0);
            to_multiset_build(a0, x);
        }
    }
}

} // verus!

verus! {

/// Filling in presets keeps every setting the caller gave, as given, and
/// leaves each preset key set.
pub proof fn law_presets_keep_given(base: Seq<(Seq<char>, PVal)>, table: Seq<(Seq<char>, Seq<char>)>, n: int)
    requires
        keys_sorted(base),
        0 <= n <= table.len(),
    ensures
        keys_sorted(crate::settings::presets_applied(base, table, n)),
        forall|key: Seq<char>| lookup(base, key) is Some
            ==> #[trigger] lookup(crate::settings::presets_applied(base, table, n), key) == lookup(base, key),
        forall|j: int| 0 <= j < n ==> lookup(crate::settings::presets_applied(base, table, n), #[trigger] table[j].0) is Some,
    decreases n,
{
    if n > 0 {
        law_presets_keep_given(base, table, n - 1);
        let acc = crate::settings::presets_applied(base, table, n - 1);
        if lookup(acc, table[n - 1].0) is None {
            crate::smap::lemma_sins_lookup(acc, table[n - 1].0, PVal::Str(table[n - 1].1));
        }
    }
}

/// Filling in presets a second time changes nothing.
pub proof fn law_presets_idempotent(base: Seq<(Seq<char>, PVal)>, table: Seq<(Seq<char>, Seq<char>)>, n: int)
    requires
        keys_sorted(base),
        0 <= n <= table.len(),
    ensures
        crate::settings::presets_applied(crate::settings::presets_applied(base, table, n), table, n)
            == crate::settings::presets_applied(base, table, n),
{
    law_presets_keep_given(base, table, n);
    lemma_presets_present(crate::settings::presets_applied(base, table, n), table, n);
}

proof fn lemma_presets_present(x: Seq<(Seq<char>, PVal)>, table: Seq<(Seq<char>, Seq<char>)>, m: int)
    requires
        0 <= m <= table.len(),
        forall|j: int| 0 <= j < m ==> lookup(x, #[trigger] table[j].0) is Some,
    ensures
        crate::settings::presets_applied(x, table, m) == x,
    decreases m,
{
    if m > 0 {
        lemma_presets_present(x, table, m - 1);
        assert(lookup(x, table[m - 1].0) is Some);
    }
}

} // verus!

verus! {

/// Reads the text between the quotes of a project-file string: a backslash
/// escapes the character after it, where `n` and `r` stand for a newline
/// and a carriage return.
pub open spec fn unescape(t: Seq<char>) -> Seq<char>
    decreases t.len(),
{
    if t.len() == 0 {
        Seq::empty()
    } else if t[0] == '\\' && t.len() >= 2 {
        let c = t[1];
        seq![if c == 'n' { '\n' } else if c == 'r' { '\r' } else { c }] + unescape(t.skip(2))
    } else {
        seq![t[0]] + unescape(t.skip(1))
    }
}

/// Whether the text between the quotes of a project-file string ends only
/// at its closing quote: no quote stands in it unescaped, and no backslash
/// is left to escape the closing quote.
pub open spec fn closes_at_end(t: Seq<char>) -> bool
    decreases t.len(),
{
    if t.len() == 0 {
        true
    } else if t[0] == '\\' {
        t.len() >= 2 && closes_at_end(t.skip(2))
    } else {
        t[0] != '"' && closes_at_end(t.skip(1))
    }
}

/// A string written to a project file reads back as itself: written bare,
/// it is the string; written in quotes, the text between them ends only at
/// the closing quote and unescapes to the string (so every backslash and
/// quote of the string is escaped).
pub proof fn law_quoted_strings_read_back(s: Seq<char>)
    ensures
        crate::graph::quote_spec(s) == s || {
            let q = crate::graph::quote_spec(s);
            &&& q.len() >= 2
            &&& q[0] == '"'
            &&& q[q.len() - 1] == '"'
            &&& unescape(q.subrange(1, q.len() - 1)) == s
            &&& closes_at_end(q.subrange(1, q.len() - 1))
        },
        (crate::graph::quote_spec(s) == s) ==> s.len() > 0 && forall|i: int| 0 <= i < s.len()
            ==> crate::graph::bare_char(#[trigger] s[i]),
{
    let q = crate::graph::quote_spec(s);
    if s.len() == 0 {
        assert(q.subrange(1, 1) =~= Seq::<char>::empty());
        assert(q != s);
    } else if forall|i: int| 0 <= i < s.len() ==> crate::graph::bare_char(#[trigger] s[i]) {
    } else {
        let body = s.flat_map(|c: char| crate::graph::quote_escape(c));
        lemma_escaped_reads_back(s);
        assert(q.subrange(1, q.len() - 1) =~= body);
        if q == s {
            let i = choose|i: int| 0 <= i < s.len() && !crate::graph::bare_char(s[i]);
            assert(q[0] == '"');
            assert(!crate::graph::bare_char('"'));
            lemma_escaped_not_bare(s);
        }
    }
}

proof fn lemma_escaped_not_bare(s: Seq<char>)
    requires
        s.len() > 0,
        !(forall|i: int| 0 <= i < s.len() ==> crate::graph::bare_char(#[trigger] s[i])),
    ensures
        crate::graph::quote_spec(s) != s,
{
    let q = crate::graph::quote_spec(s);
    if q == s {
        let body = s.flat_map(|c: char| crate::graph::quote_escape(c));
        lemma_escaped_reads_back(s);
        assert(q.len() == body.len() + 2);
    }
}

proof fn lemma_escaped_reads_back(s: Seq<char>)
    ensures
        unescape(s.flat_map(|c: char| crate::graph::quote_escape(c))) == s,
        closes_at_end(s.flat_map(|c: char| crate::graph::quote_escape(c))),
        s.flat_map(|c: char| crate::graph::quote_escape(c)).len() >= s.len(),
    decreases s.len(),
{
    let f = |c: char| crate::graph::quote_escape(c);
    if s.len() == 0 {
        assert(s.map_values(f) =~= Seq::<Seq<char>>::empty());
        assert(s.flat_map(f) =~= Seq::<char>::empty());
        assert(unescape(Seq::<char>::empty()) =~= s);
    } else {
        let t = s.drop_first();
        lemma_escaped_reads_back(t);
        assert(s.map_values(f).drop_first() =~= t.map_values(f));
        assert(s.map_values(f).first() == f(s[0]));
        let e = crate::graph::quote_escape(s[0]);
        let rest = t.flat_map(f);
        assert(s.flat_map(f) == e + rest);
        let w = e + rest;
        if e.len() == 2 {
            assert(w[0] == '\\');
            assert(w.skip(2) =~= rest);
            assert(s =~= seq![s[0]] + t);
        } else {
            assert(e == seq![s[0]]);
            assert(w.skip(1) =~= rest);
            assert(s =~= seq![s[0]] + t);
        }
    }
}

} // verus!

verus! {

/// An ASCII byte in lower case.
pub open spec fn ascii_lower(b: u8) -> u8 {
    if 65 <= b <= 90 { (b + 32) as u8 } else { b }
}

/// Bytes with ASCII letters in lower case.
pub open spec fn lower_bytes(s: Seq<u8>) -> Seq<u8> {
    s.map_values(|b: u8| ascii_lower(b))
}

/// The group ordering of names ignores ASCII case: two names compare as
/// their lower-case forms do, from any pair of positions on.
pub proof fn law_group_order_ignores_case(l: Seq<u8>, r: Seq<u8>, i: int, j: int)
    requires
        0 <= i <= l.len(),
        0 <= j <= r.len(),
    ensures
        natural_from(l, r, i, j, true) == natural_from(lower_bytes(l), lower_bytes(r), i, j, true),
    decreases l.len() - i + r.len() - j,
{
    let ll = lower_bytes(l);
    let lr = lower_bytes(r);
    if i < l.len() && j < r.len() {
        assert(ll[i] == ascii_lower(l[i]));
        assert(lr[j] == ascii_lower(r[j]));
        if is_digit(l[i]) && is_digit(r[j]) {
            lemma_lower_run(l, i);
            lemma_lower_run(r, j);
            lemma_run_end(l, i);
            lemma_run_end(r, j);
            let ie = digit_run_end(l, i);
            let je = digit_run_end(r, j);
            lemma_lower_digits(l, i, ie);
            lemma_lower_digits(r, j, je);
            if run_number(l, i, ie) == run_number(r, j, je) {
                law_group_order_ignores_case(l, r, ie, je);
            }
        } else {
            assert(compared_byte(ll[i], true) == compared_byte(l[i], true));
            assert(compared_byte(lr[j], true) == compared_byte(r[j], true));
            if compared_byte(l[i], true) == compared_byte(r[j], true) {
                law_group_order_ignores_case(l, r, i + 1, j + 1);
            }
        }
    }
}

/// Comparing two names in the group ordering gives the same answer as
/// comparing their lower-case forms.
pub proof fn law_group_cmp_ignores_case(l: Seq<u8>, r: Seq<u8>)
    ensures
        crate::natural::ordering_of(natural_from(l, r, 0, 0, true))
            == crate::natural::ordering_of(natural_from(lower_bytes(l), lower_bytes(r), 0, 0, true)),
{
    law_group_order_ignores_case(l, r, 0, 0);
}

proof fn lemma_lower_run(s: Seq<u8>, i: int)
    requires
        0 <= i <= s.len(),
    ensures
        digit_run_end(lower_bytes(s), i) == digit_run_end(s, i),
    decreases s.len() - i,
{
    if i < s.len() {
        assert(lower_bytes(s)[i] == ascii_lower(s[i]));
        if is_digit(s[i]) {
            lemma_lower_run(s, i + 1);
        }
    }
}

proof fn lemma_lower_digits(s: Seq<u8>, i: int, e: int)
    requires
        0 <= i <= e <= s.len(),
        forall|k: int| i <= k < e ==> is_digit(#[trigger] s[k]),
    ensures
        crate::natural::digits_value(lower_bytes(s), i, e) == crate::natural::digits_value(s, i, e),
        run_number(lower_bytes(s), i, e) == run_number(s, i, e),
    decreases e - i,
{
    if e > i {
        lemma_lower_digits(s, i, e - 1);
        assert(lower_bytes(s)[e - 1] == ascii_lower(s[e - 1]));
        assert(is_digit(s[e - 1]));
    }
}

} // verus!

verus! {

/// The extensions of files that are compiled.
pub open spec fn compiled_extension(e: Seq<char>) -> bool {
    e == "swift"@ || e == "gyb"@ || e == "m"@ || e == "mm"@ || e == "c"@ || e == "cc"@ || e == "cpp"@ || e == "cp"@ || e == "cxx"@ || e == "S"@ || e == "xcdatamodeld"@ || e == "xcmappingmodel"@ || e == "intentdefinition"@ || e == "metal"@ || e == "mlmodel"@ || e == "mlpackage"@ || e == "rcproject"@ || e == "iig"@ || e == "docc"@
}

/// A file whose extension is that of a compiled language (Swift, C,
/// Objective-C, C++, assembly, Metal and the model and intent files Xcode
/// compiles) goes to the Sources phase.
#[verifier::spinoff_prover]
#[verifier::rlimit(60)]
pub proof fn law_compiled_files_go_to_sources(path: Seq<char>, e: Seq<char>)
    requires
        crate::paths::extension_spec(path) == Some(e),
        compiled_extension(e),
    ensures
        crate::files::phase_for_source_spec(path) == Some(crate::files::BuildPhase::Sources),
{
    reveal_strlit("S");
    assert("S"@.len() == 1);
    reveal_strlit("c");
    assert("c"@.len() == 1);
    reveal_strlit("cc");
    assert("cc"@.len() == 2);
    reveal_strlit("cp");
    assert("cp"@.len() == 2);
    reveal_strlit("cpp");
    assert("cpp"@.len() == 3);
    reveal_strlit("cxx");
    assert("cxx"@.len() == 3);
    reveal_strlit("def");
    assert("def"@.len() == 3);
    reveal_strlit("docc");
    assert("docc"@.len() == 4);
    reveal_strlit("framework");
    assert("framework"@.len() == 9);
    reveal_strlit("gyb");
    assert("gyb"@.len() == 3);
    reveal_strlit("h");
    assert("h"@.len() == 1);
    reveal_strlit("hh");
    assert("hh"@.len() == 2);
    reveal_strlit("hpp");
    assert("hpp"@.len() == 3);
    reveal_strlit("hxx");
    assert("hxx"@.len() == 3);
    reveal_strlit("iig");
    assert("iig"@.len() == 3);
    reveal_strlit("intentdefinition");
    assert("intentdefinition"@.len() == 16);
    reveal_strlit("ipp");
    assert("ipp"@.len() == 3);
    reveal_strlit("m");
    assert("m"@.len() == 1);
    reveal_strlit("metal");
    assert("metal"@.len() == 5);
    reveal_strlit("mlmodel");
    assert("mlmodel"@.len() == 7);
    reveal_strlit("mlpackage");
    assert("mlpackage"@.len() == 9);
    reveal_strlit("mm");
    assert("mm"@.len() == 2);
    reveal_strlit("modulemap");
    assert("modulemap"@.len() == 9);
    reveal_strlit("rcproject");
    assert("rcproject"@.len() == 9);
    reveal_strlit("swift");
    assert("swift"@.len() == 5);
    reveal_strlit("swiftcrossimport");
    assert("swiftcrossimport"@.len() == 16);
    reveal_strlit("swiftoverlay");
    assert("swiftoverlay"@.len() == 12);
    reveal_strlit("tpp");
    assert("tpp"@.len() == 3);
    reveal_strlit("xcdatamodeld");
    assert("xcdatamodeld"@.len() == 12);
    reveal_strlit("xcframework");
    assert("xcframework"@.len() == 11);
    reveal_strlit("xcmappingmodel");
    assert("xcmappingmodel"@.len() == 14);
    reveal_strlit("xpc");
    assert("xpc"@.len() == 3);
    assert("gyb"@[0] != "xpc"@[0]);
    assert("gyb"@[0] != "hpp"@[0]);
    assert("gyb"@[0] != "ipp"@[0]);
    assert("gyb"@[0] != "tpp"@[0]);
    assert("gyb"@[0] != "hxx"@[0]);
    assert("gyb"@[0] != "def"@[0]);
    assert("m"@[0] != "h"@[0]);
    assert("mm"@[0] != "hh"@[0]);
    assert("c"@[0] != "h"@[0]);
    assert("cc"@[0] != "hh"@[0]);
    assert("cpp"@[0] != "xpc"@[0]);
    assert("cpp"@[0] != "hpp"@[0]);
    assert("cpp"@[0] != "ipp"@[0]);
    assert("cpp"@[0] != "tpp"@[0]);
    assert("cpp"@[0] != "hxx"@[0]);
    assert("cpp"@[0] != "def"@[0]);
    assert("cp"@[0] != "hh"@[0]);
    assert("cxx"@[0] != "xpc"@[0]);
    assert("cxx"@[0] != "hpp"@[0]);
    assert("cxx"@[0] != "ipp"@[0]);
    assert("cxx"@[0] != "tpp"@[0]);
    assert("cxx"@[0] != "hxx"@[0]);
    assert("cxx"@[0] != "def"@[0]);
    assert("S"@[0] != "h"@[0]);
    assert("xcdatamodeld"@[0] != "swiftoverlay"@[0]);
    assert("intentdefinition"@[0] != "swiftcrossimport"@[0]);
    assert("mlpackage"@[0] != "framework"@[0]);
    assert("mlpackage"@[1] != "modulemap"@[1]);
    assert("rcproject"@[0] != "framework"@[0]);
    assert("rcproject"@[0] != "modulemap"@[0]);
    assert("iig"@[0] != "xpc"@[0]);
    assert("iig"@[0] != "hpp"@[0]);
    assert("iig"@[1] != "ipp"@[1]);
    assert("iig"@[0] != "tpp"@[0]);
    assert("iig"@[0] != "hxx"@[0]);
    assert("iig"@[0] != "def"@[0]);
    assert(!crate::paths::is_copy_files_source_spec(path));
    assert(!crate::paths::is_header_file_spec(path));
}

} // verus!

verus! {

/// Whether a configuration is a debug one.
pub open spec fn is_debug_config(c: Seq<char>) -> bool {
    c == "Debug"@ || crate::text::ends_with_seq(c, " Debug"@)
}

/// What a debug configuration sets over the presets: dwarf debug
/// information, testability, no dynamic-no-pic, no optimisation, the DEBUG
/// definitions and conditions, source debug information for Metal, the
/// active architecture only, and `-Onone` for Swift.
#[verifier::spinoff_prover]
#[verifier::rlimit(60)]
proof fn lemma_debug_overrides(p: Seq<(Seq<char>, PVal)>)
    requires
        keys_sorted(p),
    ensures
        keys_sorted(crate::settings::debug_overrides(p)),
        lookup(crate::settings::debug_overrides(p), "DEBUG_INFORMATION_FORMAT"@) == Some(PVal::Str("dwarf"@)),
        lookup(crate::settings::debug_overrides(p), "ENABLE_TESTABILITY"@) == Some(PVal::Str("YES"@)),
        lookup(crate::settings::debug_overrides(p), "GCC_DYNAMIC_NO_PIC"@) == Some(PVal::Str("NO"@)),
        lookup(crate::settings::debug_overrides(p), "GCC_OPTIMIZATION_LEVEL"@) == Some(PVal::Str("0"@)),
        lookup(crate::settings::debug_overrides(p), "GCC_PREPROCESSOR_DEFINITIONS"@) == Some(PVal::Array(seq![PVal::Str("$(inherited)"@), PVal::Str("DEBUG=1"@)])),
        lookup(crate::settings::debug_overrides(p), "MTL_ENABLE_DEBUG_INFO"@) == Some(PVal::Str("INCLUDE_SOURCE"@)),
        lookup(crate::settings::debug_overrides(p), "ONLY_ACTIVE_ARCH"@) == Some(PVal::Str("YES"@)),
        lookup(crate::settings::debug_overrides(p), "SWIFT_ACTIVE_COMPILATION_CONDITIONS"@) == Some(PVal::Str("DEBUG"@)),
        lookup(crate::settings::debug_overrides(p), "SWIFT_OPTIMIZATION_LEVEL"@) == Some(PVal::Str("-Onone"@)),
{
    reveal_strlit("DEBUG_INFORMATION_FORMAT");
    assert("DEBUG_INFORMATION_FORMAT"@.len() == 24);
    reveal_strlit("ENABLE_TESTABILITY");
    assert("ENABLE_TESTABILITY"@.len() == 18);
    reveal_strlit("GCC_DYNAMIC_NO_PIC");
    assert("GCC_DYNAMIC_NO_PIC"@.len() == 18);
    reveal_strlit("GCC_OPTIMIZATION_LEVEL");
    assert("GCC_OPTIMIZATION_LEVEL"@.len() == 22);
    reveal_strlit("GCC_PREPROCESSOR_DEFINITIONS");
    assert("GCC_PREPROCESSOR_DEFINITIONS"@.len() == 28);
    reveal_strlit("MTL_ENABLE_DEBUG_INFO");
    assert("MTL_ENABLE_DEBUG_INFO"@.len() == 21);
    reveal_strlit("ONLY_ACTIVE_ARCH");
    assert("ONLY_ACTIVE_ARCH"@.len() == 16);
    reveal_strlit("SWIFT_ACTIVE_COMPILATION_CONDITIONS");
    assert("SWIFT_ACTIVE_COMPILATION_CONDITIONS"@.len() == 35);
    reveal_strlit("SWIFT_OPTIMIZATION_LEVEL");
    assert("SWIFT_OPTIMIZATION_LEVEL"@.len() == 24);
    assert("DEBUG_INFORMATION_FORMAT"@[0] != "SWIFT_OPTIMIZATION_LEVEL"@[0]);
    assert("ENABLE_TESTABILITY"@[0] != "GCC_DYNAMIC_NO_PIC"@[0]);
    let s0 = p;
    let s1 = sins(s0, "DEBUG_INFORMATION_FORMAT"@, PVal::Str("dwarf"@));
    crate::smap::lemma_sins_lookup(s0, "DEBUG_INFORMATION_FORMAT"@, PVal::Str("dwarf"@));
    let s2 = sins(s1, "ENABLE_TESTABILITY"@, PVal::Str("YES"@));
    crate::smap::lemma_sins_lookup(s1, "ENABLE_TESTABILITY"@, PVal::Str("YES"@));
    let s3 = sins(s2, "GCC_DYNAMIC_NO_PIC"@, PVal::Str("NO"@));
    crate::smap::lemma_sins_lookup(s2, "GCC_DYNAMIC_NO_PIC"@, PVal::Str("NO"@));
    let s4 = sins(s3, "GCC_OPTIMIZATION_LEVEL"@, PVal::Str("0"@));
    crate::smap::lemma_sins_lookup(s3, "GCC_OPTIMIZATION_LEVEL"@, PVal::Str("0"@));
    let s5 = sins(s4, "GCC_PREPROCESSOR_DEFINITIONS"@, PVal::Array(seq![PVal::Str("$(inherited)"@), PVal::Str("DEBUG=1"@)]));
    crate::smap::lemma_sins_lookup(s4, "GCC_PREPROCESSOR_DEFINITIONS"@, PVal::Array(seq![PVal::Str("$(inherited)"@), PVal::Str("DEBUG=1"@)]));
    let s6 = sins(s5, "MTL_ENABLE_DEBUG_INFO"@, PVal::Str("INCLUDE_SOURCE"@));
    crate::smap::lemma_sins_lookup(s5, "MTL_ENABLE_DEBUG_INFO"@, PVal::Str("INCLUDE_SOURCE"@));
    let s7 = sins(s6, "ONLY_ACTIVE_ARCH"@, PVal::Str("YES"@));
    crate::smap::lemma_sins_lookup(s6, "ONLY_ACTIVE_ARCH"@, PVal::Str("YES"@));
    let s8 = sins(s7, "SWIFT_ACTIVE_COMPILATION_CONDITIONS"@, PVal::Str("DEBUG"@));
    crate::smap::lemma_sins_lookup(s7, "SWIFT_ACTIVE_COMPILATION_CONDITIONS"@, PVal::Str("DEBUG"@));
    let s9 = sins(s8, "SWIFT_OPTIMIZATION_LEVEL"@, PVal::Str("-Onone"@));
    crate::smap::lemma_sins_lookup(s8, "SWIFT_OPTIMIZATION_LEVEL"@, PVal::Str("-Onone"@));
    assert(crate::settings::debug_overrides(p) == s9);
}

/// What any other configuration sets over the presets: dSYM debug
/// information, no assertions, no Metal debug information, whole-module
/// Swift compilation, and `-O` for Swift.
#[verifier::spinoff_prover]
#[verifier::rlimit(60)]
proof fn lemma_release_overrides(p: Seq<(Seq<char>, PVal)>)
    requires
        keys_sorted(p),
    ensures
        keys_sorted(crate::settings::release_overrides(p)),
        lookup(crate::settings::release_overrides(p), "DEBUG_INFORMATION_FORMAT"@) == Some(PVal::Str("dwarf-with-dsym"@)),
        lookup(crate::settings::release_overrides(p), "ENABLE_NS_ASSERTIONS"@) == Some(PVal::Str("NO"@)),
        lookup(crate::settings::release_overrides(p), "MTL_ENABLE_DEBUG_INFO"@) == Some(PVal::Str("NO"@)),
        lookup(crate::settings::release_overrides(p), "SWIFT_COMPILATION_MODE"@) == Some(PVal::Str("wholemodule"@)),
        lookup(crate::settings::release_overrides(p), "SWIFT_OPTIMIZATION_LEVEL"@) == Some(PVal::Str("-O"@)),
{
    reveal_strlit("DEBUG_INFORMATION_FORMAT");
    assert("DEBUG_INFORMATION_FORMAT"@.len() == 24);
    reveal_strlit("ENABLE_NS_ASSERTIONS");
    assert("ENABLE_NS_ASSERTIONS"@.len() == 20);
    reveal_strlit("MTL_ENABLE_DEBUG_INFO");
    assert("MTL_ENABLE_DEBUG_INFO"@.len() == 21);
    reveal_strlit("SWIFT_COMPILATION_MODE");
    assert("SWIFT_COMPILATION_MODE"@.len() == 22);
    reveal_strlit("SWIFT_OPTIMIZATION_LEVEL");
    assert("SWIFT_OPTIMIZATION_LEVEL"@.len() == 24);
    assert("DEBUG_INFORMATION_FORMAT"@[0] != "SWIFT_OPTIMIZATION_LEVEL"@[0]);
    let s0 = p;
    let s1 = sins(s0, "DEBUG_INFORMATION_FORMAT"@, PVal::Str("dwarf-with-dsym"@));
    crate::smap::lemma_sins_lookup(s0, "DEBUG_INFORMATION_FORMAT"@, PVal::Str("dwarf-with-dsym"@));
    let s2 = sins(s1, "ENABLE_NS_ASSERTIONS"@, PVal::Str("NO"@));
    crate::smap::lemma_sins_lookup(s1, "ENABLE_NS_ASSERTIONS"@, PVal::Str("NO"@));
    let s3 = sins(s2, "MTL_ENABLE_DEBUG_INFO"@, PVal::Str("NO"@));
    crate::smap::lemma_sins_lookup(s2, "MTL_ENABLE_DEBUG_INFO"@, PVal::Str("NO"@));
    let s4 = sins(s3, "SWIFT_COMPILATION_MODE"@, PVal::Str("wholemodule"@));
    crate::smap::lemma_sins_lookup(s3, "SWIFT_COMPILATION_MODE"@, PVal::Str("wholemodule"@));
    let s5 = sins(s4, "SWIFT_OPTIMIZATION_LEVEL"@, PVal::Str("-O"@));
    crate::smap::lemma_sins_lookup(s4, "SWIFT_OPTIMIZATION_LEVEL"@, PVal::Str("-O"@));
    assert(crate::settings::release_overrides(p) == s5);
}

/// The project presets of a configuration optimise Swift (`-O`) unless it
/// is a debug configuration (`-Onone`), give dSYM debug information outside
/// debug, and set the other debug and release settings, whatever the
/// caller gave.
pub proof fn law_configuration_settings(s: Seq<(Seq<char>, PVal)>, c: Seq<char>)
    requires
        keys_sorted(s),
    ensures
        keys_sorted(crate::settings::project_presets_spec(s, c)),
        lookup(crate::settings::project_presets_spec(s, c), "SWIFT_OPTIMIZATION_LEVEL"@)
            == Some(PVal::Str(if is_debug_config(c) { "-Onone"@ } else { "-O"@ })),
        lookup(crate::settings::project_presets_spec(s, c), "DEBUG_INFORMATION_FORMAT"@)
            == Some(PVal::Str(if is_debug_config(c) { "dwarf"@ } else { "dwarf-with-dsym"@ })),
        lookup(crate::settings::project_presets_spec(s, c), "MTL_ENABLE_DEBUG_INFO"@)
            == Some(PVal::Str(if is_debug_config(c) { "INCLUDE_SOURCE"@ } else { "NO"@ })),
        is_debug_config(c) ==> {
            let r = crate::settings::project_presets_spec(s, c);
            &&& lookup(r, "ENABLE_TESTABILITY"@) == Some(PVal::Str("YES"@))
            &&& lookup(r, "GCC_DYNAMIC_NO_PIC"@) == Some(PVal::Str("NO"@))
            &&& lookup(r, "GCC_OPTIMIZATION_LEVEL"@) == Some(PVal::Str("0"@))
            &&& lookup(r, "GCC_PREPROCESSOR_DEFINITIONS"@) == Some(PVal::Array(seq![PVal::Str("$(inherited)"@),
                PVal::Str("DEBUG=1"@)]))
            &&& lookup(r, "ONLY_ACTIVE_ARCH"@) == Some(PVal::Str("YES"@))
            &&& lookup(r, "SWIFT_ACTIVE_COMPILATION_CONDITIONS"@) == Some(PVal::Str("DEBUG"@))
        },
        !is_debug_config(c) ==> {
            let r = crate::settings::project_presets_spec(s, c);
            &&& lookup(r, "ENABLE_NS_ASSERTIONS"@) == Some(PVal::Str("NO"@))
            &&& lookup(r, "SWIFT_COMPILATION_MODE"@) == Some(PVal::Str("wholemodule"@))
        },
{
    let t = crate::settings::project_presets();
    law_presets_keep_given(s, t, t.len() as int);
    let p = crate::settings::presets_applied(s, t, t.len() as int);
    lemma_debug_overrides(p);
    lemma_release_overrides(p);
}

} // verus!

verus! {

/// The first property with key `k` holds `v`: a reader that takes the first
/// entry of a key reads `v`.
pub open spec fn first_holds(s: Seq<(String, crate::json::JsonValue)>, k: Seq<char>, v: crate::json::JsonValue) -> bool {
    exists|i: int| #![trigger s[i]] 0 <= i < s.len() && s[i].0@ == k && s[i].1 == v
        && forall|j: int| 0 <= j < i ==> (#[trigger] s[j]).0@ != k
}

/// No property has key `k`.
pub open spec fn lacks_key(s: Seq<(String, crate::json::JsonValue)>, k: Seq<char>) -> bool {
    forall|j: int| 0 <= j < s.len() ==> (#[trigger] s[j]).0@ != k
}

proof fn lemma_prop_index_first(s: Seq<(String, crate::json::JsonValue)>, k: Seq<char>, n: int)
    requires
        0 <= n <= s.len(),
    ensures
        crate::plist::prop_index(s, k, n) >= 0 ==> {
            let p = crate::plist::prop_index(s, k, n);
            &&& p < n
            &&& s[p].0@ == k
            &&& forall|j: int| 0 <= j < p ==> (#[trigger] s[j]).0@ != k
        },
        crate::plist::prop_index(s, k, n) < 0 ==> crate::plist::prop_index(s, k, n) == -1
            && forall|j: int| 0 <= j < n ==> (#[trigger] s[j]).0@ != k,
    decreases n,
{
    if n > 0 {
        lemma_prop_index_first(s, k, n - 1);
    }
}

/// Setting property `k` to `v`: reading `k` then gives `v`, whether `k` was
/// there or not, and reading any other key gives what it gave before.
pub proof fn law_prop_set_reads_back(s: Seq<(String, crate::json::JsonValue)>, k: String, v: crate::json::JsonValue)
    ensures
        first_holds(crate::plist::prop_insert(s, k, v), k@, v),
        forall|k2: Seq<char>, w: crate::json::JsonValue| k2 != k@ && first_holds(s, k2, w)
            ==> #[trigger] first_holds(crate::plist::prop_insert(s, k, v), k2, w),
        forall|k2: Seq<char>| k2 != k@ && lacks_key(s, k2) ==> #[trigger] lacks_key(crate::plist::prop_insert(s, k, v), k2),
        crate::plist::prop_insert(s, k, v).len() == if lacks_key(s, k@) { s.len() + 1 } else { s.len() },
{
    let r = crate::plist::prop_insert(s, k, v);
    lemma_prop_index_first(s, k@, s.len() as int);
    let p = crate::plist::prop_index(s, k@, s.len() as int);
    if p >= 0 {
        assert(r[p] == (k, v));
        assert(forall|j: int| 0 <= j < p ==> #[trigger] r[j] == s[j]);
        assert(first_holds(r, k@, v));
        assert(!lacks_key(s, k@)) by {
            assert(s[p].0@ == k@);
        }
    } else {
        assert(r[s.len() as int] == (k, v));
        assert(forall|j: int| 0 <= j < s.len() ==> #[trigger] r[j] == s[j]);
        assert(first_holds(r, k@, v));
    }
    assert forall|k2: Seq<char>, w: crate::json::JsonValue| k2 != k@ && first_holds(s, k2, w)
        implies #[trigger] first_holds(r, k2, w) by {
        let i = choose|i: int| #![trigger s[i]] 0 <= i < s.len() && s[i].0@ == k2 && s[i].1 == w
            && forall|j: int| 0 <= j < i ==> (#[trigger] s[j]).0@ != k2;
        assert(r[i] == s[i]) by {
            if p >= 0 && i == p {
                assert(s[p].0@ == k@);
            }
        }
        assert forall|j: int| 0 <= j < i implies (#[trigger] r[j]).0@ != k2 by {
            if p >= 0 && j == p {
            } else {
                assert(r[j] == s[j]);
            }
        }
    }
    assert forall|k2: Seq<char>| k2 != k@ && lacks_key(s, k2) implies #[trigger] lacks_key(r, k2) by {
        assert forall|j: int| 0 <= j < r.len() implies (#[trigger] r[j]).0@ != k2 by {
            if p >= 0 && j == p {
            } else if j < s.len() {
                assert(r[j] == s[j]);
            }
        }
    }
}

/// The value last given for a key among the first `n` attributes.
pub open spec fn last_given(attrs: Seq<(String, crate::json::JsonValue)>, k: Seq<char>, n: int) -> Option<crate::json::JsonValue>
    decreases n,
{
    if n <= 0 || n > attrs.len() {
        None
    } else if attrs[n - 1].0@ == k {
        Some(attrs[n - 1].1)
    } else {
        last_given(attrs, k, n - 1)
    }
}

/// Setting the specification's attributes in turn over a property list:
/// a key the attributes give reads as the last value they give for it (it
/// replaces a default), and any other key reads as it did.
pub proof fn law_plist_attributes_win(base: Seq<(String, crate::json::JsonValue)>,
    attrs: Seq<(String, crate::json::JsonValue)>, n: int, k: Seq<char>)
    requires
        0 <= n <= attrs.len(),
    ensures
        match last_given(attrs, k, n) {
            Some(v) => first_holds(crate::plist::props_after(base, attrs, n), k, v),
            None => (forall|w: crate::json::JsonValue| first_holds(base, k, w)
                ==> #[trigger] first_holds(crate::plist::props_after(base, attrs, n), k, w))
                && (lacks_key(base, k) ==> lacks_key(crate::plist::props_after(base, attrs, n), k)),
        },
    decreases n,
{
    if n > 0 {
        law_plist_attributes_win(base, attrs, n - 1, k);
        let prev = crate::plist::props_after(base, attrs, n - 1);
        law_prop_set_reads_back(prev, attrs[n - 1].0, attrs[n - 1].1);
        if attrs[n - 1].0@ != k {
            match last_given(attrs, k, n - 1) {
                Some(v) => {
                    assert(first_holds(crate::plist::prop_insert(prev, attrs[n - 1].0, attrs[n - 1].1), k, v));
                },
                None => {
                    assert forall|w: crate::json::JsonValue| first_holds(base, k, w)
                        implies #[trigger] first_holds(crate::plist::props_after(base, attrs, n), k, w) by {
                        assert(first_holds(prev, k, w));
                    }
                },
            }
        }
    }
}

} // verus!
