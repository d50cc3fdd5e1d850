//! Stable object references: each object of the graph is given the
//! 24-digit identifier that Xcode itself derives from the object's class and
//! its place in the project, an MD5 digest of a seed string.
use vstd::prelude::*;
use crate::graph::{PbxGraph, PbxObject, PbxValue, PVal, OView, acronym_spec, xcode_reference_acronym,
    mapped, mapped_id, phase_name, lemma_dict_view_entries, all_items_view, lemma_items_view};
use crate::paths::{display_name, display_name_spec};
use crate::smap::{entries_view, keys_sorted, lookup, has_key, key_index, sins, smap_find, smap_insert,
    smap_contains, lemma_lookup_at};
use crate::text::{dec_nat, hex_fixed, push_dec_u64, push_hex_fixed, push_str, lex_lt,
    lemma_lex_irreflexive};

verus! {

/// The MD5 digest of a byte sequence.
pub uninterp spec fn md5_digest_of(data: Seq<u8>) -> Seq<u8>;

/// `Md5::digest` of the `md-5` crate (through its `Digest` trait): the MD5
/// digest of the bytes, which that crate fixes at sixteen bytes.
#[verifier::external_body]
fn md5_digest(data: &[u8]) -> (r: Vec<u8>)
    ensures
        r@ == md5_digest_of(data@),
        r@.len() == 16,
{
    <md5::Md5 as md5::Digest>::digest(data).to_vec()
}

/// Identifiers joined with `-`.
pub open spec fn join_dash(ids: Seq<Seq<char>>) -> Seq<char>
    decreases ids.len(),
{
    if ids.len() == 0 {
        Seq::empty()
    } else if ids.len() == 1 {
        ids[0]
    } else {
        join_dash(ids.drop_last()) + seq!['-'] + ids.last()
    }
}

/// Upper-case hexadecimal digits of bytes, two per byte.
pub open spec fn hex_bytes(b: Seq<u8>) -> Seq<char>
    decreases b.len(),
{
    if b.len() == 0 {
        Seq::empty()
    } else {
        hex_bytes(b.drop_last()) + hex_fixed(b.last() as nat, 2)
    }
}

/// The seed whose digest gives a reference: `{acronym}_{isa}-{ids}_{counter}`.
pub open spec fn seed_spec(isa: Seq<char>, ids: Seq<Seq<char>>, counter: nat) -> Seq<char> {
    acronym_spec(isa) + seq!['_'] + isa + seq!['-'] + join_dash(ids) + seq!['_'] + dec_nat(counter)
}

/// The reference tried for an object at a given counter: the first 24
/// hexadecimal digits of the seed's MD5 digest.
pub open spec fn candidate(isa: Seq<char>, ids: Seq<Seq<char>>, counter: nat) -> Seq<char> {
    hex_bytes(md5_digest_of(vstd::utf8::encode_utf8(seed_spec(isa, ids, counter)))).take(24)
}

/// An upper-case hexadecimal digit.
pub open spec fn is_upper_hex(c: char) -> bool {
    ('0' <= c && c <= '9') || ('A' <= c && c <= 'F')
}

/// A reference as Xcode writes one: 24 upper-case hexadecimal digits.
pub open spec fn is_reference_text(s: Seq<char>) -> bool {
    s.len() == 24 && forall|j: int| 0 <= j < s.len() ==> is_upper_hex(#[trigger] s[j])
}

/// The largest counter tried before giving up.
pub open spec fn max_counter() -> nat {
    0x7fff_ffff
}

/// The references given so far, the references in use, and for each
/// product the name of the target that builds it.
pub struct ReferenceState {
    pub output: Vec<(String, String)>,
    pub references: Vec<(String, bool)>,
    pub product_contexts: Vec<(String, String)>,
}

impl ReferenceState {
    pub open spec fn out(&self) -> Seq<(Seq<char>, Seq<char>)> {
        entries_view(self.output@)
    }

    pub open spec fn refs(&self) -> Seq<(Seq<char>, bool)> {
        entries_view(self.references@)
    }

    pub open spec fn contexts(&self) -> Seq<(Seq<char>, Seq<char>)> {
        entries_view(self.product_contexts@)
    }

    /// Every given reference is in use, and no two objects share one.
    pub open spec fn wf(&self) -> bool {
        &&& keys_sorted(self.out())
        &&& keys_sorted(self.refs())
        &&& keys_sorted(self.contexts())
        &&& forall|i: int| 0 <= i < self.out().len() ==> has_key(self.refs(), #[trigger] self.out()[i].1)
        &&& forall|i: int| 0 <= i < self.out().len() ==> is_reference_text(#[trigger] self.out()[i].1)
        &&& forall|i: int, j: int| 0 <= i < j < self.out().len() ==> #[trigger] self.out()[i].1 != #[trigger] self.out()[j].1
    }

    /// No references given yet.
    pub fn new() -> (s: Self)
        ensures
            s.wf(),
            s.out().len() == 0,
            s.refs().len() == 0,
            s.contexts().len() == 0,
    {
        let s = ReferenceState { output: Vec::new(), references: Vec::new(), product_contexts: Vec::new() };
        proof {
            assert(s.out() =~= Seq::<(Seq<char>, Seq<char>)>::empty());
            assert(s.refs() =~= Seq::<(Seq<char>, bool)>::empty());
            assert(s.contexts() =~= Seq::<(Seq<char>, Seq<char>)>::empty());
        }
        s
    }
}

/// What fixing the reference of an object does: an object that has one
/// keeps it; otherwise it is given the first candidate, counting from one,
/// that is not in use. Should every counter up to the limit be taken, the
/// object stays without one.
pub open spec fn fix_post(old: ReferenceState, new: ReferenceState, id: Seq<char>, isa: Seq<char>, ids: Seq<Seq<char>>) -> bool {
    &&& new.wf()
    &&& new.contexts() == old.contexts()
    &&& if lookup(old.out(), id) is Some {
        new.out() == old.out() && new.refs() == old.refs()
    } else {
        ||| exists|c: nat| #![trigger candidate(isa, ids, c)] 1 <= c <= max_counter()
            && !has_key(old.refs(), candidate(isa, ids, c))
            && (forall|c2: nat| 1 <= c2 < c ==> has_key(old.refs(), #[trigger] candidate(isa, ids, c2)))
            && new.out() == sins(old.out(), id, candidate(isa, ids, c))
            && new.refs() == sins(old.refs(), candidate(isa, ids, c), true)
            && (forall|k: Seq<char>| #[trigger] lookup(new.out(), k) == if k == id {
                Some(candidate(isa, ids, c))
            } else {
                lookup(old.out(), k)
            })
        ||| (forall|c2: nat| 1 <= c2 <= max_counter() ==> has_key(old.refs(), #[trigger] candidate(isa, ids, c2)))
            && new.out() == old.out() && new.refs() == old.refs()
    }
}

/// The views of a list of identifiers.
pub open spec fn ids_view(ids: Seq<String>) -> Seq<Seq<char>> {
    ids.map_values(|s: String| s@)
}

/// Appends identifiers joined with `-`.
fn push_joined(out: &mut String, ids: &Vec<String>)
    ensures
        final(out)@ == old(out)@ + join_dash(ids_view(ids@)),
{
    let ghost start = out@;
    let mut i: usize = 0;
    proof {
        assert(ids_view(ids@.take(0)) =~= Seq::<Seq<char>>::empty());
    }
    while i < ids.len()
        invariant
            i <= ids@.len(),
            out@ == start + join_dash(ids_view(ids@.take(i as int))),
        decreases ids.len() - i,
    {
        let ghost before = ids_view(ids@.take(i as int));
        proof {
            assert(ids_view(ids@.take(i + 1)) =~= before.push(ids@[i as int]@));
            assert(ids_view(ids@.take(i + 1)).drop_last() =~= before);
        }
        if i > 0 {
            push_str(out, "-");
            proof {
                reveal_strlit("-");
            }
        } else {
            proof {
                assert(before.len() == 0);
            }
        }
        out.append(ids[i].as_str());
        i = i + 1;
    }
    proof {
        assert(ids@.take(ids@.len() as int) =~= ids@);
    }
}

/// Appends the hexadecimal digits of bytes.
fn push_hex_bytes(out: &mut String, bytes: &Vec<u8>)
    ensures
        final(out)@ == old(out)@ + hex_bytes(bytes@),
{
    let ghost start = out@;
    let mut i: usize = 0;
    proof {
        assert(bytes@.take(0) =~= Seq::<u8>::empty());
    }
    while i < bytes.len()
        invariant
            i <= bytes@.len(),
            out@ == start + hex_bytes(bytes@.take(i as int)),
        decreases bytes.len() - i,
    {
        proof {
            assert(bytes@.take(i + 1).drop_last() =~= bytes@.take(i as int));
        }
        push_hex_fixed(out, bytes[i] as u64, 2);
        i = i + 1;
    }
    proof {
        assert(bytes@.take(bytes@.len() as int) =~= bytes@);
    }
}

proof fn lemma_hex_fixed_len(n: nat, w: nat)
    ensures
        hex_fixed(n, w).len() == w,
    decreases w,
{
    if w > 0 {
        lemma_hex_fixed_len(n / 16, (w - 1) as nat);
    }
}

proof fn lemma_hex_bytes_len(b: Seq<u8>)
    ensures
        hex_bytes(b).len() == 2 * b.len(),
    decreases b.len(),
{
    if b.len() > 0 {
        lemma_hex_bytes_len(b.drop_last());
        lemma_hex_fixed_len(b.last() as nat, 2);
    }
}

proof fn lemma_hex_fixed_digits(n: nat, w: nat)
    ensures
        forall|j: int| 0 <= j < hex_fixed(n, w).len() ==> is_upper_hex(#[trigger] hex_fixed(n, w)[j]),
    decreases w,
{
    if w > 0 {
        lemma_hex_fixed_digits(n / 16, (w - 1) as nat);
        let d = n % 16;
        assert(is_upper_hex(crate::text::hex_char(d))) by {
            reveal_with_fuel(crate::text::digit_char, 1);
        }
        let a = hex_fixed(n / 16, (w - 1) as nat);
        assert forall|j: int| 0 <= j < hex_fixed(n, w).len() implies is_upper_hex(#[trigger] hex_fixed(n, w)[j]) by {
            if j < a.len() {
                assert(hex_fixed(n, w)[j] == a[j]);
            }
        }
    }
}

proof fn lemma_hex_bytes_digits(b: Seq<u8>)
    ensures
        forall|j: int| 0 <= j < hex_bytes(b).len() ==> is_upper_hex(#[trigger] hex_bytes(b)[j]),
    decreases b.len(),
{
    if b.len() > 0 {
        lemma_hex_bytes_digits(b.drop_last());
        lemma_hex_fixed_digits(b.last() as nat, 2);
        let a = hex_bytes(b.drop_last());
        let c = hex_fixed(b.last() as nat, 2);
        assert forall|j: int| 0 <= j < hex_bytes(b).len() implies is_upper_hex(#[trigger] hex_bytes(b)[j]) by {
            if j < a.len() {
                assert(hex_bytes(b)[j] == a[j]);
            } else {
                assert(hex_bytes(b)[j] == c[j - a.len()]);
            }
        }
    }
}

/// The first `n` characters of a string.
fn prefix_of(s: &String, n: usize) -> (r: String)
    requires
        n <= s@.len(),
    ensures
        r@ == s@.take(n as int),
{
    let cs = crate::text::chars_of(s.as_str());
    let r = crate::paths::string_of_range(&cs, 0, n);
    proof {
        assert(cs@.subrange(0, n as int) =~= s@.take(n as int));
    }
    r
}

/// The candidate reference for a counter.
fn candidate_at(acronym: &String, isa: &str, ids: &Vec<String>, counter: u64) -> (r: String)
    requires
        acronym@ == acronym_spec(isa@),
    ensures
        r@ == candidate(isa@, ids_view(ids@), counter as nat),
        is_reference_text(r@),
{
    let mut seed = acronym.clone();
    push_str(&mut seed, "_");
    seed.append(isa);
    push_str(&mut seed, "-");
    push_joined(&mut seed, ids);
    push_str(&mut seed, "_");
    push_dec_u64(&mut seed, counter);
    proof {
        reveal_strlit("_");
        reveal_strlit("-");
        assert(seed@ =~= seed_spec(isa@, ids_view(ids@), counter as nat));
    }
    let digest = md5_digest(seed.as_str().as_bytes());
    let mut hex = String::new();
    push_hex_bytes(&mut hex, &digest);
    proof {
        lemma_hex_bytes_len(digest@);
        lemma_hex_bytes_digits(digest@);
    }
    prefix_of(&hex, 24)
}

impl ReferenceState {
    /// Gives the object `id` its reference, derived from its class and the
    /// identifiers of its place in the project, unless it already has one.
    pub fn fix(&mut self, id: &str, isa: &str, identifiers: &Vec<String>)
        requires
            old(self).wf(),
        ensures
            fix_post(*old(self), *final(self), id@, isa@, ids_view(identifiers@)),
    {
        if smap_contains(&self.output, id) {
            return;
        }
        let ghost ids = ids_view(identifiers@);
        let acronym = xcode_reference_acronym(isa);
        let mut counter: u64 = 1;
        while counter <= 0x7fff_ffff
            invariant
                old(self).wf(),
                *self == *old(self),
                lookup(old(self).out(), id@) is None,
                acronym@ == acronym_spec(isa@),
                ids == ids_view(identifiers@),
                1 <= counter <= 0x8000_0000,
                forall|c2: nat| 1 <= c2 < counter ==> has_key(old(self).refs(), #[trigger] candidate(isa@, ids, c2)),
            decreases 0x8000_0000 - counter,
        {
            let reference = candidate_at(&acronym, isa, identifiers, counter);
            if !smap_contains(&self.references, reference.as_str()) {
                let ghost r = reference@;
                let ghost o0 = self.out();
                let ghost f0 = self.refs();
                smap_insert(&mut self.references, reference.clone(), true);
                smap_insert(&mut self.output, id.to_owned(), reference);
                proof {
                    let o1 = self.out();
                    let f1 = self.refs();
                    assert forall|i: int| 0 <= i < o1.len() implies has_key(f1, #[trigger] o1[i].1) by {
                        lemma_lookup_at(o1, i);
                        if o1[i].0 == id@ {
                            assert(lookup(f1, r) is Some);
                        } else {
                            let j = key_index(o0, o1[i].0);
                            assert(lookup(o0, o1[i].0) is Some);
                            lemma_lookup_at(o0, j);
                            assert(has_key(f0, o0[j].1));
                            let q = key_index(f0, o0[j].1);
                            lemma_lookup_at(f0, q);
                            assert(lookup(f1, o0[j].1) is Some);
                        }
                    }
                    assert forall|i: int| 0 <= i < o1.len() implies is_reference_text(#[trigger] o1[i].1) by {
                        lemma_lookup_at(o1, i);
                        if o1[i].0 != id@ {
                            let j = key_index(o0, o1[i].0);
                            assert(lookup(o0, o1[i].0) is Some);
                            lemma_lookup_at(o0, j);
                        }
                    }
                    assert forall|i: int, j: int| 0 <= i < j < o1.len() implies #[trigger] o1[i].1 != #[trigger] o1[j].1 by {
                        lemma_lookup_at(o1, i);
                        lemma_lookup_at(o1, j);
                        lemma_lex_irreflexive(o1[i].0);
                        if o1[i].0 == id@ {
                            let b = key_index(o0, o1[j].0);
                            assert(lookup(o0, o1[j].0) is Some);
                            lemma_lookup_at(o0, b);
                        } else if o1[j].0 == id@ {
                            let a = key_index(o0, o1[i].0);
                            assert(lookup(o0, o1[i].0) is Some);
                            lemma_lookup_at(o0, a);
                        } else {
                            let a = key_index(o0, o1[i].0);
                            let b = key_index(o0, o1[j].0);
                            assert(lookup(o0, o1[i].0) is Some);
                            assert(lookup(o0, o1[j].0) is Some);
                            lemma_lookup_at(o0, a);
                            lemma_lookup_at(o0, b);
                            assert(a != b);
                            if a < b {
                            } else {
                            }
                        }
                    }
                    assert(candidate(isa@, ids, counter as nat) == r);
                }
                return;
            }
            counter = counter + 1;
        }
    }
}

} // verus!

verus! {

/// The identifiers of the references among values, in order.
pub open spec fn ref_ids(vs: Seq<PVal>) -> Seq<Seq<char>>
    decreases vs.len(),
{
    if vs.len() == 0 {
        Seq::empty()
    } else {
        let r = ref_ids(vs.drop_last());
        match vs.last() {
            PVal::Ref(id, _) => r.push(id),
            _ => r,
        }
    }
}

/// The identifiers referenced by an array field.
pub open spec fn array_refs_spec(o: OView, key: Seq<char>) -> Seq<Seq<char>> {
    match lookup(o.fields, key) {
        Some(PVal::Array(vs)) => ref_ids(vs),
        _ => Seq::empty(),
    }
}

/// The identifier referenced by a field.
pub open spec fn ref_field_spec(o: OView, key: Seq<char>) -> Option<Seq<char>> {
    match lookup(o.fields, key) {
        Some(PVal::Ref(id, _)) => Some(id),
        _ => None,
    }
}

/// The string held by a field.
pub open spec fn string_field_spec(o: OView, key: Seq<char>) -> Option<Seq<char>> {
    match lookup(o.fields, key) {
        Some(PVal::Str(s)) => Some(s),
        _ => None,
    }
}

/// The view of an optional string.
pub open spec fn ostr(o: Option<String>) -> Option<Seq<char>> {
    match o {
        Some(s) => Some(s@),
        None => None,
    }
}

/// The identifier referenced by a field.
pub fn ref_field(object: &PbxObject, key: &str) -> (r: Option<String>)
    requires
        object.wf(),
    ensures
        ostr(r) == ref_field_spec(object@, key@),
{
    match smap_find(&object.fields, key) {
        Some(i) => match &object.fields[i].1 {
            PbxValue::Ref { id, .. } => Some(id.clone()),
            _ => None,
        },
        None => None,
    }
}

/// The string held by a field.
pub fn string_field(object: &PbxObject, key: &str) -> (r: Option<String>)
    requires
        object.wf(),
    ensures
        ostr(r) == string_field_spec(object@, key@),
{
    match smap_find(&object.fields, key) {
        Some(i) => match &object.fields[i].1 {
            PbxValue::String(s) => Some(s.clone()),
            _ => None,
        },
        None => None,
    }
}

/// The identifiers referenced by an array field.
pub fn array_refs(object: &PbxObject, key: &str) -> (r: Vec<String>)
    requires
        object.wf(),
    ensures
        ids_view(r@) == array_refs_spec(object@, key@),
{
    let mut out: Vec<String> = Vec::new();
    match smap_find(&object.fields, key) {
        Some(i) => match &object.fields[i].1 {
            PbxValue::Array(values) => {
                let ghost vs = all_items_view(values@);
                proof {
                    lemma_items_view(values@, values@.len() as int);
                    assert(ids_view(out@) =~= ref_ids(vs.take(0)));
                }
                let mut k: usize = 0;
                while k < values.len()
                    invariant
                        vs == all_items_view(values@),
                        vs.len() == values@.len(),
                        forall|q: int| 0 <= q < vs.len() ==> #[trigger] vs[q] == values@[q]@,
                        k <= values@.len(),
                        ids_view(out@) == ref_ids(vs.take(k as int)),
                    decreases values.len() - k,
                {
                    proof {
                        assert(vs.take(k + 1).drop_last() =~= vs.take(k as int));
                        assert(vs.take(k + 1).last() == values@[k as int]@);
                    }
                    if let PbxValue::Ref { id, .. } = &values[k] {
                        let ghost before = out@;
                        out.push(id.clone());
                        proof {
                            assert(ids_view(out@) =~= ids_view(before).push(id@));
                        }
                    }
                    k = k + 1;
                }
                proof {
                    assert(vs.take(vs.len() as int) =~= vs);
                }
                out
            }
            _ => {
                proof {
                    assert(ids_view(out@) =~= Seq::<Seq<char>>::empty());
                }
                out
            }
        },
        None => {
            proof {
                assert(ids_view(out@) =~= Seq::<Seq<char>>::empty());
            }
            out
        }
    }
}

/// The name an object is known by in the navigator: its name, else the
/// last component of its path; an empty one counts as none.
pub open spec fn file_name_of_spec(o: OView) -> Option<Seq<char>> {
    let n = match string_field_spec(o, "name"@) {
        Some(n) => Some(n),
        None => match string_field_spec(o, "path"@) {
            Some(p) => Some(display_name_spec(p)),
            None => None,
        },
    };
    match n {
        Some(v) => if v.len() > 0 { Some(v) } else { None },
        None => None,
    }
}

/// The name an object is known by in the navigator.
pub fn object_file_name(object: &PbxObject) -> (r: Option<String>)
    requires
        object.wf(),
    ensures
        ostr(r) == file_name_of_spec(object@),
{
    let n = match string_field(object, "name") {
        Some(n) => Some(n),
        None => match string_field(object, "path") {
            Some(p) => Some(display_name(p.as_str())),
            None => None,
        },
    };
    match n {
        Some(v) => if v.as_str().is_empty() { None } else { Some(v) },
        None => None,
    }
}

/// What every step of reference generation keeps: the state stays well
/// formed, the product contexts stay, and a reference once given stays.
pub open spec fn grows(old: ReferenceState, new: ReferenceState) -> bool {
    &&& new.wf()
    &&& new.contexts() == old.contexts()
    &&& forall|k: Seq<char>| lookup(old.out(), k) is Some ==> #[trigger] lookup(new.out(), k) == lookup(old.out(), k)
}

/// Fixing a reference keeps what was given before.
pub proof fn lemma_fix_grows(old: ReferenceState, new: ReferenceState, id: Seq<char>, isa: Seq<char>, ids: Seq<Seq<char>>)
    requires
        fix_post(old, new, id, isa, ids),
    ensures
        grows(old, new),
{
    if lookup(old.out(), id) is None {
        assert forall|k: Seq<char>| lookup(old.out(), k) is Some implies #[trigger] lookup(new.out(), k) == lookup(old.out(), k) by {
            if new.out() != old.out() {
                let c = choose|c: nat| #![trigger candidate(isa, ids, c)] 1 <= c <= max_counter()
                    && !has_key(old.refs(), candidate(isa, ids, c))
                    && (forall|c2: nat| 1 <= c2 < c ==> has_key(old.refs(), #[trigger] candidate(isa, ids, c2)))
                    && new.out() == sins(old.out(), id, candidate(isa, ids, c))
                    && new.refs() == sins(old.refs(), candidate(isa, ids, c), true)
                    && (forall|k: Seq<char>| #[trigger] lookup(new.out(), k) == if k == id {
                        Some(candidate(isa, ids, c))
                    } else {
                        lookup(old.out(), k)
                    });
                assert(lookup(new.out(), k) == lookup(old.out(), k));
            }
        }
    }
}

/// Growth composes.
pub proof fn lemma_grows_trans(a: ReferenceState, b: ReferenceState, c: ReferenceState)
    requires
        grows(a, b),
        grows(b, c),
    ensures
        grows(a, c),
{
    assert forall|k: Seq<char>| lookup(a.out(), k) is Some implies #[trigger] lookup(c.out(), k) == lookup(a.out(), k) by {
        assert(lookup(b.out(), k) == lookup(a.out(), k));
    }
}

} // verus!

verus! {

/// The references given so far and the references in use.
pub type Given = (Seq<(Seq<char>, Seq<char>)>, Seq<(Seq<char>, bool)>);

/// What a state has given and holds in use.
pub open spec fn given(s: ReferenceState) -> Given {
    (s.out(), s.refs())
}

/// Counter `c` gives the first candidate that is not in use.
pub open spec fn first_free(refs: Seq<(Seq<char>, bool)>, isa: Seq<char>, ids: Seq<Seq<char>>, c: nat) -> bool {
    &&& 1 <= c <= max_counter()
    &&& !has_key(refs, candidate(isa, ids, c))
    &&& forall|c2: nat| 1 <= c2 < c ==> has_key(refs, #[trigger] candidate(isa, ids, c2))
}

/// Fixing the reference of object `id`, as a function of what was given.
pub open spec fn fix_step(g: Given, id: Seq<char>, isa: Seq<char>, ids: Seq<Seq<char>>) -> Given {
    if lookup(g.0, id) is Some {
        g
    } else if exists|c: nat| first_free(g.1, isa, ids, c) {
        let c = choose|c: nat| first_free(g.1, isa, ids, c);
        (sins(g.0, id, candidate(isa, ids, c)), sins(g.1, candidate(isa, ids, c), true))
    } else {
        g
    }
}

/// A fix determines what is given next.
pub proof fn lemma_fix_step(old: ReferenceState, new: ReferenceState, id: Seq<char>, isa: Seq<char>, ids: Seq<Seq<char>>)
    requires
        fix_post(old, new, id, isa, ids),
    ensures
        given(new) == fix_step(given(old), id, isa, ids),
{
    if lookup(old.out(), id) is None {
        if exists|c: nat| first_free(old.refs(), isa, ids, c) {
            let c1 = choose|c: nat| first_free(old.refs(), isa, ids, c);
            if forall|c2: nat| 1 <= c2 <= max_counter() ==> has_key(old.refs(), #[trigger] candidate(isa, ids, c2)) {
                assert(has_key(old.refs(), candidate(isa, ids, c1)));
            } else {
                let c = choose|c: nat| #![trigger candidate(isa, ids, c)] 1 <= c <= max_counter()
                    && !has_key(old.refs(), candidate(isa, ids, c))
                    && (forall|c2: nat| 1 <= c2 < c ==> has_key(old.refs(), #[trigger] candidate(isa, ids, c2)))
                    && new.out() == sins(old.out(), id, candidate(isa, ids, c))
                    && new.refs() == sins(old.refs(), candidate(isa, ids, c), true)
                    && (forall|k: Seq<char>| #[trigger] lookup(new.out(), k) == if k == id {
                        Some(candidate(isa, ids, c))
                    } else {
                        lookup(old.out(), k)
                    });
                if c < c1 {
                    assert(has_key(old.refs(), candidate(isa, ids, c)));
                } else if c1 < c {
                    assert(has_key(old.refs(), candidate(isa, ids, c1)));
                }
                assert(c == c1);
            }
        } else {
            if !(forall|c2: nat| 1 <= c2 <= max_counter() ==> has_key(old.refs(), #[trigger] candidate(isa, ids, c2))) {
                let c = choose|c: nat| #![trigger candidate(isa, ids, c)] 1 <= c <= max_counter()
                    && !has_key(old.refs(), candidate(isa, ids, c))
                    && (forall|c2: nat| 1 <= c2 < c ==> has_key(old.refs(), #[trigger] candidate(isa, ids, c2)))
                    && new.out() == sins(old.out(), id, candidate(isa, ids, c))
                    && new.refs() == sins(old.refs(), candidate(isa, ids, c), true)
                    && (forall|k: Seq<char>| #[trigger] lookup(new.out(), k) == if k == id {
                        Some(candidate(isa, ids, c))
                    } else {
                        lookup(old.out(), k)
                    });
                assert(first_free(old.refs(), isa, ids, c));
            }
        }
    }
}

/// Fixing a file reference: its identifiers gain its name and, for a
/// product, the name of the target that builds it.
pub open spec fn file_step(objs: Seq<(Seq<char>, OView)>, ctx: Seq<(Seq<char>, Seq<char>)>, g: Given, fid: Seq<char>,
    ids: Seq<Seq<char>>) -> Given {
    match lookup(objs, fid) {
        Some(o) => fix_step(g, fid, o.isa, file_identifiers(ids, o, lookup(ctx, fid))),
        None => g,
    }
}

/// Identifiers with a group's name added where it has one.
pub open spec fn group_ids(ids: Seq<Seq<char>>, o: OView) -> Seq<Seq<char>> {
    match file_name_of_spec(o) {
        Some(n) => ids.push(n),
        None => ids,
    }
}

/// Fixing the first `n` of a list of file references.
pub open spec fn files_fold(objs: Seq<(Seq<char>, OView)>, ctx: Seq<(Seq<char>, Seq<char>)>, g: Given,
    fids: Seq<Seq<char>>, ids: Seq<Seq<char>>, n: int) -> Given
    decreases n,
{
    if n <= 0 || n > fids.len() {
        g
    } else {
        file_step(objs, ctx, files_fold(objs, ctx, g, fids, ids, n - 1), fids[n - 1], ids)
    }
}

/// Fixing a variant group and then its files.
pub open spec fn variant_walk(objs: Seq<(Seq<char>, OView)>, ctx: Seq<(Seq<char>, Seq<char>)>, g: Given,
    gid: Seq<char>, ids: Seq<Seq<char>>) -> Given {
    match lookup(objs, gid) {
        Some(o) => {
            let ids2 = group_ids(ids, o);
            let children = array_refs_spec(o, "children"@);
            files_fold(objs, ctx, fix_step(g, gid, o.isa, ids2), children, ids2, children.len() as int)
        },
        None => g,
    }
}

/// Fixing the first `n` configurations of a list, each under its name.
pub open spec fn configs_fold(objs: Seq<(Seq<char>, OView)>, g: Given, cids: Seq<Seq<char>>, ids: Seq<Seq<char>>,
    n: int) -> Given
    decreases n,
{
    if n <= 0 || n > cids.len() {
        g
    } else {
        let g1 = configs_fold(objs, g, cids, ids, n - 1);
        match lookup(objs, cids[n - 1]) {
            Some(c) => match string_field_spec(c, "name"@) {
                Some(name) => fix_step(g1, cids[n - 1], c.isa, ids.push(name)),
                None => g1,
            },
            None => g1,
        }
    }
}

/// Fixing a configuration list and then its configurations.
pub open spec fn config_list_walk(objs: Seq<(Seq<char>, OView)>, g: Given, lid: Seq<char>, ids: Seq<Seq<char>>) -> Given {
    match lookup(objs, lid) {
        Some(o) => {
            let cids = array_refs_spec(o, "buildConfigurations"@);
            configs_fold(objs, fix_step(g, lid, o.isa, ids), cids, ids, cids.len() as int)
        },
        None => g,
    }
}

/// Fixing the first `n` build files of a phase; each one's identifiers gain
/// the reference given to the file it builds, where it has one.
pub open spec fn build_files_fold(objs: Seq<(Seq<char>, OView)>, g: Given, bids: Seq<Seq<char>>, ids: Seq<Seq<char>>,
    n: int) -> Given
    decreases n,
{
    if n <= 0 || n > bids.len() {
        g
    } else {
        let g1 = build_files_fold(objs, g, bids, ids, n - 1);
        match lookup(objs, bids[n - 1]) {
            Some(b) => {
                let fids = match ref_field_spec(b, "fileRef"@) {
                    Some(f) => match lookup(g1.0, f) {
                        Some(r) => ids.push(r),
                        None => ids,
                    },
                    None => ids,
                };
                fix_step(g1, bids[n - 1], b.isa, fids)
            },
            None => g1,
        }
    }
}

/// Fixing a build phase and then its build files.
pub open spec fn phase_walk(objs: Seq<(Seq<char>, OView)>, g: Given, pid: Seq<char>, ids: Seq<Seq<char>>) -> Given {
    match lookup(objs, pid) {
        Some(o) => {
            let ids2 = match crate::graph::phase_name_spec(o) {
                Some(n) => ids.push(n),
                None => ids,
            };
            let bids = array_refs_spec(o, "files"@);
            build_files_fold(objs, fix_step(g, pid, o.isa, ids2), bids, ids2, bids.len() as int)
        },
        None => g,
    }
}

/// Fixing a target dependency's proxy, under the reference of the object it
/// points at, then the dependency, under those of its target and proxy.
pub open spec fn dependency_walk(objs: Seq<(Seq<char>, OView)>, g: Given, did: Seq<char>, ids: Seq<Seq<char>>) -> Given {
    match lookup(objs, did) {
        Some(d) => {
            let proxy = ref_field_spec(d, "targetProxy"@);
            let target = ref_field_spec(d, "target"@);
            let g1 = match proxy {
                Some(pid) => match lookup(objs, pid) {
                    Some(p) => match string_field_spec(p, "remoteGlobalIDString"@) {
                        Some(rid) => Some(fix_step(g, pid, p.isa, ids.push(mapped(rid, g.0)))),
                        None => Some(g),
                    },
                    None => None,
                },
                None => Some(g),
            };
            match g1 {
                Some(g1) => {
                    let a = match target {
                        Some(tid) => ids.push(mapped(tid, g1.0)),
                        None => ids,
                    };
                    let b = match proxy {
                        Some(pid) => a.push(mapped(pid, g1.0)),
                        None => a,
                    };
                    fix_step(g1, did, d.isa, b)
                },
                None => g,
            }
        },
        None => g,
    }
}


/// Fixing a group and everything under it, at most `depth` groups deep.
pub open spec fn group_walk(objs: Seq<(Seq<char>, OView)>, ctx: Seq<(Seq<char>, Seq<char>)>, g: Given,
    gid: Seq<char>, ids: Seq<Seq<char>>, depth: nat) -> Given
    decreases depth, 1int, 0int,
{
    if depth == 0 {
        g
    } else {
        match lookup(objs, gid) {
            Some(o) => {
                let ids2 = group_ids(ids, o);
                let children = array_refs_spec(o, "children"@);
                children_fold(objs, ctx, fix_step(g, gid, o.isa, ids2), children, ids2, (depth - 1) as nat,
                    children.len() as int)
            },
            None => g,
        }
    }
}

/// Walking the first `n` children of a group: groups are walked
/// `depth` deep, variant groups and file references fixed with their files.
pub open spec fn children_fold(objs: Seq<(Seq<char>, OView)>, ctx: Seq<(Seq<char>, Seq<char>)>, g: Given,
    cids: Seq<Seq<char>>, ids: Seq<Seq<char>>, depth: nat, n: int) -> Given
    decreases depth + 1, 0int, n,
{
    if n <= 0 || n > cids.len() {
        g
    } else {
        let g1 = children_fold(objs, ctx, g, cids, ids, depth, n - 1);
        match lookup(objs, cids[n - 1]) {
            Some(c) => if c.isa == "PBXGroup"@ {
                group_walk(objs, ctx, g1, cids[n - 1], ids, depth)
            } else if c.isa == "PBXVariantGroup"@ || c.isa == "XCVersionGroup"@ {
                variant_walk(objs, ctx, g1, cids[n - 1], ids)
            } else if c.isa == "PBXFileReference"@ {
                file_step(objs, ctx, g1, cids[n - 1], ids)
            } else {
                g1
            },
            None => g1,
        }
    }
}

/// Fixing the first `n` package products of a target, each under the
/// project's, the target's and the product's names.
pub open spec fn package_products_fold(objs: Seq<(Seq<char>, OView)>, g: Given, pids: Seq<Seq<char>>,
    project_name: Seq<char>, target_name: Seq<char>, n: int) -> Given
    decreases n,
{
    if n <= 0 || n > pids.len() {
        g
    } else {
        let g1 = package_products_fold(objs, g, pids, project_name, target_name, n - 1);
        match lookup(objs, pids[n - 1]) {
            Some(p) => match string_field_spec(p, "productName"@) {
                Some(pn) => fix_step(g1, pids[n - 1], p.isa, seq![project_name, target_name, pn]),
                None => g1,
            },
            None => g1,
        }
    }
}

/// Fixing the plugin products named by the first `n` dependencies of a
/// target, each under the plugin's name without its `plugin:` prefix.
pub open spec fn plugin_products_fold(objs: Seq<(Seq<char>, OView)>, g: Given, dids: Seq<Seq<char>>,
    project_name: Seq<char>, target_name: Seq<char>, n: int) -> Given
    decreases n,
{
    if n <= 0 || n > dids.len() {
        g
    } else {
        let g1 = plugin_products_fold(objs, g, dids, project_name, target_name, n - 1);
        match lookup(objs, dids[n - 1]) {
            Some(d) => match ref_field_spec(d, "productRef"@) {
                Some(pid) => match lookup(objs, pid) {
                    Some(p) => match string_field_spec(p, "productName"@) {
                        Some(pn) => if "plugin:"@.len() <= pn.len() && pn.take("plugin:"@.len() as int) == "plugin:"@ {
                            fix_step(g1, pid, p.isa, seq![project_name, target_name, pn.skip("plugin:"@.len() as int)])
                        } else {
                            g1
                        },
                        None => g1,
                    },
                    None => g1,
                },
                None => g1,
            },
            None => g1,
        }
    }
}

/// Fixing a target's package products, its plugin products, then the
/// target itself under the project's and its own name.
pub open spec fn target_products_walk(objs: Seq<(Seq<char>, OView)>, g: Given, tid: Seq<char>,
    project_name: Seq<char>) -> Given {
    match lookup(objs, tid) {
        Some(t) => match string_field_spec(t, "name"@) {
            Some(tn) => {
                let pids = array_refs_spec(t, "packageProductDependencies"@);
                let dids = array_refs_spec(t, "dependencies"@);
                let g1 = package_products_fold(objs, g, pids, project_name, tn, pids.len() as int);
                let g2 = plugin_products_fold(objs, g1, dids, project_name, tn, dids.len() as int);
                fix_step(g2, tid, t.isa, seq![project_name, tn])
            },
            None => g,
        },
        None => g,
    }
}

/// Walking the first `n` build phases of a list.
pub open spec fn phases_fold(objs: Seq<(Seq<char>, OView)>, g: Given, pids: Seq<Seq<char>>, ids: Seq<Seq<char>>,
    n: int) -> Given
    decreases n,
{
    if n <= 0 || n > pids.len() {
        g
    } else {
        phase_walk(objs, phases_fold(objs, g, pids, ids, n - 1), pids[n - 1], ids)
    }
}

/// Walking the first `n` target dependencies of a list.
pub open spec fn dependencies_fold(objs: Seq<(Seq<char>, OView)>, g: Given, dids: Seq<Seq<char>>,
    ids: Seq<Seq<char>>, n: int) -> Given
    decreases n,
{
    if n <= 0 || n > dids.len() {
        g
    } else {
        dependency_walk(objs, dependencies_fold(objs, g, dids, ids, n - 1), dids[n - 1], ids)
    }
}

/// Walking a target's configuration list, its phases and its dependencies,
/// under the project's and the target's names.
pub open spec fn target_walk(objs: Seq<(Seq<char>, OView)>, g: Given, tid: Seq<char>, project_name: Seq<char>) -> Given {
    match lookup(objs, tid) {
        Some(t) => match string_field_spec(t, "name"@) {
            Some(tn) => {
                let ids = seq![project_name, tn];
                let g1 = match ref_field_spec(t, "buildConfigurationList"@) {
                    Some(l) => config_list_walk(objs, g, l, ids),
                    None => g,
                };
                let pids = array_refs_spec(t, "buildPhases"@);
                let dids = array_refs_spec(t, "dependencies"@);
                let g2 = phases_fold(objs, g1, pids, ids, pids.len() as int);
                dependencies_fold(objs, g2, dids, ids, dids.len() as int)
            },
            None => g,
        },
        None => g,
    }
}


/// The identifier a package reference's reference is derived from: the
/// repository of a remote package (else its comment), the path of a local one.
pub open spec fn package_identifier(p: OView) -> Option<Seq<char>> {
    if p.isa == "XCRemoteSwiftPackageReference"@ {
        match string_field_spec(p, "repositoryURL"@) {
            Some(u) => Some(u),
            None => p.comment,
        }
    } else if p.isa == "XCLocalSwiftPackageReference"@ {
        string_field_spec(p, "relativePath"@)
    } else {
        None
    }
}

/// Fixing the first `n` package references of a project.
pub open spec fn packages_fold(objs: Seq<(Seq<char>, OView)>, g: Given, pids: Seq<Seq<char>>, project_name: Seq<char>,
    n: int) -> Given
    decreases n,
{
    if n <= 0 || n > pids.len() {
        g
    } else {
        let g1 = packages_fold(objs, g, pids, project_name, n - 1);
        match lookup(objs, pids[n - 1]) {
            Some(p) => match package_identifier(p) {
                Some(i) => fix_step(g1, pids[n - 1], p.isa, seq![project_name, i]),
                None => g1,
            },
            None => g1,
        }
    }
}

/// Fixing the products of the first `n` targets of a list, and the targets.
pub open spec fn targets_products_fold(objs: Seq<(Seq<char>, OView)>, g: Given, tids: Seq<Seq<char>>,
    project_name: Seq<char>, n: int) -> Given
    decreases n,
{
    if n <= 0 || n > tids.len() {
        g
    } else {
        target_products_walk(objs, targets_products_fold(objs, g, tids, project_name, n - 1), tids[n - 1], project_name)
    }
}

/// Walking the first `n` targets of a list.
pub open spec fn targets_fold(objs: Seq<(Seq<char>, OView)>, g: Given, tids: Seq<Seq<char>>, project_name: Seq<char>,
    n: int) -> Given
    decreases n,
{
    if n <= 0 || n > tids.len() {
        g
    } else {
        target_walk(objs, targets_fold(objs, g, tids, project_name, n - 1), tids[n - 1], project_name)
    }
}

/// The product contexts a walk from the project object `root` works with.
pub open spec fn root_contexts(objs: Seq<(Seq<char>, OView)>, ctx: Seq<(Seq<char>, Seq<char>)>, root: Seq<char>)
    -> Seq<(Seq<char>, Seq<char>)> {
    match lookup(objs, root) {
        Some(p) => contexts_spec(objs, array_refs_spec(p, "targets"@), array_refs_spec(p, "targets"@).len() as int, ctx),
        None => ctx,
    }
}

/// What a walk from the project object `root` gives: the project, its
/// packages, its targets' products and the targets, the main and products
/// groups, each target's configurations, phases and dependencies, and the
/// project's configurations, in that order.
pub open spec fn generate_walk(objs: Seq<(Seq<char>, OView)>, ctx: Seq<(Seq<char>, Seq<char>)>, g: Given,
    root: Seq<char>, project_name: Seq<char>) -> Given {
    match lookup(objs, root) {
        Some(p) => {
            let ctx1 = root_contexts(objs, ctx, root);
            let ids = seq![project_name];
            let tids = array_refs_spec(p, "targets"@);
            let pkgs = array_refs_spec(p, "packageReferences"@);
            let g1 = fix_step(g, root, p.isa, ids);
            let g2 = packages_fold(objs, g1, pkgs, project_name, pkgs.len() as int);
            let g3 = targets_products_fold(objs, g2, tids, project_name, tids.len() as int);
            let g4 = match ref_field_spec(p, "mainGroup"@) {
                Some(m) => group_walk(objs, ctx1, g3, m, ids, objs.len()),
                None => g3,
            };
            let g5 = match ref_field_spec(p, "productRefGroup"@) {
                Some(m) => group_walk(objs, ctx1, g4, m, ids, objs.len()),
                None => g4,
            };
            let g6 = targets_fold(objs, g5, tids, project_name, tids.len() as int);
            match ref_field_spec(p, "buildConfigurationList"@) {
                Some(l) => config_list_walk(objs, g6, l, ids),
                None => g6,
            }
        },
        None => g,
    }
}

} // verus!

verus! {

/// Walks a project graph from its root and fixes the reference of every
/// object reached, in the order Xcode assigns them.
pub struct XcodeReferenceGenerator<'a> {
    pub graph: &'a PbxGraph,
    pub project_name: String,
    pub state: ReferenceState,
}

/// For each of the first `n` targets a project lists, the name of the
/// target recorded under its product, over `base`.
pub open spec fn contexts_spec(
    objs: Seq<(Seq<char>, OView)>,
    target_ids: Seq<Seq<char>>,
    n: int,
    base: Seq<(Seq<char>, Seq<char>)>,
) -> Seq<(Seq<char>, Seq<char>)>
    decreases n,
{
    if n <= 0 || n > target_ids.len() {
        base
    } else {
        let c = contexts_spec(objs, target_ids, n - 1, base);
        match lookup(objs, target_ids[n - 1]) {
            Some(o) => match (ref_field_spec(o, "productReference"@), string_field_spec(o, "name"@)) {
                (Some(p), Some(name)) => sins(c, p, name),
                _ => c,
            },
            None => c,
        }
    }
}

/// The identifiers a file reference's reference is derived from: those of
/// its place, its name where it has one, and the target that builds it
/// where it is a product.
pub open spec fn file_identifiers(ids: Seq<Seq<char>>, o: OView, context: Option<Seq<char>>) -> Seq<Seq<char>> {
    let a = match file_name_of_spec(o) {
        Some(n) => ids.push(n),
        None => ids,
    };
    match context {
        Some(c) => a.push(c),
        None => a,
    }
}

/// A copy of a list of identifiers with one more at the end.
fn with_pushed(ids: &Vec<String>, extra: String) -> (r: Vec<String>)
    ensures
        ids_view(r@) == ids_view(ids@).push(extra@),
{
    let mut r = ids.clone();
    proof {
        assert(ids_view(r@) =~= ids_view(ids@));
    }
    let ghost before = r@;
    r.push(extra);
    proof {
        assert(ids_view(r@) =~= ids_view(before).push(extra@));
    }
    r
}

/// A list of identifiers copied.
fn copy_ids(ids: &Vec<String>) -> (r: Vec<String>)
    ensures
        ids_view(r@) == ids_view(ids@),
{
    let r = ids.clone();
    proof {
        assert(ids_view(r@) =~= ids_view(ids@));
    }
    r
}

impl<'a> XcodeReferenceGenerator<'a> {
    /// A generator with no references given yet.
    pub fn new(graph: &'a PbxGraph, project_name: String) -> (r: Self)
        ensures
            r.graph == graph,
            r.project_name@ == project_name@,
            r.state.wf(),
            r.state.out().len() == 0,
            r.state.refs().len() == 0,
            r.state.contexts().len() == 0,
    {
        XcodeReferenceGenerator { graph, project_name, state: ReferenceState::new() }
    }

    /// The object stored under an identifier.
    pub fn object(&self, id: &str) -> (r: Option<&'a PbxObject>)
        requires
            self.graph.wf(),
        ensures
            match r {
                Some(o) => lookup(self.graph.objs(), id@) == Some(o@) && o.wf(),
                None => lookup(self.graph.objs(), id@) is None,
            },
    {
        let graph: &'a PbxGraph = self.graph;
        match smap_find(&graph.objects, id) {
            Some(i) => {
                proof {
                    assert(graph.objects@[i as int].1.wf());
                }
                Some(&graph.objects[i].1)
            }
            None => None,
        }
    }

    /// Fixes the reference of an object through the state.
    fn fix(&mut self, id: &str, isa: &str, identifiers: &Vec<String>)
        requires
            old(self).state.wf(),
        ensures
            final(self).graph == old(self).graph,
            final(self).project_name == old(self).project_name,
            grows(old(self).state, final(self).state),
            fix_post(old(self).state, final(self).state, id@, isa@, ids_view(identifiers@)),
            given(final(self).state) == fix_step(given(old(self).state), id@, isa@, ids_view(identifiers@)),
    {
        let ghost s0 = self.state;
        self.state.fix(id, isa, identifiers);
        proof {
            lemma_fix_grows(s0, self.state, id@, isa@, ids_view(identifiers@));
            lemma_fix_step(s0, self.state, id@, isa@, ids_view(identifiers@));
        }
    }

    /// Records, for each target's product, the target that builds it.
    pub fn collect_product_contexts(&mut self, project: &PbxObject)
        requires
            old(self).graph.wf(),
            old(self).state.wf(),
            project.wf(),
        ensures
            final(self).graph == old(self).graph,
            final(self).project_name == old(self).project_name,
            final(self).state.wf(),
            final(self).state.out() == old(self).state.out(),
            final(self).state.refs() == old(self).state.refs(),
            final(self).state.contexts() == contexts_spec(old(self).graph.objs(), array_refs_spec(project@, "targets"@),
                array_refs_spec(project@, "targets"@).len() as int, old(self).state.contexts()),
    {
        let target_ids = array_refs(project, "targets");
        let ghost c0 = self.state.contexts();
        let mut i: usize = 0;
        while i < target_ids.len()
            invariant
                self.graph == old(self).graph,
                self.project_name == old(self).project_name,
                self.graph.wf(),
                self.state.wf(),
                self.state.out() == old(self).state.out(),
                self.state.refs() == old(self).state.refs(),
                c0 == old(self).state.contexts(),
                i <= target_ids@.len(),
                self.state.contexts() == contexts_spec(self.graph.objs(), ids_view(target_ids@), i as int, c0),
            decreases target_ids.len() - i,
        {
            if let Some(target) = self.object(target_ids[i].as_str()) {
                if let Some(product_id) = ref_field(target, "productReference") {
                    if let Some(target_name) = string_field(target, "name") {
                        smap_insert(&mut self.state.product_contexts, product_id, target_name);
                    }
                }
            }
            i = i + 1;
        }
    }

    /// Fixes a file reference's reference; its identifiers gain its name and,
    /// for a product, the name of the target that builds it.
    pub fn generate_file_reference(&mut self, file_id: &str, identifiers: &Vec<String>)
        requires
            old(self).graph.wf(),
            old(self).state.wf(),
        ensures
            final(self).graph == old(self).graph,
            final(self).project_name == old(self).project_name,
            grows(old(self).state, final(self).state),
            match lookup(old(self).graph.objs(), file_id@) {
                Some(o) => fix_post(old(self).state, final(self).state, file_id@, o.isa,
                    file_identifiers(ids_view(identifiers@), o, lookup(old(self).state.contexts(), file_id@))),
                None => final(self).state == old(self).state,
            },
            given(final(self).state) == file_step(old(self).graph.objs(), old(self).state.contexts(),
                given(old(self).state), file_id@, ids_view(identifiers@)),
    {
        let file_ref = match self.object(file_id) {
            Some(o) => o,
            None => return,
        };
        let mut ids = copy_ids(identifiers);
        let ghost i0 = ids_view(ids@);
        if let Some(name) = object_file_name(file_ref) {
            ids.push(name);
            proof {
                assert(ids_view(ids@) =~= i0.push(name@));
            }
        }
        let ghost i1 = ids_view(ids@);
        if let Some(i) = smap_find(&self.state.product_contexts, file_id) {
            ids.push(self.state.product_contexts[i].1.clone());
            proof {
                assert(ids_view(ids@) =~= i1.push(self.state.product_contexts@[i as int].1@));
            }
        }
        self.fix(file_id, file_ref.isa.as_str(), &ids);
    }

    /// Fixes the references of a variant group and its files.
    pub fn generate_variant_group_references(&mut self, group_id: &str, identifiers: &Vec<String>)
        requires
            old(self).graph.wf(),
            old(self).state.wf(),
        ensures
            final(self).graph == old(self).graph,
            final(self).project_name == old(self).project_name,
            grows(old(self).state, final(self).state),
            given(final(self).state) == variant_walk(old(self).graph.objs(), old(self).state.contexts(),
                given(old(self).state), group_id@, ids_view(identifiers@)),
    {
        let group = match self.object(group_id) {
            Some(o) => o,
            None => return,
        };
        let child_ids = array_refs(group, "children");
        let mut ids = copy_ids(identifiers);
        let ghost i0 = ids_view(ids@);
        if let Some(name) = object_file_name(group) {
            ids.push(name);
            proof {
                assert(ids_view(ids@) =~= i0.push(name@));
            }
        }
        let ghost ids2 = ids_view(ids@);
        let ghost objs = self.graph.objs();
        let ghost ctx = self.state.contexts();
        let ghost cv = ids_view(child_ids@);
        self.fix(group_id, group.isa.as_str(), &ids);
        let ghost g1 = given(self.state);
        let mut i: usize = 0;
        while i < child_ids.len()
            invariant
                self.graph == old(self).graph,
                self.project_name == old(self).project_name,
                self.graph.wf(),
                grows(old(self).state, self.state),
                objs == self.graph.objs(),
                ctx == old(self).state.contexts(),
                cv == ids_view(child_ids@),
                ids2 == ids_view(ids@),
                i <= child_ids@.len(),
                given(self.state) == files_fold(objs, ctx, g1, cv, ids2, i as int),
            decreases child_ids.len() - i,
        {
            let ghost s1 = self.state;
            self.generate_file_reference(child_ids[i].as_str(), &ids);
            proof {
                lemma_grows_trans(old(self).state, s1, self.state);
            }
            i = i + 1;
        }
    }

    /// Fixes the references of a group and everything under it. The walk
    /// goes at most `depth` groups deep: a graph built by the generator has
    /// no cycles, so the number of its objects is always enough.
    pub fn generate_group_references(&mut self, group_id: &str, identifiers: &Vec<String>, depth: usize)
        requires
            old(self).graph.wf(),
            old(self).state.wf(),
        ensures
            final(self).graph == old(self).graph,
            final(self).project_name == old(self).project_name,
            grows(old(self).state, final(self).state),
            given(final(self).state) == group_walk(old(self).graph.objs(), old(self).state.contexts(),
                given(old(self).state), group_id@, ids_view(identifiers@), depth as nat),
        decreases depth,
    {
        if depth == 0 {
            return;
        }
        let group = match self.object(group_id) {
            Some(o) => o,
            None => return,
        };
        let child_ids = array_refs(group, "children");
        let mut ids = copy_ids(identifiers);
        let ghost i0 = ids_view(ids@);
        if let Some(name) = object_file_name(group) {
            ids.push(name);
            proof {
                assert(ids_view(ids@) =~= i0.push(name@));
            }
        }
        let ghost ids2 = ids_view(ids@);
        let ghost objs = self.graph.objs();
        let ghost ctx = self.state.contexts();
        let ghost cv = ids_view(child_ids@);
        self.fix(group_id, group.isa.as_str(), &ids);
        let ghost g1 = given(self.state);
        let mut i: usize = 0;
        while i < child_ids.len()
            invariant
                self.graph == old(self).graph,
                self.project_name == old(self).project_name,
                self.graph.wf(),
                grows(old(self).state, self.state),
                depth > 0,
                objs == self.graph.objs(),
                ctx == old(self).state.contexts(),
                cv == ids_view(child_ids@),
                ids2 == ids_view(ids@),
                i <= child_ids@.len(),
                given(self.state) == children_fold(objs, ctx, g1, cv, ids2, (depth - 1) as nat, i as int),
            decreases child_ids.len() - i,
        {
            let ghost s1 = self.state;
            if let Some(child) = self.object(child_ids[i].as_str()) {
                let isa = child.isa.as_str();
                if crate::text::str_eq(isa, "PBXGroup") {
                    self.generate_group_references(child_ids[i].as_str(), &ids, depth - 1);
                } else if crate::text::str_eq(isa, "PBXVariantGroup") || crate::text::str_eq(isa, "XCVersionGroup") {
                    self.generate_variant_group_references(child_ids[i].as_str(), &ids);
                } else if crate::text::str_eq(isa, "PBXFileReference") {
                    self.generate_file_reference(child_ids[i].as_str(), &ids);
                }
            }
            proof {
                lemma_grows_trans(old(self).state, s1, self.state);
            }
            i = i + 1;
        }
    }

    /// Fixes the references of a configuration list and its configurations.
    pub fn generate_configuration_list_references(&mut self, config_list_id: &str, identifiers: &Vec<String>)
        requires
            old(self).graph.wf(),
            old(self).state.wf(),
        ensures
            final(self).graph == old(self).graph,
            final(self).project_name == old(self).project_name,
            grows(old(self).state, final(self).state),
            given(final(self).state) == config_list_walk(old(self).graph.objs(), given(old(self).state),
                config_list_id@, ids_view(identifiers@)),
    {
        let config_list = match self.object(config_list_id) {
            Some(o) => o,
            None => return,
        };
        let config_ids = array_refs(config_list, "buildConfigurations");
        let ghost objs = self.graph.objs();
        let ghost cv = ids_view(config_ids@);
        self.fix(config_list_id, config_list.isa.as_str(), identifiers);
        let ghost g1 = given(self.state);
        let mut i: usize = 0;
        while i < config_ids.len()
            invariant
                self.graph == old(self).graph,
                self.project_name == old(self).project_name,
                self.graph.wf(),
                grows(old(self).state, self.state),
                objs == self.graph.objs(),
                cv == ids_view(config_ids@),
                i <= config_ids@.len(),
                given(self.state) == configs_fold(objs, g1, cv, ids_view(identifiers@), i as int),
            decreases config_ids.len() - i,
        {
            let ghost s1 = self.state;
            if let Some(config) = self.object(config_ids[i].as_str()) {
                if let Some(name) = string_field(config, "name") {
                    let ids = with_pushed(identifiers, name);
                    self.fix(config_ids[i].as_str(), config.isa.as_str(), &ids);
                }
            }
            proof {
                lemma_grows_trans(old(self).state, s1, self.state);
            }
            i = i + 1;
        }
    }

    /// Fixes the references of a build phase and its build files; a build
    /// file's identifiers gain the reference of the file it builds.
    pub fn generate_build_phase_references(&mut self, phase_id: &str, identifiers: &Vec<String>)
        requires
            old(self).graph.wf(),
            old(self).state.wf(),
        ensures
            final(self).graph == old(self).graph,
            final(self).project_name == old(self).project_name,
            grows(old(self).state, final(self).state),
            given(final(self).state) == phase_walk(old(self).graph.objs(), given(old(self).state),
                phase_id@, ids_view(identifiers@)),
    {
        let phase = match self.object(phase_id) {
            Some(o) => o,
            None => return,
        };
        let build_file_ids = array_refs(phase, "files");
        let mut ids = copy_ids(identifiers);
        let ghost i0 = ids_view(ids@);
        if let Some(name) = phase_name(phase) {
            ids.push(name);
            proof {
                assert(ids_view(ids@) =~= i0.push(name@));
            }
        }
        let ghost ids2 = ids_view(ids@);
        let ghost objs = self.graph.objs();
        let ghost bv = ids_view(build_file_ids@);
        self.fix(phase_id, phase.isa.as_str(), &ids);
        let ghost g1 = given(self.state);
        let mut i: usize = 0;
        while i < build_file_ids.len()
            invariant
                self.graph == old(self).graph,
                self.project_name == old(self).project_name,
                self.graph.wf(),
                grows(old(self).state, self.state),
                objs == self.graph.objs(),
                bv == ids_view(build_file_ids@),
                ids2 == ids_view(ids@),
                i <= build_file_ids@.len(),
                given(self.state) == build_files_fold(objs, g1, bv, ids2, i as int),
            decreases build_file_ids.len() - i,
        {
            let ghost s1 = self.state;
            if let Some(build_file) = self.object(build_file_ids[i].as_str()) {
                let mut file_ids = copy_ids(&ids);
                if let Some(file_ref_id) = ref_field(build_file, "fileRef") {
                    if let Some(k) = smap_find(&self.state.output, file_ref_id.as_str()) {
                        let ghost f0 = ids_view(file_ids@);
                        file_ids.push(self.state.output[k].1.clone());
                        proof {
                            lemma_lookup_at(self.state.out(), k as int);
                            assert(ids_view(file_ids@) =~= f0.push(self.state.output@[k as int].1@));
                        }
                    }
                }
                self.fix(build_file_ids[i].as_str(), build_file.isa.as_str(), &file_ids);
            }
            proof {
                lemma_grows_trans(old(self).state, s1, self.state);
            }
            i = i + 1;
        }
    }

    /// Fixes the references of a target dependency and its proxy.
    pub fn generate_target_dependency_references(&mut self, dependency_id: &str, identifiers: &Vec<String>)
        requires
            old(self).graph.wf(),
            old(self).state.wf(),
        ensures
            final(self).graph == old(self).graph,
            final(self).project_name == old(self).project_name,
            grows(old(self).state, final(self).state),
            given(final(self).state) == dependency_walk(old(self).graph.objs(), given(old(self).state),
                dependency_id@, ids_view(identifiers@)),
    {
        let dependency = match self.object(dependency_id) {
            Some(o) => o,
            None => return,
        };
        let proxy_id = ref_field(dependency, "targetProxy");
        let target_id = ref_field(dependency, "target");
        let mut dependency_ids = copy_ids(identifiers);
        let ghost s0 = self.state;
        let ghost i0 = ids_view(identifiers@);
        if let Some(pid) = &proxy_id {
            let proxy = match self.object(pid.as_str()) {
                Some(o) => o,
                None => return,
            };
            if let Some(remote_id) = string_field(proxy, "remoteGlobalIDString") {
                let mapped_remote = mapped_id(remote_id.as_str(), &self.state.output);
                let proxy_ids = with_pushed(identifiers, mapped_remote);
                self.fix(pid.as_str(), proxy.isa.as_str(), &proxy_ids);
            }
        }
        let ghost s1 = self.state;
        if let Some(tid) = &target_id {
            let m = mapped_id(tid.as_str(), &self.state.output);
            let ghost d0 = ids_view(dependency_ids@);
            dependency_ids.push(m);
            proof {
                assert(ids_view(dependency_ids@) =~= d0.push(m@));
            }
        }
        if let Some(pid) = &proxy_id {
            let m = mapped_id(pid.as_str(), &self.state.output);
            let ghost d0 = ids_view(dependency_ids@);
            dependency_ids.push(m);
            proof {
                assert(ids_view(dependency_ids@) =~= d0.push(m@));
            }
        }
        self.fix(dependency_id, dependency.isa.as_str(), &dependency_ids);
        proof {
            lemma_grows_trans(s0, s1, self.state);
        }
    }
}

} // verus!

verus! {

impl<'a> XcodeReferenceGenerator<'a> {
    /// Fixes the references of every object reached from the project object
    /// `root_id`: the project, its packages, its targets with their product
    /// dependencies, the main and products groups, then each target's
    /// configurations, phases and dependencies, and last the project's
    /// configurations.
    pub fn generate(&mut self, root_id: &str)
        requires
            old(self).graph.wf(),
            old(self).state.wf(),
        ensures
            final(self).graph == old(self).graph,
            final(self).state.wf(),
            forall|k: Seq<char>| lookup(old(self).state.out(), k) is Some ==> #[trigger] lookup(final(self).state.out(), k) == lookup(old(self).state.out(), k),
            final(self).state.contexts() == root_contexts(old(self).graph.objs(), old(self).state.contexts(), root_id@),
            given(final(self).state) == generate_walk(old(self).graph.objs(), old(self).state.contexts(),
                given(old(self).state), root_id@, old(self).project_name@),
            lookup(old(self).graph.objs(), root_id@) is Some && old(self).state.refs().len() == 0
                ==> lookup(final(self).state.out(), root_id@) is Some,
    {
        let project = match self.object(root_id) {
            Some(o) => o,
            None => return,
        };
        let ghost objs = self.graph.objs();
        let ghost pn = self.project_name@;
        let project_name = self.project_name.clone();
        let mut project_identifiers: Vec<String> = Vec::new();
        project_identifiers.push(project_name.clone());
        let ghost ids = ids_view(project_identifiers@);
        proof {
            assert(ids =~= seq![pn]);
        }
        self.collect_product_contexts(project);
        let ghost ctx1 = self.state.contexts();
        let ghost s0 = self.state;
        let package_ids = array_refs(project, "packageReferences");
        let target_ids = array_refs(project, "targets");
        let main_group_id = ref_field(project, "mainGroup");
        let products_group_id = ref_field(project, "productRefGroup");
        let project_config_list_id = ref_field(project, "buildConfigurationList");
        let ghost kv = ids_view(package_ids@);
        let ghost tv = ids_view(target_ids@);
        self.fix(root_id, project.isa.as_str(), &project_identifiers);
        let ghost s_root = self.state;
        proof {
            if s0.refs().len() == 0 && lookup(s0.out(), root_id@) is None {
                let c1 = candidate(project.isa@, ids, 1);
                assert(!has_key(s0.refs(), c1));
            }
        }
        let ghost g1 = given(self.state);
        let depth = self.graph.objects.len();
        proof {
            assert(depth as nat == objs.len());
        }

        let mut i: usize = 0;
        while i < package_ids.len()
            invariant
                self.graph == old(self).graph,
                self.project_name == old(self).project_name,
                self.graph.wf(),
                grows(s_root, self.state),
                objs == self.graph.objs(),
                kv == ids_view(package_ids@),
                project_name@ == pn,
                i <= package_ids@.len(),
                given(self.state) == packages_fold(objs, g1, kv, pn, i as int),
            decreases package_ids.len() - i,
        {
            let ghost s1 = self.state;
            if let Some(package) = self.object(package_ids[i].as_str()) {
                let isa = package.isa.as_str();
                let identifier: Option<String> = if crate::text::str_eq(isa, "XCRemoteSwiftPackageReference") {
                    match string_field(package, "repositoryURL") {
                        Some(u) => Some(u),
                        None => crate::graph::copy_opt(&package.comment),
                    }
                } else if crate::text::str_eq(isa, "XCLocalSwiftPackageReference") {
                    string_field(package, "relativePath")
                } else {
                    None
                };
                proof {
                    assert(ostr(identifier) == package_identifier(package@));
                }
                if let Some(identifier) = identifier {
                    let mut ids: Vec<String> = Vec::new();
                    ids.push(project_name.clone());
                    ids.push(identifier);
                    proof {
                        assert(ids_view(ids@) =~= seq![pn, identifier@]);
                    }
                    self.fix(package_ids[i].as_str(), isa, &ids);
                }
            }
            proof {
                lemma_grows_trans(s_root, s1, self.state);
            }
            i = i + 1;
        }

        let ghost g2 = given(self.state);
        let mut t: usize = 0;
        while t < target_ids.len()
            invariant
                self.graph == old(self).graph,
                self.project_name == old(self).project_name,
                self.graph.wf(),
                grows(s_root, self.state),
                objs == self.graph.objs(),
                tv == ids_view(target_ids@),
                project_name@ == pn,
                t <= target_ids@.len(),
                given(self.state) == targets_products_fold(objs, g2, tv, pn, t as int),
            decreases target_ids.len() - t,
        {
            let ghost s1 = self.state;
            self.fix_target_products(target_ids[t].as_str(), &project_name);
            proof {
                lemma_grows_trans(s_root, s1, self.state);
            }
            t = t + 1;
        }

        let ghost s2 = self.state;
        if let Some(main_group_id) = &main_group_id {
            self.generate_group_references(main_group_id.as_str(), &project_identifiers, depth);
        }
        let ghost s3 = self.state;
        if let Some(products_group_id) = &products_group_id {
            self.generate_group_references(products_group_id.as_str(), &project_identifiers, depth);
        }
        proof {
            lemma_grows_trans(s_root, s2, s3);
            lemma_grows_trans(s_root, s3, self.state);
        }

        let ghost g5 = given(self.state);
        let mut t: usize = 0;
        while t < target_ids.len()
            invariant
                self.graph == old(self).graph,
                self.project_name == old(self).project_name,
                self.graph.wf(),
                grows(s_root, self.state),
                objs == self.graph.objs(),
                tv == ids_view(target_ids@),
                project_name@ == pn,
                t <= target_ids@.len(),
                given(self.state) == targets_fold(objs, g5, tv, pn, t as int),
            decreases target_ids.len() - t,
        {
            let ghost s1 = self.state;
            self.generate_target_references(target_ids[t].as_str(), &project_name);
            proof {
                lemma_grows_trans(s_root, s1, self.state);
            }
            t = t + 1;
        }

        let ghost s4 = self.state;
        if let Some(config_list_id) = &project_config_list_id {
            self.generate_configuration_list_references(config_list_id.as_str(), &project_identifiers);
        }
        proof {
            lemma_grows_trans(s_root, s4, self.state);
        }
    }

    /// Fixes the references of a target's package products, of the plugin
    /// products its dependencies name, and of the target itself.
    fn fix_target_products(&mut self, target_id: &str, project_name: &String)
        requires
            old(self).graph.wf(),
            old(self).state.wf(),
        ensures
            final(self).graph == old(self).graph,
            final(self).project_name == old(self).project_name,
            grows(old(self).state, final(self).state),
            given(final(self).state) == target_products_walk(old(self).graph.objs(), given(old(self).state),
                target_id@, project_name@),
    {
        let target = match self.object(target_id) {
            Some(o) => o,
            None => return,
        };
        let target_name = match string_field(target, "name") {
            Some(n) => n,
            None => return,
        };
        let product_ids = array_refs(target, "packageProductDependencies");
        let dep_ids = array_refs(target, "dependencies");
        let ghost objs = self.graph.objs();
        let ghost pv = ids_view(product_ids@);
        let ghost dv = ids_view(dep_ids@);
        let ghost g0 = given(self.state);
        let mut i: usize = 0;
        while i < product_ids.len()
            invariant
                self.graph == old(self).graph,
                self.project_name == old(self).project_name,
                self.graph.wf(),
                grows(old(self).state, self.state),
                objs == self.graph.objs(),
                pv == ids_view(product_ids@),
                i <= product_ids@.len(),
                given(self.state) == package_products_fold(objs, g0, pv, project_name@, target_name@, i as int),
            decreases product_ids.len() - i,
        {
            let ghost s1 = self.state;
            if let Some(product) = self.object(product_ids[i].as_str()) {
                if let Some(product_name) = string_field(product, "productName") {
                    let mut ids: Vec<String> = Vec::new();
                    ids.push(project_name.clone());
                    ids.push(target_name.clone());
                    ids.push(product_name);
                    proof {
                        assert(ids_view(ids@) =~= seq![project_name@, target_name@, product_name@]);
                    }
                    self.fix(product_ids[i].as_str(), product.isa.as_str(), &ids);
                }
            }
            proof {
                lemma_grows_trans(old(self).state, s1, self.state);
            }
            i = i + 1;
        }
        let ghost g1 = given(self.state);
        let mut d: usize = 0;
        while d < dep_ids.len()
            invariant
                self.graph == old(self).graph,
                self.project_name == old(self).project_name,
                self.graph.wf(),
                grows(old(self).state, self.state),
                objs == self.graph.objs(),
                dv == ids_view(dep_ids@),
                d <= dep_ids@.len(),
                given(self.state) == plugin_products_fold(objs, g1, dv, project_name@, target_name@, d as int),
            decreases dep_ids.len() - d,
        {
            let ghost s1 = self.state;
            if let Some(dependency) = self.object(dep_ids[d].as_str()) {
                if let Some(product_id) = ref_field(dependency, "productRef") {
                    if let Some(product) = self.object(product_id.as_str()) {
                        if let Some(product_name) = string_field(product, "productName") {
                            if let Some(plugin_name) = crate::text::strip_prefix(product_name.as_str(), "plugin:") {
                                let mut ids: Vec<String> = Vec::new();
                                ids.push(project_name.clone());
                                ids.push(target_name.clone());
                                ids.push(plugin_name);
                                proof {
                                    assert(ids_view(ids@) =~= seq![project_name@, target_name@, plugin_name@]);
                                }
                                self.fix(product_id.as_str(), product.isa.as_str(), &ids);
                            }
                        }
                    }
                }
            }
            proof {
                lemma_grows_trans(old(self).state, s1, self.state);
            }
            d = d + 1;
        }
        let mut ids: Vec<String> = Vec::new();
        ids.push(project_name.clone());
        ids.push(target_name);
        proof {
            assert(ids_view(ids@) =~= seq![project_name@, target_name@]);
        }
        let ghost s2 = self.state;
        self.fix(target_id, target.isa.as_str(), &ids);
        proof {
            lemma_grows_trans(old(self).state, s2, self.state);
        }
    }

    /// Fixes the references of a target's configurations, phases and dependencies.
    fn generate_target_references(&mut self, target_id: &str, project_name: &String)
        requires
            old(self).graph.wf(),
            old(self).state.wf(),
        ensures
            final(self).graph == old(self).graph,
            final(self).project_name == old(self).project_name,
            grows(old(self).state, final(self).state),
            given(final(self).state) == target_walk(old(self).graph.objs(), given(old(self).state),
                target_id@, project_name@),
    {
        let target = match self.object(target_id) {
            Some(o) => o,
            None => return,
        };
        let target_name = match string_field(target, "name") {
            Some(n) => n,
            None => return,
        };
        let ghost tn = target_name@;
        let mut identifiers: Vec<String> = Vec::new();
        identifiers.push(project_name.clone());
        identifiers.push(target_name);
        let ghost ids = ids_view(identifiers@);
        proof {
            assert(ids =~= seq![project_name@, tn]);
        }
        let config_list_id = ref_field(target, "buildConfigurationList");
        let phase_ids = array_refs(target, "buildPhases");
        let target_dep_ids = array_refs(target, "dependencies");
        let ghost objs = self.graph.objs();
        let ghost pv = ids_view(phase_ids@);
        let ghost dv = ids_view(target_dep_ids@);
        if let Some(config_list_id) = &config_list_id {
            self.generate_configuration_list_references(config_list_id.as_str(), &identifiers);
        }
        let ghost s1 = self.state;
        let ghost g1 = given(self.state);
        let mut p: usize = 0;
        while p < phase_ids.len()
            invariant
                self.graph == old(self).graph,
                self.project_name == old(self).project_name,
                self.graph.wf(),
                grows(old(self).state, self.state),
                objs == self.graph.objs(),
                pv == ids_view(phase_ids@),
                ids == ids_view(identifiers@),
                p <= phase_ids@.len(),
                given(self.state) == phases_fold(objs, g1, pv, ids, p as int),
            decreases phase_ids.len() - p,
        {
            let ghost s2 = self.state;
            self.generate_build_phase_references(phase_ids[p].as_str(), &identifiers);
            proof {
                lemma_grows_trans(old(self).state, s2, self.state);
            }
            p = p + 1;
        }
        let ghost g2 = given(self.state);
        let mut d: usize = 0;
        while d < target_dep_ids.len()
            invariant
                self.graph == old(self).graph,
                self.project_name == old(self).project_name,
                self.graph.wf(),
                grows(old(self).state, self.state),
                objs == self.graph.objs(),
                dv == ids_view(target_dep_ids@),
                ids == ids_view(identifiers@),
                d <= target_dep_ids@.len(),
                given(self.state) == dependencies_fold(objs, g2, dv, ids, d as int),
            decreases target_dep_ids.len() - d,
        {
            let ghost s2 = self.state;
            self.generate_target_dependency_references(target_dep_ids[d].as_str(), &identifiers);
            proof {
                lemma_grows_trans(old(self).state, s2, self.state);
            }
            d = d + 1;
        }
    }
}

} // verus!
