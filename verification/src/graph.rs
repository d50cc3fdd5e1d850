//! The object graph of a project file: values, objects, and the graph that
//! stores objects under identifiers derived from stable keys.
use vstd::prelude::*;
use crate::smap::{entries_view, keys_sorted, lookup, key_index, has_key, lemma_lookup_at, smap_contains};
use crate::text::{push_str, push_char, push_hex_fixed, hex_fixed, chars_of, dec_int, push_dec_i64, lex_lt, str_lt, str_eq, replace_all, replace_str, string_from};
use crate::smap::{smap_find, smap_insert};

verus! {

/// A value stored in a field of a project object.
pub enum PbxValue {
    Int(i64),
    String(String),
    Ref { id: String, comment: Option<String> },
    Array(Vec<PbxValue>),
    Dict(Vec<(String, PbxValue)>),
}

/// The mathematical form of a [`PbxValue`].
pub enum PVal {
    Int(int),
    Str(Seq<char>),
    Ref(Seq<char>, Option<Seq<char>>),
    Array(Seq<PVal>),
    Dict(Seq<(Seq<char>, PVal)>),
}

/// The view of an optional string.
pub open spec fn opt_view(o: Option<String>) -> Option<Seq<char>> {
    match o {
        Some(s) => Some(s@),
        None => None,
    }
}

/// The view of a value.
pub open spec fn value_view(v: &PbxValue) -> PVal
    decreases v,
{
    match v {
        PbxValue::Int(i) => PVal::Int(*i as int),
        PbxValue::String(s) => PVal::Str(s@),
        PbxValue::Ref { id, comment } => PVal::Ref(id@, opt_view(*comment)),
        PbxValue::Array(items) => PVal::Array(items_view(items@, items@.len() as int)),
        PbxValue::Dict(entries) => PVal::Dict(dict_view(entries@, entries@.len() as int)),
    }
}

/// The views of the first `n` values of a sequence.
pub open spec fn items_view(items: Seq<PbxValue>, n: int) -> Seq<PVal>
    decreases items, n,
{
    if n <= 0 || n > items.len() {
        Seq::empty()
    } else {
        items_view(items, n - 1).push(value_view(&items[n - 1]))
    }
}

/// The views of the first `n` entries of a dictionary.
pub open spec fn dict_view(entries: Seq<(String, PbxValue)>, n: int) -> Seq<(Seq<char>, PVal)>
    decreases entries, n,
{
    if n <= 0 || n > entries.len() {
        Seq::empty()
    } else {
        dict_view(entries, n - 1).push((entries[n - 1].0@, value_view(&entries[n - 1].1)))
    }
}

impl View for PbxValue {
    type V = PVal;

    open spec fn view(&self) -> PVal {
        value_view(self)
    }
}

pub proof fn lemma_items_view(items: Seq<PbxValue>, n: int)
    requires
        0 <= n <= items.len(),
    ensures
        items_view(items, n).len() == n,
        forall|i: int| 0 <= i < n ==> #[trigger] items_view(items, n)[i] == value_view(&items[i]),
    decreases n,
{
    if n > 0 {
        lemma_items_view(items, n - 1);
    }
}

pub proof fn lemma_dict_view(entries: Seq<(String, PbxValue)>, n: int)
    requires
        0 <= n <= entries.len(),
    ensures
        dict_view(entries, n).len() == n,
        forall|i: int|
            0 <= i < n ==> #[trigger] dict_view(entries, n)[i] == (
                entries[i].0@,
                value_view(&entries[i].1),
            ),
    decreases n,
{
    if n > 0 {
        lemma_dict_view(entries, n - 1);
    }
}

/// The full views of a sequence of values.
pub open spec fn all_items_view(items: Seq<PbxValue>) -> Seq<PVal> {
    items_view(items, items.len() as int)
}

/// Two values whose item views agree on a prefix have equal prefix views.
proof fn lemma_items_view_ext(a: Seq<PbxValue>, b: Seq<PbxValue>, n: int)
    requires
        0 <= n <= a.len(),
        n <= b.len(),
        forall|i: int| 0 <= i < n ==> value_view(&a[i]) == value_view(&b[i]),
    ensures
        items_view(a, n) == items_view(b, n),
{
    lemma_items_view(a, n);
    lemma_items_view(b, n);
    assert(items_view(a, n) =~= items_view(b, n));
}

proof fn lemma_dict_view_ext(a: Seq<(String, PbxValue)>, b: Seq<(String, PbxValue)>, n: int)
    requires
        0 <= n <= a.len(),
        n <= b.len(),
        forall|i: int|
            0 <= i < n ==> a[i].0@ == b[i].0@ && value_view(&a[i].1) == value_view(&b[i].1),
    ensures
        dict_view(a, n) == dict_view(b, n),
{
    lemma_dict_view(a, n);
    lemma_dict_view(b, n);
    assert(dict_view(a, n) =~= dict_view(b, n));
}

/// A copy of an optional string.
pub fn copy_opt(o: &Option<String>) -> (r: Option<String>)
    ensures
        opt_view(r) == opt_view(*o),
{
    match o {
        Some(s) => Some(s.clone()),
        None => None,
    }
}

/// A deep copy of a value.
pub fn copy_value(v: &PbxValue) -> (r: PbxValue)
    ensures
        r@ == v@,
    decreases v,
{
    match v {
        PbxValue::Int(i) => PbxValue::Int(*i),
        PbxValue::String(s) => PbxValue::String(s.clone()),
        PbxValue::Ref { id, comment } => PbxValue::Ref { id: id.clone(), comment: copy_opt(comment) },
        PbxValue::Array(items) => {
            let mut out: Vec<PbxValue> = Vec::new();
            let mut i: usize = 0;
            while i < items.len()
                invariant
                    *v == PbxValue::Array(*items),
                    i <= items@.len(),
                    out@.len() == i,
                    forall|j: int| 0 <= j < i ==> value_view(&out@[j]) == value_view(&items@[j]),
                decreases items.len() - i,
            {
                proof {
                    assert(decreases_to!(*v => v->Array_0));
                    assert(decreases_to!(*items => items@));
                    assert(decreases_to!(items@ => items@[i as int]));
                }
                let c = copy_value(&items[i]);
                out.push(c);
                i = i + 1;
            }
            proof {
                lemma_items_view_ext(out@, items@, items@.len() as int);
            }
            PbxValue::Array(out)
        }
        PbxValue::Dict(entries) => {
            let mut out: Vec<(String, PbxValue)> = Vec::new();
            let mut i: usize = 0;
            while i < entries.len()
                invariant
                    *v == PbxValue::Dict(*entries),
                    i <= entries@.len(),
                    out@.len() == i,
                    forall|j: int|
                        0 <= j < i ==> out@[j].0@ == entries@[j].0@ && value_view(&out@[j].1)
                            == value_view(&entries@[j].1),
                decreases entries.len() - i,
            {
                proof {
                    assert(decreases_to!(*v => v->Dict_0));
                    assert(decreases_to!(*entries => entries@));
                    assert(decreases_to!(entries@ => entries@[i as int]));
                    assert(decreases_to!(entries@[i as int] => entries@[i as int].1));
                }
                let c = copy_value(&entries[i].1);
                out.push((entries[i].0.clone(), c));
                i = i + 1;
            }
            proof {
                lemma_dict_view_ext(out@, entries@, entries@.len() as int);
            }
            PbxValue::Dict(out)
        }
    }
}

/// Equality of two optional strings by content.
pub fn opt_eq(a: &Option<String>, b: &Option<String>) -> (r: bool)
    ensures
        r == (opt_view(*a) == opt_view(*b)),
{
    match (a, b) {
        (Some(x), Some(y)) => *x == *y,
        (None, None) => true,
        _ => false,
    }
}

/// Equality of two values by content (the derived `==` of the value type).
pub fn value_eq(a: &PbxValue, b: &PbxValue) -> (r: bool)
    ensures
        r == (a@ == b@),
    decreases a,
{
    match (a, b) {
        (PbxValue::Int(x), PbxValue::Int(y)) => *x == *y,
        (PbxValue::String(x), PbxValue::String(y)) => *x == *y,
        (PbxValue::Ref { id: i1, comment: c1 }, PbxValue::Ref { id: i2, comment: c2 }) => {
            *i1 == *i2 && opt_eq(c1, c2)
        }
        (PbxValue::Array(xs), PbxValue::Array(ys)) => {
            proof {
                lemma_items_view(xs@, xs@.len() as int);
                lemma_items_view(ys@, ys@.len() as int);
            }
            if xs.len() != ys.len() {
                return false;
            }
            let mut i: usize = 0;
            while i < xs.len()
                invariant
                    *a == PbxValue::Array(*xs),
                    *b == PbxValue::Array(*ys),
                    xs@.len() == ys@.len(),
                    i <= xs@.len(),
                    forall|j: int| 0 <= j < i ==> value_view(&xs@[j]) == value_view(&ys@[j]),
                decreases xs.len() - i,
            {
                proof {
                    assert(decreases_to!(*a => a->Array_0));
                    assert(decreases_to!(*xs => xs@));
                    assert(decreases_to!(xs@ => xs@[i as int]));
                }
                if !value_eq(&xs[i], &ys[i]) {
                    proof {
                        lemma_items_view(xs@, xs@.len() as int);
                        lemma_items_view(ys@, ys@.len() as int);
                        assert(all_items_view(xs@)[i as int] != all_items_view(ys@)[i as int]);
                    }
                    return false;
                }
                i = i + 1;
            }
            proof {
                lemma_items_view_ext(xs@, ys@, xs@.len() as int);
            }
            true
        }
        (PbxValue::Dict(xs), PbxValue::Dict(ys)) => {
            proof {
                lemma_dict_view(xs@, xs@.len() as int);
                lemma_dict_view(ys@, ys@.len() as int);
            }
            if xs.len() != ys.len() {
                return false;
            }
            let mut i: usize = 0;
            while i < xs.len()
                invariant
                    *a == PbxValue::Dict(*xs),
                    *b == PbxValue::Dict(*ys),
                    xs@.len() == ys@.len(),
                    i <= xs@.len(),
                    forall|j: int|
                        0 <= j < i ==> xs@[j].0@ == ys@[j].0@ && value_view(&xs@[j].1)
                            == value_view(&ys@[j].1),
                decreases xs.len() - i,
            {
                proof {
                    assert(decreases_to!(*a => a->Dict_0));
                    assert(decreases_to!(*xs => xs@));
                    assert(decreases_to!(xs@ => xs@[i as int]));
                    assert(decreases_to!(xs@[i as int] => xs@[i as int].1));
                }
                if !(xs[i].0 == ys[i].0) {
                    proof {
                        lemma_dict_view(xs@, xs@.len() as int);
                        lemma_dict_view(ys@, ys@.len() as int);
                        assert(dict_view(xs@, xs@.len() as int)[i as int] != dict_view(
                            ys@,
                            ys@.len() as int,
                        )[i as int]);
                    }
                    return false;
                }
                if !value_eq(&xs[i].1, &ys[i].1) {
                    proof {
                        lemma_dict_view(xs@, xs@.len() as int);
                        lemma_dict_view(ys@, ys@.len() as int);
                        assert(dict_view(xs@, xs@.len() as int)[i as int] != dict_view(
                            ys@,
                            ys@.len() as int,
                        )[i as int]);
                    }
                    return false;
                }
                i = i + 1;
            }
            proof {
                lemma_dict_view_ext(xs@, ys@, xs@.len() as int);
            }
            true
        }
        _ => false,
    }
}

} // verus!

verus! {

/// The 64-bit FNV-1a hash of `bytes`, continuing from `h`.
pub open spec fn fnv_hash(bytes: Seq<u8>, h: u64) -> u64
    decreases bytes.len(),
{
    if bytes.len() == 0 {
        h
    } else {
        fnv_hash(bytes.drop_first(), (h ^ (bytes[0] as u64)).wrapping_mul(0x100000001b3u64))
    }
}

/// `h` rotated left by 17 bits.
pub open spec fn rotl17(h: u64) -> u64 {
    (h << 17u64) | (h >> 47u64)
}

/// The identifier of an object stored under a key: sixteen hexadecimal
/// digits of the FNV-1a hash of the key's UTF-8 bytes, then eight digits of
/// a mix of that hash.
pub open spec fn object_id_spec(key: Seq<char>, salt: u64) -> Seq<char> {
    let h = fnv_hash(vstd::utf8::encode_utf8(key), 0xcbf29ce484222325u64 ^ salt);
    let second = rotl17(h) ^ 0x9e3779b97f4a7c15u64;
    hex_fixed(h as nat, 16) + hex_fixed((second as u32) as nat, 8)
}

proof fn lemma_fnv_step(bytes: Seq<u8>, i: int, h: u64)
    requires
        0 <= i < bytes.len(),
    ensures
        fnv_hash(bytes.skip(i), h) == fnv_hash(
            bytes.skip(i + 1),
            (h ^ (bytes[i] as u64)).wrapping_mul(0x100000001b3u64),
        ),
{
    assert(bytes.skip(i).drop_first() =~= bytes.skip(i + 1));
}

/// The identifier for `key` with the given salt.
pub fn object_id(key: &str, salt: u64) -> (r: String)
    ensures
        r@ == object_id_spec(key@, salt),
{
    let bytes = key.as_bytes();
    let ghost all = bytes@;
    let mut hash: u64 = 0xcbf29ce484222325u64 ^ salt;
    let mut i: usize = 0;
    proof {
        assert(all.skip(0) =~= all);
    }
    while i < bytes.len()
        invariant
            bytes@ == all,
            all == vstd::utf8::encode_utf8(key@),
            i <= all.len(),
            fnv_hash(all, 0xcbf29ce484222325u64 ^ salt) == fnv_hash(all.skip(i as int), hash),
        decreases bytes.len() - i,
    {
        proof {
            lemma_fnv_step(all, i as int, hash);
        }
        hash = (hash ^ (bytes[i] as u64)).wrapping_mul(0x100000001b3u64);
        i = i + 1;
    }
    proof {
        assert(all.skip(i as int).len() == 0);
    }
    let second: u64 = ((hash << 17u64) | (hash >> 47u64)) ^ 0x9e3779b97f4a7c15u64;
    let mut out = String::new();
    push_hex_fixed(&mut out, hash, 16);
    let low: u32 = second as u32;
    push_hex_fixed(&mut out, low as u64, 8);
    out
}

/// The identifier written for `id`: its mapped form when the map holds it,
/// otherwise the identifier itself.
pub open spec fn mapped(id: Seq<char>, id_map: Seq<(Seq<char>, Seq<char>)>) -> Seq<char> {
    match lookup(id_map, id) {
        Some(m) => m,
        None => id,
    }
}

/// The identifier written for `id` under an identifier map.
pub fn mapped_id(id: &str, id_map: &Vec<(String, String)>) -> (r: String)
    requires
        keys_sorted(entries_view(id_map@)),
    ensures
        r@ == mapped(id@, entries_view(id_map@)),
{
    match smap_find(id_map, id) {
        Some(i) => id_map[i].1.clone(),
        None => id.to_owned(),
    }
}

/// A run of `n` tab characters.
pub open spec fn tabs(n: nat) -> Seq<char> {
    Seq::new(n, |i: int| '\t')
}

/// Appends `indent` tab characters.
pub fn write_tabs(output: &mut String, indent: usize)
    ensures
        final(output)@ == old(output)@ + tabs(indent as nat),
{
    let ghost start = output@;
    let mut i: usize = 0;
    while i < indent
        invariant
            i <= indent,
            output@ == start + tabs(i as nat),
        decreases indent - i,
    {
        push_char(output, '\t');
        i = i + 1;
        proof {
            assert(tabs(i as nat) =~= tabs((i - 1) as nat).push('\t'));
        }
    }
}

/// Characters that may stand unquoted in a project file.
pub open spec fn bare_char(c: char) -> bool {
    ('a' <= c <= 'z') || ('A' <= c <= 'Z') || ('0' <= c <= '9') || c == '_' || c == '.' || c == '/'
        || c == '$'
}

/// A character as it stands inside a quoted string.
pub open spec fn quote_escape(c: char) -> Seq<char> {
    if c == '\\' {
        seq!['\\', '\\']
    } else if c == '"' {
        seq!['\\', '"']
    } else if c == '\n' {
        seq!['\\', 'n']
    } else if c == '\r' {
        seq!['\\', 'r']
    } else {
        seq![c]
    }
}

/// A string as it is written in a project file: `""` when empty, bare when
/// every character may stand bare, otherwise quoted with escapes.
pub open spec fn quote_spec(s: Seq<char>) -> Seq<char> {
    if s.len() == 0 {
        seq!['"', '"']
    } else if forall|i: int| 0 <= i < s.len() ==> bare_char(#[trigger] s[i]) {
        s
    } else {
        seq!['"'] + s.flat_map(|c: char| quote_escape(c)) + seq!['"']
    }
}

fn is_bare_char(c: char) -> (r: bool)
    ensures
        r == bare_char(c),
{
    ('a' <= c && c <= 'z') || ('A' <= c && c <= 'Z') || ('0' <= c && c <= '9') || c == '_' || c
        == '.' || c == '/' || c == '$'
}

/// Appends the escaped form of each character.
pub fn push_escaped(out: &mut String, chars: &Vec<char>)
    ensures
        final(out)@ == old(out)@ + chars@.flat_map(|c: char| quote_escape(c)),
{
    let ghost start = out@;
    let mut i: usize = 0;
    proof {
        assert(chars@.take(0).flat_map(|c: char| quote_escape(c)) =~= Seq::<char>::empty());
    }
    while i < chars.len()
        invariant
            i <= chars@.len(),
            out@ == start + chars@.take(i as int).flat_map(|c: char| quote_escape(c)),
        decreases chars.len() - i,
    {
        let c = chars[i];
        if c == '\\' {
            push_str(out, "\\\\");
        } else if c == '"' {
            push_str(out, "\\\"");
        } else if c == '\n' {
            push_str(out, "\\n");
        } else if c == '\r' {
            push_str(out, "\\r");
        } else {
            push_char(out, c);
        }
        proof {
            reveal_strlit("\\\\");
            reveal_strlit("\\\"");
            reveal_strlit("\\n");
            reveal_strlit("\\r");
            assert(chars@.take(i + 1) =~= chars@.take(i as int).push(c));
            chars@.take(i as int).lemma_flat_map_push(|c: char| quote_escape(c), c);
        }
        i = i + 1;
    }
    proof {
        assert(chars@.take(chars@.len() as int) =~= chars@);
    }
}

/// Appends a string as it is written in a project file.
pub fn push_quoted(out: &mut String, value: &str)
    ensures
        final(out)@ == old(out)@ + quote_spec(value@),
{
    let chars = chars_of(value);
    if chars.len() == 0 {
        push_str(out, "\"\"");
        proof {
            reveal_strlit("\"\"");
        }
        return;
    }
    let mut bare = true;
    let mut i: usize = 0;
    while i < chars.len()
        invariant
            i <= chars@.len(),
            bare == (forall|j: int| 0 <= j < i ==> bare_char(#[trigger] chars@[j])),
        decreases chars.len() - i,
    {
        bare = bare && is_bare_char(chars[i]);
        i = i + 1;
    }
    if bare {
        push_str(out, value);
    } else {
        push_char(out, '"');
        push_escaped(out, &chars);
        push_char(out, '"');
        proof {
            assert(quote_spec(value@) =~= seq!['"'] + chars@.flat_map(|c: char| quote_escape(c))
                + seq!['"']);
        }
    }
}

/// A string as it is written in a project file.
pub fn quote(value: &str) -> (r: String)
    ensures
        r@ == quote_spec(value@),
{
    let mut out = String::new();
    push_quoted(&mut out, value);
    out
}

/// Upper-case hexadecimal digit characters.
pub open spec fn hex_digit_char(c: char) -> bool {
    ('0' <= c <= '9') || ('a' <= c <= 'f') || ('A' <= c <= 'F')
}

/// A dictionary key as written: a 24-digit hexadecimal identifier stands
/// bare, anything else is quoted.
pub open spec fn quote_key_spec(s: Seq<char>) -> Seq<char> {
    if s.len() == 24 && forall|i: int| 0 <= i < s.len() ==> hex_digit_char(#[trigger] s[i]) {
        s
    } else {
        quote_spec(s)
    }
}

/// A dictionary key as written in a project file.
pub fn quote_pbx_key(value: &str) -> (r: String)
    ensures
        r@ == quote_key_spec(value@),
{
    let chars = chars_of(value);
    let mut hex = chars.len() == 24;
    let mut i: usize = 0;
    while i < chars.len()
        invariant
            i <= chars@.len(),
            chars@ == value@,
            hex == (chars@.len() == 24 && forall|j: int| 0 <= j < i ==> hex_digit_char(#[trigger] chars@[j])),
        decreases chars.len() - i,
    {
        let c = chars[i];
        hex = hex && (('0' <= c && c <= '9') || ('a' <= c && c <= 'f') || ('A' <= c && c <= 'F'));
        i = i + 1;
    }
    if hex {
        value.to_owned()
    } else {
        quote(value)
    }
}

} // verus!

verus! {

/// The comment written after a reference: an empty explicit comment writes
/// none, an explicit one is written as given, and a missing one falls back
/// to the graph's comment for the identifier.
pub open spec fn ref_comment(
    id: Seq<char>,
    comment: Option<Seq<char>>,
    comments: Seq<(Seq<char>, Seq<char>)>,
) -> Option<Seq<char>> {
    match comment {
        Some(c) => if c.len() == 0 { None } else { Some(c) },
        None => lookup(comments, id),
    }
}

/// A reference as written: its mapped identifier, then its comment.
pub open spec fn ref_text(
    id: Seq<char>,
    comment: Option<Seq<char>>,
    comments: Seq<(Seq<char>, Seq<char>)>,
    id_map: Seq<(Seq<char>, Seq<char>)>,
) -> Seq<char> {
    mapped(id, id_map) + match ref_comment(id, comment, comments) {
        Some(c) => seq![' ', '/', '*', ' '] + c + seq![' ', '*', '/'],
        None => Seq::empty(),
    }
}

/// Appends a reference as written.
pub fn write_ref(
    output: &mut String,
    id: &String,
    comment: &Option<String>,
    comments: &Vec<(String, String)>,
    id_map: &Vec<(String, String)>,
)
    requires
        keys_sorted(entries_view(comments@)),
        keys_sorted(entries_view(id_map@)),
    ensures
        final(output)@ == old(output)@ + ref_text(
            id@,
            opt_view(*comment),
            entries_view(comments@),
            entries_view(id_map@),
        ),
{
    let m = mapped_id(id.as_str(), id_map);
    output.append(m.as_str());
    let c: Option<String> = match comment {
        Some(c) => if c.as_str().is_empty() { None } else { Some(c.clone()) },
        None => match smap_find(comments, id.as_str()) {
            Some(i) => Some(comments[i].1.clone()),
            None => None,
        },
    };
    if let Some(c) = c {
        push_str(output, " /* ");
        output.append(c.as_str());
        push_str(output, " */");
        proof {
            reveal_strlit(" /* ");
            reveal_strlit(" */");
        }
    }
}

} // verus!

verus! {

/// The key by which a dictionary entry is ordered when written.
pub open spec fn entry_key(
    es: Seq<(Seq<char>, PVal)>,
    j: int,
    id_map: Seq<(Seq<char>, Seq<char>)>,
) -> Seq<char> {
    mapped(es[j].0, id_map)
}

/// Stable insertion of entry `j` into an ordering of entries.
pub open spec fn ins_index(
    s: Seq<int>,
    j: int,
    es: Seq<(Seq<char>, PVal)>,
    id_map: Seq<(Seq<char>, Seq<char>)>,
) -> Seq<int>
    decreases s.len(),
{
    if s.len() == 0 {
        seq![j]
    } else if lex_lt(entry_key(es, j, id_map), entry_key(es, s.last(), id_map)) {
        ins_index(s.drop_last(), j, es, id_map).push(s.last())
    } else {
        s.push(j)
    }
}

/// The order in which the first `n` entries of a dictionary are written:
/// stably sorted by their mapped keys.
pub open spec fn sort_order(
    es: Seq<(Seq<char>, PVal)>,
    id_map: Seq<(Seq<char>, Seq<char>)>,
    n: int,
) -> Seq<int>
    decreases n,
{
    if n <= 0 {
        Seq::empty()
    } else {
        ins_index(sort_order(es, id_map, n - 1), n - 1, es, id_map)
    }
}

proof fn lemma_ins_index(
    s: Seq<int>,
    j: int,
    es: Seq<(Seq<char>, PVal)>,
    id_map: Seq<(Seq<char>, Seq<char>)>,
    p: int,
)
    requires
        0 <= p <= s.len(),
        forall|q: int| p <= q < s.len() ==> lex_lt(entry_key(es, j, id_map), #[trigger] entry_key(es, s[q], id_map)),
        p > 0 ==> !lex_lt(entry_key(es, j, id_map), entry_key(es, s[p - 1], id_map)),
    ensures
        ins_index(s, j, es, id_map) == s.take(p).push(j) + s.skip(p),
    decreases s.len(),
{
    if s.len() == 0 {
        assert(s.take(p).push(j) + s.skip(p) =~= seq![j]);
    } else if p == s.len() {
        assert(s.take(p) =~= s);
        assert(s.take(p).push(j) + s.skip(p) =~= s.push(j));
    } else {
        assert(entry_key(es, s[s.len() - 1], id_map) == entry_key(es, s.last(), id_map));
        let d = s.drop_last();
        assert forall|q: int| p <= q < d.len() implies lex_lt(entry_key(es, j, id_map), #[trigger] entry_key(es, d[q], id_map)) by {
            assert(d[q] == s[q]);
        }
        if p > 0 {
            assert(d[p - 1] == s[p - 1]);
        }
        lemma_ins_index(d, j, es, id_map, p);
        assert(d.take(p) =~= s.take(p));
        assert(d.skip(p).push(s.last()) =~= s.skip(p));
        assert((d.take(p).push(j) + d.skip(p)).push(s.last()) =~= s.take(p).push(j) + s.skip(p));
    }
}

/// The positions of a dictionary's entries in the order they are written.
pub fn dict_write_order(entries: &Vec<(String, PbxValue)>, id_map: &Vec<(String, String)>) -> (order: Vec<usize>)
    requires
        keys_sorted(entries_view(id_map@)),
    ensures
        order@.map_values(|x: usize| x as int) == sort_order(
            dict_view(entries@, entries@.len() as int),
            entries_view(id_map@),
            entries@.len() as int,
        ),
        forall|k: int| 0 <= k < order@.len() ==> #[trigger] order@[k] < entries@.len(),
        order@.len() == entries@.len(),
{
    let ghost es = dict_view(entries@, entries@.len() as int);
    let ghost m = entries_view(id_map@);
    proof {
        lemma_dict_view(entries@, entries@.len() as int);
    }
    let mut order: Vec<usize> = Vec::new();
    let mut keys: Vec<String> = Vec::new();
    let mut i: usize = 0;
    while i < entries.len()
        invariant
            es == dict_view(entries@, entries@.len() as int),
            m == entries_view(id_map@),
            keys_sorted(m),
            es.len() == entries@.len(),
            forall|q: int| 0 <= q < es.len() ==> #[trigger] es[q].0 == entries@[q].0@,
            i <= entries@.len(),
            order@.len() == keys@.len(),
            order@.len() == i,
            forall|k: int| 0 <= k < order@.len() ==> #[trigger] order@[k] < i,
            forall|k: int| 0 <= k < keys@.len() ==> #[trigger] keys@[k]@ == entry_key(es, order@[k] as int, m),
            order@.map_values(|x: usize| x as int) == sort_order(es, m, i as int),
        decreases entries.len() - i,
    {
        let key = mapped_id(entries[i].0.as_str(), id_map);
        let mut p: usize = order.len();
        while p > 0 && str_lt(key.as_str(), keys[p - 1].as_str())
            invariant
                p <= order@.len(),
                order@.len() == keys@.len(),
                forall|k: int| 0 <= k < keys@.len() ==> #[trigger] keys@[k]@ == entry_key(es, order@[k] as int, m),
                key@ == entry_key(es, i as int, m),
                forall|q: int| p <= q < order@.len() ==> lex_lt(key@, #[trigger] keys@[q]@),
            decreases p,
        {
            p = p - 1;
        }
        let ghost old_order = order@.map_values(|x: usize| x as int);
        proof {
            let s = old_order;
            assert forall|q: int| p <= q < s.len() implies lex_lt(entry_key(es, i as int, m), #[trigger] entry_key(es, s[q], m)) by {
                assert(keys@[q]@ == entry_key(es, order@[q] as int, m));
            }
            if p > 0 {
                assert(keys@[p - 1]@ == entry_key(es, s[p - 1], m));
            }
            lemma_ins_index(s, i as int, es, m, p as int);
        }
        order.insert(p, i);
        keys.insert(p, key);
        proof {
            assert(order@.map_values(|x: usize| x as int) =~= old_order.take(p as int).push(i as int) + old_order.skip(p as int));
        }
        i = i + 1;
    }
    order
}

} // verus!

verus! {

/// How deeply arrays and dictionaries nest inside a value.
pub open spec fn pdepth(v: PVal) -> nat
    decreases v,
{
    match v {
        PVal::Array(vs) => 1 + arr_depth(vs, vs.len() as int),
        PVal::Dict(es) => 1 + dict_depth(es, es.len() as int),
        _ => 0,
    }
}

/// The deepest nesting among the first `n` items.
pub open spec fn arr_depth(vs: Seq<PVal>, n: int) -> nat
    decreases vs, n,
{
    if n <= 0 || n > vs.len() {
        0
    } else {
        let a = arr_depth(vs, n - 1);
        let b = pdepth(vs[n - 1]);
        if a >= b { a } else { b }
    }
}

/// The deepest nesting among the first `n` entries.
pub open spec fn dict_depth(es: Seq<(Seq<char>, PVal)>, n: int) -> nat
    decreases es, n,
{
    if n <= 0 || n > es.len() {
        0
    } else {
        let a = dict_depth(es, n - 1);
        let b = pdepth(es[n - 1].1);
        if a >= b { a } else { b }
    }
}

pub proof fn lemma_arr_depth(vs: Seq<PVal>, n: int, i: int)
    requires
        0 <= i < n <= vs.len(),
    ensures
        pdepth(vs[i]) <= arr_depth(vs, n),
    decreases n,
{
    if i < n - 1 {
        lemma_arr_depth(vs, n - 1, i);
    }
}

pub proof fn lemma_dict_depth(es: Seq<(Seq<char>, PVal)>, n: int, i: int)
    requires
        0 <= i < n <= es.len(),
    ensures
        pdepth(es[i].1) <= dict_depth(es, n),
    decreases n,
{
    if i < n - 1 {
        lemma_dict_depth(es, n - 1, i);
    }
}

/// A value as written at an indentation level inside an object.
pub open spec fn write_spec(
    v: PVal,
    indent: nat,
    comments: Seq<(Seq<char>, Seq<char>)>,
    id_map: Seq<(Seq<char>, Seq<char>)>,
) -> Seq<char>
    decreases v,
{
    match v {
        PVal::Int(i) => dec_int(i),
        PVal::Str(s) => quote_spec(s),
        PVal::Ref(id, c) => ref_text(id, c, comments, id_map),
        PVal::Array(vs) => if vs.len() == 0 {
            seq!['(', '\n'] + tabs(indent) + seq![')']
        } else {
            seq!['(', '\n'] + array_body(vs, vs.len() as int, indent + 1, comments, id_map)
                + tabs(indent) + seq![')']
        },
        PVal::Dict(es) => if es.len() == 0 {
            seq!['{', '\n'] + tabs(indent) + seq!['}']
        } else {
            seq!['{', '\n'] + dict_body(
                es,
                sort_order(es, id_map, es.len() as int),
                es.len() as int,
                indent + 1,
                comments,
                id_map,
            ) + tabs(indent) + seq!['}']
        },
    }
}

/// The first `n` items of an array, one per line.
pub open spec fn array_body(
    vs: Seq<PVal>,
    n: int,
    indent: nat,
    comments: Seq<(Seq<char>, Seq<char>)>,
    id_map: Seq<(Seq<char>, Seq<char>)>,
) -> Seq<char>
    decreases vs, n,
{
    if n <= 0 || n > vs.len() {
        Seq::empty()
    } else {
        array_body(vs, n - 1, indent, comments, id_map) + tabs(indent) + write_spec(
            vs[n - 1],
            indent,
            comments,
            id_map,
        ) + seq![',', '\n']
    }
}

/// The first `n` entries of a dictionary in the given order, one per line.
pub open spec fn dict_body(
    es: Seq<(Seq<char>, PVal)>,
    order: Seq<int>,
    n: int,
    indent: nat,
    comments: Seq<(Seq<char>, Seq<char>)>,
    id_map: Seq<(Seq<char>, Seq<char>)>,
) -> Seq<char>
    decreases es, n,
{
    if n <= 0 || n > order.len() || !(0 <= order[n - 1] < es.len()) {
        Seq::empty()
    } else {
        dict_body(es, order, n - 1, indent, comments, id_map) + tabs(indent) + quote_key_spec(
            mapped(es[order[n - 1]].0, id_map),
        ) + seq![' ', '=', ' '] + write_spec(es[order[n - 1]].1, indent, comments, id_map)
            + seq![';', '\n']
    }
}

impl PbxValue {
    /// A reference with a comment.
    pub fn reference(id: String, comment: String) -> (r: Self)
        ensures
            r@ == PVal::Ref(id@, Some(comment@)),
    {
        PbxValue::Ref { id, comment: Some(comment) }
    }

    /// A reference written without a comment.
    pub fn uncommented_reference(id: String) -> (r: Self)
        ensures
            r@ == PVal::Ref(id@, Some(Seq::<char>::empty())),
    {
        PbxValue::Ref { id, comment: Some(String::new()) }
    }

    /// Appends the value as written at an indentation level.
    pub fn write(
        &self,
        output: &mut String,
        indent: usize,
        comments: &Vec<(String, String)>,
        id_map: &Vec<(String, String)>,
    )
        requires
            keys_sorted(entries_view(comments@)),
            keys_sorted(entries_view(id_map@)),
            indent + pdepth(self@) < usize::MAX,
        ensures
            final(output)@ == old(output)@ + write_spec(
                self@,
                indent as nat,
                entries_view(comments@),
                entries_view(id_map@),
            ),
        decreases self,
    {
        let ghost cm = entries_view(comments@);
        let ghost im = entries_view(id_map@);
        match self {
            PbxValue::Int(value) => {
                push_dec_i64(output, *value);
            }
            PbxValue::String(value) => {
                push_quoted(output, value.as_str());
            }
            PbxValue::Ref { id, comment } => {
                write_ref(output, id, comment, comments, id_map);
            }
            PbxValue::Array(values) => {
                proof {
                    lemma_items_view(values@, values@.len() as int);
                    reveal_strlit("(\n");
                }
                push_str(output, "(\n");
                let ghost start = output@;
                let ghost vs = items_view(values@, values@.len() as int);
                let mut i: usize = 0;
                while i < values.len()
                    invariant
                        *self == PbxValue::Array(*values),
                        vs == items_view(values@, values@.len() as int),
                        vs.len() == values@.len(),
                        forall|q: int| 0 <= q < vs.len() ==> #[trigger] vs[q] == value_view(&values@[q]),
                        cm == entries_view(comments@),
                        im == entries_view(id_map@),
                        keys_sorted(cm),
                        keys_sorted(im),
                        indent + pdepth(self@) < usize::MAX,
                        i <= values@.len(),
                        output@ == start + array_body(vs, i as int, (indent + 1) as nat, cm, im),
                    decreases values.len() - i,
                {
                    proof {
                        assert(decreases_to!(*self => self->Array_0));
                        assert(decreases_to!(*values => values@));
                        assert(decreases_to!(values@ => values@[i as int]));
                        reveal_strlit(",\n");
                        lemma_arr_depth(vs, vs.len() as int, i as int);
                    }
                    write_tabs(output, indent + 1);
                    values[i].write(output, indent + 1, comments, id_map);
                    push_str(output, ",\n");
                    i = i + 1;
                }
                write_tabs(output, indent);
                push_char(output, ')');
            }
            PbxValue::Dict(values) => {
                proof {
                    lemma_dict_view(values@, values@.len() as int);
                    reveal_strlit("{\n");
                }
                push_str(output, "{\n");
                let order = dict_write_order(values, id_map);
                let ghost es = dict_view(values@, values@.len() as int);
                let ghost ord = order@.map_values(|x: usize| x as int);
                let ghost start = output@;
                let mut k: usize = 0;
                while k < order.len()
                    invariant
                        *self == PbxValue::Dict(*values),
                        es == dict_view(values@, values@.len() as int),
                        es.len() == values@.len(),
                        forall|q: int| 0 <= q < es.len() ==> #[trigger] es[q] == (values@[q].0@, value_view(&values@[q].1)),
                        ord == order@.map_values(|x: usize| x as int),
                        forall|q: int| 0 <= q < order@.len() ==> #[trigger] order@[q] < values@.len(),
                        cm == entries_view(comments@),
                        im == entries_view(id_map@),
                        keys_sorted(cm),
                        keys_sorted(im),
                        indent + pdepth(self@) < usize::MAX,
                        k <= order@.len(),
                        output@ == start + dict_body(es, ord, k as int, (indent + 1) as nat, cm, im),
                    decreases order.len() - k,
                {
                    let j = order[k];
                    proof {
                        assert(decreases_to!(*self => self->Dict_0));
                        assert(decreases_to!(*values => values@));
                        assert(decreases_to!(values@ => values@[j as int]));
                        assert(decreases_to!(values@[j as int] => values@[j as int].1));
                        assert(ord[k as int] == j as int);
                        lemma_dict_depth(es, es.len() as int, j as int);
                        reveal_strlit(" = ");
                        reveal_strlit(";\n");
                    }
                    write_tabs(output, indent + 1);
                    let key = mapped_id(values[j].0.as_str(), id_map);
                    let quoted = quote_pbx_key(key.as_str());
                    output.append(quoted.as_str());
                    push_str(output, " = ");
                    values[j].1.write(output, indent + 1, comments, id_map);
                    push_str(output, ";\n");
                    k = k + 1;
                }
                write_tabs(output, indent);
                push_char(output, '}');
            }
        }
    }
}

} // verus!

verus! {

/// The two views of a dictionary's entries agree.
pub proof fn lemma_dict_view_entries(s: Seq<(String, PbxValue)>)
    ensures
        dict_view(s, s.len() as int) == entries_view(s),
{
    lemma_dict_view(s, s.len() as int);
    assert(dict_view(s, s.len() as int) =~= entries_view(s));
}

/// A value as written on one line inside a file or build file entry.
pub open spec fn compact_spec(
    v: PVal,
    comments: Seq<(Seq<char>, Seq<char>)>,
    id_map: Seq<(Seq<char>, Seq<char>)>,
    field_key: Seq<char>,
) -> Seq<char>
    decreases v,
{
    match v {
        PVal::Int(i) => dec_int(i),
        PVal::Str(s) => if field_key == "remoteGlobalIDString"@ {
            mapped(s, id_map)
        } else {
            quote_spec(s)
        },
        PVal::Ref(id, c) => ref_text(id, c, comments, id_map),
        PVal::Array(vs) => seq!['('] + compact_arr(vs, vs.len() as int, comments, id_map, field_key)
            + seq![')'],
        PVal::Dict(es) => seq!['{'] + compact_dict(es, es.len() as int, comments, id_map) + seq![
            '}',
        ],
    }
}

/// The first `n` items of an array on one line, each followed by `, `.
pub open spec fn compact_arr(
    vs: Seq<PVal>,
    n: int,
    comments: Seq<(Seq<char>, Seq<char>)>,
    id_map: Seq<(Seq<char>, Seq<char>)>,
    field_key: Seq<char>,
) -> Seq<char>
    decreases vs, n,
{
    if n <= 0 || n > vs.len() {
        Seq::empty()
    } else {
        compact_arr(vs, n - 1, comments, id_map, field_key) + compact_spec(
            vs[n - 1],
            comments,
            id_map,
            field_key,
        ) + seq![',', ' ']
    }
}

/// The first `n` entries of a dictionary on one line, each as `key = value; `.
pub open spec fn compact_dict(
    es: Seq<(Seq<char>, PVal)>,
    n: int,
    comments: Seq<(Seq<char>, Seq<char>)>,
    id_map: Seq<(Seq<char>, Seq<char>)>,
) -> Seq<char>
    decreases es, n,
{
    if n <= 0 || n > es.len() {
        Seq::empty()
    } else {
        compact_dict(es, n - 1, comments, id_map) + es[n - 1].0 + seq![' ', '=', ' ']
            + compact_spec(es[n - 1].1, comments, id_map, es[n - 1].0) + seq![';', ' ']
    }
}

/// Appends a value written on one line; `field_key` is the field it belongs to.
pub fn write_compact_value(
    value: &PbxValue,
    output: &mut String,
    comments: &Vec<(String, String)>,
    id_map: &Vec<(String, String)>,
    field_key: &str,
)
    requires
        keys_sorted(entries_view(comments@)),
        keys_sorted(entries_view(id_map@)),
    ensures
        final(output)@ == old(output)@ + compact_spec(
            value@,
            entries_view(comments@),
            entries_view(id_map@),
            field_key@,
        ),
    decreases value,
{
    let ghost cm = entries_view(comments@);
    let ghost im = entries_view(id_map@);
    match value {
        PbxValue::Int(v) => {
            push_dec_i64(output, *v);
        }
        PbxValue::String(v) => {
            if str_eq(field_key, "remoteGlobalIDString") {
                let m = mapped_id(v.as_str(), id_map);
                output.append(m.as_str());
            } else {
                push_quoted(output, v.as_str());
            }
        }
        PbxValue::Ref { id, comment } => {
            write_ref(output, id, comment, comments, id_map);
        }
        PbxValue::Array(values) => {
            proof {
                lemma_items_view(values@, values@.len() as int);
            }
            push_char(output, '(');
            let ghost start = output@;
            let ghost vs = items_view(values@, values@.len() as int);
            let mut i: usize = 0;
            while i < values.len()
                invariant
                    *value == PbxValue::Array(*values),
                    vs == items_view(values@, values@.len() as int),
                    vs.len() == values@.len(),
                    forall|q: int| 0 <= q < vs.len() ==> #[trigger] vs[q] == value_view(&values@[q]),
                    cm == entries_view(comments@),
                    im == entries_view(id_map@),
                    keys_sorted(cm),
                    keys_sorted(im),
                    i <= values@.len(),
                    output@ == start + compact_arr(vs, i as int, cm, im, field_key@),
                decreases values.len() - i,
            {
                proof {
                    assert(decreases_to!(*value => value->Array_0));
                    assert(decreases_to!(*values => values@));
                    assert(decreases_to!(values@ => values@[i as int]));
                    reveal_strlit(", ");
                }
                write_compact_value(&values[i], output, comments, id_map, field_key);
                push_str(output, ", ");
                i = i + 1;
            }
            push_char(output, ')');
        }
        PbxValue::Dict(values) => {
            proof {
                lemma_dict_view(values@, values@.len() as int);
            }
            push_char(output, '{');
            let ghost start = output@;
            let ghost es = dict_view(values@, values@.len() as int);
            let mut i: usize = 0;
            while i < values.len()
                invariant
                    *value == PbxValue::Dict(*values),
                    es == dict_view(values@, values@.len() as int),
                    es.len() == values@.len(),
                    forall|q: int| 0 <= q < es.len() ==> #[trigger] es[q] == (values@[q].0@, value_view(&values@[q].1)),
                    cm == entries_view(comments@),
                    im == entries_view(id_map@),
                    keys_sorted(cm),
                    keys_sorted(im),
                    i <= values@.len(),
                    output@ == start + compact_dict(es, i as int, cm, im),
                decreases values.len() - i,
            {
                proof {
                    assert(decreases_to!(*value => value->Dict_0));
                    assert(decreases_to!(*values => values@));
                    assert(decreases_to!(values@ => values@[i as int]));
                    assert(decreases_to!(values@[i as int] => values@[i as int].1));
                    reveal_strlit(" = ");
                    reveal_strlit("; ");
                }
                output.append(values[i].0.as_str());
                push_str(output, " = ");
                write_compact_value(&values[i].1, output, comments, id_map, values[i].0.as_str());
                push_str(output, "; ");
                i = i + 1;
            }
            push_char(output, '}');
        }
    }
}

} // verus!

verus! {

/// An object of the project file: its class, the comment written after its
/// identifier, and its fields in key order.
pub struct PbxObject {
    pub isa: String,
    pub comment: Option<String>,
    pub fields: Vec<(String, PbxValue)>,
}

/// The mathematical form of a [`PbxObject`].
pub struct OView {
    pub isa: Seq<char>,
    pub comment: Option<Seq<char>>,
    pub fields: Seq<(Seq<char>, PVal)>,
}

impl View for PbxObject {
    type V = OView;

    open spec fn view(&self) -> OView {
        OView { isa: self.isa@, comment: opt_view(self.comment), fields: entries_view(self.fields@) }
    }
}

impl PbxObject {
    /// The fields are kept in key order.
    pub open spec fn wf(&self) -> bool {
        keys_sorted(entries_view(self.fields@))
    }

    /// An object of class `isa` with a comment and no fields.
    pub fn new(isa: &str, comment: String) -> (r: Self)
        ensures
            r.wf(),
            r@ == (OView { isa: isa@, comment: Some(comment@), fields: Seq::empty() }),
    {
        let r = PbxObject { isa: isa.to_owned(), comment: Some(comment), fields: Vec::new() };
        proof {
            assert(entries_view(r.fields@) =~= Seq::<(Seq<char>, PVal)>::empty());
        }
        r
    }

    /// The object with `key` set to `value`.
    pub fn field(self, key: &str, value: PbxValue) -> (r: Self)
        requires
            self.wf(),
        ensures
            r.wf(),
            r@.isa == self@.isa,
            r@.comment == self@.comment,
            forall|k: Seq<char>|
                #[trigger] lookup(r@.fields, k) == if k == key@ {
                    Some(value@)
                } else {
                    lookup(self@.fields, k)
                },
    {
        let mut s = self;
        smap_insert(&mut s.fields, key.to_owned(), value);
        s
    }
}

/// A deep copy of an object.
pub fn copy_object(o: &PbxObject) -> (r: PbxObject)
    ensures
        r@ == o@,
{
    let mut fields: Vec<(String, PbxValue)> = Vec::new();
    let mut i: usize = 0;
    while i < o.fields.len()
        invariant
            i <= o.fields@.len(),
            fields@.len() == i,
            forall|q: int| 0 <= q < i ==> #[trigger] fields@[q].0@ == o.fields@[q].0@ && fields@[q].1@ == o.fields@[q].1@,
        decreases o.fields.len() - i,
    {
        fields.push((o.fields[i].0.clone(), copy_value(&o.fields[i].1)));
        i = i + 1;
    }
    let r = PbxObject { isa: o.isa.clone(), comment: copy_opt(&o.comment), fields };
    proof {
        assert(entries_view(r.fields@) =~= entries_view(o.fields@));
    }
    r
}

/// Capital ASCII letters.
pub open spec fn is_capital() -> spec_fn(char) -> bool {
    |c: char| 'A' <= c <= 'Z'
}

/// The initials of an object class: `PBX` and `XC` removed, then only the
/// capital letters kept.
pub open spec fn acronym_spec(isa: Seq<char>) -> Seq<char> {
    replace_all(replace_all(isa, "PBX"@, Seq::empty()), "XC"@, Seq::empty()).filter(is_capital())
}

/// The initials of an object class, used to seed its stable reference.
pub fn xcode_reference_acronym(isa: &str) -> (r: String)
    ensures
        r@ == acronym_spec(isa@),
{
    let a = replace_str(isa, "PBX", "");
    let b = replace_str(a.as_str(), "XC", "");
    proof {
        reveal_strlit("");
        assert(""@ =~= Seq::<char>::empty());
        assert(b@ == replace_all(replace_all(isa@, "PBX"@, Seq::empty()), "XC"@, Seq::empty()));
    }
    let cs = chars_of(b.as_str());
    let mut out = String::new();
    let mut i: usize = 0;
    while i < cs.len()
        invariant
            i <= cs@.len(),
            cs@ == b@,
            out@ == cs@.take(i as int).filter(is_capital()),
        decreases cs.len() - i,
    {
        let c = cs[i];
        proof {
            assert(cs@.take(i + 1) =~= cs@.take(i as int).push(c));
            cs@.take(i as int).lemma_filter_push(c, is_capital());
        }
        if 'A' <= c && c <= 'Z' {
            push_char(&mut out, c);
        }
        i = i + 1;
    }
    proof {
        assert(cs@.take(cs@.len() as int) =~= cs@);
    }
    out
}

} // verus!

verus! {

/// The name under which a build phase is known: fixed names for the four
/// standard phases, otherwise its `name` field, otherwise its non-empty comment.
pub open spec fn phase_name_spec(o: OView) -> Option<Seq<char>> {
    if o.isa == "PBXSourcesBuildPhase"@ {
        Some("Sources"@)
    } else if o.isa == "PBXResourcesBuildPhase"@ {
        Some("Resources"@)
    } else if o.isa == "PBXFrameworksBuildPhase"@ {
        Some("Frameworks"@)
    } else if o.isa == "PBXHeadersBuildPhase"@ {
        Some("Headers"@)
    } else {
        match lookup(o.fields, "name"@) {
            Some(PVal::Str(v)) => Some(v),
            _ => match o.comment {
                Some(c) => if c.len() > 0 { Some(c) } else { None },
                None => None,
            },
        }
    }
}

/// The name under which a build phase is known.
pub fn phase_name(object: &PbxObject) -> (r: Option<String>)
    requires
        object.wf(),
    ensures
        opt_view(r) == phase_name_spec(object@),
{
    let isa = object.isa.as_str();
    if str_eq(isa, "PBXSourcesBuildPhase") {
        return Some(string_from("Sources"));
    }
    if str_eq(isa, "PBXResourcesBuildPhase") {
        return Some(string_from("Resources"));
    }
    if str_eq(isa, "PBXFrameworksBuildPhase") {
        return Some(string_from("Frameworks"));
    }
    if str_eq(isa, "PBXHeadersBuildPhase") {
        return Some(string_from("Headers"));
    }
    match smap_find(&object.fields, "name") {
        Some(i) => {
            if let PbxValue::String(v) = &object.fields[i].1 {
                return Some(v.clone());
            }
        }
        None => {}
    }
    match &object.comment {
        Some(c) => if c.as_str().is_empty() { None } else { Some(c.clone()) },
        None => None,
    }
}

/// The objects of a project file under their identifiers, and the comments
/// written after references to them.
pub struct PbxGraph {
    pub objects: Vec<(String, PbxObject)>,
    pub comments: Vec<(String, String)>,
}

impl PbxGraph {
    /// The objects by identifier.
    pub open spec fn objs(&self) -> Seq<(Seq<char>, OView)> {
        entries_view(self.objects@)
    }

    /// The comments by identifier.
    pub open spec fn cmts(&self) -> Seq<(Seq<char>, Seq<char>)> {
        entries_view(self.comments@)
    }

    /// Both maps are kept in key order and every object's fields too.
    pub open spec fn wf(&self) -> bool {
        &&& keys_sorted(self.objs())
        &&& keys_sorted(self.cmts())
        &&& forall|i: int| 0 <= i < self.objects@.len() ==> (#[trigger] self.objects@[i]).1.wf()
    }

    /// An empty graph.
    pub fn new() -> (g: Self)
        ensures
            g.wf(),
            g.objs() == Seq::<(Seq<char>, OView)>::empty(),
            g.cmts() == Seq::<(Seq<char>, Seq<char>)>::empty(),
    {
        let g = PbxGraph { objects: Vec::new(), comments: Vec::new() };
        proof {
            assert(g.objs() =~= Seq::<(Seq<char>, OView)>::empty());
            assert(g.cmts() =~= Seq::<(Seq<char>, Seq<char>)>::empty());
        }
        g
    }

    /// The identifier of the object stored under `key`.
    pub fn id_for(&self, key: &str) -> (r: String)
        ensures
            r@ == object_id_spec(key@, 0),
    {
        object_id(key, 0)
    }
}

/// What adding an object under a key does: the first object stored under an
/// identifier stays; a new one is stored, with its comment when it has one.
pub open spec fn add_post(old: PbxGraph, new: PbxGraph, key: Seq<char>, object: OView, r: Seq<char>) -> bool {
    &&& r == object_id_spec(key, 0)
    &&& new.wf()
    &&& if lookup(old.objs(), r) is Some {
        new.objs() == old.objs() && new.cmts() == old.cmts()
    } else {
        &&& forall|k: Seq<char>| #[trigger] lookup(new.objs(), k) == if k == r {
            Some(object)
        } else {
            lookup(old.objs(), k)
        }
        &&& forall|k: Seq<char>| #[trigger] lookup(new.cmts(), k) == if k == r && object.comment is Some {
            object.comment
        } else {
            lookup(old.cmts(), k)
        }
    }
}

impl PbxGraph {
    /// Stores an object under the identifier derived from `key`, unless an
    /// object is already stored there, and returns the identifier.
    pub fn add(&mut self, key: &str, object: PbxObject) -> (r: String)
        requires
            old(self).wf(),
            object.wf(),
        ensures
            add_post(*old(self), *final(self), key@, object@, r@),
    {
        let id = self.id_for(key);
        if !smap_contains(&self.objects, id.as_str()) {
            let ghost ov = object@;
            if let Some(comment) = &object.comment {
                smap_insert(&mut self.comments, id.clone(), comment.clone());
            }
            let ghost objects0 = self.objects@;
            smap_insert(&mut self.objects, id.clone(), object);
            proof {
                assert forall|i: int| 0 <= i < self.objects@.len() implies (#[trigger] self.objects@[i]).1.wf() by {
                    lemma_entry_wf(objects0, self.objects@, id@, i);
                }
            }
        }
        id
    }
}

/// After a keyed insert, every entry is either the inserted one or an old one.
proof fn lemma_entry_wf(old: Seq<(String, PbxObject)>, new: Seq<(String, PbxObject)>, k: Seq<char>, i: int)
    requires
        keys_sorted(entries_view(old)),
        keys_sorted(entries_view(new)),
        forall|j: int| 0 <= j < old.len() ==> (#[trigger] old[j]).1.wf(),
        forall|key: Seq<char>| #[trigger] lookup(entries_view(new), key) == if key == k {
            lookup(entries_view(new), k)
        } else {
            lookup(entries_view(old), key)
        },
        lookup(entries_view(new), k) matches Some(o) ==> keys_sorted(o.fields),
        0 <= i < new.len(),
    ensures
        new[i].1.wf(),
{
    lemma_lookup_at(entries_view(new), i);
    let key = new[i].0@;
    if key != k {
        let ov = entries_view(old);
        assert(lookup(ov, key) is Some);
        let j = key_index(ov, key);
        lemma_lookup_at(ov, j);
        assert(old[j].1.wf());
    }
}

} // verus!

verus! {

/// `acc` followed by each of the first `n` new children that it does not
/// already hold, in order.
pub open spec fn merge_children(acc: Seq<PVal>, new: Seq<PVal>, n: int) -> Seq<PVal>
    decreases n,
{
    if n <= 0 || n > new.len() {
        acc
    } else {
        let a = merge_children(acc, new, n - 1);
        if a.contains(new[n - 1]) {
            a
        } else {
            a.push(new[n - 1])
        }
    }
}

/// A field of a group after another group was merged into it: children
/// lists are merged, a missing `name` or `path` is taken over, everything
/// else stays.
pub open spec fn merge_lookup(
    ex: Seq<(Seq<char>, PVal)>,
    inc: Seq<(Seq<char>, PVal)>,
    k: Seq<char>,
) -> Option<PVal> {
    if k == "children"@ && (lookup(ex, k) matches Some(PVal::Array(_))) && (lookup(inc, k) matches Some(PVal::Array(_))) {
        let ec = lookup(ex, k)->0->Array_0;
        let nc = lookup(inc, k)->0->Array_0;
        Some(PVal::Array(merge_children(ec, nc, nc.len() as int)))
    } else if (k == "name"@ || k == "path"@) && lookup(ex, k) is None {
        lookup(inc, k)
    } else {
        lookup(ex, k)
    }
}

/// What adding or merging a group does: a new group is stored as `add`
/// stores it; a group already stored takes the other's children, name and
/// path as [`merge_lookup`] says, and keeps its class and comment.
pub open spec fn merge_post(old: PbxGraph, new: PbxGraph, key: Seq<char>, object: OView, r: Seq<char>) -> bool {
    if lookup(old.objs(), r) is Some {
        let e = lookup(old.objs(), r)->0;
        &&& r == object_id_spec(key, 0)
        &&& new.wf()
        &&& new.cmts() == old.cmts()
        &&& forall|k: Seq<char>| k != r ==> #[trigger] lookup(new.objs(), k) == lookup(old.objs(), k)
        &&& lookup(new.objs(), r) matches Some(m) && m.isa == e.isa && m.comment == e.comment
            && forall|fk: Seq<char>| #[trigger] lookup(m.fields, fk) == merge_lookup(e.fields, object.fields, fk)
    } else {
        add_post(old, new, key, object, r)
    }
}

/// Whether a list of values holds one equal to `x`.
pub fn values_contain(v: &Vec<PbxValue>, x: &PbxValue) -> (r: bool)
    ensures
        r == all_items_view(v@).contains(x@),
{
    proof {
        lemma_items_view(v@, v@.len() as int);
    }
    let mut i: usize = 0;
    while i < v.len()
        invariant
            i <= v@.len(),
            all_items_view(v@).len() == v@.len(),
            forall|q: int| 0 <= q < v@.len() ==> #[trigger] all_items_view(v@)[q] == value_view(&v@[q]),
            forall|q: int| 0 <= q < i ==> all_items_view(v@)[q] != x@,
        decreases v.len() - i,
    {
        if value_eq(&v[i], x) {
            proof {
                assert(all_items_view(v@)[i as int] == x@);
            }
            return true;
        }
        i = i + 1;
    }
    false
}

proof fn lemma_items_view_push(s: Seq<PbxValue>, x: PbxValue)
    ensures
        all_items_view(s.push(x)) == all_items_view(s).push(x@),
{
    let t = s.push(x);
    lemma_items_view(t, t.len() as int);
    lemma_items_view(s, s.len() as int);
    assert(all_items_view(t) =~= all_items_view(s).push(x@));
}

/// Merges `incoming` children into `children`, skipping ones already there.
fn merge_children_into(children: &mut Vec<PbxValue>, incoming: &Vec<PbxValue>)
    ensures
        all_items_view(final(children)@) == merge_children(
            all_items_view(old(children)@),
            all_items_view(incoming@),
            incoming@.len() as int,
        ),
{
    let ghost acc = all_items_view(children@);
    let ghost nc = all_items_view(incoming@);
    proof {
        lemma_items_view(incoming@, incoming@.len() as int);
    }
    let mut i: usize = 0;
    while i < incoming.len()
        invariant
            i <= incoming@.len(),
            nc == all_items_view(incoming@),
            nc.len() == incoming@.len(),
            forall|q: int| 0 <= q < nc.len() ==> #[trigger] nc[q] == value_view(&incoming@[q]),
            all_items_view(children@) == merge_children(acc, nc, i as int),
        decreases incoming.len() - i,
    {
        if !values_contain(children, &incoming[i]) {
            let c = copy_value(&incoming[i]);
            proof {
                lemma_items_view_push(children@, c);
            }
            children.push(c);
        }
        i = i + 1;
    }
}

/// The children lists of two groups merged, when both groups hold one.
fn merge_children_field(fields: &mut Vec<(String, PbxValue)>, incoming: &PbxObject)
    requires
        keys_sorted(entries_view(old(fields)@)),
        incoming.wf(),
    ensures
        keys_sorted(entries_view(final(fields)@)),
        forall|fk: Seq<char>| #[trigger] lookup(entries_view(final(fields)@), fk) == (if fk == "children"@
            && (lookup(entries_view(old(fields)@), fk) matches Some(PVal::Array(_)))
            && (lookup(incoming@.fields, fk) matches Some(PVal::Array(_))) {
            Some(PVal::Array(merge_children(
                lookup(entries_view(old(fields)@), fk)->0->Array_0,
                lookup(incoming@.fields, fk)->0->Array_0,
                lookup(incoming@.fields, fk)->0->Array_0.len() as int,
            )))
        } else {
            lookup(entries_view(old(fields)@), fk)
        }),
{
    proof {
        reveal_strlit("children");
    }
    if let Some(ci) = smap_find(fields, "children") {
        if let Some(ni) = smap_find(&incoming.fields, "children") {
            if let PbxValue::Array(new_children) = &incoming.fields[ni].1 {
                let existing = copy_value(&fields[ci].1);
                if let PbxValue::Array(mut items) = existing {
                    proof {
                        assert(lookup(entries_view(old(fields)@), "children"@) == Some(PVal::Array(all_items_view(items@))));
                        assert(lookup(incoming@.fields, "children"@) == Some(PVal::Array(all_items_view(new_children@))));
                        lemma_items_view(new_children@, new_children@.len() as int);
                    }
                    merge_children_into(&mut items, new_children);
                    smap_insert(fields, string_from("children"), PbxValue::Array(items));
                }
            }
        }
    }
}

/// Takes over a field from `incoming` when `fields` lacks it.
fn take_missing_field(fields: &mut Vec<(String, PbxValue)>, incoming: &PbxObject, name: &str)
    requires
        keys_sorted(entries_view(old(fields)@)),
        incoming.wf(),
    ensures
        keys_sorted(entries_view(final(fields)@)),
        forall|fk: Seq<char>| #[trigger] lookup(entries_view(final(fields)@), fk) == (if fk == name@
            && lookup(entries_view(old(fields)@), fk) is None {
            lookup(incoming@.fields, fk)
        } else {
            lookup(entries_view(old(fields)@), fk)
        }),
{
    if !smap_contains(fields, name) {
        if let Some(ni) = smap_find(&incoming.fields, name) {
            let v = copy_value(&incoming.fields[ni].1);
            smap_insert(fields, name.to_owned(), v);
        }
    }
}

/// A stored group with another group merged into it.
fn merge_group_fields(existing: &PbxObject, incoming: &PbxObject) -> (merged: PbxObject)
    requires
        existing.wf(),
        incoming.wf(),
    ensures
        merged.wf(),
        merged@.isa == existing@.isa,
        merged@.comment == existing@.comment,
        forall|fk: Seq<char>| #[trigger] lookup(merged@.fields, fk) == merge_lookup(existing@.fields, incoming@.fields, fk),
{
    let mut merged = copy_object(existing);
    let ghost f0 = merged@.fields;
    merge_children_field(&mut merged.fields, incoming);
    let ghost f1 = merged@.fields;
    take_missing_field(&mut merged.fields, incoming, "name");
    let ghost f2 = merged@.fields;
    take_missing_field(&mut merged.fields, incoming, "path");
    proof {
        reveal_strlit("children");
        reveal_strlit("name");
        reveal_strlit("path");
        assert forall|fk: Seq<char>| #[trigger] lookup(merged@.fields, fk) == merge_lookup(existing@.fields, incoming@.fields, fk) by {
            assert("path"@[0] != "name"@[0]);
            assert("path"@[0] != "children"@[0]);
            assert("name"@[0] != "children"@[0]);
            assert(lookup(f1, "name"@) == lookup(f0, "name"@));
            assert(lookup(f1, "path"@) == lookup(f0, "path"@));
            assert(lookup(f2, "path"@) == lookup(f1, "path"@));
            assert(lookup(f1, fk) == lookup(f0, fk) || fk == "children"@);
        }
    }
    merged
}

impl PbxGraph {
    /// Stores a group under the identifier derived from `key`, or merges it
    /// into the group already stored there, and returns the identifier.
    pub fn add_or_merge_group(&mut self, key: &str, object: PbxObject) -> (r: String)
        requires
            old(self).wf(),
            object.wf(),
        ensures
            merge_post(*old(self), *final(self), key@, object@, r@),
    {
        let id = self.id_for(key);
        match smap_find(&self.objects, id.as_str()) {
            None => {
                if let Some(comment) = &object.comment {
                    smap_insert(&mut self.comments, id.clone(), comment.clone());
                }
                let ghost objects0 = self.objects@;
                smap_insert(&mut self.objects, id.clone(), object);
                proof {
                    assert forall|i: int| 0 <= i < self.objects@.len() implies (#[trigger] self.objects@[i]).1.wf() by {
                        lemma_entry_wf(objects0, self.objects@, id@, i);
                    }
                }
                id
            }
            Some(idx) => {
                let ghost e = self.objects@[idx as int].1@;
                proof {
                    assert(self.objects@[idx as int].1.wf());
                }
                let merged = merge_group_fields(&self.objects[idx].1, &object);
                let ghost objects0 = self.objects@;
                self.objects.set(idx, (id.clone(), merged));
                proof {
                    let s0 = entries_view(objects0);
                    let s1 = self.objs();
                    assert forall|q: int| 0 <= q < s1.len() implies #[trigger] s1[q].0 == s0[q].0 by {}
                    assert(keys_sorted(s1));
                    lemma_lookup_at(s0, idx as int);
                    lemma_lookup_at(s1, idx as int);
                    assert forall|k: Seq<char>| k != id@ implies #[trigger] lookup(s1, k) == lookup(s0, k) by {
                        if has_key(s1, k) {
                            let j = key_index(s1, k);
                            lemma_lookup_at(s1, j);
                            lemma_lookup_at(s0, j);
                        } else if has_key(s0, k) {
                            let j = key_index(s0, k);
                            assert(s1[j].0 == k);
                        }
                    }
                }
                id
            }
        }
    }
}

} // verus!
