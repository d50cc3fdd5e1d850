//! The text of a project file: objects grouped in one section per class,
//! the sections in class order, and the objects of a section in the order of
//! their written identifiers.
use vstd::prelude::*;
use crate::graph::{PbxGraph, PbxObject, PbxValue, PVal, OView, mapped, mapped_id, write_spec, pdepth,
    compact_dict, write_compact_value, opt_view};
use crate::smap::{entries_view, keys_sorted, lookup};
use crate::text::{lex_lt, str_lt, str_eq, push_str, push_char};
use crate::references::XcodeReferenceGenerator;

verus! {

/// The key by which objects are ordered when written: their class, then
/// their written identifier.
pub open spec fn obj_key(
    objs: Seq<(Seq<char>, OView)>,
    j: int,
    id_map: Seq<(Seq<char>, Seq<char>)>,
) -> (Seq<char>, Seq<char>) {
    (objs[j].1.isa, mapped(objs[j].0, id_map))
}

/// Whether key `a` is written before key `b`.
pub open spec fn obj_key_lt(a: (Seq<char>, Seq<char>), b: (Seq<char>, Seq<char>)) -> bool {
    lex_lt(a.0, b.0) || (a.0 == b.0 && lex_lt(a.1, b.1))
}

/// Stable insertion of object `j` into an ordering of objects.
pub open spec fn obj_ins(
    s: Seq<int>,
    j: int,
    objs: Seq<(Seq<char>, OView)>,
    id_map: Seq<(Seq<char>, Seq<char>)>,
) -> Seq<int>
    decreases s.len(),
{
    if s.len() == 0 {
        seq![j]
    } else if obj_key_lt(obj_key(objs, j, id_map), obj_key(objs, s.last(), id_map)) {
        obj_ins(s.drop_last(), j, objs, id_map).push(s.last())
    } else {
        s.push(j)
    }
}

/// The order in which the first `n` objects are written: stably sorted by
/// class and written identifier.
pub open spec fn obj_order(
    objs: Seq<(Seq<char>, OView)>,
    id_map: Seq<(Seq<char>, Seq<char>)>,
    n: int,
) -> Seq<int>
    decreases n,
{
    if n <= 0 {
        Seq::empty()
    } else {
        obj_ins(obj_order(objs, id_map, n - 1), n - 1, objs, id_map)
    }
}

proof fn lemma_obj_ins(
    s: Seq<int>,
    j: int,
    objs: Seq<(Seq<char>, OView)>,
    id_map: Seq<(Seq<char>, Seq<char>)>,
    p: int,
)
    requires
        0 <= p <= s.len(),
        forall|q: int| p <= q < s.len() ==> obj_key_lt(obj_key(objs, j, id_map), #[trigger] obj_key(objs, s[q], id_map)),
        p > 0 ==> !obj_key_lt(obj_key(objs, j, id_map), obj_key(objs, s[p - 1], id_map)),
    ensures
        obj_ins(s, j, objs, id_map) == s.take(p).push(j) + s.skip(p),
    decreases s.len(),
{
    if s.len() == 0 {
        assert(s.take(p).push(j) + s.skip(p) =~= seq![j]);
    } else if p == s.len() {
        assert(s.take(p) =~= s);
        assert(s.take(p).push(j) + s.skip(p) =~= s.push(j));
    } else {
        assert(obj_key(objs, s[s.len() - 1], id_map) == obj_key(objs, s.last(), id_map));
        let d = s.drop_last();
        assert forall|q: int| p <= q < d.len() implies obj_key_lt(obj_key(objs, j, id_map), #[trigger] obj_key(objs, d[q], id_map)) by {
            assert(d[q] == s[q]);
        }
        if p > 0 {
            assert(d[p - 1] == s[p - 1]);
        }
        lemma_obj_ins(d, j, objs, id_map, p);
        assert(d.take(p) =~= s.take(p));
        assert(d.skip(p).push(s.last()) =~= s.skip(p));
        assert((d.take(p).push(j) + d.skip(p)).push(s.last()) =~= s.take(p).push(j) + s.skip(p));
    }
}

fn obj_key_less(a: &(String, String), b: &(String, String)) -> (r: bool)
    ensures
        r == obj_key_lt((a.0@, a.1@), (b.0@, b.1@)),
{
    str_lt(a.0.as_str(), b.0.as_str()) || (str_eq(a.0.as_str(), b.0.as_str()) && str_lt(a.1.as_str(), b.1.as_str()))
}

/// The positions of the graph's objects in the order they are written.
pub fn object_write_order(objects: &Vec<(String, PbxObject)>, id_map: &Vec<(String, String)>) -> (order: Vec<usize>)
    requires
        keys_sorted(entries_view(id_map@)),
    ensures
        order@.map_values(|x: usize| x as int) == obj_order(
            entries_view(objects@),
            entries_view(id_map@),
            objects@.len() as int,
        ),
        forall|k: int| 0 <= k < order@.len() ==> #[trigger] order@[k] < objects@.len(),
        order@.len() == objects@.len(),
{
    let ghost objs = entries_view(objects@);
    let ghost m = entries_view(id_map@);
    let mut order: Vec<usize> = Vec::new();
    let mut keys: Vec<(String, String)> = Vec::new();
    let mut i: usize = 0;
    while i < objects.len()
        invariant
            objs == entries_view(objects@),
            m == entries_view(id_map@),
            keys_sorted(m),
            i <= objects@.len(),
            order@.len() == keys@.len(),
            order@.len() == i,
            forall|k: int| 0 <= k < order@.len() ==> #[trigger] order@[k] < i,
            forall|k: int| 0 <= k < keys@.len() ==> (#[trigger] keys@[k]).0@ == obj_key(objs, order@[k] as int, m).0
                && keys@[k].1@ == obj_key(objs, order@[k] as int, m).1,
            order@.map_values(|x: usize| x as int) == obj_order(objs, m, i as int),
        decreases objects.len() - i,
    {
        let key = (objects[i].1.isa.clone(), mapped_id(objects[i].0.as_str(), id_map));
        let mut p: usize = order.len();
        while p > 0 && obj_key_less(&key, &keys[p - 1])
            invariant
                p <= order@.len(),
                order@.len() == keys@.len(),
                forall|k: int| 0 <= k < keys@.len() ==> (#[trigger] keys@[k]).0@ == obj_key(objs, order@[k] as int, m).0
                    && keys@[k].1@ == obj_key(objs, order@[k] as int, m).1,
                key.0@ == obj_key(objs, i as int, m).0,
                key.1@ == obj_key(objs, i as int, m).1,
                forall|q: int| p <= q < order@.len() ==> obj_key_lt(obj_key(objs, i as int, m), #[trigger] obj_key(objs, order@[q] as int, m)),
            decreases p,
        {
            proof {
                assert(keys@[p - 1].0@ == obj_key(objs, order@[p - 1] as int, m).0);
            }
            p = p - 1;
        }
        let ghost old_order = order@.map_values(|x: usize| x as int);
        proof {
            let s = old_order;
            assert forall|q: int| p <= q < s.len() implies obj_key_lt(obj_key(objs, i as int, m), #[trigger] obj_key(objs, s[q], m)) by {
                assert(s[q] == order@[q] as int);
            }
            if p > 0 {
                assert(keys@[p - 1].0@ == obj_key(objs, order@[p - 1] as int, m).0);
                assert(s[p - 1] == order@[p - 1] as int);
            }
            lemma_obj_ins(s, i as int, objs, m, p as int);
        }
        order.insert(p, i);
        keys.insert(p, key);
        proof {
            assert(order@.map_values(|x: usize| x as int) =~= old_order.take(p as int).push(i as int) + old_order.skip(p as int));
        }
        i = i + 1;
    }
    order
}

/// The comment written after an object's identifier, when it has a
/// non-empty one.
pub open spec fn comment_text(c: Option<Seq<char>>) -> Seq<char> {
    match c {
        Some(c) => if c.len() > 0 {
            " /* "@ + c + " */"@
        } else {
            Seq::empty()
        },
        None => Seq::empty(),
    }
}

/// Classes whose objects are written on one line.
pub open spec fn is_compact_class(isa: Seq<char>) -> bool {
    isa == "PBXBuildFile"@ || isa == "PBXFileReference"@
}

/// A field's value as written inside a multi-line object: the identifier a
/// `remoteGlobalIDString` names is written as mapped and unquoted.
pub open spec fn field_value_text(
    key: Seq<char>,
    v: PVal,
    comments: Seq<(Seq<char>, Seq<char>)>,
    id_map: Seq<(Seq<char>, Seq<char>)>,
) -> Seq<char> {
    match v {
        PVal::Str(s) => if key == "remoteGlobalIDString"@ {
            mapped(s, id_map)
        } else {
            write_spec(v, 3, comments, id_map)
        },
        _ => write_spec(v, 3, comments, id_map),
    }
}

/// The first `n` fields of a multi-line object, one per line.
pub open spec fn fields_text(
    fs: Seq<(Seq<char>, PVal)>,
    n: int,
    comments: Seq<(Seq<char>, Seq<char>)>,
    id_map: Seq<(Seq<char>, Seq<char>)>,
) -> Seq<char>
    decreases n,
{
    if n <= 0 || n > fs.len() {
        Seq::empty()
    } else {
        fields_text(fs, n - 1, comments, id_map) + "\t\t\t"@ + fs[n - 1].0 + " = "@ + field_value_text(
            fs[n - 1].0,
            fs[n - 1].1,
            comments,
            id_map,
        ) + ";\n"@
    }
}

/// An object as written: build files and file references on one line,
/// every other object over several lines.
pub open spec fn object_text(
    id: Seq<char>,
    o: OView,
    comments: Seq<(Seq<char>, Seq<char>)>,
    id_map: Seq<(Seq<char>, Seq<char>)>,
) -> Seq<char> {
    "\t\t"@ + mapped(id, id_map) + comment_text(o.comment) + if is_compact_class(o.isa) {
        " = {isa = "@ + o.isa + "; "@ + compact_dict(o.fields, o.fields.len() as int, comments, id_map)
            + "};\n"@
    } else {
        " = {\n"@ + "\t\t\tisa = "@ + o.isa + ";\n"@ + fields_text(o.fields, o.fields.len() as int, comments, id_map)
            + "\t\t};\n"@
    }
}

/// Every field value of the object can be written three levels deep.
pub open spec fn depth_ok(o: OView) -> bool {
    forall|i: int| 0 <= i < o.fields.len() ==> 3 + pdepth(#[trigger] o.fields[i].1) < usize::MAX
}

/// Appends the fields of a one-line object.
fn write_compact_fields(
    output: &mut String,
    object: &PbxObject,
    comments: &Vec<(String, String)>,
    id_map: &Vec<(String, String)>,
)
    requires
        keys_sorted(entries_view(comments@)),
        keys_sorted(entries_view(id_map@)),
    ensures
        final(output)@ == old(output)@ + compact_dict(
            object@.fields,
            object@.fields.len() as int,
            entries_view(comments@),
            entries_view(id_map@),
        ),
{
    let ghost cm = entries_view(comments@);
    let ghost im = entries_view(id_map@);
    let ghost fs = object@.fields;
    let ghost mid = output@;
    let mut i: usize = 0;
    while i < object.fields.len()
        invariant
            fs == entries_view(object.fields@),
            cm == entries_view(comments@),
            im == entries_view(id_map@),
            keys_sorted(cm),
            keys_sorted(im),
            i <= object.fields@.len(),
            output@ == mid + compact_dict(fs, i as int, cm, im),
        decreases object.fields.len() - i,
    {
        proof {
            assert(fs[i as int] == (object.fields@[i as int].0@, object.fields@[i as int].1@));
            reveal_strlit(" = ");
            reveal_strlit("; ");
        }
        output.append(object.fields[i].0.as_str());
        push_str(output, " = ");
        write_compact_value(&object.fields[i].1, output, comments, id_map, object.fields[i].0.as_str());
        push_str(output, "; ");
        i = i + 1;
    }
}

/// Appends the fields of a multi-line object.
fn write_full_fields(
    output: &mut String,
    object: &PbxObject,
    comments: &Vec<(String, String)>,
    id_map: &Vec<(String, String)>,
)
    requires
        keys_sorted(entries_view(comments@)),
        keys_sorted(entries_view(id_map@)),
        depth_ok(object@),
    ensures
        final(output)@ == old(output)@ + fields_text(
            object@.fields,
            object@.fields.len() as int,
            entries_view(comments@),
            entries_view(id_map@),
        ),
{
    let ghost cm = entries_view(comments@);
    let ghost im = entries_view(id_map@);
    let ghost fs = object@.fields;
    let ghost mid = output@;
    let mut i: usize = 0;
    while i < object.fields.len()
        invariant
            fs == entries_view(object.fields@),
            fs == object@.fields,
            depth_ok(object@),
            cm == entries_view(comments@),
            im == entries_view(id_map@),
            keys_sorted(cm),
            keys_sorted(im),
            i <= object.fields@.len(),
            output@ == mid + fields_text(fs, i as int, cm, im),
        decreases object.fields.len() - i,
    {
        let key = object.fields[i].0.as_str();
        let value = &object.fields[i].1;
        proof {
            assert(fs[i as int] == (object.fields@[i as int].0@, object.fields@[i as int].1@));
            assert(3 + pdepth(fs[i as int].1) < usize::MAX);
        }
        let ghost before = output@;
        push_str(output, "\t\t\t");
        output.append(key);
        push_str(output, " = ");
        let mut done = false;
        if str_eq(key, "remoteGlobalIDString") {
            if let PbxValue::String(s) = value {
                let m = mapped_id(s.as_str(), id_map);
                output.append(m.as_str());
                done = true;
            }
        }
        if !done {
            value.write(output, 3, comments, id_map);
        }
        push_str(output, ";\n");
        proof {
            assert(output@ == before + "\t\t\t"@ + fs[i as int].0 + " = "@ + field_value_text(
                fs[i as int].0, fs[i as int].1, cm, im) + ";\n"@);
        }
        i = i + 1;
    }
}

/// Appends an object as written.
fn write_object(
    output: &mut String,
    id: &String,
    object: &PbxObject,
    comments: &Vec<(String, String)>,
    id_map: &Vec<(String, String)>,
)
    requires
        keys_sorted(entries_view(comments@)),
        keys_sorted(entries_view(id_map@)),
        depth_ok(object@),
    ensures
        final(output)@ == old(output)@ + object_text(id@, object@, entries_view(comments@), entries_view(id_map@)),
{
    let ghost cm = entries_view(comments@);
    let ghost im = entries_view(id_map@);
    let ghost start = output@;
    push_str(output, "\t\t");
    let m = mapped_id(id.as_str(), id_map);
    output.append(m.as_str());
    if let Some(c) = &object.comment {
        if !c.as_str().is_empty() {
            push_str(output, " /* ");
            output.append(c.as_str());
            push_str(output, " */");
        }
    }
    let ghost head = output@;
    proof {
        assert(head == start + "\t\t"@ + mapped(id@, im) + comment_text(object@.comment));
    }
    let isa = object.isa.as_str();
    if str_eq(isa, "PBXBuildFile") || str_eq(isa, "PBXFileReference") {
        push_str(output, " = {isa = ");
        output.append(isa);
        push_str(output, "; ");
        write_compact_fields(output, object, comments, id_map);
        push_str(output, "};\n");
    } else {
        push_str(output, " = {\n");
        push_str(output, "\t\t\tisa = ");
        output.append(isa);
        push_str(output, ";\n");
        write_full_fields(output, object, comments, id_map);
        push_str(output, "\t\t};\n");
    }
}

/// The line that opens the section of a class.
pub open spec fn begin_text(isa: Seq<char>) -> Seq<char> {
    "/* Begin "@ + isa + " section */\n"@
}

/// The line that closes the section of a class.
pub open spec fn end_text(isa: Seq<char>) -> Seq<char> {
    "/* End "@ + isa + " section */\n"@
}

/// The `k`-th object in writing order, with the line opening its section
/// when it is the first of its class, and the line closing the section (and
/// a blank line when another section follows) when it is the last.
pub open spec fn section_item(
    objs: Seq<(Seq<char>, OView)>,
    ord: Seq<int>,
    k: int,
    comments: Seq<(Seq<char>, Seq<char>)>,
    id_map: Seq<(Seq<char>, Seq<char>)>,
) -> Seq<char> {
    let o = objs[ord[k]];
    (if k == 0 || objs[ord[k - 1]].1.isa != o.1.isa {
        begin_text(o.1.isa)
    } else {
        Seq::empty()
    }) + object_text(o.0, o.1, comments, id_map) + (if k == ord.len() - 1 {
        end_text(o.1.isa)
    } else if objs[ord[k + 1]].1.isa != o.1.isa {
        end_text(o.1.isa) + "\n"@
    } else {
        Seq::empty()
    })
}

/// The first `n` objects in writing order, with their section lines.
pub open spec fn sections_text(
    objs: Seq<(Seq<char>, OView)>,
    ord: Seq<int>,
    n: int,
    comments: Seq<(Seq<char>, Seq<char>)>,
    id_map: Seq<(Seq<char>, Seq<char>)>,
) -> Seq<char>
    decreases n,
{
    if n <= 0 || n > ord.len() {
        Seq::empty()
    } else {
        sections_text(objs, ord, n - 1, comments, id_map) + section_item(objs, ord, n - 1, comments, id_map)
    }
}

/// The lines a project file starts with, up to its objects.
pub open spec fn header_text() -> Seq<char> {
    "// !$*UTF8*$!\n{\n"@ + "\tarchiveVersion = 1;\n\tclasses = {\n\t};\n\tobjectVersion = 77;\n\tobjects = {\n\n"@
}

/// A project file: the header, the objects in sections, and the root
/// object's written identifier.
pub open spec fn project_file_text(
    objs: Seq<(Seq<char>, OView)>,
    root: Seq<char>,
    comments: Seq<(Seq<char>, Seq<char>)>,
    id_map: Seq<(Seq<char>, Seq<char>)>,
) -> Seq<char> {
    let ord = obj_order(objs, id_map, objs.len() as int);
    header_text() + sections_text(objs, ord, ord.len() as int, comments, id_map) + "\t};\n"@
        + "\trootObject = "@ + mapped(root, id_map) + " /* Project object */;\n}\n"@
}

/// Every object of the graph can be written.
pub open spec fn graph_depth_ok(objs: Seq<(Seq<char>, OView)>) -> bool {
    forall|i: int| 0 <= i < objs.len() ==> depth_ok(#[trigger] objs[i].1)
}

/// Appends the `k`-th object in writing order with its section lines.
#[verifier::spinoff_prover]
#[verifier::rlimit(30)]
fn write_section_item(
    output: &mut String,
    graph: &PbxGraph,
    order: &Vec<usize>,
    k: usize,
    id_map: &Vec<(String, String)>,
)
    requires
        graph.wf(),
        keys_sorted(entries_view(id_map@)),
        graph_depth_ok(graph.objs()),
        forall|q: int| 0 <= q < order@.len() ==> #[trigger] order@[q] < graph.objects@.len(),
        k < order@.len(),
    ensures
        final(output)@ == old(output)@ + section_item(
            graph.objs(),
            order@.map_values(|x: usize| x as int),
            k as int,
            graph.cmts(),
            entries_view(id_map@),
        ),
{
    let ghost objs = graph.objs();
    let ghost cm = graph.cmts();
    let ghost im = entries_view(id_map@);
    let ghost ord = order@.map_values(|x: usize| x as int);
    let n = order.len();
    let j = order[k];
    let ghost before = output@;
    proof {
        assert(ord[k as int] == j as int);
        assert(objs[j as int] == (graph.objects@[j as int].0@, graph.objects@[j as int].1@));
        assert(depth_ok(objs[j as int].1));
    }
    let isa = graph.objects[j].1.isa.as_str();
    let first = k == 0 || !str_eq(graph.objects[order[k - 1]].1.isa.as_str(), isa);
    proof {
        if k > 0 {
            assert(ord[k - 1] == order@[k - 1] as int);
            assert(objs[ord[k - 1]].1.isa == graph.objects@[order@[k - 1] as int].1.isa@);
        }
    }
    if first {
        push_str(output, "/* Begin ");
        output.append(isa);
        push_str(output, " section */\n");
    }
    let ghost mid = output@;
    proof {
        assert(mid == before + (if k == 0 || objs[ord[k - 1]].1.isa != objs[ord[k as int]].1.isa {
            begin_text(objs[ord[k as int]].1.isa)
        } else {
            Seq::empty()
        }));
    }
    write_object(output, &graph.objects[j].0, &graph.objects[j].1, &graph.comments, id_map);
    if k + 1 == n {
        push_str(output, "/* End ");
        output.append(isa);
        push_str(output, " section */\n");
    } else {
        let next_isa = graph.objects[order[k + 1]].1.isa.as_str();
        proof {
            assert(ord[k + 1] == order@[k + 1] as int);
            assert(objs[ord[k + 1]].1.isa == next_isa@);
        }
        if !str_eq(next_isa, isa) {
            push_str(output, "/* End ");
            output.append(isa);
            push_str(output, " section */\n");
            push_str(output, "\n");
        }
    }
}

/// The text of the project file of a graph whose root object is `root_id`,
/// with identifiers written through `id_map`.
pub fn write_project_file(graph: &PbxGraph, root_id: &str, id_map: &Vec<(String, String)>) -> (r: String)
    requires
        graph.wf(),
        keys_sorted(entries_view(id_map@)),
        graph_depth_ok(graph.objs()),
    ensures
        r@ == project_file_text(graph.objs(), root_id@, graph.cmts(), entries_view(id_map@)),
{
    let ghost objs = graph.objs();
    let ghost cm = graph.cmts();
    let ghost im = entries_view(id_map@);
    let mut output = String::new();
    push_str(&mut output, "// !$*UTF8*$!\n{\n");
    push_str(&mut output, "\tarchiveVersion = 1;\n\tclasses = {\n\t};\n\tobjectVersion = 77;\n\tobjects = {\n\n");
    let order = object_write_order(&graph.objects, id_map);
    let ghost ord = order@.map_values(|x: usize| x as int);
    let ghost start = output@;
    proof {
        assert(start =~= header_text());
    }
    let n = order.len();
    let mut k: usize = 0;
    while k < n
        invariant
            objs == graph.objs(),
            cm == graph.cmts(),
            im == entries_view(id_map@),
            graph.wf(),
            keys_sorted(im),
            graph_depth_ok(objs),
            ord == order@.map_values(|x: usize| x as int),
            n == order@.len(),
            forall|q: int| 0 <= q < order@.len() ==> #[trigger] order@[q] < graph.objects@.len(),
            k <= n,
            output@ == start + sections_text(objs, ord, k as int, cm, im),
        decreases n - k,
    {
        write_section_item(&mut output, graph, &order, k, id_map);
        k = k + 1;
    }
    push_str(&mut output, "\t};\n");
    push_str(&mut output, "\trootObject = ");
    let m = mapped_id(root_id, id_map);
    output.append(m.as_str());
    push_str(&mut output, " /* Project object */;\n}\n");
    output
}

/// An identifier map as the reference generator leaves it: in key order,
/// and no two identifiers mapped to the same reference.
pub open spec fn id_map_wf(m: Seq<(Seq<char>, Seq<char>)>) -> bool {
    &&& keys_sorted(m)
    &&& forall|i: int, j: int| 0 <= i < j < m.len() ==> #[trigger] m[i].1 != #[trigger] m[j].1
}

/// The references Xcode gives the objects of a graph whose root object is
/// `root_id`.
pub fn xcode_reference_map(graph: &PbxGraph, project_name: &str, root_id: &str) -> (r: Vec<(String, String)>)
    requires
        graph.wf(),
    ensures
        id_map_wf(entries_view(r@)),
        entries_view(r@) == crate::references::generate_walk(graph.objs(), Seq::empty(),
            (Seq::empty(), Seq::empty()), root_id@, project_name@).0,
        lookup(graph.objs(), root_id@) is Some ==> lookup(entries_view(r@), root_id@) is Some,
        forall|i: int| 0 <= i < r@.len() ==> crate::references::is_reference_text(#[trigger] entries_view(r@)[i].1),
{
    let mut generator = XcodeReferenceGenerator::new(graph, project_name.to_owned());
    proof {
        assert(generator.state.out() =~= Seq::<(Seq<char>, Seq<char>)>::empty());
        assert(generator.state.refs() =~= Seq::<(Seq<char>, bool)>::empty());
        assert(generator.state.contexts() =~= Seq::<(Seq<char>, Seq<char>)>::empty());
    }
    generator.generate(root_id);
    generator.state.output
}

/// The project file of a graph, with the identifier map it was written with.
pub fn serialize_with_id_map(graph: &PbxGraph, project_name: &str, root_id: &str) -> (r: (String, Vec<(String, String)>))
    requires
        graph.wf(),
        graph_depth_ok(graph.objs()),
    ensures
        id_map_wf(entries_view(r.1@)),
        r.0@ == project_file_text(graph.objs(), root_id@, graph.cmts(), entries_view(r.1@)),
        entries_view(r.1@) == crate::references::generate_walk(graph.objs(), Seq::empty(),
            (Seq::empty(), Seq::empty()), root_id@, project_name@).0,
        lookup(graph.objs(), root_id@) is Some ==> lookup(entries_view(r.1@), root_id@) is Some,
        forall|i: int| 0 <= i < r.1@.len() ==> crate::references::is_reference_text(#[trigger] entries_view(r.1@)[i].1),
{
    let id_map = xcode_reference_map(graph, project_name, root_id);
    let text = write_project_file(graph, root_id, &id_map);
    (text, id_map)
}

} // verus!
