//! The generator: builds the object graph of a project, object by object,
//! under identifiers derived from stable keys.
use vstd::prelude::*;
use crate::depth::{graph_below, entries_below, items_below, lemma_add_below, lemma_merge_below, lemma_fields_below,
    lemma_array_below, lemma_dict_below};
use crate::graph::{PbxGraph, PbxObject, PbxValue, PVal, OView, object_id_spec, pdepth, copy_object, all_items_view,
    lemma_items_view, add_post, merge_post, lemma_dict_view_entries};
use crate::model::{Project, Target};
use crate::configs::{config_names, config_names_spec, default_configuration_name, default_configuration_name_spec};
use crate::smap::{entries_view, keys_sorted, lookup, has_key, key_index, lemma_lookup_at, smap_find, smap_insert,
    smap_contains};
use crate::text::{concat2, contains_seq, contains_str, str_eq, string_from};

verus! {

/// How deeply the fields of generated objects may nest.
pub open spec fn field_cap() -> nat {
    1010
}

/// The generator of one project: the graph built so far, and the product
/// reference of each target by name.
pub struct PbxGenerator<'a> {
    pub project: &'a Project,
    pub graph: PbxGraph,
    pub product_refs: Vec<(String, String)>,
}

impl<'a> PbxGenerator<'a> {
    /// The graph is well formed and shallow enough to be written, and the
    /// product references are kept in name order.
    pub open spec fn base_inv(&self) -> bool {
        &&& self.graph.wf()
        &&& graph_below(self.graph, field_cap())
        &&& keys_sorted(entries_view(self.product_refs@))
    }

    /// While the graph is built, before the project object is added: no
    /// object of the graph is a project object.
    pub open spec fn inv(&self) -> bool {
        &&& self.base_inv()
        &&& no_project_object(self.graph)
    }

    /// A generator with an empty graph.
    pub fn new(project: &'a Project) -> (g: Self)
        ensures
            g.inv(),
            g.project == project,
            g.graph.objs().len() == 0,
            g.product_refs@.len() == 0,
    {
        let g = PbxGenerator { project, graph: PbxGraph::new(), product_refs: Vec::new() };
        proof {
            assert(entries_view(g.product_refs@) =~= Seq::<(Seq<char>, Seq<char>)>::empty());
        }
        g
    }

    /// Stores an object under `key` unless one is stored there.
    pub(crate) fn add_object(&mut self, key: &str, object: PbxObject) -> (r: String)
        requires
            old(self).inv(),
            object.wf(),
            entries_below(object@.fields, field_cap()),
            object@.isa != "PBXProject"@,
            object@.isa != "PBXNativeTarget"@,
        ensures
            final(self).inv(),
            crate::generator::keeps_natives(old(self).graph, final(self).graph),
            final(self).project == old(self).project,
            final(self).product_refs == old(self).product_refs,
            add_post(old(self).graph, final(self).graph, key@, object@, r@),
    {
        let ghost g0 = self.graph;
        let ghost o = object@;
        let r = self.graph.add(key, object);
        proof {
            lemma_add_below(g0, self.graph, key@, o, r@, field_cap());
        }
        r
    }

    /// Stores a group under `key`, or merges it into the one stored there.
    fn merge_group(&mut self, key: &str, object: PbxObject) -> (r: String)
        requires
            old(self).inv(),
            object.wf(),
            entries_below(object@.fields, field_cap()),
            object@.isa != "PBXProject"@,
            object@.isa != "PBXNativeTarget"@,
        ensures
            final(self).inv(),
            crate::generator::keeps_natives(old(self).graph, final(self).graph),
            final(self).project == old(self).project,
            final(self).product_refs == old(self).product_refs,
            merge_post(old(self).graph, final(self).graph, key@, object@, r@),
    {
        let ghost g0 = self.graph;
        let ghost o = object@;
        let r = self.graph.add_or_merge_group(key, object);
        proof {
            lemma_merge_below(g0, self.graph, key@, o, r@, field_cap());
        }
        r
    }
}

/// The fields of a build phase holding the given files.
pub open spec fn phase_field(k: Seq<char>, files: Seq<PVal>) -> Option<PVal> {
    if k == "buildActionMask"@ {
        Some(PVal::Int(2147483647))
    } else if k == "files"@ {
        Some(PVal::Array(files))
    } else if k == "runOnlyForDeploymentPostprocessing"@ {
        Some(PVal::Int(0))
    } else {
        None
    }
}

/// Whether the object stored under `id` was added with the given class,
/// comment and fields, or an object was already stored there.
pub open spec fn stored_as(
    old: PbxGraph,
    new: PbxGraph,
    id: Seq<char>,
    isa: Seq<char>,
    comment: Seq<char>,
    fields: spec_fn(Seq<char>) -> Option<PVal>,
) -> bool {
    lookup(old.objs(), id) is None ==> (lookup(new.objs(), id) matches Some(o) && o.isa == isa && o.comment == Some(
        comment,
    ) && forall|k: Seq<char>| #[trigger] lookup(o.fields, k) == fields(k))
}

/// Only the object under `id` can differ, and an object already stored
/// there stays.
pub open spec fn adds_at(old: PbxGraph, new: PbxGraph, id: Seq<char>) -> bool {
    &&& forall|k: Seq<char>| k != id ==> #[trigger] lookup(new.objs(), k) == lookup(old.objs(), k)
    &&& lookup(old.objs(), id) is Some ==> lookup(new.objs(), id) == lookup(old.objs(), id)
    &&& lookup(new.objs(), id) is Some
}

pub(crate) proof fn lemma_add_adds_at(old: PbxGraph, new: PbxGraph, key: Seq<char>, o: OView, r: Seq<char>)
    requires
        add_post(old, new, key, o, r),
    ensures
        adds_at(old, new, r),
{
}

/// No object of a graph is a project object.
pub open spec fn no_project_object(g: PbxGraph) -> bool {
    forall|k: Seq<char>| #[trigger] lookup(g.objs(), k) matches Some(o) ==> o.isa != "PBXProject"@
}

/// A class name of another length than the project's, and another length
/// or fourth character than the native target's, names neither class.
pub(crate) proof fn lemma_other_class(isa: Seq<char>)
    requires
        isa.len() != 10,
        isa.len() != 15 || isa[3] != 'N',
    ensures
        isa != "PBXProject"@,
        isa != "PBXNativeTarget"@,
{
    reveal_strlit("PBXProject");
    reveal_strlit("PBXNativeTarget");
    assert("PBXProject"@.len() == 10);
    assert("PBXNativeTarget"@.len() == 15);
    assert("PBXNativeTarget"@[3] == 'N');
}

/// Every native target object of the later graph was a native target
/// object of the earlier one, under the same identifier.
pub open spec fn keeps_natives(a: PbxGraph, b: PbxGraph) -> bool {
    forall|k: Seq<char>| #[trigger] lookup(b.objs(), k) matches Some(o) && o.isa == "PBXNativeTarget"@
        ==> (lookup(a.objs(), k) matches Some(p) && p.isa == "PBXNativeTarget"@)
}

/// All values of a list are references.
pub open spec fn all_refs(vs: Seq<PVal>) -> bool {
    forall|i: int| 0 <= i < vs.len() ==> (#[trigger] vs[i]) is Ref
}

pub(crate) proof fn lemma_refs_shallow(vs: Seq<PVal>)
    requires
        all_refs(vs),
    ensures
        pdepth(PVal::Array(vs)) <= 1,
{
    assert forall|i: int| 0 <= i < vs.len() implies pdepth(#[trigger] vs[i]) < 1 by {
        assert(vs[i] is Ref);
    }
    lemma_array_below(vs, 1);
}

impl<'a> PbxGenerator<'a> {
    /// Stores a build phase of class `isa` holding the given build files,
    /// under `buildPhase:` and the key.
    pub fn add_build_phase(&mut self, isa: &str, key: &str, comment: &str, files: Vec<PbxValue>) -> (r: String)
        requires
            old(self).inv(),
            isa@ != "PBXProject"@,
            isa@ != "PBXNativeTarget"@,
            all_refs(all_items_view(files@)),
        ensures
            final(self).inv(),
            crate::generator::keeps_natives(old(self).graph, final(self).graph),
            final(self).project == old(self).project,
            final(self).product_refs == old(self).product_refs,
            r@ == object_id_spec("buildPhase:"@ + key@, 0),
            adds_at(old(self).graph, final(self).graph, r@),
            stored_as(old(self).graph, final(self).graph, r@, isa@, comment@, |k: Seq<char>| phase_field(k, all_items_view(files@))),
    {
        let ghost fv = all_items_view(files@);
        proof {
            lemma_items_view(files@, files@.len() as int);
            lemma_refs_shallow(fv);
            reveal_strlit("buildActionMask");
            reveal_strlit("files");
            reveal_strlit("runOnlyForDeploymentPostprocessing");
        }
        let object = PbxObject::new(isa, string_from(comment))
            .field("buildActionMask", PbxValue::Int(2147483647))
            .field("files", PbxValue::Array(files))
            .field("runOnlyForDeploymentPostprocessing", PbxValue::Int(0));
        proof {
            assert forall|k: Seq<char>| #[trigger] lookup(object@.fields, k) == phase_field(k, fv) by {}
            assert forall|k: Seq<char>| #[trigger] lookup(object@.fields, k) is Some implies pdepth(lookup(object@.fields, k)->0) < field_cap() by {
                assert(lookup(object@.fields, k) == phase_field(k, fv));
            }
            lemma_fields_below(object@.fields, field_cap());
        }
        let key = concat2("buildPhase:", key);
        let ghost g0 = self.graph;
        let ghost o = object@;
        let r = self.add_object(key.as_str(), object);
        proof {
            lemma_add_adds_at(g0, self.graph, key@, o, r@);
        }
        r
    }
}

/// A field of a stored file reference after another reference to the same
/// file was added: fields it has stay, missing ones are taken, except that
/// a name is taken only where its path holds a `/`.
pub open spec fn file_ref_merge(
    ex: Seq<(Seq<char>, PVal)>,
    inc: spec_fn(Seq<char>) -> Option<PVal>,
    k: Seq<char>,
) -> Option<PVal> {
    if lookup(ex, k) is Some {
        lookup(ex, k)
    } else if k == "name"@ && !(lookup(ex, "path"@) matches Some(PVal::Str(p)) && contains_seq(p, "/"@)) {
        None
    } else {
        inc(k)
    }
}

/// Merges the fields of `incoming` into the file reference stored at
/// position `idx`.
fn merge_into_file_ref(graph: &mut PbxGraph, idx: usize, incoming: &PbxObject)
    requires
        old(graph).wf(),
        idx < old(graph).objects@.len(),
        incoming.wf(),
    ensures
        final(graph).wf(),
        final(graph).cmts() == old(graph).cmts(),
        forall|k: Seq<char>| k != old(graph).objs()[idx as int].0 ==> #[trigger] lookup(final(graph).objs(), k) == lookup(old(graph).objs(), k),
        lookup(final(graph).objs(), old(graph).objs()[idx as int].0) matches Some(m)
            && m.isa == old(graph).objs()[idx as int].1.isa
            && m.comment == old(graph).objs()[idx as int].1.comment
            && forall|k: Seq<char>| #[trigger] lookup(m.fields, k) == file_ref_merge(
                old(graph).objs()[idx as int].1.fields,
                |x: Seq<char>| lookup(incoming@.fields, x),
                k,
            ),
{
    let ghost g0 = *graph;
    let ghost ex = graph.objects@[idx as int].1@;
    let ghost inc = incoming@.fields;
    proof {
        assert(graph.objects@[idx as int].1.wf());
        assert(g0.objs()[idx as int].1 == ex);
    }
    let mut m = copy_object(&graph.objects[idx].1);
    let slash = match smap_find(&m.fields, "path") {
        Some(i) => match &m.fields[i].1 {
            PbxValue::String(p) => contains_str(p.as_str(), "/"),
            _ => false,
        },
        None => false,
    };
    proof {
        assert(slash == (lookup(ex.fields, "path"@) matches Some(PVal::Str(p)) && contains_seq(p, "/"@)));
    }
    let mut i: usize = 0;
    while i < incoming.fields.len()
        invariant
            m.wf(),
            m@.isa == ex.isa,
            m@.comment == ex.comment,
            incoming.wf(),
            inc == incoming@.fields,
            i <= inc.len(),
            slash == (lookup(ex.fields, "path"@) matches Some(PVal::Str(p)) && contains_seq(p, "/"@)),
            forall|k: Seq<char>| #[trigger] lookup(m@.fields, k) == if exists|j: int| 0 <= j < i && inc[j].0 == k {
                file_ref_merge(ex.fields, |x: Seq<char>| lookup(inc, x), k)
            } else {
                lookup(ex.fields, k)
            },
        decreases incoming.fields.len() - i,
    {
        let k = incoming.fields[i].0.as_str();
        let ghost kk = k@;
        proof {
            assert(inc[i as int] == (incoming.fields@[i as int].0@, incoming.fields@[i as int].1@));
            lemma_lookup_at(inc, i as int);
            reveal_strlit("name");
        }
        let skip = str_eq(k, "name") && !slash;
        let ghost m0 = m@.fields;
        let mut inserted = false;
        if !skip && !smap_contains(&m.fields, k) {
            let v = crate::graph::copy_value(&incoming.fields[i].1);
            smap_insert(&mut m.fields, k.to_owned(), v);
            inserted = true;
        }
        proof {
            assert(!(exists|j: int| 0 <= j < i && inc[j].0 == kk)) by {
                if exists|j: int| 0 <= j < i && inc[j].0 == kk {
                    let j = choose|j: int| 0 <= j < i && inc[j].0 == kk;
                    assert(crate::text::lex_lt(inc[j].0, inc[i as int].0));
                    crate::text::lemma_lex_irreflexive(kk);
                }
            }
            assert(lookup(m0, kk) == lookup(ex.fields, kk));
            if inserted {
                assert(lookup(m@.fields, kk) == Some(inc[i as int].1));
                assert(lookup(inc, kk) == Some(inc[i as int].1));
                assert(lookup(m@.fields, kk) == file_ref_merge(ex.fields, |x: Seq<char>| lookup(inc, x), kk));
            } else {
                assert(m@.fields == m0);
                assert(lookup(m@.fields, kk) == file_ref_merge(ex.fields, |x: Seq<char>| lookup(inc, x), kk));
            }
            assert forall|key: Seq<char>| #[trigger] lookup(m@.fields, key) == if exists|j: int| 0 <= j < i + 1 && inc[j].0 == key {
                file_ref_merge(ex.fields, |x: Seq<char>| lookup(inc, x), key)
            } else {
                lookup(ex.fields, key)
            } by {
                if key == kk {
                    assert(inc[i as int].0 == key);
                    if exists|j: int| 0 <= j < i && inc[j].0 == key {
                        let j = choose|j: int| 0 <= j < i && inc[j].0 == key;
                        assert(crate::text::lex_lt(inc[j].0, inc[i as int].0));
                        crate::text::lemma_lex_irreflexive(key);
                    }
                } else {
                    if exists|j: int| 0 <= j < i + 1 && inc[j].0 == key {
                        let j = choose|j: int| 0 <= j < i + 1 && inc[j].0 == key;
                        assert(j < i);
                    }
                }
            }
        }
        i = i + 1;
    }
    proof {
        assert forall|k: Seq<char>| #[trigger] lookup(m@.fields, k) == file_ref_merge(ex.fields, |x: Seq<char>| lookup(inc, x), k) by {
            if !(exists|j: int| 0 <= j < inc.len() && inc[j].0 == k) {
                if lookup(inc, k) is Some {
                    assert(has_key(inc, k));
                    let j = key_index(inc, k);
                    assert(inc[j].0 == k);
                }
            }
        }
    }
    let id = graph.objects[idx].0.clone();
    let ghost objects0 = graph.objects@;
    graph.objects.set(idx, (id, m));
    proof {
        let s0 = entries_view(objects0);
        let s1 = graph.objs();
        assert forall|q: int| 0 <= q < s1.len() implies #[trigger] s1[q].0 == s0[q].0 by {}
        assert(keys_sorted(s1));
        lemma_lookup_at(s1, idx as int);
        assert forall|k: Seq<char>| k != s0[idx as int].0 implies #[trigger] lookup(s1, k) == lookup(s0, k) by {
            if has_key(s1, k) {
                let j = key_index(s1, k);
                lemma_lookup_at(s1, j);
                lemma_lookup_at(s0, j);
            } else if has_key(s0, k) {
                let j = key_index(s0, k);
                assert(s1[j].0 == k);
            }
        }
        assert forall|q: int| 0 <= q < graph.objects@.len() implies (#[trigger] graph.objects@[q]).1.wf() by {
            if q != idx {
                assert(graph.objects@[q] == objects0[q]);
            }
        }
    }
}

/// The view of an optional string as a string value.
pub open spec fn opt_str(o: Option<String>) -> Option<PVal> {
    match o {
        Some(s) => Some(PVal::Str(s@)),
        None => None,
    }
}

/// The fields of a file reference.
pub open spec fn file_ref_field(
    k: Seq<char>,
    path: Option<String>,
    file_type: Option<String>,
    name: Option<String>,
    source_tree: Seq<char>,
    include_in_index: bool,
) -> Option<PVal> {
    if k == "includeInIndex"@ {
        if include_in_index { None } else { Some(PVal::Int(0)) }
    } else if k == "lastKnownFileType"@ {
        opt_str(file_type)
    } else if k == "name"@ {
        opt_str(name)
    } else if k == "path"@ {
        opt_str(path)
    } else if k == "sourceTree"@ {
        Some(PVal::Str(source_tree))
    } else {
        None
    }
}

fn field_opt(object: PbxObject, key: &str, value: Option<String>) -> (r: PbxObject)
    requires
        object.wf(),
    ensures
        r.wf(),
        r@.isa == object@.isa,
        r@.comment == object@.comment,
        forall|k: Seq<char>| #[trigger] lookup(r@.fields, k) == if k == key@ && value is Some {
            opt_str(value)
        } else {
            lookup(object@.fields, k)
        },
{
    match value {
        Some(v) => object.field(key, PbxValue::String(v)),
        None => object,
    }
}

impl<'a> PbxGenerator<'a> {
    /// Stores a file reference under `key`; where one is stored there, it
    /// takes the fields it is missing (a name only where its path holds a
    /// `/`).
    pub fn add_file_reference(
        &mut self,
        key: &str,
        comment: String,
        path: Option<String>,
        last_known_file_type: Option<String>,
        name: Option<String>,
        source_tree: &str,
        include_in_index: bool,
    ) -> (r: String)
        requires
            old(self).inv(),
        ensures
            final(self).inv(),
            crate::generator::keeps_natives(old(self).graph, final(self).graph),
            final(self).project == old(self).project,
            final(self).product_refs == old(self).product_refs,
            r@ == object_id_spec(key@, 0),
            forall|k: Seq<char>| k != r@ ==> #[trigger] lookup(final(self).graph.objs(), k) == lookup(old(self).graph.objs(), k),
            stored_as(old(self).graph, final(self).graph, r@, "PBXFileReference"@, comment@, |k: Seq<char>| file_ref_field(
                k,
                path,
                last_known_file_type,
                name,
                source_tree@,
                include_in_index,
            )),
            lookup(old(self).graph.objs(), r@) matches Some(e) ==> (lookup(final(self).graph.objs(), r@) matches Some(m)
                && m.isa == e.isa && m.comment == e.comment && forall|k: Seq<char>| #[trigger] lookup(m.fields, k) == file_ref_merge(
                e.fields,
                |x: Seq<char>| file_ref_field(x, path, last_known_file_type, name, source_tree@, include_in_index),
                k,
            )),
            lookup(final(self).graph.objs(), r@) is Some,
    {
        let ghost (p0, t0, n0) = (path, last_known_file_type, name);
        proof {
            reveal_strlit("includeInIndex");
            reveal_strlit("lastKnownFileType");
            reveal_strlit("name");
            reveal_strlit("path");
            reveal_strlit("sourceTree");
            assert("includeInIndex"@.len() == 14);
            assert("lastKnownFileType"@.len() == 17);
            assert("name"@.len() == 4);
            assert("path"@.len() == 4);
            assert("sourceTree"@.len() == 10);
            assert("name"@[0] != "path"@[0]);
        }
        let mut object = PbxObject::new("PBXFileReference", comment);
        if !include_in_index {
            object = object.field("includeInIndex", PbxValue::Int(0));
        }
        let ghost f1 = object@.fields;
        proof {
            assert forall|k: Seq<char>| #[trigger] lookup(f1, k) == (if k == "includeInIndex"@ && !include_in_index { Some(PVal::Int(0)) } else { None }) by {}
        }
        object = field_opt(object, "lastKnownFileType", last_known_file_type);
        let ghost f2 = object@.fields;
        object = field_opt(object, "name", name);
        let ghost f3 = object@.fields;
        object = field_opt(object, "path", path);
        let ghost f4 = object@.fields;
        object = object.field("sourceTree", PbxValue::String(string_from(source_tree)));
        proof {
            assert forall|k: Seq<char>| #[trigger] lookup(object@.fields, k) == file_ref_field(k, p0, t0, n0, source_tree@, include_in_index) by {
                assert(lookup(object@.fields, k) == if k == "sourceTree"@ { Some(PVal::Str(source_tree@)) } else { lookup(f4, k) });
                assert(lookup(f4, k) == if k == "path"@ && p0 is Some { opt_str(p0) } else { lookup(f3, k) });
                assert(lookup(f3, k) == if k == "name"@ && n0 is Some { opt_str(n0) } else { lookup(f2, k) });
                assert(lookup(f2, k) == if k == "lastKnownFileType"@ && t0 is Some { opt_str(t0) } else { lookup(f1, k) });
            }
            assert forall|k: Seq<char>| #[trigger] lookup(object@.fields, k) is Some implies pdepth(lookup(object@.fields, k)->0) < field_cap() by {
                assert(lookup(object@.fields, k) == file_ref_field(k, p0, t0, n0, source_tree@, include_in_index));
            }
            lemma_fields_below(object@.fields, field_cap());
        }
        let id = self.graph.id_for(key);
        match smap_find(&self.graph.objects, id.as_str()) {
            Some(idx) => {
                let ghost g0 = self.graph;
                let ghost ex = g0.objs()[idx as int].1;
                proof {
                    assert(g0.objs()[idx as int].0 == id@);
                    lemma_lookup_at(g0.objs(), idx as int);
                    assert(g0.objects@[idx as int].1.wf());
                    assert(entries_below(ex.fields, field_cap()));
                }
                merge_into_file_ref(&mut self.graph, idx, &object);
                proof {
                    let m = lookup(self.graph.objs(), id@)->0;
                    let jn = key_index(self.graph.objs(), id@);
                    lemma_lookup_at(self.graph.objs(), jn);
                    assert(self.graph.objects@[jn].1.wf());
                    assert forall|k: Seq<char>| #[trigger] lookup(m.fields, k) is Some implies pdepth(lookup(m.fields, k)->0) < field_cap() by {
                        if has_key(ex.fields, k) {
                            lemma_lookup_at(ex.fields, key_index(ex.fields, k));
                        }
                        if has_key(object@.fields, k) {
                            lemma_lookup_at(object@.fields, key_index(object@.fields, k));
                        }
                    }
                    lemma_fields_below(m.fields, field_cap());
                    assert forall|i: int| 0 <= i < self.graph.objs().len() implies entries_below(#[trigger] self.graph.objs()[i].1.fields, field_cap()) by {
                        let k = self.graph.objs()[i].0;
                        lemma_lookup_at(self.graph.objs(), i);
                        if k != id@ {
                            let j = key_index(g0.objs(), k);
                            assert(has_key(g0.objs(), k));
                            lemma_lookup_at(g0.objs(), j);
                            assert(entries_below(g0.objs()[j].1.fields, field_cap()));
                        }
                    }
                    assert(forall|k: Seq<char>| #[trigger] lookup(object@.fields, k) == file_ref_field(k, p0, t0, n0, source_tree@, include_in_index));
                }
                id
            }
            None => {
                let ghost g0 = self.graph;
                let ghost o = object@;
                proof {
                    reveal_strlit("PBXFileReference");
                    assert("PBXFileReference"@.len() == 16);
                    lemma_other_class("PBXFileReference"@);
                }
                let r = self.add_object(key, object);
                r
            }
        }
    }
}

/// Every setting of every configuration nests less than the project cap
/// allows.
pub open spec fn settings_by_config_shallow(s: Seq<(String, Vec<(String, PbxValue)>)>) -> bool {
    forall|i: int, j: int| 0 <= i < s.len() && 0 <= j < s[i].1@.len() ==> pdepth(#[trigger] s[i].1@[j].1@) < 1001
}

/// The build settings given for a configuration, or none.
pub open spec fn settings_for(s: Seq<(Seq<char>, Seq<(Seq<char>, PVal)>)>, c: Seq<char>) -> Seq<(Seq<char>, PVal)> {
    match lookup(s, c) {
        Some(e) => e,
        None => Seq::empty(),
    }
}

/// The view of settings by configuration.
pub open spec fn sbc_view(s: Seq<(String, Vec<(String, PbxValue)>)>) -> Seq<(Seq<char>, Seq<(Seq<char>, PVal)>)> {
    s.map_values(|e: (String, Vec<(String, PbxValue)>)| (e.0@, entries_view(e.1@)))
}

/// A copy of a list of settings.
pub fn copy_settings(v: &Vec<(String, PbxValue)>) -> (r: Vec<(String, PbxValue)>)
    ensures
        entries_view(r@) == entries_view(v@),
{
    let mut out: Vec<(String, PbxValue)> = Vec::new();
    let mut i: usize = 0;
    while i < v.len()
        invariant
            i <= v@.len(),
            out@.len() == i,
            forall|q: int| 0 <= q < i ==> #[trigger] out@[q].0@ == v@[q].0@ && out@[q].1@ == v@[q].1@,
        decreases v.len() - i,
    {
        let k = v[i].0.clone();
        let c = crate::graph::copy_value(&v[i].1);
        let ghost before = out@;
        out.push((k, c));
        proof {
            assert forall|q: int| 0 <= q < i + 1 implies #[trigger] out@[q].0@ == v@[q].0@ && out@[q].1@ == v@[q].1@ by {
                if q < i {
                    assert(out@[q] == before[q]);
                }
            }
        }
        i = i + 1;
    }
    proof {
        assert(entries_view(out@) =~= entries_view(v@));
    }
    out
}

/// The fields of a build configuration.
pub open spec fn build_config_field(k: Seq<char>, settings: Seq<(Seq<char>, PVal)>, name: Seq<char>) -> Option<PVal> {
    if k == "buildSettings"@ {
        Some(PVal::Dict(settings))
    } else if k == "name"@ {
        Some(PVal::Str(name))
    } else {
        None
    }
}

/// The fields of a configuration list.
pub open spec fn config_list_field(k: Seq<char>, configs: Seq<PVal>, default_name: Seq<char>) -> Option<PVal> {
    if k == "buildConfigurations"@ {
        Some(PVal::Array(configs))
    } else if k == "defaultConfigurationIsVisible"@ {
        Some(PVal::Int(0))
    } else if k == "defaultConfigurationName"@ {
        Some(PVal::Str(default_name))
    } else {
        None
    }
}

/// The key of the build configuration of an owner.
pub open spec fn build_config_key(owner_type: Seq<char>, owner_name: Seq<char>, config: Seq<char>) -> Seq<char> {
    "buildConfig:"@ + owner_type + ":"@ + owner_name + ":"@ + config
}

/// The references a configuration list holds: one per configuration name.
pub open spec fn config_refs(owner_type: Seq<char>, owner_name: Seq<char>, names: Seq<Seq<char>>) -> Seq<PVal> {
    names.map_values(|c: Seq<char>| PVal::Ref(object_id_spec(build_config_key(owner_type, owner_name, c), 0), Some(c)))
}

impl<'a> PbxGenerator<'a> {
    /// Stores the build configuration of `config` for an owner.
    fn add_build_config(&mut self, owner_type: &str, owner_name: &str, config: &String,
        settings_by_config: &Vec<(String, Vec<(String, PbxValue)>)>) -> (r: String)
        requires
            old(self).inv(),
            keys_sorted(sbc_view(settings_by_config@)),
            forall|i: int| 0 <= i < settings_by_config@.len() ==> keys_sorted(entries_view(#[trigger] settings_by_config@[i].1@)),
            settings_by_config_shallow(settings_by_config@),
        ensures
            final(self).inv(),
            crate::generator::keeps_natives(old(self).graph, final(self).graph),
            final(self).project == old(self).project,
            final(self).product_refs == old(self).product_refs,
            r@ == object_id_spec(build_config_key(owner_type@, owner_name@, config@), 0),
            adds_at(old(self).graph, final(self).graph, r@),
            stored_as(old(self).graph, final(self).graph, r@, "XCBuildConfiguration"@, config@, |k: Seq<char>| build_config_field(
                k,
                settings_for(sbc_view(settings_by_config@), config@),
                config@,
            )),
    {
        let ghost sv = sbc_view(settings_by_config@);
        let settings: Vec<(String, PbxValue)> = {
            let mut found: Option<usize> = None;
            let mut i: usize = 0;
            while i < settings_by_config.len()
                invariant
                    sv == sbc_view(settings_by_config@),
                    i <= settings_by_config@.len(),
                    found is None ==> forall|q: int| 0 <= q < i ==> sv[q].0 != config@,
                    found matches Some(f) ==> f < settings_by_config@.len() && sv[f as int].0 == config@,
                decreases settings_by_config.len() - i,
            {
                if found.is_none() && str_eq(settings_by_config[i].0.as_str(), config.as_str()) {
                    found = Some(i);
                }
                i = i + 1;
            }
            match found {
                Some(f) => {
                    proof {
                        lemma_lookup_at(sv, f as int);
                    }
                    copy_settings(&settings_by_config[f].1)
                },
                None => {
                    proof {
                        assert(!has_key(sv, config@));
                    }
                    let e: Vec<(String, PbxValue)> = Vec::new();
                    proof {
                        assert(entries_view(e@) =~= Seq::<(Seq<char>, PVal)>::empty());
                    }
                    e
                },
            }
        };
        let ghost sf = entries_view(settings@);
        proof {
            assert(sf == settings_for(sv, config@));
            assert forall|j: int| 0 <= j < sf.len() implies pdepth(#[trigger] sf[j].1) < 1001 by {
                if lookup(sv, config@) is Some {
                    let f = key_index(sv, config@);
                    lemma_lookup_at(sv, f);
                    assert(sf[j].1 == settings_by_config@[f].1@[j].1@);
                }
            }
            crate::depth::lemma_dict_below(sf, 1001);
            lemma_dict_view_entries(settings@);
            reveal_strlit("buildSettings");
            reveal_strlit("name");
            assert("buildSettings"@.len() == 13);
            assert("name"@.len() == 4);
        }
        let object = PbxObject::new("XCBuildConfiguration", config.clone())
            .field("buildSettings", PbxValue::Dict(settings))
            .field("name", PbxValue::String(config.clone()));
        proof {
            assert forall|k: Seq<char>| #[trigger] lookup(object@.fields, k) == build_config_field(k, sf, config@) by {}
            assert forall|k: Seq<char>| #[trigger] lookup(object@.fields, k) is Some implies pdepth(lookup(object@.fields, k)->0) < field_cap() by {
                assert(lookup(object@.fields, k) == build_config_field(k, sf, config@));
            }
            lemma_fields_below(object@.fields, field_cap());
        }
        let key = crate::text::concat3("buildConfig:", owner_type, ":");
        let key = crate::text::concat3(key.as_str(), owner_name, ":");
        let key = concat2(key.as_str(), config.as_str());
        proof {
            assert(key@ =~= build_config_key(owner_type@, owner_name@, config@));
        }
        let ghost g0 = self.graph;
        let ghost o = object@;
        proof {
            reveal_strlit("XCBuildConfiguration");
            assert("XCBuildConfiguration"@.len() == 20);
            crate::generator::lemma_other_class("XCBuildConfiguration"@);
        }
        let r = self.add_object(key.as_str(), object);
        proof {
            lemma_add_adds_at(g0, self.graph, key@, o, r@);
        }
        r
    }
}

/// The comment of a configuration list.
pub open spec fn config_list_comment(owner_type: Seq<char>, owner_name: Seq<char>) -> Seq<char> {
    "Build configuration list for "@ + owner_type + " \""@ + owner_name + "\""@
}

impl<'a> PbxGenerator<'a> {
    /// Stores a build configuration for each of the project's configurations
    /// and the configuration list that holds them, under `configList:`, the
    /// owner's class and name.
    pub fn add_configuration_list(&mut self, owner_type: &str, owner_name: &str,
        settings_by_config: &Vec<(String, Vec<(String, PbxValue)>)>) -> (r: String)
        requires
            old(self).inv(),
            keys_sorted(sbc_view(settings_by_config@)),
            forall|i: int| 0 <= i < settings_by_config@.len() ==> keys_sorted(entries_view(#[trigger] settings_by_config@[i].1@)),
            settings_by_config_shallow(settings_by_config@),
        ensures
            final(self).inv(),
            crate::generator::keeps_natives(old(self).graph, final(self).graph),
            final(self).project == old(self).project,
            final(self).product_refs == old(self).product_refs,
            r@ == object_id_spec("configList:"@ + owner_type@ + ":"@ + owner_name@, 0),
            lookup(final(self).graph.objs(), r@) is Some,
            (forall|i: int| 0 <= i < config_names_spec(old(self).project).len() ==> object_id_spec(
                build_config_key(owner_type@, owner_name@, #[trigger] config_names_spec(old(self).project)[i]),
                0,
            ) != r@) ==> stored_as(old(self).graph, final(self).graph, r@, "XCConfigurationList"@, config_list_comment(
                owner_type@,
                owner_name@,
            ), |k: Seq<char>| config_list_field(
                k,
                config_refs(owner_type@, owner_name@, config_names_spec(old(self).project)),
                default_configuration_name_spec(old(self).project),
            )),
    {
        let ghost g_start = self.graph;
        let ghost list_key = "configList:"@ + owner_type@ + ":"@ + owner_name@;
        let ghost rid = object_id_spec(list_key, 0);
        let names = config_names(self.project);
        let ghost nv = names@.map_values(|s: String| s@);
        let mut refs: Vec<PbxValue> = Vec::new();
        let mut i: usize = 0;
        while i < names.len()
            invariant
                self.inv(),
                crate::generator::keeps_natives(old(self).graph, self.graph),
                self.project == old(self).project,
                self.product_refs == old(self).product_refs,
                keys_sorted(sbc_view(settings_by_config@)),
                forall|q: int| 0 <= q < settings_by_config@.len() ==> keys_sorted(entries_view(#[trigger] settings_by_config@[q].1@)),
                settings_by_config_shallow(settings_by_config@),
                nv == names@.map_values(|s: String| s@),
                i <= names@.len(),
                all_items_view(refs@) == config_refs(owner_type@, owner_name@, nv.take(i as int)),
                (forall|q: int| 0 <= q < i ==> object_id_spec(build_config_key(owner_type@, owner_name@, #[trigger] nv[q]), 0) != rid)
                    ==> lookup(self.graph.objs(), rid) == lookup(g_start.objs(), rid),
            decreases names.len() - i,
        {
            let ghost g0 = self.graph;
            let id = self.add_build_config(owner_type, owner_name, &names[i], settings_by_config);
            let ghost before = refs@;
            refs.push(PbxValue::reference(id, names[i].clone()));
            proof {
                assert(nv[i as int] == names@[i as int]@);
                crate::graph::lemma_items_view(refs@, refs@.len() as int);
                crate::graph::lemma_items_view(before, before.len() as int);
                assert(all_items_view(refs@) =~= all_items_view(before).push(PVal::Ref(id@, Some(nv[i as int]))));
                assert(nv.take(i + 1) =~= nv.take(i as int).push(nv[i as int]));
                assert(config_refs(owner_type@, owner_name@, nv.take(i + 1)) =~= config_refs(owner_type@, owner_name@, nv.take(i as int)).push(PVal::Ref(id@, Some(nv[i as int]))));
                if forall|q: int| 0 <= q < i + 1 ==> object_id_spec(build_config_key(owner_type@, owner_name@, #[trigger] nv[q]), 0) != rid {
                    assert(object_id_spec(build_config_key(owner_type@, owner_name@, nv[i as int]), 0) != rid);
                    assert(lookup(self.graph.objs(), rid) == lookup(g0.objs(), rid));
                }
            }
            i = i + 1;
        }
        proof {
            assert(nv.take(names@.len() as int) =~= nv);
            lemma_items_view(refs@, refs@.len() as int);
        }
        let ghost rv = all_items_view(refs@);
        let default_name = default_configuration_name(self.project);
        let comment = crate::text::concat3("Build configuration list for ", owner_type, " \"");
        let comment = crate::text::concat3(comment.as_str(), owner_name, "\"");
        proof {
            assert forall|q: int| 0 <= q < rv.len() implies (#[trigger] rv[q]) is Ref by {
                assert(rv[q] == config_refs(owner_type@, owner_name@, nv)[q]);
            }
            lemma_refs_shallow(rv);
            reveal_strlit("buildConfigurations");
            reveal_strlit("defaultConfigurationIsVisible");
            reveal_strlit("defaultConfigurationName");
            assert("buildConfigurations"@.len() == 19);
            assert("defaultConfigurationIsVisible"@.len() == 29);
            assert("defaultConfigurationName"@.len() == 24);
        }
        let object = PbxObject::new("XCConfigurationList", comment)
            .field("buildConfigurations", PbxValue::Array(refs))
            .field("defaultConfigurationIsVisible", PbxValue::Int(0))
            .field("defaultConfigurationName", PbxValue::String(default_name));
        proof {
            assert(object@.comment == Some(config_list_comment(owner_type@, owner_name@)));
            assert forall|k: Seq<char>| #[trigger] lookup(object@.fields, k) == config_list_field(k, rv, default_configuration_name_spec(self.project)) by {}
            assert forall|k: Seq<char>| #[trigger] lookup(object@.fields, k) is Some implies pdepth(lookup(object@.fields, k)->0) < field_cap() by {
                assert(lookup(object@.fields, k) == config_list_field(k, rv, default_configuration_name_spec(self.project)));
            }
            lemma_fields_below(object@.fields, field_cap());
        }
        let key = crate::text::concat3("configList:", owner_type, ":");
        let key = concat2(key.as_str(), owner_name);
        proof {
            assert(key@ =~= list_key);
        }
        proof {
            reveal_strlit("XCConfigurationList");
            assert("XCConfigurationList"@.len() == 19);
            crate::generator::lemma_other_class("XCConfigurationList"@);
        }
        self.add_object(key.as_str(), object)
    }
}

/// The fields of a target's product reference.
pub open spec fn product_ref_field(k: Seq<char>, t: Target) -> Option<PVal> {
    let ft = crate::products::file_type_for_path_spec(t.product_filename@, Some(t.target_type));
    if k == "includeInIndex"@ {
        Some(PVal::Int(0))
    } else if k == "explicitFileType"@ {
        if t.target_type != crate::products::ProductType::CommandLineTool
            && crate::products::product_uses_explicit_file_type_spec(t.target_type, t.platform) {
            Some(PVal::Str(ft))
        } else {
            None
        }
    } else if k == "lastKnownFileType"@ {
        if t.target_type != crate::products::ProductType::CommandLineTool
            && !crate::products::product_uses_explicit_file_type_spec(t.target_type, t.platform) {
            Some(PVal::Str(ft))
        } else {
            None
        }
    } else if k == "path"@ {
        Some(PVal::Str(t.product_filename@))
    } else if k == "sourceTree"@ {
        Some(PVal::Str("BUILT_PRODUCTS_DIR"@))
    } else {
        None
    }
}

/// Whether a field value is a string, an integer or a reference.
proof fn lemma_flat_fields_below(fields: Seq<(Seq<char>, PVal)>)
    requires
        keys_sorted(fields),
        forall|k: Seq<char>| #[trigger] lookup(fields, k) is Some ==> !(lookup(fields, k)->0 is Array) && !(lookup(fields, k)->0 is Dict),
    ensures
        entries_below(fields, field_cap()),
{
    assert forall|k: Seq<char>| #[trigger] lookup(fields, k) is Some implies pdepth(lookup(fields, k)->0) < field_cap() by {}
    lemma_fields_below(fields, field_cap());
}

impl<'a> PbxGenerator<'a> {
    /// Stores the reference to a target's product, under `productRef:` and
    /// the target's name.
    pub fn add_product_reference(&mut self, target: &Target) -> (r: String)
        requires
            old(self).inv(),
        ensures
            final(self).inv(),
            crate::generator::keeps_natives(old(self).graph, final(self).graph),
            final(self).project == old(self).project,
            final(self).product_refs == old(self).product_refs,
            r@ == object_id_spec("productRef:"@ + target.name@, 0),
            adds_at(old(self).graph, final(self).graph, r@),
            stored_as(old(self).graph, final(self).graph, r@, "PBXFileReference"@, target.product_filename@,
                |k: Seq<char>| product_ref_field(k, *target)),
    {
        proof {
            reveal_strlit("includeInIndex");
            reveal_strlit("explicitFileType");
            reveal_strlit("lastKnownFileType");
            reveal_strlit("path");
            reveal_strlit("sourceTree");
            assert("includeInIndex"@.len() == 14);
            assert("explicitFileType"@.len() == 16);
            assert("lastKnownFileType"@.len() == 17);
            assert("path"@.len() == 4);
            assert("sourceTree"@.len() == 10);
        }
        let file_type = crate::products::file_type_for_path(target.product_filename.as_str(), Some(&target.target_type));
        let mut object = PbxObject::new("PBXFileReference", target.product_filename.clone())
            .field("includeInIndex", PbxValue::Int(0));
        let ghost f1 = object@.fields;
        let is_tool = match target.target_type {
            crate::products::ProductType::CommandLineTool => true,
            _ => false,
        };
        if !is_tool {
            if crate::products::product_uses_explicit_file_type(&target.target_type, target.platform) {
                object = object.field("explicitFileType", PbxValue::String(file_type));
            } else {
                object = object.field("lastKnownFileType", PbxValue::String(file_type));
            }
        }
        let ghost f2 = object@.fields;
        object = object.field("path", PbxValue::String(target.product_filename.clone()));
        object = object.field("sourceTree", PbxValue::String(string_from("BUILT_PRODUCTS_DIR")));
        proof {
            assert forall|k: Seq<char>| #[trigger] lookup(object@.fields, k) == product_ref_field(k, *target) by {
                assert(lookup(f1, k) == if k == "includeInIndex"@ { Some(PVal::Int(0)) } else { None });
            }
            assert forall|k: Seq<char>| #[trigger] lookup(object@.fields, k) is Some implies !(lookup(object@.fields, k)->0 is Array)
                && !(lookup(object@.fields, k)->0 is Dict) by {
                assert(lookup(object@.fields, k) == product_ref_field(k, *target));
            }
            lemma_flat_fields_below(object@.fields);
        }
        let key = concat2("productRef:", target.name.as_str());
        let ghost g0 = self.graph;
        let ghost o = object@;
        proof {
            reveal_strlit("PBXFileReference");
            assert("PBXFileReference"@.len() == 16);
            crate::generator::lemma_other_class("PBXFileReference"@);
        }
        let r = self.add_object(key.as_str(), object);
        proof {
            lemma_add_adds_at(g0, self.graph, key@, o, r@);
        }
        r
    }
}

/// The platform a dependency is filtered to, as the project file names it.
pub open spec fn platform_filter_spec(f: crate::model::PlatformFilter) -> Option<Seq<char>> {
    match f {
        crate::model::PlatformFilter::Ios => Some("ios"@),
        crate::model::PlatformFilter::Macos => Some("macos"@),
        crate::model::PlatformFilter::All => None,
    }
}

/// The platform a dependency is filtered to.
pub fn target_dependency_platform_filter(dependency: Option<&crate::model::Dependency>) -> (r: Option<String>)
    ensures
        match dependency {
            Some(d) => match platform_filter_spec(d.platform_filter) {
                Some(f) => r is Some && r->0@ == f,
                None => r is None,
            },
            None => r is None,
        },
{
    match dependency {
        Some(d) => match d.platform_filter {
            crate::model::PlatformFilter::Ios => Some(string_from("ios")),
            crate::model::PlatformFilter::Macos => Some(string_from("macos")),
            crate::model::PlatformFilter::All => None,
        },
        None => None,
    }
}

/// A path without its leading `./` components (`trim_start_matches("./")`).
pub open spec fn trim_dot_slash(s: Seq<char>) -> Seq<char>
    decreases s.len(),
{
    if s.len() >= 2 && s[0] == '.' && s[1] == '/' {
        trim_dot_slash(s.skip(2))
    } else {
        s
    }
}

/// A path without its leading `./` components.
pub fn trim_leading_dot_slash(path: &str) -> (r: String)
    ensures
        r@ == trim_dot_slash(path@),
{
    let cs = crate::text::chars_of(path);
    let mut i: usize = 0;
    proof {
        assert(cs@.skip(0) =~= cs@);
    }
    while cs.len() - i >= 2 && cs[i] == '.' && cs[i + 1] == '/'
        invariant
            cs@ == path@,
            i <= cs@.len(),
            trim_dot_slash(path@) == trim_dot_slash(cs@.skip(i as int)),
        decreases cs.len() - i,
    {
        proof {
            assert(cs@.skip(i as int).skip(2) =~= cs@.skip(i + 2));
        }
        i = i + 2;
    }
    let r = crate::paths::string_of_range(&cs, i, cs.len());
    proof {
        assert(cs@.subrange(i as int, cs@.len() as int) =~= cs@.skip(i as int));
    }
    r
}

/// The fields of a container proxy.
pub open spec fn proxy_field(k: Seq<char>, portal: PVal, remote_id: Seq<char>, remote_info: Seq<char>) -> Option<PVal> {
    if k == "containerPortal"@ {
        Some(portal)
    } else if k == "proxyType"@ {
        Some(PVal::Int(1))
    } else if k == "remoteGlobalIDString"@ {
        Some(PVal::Str(remote_id))
    } else if k == "remoteInfo"@ {
        Some(PVal::Str(remote_info))
    } else {
        None
    }
}

impl<'a> PbxGenerator<'a> {
    /// Stores the proxy through which a target depends on another.
    fn add_container_proxy(&mut self, key: &str, portal: PbxValue, remote_id: String, remote_info: &str) -> (r: String)
        requires
            old(self).inv(),
            portal@ is Ref,
        ensures
            final(self).inv(),
            crate::generator::keeps_natives(old(self).graph, final(self).graph),
            final(self).project == old(self).project,
            final(self).product_refs == old(self).product_refs,
            r@ == object_id_spec(key@, 0),
            adds_at(old(self).graph, final(self).graph, r@),
            stored_as(old(self).graph, final(self).graph, r@, "PBXContainerItemProxy"@, "PBXContainerItemProxy"@,
                |k: Seq<char>| proxy_field(k, portal@, remote_id@, remote_info@)),
    {
        let ghost pv = portal@;
        let ghost rv = remote_id@;
        proof {
            reveal_strlit("containerPortal");
            reveal_strlit("proxyType");
            reveal_strlit("remoteGlobalIDString");
            reveal_strlit("remoteInfo");
            assert("containerPortal"@.len() == 15);
            assert("proxyType"@.len() == 9);
            assert("remoteGlobalIDString"@.len() == 20);
            assert("remoteInfo"@.len() == 10);
        }
        let object = PbxObject::new("PBXContainerItemProxy", string_from("PBXContainerItemProxy"))
            .field("containerPortal", portal)
            .field("proxyType", PbxValue::Int(1))
            .field("remoteGlobalIDString", PbxValue::String(remote_id))
            .field("remoteInfo", PbxValue::String(string_from(remote_info)));
        proof {
            assert forall|k: Seq<char>| #[trigger] lookup(object@.fields, k) == proxy_field(k, pv, rv, remote_info@) by {}
            assert forall|k: Seq<char>| #[trigger] lookup(object@.fields, k) is Some implies !(lookup(object@.fields, k)->0 is Array)
                && !(lookup(object@.fields, k)->0 is Dict) by {
                assert(lookup(object@.fields, k) == proxy_field(k, pv, rv, remote_info@));
            }
            lemma_flat_fields_below(object@.fields);
        }
        let ghost g0 = self.graph;
        let ghost o = object@;
        proof {
            reveal_strlit("PBXContainerItemProxy");
            assert("PBXContainerItemProxy"@.len() == 21);
            crate::generator::lemma_other_class("PBXContainerItemProxy"@);
        }
        let r = self.add_object(key, object);
        proof {
            lemma_add_adds_at(g0, self.graph, key@, o, r@);
        }
        r
    }

    /// Stores the dependency of one target on another, with its proxy,
    /// under `targetDependency:` and both names; a name `project/target`
    /// names a target of a referenced project.
    pub fn add_target_dependency(&mut self, target_name: &str, dependency_name: &str,
        dependency: Option<&crate::model::Dependency>) -> (r: String)
        requires
            old(self).inv(),
        ensures
            final(self).inv(),
            crate::generator::keeps_natives(old(self).graph, final(self).graph),
            final(self).project == old(self).project,
            final(self).product_refs == old(self).product_refs,
            r@ == object_id_spec("targetDependency:"@ + target_name@ + ":"@ + dependency_name@, 0),
            lookup(final(self).graph.objs(), r@) is Some,
    {
        let filter = target_dependency_platform_filter(dependency);
        let key = crate::text::concat3("targetDependency:", target_name, ":");
        let key = concat2(key.as_str(), dependency_name);
        let mut object;
        match crate::text::find_str(dependency_name, "/") {
            Some(slash) => {
                let cs = crate::text::chars_of(dependency_name);
                let n = cs.len();
                proof {
                    crate::text::lemma_find_from_bound(dependency_name@, "/"@, 0);
                    reveal_strlit("/");
                    assert("/"@.len() == 1);
                    assert(cs@ == dependency_name@);
                    assert(slash + 1 <= n);
                }
                let project_name = crate::paths::string_of_range(&cs, 0, slash);
                let external = crate::paths::string_of_range(&cs, slash + 1, n);
                let ref_key = concat2("projectReference:", project_name.as_str());
                let path = trim_leading_dot_slash(project_name.as_str());
                let project_ref = self.add_file_reference(ref_key.as_str(), project_name.clone(), Some(path),
                    Some(string_from("wrapper.pb-project")), Some(project_name.clone()), "<group>", true);
                let proxy_key = crate::text::concat3("projectReferenceTargetProxy:", target_name, ":");
                let proxy_key = concat2(proxy_key.as_str(), dependency_name);
                let remote_key = concat2("nativeTarget:", external.as_str());
                let remote = self.graph.id_for(remote_key.as_str());
                let proxy = self.add_container_proxy(proxy_key.as_str(), PbxValue::reference(project_ref, project_name),
                    remote, external.as_str());
                object = PbxObject::new("PBXTargetDependency", string_from("PBXTargetDependency"))
                    .field("name", PbxValue::String(external))
                    .field("targetProxy", PbxValue::reference(proxy, string_from("PBXContainerItemProxy")));
            },
            None => {
                let project_id = self.graph.id_for("project");
                let target_key = if is_aggregate_name(self.project, dependency_name) {
                    concat2("aggregateTarget:", dependency_name)
                } else {
                    concat2("nativeTarget:", dependency_name)
                };
                let dependency_target_id = self.graph.id_for(target_key.as_str());
                let proxy_key = crate::text::concat3("containerProxy:", target_name, ":");
                let proxy_key = concat2(proxy_key.as_str(), dependency_name);
                let proxy = self.add_container_proxy(proxy_key.as_str(),
                    PbxValue::reference(project_id, string_from("Project object")), dependency_target_id.clone(), dependency_name);
                object = PbxObject::new("PBXTargetDependency", string_from("PBXTargetDependency"))
                    .field("target", PbxValue::reference(dependency_target_id, string_from(dependency_name)))
                    .field("targetProxy", PbxValue::reference(proxy, string_from("PBXContainerItemProxy")));
            },
        }
        if let Some(f) = filter {
            object = object.field("platformFilter", PbxValue::String(f));
        }
        proof {
            assert forall|k: Seq<char>| #[trigger] lookup(object@.fields, k) is Some implies !(lookup(object@.fields, k)->0 is Array)
                && !(lookup(object@.fields, k)->0 is Dict) by {}
            lemma_flat_fields_below(object@.fields);
            assert(key@ =~= "targetDependency:"@ + target_name@ + ":"@ + dependency_name@);
        }
        proof {
            reveal_strlit("PBXTargetDependency");
            assert("PBXTargetDependency"@.len() == 19);
            crate::generator::lemma_other_class("PBXTargetDependency"@);
        }
        self.add_object(key.as_str(), object)
    }
}

/// A file of a target as the target's phases see it: its build file (when
/// it goes to a phase), its name, and its phase.
pub struct FileBuildRefs {
    pub build_file_id: Option<String>,
    pub name: String,
    pub build_phase: Option<crate::files::BuildPhase>,
}

/// The distinct paths among the first `n`, in order of first appearance.
pub open spec fn distinct_paths(files: Seq<String>, n: int) -> Seq<Seq<char>>
    decreases n,
{
    if n <= 0 || n > files.len() {
        Seq::empty()
    } else {
        let d = distinct_paths(files, n - 1);
        if d.contains(files[n - 1]@) { d } else { d.push(files[n - 1]@) }
    }
}

/// The key of a file's build file in a phase of a target.
pub open spec fn build_file_key(target: Seq<char>, path: Seq<char>, phase: crate::files::BuildPhase) -> Seq<char> {
    "buildFile:"@ + target + ":"@ + path + ":"@ + crate::files::phase_text(phase)
}

/// What a target's file is to its phases.
pub open spec fn file_refs_match(r: FileBuildRefs, t: Target, path: Seq<char>) -> bool {
    &&& r.name@ == crate::paths::display_name_spec(path)
    &&& r.build_phase == crate::files::file_phase_spec(t, path)
    &&& match r.build_phase {
        Some(p) => r.build_file_id matches Some(id) && id@ == object_id_spec(build_file_key(t.name@, path, p), 0),
        None => r.build_file_id is None,
    }
}

/// The phase name written in a build file's comment.
pub open spec fn comment_phase(p: crate::files::BuildPhase) -> Seq<char> {
    if p == crate::files::BuildPhase::CopyHeaders { "CopyFiles"@ } else { crate::files::phase_text(p) }
}

/// Whether a path's file type is worth recording on its reference.
pub open spec fn recorded_file_type(path: Seq<char>) -> Option<Seq<char>> {
    let t = crate::products::file_type_for_path_spec(path, None);
    if crate::text::ends_with_seq(path, ".xctestplan"@) || t == "file"@ { None } else { Some(t) }
}

fn contains_path(v: &Vec<String>, x: &str) -> (r: bool)
    ensures
        r == v@.map_values(|s: String| s@).contains(x@),
{
    let ghost vs = v@.map_values(|s: String| s@);
    let mut i: usize = 0;
    while i < v.len()
        invariant
            vs == v@.map_values(|s: String| s@),
            i <= v@.len(),
            forall|k: int| 0 <= k < i ==> vs[k] != x@,
        decreases v.len() - i,
    {
        if str_eq(v[i].as_str(), x) {
            proof {
                assert(vs[i as int] == x@);
            }
            return true;
        }
        i = i + 1;
    }
    false
}

impl<'a> PbxGenerator<'a> {
    /// Stores the reference of a file of the project, under
    /// `navigatorFileRef:` and its path.
    pub fn add_regular_source_file_reference(&mut self, path: &str) -> (r: String)
        requires
            old(self).inv(),
        ensures
            final(self).inv(),
            crate::generator::keeps_natives(old(self).graph, final(self).graph),
            final(self).project == old(self).project,
            final(self).product_refs == old(self).product_refs,
            r@ == object_id_spec("navigatorFileRef:"@ + path@, 0),
            lookup(final(self).graph.objs(), r@) is Some,
    {
        let name = crate::paths::display_name(path);
        let file_type = crate::products::file_type_for_path(path, None);
        let recorded = if crate::text::ends_with_str(path, ".xctestplan") || str_eq(file_type.as_str(), "file") {
            None
        } else {
            Some(file_type)
        };
        let key = concat2("navigatorFileRef:", path);
        self.add_file_reference(key.as_str(), name.clone(), Some(name), recorded, None, "<group>", true)
    }

    /// Stores the build file of a file in a phase of a target.
    fn add_source_build_file(&mut self, target: &Target, path: &str, name: &String, file_ref: String,
        phase: crate::files::BuildPhase) -> (r: String)
        requires
            old(self).inv(),
        ensures
            final(self).inv(),
            crate::generator::keeps_natives(old(self).graph, final(self).graph),
            final(self).project == old(self).project,
            final(self).product_refs == old(self).product_refs,
            r@ == object_id_spec(build_file_key(target.name@, path@, phase), 0),
            lookup(final(self).graph.objs(), r@) is Some,
    {
        let shown = if phase == crate::files::BuildPhase::CopyHeaders { "CopyFiles" } else { crate::files::phase_str(phase) };
        let comment = crate::text::concat3(name.as_str(), " in ", shown);
        let mut object = PbxObject::new("PBXBuildFile", comment)
            .field("fileRef", PbxValue::reference(file_ref, name.clone()));
        if phase == crate::files::BuildPhase::Headers {
            let mut attributes: Vec<PbxValue> = Vec::new();
            attributes.push(PbxValue::String(string_from("Public")));
            let mut settings: Vec<(String, PbxValue)> = Vec::new();
            proof {
                assert(entries_view(settings@) =~= Seq::<(Seq<char>, PVal)>::empty());
                lemma_items_view(attributes@, 1);
                assert(pdepth(PVal::Str("Public"@)) == 0);
                crate::depth::lemma_array_below(all_items_view(attributes@), 1);
            }
            let value = PbxValue::Array(attributes);
            smap_insert(&mut settings, string_from("ATTRIBUTES"), value);
            proof {
                crate::depth::lemma_sins_below(Seq::<(Seq<char>, PVal)>::empty(), "ATTRIBUTES"@, value@, 2);
                lemma_dict_view_entries(settings@);
                lemma_dict_below(entries_view(settings@), 2);
            }
            object = object.field("settings", PbxValue::Dict(settings));
        }
        proof {
            assert forall|k: Seq<char>| #[trigger] lookup(object@.fields, k) is Some implies pdepth(lookup(object@.fields, k)->0) < field_cap() by {}
            lemma_fields_below(object@.fields, field_cap());
        }
        let key = crate::text::concat3("buildFile:", target.name.as_str(), ":");
        let key = crate::text::concat3(key.as_str(), path, ":");
        let key = concat2(key.as_str(), crate::files::phase_str(phase));
        proof {
            assert(key@ =~= build_file_key(target.name@, path@, phase));
        }
        proof {
            reveal_strlit("PBXBuildFile");
            assert("PBXBuildFile"@.len() == 12);
            crate::generator::lemma_other_class("PBXBuildFile"@);
        }
        self.add_object(key.as_str(), object)
    }

    /// Stores the references and build files of a target's files, each
    /// path once, and says what each file is to the target's phases.
    pub fn collect_target_files(&mut self, target: &Target) -> (r: Vec<FileBuildRefs>)
        requires
            old(self).inv(),
        ensures
            final(self).inv(),
            crate::generator::keeps_natives(old(self).graph, final(self).graph),
            final(self).project == old(self).project,
            final(self).product_refs == old(self).product_refs,
            r@.len() == distinct_paths(target.files@, target.files@.len() as int).len(),
            forall|i: int| 0 <= i < r@.len() ==> file_refs_match(#[trigger] r@[i], *target,
                distinct_paths(target.files@, target.files@.len() as int)[i]),
    {
        let mut refs: Vec<FileBuildRefs> = Vec::new();
        let mut seen: Vec<String> = Vec::new();
        let mut i: usize = 0;
        while i < target.files.len()
            invariant
                self.inv(),
                crate::generator::keeps_natives(old(self).graph, self.graph),
                self.project == old(self).project,
                self.product_refs == old(self).product_refs,
                i <= target.files@.len(),
                seen@.map_values(|s: String| s@) == distinct_paths(target.files@, i as int),
                refs@.len() == seen@.len(),
                forall|q: int| 0 <= q < refs@.len() ==> file_refs_match(#[trigger] refs@[q], *target,
                    distinct_paths(target.files@, i as int)[q]),
            decreases target.files.len() - i,
        {
            let path = target.files[i].as_str();
            let ghost d0 = distinct_paths(target.files@, i as int);
            if !contains_path(&seen, path) {
                let name = crate::paths::display_name(path);
                let file_ref = self.add_regular_source_file_reference(path);
                let phase = crate::files::file_phase(target, path);
                let build_file_id = match phase {
                    Some(p) => Some(self.add_source_build_file(target, path, &name, file_ref, p)),
                    None => None,
                };
                let ghost before = seen@.map_values(|s: String| s@);
                seen.push(target.files[i].clone());
                refs.push(FileBuildRefs { build_file_id, name, build_phase: phase });
                proof {
                    assert(seen@.map_values(|s: String| s@) =~= before.push(path@));
                    let d1 = distinct_paths(target.files@, i + 1);
                    assert(d1 == d0.push(path@));
                    assert forall|q: int| 0 <= q < refs@.len() implies file_refs_match(#[trigger] refs@[q], *target, d1[q]) by {
                        if q < d0.len() {
                            assert(d1[q] == d0[q]);
                        }
                    }
                }
            }
            i = i + 1;
        }
        refs
    }
}

/// References to the build files of the files of one phase, in order, each
/// with the file's name and the phase as its comment.
pub open spec fn phase_refs_spec(files: Seq<FileBuildRefs>, phase: crate::files::BuildPhase) -> Seq<PVal>
    decreases files.len(),
{
    if files.len() == 0 {
        Seq::empty()
    } else {
        let rest = phase_refs_spec(files.drop_last(), phase);
        let f = files.last();
        if f.build_phase == Some(phase) && f.build_file_id is Some {
            rest.push(PVal::Ref(f.build_file_id->0@, Some(f.name@ + " in "@ + crate::files::phase_text(phase))))
        } else {
            rest
        }
    }
}

/// The build files of the files of one phase, as references.
pub fn phase_build_file_refs(files: &Vec<FileBuildRefs>, phase: crate::files::BuildPhase) -> (r: Vec<PbxValue>)
    ensures
        all_refs(all_items_view(r@)),
        r@.len() <= files@.len(),
        all_items_view(r@) == phase_refs_spec(files@, phase),
{
    let mut out: Vec<PbxValue> = Vec::new();
    let mut i: usize = 0;
    proof {
        lemma_items_view(out@, 0);
    }
    while i < files.len()
        invariant
            i <= files@.len(),
            out@.len() <= i,
            all_refs(all_items_view(out@)),
            all_items_view(out@) == phase_refs_spec(files@.take(i as int), phase),
        decreases files.len() - i,
    {
        proof {
            assert(files@.take(i + 1).drop_last() =~= files@.take(i as int));
            assert(files@.take(i + 1).last() == files@[i as int]);
            lemma_items_view(out@, out@.len() as int);
        }
        if files[i].build_phase == Some(phase) {
            if let Some(id) = &files[i].build_file_id {
                let comment = crate::text::concat3(files[i].name.as_str(), " in ", crate::files::phase_str(phase));
                let ghost before = out@;
                out.push(PbxValue::reference(id.clone(), comment));
                proof {
                    lemma_items_view(out@, out@.len() as int);
                    lemma_items_view(before, before.len() as int);
                    assert forall|q: int| 0 <= q < out@.len() implies (#[trigger] all_items_view(out@)[q]) is Ref by {
                        if q < before.len() {
                            assert(out@[q] == before[q]);
                            assert(all_items_view(before)[q] is Ref);
                        }
                    }
                    assert forall|q: int| 0 <= q < before.len() implies all_items_view(out@)[q] == #[trigger] all_items_view(before)[q] by {
                        assert(out@[q] == before[q]);
                    }
                    assert(all_items_view(out@) =~= all_items_view(before).push(out@[before.len() as int]@));
                }
            }
        }
        i = i + 1;
    }
    proof {
        assert(files@.take(i as int) =~= files@);
    }
    out
}

/// The path an SDK reference is found under.
pub open spec fn sdk_reference_path_spec(reference: Seq<char>, source_tree: Seq<char>) -> Seq<char> {
    if source_tree != "SDKROOT"@ || contains_seq(reference, "/"@) {
        reference
    } else if crate::text::ends_with_seq(reference, ".framework"@) {
        "System/Library/Frameworks/"@ + reference
    } else if crate::text::ends_with_seq(reference, ".tbd"@) || crate::text::ends_with_seq(reference, ".dylib"@) {
        "usr/lib/"@ + reference
    } else {
        reference
    }
}

/// The path an SDK reference is found under: frameworks and libraries of
/// the SDK by their usual places.
pub fn sdk_reference_path(reference: &str, source_tree: &str) -> (r: String)
    ensures
        r@ == sdk_reference_path_spec(reference@, source_tree@),
{
    if !str_eq(source_tree, "SDKROOT") || contains_str(reference, "/") {
        return string_from(reference);
    }
    if crate::text::ends_with_str(reference, ".framework") {
        concat2("System/Library/Frameworks/", reference)
    } else if crate::text::ends_with_str(reference, ".tbd") || crate::text::ends_with_str(reference, ".dylib") {
        concat2("usr/lib/", reference)
    } else {
        string_from(reference)
    }
}

/// Whether a target's product can be linked against.
pub open spec fn product_type_is_linkable_spec(t: crate::products::ProductType) -> bool {
    crate::products::is_framework_spec(t) || crate::products::is_library_spec(t)
}

/// Whether a target links the product of a target it depends on: a
/// framework links a static library only when asked; otherwise linkable
/// products are linked unless the dependency says, and a static library
/// links nothing.
pub open spec fn should_link_spec(t: crate::products::ProductType, link: Option<bool>, dep: crate::products::ProductType) -> bool {
    if crate::products::is_framework_spec(t) && dep == crate::products::ProductType::StaticLibrary {
        match link {
            Some(l) => l,
            None => false,
        }
    } else {
        (match link {
            Some(l) => l,
            None => product_type_is_linkable_spec(dep),
        }) && t != crate::products::ProductType::StaticLibrary
    }
}

/// What the first `n` dependencies of a target link directly: for each,
/// the identifier of its build file and, for a framework or SDK library,
/// its comment (that of a target's product is the name recorded for its
/// product, with ` in Frameworks`).
pub open spec fn direct_links(project: &Project, product_refs: Seq<(String, String)>, t: Target, n: int)
    -> Seq<(Seq<char>, Option<Seq<char>>)>
    decreases n,
{
    if n <= 0 || n > t.dependencies@.len() {
        Seq::empty()
    } else {
        let r = direct_links(project, product_refs, t, n - 1);
        let d = t.dependencies@[n - 1];
        let reference = d.reference@;
        match d.dependency_type {
            crate::model::DependencyType::Target => {
                if contains_seq(reference, "/"@) {
                    r
                } else {
                    match crate::transitive::first_named(project.targets@, reference, 0) {
                        Some(i) => if should_link_spec(t.target_type, d.link, project.targets@[i].target_type)
                            && lookup(entries_view(product_refs), reference) is Some {
                            r.push((object_id_spec("targetProductBuildFile:"@ + t.name@ + ":"@ + reference, 0), None))
                        } else {
                            r
                        },
                        None => r,
                    }
                }
            },
            crate::model::DependencyType::Bundle => r,
            _ => r.push((
                object_id_spec("frameworkBuildFile:"@ + t.name@ + ":"@ + reference, 0),
                Some(crate::paths::display_name_spec(reference) + " in Frameworks"@),
            )),
        }
    }
}

/// A list of build file references agrees with what a target links
/// directly; a reference without a given comment has one that ends with
/// ` in Frameworks`.
pub open spec fn links_match(vs: Seq<PVal>, links: Seq<(Seq<char>, Option<Seq<char>>)>) -> bool {
    &&& vs.len() == links.len()
    &&& forall|q: int| 0 <= q < links.len() ==> (#[trigger] vs[q]) is Ref && vs[q]->Ref_0 == links[q].0
        && match links[q].1 {
            Some(c) => vs[q]->Ref_1 == Some(c),
            None => vs[q]->Ref_1 matches Some(c) && crate::text::ends_with_seq(c, " in Frameworks"@),
        }
}

/// Whether a target links the product of a target it depends on.
pub fn target_dependency_should_link(target: &Target, dependency: &crate::model::Dependency, dependency_target: &Target) -> (r: bool)
    ensures
        r == should_link_spec(target.target_type, dependency.link, dependency_target.target_type),
{
    let dep_static = match dependency_target.target_type {
        crate::products::ProductType::StaticLibrary => true,
        _ => false,
    };
    let self_static = match target.target_type {
        crate::products::ProductType::StaticLibrary => true,
        _ => false,
    };
    if crate::products::is_framework(&target.target_type) && dep_static {
        return match dependency.link {
            Some(l) => l,
            None => false,
        };
    }
    let link = match dependency.link {
        Some(l) => l,
        None => crate::products::is_framework(&dependency_target.target_type) || crate::products::is_library(&dependency_target.target_type),
    };
    link && !self_static
}

/// The index of the target with a name.
pub fn find_target(project: &Project, name: &str) -> (r: Option<usize>)
    ensures
        match r {
            Some(i) => i < project.targets@.len() && project.targets@[i as int].name@ == name@,
            None => forall|i: int| 0 <= i < project.targets@.len() ==> #[trigger] project.targets@[i].name@ != name@,
        },
{
    let mut i: usize = 0;
    while i < project.targets.len()
        invariant
            i <= project.targets@.len(),
            forall|q: int| 0 <= q < i ==> #[trigger] project.targets@[q].name@ != name@,
        decreases project.targets.len() - i,
    {
        if str_eq(project.targets[i].name.as_str(), name) {
            return Some(i);
        }
        i = i + 1;
    }
    None
}

/// The `settings` of a weakly linked build file.
fn weak_settings() -> (r: PbxValue)
    ensures
        pdepth(r@) <= 2,
        r@ == weak_settings_spec(),
{
    let mut attrs: Vec<PbxValue> = Vec::new();
    attrs.push(PbxValue::String(string_from("Weak")));
    let mut settings: Vec<(String, PbxValue)> = Vec::new();
    proof {
        assert(entries_view(settings@) =~= Seq::<(Seq<char>, PVal)>::empty());
        lemma_items_view(attrs@, 1);
        assert(pdepth(all_items_view(attrs@)[0]) == 0);
        crate::depth::lemma_array_below(all_items_view(attrs@), 1);
    }
    let value = PbxValue::Array(attrs);
    smap_insert(&mut settings, string_from("ATTRIBUTES"), value);
    proof {
        crate::depth::lemma_sins_below(Seq::<(Seq<char>, PVal)>::empty(), "ATTRIBUTES"@, value@, 2);
        lemma_dict_view_entries(settings@);
        lemma_dict_below(entries_view(settings@), 2);
        assert(all_items_view(attrs@) =~= seq![PVal::Str("Weak"@)]);
        assert(entries_view(settings@) =~= seq![("ATTRIBUTES"@, PVal::Array(seq![PVal::Str("Weak"@)]))]);
    }
    PbxValue::Dict(settings)
}

impl<'a> PbxGenerator<'a> {
    /// Stores a build file in a target's Frameworks phase.
    fn add_framework_build_file(&mut self, key: &str, name: &String, file_ref: String,
        dependency: &crate::model::Dependency) -> (r: PbxValue)
        requires
            old(self).inv(),
        ensures
            final(self).inv(),
            crate::generator::keeps_natives(old(self).graph, final(self).graph),
            final(self).project == old(self).project,
            final(self).product_refs == old(self).product_refs,
            r@ is Ref,
            r@ == PVal::Ref(object_id_spec(key@, 0), Some(name@ + " in Frameworks"@)),
            adds_at(old(self).graph, final(self).graph, object_id_spec(key@, 0)),
            stored_as(old(self).graph, final(self).graph, object_id_spec(key@, 0), "PBXBuildFile"@,
                name@ + " in Frameworks"@, |k: Seq<char>| build_file_field(k, file_ref@, name@,
                platform_filter_spec(dependency.platform_filter),
                if dependency.weak_link { Some(weak_settings_spec()) } else { None },
                crate::embed::platform_filters_spec(dependency.destination_filters@))),
    {
        proof {
            lemma_build_file_keys();
        }
        let comment = concat2(name.as_str(), " in Frameworks");
        let mut object = PbxObject::new("PBXBuildFile", comment.clone())
            .field("fileRef", PbxValue::reference(file_ref, name.clone()));
        if let Some(f) = target_dependency_platform_filter(Some(dependency)) {
            object = object.field("platformFilter", PbxValue::String(f));
        }
        let filters = crate::embed::platform_filters_for_dependency(dependency);
        if filters.len() > 0 {
            object = object.field("platformFilters", crate::scripts::strings_value(&filters));
        }
        if dependency.weak_link {
            object = object.field("settings", weak_settings());
        }
        proof {
            assert forall|k: Seq<char>| #[trigger] lookup(object@.fields, k) is Some implies pdepth(lookup(object@.fields, k)->0) < field_cap() by {}
            lemma_fields_below(object@.fields, field_cap());
            assert forall|k: Seq<char>| #[trigger] lookup(object@.fields, k) == build_file_field(k, file_ref@, name@,
                platform_filter_spec(dependency.platform_filter),
                if dependency.weak_link { Some(weak_settings_spec()) } else { None },
                crate::embed::platform_filters_spec(dependency.destination_filters@)) by {}
        }
        let ghost g0 = self.graph;
        let ghost o = object@;
        proof {
            reveal_strlit("PBXBuildFile");
            assert("PBXBuildFile"@.len() == 12);
            crate::generator::lemma_other_class("PBXBuildFile"@);
        }
        let id = self.add_object(key, object);
        proof {
            lemma_add_adds_at(g0, self.graph, key@, o, id@);
        }
        PbxValue::reference(id, comment)
    }

    /// The build files a target links: frameworks and SDK libraries it
    /// names, the products of the targets it depends on that it links, and
    /// what it links transitively.
    pub fn framework_build_files(&mut self, target: &Target) -> (r: Vec<PbxValue>)
        requires
            old(self).inv(),
        ensures
            final(self).inv(),
            crate::generator::keeps_natives(old(self).graph, final(self).graph),
            final(self).project == old(self).project,
            final(self).product_refs == old(self).product_refs,
            all_refs(all_items_view(r@)),
            links_match(all_items_view(r@).take(direct_links(old(self).project, old(self).product_refs@, *target,
                target.dependencies@.len() as int).len() as int), direct_links(old(self).project, old(self).product_refs@,
                *target, target.dependencies@.len() as int)),
            !crate::transitive::uses_transitive_spec(old(self).project, *target) ==> all_items_view(r@).len()
                == direct_links(old(self).project, old(self).product_refs@, *target, target.dependencies@.len() as int).len(),
            crate::transitive::uses_transitive_spec(old(self).project, *target) ==> {
                let d = direct_links(old(self).project, old(self).product_refs@, *target, target.dependencies@.len() as int);
                let names = crate::transitive::dependency_names_spec(old(self).project, *target);
                let statics = if crate::products::product_type_is_app_spec(target.target_type) {
                    crate::transitive::transitive_static_names(old(self).project, old(self).product_refs@, *target, names,
                        names.len() as int)
                } else {
                    Seq::empty()
                };
                &&& all_items_view(r@).len() == d.len() + statics.len()
                    + crate::transitive::linked_through_all(old(self).project, *target, names, names.len() as int).len()
                &&& forall|q: int| 0 <= q < statics.len() ==> (#[trigger] all_items_view(r@)[d.len() + q]) is Ref
                    && all_items_view(r@)[d.len() + q]->Ref_0 == object_id_spec(
                        "transitiveTargetProductBuildFile:"@ + target.name@ + ":"@ + statics[q], 0)
                &&& all_items_view(r@).skip((d.len() + statics.len()) as int) == crate::transitive::linked_through_all(
                    old(self).project, *target, names, names.len() as int)
            },
    {
        let mut files: Vec<PbxValue> = Vec::new();
        proof {
            lemma_items_view(files@, 0);
        }
        let mut i: usize = 0;
        while i < target.dependencies.len()
            invariant
                self.inv(),
                crate::generator::keeps_natives(old(self).graph, self.graph),
                self.project == old(self).project,
                self.product_refs == old(self).product_refs,
                i <= target.dependencies@.len(),
                all_refs(all_items_view(files@)),
                links_match(all_items_view(files@), direct_links(self.project, self.product_refs@, *target, i as int)),
            decreases target.dependencies.len() - i,
        {
            let ghost f0 = all_items_view(files@);
            let ghost dl0 = direct_links(self.project, self.product_refs@, *target, i as int);
            let ghost dl1 = direct_links(self.project, self.product_refs@, *target, i + 1);
            let dependency = &target.dependencies[i];
            proof {
                assert(target.dependencies@[i as int] == *dependency);
            }
            let reference = dependency.reference.as_str();
            let built: Option<PbxValue> = match &dependency.dependency_type {
                crate::model::DependencyType::Target => {
                    if contains_str(reference, "/") {
                        proof { assert(dl1 == dl0); }
                        None
                    } else {
                        match crate::transitive::find_first_target(self.project, reference) {
                            None => {
                                proof { assert(dl1 == dl0); }
                                None
                            },
                            Some(ti) => {
                                let dependency_target = &self.project.targets[ti];
                                if !target_dependency_should_link(target, dependency, dependency_target) {
                                    proof { assert(dl1 == dl0); }
                                    None
                                } else {
                                    match smap_find(&self.product_refs, reference) {
                                        None => {
                                            proof { assert(dl1 == dl0); }
                                            None
                                        },
                                        Some(pi) => {
                                            let product_ref = self.product_refs[pi].1.clone();
                                            let name = match smap_find(&self.graph.comments, product_ref.as_str()) {
                                                Some(ci) => self.graph.comments[ci].1.clone(),
                                                None => string_from(reference),
                                            };
                                            let key = crate::text::concat3("targetProductBuildFile:", target.name.as_str(), ":");
                                            let key = concat2(key.as_str(), reference);
                                            let b = self.add_framework_build_file(key.as_str(), &name, product_ref, dependency);
                                            proof {
                                                assert(dl1 == dl0.push((b@->Ref_0, None)));
                                                assert((name@ + " in Frameworks"@).skip(name@.len() as int)
                                                    =~= " in Frameworks"@);
                                                assert(links_match(f0.push(b@), dl1));
                                            }
                                            Some(b)
                                        },
                                    }
                                }
                            },
                        }
                    }
                },
                crate::model::DependencyType::Bundle => {
                    proof { assert(dl1 == dl0); }
                    None
                },
                _ => {
                    let name = crate::paths::display_name(reference);
                    let is_sdk = match &dependency.dependency_type {
                        crate::model::DependencyType::Sdk { .. } => true,
                        _ => false,
                    };
                    let source_tree: String = match &dependency.dependency_type {
                        crate::model::DependencyType::Sdk { root } => match root {
                            Some(r) => r.clone(),
                            None => string_from("SDKROOT"),
                        },
                        _ => string_from("<group>"),
                    };
                    let path = if is_sdk {
                        sdk_reference_path(reference, source_tree.as_str())
                    } else {
                        string_from(reference)
                    };
                    let ref_key = if is_sdk {
                        concat2("sdkRef:", path.as_str())
                    } else {
                        concat2("navigatorFrameworkRef:", path.as_str())
                    };
                    let file_type = crate::products::file_type_for_path(name.as_str(), None);
                    let file_name = if is_sdk { None } else { Some(name.clone()) };
                    let file_ref = self.add_file_reference(ref_key.as_str(), name.clone(), Some(path), Some(file_type),
                        file_name, source_tree.as_str(), true);
                    let key = crate::text::concat3("frameworkBuildFile:", target.name.as_str(), ":");
                    let key = concat2(key.as_str(), reference);
                    let b = self.add_framework_build_file(key.as_str(), &name, file_ref, dependency);
                    proof {
                        assert(dl1 == dl0.push((b@->Ref_0, Some(name@ + " in Frameworks"@))));
                        assert(links_match(f0.push(b@), dl1));
                    }
                    Some(b)
                },
            };
            if let Some(v) = built {
                let ghost before = files@;
                files.push(v);
                proof {
                    lemma_items_view(files@, files@.len() as int);
                    lemma_items_view(before, before.len() as int);
                    assert forall|q: int| 0 <= q < files@.len() implies (#[trigger] all_items_view(files@)[q]) is Ref by {
                        if q < before.len() {
                            assert(files@[q] == before[q]);
                            assert(all_items_view(before)[q] is Ref);
                        }
                    }
                    assert forall|q: int| 0 <= q < before.len() implies all_items_view(files@)[q] == #[trigger] f0[q] by {
                        assert(files@[q] == before[q]);
                    }
                    assert(all_items_view(files@) =~= f0.push(v@));
                }
            } else {
                proof { assert(dl1 == dl0); }
            }
            i = i + 1;
        }
        let ghost fd = all_items_view(files@);
        let ghost fdv = files@;
        let transitive = self.transitive_framework_build_files(target);
        let ghost tv = transitive@;
        crate::embed::append_refs(&mut files, transitive);
        proof {
            lemma_items_view(fdv, fdv.len() as int);
            lemma_items_view(tv, tv.len() as int);
            lemma_items_view(files@, files@.len() as int);
            assert(files@ == fdv + tv);
            assert forall|q: int| 0 <= q < files@.len() implies #[trigger] all_items_view(files@)[q]
                == (fd + all_items_view(tv))[q] by {
                if q < fdv.len() {
                    assert(files@[q] == fdv[q]);
                } else {
                    assert(files@[q] == tv[q - fdv.len()]);
                }
            }
            assert(all_items_view(files@) =~= fd + all_items_view(tv));
            assert(all_items_view(files@).take(fd.len() as int) =~= fd);
            assert(all_items_view(files@).skip(fd.len() as int) =~= all_items_view(tv));
        }
        files
    }
}

/// Products whose targets have no Sources phase when they compile nothing.
pub open spec fn skips_empty_sources_spec(t: crate::products::ProductType) -> bool {
    t == crate::products::ProductType::Bundle || t == crate::products::ProductType::MessagesApplication
        || t == crate::products::ProductType::StickerPack || t == crate::products::ProductType::WatchApp
        || t == crate::products::ProductType::Watch2App
}

fn skips_empty_sources(t: &crate::products::ProductType) -> (r: bool)
    ensures
        r == skips_empty_sources_spec(*t),
{
    match t {
        crate::products::ProductType::Bundle | crate::products::ProductType::MessagesApplication
        | crate::products::ProductType::StickerPack | crate::products::ProductType::WatchApp
        | crate::products::ProductType::Watch2App => true,
        _ => false,
    }
}

pub(crate) fn push_ref(v: &mut Vec<PbxValue>, id: String, comment: &str)
    requires
        all_refs(all_items_view(old(v)@)),
    ensures
        all_refs(all_items_view(final(v)@)),
        final(v)@.len() == old(v)@.len() + 1,
        all_items_view(final(v)@) == all_items_view(old(v)@).push(PVal::Ref(id@, Some(comment@))),
{
    let ghost before = v@;
    let ghost idv = id@;
    v.push(PbxValue::reference(id, string_from(comment)));
    proof {
        lemma_items_view(v@, v@.len() as int);
        lemma_items_view(before, before.len() as int);
        assert forall|q: int| 0 <= q < before.len() implies all_items_view(v@)[q] == #[trigger] all_items_view(before)[q] by {
            assert(v@[q] == before[q]);
        }
        assert(all_items_view(v@) =~= all_items_view(before).push(PVal::Ref(idv, Some(comment@))));
        assert forall|q: int| 0 <= q < v@.len() implies (#[trigger] all_items_view(v@)[q]) is Ref by {
            if q < before.len() {
                assert(v@[q] == before[q]);
                assert(all_items_view(before)[q] is Ref);
            }
        }
    }
}

/// Whether a list of names holds one.
fn names_contain(v: &Vec<String>, x: &str) -> (r: bool)
    ensures
        r == exists|k: int| 0 <= k < v@.len() && (#[trigger] v@[k])@ == x@,
{
    let mut i: usize = 0;
    while i < v.len()
        invariant
            i <= v@.len(),
            forall|k: int| 0 <= k < i ==> (#[trigger] v@[k])@ != x@,
        decreases v.len() - i,
    {
        if str_eq(v[i].as_str(), x) {
            return true;
        }
        i = i + 1;
    }
    false
}

impl<'a> PbxGenerator<'a> {
    /// Stores a native target: its build phases (run scripts, headers,
    /// sources, resources, frameworks, embedding), its build rules, its
    /// dependencies on other targets (those it names, then the static
    /// libraries it depends on through them, unless it is a test bundle),
    /// its configuration list and the target itself, under `nativeTarget:`
    /// and its name.
    #[verifier::spinoff_prover]
    #[verifier::rlimit(60)]
    pub fn add_native_target(&mut self, target: &Target) -> (r: String)
        requires
            old(self).inv(),
            crate::model::config_settings_shallow(target.settings@),
            has_key_of(old(self).product_refs@, target.name@),
        ensures
            final(self).inv(),
            final(self).project == old(self).project,
            final(self).product_refs == old(self).product_refs,
            r@ == object_id_spec("nativeTarget:"@ + target.name@, 0),
            lookup(final(self).graph.objs(), r@) is Some,
            !(lookup(old(self).graph.objs(), r@) matches Some(p) && p.isa == "PBXNativeTarget"@) ==> (lookup(
                final(self).graph.objs(),
                r@,
            ) matches Some(o) && (o.isa == "PBXNativeTarget"@ ==> native_target_holds(*target, old(self).product_refs@, o))),
    {
        let name = target.name.as_str();
        let files = self.collect_target_files(target);
        let source_files = sorted_phase_refs(&files, crate::files::BuildPhase::Sources, true);
        let mut resource_files = sorted_phase_refs(&files, crate::files::BuildPhase::Resources, false);
        let dependency_resources = self.target_dependency_resource_files(target);
        crate::embed::append_refs(&mut resource_files, dependency_resources);
        let header_files = sorted_phase_refs(&files, crate::files::BuildPhase::Headers, true);
        let sources_empty = source_files.len() == 0;
        let sources_phase = if sources_empty && skips_empty_sources(&target.target_type) {
            None
        } else {
            let key = concat2(name, ":Sources");
            proof {
                reveal_strlit("PBXSourcesBuildPhase");
                assert("PBXSourcesBuildPhase"@.len() == 20);
                lemma_other_class("PBXSourcesBuildPhase"@);
            }
            Some(self.add_build_phase("PBXSourcesBuildPhase", key.as_str(), "Sources", source_files))
        };
        let resources_phase = if resource_files.len() == 0 {
            None
        } else {
            let key = concat2(name, ":Resources");
            proof {
                reveal_strlit("PBXResourcesBuildPhase");
                assert("PBXResourcesBuildPhase"@.len() == 22);
                lemma_other_class("PBXResourcesBuildPhase"@);
            }
            Some(self.add_build_phase("PBXResourcesBuildPhase", key.as_str(), "Resources", resource_files))
        };
        let headers_phase = if header_files.len() == 0 {
            None
        } else {
            let key = concat2(name, ":Headers");
            proof {
                reveal_strlit("PBXHeadersBuildPhase");
                assert("PBXHeadersBuildPhase"@.len() == 20);
                lemma_other_class("PBXHeadersBuildPhase"@);
            }
            Some(self.add_build_phase("PBXHeadersBuildPhase", key.as_str(), "Headers", header_files))
        };
        let framework_files = self.framework_build_files(target);
        let frameworks_phase = if framework_files.len() == 0 {
            None
        } else {
            let key = concat2(name, ":Frameworks");
            proof {
                reveal_strlit("PBXFrameworksBuildPhase");
                assert("PBXFrameworksBuildPhase"@.len() == 23);
                lemma_other_class("PBXFrameworksBuildPhase"@);
            }
            Some(self.add_build_phase("PBXFrameworksBuildPhase", key.as_str(), "Frameworks", framework_files))
        };
        let embed_phases = self.target_dependency_copy_files_phases(target);
        let phases = self.native_target_phases(target, &files, headers_phase, sources_phase, resources_phase,
            frameworks_phase, &embed_phases);
        let dependency_refs = self.native_target_dependencies(target);
        let settings = crate::settings::target_build_settings_by_config(self.project, target);
        let config_list = self.add_configuration_list("PBXNativeTarget", name, &settings);
        let product_ref = match smap_find(&self.product_refs, name) {
            Some(pi) => self.product_refs[pi].1.clone(),
            None => String::new(),
        };
        let rules = self.build_rules(name, &target.build_rules);
        proof {
            lemma_items_view(rules@, rules@.len() as int);
        }
        let object = native_target_object(target, config_list, phases, rules, dependency_refs, product_ref);
        proof {
            assert(native_target_holds(*target, old(self).product_refs@, object@));
        }
        let key = concat2("nativeTarget:", name);
        let ghost g0 = self.graph;
        let ghost o = object@;
        proof {
            reveal_strlit("PBXNativeTarget");
            reveal_strlit("PBXProject");
            assert("PBXNativeTarget"@.len() == 15);
            assert("PBXProject"@.len() == 10);
        }
        let r = self.graph.add(key.as_str(), object);
        proof {
            lemma_add_below(g0, self.graph, key@, o, r@, field_cap());
            lemma_add_adds_at(g0, self.graph, key@, o, r@);
            if lookup(g0.objs(), r@) is Some {
                let p = lookup(g0.objs(), r@)->0;
                if p.isa == "PBXNativeTarget"@ {
                    assert(lookup(old(self).graph.objs(), r@) matches Some(q) && q.isa == "PBXNativeTarget"@);
                }
            }
        }
        r
    }
}

/// The native target object of a target, given its configuration list,
/// build phases, build rules, dependencies and product reference.
#[verifier::spinoff_prover]
#[verifier::rlimit(100)]
fn native_target_object(target: &Target, config_list: String, phases: Vec<PbxValue>, rules: Vec<PbxValue>,
    dependency_refs: Vec<PbxValue>, product_ref: String) -> (r: PbxObject)
    requires
        config_list@ == object_id_spec("configList:"@ + "PBXNativeTarget"@ + ":"@ + target.name@, 0),
        all_refs(all_items_view(phases@)),
        all_refs(all_items_view(rules@)),
        all_refs(all_items_view(dependency_refs@)),
        all_items_view(rules@).len() == target.build_rules@.len(),
        native_phases_ordered(*target, all_items_view(phases@)),
        native_dependencies_ok(*target, all_items_view(dependency_refs@)),
    ensures
        r.wf(),
        r@.isa == "PBXNativeTarget"@,
        entries_below(r@.fields, field_cap()),
        forall|product_refs: Seq<(String, String)>| lookup(entries_view(product_refs), target.name@) == Some(product_ref@)
            ==> #[trigger] native_target_holds(*target, product_refs, r@),
{
    let list_comment = crate::text::concat3("Build configuration list for PBXNativeTarget \"", target.name.as_str(), "\"");
    let no_products: Vec<PbxValue> = Vec::new();
    proof {
        lemma_items_view(no_products@, 0);
        lemma_refs_shallow(all_items_view(phases@));
        lemma_refs_shallow(all_items_view(dependency_refs@));
        lemma_refs_shallow(all_items_view(rules@));
    }
    let object = PbxObject::new("PBXNativeTarget", target.name.clone())
        .field("buildConfigurationList", PbxValue::reference(config_list, list_comment))
        .field("buildPhases", PbxValue::Array(phases))
        .field("buildRules", PbxValue::Array(rules))
        .field("dependencies", PbxValue::Array(dependency_refs))
        .field("name", PbxValue::String(target.name.clone()))
        .field("packageProductDependencies", PbxValue::Array(no_products))
        .field("productName", PbxValue::String(target.name.clone()))
        .field("productReference", PbxValue::reference(product_ref, target.product_filename.clone()))
        .field("productType", PbxValue::String(string_from(crate::products::product_type_raw(&target.target_type))));
    proof {
        assert forall|k: Seq<char>| #[trigger] lookup(object@.fields, k) is Some implies pdepth(lookup(object@.fields, k)->0) < field_cap() by {}
        lemma_fields_below(object@.fields, field_cap());
        reveal_strlit("buildConfigurationList");
        assert("buildConfigurationList"@.len() == 22);
        reveal_strlit("buildPhases");
        assert("buildPhases"@.len() == 11);
        reveal_strlit("buildRules");
        assert("buildRules"@.len() == 10);
        reveal_strlit("dependencies");
        assert("dependencies"@.len() == 12);
        reveal_strlit("name");
        assert("name"@.len() == 4);
        reveal_strlit("packageProductDependencies");
        assert("packageProductDependencies"@.len() == 26);
        reveal_strlit("productName");
        assert("productName"@.len() == 11);
        reveal_strlit("productReference");
        assert("productReference"@.len() == 16);
        reveal_strlit("productType");
        assert("productType"@.len() == 11);
        assert("buildPhases"@[0] != "productName"@[0]);
        assert("buildPhases"@[0] != "productType"@[0]);
        assert("productName"@[7] != "productType"@[7]);
    }
    object
}

impl<'a> PbxGenerator<'a> {
    /// The build phases of a native target, in order, given its Headers,
    /// Sources, Resources and Frameworks phases where it has them and its
    /// copy phases; stores its run-script, Swift header and bundle copy
    /// phases on the way.
    #[verifier::spinoff_prover]
    #[verifier::rlimit(100)]
    pub fn native_target_phases(&mut self, target: &Target, files: &Vec<FileBuildRefs>, headers_phase: Option<String>,
        sources_phase: Option<String>, resources_phase: Option<String>, frameworks_phase: Option<String>,
        embed_phases: &Vec<(String, String)>) -> (r: Vec<PbxValue>)
        requires
            old(self).inv(),
            phase_at(headers_phase, target.name@, ":Headers"@),
            phase_at(sources_phase, target.name@, ":Sources"@),
            phase_at(resources_phase, target.name@, ":Resources"@),
            phase_at(frameworks_phase, target.name@, ":Frameworks"@),
            sources_phase is None ==> skips_empty_sources_spec(target.target_type),
        ensures
            final(self).inv(),
            keeps_natives(old(self).graph, final(self).graph),
            final(self).project == old(self).project,
            final(self).product_refs == old(self).product_refs,
            all_refs(all_items_view(r@)),
            native_phases_ordered(*target, all_items_view(r@)),
    {
        let name = target.name.as_str();
        let ghost n = target.name@;
        let ghost hs: bool = headers_phase is Some;
        let ghost ss: bool = sources_phase is Some;
        let ghost rs: bool = resources_phase is Some;
        let ghost fs: bool = frameworks_phase is Some;
        let mut phases = self.shell_script_phases(name, &target.pre_build_scripts);
        proof {
            lemma_script_refs(phases@, n, target.pre_build_scripts@);
        }
        let ghost pre = all_items_view(phases@);
        if let Some(h) = headers_phase {
            push_ref(&mut phases, h, "Headers");
            proof {
                assert(all_items_view(phases@) =~= pre + phase_ref(hs, n, ":Headers"@, "Headers"@));
            }
        } else {
            proof {
                assert(all_items_view(phases@) =~= pre + phase_ref(hs, n, ":Headers"@, "Headers"@));
            }
        }
        let ghost base_h = all_items_view(phases@);
        let middle = self.native_middle_phases(target, files, sources_phase, resources_phase, frameworks_phase);
        let ghost mv = all_items_view(middle@);
        proof {
            lemma_items_concat(phases@, middle@);
        }
        crate::embed::append_refs(&mut phases, middle);
        let ghost x = choose|x: Seq<PVal>| x.len() <= 1 && all_refs(x)
            && mv == middle_phases_spec(*target, sources_phase is Some, resources_phase is Some, frameworks_phase is Some, x);
        let ghost base = all_items_view(phases@);
        proof {
            assert(base == native_phase_order(*target, hs, ss, rs, fs, x, Seq::empty()).take(base.len() as int)) by {
                assert(native_phase_order(*target, hs, ss, rs, fs, x, Seq::empty()) =~= base
                    + script_refs(n, target.post_build_scripts@));
            }
        }
        let ordered = crate::embed::order_embed_phases(embed_phases);
        let mut e: usize = 0;
        while e < ordered.len()
            invariant
                e <= ordered@.len(),
                all_refs(all_items_view(phases@)),
                base.len() <= all_items_view(phases@).len(),
                all_items_view(phases@).take(base.len() as int) == base,
            decreases ordered.len() - e,
        {
            let ghost v0 = all_items_view(phases@);
            push_ref(&mut phases, ordered[e].0.clone(), ordered[e].1.as_str());
            proof {
                assert(all_items_view(phases@).take(base.len() as int) =~= v0.take(base.len() as int));
            }
            e = e + 1;
        }
        if let Some(b) = self.bundle_copy_files_phase(target) {
            let ghost v0 = all_items_view(phases@);
            push_ref(&mut phases, b, "Copy Bundle Resources");
            proof {
                assert(all_items_view(phases@).take(base.len() as int) =~= v0.take(base.len() as int));
            }
        }
        let ghost before_post = all_items_view(phases@);
        let post_build = self.shell_script_phases(name, &target.post_build_scripts);
        proof {
            lemma_script_refs(post_build@, n, target.post_build_scripts@);
            lemma_items_concat(phases@, post_build@);
        }
        crate::embed::append_refs(&mut phases, post_build);
        proof {
            let tail = before_post.skip(base.len() as int);
            assert(before_post =~= base + tail);
            assert forall|q: int| 0 <= q < tail.len() implies (#[trigger] tail[q]) is Ref by {
                assert(tail[q] == before_post[q + base.len()]);
            }
            assert(all_items_view(phases@) =~= native_phase_order(*target, hs, ss, rs, fs, x, tail));
            assert(native_phases_ordered(*target, all_items_view(phases@)));
        }
        phases
    }
}

impl<'a> PbxGenerator<'a> {
    /// The phases of a native target between its Headers phase and its copy
    /// phases, given its Sources, Resources and Frameworks phases where it
    /// has them; stores its post-compile scripts and, for a static library,
    /// its Swift header phase on the way.
    #[verifier::spinoff_prover]
    #[verifier::rlimit(100)]
    pub fn native_middle_phases(&mut self, target: &Target, files: &Vec<FileBuildRefs>, sources_phase: Option<String>,
        resources_phase: Option<String>, frameworks_phase: Option<String>) -> (r: Vec<PbxValue>)
        requires
            old(self).inv(),
            phase_at(sources_phase, target.name@, ":Sources"@),
            phase_at(resources_phase, target.name@, ":Resources"@),
            phase_at(frameworks_phase, target.name@, ":Frameworks"@),
        ensures
            final(self).inv(),
            keeps_natives(old(self).graph, final(self).graph),
            final(self).project == old(self).project,
            final(self).product_refs == old(self).product_refs,
            all_refs(all_items_view(r@)),
            exists|x: Seq<PVal>| x.len() <= 1 && all_refs(x) && all_items_view(r@) == middle_phases_spec(*target,
                sources_phase is Some, resources_phase is Some, frameworks_phase is Some, x),
    {
        let name = target.name.as_str();
        let ghost n = target.name@;
        let ghost ss: bool = sources_phase is Some;
        let ghost rs: bool = resources_phase is Some;
        let ghost fs: bool = frameworks_phase is Some;
        let mut phases: Vec<PbxValue> = Vec::new();
        proof {
            lemma_items_view(phases@, 0);
            assert(all_items_view(phases@) =~= Seq::<PVal>::empty());
        }
        let ghost mut x: Seq<PVal> = Seq::empty();
        let is_static = match target.target_type {
            crate::products::ProductType::StaticLibrary => true,
            _ => false,
        };
        if is_static {
            push_opt_phase(&mut phases, sources_phase, name, ":Sources", "Sources");
            self.append_scripts(&mut phases, name, &target.post_compile_scripts);
            let ghost a2 = all_items_view(phases@);
            if let Some(h) = self.add_swift_objc_header_phase(target, &files) {
                push_ref(&mut phases, h, "Copy Swift Objective-C Interface Header");
                proof {
                    x = seq![PVal::Ref(h@, Some("Copy Swift Objective-C Interface Header"@))];
                    assert(all_items_view(phases@) =~= a2 + x);
                }
            } else {
                proof {
                    assert(all_items_view(phases@) =~= a2 + x);
                }
            }
            proof {
                assert(all_items_view(phases@) =~= middle_phases_spec(*target, ss, rs, fs, x));
            }
        } else if target.put_resources_before_sources_build_phase {
            push_opt_phase(&mut phases, resources_phase, name, ":Resources", "Resources");
            push_opt_phase(&mut phases, sources_phase, name, ":Sources", "Sources");
            self.append_scripts(&mut phases, name, &target.post_compile_scripts);
            push_opt_phase(&mut phases, frameworks_phase, name, ":Frameworks", "Frameworks");
            proof {
                assert(all_items_view(phases@) =~= middle_phases_spec(*target, ss, rs, fs, x));
            }
        } else {
            push_opt_phase(&mut phases, sources_phase, name, ":Sources", "Sources");
            self.append_scripts(&mut phases, name, &target.post_compile_scripts);
            push_opt_phase(&mut phases, resources_phase, name, ":Resources", "Resources");
            push_opt_phase(&mut phases, frameworks_phase, name, ":Frameworks", "Frameworks");
            proof {
                assert(all_items_view(phases@) =~= middle_phases_spec(*target, ss, rs, fs, x));
            }
        }
        proof {
            assert(x.len() <= 1);
            assert(all_refs(x));
            assert(all_items_view(phases@) == middle_phases_spec(*target, ss, rs, fs, x));
        }
        proof {
            assert(all_items_view(phases@) == middle_phases_spec(*target, ss, rs, fs, x));
        }
        phases
    }
}

/// Appends the reference to a target's build phase, where it has one.
fn push_opt_phase(v: &mut Vec<PbxValue>, p: Option<String>, target_name: &str, suffix: &str, kind: &str)
    requires
        all_refs(all_items_view(old(v)@)),
        phase_at(p, target_name@, suffix@),
    ensures
        all_refs(all_items_view(final(v)@)),
        all_items_view(final(v)@) == all_items_view(old(v)@) + phase_ref(p is Some, target_name@, suffix@, kind@),
{
    let ghost v0 = all_items_view(v@);
    if let Some(id) = p {
        push_ref(v, id, kind);
        proof {
            assert(all_items_view(v@) =~= v0 + phase_ref(true, target_name@, suffix@, kind@));
        }
    } else {
        proof {
            assert(all_items_view(v@) =~= v0 + phase_ref(false, target_name@, suffix@, kind@));
        }
    }
}

impl<'a> PbxGenerator<'a> {
    /// Stores the run-script phases of scripts and appends references to
    /// them.
    fn append_scripts(&mut self, v: &mut Vec<PbxValue>, target_name: &str, scripts: &Vec<crate::scripts::BuildScript>)
        requires
            old(self).inv(),
            all_refs(all_items_view(old(v)@)),
        ensures
            final(self).inv(),
            keeps_natives(old(self).graph, final(self).graph),
            final(self).project == old(self).project,
            final(self).product_refs == old(self).product_refs,
            all_refs(all_items_view(final(v)@)),
            all_items_view(final(v)@) == all_items_view(old(v)@) + script_refs(target_name@, scripts@),
    {
        let refs = self.shell_script_phases(target_name, scripts);
        proof {
            lemma_script_refs(refs@, target_name@, scripts@);
            lemma_items_concat(v@, refs@);
        }
        crate::embed::append_refs(v, refs);
    }
}

impl<'a> PbxGenerator<'a> {
    /// The target dependencies of a native target: one for each target it
    /// depends on and, unless it is a test bundle, for each static library
    /// it depends on through them, each name once.
    #[verifier::spinoff_prover]
    #[verifier::rlimit(100)]
    pub fn native_target_dependencies(&mut self, target: &Target) -> (r: Vec<PbxValue>)
        requires
            old(self).inv(),
        ensures
            final(self).inv(),
            keeps_natives(old(self).graph, final(self).graph),
            final(self).project == old(self).project,
            final(self).product_refs == old(self).product_refs,
            all_refs(all_items_view(r@)),
            native_dependencies_ok(*target, all_items_view(r@)),
    {
        let name = target.name.as_str();
        let mut dependency_refs: Vec<PbxValue> = Vec::new();
        let mut dependency_names: Vec<String> = Vec::new();
        proof {
            lemma_items_view(dependency_refs@, 0);
            assert(all_items_view(dependency_refs@) =~= ids_view_of(dependency_names@).map_values(|dn: Seq<char>|
                dependency_ref(target.name@, dn)));
        }
        let mut i: usize = 0;
        while i < target.dependencies.len()
            invariant
                self.inv(),
                self.project == old(self).project,
                self.product_refs == old(self).product_refs,
                crate::generator::keeps_natives(old(self).graph, self.graph),
                i <= target.dependencies@.len(),
                all_refs(all_items_view(dependency_refs@)),
                ids_view_of(dependency_names@).no_duplicates(),
                name@ == target.name@,
                all_items_view(dependency_refs@) == ids_view_of(dependency_names@).map_values(|dn: Seq<char>|
                    dependency_ref(target.name@, dn)),
            decreases target.dependencies.len() - i,
        {
            let dependency = &target.dependencies[i];
            let is_target = match dependency.dependency_type {
                crate::model::DependencyType::Target => true,
                _ => false,
            };
            if is_target && !names_contain(&dependency_names, dependency.reference.as_str()) {
                let ghost nv0 = dependency_names@;
                let ghost d0 = all_items_view(dependency_refs@);
                dependency_names.push(dependency.reference.clone());
                let id = self.add_target_dependency(name, dependency.reference.as_str(), Some(dependency));
                let ghost idv = id@;
                push_ref(&mut dependency_refs, id, "PBXTargetDependency");
                proof {
                    lemma_push_name(nv0, dependency_names@, dependency.reference@, target.name@);
                    assert(PVal::Ref(idv, Some("PBXTargetDependency"@)) == dependency_ref(target.name@, dependency.reference@));
                    assert(all_items_view(dependency_refs@) == d0.push(dependency_ref(target.name@, dependency.reference@)));
                }
            }
            i = i + 1;
        }
        if !crate::products::product_type_is_test(&target.target_type) {
            let implied = crate::transitive::native_target_dependency_names(self.project, target);
            let mut j: usize = 0;
            while j < implied.len()
                invariant
                    self.inv(),
                    self.project == old(self).project,
                    self.product_refs == old(self).product_refs,
                    crate::generator::keeps_natives(old(self).graph, self.graph),
                    j <= implied@.len(),
                    all_refs(all_items_view(dependency_refs@)),
                    ids_view_of(dependency_names@).no_duplicates(),
                    name@ == target.name@,
                    all_items_view(dependency_refs@) == ids_view_of(dependency_names@).map_values(|dn: Seq<char>|
                        dependency_ref(target.name@, dn)),
                decreases implied.len() - j,
            {
                let dependency_name = implied[j].as_str();
                if let Some(ti) = crate::transitive::find_first_target(self.project, dependency_name) {
                    let is_static = match self.project.targets[ti].target_type {
                        crate::products::ProductType::StaticLibrary => true,
                        _ => false,
                    };
                    if is_static && !names_contain(&dependency_names, dependency_name) {
                        let ghost nv0 = dependency_names@;
                        let ghost d0 = all_items_view(dependency_refs@);
                        dependency_names.push(implied[j].clone());
                        let id = self.add_target_dependency(name, dependency_name, None);
                        let ghost idv = id@;
                        push_ref(&mut dependency_refs, id, "PBXTargetDependency");
                        proof {
                            lemma_push_name(nv0, dependency_names@, dependency_name@, target.name@);
                            assert(PVal::Ref(idv, Some("PBXTargetDependency"@)) == dependency_ref(target.name@, dependency_name@));
                            assert(all_items_view(dependency_refs@) == d0.push(dependency_ref(target.name@, dependency_name@)));
                        }
                    }
                }
                j = j + 1;
            }
        }
        proof {
            assert(ids_view_of(dependency_names@).no_duplicates());
        }
        dependency_refs
    }
}

/// The identifiers of a list of names.
pub open spec fn ids_view_of(v: Seq<String>) -> Seq<Seq<char>> {
    v.map_values(|s: String| s@)
}

/// The reference to a target's dependency on the target of a name.
pub open spec fn dependency_ref(target_name: Seq<char>, dn: Seq<char>) -> PVal {
    PVal::Ref(object_id_spec("targetDependency:"@ + target_name + ":"@ + dn, 0), Some("PBXTargetDependency"@))
}

/// A native target's dependencies name each target at most once.
pub open spec fn native_dependencies_ok(t: Target, ds: Seq<PVal>) -> bool {
    exists|names: Seq<Seq<char>>| #![trigger names.no_duplicates()]
        names.no_duplicates() && ds == names.map_values(|dn: Seq<char>| dependency_ref(t.name@, dn))
}

proof fn lemma_push_name(old_names: Seq<String>, names: Seq<String>, x: Seq<char>, target_name: Seq<char>)
    requires
        names.len() > 0,
        names == old_names.push(names.last()),
        names.last()@ == x,
        ids_view_of(old_names).no_duplicates(),
        forall|k: int| 0 <= k < old_names.len() ==> (#[trigger] old_names[k])@ != x,
    ensures
        ids_view_of(names) == ids_view_of(old_names).push(x),
        ids_view_of(names).no_duplicates(),
        ids_view_of(old_names).push(x).map_values(|dn: Seq<char>| dependency_ref(target_name, dn))
            == ids_view_of(old_names).map_values(|dn: Seq<char>| dependency_ref(target_name, dn)).push(
            dependency_ref(target_name, x)),
{
    let nv0 = ids_view_of(old_names);
    assert(ids_view_of(names) =~= nv0.push(x));
    assert forall|k: int| 0 <= k < nv0.len() implies nv0[k] != x by {
        assert(nv0[k] == old_names[k]@);
    }
    assert(nv0.push(x).map_values(|dn: Seq<char>| dependency_ref(target_name, dn))
        =~= nv0.map_values(|dn: Seq<char>| dependency_ref(target_name, dn)).push(dependency_ref(target_name, x)));
}

/// A build phase, where there is one, is the target's phase stored under
/// its name and a suffix.
pub open spec fn phase_at(o: Option<String>, target_name: Seq<char>, suffix: Seq<char>) -> bool {
    o matches Some(h) ==> h@ == object_id_spec("buildPhase:"@ + (target_name + suffix), 0)
}

/// References to the run-script phases of a target's scripts, in order.
pub open spec fn script_refs(target_name: Seq<char>, scripts: Seq<crate::scripts::BuildScript>) -> Seq<PVal> {
    scripts.map_values(|b: crate::scripts::BuildScript| PVal::Ref(
        object_id_spec("shellScript:"@ + target_name + ":"@ + crate::scripts::build_script_key_spec(b), 0),
        Some(crate::scripts::script_name(b)),
    ))
}

/// A reference to a target's build phase of a kind, where it has one.
pub open spec fn phase_ref(present: bool, target_name: Seq<char>, suffix: Seq<char>, kind: Seq<char>) -> Seq<PVal> {
    if present {
        seq![PVal::Ref(object_id_spec("buildPhase:"@ + (target_name + suffix), 0), Some(kind))]
    } else {
        Seq::empty()
    }
}

/// A native target's build phases: its pre-build scripts, its Headers
/// phase, then for a static library its Sources phase, post-compile scripts
/// and Swift header phase; for a target that puts resources first its
/// Resources and Sources phases, post-compile scripts and Frameworks phase;
/// for any other its Sources phase, post-compile scripts, Resources and
/// Frameworks phases; then the copy phases in `tail`, and last its
/// post-build scripts. Which of the Headers, Sources, Resources and
/// Frameworks phases it has is given by `h`, `s`, `r` and `f`.
pub open spec fn native_phase_order(t: Target, h: bool, s: bool, r: bool, f: bool, x: Seq<PVal>, tail: Seq<PVal>) -> Seq<PVal> {
    let n = t.name@;
    script_refs(n, t.pre_build_scripts@) + phase_ref(h, n, ":Headers"@, "Headers"@) + middle_phases_spec(t, s, r, f, x)
        + tail + script_refs(n, t.post_build_scripts@)
}

/// The phases of a native target between its Headers phase and its copy
/// phases, as `native_phase_order` lists them.
pub open spec fn middle_phases_spec(t: Target, s: bool, r: bool, f: bool, x: Seq<PVal>) -> Seq<PVal> {
    let n = t.name@;
    let post = script_refs(n, t.post_compile_scripts@);
    let sources = phase_ref(s, n, ":Sources"@, "Sources"@);
    let resources = phase_ref(r, n, ":Resources"@, "Resources"@);
    let frameworks = phase_ref(f, n, ":Frameworks"@, "Frameworks"@);
    if t.target_type is StaticLibrary {
        sources + post + x
    } else if t.put_resources_before_sources_build_phase {
        resources + sources + post + frameworks
    } else {
        sources + post + resources + frameworks
    }
}

/// The build phases of a native target are in that order; a target without
/// a Sources phase is of a kind that leaves out an empty one, and a static
/// library has at most one Swift header phase.
pub open spec fn native_phases_ordered(t: Target, ph: Seq<PVal>) -> bool {
    exists|h: bool, s: bool, r: bool, f: bool, x: Seq<PVal>, tail: Seq<PVal>|
        #![trigger native_phase_order(t, h, s, r, f, x, tail)]
        x.len() <= 1 && all_refs(x) && all_refs(tail) && (!s ==> skips_empty_sources_spec(t.target_type))
            && ph == native_phase_order(t, h, s, r, f, x, tail)
}

proof fn lemma_items_concat(a: Seq<PbxValue>, b: Seq<PbxValue>)
    ensures
        all_items_view(a + b) == all_items_view(a) + all_items_view(b),
{
    lemma_items_view(a + b, (a + b).len() as int);
    lemma_items_view(a, a.len() as int);
    lemma_items_view(b, b.len() as int);
    assert forall|i: int| 0 <= i < (a + b).len() implies #[trigger] all_items_view(a + b)[i]
        == (all_items_view(a) + all_items_view(b))[i] by {
        if i < a.len() {
            assert((a + b)[i] == a[i]);
        } else {
            assert((a + b)[i] == b[i - a.len()]);
        }
    }
    assert(all_items_view(a + b) =~= all_items_view(a) + all_items_view(b));
}

proof fn lemma_script_refs(v: Seq<PbxValue>, target_name: Seq<char>, scripts: Seq<crate::scripts::BuildScript>)
    requires
        v.len() == scripts.len(),
        forall|i: int| 0 <= i < scripts.len() ==> (#[trigger] v[i])@ == PVal::Ref(
            object_id_spec("shellScript:"@ + target_name + ":"@ + crate::scripts::build_script_key_spec(scripts[i]), 0),
            Some(crate::scripts::script_name(scripts[i])),
        ),
    ensures
        all_items_view(v) == script_refs(target_name, scripts),
{
    lemma_items_view(v, v.len() as int);
    assert forall|i: int| 0 <= i < v.len() implies #[trigger] all_items_view(v)[i] == script_refs(target_name, scripts)[i] by {
        assert(all_items_view(v)[i] == v[i]@);
    }
    assert(all_items_view(v) =~= script_refs(target_name, scripts));
}

/// A native target object as a target's native target is stored: under the
/// target's name, with its name, product name and product type, its
/// configuration list, its product reference, no package products, and
/// references for its build phases (in the order `native_phase_order`
/// gives), its target dependencies (each target named once) and its build
/// rules (one for each rule).
pub open spec fn native_target_holds(t: Target, product_refs: Seq<(String, String)>, o: OView) -> bool {
    &&& o.comment == Some(t.name@)
    &&& lookup(o.fields, "name"@) == Some(PVal::Str(t.name@))
    &&& lookup(o.fields, "productName"@) == Some(PVal::Str(t.name@))
    &&& lookup(o.fields, "productType"@) == Some(PVal::Str(crate::products::product_type_raw_spec(t.target_type)))
    &&& lookup(o.fields, "buildConfigurationList"@) == Some(PVal::Ref(
        object_id_spec("configList:"@ + "PBXNativeTarget"@ + ":"@ + t.name@, 0),
        Some("Build configuration list for PBXNativeTarget \""@ + t.name@ + "\""@),
    ))
    &&& lookup(o.fields, "productReference"@) == Some(PVal::Ref(
        lookup(entries_view(product_refs), t.name@)->0,
        Some(t.product_filename@),
    ))
    &&& lookup(o.fields, "packageProductDependencies"@) == Some(PVal::Array(Seq::empty()))
    &&& lookup(o.fields, "buildPhases"@) matches Some(PVal::Array(ph)) && all_refs(ph) && native_phases_ordered(t, ph)
    &&& lookup(o.fields, "dependencies"@) matches Some(PVal::Array(ds)) && all_refs(ds) && native_dependencies_ok(t, ds)
    &&& lookup(o.fields, "buildRules"@) matches Some(PVal::Array(rs)) && all_refs(rs) && rs.len() == t.build_rules@.len()
}

proof fn lemma_ins_refs(s: Seq<PVal>, x: PVal, natural: bool)
    requires
        all_refs(s),
        x is Ref,
    ensures
        all_refs(crate::sorting::ins_by_comment(s, x, natural)),
    decreases s.len(),
{
    if s.len() > 0 && crate::sorting::comment_before(x, s.last(), natural) {
        let d = s.drop_last();
        assert forall|i: int| 0 <= i < d.len() implies (#[trigger] d[i]) is Ref by {
            assert(d[i] == s[i]);
        }
        lemma_ins_refs(d, x, natural);
        let r = crate::sorting::ins_by_comment(d, x, natural).push(s.last());
        assert forall|i: int| 0 <= i < r.len() implies (#[trigger] r[i]) is Ref by {
            if i < r.len() - 1 {
                assert(r[i] == crate::sorting::ins_by_comment(d, x, natural)[i]);
            }
        }
    } else if s.len() > 0 {
        let r = s.push(x);
        assert forall|i: int| 0 <= i < r.len() implies (#[trigger] r[i]) is Ref by {
            if i < s.len() {
                assert(r[i] == s[i]);
            }
        }
    }
}

proof fn lemma_sort_refs(s: Seq<PVal>, n: int, natural: bool)
    requires
        all_refs(s),
        0 <= n <= s.len(),
    ensures
        all_refs(crate::sorting::sort_by_comment(s, n, natural)),
    decreases n,
{
    if n > 0 {
        lemma_sort_refs(s, n - 1, natural);
        lemma_ins_refs(crate::sorting::sort_by_comment(s, n - 1, natural), s[n - 1], natural);
    }
}

/// The build files of one phase, ordered by their comments.
pub fn sorted_phase_refs(files: &Vec<FileBuildRefs>, phase: crate::files::BuildPhase, natural: bool) -> (r: Vec<PbxValue>)
    ensures
        all_refs(all_items_view(r@)),
        all_items_view(r@) == crate::sorting::sort_by_comment(
            phase_refs_spec(files@, phase),
            phase_refs_spec(files@, phase).len() as int,
            natural,
        ),
{
    let refs = phase_build_file_refs(files, phase);
    proof {
        lemma_items_view(refs@, refs@.len() as int);
        lemma_sort_refs(all_items_view(refs@), refs@.len() as int, natural);
    }
    crate::sorting::sort_refs_by_comment(refs, natural)
}

/// Whether a map of names holds a name.
pub open spec fn has_key_of(m: Seq<(String, String)>, k: Seq<char>) -> bool {
    has_key(entries_view(m), k)
}

/// Sets a field of the object stored at position `idx`.
fn set_field_at(graph: &mut PbxGraph, idx: usize, key: &str, value: PbxValue)
    requires
        old(graph).wf(),
        idx < old(graph).objects@.len(),
        graph_below(*old(graph), field_cap()),
        pdepth(value@) < field_cap(),
    ensures
        final(graph).wf(),
        graph_below(*final(graph), field_cap()),
        final(graph).cmts() == old(graph).cmts(),
        final(graph).objects@.len() == old(graph).objects@.len(),
        forall|q: int| 0 <= q < final(graph).objs().len() ==> (#[trigger] final(graph).objs()[q]).0 == old(graph).objs()[q].0,
        forall|k: Seq<char>| k != old(graph).objs()[idx as int].0 ==> #[trigger] lookup(final(graph).objs(), k) == lookup(old(graph).objs(), k),
        lookup(final(graph).objs(), old(graph).objs()[idx as int].0) matches Some(o)
            && o.isa == old(graph).objs()[idx as int].1.isa
            && o.comment == old(graph).objs()[idx as int].1.comment
            && forall|k: Seq<char>| #[trigger] lookup(o.fields, k) == if k == key@ {
                Some(value@)
            } else {
                lookup(old(graph).objs()[idx as int].1.fields, k)
            },
{
    let ghost g0 = *graph;
    proof {
        assert(graph.objects@[idx as int].1.wf());
        assert(entries_below(g0.objs()[idx as int].1.fields, field_cap()));
    }
    let ghost ex = graph.objects@[idx as int].1@;
    let m = copy_object(&graph.objects[idx].1);
    let m = m.field(key, value);
    proof {
        assert forall|k: Seq<char>| #[trigger] lookup(m@.fields, k) is Some implies pdepth(lookup(m@.fields, k)->0) < field_cap() by {
            if k != key@ && crate::smap::has_key(ex.fields, k) {
                lemma_lookup_at(ex.fields, key_index(ex.fields, k));
            }
        }
        lemma_fields_below(m@.fields, field_cap());
    }
    let id = graph.objects[idx].0.clone();
    let ghost objects0 = graph.objects@;
    let ghost mv = m@;
    graph.objects.set(idx, (id, m));
    proof {
        let s0 = entries_view(objects0);
        let s1 = graph.objs();
        assert forall|q: int| 0 <= q < s1.len() implies #[trigger] s1[q].0 == s0[q].0 by {}
        assert(keys_sorted(s1));
        lemma_lookup_at(s1, idx as int);
        assert forall|k: Seq<char>| k != s0[idx as int].0 implies #[trigger] lookup(s1, k) == lookup(s0, k) by {
            if has_key(s1, k) {
                let j = key_index(s1, k);
                lemma_lookup_at(s1, j);
                lemma_lookup_at(s0, j);
            } else if has_key(s0, k) {
                let j = key_index(s0, k);
                assert(s1[j].0 == k);
            }
        }
        assert forall|q: int| 0 <= q < graph.objects@.len() implies (#[trigger] graph.objects@[q]).1.wf() by {
            if q != idx {
                assert(graph.objects@[q] == objects0[q]);
            }
        }
        assert forall|q: int| 0 <= q < s1.len() implies entries_below(#[trigger] s1[q].1.fields, field_cap()) by {
            if q != idx {
                assert(s1[q] == s0[q]);
            } else {
                assert(s1[q].1 == mv);
            }
        }
    }
}

/// The comment of a group: its name, else the name of its path.
pub open spec fn group_comment(name: Option<String>, path: Option<String>) -> Seq<char> {
    match name {
        Some(n) => n@,
        None => match path {
            Some(p) => crate::paths::display_name_spec(p@),
            None => Seq::empty(),
        },
    }
}

impl<'a> PbxGenerator<'a> {
    /// Stores a group with its children in the order given, or merges them
    /// into the group stored under the same key; the stored children are
    /// then put in order.
    pub fn add_group_presorted(&mut self, key: &str, name: Option<String>, path: Option<String>,
        children: Vec<PbxValue>) -> (r: String)
        requires
            old(self).inv(),
            crate::depth::items_below(all_items_view(children@), 2),
        ensures
            final(self).inv(),
            crate::generator::keeps_natives(old(self).graph, final(self).graph),
            final(self).project == old(self).project,
            final(self).product_refs == old(self).product_refs,
            r@ == object_id_spec("group:"@ + key@, 0),
            lookup(final(self).graph.objs(), r@) is Some,
    {
        let comment = match &name {
            Some(n) => n.clone(),
            None => match &path {
                Some(p) => crate::paths::display_name(p.as_str()),
                None => String::new(),
            },
        };
        proof {
            lemma_items_view(children@, children@.len() as int);
            crate::depth::lemma_array_below(all_items_view(children@), 2);
        }
        let mut object = PbxObject::new("PBXGroup", comment.clone()).field("children", PbxValue::Array(children));
        if let Some(n) = name {
            object = object.field("name", PbxValue::String(n));
        }
        if let Some(p) = path {
            object = object.field("path", PbxValue::String(p));
        }
        object = object.field("sourceTree", PbxValue::String(string_from("<group>")));
        proof {
            assert forall|k: Seq<char>| #[trigger] lookup(object@.fields, k) is Some implies pdepth(lookup(object@.fields, k)->0) < field_cap() by {}
            lemma_fields_below(object@.fields, field_cap());
        }
        let group_key = concat2("group:", key);
        proof {
            reveal_strlit("PBXGroup");
            assert("PBXGroup"@.len() == 8);
            crate::generator::lemma_other_class("PBXGroup"@);
        }
        let id = self.merge_group(group_key.as_str(), object);
        match smap_find(&self.graph.objects, id.as_str()) {
            Some(idx) => {
                let stored: Option<Vec<PbxValue>> = {
                    let o = &self.graph.objects[idx].1;
                    proof {
                        assert(self.graph.objects@[idx as int].1.wf());
                    }
                    match smap_find(&o.fields, "children") {
                        Some(j) => match &o.fields[j].1 {
                            PbxValue::Array(items) => {
                                let copied = crate::graph::copy_value(&o.fields[j].1);
                                match copied {
                                    PbxValue::Array(v) => Some(v),
                                    _ => None,
                                }
                            },
                            _ => None,
                        },
                        None => None,
                    }
                };
                if let Some(children) = stored {
                    proof {
                        let o = self.graph.objs()[idx as int].1;
                        assert(entries_below(o.fields, field_cap()));
                        lemma_items_view(children@, children@.len() as int);
                        let j = choose|j: int| 0 <= j < o.fields.len() && o.fields[j].1 == PVal::Array(all_items_view(children@));
                        assert(pdepth(o.fields[j].1) < field_cap());
                        crate::depth::lemma_array_items_below(all_items_view(children@), field_cap());
                    }
                    let sorted = crate::groups::sorted_group_children(&self.graph, comment.as_str(), children);
                    proof {
                        crate::groups::lemma_group_children_below(self.graph, comment@, all_items_view(children@), (field_cap() - 1) as nat);
                        lemma_items_view(sorted@, sorted@.len() as int);
                        crate::depth::lemma_array_below(all_items_view(sorted@), (field_cap() - 1) as nat);
                    }
                    set_field_at(&mut self.graph, idx, "children", PbxValue::Array(sorted));
                }
                id
            },
            None => id,
        }
    }
}

impl<'a> PbxGenerator<'a> {
    /// Stores a group with its children in order.
    pub fn add_group(&mut self, key: &str, name: Option<String>, path: Option<String>, children: Vec<PbxValue>) -> (r: String)
        requires
            old(self).inv(),
            crate::depth::items_below(all_items_view(children@), 2),
        ensures
            final(self).inv(),
            crate::generator::keeps_natives(old(self).graph, final(self).graph),
            final(self).project == old(self).project,
            final(self).product_refs == old(self).product_refs,
            r@ == object_id_spec("group:"@ + key@, 0),
            lookup(final(self).graph.objs(), r@) is Some,
    {
        let comment = match &name {
            Some(n) => n.clone(),
            None => match &path {
                Some(p) => crate::paths::display_name(p.as_str()),
                None => String::new(),
            },
        };
        proof {
            lemma_items_view(children@, children@.len() as int);
        }
        let sorted = crate::groups::sorted_group_children(&self.graph, comment.as_str(), children);
        proof {
            crate::groups::lemma_group_children_below(self.graph, comment@, all_items_view(children@), 2);
        }
        self.add_group_presorted(key, name, path, sorted)
    }

    /// The `Frameworks` group: the frameworks and SDK libraries the targets
    /// name, one reference per name.
    #[verifier::spinoff_prover]
    #[verifier::rlimit(60)]
    pub fn add_frameworks_navigator_group(&mut self) -> (r: Option<PbxValue>)
        requires
            old(self).inv(),
        ensures
            final(self).inv(),
            crate::generator::keeps_natives(old(self).graph, final(self).graph),
            final(self).project == old(self).project,
            final(self).product_refs == old(self).product_refs,
            match r {
                Some(v) => v@ == PVal::Ref(object_id_spec("group:"@ + "Frameworks"@, 0), Some("Frameworks"@)),
                None => true,
            },
            r is Some <==> exists|i: int, j: int| 0 <= i < old(self).project.targets@.len()
                && 0 <= j < old(self).project.targets@[i].dependencies@.len()
                && links_framework_spec(#[trigger] old(self).project.targets@[i].dependencies@[j]),
    {
        let mut references: Vec<(String, PbxValue)> = Vec::new();
        proof {
            assert(entries_view(references@) =~= Seq::<(Seq<char>, PVal)>::empty());
        }
        let targets = &self.project.targets;
        let mut t: usize = 0;
        while t < targets.len()
            invariant
                self.inv(),
                crate::generator::keeps_natives(old(self).graph, self.graph),
                self.project == old(self).project,
                self.product_refs == old(self).product_refs,
                targets == &self.project.targets,
                t <= targets@.len(),
                keys_sorted(entries_view(references@)),
                forall|q: int| 0 <= q < references@.len() ==> (#[trigger] references@[q]).1@ is Ref,
                (references@.len() > 0) <==> exists|i: int, j: int| 0 <= i < t && 0 <= j < targets@[i].dependencies@.len()
                    && links_framework_spec(#[trigger] targets@[i].dependencies@[j]),
            decreases targets.len() - t,
        {
            let target = &targets[t];
            let mut d: usize = 0;
            while d < target.dependencies.len()
                invariant
                    self.inv(),
                    crate::generator::keeps_natives(old(self).graph, self.graph),
                    self.project == old(self).project,
                    self.product_refs == old(self).product_refs,
                    targets == &self.project.targets,
                    t < targets@.len(),
                    target == &targets@[t as int],
                    d <= target.dependencies@.len(),
                    keys_sorted(entries_view(references@)),
                    forall|q: int| 0 <= q < references@.len() ==> (#[trigger] references@[q]).1@ is Ref,
                    (references@.len() > 0) <==> (exists|i: int, j: int| 0 <= i < t && 0 <= j < targets@[i].dependencies@.len()
                        && links_framework_spec(#[trigger] targets@[i].dependencies@[j]))
                        || (exists|j: int| 0 <= j < d && links_framework_spec(#[trigger] target.dependencies@[j])),
                decreases target.dependencies.len() - d,
            {
                let dependency = &target.dependencies[d];
                let reference = dependency.reference.as_str();
                let entry: Option<(String, String, String, bool)> = match &dependency.dependency_type {
                    crate::model::DependencyType::Framework => {
                        Some((crate::paths::display_name(reference), string_from(reference), string_from("<group>"), false))
                    },
                    crate::model::DependencyType::Sdk { root } => {
                        let tree = match root {
                            Some(r) => r.clone(),
                            None => string_from("SDKROOT"),
                        };
                        let path = sdk_reference_path(reference, tree.as_str());
                        Some((crate::paths::display_name(reference), path, tree, true))
                    },
                    _ => None,
                };
                if let Some((name, path, tree, is_sdk)) = entry {
                    let key = if is_sdk {
                        concat2("sdkRef:", path.as_str())
                    } else {
                        concat2("navigatorFrameworkRef:", path.as_str())
                    };
                    let file_type = crate::products::file_type_for_path(name.as_str(), None);
                    let shown = if is_sdk { Some(name.clone()) } else { None };
                    let id = self.add_file_reference(key.as_str(), name.clone(), Some(path), Some(file_type), shown,
                        tree.as_str(), true);
                    let ghost r0 = references@;
                    smap_insert(&mut references, name.clone(), PbxValue::reference(id, name));
                    proof {
                        assert(lookup(entries_view(references@), name@) is Some);
                        assert(crate::smap::has_key(entries_view(references@), name@));
                        assert forall|q: int| 0 <= q < references@.len() implies (#[trigger] references@[q]).1@ is Ref by {
                            let k = references@[q].0@;
                            lemma_lookup_at(entries_view(references@), q);
                            if k != name@ {
                                let j = key_index(entries_view(r0), k);
                                lemma_lookup_at(entries_view(r0), j);
                                assert(r0[j].1@ is Ref);
                            }
                        }
                    }
                }
                proof {
                    assert(target.dependencies@[d as int] == targets@[t as int].dependencies@[d as int]);
                }
                d = d + 1;
            }
            proof {
                assert((exists|i: int, j: int| 0 <= i < t + 1 && 0 <= j < targets@[i].dependencies@.len()
                    && links_framework_spec(#[trigger] targets@[i].dependencies@[j])) <==> ((exists|i: int, j: int| 0 <= i < t
                    && 0 <= j < targets@[i].dependencies@.len() && links_framework_spec(#[trigger] targets@[i].dependencies@[j]))
                    || (exists|j: int| 0 <= j < target.dependencies@.len() && links_framework_spec(#[trigger] target.dependencies@[j])))) by {
                    if exists|j: int| 0 <= j < target.dependencies@.len() && links_framework_spec(#[trigger] target.dependencies@[j]) {
                        let j = choose|j: int| 0 <= j < target.dependencies@.len() && links_framework_spec(#[trigger] target.dependencies@[j]);
                        assert(links_framework_spec(targets@[t as int].dependencies@[j]));
                    }
                    if exists|i: int, j: int| 0 <= i < t + 1 && 0 <= j < targets@[i].dependencies@.len()
                        && links_framework_spec(#[trigger] targets@[i].dependencies@[j]) {
                        let (i, j) = choose|i: int, j: int| 0 <= i < t + 1 && 0 <= j < targets@[i].dependencies@.len()
                            && links_framework_spec(#[trigger] targets@[i].dependencies@[j]);
                        if i == t {
                            assert(links_framework_spec(target.dependencies@[j]));
                        }
                    }
                }
            }
            t = t + 1;
        }
        if references.len() == 0 {
            return None;
        }
        let mut children: Vec<PbxValue> = Vec::new();
        proof {
            lemma_items_view(children@, 0);
        }
        let mut rest = references;
        let ghost orig = rest@;
        while rest.len() > 0
            invariant
                crate::depth::items_below(all_items_view(children@), 2),
                forall|q: int| 0 <= q < rest@.len() ==> (#[trigger] rest@[q]).1@ is Ref,
            decreases rest.len(),
        {
            let ghost r0 = rest@;
            let (_, v) = rest.remove(0);
            proof {
                assert(r0[0].1 == v);
                assert forall|q: int| 0 <= q < rest@.len() implies (#[trigger] rest@[q]).1@ is Ref by {
                    assert(rest@[q] == r0[q + 1]);
                }
            }
            let ghost c0 = children@;
            children.push(v);
            proof {
                lemma_items_view(children@, children@.len() as int);
                lemma_items_view(c0, c0.len() as int);
                assert forall|q: int| 0 <= q < children@.len() implies pdepth(#[trigger] all_items_view(children@)[q]) < 2 by {
                    if q < c0.len() {
                        assert(children@[q] == c0[q]);
                        assert(pdepth(all_items_view(c0)[q]) < 2);
                    }
                }
            }
        }
        let group_id = self.add_group("Frameworks", Some(string_from("Frameworks")), None, children);
        Some(PbxValue::reference(group_id, string_from("Frameworks")))
    }


    /// The `Bundles` group: the bundles the targets depend on, one
    /// reference per name.
    #[verifier::spinoff_prover]
    #[verifier::rlimit(60)]
    pub fn add_bundles_navigator_group(&mut self) -> (r: Option<PbxValue>)
        requires
            old(self).inv(),
        ensures
            final(self).inv(),
            crate::generator::keeps_natives(old(self).graph, final(self).graph),
            final(self).project == old(self).project,
            final(self).product_refs == old(self).product_refs,
            match r {
                Some(v) => v@ == PVal::Ref(object_id_spec("group:"@ + "bundleDependenciesGroup"@, 0), Some("Bundles"@)),
                None => true,
            },
            r is Some <==> exists|i: int, j: int| 0 <= i < old(self).project.targets@.len()
                && 0 <= j < old(self).project.targets@[i].dependencies@.len()
                && is_bundle_spec(#[trigger] old(self).project.targets@[i].dependencies@[j]),
    {
        let mut references: Vec<(String, PbxValue)> = Vec::new();
        proof {
            assert(entries_view(references@) =~= Seq::<(Seq<char>, PVal)>::empty());
        }
        let targets = &self.project.targets;
        let mut t: usize = 0;
        while t < targets.len()
            invariant
                self.inv(),
                crate::generator::keeps_natives(old(self).graph, self.graph),
                self.project == old(self).project,
                self.product_refs == old(self).product_refs,
                targets == &self.project.targets,
                t <= targets@.len(),
                keys_sorted(entries_view(references@)),
                forall|q: int| 0 <= q < references@.len() ==> (#[trigger] references@[q]).1@ is Ref,
                (references@.len() > 0) <==> exists|i: int, j: int| 0 <= i < t && 0 <= j < targets@[i].dependencies@.len()
                    && is_bundle_spec(#[trigger] targets@[i].dependencies@[j]),
            decreases targets.len() - t,
        {
            let target = &targets[t];
            let mut d: usize = 0;
            while d < target.dependencies.len()
                invariant
                    self.inv(),
                    crate::generator::keeps_natives(old(self).graph, self.graph),
                    self.project == old(self).project,
                    self.product_refs == old(self).product_refs,
                    targets == &self.project.targets,
                    t < targets@.len(),
                    target == &targets@[t as int],
                    d <= target.dependencies@.len(),
                    keys_sorted(entries_view(references@)),
                    forall|q: int| 0 <= q < references@.len() ==> (#[trigger] references@[q]).1@ is Ref,
                    (references@.len() > 0) <==> (exists|i: int, j: int| 0 <= i < t && 0 <= j < targets@[i].dependencies@.len()
                        && is_bundle_spec(#[trigger] targets@[i].dependencies@[j]))
                        || (exists|j: int| 0 <= j < d && is_bundle_spec(#[trigger] target.dependencies@[j])),
                decreases target.dependencies.len() - d,
            {
                let dependency = &target.dependencies[d];
                let reference = dependency.reference.as_str();
                let is_bundle = match dependency.dependency_type {
                    crate::model::DependencyType::Bundle => true,
                    _ => false,
                };
                if is_bundle {
                    let name = crate::paths::display_name(reference);
                    let key = concat2("bundleDependencyRef:", reference);
                    let file_type = crate::products::file_type_for_path(reference, None);
                    let id = self.add_file_reference(key.as_str(), name.clone(), Some(string_from(reference)), Some(file_type),
                        None, "BUILT_PRODUCTS_DIR", true);
                    let ghost r0 = references@;
                    smap_insert(&mut references, name.clone(), PbxValue::reference(id, name));
                    proof {
                        assert(lookup(entries_view(references@), name@) is Some);
                        assert(crate::smap::has_key(entries_view(references@), name@));
                        assert forall|q: int| 0 <= q < references@.len() implies (#[trigger] references@[q]).1@ is Ref by {
                            let k = references@[q].0@;
                            lemma_lookup_at(entries_view(references@), q);
                            if k != name@ {
                                let j = key_index(entries_view(r0), k);
                                lemma_lookup_at(entries_view(r0), j);
                                assert(r0[j].1@ is Ref);
                            }
                        }
                    }
                }
                proof {
                    assert(target.dependencies@[d as int] == targets@[t as int].dependencies@[d as int]);
                }
                d = d + 1;
            }
            proof {
                assert((exists|i: int, j: int| 0 <= i < t + 1 && 0 <= j < targets@[i].dependencies@.len()
                    && is_bundle_spec(#[trigger] targets@[i].dependencies@[j])) <==> ((exists|i: int, j: int| 0 <= i < t
                    && 0 <= j < targets@[i].dependencies@.len() && is_bundle_spec(#[trigger] targets@[i].dependencies@[j]))
                    || (exists|j: int| 0 <= j < target.dependencies@.len() && is_bundle_spec(#[trigger] target.dependencies@[j])))) by {
                    if exists|j: int| 0 <= j < target.dependencies@.len() && is_bundle_spec(#[trigger] target.dependencies@[j]) {
                        let j = choose|j: int| 0 <= j < target.dependencies@.len() && is_bundle_spec(#[trigger] target.dependencies@[j]);
                        assert(is_bundle_spec(targets@[t as int].dependencies@[j]));
                    }
                    if exists|i: int, j: int| 0 <= i < t + 1 && 0 <= j < targets@[i].dependencies@.len()
                        && is_bundle_spec(#[trigger] targets@[i].dependencies@[j]) {
                        let (i, j) = choose|i: int, j: int| 0 <= i < t + 1 && 0 <= j < targets@[i].dependencies@.len()
                            && is_bundle_spec(#[trigger] targets@[i].dependencies@[j]);
                        if i == t {
                            assert(is_bundle_spec(target.dependencies@[j]));
                        }
                    }
                }
            }
            t = t + 1;
        }
        if references.len() == 0 {
            return None;
        }
        let mut children: Vec<PbxValue> = Vec::new();
        proof {
            lemma_items_view(children@, 0);
        }
        let mut rest = references;
        let ghost orig = rest@;
        while rest.len() > 0
            invariant
                crate::depth::items_below(all_items_view(children@), 2),
                forall|q: int| 0 <= q < rest@.len() ==> (#[trigger] rest@[q]).1@ is Ref,
            decreases rest.len(),
        {
            let ghost r0 = rest@;
            let (_, v) = rest.remove(0);
            proof {
                assert(r0[0].1 == v);
                assert forall|q: int| 0 <= q < rest@.len() implies (#[trigger] rest@[q]).1@ is Ref by {
                    assert(rest@[q] == r0[q + 1]);
                }
            }
            let ghost c0 = children@;
            children.push(v);
            proof {
                lemma_items_view(children@, children@.len() as int);
                lemma_items_view(c0, c0.len() as int);
                assert forall|q: int| 0 <= q < children@.len() implies pdepth(#[trigger] all_items_view(children@)[q]) < 2 by {
                    if q < c0.len() {
                        assert(children@[q] == c0[q]);
                        assert(pdepth(all_items_view(c0)[q]) < 2);
                    }
                }
            }
        }
        let group_id = self.add_group("bundleDependenciesGroup", Some(string_from("Bundles")), None, children);
        Some(PbxValue::reference(group_id, string_from("Bundles")))
    }
}

/// The value a configuration's settings end up giving a key, read as a
/// string.
pub open spec fn config_setting_string_spec(list: Seq<(String, Vec<(String, crate::json::JsonValue)>)>, config: Seq<char>, key: Seq<char>) -> Option<Seq<char>> {
    match crate::scripts::last_setting(crate::settings::json_settings_of(list, config, list.len() as int), key) {
        Some(j) => crate::rules::json_string_spec(&j),
        None => None,
    }
}

/// The value of the last setting with a key, among a configuration's
/// settings, read as a string.
pub fn config_setting_string(list: &Vec<(String, Vec<(String, crate::json::JsonValue)>)>, config: &str, key: &str) -> (r: Option<String>)
    ensures
        crate::schemes::opt_string(r) == config_setting_string_spec(list@, config@, key@),
{
    match crate::settings::find_config_settings(list, config) {
        Some(i) => match crate::scripts::find_last_setting(&list[i].1, key) {
            Some(j) => crate::rules::json_string_value(j),
            None => None,
        },
        None => {
            proof {
                assert(crate::scripts::last_setting(Seq::<(String, crate::json::JsonValue)>::empty(), key@) is None);
            }
            None
        },
    }
}

/// The value of the first attribute with a key, when it is a string.
pub open spec fn attribute_string_spec(attributes: Seq<(String, crate::json::JsonValue)>, key: Seq<char>) -> Option<Seq<char>>
    decreases attributes.len(),
{
    if attributes.len() == 0 {
        None
    } else if attributes[0].0@ == key {
        match attributes[0].1 {
            crate::json::JsonValue::String(s) => Some(s@),
            _ => None,
        }
    } else {
        attribute_string_spec(attributes.skip(1), key)
    }
}

/// The value of the first attribute with a key, when it is a string.
pub fn attribute_string(attributes: &Vec<(String, crate::json::JsonValue)>, key: &str) -> (r: Option<String>)
    ensures
        crate::schemes::opt_string(r) == attribute_string_spec(attributes@, key@),
{
    let mut i: usize = 0;
    proof {
        assert(attributes@.skip(0) =~= attributes@);
    }
    while i < attributes.len()
        invariant
            i <= attributes@.len(),
            attribute_string_spec(attributes@, key@) == attribute_string_spec(attributes@.skip(i as int), key@),
        decreases attributes.len() - i,
    {
        proof {
            assert(attributes@.skip(i as int).skip(1) =~= attributes@.skip(i + 1));
            assert(attributes@.skip(i as int)[0] == attributes@[i as int]);
        }
        if str_eq(attributes[i].0.as_str(), key) {
            return match &attributes[i].1 {
                crate::json::JsonValue::String(s) => Some(s.clone()),
                _ => None,
            };
        }
        i = i + 1;
    }
    None
}

/// The first `n` attributes but those under `skip`, set in turn over an
/// empty map as project values.
pub open spec fn attributes_map(es: Seq<(String, crate::json::JsonValue)>, skip: Seq<char>, n: int) -> Seq<(Seq<char>, PVal)>
    decreases n,
{
    if n <= 0 || n > es.len() {
        Seq::empty()
    } else {
        let r = attributes_map(es, skip, n - 1);
        if es[n - 1].0@ == skip {
            r
        } else {
            crate::smap::sins(r, es[n - 1].0@, crate::json::json_to_pval(&es[n - 1].1))
        }
    }
}

/// Converts JSON attributes into a sorted map of project values.
fn json_attributes(attributes: &Vec<(String, crate::json::JsonValue)>, skip: &str) -> (r: Vec<(String, PbxValue)>)
    requires
        crate::model::settings_shallow(attributes@),
    ensures
        keys_sorted(entries_view(r@)),
        crate::depth::entries_below(entries_view(r@), 1001),
        entries_view(r@) == attributes_map(attributes@, skip@, attributes@.len() as int),
{
    let mut out: Vec<(String, PbxValue)> = Vec::new();
    proof {
        assert(entries_view(out@) =~= Seq::<(Seq<char>, PVal)>::empty());
    }
    let mut i: usize = 0;
    while i < attributes.len()
        invariant
            crate::model::settings_shallow(attributes@),
            i <= attributes@.len(),
            keys_sorted(entries_view(out@)),
            crate::depth::entries_below(entries_view(out@), 1001),
            entries_view(out@) == attributes_map(attributes@, skip@, i as int),
        decreases attributes.len() - i,
    {
        if !str_eq(attributes[i].0.as_str(), skip) {
            let v = crate::json::pbx_value_from_json(&attributes[i].1);
            proof {
                crate::depth::lemma_json_depth(&attributes@[i as int].1);
                assert(crate::plist::jdepth(&attributes@[i as int].1) < 1000);
                crate::depth::lemma_sins_below(entries_view(out@), attributes@[i as int].0@, v@, 1001);
            }
            smap_insert(&mut out, attributes[i].0.clone(), v);
        }
        i = i + 1;
    }
    out
}

fn insert_below(m: &mut Vec<(String, PbxValue)>, key: &str, value: PbxValue, Ghost(d): Ghost<nat>)
    requires
        keys_sorted(entries_view(old(m)@)),
        crate::depth::entries_below(entries_view(old(m)@), d),
        pdepth(value@) < d,
    ensures
        keys_sorted(entries_view(final(m)@)),
        crate::depth::entries_below(entries_view(final(m)@), d),
        entries_view(final(m)@) == crate::smap::sins(entries_view(old(m)@), key@, value@),
{
    proof {
        crate::depth::lemma_sins_below(entries_view(m@), key@, value@, d);
    }
    smap_insert(m, string_from(key), value);
}

impl<'a> PbxGenerator<'a> {
    /// The attributes of each target by its identifier: the specification's,
    /// then its development team and provisioning style (from its settings
    /// for the first configuration, else the project's), and for a UI test
    /// bundle the target it tests.
    pub fn target_attributes(&self, target_ids: &Vec<(String, String)>) -> (r: Vec<(String, PbxValue)>)
        requires
            self.inv(),
            crate::model::project_shallow(self.project),
            keys_sorted(entries_view(target_ids@)),
        ensures
            keys_sorted(entries_view(r@)),
            crate::depth::entries_below(entries_view(r@), 1003),
            entries_view(r@) == target_attributes_spec(self.project, entries_view(target_ids@), self.project.targets@.len() as int),
    {
        let mut all: Vec<(String, PbxValue)> = Vec::new();
        proof {
            assert(entries_view(all@) =~= Seq::<(Seq<char>, PVal)>::empty());
        }
        let names = config_names(self.project);
        let config = if names.len() > 0 { names[0].clone() } else { string_from("Debug") };
        proof {
            let nv = names@.map_values(|s: String| s@);
            if names@.len() > 0 {
                assert(nv[0] == names@[0]@);
            }
            assert(config@ == crate::scripts::first_config_name(self.project));
            reveal_strlit("DevelopmentTeam");
            reveal_strlit("ProvisioningStyle");
            reveal_strlit("TestTargetID");
        }
        let targets = &self.project.targets;
        let mut t: usize = 0;
        while t < targets.len()
            invariant
                self.inv(),
                crate::model::project_shallow(self.project),
                targets == &self.project.targets,
                keys_sorted(entries_view(target_ids@)),
                t <= targets@.len(),
                keys_sorted(entries_view(all@)),
                crate::depth::entries_below(entries_view(all@), 1003),
                config@ == crate::scripts::first_config_name(self.project),
                entries_view(all@) == target_attributes_spec(self.project, entries_view(target_ids@), t as int),
            decreases targets.len() - t,
        {
            let target = &targets[t];
            proof {
                assert(crate::model::target_shallow(targets@[t as int]));
            }
            let mut attributes = json_attributes(&target.attributes, "");
            let team = match config_setting_string(&target.settings, config.as_str(), "DEVELOPMENT_TEAM") {
                Some(v) => Some(v),
                None => config_setting_string(&self.project.settings, config.as_str(), "DEVELOPMENT_TEAM"),
            };
            if let Some(team) = team {
                insert_below(&mut attributes, "DevelopmentTeam", PbxValue::String(team), Ghost(1001nat));
            }
            let style = match config_setting_string(&target.settings, config.as_str(), "CODE_SIGN_STYLE") {
                Some(v) => Some(v),
                None => config_setting_string(&self.project.settings, config.as_str(), "CODE_SIGN_STYLE"),
            };
            if let Some(style) = style {
                insert_below(&mut attributes, "ProvisioningStyle", PbxValue::String(style), Ghost(1001nat));
            }
            let is_ui_test = match target.target_type {
                crate::products::ProductType::UiTestBundle => true,
                _ => false,
            };
            if is_ui_test {
                if let Some(tested) = crate::target_presets::test_target_reference_name(self.project, target) {
                    if let Some(k) = smap_find(target_ids, tested.as_str()) {
                        insert_below(&mut attributes, "TestTargetID", PbxValue::uncommented_reference(target_ids[k].1.clone()), Ghost(1001nat));
                    }
                }
            }
            proof {
                assert(entries_view(attributes@) == one_target_attributes(self.project, *target, entries_view(target_ids@)));
                assert(entries_view(attributes@).len() == attributes@.len());
            }
            if attributes.len() > 0 {
                if let Some(k) = smap_find(target_ids, target.name.as_str()) {
                    proof {
                        lemma_dict_view_entries(attributes@);
                        lemma_dict_below(entries_view(attributes@), 1001);
                    }
                    insert_below(&mut all, target_ids[k].1.as_str(), PbxValue::Dict(attributes), Ghost(1003nat));
                }
            }
            t = t + 1;
        }
        all
    }

    /// The attributes of the project object.
    pub fn project_attributes(&self, target_ids: &Vec<(String, String)>) -> (r: Vec<(String, PbxValue)>)
        requires
            self.inv(),
            crate::model::project_shallow(self.project),
            keys_sorted(entries_view(target_ids@)),
        ensures
            keys_sorted(entries_view(r@)),
            crate::depth::entries_below(entries_view(r@), 1005),
            entries_view(r@) == crate::smap::sins(
                crate::smap::sins(
                    crate::smap::sins(
                        attributes_map(self.project.attributes@, "LastUpgradeCheck"@, self.project.attributes@.len() as int),
                        "LastUpgradeCheck"@,
                        PVal::Str(crate::version::last_upgrade_version_spec(self.project)),
                    ),
                    "BuildIndependentTargetsInParallel"@,
                    PVal::Str("YES"@),
                ),
                "TargetAttributes"@,
                PVal::Dict(target_attributes_spec(self.project, entries_view(target_ids@), self.project.targets@.len() as int)),
            ),
    {
        let last_upgrade_check = crate::version::last_upgrade_version(self.project);
        let mut attributes = json_attributes(&self.project.attributes, "LastUpgradeCheck");
        proof {
            assert forall|i: int| 0 <= i < entries_view(attributes@).len() implies pdepth(#[trigger] entries_view(attributes@)[i].1) < 1005 by {
                assert(pdepth(entries_view(attributes@)[i].1) < 1001);
            }
        }
        insert_below(&mut attributes, "LastUpgradeCheck", PbxValue::String(last_upgrade_check), Ghost(1005nat));
        insert_below(&mut attributes, "BuildIndependentTargetsInParallel", crate::rules::pbx_bool(true), Ghost(1005nat));
        let targets = self.target_attributes(target_ids);
        proof {
            lemma_dict_view_entries(targets@);
            lemma_dict_below(entries_view(targets@), 1003);
        }
        insert_below(&mut attributes, "TargetAttributes", PbxValue::Dict(targets), Ghost(1005nat));
        attributes
    }
}


/// A setting of a target for the first configuration, or else the
/// project's.
pub open spec fn target_or_project_setting(project: &Project, t: Target, key: Seq<char>) -> Option<Seq<char>> {
    let c = crate::scripts::first_config_name(project);
    match config_setting_string_spec(t.settings@, c, key) {
        Some(v) => Some(v),
        None => config_setting_string_spec(project.settings@, c, key),
    }
}

/// The attributes of one target: the specification's, its development team
/// and provisioning style, and for a UI test bundle the identifier of the
/// application it tests.
pub open spec fn one_target_attributes(project: &Project, t: Target, ids: Seq<(Seq<char>, Seq<char>)>) -> Seq<(Seq<char>, PVal)> {
    let a0 = attributes_map(t.attributes@, ""@, t.attributes@.len() as int);
    let a1 = match target_or_project_setting(project, t, "DEVELOPMENT_TEAM"@) {
        Some(v) => crate::smap::sins(a0, "DevelopmentTeam"@, PVal::Str(v)),
        None => a0,
    };
    let a2 = match target_or_project_setting(project, t, "CODE_SIGN_STYLE"@) {
        Some(v) => crate::smap::sins(a1, "ProvisioningStyle"@, PVal::Str(v)),
        None => a1,
    };
    if t.target_type == crate::products::ProductType::UiTestBundle {
        match crate::target_presets::app_dependency(project, t.dependencies@) {
            Some((n, _)) => match lookup(ids, n) {
                Some(id) => crate::smap::sins(a2, "TestTargetID"@, PVal::Ref(id, Some(Seq::empty()))),
                None => a2,
            },
            None => a2,
        }
    } else {
        a2
    }
}

/// The attributes of the first `n` targets, by identifier, for those that
/// have any.
pub open spec fn target_attributes_spec(project: &Project, ids: Seq<(Seq<char>, Seq<char>)>, n: int) -> Seq<(Seq<char>, PVal)>
    decreases n,
{
    if n <= 0 || n > project.targets@.len() {
        Seq::empty()
    } else {
        let all = target_attributes_spec(project, ids, n - 1);
        let t = project.targets@[n - 1];
        let a = one_target_attributes(project, t, ids);
        if a.len() > 0 {
            match lookup(ids, t.name@) {
                Some(id) => crate::smap::sins(all, id, PVal::Dict(a)),
                None => all,
            }
        } else {
            all
        }
    }
}

/// A set of names kept as a sorted map, with the first `n` names added.
pub open spec fn names_added(s: Seq<(Seq<char>, bool)>, names: Seq<String>, n: int) -> Seq<(Seq<char>, bool)>
    decreases n,
{
    if n <= 0 || n > names.len() {
        s
    } else {
        crate::smap::sins(names_added(s, names, n - 1), names[n - 1]@, true)
    }
}

/// The regions a project knows as a sorted set: its development language,
/// `Base` where it uses base internationalization, and the regions of its
/// localized directories.
pub open spec fn region_set(project: &Project) -> Seq<(Seq<char>, bool)> {
    let lang = match project.options.development_language {
        Some(l) => l@,
        None => "en"@,
    };
    let s0 = crate::smap::sins(Seq::empty(), lang, true);
    let s1 = if project.options.use_base_internationalization { crate::smap::sins(s0, "Base"@, true) } else { s0 };
    names_added(s1, project.regions@, project.regions@.len() as int)
}

/// The regions a project knows: its development language, `Base` where it
/// uses base internationalization, and the regions of its localized
/// directories, in order and each once.
pub fn known_regions(project: &Project) -> (r: Vec<String>)
    ensures
        r@.map_values(|s: String| s@) == region_set(project).map_values(|e: (Seq<char>, bool)| e.0),
{
    let mut set: Vec<(String, bool)> = Vec::new();
    proof {
        assert(entries_view(set@) =~= Seq::<(Seq<char>, bool)>::empty());
    }
    smap_insert(&mut set, crate::configs::development_language(project), true);
    if project.options.use_base_internationalization {
        smap_insert(&mut set, string_from("Base"), true);
    }
    let ghost s1 = entries_view(set@);
    let mut i: usize = 0;
    while i < project.regions.len()
        invariant
            i <= project.regions@.len(),
            keys_sorted(entries_view(set@)),
            entries_view(set@) == names_added(s1, project.regions@, i as int),
        decreases project.regions.len() - i,
    {
        smap_insert(&mut set, project.regions[i].clone(), true);
        i = i + 1;
    }
    let ghost keys = entries_view(set@).map_values(|e: (Seq<char>, bool)| e.0);
    let mut out: Vec<String> = Vec::new();
    let mut k: usize = 0;
    while k < set.len()
        invariant
            k <= set@.len(),
            keys == entries_view(set@).map_values(|e: (Seq<char>, bool)| e.0),
            out@.map_values(|s: String| s@) == keys.take(k as int),
        decreases set.len() - k,
    {
        let ghost o0 = out@;
        out.push(set[k].0.clone());
        proof {
            assert(keys[k as int] == set@[k as int].0@);
            assert(out@.map_values(|s: String| s@) =~= o0.map_values(|s: String| s@).push(keys[k as int]));
            assert(keys.take(k + 1) =~= keys.take(k as int).push(keys[k as int]));
        }
        k = k + 1;
    }
    proof {
        assert(keys.take(k as int) =~= keys);
    }
    out
}

/// A graph whose fields stay under the generator's cap can be written.
pub proof fn lemma_writable(g: PbxGraph)
    requires
        graph_below(g, field_cap()),
    ensures
        crate::serialize::graph_depth_ok(g.objs()),
{
    assert forall|i: int| 0 <= i < g.objs().len() implies crate::serialize::depth_ok(#[trigger] g.objs()[i].1) by {
        assert(entries_below(g.objs()[i].1.fields, field_cap()));
    }
}

/// Whether a target is a legacy one (an unnamed product type).
pub fn is_legacy_target(target: &Target) -> (r: bool)
    ensures
        r == (target.target_type matches crate::products::ProductType::Other(s) && s@.len() == 0),
{
    match &target.target_type {
        crate::products::ProductType::Other(s) => s.as_str().is_empty(),
        _ => false,
    }
}

/// Appends a value that nests less than two deep.
fn push_shallow(v: &mut Vec<PbxValue>, x: PbxValue)
    requires
        crate::depth::items_below(all_items_view(old(v)@), 2),
        pdepth(x@) < 2,
    ensures
        crate::depth::items_below(all_items_view(final(v)@), 2),
        final(v)@.len() == old(v)@.len() + 1,
        all_items_view(final(v)@) == all_items_view(old(v)@).push(x@),
{
    let ghost b = v@;
    let ghost xv = x@;
    v.push(x);
    proof {
        lemma_items_view(v@, v@.len() as int);
        lemma_items_view(b, b.len() as int);
        assert forall|q: int| 0 <= q < b.len() implies all_items_view(v@)[q] == #[trigger] all_items_view(b)[q] by {
            assert(v@[q] == b[q]);
        }
        assert(all_items_view(v@) =~= all_items_view(b).push(xv));
        assert forall|q: int| 0 <= q < v@.len() implies pdepth(#[trigger] all_items_view(v@)[q]) < 2 by {
            if q < b.len() {
                assert(v@[q] == b[q]);
                assert(pdepth(all_items_view(b)[q]) < 2);
            } else {
                assert(v@[q]@ == xv);
            }
        }
    }
}

/// The first `n` values, each kept once, at its first place.
pub open spec fn dedup_values(s: Seq<PVal>, n: int) -> Seq<PVal>
    decreases n,
{
    if n <= 0 || n > s.len() {
        Seq::empty()
    } else {
        let d = dedup_values(s, n - 1);
        if d.contains(s[n - 1]) { d } else { d.push(s[n - 1]) }
    }
}

/// A field of a build file: its file, its platform filter and platforms,
/// and its settings, each where given.
pub open spec fn build_file_field(
    k: Seq<char>,
    file_ref: Seq<char>,
    name: Seq<char>,
    platform_filter: Option<Seq<char>>,
    settings: Option<PVal>,
    filters: Seq<Seq<char>>,
) -> Option<PVal> {
    if k == "fileRef"@ {
        Some(PVal::Ref(file_ref, Some(name)))
    } else if k == "platformFilter"@ {
        match platform_filter {
            Some(f) => Some(PVal::Str(f)),
            None => None,
        }
    } else if k == "platformFilters"@ {
        if filters.len() > 0 { Some(crate::target_presets::strs(filters)) } else { None }
    } else if k == "settings"@ {
        settings
    } else {
        None
    }
}

/// The fields of a build file have distinct names.
pub proof fn lemma_build_file_keys()
    ensures
        "fileRef"@ != "platformFilter"@,
        "fileRef"@ != "platformFilters"@,
        "fileRef"@ != "settings"@,
        "platformFilter"@ != "platformFilters"@,
        "platformFilter"@ != "settings"@,
        "platformFilters"@ != "settings"@,
{
    reveal_strlit("fileRef");
    reveal_strlit("platformFilter");
    reveal_strlit("platformFilters");
    reveal_strlit("settings");
    assert("fileRef"@.len() == 7);
    assert("platformFilter"@.len() == 14);
    assert("platformFilters"@.len() == 15);
    assert("settings"@.len() == 8);
}

/// Whether a target is a legacy one (an unnamed product type).
pub open spec fn is_legacy_target_spec(t: Target) -> bool {
    t.target_type matches crate::products::ProductType::Other(s) && s@.len() == 0
}

/// The identifier a target is stored under.
pub open spec fn target_id_spec(t: Target) -> Seq<char> {
    if is_legacy_target_spec(t) {
        object_id_spec("legacyTarget:"@ + t.name@, 0)
    } else {
        object_id_spec("nativeTarget:"@ + t.name@, 0)
    }
}

/// The identifiers of the first `n` targets by name.
pub open spec fn target_id_map(ts: Seq<Target>, n: int) -> Seq<(Seq<char>, Seq<char>)>
    decreases n,
{
    if n <= 0 || n > ts.len() {
        Seq::empty()
    } else {
        crate::smap::sins(target_id_map(ts, n - 1), ts[n - 1].name@, target_id_spec(ts[n - 1]))
    }
}

/// The view of an optional value.
pub open spec fn opt_pval(o: Option<PbxValue>) -> Option<PVal> {
    match o {
        Some(v) => Some(v@),
        None => None,
    }
}

/// The settings of a weakly linked build file.
pub open spec fn weak_settings_spec() -> PVal {
    PVal::Dict(seq![("ATTRIBUTES"@, PVal::Array(seq![PVal::Str("Weak"@)]))])
}

/// A dependency on a framework or an SDK library.
pub open spec fn links_framework_spec(d: crate::model::Dependency) -> bool {
    d.dependency_type is Framework || d.dependency_type is Sdk
}

/// A dependency on a bundle.
pub open spec fn is_bundle_spec(d: crate::model::Dependency) -> bool {
    d.dependency_type is Bundle
}

/// The comment recorded for an object, or an empty one.
pub open spec fn comment_or_empty(cmts: Seq<(Seq<char>, Seq<char>)>, id: Seq<char>) -> Seq<char> {
    match lookup(cmts, id) {
        Some(c) => c,
        None => Seq::empty(),
    }
}

/// A list of children with every value kept once, in order.
fn dedup_children(children: &Vec<PbxValue>) -> (r: Vec<PbxValue>)
    requires
        crate::depth::items_below(all_items_view(children@), 2),
    ensures
        crate::depth::items_below(all_items_view(r@), 2),
        all_items_view(r@) == dedup_values(all_items_view(children@), children@.len() as int),
{
    let mut deduped: Vec<PbxValue> = Vec::new();
    proof {
        lemma_items_view(deduped@, 0);
        lemma_items_view(children@, children@.len() as int);
    }
    let mut k: usize = 0;
    while k < children.len()
        invariant
            k <= children@.len(),
            crate::depth::items_below(all_items_view(children@), 2),
            all_items_view(children@).len() == children@.len(),
            forall|q: int| 0 <= q < children@.len() ==> #[trigger] all_items_view(children@)[q] == children@[q]@,
            crate::depth::items_below(all_items_view(deduped@), 2),
            all_items_view(deduped@) == dedup_values(all_items_view(children@), k as int),
        decreases children.len() - k,
    {
        if !crate::graph::values_contain(&deduped, &children[k]) {
            proof {
                assert(pdepth(all_items_view(children@)[k as int]) < 2);
            }
            push_shallow(&mut deduped, crate::graph::copy_value(&children[k]));
        }
        k = k + 1;
    }
    deduped
}

impl<'a> PbxGenerator<'a> {
    /// Stores the product reference of every target, records it by name,
    /// and returns the references of the products in target order.
    fn add_product_references(&mut self) -> (r: Vec<String>)
        requires
            old(self).inv(),
        ensures
            final(self).inv(),
            crate::generator::keeps_natives(old(self).graph, final(self).graph),
            final(self).project == old(self).project,
            forall|q: int| 0 <= q < old(self).project.targets@.len() ==> has_key_of(final(self).product_refs@,
                #[trigger] old(self).project.targets@[q].name@),
    {
        let project = self.project;
        let mut product_ref_ids: Vec<String> = Vec::new();
        let mut t: usize = 0;
        while t < project.targets.len()
            invariant
                self.inv(),
                crate::generator::keeps_natives(old(self).graph, self.graph),
                self.project == project,
                self.project == old(self).project,
                t <= project.targets@.len(),
                forall|q: int| 0 <= q < t ==> has_key_of(self.product_refs@, #[trigger] project.targets@[q].name@),
            decreases project.targets.len() - t,
        {
            let target = &project.targets[t];
            let product_ref = if is_legacy_target(target) {
                String::new()
            } else {
                self.add_product_reference(target)
            };
            let ghost p0 = self.product_refs@;
            smap_insert(&mut self.product_refs, target.name.clone(), product_ref.clone());
            proof {
                assert forall|q: int| 0 <= q < t + 1 implies has_key_of(self.product_refs@, #[trigger] project.targets@[q].name@) by {
                    let k = project.targets@[q].name@;
                    if k != target.name@ {
                        assert(lookup(entries_view(p0), k) is Some);
                    }
                    assert(lookup(entries_view(self.product_refs@), k) is Some);
                }
            }
            if !product_ref.as_str().is_empty() {
                product_ref_ids.push(product_ref);
            }
            t = t + 1;
        }
        product_ref_ids
    }

    /// The children of the `Products` group: each product reference with
    /// the comment recorded for it.
    fn product_group_children(&self, ids: &Vec<String>) -> (r: Vec<PbxValue>)
        requires
            self.inv(),
        ensures
            crate::depth::items_below(all_items_view(r@), 2),
            all_items_view(r@) == ids@.map_values(|id: String| PVal::Ref(id@, Some(comment_or_empty(self.graph.cmts(), id@)))),
    {
        let mut children: Vec<PbxValue> = Vec::new();
        proof {
            lemma_items_view(children@, 0);
        }
        let mut p: usize = 0;
        while p < ids.len()
            invariant
                self.inv(),
                p <= ids@.len(),
                crate::depth::items_below(all_items_view(children@), 2),
                all_items_view(children@) == ids@.take(p as int).map_values(|id: String| PVal::Ref(id@, Some(comment_or_empty(self.graph.cmts(), id@)))),
            decreases ids.len() - p,
        {
            let id = ids[p].clone();
            let comment = match smap_find(&self.graph.comments, id.as_str()) {
                Some(ci) => self.graph.comments[ci].1.clone(),
                None => String::new(),
            };
            push_shallow(&mut children, PbxValue::reference(id, comment));
            proof {
                assert(ids@.take(p + 1) =~= ids@.take(p as int).push(ids@[p as int]));
                assert(ids@.take(p + 1).map_values(|id: String| PVal::Ref(id@, Some(comment_or_empty(self.graph.cmts(), id@))))
                    =~= ids@.take(p as int).map_values(|id: String| PVal::Ref(id@, Some(comment_or_empty(self.graph.cmts(), id@)))).push(
                        PVal::Ref(ids@[p as int]@, Some(comment_or_empty(self.graph.cmts(), ids@[p as int]@)))));
            }
            p = p + 1;
        }
        proof {
            assert(ids@.take(p as int) =~= ids@);
        }
        children
    }

    /// Stores the main group: the derived groups in order, each once, with
    /// the specification's indentation options.
    fn add_main_group(&mut self, derived_children: Vec<PbxValue>) -> (r: String)
        requires
            old(self).inv(),
            crate::depth::items_below(all_items_view(derived_children@), 2),
        ensures
            final(self).inv(),
            crate::generator::keeps_natives(old(self).graph, final(self).graph),
            final(self).project == old(self).project,
            final(self).product_refs == old(self).product_refs,
            r@ == object_id_spec("group:"@ + "mainGroup"@, 0),
            lookup(final(self).graph.objs(), r@) matches Some(o) && {
                &&& (old(self).project.options.indent_width matches Some(w) ==> lookup(o.fields, "indentWidth"@) == Some(PVal::Int(w as int)))
                &&& (old(self).project.options.tab_width matches Some(w) ==> lookup(o.fields, "tabWidth"@) == Some(PVal::Int(w as int)))
                &&& (old(self).project.options.uses_tabs matches Some(u) ==> lookup(o.fields, "usesTabs"@) == Some(PVal::Int(
                    if u { 1 } else { 0 })))
            },
    {
        proof {
            reveal_strlit("indentWidth");
            reveal_strlit("tabWidth");
            reveal_strlit("usesTabs");
            assert("indentWidth"@.len() == 11);
            assert("tabWidth"@.len() == 8);
            assert("usesTabs"@.len() == 8);
            assert("tabWidth"@[0] != "usesTabs"@[0]);
        }
        let main_children: Vec<PbxValue> = Vec::new();
        proof {
            lemma_items_view(main_children@, 0);
            crate::groups::lemma_group_children_below(self.graph, ""@, all_items_view(main_children@), 2);
            crate::groups::lemma_group_children_below(self.graph, ""@, all_items_view(derived_children@), 2);
        }
        let main_children = crate::groups::sorted_group_children(&self.graph, "", main_children);
        let derived = crate::groups::sorted_group_children(&self.graph, "", derived_children);
        let ghost mv = main_children@;
        let ghost dv = derived@;
        let mut all_children = main_children;
        let mut rest = derived;
        all_children.append(&mut rest);
        proof {
            lemma_items_view(all_children@, all_children@.len() as int);
            lemma_items_view(mv, mv.len() as int);
            lemma_items_view(dv, dv.len() as int);
            assert(all_children@ == mv + dv);
            assert forall|q: int| 0 <= q < all_children@.len() implies pdepth(#[trigger] all_items_view(all_children@)[q]) < 2 by {
                if q < mv.len() {
                    assert(all_children@[q] == mv[q]);
                    assert(pdepth(all_items_view(mv)[q]) < 2);
                } else {
                    assert(all_children@[q] == dv[q - mv.len()]);
                    assert(pdepth(all_items_view(dv)[q - mv.len()]) < 2);
                }
            }
        }
        let deduped = dedup_children(&all_children);
        let main_group_id = self.add_group_presorted("mainGroup", None, None, deduped);
        let project = self.project;
        let ghost gid = main_group_id@;
        match smap_find(&self.graph.objects, main_group_id.as_str()) {
            Some(idx) => {
                proof {
                    assert(self.graph.objs()[idx as int].0 == gid);
                }
                let ghost f0 = self.graph.objs()[idx as int].1.fields;
                if let Some(w) = project.options.indent_width {
                    set_field_at(&mut self.graph, idx, "indentWidth", PbxValue::Int(w));
                    proof {
                        crate::smap::lemma_lookup_at(self.graph.objs(), idx as int);
                    }
                }
                let ghost f1 = self.graph.objs()[idx as int].1.fields;
                proof {
                    crate::smap::lemma_lookup_at(self.graph.objs(), idx as int);
                    assert(self.graph.objs()[idx as int].0 == gid);
                }
                if let Some(w) = project.options.tab_width {
                    set_field_at(&mut self.graph, idx, "tabWidth", PbxValue::Int(w));
                    proof {
                        crate::smap::lemma_lookup_at(self.graph.objs(), idx as int);
                    }
                }
                let ghost f2 = self.graph.objs()[idx as int].1.fields;
                proof {
                    crate::smap::lemma_lookup_at(self.graph.objs(), idx as int);
                    assert(self.graph.objs()[idx as int].0 == gid);
                }
                if let Some(u) = project.options.uses_tabs {
                    set_field_at(&mut self.graph, idx, "usesTabs", PbxValue::Int(crate::rules::bool_int(u)));
                    proof {
                        crate::smap::lemma_lookup_at(self.graph.objs(), idx as int);
                    }
                }
                proof {
                    crate::smap::lemma_lookup_at(self.graph.objs(), idx as int);
                }
            },
            None => {},
        }
        main_group_id
    }

    /// Stores every target (legacy targets as such), then the aggregate
    /// targets, and returns the identifiers of the targets by name and the
    /// references to all of them in that order.
    fn add_targets(&mut self) -> (r: (Vec<(String, String)>, Vec<PbxValue>))
        requires
            old(self).inv(),
            crate::model::project_shallow(old(self).project),
            forall|q: int| 0 <= q < old(self).project.targets@.len() ==> has_key_of(old(self).product_refs@,
                #[trigger] old(self).project.targets@[q].name@),
        ensures
            final(self).inv(),
            final(self).project == old(self).project,
            final(self).product_refs == old(self).product_refs,
            keys_sorted(entries_view(r.0@)),
            all_refs(all_items_view(r.1@)),
            entries_view(r.0@) == target_id_map(old(self).project.targets@, old(self).project.targets@.len() as int),
            all_items_view(r.1@) == old(self).project.targets@.map_values(|t: Target| PVal::Ref(target_id_spec(t), Some(t.name@)))
                + old(self).project.aggregate_targets@.map_values(|a: crate::model::AggregateTarget| PVal::Ref(
                    object_id_spec("aggregateTarget:"@ + a.name@, 0), Some(a.name@))),
    {
        let project = self.project;
        let mut target_ids: Vec<(String, String)> = Vec::new();
        let mut target_refs: Vec<PbxValue> = Vec::new();
        proof {
            assert(entries_view(target_ids@) =~= Seq::<(Seq<char>, Seq<char>)>::empty());
            lemma_items_view(target_refs@, 0);
        }
        let mut t: usize = 0;
        while t < project.targets.len()
            invariant
                self.inv(),
                self.project == project,
                self.project == old(self).project,
                self.product_refs == old(self).product_refs,
                crate::model::project_shallow(project),
                t <= project.targets@.len(),
                forall|q: int| 0 <= q < project.targets@.len() ==> has_key_of(self.product_refs@, #[trigger] project.targets@[q].name@),
                keys_sorted(entries_view(target_ids@)),
                all_refs(all_items_view(target_refs@)),
                entries_view(target_ids@) == target_id_map(project.targets@, t as int),
                all_items_view(target_refs@) == project.targets@.take(t as int).map_values(|t: Target| PVal::Ref(target_id_spec(t), Some(t.name@))),
            decreases project.targets.len() - t,
        {
            let target = &project.targets[t];
            proof {
                assert(crate::model::target_shallow(project.targets@[t as int]));
                assert(has_key_of(self.product_refs@, project.targets@[t as int].name@));
            }
            let target_id = if is_legacy_target(target) {
                self.add_legacy_target(target)
            } else {
                self.add_native_target(target)
            };
            let ghost r0 = all_items_view(target_refs@);
            smap_insert(&mut target_ids, target.name.clone(), target_id.clone());
            push_ref(&mut target_refs, target_id, target.name.as_str());
            proof {
                assert(project.targets@.take(t + 1) =~= project.targets@.take(t as int).push(project.targets@[t as int]));
                assert(project.targets@.take(t + 1).map_values(|t: Target| PVal::Ref(target_id_spec(t), Some(t.name@)))
                    =~= r0.push(PVal::Ref(target_id_spec(project.targets@[t as int]), Some(project.targets@[t as int].name@))));
            }
            t = t + 1;
        }
        proof {
            assert(project.targets@.take(t as int) =~= project.targets@);
        }
        let ghost tr = all_items_view(target_refs@);
        let mut a: usize = 0;
        while a < project.aggregate_targets.len()
            invariant
                self.inv(),
                self.project == project,
                self.project == old(self).project,
                self.product_refs == old(self).product_refs,
                crate::model::project_shallow(project),
                a <= project.aggregate_targets@.len(),
                keys_sorted(entries_view(target_ids@)),
                all_refs(all_items_view(target_refs@)),
                entries_view(target_ids@) == target_id_map(project.targets@, project.targets@.len() as int),
                tr == project.targets@.map_values(|t: Target| PVal::Ref(target_id_spec(t), Some(t.name@))),
                all_items_view(target_refs@) == tr + project.aggregate_targets@.take(a as int).map_values(
                    |a: crate::model::AggregateTarget| PVal::Ref(object_id_spec("aggregateTarget:"@ + a.name@, 0), Some(a.name@))),
            decreases project.aggregate_targets.len() - a,
        {
            let aggregate = &project.aggregate_targets[a];
            proof {
                assert(crate::model::config_settings_shallow(project.aggregate_targets@[a as int].settings@));
            }
            let aggregate_id = self.add_aggregate_target(aggregate);
            let ghost r0 = all_items_view(target_refs@);
            push_ref(&mut target_refs, aggregate_id, aggregate.name.as_str());
            proof {
                let ag = project.aggregate_targets@;
                assert(ag.take(a + 1) =~= ag.take(a as int).push(ag[a as int]));
                assert(tr + ag.take(a + 1).map_values(|a: crate::model::AggregateTarget| PVal::Ref(
                    object_id_spec("aggregateTarget:"@ + a.name@, 0), Some(a.name@)))
                    =~= r0.push(PVal::Ref(object_id_spec("aggregateTarget:"@ + ag[a as int].name@, 0), Some(ag[a as int].name@))));
            }
            a = a + 1;
        }
        proof {
            assert(project.aggregate_targets@.take(a as int) =~= project.aggregate_targets@);
        }
        (target_ids, target_refs)
    }

    /// Builds the graph of the project: its configuration list, the
    /// product references, the `Frameworks` and `Products` groups in the
    /// main group, its targets and the project object; then writes the
    /// project file with the references Xcode gives the objects.
    #[verifier::spinoff_prover]
    #[verifier::rlimit(60)]
    pub fn generate_with_id_map(&mut self) -> (r: (String, Vec<(String, String)>))
        requires
            old(self).inv(),
            crate::model::project_shallow(old(self).project),
        ensures
            final(self).base_inv(),
            final(self).project == old(self).project,
            holds_project_object(old(self).project, final(self).graph),
            crate::serialize::id_map_wf(entries_view(r.1@)),
            r.0@ == crate::serialize::project_file_text(
                final(self).graph.objs(),
                object_id_spec("project"@, 0),
                final(self).graph.cmts(),
                entries_view(r.1@),
            ),
            lookup(final(self).graph.objs(), object_id_spec("project"@, 0)) is Some,
            entries_view(r.1@) == crate::references::generate_walk(final(self).graph.objs(), Seq::empty(),
                (Seq::empty(), Seq::empty()), object_id_spec("project"@, 0), old(self).project.name@).0,
            lookup(entries_view(r.1@), object_id_spec("project"@, 0)) is Some,
            forall|i: int| 0 <= i < r.1@.len() ==> crate::references::is_reference_text(#[trigger] entries_view(r.1@)[i].1),
    {
        let project = self.project;
        let project_settings = crate::settings::project_build_settings_by_config(project);
        let project_config_list = self.add_configuration_list("PBXProject", project.name.as_str(), &project_settings);
        let mut derived_children: Vec<PbxValue> = Vec::new();
        proof {
            lemma_items_view(derived_children@, 0);
        }
        if let Some(b) = self.add_bundles_navigator_group() {
            push_shallow(&mut derived_children, b);
        }
        if let Some(f) = self.add_frameworks_navigator_group() {
            push_shallow(&mut derived_children, f);
        }
        let product_ref_ids = self.add_product_references();
        let product_children = self.product_group_children(&product_ref_ids);
        let product_group_id = self.add_group("Products", Some(string_from("Products")), None, product_children);
        push_shallow(&mut derived_children, PbxValue::reference(product_group_id.clone(), string_from("Products")));
        let main_group_id = self.add_main_group(derived_children);
        let (target_ids, target_refs) = self.add_targets();
        proof {
            lemma_items_view(target_refs@, target_refs@.len() as int);
            lemma_sort_refs(all_items_view(target_refs@), target_refs@.len() as int, false);
        }
        let ordered_targets = crate::sorting::sort_refs_by_comment(target_refs, false);
        let attributes = self.project_attributes(&target_ids);
        proof {
            lemma_dict_view_entries(attributes@);
            lemma_refs_shallow(all_items_view(ordered_targets@));
        }
        let object = project_object(project, project_config_list, main_group_id, product_group_id, ordered_targets,
            attributes);
        let ghost g0 = self.graph;
        let ghost o = object@;
        let project_id = self.graph.add("project", object);
        proof {
            lemma_add_below(g0, self.graph, "project"@, o, project_id@, field_cap());
            lemma_writable(self.graph);
            if lookup(g0.objs(), project_id@) is Some {
                assert(lookup(g0.objs(), project_id@)->0.isa != "PBXProject"@);
            }
        }
        crate::serialize::serialize_with_id_map(&self.graph, project.name.as_str(), project_id.as_str())
    }
}

/// The project object of a project, given the identifiers of its
/// configuration list, main group and products group, its targets in order
/// and its attributes.
#[verifier::spinoff_prover]
#[verifier::rlimit(100)]
fn project_object(project: &Project, project_config_list: String, main_group_id: String, product_group_id: String,
    ordered_targets: Vec<PbxValue>, attributes: Vec<(String, PbxValue)>) -> (r: PbxObject)
    requires
        project_config_list@ == object_id_spec("configList:"@ + "PBXProject"@ + ":"@ + project.name@, 0),
        main_group_id@ == object_id_spec("group:"@ + "mainGroup"@, 0),
        product_group_id@ == object_id_spec("group:"@ + "Products"@, 0),
        all_refs(all_items_view(ordered_targets@)),
        all_items_view(ordered_targets@) == crate::sorting::sort_by_comment(project_target_refs(project),
            project_target_refs(project).len() as int, false),
        keys_sorted(entries_view(attributes@)),
        crate::depth::entries_below(entries_view(attributes@), 1005),
        entries_view(attributes@) == project_attributes_spec(project),
    ensures
        r.wf(),
        r@.isa == "PBXProject"@,
        r@.comment == Some("Project object"@),
        entries_below(r@.fields, field_cap()),
        forall|k: Seq<char>| #[trigger] lookup(r@.fields, k) == project_object_field(project, k),
{
    let regions = known_regions(project);
    let list_comment = crate::text::concat3("Build configuration list for PBXProject \"", project.name.as_str(), "\"");
    proof {
        lemma_dict_view_entries(attributes@);
        lemma_dict_below(entries_view(attributes@), 1005);
        lemma_refs_shallow(all_items_view(ordered_targets@));
    }
    let known = crate::rules::string_array(&regions);
    proof {
        assert forall|q: int| 0 <= q < known@->Array_0.len() implies pdepth(#[trigger] known@->Array_0[q]) < 1 by {
            assert(known@->Array_0[q] == PVal::Str(regions@[q]@));
        }
        crate::depth::lemma_array_below(known@->Array_0, 1);
        let rs = region_set(project);
        let names = regions@.map_values(|s: String| s@);
        assert(names == rs.map_values(|e: (Seq<char>, bool)| e.0));
        assert(names.len() == regions@.len());
        assert(rs.map_values(|e: (Seq<char>, bool)| e.0).len() == rs.len());
        assert forall|q: int| 0 <= q < known@->Array_0.len() implies known@->Array_0[q]
            == rs.map_values(|e: (Seq<char>, bool)| PVal::Str(e.0))[q] by {
            assert(names[q] == regions@[q]@);
            assert(rs.map_values(|e: (Seq<char>, bool)| e.0)[q] == rs[q].0);
        }
        assert(known@->Array_0 =~= rs.map_values(|e: (Seq<char>, bool)| PVal::Str(e.0)));
    }
    let object = PbxObject::new("PBXProject", string_from("Project object"))
        .field("attributes", PbxValue::Dict(attributes))
        .field("buildConfigurationList", PbxValue::reference(project_config_list, list_comment))
        .field("developmentRegion", PbxValue::String(crate::configs::development_language(project)))
        .field("hasScannedForEncodings", PbxValue::Int(0))
        .field("knownRegions", known)
        .field("mainGroup", PbxValue::reference(main_group_id, String::new()))
        .field("minimizedProjectReferenceProxies", PbxValue::Int(1))
        .field("preferredProjectObjectVersion", PbxValue::Int(77))
        .field("productRefGroup", PbxValue::reference(product_group_id, string_from("Products")))
        .field("projectDirPath", PbxValue::String(String::new()))
        .field("projectRoot", PbxValue::String(String::new()))
        .field("targets", PbxValue::Array(ordered_targets));
    proof {
        assert forall|k: Seq<char>| #[trigger] lookup(object@.fields, k) is Some implies pdepth(lookup(object@.fields, k)->0) < field_cap() by {}
        lemma_fields_below(object@.fields, field_cap());
        reveal_strlit("attributes");
        assert("attributes"@.len() == 10);
        reveal_strlit("buildConfigurationList");
        assert("buildConfigurationList"@.len() == 22);
        reveal_strlit("developmentRegion");
        assert("developmentRegion"@.len() == 17);
        reveal_strlit("hasScannedForEncodings");
        assert("hasScannedForEncodings"@.len() == 22);
        reveal_strlit("knownRegions");
        assert("knownRegions"@.len() == 12);
        reveal_strlit("mainGroup");
        assert("mainGroup"@.len() == 9);
        reveal_strlit("minimizedProjectReferenceProxies");
        assert("minimizedProjectReferenceProxies"@.len() == 32);
        reveal_strlit("preferredProjectObjectVersion");
        assert("preferredProjectObjectVersion"@.len() == 29);
        reveal_strlit("productRefGroup");
        assert("productRefGroup"@.len() == 15);
        reveal_strlit("projectDirPath");
        assert("projectDirPath"@.len() == 14);
        reveal_strlit("projectRoot");
        assert("projectRoot"@.len() == 11);
        reveal_strlit("targets");
        assert("targets"@.len() == 7);
        assert("buildConfigurationList"@[0] != "hasScannedForEncodings"@[0]);
        assert forall|k: Seq<char>| #[trigger] lookup(object@.fields, k) == project_object_field(project, k) by {}
    }
    object
}

/// The references to a project's targets, then to its aggregate targets,
/// each commented with the target's name.
pub open spec fn project_target_refs(project: &Project) -> Seq<PVal> {
    project.targets@.map_values(|t: Target| PVal::Ref(target_id_spec(t), Some(t.name@)))
        + project.aggregate_targets@.map_values(|a: crate::model::AggregateTarget| PVal::Ref(
            object_id_spec("aggregateTarget:"@ + a.name@, 0), Some(a.name@)))
}

/// The attributes of a project object.
pub open spec fn project_attributes_spec(project: &Project) -> Seq<(Seq<char>, PVal)> {
    crate::smap::sins(
        crate::smap::sins(
            crate::smap::sins(
                attributes_map(project.attributes@, "LastUpgradeCheck"@, project.attributes@.len() as int),
                "LastUpgradeCheck"@,
                PVal::Str(crate::version::last_upgrade_version_spec(project)),
            ),
            "BuildIndependentTargetsInParallel"@,
            PVal::Str("YES"@),
        ),
        "TargetAttributes"@,
        PVal::Dict(target_attributes_spec(project, target_id_map(project.targets@, project.targets@.len() as int),
            project.targets@.len() as int)),
    )
}

/// The fields of a project's project object: its attributes, its
/// configuration list, its development region and known regions, its main
/// and products groups, and its targets in the order of their names.
pub open spec fn project_object_field(project: &Project, k: Seq<char>) -> Option<PVal> {
    if k == "attributes"@ {
        Some(PVal::Dict(project_attributes_spec(project)))
    } else if k == "buildConfigurationList"@ {
        Some(PVal::Ref(object_id_spec("configList:"@ + "PBXProject"@ + ":"@ + project.name@, 0),
            Some("Build configuration list for PBXProject \""@ + project.name@ + "\""@)))
    } else if k == "developmentRegion"@ {
        Some(PVal::Str(match project.options.development_language {
            Some(l) => l@,
            None => "en"@,
        }))
    } else if k == "hasScannedForEncodings"@ {
        Some(PVal::Int(0))
    } else if k == "knownRegions"@ {
        Some(PVal::Array(region_set(project).map_values(|e: (Seq<char>, bool)| PVal::Str(e.0))))
    } else if k == "mainGroup"@ {
        Some(PVal::Ref(object_id_spec("group:"@ + "mainGroup"@, 0), Some(Seq::empty())))
    } else if k == "minimizedProjectReferenceProxies"@ {
        Some(PVal::Int(1))
    } else if k == "preferredProjectObjectVersion"@ {
        Some(PVal::Int(77))
    } else if k == "productRefGroup"@ {
        Some(PVal::Ref(object_id_spec("group:"@ + "Products"@, 0), Some("Products"@)))
    } else if k == "projectDirPath"@ || k == "projectRoot"@ {
        Some(PVal::Str(Seq::empty()))
    } else if k == "targets"@ {
        Some(PVal::Array(crate::sorting::sort_by_comment(project_target_refs(project),
            project_target_refs(project).len() as int, false)))
    } else {
        None
    }
}

/// The project object of a graph built for a project: stored under the
/// `project` key with the project's fields, unless an object of another
/// class already took that identifier, and then the graph holds no project
/// object at all.
pub open spec fn holds_project_object(project: &Project, g: PbxGraph) -> bool {
    lookup(g.objs(), object_id_spec("project"@, 0)) matches Some(o) && if o.isa == "PBXProject"@ {
        &&& o.comment == Some("Project object"@)
        &&& forall|k: Seq<char>| #[trigger] lookup(o.fields, k) == project_object_field(project, k)
    } else {
        no_project_object(g)
    }
}

/// Whether the project has an aggregate target with a name.
pub open spec fn is_aggregate_name_spec(project: &Project, name: Seq<char>) -> bool {
    exists|i: int| 0 <= i < project.aggregate_targets@.len() && (#[trigger] project.aggregate_targets@[i]).name@ == name
}

/// Whether the project has an aggregate target with a name.
pub fn is_aggregate_name(project: &Project, name: &str) -> (r: bool)
    ensures
        r == is_aggregate_name_spec(project, name@),
{
    let mut i: usize = 0;
    while i < project.aggregate_targets.len()
        invariant
            i <= project.aggregate_targets@.len(),
            forall|q: int| 0 <= q < i ==> (#[trigger] project.aggregate_targets@[q]).name@ != name@,
        decreases project.aggregate_targets.len() - i,
    {
        if str_eq(project.aggregate_targets[i].name.as_str(), name) {
            return true;
        }
        i = i + 1;
    }
    false
}

/// A string entry of an optional JSON object, when it is a string.
pub open spec fn legacy_string_spec(legacy: Option<crate::json::JsonValue>, key: Seq<char>) -> Option<Seq<char>> {
    match legacy {
        Some(crate::json::JsonValue::Object(es)) => match crate::json::json_entry_spec(es@, key) {
            Some(crate::json::JsonValue::String(v)) => Some(v@),
            _ => None,
        },
        _ => None,
    }
}

/// Whether a legacy target passes its build settings to its tool: the
/// `passSettings` entry read as a boolean, or no.
pub open spec fn legacy_pass_settings_spec(legacy: Option<crate::json::JsonValue>) -> bool {
    match legacy {
        Some(crate::json::JsonValue::Object(es)) => match crate::json::json_entry_spec(es@, "passSettings"@) {
            Some(j) => crate::rules::boolish_spec(&j) == Some(true),
            None => false,
        },
        _ => false,
    }
}

fn legacy_string(legacy: &Option<crate::json::JsonValue>, key: &str) -> (r: Option<String>)
    ensures
        crate::schemes::opt_string(r) == legacy_string_spec(*legacy, key@),
{
    match legacy {
        Some(crate::json::JsonValue::Object(es)) => match crate::json::json_entry(es, key) {
            Some(crate::json::JsonValue::String(v)) => Some(v.clone()),
            _ => None,
        },
        _ => None,
    }
}

fn legacy_pass_settings(legacy: &Option<crate::json::JsonValue>) -> (r: bool)
    ensures
        r == legacy_pass_settings_spec(*legacy),
{
    match legacy {
        Some(crate::json::JsonValue::Object(es)) => match crate::json::json_entry(es, "passSettings") {
            Some(j) => match crate::rules::boolish_value(j) {
                Some(b) => b,
                None => false,
            },
            None => false,
        },
        _ => false,
    }
}

impl<'a> PbxGenerator<'a> {
    /// Stores a legacy target, which runs an outside build tool: its
    /// configuration list, an empty Sources phase, the tool, its working
    /// directory and whether it passes its settings, under `legacyTarget:`
    /// and its name.
    pub fn add_legacy_target(&mut self, target: &Target) -> (r: String)
        requires
            old(self).inv(),
            crate::model::config_settings_shallow(target.settings@),
        ensures
            final(self).inv(),
            crate::generator::keeps_natives(old(self).graph, final(self).graph),
            final(self).project == old(self).project,
            final(self).product_refs == old(self).product_refs,
            r@ == object_id_spec("legacyTarget:"@ + target.name@, 0),
    {
        let name = target.name.as_str();
        let settings = crate::settings::target_build_settings_by_config(self.project, target);
        let config_list = self.add_configuration_list("PBXLegacyTarget", name, &settings);
        let no_files: Vec<PbxValue> = Vec::new();
        proof {
            lemma_items_view(no_files@, 0);
        }
        let key = concat2(name, ":Sources");
        proof {
            reveal_strlit("PBXSourcesBuildPhase");
            assert("PBXSourcesBuildPhase"@.len() == 20);
            lemma_other_class("PBXSourcesBuildPhase"@);
        }
        let sources = self.add_build_phase("PBXSourcesBuildPhase", key.as_str(), "Sources", no_files);
        let tool = match legacy_string(&target.legacy, "toolPath") {
            Some(t) => t,
            None => string_from(""),
        };
        let working = legacy_string(&target.legacy, "workingDirectory");
        let pass = legacy_pass_settings(&target.legacy);
        let mut phases: Vec<PbxValue> = Vec::new();
        proof {
            lemma_items_view(phases@, 0);
        }
        push_ref(&mut phases, sources, "Sources");
        let no_deps: Vec<PbxValue> = Vec::new();
        let no_products: Vec<PbxValue> = Vec::new();
        proof {
            lemma_items_view(no_deps@, 0);
            lemma_items_view(no_products@, 0);
            lemma_refs_shallow(all_items_view(phases@));
            lemma_refs_shallow(all_items_view(no_deps@));
            lemma_refs_shallow(all_items_view(no_products@));
        }
        let list_comment = crate::text::concat3("Build configuration list for PBXLegacyTarget \"", name, "\"");
        let mut object = PbxObject::new("PBXLegacyTarget", target.name.clone())
            .field("buildConfigurationList", PbxValue::reference(config_list, list_comment))
            .field("buildPhases", PbxValue::Array(phases))
            .field("buildToolPath", PbxValue::String(tool));
        if let Some(w) = working {
            object = object.field("buildWorkingDirectory", PbxValue::String(w));
        }
        object = object
            .field("dependencies", PbxValue::Array(no_deps))
            .field("name", PbxValue::String(target.name.clone()))
            .field("packageProductDependencies", PbxValue::Array(no_products))
            .field("passBuildSettingsInEnvironment", PbxValue::Int(crate::rules::bool_int(pass)))
            .field("productName", PbxValue::String(target.name.clone()));
        proof {
            assert forall|k: Seq<char>| #[trigger] lookup(object@.fields, k) is Some implies pdepth(lookup(object@.fields, k)->0) < field_cap() by {}
            lemma_fields_below(object@.fields, field_cap());
        }
        let key = concat2("legacyTarget:", name);
        proof {
            reveal_strlit("PBXLegacyTarget");
            assert("PBXLegacyTarget"@.len() == 15);
            assert("PBXLegacyTarget"@[3] == 'L');
            crate::generator::lemma_other_class("PBXLegacyTarget"@);
        }
        self.add_object(key.as_str(), object)
    }

    /// Stores an aggregate target: its configuration list, its run-script
    /// phases, its dependencies on the targets it names, under
    /// `aggregateTarget:` and its name.
    pub fn add_aggregate_target(&mut self, aggregate: &crate::model::AggregateTarget) -> (r: String)
        requires
            old(self).inv(),
            crate::model::config_settings_shallow(aggregate.settings@),
        ensures
            final(self).inv(),
            crate::generator::keeps_natives(old(self).graph, final(self).graph),
            final(self).project == old(self).project,
            final(self).product_refs == old(self).product_refs,
            r@ == object_id_spec("aggregateTarget:"@ + aggregate.name@, 0),
    {
        let name = aggregate.name.as_str();
        let settings = crate::settings::json_build_settings_by_config(self.project, &aggregate.settings);
        let config_list = self.add_configuration_list("PBXAggregateTarget", name, &settings);
        let phases = self.shell_script_phases(name, &aggregate.build_scripts);
        let mut dependencies: Vec<PbxValue> = Vec::new();
        proof {
            lemma_items_view(dependencies@, 0);
        }
        let mut i: usize = 0;
        while i < aggregate.targets.len()
            invariant
                self.inv(),
                crate::generator::keeps_natives(old(self).graph, self.graph),
                self.project == old(self).project,
                self.product_refs == old(self).product_refs,
                i <= aggregate.targets@.len(),
                all_refs(all_items_view(dependencies@)),
            decreases aggregate.targets.len() - i,
        {
            let id = self.add_target_dependency(name, aggregate.targets[i].as_str(), None);
            push_ref(&mut dependencies, id, "PBXTargetDependency");
            i = i + 1;
        }
        let no_products: Vec<PbxValue> = Vec::new();
        proof {
            lemma_items_view(no_products@, 0);
            lemma_refs_shallow(all_items_view(phases@));
            lemma_refs_shallow(all_items_view(dependencies@));
            lemma_refs_shallow(all_items_view(no_products@));
        }
        let list_comment = crate::text::concat3("Build configuration list for PBXAggregateTarget \"", name, "\"");
        let object = PbxObject::new("PBXAggregateTarget", aggregate.name.clone())
            .field("buildConfigurationList", PbxValue::reference(config_list, list_comment))
            .field("buildPhases", PbxValue::Array(phases))
            .field("dependencies", PbxValue::Array(dependencies))
            .field("name", PbxValue::String(aggregate.name.clone()))
            .field("packageProductDependencies", PbxValue::Array(no_products))
            .field("productName", PbxValue::String(aggregate.name.clone()));
        proof {
            assert forall|k: Seq<char>| #[trigger] lookup(object@.fields, k) is Some implies pdepth(lookup(object@.fields, k)->0) < field_cap() by {}
            lemma_fields_below(object@.fields, field_cap());
        }
        let key = concat2("aggregateTarget:", name);
        proof {
            reveal_strlit("PBXAggregateTarget");
            assert("PBXAggregateTarget"@.len() == 18);
            crate::generator::lemma_other_class("PBXAggregateTarget"@);
        }
        self.add_object(key.as_str(), object)
    }
}

} // verus!
