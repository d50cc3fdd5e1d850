//! The targets a target depends on, directly or through the targets it
//! depends on, in breadth-first order.
use vstd::prelude::*;
use crate::depth::lemma_fields_below;
use crate::embed::platform_filters_for_dependency;
use crate::generator::{PbxGenerator, all_refs, field_cap, sdk_reference_path, adds_at, stored_as, build_file_field};
use crate::graph::{PbxObject, PbxValue, PVal, all_items_view, lemma_items_view, pdepth, object_id_spec};
use crate::model::{Dependency, DependencyType, Project, Target};
use crate::products::{ProductType, is_framework, product_type_is_app, product_type_is_test};
use crate::scripts::{strings_value, views};
use crate::smap::{lookup, smap_find};
use crate::text::{concat2, concat3, str_eq, string_from};

verus! {

/// The names of the targets a list of dependencies names, in order.
pub open spec fn target_dep_refs(deps: Seq<Dependency>) -> Seq<Seq<char>>
    decreases deps.len(),
{
    if deps.len() == 0 {
        Seq::empty()
    } else {
        let rest = target_dep_refs(deps.drop_last());
        if deps.last().dependency_type is Target {
            rest.push(deps.last().reference@)
        } else {
            rest
        }
    }
}

/// `names` with each candidate not among them yet appended, in order.
pub open spec fn add_new(names: Seq<Seq<char>>, cands: Seq<Seq<char>>) -> Seq<Seq<char>>
    decreases cands.len(),
{
    if cands.len() == 0 {
        names
    } else {
        let r = add_new(names, cands.drop_last());
        if r.contains(cands.last()) {
            r
        } else {
            r.push(cands.last())
        }
    }
}

/// The position of the first target with a name, looking from `k` on.
pub open spec fn first_named(ts: Seq<Target>, name: Seq<char>, k: int) -> Option<int>
    decreases ts.len() - k,
{
    if k < 0 || k >= ts.len() {
        None
    } else if ts[k].name@ == name {
        Some(k)
    } else {
        first_named(ts, name, k + 1)
    }
}

/// The targets the first target with a name depends on.
pub open spec fn deps_of_name(project: &Project, name: Seq<char>) -> Seq<Seq<char>> {
    match first_named(project.targets@, name, 0) {
        Some(i) => target_dep_refs(project.targets@[i].dependencies@),
        None => Seq::empty(),
    }
}

/// The targets every target of a list depends on, one list after another.
pub open spec fn all_target_dep_refs(ts: Seq<Target>) -> Seq<Seq<char>>
    decreases ts.len(),
{
    if ts.len() == 0 {
        Seq::empty()
    } else {
        all_target_dep_refs(ts.drop_last()) + target_dep_refs(ts.last().dependencies@)
    }
}

/// Every name a search from a target can meet.
pub open spec fn universe(project: &Project, t: Target) -> Seq<Seq<char>> {
    target_dep_refs(t.dependencies@) + all_target_dep_refs(project.targets@)
}

/// A breadth-first search: the names from position `qi` on are still to be
/// visited; visiting one appends the targets it depends on that were not
/// met yet. `fuel` bounds the number of visits.
pub open spec fn closure(project: &Project, names: Seq<Seq<char>>, qi: nat, fuel: nat) -> Seq<Seq<char>>
    decreases fuel,
{
    if fuel == 0 || qi >= names.len() {
        names
    } else {
        closure(project, add_new(names, deps_of_name(project, names[qi as int])), qi + 1, (fuel - 1) as nat)
    }
}

/// Whether a target links what its dependencies depend on.
pub open spec fn uses_transitive_spec(project: &Project, t: Target) -> bool {
    match t.transitively_link_dependencies {
        Some(b) => b,
        None => project.options.transitively_link_dependencies,
    }
}

/// The targets a target depends on: those it names, each once, and, where
/// it links transitively, then those they depend on in breadth-first
/// order.
pub open spec fn dependency_names_spec(project: &Project, t: Target) -> Seq<Seq<char>> {
    let direct = add_new(Seq::empty(), target_dep_refs(t.dependencies@));
    if uses_transitive_spec(project, t) {
        closure(project, direct, 0, universe(project, t).len())
    } else {
        direct
    }
}

/// Appending keeps the names there and adds exactly the candidates, none
/// twice.
pub proof fn lemma_add_new(names: Seq<Seq<char>>, cands: Seq<Seq<char>>)
    ensures
        names.no_duplicates() ==> add_new(names, cands).no_duplicates(),
        add_new(names, cands).len() >= names.len(),
        forall|k: int| 0 <= k < names.len() ==> #[trigger] add_new(names, cands)[k] == names[k],
        forall|x: Seq<char>| #[trigger] add_new(names, cands).contains(x) <==> (names.contains(x) || cands.contains(x)),
    decreases cands.len(),
{
    if cands.len() > 0 {
        let c = cands.drop_last();
        lemma_add_new(names, c);
        let r = add_new(names, c);
        assert forall|x: Seq<char>| #[trigger] add_new(names, cands).contains(x) <==> (names.contains(x) || cands.contains(x)) by {
            if c.contains(x) {
                let j = choose|j: int| 0 <= j < c.len() && c[j] == x;
                assert(cands[j] == x);
            }
            if cands.contains(x) && x != cands.last() {
                let j = choose|j: int| 0 <= j < cands.len() && cands[j] == x;
                assert(j < cands.len() - 1);
                assert(c[j] == x);
            }
            if !r.contains(cands.last()) {
                let rr = r.push(cands.last());
                if rr.contains(x) && x != cands.last() {
                    let j = choose|j: int| 0 <= j < rr.len() && rr[j] == x;
                    assert(r[j] == x);
                }
                if r.contains(x) {
                    let j = choose|j: int| 0 <= j < r.len() && r[j] == x;
                    assert(rr[j] == x);
                }
                assert(rr[r.len() as int] == cands.last());
            }
            assert(cands[cands.len() - 1] == cands.last());
        }
        if names.no_duplicates() && !r.contains(cands.last()) {
            let rr = r.push(cands.last());
            assert forall|i: int, j: int| 0 <= i < rr.len() && 0 <= j < rr.len() && i != j implies rr[i] != rr[j] by {
                if i == r.len() {
                    assert(r[j] == rr[j]);
                } else if j == r.len() {
                    assert(r[i] == rr[i]);
                }
            }
        }
    }
}

/// The targets a list of dependencies names are among all of a list of
/// targets once that list holds the one they belong to.
proof fn lemma_refs_in_all(ts: Seq<Target>, i: int)
    requires
        0 <= i < ts.len(),
    ensures
        forall|x: Seq<char>| #[trigger] target_dep_refs(ts[i].dependencies@).contains(x) ==> all_target_dep_refs(ts).contains(x),
    decreases ts.len(),
{
    let a = all_target_dep_refs(ts.drop_last());
    let b = target_dep_refs(ts.last().dependencies@);
    assert forall|x: Seq<char>| #[trigger] target_dep_refs(ts[i].dependencies@).contains(x) implies all_target_dep_refs(ts).contains(x) by {
        if i == ts.len() - 1 {
            let j = choose|j: int| 0 <= j < b.len() && b[j] == x;
            assert((a + b)[a.len() + j] == x);
        } else {
            lemma_refs_in_all(ts.drop_last(), i);
            assert(ts.drop_last()[i] == ts[i]);
            let j = choose|j: int| 0 <= j < a.len() && a[j] == x;
            assert((a + b)[j] == x);
        }
    }
}

/// What a visit appends can be met by the search.
proof fn lemma_deps_in_universe(project: &Project, t: Target, name: Seq<char>)
    ensures
        forall|x: Seq<char>| #[trigger] deps_of_name(project, name).contains(x) ==> universe(project, t).contains(x),
{
    if let Some(i) = first_named(project.targets@, name, 0) {
        lemma_first_named_bound(project.targets@, name, 0);
        lemma_refs_in_all(project.targets@, i);
        let a = target_dep_refs(t.dependencies@);
        let b = all_target_dep_refs(project.targets@);
        assert forall|x: Seq<char>| #[trigger] deps_of_name(project, name).contains(x) implies universe(project, t).contains(x) by {
            let j = choose|j: int| 0 <= j < b.len() && b[j] == x;
            assert((a + b)[a.len() + j] == x);
        }
    }
}

proof fn lemma_first_named_bound(ts: Seq<Target>, name: Seq<char>, k: int)
    ensures
        first_named(ts, name, k) matches Some(i) ==> k <= i < ts.len() && ts[i].name@ == name,
    decreases ts.len() - k,
{
    if 0 <= k < ts.len() && ts[k].name@ != name {
        lemma_first_named_bound(ts, name, k + 1);
    }
}

proof fn lemma_first_named_found(ts: Seq<Target>, name: Seq<char>, k: int, i: int)
    requires
        0 <= k <= i < ts.len(),
        ts[i].name@ == name,
        forall|q: int| 0 <= q < i ==> #[trigger] ts[q].name@ != name,
    ensures
        first_named(ts, name, k) == Some(i),
    decreases i - k,
{
    if k < i {
        lemma_first_named_found(ts, name, k + 1, i);
    }
}

proof fn lemma_first_named_none(ts: Seq<Target>, name: Seq<char>, k: int)
    requires
        forall|q: int| 0 <= q < ts.len() ==> #[trigger] ts[q].name@ != name,
    ensures
        first_named(ts, name, k) is None,
    decreases ts.len() - k,
{
    if 0 <= k < ts.len() {
        lemma_first_named_none(ts, name, k + 1);
    }
}

/// The position of the first target with a name.
pub fn find_first_target(project: &Project, name: &str) -> (r: Option<usize>)
    ensures
        match r {
            Some(i) => i < project.targets@.len() && first_named(project.targets@, name@, 0) == Some(i as int),
            None => first_named(project.targets@, name@, 0) is None,
        },
{
    let mut i: usize = 0;
    while i < project.targets.len()
        invariant
            i <= project.targets@.len(),
            forall|q: int| 0 <= q < i ==> #[trigger] project.targets@[q].name@ != name@,
        decreases project.targets.len() - i,
    {
        if str_eq(project.targets[i].name.as_str(), name) {
            proof {
                lemma_first_named_found(project.targets@, name@, 0, i as int);
            }
            return Some(i);
        }
        i = i + 1;
    }
    proof {
        lemma_first_named_none(project.targets@, name@, 0);
    }
    None
}

fn contains_name(names: &Vec<String>, x: &str) -> (r: bool)
    ensures
        r == views(names@).contains(x@),
{
    let mut i: usize = 0;
    while i < names.len()
        invariant
            i <= names@.len(),
            forall|q: int| 0 <= q < i ==> names@[q]@ != x@,
        decreases names.len() - i,
    {
        if str_eq(names[i].as_str(), x) {
            proof {
                assert(views(names@)[i as int] == x@);
            }
            return true;
        }
        i = i + 1;
    }
    proof {
        if views(names@).contains(x@) {
            let j = choose|j: int| 0 <= j < views(names@).len() && views(names@)[j] == x@;
            assert(names@[j]@ == x@);
        }
    }
    false
}

/// Appends the targets a list of dependencies names that are not listed yet.
fn append_new_targets(names: &mut Vec<String>, deps: &Vec<Dependency>)
    ensures
        views(final(names)@) == add_new(views(old(names)@), target_dep_refs(deps@)),
{
    let ghost n0 = views(names@);
    let mut i: usize = 0;
    while i < deps.len()
        invariant
            i <= deps@.len(),
            views(names@) == add_new(n0, target_dep_refs(deps@.take(i as int))),
        decreases deps.len() - i,
    {
        let d = &deps[i];
        proof {
            assert(deps@.take(i + 1).drop_last() =~= deps@.take(i as int));
            assert(deps@.take(i + 1).last() == deps@[i as int]);
        }
        let is_target = match d.dependency_type {
            DependencyType::Target => true,
            _ => false,
        };
        if is_target {
            let ghost before = views(names@);
            if !contains_name(names, d.reference.as_str()) {
                names.push(d.reference.clone());
                proof {
                    assert(views(names@) =~= before.push(d.reference@));
                }
            }
            proof {
                let c = target_dep_refs(deps@.take(i + 1));
                assert(c.drop_last() =~= target_dep_refs(deps@.take(i as int)));
                assert(c.last() == d.reference@);
            }
        } else {
            proof {
                assert(target_dep_refs(deps@.take(i + 1)) =~= target_dep_refs(deps@.take(i as int)));
            }
        }
        i = i + 1;
    }
    proof {
        assert(deps@.take(i as int) =~= deps@);
    }
}

/// Whether a target links what its dependencies depend on.
pub fn target_uses_transitive_dependencies(project: &Project, t: &Target) -> (r: bool)
    ensures
        r == uses_transitive_spec(project, *t),
{
    match t.transitively_link_dependencies {
        Some(b) => b,
        None => project.options.transitively_link_dependencies,
    }
}

proof fn lemma_unique_bound(names: Seq<Seq<char>>, u: Seq<Seq<char>>)
    requires
        names.no_duplicates(),
        forall|x: Seq<char>| #[trigger] names.contains(x) ==> u.contains(x),
    ensures
        names.len() <= u.len(),
{
    names.unique_seq_to_set();
    u.lemma_cardinality_of_set();
    assert(names.to_set().subset_of(u.to_set())) by {
        assert forall|x: Seq<char>| names.to_set().contains(x) implies u.to_set().contains(x) by {
            assert(names.contains(x));
        }
    }
    vstd::set_lib::lemma_len_subset(names.to_set(), u.to_set());
}

/// The targets a target depends on, directly or, where it links
/// transitively, through the targets it depends on, each once.
#[verifier::rlimit(40)]
pub fn native_target_dependency_names(project: &Project, t: &Target) -> (r: Vec<String>)
    ensures
        views(r@) == dependency_names_spec(project, *t),
        views(r@).no_duplicates(),
        forall|x: Seq<char>| #[trigger] target_dep_refs(t.dependencies@).contains(x) ==> views(r@).contains(x),
        uses_transitive_spec(project, *t) ==> forall|i: int, x: Seq<char>|
            0 <= i < r@.len() && #[trigger] deps_of_name(project, r@[i]@).contains(x) ==> views(r@).contains(x),
{
    let mut names: Vec<String> = Vec::new();
    proof {
        assert(views(names@) =~= Seq::<Seq<char>>::empty());
    }
    append_new_targets(&mut names, &t.dependencies);
    let ghost direct = views(names@);
    let ghost u = universe(project, *t);
    proof {
        lemma_add_new(Seq::empty(), target_dep_refs(t.dependencies@));
        assert forall|x: Seq<char>| #[trigger] target_dep_refs(t.dependencies@).contains(x) implies direct.contains(x) by {
            assert(add_new(Seq::empty(), target_dep_refs(t.dependencies@)).contains(x));
        }
        assert forall|x: Seq<char>| #[trigger] direct.contains(x) implies u.contains(x) by {
            let a = target_dep_refs(t.dependencies@);
            let j = choose|j: int| 0 <= j < a.len() && a[j] == x;
            assert((a + all_target_dep_refs(project.targets@))[j] == x);
        }
    }
    if !target_uses_transitive_dependencies(project, t) {
        return names;
    }
    let mut qi: usize = 0;
    while qi < names.len()
        invariant
            qi <= names@.len(),
            views(names@).no_duplicates(),
            forall|x: Seq<char>| #[trigger] views(names@).contains(x) ==> u.contains(x),
            forall|x: Seq<char>| #[trigger] direct.contains(x) ==> views(names@).contains(x),
            u == universe(project, *t),
            direct == add_new(Seq::empty(), target_dep_refs(t.dependencies@)),
            uses_transitive_spec(project, *t),
            qi <= u.len(),
            closure(project, views(names@), qi as nat, (u.len() - qi) as nat) == closure(project, direct, 0, u.len()),
            forall|i: int, x: Seq<char>| 0 <= i < qi && #[trigger] deps_of_name(project, names@[i]@).contains(x)
                ==> views(names@).contains(x),
        decreases u.len() - qi,
    {
        proof {
            lemma_unique_bound(views(names@), u);
        }
        let ghost before = views(names@);
        let ghost nq = names@[qi as int]@;
        match find_first_target(project, names[qi].as_str()) {
            Some(ti) => {
                append_new_targets(&mut names, &project.targets[ti].dependencies);
            },
            None => {
                proof {
                    assert(add_new(before, Seq::<Seq<char>>::empty()) == before);
                }
            },
        }
        proof {
            lemma_unique_bound(before, u);
            assert(closure(project, before, qi as nat, (u.len() - qi) as nat) == closure(
                project,
                add_new(before, deps_of_name(project, before[qi as int])),
                (qi + 1) as nat,
                (u.len() - qi - 1) as nat,
            ));
            assert(views(names@) == add_new(before, deps_of_name(project, nq)));
            lemma_add_new(before, deps_of_name(project, nq));
            lemma_deps_in_universe(project, *t, nq);
            assert(before[qi as int] == nq);
            assert forall|i: int, x: Seq<char>| 0 <= i < qi + 1 && #[trigger] deps_of_name(project, names@[i]@).contains(x)
                implies views(names@).contains(x) by {
                assert(views(names@)[i] == before[i]);
                assert(names@[i]@ == views(names@)[i]);
                if i < qi {
                    assert(before.contains(x));
                }
            }
        }
        qi = qi + 1;
    }
    proof {
        assert(closure(project, views(names@), qi as nat, (u.len() - qi) as nat) == views(names@));
    }
    names
}


/// The names, among the first `n`, of static libraries a target depends on
/// only through others and whose products it can refer to.
pub open spec fn transitive_static_names(
    project: &Project,
    product_refs: Seq<(String, String)>,
    t: Target,
    names: Seq<Seq<char>>,
    n: int,
) -> Seq<Seq<char>>
    decreases n,
{
    if n <= 0 || n > names.len() {
        Seq::empty()
    } else {
        let r = transitive_static_names(project, product_refs, t, names, n - 1);
        let name = names[n - 1];
        if !target_dep_refs(t.dependencies@).contains(name) && (first_named(project.targets@, name, 0) matches Some(i)
            && project.targets@[i].target_type == ProductType::StaticLibrary)
            && crate::smap::lookup(crate::smap::entries_view(product_refs), name) is Some {
            r.push(name)
        } else {
            r
        }
    }
}

/// The build files linking the frameworks and SDK libraries among the first
/// `k` dependencies of the target `dep_name`, on behalf of `t`.
pub open spec fn linked_through(t: Target, dep_name: Seq<char>, deps: Seq<Dependency>, k: int) -> Seq<PVal>
    decreases k,
{
    if k <= 0 || k > deps.len() {
        Seq::empty()
    } else {
        let r = linked_through(t, dep_name, deps, k - 1);
        let d = deps[k - 1];
        if (d.dependency_type is Framework || d.dependency_type is Sdk) && d.link != Some(false) {
            r.push(PVal::Ref(
                crate::graph::object_id_spec("transitiveFrameworkBuildFile:"@ + t.name@ + ":"@ + dep_name + ":"@ + d.reference@, 0),
                Some(crate::paths::display_name_spec(d.reference@) + " in Frameworks"@),
            ))
        } else {
            r
        }
    }
}

/// The build files linking what the targets among the first `n` names
/// link, on behalf of `t` (a test bundle only through frameworks).
pub open spec fn linked_through_all(project: &Project, t: Target, names: Seq<Seq<char>>, n: int) -> Seq<PVal>
    decreases n,
{
    if n <= 0 || n > names.len() {
        Seq::empty()
    } else {
        let r = linked_through_all(project, t, names, n - 1);
        match first_named(project.targets@, names[n - 1], 0) {
            Some(i) => {
                let dt = project.targets@[i];
                if crate::products::product_type_is_test_spec(t.target_type) && !crate::products::is_framework_spec(dt.target_type) {
                    r
                } else {
                    r + linked_through(t, names[n - 1], dt.dependencies@, dt.dependencies@.len() as int)
                }
            },
            None => r,
        }
    }
}

/// Whether a target names a target among its dependencies.
fn depends_directly_on(t: &Target, name: &str) -> (r: bool)
    ensures
        r == target_dep_refs(t.dependencies@).contains(name@),
{
    let mut direct: Vec<String> = Vec::new();
    proof {
        assert(views(direct@) =~= Seq::<Seq<char>>::empty());
    }
    append_new_targets(&mut direct, &t.dependencies);
    proof {
        lemma_add_new(Seq::empty(), target_dep_refs(t.dependencies@));
    }
    contains_name(&direct, name)
}

impl<'a> PbxGenerator<'a> {
    /// Stores a build file of a Frameworks phase that refers to `file_ref`,
    /// with the platforms of `filters`.
    fn add_linked_file(&mut self, key: &str, name: String, file_ref: String, filters: &Vec<String>) -> (r: PbxValue)
        requires
            old(self).inv(),
        ensures
            final(self).inv(),
            crate::generator::keeps_natives(old(self).graph, final(self).graph),
            final(self).project == old(self).project,
            final(self).product_refs == old(self).product_refs,
            r@ is Ref,
            r@ == PVal::Ref(object_id_spec(key@, 0), Some(name@ + " in Frameworks"@)),
            adds_at(old(self).graph, final(self).graph, object_id_spec(key@, 0)),
            stored_as(old(self).graph, final(self).graph, object_id_spec(key@, 0), "PBXBuildFile"@,
                name@ + " in Frameworks"@, |k: Seq<char>| build_file_field(k, file_ref@, name@, None, None, views(filters@))),
    {
        proof {
            crate::generator::lemma_build_file_keys();
        }
        let ghost fr = file_ref@;
        let ghost nm = name@;
        let comment = concat2(name.as_str(), " in Frameworks");
        let mut object = PbxObject::new("PBXBuildFile", comment.clone()).field("fileRef", PbxValue::reference(file_ref, name));
        let ghost o1 = object@;
        if filters.len() > 0 {
            let fv = strings_value(filters);
            assert(fv@ == crate::target_presets::strs(views(filters@)));
            object = object.field("platformFilters", fv);
        }
        proof {
            assert forall|k: Seq<char>| #[trigger] lookup(object@.fields, k) is Some implies pdepth(lookup(object@.fields, k)->0) < field_cap() by {}
            lemma_fields_below(object@.fields, field_cap());
        }
        proof {
            assert(crate::scripts::views(filters@).len() == filters@.len());
            assert forall|k: Seq<char>| #[trigger] lookup(object@.fields, k) == build_file_field(k, fr, nm, None, None,
                views(filters@)) by {
                if k == "platformFilters"@ {
                    if filters@.len() > 0 {
                        assert(lookup(object@.fields, k) == Some(crate::target_presets::strs(views(filters@))));
                    }
                    assert(k != "fileRef"@);
                    assert(k != "platformFilter"@);
                }
            }
        }
        let ghost g0 = self.graph;
        let ghost o = object@;
        proof {
            reveal_strlit("PBXBuildFile");
            assert("PBXBuildFile"@.len() == 12);
            crate::generator::lemma_other_class("PBXBuildFile"@);
        }
        let id = self.add_object(key, object);
        proof {
            crate::generator::lemma_add_adds_at(g0, self.graph, key@, o, id@);
        }
        PbxValue::reference(id, comment)
    }

    /// The frameworks and SDK libraries a target links because the targets
    /// it depends on, directly or not, link them; for an application also
    /// the products of static libraries it depends on only through others.
    /// A target that does not link transitively links none of them.
    pub fn transitive_framework_build_files(&mut self, target: &Target) -> (r: Vec<PbxValue>)
        requires
            old(self).inv(),
        ensures
            final(self).inv(),
            crate::generator::keeps_natives(old(self).graph, final(self).graph),
            final(self).project == old(self).project,
            final(self).product_refs == old(self).product_refs,
            all_refs(all_items_view(r@)),
            !uses_transitive_spec(old(self).project, *target) ==> r@.len() == 0,
            uses_transitive_spec(old(self).project, *target) ==> {
                let names = dependency_names_spec(old(self).project, *target);
                let statics = if crate::products::product_type_is_app_spec(target.target_type) {
                    transitive_static_names(old(self).project, old(self).product_refs@, *target, names, names.len() as int)
                } else {
                    Seq::empty()
                };
                &&& r@.len() == statics.len() + linked_through_all(old(self).project, *target, names, names.len() as int).len()
                &&& forall|q: int| 0 <= q < statics.len() ==> (#[trigger] all_items_view(r@)[q]) is Ref
                    && all_items_view(r@)[q]->Ref_0 == crate::graph::object_id_spec(
                        "transitiveTargetProductBuildFile:"@ + target.name@ + ":"@ + statics[q], 0)
                &&& all_items_view(r@).skip(statics.len() as int) == linked_through_all(old(self).project, *target, names,
                    names.len() as int)
            },
    {
        let mut files: Vec<PbxValue> = Vec::new();
        proof {
            lemma_items_view(files@, 0);
        }
        if !target_uses_transitive_dependencies(self.project, target) {
            return files;
        }
        let names = native_target_dependency_names(self.project, target);
        let ghost nv = views(names@);
        let is_app = product_type_is_app(&target.target_type);
        if is_app {
            let mut j: usize = 0;
            while j < names.len()
                invariant
                    self.inv(),
                    crate::generator::keeps_natives(old(self).graph, self.graph),
                    self.project == old(self).project,
                    self.product_refs == old(self).product_refs,
                    j <= names@.len(),
                    nv == views(names@),
                    all_refs(all_items_view(files@)),
                    all_items_view(files@).len() == transitive_static_names(self.project, self.product_refs@, *target, nv,
                        j as int).len(),
                    forall|q: int| 0 <= q < all_items_view(files@).len() ==> (#[trigger] all_items_view(files@)[q]) is Ref
                        && all_items_view(files@)[q]->Ref_0 == crate::graph::object_id_spec(
                        "transitiveTargetProductBuildFile:"@ + target.name@ + ":"@
                        + transitive_static_names(self.project, self.product_refs@, *target, nv, j as int)[q], 0),
                decreases names.len() - j,
            {
                let ghost f0 = all_items_view(files@);
                proof {
                    assert(nv[j as int] == names@[j as int]@);
                }
                let dep_name = names[j].as_str();
                if !depends_directly_on(target, dep_name) {
                    if let Some(ti) = find_first_target(self.project, dep_name) {
                        let is_static = match self.project.targets[ti].target_type {
                            ProductType::StaticLibrary => true,
                            _ => false,
                        };
                        if is_static {
                            if let Some(pi) = smap_find(&self.product_refs, dep_name) {
                                let product_ref = self.product_refs[pi].1.clone();
                                let name = match smap_find(&self.graph.comments, product_ref.as_str()) {
                                    Some(ci) => self.graph.comments[ci].1.clone(),
                                    None => self.project.targets[ti].product_filename.clone(),
                                };
                                let key = concat3("transitiveTargetProductBuildFile:", target.name.as_str(), ":");
                                let key = concat2(key.as_str(), dep_name);
                                let no_filters: Vec<String> = Vec::new();
                                let file = self.add_linked_file(key.as_str(), name, product_ref, &no_filters);
                                let ghost fv = file@;
                                let ghost fs0 = files@;
                                push_value(&mut files, file);
                                proof {
                                    lemma_items_push(fs0, fv);
                                }
                            }
                        }
                    }
                }
                proof {
                    let st0 = transitive_static_names(self.project, self.product_refs@, *target, nv, j as int);
                    let st1 = transitive_static_names(self.project, self.product_refs@, *target, nv, j + 1);
                    assert forall|q: int| 0 <= q < st0.len() implies st1[q] == #[trigger] st0[q] by {}
                    assert forall|q: int| 0 <= q < all_items_view(files@).len() implies (#[trigger] all_items_view(files@)[q]) is Ref
                        && all_items_view(files@)[q]->Ref_0 == crate::graph::object_id_spec(
                        "transitiveTargetProductBuildFile:"@ + target.name@ + ":"@ + st1[q], 0) by {
                        if q < f0.len() {
                            assert(all_items_view(files@)[q] == f0[q]);
                        }
                    }
                }
                j = j + 1;
            }
        }
        let ghost st = if is_app {
            transitive_static_names(self.project, self.product_refs@, *target, nv, nv.len() as int)
        } else {
            Seq::empty()
        };
        proof {
            assert(all_items_view(files@).len() == st.len());
            assert(all_items_view(files@).skip(st.len() as int) =~= linked_through_all(self.project, *target, nv, 0));
        }
        let is_test = product_type_is_test(&target.target_type);
        let mut j: usize = 0;
        while j < names.len()
            invariant
                self.inv(),
                crate::generator::keeps_natives(old(self).graph, self.graph),
                self.project == old(self).project,
                self.product_refs == old(self).product_refs,
                j <= names@.len(),
                all_refs(all_items_view(files@)),
                nv == views(names@),
                is_test == crate::products::product_type_is_test_spec(target.target_type),
                all_items_view(files@).len() == st.len() + linked_through_all(self.project, *target, nv, j as int).len(),
                forall|q: int| 0 <= q < st.len() ==> (#[trigger] all_items_view(files@)[q]) is Ref
                    && all_items_view(files@)[q]->Ref_0 == crate::graph::object_id_spec(
                    "transitiveTargetProductBuildFile:"@ + target.name@ + ":"@ + st[q], 0),
                all_items_view(files@).skip(st.len() as int) == linked_through_all(self.project, *target, nv, j as int),
            decreases names.len() - j,
        {
            let dep_name = names[j].as_str();
            let ghost fa = all_items_view(files@);
            proof {
                assert(nv[j as int] == names@[j as int]@);
            }
            if let Some(ti) = find_first_target(self.project, dep_name) {
                let dependency_target = &self.project.targets[ti];
                if !(is_test && !is_framework(&dependency_target.target_type)) {
                    let mut k: usize = 0;
                    while k < dependency_target.dependencies.len()
                        invariant
                            self.inv(),
                            crate::generator::keeps_natives(old(self).graph, self.graph),
                            self.project == old(self).project,
                            self.product_refs == old(self).product_refs,
                            ti < self.project.targets@.len(),
                            dependency_target == &self.project.targets@[ti as int],
                            k <= dependency_target.dependencies@.len(),
                            all_refs(all_items_view(files@)),
                            j < nv.len(),
                            nv == views(names@),
                            dep_name@ == nv[j as int],
                            fa.len() >= st.len(),
                            forall|q: int| 0 <= q < st.len() ==> #[trigger] all_items_view(files@)[q] == fa[q],
                            all_items_view(files@) == fa + linked_through(*target, nv[j as int], dependency_target.dependencies@,
                                k as int),
                        decreases dependency_target.dependencies.len() - k,
                    {
                        let ghost fk = all_items_view(files@);
                        let dependency = &dependency_target.dependencies[k];
                        let links = match dependency.link {
                            Some(false) => false,
                            _ => true,
                        };
                        let (is_framework_or_sdk, is_sdk) = match &dependency.dependency_type {
                            DependencyType::Framework => (true, false),
                            DependencyType::Sdk { .. } => (true, true),
                            _ => (false, false),
                        };
                        if is_framework_or_sdk && links {
                            let reference = dependency.reference.as_str();
                            let name = crate::paths::display_name(reference);
                            let source_tree: String = match &dependency.dependency_type {
                                DependencyType::Sdk { root } => match root {
                                    Some(r) => r.clone(),
                                    None => string_from("SDKROOT"),
                                },
                                _ => string_from("<group>"),
                            };
                            let path = if is_sdk {
                                sdk_reference_path(reference, source_tree.as_str())
                            } else {
                                string_from(reference)
                            };
                            let ref_key = if is_sdk {
                                concat2("sdkRef:", path.as_str())
                            } else {
                                concat2("navigatorFrameworkRef:", path.as_str())
                            };
                            let file_type = crate::products::file_type_for_path(name.as_str(), None);
                            let file_ref = self.add_file_reference(ref_key.as_str(), name.clone(), Some(path), Some(file_type),
                                None, source_tree.as_str(), false);
                            let key = concat3("transitiveFrameworkBuildFile:", target.name.as_str(), ":");
                            let key = concat3(key.as_str(), dep_name, ":");
                            let key = concat2(key.as_str(), reference);
                            let filters = platform_filters_for_dependency(dependency);
                            let file = self.add_linked_file(key.as_str(), name, file_ref, &filters);
                            let ghost fv = file@;
                            let ghost fs0 = files@;
                            push_value(&mut files, file);
                            proof {
                                lemma_items_push(fs0, fv);
                            }
                        }
                        proof {
                            assert(dependency_target.dependencies@.take(k + 1).drop_last() =~= dependency_target.dependencies@.take(k as int));
                            assert(all_items_view(files@) =~= fa + linked_through(*target, nv[j as int], dependency_target.dependencies@,
                                k + 1));
                        }
                        k = k + 1;
                    }
                }
            }
            proof {
                let lt = linked_through_all(self.project, *target, nv, j as int);
                assert(fa.skip(st.len() as int) == lt);
                if all_items_view(files@) != fa {
                    let x = all_items_view(files@).skip(fa.len() as int);
                    assert(all_items_view(files@) =~= fa + x);
                    assert((fa + x).skip(st.len() as int) =~= fa.skip(st.len() as int) + x);
                }
                assert(all_items_view(files@).skip(st.len() as int) =~= linked_through_all(self.project, *target, nv, j + 1));
            }
            j = j + 1;
        }
        proof {
            assert(nv == dependency_names_spec(self.project, *target));
            assert(nv.len() == names@.len());
            lemma_items_view(files@, files@.len() as int);
        }
        files
    }
}

proof fn lemma_items_push(v: Seq<PbxValue>, x: PVal)
    ensures
        forall|f: PbxValue| f@ == x ==> #[trigger] all_items_view(v.push(f)) == all_items_view(v).push(x),
{
    assert forall|f: PbxValue| f@ == x implies #[trigger] all_items_view(v.push(f)) == all_items_view(v).push(x) by {
        lemma_items_view(v.push(f), (v.len() + 1) as int);
        lemma_items_view(v, v.len() as int);
        assert forall|q: int| 0 <= q < v.len() implies all_items_view(v.push(f))[q] == #[trigger] all_items_view(v)[q] by {
            assert(v.push(f)[q] == v[q]);
        }
        assert(all_items_view(v.push(f)) =~= all_items_view(v).push(x));
    }
}

fn push_value(files: &mut Vec<PbxValue>, file: PbxValue)
    requires
        all_refs(all_items_view(old(files)@)),
        file@ is Ref,
    ensures
        all_refs(all_items_view(final(files)@)),
        final(files)@ == old(files)@.push(file),
{
    let ghost before = files@;
    files.push(file);
    proof {
        lemma_items_view(files@, files@.len() as int);
        lemma_items_view(before, before.len() as int);
        assert forall|q: int| 0 <= q < files@.len() implies (#[trigger] all_items_view(files@)[q]) is Ref by {
            if q < before.len() {
                assert(files@[q] == before[q]);
                assert(all_items_view(before)[q] is Ref);
            }
        }
    }
}

} // verus!
