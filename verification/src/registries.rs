//! Building the project's registries from what each file contributed.

use vstd::prelude::*;
use crate::collector::{contains_namespace, has_namespace};
use crate::extraction::Registries;
use crate::key_objects::{
    FileImports, ImportInfo, KeyArray, KeyObject, StringArray, TranslationFnCall, TranslationProp,
    dotted, make_registry_key, make_translation_fn_call_key, make_translation_prop_key, opt_view,
    resolve_import_path, spec_resolve_import_path,
};
use crate::registry::RegistryCollector;
use crate::schema::SchemaFunction;
use crate::strmap::{StrMap, StrSet};
use crate::text::{clone_opt_string, clone_opt_strings, decimal, str_eq, text};

verus! {

/// The imports of each file, by file path.
pub type AllFileImports = StrMap<FileImports>;

pub open spec fn object_key(o: KeyObject) -> Seq<char> {
    dotted(o.file_path@, o.name@)
}

pub open spec fn array_key(a: KeyArray) -> Seq<char> {
    dotted(a.file_path@, a.name@)
}

pub open spec fn string_array_key(a: StringArray) -> Seq<char> {
    dotted(a.file_path@, a.name@)
}

/// `m` with the objects of `s` inserted in order: a later object replaces
/// an earlier one with the same key.
pub open spec fn objects_into(m: Map<Seq<char>, KeyObject>, s: Seq<KeyObject>) -> Map<Seq<char>, KeyObject>
    decreases s.len(),
{
    if s.len() == 0 { m } else { objects_into(m, s.drop_last()).insert(object_key(s.last()), s.last()) }
}

pub open spec fn arrays_into(m: Map<Seq<char>, KeyArray>, s: Seq<KeyArray>) -> Map<Seq<char>, KeyArray>
    decreases s.len(),
{
    if s.len() == 0 { m } else { arrays_into(m, s.drop_last()).insert(array_key(s.last()), s.last()) }
}

pub open spec fn string_arrays_into(m: Map<Seq<char>, StringArray>, s: Seq<StringArray>) -> Map<Seq<char>, StringArray>
    decreases s.len(),
{
    if s.len() == 0 { m } else { string_arrays_into(m, s.drop_last()).insert(string_array_key(s.last()), s.last()) }
}

/// The object registry after the files so far: keyed `file.name`.
pub open spec fn files_objects(files: Seq<(String, RegistryCollector)>) -> Map<Seq<char>, KeyObject>
    decreases files.len(),
{
    if files.len() == 0 {
        Map::empty()
    } else {
        objects_into(files_objects(files.drop_last()), files.last().1.objects@)
    }
}

pub open spec fn files_arrays(files: Seq<(String, RegistryCollector)>) -> Map<Seq<char>, KeyArray>
    decreases files.len(),
{
    if files.len() == 0 {
        Map::empty()
    } else {
        arrays_into(files_arrays(files.drop_last()), files.last().1.arrays@)
    }
}

pub open spec fn files_string_arrays(files: Seq<(String, RegistryCollector)>) -> Map<Seq<char>, StringArray>
    decreases files.len(),
{
    if files.len() == 0 {
        Map::empty()
    } else {
        string_arrays_into(files_string_arrays(files.drop_last()), files.last().1.string_arrays@)
    }
}

/// Schema functions by name: the first one with a name is kept.
pub open spec fn schema_into(m: Map<Seq<char>, SchemaFunction>, s: Seq<SchemaFunction>) -> Map<Seq<char>, SchemaFunction>
    decreases s.len(),
{
    if s.len() == 0 {
        m
    } else {
        let p = schema_into(m, s.drop_last());
        if p.contains_key(s.last().name@) { p } else { p.insert(s.last().name@, s.last()) }
    }
}

pub open spec fn files_schema(files: Seq<(String, RegistryCollector)>) -> Map<Seq<char>, SchemaFunction>
    decreases files.len(),
{
    if files.len() == 0 {
        Map::empty()
    } else {
        schema_into(files_schema(files.drop_last()), files.last().1.schema_functions@)
    }
}

/// The default export of each file that has one.
pub open spec fn files_defaults(files: Seq<(String, RegistryCollector)>) -> Map<Seq<char>, String>
    decreases files.len(),
{
    if files.len() == 0 {
        Map::empty()
    } else {
        match files.last().1.default_export_name {
            Some(n) => files_defaults(files.drop_last()).insert(files.last().0@, n),
            None => files_defaults(files.drop_last()),
        }
    }
}

/// The imports of each file.
pub open spec fn files_imports(files: Seq<(String, RegistryCollector)>) -> Map<Seq<char>, FileImports>
    decreases files.len(),
{
    if files.len() == 0 {
        Map::empty()
    } else {
        files_imports(files.drop_last()).insert(files.last().0@, files.last().1.imports)
    }
}

/// A list of namespaces by their text.
pub open spec fn ns_view(s: Seq<Option<String>>) -> Seq<Option<Seq<char>>> {
    s.map_values(|o: Option<String>| opt_view(o))
}

/// `a` with the namespaces of `b` it lacks added in order.
pub open spec fn merge_ns(a: Seq<Option<Seq<char>>>, b: Seq<Option<Seq<char>>>) -> Seq<Option<Seq<char>>>
    decreases b.len(),
{
    if b.len() == 0 {
        a
    } else {
        let m = merge_ns(a, b.drop_last());
        if m.contains(b.last()) { m } else { m.push(b.last()) }
    }
}

/// A passed-on translation function argument by its parts.
pub open spec fn call_view(c: TranslationFnCall) -> (Seq<char>, Seq<char>, usize, Seq<Option<Seq<char>>>) {
    (c.fn_file_path@, c.fn_name@, c.arg_index, ns_view(c.namespaces@))
}

pub open spec fn call_key(c: TranslationFnCall) -> Seq<char> {
    dotted(dotted(c.fn_file_path@, c.fn_name@), decimal(c.arg_index as nat))
}

/// Arguments keyed `file.fn.index`: one with a known key adds the
/// namespaces it brings that the entry lacks.
pub open spec fn calls_into(
    m: Map<Seq<char>, (Seq<char>, Seq<char>, usize, Seq<Option<Seq<char>>>)>,
    s: Seq<TranslationFnCall>,
) -> Map<Seq<char>, (Seq<char>, Seq<char>, usize, Seq<Option<Seq<char>>>)>
    decreases s.len(),
{
    if s.len() == 0 {
        m
    } else {
        let p = calls_into(m, s.drop_last());
        let k = call_key(s.last());
        if p.contains_key(k) {
            p.insert(k, (p[k].0, p[k].1, p[k].2, merge_ns(p[k].3, ns_view(s.last().namespaces@))))
        } else {
            p.insert(k, call_view(s.last()))
        }
    }
}

pub open spec fn files_calls(files: Seq<(String, RegistryCollector)>) -> Map<Seq<char>, (Seq<char>, Seq<char>, usize, Seq<Option<Seq<char>>>)>
    decreases files.len(),
{
    if files.len() == 0 {
        Map::empty()
    } else {
        calls_into(files_calls(files.drop_last()), files.last().1.translation_fn_calls@)
    }
}

/// Every object `objects_into` holds is under its own key, `file.name`,
/// where `m` holds its objects so.
pub proof fn law_objects_keyed_by_place(m: Map<Seq<char>, KeyObject>, s: Seq<KeyObject>, k: Seq<char>)
    requires
        forall|j: Seq<char>| #[trigger] m.contains_key(j) ==> object_key(m[j]) == j,
        objects_into(m, s).contains_key(k),
    ensures
        object_key(objects_into(m, s)[k]) == k,
    decreases s.len(),
{
    if s.len() > 0 && k != object_key(s.last()) {
        law_objects_keyed_by_place(m, s.drop_last(), k);
    }
}

/// The object registry keys each object `file.name`, by the file it is
/// declared in and its name.
pub proof fn law_object_registry_keys(files: Seq<(String, RegistryCollector)>, k: Seq<char>)
    requires
        files_objects(files).contains_key(k),
    ensures
        object_key(files_objects(files)[k]) == k,
    decreases files.len(),
{
    let prev = files_objects(files.drop_last());
    assert forall|j: Seq<char>| #[trigger] prev.contains_key(j) implies object_key(prev[j]) == j by {
        law_object_registry_keys(files.drop_last(), j);
    }
    law_objects_keyed_by_place(prev, files.last().1.objects@, k);
}

/// Every array `arrays_into` holds is under its own key, `file.name`,
/// where `m` holds its arrays so.
pub proof fn law_arrays_keyed_by_place(m: Map<Seq<char>, KeyArray>, s: Seq<KeyArray>, k: Seq<char>)
    requires
        forall|j: Seq<char>| #[trigger] m.contains_key(j) ==> array_key(m[j]) == j,
        arrays_into(m, s).contains_key(k),
    ensures
        array_key(arrays_into(m, s)[k]) == k,
    decreases s.len(),
{
    if s.len() > 0 && k != array_key(s.last()) {
        law_arrays_keyed_by_place(m, s.drop_last(), k);
    }
}

/// The key array registry keys each array `file.name`, by the file it is
/// declared in and its name.
pub proof fn law_array_registry_keys(files: Seq<(String, RegistryCollector)>, k: Seq<char>)
    requires
        files_arrays(files).contains_key(k),
    ensures
        array_key(files_arrays(files)[k]) == k,
    decreases files.len(),
{
    let prev = files_arrays(files.drop_last());
    assert forall|j: Seq<char>| #[trigger] prev.contains_key(j) implies array_key(prev[j]) == j by {
        law_array_registry_keys(files.drop_last(), j);
    }
    law_arrays_keyed_by_place(prev, files.last().1.arrays@, k);
}

/// Merging namespaces into a list without repeats gives a list without
/// repeats that keeps the list as its start.
pub proof fn law_merged_namespaces_have_no_repeats(a: Seq<Option<Seq<char>>>, b: Seq<Option<Seq<char>>>)
    requires
        a.no_duplicates(),
    ensures
        merge_ns(a, b).no_duplicates(),
        merge_ns(a, b).len() >= a.len(),
        merge_ns(a, b).take(a.len() as int) == a,
        forall|x: Option<Seq<char>>| #[trigger] merge_ns(a, b).contains(x) <==> (a.contains(x) || b.contains(x)),
    decreases b.len(),
{
    if b.len() > 0 {
        law_merged_namespaces_have_no_repeats(a, b.drop_last());
        let m = merge_ns(a, b.drop_last());
        if !m.contains(b.last()) {
            assert(m.push(b.last()).take(a.len() as int) =~= m.take(a.len() as int));
        }
        assert forall|x: Option<Seq<char>>| #[trigger] merge_ns(a, b).contains(x) <==> (a.contains(x) || b.contains(x)) by {
            if b.drop_last().contains(x) {
                let i = choose|i: int| 0 <= i < b.drop_last().len() && b.drop_last()[i] == x;
                assert(b[i] == x);
            }
            if b.contains(x) && x != b.last() {
                let i = choose|i: int| 0 <= i < b.len() && b[i] == x;
                assert(b.drop_last()[i] == x);
            }
            if merge_ns(a, b).contains(x) && !m.contains(x) {
                let i = choose|i: int| 0 <= i < merge_ns(a, b).len() && merge_ns(a, b)[i] == x;
                assert(i == m.len());
            }
            if m.contains(x) {
                let i = choose|i: int| 0 <= i < m.len() && m[i] == x;
                assert(merge_ns(a, b)[i] == x);
            }
            if x == b.last() {
                assert(b[b.len() - 1] == x);
                if !m.contains(x) {
                    assert(merge_ns(a, b)[m.len() as int] == x);
                }
            }
        }
    } else {
        assert(a.take(a.len() as int) =~= a);
    }
}

/// Only files of the list have a default export in the registry.
pub proof fn law_default_exports_are_of_listed_files(files: Seq<(String, RegistryCollector)>, k: Seq<char>)
    requires
        files_defaults(files).contains_key(k),
    ensures
        exists|i: int| 0 <= i < files.len() && #[trigger] files[i].0@ == k,
    decreases files.len(),
{
    let rest = files.drop_last();
    if files_defaults(rest).contains_key(k) {
        law_default_exports_are_of_listed_files(rest, k);
        let i = choose|i: int| 0 <= i < rest.len() && #[trigger] rest[i].0@ == k;
        assert(files[i].0@ == k);
    } else {
        assert(files[files.len() - 1].0@ == k);
    }
}

/// Index of the first default import bound to `local`, or -1.
pub open spec fn first_default_import(imports: Seq<ImportInfo>, i: int, local: Seq<char>) -> int
    decreases imports.len() - i,
{
    if i < 0 || i >= imports.len() {
        -1
    } else if imports[i].local_name@ == local && imports[i].imported_name@ == "default"@ {
        i
    } else {
        first_default_import(imports, i + 1, local)
    }
}

/// The name a component used in `file` goes by where it is defined: for a
/// default import, the default export name of the file it resolves to.
pub open spec fn spec_component_name(
    file: Seq<char>,
    comp: Seq<char>,
    imports: Seq<ImportInfo>,
    defaults: Map<Seq<char>, String>,
    existing: Set<Seq<char>>,
) -> Seq<char> {
    let i = first_default_import(imports, 0, comp);
    if i < 0 {
        comp
    } else {
        match spec_resolve_import_path(file, imports[i].module_specifier@, existing) {
            Some(target) => if defaults.contains_key(target) { defaults[target]@ } else { comp },
            None => comp,
        }
    }
}

/// The imports recorded for a file (none if it has no entry).
pub open spec fn imports_of(m: Map<Seq<char>, FileImports>, file: Seq<char>) -> Seq<ImportInfo> {
    if m.contains_key(file) { m[file]@ } else { Seq::empty() }
}

/// Props keyed `Component.prop` under the resolved component name: one with
/// a known key adds the namespaces it brings that the entry lacks.
pub open spec fn props_into(
    m: Map<Seq<char>, (Seq<char>, Seq<char>, Seq<Option<Seq<char>>>)>,
    file: Seq<char>,
    s: Seq<TranslationProp>,
    imports: Seq<ImportInfo>,
    defaults: Map<Seq<char>, String>,
    existing: Set<Seq<char>>,
) -> Map<Seq<char>, (Seq<char>, Seq<char>, Seq<Option<Seq<char>>>)>
    decreases s.len(),
{
    if s.len() == 0 {
        m
    } else {
        let p = props_into(m, file, s.drop_last(), imports, defaults, existing);
        let comp = spec_component_name(file, s.last().component_name@, imports, defaults, existing);
        let k = dotted(comp, s.last().prop_name@);
        if p.contains_key(k) {
            p.insert(k, (p[k].0, p[k].1, merge_ns(p[k].2, ns_view(s.last().namespaces@))))
        } else {
            p.insert(k, (comp, s.last().prop_name@, ns_view(s.last().namespaces@)))
        }
    }
}

pub open spec fn files_props(
    files: Seq<(String, RegistryCollector)>,
    imports: Map<Seq<char>, FileImports>,
    defaults: Map<Seq<char>, String>,
    existing: Set<Seq<char>>,
) -> Map<Seq<char>, (Seq<char>, Seq<char>, Seq<Option<Seq<char>>>)>
    decreases files.len(),
{
    if files.len() == 0 {
        Map::empty()
    } else {
        props_into(
            files_props(files.drop_last(), imports, defaults, existing),
            files.last().0@,
            files.last().1.translation_props@,
            imports_of(imports, files.last().0@),
            defaults,
            existing,
        )
    }
}

pub open spec fn prop_view(p: TranslationProp) -> (Seq<char>, Seq<char>, Seq<Option<Seq<char>>>) {
    (p.component_name@, p.prop_name@, ns_view(p.namespaces@))
}

/// The items of a list in reverse order.
pub(crate) fn reversed<T>(v: Vec<T>) -> (r: Vec<T>)
    ensures
        r@.len() == v@.len(),
        forall|k: int| 0 <= k < v@.len() ==> r@[k] == v@[v@.len() - 1 - k],
{
    let ghost v0 = v@;
    let mut v = v;
    let mut r: Vec<T> = Vec::new();
    while v.len() > 0
        invariant
            v@ == v0.take(v@.len() as int),
            v@.len() <= v0.len(),
            r@.len() == v0.len() - v@.len(),
            forall|k: int| 0 <= k < r@.len() ==> r@[k] == v0[v0.len() - 1 - k],
        decreases v@.len(),
    {
        let ghost n = v@.len();
        let x = v.pop().unwrap();
        assert(x == v0[n - 1]);
        r.push(x);
        assert(v@ =~= v0.take(v@.len() as int));
    }
    r
}


fn insert_objects(m: &mut StrMap<KeyObject>, v: Vec<KeyObject>)
    ensures
        final(m)@ == objects_into(old(m)@, v@),
{
    let ghost v0 = v@;
    let ghost m0 = m@;
    let n = v.len();
    let mut rev = reversed(v);
    let mut i: usize = 0;
    while rev.len() > 0
        invariant
            i <= n,
            n == v0.len(),
            rev@.len() == n - i,
            forall|k: int| 0 <= k < rev@.len() ==> rev@[k] == v0[n - 1 - k],
            m@ == objects_into(m0, v0.take(i as int)),
        decreases rev@.len(),
    {
        let o = rev.pop().unwrap();
        let key = make_registry_key(o.file_path.as_str(), o.name.as_str());
        m.insert(key, o);
        proof {
            assert(v0.take(i + 1).drop_last() =~= v0.take(i as int));
            assert(v0.take(i + 1).last() == v0[i as int]);
        }
        i = i + 1;
    }
    proof { assert(v0.take(n as int) =~= v0); }
}

fn insert_arrays(m: &mut StrMap<KeyArray>, v: Vec<KeyArray>)
    ensures
        final(m)@ == arrays_into(old(m)@, v@),
{
    let ghost v0 = v@;
    let ghost m0 = m@;
    let n = v.len();
    let mut rev = reversed(v);
    let mut i: usize = 0;
    while rev.len() > 0
        invariant
            i <= n,
            n == v0.len(),
            rev@.len() == n - i,
            forall|k: int| 0 <= k < rev@.len() ==> rev@[k] == v0[n - 1 - k],
            m@ == arrays_into(m0, v0.take(i as int)),
        decreases rev@.len(),
    {
        let a = rev.pop().unwrap();
        let key = make_registry_key(a.file_path.as_str(), a.name.as_str());
        m.insert(key, a);
        proof {
            assert(v0.take(i + 1).drop_last() =~= v0.take(i as int));
            assert(v0.take(i + 1).last() == v0[i as int]);
        }
        i = i + 1;
    }
    proof { assert(v0.take(n as int) =~= v0); }
}

fn insert_string_arrays(m: &mut StrMap<StringArray>, v: Vec<StringArray>)
    ensures
        final(m)@ == string_arrays_into(old(m)@, v@),
{
    let ghost v0 = v@;
    let ghost m0 = m@;
    let n = v.len();
    let mut rev = reversed(v);
    let mut i: usize = 0;
    while rev.len() > 0
        invariant
            i <= n,
            n == v0.len(),
            rev@.len() == n - i,
            forall|k: int| 0 <= k < rev@.len() ==> rev@[k] == v0[n - 1 - k],
            m@ == string_arrays_into(m0, v0.take(i as int)),
        decreases rev@.len(),
    {
        let a = rev.pop().unwrap();
        let key = make_registry_key(a.file_path.as_str(), a.name.as_str());
        m.insert(key, a);
        proof {
            assert(v0.take(i + 1).drop_last() =~= v0.take(i as int));
            assert(v0.take(i + 1).last() == v0[i as int]);
        }
        i = i + 1;
    }
    proof { assert(v0.take(n as int) =~= v0); }
}

fn insert_schema_functions(m: &mut StrMap<SchemaFunction>, v: Vec<SchemaFunction>)
    ensures
        final(m)@ == schema_into(old(m)@, v@),
{
    let ghost v0 = v@;
    let ghost m0 = m@;
    let n = v.len();
    let mut rev = reversed(v);
    let mut i: usize = 0;
    while rev.len() > 0
        invariant
            i <= n,
            n == v0.len(),
            rev@.len() == n - i,
            forall|k: int| 0 <= k < rev@.len() ==> rev@[k] == v0[n - 1 - k],
            m@ == schema_into(m0, v0.take(i as int)),
        decreases rev@.len(),
    {
        let f = rev.pop().unwrap();
        if !m.contains_key(f.name.as_str()) {
            let key = f.name.clone();
            m.insert(key, f);
        }
        proof {
            assert(v0.take(i + 1).drop_last() =~= v0.take(i as int));
            assert(v0.take(i + 1).last() == v0[i as int]);
        }
        i = i + 1;
    }
    proof { assert(v0.take(n as int) =~= v0); }
}

proof fn lemma_has_namespace_view(v: Seq<Option<String>>, ns: Option<String>)
    ensures
        has_namespace(v, ns) == ns_view(v).contains(opt_view(ns)),
{
    if has_namespace(v, ns) {
        let k = choose|k: int| 0 <= k < v.len() && opt_view(#[trigger] v[k]) == opt_view(ns);
        assert(ns_view(v)[k] == opt_view(ns));
    }
    if ns_view(v).contains(opt_view(ns)) {
        let k = choose|k: int| 0 <= k < ns_view(v).len() && ns_view(v)[k] == opt_view(ns);
        assert(opt_view(v[k]) == opt_view(ns));
    }
}

/// Adds to `existing` the namespaces of `new` it lacks, in order.
fn merge_namespaces(existing: &mut Vec<Option<String>>, new: &Vec<Option<String>>)
    ensures
        ns_view(final(existing)@) == merge_ns(ns_view(old(existing)@), ns_view(new@)),
{
    let ghost e0 = ns_view(existing@);
    let ghost nv = ns_view(new@);
    let mut j: usize = 0;
    while j < new.len()
        invariant
            j <= new@.len(),
            nv == ns_view(new@),
            ns_view(existing@) == merge_ns(e0, nv.take(j as int)),
        decreases new@.len() - j,
    {
        let ghost before = existing@;
        proof {
            assert(nv.take(j + 1).drop_last() =~= nv.take(j as int));
            assert(nv.take(j + 1).last() == opt_view(new@[j as int]));
            lemma_has_namespace_view(before, new@[j as int]);
        }
        if !contains_namespace(existing, &new[j]) {
            existing.push(clone_opt_string(&new[j]));
            proof { assert(ns_view(existing@) =~= ns_view(before).push(opt_view(new@[j as int]))); }
        }
        j = j + 1;
    }
    proof { assert(nv.take(new@.len() as int) =~= nv); }
}

fn insert_calls(m: &mut StrMap<TranslationFnCall>, v: Vec<TranslationFnCall>)
    ensures
        final(m)@.map_values(|c: TranslationFnCall| call_view(c))
            == calls_into(old(m)@.map_values(|c: TranslationFnCall| call_view(c)), v@),
{
    let ghost v0 = v@;
    let ghost m0 = m@.map_values(|c: TranslationFnCall| call_view(c));
    let n = v.len();
    let mut rev = reversed(v);
    let mut i: usize = 0;
    while rev.len() > 0
        invariant
            i <= n,
            n == v0.len(),
            rev@.len() == n - i,
            forall|k: int| 0 <= k < rev@.len() ==> rev@[k] == v0[n - 1 - k],
            m@.map_values(|c: TranslationFnCall| call_view(c)) == calls_into(m0, v0.take(i as int)),
        decreases rev@.len(),
    {
        let c = rev.pop().unwrap();
        let ghost mv = m@.map_values(|c: TranslationFnCall| call_view(c));
        let key = make_translation_fn_call_key(c.fn_file_path.as_str(), c.fn_name.as_str(), c.arg_index);
        proof {
            assert(v0.take(i + 1).drop_last() =~= v0.take(i as int));
            assert(v0.take(i + 1).last() == v0[i as int]);
            assert(key@ == call_key(c));
        }
        let merged = match m.get(key.as_str()) {
            Some(existing) => {
                let mut namespaces = clone_opt_strings(&existing.namespaces);
                merge_namespaces(&mut namespaces, &c.namespaces);
                Some(TranslationFnCall {
                    fn_file_path: existing.fn_file_path.clone(),
                    fn_name: existing.fn_name.clone(),
                    arg_index: existing.arg_index,
                    namespaces,
                })
            },
            None => None,
        };
        match merged {
            Some(e) => {
                m.insert(key, e);
            },
            None => {
                m.insert(key, c);
            },
        }
        proof {
            assert(m@.map_values(|c: TranslationFnCall| call_view(c)) =~= calls_into(m0, v0.take(i + 1)));
        }
        i = i + 1;
    }
    proof { assert(v0.take(n as int) =~= v0); }
}


/// The name a component used in `file_path` goes by where it is defined: a
/// default import of a file whose default export is named goes by that name;
/// any other component keeps its own.
pub fn resolve_component_name_for_prop(
    file_path: &str,
    component_name: &str,
    imports: &FileImports,
    default_exports: &StrMap<String>,
    existing_files: &StrSet,
) -> (r: String)
    ensures
        r@ == spec_component_name(file_path@, component_name@, imports@, default_exports@, existing_files@),
{
    proof { reveal_strlit("default"); }
    let mut i: usize = 0;
    while i < imports.len()
        invariant
            i <= imports@.len(),
            first_default_import(imports@, 0, component_name@) == first_default_import(imports@, i as int, component_name@),
        decreases imports@.len() - i,
    {
        if str_eq(imports[i].local_name.as_str(), component_name) && str_eq(imports[i].imported_name.as_str(), "default") {
            return match resolve_import_path(file_path, imports[i].module_specifier.as_str(), existing_files) {
                Some(target) => match default_exports.get(target.as_str()) {
                    Some(name) => name.clone(),
                    None => text(component_name),
                },
                None => text(component_name),
            };
        }
        i = i + 1;
    }
    text(component_name)
}

fn insert_props(
    m: &mut StrMap<TranslationProp>,
    file_path: &str,
    v: &Vec<TranslationProp>,
    imports: &FileImports,
    default_exports: &StrMap<String>,
    existing_files: &StrSet,
)
    ensures
        final(m)@.map_values(|p: TranslationProp| prop_view(p)) == props_into(
            old(m)@.map_values(|p: TranslationProp| prop_view(p)),
            file_path@,
            v@,
            imports@,
            default_exports@,
            existing_files@,
        ),
{
    let ghost m0 = m@.map_values(|p: TranslationProp| prop_view(p));
    let mut i: usize = 0;
    while i < v.len()
        invariant
            i <= v@.len(),
            m@.map_values(|p: TranslationProp| prop_view(p))
                == props_into(m0, file_path@, v@.take(i as int), imports@, default_exports@, existing_files@),
        decreases v@.len() - i,
    {
        let prop = &v[i];
        let comp = resolve_component_name_for_prop(file_path, prop.component_name.as_str(), imports, default_exports, existing_files);
        let key = make_translation_prop_key(comp.as_str(), prop.prop_name.as_str());
        proof {
            assert(v@.take(i + 1).drop_last() =~= v@.take(i as int));
            assert(v@.take(i + 1).last() == v@[i as int]);
        }
        let entry = match m.get(key.as_str()) {
            Some(existing) => {
                let mut namespaces = clone_opt_strings(&existing.namespaces);
                merge_namespaces(&mut namespaces, &prop.namespaces);
                TranslationProp {
                    component_name: existing.component_name.clone(),
                    prop_name: existing.prop_name.clone(),
                    namespaces,
                }
            },
            None => TranslationProp {
                component_name: comp,
                prop_name: prop.prop_name.clone(),
                namespaces: clone_opt_strings(&prop.namespaces),
            },
        };
        m.insert(key, entry);
        proof {
            assert(m@.map_values(|p: TranslationProp| prop_view(p))
                =~= props_into(m0, file_path@, v@.take(i + 1), imports@, default_exports@, existing_files@));
        }
        i = i + 1;
    }
    proof { assert(v@.take(v@.len() as int) =~= v@); }
}

/// Builds the registries from what each file contributed, in the order of
/// `files`, and hands back each file's imports.
///
/// Objects and arrays are keyed `file.name` (a later entry replaces an
/// earlier one); the first schema function with a name is kept; an argument
/// or a prop passed a translation function in several places collects all
/// the namespaces it was given; props are keyed under the name their
/// component goes by where it is defined.
pub fn collect_registries(files: Vec<(String, RegistryCollector)>, existing_files: &StrSet) -> (r: (Registries, AllFileImports))
    ensures
        r.0.schema@ == files_schema(files@),
        r.0.key_object@ == files_objects(files@),
        r.0.key_array@ == files_arrays(files@),
        r.0.string_array@ == files_string_arrays(files@),
        r.0.default_exports@ == files_defaults(files@),
        r.1@ == files_imports(files@),
        r.0.translation_fn_call@.map_values(|c: TranslationFnCall| call_view(c)) == files_calls(files@),
        r.0.translation_prop@.map_values(|p: TranslationProp| prop_view(p))
            == files_props(files@, files_imports(files@), files_defaults(files@), existing_files@),
{
    let ghost f0 = files@;
    let n = files.len();
    let mut rev = reversed(files);
    let mut schema: StrMap<SchemaFunction> = StrMap::new();
    let mut key_object: StrMap<KeyObject> = StrMap::new();
    let mut key_array: StrMap<KeyArray> = StrMap::new();
    let mut string_array: StrMap<StringArray> = StrMap::new();
    let mut translation_fn_call: StrMap<TranslationFnCall> = StrMap::new();
    let mut default_exports: StrMap<String> = StrMap::new();
    let mut file_imports: AllFileImports = StrMap::new();
    let mut props_by_file: Vec<(String, Vec<TranslationProp>)> = Vec::new();
    proof {
        assert(f0.take(0) =~= Seq::<(String, RegistryCollector)>::empty());
        assert(translation_fn_call@.map_values(|c: TranslationFnCall| call_view(c)) =~= Map::empty());
    }
    let mut i: usize = 0;
    while rev.len() > 0
        invariant
            i <= n,
            n == f0.len(),
            rev@.len() == n - i,
            forall|k: int| 0 <= k < rev@.len() ==> rev@[k] == f0[n - 1 - k],
            schema@ == files_schema(f0.take(i as int)),
            key_object@ == files_objects(f0.take(i as int)),
            key_array@ == files_arrays(f0.take(i as int)),
            string_array@ == files_string_arrays(f0.take(i as int)),
            default_exports@ == files_defaults(f0.take(i as int)),
            file_imports@ == files_imports(f0.take(i as int)),
            translation_fn_call@.map_values(|c: TranslationFnCall| call_view(c)) == files_calls(f0.take(i as int)),
            props_by_file@.len() == i,
            forall|k: int| 0 <= k < i ==> (#[trigger] props_by_file@[k]).0@ == f0[k].0@
                && props_by_file@[k].1 == f0[k].1.translation_props,
        decreases rev@.len(),
    {
        let (file_path, c) = rev.pop().unwrap();
        proof {
            assert(f0.take(i + 1).drop_last() =~= f0.take(i as int));
            assert(f0.take(i + 1).last() == f0[i as int]);
        }
        let RegistryCollector {
            schema_functions,
            objects,
            arrays,
            string_arrays,
            imports,
            translation_props,
            translation_fn_calls,
            default_export_name,
            ..
        } = c;
        insert_schema_functions(&mut schema, schema_functions);
        insert_objects(&mut key_object, objects);
        insert_arrays(&mut key_array, arrays);
        insert_string_arrays(&mut string_array, string_arrays);
        insert_calls(&mut translation_fn_call, translation_fn_calls);
        file_imports.insert(file_path.clone(), imports);
        props_by_file.push((file_path.clone(), translation_props));
        match default_export_name {
            Some(name) => {
                default_exports.insert(file_path, name);
            },
            None => {},
        }
        i = i + 1;
    }
    proof { assert(f0.take(n as int) =~= f0); }
    let mut translation_prop: StrMap<TranslationProp> = StrMap::new();
    let ghost all_imports = file_imports@;
    let ghost defaults = default_exports@;
    proof { assert(translation_prop@.map_values(|p: TranslationProp| prop_view(p)) =~= Map::empty()); }
    let mut j: usize = 0;
    while j < props_by_file.len()
        invariant
            j <= props_by_file@.len(),
            props_by_file@.len() == n,
            n == f0.len(),
            all_imports == file_imports@,
            defaults == default_exports@,
            forall|k: int| 0 <= k < n ==> (#[trigger] props_by_file@[k]).0@ == f0[k].0@
                && props_by_file@[k].1 == f0[k].1.translation_props,
            translation_prop@.map_values(|p: TranslationProp| prop_view(p))
                == files_props(f0.take(j as int), all_imports, defaults, existing_files@),
        decreases props_by_file@.len() - j,
    {
        let file_path = &props_by_file[j].0;
        let empty: FileImports = Vec::new();
        let imports = match file_imports.get(file_path.as_str()) {
            Some(imps) => imps,
            None => &empty,
        };
        proof {
            assert(f0.take(j + 1).drop_last() =~= f0.take(j as int));
            assert(f0.take(j + 1).last() == f0[j as int]);
            assert(imports@ == imports_of(all_imports, f0[j as int].0@));
        }
        insert_props(&mut translation_prop, file_path.as_str(), &props_by_file[j].1, imports, &default_exports, existing_files);
        j = j + 1;
    }
    proof { assert(f0.take(n as int) =~= f0); }
    let registries = Registries {
        schema,
        key_object,
        key_array,
        string_array,
        translation_prop,
        translation_fn_call,
        default_exports,
    };
    (registries, file_imports)
}

} // verus!
