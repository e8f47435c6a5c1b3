//! Schema factory functions (`(t) => z.object({...})`) and the keys they use.

use vstd::prelude::*;
use crate::strmap::{StrMap, StrSet};
use crate::key_objects::dotted;
use crate::text::{concat3, strs_view};

verus! {

/// A schema factory function and the translation keys it uses.
#[derive(Debug)]
pub struct SchemaFunction {
    pub name: String,
    pub file_path: String,
    pub keys: Vec<String>,
    /// Other schema functions called with the same translation function.
    pub nested_calls: Vec<String>,
}

/// Schema functions by name.
pub type SchemaRegistry = StrMap<SchemaFunction>;

/// A call of a schema function with a translation function.
#[derive(Debug)]
pub struct SchemaCallInfo {
    pub schema_name: String,
    pub namespace: Option<String>,
    pub line: usize,
    pub col: usize,
}

/// One key produced by expanding a schema call.
#[derive(Debug)]
pub struct ExpandedKey {
    pub full_key: String,
    pub raw_key: String,
    pub from_schema: String,
    pub has_namespace: bool,
}

/// Result of expanding schema keys.
#[derive(Debug)]
pub struct ExpandResult {
    pub keys: Vec<ExpandedKey>,
    /// Nested schema calls that are not in the registry.
    pub unresolved_nested: Vec<String>,
}

impl ExpandResult {
    pub fn default() -> (r: Self)
        ensures
            r.keys@.len() == 0,
            r.unresolved_nested@.len() == 0,
    {
        ExpandResult { keys: Vec::new(), unresolved_nested: Vec::new() }
    }
}

/// The full key of `raw` under an optional namespace.
pub open spec fn with_namespace(ns: Option<String>, raw: Seq<char>) -> Seq<char> {
    match ns {
        Some(n) => dotted(n@, raw),
        None => raw,
    }
}

/// An expanded key is the namespaced form of a key of the schema it names.
pub open spec fn key_well_formed(k: ExpandedKey, ns: Option<String>, reg: Map<Seq<char>, SchemaFunction>) -> bool {
    &&& k.full_key@ == with_namespace(ns, k.raw_key@)
    &&& k.has_namespace == ns is Some
    &&& reg.contains_key(k.from_schema@)
    &&& reg[k.from_schema@].keys@.map_values(|s: String| s@).contains(k.raw_key@)
}

/// Number of registry entries not yet visited.
pub open spec fn unvisited<V>(s: Seq<(String, V)>, visited: Set<Seq<char>>) -> nat
    decreases s.len(),
{
    if s.len() == 0 {
        0
    } else {
        unvisited(s.drop_last(), visited) + if visited.contains(s.last().0@) { 0nat } else { 1nat }
    }
}

/// Visiting more names leaves no more unvisited.
pub proof fn lemma_unvisited_mono<V>(s: Seq<(String, V)>, a: Set<Seq<char>>, b: Set<Seq<char>>)
    requires
        a.subset_of(b),
    ensures
        unvisited(s, b) <= unvisited(s, a),
    decreases s.len(),
{
    if s.len() > 0 {
        lemma_unvisited_mono(s.drop_last(), a, b);
    }
}

/// Visiting a registered name not yet visited leaves fewer unvisited.
pub proof fn lemma_unvisited_strict<V>(s: Seq<(String, V)>, a: Set<Seq<char>>, b: Set<Seq<char>>, k: Seq<char>)
    requires
        a.subset_of(b),
        !a.contains(k),
        b.contains(k),
        exists|i: int| 0 <= i < s.len() && s[i].0@ == k,
    ensures
        unvisited(s, b) < unvisited(s, a),
    decreases s.len(),
{
    lemma_unvisited_mono(s.drop_last(), a, b);
    if s.last().0@ != k {
        let i = choose|i: int| 0 <= i < s.len() && s[i].0@ == k;
        assert(s.drop_last()[i].0@ == k);
        lemma_unvisited_strict(s.drop_last(), a, b, k);
    }
}

/// What an expanded key says: full key, raw key, schema, whether namespaced.
pub open spec fn expanded_view(k: ExpandedKey) -> (Seq<char>, Seq<char>, Seq<char>, bool) {
    (k.full_key@, k.raw_key@, k.from_schema@, k.has_namespace)
}

pub open spec fn expanded_views(s: Seq<ExpandedKey>) -> Seq<(Seq<char>, Seq<char>, Seq<char>, bool)> {
    s.map_values(|k: ExpandedKey| expanded_view(k))
}

/// The keys of schema `name` itself, under the namespace.
pub open spec fn own_keys(f: SchemaFunction, name: Seq<char>, ns: Option<String>) -> Seq<(Seq<char>, Seq<char>, Seq<char>, bool)> {
    f.keys@.map_values(|k: String| (with_namespace(ns, k@), k@, name, ns is Some))
}

/// What expanding schema `name` gives, from the visited names `v`: the keys,
/// the nested names missing from the registry, and the names then visited.
/// A visited name gives nothing; an unregistered one is only marked visited;
/// otherwise its own keys come first, then, for each nested call in order,
/// the name if it is not registered, else its expansion.
pub open spec fn expansion(
    name: Seq<char>,
    ns: Option<String>,
    registry: SchemaRegistry,
    v: Set<Seq<char>>,
) -> (Seq<(Seq<char>, Seq<char>, Seq<char>, bool)>, Seq<Seq<char>>, Set<Seq<char>>)
    decreases unvisited(registry.spec_entries(), v), 0int, 0int,
{
    if v.contains(name) {
        (Seq::empty(), Seq::empty(), v)
    } else if !registry@.contains_key(name) {
        (Seq::empty(), Seq::empty(), v.insert(name))
    } else {
        let f = registry@[name];
        proof { lemma_unvisited_strict(registry.spec_entries(), v, v.insert(name), name); }
        let rest = nested_expansion(name, ns, registry, v.insert(name), f.nested_calls@.len() as int);
        (own_keys(f, name, ns) + rest.0, rest.1, rest.2)
    }
}

/// The first `j` nested calls of schema `parent`, expanded in turn from the
/// visited names `v1`.
pub open spec fn nested_expansion(
    parent: Seq<char>,
    ns: Option<String>,
    registry: SchemaRegistry,
    v1: Set<Seq<char>>,
    j: int,
) -> (Seq<(Seq<char>, Seq<char>, Seq<char>, bool)>, Seq<Seq<char>>, Set<Seq<char>>)
    decreases unvisited(registry.spec_entries(), v1), 1int, j,
{
    if j <= 0 || !registry@.contains_key(parent) || j > registry@[parent].nested_calls@.len() {
        (Seq::empty(), Seq::empty(), v1)
    } else {
        let prev = nested_expansion(parent, ns, registry, v1, j - 1);
        let n = registry@[parent].nested_calls@[j - 1]@;
        if !registry@.contains_key(n) {
            (prev.0, prev.1.push(n), prev.2)
        } else if v1.subset_of(prev.2) {
            proof { lemma_unvisited_mono(registry.spec_entries(), v1, prev.2); }
            let e = expansion(n, ns, registry, prev.2);
            (prev.0 + e.0, prev.1 + e.1, e.2)
        } else {
            prev
        }
    }
}

/// Expanding only adds to the visited names, and marks the name visited.
pub proof fn lemma_expansion_grows(name: Seq<char>, ns: Option<String>, registry: SchemaRegistry, v: Set<Seq<char>>)
    ensures
        v.subset_of(expansion(name, ns, registry, v).2),
        expansion(name, ns, registry, v).2.contains(name),
    decreases unvisited(registry.spec_entries(), v), 0int, 0int,
{
    if !v.contains(name) && registry@.contains_key(name) {
        lemma_unvisited_strict(registry.spec_entries(), v, v.insert(name), name);
        lemma_nested_grows(name, ns, registry, v.insert(name), registry@[name].nested_calls@.len() as int);
    }
}

/// Expanding nested calls only adds to the visited names.
pub proof fn lemma_nested_grows(parent: Seq<char>, ns: Option<String>, registry: SchemaRegistry, v1: Set<Seq<char>>, j: int)
    ensures
        v1.subset_of(nested_expansion(parent, ns, registry, v1, j).2),
    decreases unvisited(registry.spec_entries(), v1), 1int, j,
{
    if j > 0 && registry@.contains_key(parent) && j <= registry@[parent].nested_calls@.len() {
        lemma_nested_grows(parent, ns, registry, v1, j - 1);
        let prev = nested_expansion(parent, ns, registry, v1, j - 1);
        let n = registry@[parent].nested_calls@[j - 1]@;
        if registry@.contains_key(n) {
            lemma_unvisited_mono(registry.spec_entries(), v1, prev.2);
            lemma_expansion_grows(n, ns, registry, prev.2);
        }
    }
}

/// Expands the keys of a schema function and, once each, of the schema
/// functions it calls, prefixing them with the namespace.
pub fn expand_schema_keys(
    schema_name: &str,
    namespace: &Option<String>,
    registry: &SchemaRegistry,
    visited: &mut StrSet,
) -> (r: ExpandResult)
    ensures
        (expanded_views(r.keys@), strs_view(r.unresolved_nested@), final(visited)@)
            == expansion(schema_name@, *namespace, *registry, old(visited)@),
        old(visited)@.subset_of(final(visited)@),
        final(visited)@.contains(schema_name@),
        old(visited)@.contains(schema_name@) ==> r.keys@.len() == 0 && r.unresolved_nested@.len() == 0,
        !registry@.contains_key(schema_name@) ==> r.keys@.len() == 0 && r.unresolved_nested@.len() == 0,
        forall|i: int| 0 <= i < r.keys@.len() ==> key_well_formed(#[trigger] r.keys@[i], *namespace, registry@),
        forall|i: int| 0 <= i < r.unresolved_nested@.len() ==> !registry@.contains_key(#[trigger] r.unresolved_nested@[i]@),
        !old(visited)@.contains(schema_name@) && registry@.contains_key(schema_name@) ==> {
            let own = registry@[schema_name@].keys@;
            &&& r.keys@.len() >= own.len()
            &&& forall|i: int| 0 <= i < own.len() ==> (#[trigger] r.keys@[i]).raw_key@ == own[i]@
                && r.keys@[i].from_schema@ == schema_name@
        },
    decreases unvisited(registry.spec_entries(), old(visited)@),
{
    let mut result = ExpandResult::default();
    proof {
        assert(expanded_views(result.keys@) =~= Seq::empty());
        assert(strs_view(result.unresolved_nested@) =~= Seq::empty());
    }
    if visited.contains(schema_name) {
        return result;
    }
    let ghost v0 = visited@;
    visited.insert(crate::text::text(schema_name));
    let ghost v1 = visited@;
    proof {
        let es = registry.spec_entries();
        if registry@.contains_key(schema_name@) {
            lemma_unvisited_strict(es, v0, visited@, schema_name@);
        }
    }
    let schema = match registry.get(schema_name) {
        Some(s) => s,
        None => return result,
    };
    let ghost own = own_keys(*schema, schema_name@, *namespace);
    let mut i: usize = 0;
    while i < schema.keys.len()
        invariant
            registry@.contains_key(schema_name@),
            *schema == registry@[schema_name@],
            own == own_keys(*schema, schema_name@, *namespace),
            i <= schema.keys@.len(),
            result.keys@.len() == i,
            result.unresolved_nested@.len() == 0,
            expanded_views(result.keys@) == own.take(i as int),
            v0 == old(visited)@,
            v1 == v0.insert(schema_name@),
            visited@ == v1,
            !v0.contains(schema_name@),
            unvisited(registry.spec_entries(), visited@) < unvisited(registry.spec_entries(), v0),
            forall|j: int| 0 <= j < i ==> key_well_formed(#[trigger] result.keys@[j], *namespace, registry@),
            forall|j: int| 0 <= j < i ==> (#[trigger] result.keys@[j]).raw_key@ == schema.keys@[j]@
                && result.keys@[j].from_schema@ == schema_name@,
        decreases schema.keys@.len() - i,
    {
        let key = &schema.keys[i];
        let (full_key, has_namespace) = match namespace {
            Some(ns) => (concat3(ns.as_str(), ".", key.as_str()), true),
            None => (key.clone(), false),
        };
        let ek = ExpandedKey {
            full_key,
            raw_key: key.clone(),
            from_schema: crate::text::text(schema_name),
            has_namespace,
        };
        proof {
            assert(schema.keys@.map_values(|s: String| s@)[i as int] == key@);
        }
        let ghost k0 = result.keys@;
        result.keys.push(ek);
        proof {
            assert(expanded_views(result.keys@) =~= expanded_views(k0).push(expanded_view(ek)));
            assert(own.take(i + 1) =~= own.take(i as int).push(own[i as int]));
        }
        i = i + 1;
    }
    proof {
        assert(own.take(own.len() as int) =~= own);
        assert(own + nested_expansion(schema_name@, *namespace, *registry, v1, 0).0 =~= own);
        assert(strs_view(result.unresolved_nested@) =~= Seq::empty());
    }
    let ghost own_len = schema.keys@.len();
    let mut j: usize = 0;
    while j < schema.nested_calls.len()
        invariant
            registry@.contains_key(schema_name@),
            *schema == registry@[schema_name@],
            own == own_keys(*schema, schema_name@, *namespace),
            j <= schema.nested_calls@.len(),
            result.keys@.len() >= own_len,
            own_len == schema.keys@.len(),
            ({
                let ne = nested_expansion(schema_name@, *namespace, *registry, v1, j as int);
                &&& expanded_views(result.keys@) == own + ne.0
                &&& strs_view(result.unresolved_nested@) == ne.1
                &&& visited@ == ne.2
            }),
            forall|m: int| 0 <= m < result.keys@.len() ==> key_well_formed(#[trigger] result.keys@[m], *namespace, registry@),
            forall|m: int| 0 <= m < own_len ==> (#[trigger] result.keys@[m]).raw_key@ == schema.keys@[m]@
                && result.keys@[m].from_schema@ == schema_name@,
            forall|m: int| 0 <= m < result.unresolved_nested@.len() ==> !registry@.contains_key(#[trigger] result.unresolved_nested@[m]@),
            v0 == old(visited)@,
            v1 == v0.insert(schema_name@),
            v0.subset_of(visited@),
            visited@.contains(schema_name@),
            !v0.contains(schema_name@),
            unvisited(registry.spec_entries(), visited@) < unvisited(registry.spec_entries(), v0),
        decreases schema.nested_calls@.len() - j,
    {
        let nested = &schema.nested_calls[j];
        proof { lemma_nested_grows(schema_name@, *namespace, *registry, v1, j as int); }
        if !registry.contains_key(nested.as_str()) {
            let ghost u0 = result.unresolved_nested@;
            result.unresolved_nested.push(nested.clone());
            proof { assert(strs_view(result.unresolved_nested@) =~= strs_view(u0).push(nested@)); }
        } else {
            let ghost vb = visited@;
            let nested_result = expand_schema_keys(nested.as_str(), namespace, registry, visited);
            proof { lemma_unvisited_mono(registry.spec_entries(), vb, visited@); }
            let ghost k0 = result.keys@;
            let ghost u0 = result.unresolved_nested@;
            let mut nk = nested_result.keys;
            let mut nu = nested_result.unresolved_nested;
            let ghost nkv = nk@;
            let ghost nuv = nu@;
            result.keys.append(&mut nk);
            result.unresolved_nested.append(&mut nu);
            proof {
                assert(result.keys@ =~= k0 + nkv);
                assert(result.unresolved_nested@ =~= u0 + nuv);
                assert(expanded_views(k0 + nkv) =~= expanded_views(k0) + expanded_views(nkv));
                assert(strs_view(u0 + nuv) =~= strs_view(u0) + strs_view(nuv));
                let prev = nested_expansion(schema_name@, *namespace, *registry, v1, j as int);
                assert(own + prev.0 + expanded_views(nkv) =~= own + (prev.0 + expanded_views(nkv)));
                assert forall|m: int| 0 <= m < result.keys@.len() implies key_well_formed(#[trigger] result.keys@[m], *namespace, registry@) by {
                    if m >= k0.len() { assert(result.keys@[m] == nkv[m - k0.len()]); }
                }
                assert forall|m: int| 0 <= m < result.unresolved_nested@.len() implies !registry@.contains_key(#[trigger] result.unresolved_nested@[m]@) by {
                    if m >= u0.len() { assert(result.unresolved_nested@[m] == nuv[m - u0.len()]); }
                }
            }
        }
        j = j + 1;
    }
    result
}

} // verus!
