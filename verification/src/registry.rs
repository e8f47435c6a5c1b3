//! The per-file collection that registries are built from, in one walk:
//! schema functions, objects and arrays of string literals, imports, the
//! translation functions passed on as JSX props or call arguments, and the
//! name of the default export.

use vstd::prelude::*;
use crate::ast::{
    ArrowExpr, CallExpr, Decl, Expr, ExprOrSpread, Function, ImportDecl, ImportSpecifier,
    JSXAttrName, JSXAttrOrSpread, JSXAttrValue, JSXChild, JSXElement, JSXElementName, MemberProp,
    Module, ObjectPatProp, Pat, PropName, PropOrSpread, Stmt, VarDecl, VarDeclarator,
};
use crate::collector::{
    array_prop_values, arrays_view, decl_found, decls_found, found_arrays, found_objects, found_string_arrays, has_namespace,
    ko_args, ko_arrow, ko_attrs, ko_call, ko_children, ko_decls, ko_element, ko_expr, ko_exprs, ko_fn, ko_oargs, ko_opats,
    ko_opps, ko_opt, ko_pat, ko_pats, ko_prop_name, ko_props, ko_stmt, ko_stmts, lemma_found_append, objects_view,
    string_arrays_view, found_imports, imports_view, import_found, import_triple, lemma_import_found, Found,
    KeyObjectCollector,
};
use crate::key_objects::{
    FileImports, ImportInfo, KeyArray, KeyObject, StringArray, TranslationFnCall,
    TranslationProp, opt_view, resolve_import_path,
};
use crate::keys::{extract_binding_names, extract_namespace_from_call, hook_namespace, is_translation_hook, pat_names};
use crate::schema::SchemaFunction;
use crate::schema_collector::{SchemaInternalState, fns_view, spec_module_fns, spec_t_param};
use crate::strmap::{StrMap, StrSet};
use crate::text::{clone_opt_string, str_eq, strs_view, text};
use crate::value_analyzer::{stack_lookup, unwrap_paren};

verus! {

/// What a name is bound to in a scope: a translation function (with its
/// namespace), or something else that hides an outer translation function.
#[derive(Debug)]
pub enum TranslationBindingValue {
    Translation(Option<String>),
    Shadowed,
}

/// The namespace a name stands for as a translation function, if it does:
/// the innermost binding decides.
pub open spec fn binding_namespace(s: Seq<Map<Seq<char>, TranslationBindingValue>>, name: Seq<char>) -> Option<Option<String>> {
    match stack_lookup(s, name) {
        Some(TranslationBindingValue::Translation(ns)) => Some(ns),
        _ => None,
    }
}

/// The name of the default export an item declares, if it declares one.
pub open spec fn item_default_name(st: Stmt) -> Option<Seq<char>> {
    match st {
        Stmt::ExportDefaultFn(d) => match d.ident {
            Some(n) => Some(n@),
            None => Some("default"@),
        },
        Stmt::ExportDefaultClass { ident, .. } => match ident {
            Some(n) => Some(n@),
            None => Some("default"@),
        },
        Stmt::ExportDefaultExpr(e) => match e {
            Expr::Ident(n) => Some(n@),
            Expr::Arrow(_) => Some("default"@),
            Expr::Fn(_) => Some("default"@),
            _ => None,
        },
        _ => None,
    }
}

/// The default export name after a list of module items: the last item
/// that names one decides, also inside blocks of items.
pub open spec fn spec_default_export(s: Seq<Stmt>, cur: Option<Seq<char>>) -> Option<Seq<char>>
    decreases s,
{
    if s.len() == 0 {
        cur
    } else {
        spec_item_default(s.last(), spec_default_export(s.drop_last(), cur))
    }
}

pub open spec fn spec_item_default(st: Stmt, cur: Option<Seq<char>>) -> Option<Seq<char>>
    decreases st,
{
    match st {
        Stmt::Other(c) => spec_default_export(c@, cur),
        _ => match item_default_name(st) {
            Some(n) => Some(n),
            None => cur,
        },
    }
}

/// What the walk of a schema function's body collects, at depth `d`.
pub open spec fn rg_schema_body(dc: VarDeclarator, d: usize) -> Seq<Found> {
    match (dc.name, dc.init) {
        (Pat::Ident { .. }, Some(Expr::Arrow(a))) => if spec_t_param(a) is Some { ko_stmts(a.body@, d) } else { Seq::empty() },
        _ => Seq::empty(),
    }
}

pub open spec fn rg_schema_bodies(s: Seq<VarDeclarator>, d: usize) -> Seq<Found>
    decreases s.len(),
{
    if s.len() == 0 { Seq::empty() } else { rg_schema_bodies(s.drop_last(), d) + rg_schema_body(s.last(), d) }
}

/// What the walk of module items collects, in order: an `export const`
/// gives the bodies of its schema functions, then its objects and arrays
/// (exported); other items are walked as statements.
pub open spec fn rg_items(s: Seq<Stmt>, d: usize) -> Seq<Found>
    decreases s,
{
    if s.len() == 0 { Seq::empty() } else { rg_items(s.drop_last(), d) + rg_item(s.last(), d) }
}

pub open spec fn rg_item(x: Stmt, d: usize) -> Seq<Found>
    decreases x,
{
    match x {
        Stmt::ExportDecl(Decl::Var(vd)) => rg_schema_bodies(vd.decls@, d) + decls_found(vd.decls@, true, d == 0),
        Stmt::ExportDefaultFn(df) => ko_fn(df.function, d),
        Stmt::ExportDefaultClass { body, .. } => ko_stmts(body@, d),
        Stmt::ExportDefaultExpr(e) => ko_expr(e, d),
        Stmt::Other(c) => rg_items(c@, d),
        _ => ko_stmt(x, d),
    }
}

/// Collects, in one walk of a file, what the registries are built from.
pub struct RegistryCollector {
    pub file_path: String,
    /// Schema factory functions, in order.
    pub schema_functions: Vec<SchemaFunction>,
    /// Schema function detection; idle between schema functions.
    pub schema_state: SchemaInternalState,
    pub objects: Vec<KeyObject>,
    pub arrays: Vec<KeyArray>,
    pub string_arrays: Vec<StringArray>,
    pub imports: FileImports,
    /// Translation functions passed as JSX props.
    pub translation_props: Vec<TranslationProp>,
    /// Translation functions passed as plain call arguments.
    pub translation_fn_calls: Vec<TranslationFnCall>,
    /// The name of the default export (`default` for an anonymous one).
    pub default_export_name: Option<String>,
    /// Files known to exist, for resolving where an imported function is defined.
    pub existing_files: StrSet,
    /// Nesting depth: 0 at module level.
    pub scope_depth: usize,
    /// Bindings of translation functions and of names that hide them, innermost scope last.
    pub translation_bindings_stack: Vec<StrMap<TranslationBindingValue>>,
}

impl RegistryCollector {
    pub open spec fn spec_bindings(&self) -> Seq<Map<Seq<char>, TranslationBindingValue>> {
        self.translation_bindings_stack@.map_values(|m: StrMap<TranslationBindingValue>| m@)
    }

    /// The state the collector keeps: a global binding scope, schema
    /// detection idle, and every collected object or array belongs to this
    /// file and has values.
    pub open spec fn wf(&self) -> bool {
        &&& self.translation_bindings_stack@.len() >= 1
        &&& self.schema_state.current_context is None
        &&& self.schema_state.shadow_depth == 0
        &&& forall|i: int| 0 <= i < self.objects@.len() ==> (#[trigger] self.objects@[i]).file_path@ == self.file_path@
            && self.objects@[i].candidate_keys@.len() > 0
        &&& forall|i: int| 0 <= i < self.string_arrays@.len() ==> (#[trigger] self.string_arrays@[i]).file_path@ == self.file_path@
            && self.string_arrays@[i].values@.len() > 0
        &&& forall|i: int| 0 <= i < self.arrays@.len() ==> (#[trigger] self.arrays@[i]).file_path@ == self.file_path@
        &&& forall|i: int| 0 <= i < self.translation_props@.len() ==> (#[trigger] self.translation_props@[i]).namespaces@.len() > 0
        &&& forall|i: int| 0 <= i < self.translation_fn_calls@.len() ==> (#[trigger] self.translation_fn_calls@[i]).namespaces@.len() > 0
    }

    /// What a walk over any node below the module's items keeps: the file,
    /// the depth, the number of binding scopes, the schema functions and the
    /// default export stay; objects, arrays and imports only grow.
    pub open spec fn kept(&self, after: &Self) -> bool {
        &&& after.wf()
        &&& after.file_path == self.file_path
        &&& after.existing_files == self.existing_files
        &&& after.scope_depth == self.scope_depth
        &&& after.translation_bindings_stack@.len() == self.translation_bindings_stack@.len()
        &&& after.schema_functions == self.schema_functions
        &&& after.default_export_name == self.default_export_name
        &&& crate::visitor::is_prefix(self.objects@, after.objects@)
        &&& crate::visitor::is_prefix(self.arrays@, after.arrays@)
        &&& crate::visitor::is_prefix(self.string_arrays@, after.string_arrays@)
        &&& crate::visitor::is_prefix(self.imports@, after.imports@)
        &&& self.translation_props@.len() <= after.translation_props@.len()
        &&& self.translation_fn_calls@.len() <= after.translation_fn_calls@.len()
    }

    /// What a walk over module items keeps: as [`Self::kept`], but schema
    /// functions may be added and the default export may be named.
    pub open spec fn kept_items(&self, after: &Self) -> bool {
        &&& after.wf()
        &&& after.file_path == self.file_path
        &&& after.existing_files == self.existing_files
        &&& after.scope_depth == self.scope_depth
        &&& after.translation_bindings_stack@.len() == self.translation_bindings_stack@.len()
        &&& crate::visitor::is_prefix(self.objects@, after.objects@)
        &&& crate::visitor::is_prefix(self.arrays@, after.arrays@)
        &&& crate::visitor::is_prefix(self.string_arrays@, after.string_arrays@)
        &&& crate::visitor::is_prefix(self.imports@, after.imports@)
        &&& self.translation_props@.len() <= after.translation_props@.len()
        &&& self.translation_fn_calls@.len() <= after.translation_fn_calls@.len()
    }

    /// A collector at module level with nothing collected.
    pub fn new(file_path: &str) -> (r: Self)
        ensures
            r.wf(),
            r.file_path@ == file_path@,
            r.schema_functions@.len() == 0,
            r.objects@.len() == 0,
            r.arrays@.len() == 0,
            r.string_arrays@.len() == 0,
            r.imports@.len() == 0,
            r.translation_props@.len() == 0,
            r.translation_fn_calls@.len() == 0,
            r.default_export_name is None,
            r.existing_files@ == Set::<Seq<char>>::empty(),
            r.scope_depth == 0,
            r.spec_bindings() == seq![Map::<Seq<char>, TranslationBindingValue>::empty()],
    {
        let mut stack: Vec<StrMap<TranslationBindingValue>> = Vec::new();
        stack.push(StrMap::new());
        let r = RegistryCollector {
            file_path: text(file_path),
            schema_functions: Vec::new(),
            schema_state: SchemaInternalState::new(),
            objects: Vec::new(),
            arrays: Vec::new(),
            string_arrays: Vec::new(),
            imports: Vec::new(),
            translation_props: Vec::new(),
            translation_fn_calls: Vec::new(),
            default_export_name: None,
            existing_files: StrSet::new(),
            scope_depth: 0,
            translation_bindings_stack: stack,
        };
        assert(r.spec_bindings() =~= seq![Map::<Seq<char>, TranslationBindingValue>::empty()]);
        r
    }

    /// Sets the files that relative imports may resolve to.
    pub fn set_existing_files(&mut self, files: StrSet)
        requires
            old(self).wf(),
        ensures
            final(self).wf(),
            final(self).existing_files@ == files@,
            final(self).file_path == old(self).file_path,
            final(self).schema_functions == old(self).schema_functions,
            final(self).default_export_name == old(self).default_export_name,
            final(self).objects == old(self).objects,
            final(self).arrays == old(self).arrays,
            final(self).string_arrays == old(self).string_arrays,
            final(self).imports == old(self).imports,
            final(self).scope_depth == old(self).scope_depth,
    {
        self.existing_files = files;
    }

    proof fn lemma_kept_trans(a: Self, b: Self, c: Self)
        requires
            a.kept(&b),
            b.kept(&c),
        ensures
            a.kept(&c),
    {
    }

    proof fn lemma_items_trans(a: Self, b: Self, c: Self)
        requires
            a.kept_items(&b),
            b.kept_items(&c),
        ensures
            a.kept_items(&c),
    {
    }

    /// `after` is this collector once the walk has collected `fs`.
    pub open spec fn found_by(&self, after: &Self, fs: Seq<Found>) -> bool {
        &&& self.kept(after)
        &&& objects_view(after.objects@) == objects_view(self.objects@) + found_objects(fs)
        &&& string_arrays_view(after.string_arrays@) == string_arrays_view(self.string_arrays@) + found_string_arrays(fs)
        &&& arrays_view(after.arrays@) == arrays_view(self.arrays@) + found_arrays(fs)
        &&& imports_view(after.imports@) == imports_view(self.imports@) + found_imports(fs)
    }

    /// The same, at module level, where schema functions and the default
    /// export are read too.
    pub open spec fn found_by_items(&self, after: &Self, fs: Seq<Found>) -> bool {
        &&& self.kept_items(after)
        &&& objects_view(after.objects@) == objects_view(self.objects@) + found_objects(fs)
        &&& string_arrays_view(after.string_arrays@) == string_arrays_view(self.string_arrays@) + found_string_arrays(fs)
        &&& arrays_view(after.arrays@) == arrays_view(self.arrays@) + found_arrays(fs)
        &&& imports_view(after.imports@) == imports_view(self.imports@) + found_imports(fs)
    }

    proof fn lemma_found_none(a: Self, b: Self)
        requires
            a.kept(&b),
            b.objects == a.objects,
            b.string_arrays == a.string_arrays,
            b.arrays == a.arrays,
            b.imports == a.imports,
        ensures
            a.found_by(&b, Seq::empty()),
    {
        assert(objects_view(a.objects@) + found_objects(Seq::empty()) =~= objects_view(a.objects@));
        assert(string_arrays_view(a.string_arrays@) + found_string_arrays(Seq::empty()) =~= string_arrays_view(a.string_arrays@));
        assert(arrays_view(a.arrays@) + found_arrays(Seq::empty()) =~= arrays_view(a.arrays@));
        assert(imports_view(a.imports@) + found_imports(Seq::empty()) =~= imports_view(a.imports@));
    }

    proof fn lemma_found_none_items(a: Self, b: Self)
        requires
            a.kept_items(&b),
            b.objects == a.objects,
            b.string_arrays == a.string_arrays,
            b.arrays == a.arrays,
            b.imports == a.imports,
        ensures
            a.found_by_items(&b, Seq::empty()),
    {
        assert(objects_view(a.objects@) + found_objects(Seq::empty()) =~= objects_view(a.objects@));
        assert(string_arrays_view(a.string_arrays@) + found_string_arrays(Seq::empty()) =~= string_arrays_view(a.string_arrays@));
        assert(arrays_view(a.arrays@) + found_arrays(Seq::empty()) =~= arrays_view(a.arrays@));
        assert(imports_view(a.imports@) + found_imports(Seq::empty()) =~= imports_view(a.imports@));
    }

    proof fn lemma_found_trans(a: Self, b: Self, c: Self, f: Seq<Found>, g: Seq<Found>)
        requires
            a.found_by(&b, f),
            b.found_by(&c, g),
        ensures
            a.found_by(&c, f + g),
    {
        lemma_found_append(f, g);
        assert(objects_view(c.objects@) =~= objects_view(a.objects@) + found_objects(f + g));
        assert(string_arrays_view(c.string_arrays@) =~= string_arrays_view(a.string_arrays@) + found_string_arrays(f + g));
        assert(arrays_view(c.arrays@) =~= arrays_view(a.arrays@) + found_arrays(f + g));
        assert(imports_view(c.imports@) =~= imports_view(a.imports@) + found_imports(f + g));
    }

    proof fn lemma_found_to_items(a: Self, b: Self, f: Seq<Found>)
        requires
            a.found_by(&b, f),
        ensures
            a.found_by_items(&b, f),
    {
    }

    proof fn lemma_found_items_trans(a: Self, b: Self, c: Self, f: Seq<Found>, g: Seq<Found>)
        requires
            a.found_by_items(&b, f),
            b.found_by_items(&c, g),
        ensures
            a.found_by_items(&c, f + g),
    {
        lemma_found_append(f, g);
        assert(objects_view(c.objects@) =~= objects_view(a.objects@) + found_objects(f + g));
        assert(string_arrays_view(c.string_arrays@) =~= string_arrays_view(a.string_arrays@) + found_string_arrays(f + g));
        assert(arrays_view(c.arrays@) =~= arrays_view(a.arrays@) + found_arrays(f + g));
        assert(imports_view(c.imports@) =~= imports_view(a.imports@) + found_imports(f + g));
    }

    proof fn lemma_found_one(f: Found)
        ensures
            found_objects(seq![f]) == match f { Found::Object(n, e, m, k) => seq![(n, e, m, k)], _ => Seq::empty() },
            found_string_arrays(seq![f]) == match f { Found::StringArray(n, e, m, v) => seq![(n, e, m, v)], _ => Seq::empty() },
            found_arrays(seq![f]) == match f { Found::Array(n, e, m, p) => seq![(n, e, m, p)], _ => Seq::empty() },
            found_imports(seq![f]) == match f { Found::Import(l, i, m) => seq![(l, i, m)], _ => Seq::empty() },
    {
        let e = Seq::<Found>::empty();
        assert(seq![f].drop_last() =~= e);
        assert(seq![f].last() == f);
        assert(found_objects(e) == Seq::<(Seq<char>, bool, bool, Seq<Seq<char>>)>::empty());
        assert(found_string_arrays(e) == Seq::<(Seq<char>, bool, bool, Seq<Seq<char>>)>::empty());
        assert(found_arrays(e) == Seq::<(Seq<char>, bool, bool, Map<Seq<char>, Seq<Seq<char>>>)>::empty());
        assert(found_imports(e) == Seq::<(Seq<char>, Seq<char>, Seq<char>)>::empty());
        match f {
            Found::Object(n, x, m, k) => {
                assert(found_objects(seq![f]) =~= seq![(n, x, m, k)]);
                assert(found_string_arrays(seq![f]) =~= Seq::empty());
                assert(found_arrays(seq![f]) =~= Seq::empty());
                assert(found_imports(seq![f]) =~= Seq::empty());
            },
            Found::StringArray(n, x, m, v) => {
                assert(found_objects(seq![f]) =~= Seq::empty());
                assert(found_string_arrays(seq![f]) =~= seq![(n, x, m, v)]);
                assert(found_arrays(seq![f]) =~= Seq::empty());
                assert(found_imports(seq![f]) =~= Seq::empty());
            },
            Found::Array(n, x, m, p) => {
                assert(found_objects(seq![f]) =~= Seq::empty());
                assert(found_string_arrays(seq![f]) =~= Seq::empty());
                assert(found_arrays(seq![f]) =~= seq![(n, x, m, p)]);
                assert(found_imports(seq![f]) =~= Seq::empty());
            },
            Found::Import(l, i, m) => {
                assert(found_objects(seq![f]) =~= Seq::empty());
                assert(found_string_arrays(seq![f]) =~= Seq::empty());
                assert(found_arrays(seq![f]) =~= Seq::empty());
                assert(found_imports(seq![f]) =~= seq![(l, i, m)]);
            },
        }
    }

    fn enter_binding_scope(&mut self)
        requires
            old(self).wf(),
        ensures
            final(self).wf(),
            final(self).spec_bindings() == old(self).spec_bindings().push(Map::empty()),
            final(self).file_path == old(self).file_path,
            final(self).existing_files == old(self).existing_files,
            final(self).scope_depth == old(self).scope_depth,
            final(self).schema_functions == old(self).schema_functions,
            final(self).default_export_name == old(self).default_export_name,
            final(self).objects == old(self).objects,
            final(self).arrays == old(self).arrays,
            final(self).string_arrays == old(self).string_arrays,
            final(self).imports == old(self).imports,
            final(self).translation_props == old(self).translation_props,
            final(self).translation_fn_calls == old(self).translation_fn_calls,
    {
        let ghost b0 = self.spec_bindings();
        self.translation_bindings_stack.push(StrMap::new());
        assert(self.spec_bindings() =~= b0.push(Map::empty()));
    }

    fn exit_binding_scope(&mut self)
        requires
            old(self).wf(),
            old(self).translation_bindings_stack@.len() >= 2,
        ensures
            final(self).wf(),
            final(self).spec_bindings() == old(self).spec_bindings().drop_last(),
            final(self).file_path == old(self).file_path,
            final(self).existing_files == old(self).existing_files,
            final(self).scope_depth == old(self).scope_depth,
            final(self).schema_functions == old(self).schema_functions,
            final(self).default_export_name == old(self).default_export_name,
            final(self).objects == old(self).objects,
            final(self).arrays == old(self).arrays,
            final(self).string_arrays == old(self).string_arrays,
            final(self).imports == old(self).imports,
            final(self).translation_props == old(self).translation_props,
            final(self).translation_fn_calls == old(self).translation_fn_calls,
    {
        let ghost b0 = self.spec_bindings();
        self.translation_bindings_stack.pop();
        assert(self.spec_bindings() =~= b0.drop_last());
    }

    /// Binds `name` in the innermost scope.
    fn bind(&mut self, name: String, value: TranslationBindingValue)
        requires
            old(self).wf(),
        ensures
            old(self).kept(final(self)),
            final(self).spec_bindings() == old(self).spec_bindings().drop_last().push(
                old(self).spec_bindings().last().insert(name@, value)),
            final(self).objects == old(self).objects,
            final(self).arrays == old(self).arrays,
            final(self).string_arrays == old(self).string_arrays,
            final(self).imports == old(self).imports,
            final(self).translation_props == old(self).translation_props,
            final(self).translation_fn_calls == old(self).translation_fn_calls,
    {
        let ghost b0 = self.spec_bindings();
        let ghost n = name@;
        let ghost v = value;
        let mut scope = self.translation_bindings_stack.pop().unwrap();
        scope.insert(name, value);
        self.translation_bindings_stack.push(scope);
        assert(self.spec_bindings() =~= b0.drop_last().push(b0.last().insert(n, v)));
    }

    /// Tracks `name` as a translation function with a namespace.
    fn insert_translation_binding(&mut self, name: String, namespace: Option<String>)
        requires
            old(self).wf(),
        ensures
            old(self).kept(final(self)),
            final(self).spec_bindings() == old(self).spec_bindings().drop_last().push(
                old(self).spec_bindings().last().insert(name@, TranslationBindingValue::Translation(namespace))),
            final(self).objects == old(self).objects,
            final(self).arrays == old(self).arrays,
            final(self).string_arrays == old(self).string_arrays,
            final(self).imports == old(self).imports,
            final(self).translation_props == old(self).translation_props,
            final(self).translation_fn_calls == old(self).translation_fn_calls,
    {
        self.bind(name, TranslationBindingValue::Translation(namespace));
    }

    /// Hides any outer translation function named `name` in the innermost scope.
    fn shadow_binding(&mut self, name: String)
        requires
            old(self).wf(),
        ensures
            old(self).kept(final(self)),
            final(self).spec_bindings() == old(self).spec_bindings().drop_last().push(
                old(self).spec_bindings().last().insert(name@, TranslationBindingValue::Shadowed)),
            final(self).objects == old(self).objects,
            final(self).arrays == old(self).arrays,
            final(self).string_arrays == old(self).string_arrays,
            final(self).imports == old(self).imports,
            final(self).translation_props == old(self).translation_props,
            final(self).translation_fn_calls == old(self).translation_fn_calls,
    {
        self.bind(name, TranslationBindingValue::Shadowed);
    }

    /// The names bound by the parameters hide outer translation functions.
    fn shadow_params(&mut self, params: &Vec<Pat>)
        requires
            old(self).wf(),
        ensures
            old(self).kept(final(self)),
            final(self).spec_bindings().len() == old(self).spec_bindings().len(),
            final(self).objects == old(self).objects,
            final(self).arrays == old(self).arrays,
            final(self).string_arrays == old(self).string_arrays,
            final(self).imports == old(self).imports,
            final(self).translation_props == old(self).translation_props,
            final(self).translation_fn_calls == old(self).translation_fn_calls,
            forall|i: int, j: int| 0 <= i < params@.len() && 0 <= j < pat_names(params@[i]).len() ==>
                binding_namespace(final(self).spec_bindings(), #[trigger] pat_names(params@[i])[j]) is None,
    {
        let ghost s0 = *self;
        let mut i: usize = 0;
        while i < params.len()
            invariant
                i <= params@.len(),
                s0.kept(self),
                self.spec_bindings().len() == s0.spec_bindings().len(),
                self.objects == s0.objects,
                self.arrays == s0.arrays,
                self.string_arrays == s0.string_arrays,
                self.imports == s0.imports,
                self.translation_props == s0.translation_props,
                self.translation_fn_calls == s0.translation_fn_calls,
                forall|k: int, j: int| 0 <= k < i && 0 <= j < pat_names(params@[k]).len() ==>
                    self.spec_bindings().last().contains_key(#[trigger] pat_names(params@[k])[j])
                    && self.spec_bindings().last()[pat_names(params@[k])[j]] is Shadowed,
            decreases params@.len() - i,
        {
            let names = extract_binding_names(&params[i]);
            let mut j: usize = 0;
            while j < names.len()
                invariant
                    i < params@.len(),
                    j <= names@.len(),
                    strs_view(names@) == pat_names(params@[i as int]),
                    s0.kept(self),
                    self.spec_bindings().len() == s0.spec_bindings().len(),
                    self.objects == s0.objects,
                    self.arrays == s0.arrays,
                    self.string_arrays == s0.string_arrays,
                    self.imports == s0.imports,
                    self.translation_props == s0.translation_props,
                    self.translation_fn_calls == s0.translation_fn_calls,
                    forall|k: int, m: int| 0 <= k < i && 0 <= m < pat_names(params@[k]).len() ==>
                        self.spec_bindings().last().contains_key(#[trigger] pat_names(params@[k])[m])
                        && self.spec_bindings().last()[pat_names(params@[k])[m]] is Shadowed,
                    forall|m: int| 0 <= m < j ==>
                        self.spec_bindings().last().contains_key(#[trigger] pat_names(params@[i as int])[m])
                        && self.spec_bindings().last()[pat_names(params@[i as int])[m]] is Shadowed,
                decreases names@.len() - j,
            {
                let ghost m0 = *self;
                let n = names[j].clone();
                proof { assert(strs_view(names@)[j as int] == names@[j as int]@); }
                self.shadow_binding(n);
                proof { Self::lemma_kept_trans(s0, m0, *self); }
                j = j + 1;
            }
            i = i + 1;
        }
        proof {
            assert forall|k: int, j: int| 0 <= k < params@.len() && 0 <= j < pat_names(params@[k]).len() implies
                binding_namespace(self.spec_bindings(), #[trigger] pat_names(params@[k])[j]) is None by {
                let s = self.spec_bindings();
                assert(s.len() > 0);
                assert(s.last().contains_key(pat_names(params@[k])[j]));
            }
        }
    }

    /// The namespace of a tracked translation function, from the innermost
    /// scope outwards; a name hidden by a nearer binding is none.
    fn get_translation_binding(&self, name: &str) -> (r: Option<Option<String>>)
        ensures
            match r {
                Some(ns) => binding_namespace(self.spec_bindings(), name@) == Some(ns),
                None => binding_namespace(self.spec_bindings(), name@) is None,
            },
    {
        let mut i = self.translation_bindings_stack.len();
        assert(self.spec_bindings().take(i as int) =~= self.spec_bindings());
        while i > 0
            invariant
                i <= self.spec_bindings().len(),
                stack_lookup(self.spec_bindings(), name@) == stack_lookup(self.spec_bindings().take(i as int), name@),
            decreases i,
        {
            proof {
                let t = self.spec_bindings().take(i as int);
                assert(t.drop_last() =~= self.spec_bindings().take(i - 1));
                assert(t.last() == self.spec_bindings()[i - 1]);
            }
            match self.translation_bindings_stack[i - 1].get(name) {
                Some(TranslationBindingValue::Translation(ns)) => { return Some(clone_opt_string(ns)); },
                Some(TranslationBindingValue::Shadowed) => { return None; },
                None => {},
            }
            i = i - 1;
        }
        None
    }

    /// `const t = useTranslations("Ns")` or `const t = await getTranslations("Ns")` tracks `t`.
    fn check_translation_binding(&mut self, var_name: &String, init: &Expr)
        requires
            old(self).wf(),
        ensures
            old(self).kept(final(self)),
            match hook_namespace(*init) {
                Some(ns) => final(self).spec_bindings() == old(self).spec_bindings().drop_last().push(
                    old(self).spec_bindings().last().insert(var_name@, TranslationBindingValue::Translation(ns))),
                None => final(self).spec_bindings() == old(self).spec_bindings(),
            },
            final(self).objects == old(self).objects,
            final(self).arrays == old(self).arrays,
            final(self).string_arrays == old(self).string_arrays,
            final(self).imports == old(self).imports,
            final(self).translation_props == old(self).translation_props,
            final(self).translation_fn_calls == old(self).translation_fn_calls,
    {
        let call = match init {
            Expr::Call(c) => Some(c),
            Expr::Await(inner) => match &**inner {
                Expr::Call(c) => Some(c),
                _ => None,
            },
            _ => None,
        };
        match call {
            Some(c) => match &c.callee {
                Some(callee) => match &**callee {
                    Expr::Ident(f) => {
                        if is_translation_hook(f.as_str()) {
                            let namespace = extract_namespace_from_call(c);
                            self.insert_translation_binding(var_name.clone(), namespace);
                        }
                    },
                    _ => {},
                },
                None => {},
            },
            None => {},
        }
    }

    /// Collects the objects and arrays a declaration binds to plain names.
    #[verifier::loop_isolation(false)]
    fn check_var_decl(&mut self, node: &VarDecl, is_exported: bool, is_module_level: bool)
        requires
            old(self).wf(),
        ensures
            old(self).found_by(final(self), decls_found(node.decls@, is_exported, is_module_level)),
            final(self).imports == old(self).imports,
            final(self).translation_props == old(self).translation_props,
            final(self).translation_fn_calls == old(self).translation_fn_calls,
    {
        let ghost s0 = *self;
        proof {
            Self::lemma_found_none(s0, s0);
            assert(node.decls@.take(0) =~= Seq::<VarDeclarator>::empty());
        }
        let mut i: usize = 0;
        while i < node.decls.len()
            invariant
                i <= node.decls@.len(),
                s0.found_by(self, decls_found(node.decls@.take(i as int), is_exported, is_module_level)),
                self.imports == s0.imports,
                self.translation_props == s0.translation_props,
                self.translation_fn_calls == s0.translation_fn_calls,
            decreases node.decls@.len() - i,
        {
            let decl = &node.decls[i];
            let ghost m = *self;
            proof {
                assert(node.decls@.take(i + 1).drop_last() =~= node.decls@.take(i as int));
                assert(node.decls@.take(i + 1).last() == *decl);
            }
            match (&decl.name, &decl.init) {
                (Pat::Ident { name, .. }, Some(init)) => {
                    self.check_translation_binding(name, init);
                    let ghost m1 = *self;
                    proof { Self::lemma_found_none(m, m1); }
                    match unwrap_paren(init) {
                        Expr::Object(props) => {
                            match KeyObjectCollector::extract_string_value(props) {
                                Some(candidate_keys) => {
                                    let ghost ev = Found::Object(name@, is_exported, is_module_level, strs_view(candidate_keys@));
                                    proof {
                                        assert(decl_found(*decl, is_exported, is_module_level) == seq![ev]);
                                        Self::lemma_found_one(ev);
                                    }
                                    self.objects.push(KeyObject {
                                        name: name.clone(),
                                        file_path: self.file_path.clone(),
                                        is_exported,
                                        is_module_level,
                                        candidate_keys,
                                    });
                                    proof {
                                        assert(objects_view(self.objects@) =~= objects_view(m1.objects@)
                                            + found_objects(decl_found(*decl, is_exported, is_module_level)));
                                        assert(string_arrays_view(self.string_arrays@) =~= string_arrays_view(m1.string_arrays@)
                                            + found_string_arrays(decl_found(*decl, is_exported, is_module_level)));
                                        assert(arrays_view(self.arrays@) =~= arrays_view(m1.arrays@)
                                            + found_arrays(decl_found(*decl, is_exported, is_module_level)));
                                        assert(imports_view(self.imports@) =~= imports_view(m1.imports@)
                                            + found_imports(decl_found(*decl, is_exported, is_module_level)));
                                    }
                                },
                                None => {
                                    proof { Self::lemma_found_none(m1, *self); }
                                },
                            }
                        },
                        Expr::Array(elems) => {
                            match KeyObjectCollector::extract_string_array(elems) {
                                Some(values) => {
                                    let ghost ev = Found::StringArray(name@, is_exported, is_module_level, strs_view(values@));
                                    proof {
                                        assert(decl_found(*decl, is_exported, is_module_level) == seq![ev]);
                                        Self::lemma_found_one(ev);
                                    }
                                    self.string_arrays.push(StringArray {
                                        name: name.clone(),
                                        file_path: self.file_path.clone(),
                                        is_exported,
                                        is_module_level,
                                        values,
                                    });
                                    proof {
                                        assert(objects_view(self.objects@) =~= objects_view(m1.objects@)
                                            + found_objects(decl_found(*decl, is_exported, is_module_level)));
                                        assert(string_arrays_view(self.string_arrays@) =~= string_arrays_view(m1.string_arrays@)
                                            + found_string_arrays(decl_found(*decl, is_exported, is_module_level)));
                                        assert(arrays_view(self.arrays@) =~= arrays_view(m1.arrays@)
                                            + found_arrays(decl_found(*decl, is_exported, is_module_level)));
                                        assert(imports_view(self.imports@) =~= imports_view(m1.imports@)
                                            + found_imports(decl_found(*decl, is_exported, is_module_level)));
                                    }
                                },
                                None => {
                                    match KeyObjectCollector::extract_array_properties(elems) {
                                        Some(property_values) => {
                                            proof {
                                                let k = property_values.spec_entries()[0].0@;
                                                assert(crate::strmap::has_key(property_values.spec_entries(), k));
                                                assert(property_values@.contains_key(k));
                                                assert(array_prop_values(elems@).dom().contains(k));
                                            }
                                            let ghost ev = Found::Array(name@, is_exported, is_module_level, array_prop_values(elems@));
                                            proof {
                                                assert(decl_found(*decl, is_exported, is_module_level) == seq![ev]);
                                                Self::lemma_found_one(ev);
                                            }
                                            self.arrays.push(KeyArray {
                                                name: name.clone(),
                                                file_path: self.file_path.clone(),
                                                is_exported,
                                                is_module_level,
                                                property_values,
                                            });
                                            proof {
                                                assert(objects_view(self.objects@) =~= objects_view(m1.objects@)
                                                    + found_objects(decl_found(*decl, is_exported, is_module_level)));
                                                assert(string_arrays_view(self.string_arrays@) =~= string_arrays_view(m1.string_arrays@)
                                                    + found_string_arrays(decl_found(*decl, is_exported, is_module_level)));
                                                assert(arrays_view(self.arrays@) =~= arrays_view(m1.arrays@)
                                                    + found_arrays(decl_found(*decl, is_exported, is_module_level)));
                                                assert(imports_view(self.imports@) =~= imports_view(m1.imports@)
                                                    + found_imports(decl_found(*decl, is_exported, is_module_level)));
                                            }
                                        },
                                        None => {
                                            proof { Self::lemma_found_none(m1, *self); }
                                        },
                                    }
                                },
                            }
                        },
                        _ => {
                            proof { Self::lemma_found_none(m1, *self); }
                        },
                    }
                    proof {
                        Self::lemma_found_trans(m, m1, *self, Seq::empty(), decl_found(*decl, is_exported, is_module_level));
                        assert(Seq::<Found>::empty() + decl_found(*decl, is_exported, is_module_level)
                            =~= decl_found(*decl, is_exported, is_module_level));
                    }
                },
                _ => {
                    proof { Self::lemma_found_none(m, *self); }
                },
            }
            proof {
                Self::lemma_found_trans(s0, m, *self, decls_found(node.decls@.take(i as int), is_exported, is_module_level),
                    decl_found(*decl, is_exported, is_module_level));
            }
            i = i + 1;
        }
        proof { assert(node.decls@.take(node.decls@.len() as int) =~= node.decls@); }
    }

    /// Records the bindings an import declaration makes.
    #[verifier::loop_isolation(false)]
    fn visit_import_decl(&mut self, node: &ImportDecl)
        requires
            old(self).wf(),
        ensures
            old(self).found_by(final(self), import_found(*node)),
            final(self).translation_props == old(self).translation_props,
            final(self).translation_fn_calls == old(self).translation_fn_calls,
    {
        let ghost s0 = *self;
        match &node.src {
            Some(module_src) => {
                let mut i: usize = 0;
                while i < node.specifiers.len()
                    invariant
                        i <= node.specifiers@.len(),
                        s0.kept(self),
                        self.objects == s0.objects,
                        self.arrays == s0.arrays,
                        self.string_arrays == s0.string_arrays,
                        self.translation_props == s0.translation_props,
                        self.translation_fn_calls == s0.translation_fn_calls,
                        imports_view(self.imports@) == imports_view(s0.imports@)
                            + node.specifiers@.take(i as int).map_values(|sp: ImportSpecifier| import_triple(sp, module_src@)),
                    decreases node.specifiers@.len() - i,
                {
                    let info = match &node.specifiers[i] {
                        ImportSpecifier::Named { local, imported } => ImportInfo {
                            local_name: local.clone(),
                            imported_name: match imported {
                                Some(n) => n.clone(),
                                None => local.clone(),
                            },
                            module_specifier: module_src.clone(),
                        },
                        ImportSpecifier::Default(local) => ImportInfo {
                            local_name: local.clone(),
                            imported_name: text("default"),
                            module_specifier: module_src.clone(),
                        },
                        ImportSpecifier::Namespace(local) => ImportInfo {
                            local_name: local.clone(),
                            imported_name: text("*"),
                            module_specifier: module_src.clone(),
                        },
                    };
                    let ghost before = imports_view(self.imports@);
                    self.imports.push(info);
                    proof {
                        assert(node.specifiers@.take(i + 1).map_values(|sp: ImportSpecifier| import_triple(sp, module_src@))
                            =~= node.specifiers@.take(i as int).map_values(|sp: ImportSpecifier| import_triple(sp, module_src@))
                                .push(import_triple(node.specifiers@[i as int], module_src@)));
                        assert(imports_view(self.imports@) =~= before.push(import_triple(node.specifiers@[i as int], module_src@)));
                    }
                    i = i + 1;
                }
                proof {
                    assert(node.specifiers@.take(node.specifiers@.len() as int) =~= node.specifiers@);
                    lemma_import_found(node.specifiers@, module_src@);
                    assert(objects_view(self.objects@) =~= objects_view(s0.objects@) + found_objects(import_found(*node)));
                    assert(string_arrays_view(self.string_arrays@) =~= string_arrays_view(s0.string_arrays@) + found_string_arrays(import_found(*node)));
                    assert(arrays_view(self.arrays@) =~= arrays_view(s0.arrays@) + found_arrays(import_found(*node)));
                }
            },
            None => {
                proof { Self::lemma_found_none(s0, *self); }
            },
        }
    }

    fn find_prop(&self, component_name: &String, prop_name: &String) -> (r: Option<usize>)
        ensures
            match r {
                Some(i) => i < self.translation_props@.len()
                    && self.translation_props@[i as int].component_name@ == component_name@
                    && self.translation_props@[i as int].prop_name@ == prop_name@,
                None => forall|k: int| 0 <= k < self.translation_props@.len() ==>
                    !((#[trigger] self.translation_props@[k]).component_name@ == component_name@
                    && self.translation_props@[k].prop_name@ == prop_name@),
            },
    {
        let mut i: usize = 0;
        while i < self.translation_props.len()
            invariant
                i <= self.translation_props@.len(),
                forall|k: int| 0 <= k < i ==> !((#[trigger] self.translation_props@[k]).component_name@ == component_name@
                    && self.translation_props@[k].prop_name@ == prop_name@),
            decreases self.translation_props@.len() - i,
        {
            if str_eq(self.translation_props[i].component_name.as_str(), component_name.as_str())
                && str_eq(self.translation_props[i].prop_name.as_str(), prop_name.as_str()) {
                return Some(i);
            }
            i = i + 1;
        }
        None
    }

    /// Adds a namespace to the prop `component.prop` (unless it is there
    /// already), or a new entry for it.
    fn add_or_update_translation_prop(&mut self, component_name: &String, prop_name: &String, namespace: Option<String>)
        requires
            old(self).wf(),
        ensures
            old(self).kept(final(self)),
            final(self).objects == old(self).objects,
            final(self).arrays == old(self).arrays,
            final(self).string_arrays == old(self).string_arrays,
            final(self).imports == old(self).imports,
            final(self).translation_fn_calls == old(self).translation_fn_calls,
            exists|i: int| 0 <= i < final(self).translation_props@.len()
                && (#[trigger] final(self).translation_props@[i]).component_name@ == component_name@
                && final(self).translation_props@[i].prop_name@ == prop_name@
                && has_namespace(final(self).translation_props@[i].namespaces@, namespace),
    {
        match self.find_prop(component_name, prop_name) {
            Some(i) => {
                let mut namespaces = crate::text::clone_opt_strings(&self.translation_props[i].namespaces);
                if !crate::collector::contains_namespace(&namespaces, &namespace) {
                    namespaces.push(namespace);
                    assert(opt_view(namespaces@.last()) == opt_view(namespace));
                }
                let entry = TranslationProp {
                    component_name: self.translation_props[i].component_name.clone(),
                    prop_name: self.translation_props[i].prop_name.clone(),
                    namespaces,
                };
                self.translation_props.set(i, entry);
                assert(self.translation_props@[i as int].component_name@ == component_name@);
            },
            None => {
                let mut namespaces: Vec<Option<String>> = Vec::new();
                namespaces.push(namespace);
                assert(opt_view(namespaces@[0]) == opt_view(namespace));
                self.translation_props.push(TranslationProp {
                    component_name: component_name.clone(),
                    prop_name: prop_name.clone(),
                    namespaces,
                });
                assert(self.translation_props@[self.translation_props@.len() - 1].component_name@ == component_name@);
            },
        }
    }

    /// `call` is the entry of argument `arg_index` of `file.fn`.
    pub open spec fn fn_call_is(&self, call: TranslationFnCall, fn_file_path: Seq<char>, fn_name: Seq<char>, arg_index: usize) -> bool {
        call.fn_file_path@ == fn_file_path && call.fn_name@ == fn_name && call.arg_index == arg_index
    }

    fn find_fn_call(&self, fn_file_path: &String, fn_name: &String, arg_index: usize) -> (r: Option<usize>)
        ensures
            match r {
                Some(i) => i < self.translation_fn_calls@.len()
                    && self.translation_fn_calls@[i as int].fn_file_path@ == fn_file_path@
                    && self.translation_fn_calls@[i as int].fn_name@ == fn_name@
                    && self.translation_fn_calls@[i as int].arg_index == arg_index
                    && forall|k: int| 0 <= k < i ==> !self.fn_call_is(#[trigger] self.translation_fn_calls@[k], fn_file_path@, fn_name@, arg_index),
                None => forall|k: int| 0 <= k < self.translation_fn_calls@.len()
                    ==> !self.fn_call_is(#[trigger] self.translation_fn_calls@[k], fn_file_path@, fn_name@, arg_index),
            },
    {
        let mut i: usize = 0;
        while i < self.translation_fn_calls.len()
            invariant
                i <= self.translation_fn_calls@.len(),
                forall|k: int| 0 <= k < i ==> !self.fn_call_is(#[trigger] self.translation_fn_calls@[k], fn_file_path@, fn_name@, arg_index),
            decreases self.translation_fn_calls@.len() - i,
        {
            if str_eq(self.translation_fn_calls[i].fn_file_path.as_str(), fn_file_path.as_str())
                && str_eq(self.translation_fn_calls[i].fn_name.as_str(), fn_name.as_str())
                && self.translation_fn_calls[i].arg_index == arg_index {
                return Some(i);
            }
            i = i + 1;
        }
        None
    }

    /// Adds a namespace to the argument `file.fn.index` (unless it is there
    /// already), or a new entry for it.
    fn add_or_update_translation_fn_call(&mut self, fn_file_path: &String, fn_name: &String, arg_index: usize, namespace: Option<String>)
        requires
            old(self).wf(),
        ensures
            old(self).kept(final(self)),
            final(self).objects == old(self).objects,
            final(self).arrays == old(self).arrays,
            final(self).string_arrays == old(self).string_arrays,
            final(self).imports == old(self).imports,
            final(self).translation_props == old(self).translation_props,
            exists|i: int| 0 <= i < final(self).translation_fn_calls@.len()
                && (#[trigger] final(self).translation_fn_calls@[i]).fn_file_path@ == fn_file_path@
                && final(self).translation_fn_calls@[i].fn_name@ == fn_name@
                && final(self).translation_fn_calls@[i].arg_index == arg_index
                && has_namespace(final(self).translation_fn_calls@[i].namespaces@, namespace),
    {
        match self.find_fn_call(fn_file_path, fn_name, arg_index) {
            Some(i) => {
                let mut namespaces = crate::text::clone_opt_strings(&self.translation_fn_calls[i].namespaces);
                if !crate::collector::contains_namespace(&namespaces, &namespace) {
                    namespaces.push(namespace);
                    assert(opt_view(namespaces@.last()) == opt_view(namespace));
                }
                let entry = TranslationFnCall {
                    fn_file_path: self.translation_fn_calls[i].fn_file_path.clone(),
                    fn_name: self.translation_fn_calls[i].fn_name.clone(),
                    arg_index,
                    namespaces,
                };
                self.translation_fn_calls.set(i, entry);
                assert(self.translation_fn_calls@[i as int].fn_name@ == fn_name@);
            },
            None => {
                let mut namespaces: Vec<Option<String>> = Vec::new();
                namespaces.push(namespace);
                assert(opt_view(namespaces@[0]) == opt_view(namespace));
                self.translation_fn_calls.push(TranslationFnCall {
                    fn_file_path: fn_file_path.clone(),
                    fn_name: fn_name.clone(),
                    arg_index,
                    namespaces,
                });
                assert(self.translation_fn_calls@[self.translation_fn_calls@.len() - 1].fn_name@ == fn_name@);
            },
        }
    }


    /// Where a called function is defined and under which name: the file its
    /// import resolves to and the imported name, or this file and the local name.
    fn resolve_fn_definition(&self, local_fn_name: &str) -> (r: (String, String))
        ensures
            ({
                let i = crate::value_analyzer::first_import_from(self.imports@, 0, local_fn_name@);
                if i >= 0 {
                    &&& r.0@ == match crate::key_objects::spec_resolve_import_path(self.file_path@, self.imports@[i].module_specifier@, self.existing_files@) {
                        Some(p) => p,
                        None => self.file_path@,
                    }
                    &&& r.1@ == self.imports@[i].imported_name@
                } else {
                    r.0@ == self.file_path@ && r.1@ == local_fn_name@
                }
            }),
    {
        let mut i: usize = 0;
        while i < self.imports.len()
            invariant
                i <= self.imports@.len(),
                crate::value_analyzer::first_import_from(self.imports@, 0, local_fn_name@)
                    == crate::value_analyzer::first_import_from(self.imports@, i as int, local_fn_name@),
            decreases self.imports@.len() - i,
        {
            if str_eq(self.imports[i].local_name.as_str(), local_fn_name) {
                let file = match resolve_import_path(self.file_path.as_str(), self.imports[i].module_specifier.as_str(), &self.existing_files) {
                    Some(p) => p,
                    None => self.file_path.clone(),
                };
                return (file, self.imports[i].imported_name.clone());
            }
            i = i + 1;
        }
        (self.file_path.clone(), text(local_fn_name))
    }

    /// Walks a module: its items, then everything below them.
    pub fn visit_module(&mut self, m: &Module)
        requires
            old(self).wf(),
        ensures
            old(self).kept_items(final(self)),
            fns_view(final(self).schema_functions@) == fns_view(old(self).schema_functions@)
                + spec_module_fns(m.body@, old(self).file_path@),
            opt_view(final(self).default_export_name)
                == spec_default_export(m.body@, opt_view(old(self).default_export_name)),
            old(self).found_by_items(final(self), rg_items(m.body@, old(self).scope_depth)),
    {
        self.visit_items(&m.body);
    }

    /// Module items: exports are read here; other statements are walked.
    fn visit_items(&mut self, v: &Vec<Stmt>)
        requires
            old(self).wf(),
        ensures
            old(self).kept_items(final(self)),
            fns_view(final(self).schema_functions@) == fns_view(old(self).schema_functions@)
                + spec_module_fns(v@, old(self).file_path@),
            opt_view(final(self).default_export_name)
                == spec_default_export(v@, opt_view(old(self).default_export_name)),
            old(self).found_by_items(final(self), rg_items(v@, old(self).scope_depth)),
        decreases v, 2nat,
    {
        let ghost s0 = *self;
        let ghost file = self.file_path@;
        let ghost f0 = fns_view(self.schema_functions@);
        let ghost d0 = opt_view(self.default_export_name);
        let ghost d = self.scope_depth;
        proof { Self::lemma_found_none_items(s0, s0); }
        let mut i: usize = 0;
        while i < v.len()
            invariant
                i <= v@.len(),
                s0.kept_items(self),
                s0.found_by_items(self, rg_items(v@.take(i as int), d)),
                d == s0.scope_depth,
                self.file_path@ == file,
                fns_view(self.schema_functions@) == f0 + spec_module_fns(v@.take(i as int), file),
                opt_view(self.default_export_name) == spec_default_export(v@.take(i as int), d0),
            decreases v@.len() - i,
        {
            proof { assert(decreases_to!(v => v@[i as int])); }
            let ghost m = *self;
            let ghost fb = fns_view(self.schema_functions@);
            self.visit_item(&v[i]);
            proof {
                Self::lemma_items_trans(s0, m, *self);
                Self::lemma_found_items_trans(s0, m, *self, rg_items(v@.take(i as int), d), rg_item(v@[i as int], d));
                assert(v@.take(i + 1).drop_last() =~= v@.take(i as int));
                assert(fns_view(self.schema_functions@) =~= f0 + spec_module_fns(v@.take(i + 1), file));
            }
            i = i + 1;
        }
        proof { assert(v@.take(v@.len() as int) =~= v@); }
    }

    fn visit_item(&mut self, st: &Stmt)
        requires
            old(self).wf(),
        ensures
            old(self).kept_items(final(self)),
            fns_view(final(self).schema_functions@) == fns_view(old(self).schema_functions@)
                + crate::schema_collector::spec_item_fns(*st, old(self).file_path@),
            opt_view(final(self).default_export_name)
                == spec_item_default(*st, opt_view(old(self).default_export_name)),
            old(self).found_by_items(final(self), rg_item(*st, old(self).scope_depth)),
        decreases st, 2nat,
    {
        let ghost s0 = *self;
        match st {
            Stmt::ExportDecl(Decl::Var(vd)) => {
                self.visit_export_var(vd);
            },
            Stmt::ExportDefaultFn(d) => {
                let name = match &d.ident {
                    Some(n) => n.clone(),
                    None => {
                        proof { reveal_strlit("default"); }
                        text("default")
                    },
                };
                self.default_export_name = Some(name);
                let ghost s1 = *self;
                proof { Self::lemma_found_none_items(s0, s1); }
                self.visit_function(&d.function);
                proof {
                    Self::lemma_found_to_items(s1, *self, ko_fn(d.function, s0.scope_depth));
                    Self::lemma_found_items_trans(s0, s1, *self, Seq::empty(), ko_fn(d.function, s0.scope_depth));
                    assert(Seq::<Found>::empty() + ko_fn(d.function, s0.scope_depth) =~= ko_fn(d.function, s0.scope_depth));
                }
                proof { assert(fns_view(self.schema_functions@) =~= fns_view(s0.schema_functions@) + Seq::empty()); }
            },
            Stmt::ExportDefaultClass { ident, body } => {
                let name = match ident {
                    Some(n) => n.clone(),
                    None => {
                        proof { reveal_strlit("default"); }
                        text("default")
                    },
                };
                self.default_export_name = Some(name);
                let ghost s1 = *self;
                proof { Self::lemma_found_none_items(s0, s1); }
                self.visit_stmts(body);
                proof {
                    Self::lemma_found_to_items(s1, *self, ko_stmts(body@, s0.scope_depth));
                    Self::lemma_found_items_trans(s0, s1, *self, Seq::empty(), ko_stmts(body@, s0.scope_depth));
                    assert(Seq::<Found>::empty() + ko_stmts(body@, s0.scope_depth) =~= ko_stmts(body@, s0.scope_depth));
                }
                proof { assert(fns_view(self.schema_functions@) =~= fns_view(s0.schema_functions@) + Seq::empty()); }
            },
            Stmt::ExportDefaultExpr(e) => {
                match e {
                    Expr::Ident(n) => { self.default_export_name = Some(n.clone()); },
                    Expr::Arrow(_) => {
                        proof { reveal_strlit("default"); }
                        self.default_export_name = Some(text("default"));
                    },
                    Expr::Fn(_) => {
                        proof { reveal_strlit("default"); }
                        self.default_export_name = Some(text("default"));
                    },
                    _ => {},
                }
                let ghost s1 = *self;
                proof { Self::lemma_found_none_items(s0, s1); }
                self.visit_expr(e);
                proof {
                    Self::lemma_found_to_items(s1, *self, ko_expr(*e, s0.scope_depth));
                    Self::lemma_found_items_trans(s0, s1, *self, Seq::empty(), ko_expr(*e, s0.scope_depth));
                    assert(Seq::<Found>::empty() + ko_expr(*e, s0.scope_depth) =~= ko_expr(*e, s0.scope_depth));
                }
                proof { assert(fns_view(self.schema_functions@) =~= fns_view(s0.schema_functions@) + Seq::empty()); }
            },
            Stmt::Other(c) => self.visit_items(c),
            _ => {
                self.visit_stmt(st);
                proof {
                    Self::lemma_found_to_items(s0, *self, ko_stmt(*st, s0.scope_depth));
                    assert(fns_view(self.schema_functions@) =~= fns_view(s0.schema_functions@) + Seq::empty());
                }
            },
        }
    }

    /// `export const ...`: its schema functions, then its objects and arrays
    /// (which count as exported).
    fn visit_export_var(&mut self, vd: &VarDecl)
        requires
            old(self).wf(),
        ensures
            old(self).kept_items(final(self)),
            fns_view(final(self).schema_functions@) == fns_view(old(self).schema_functions@)
                + crate::schema_collector::spec_decl_fns(vd.decls@, old(self).file_path@),
            final(self).default_export_name == old(self).default_export_name,
            old(self).found_by_items(final(self), rg_schema_bodies(vd.decls@, old(self).scope_depth)
                + decls_found(vd.decls@, true, old(self).scope_depth == 0)),
    {
        let ghost s0 = *self;
        let ghost file = self.file_path@;
        let ghost f0 = fns_view(self.schema_functions@);
        let ghost d = self.scope_depth;
        proof { Self::lemma_found_none_items(s0, s0); }
        let mut i: usize = 0;
        while i < vd.decls.len()
            invariant
                i <= vd.decls@.len(),
                s0.kept_items(self),
                s0.found_by_items(self, rg_schema_bodies(vd.decls@.take(i as int), d)),
                d == s0.scope_depth,
                self.file_path@ == file,
                self.default_export_name == s0.default_export_name,
                fns_view(self.schema_functions@) == f0 + crate::schema_collector::spec_decl_fns(vd.decls@.take(i as int), file),
            decreases vd.decls@.len() - i,
        {
            let ghost m = *self;
            let ghost fb = fns_view(self.schema_functions@);
            self.check_schema_function(&vd.decls[i]);
            proof {
                Self::lemma_items_trans(s0, m, *self);
                Self::lemma_found_items_trans(s0, m, *self, rg_schema_bodies(vd.decls@.take(i as int), d), rg_schema_body(vd.decls@[i as int], d));
                assert(vd.decls@.take(i + 1).drop_last() =~= vd.decls@.take(i as int));
                assert(fns_view(self.schema_functions@) =~= fb + crate::schema_collector::spec_one_fn(vd.decls@[i as int], file));
            }
            i = i + 1;
        }
        proof { assert(vd.decls@.take(vd.decls@.len() as int) =~= vd.decls@); }
        let ghost s1 = *self;
        let module_level = self.scope_depth == 0;
        self.check_var_decl(vd, true, module_level);
        proof {
            Self::lemma_found_to_items(s1, *self, decls_found(vd.decls@, true, module_level));
            Self::lemma_found_items_trans(s0, s1, *self, rg_schema_bodies(vd.decls@, d), decls_found(vd.decls@, true, module_level));
        }
    }

    /// A declarator that defines a schema function: its body is read for
    /// the schema function, and walked like any code at this level.
    fn check_schema_function(&mut self, decl: &VarDeclarator)
        requires
            old(self).wf(),
        ensures
            old(self).kept_items(final(self)),
            fns_view(final(self).schema_functions@) == fns_view(old(self).schema_functions@)
                + crate::schema_collector::spec_one_fn(*decl, old(self).file_path@),
            final(self).default_export_name == old(self).default_export_name,
            old(self).found_by_items(final(self), rg_schema_body(*decl, old(self).scope_depth)),
    {
        let ghost s0 = *self;
        let ghost f0 = fns_view(self.schema_functions@);
        match self.schema_state.check_schema_function(decl) {
            Some(arrow) => {
                let ghost st1 = self.schema_state;
                self.schema_state.walk_stmts(&arrow.body);
                let ghost evs = crate::schema_collector::sev_stmts(arrow.body@, st1.t());
                self.schema_state.finalize_schema_function(self.file_path.as_str(), &mut self.schema_functions);
                proof {
                    let c = st1.current_context.unwrap();
                    assert(strs_view(c.keys@) =~= Seq::<Seq<char>>::empty());
                    assert(strs_view(c.nested_calls@) =~= Seq::<Seq<char>>::empty());
                    assert(fns_view(self.schema_functions@) =~= f0 + crate::schema_collector::spec_one_fn(*decl, self.file_path@));
                }
                let ghost s2 = *self;
                proof { Self::lemma_found_none_items(s0, s2); }
                self.visit_stmts(&arrow.body);
                proof {
                    Self::lemma_found_to_items(s2, *self, ko_stmts(arrow.body@, s0.scope_depth));
                    Self::lemma_found_items_trans(s0, s2, *self, Seq::empty(), ko_stmts(arrow.body@, s0.scope_depth));
                    assert(Seq::<Found>::empty() + ko_stmts(arrow.body@, s0.scope_depth) =~= rg_schema_body(*decl, s0.scope_depth));
                }
            },
            None => {
                proof {
                    assert(fns_view(self.schema_functions@) =~= f0 + crate::schema_collector::spec_one_fn(*decl, self.file_path@));
                    Self::lemma_found_none_items(s0, *self);
                }
            },
        }
    }

    #[verifier::loop_isolation(false)]
    fn visit_stmts(&mut self, v: &Vec<Stmt>)
        requires
            old(self).wf(),
        ensures
            old(self).found_by(final(self), ko_stmts(v@, old(self).scope_depth)),
        decreases v, 0nat,
    {
        let ghost s0 = *self;
        let ghost d = self.scope_depth;
        proof { Self::lemma_found_none(s0, s0); }
        let mut i: usize = 0;
        while i < v.len()
            invariant
                i <= v@.len(),
                s0.found_by(self, ko_stmts(v@.take(i as int), d)),
            decreases v@.len() - i,
        {
            proof { assert(decreases_to!(v => v@[i as int])); }
            let ghost m = *self;
            self.visit_stmt(&v[i]);
            proof {
                Self::lemma_found_trans(s0, m, *self, ko_stmts(v@.take(i as int), d), ko_stmt(v@[i as int], d));
                assert(v@.take(i + 1).drop_last() =~= v@.take(i as int));
            }
            i = i + 1;
        }
        proof { assert(v@.take(v@.len() as int) =~= v@); }
    }

    fn visit_stmt(&mut self, st: &Stmt)
        requires
            old(self).wf(),
        ensures
            old(self).found_by(final(self), ko_stmt(*st, old(self).scope_depth)),
        decreases st, 0nat,
    {
        let ghost s0 = *self;
        match st {
            Stmt::Expr(e) => self.visit_expr(e),
            Stmt::Var(v) => self.visit_var_decl(v),
            Stmt::Fn(f) => self.visit_function(&f.function),
            Stmt::Import(d) => self.visit_import_decl(d),
            Stmt::ExportDecl(d) => match d {
                Decl::Var(v) => {
                    let module_level = self.scope_depth == 0;
                    self.check_var_decl(v, true, module_level);
                },
                Decl::Fn(f) => self.visit_function(&f.function),
                Decl::Other(children) => self.visit_stmts(children),
            },
            Stmt::ExportDefaultFn(d) => self.visit_function(&d.function),
            Stmt::ExportDefaultExpr(e) => self.visit_expr(e),
            Stmt::ExportDefaultClass { body, .. } => self.visit_stmts(body),
            Stmt::Other(children) => self.visit_stmts(children),
        }
    }

    fn visit_var_decl(&mut self, v: &VarDecl)
        requires
            old(self).wf(),
        ensures
            old(self).found_by(final(self), decls_found(v.decls@, false, old(self).scope_depth == 0)
                + ko_decls(v.decls@, old(self).scope_depth)),
        decreases v, 1nat,
    {
        let ghost s0 = *self;
        let module_level = self.scope_depth == 0;
        self.check_var_decl(v, false, module_level);
        let ghost s1 = *self;
        self.visit_declarators(v);
        proof {
            Self::lemma_found_trans(s0, s1, *self, decls_found(v.decls@, false, module_level), ko_decls(v.decls@, s0.scope_depth));
        }
    }

    #[verifier::loop_isolation(false)]
    fn visit_declarators(&mut self, v: &VarDecl)
        requires
            old(self).wf(),
        ensures
            old(self).found_by(final(self), ko_decls(v.decls@, old(self).scope_depth)),
        decreases v, 0nat,
    {
        let ghost s0 = *self;
        let ghost d = self.scope_depth;
        proof { Self::lemma_found_none(s0, s0); }
        let mut i: usize = 0;
        while i < v.decls.len()
            invariant
                i <= v.decls@.len(),
                s0.found_by(self, ko_decls(v.decls@.take(i as int), d)),
            decreases v.decls@.len() - i,
        {
            proof { assert(decreases_to!(v.decls => v.decls@[i as int])); }
            let ghost m = *self;
            let dc = &v.decls[i];
            self.visit_pat(&dc.name);
            let ghost m2 = *self;
            match &dc.init {
                Some(init) => self.visit_expr(init),
                None => { proof { Self::lemma_found_none(m2, m2); } },
            }
            proof {
                Self::lemma_found_trans(m, m2, *self, ko_pat(dc.name, d), ko_opt(dc.init, d));
                Self::lemma_found_trans(s0, m, *self, ko_decls(v.decls@.take(i as int), d), ko_pat(dc.name, d) + ko_opt(dc.init, d));
                assert(v.decls@.take(i + 1).drop_last() =~= v.decls@.take(i as int));
                assert(ko_decls(v.decls@.take(i + 1), d) =~= ko_decls(v.decls@.take(i as int), d) + (ko_pat(dc.name, d) + ko_opt(dc.init, d)));
            }
            i = i + 1;
        }
        proof { assert(v.decls@.take(v.decls@.len() as int) =~= v.decls@); }
    }

    /// A function: one level deeper, with a binding scope of its own.
    fn visit_function(&mut self, f: &Function)
        requires
            old(self).wf(),
        ensures
            old(self).found_by(final(self), ko_fn(*f, old(self).scope_depth)),
        decreases f, 0nat,
    {
        let ghost s0 = *self;
        if self.scope_depth == usize::MAX {
            proof { Self::lemma_found_none(s0, s0); }
            return;
        }
        self.scope_depth = self.scope_depth + 1;
        self.enter_binding_scope();
        self.shadow_params(&f.params);
        let ghost s1 = *self;
        assert(s1.translation_bindings_stack@.len() == s1.spec_bindings().len());
        assert(s0.translation_bindings_stack@.len() == s0.spec_bindings().len());
        self.visit_pats(&f.params);
        let ghost s2 = *self;
        self.visit_stmts(&f.body);
        proof {
            Self::lemma_found_trans(s1, s2, *self, ko_pats(f.params@, s1.scope_depth), ko_stmts(f.body@, s1.scope_depth));
        }
        self.exit_binding_scope();
        self.scope_depth = self.scope_depth - 1;
        assert(self.translation_bindings_stack@.len() == self.spec_bindings().len());
    }

    /// An arrow function: one level deeper, with a binding scope of its own.
    fn visit_arrow(&mut self, a: &ArrowExpr)
        requires
            old(self).wf(),
        ensures
            old(self).found_by(final(self), ko_arrow(*a, old(self).scope_depth)),
        decreases a, 0nat,
    {
        let ghost s0 = *self;
        if self.scope_depth == usize::MAX {
            proof { Self::lemma_found_none(s0, s0); }
            return;
        }
        self.scope_depth = self.scope_depth + 1;
        self.enter_binding_scope();
        self.shadow_params(&a.params);
        let ghost s1 = *self;
        assert(s1.translation_bindings_stack@.len() == s1.spec_bindings().len());
        assert(s0.translation_bindings_stack@.len() == s0.spec_bindings().len());
        self.visit_pats(&a.params);
        let ghost s2 = *self;
        self.visit_stmts(&a.body);
        proof {
            Self::lemma_found_trans(s1, s2, *self, ko_pats(a.params@, s1.scope_depth), ko_stmts(a.body@, s1.scope_depth));
        }
        self.exit_binding_scope();
        self.scope_depth = self.scope_depth - 1;
        assert(self.translation_bindings_stack@.len() == self.spec_bindings().len());
    }

    #[verifier::loop_isolation(false)]
    fn visit_pats(&mut self, v: &Vec<Pat>)
        requires
            old(self).wf(),
        ensures
            old(self).found_by(final(self), ko_pats(v@, old(self).scope_depth)),
        decreases v, 0nat,
    {
        let ghost s0 = *self;
        let ghost d = self.scope_depth;
        proof { Self::lemma_found_none(s0, s0); }
        let mut i: usize = 0;
        while i < v.len()
            invariant
                i <= v@.len(),
                s0.found_by(self, ko_pats(v@.take(i as int), d)),
            decreases v@.len() - i,
        {
            proof { assert(decreases_to!(v => v@[i as int])); }
            let ghost m = *self;
            self.visit_pat(&v[i]);
            proof {
                Self::lemma_found_trans(s0, m, *self, ko_pats(v@.take(i as int), d), ko_pat(v@[i as int], d));
                assert(v@.take(i + 1).drop_last() =~= v@.take(i as int));
            }
            i = i + 1;
        }
        proof { assert(v@.take(v@.len() as int) =~= v@); }
    }

    #[verifier::loop_isolation(false)]
    fn visit_pat(&mut self, p: &Pat)
        requires
            old(self).wf(),
        ensures
            old(self).found_by(final(self), ko_pat(*p, old(self).scope_depth)),
        decreases p, 0nat,
    {
        let ghost s0 = *self;
        let ghost d = self.scope_depth;
        match p {
            Pat::Ident { .. } => { proof { Self::lemma_found_none(s0, s0); } },
            Pat::Object(props) => {
                proof { Self::lemma_found_none(s0, s0); }
                let mut i: usize = 0;
                while i < props.len()
                    invariant
                        i <= props@.len(),
                        s0.found_by(self, ko_opps(props@.take(i as int), d)),
                    decreases props@.len() - i,
                {
                    proof { assert(decreases_to!(props => props@[i as int])); }
                    let ghost m = *self;
                    match &props[i] {
                        ObjectPatProp::KeyValue { key, value } => {
                            self.visit_prop_name(key);
                            let ghost m2 = *self;
                            self.visit_pat(value);
                            proof { Self::lemma_found_trans(m, m2, *self, ko_prop_name(*key, d), ko_pat(*value, d)); }
                        },
                        ObjectPatProp::Assign { value, .. } => {
                            match value {
                                Some(e) => self.visit_expr(e),
                                None => { proof { Self::lemma_found_none(m, m); } },
                            }
                        },
                        ObjectPatProp::Rest(q) => self.visit_pat(q),
                    }
                    proof {
                        let item = match props@[i as int] {
                            ObjectPatProp::KeyValue { key, value } => ko_prop_name(key, d) + ko_pat(value, d),
                            ObjectPatProp::Assign { value, .. } => ko_opt(value, d),
                            ObjectPatProp::Rest(q) => ko_pat(q, d),
                        };
                        Self::lemma_found_trans(s0, m, *self, ko_opps(props@.take(i as int), d), item);
                        assert(props@.take(i + 1).drop_last() =~= props@.take(i as int));
                    }
                    i = i + 1;
                }
                proof { assert(props@.take(props@.len() as int) =~= props@); }
            },
            Pat::Assign { left, right } => {
                self.visit_pat(left);
                let ghost m = *self;
                self.visit_expr(right);
                proof { Self::lemma_found_trans(s0, m, *self, ko_pat(**left, d), ko_expr(**right, d)); }
            },
            Pat::Array(elems) => {
                proof { Self::lemma_found_none(s0, s0); }
                let mut i: usize = 0;
                while i < elems.len()
                    invariant
                        i <= elems@.len(),
                        s0.found_by(self, ko_opats(elems@.take(i as int), d)),
                    decreases elems@.len() - i,
                {
                    proof { assert(decreases_to!(elems => elems@[i as int])); }
                    let ghost m = *self;
                    match &elems[i] {
                        Some(q) => self.visit_pat(q),
                        None => { proof { Self::lemma_found_none(m, m); } },
                    }
                    proof {
                        let item = match elems@[i as int] {
                            Some(q) => ko_pat(q, d),
                            None => Seq::empty(),
                        };
                        Self::lemma_found_trans(s0, m, *self, ko_opats(elems@.take(i as int), d), item);
                        assert(elems@.take(i + 1).drop_last() =~= elems@.take(i as int));
                    }
                    i = i + 1;
                }
                proof { assert(elems@.take(elems@.len() as int) =~= elems@); }
            },
            Pat::Rest(q) => self.visit_pat(q),
            Pat::Other(children) => self.visit_stmts(children),
        }
    }

    fn visit_prop_name(&mut self, k: &PropName)
        requires
            old(self).wf(),
        ensures
            old(self).found_by(final(self), ko_prop_name(*k, old(self).scope_depth)),
        decreases k, 0nat,
    {
        let ghost s0 = *self;
        match k {
            PropName::Other(children) => self.visit_stmts(children),
            _ => { proof { Self::lemma_found_none(s0, s0); } },
        }
    }

    #[verifier::loop_isolation(false)]
    fn visit_exprs(&mut self, v: &Vec<Expr>)
        requires
            old(self).wf(),
        ensures
            old(self).found_by(final(self), ko_exprs(v@, old(self).scope_depth)),
        decreases v, 0nat,
    {
        let ghost s0 = *self;
        let ghost d = self.scope_depth;
        proof { Self::lemma_found_none(s0, s0); }
        let mut i: usize = 0;
        while i < v.len()
            invariant
                i <= v@.len(),
                s0.found_by(self, ko_exprs(v@.take(i as int), d)),
            decreases v@.len() - i,
        {
            proof { assert(decreases_to!(v => v@[i as int])); }
            let ghost m = *self;
            self.visit_expr(&v[i]);
            proof {
                Self::lemma_found_trans(s0, m, *self, ko_exprs(v@.take(i as int), d), ko_expr(v@[i as int], d));
                assert(v@.take(i + 1).drop_last() =~= v@.take(i as int));
            }
            i = i + 1;
        }
        proof { assert(v@.take(v@.len() as int) =~= v@); }
    }

    #[verifier::loop_isolation(false)]
    fn visit_args(&mut self, v: &Vec<ExprOrSpread>)
        requires
            old(self).wf(),
        ensures
            old(self).found_by(final(self), ko_args(v@, old(self).scope_depth)),
        decreases v, 0nat,
    {
        let ghost s0 = *self;
        let ghost d = self.scope_depth;
        proof { Self::lemma_found_none(s0, s0); }
        let mut i: usize = 0;
        while i < v.len()
            invariant
                i <= v@.len(),
                s0.found_by(self, ko_args(v@.take(i as int), d)),
            decreases v@.len() - i,
        {
            proof { assert(decreases_to!(v => v@[i as int])); }
            let ghost m = *self;
            self.visit_expr(&v[i].expr);
            proof {
                Self::lemma_found_trans(s0, m, *self, ko_args(v@.take(i as int), d), ko_expr(v@[i as int].expr, d));
                assert(v@.take(i + 1).drop_last() =~= v@.take(i as int));
            }
            i = i + 1;
        }
        proof { assert(v@.take(v@.len() as int) =~= v@); }
    }

    #[verifier::loop_isolation(false)]
    fn visit_props(&mut self, v: &Vec<PropOrSpread>)
        requires
            old(self).wf(),
        ensures
            old(self).found_by(final(self), ko_props(v@, old(self).scope_depth)),
        decreases v, 0nat,
    {
        let ghost s0 = *self;
        let ghost d = self.scope_depth;
        proof { Self::lemma_found_none(s0, s0); }
        let mut i: usize = 0;
        while i < v.len()
            invariant
                i <= v@.len(),
                s0.found_by(self, ko_props(v@.take(i as int), d)),
            decreases v@.len() - i,
        {
            proof { assert(decreases_to!(v => v@[i as int])); }
            let ghost m = *self;
            match &v[i] {
                PropOrSpread::Spread(e) => self.visit_expr(e),
                PropOrSpread::KeyValue { key, value } => {
                    self.visit_prop_name(key);
                    let ghost m2 = *self;
                    self.visit_expr(value);
                    proof { Self::lemma_found_trans(m, m2, *self, ko_prop_name(*key, d), ko_expr(*value, d)); }
                },
                PropOrSpread::Shorthand(_) => { proof { Self::lemma_found_none(m, m); } },
                PropOrSpread::Method { key, function } => {
                    self.visit_prop_name(key);
                    let ghost m2 = *self;
                    self.visit_function(function);
                    proof { Self::lemma_found_trans(m, m2, *self, ko_prop_name(*key, d), ko_fn(*function, d)); }
                },
                PropOrSpread::Other(children) => self.visit_stmts(children),
            }
            proof {
                let item = match v@[i as int] {
                    PropOrSpread::Spread(e) => ko_expr(e, d),
                    PropOrSpread::KeyValue { key, value } => ko_prop_name(key, d) + ko_expr(value, d),
                    PropOrSpread::Shorthand(_) => Seq::empty(),
                    PropOrSpread::Method { key, function } => ko_prop_name(key, d) + ko_fn(function, d),
                    PropOrSpread::Other(c) => ko_stmts(c@, d),
                };
                Self::lemma_found_trans(s0, m, *self, ko_props(v@.take(i as int), d), item);
                assert(v@.take(i + 1).drop_last() =~= v@.take(i as int));
            }
            i = i + 1;
        }
        proof { assert(v@.take(v@.len() as int) =~= v@); }
    }

    #[verifier::loop_isolation(false)]
    fn visit_expr(&mut self, e: &Expr)
        requires
            old(self).wf(),
        ensures
            old(self).found_by(final(self), ko_expr(*e, old(self).scope_depth)),
        decreases e, 0nat,
    {
        let ghost s0 = *self;
        let ghost d = self.scope_depth;
        match e {
            Expr::Ident(_) => { proof { Self::lemma_found_none(s0, s0); } },
            Expr::Str(..) => { proof { Self::lemma_found_none(s0, s0); } },
            Expr::Num(_) => { proof { Self::lemma_found_none(s0, s0); } },
            Expr::Tpl(t) => self.visit_exprs(&t.exprs),
            Expr::Cond { test, cons, alt } => {
                self.visit_expr(test);
                let ghost m1 = *self;
                self.visit_expr(cons);
                let ghost m2 = *self;
                self.visit_expr(alt);
                proof {
                    Self::lemma_found_trans(s0, m1, m2, ko_expr(**test, d), ko_expr(**cons, d));
                    Self::lemma_found_trans(s0, m2, *self, ko_expr(**test, d) + ko_expr(**cons, d), ko_expr(**alt, d));
                }
            },
            Expr::Bin { left, right, .. } => {
                self.visit_expr(left);
                let ghost m1 = *self;
                self.visit_expr(right);
                proof { Self::lemma_found_trans(s0, m1, *self, ko_expr(**left, d), ko_expr(**right, d)); }
            },
            Expr::Paren(x) => self.visit_expr(x),
            Expr::TsAs(x) => self.visit_expr(x),
            Expr::TsConst(x) => self.visit_expr(x),
            Expr::TsSatisfies(x) => self.visit_expr(x),
            Expr::Await(x) => self.visit_expr(x),
            Expr::Call(c) => self.visit_call_expr(c),
            Expr::Member { obj, prop } => {
                self.visit_expr(obj);
                let ghost m1 = *self;
                match prop {
                    MemberProp::Computed(k) => self.visit_expr(k),
                    _ => { proof { Self::lemma_found_none(m1, m1); } },
                }
                proof {
                    let tail = match prop {
                        MemberProp::Computed(k) => ko_expr(**k, d),
                        _ => Seq::empty(),
                    };
                    Self::lemma_found_trans(s0, m1, *self, ko_expr(**obj, d), tail);
                }
            },
            Expr::Arrow(a) => self.visit_arrow(a),
            Expr::Fn(f) => self.visit_function(f),
            Expr::Object(props) => self.visit_props(props),
            Expr::Array(elems) => {
                proof { Self::lemma_found_none(s0, s0); }
                let mut i: usize = 0;
                while i < elems.len()
                    invariant
                        i <= elems@.len(),
                        s0.found_by(self, ko_oargs(elems@.take(i as int), d)),
                    decreases elems@.len() - i,
                {
                    proof { assert(decreases_to!(elems => elems@[i as int])); }
                    let ghost m = *self;
                    match &elems[i] {
                        Some(x) => self.visit_expr(&x.expr),
                        None => { proof { Self::lemma_found_none(m, m); } },
                    }
                    proof {
                        let item = match elems@[i as int] {
                            Some(x) => ko_expr(x.expr, d),
                            None => Seq::empty(),
                        };
                        Self::lemma_found_trans(s0, m, *self, ko_oargs(elems@.take(i as int), d), item);
                        assert(elems@.take(i + 1).drop_last() =~= elems@.take(i as int));
                    }
                    i = i + 1;
                }
                proof { assert(elems@.take(elems@.len() as int) =~= elems@); }
            },
            Expr::JSXElement(el) => self.visit_jsx_element(el),
            Expr::JSXFragment(children) => self.visit_jsx_children(children),
            Expr::Other { children, .. } => self.visit_stmts(children),
        }
    }

    /// A call `f(t)` with a tracked translation function `t` as an argument
    /// records the argument position of `f`, named as where it is defined
    /// (hook calls themselves are skipped).
    #[verifier::loop_isolation(false)]
    fn visit_call_expr(&mut self, c: &CallExpr)
        requires
            old(self).wf(),
        ensures
            old(self).found_by(final(self), ko_call(*c, old(self).scope_depth)),
        decreases c, 0nat,
    {
        let ghost s0 = *self;
        let ghost d = self.scope_depth;
        match &c.callee {
            Some(callee) => match &**callee {
                Expr::Ident(fn_name) => {
                    if !is_translation_hook(fn_name.as_str()) {
                        let (fn_file_path, def_name) = self.resolve_fn_definition(fn_name.as_str());
                        let mut idx: usize = 0;
                        while idx < c.args.len()
                            invariant
                                idx <= c.args@.len(),
                                s0.kept(self),
                                self.objects == s0.objects,
                                self.arrays == s0.arrays,
                                self.string_arrays == s0.string_arrays,
                                self.imports == s0.imports,
                            decreases c.args@.len() - idx,
                        {
                            match &c.args[idx].expr {
                                Expr::Ident(v) => {
                                    match self.get_translation_binding(v.as_str()) {
                                        Some(ns) => {
                                            let ghost m = *self;
                                            self.add_or_update_translation_fn_call(&fn_file_path, &def_name, idx, ns);
                                            proof { Self::lemma_kept_trans(s0, m, *self); }
                                        },
                                        None => {},
                                    }
                                },
                                _ => {},
                            }
                            idx = idx + 1;
                        }
                    }
                },
                _ => {},
            },
            None => {},
        }
        let ghost s1 = *self;
        proof { Self::lemma_found_none(s0, s1); }
        match &c.callee {
            Some(callee) => {
                proof { assert(decreases_to!(c => **callee)); }
                self.visit_expr(callee);
            },
            None => { proof { Self::lemma_found_none(s1, s1); } },
        }
        let ghost s2 = *self;
        let ghost head = match &c.callee {
            Some(x) => ko_expr(**x, d),
            None => Seq::<Found>::empty(),
        };
        self.visit_args(&c.args);
        proof {
            Self::lemma_found_trans(s1, s2, *self, head, ko_args(c.args@, d));
            Self::lemma_found_trans(s0, s1, *self, Seq::empty(), head + ko_args(c.args@, d));
            assert(Seq::<Found>::empty() + (head + ko_args(c.args@, d)) =~= ko_call(*c, d));
        }
    }

    /// `<Comp t={t} />` with a tracked translation function `t` records the
    /// prop `t` of `Comp` (components only: an uppercase name or a member name).
    #[verifier::loop_isolation(false)]
    fn visit_jsx_element(&mut self, el: &JSXElement)
        requires
            old(self).wf(),
        ensures
            old(self).found_by(final(self), ko_element(*el, old(self).scope_depth)),
        decreases el, 0nat,
    {
        let ghost s0 = *self;
        let ghost d = self.scope_depth;
        let component_name: Option<String> = match &el.name {
            JSXElementName::Ident(name) => {
                let chars = crate::text::chars_of(name.as_str());
                if chars.len() > 0 && crate::collector::char_is_uppercase(chars[0]) { Some(name.clone()) } else { None }
            },
            JSXElementName::Member(m) => Some(KeyObjectCollector::jsx_member_name(m)),
            JSXElementName::Namespaced(..) => None,
        };
        match &component_name {
            Some(comp) => {
                let mut i: usize = 0;
                while i < el.attrs.len()
                    invariant
                        i <= el.attrs@.len(),
                        s0.kept(self),
                        self.objects == s0.objects,
                        self.arrays == s0.arrays,
                        self.string_arrays == s0.string_arrays,
                        self.imports == s0.imports,
                    decreases el.attrs@.len() - i,
                {
                    match &el.attrs[i] {
                        JSXAttrOrSpread::Attr(a) => {
                            match (&a.name, &a.value) {
                                (JSXAttrName::Ident(prop), Some(JSXAttrValue::Container(Some(Expr::Ident(v))))) => {
                                    match self.get_translation_binding(v.as_str()) {
                                        Some(ns) => {
                                            let ghost m = *self;
                                            self.add_or_update_translation_prop(comp, prop, ns);
                                            proof { Self::lemma_kept_trans(s0, m, *self); }
                                        },
                                        None => {},
                                    }
                                },
                                _ => {},
                            }
                        },
                        _ => {},
                    }
                    i = i + 1;
                }
            },
            None => {},
        }
        let ghost s1 = *self;
        proof { Self::lemma_found_none(s0, s1); Self::lemma_found_none(s1, s1); }
        let mut i: usize = 0;
        while i < el.attrs.len()
            invariant
                i <= el.attrs@.len(),
                s1.found_by(self, ko_attrs(el.attrs@.take(i as int), d)),
            decreases el.attrs@.len() - i,
        {
            proof { assert(decreases_to!(el.attrs => el.attrs@[i as int])); }
            let ghost m = *self;
            match &el.attrs[i] {
                JSXAttrOrSpread::Attr(a) => {
                    match &a.value {
                        Some(JSXAttrValue::Str(..)) => { proof { Self::lemma_found_none(m, m); } },
                        Some(JSXAttrValue::Container(x)) => match x {
                            Some(e) => self.visit_expr(e),
                            None => { proof { Self::lemma_found_none(m, m); } },
                        },
                        Some(JSXAttrValue::Element(inner)) => self.visit_jsx_element(inner),
                        Some(JSXAttrValue::Fragment(children)) => self.visit_jsx_children(children),
                        None => { proof { Self::lemma_found_none(m, m); } },
                    }
                },
                JSXAttrOrSpread::Spread(x) => self.visit_expr(x),
            }
            proof {
                let item = match el.attrs@[i as int] {
                    JSXAttrOrSpread::Attr(a) => match a.value {
                        Some(JSXAttrValue::Container(Some(e))) => ko_expr(e, d),
                        Some(JSXAttrValue::Element(inner)) => ko_element(*inner, d),
                        Some(JSXAttrValue::Fragment(c)) => ko_children(c@, d),
                        _ => Seq::empty(),
                    },
                    JSXAttrOrSpread::Spread(x) => ko_expr(x, d),
                };
                Self::lemma_found_trans(s1, m, *self, ko_attrs(el.attrs@.take(i as int), d), item);
                assert(el.attrs@.take(i + 1).drop_last() =~= el.attrs@.take(i as int));
            }
            i = i + 1;
        }
        proof { assert(el.attrs@.take(el.attrs@.len() as int) =~= el.attrs@); }
        let ghost s2 = *self;
        self.visit_jsx_children(&el.children);
        proof {
            Self::lemma_found_trans(s1, s2, *self, ko_attrs(el.attrs@, d), ko_children(el.children@, d));
            Self::lemma_found_trans(s0, s1, *self, Seq::empty(), ko_element(*el, d));
            assert(Seq::<Found>::empty() + ko_element(*el, d) =~= ko_element(*el, d));
        }
    }

    #[verifier::loop_isolation(false)]
    fn visit_jsx_children(&mut self, v: &Vec<JSXChild>)
        requires
            old(self).wf(),
        ensures
            old(self).found_by(final(self), ko_children(v@, old(self).scope_depth)),
        decreases v, 0nat,
    {
        let ghost s0 = *self;
        let ghost d = self.scope_depth;
        proof { Self::lemma_found_none(s0, s0); }
        let mut i: usize = 0;
        while i < v.len()
            invariant
                i <= v@.len(),
                s0.found_by(self, ko_children(v@.take(i as int), d)),
            decreases v@.len() - i,
        {
            proof { assert(decreases_to!(v => v@[i as int])); }
            let ghost m = *self;
            match &v[i] {
                JSXChild::Text(..) => { proof { Self::lemma_found_none(m, m); } },
                JSXChild::Container(x) => match x {
                    Some(e) => self.visit_expr(e),
                    None => { proof { Self::lemma_found_none(m, m); } },
                },
                JSXChild::Spread(x) => self.visit_expr(x),
                JSXChild::Element(el) => self.visit_jsx_element(el),
                JSXChild::Fragment(children) => self.visit_jsx_children(children),
            }
            proof {
                let item = match v@[i as int] {
                    JSXChild::Container(Some(e)) => ko_expr(e, d),
                    JSXChild::Spread(x) => ko_expr(x, d),
                    JSXChild::Element(el) => ko_element(*el, d),
                    JSXChild::Fragment(c) => ko_children(c@, d),
                    _ => Seq::empty(),
                };
                Self::lemma_found_trans(s0, m, *self, ko_children(v@.take(i as int), d), item);
                assert(v@.take(i + 1).drop_last() =~= v@.take(i as int));
            }
            i = i + 1;
        }
        proof { assert(v@.take(v@.len() as int) =~= v@); }
    }
}

} // verus!
