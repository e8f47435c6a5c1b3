//! Collection of what other files' analyses need from one file: objects and
//! arrays of string literals, imports, and the translation functions passed on
//! as JSX props or as call arguments.

use vstd::prelude::*;
use crate::ast::{
    ArrowExpr, CallExpr, Decl, Expr, ExprOrSpread, Function, ImportDecl, ImportSpecifier, JSXAttrName, JSXAttrOrSpread,
    JSXAttrValue, JSXChild, JSXElement, JSXElementName, JSXMemberExpr, JSXObject, MemberProp, Module, ObjectPatProp, Pat,
    PropName, PropOrSpread, Stmt, VarDecl, VarDeclarator,
};
use crate::key_objects::{
    FileImports, ImportInfo, KeyArray, KeyObject, StringArray, TranslationFnCall,
    TranslationProp, dotted, opt_view, resolve_import_path,
};
use crate::keys::{extract_namespace_from_call, hook_namespace, is_translation_hook};
use crate::strmap::{StrMap, StrSet};
use crate::text::{clone_opt_string, clone_strings, concat3, str_eq, strs_view, text};
use crate::value_analyzer::{spec_unwrap_paren, stack_lookup, unwrap_paren};

verus! {

/// Whether a character is uppercase (`char::is_uppercase`).
pub uninterp spec fn spec_char_is_uppercase(c: char) -> bool;

/// `char::is_uppercase`; among ASCII characters exactly `A`..=`Z` are uppercase.
#[verifier::external_body]
pub(crate) fn char_is_uppercase(c: char) -> (r: bool)
    ensures
        r == spec_char_is_uppercase(c),
        (c as u32) < 128 ==> (r <==> ('A' <= c && c <= 'Z')),
{
    c.is_uppercase()
}

/// The string values of an object literal's plain properties (`key: "value"`), in order.
pub open spec fn string_values(props: Seq<PropOrSpread>) -> Seq<Seq<char>>
    decreases props.len(),
{
    if props.len() == 0 {
        Seq::empty()
    } else {
        string_values(props.drop_last()) + match props.last() {
            PropOrSpread::KeyValue { key, value } => match value {
                Expr::Str(Some(v), _) => if key is Ident || key is Str { seq![v@] } else { Seq::empty() },
                _ => Seq::empty(),
            },
            _ => Seq::empty(),
        }
    }
}

/// An object literal spreads another object.
pub open spec fn has_spread(props: Seq<PropOrSpread>) -> bool {
    exists|i: int| 0 <= i < props.len() && props[i] is Spread
}

/// The candidate keys of an object literal: its string values, unless it
/// spreads another object or has none.
pub open spec fn spec_object_values(props: Seq<PropOrSpread>) -> Option<Seq<Seq<char>>> {
    if has_spread(props) || string_values(props).len() == 0 { None } else { Some(string_values(props)) }
}

/// The strings of an array of string literals; `None` as soon as an element is
/// spread or is not a (valid) string literal. Holes are skipped.
pub open spec fn string_elems(elems: Seq<Option<ExprOrSpread>>) -> Option<Seq<Seq<char>>>
    decreases elems.len(),
{
    if elems.len() == 0 {
        Some(Seq::empty())
    } else {
        match string_elems(elems.drop_last()) {
            None => None,
            Some(vs) => match elems.last() {
                None => Some(vs),
                Some(x) => if x.spread {
                    None
                } else {
                    match spec_unwrap_paren(x.expr) {
                        Expr::Str(Some(v), _) => Some(vs.push(v@)),
                        _ => None,
                    }
                },
            },
        }
    }
}

/// The name a property key gives: an identifier or a string.
pub open spec fn prop_key_name(k: PropName) -> Option<Seq<char>> {
    match k {
        PropName::Ident(x) => Some(x@),
        PropName::Str(Some(x)) => Some(x@),
        _ => None,
    }
}

/// `m` with the string values of an object literal's properties added, each
/// at the end of the list of its property name.
pub open spec fn add_prop_values(m: Map<Seq<char>, Seq<Seq<char>>>, props: Seq<PropOrSpread>) -> Map<Seq<char>, Seq<Seq<char>>>
    decreases props.len(),
{
    if props.len() == 0 {
        m
    } else {
        let m1 = add_prop_values(m, props.drop_last());
        match props.last() {
            PropOrSpread::KeyValue { key, value } => match (prop_key_name(key), value) {
                (Some(k), Expr::Str(Some(v), _)) =>
                    m1.insert(k, (if m1.contains_key(k) { m1[k] } else { Seq::<Seq<char>>::empty() }).push(v@)),
                _ => m1,
            },
            _ => m1,
        }
    }
}

/// The string property values of the object literals of an array, by
/// property name, in order.
pub open spec fn array_prop_values(elems: Seq<Option<ExprOrSpread>>) -> Map<Seq<char>, Seq<Seq<char>>>
    decreases elems.len(),
{
    if elems.len() == 0 {
        Map::empty()
    } else {
        let m = array_prop_values(elems.drop_last());
        match elems.last() {
            Some(x) => if x.spread {
                m
            } else {
                match x.expr {
                    Expr::Object(props) => add_prop_values(m, props@),
                    _ => m,
                }
            },
            None => m,
        }
    }
}

/// An array element spread from another array.
pub open spec fn elem_spread(e: Option<ExprOrSpread>) -> bool {
    e matches Some(x) && x.spread
}

/// The values of a pure, non-empty string array.
pub open spec fn spec_string_array(elems: Seq<Option<ExprOrSpread>>) -> Option<Seq<Seq<char>>> {
    match string_elems(elems) {
        Some(vs) => if vs.len() > 0 { Some(vs) } else { None },
        None => None,
    }
}

/// The name of a JSX member expression: `Foo.Bar.Baz`.
pub open spec fn spec_jsx_member_name(m: JSXMemberExpr) -> Seq<char>
    decreases m,
{
    match m.obj {
        JSXObject::Ident(o) => dotted(o@, m.prop@),
        JSXObject::Member(inner) => dotted(spec_jsx_member_name(*inner), m.prop@),
    }
}

/// What a declaration collects: an object of string values, a string
/// array, or an array of objects (by property), each with its name, whether
/// it is exported and whether it stands at module level.
pub enum Found {
    Object(Seq<char>, bool, bool, Seq<Seq<char>>),
    StringArray(Seq<char>, bool, bool, Seq<Seq<char>>),
    Array(Seq<char>, bool, bool, Map<Seq<char>, Seq<Seq<char>>>),
    /// An imported binding: local name, imported name, module.
    Import(Seq<char>, Seq<char>, Seq<char>),
}

/// What an import specifier binds: `{ a as b }` binds `b` to `a`,
/// `import b` binds `b` to `default`, `* as b` binds `b` to `*`.
pub open spec fn specifier_found(sp: ImportSpecifier, module: Seq<char>) -> Found {
    match sp {
        ImportSpecifier::Named { local, imported } => Found::Import(local@, match imported {
            Some(n) => n@,
            None => local@,
        }, module),
        ImportSpecifier::Default(local) => Found::Import(local@, "default"@, module),
        ImportSpecifier::Namespace(local) => Found::Import(local@, "*"@, module),
    }
}

/// What an import declaration binds, in order (nothing when its module
/// is not valid text).
pub open spec fn import_found(d: ImportDecl) -> Seq<Found> {
    match d.src {
        Some(m) => d.specifiers@.map_values(|sp: ImportSpecifier| specifier_found(sp, m@)),
        None => Seq::empty(),
    }
}

/// What an import specifier binds, as (local, imported, module).
pub open spec fn import_triple(sp: ImportSpecifier, module: Seq<char>) -> (Seq<char>, Seq<char>, Seq<char>) {
    match sp {
        ImportSpecifier::Named { local, imported } => (local@, match imported {
            Some(n) => n@,
            None => local@,
        }, module),
        ImportSpecifier::Default(local) => (local@, "default"@, module),
        ImportSpecifier::Namespace(local) => (local@, "*"@, module),
    }
}

pub proof fn lemma_import_found(sps: Seq<ImportSpecifier>, m: Seq<char>)
    ensures
        found_objects(sps.map_values(|sp: ImportSpecifier| specifier_found(sp, m))) == Seq::<(Seq<char>, bool, bool, Seq<Seq<char>>)>::empty(),
        found_string_arrays(sps.map_values(|sp: ImportSpecifier| specifier_found(sp, m))) == Seq::<(Seq<char>, bool, bool, Seq<Seq<char>>)>::empty(),
        found_arrays(sps.map_values(|sp: ImportSpecifier| specifier_found(sp, m))) == Seq::<(Seq<char>, bool, bool, Map<Seq<char>, Seq<Seq<char>>>)>::empty(),
        found_imports(sps.map_values(|sp: ImportSpecifier| specifier_found(sp, m))) == sps.map_values(|sp: ImportSpecifier| import_triple(sp, m)),
    decreases sps.len(),
{
    let evs = sps.map_values(|sp: ImportSpecifier| specifier_found(sp, m));
    if sps.len() == 0 {
        assert(evs =~= Seq::<Found>::empty());
        assert(sps.map_values(|sp: ImportSpecifier| import_triple(sp, m)) =~= Seq::empty());
    } else {
        let p = sps.drop_last();
        lemma_import_found(p, m);
        assert(evs.drop_last() =~= p.map_values(|sp: ImportSpecifier| specifier_found(sp, m)));
        assert(evs.last() == specifier_found(sps.last(), m));
        assert(sps.map_values(|sp: ImportSpecifier| import_triple(sp, m))
            =~= p.map_values(|sp: ImportSpecifier| import_triple(sp, m)).push(import_triple(sps.last(), m)));
        assert(found_objects(evs) =~= Seq::empty());
        assert(found_string_arrays(evs) =~= Seq::empty());
        assert(found_arrays(evs) =~= Seq::empty());
        assert(found_imports(evs) =~= sps.map_values(|sp: ImportSpecifier| import_triple(sp, m)));
    }
}

pub open spec fn found_imports(fs: Seq<Found>) -> Seq<(Seq<char>, Seq<char>, Seq<char>)>
    decreases fs.len(),
{
    if fs.len() == 0 {
        Seq::empty()
    } else {
        found_imports(fs.drop_last()) + match fs.last() {
            Found::Import(l, i, m) => seq![(l, i, m)],
            _ => Seq::empty(),
        }
    }
}

pub open spec fn imports_view(v: Seq<ImportInfo>) -> Seq<(Seq<char>, Seq<char>, Seq<char>)> {
    v.map_values(|i: ImportInfo| (i.local_name@, i.imported_name@, i.module_specifier@))
}

/// What one declarator `name = init` collects.
pub open spec fn decl_found(d: VarDeclarator, exported: bool, module_level: bool) -> Seq<Found> {
    match (d.name, d.init) {
        (Pat::Ident { name, .. }, Some(init)) => match spec_unwrap_paren(init) {
            Expr::Object(props) => match spec_object_values(props@) {
                Some(keys) => seq![Found::Object(name@, exported, module_level, keys)],
                None => Seq::empty(),
            },
            Expr::Array(elems) => match spec_string_array(elems@) {
                Some(values) => seq![Found::StringArray(name@, exported, module_level, values)],
                None => if (forall|i: int| 0 <= i < elems@.len() ==> !elem_spread(#[trigger] elems@[i]))
                    && array_prop_values(elems@).dom() != Set::<Seq<char>>::empty() {
                    seq![Found::Array(name@, exported, module_level, array_prop_values(elems@))]
                } else {
                    Seq::empty()
                },
            },
            _ => Seq::empty(),
        },
        _ => Seq::empty(),
    }
}

/// What the declarators of a declaration collect, in order.
pub open spec fn decls_found(s: Seq<VarDeclarator>, exported: bool, module_level: bool) -> Seq<Found>
    decreases s.len(),
{
    if s.len() == 0 {
        Seq::empty()
    } else {
        decls_found(s.drop_last(), exported, module_level) + decl_found(s.last(), exported, module_level)
    }
}

pub open spec fn found_objects(fs: Seq<Found>) -> Seq<(Seq<char>, bool, bool, Seq<Seq<char>>)>
    decreases fs.len(),
{
    if fs.len() == 0 {
        Seq::empty()
    } else {
        found_objects(fs.drop_last()) + match fs.last() {
            Found::Object(n, e, m, k) => seq![(n, e, m, k)],
            _ => Seq::empty(),
        }
    }
}

pub open spec fn found_string_arrays(fs: Seq<Found>) -> Seq<(Seq<char>, bool, bool, Seq<Seq<char>>)>
    decreases fs.len(),
{
    if fs.len() == 0 {
        Seq::empty()
    } else {
        found_string_arrays(fs.drop_last()) + match fs.last() {
            Found::StringArray(n, e, m, v) => seq![(n, e, m, v)],
            _ => Seq::empty(),
        }
    }
}

pub open spec fn found_arrays(fs: Seq<Found>) -> Seq<(Seq<char>, bool, bool, Map<Seq<char>, Seq<Seq<char>>>)>
    decreases fs.len(),
{
    if fs.len() == 0 {
        Seq::empty()
    } else {
        found_arrays(fs.drop_last()) + match fs.last() {
            Found::Array(n, e, m, p) => seq![(n, e, m, p)],
            _ => Seq::empty(),
        }
    }
}

pub proof fn lemma_found_append(a: Seq<Found>, b: Seq<Found>)
    ensures
        found_objects(a + b) == found_objects(a) + found_objects(b),
        found_string_arrays(a + b) == found_string_arrays(a) + found_string_arrays(b),
        found_arrays(a + b) == found_arrays(a) + found_arrays(b),
        found_imports(a + b) == found_imports(a) + found_imports(b),
    decreases b.len(),
{
    if b.len() == 0 {
        assert(a + b =~= a);
        assert(found_imports(a) + found_imports(b) =~= found_imports(a));
        assert(found_objects(a) + found_objects(b) =~= found_objects(a));
        assert(found_string_arrays(a) + found_string_arrays(b) =~= found_string_arrays(a));
        assert(found_arrays(a) + found_arrays(b) =~= found_arrays(a));
    } else {
        lemma_found_append(a, b.drop_last());
        assert((a + b).drop_last() =~= a + b.drop_last());
        assert((a + b).last() == b.last());
        assert(found_objects(a + b) =~= found_objects(a) + found_objects(b));
        assert(found_string_arrays(a + b) =~= found_string_arrays(a) + found_string_arrays(b));
        assert(found_arrays(a + b) =~= found_arrays(a) + found_arrays(b));
        assert(found_imports(a + b) =~= found_imports(a) + found_imports(b));
    }
}

pub open spec fn objects_view(v: Seq<KeyObject>) -> Seq<(Seq<char>, bool, bool, Seq<Seq<char>>)> {
    v.map_values(|o: KeyObject| (o.name@, o.is_exported, o.is_module_level, strs_view(o.candidate_keys@)))
}

pub open spec fn string_arrays_view(v: Seq<StringArray>) -> Seq<(Seq<char>, bool, bool, Seq<Seq<char>>)> {
    v.map_values(|a: StringArray| (a.name@, a.is_exported, a.is_module_level, strs_view(a.values@)))
}

pub open spec fn arrays_view(v: Seq<KeyArray>) -> Seq<(Seq<char>, bool, bool, Map<Seq<char>, Seq<Seq<char>>>)> {
    v.map_values(|a: KeyArray| (a.name@, a.is_exported, a.is_module_level,
        a.property_values@.map_values(|l: Vec<String>| strs_view(l@))))
}

/// What the walk collects, in order; `d` is the nesting depth.
pub open spec fn ko_stmts(s: Seq<Stmt>, d: usize) -> Seq<Found>
    decreases s,
{
    if s.len() == 0 { Seq::empty() } else { ko_stmts(s.drop_last(), d) + ko_stmt(s.last(), d) }
}

pub open spec fn ko_stmt(x: Stmt, d: usize) -> Seq<Found>
    decreases x,
{
    match x {
        Stmt::Expr(e) => ko_expr(e, d),
        Stmt::Var(v) => decls_found(v.decls@, false, d == 0) + ko_decls(v.decls@, d),
        Stmt::Fn(f) => ko_fn(f.function, d),
        Stmt::Import(i) => import_found(i),
        Stmt::ExportDecl(dc) => match dc {
            Decl::Var(v) => decls_found(v.decls@, true, d == 0),
            Decl::Fn(f) => ko_fn(f.function, d),
            Decl::Other(c) => ko_stmts(c@, d),
        },
        Stmt::ExportDefaultFn(df) => ko_fn(df.function, d),
        Stmt::ExportDefaultExpr(e) => ko_expr(e, d),
        Stmt::ExportDefaultClass { body, .. } => ko_stmts(body@, d),
        Stmt::Other(c) => ko_stmts(c@, d),
    }
}

pub open spec fn ko_decls(s: Seq<VarDeclarator>, d: usize) -> Seq<Found>
    decreases s,
{
    if s.len() == 0 {
        Seq::empty()
    } else {
        ko_decls(s.drop_last(), d) + ko_pat(s.last().name, d) + ko_opt(s.last().init, d)
    }
}

pub open spec fn ko_opt(x: Option<Expr>, d: usize) -> Seq<Found>
    decreases x,
{
    match x {
        Some(e) => ko_expr(e, d),
        None => Seq::empty(),
    }
}

pub open spec fn ko_fn(f: Function, d: usize) -> Seq<Found>
    decreases f,
{
    if d == usize::MAX {
        Seq::empty()
    } else {
        ko_pats(f.params@, (d + 1) as usize) + ko_stmts(f.body@, (d + 1) as usize)
    }
}

pub open spec fn ko_arrow(a: ArrowExpr, d: usize) -> Seq<Found>
    decreases a,
{
    if d == usize::MAX {
        Seq::empty()
    } else {
        ko_pats(a.params@, (d + 1) as usize) + ko_stmts(a.body@, (d + 1) as usize)
    }
}

pub open spec fn ko_pats(s: Seq<Pat>, d: usize) -> Seq<Found>
    decreases s,
{
    if s.len() == 0 { Seq::empty() } else { ko_pats(s.drop_last(), d) + ko_pat(s.last(), d) }
}

pub open spec fn ko_pat(p: Pat, d: usize) -> Seq<Found>
    decreases p,
{
    match p {
        Pat::Ident { .. } => Seq::empty(),
        Pat::Object(props) => ko_opps(props@, d),
        Pat::Assign { left, right } => ko_pat(*left, d) + ko_expr(*right, d),
        Pat::Array(elems) => ko_opats(elems@, d),
        Pat::Rest(q) => ko_pat(*q, d),
        Pat::Other(c) => ko_stmts(c@, d),
    }
}

pub open spec fn ko_opps(s: Seq<ObjectPatProp>, d: usize) -> Seq<Found>
    decreases s,
{
    if s.len() == 0 {
        Seq::empty()
    } else {
        ko_opps(s.drop_last(), d) + match s.last() {
            ObjectPatProp::KeyValue { key, value } => ko_prop_name(key, d) + ko_pat(value, d),
            ObjectPatProp::Assign { value, .. } => ko_opt(value, d),
            ObjectPatProp::Rest(q) => ko_pat(q, d),
        }
    }
}

pub open spec fn ko_opats(s: Seq<Option<Pat>>, d: usize) -> Seq<Found>
    decreases s,
{
    if s.len() == 0 {
        Seq::empty()
    } else {
        ko_opats(s.drop_last(), d) + match s.last() {
            Some(q) => ko_pat(q, d),
            None => Seq::empty(),
        }
    }
}

pub open spec fn ko_prop_name(k: PropName, d: usize) -> Seq<Found>
    decreases k,
{
    match k {
        PropName::Other(c) => ko_stmts(c@, d),
        _ => Seq::empty(),
    }
}

pub open spec fn ko_exprs(s: Seq<Expr>, d: usize) -> Seq<Found>
    decreases s,
{
    if s.len() == 0 { Seq::empty() } else { ko_exprs(s.drop_last(), d) + ko_expr(s.last(), d) }
}

pub open spec fn ko_args(s: Seq<ExprOrSpread>, d: usize) -> Seq<Found>
    decreases s,
{
    if s.len() == 0 { Seq::empty() } else { ko_args(s.drop_last(), d) + ko_expr(s.last().expr, d) }
}

pub open spec fn ko_oargs(s: Seq<Option<ExprOrSpread>>, d: usize) -> Seq<Found>
    decreases s,
{
    if s.len() == 0 {
        Seq::empty()
    } else {
        ko_oargs(s.drop_last(), d) + match s.last() {
            Some(x) => ko_expr(x.expr, d),
            None => Seq::empty(),
        }
    }
}

pub open spec fn ko_call(c: CallExpr, d: usize) -> Seq<Found>
    decreases c,
{
    (match c.callee {
        Some(x) => ko_expr(*x, d),
        None => Seq::empty(),
    }) + ko_args(c.args@, d)
}

pub open spec fn ko_props(s: Seq<PropOrSpread>, d: usize) -> Seq<Found>
    decreases s,
{
    if s.len() == 0 {
        Seq::empty()
    } else {
        ko_props(s.drop_last(), d) + match s.last() {
            PropOrSpread::Spread(e) => ko_expr(e, d),
            PropOrSpread::KeyValue { key, value } => ko_prop_name(key, d) + ko_expr(value, d),
            PropOrSpread::Shorthand(_) => Seq::empty(),
            PropOrSpread::Method { key, function } => ko_prop_name(key, d) + ko_fn(function, d),
            PropOrSpread::Other(c) => ko_stmts(c@, d),
        }
    }
}

pub open spec fn ko_expr(e: Expr, d: usize) -> Seq<Found>
    decreases e,
{
    match e {
        Expr::Tpl(t) => ko_exprs(t.exprs@, d),
        Expr::Cond { test, cons, alt } => ko_expr(*test, d) + ko_expr(*cons, d) + ko_expr(*alt, d),
        Expr::Bin { left, right, .. } => ko_expr(*left, d) + ko_expr(*right, d),
        Expr::Paren(x) => ko_expr(*x, d),
        Expr::TsAs(x) => ko_expr(*x, d),
        Expr::TsConst(x) => ko_expr(*x, d),
        Expr::TsSatisfies(x) => ko_expr(*x, d),
        Expr::Await(x) => ko_expr(*x, d),
        Expr::Call(c) => ko_call(c, d),
        Expr::Member { obj, prop } => ko_expr(*obj, d) + match prop {
            MemberProp::Computed(k) => ko_expr(*k, d),
            _ => Seq::empty(),
        },
        Expr::Arrow(a) => ko_arrow(a, d),
        Expr::Fn(f) => ko_fn(f, d),
        Expr::Object(props) => ko_props(props@, d),
        Expr::Array(elems) => ko_oargs(elems@, d),
        Expr::JSXElement(el) => ko_element(*el, d),
        Expr::JSXFragment(children) => ko_children(children@, d),
        Expr::Other { children, .. } => ko_stmts(children@, d),
        _ => Seq::empty(),
    }
}

pub open spec fn ko_attrs(s: Seq<JSXAttrOrSpread>, d: usize) -> Seq<Found>
    decreases s,
{
    if s.len() == 0 {
        Seq::empty()
    } else {
        ko_attrs(s.drop_last(), d) + match s.last() {
            JSXAttrOrSpread::Attr(a) => match a.value {
                Some(JSXAttrValue::Container(Some(e))) => ko_expr(e, d),
                Some(JSXAttrValue::Element(inner)) => ko_element(*inner, d),
                Some(JSXAttrValue::Fragment(c)) => ko_children(c@, d),
                _ => Seq::empty(),
            },
            JSXAttrOrSpread::Spread(x) => ko_expr(x, d),
        }
    }
}

pub open spec fn ko_element(el: JSXElement, d: usize) -> Seq<Found>
    decreases el,
{
    ko_attrs(el.attrs@, d) + ko_children(el.children@, d)
}

pub open spec fn ko_children(s: Seq<JSXChild>, d: usize) -> Seq<Found>
    decreases s,
{
    if s.len() == 0 {
        Seq::empty()
    } else {
        ko_children(s.drop_last(), d) + match s.last() {
            JSXChild::Container(Some(e)) => ko_expr(e, d),
            JSXChild::Spread(x) => ko_expr(x, d),
            JSXChild::Element(el) => ko_element(*el, d),
            JSXChild::Fragment(c) => ko_children(c@, d),
            _ => Seq::empty(),
        }
    }
}

/// Collects objects, arrays, imports and passed-on translation functions of one file.
pub struct KeyObjectCollector {
    pub file_path: String,
    pub objects: Vec<KeyObject>,
    pub arrays: Vec<KeyArray>,
    pub string_arrays: Vec<StringArray>,
    pub imports: FileImports,
    /// Translation functions passed as JSX props.
    pub translation_props: Vec<TranslationProp>,
    /// Translation functions passed as plain call arguments.
    pub translation_fn_calls: Vec<TranslationFnCall>,
    /// Files known to exist, for resolving where an imported function is defined.
    pub existing_files: StrSet,
    /// Nesting depth: 0 at module level.
    pub scope_depth: usize,
    /// Translation function bindings (name -> namespace), innermost scope last.
    pub translation_bindings_stack: Vec<StrMap<Option<String>>>,
}

impl KeyObjectCollector {
    pub open spec fn spec_bindings(&self) -> Seq<Map<Seq<char>, Option<String>>> {
        self.translation_bindings_stack@.map_values(|m: StrMap<Option<String>>| m@)
    }

    /// The state the collector keeps: a global binding scope, and every
    /// collected object or array belongs to this file and has values.
    pub open spec fn wf(&self) -> bool {
        &&& self.translation_bindings_stack@.len() >= 1
        &&& forall|i: int| 0 <= i < self.objects@.len() ==> (#[trigger] self.objects@[i]).file_path@ == self.file_path@
            && self.objects@[i].candidate_keys@.len() > 0
        &&& forall|i: int| 0 <= i < self.string_arrays@.len() ==> (#[trigger] self.string_arrays@[i]).file_path@ == self.file_path@
            && self.string_arrays@[i].values@.len() > 0
        &&& forall|i: int| 0 <= i < self.arrays@.len() ==> (#[trigger] self.arrays@[i]).file_path@ == self.file_path@
        &&& forall|i: int| 0 <= i < self.translation_props@.len() ==> (#[trigger] self.translation_props@[i]).namespaces@.len() > 0
        &&& forall|i: int| 0 <= i < self.translation_fn_calls@.len() ==> (#[trigger] self.translation_fn_calls@[i]).namespaces@.len() > 0
    }

    /// What a walk over any node keeps: the file, the depth and the number of
    /// binding scopes stay; objects, arrays and imports only grow.
    pub open spec fn kept(&self, after: &Self) -> bool {
        &&& after.wf()
        &&& after.file_path == self.file_path
        &&& after.existing_files == self.existing_files
        &&& after.scope_depth == self.scope_depth
        &&& after.translation_bindings_stack@.len() == self.translation_bindings_stack@.len()
        &&& crate::visitor::is_prefix(self.objects@, after.objects@)
        &&& crate::visitor::is_prefix(self.arrays@, after.arrays@)
        &&& crate::visitor::is_prefix(self.string_arrays@, after.string_arrays@)
        &&& crate::visitor::is_prefix(self.imports@, after.imports@)
        &&& self.translation_props@.len() <= after.translation_props@.len()
        &&& self.translation_fn_calls@.len() <= after.translation_fn_calls@.len()
    }

    /// A collector at module level with nothing collected.
    pub fn new(file_path: &str) -> (r: Self)
        ensures
            r.wf(),
            r.file_path@ == file_path@,
            r.objects@.len() == 0,
            r.arrays@.len() == 0,
            r.string_arrays@.len() == 0,
            r.imports@.len() == 0,
            r.translation_props@.len() == 0,
            r.translation_fn_calls@.len() == 0,
            r.existing_files@ == Set::<Seq<char>>::empty(),
            r.scope_depth == 0,
            r.spec_bindings() == seq![Map::<Seq<char>, Option<String>>::empty()],
    {
        let mut stack: Vec<StrMap<Option<String>>> = Vec::new();
        stack.push(StrMap::new());
        let r = KeyObjectCollector {
            file_path: text(file_path),
            objects: Vec::new(),
            arrays: Vec::new(),
            string_arrays: Vec::new(),
            imports: Vec::new(),
            translation_props: Vec::new(),
            translation_fn_calls: Vec::new(),
            existing_files: StrSet::new(),
            scope_depth: 0,
            translation_bindings_stack: stack,
        };
        assert(r.spec_bindings() =~= seq![Map::<Seq<char>, Option<String>>::empty()]);
        r
    }

    /// Sets the files that relative imports may resolve to.
    pub fn set_existing_files(&mut self, files: StrSet)
        requires
            old(self).wf(),
        ensures
            final(self).wf(),
            final(self).existing_files@ == files@,
            final(self).objects == old(self).objects,
            final(self).arrays == old(self).arrays,
            final(self).string_arrays == old(self).string_arrays,
            final(self).imports == old(self).imports,
    {
        self.existing_files = files;
    }

    fn enter_binding_scope(&mut self)
        requires
            old(self).wf(),
        ensures
            final(self).wf(),
            final(self).spec_bindings() == old(self).spec_bindings().push(Map::empty()),
            final(self).file_path == old(self).file_path,
            final(self).existing_files == old(self).existing_files,
            final(self).scope_depth == old(self).scope_depth,
            final(self).objects == old(self).objects,
            final(self).arrays == old(self).arrays,
            final(self).string_arrays == old(self).string_arrays,
            final(self).imports == old(self).imports,
            final(self).translation_props == old(self).translation_props,
            final(self).translation_fn_calls == old(self).translation_fn_calls,
    {
        let ghost b0 = self.spec_bindings();
        self.translation_bindings_stack.push(StrMap::new());
        assert(self.spec_bindings() =~= b0.push(Map::empty()));
    }

    fn exit_binding_scope(&mut self)
        requires
            old(self).wf(),
            old(self).translation_bindings_stack@.len() >= 2,
        ensures
            final(self).wf(),
            final(self).spec_bindings() == old(self).spec_bindings().drop_last(),
            final(self).file_path == old(self).file_path,
            final(self).existing_files == old(self).existing_files,
            final(self).scope_depth == old(self).scope_depth,
            final(self).objects == old(self).objects,
            final(self).arrays == old(self).arrays,
            final(self).string_arrays == old(self).string_arrays,
            final(self).imports == old(self).imports,
            final(self).translation_props == old(self).translation_props,
            final(self).translation_fn_calls == old(self).translation_fn_calls,
    {
        let ghost b0 = self.spec_bindings();
        self.translation_bindings_stack.pop();
        assert(self.spec_bindings() =~= b0.drop_last());
    }

    fn insert_translation_binding(&mut self, name: String, namespace: Option<String>)
        requires
            old(self).wf(),
        ensures
            old(self).kept(final(self)),
            final(self).spec_bindings() == old(self).spec_bindings().drop_last().push(
                old(self).spec_bindings().last().insert(name@, namespace)),
            final(self).objects == old(self).objects,
            final(self).arrays == old(self).arrays,
            final(self).string_arrays == old(self).string_arrays,
            final(self).imports == old(self).imports,
            final(self).translation_props == old(self).translation_props,
            final(self).translation_fn_calls == old(self).translation_fn_calls,
    {
        let ghost b0 = self.spec_bindings();
        let ghost n = name@;
        let mut scope = self.translation_bindings_stack.pop().unwrap();
        scope.insert(name, namespace);
        self.translation_bindings_stack.push(scope);
        assert(self.spec_bindings() =~= b0.drop_last().push(b0.last().insert(n, namespace)));
    }

    /// The namespace of a tracked translation function, from the innermost scope outwards.
    fn get_translation_binding(&self, name: &str) -> (r: Option<Option<String>>)
        ensures
            r == stack_lookup(self.spec_bindings(), name@),
    {
        let mut i = self.translation_bindings_stack.len();
        assert(self.spec_bindings().take(i as int) =~= self.spec_bindings());
        while i > 0
            invariant
                i <= self.spec_bindings().len(),
                stack_lookup(self.spec_bindings(), name@) == stack_lookup(self.spec_bindings().take(i as int), name@),
            decreases i,
        {
            proof {
                let t = self.spec_bindings().take(i as int);
                assert(t.drop_last() =~= self.spec_bindings().take(i - 1));
                assert(t.last() == self.spec_bindings()[i - 1]);
            }
            match self.translation_bindings_stack[i - 1].get(name) {
                Some(ns) => { return Some(clone_opt_string(ns)); },
                None => {},
            }
            i = i - 1;
        }
        None
    }

    /// The candidate keys of an object literal (see [`spec_object_values`]).
    pub(crate) fn extract_string_value(props: &Vec<PropOrSpread>) -> (r: Option<Vec<String>>)
        ensures
            match r {
                Some(v) => spec_object_values(props@) == Some(strs_view(v@)),
                None => spec_object_values(props@) is None,
            },
    {
        let mut values: Vec<String> = Vec::new();
        let mut spread = false;
        let mut i: usize = 0;
        while i < props.len()
            invariant
                i <= props@.len(),
                strs_view(values@) == string_values(props@.take(i as int)),
                spread == (exists|j: int| 0 <= j < i && props@[j] is Spread),
            decreases props@.len() - i,
        {
            proof {
                let t = props@.take(i + 1);
                assert(t.drop_last() =~= props@.take(i as int));
                assert(t.last() == props@[i as int]);
            }
            let ghost v0 = values@;
            match &props[i] {
                PropOrSpread::Spread(_) => { spread = true; },
                PropOrSpread::KeyValue { key, value } => {
                    match value {
                        Expr::Str(Some(v), _) => {
                            match key {
                                PropName::Ident(_) => values.push(v.clone()),
                                PropName::Str(_) => values.push(v.clone()),
                                _ => {},
                            }
                        },
                        _ => {},
                    }
                },
                _ => {},
            }
            assert(strs_view(values@) =~= string_values(props@.take(i + 1)));
            i = i + 1;
        }
        assert(props@.take(props@.len() as int) =~= props@);
        if spread || values.len() == 0 {
            None
        } else {
            Some(values)
        }
    }

    /// The values of a pure string array (see [`spec_string_array`]).
    pub(crate) fn extract_string_array(elems: &Vec<Option<ExprOrSpread>>) -> (r: Option<Vec<String>>)
        ensures
            match r {
                Some(v) => spec_string_array(elems@) == Some(strs_view(v@)),
                None => spec_string_array(elems@) is None,
            },
    {
        let mut values: Vec<String> = Vec::new();
        let mut i: usize = 0;
        while i < elems.len()
            invariant
                i <= elems@.len(),
                string_elems(elems@.take(i as int)) == Some(strs_view(values@)),
            decreases elems@.len() - i,
        {
            proof {
                let t = elems@.take(i + 1);
                assert(t.drop_last() =~= elems@.take(i as int));
                assert(t.last() == elems@[i as int]);
            }
            let ghost v0 = values@;
            match &elems[i] {
                None => {},
                Some(x) => {
                    if x.spread {
                        proof { lemma_string_elems_none(elems@, i as int + 1); }
                        return None;
                    }
                    match unwrap_paren(&x.expr) {
                        Expr::Str(Some(v), _) => {
                            values.push(v.clone());
                            assert(strs_view(values@) =~= strs_view(v0).push(v@));
                        },
                        _ => {
                            proof { lemma_string_elems_none(elems@, i as int + 1); }
                            return None;
                        },
                    }
                },
            }
            i = i + 1;
        }
        assert(elems@.take(elems@.len() as int) =~= elems@);
        if values.len() == 0 {
            None
        } else {
            Some(values)
        }
    }

    /// The string property values of an array of object literals, by property
    /// name (see [`array_prop_values`]); `None` when an element is spread or
    /// no value is found.
    pub(crate) fn extract_array_properties(elems: &Vec<Option<ExprOrSpread>>) -> (r: Option<StrMap<Vec<String>>>)
        ensures
            match r {
                Some(m) => {
                    &&& forall|i: int| 0 <= i < elems@.len() ==> !elem_spread(#[trigger] elems@[i])
                    &&& m@.map_values(|v: Vec<String>| strs_view(v@)) == array_prop_values(elems@)
                    &&& m.spec_entries().len() > 0
                },
                None => (exists|i: int| 0 <= i < elems@.len() && elem_spread(#[trigger] elems@[i]))
                    || array_prop_values(elems@).dom() == Set::<Seq<char>>::empty(),
            },
    {
        let mut map: StrMap<Vec<String>> = StrMap::new();
        let mut spread = false;
        let mut i: usize = 0;
        proof {
            assert(elems@.take(0) =~= Seq::<Option<ExprOrSpread>>::empty());
            assert(map@.map_values(|v: Vec<String>| strs_view(v@)) =~= Map::<Seq<char>, Seq<Seq<char>>>::empty());
        }
        while i < elems.len()
            invariant
                i <= elems@.len(),
                spread == (exists|j: int| 0 <= j < i && elem_spread(#[trigger] elems@[j])),
                map@.map_values(|v: Vec<String>| strs_view(v@)) == array_prop_values(elems@.take(i as int)),
            decreases elems@.len() - i,
        {
            proof {
                let t = elems@.take(i + 1);
                assert(t.drop_last() =~= elems@.take(i as int));
                assert(t.last() == elems@[i as int]);
            }
            match &elems[i] {
                None => {},
                Some(x) => {
                    if x.spread {
                        spread = true;
                    } else {
                        match &x.expr {
                            Expr::Object(props) => {
                                let ghost m0 = array_prop_values(elems@.take(i as int));
                                let mut j: usize = 0;
                                proof { assert(props@.take(0) =~= Seq::<PropOrSpread>::empty()); }
                                while j < props.len()
                                    invariant
                                        j <= props@.len(),
                                        map@.map_values(|v: Vec<String>| strs_view(v@)) == add_prop_values(m0, props@.take(j as int)),
                                    decreases props@.len() - j,
                                {
                                    proof {
                                        let t = props@.take(j + 1);
                                        assert(t.drop_last() =~= props@.take(j as int));
                                        assert(t.last() == props@[j as int]);
                                    }
                                    let ghost before = map@.map_values(|v: Vec<String>| strs_view(v@));
                                    match &props[j] {
                                        PropOrSpread::KeyValue { key, value } => {
                                            let name = match key {
                                                PropName::Ident(k) => Some(k.clone()),
                                                PropName::Str(Some(k)) => Some(k.clone()),
                                                _ => None,
                                            };
                                            assert(match name { Some(k) => prop_key_name(*key) == Some(k@), None => prop_key_name(*key) is None });
                                            match (name, value) {
                                                (Some(k), Expr::Str(Some(v), _)) => {
                                                    let mut list = match map.get(k.as_str()) {
                                                        Some(l) => clone_strings(l),
                                                        None => Vec::new(),
                                                    };
                                                    assert(strs_view(list@) == if before.contains_key(k@) { before[k@] } else { Seq::<Seq<char>>::empty() });
                                                    list.push(v.clone());
                                                    assert(strs_view(list@) =~= (if before.contains_key(k@) { before[k@] } else { Seq::<Seq<char>>::empty() }).push(v@));
                                                    map.insert(k, list);
                                                    proof {
                                                        assert(map@.map_values(|v: Vec<String>| strs_view(v@)) =~= before.insert(k@,
                                                            (if before.contains_key(k@) { before[k@] } else { Seq::<Seq<char>>::empty() }).push(v@)));
                                                    }
                                                },
                                                _ => {},
                                            }
                                        },
                                        _ => {},
                                    }
                                    j = j + 1;
                                }
                                proof { assert(props@.take(props@.len() as int) =~= props@); }
                            },
                            _ => {},
                        }
                    }
                },
            }
            i = i + 1;
        }
        proof { assert(elems@.take(elems@.len() as int) =~= elems@); }
        if spread || map.len() == 0 {
            proof {
                if !spread {
                    assert(map.spec_entries().len() == 0);
                    assert forall|k: Seq<char>| !#[trigger] array_prop_values(elems@).dom().contains(k) by {
                        if map@.contains_key(k) {
                            assert(crate::strmap::has_key(map.spec_entries(), k));
                        }
                    }
                    assert(array_prop_values(elems@).dom() =~= Set::<Seq<char>>::empty());
                }
            }
            None
        } else {
            Some(map)
        }
    }
}

proof fn lemma_string_elems_none(elems: Seq<Option<ExprOrSpread>>, n: int)
    requires
        0 < n <= elems.len(),
        string_elems(elems.take(n)) is None,
    ensures
        string_elems(elems) is None,
    decreases elems.len() - n,
{
    if n < elems.len() {
        let t = elems.take(n + 1);
        assert(t.drop_last() =~= elems.take(n));
        lemma_string_elems_none(elems, n + 1);
    } else {
        assert(elems.take(n) =~= elems);
    }
}

impl KeyObjectCollector {
    proof fn lemma_kept_trans(a: Self, b: Self, c: Self)
        requires
            a.kept(&b),
            b.kept(&c),
        ensures
            a.kept(&c),
    {
    }

    /// `const t = useTranslations("Ns")` or `const t = await getTranslations("Ns")` tracks `t`.
    fn check_translation_binding(&mut self, var_name: &String, init: &Expr)
        requires
            old(self).wf(),
        ensures
            old(self).kept(final(self)),
            match hook_namespace(*init) {
                Some(ns) => final(self).spec_bindings() == old(self).spec_bindings().drop_last().push(
                    old(self).spec_bindings().last().insert(var_name@, ns)),
                None => final(self).spec_bindings() == old(self).spec_bindings(),
            },
            final(self).objects == old(self).objects,
            final(self).arrays == old(self).arrays,
            final(self).string_arrays == old(self).string_arrays,
            final(self).imports == old(self).imports,
            final(self).translation_props == old(self).translation_props,
            final(self).translation_fn_calls == old(self).translation_fn_calls,
    {
        let call = match init {
            Expr::Call(c) => Some(c),
            Expr::Await(inner) => match &**inner {
                Expr::Call(c) => Some(c),
                _ => None,
            },
            _ => None,
        };
        match call {
            Some(c) => match &c.callee {
                Some(callee) => match &**callee {
                    Expr::Ident(f) => {
                        if is_translation_hook(f.as_str()) {
                            let namespace = extract_namespace_from_call(c);
                            self.insert_translation_binding(var_name.clone(), namespace);
                        }
                    },
                    _ => {},
                },
                None => {},
            },
            None => {},
        }
    }

    /// `after` is this collector once the walk has collected `fs`.
    pub open spec fn found_by(&self, after: &Self, fs: Seq<Found>) -> bool {
        &&& self.kept(after)
        &&& objects_view(after.objects@) == objects_view(self.objects@) + found_objects(fs)
        &&& string_arrays_view(after.string_arrays@) == string_arrays_view(self.string_arrays@) + found_string_arrays(fs)
        &&& arrays_view(after.arrays@) == arrays_view(self.arrays@) + found_arrays(fs)
        &&& imports_view(after.imports@) == imports_view(self.imports@) + found_imports(fs)
    }

    proof fn lemma_found_none(a: Self, b: Self)
        requires
            a.kept(&b),
            b.objects == a.objects,
            b.string_arrays == a.string_arrays,
            b.arrays == a.arrays,
            b.imports == a.imports,
        ensures
            a.found_by(&b, Seq::empty()),
    {
        assert(objects_view(a.objects@) + found_objects(Seq::empty()) =~= objects_view(a.objects@));
        assert(string_arrays_view(a.string_arrays@) + found_string_arrays(Seq::empty()) =~= string_arrays_view(a.string_arrays@));
        assert(arrays_view(a.arrays@) + found_arrays(Seq::empty()) =~= arrays_view(a.arrays@));
        assert(imports_view(a.imports@) + found_imports(Seq::empty()) =~= imports_view(a.imports@));
    }

    proof fn lemma_found_one(f: Found)
        ensures
            found_objects(seq![f]) == match f { Found::Object(n, e, m, k) => seq![(n, e, m, k)], _ => Seq::empty() },
            found_string_arrays(seq![f]) == match f { Found::StringArray(n, e, m, v) => seq![(n, e, m, v)], _ => Seq::empty() },
            found_arrays(seq![f]) == match f { Found::Array(n, e, m, p) => seq![(n, e, m, p)], _ => Seq::empty() },
            found_imports(seq![f]) == match f { Found::Import(l, i, m) => seq![(l, i, m)], _ => Seq::empty() },
    {
        let e = Seq::<Found>::empty();
        assert(seq![f].drop_last() =~= e);
        assert(seq![f].last() == f);
        assert(found_objects(e) == Seq::<(Seq<char>, bool, bool, Seq<Seq<char>>)>::empty());
        assert(found_string_arrays(e) == Seq::<(Seq<char>, bool, bool, Seq<Seq<char>>)>::empty());
        assert(found_arrays(e) == Seq::<(Seq<char>, bool, bool, Map<Seq<char>, Seq<Seq<char>>>)>::empty());
        assert(found_imports(e) == Seq::<(Seq<char>, Seq<char>, Seq<char>)>::empty());
        match f {
            Found::Object(n, x, m, k) => {
                assert(found_objects(seq![f]) =~= seq![(n, x, m, k)]);
                assert(found_string_arrays(seq![f]) =~= Seq::empty());
                assert(found_arrays(seq![f]) =~= Seq::empty());
                assert(found_imports(seq![f]) =~= Seq::empty());
            },
            Found::StringArray(n, x, m, v) => {
                assert(found_objects(seq![f]) =~= Seq::empty());
                assert(found_string_arrays(seq![f]) =~= seq![(n, x, m, v)]);
                assert(found_arrays(seq![f]) =~= Seq::empty());
                assert(found_imports(seq![f]) =~= Seq::empty());
            },
            Found::Array(n, x, m, p) => {
                assert(found_objects(seq![f]) =~= Seq::empty());
                assert(found_string_arrays(seq![f]) =~= Seq::empty());
                assert(found_arrays(seq![f]) =~= seq![(n, x, m, p)]);
                assert(found_imports(seq![f]) =~= Seq::empty());
            },
            Found::Import(l, i, m) => {
                assert(found_objects(seq![f]) =~= Seq::empty());
                assert(found_string_arrays(seq![f]) =~= Seq::empty());
                assert(found_arrays(seq![f]) =~= Seq::empty());
                assert(found_imports(seq![f]) =~= seq![(l, i, m)]);
            },
        }
    }

    proof fn lemma_found_trans(a: Self, b: Self, c: Self, f: Seq<Found>, g: Seq<Found>)
        requires
            a.found_by(&b, f),
            b.found_by(&c, g),
        ensures
            a.found_by(&c, f + g),
    {
        lemma_found_append(f, g);
        assert(objects_view(c.objects@) =~= objects_view(a.objects@) + found_objects(f + g));
        assert(string_arrays_view(c.string_arrays@) =~= string_arrays_view(a.string_arrays@) + found_string_arrays(f + g));
        assert(arrays_view(c.arrays@) =~= arrays_view(a.arrays@) + found_arrays(f + g));
        assert(imports_view(c.imports@) =~= imports_view(a.imports@) + found_imports(f + g));
    }

    /// Collects the objects and arrays a declaration binds to plain names.
    #[verifier::loop_isolation(false)]
    fn check_var_decl(&mut self, node: &VarDecl, is_exported: bool, is_module_level: bool)
        requires
            old(self).wf(),
        ensures
            old(self).found_by(final(self), decls_found(node.decls@, is_exported, is_module_level)),
            final(self).imports == old(self).imports,
            final(self).translation_props == old(self).translation_props,
            final(self).translation_fn_calls == old(self).translation_fn_calls,
    {
        let ghost s0 = *self;
        proof {
            Self::lemma_found_none(s0, s0);
            assert(node.decls@.take(0) =~= Seq::<VarDeclarator>::empty());
        }
        let mut i: usize = 0;
        while i < node.decls.len()
            invariant
                i <= node.decls@.len(),
                s0.found_by(self, decls_found(node.decls@.take(i as int), is_exported, is_module_level)),
                self.imports == s0.imports,
                self.translation_props == s0.translation_props,
                self.translation_fn_calls == s0.translation_fn_calls,
            decreases node.decls@.len() - i,
        {
            let decl = &node.decls[i];
            let ghost m = *self;
            proof {
                assert(node.decls@.take(i + 1).drop_last() =~= node.decls@.take(i as int));
                assert(node.decls@.take(i + 1).last() == *decl);
            }
            match (&decl.name, &decl.init) {
                (Pat::Ident { name, .. }, Some(init)) => {
                    self.check_translation_binding(name, init);
                    let ghost m1 = *self;
                    proof { Self::lemma_found_none(m, m1); }
                    match unwrap_paren(init) {
                        Expr::Object(props) => {
                            match Self::extract_string_value(props) {
                                Some(candidate_keys) => {
                                    let ghost ev = Found::Object(name@, is_exported, is_module_level, strs_view(candidate_keys@));
                                    proof {
                                        assert(decl_found(*decl, is_exported, is_module_level) == seq![ev]);
                                        Self::lemma_found_one(ev);
                                    }
                                    self.objects.push(KeyObject {
                                        name: name.clone(),
                                        file_path: self.file_path.clone(),
                                        is_exported,
                                        is_module_level,
                                        candidate_keys,
                                    });
                                    proof {
                                        assert(objects_view(self.objects@) =~= objects_view(m1.objects@)
                                            + found_objects(decl_found(*decl, is_exported, is_module_level)));
                                        assert(string_arrays_view(self.string_arrays@) =~= string_arrays_view(m1.string_arrays@)
                                            + found_string_arrays(decl_found(*decl, is_exported, is_module_level)));
                                        assert(arrays_view(self.arrays@) =~= arrays_view(m1.arrays@)
                                            + found_arrays(decl_found(*decl, is_exported, is_module_level)));
                                        assert(imports_view(self.imports@) =~= imports_view(m1.imports@)
                                            + found_imports(decl_found(*decl, is_exported, is_module_level)));
                                    }
                                },
                                None => {
                                    proof { Self::lemma_found_none(m1, *self); }
                                },
                            }
                        },
                        Expr::Array(elems) => {
                            match Self::extract_string_array(elems) {
                                Some(values) => {
                                    let ghost ev = Found::StringArray(name@, is_exported, is_module_level, strs_view(values@));
                                    proof {
                                        assert(decl_found(*decl, is_exported, is_module_level) == seq![ev]);
                                        Self::lemma_found_one(ev);
                                    }
                                    self.string_arrays.push(StringArray {
                                        name: name.clone(),
                                        file_path: self.file_path.clone(),
                                        is_exported,
                                        is_module_level,
                                        values,
                                    });
                                    proof {
                                        assert(objects_view(self.objects@) =~= objects_view(m1.objects@)
                                            + found_objects(decl_found(*decl, is_exported, is_module_level)));
                                        assert(string_arrays_view(self.string_arrays@) =~= string_arrays_view(m1.string_arrays@)
                                            + found_string_arrays(decl_found(*decl, is_exported, is_module_level)));
                                        assert(arrays_view(self.arrays@) =~= arrays_view(m1.arrays@)
                                            + found_arrays(decl_found(*decl, is_exported, is_module_level)));
                                        assert(imports_view(self.imports@) =~= imports_view(m1.imports@)
                                            + found_imports(decl_found(*decl, is_exported, is_module_level)));
                                    }
                                },
                                None => {
                                    match Self::extract_array_properties(elems) {
                                        Some(property_values) => {
                                            proof {
                                                let k = property_values.spec_entries()[0].0@;
                                                assert(crate::strmap::has_key(property_values.spec_entries(), k));
                                                assert(property_values@.contains_key(k));
                                                assert(array_prop_values(elems@).dom().contains(k));
                                            }
                                            let ghost ev = Found::Array(name@, is_exported, is_module_level, array_prop_values(elems@));
                                            proof {
                                                assert(decl_found(*decl, is_exported, is_module_level) == seq![ev]);
                                                Self::lemma_found_one(ev);
                                            }
                                            self.arrays.push(KeyArray {
                                                name: name.clone(),
                                                file_path: self.file_path.clone(),
                                                is_exported,
                                                is_module_level,
                                                property_values,
                                            });
                                            proof {
                                                assert(objects_view(self.objects@) =~= objects_view(m1.objects@)
                                                    + found_objects(decl_found(*decl, is_exported, is_module_level)));
                                                assert(string_arrays_view(self.string_arrays@) =~= string_arrays_view(m1.string_arrays@)
                                                    + found_string_arrays(decl_found(*decl, is_exported, is_module_level)));
                                                assert(arrays_view(self.arrays@) =~= arrays_view(m1.arrays@)
                                                    + found_arrays(decl_found(*decl, is_exported, is_module_level)));
                                                assert(imports_view(self.imports@) =~= imports_view(m1.imports@)
                                                    + found_imports(decl_found(*decl, is_exported, is_module_level)));
                                            }
                                        },
                                        None => {
                                            proof { Self::lemma_found_none(m1, *self); }
                                        },
                                    }
                                },
                            }
                        },
                        _ => {
                            proof { Self::lemma_found_none(m1, *self); }
                        },
                    }
                    proof {
                        Self::lemma_found_trans(m, m1, *self, Seq::empty(), decl_found(*decl, is_exported, is_module_level));
                        assert(Seq::<Found>::empty() + decl_found(*decl, is_exported, is_module_level)
                            =~= decl_found(*decl, is_exported, is_module_level));
                    }
                },
                _ => {
                    proof { Self::lemma_found_none(m, *self); }
                },
            }
            proof {
                Self::lemma_found_trans(s0, m, *self, decls_found(node.decls@.take(i as int), is_exported, is_module_level),
                    decl_found(*decl, is_exported, is_module_level));
            }
            i = i + 1;
        }
        proof { assert(node.decls@.take(node.decls@.len() as int) =~= node.decls@); }
    }

    /// Records the bindings an import declaration makes.
    #[verifier::loop_isolation(false)]
    fn visit_import_decl(&mut self, node: &ImportDecl)
        requires
            old(self).wf(),
        ensures
            old(self).found_by(final(self), import_found(*node)),
            final(self).translation_props == old(self).translation_props,
            final(self).translation_fn_calls == old(self).translation_fn_calls,
    {
        let ghost s0 = *self;
        match &node.src {
            Some(module_src) => {
                let mut i: usize = 0;
                while i < node.specifiers.len()
                    invariant
                        i <= node.specifiers@.len(),
                        s0.kept(self),
                        self.objects == s0.objects,
                        self.arrays == s0.arrays,
                        self.string_arrays == s0.string_arrays,
                        self.translation_props == s0.translation_props,
                        self.translation_fn_calls == s0.translation_fn_calls,
                        imports_view(self.imports@) == imports_view(s0.imports@)
                            + node.specifiers@.take(i as int).map_values(|sp: ImportSpecifier| import_triple(sp, module_src@)),
                    decreases node.specifiers@.len() - i,
                {
                    let info = match &node.specifiers[i] {
                        ImportSpecifier::Named { local, imported } => ImportInfo {
                            local_name: local.clone(),
                            imported_name: match imported {
                                Some(n) => n.clone(),
                                None => local.clone(),
                            },
                            module_specifier: module_src.clone(),
                        },
                        ImportSpecifier::Default(local) => ImportInfo {
                            local_name: local.clone(),
                            imported_name: text("default"),
                            module_specifier: module_src.clone(),
                        },
                        ImportSpecifier::Namespace(local) => ImportInfo {
                            local_name: local.clone(),
                            imported_name: text("*"),
                            module_specifier: module_src.clone(),
                        },
                    };
                    let ghost before = imports_view(self.imports@);
                    self.imports.push(info);
                    proof {
                        assert(node.specifiers@.take(i + 1).map_values(|sp: ImportSpecifier| import_triple(sp, module_src@))
                            =~= node.specifiers@.take(i as int).map_values(|sp: ImportSpecifier| import_triple(sp, module_src@))
                                .push(import_triple(node.specifiers@[i as int], module_src@)));
                        assert(imports_view(self.imports@) =~= before.push(import_triple(node.specifiers@[i as int], module_src@)));
                    }
                    i = i + 1;
                }
                proof {
                    assert(node.specifiers@.take(node.specifiers@.len() as int) =~= node.specifiers@);
                    lemma_import_found(node.specifiers@, module_src@);
                    assert(objects_view(self.objects@) =~= objects_view(s0.objects@) + found_objects(import_found(*node)));
                    assert(string_arrays_view(self.string_arrays@) =~= string_arrays_view(s0.string_arrays@) + found_string_arrays(import_found(*node)));
                    assert(arrays_view(self.arrays@) =~= arrays_view(s0.arrays@) + found_arrays(import_found(*node)));
                }
            },
            None => {
                proof { Self::lemma_found_none(s0, *self); }
            },
        }
    }

    pub(crate) fn jsx_member_name(m: &JSXMemberExpr) -> (r: String)
        ensures
            r@ == spec_jsx_member_name(*m),
        decreases m,
    {
        match &m.obj {
            JSXObject::Ident(o) => concat3(o.as_str(), ".", m.prop.as_str()),
            JSXObject::Member(inner) => {
                let n = Self::jsx_member_name(inner);
                concat3(n.as_str(), ".", m.prop.as_str())
            },
        }
    }

    fn find_prop(&self, component_name: &String, prop_name: &String) -> (r: Option<usize>)
        ensures
            match r {
                Some(i) => i < self.translation_props@.len()
                    && self.translation_props@[i as int].component_name@ == component_name@
                    && self.translation_props@[i as int].prop_name@ == prop_name@,
                None => forall|k: int| 0 <= k < self.translation_props@.len() ==>
                    !((#[trigger] self.translation_props@[k]).component_name@ == component_name@
                    && self.translation_props@[k].prop_name@ == prop_name@),
            },
    {
        let mut i: usize = 0;
        while i < self.translation_props.len()
            invariant
                i <= self.translation_props@.len(),
                forall|k: int| 0 <= k < i ==> !((#[trigger] self.translation_props@[k]).component_name@ == component_name@
                    && self.translation_props@[k].prop_name@ == prop_name@),
            decreases self.translation_props@.len() - i,
        {
            if str_eq(self.translation_props[i].component_name.as_str(), component_name.as_str())
                && str_eq(self.translation_props[i].prop_name.as_str(), prop_name.as_str()) {
                return Some(i);
            }
            i = i + 1;
        }
        None
    }

    /// Adds a namespace to the prop `component.prop` (unless it is there
    /// already), or a new entry for it.
    fn add_or_update_translation_prop(&mut self, component_name: &String, prop_name: &String, namespace: Option<String>)
        requires
            old(self).wf(),
        ensures
            old(self).kept(final(self)),
            final(self).objects == old(self).objects,
            final(self).arrays == old(self).arrays,
            final(self).string_arrays == old(self).string_arrays,
            final(self).imports == old(self).imports,
            final(self).translation_fn_calls == old(self).translation_fn_calls,
            exists|i: int| 0 <= i < final(self).translation_props@.len()
                && (#[trigger] final(self).translation_props@[i]).component_name@ == component_name@
                && final(self).translation_props@[i].prop_name@ == prop_name@
                && has_namespace(final(self).translation_props@[i].namespaces@, namespace),
    {
        match self.find_prop(component_name, prop_name) {
            Some(i) => {
                let mut namespaces = crate::text::clone_opt_strings(&self.translation_props[i].namespaces);
                if !contains_namespace(&namespaces, &namespace) {
                    namespaces.push(namespace);
                    assert(opt_view(namespaces@.last()) == opt_view(namespace));
                }
                let entry = TranslationProp {
                    component_name: self.translation_props[i].component_name.clone(),
                    prop_name: self.translation_props[i].prop_name.clone(),
                    namespaces,
                };
                self.translation_props.set(i, entry);
                assert(self.translation_props@[i as int].component_name@ == component_name@);
            },
            None => {
                let mut namespaces: Vec<Option<String>> = Vec::new();
                namespaces.push(namespace);
                assert(opt_view(namespaces@[0]) == opt_view(namespace));
                self.translation_props.push(TranslationProp {
                    component_name: component_name.clone(),
                    prop_name: prop_name.clone(),
                    namespaces,
                });
                assert(self.translation_props@[self.translation_props@.len() - 1].component_name@ == component_name@);
            },
        }
    }

    /// `call` is the entry of argument `arg_index` of `file.fn`.
    pub open spec fn fn_call_is(&self, call: TranslationFnCall, fn_file_path: Seq<char>, fn_name: Seq<char>, arg_index: usize) -> bool {
        call.fn_file_path@ == fn_file_path && call.fn_name@ == fn_name && call.arg_index == arg_index
    }

    fn find_fn_call(&self, fn_file_path: &String, fn_name: &String, arg_index: usize) -> (r: Option<usize>)
        ensures
            match r {
                Some(i) => i < self.translation_fn_calls@.len()
                    && self.translation_fn_calls@[i as int].fn_file_path@ == fn_file_path@
                    && self.translation_fn_calls@[i as int].fn_name@ == fn_name@
                    && self.translation_fn_calls@[i as int].arg_index == arg_index
                    && forall|k: int| 0 <= k < i ==> !self.fn_call_is(#[trigger] self.translation_fn_calls@[k], fn_file_path@, fn_name@, arg_index),
                None => forall|k: int| 0 <= k < self.translation_fn_calls@.len()
                    ==> !self.fn_call_is(#[trigger] self.translation_fn_calls@[k], fn_file_path@, fn_name@, arg_index),
            },
    {
        let mut i: usize = 0;
        while i < self.translation_fn_calls.len()
            invariant
                i <= self.translation_fn_calls@.len(),
                forall|k: int| 0 <= k < i ==> !self.fn_call_is(#[trigger] self.translation_fn_calls@[k], fn_file_path@, fn_name@, arg_index),
            decreases self.translation_fn_calls@.len() - i,
        {
            if str_eq(self.translation_fn_calls[i].fn_file_path.as_str(), fn_file_path.as_str())
                && str_eq(self.translation_fn_calls[i].fn_name.as_str(), fn_name.as_str())
                && self.translation_fn_calls[i].arg_index == arg_index {
                return Some(i);
            }
            i = i + 1;
        }
        None
    }

    /// Adds a namespace to the argument `file.fn.index` (unless it is there
    /// already), or a new entry for it.
    fn add_or_update_translation_fn_call(&mut self, fn_file_path: &String, fn_name: &String, arg_index: usize, namespace: Option<String>)
        requires
            old(self).wf(),
        ensures
            old(self).kept(final(self)),
            final(self).objects == old(self).objects,
            final(self).arrays == old(self).arrays,
            final(self).string_arrays == old(self).string_arrays,
            final(self).imports == old(self).imports,
            final(self).translation_props == old(self).translation_props,
            exists|i: int| 0 <= i < final(self).translation_fn_calls@.len()
                && (#[trigger] final(self).translation_fn_calls@[i]).fn_file_path@ == fn_file_path@
                && final(self).translation_fn_calls@[i].fn_name@ == fn_name@
                && final(self).translation_fn_calls@[i].arg_index == arg_index
                && has_namespace(final(self).translation_fn_calls@[i].namespaces@, namespace),
    {
        match self.find_fn_call(fn_file_path, fn_name, arg_index) {
            Some(i) => {
                let mut namespaces = crate::text::clone_opt_strings(&self.translation_fn_calls[i].namespaces);
                if !contains_namespace(&namespaces, &namespace) {
                    namespaces.push(namespace);
                    assert(opt_view(namespaces@.last()) == opt_view(namespace));
                }
                let entry = TranslationFnCall {
                    fn_file_path: self.translation_fn_calls[i].fn_file_path.clone(),
                    fn_name: self.translation_fn_calls[i].fn_name.clone(),
                    arg_index,
                    namespaces,
                };
                self.translation_fn_calls.set(i, entry);
                assert(self.translation_fn_calls@[i as int].fn_name@ == fn_name@);
            },
            None => {
                let mut namespaces: Vec<Option<String>> = Vec::new();
                namespaces.push(namespace);
                assert(opt_view(namespaces@[0]) == opt_view(namespace));
                self.translation_fn_calls.push(TranslationFnCall {
                    fn_file_path: fn_file_path.clone(),
                    fn_name: fn_name.clone(),
                    arg_index,
                    namespaces,
                });
                assert(self.translation_fn_calls@[self.translation_fn_calls@.len() - 1].fn_name@ == fn_name@);
            },
        }
    }

    /// Where a called function is defined: the file its import resolves to,
    /// or this file.
    fn resolve_fn_definition_path(&self, fn_name: &str) -> (r: String)
        ensures
            r@ == match crate::value_analyzer::first_import_from(self.imports@, 0, fn_name@) {
                i => if i >= 0 {
                    match crate::key_objects::spec_resolve_import_path(self.file_path@, self.imports@[i].module_specifier@, self.existing_files@) {
                        Some(p) => p,
                        None => self.file_path@,
                    }
                } else {
                    self.file_path@
                },
            },
    {
        let mut i: usize = 0;
        while i < self.imports.len()
            invariant
                i <= self.imports@.len(),
                crate::value_analyzer::first_import_from(self.imports@, 0, fn_name@)
                    == crate::value_analyzer::first_import_from(self.imports@, i as int, fn_name@),
            decreases self.imports@.len() - i,
        {
            if str_eq(self.imports[i].local_name.as_str(), fn_name) {
                return match resolve_import_path(self.file_path.as_str(), self.imports[i].module_specifier.as_str(), &self.existing_files) {
                    Some(p) => p,
                    None => self.file_path.clone(),
                };
            }
            i = i + 1;
        }
        self.file_path.clone()
    }

    /// Walks a module: collects what [`ko_stmts`] gives, from module level.
    pub fn visit_module(&mut self, m: &Module)
        requires
            old(self).wf(),
        ensures
            old(self).found_by(final(self), ko_stmts(m.body@, old(self).scope_depth)),
    {
        self.visit_stmts(&m.body);
    }

    #[verifier::loop_isolation(false)]
    fn visit_stmts(&mut self, v: &Vec<Stmt>)
        requires
            old(self).wf(),
        ensures
            old(self).found_by(final(self), ko_stmts(v@, old(self).scope_depth)),
        decreases v, 0nat,
    {
        let ghost s0 = *self;
        let ghost d = self.scope_depth;
        proof { Self::lemma_found_none(s0, s0); }
        let mut i: usize = 0;
        while i < v.len()
            invariant
                i <= v@.len(),
                s0.found_by(self, ko_stmts(v@.take(i as int), d)),
            decreases v@.len() - i,
        {
            proof { assert(decreases_to!(v => v@[i as int])); }
            let ghost m = *self;
            self.visit_stmt(&v[i]);
            proof {
                Self::lemma_found_trans(s0, m, *self, ko_stmts(v@.take(i as int), d), ko_stmt(v@[i as int], d));
                assert(v@.take(i + 1).drop_last() =~= v@.take(i as int));
            }
            i = i + 1;
        }
        proof { assert(v@.take(v@.len() as int) =~= v@); }
    }

    fn visit_stmt(&mut self, st: &Stmt)
        requires
            old(self).wf(),
        ensures
            old(self).found_by(final(self), ko_stmt(*st, old(self).scope_depth)),
        decreases st, 0nat,
    {
        let ghost s0 = *self;
        match st {
            Stmt::Expr(e) => self.visit_expr(e),
            Stmt::Var(v) => self.visit_var_decl(v),
            Stmt::Fn(f) => self.visit_function(&f.function),
            Stmt::Import(d) => self.visit_import_decl(d),
            Stmt::ExportDecl(d) => match d {
                Decl::Var(v) => {
                    let module_level = self.scope_depth == 0;
                    self.check_var_decl(v, true, module_level);
                },
                Decl::Fn(f) => self.visit_function(&f.function),
                Decl::Other(children) => self.visit_stmts(children),
            },
            Stmt::ExportDefaultFn(d) => self.visit_function(&d.function),
            Stmt::ExportDefaultExpr(e) => self.visit_expr(e),
            Stmt::ExportDefaultClass { body, .. } => self.visit_stmts(body),
            Stmt::Other(children) => self.visit_stmts(children),
        }
    }

    fn visit_var_decl(&mut self, v: &VarDecl)
        requires
            old(self).wf(),
        ensures
            old(self).found_by(final(self), decls_found(v.decls@, false, old(self).scope_depth == 0)
                + ko_decls(v.decls@, old(self).scope_depth)),
        decreases v, 1nat,
    {
        let ghost s0 = *self;
        let module_level = self.scope_depth == 0;
        self.check_var_decl(v, false, module_level);
        let ghost s1 = *self;
        self.visit_declarators(v);
        proof {
            Self::lemma_found_trans(s0, s1, *self, decls_found(v.decls@, false, module_level), ko_decls(v.decls@, s0.scope_depth));
        }
    }

    #[verifier::loop_isolation(false)]
    fn visit_declarators(&mut self, v: &VarDecl)
        requires
            old(self).wf(),
        ensures
            old(self).found_by(final(self), ko_decls(v.decls@, old(self).scope_depth)),
        decreases v, 0nat,
    {
        let ghost s0 = *self;
        let ghost d = self.scope_depth;
        proof { Self::lemma_found_none(s0, s0); }
        let mut i: usize = 0;
        while i < v.decls.len()
            invariant
                i <= v.decls@.len(),
                s0.found_by(self, ko_decls(v.decls@.take(i as int), d)),
            decreases v.decls@.len() - i,
        {
            proof { assert(decreases_to!(v.decls => v.decls@[i as int])); }
            let ghost m = *self;
            let dc = &v.decls[i];
            self.visit_pat(&dc.name);
            let ghost m2 = *self;
            match &dc.init {
                Some(init) => self.visit_expr(init),
                None => { proof { Self::lemma_found_none(m2, m2); } },
            }
            proof {
                Self::lemma_found_trans(m, m2, *self, ko_pat(dc.name, d), ko_opt(dc.init, d));
                Self::lemma_found_trans(s0, m, *self, ko_decls(v.decls@.take(i as int), d), ko_pat(dc.name, d) + ko_opt(dc.init, d));
                assert(v.decls@.take(i + 1).drop_last() =~= v.decls@.take(i as int));
                assert(ko_decls(v.decls@.take(i + 1), d) =~= ko_decls(v.decls@.take(i as int), d) + (ko_pat(dc.name, d) + ko_opt(dc.init, d)));
            }
            i = i + 1;
        }
        proof { assert(v.decls@.take(v.decls@.len() as int) =~= v.decls@); }
    }

    /// A function: one level deeper, with a binding scope of its own.
    fn visit_function(&mut self, f: &Function)
        requires
            old(self).wf(),
        ensures
            old(self).found_by(final(self), ko_fn(*f, old(self).scope_depth)),
        decreases f, 0nat,
    {
        let ghost s0 = *self;
        if self.scope_depth == usize::MAX {
            proof { Self::lemma_found_none(s0, s0); }
            return;
        }
        self.scope_depth = self.scope_depth + 1;
        self.enter_binding_scope();
        let ghost s1 = *self;
        assert(s1.translation_bindings_stack@.len() == s1.spec_bindings().len());
        assert(s0.translation_bindings_stack@.len() == s0.spec_bindings().len());
        self.visit_pats(&f.params);
        let ghost s2 = *self;
        self.visit_stmts(&f.body);
        proof {
            Self::lemma_found_trans(s1, s2, *self, ko_pats(f.params@, s1.scope_depth), ko_stmts(f.body@, s1.scope_depth));
        }
        self.exit_binding_scope();
        self.scope_depth = self.scope_depth - 1;
        assert(self.translation_bindings_stack@.len() == self.spec_bindings().len());
    }

    /// An arrow function: one level deeper, with a binding scope of its own.
    fn visit_arrow(&mut self, a: &ArrowExpr)
        requires
            old(self).wf(),
        ensures
            old(self).found_by(final(self), ko_arrow(*a, old(self).scope_depth)),
        decreases a, 0nat,
    {
        let ghost s0 = *self;
        if self.scope_depth == usize::MAX {
            proof { Self::lemma_found_none(s0, s0); }
            return;
        }
        self.scope_depth = self.scope_depth + 1;
        self.enter_binding_scope();
        let ghost s1 = *self;
        assert(s1.translation_bindings_stack@.len() == s1.spec_bindings().len());
        assert(s0.translation_bindings_stack@.len() == s0.spec_bindings().len());
        self.visit_pats(&a.params);
        let ghost s2 = *self;
        self.visit_stmts(&a.body);
        proof {
            Self::lemma_found_trans(s1, s2, *self, ko_pats(a.params@, s1.scope_depth), ko_stmts(a.body@, s1.scope_depth));
        }
        self.exit_binding_scope();
        self.scope_depth = self.scope_depth - 1;
        assert(self.translation_bindings_stack@.len() == self.spec_bindings().len());
    }

    #[verifier::loop_isolation(false)]
    fn visit_pats(&mut self, v: &Vec<Pat>)
        requires
            old(self).wf(),
        ensures
            old(self).found_by(final(self), ko_pats(v@, old(self).scope_depth)),
        decreases v, 0nat,
    {
        let ghost s0 = *self;
        let ghost d = self.scope_depth;
        proof { Self::lemma_found_none(s0, s0); }
        let mut i: usize = 0;
        while i < v.len()
            invariant
                i <= v@.len(),
                s0.found_by(self, ko_pats(v@.take(i as int), d)),
            decreases v@.len() - i,
        {
            proof { assert(decreases_to!(v => v@[i as int])); }
            let ghost m = *self;
            self.visit_pat(&v[i]);
            proof {
                Self::lemma_found_trans(s0, m, *self, ko_pats(v@.take(i as int), d), ko_pat(v@[i as int], d));
                assert(v@.take(i + 1).drop_last() =~= v@.take(i as int));
            }
            i = i + 1;
        }
        proof { assert(v@.take(v@.len() as int) =~= v@); }
    }

    #[verifier::loop_isolation(false)]
    fn visit_pat(&mut self, p: &Pat)
        requires
            old(self).wf(),
        ensures
            old(self).found_by(final(self), ko_pat(*p, old(self).scope_depth)),
        decreases p, 0nat,
    {
        let ghost s0 = *self;
        let ghost d = self.scope_depth;
        match p {
            Pat::Ident { .. } => { proof { Self::lemma_found_none(s0, s0); } },
            Pat::Object(props) => {
                proof { Self::lemma_found_none(s0, s0); }
                let mut i: usize = 0;
                while i < props.len()
                    invariant
                        i <= props@.len(),
                        s0.found_by(self, ko_opps(props@.take(i as int), d)),
                    decreases props@.len() - i,
                {
                    proof { assert(decreases_to!(props => props@[i as int])); }
                    let ghost m = *self;
                    match &props[i] {
                        ObjectPatProp::KeyValue { key, value } => {
                            self.visit_prop_name(key);
                            let ghost m2 = *self;
                            self.visit_pat(value);
                            proof { Self::lemma_found_trans(m, m2, *self, ko_prop_name(*key, d), ko_pat(*value, d)); }
                        },
                        ObjectPatProp::Assign { value, .. } => {
                            match value {
                                Some(e) => self.visit_expr(e),
                                None => { proof { Self::lemma_found_none(m, m); } },
                            }
                        },
                        ObjectPatProp::Rest(q) => self.visit_pat(q),
                    }
                    proof {
                        let item = match props@[i as int] {
                            ObjectPatProp::KeyValue { key, value } => ko_prop_name(key, d) + ko_pat(value, d),
                            ObjectPatProp::Assign { value, .. } => ko_opt(value, d),
                            ObjectPatProp::Rest(q) => ko_pat(q, d),
                        };
                        Self::lemma_found_trans(s0, m, *self, ko_opps(props@.take(i as int), d), item);
                        assert(props@.take(i + 1).drop_last() =~= props@.take(i as int));
                    }
                    i = i + 1;
                }
                proof { assert(props@.take(props@.len() as int) =~= props@); }
            },
            Pat::Assign { left, right } => {
                self.visit_pat(left);
                let ghost m = *self;
                self.visit_expr(right);
                proof { Self::lemma_found_trans(s0, m, *self, ko_pat(**left, d), ko_expr(**right, d)); }
            },
            Pat::Array(elems) => {
                proof { Self::lemma_found_none(s0, s0); }
                let mut i: usize = 0;
                while i < elems.len()
                    invariant
                        i <= elems@.len(),
                        s0.found_by(self, ko_opats(elems@.take(i as int), d)),
                    decreases elems@.len() - i,
                {
                    proof { assert(decreases_to!(elems => elems@[i as int])); }
                    let ghost m = *self;
                    match &elems[i] {
                        Some(q) => self.visit_pat(q),
                        None => { proof { Self::lemma_found_none(m, m); } },
                    }
                    proof {
                        let item = match elems@[i as int] {
                            Some(q) => ko_pat(q, d),
                            None => Seq::empty(),
                        };
                        Self::lemma_found_trans(s0, m, *self, ko_opats(elems@.take(i as int), d), item);
                        assert(elems@.take(i + 1).drop_last() =~= elems@.take(i as int));
                    }
                    i = i + 1;
                }
                proof { assert(elems@.take(elems@.len() as int) =~= elems@); }
            },
            Pat::Rest(q) => self.visit_pat(q),
            Pat::Other(children) => self.visit_stmts(children),
        }
    }

    fn visit_prop_name(&mut self, k: &PropName)
        requires
            old(self).wf(),
        ensures
            old(self).found_by(final(self), ko_prop_name(*k, old(self).scope_depth)),
        decreases k, 0nat,
    {
        let ghost s0 = *self;
        match k {
            PropName::Other(children) => self.visit_stmts(children),
            _ => { proof { Self::lemma_found_none(s0, s0); } },
        }
    }

    #[verifier::loop_isolation(false)]
    fn visit_exprs(&mut self, v: &Vec<Expr>)
        requires
            old(self).wf(),
        ensures
            old(self).found_by(final(self), ko_exprs(v@, old(self).scope_depth)),
        decreases v, 0nat,
    {
        let ghost s0 = *self;
        let ghost d = self.scope_depth;
        proof { Self::lemma_found_none(s0, s0); }
        let mut i: usize = 0;
        while i < v.len()
            invariant
                i <= v@.len(),
                s0.found_by(self, ko_exprs(v@.take(i as int), d)),
            decreases v@.len() - i,
        {
            proof { assert(decreases_to!(v => v@[i as int])); }
            let ghost m = *self;
            self.visit_expr(&v[i]);
            proof {
                Self::lemma_found_trans(s0, m, *self, ko_exprs(v@.take(i as int), d), ko_expr(v@[i as int], d));
                assert(v@.take(i + 1).drop_last() =~= v@.take(i as int));
            }
            i = i + 1;
        }
        proof { assert(v@.take(v@.len() as int) =~= v@); }
    }

    #[verifier::loop_isolation(false)]
    fn visit_args(&mut self, v: &Vec<ExprOrSpread>)
        requires
            old(self).wf(),
        ensures
            old(self).found_by(final(self), ko_args(v@, old(self).scope_depth)),
        decreases v, 0nat,
    {
        let ghost s0 = *self;
        let ghost d = self.scope_depth;
        proof { Self::lemma_found_none(s0, s0); }
        let mut i: usize = 0;
        while i < v.len()
            invariant
                i <= v@.len(),
                s0.found_by(self, ko_args(v@.take(i as int), d)),
            decreases v@.len() - i,
        {
            proof { assert(decreases_to!(v => v@[i as int])); }
            let ghost m = *self;
            self.visit_expr(&v[i].expr);
            proof {
                Self::lemma_found_trans(s0, m, *self, ko_args(v@.take(i as int), d), ko_expr(v@[i as int].expr, d));
                assert(v@.take(i + 1).drop_last() =~= v@.take(i as int));
            }
            i = i + 1;
        }
        proof { assert(v@.take(v@.len() as int) =~= v@); }
    }

    #[verifier::loop_isolation(false)]
    fn visit_props(&mut self, v: &Vec<PropOrSpread>)
        requires
            old(self).wf(),
        ensures
            old(self).found_by(final(self), ko_props(v@, old(self).scope_depth)),
        decreases v, 0nat,
    {
        let ghost s0 = *self;
        let ghost d = self.scope_depth;
        proof { Self::lemma_found_none(s0, s0); }
        let mut i: usize = 0;
        while i < v.len()
            invariant
                i <= v@.len(),
                s0.found_by(self, ko_props(v@.take(i as int), d)),
            decreases v@.len() - i,
        {
            proof { assert(decreases_to!(v => v@[i as int])); }
            let ghost m = *self;
            match &v[i] {
                PropOrSpread::Spread(e) => self.visit_expr(e),
                PropOrSpread::KeyValue { key, value } => {
                    self.visit_prop_name(key);
                    let ghost m2 = *self;
                    self.visit_expr(value);
                    proof { Self::lemma_found_trans(m, m2, *self, ko_prop_name(*key, d), ko_expr(*value, d)); }
                },
                PropOrSpread::Shorthand(_) => { proof { Self::lemma_found_none(m, m); } },
                PropOrSpread::Method { key, function } => {
                    self.visit_prop_name(key);
                    let ghost m2 = *self;
                    self.visit_function(function);
                    proof { Self::lemma_found_trans(m, m2, *self, ko_prop_name(*key, d), ko_fn(*function, d)); }
                },
                PropOrSpread::Other(children) => self.visit_stmts(children),
            }
            proof {
                let item = match v@[i as int] {
                    PropOrSpread::Spread(e) => ko_expr(e, d),
                    PropOrSpread::KeyValue { key, value } => ko_prop_name(key, d) + ko_expr(value, d),
                    PropOrSpread::Shorthand(_) => Seq::empty(),
                    PropOrSpread::Method { key, function } => ko_prop_name(key, d) + ko_fn(function, d),
                    PropOrSpread::Other(c) => ko_stmts(c@, d),
                };
                Self::lemma_found_trans(s0, m, *self, ko_props(v@.take(i as int), d), item);
                assert(v@.take(i + 1).drop_last() =~= v@.take(i as int));
            }
            i = i + 1;
        }
        proof { assert(v@.take(v@.len() as int) =~= v@); }
    }

    #[verifier::loop_isolation(false)]
    fn visit_expr(&mut self, e: &Expr)
        requires
            old(self).wf(),
        ensures
            old(self).found_by(final(self), ko_expr(*e, old(self).scope_depth)),
        decreases e, 0nat,
    {
        let ghost s0 = *self;
        let ghost d = self.scope_depth;
        match e {
            Expr::Ident(_) => { proof { Self::lemma_found_none(s0, s0); } },
            Expr::Str(..) => { proof { Self::lemma_found_none(s0, s0); } },
            Expr::Num(_) => { proof { Self::lemma_found_none(s0, s0); } },
            Expr::Tpl(t) => self.visit_exprs(&t.exprs),
            Expr::Cond { test, cons, alt } => {
                self.visit_expr(test);
                let ghost m1 = *self;
                self.visit_expr(cons);
                let ghost m2 = *self;
                self.visit_expr(alt);
                proof {
                    Self::lemma_found_trans(s0, m1, m2, ko_expr(**test, d), ko_expr(**cons, d));
                    Self::lemma_found_trans(s0, m2, *self, ko_expr(**test, d) + ko_expr(**cons, d), ko_expr(**alt, d));
                }
            },
            Expr::Bin { left, right, .. } => {
                self.visit_expr(left);
                let ghost m1 = *self;
                self.visit_expr(right);
                proof { Self::lemma_found_trans(s0, m1, *self, ko_expr(**left, d), ko_expr(**right, d)); }
            },
            Expr::Paren(x) => self.visit_expr(x),
            Expr::TsAs(x) => self.visit_expr(x),
            Expr::TsConst(x) => self.visit_expr(x),
            Expr::TsSatisfies(x) => self.visit_expr(x),
            Expr::Await(x) => self.visit_expr(x),
            Expr::Call(c) => self.visit_call_expr(c),
            Expr::Member { obj, prop } => {
                self.visit_expr(obj);
                let ghost m1 = *self;
                match prop {
                    MemberProp::Computed(k) => self.visit_expr(k),
                    _ => { proof { Self::lemma_found_none(m1, m1); } },
                }
                proof {
                    let tail = match prop {
                        MemberProp::Computed(k) => ko_expr(**k, d),
                        _ => Seq::empty(),
                    };
                    Self::lemma_found_trans(s0, m1, *self, ko_expr(**obj, d), tail);
                }
            },
            Expr::Arrow(a) => self.visit_arrow(a),
            Expr::Fn(f) => self.visit_function(f),
            Expr::Object(props) => self.visit_props(props),
            Expr::Array(elems) => {
                proof { Self::lemma_found_none(s0, s0); }
                let mut i: usize = 0;
                while i < elems.len()
                    invariant
                        i <= elems@.len(),
                        s0.found_by(self, ko_oargs(elems@.take(i as int), d)),
                    decreases elems@.len() - i,
                {
                    proof { assert(decreases_to!(elems => elems@[i as int])); }
                    let ghost m = *self;
                    match &elems[i] {
                        Some(x) => self.visit_expr(&x.expr),
                        None => { proof { Self::lemma_found_none(m, m); } },
                    }
                    proof {
                        let item = match elems@[i as int] {
                            Some(x) => ko_expr(x.expr, d),
                            None => Seq::empty(),
                        };
                        Self::lemma_found_trans(s0, m, *self, ko_oargs(elems@.take(i as int), d), item);
                        assert(elems@.take(i + 1).drop_last() =~= elems@.take(i as int));
                    }
                    i = i + 1;
                }
                proof { assert(elems@.take(elems@.len() as int) =~= elems@); }
            },
            Expr::JSXElement(el) => self.visit_jsx_element(el),
            Expr::JSXFragment(children) => self.visit_jsx_children(children),
            Expr::Other { children, .. } => self.visit_stmts(children),
        }
    }

    /// A call `f(t)` with a tracked translation function `t` as an argument
    /// records the argument position of `f` (hook calls themselves are skipped).
    #[verifier::loop_isolation(false)]
    fn visit_call_expr(&mut self, c: &CallExpr)
        requires
            old(self).wf(),
        ensures
            old(self).found_by(final(self), ko_call(*c, old(self).scope_depth)),
        decreases c, 0nat,
    {
        let ghost s0 = *self;
        let ghost d = self.scope_depth;
        match &c.callee {
            Some(callee) => match &**callee {
                Expr::Ident(fn_name) => {
                    if !is_translation_hook(fn_name.as_str()) {
                        let fn_file_path = self.resolve_fn_definition_path(fn_name.as_str());
                        let mut idx: usize = 0;
                        while idx < c.args.len()
                            invariant
                                idx <= c.args@.len(),
                                s0.kept(self),
                                self.objects == s0.objects,
                                self.arrays == s0.arrays,
                                self.string_arrays == s0.string_arrays,
                                self.imports == s0.imports,
                            decreases c.args@.len() - idx,
                        {
                            match &c.args[idx].expr {
                                Expr::Ident(v) => {
                                    match self.get_translation_binding(v.as_str()) {
                                        Some(ns) => {
                                            let ghost m = *self;
                                            self.add_or_update_translation_fn_call(&fn_file_path, fn_name, idx, ns);
                                            proof { Self::lemma_kept_trans(s0, m, *self); }
                                        },
                                        None => {},
                                    }
                                },
                                _ => {},
                            }
                            idx = idx + 1;
                        }
                    }
                },
                _ => {},
            },
            None => {},
        }
        let ghost s1 = *self;
        proof { Self::lemma_found_none(s0, s1); }
        match &c.callee {
            Some(callee) => {
                proof { assert(decreases_to!(c => **callee)); }
                self.visit_expr(callee);
            },
            None => { proof { Self::lemma_found_none(s1, s1); } },
        }
        let ghost s2 = *self;
        let ghost head = match &c.callee {
            Some(x) => ko_expr(**x, d),
            None => Seq::<Found>::empty(),
        };
        self.visit_args(&c.args);
        proof {
            Self::lemma_found_trans(s1, s2, *self, head, ko_args(c.args@, d));
            Self::lemma_found_trans(s0, s1, *self, Seq::empty(), head + ko_args(c.args@, d));
            assert(Seq::<Found>::empty() + (head + ko_args(c.args@, d)) =~= ko_call(*c, d));
        }
    }

    /// `<Comp t={t} />` with a tracked translation function `t` records the
    /// prop `t` of `Comp` (components only: an uppercase name or a member name).
    #[verifier::loop_isolation(false)]
    fn visit_jsx_element(&mut self, el: &JSXElement)
        requires
            old(self).wf(),
        ensures
            old(self).found_by(final(self), ko_element(*el, old(self).scope_depth)),
        decreases el, 0nat,
    {
        let ghost s0 = *self;
        let ghost d = self.scope_depth;
        let component_name: Option<String> = match &el.name {
            JSXElementName::Ident(name) => {
                let chars = crate::text::chars_of(name.as_str());
                if chars.len() > 0 && char_is_uppercase(chars[0]) { Some(name.clone()) } else { None }
            },
            JSXElementName::Member(m) => Some(Self::jsx_member_name(m)),
            JSXElementName::Namespaced(..) => None,
        };
        match &component_name {
            Some(comp) => {
                let mut i: usize = 0;
                while i < el.attrs.len()
                    invariant
                        i <= el.attrs@.len(),
                        s0.kept(self),
                        self.objects == s0.objects,
                        self.arrays == s0.arrays,
                        self.string_arrays == s0.string_arrays,
                        self.imports == s0.imports,
                    decreases el.attrs@.len() - i,
                {
                    match &el.attrs[i] {
                        JSXAttrOrSpread::Attr(a) => {
                            match (&a.name, &a.value) {
                                (JSXAttrName::Ident(prop), Some(JSXAttrValue::Container(Some(Expr::Ident(v))))) => {
                                    match self.get_translation_binding(v.as_str()) {
                                        Some(ns) => {
                                            let ghost m = *self;
                                            self.add_or_update_translation_prop(comp, prop, ns);
                                            proof { Self::lemma_kept_trans(s0, m, *self); }
                                        },
                                        None => {},
                                    }
                                },
                                _ => {},
                            }
                        },
                        _ => {},
                    }
                    i = i + 1;
                }
            },
            None => {},
        }
        let ghost s1 = *self;
        proof { Self::lemma_found_none(s0, s1); Self::lemma_found_none(s1, s1); }
        let mut i: usize = 0;
        while i < el.attrs.len()
            invariant
                i <= el.attrs@.len(),
                s1.found_by(self, ko_attrs(el.attrs@.take(i as int), d)),
            decreases el.attrs@.len() - i,
        {
            proof { assert(decreases_to!(el.attrs => el.attrs@[i as int])); }
            let ghost m = *self;
            match &el.attrs[i] {
                JSXAttrOrSpread::Attr(a) => {
                    match &a.value {
                        Some(JSXAttrValue::Str(..)) => { proof { Self::lemma_found_none(m, m); } },
                        Some(JSXAttrValue::Container(x)) => match x {
                            Some(e) => self.visit_expr(e),
                            None => { proof { Self::lemma_found_none(m, m); } },
                        },
                        Some(JSXAttrValue::Element(inner)) => self.visit_jsx_element(inner),
                        Some(JSXAttrValue::Fragment(children)) => self.visit_jsx_children(children),
                        None => { proof { Self::lemma_found_none(m, m); } },
                    }
                },
                JSXAttrOrSpread::Spread(x) => self.visit_expr(x),
            }
            proof {
                let item = match el.attrs@[i as int] {
                    JSXAttrOrSpread::Attr(a) => match a.value {
                        Some(JSXAttrValue::Container(Some(e))) => ko_expr(e, d),
                        Some(JSXAttrValue::Element(inner)) => ko_element(*inner, d),
                        Some(JSXAttrValue::Fragment(c)) => ko_children(c@, d),
                        _ => Seq::empty(),
                    },
                    JSXAttrOrSpread::Spread(x) => ko_expr(x, d),
                };
                Self::lemma_found_trans(s1, m, *self, ko_attrs(el.attrs@.take(i as int), d), item);
                assert(el.attrs@.take(i + 1).drop_last() =~= el.attrs@.take(i as int));
            }
            i = i + 1;
        }
        proof { assert(el.attrs@.take(el.attrs@.len() as int) =~= el.attrs@); }
        let ghost s2 = *self;
        self.visit_jsx_children(&el.children);
        proof {
            Self::lemma_found_trans(s1, s2, *self, ko_attrs(el.attrs@, d), ko_children(el.children@, d));
            Self::lemma_found_trans(s0, s1, *self, Seq::empty(), ko_element(*el, d));
            assert(Seq::<Found>::empty() + ko_element(*el, d) =~= ko_element(*el, d));
        }
    }

    #[verifier::loop_isolation(false)]
    fn visit_jsx_children(&mut self, v: &Vec<JSXChild>)
        requires
            old(self).wf(),
        ensures
            old(self).found_by(final(self), ko_children(v@, old(self).scope_depth)),
        decreases v, 0nat,
    {
        let ghost s0 = *self;
        let ghost d = self.scope_depth;
        proof { Self::lemma_found_none(s0, s0); }
        let mut i: usize = 0;
        while i < v.len()
            invariant
                i <= v@.len(),
                s0.found_by(self, ko_children(v@.take(i as int), d)),
            decreases v@.len() - i,
        {
            proof { assert(decreases_to!(v => v@[i as int])); }
            let ghost m = *self;
            match &v[i] {
                JSXChild::Text(..) => { proof { Self::lemma_found_none(m, m); } },
                JSXChild::Container(x) => match x {
                    Some(e) => self.visit_expr(e),
                    None => { proof { Self::lemma_found_none(m, m); } },
                },
                JSXChild::Spread(x) => self.visit_expr(x),
                JSXChild::Element(el) => self.visit_jsx_element(el),
                JSXChild::Fragment(children) => self.visit_jsx_children(children),
            }
            proof {
                let item = match v@[i as int] {
                    JSXChild::Container(Some(e)) => ko_expr(e, d),
                    JSXChild::Spread(x) => ko_expr(x, d),
                    JSXChild::Element(el) => ko_element(*el, d),
                    JSXChild::Fragment(c) => ko_children(c@, d),
                    _ => Seq::empty(),
                };
                Self::lemma_found_trans(s0, m, *self, ko_children(v@.take(i as int), d), item);
                assert(v@.take(i + 1).drop_last() =~= v@.take(i as int));
            }
            i = i + 1;
        }
        proof { assert(v@.take(v@.len() as int) =~= v@); }
    }
}

/// A list of namespaces holds `ns` (compared by their text).
pub open spec fn has_namespace(v: Seq<Option<String>>, ns: Option<String>) -> bool {
    exists|k: int| 0 <= k < v.len() && opt_view(#[trigger] v[k]) == opt_view(ns)
}

/// Whether a list of namespaces holds `ns`.
pub(crate) fn contains_namespace(v: &Vec<Option<String>>, ns: &Option<String>) -> (r: bool)
    ensures
        r == has_namespace(v@, *ns),
{
    let mut i: usize = 0;
    while i < v.len()
        invariant
            i <= v@.len(),
            forall|k: int| 0 <= k < i ==> opt_view(#[trigger] v@[k]) != opt_view(*ns),
        decreases v@.len() - i,
    {
        let same = match (&v[i], ns) {
            (Some(a), Some(b)) => str_eq(a.as_str(), b.as_str()),
            (None, None) => true,
            _ => false,
        };
        if same {
            assert(opt_view(v@[i as int]) == opt_view(*ns));
            return true;
        }
        i = i + 1;
    }
    false
}

} // verus!
