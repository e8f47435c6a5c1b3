//! The walk that finds the translation keys a file uses.
//!
//! A translation function is bound by `useTranslations`/`getTranslations`,
//! by a registered prop of a component, or by a registered argument of a
//! function; each call of it records the keys it can be shown to use, a
//! warning for a key it cannot resolve, and what the value analyzer made of
//! its argument.

use vstd::prelude::*;
use crate::annotation_store::{AnnotationStore, GlotAnnotation, entry_for, entry_view, expand_all, stored, svw};
use crate::comment::{PatternWarning, annotations_upto, warning_view, warnings_upto};
use crate::ast::{
    ArrowExpr, CallExpr, Decl, DefaultFn, Expr, ExprOrSpread, FnDecl, Function, JSXAttrOrSpread,
    JSXAttrValue, JSXChild, JSXElement, MemberProp, Module, ObjectPatProp, Pat, Pos, PropName,
    PropOrSpread, Stmt, VarDecl, VarDeclarator,
};
use crate::binding_context::{BindingContext, scopes_lookup, scopes_outer_has};
use crate::directives::{spec_untranslated_disabled, untranslated_disabled_at};
use crate::extraction::{DynamicKeyReason, DynamicKeyWarning, MissingKeyResult, Registries, UsedKey};
use crate::key_objects::{FileImports, ImportInfo, TranslationFnCall, TranslationProp, dotted};
use crate::keys::{
    extract_arrow_first_param, extract_binding_name_from_pat, extract_binding_names,
    extract_namespace_from_call, extract_object_access_name, extract_string_key,
    full_key, infer_pattern_from_template, is_template_with_expr, is_translation_hook,
    pattern_hint, relative_pattern, resolve_full_key, spec_hint, spec_inferred_pattern,
    spec_is_template_with_expr, spec_string_key, hook_namespace, spec_binding_name, pat_names, init_call, spec_object_access_name, spec_arrow_first_param,
};
use crate::lines::{spec_line_at, spec_lines, split_lines};
use crate::schema::SchemaCallInfo;
use crate::strmap::StrSet;
use crate::text::{chars_of, clone_opt_string, decimal, string_from_chars, text};
use crate::translation_source::TranslationSource;
use crate::value_analyzer::{IteratorBinding, ValueAnalyzer, spec_unwrap_paren, unwrap_paren};
use crate::value_source::{ResolvedKey, ValueSource, lemma_resolve_view, source_view, view_resolve};

verus! {

/// Rust's `char::is_whitespace`: the characters with the Unicode `White_Space` property.
pub open spec fn is_ws(c: char) -> bool {
    let u = c as u32;
    (0x9 <= u && u <= 0xD) || u == 0x20 || u == 0x85 || u == 0xA0 || u == 0x1680
        || (0x2000 <= u && u <= 0x200A) || u == 0x2028 || u == 0x2029 || u == 0x202F
        || u == 0x205F || u == 0x3000
}

/// Index of the first non-whitespace character at or after `i`.
pub open spec fn ws_end(s: Seq<char>, i: int) -> int
    decreases s.len() - i,
{
    if 0 <= i < s.len() && is_ws(s[i]) { ws_end(s, i + 1) } else { i }
}

/// The line, without its leading whitespace, starts a ternary branch (`:` or `?`).
pub open spec fn starts_branch(s: Seq<char>) -> bool {
    let j = ws_end(s, 0);
    0 <= j < s.len() && (s[j] == ':' || s[j] == '?')
}

fn is_ws_exec(c: char) -> (r: bool)
    ensures
        r == is_ws(c),
{
    let u = c as u32;
    (0x9 <= u && u <= 0xD) || u == 0x20 || u == 0x85 || u == 0xA0 || u == 0x1680
        || (0x2000 <= u && u <= 0x200A) || u == 0x2028 || u == 0x2029 || u == 0x202F
        || u == 0x205F || u == 0x3000
}

fn starts_branch_exec(s: &Vec<char>) -> (r: bool)
    ensures
        r == starts_branch(s@),
{
    let mut j: usize = 0;
    while j < s.len() && is_ws_exec(s[j])
        invariant
            j <= s@.len(),
            ws_end(s@, 0) == ws_end(s@, j as int),
        decreases s@.len() - j,
    {
        j = j + 1;
    }
    j < s.len() && (s[j] == ':' || s[j] == '?')
}

/// The keys a relative key stands for under each namespace of a binding.
pub open spec fn ns_keys(key: Seq<char>, nss: Seq<Option<String>>) -> Seq<Seq<char>> {
    nss.map_values(|ns: Option<String>| full_key(ns, key))
}

/// The static key of a string literal or of a template without expressions
/// (the argument is already unwrapped).
pub open spec fn static_key(u: Expr) -> Option<Seq<char>> {
    match u {
        Expr::Str(Some(s), _) => Some(s@),
        Expr::Tpl(t) => if t.exprs@.len() == 0 && t.quasis@.len() > 0 && t.quasis@[0].cooked is Some {
            Some(t.quasis@[0].cooked->0@)
        } else {
            None
        },
        _ => None,
    }
}

/// The argument is a literal form the extraction reads itself: a string, a
/// template without expressions, or a conditional.
pub open spec fn literal_form(u: Expr) -> bool {
    match u {
        Expr::Str(..) => true,
        Expr::Tpl(t) => t.exprs@.len() == 0,
        Expr::Cond { .. } => true,
        _ => false,
    }
}

/// The annotation that covers a line: that of the line itself, or else of the line before.
pub open spec fn annotation_at(es: Seq<(usize, GlotAnnotation)>, line: int) -> Option<GlotAnnotation> {
    let c = entry_for(es, line);
    let p = entry_for(es, line - 1);
    if c >= 0 {
        Some(es[c].1)
    } else if line > 1 && p >= 0 {
        Some(es[p].1)
    } else {
        None
    }
}

proof fn lemma_entry_for_bound(es: Seq<(usize, GlotAnnotation)>, line: int)
    ensures
        entry_for(es, line) < es.len(),
    decreases es.len(),
{
    if es.len() > 0 {
        lemma_entry_for_bound(es.drop_last(), line);
    }
}

/// The translation function methods that take a key: `t.raw`, `t.rich`, `t.markup`.
pub open spec fn spec_is_key_method(m: Seq<char>) -> bool {
    m == "raw"@ || m == "rich"@ || m == "markup"@
}

fn is_key_method(m: &str) -> (r: bool)
    ensures
        r == spec_is_key_method(m@),
{
    crate::text::str_eq(m, "raw") || crate::text::str_eq(m, "rich") || crate::text::str_eq(m, "markup")
}

/// The array methods whose callback receives the elements one by one.
pub open spec fn spec_is_iterator_method(m: Seq<char>) -> bool {
    m == "map"@ || m == "forEach"@ || m == "filter"@ || m == "find"@ || m == "some"@
        || m == "every"@ || m == "flatMap"@
}

fn is_iterator_method(m: &str) -> (r: bool)
    ensures
        r == spec_is_iterator_method(m@),
{
    crate::text::str_eq(m, "map") || crate::text::str_eq(m, "forEach") || crate::text::str_eq(m, "filter")
        || crate::text::str_eq(m, "find") || crate::text::str_eq(m, "some") || crate::text::str_eq(m, "every")
        || crate::text::str_eq(m, "flatMap")
}

/// The same walk under the name the missing-key check gives it.
pub type MissingKeyChecker<'a> = TranslationKeyVisitor<'a>;

/// What the warning of an unresolvable call carries: reason, hint and pattern.
pub struct WarningView {
    pub reason: DynamicKeyReason,
    pub hint: Option<Seq<char>>,
    pub pattern: Option<Seq<char>>,
}

/// Extracts translation keys from a module.
pub struct TranslationKeyVisitor<'a> {
    pub file_path: &'a str,
    /// The lines of the source text.
    pub lines: Vec<Vec<char>>,
    pub binding_context: BindingContext,
    pub annotation_store: AnnotationStore,
    pub value_analyzer: ValueAnalyzer<'a>,
    pub registries: &'a Registries,
    pub available_keys: &'a StrSet,
    pub used_keys: Vec<UsedKey>,
    pub warnings: Vec<DynamicKeyWarning>,
    pub schema_calls: Vec<SchemaCallInfo>,
    pub resolved_keys: Vec<ResolvedKey>,
    /// Inside the children of a JSX element or fragment.
    pub in_jsx_context: bool,
    /// Inside a JSX expression container `{...}`.
    pub in_jsx_expr: bool,
}

/// `a` is a prefix of `b`.
pub open spec fn is_prefix<T>(a: Seq<T>, b: Seq<T>) -> bool {
    a.len() <= b.len() && forall|i: int| 0 <= i < a.len() ==> #[trigger] b[i] == a[i]
}

/// What stays of the value analyzer through a step of the walk.
pub open spec fn va_same_rest(a: ValueAnalyzer, b: ValueAnalyzer) -> bool {
    &&& b.file_path == a.file_path
    &&& b.key_object_registry == a.key_object_registry
    &&& b.key_array_registry == a.key_array_registry
    &&& b.string_array_registry == a.string_array_registry
    &&& b.file_imports == a.file_imports
    &&& b.existing_files@ == a.existing_files@
}

/// `b` is the analyzer `a` with a new, empty iterator scope.
pub open spec fn va_entered(a: ValueAnalyzer, b: ValueAnalyzer) -> bool {
    &&& va_same_rest(a, b)
    &&& b.variable_bindings@ == a.variable_bindings@
    &&& b.spec_scopes() == a.spec_scopes().push(Map::empty())
}

/// `b` is the analyzer `a` with its innermost iterator scope left (the outermost stays).
pub open spec fn va_exited(a: ValueAnalyzer, b: ValueAnalyzer) -> bool {
    &&& va_same_rest(a, b)
    &&& b.variable_bindings@ == a.variable_bindings@
    &&& b.spec_scopes() == (if a.spec_scopes().len() > 1 { a.spec_scopes().drop_last() } else { a.spec_scopes() })
}

/// `b` is the analyzer `a` with `param` bound, in the innermost scope, to the elements of `array`.
pub open spec fn va_iter(a: ValueAnalyzer, param: Seq<char>, array: Seq<char>, b: ValueAnalyzer) -> bool {
    &&& va_same_rest(a, b)
    &&& b.variable_bindings@ == a.variable_bindings@
    &&& a.spec_scopes().len() > 0 ==> b.spec_scopes() == a.spec_scopes().drop_last().push(
        a.spec_scopes().last().insert(param, IteratorBinding {
            array_name: b.spec_scopes().last()[param].array_name,
            binding_type: a.spec_binding_type(array),
        }))
    &&& a.spec_scopes().len() > 0 ==> b.spec_scopes().last()[param].array_name@ == array
    &&& a.spec_scopes().len() == 0 ==> b.spec_scopes() == a.spec_scopes()
}

/// `b` is the analyzer `a` with `var` bound to what the object `obj` resolves to.
pub open spec fn va_access(a: ValueAnalyzer, var: Seq<char>, obj: Seq<char>, b: ValueAnalyzer) -> bool {
    &&& va_same_rest(a, b)
    &&& b.variable_bindings@.dom() == a.variable_bindings@.dom().insert(var)
    &&& source_view(b.variable_bindings@[var]) == a.spec_resolve_object(obj)
    &&& forall|k: Seq<char>| k != var && #[trigger] a.variable_bindings@.contains_key(k)
        ==> b.variable_bindings@[k] == a.variable_bindings@[k]
    &&& b.spec_scopes() == a.spec_scopes()
}

/// The scopes `s` with `name` bound to `v` in the innermost one.
pub open spec fn bind_in(s: Seq<Map<Seq<char>, TranslationSource>>, name: Seq<char>, v: TranslationSource) -> Seq<Map<Seq<char>, TranslationSource>> {
    if s.len() == 0 { s } else { s.drop_last().push(s.last().insert(name, v)) }
}

/// The callback parameter and array of `arr.map(x => ...)` and the like.
pub open spec fn iter_param(c: CallExpr) -> Option<(Seq<char>, Seq<char>)> {
    match c.callee {
        Some(b) => match *b {
            Expr::Member { obj, prop } => match (*obj, prop) {
                (Expr::Ident(arr), MemberProp::Ident(m)) => if spec_is_iterator_method(m@) && c.args@.len() > 0 {
                    match spec_arrow_first_param(c.args@[0].expr) {
                        Some(p) => Some((p, arr@)),
                        None => None,
                    }
                } else {
                    None
                },
                _ => None,
            },
            _ => None,
        },
        None => None,
    }
}

/// What a binding says for the walk: its kind and its namespaces.
pub open spec fn ts_view(t: TranslationSource) -> (int, Seq<Option<String>>) {
    (match t {
        TranslationSource::Direct { .. } => 0int,
        TranslationSource::FromProps { .. } => 1int,
        TranslationSource::FromFnCall { .. } => 2int,
        TranslationSource::Shadowed => 3int,
    }, t.spec_namespaces())
}

/// The binding scopes, each binding taken by [`ts_view`].
pub open spec fn scopes_view(s: Seq<Map<Seq<char>, TranslationSource>>) -> Seq<Map<Seq<char>, (int, Seq<Option<String>>)>> {
    s.map_values(|m: Map<Seq<char>, TranslationSource>| m.map_values(|t: TranslationSource| ts_view(t)))
}

/// `name` bound to `v` in the innermost scope of `s`.
pub open spec fn bind_v(s: Seq<Map<Seq<char>, (int, Seq<Option<String>>)>>, name: Seq<char>, v: (int, Seq<Option<String>>)) -> Seq<Map<Seq<char>, (int, Seq<Option<String>>)>> {
    if s.len() == 0 { s } else { s.drop_last().push(s.last().insert(name, v)) }
}

/// Some scope other than the innermost one binds `name`.
pub open spec fn outer_has_v(s: Seq<Map<Seq<char>, (int, Seq<Option<String>>)>>, name: Seq<char>) -> bool {
    exists|i: int| 0 <= i < s.len() - 1 && #[trigger] s[i].contains_key(name)
}

/// The innermost scope binds `name`.
pub open spec fn current_has_v(s: Seq<Map<Seq<char>, (int, Seq<Option<String>>)>>, name: Seq<char>) -> bool {
    s.len() > 0 && s.last().contains_key(name)
}

proof fn lemma_bind_view(s: Seq<Map<Seq<char>, TranslationSource>>, name: Seq<char>, v: TranslationSource)
    ensures
        scopes_view(bind_in(s, name, v)) == bind_v(scopes_view(s), name, ts_view(v)),
{
    if s.len() > 0 {
        let a = scopes_view(bind_in(s, name, v));
        let b = bind_v(scopes_view(s), name, ts_view(v));
        assert(a.len() == b.len());
        assert forall|i: int| 0 <= i < a.len() implies a[i] == b[i] by {
            if i < s.len() - 1 {
                assert(a[i] == s[i].map_values(|t: TranslationSource| ts_view(t)));
            } else {
                assert(a[i] =~= b[i]);
            }
        }
        assert(a =~= b);
    }
}

proof fn lemma_has_view(s: Seq<Map<Seq<char>, TranslationSource>>, name: Seq<char>)
    ensures
        scopes_outer_has(s, name) == outer_has_v(scopes_view(s), name),
        (s.len() > 0 && s.last().contains_key(name)) == current_has_v(scopes_view(s), name),
        scopes_view(s).len() == s.len(),
{
    let sv = scopes_view(s);
    if scopes_outer_has(s, name) {
        let i = choose|i: int| 0 <= i < s.len() - 1 && #[trigger] s[i].contains_key(name);
        assert(sv[i].contains_key(name));
    }
    if outer_has_v(sv, name) {
        let i = choose|i: int| 0 <= i < sv.len() - 1 && #[trigger] sv[i].contains_key(name);
        assert(s[i].contains_key(name));
    }
}

/// The binding a registered prop `component.prop` gives `binding`, if it is registered.
pub open spec fn prop_bind_v(
    s: Seq<Map<Seq<char>, (int, Seq<Option<String>>)>>,
    reg: Map<Seq<char>, TranslationProp>,
    component: Seq<char>,
    prop: Seq<char>,
    binding: Seq<char>,
) -> Seq<Map<Seq<char>, (int, Seq<Option<String>>)>> {
    match reg.get(dotted(component, prop)) {
        Some(tp) => bind_v(s, binding, (1int, tp.namespaces@)),
        None => s,
    }
}

/// The bindings the destructured props `{ t }`, `{ t = .. }`, `{ t: name }` give.
pub open spec fn props_v(
    s: Seq<Map<Seq<char>, (int, Seq<Option<String>>)>>,
    reg: Map<Seq<char>, TranslationProp>,
    component: Seq<char>,
    props: Seq<ObjectPatProp>,
) -> Seq<Map<Seq<char>, (int, Seq<Option<String>>)>>
    decreases props.len(),
{
    if props.len() == 0 {
        s
    } else {
        let s1 = props_v(s, reg, component, props.drop_last());
        match props.last() {
            ObjectPatProp::KeyValue { key, value } => match key {
                PropName::Ident(k) => match spec_binding_name(value) {
                    Some(b) => prop_bind_v(s1, reg, component, k@, b),
                    None => s1,
                },
                _ => s1,
            },
            ObjectPatProp::Assign { key, .. } => prop_bind_v(s1, reg, component, key@, key@),
            ObjectPatProp::Rest(_) => s1,
        }
    }
}

/// The bindings a component's first parameter gives.
pub open spec fn from_pat_v(
    s: Seq<Map<Seq<char>, (int, Seq<Option<String>>)>>,
    reg: Map<Seq<char>, TranslationProp>,
    component: Seq<char>,
    pat: Pat,
) -> Seq<Map<Seq<char>, (int, Seq<Option<String>>)>> {
    match pat {
        Pat::Object(props) => props_v(s, reg, component, props@),
        _ => s,
    }
}

/// The namespaces registered for argument `idx` of `file.fn` (or, for the
/// file's default export, of `file.default`).
pub open spec fn fn_param_ns(
    calls: Map<Seq<char>, TranslationFnCall>,
    file: Seq<char>,
    fn_name: Seq<char>,
    is_default: bool,
    idx: int,
) -> Option<Seq<Option<String>>> {
    match calls.get(dotted(dotted(file, fn_name), decimal(idx as nat))) {
        Some(fc) => Some(fc.namespaces@),
        None => if is_default {
            match calls.get(dotted(dotted(file, "default"@), decimal(idx as nat))) {
                Some(fc) => Some(fc.namespaces@),
                None => None,
            }
        } else {
            None
        },
    }
}

/// The bindings of the parameters registered as taking a translation
/// function, and the names so bound.
pub open spec fn fn_params_v(
    s: Seq<Map<Seq<char>, (int, Seq<Option<String>>)>>,
    calls: Map<Seq<char>, TranslationFnCall>,
    file: Seq<char>,
    fn_name: Seq<char>,
    is_default: bool,
    params: Seq<Pat>,
) -> (Seq<Map<Seq<char>, (int, Seq<Option<String>>)>>, Set<Seq<char>>)
    decreases params.len(),
{
    if params.len() == 0 {
        (s, Set::empty())
    } else {
        let r = fn_params_v(s, calls, file, fn_name, is_default, params.drop_last());
        match params.last() {
            Pat::Ident { name, .. } => match fn_param_ns(calls, file, fn_name, is_default, params.len() - 1) {
                Some(nss) => (bind_v(r.0, name@, (2int, nss)), r.1.insert(name@)),
                None => r,
            },
            _ => r,
        }
    }
}

/// Every name in `names` that is not registered, not bound in the innermost
/// scope and bound in an outer one is marked shadowed.
pub open spec fn shadow_names_v(
    s: Seq<Map<Seq<char>, (int, Seq<Option<String>>)>>,
    registered: Set<Seq<char>>,
    names: Seq<Seq<char>>,
) -> Seq<Map<Seq<char>, (int, Seq<Option<String>>)>>
    decreases names.len(),
{
    if names.len() == 0 {
        s
    } else {
        let s1 = shadow_names_v(s, registered, names.drop_last());
        let n = names.last();
        if !registered.contains(n) && !current_has_v(s1, n) && outer_has_v(s1, n) {
            bind_v(s1, n, (3int, Seq::empty()))
        } else {
            s1
        }
    }
}

/// [`shadow_names_v`] over the names of each parameter in turn.
pub open spec fn shadow_params_v(
    s: Seq<Map<Seq<char>, (int, Seq<Option<String>>)>>,
    registered: Set<Seq<char>>,
    params: Seq<Pat>,
) -> Seq<Map<Seq<char>, (int, Seq<Option<String>>)>>
    decreases params.len(),
{
    if params.len() == 0 {
        s
    } else {
        shadow_names_v(shadow_params_v(s, registered, params.drop_last()), registered, pat_names(params.last()))
    }
}

/// The intermediate states of one walk, and the walks of its parts, in order.
pub struct WalkTrace<'a> {
    pub states: Seq<TranslationKeyVisitor<'a>>,
    pub subs: Seq<WalkTrace<'a>>,
}

impl<'a> TranslationKeyVisitor<'a> {
    /// Exactly what a call site records by itself, and nothing else changes.
    pub open spec fn site_step(self, c: CallExpr, b: Self) -> bool {
        let pos = c.pos;
        &&& self.same_but_outputs(&b)
        &&& b.wf()
        &&& self.keys_added(self.used_keys@, b.used_keys@, self.site_keys(c), pos)
        &&& self.warning_added(self.warnings@, b.warnings@, self.site_warning(c), pos)
        &&& (match self.site_binding(c) {
            Some(ts) => if c.args@.len() > 0 {
                &&& b.resolved_keys@.len() == self.resolved_keys@.len() + 1
                &&& is_prefix(self.resolved_keys@, b.resolved_keys@)
                &&& self.resolved_at(b.resolved_keys@.last(), ts, c.args@[0].expr, pos)
            } else {
                b.resolved_keys == self.resolved_keys
            },
            None => b.resolved_keys == self.resolved_keys,
        })
        &&& (match self.site_schema(c) {
            Some(ns) => {
                &&& b.schema_calls@.len() == self.schema_calls@.len() + 1
                &&& is_prefix(self.schema_calls@, b.schema_calls@)
                &&& b.schema_calls@.last().namespace == ns
                &&& b.schema_calls@.last().line == pos.line
                &&& b.schema_calls@.last().col == pos.col
                &&& (match c.callee { Some(x) => match *x { Expr::Ident(name) => b.schema_calls@.last().schema_name@ == name@, _ => true }, None => true })
            },
            None => b.schema_calls == self.schema_calls,
        })
    }

    /// `b` is `self` with a new, empty binding scope.
    pub open spec fn bc_entered(self, b: Self) -> bool {
        &&& b == Self { binding_context: b.binding_context, ..self }
        &&& b.binding_context@ == self.binding_context@.push(Map::empty())
    }

    /// `b` is `self` with its innermost binding scope left.
    pub open spec fn bc_exited(self, b: Self) -> bool {
        &&& b == Self { binding_context: b.binding_context, ..self }
        &&& b.binding_context@ == crate::binding_context::scopes_exit(self.binding_context@)
    }

    /// The bindings of a declarator `const name = init` before its parts are
    /// walked: a hook call binds `name`; an object access is handed to the analyzer.
    pub open spec fn decl_bound(self, d: VarDeclarator, b: Self) -> bool {
        &&& b == Self { binding_context: b.binding_context, value_analyzer: b.value_analyzer, ..self }
        &&& b.binding_context@ == (match (d.init, d.name) {
            (Some(init), Pat::Ident { name, .. }) => match hook_namespace(init) {
                Some(ns) => bind_in(self.binding_context@, name@, TranslationSource::Direct { namespace: ns }),
                None => self.binding_context@,
            },
            _ => self.binding_context@,
        })
        &&& (match (d.init, d.name) {
            (Some(init), Pat::Ident { name, .. }) => match spec_object_access_name(init) {
                Some(obj) => va_access(self.value_analyzer, name@, obj, b.value_analyzer),
                None => b.value_analyzer == self.value_analyzer,
            },
            _ => b.value_analyzer == self.value_analyzer,
        })
    }

    /// Entering the callback scope of `arr.map(x => ...)`, if the call is one.
    pub open spec fn iter_entered(self, c: CallExpr, b: Self) -> bool {
        match iter_param(c) {
            Some((p, arr)) => {
                &&& b == Self { value_analyzer: b.value_analyzer, ..self }
                &&& exists|v: ValueAnalyzer| #[trigger] va_entered(self.value_analyzer, v) && va_iter(v, p, arr, b.value_analyzer)
            },
            None => b == self,
        }
    }

    /// Leaving the callback scope entered for `c`, if one was.
    pub open spec fn iter_exited(self, c: CallExpr, b: Self) -> bool {
        if iter_param(c) is Some {
            &&& b == Self { value_analyzer: b.value_analyzer, ..self }
            &&& va_exited(self.value_analyzer, b.value_analyzer)
        } else {
            b == self
        }
    }

    /// A trace with nothing in it, for a walk that changes nothing.
    pub open spec fn no_trace() -> WalkTrace<'a> {
        WalkTrace { states: Seq::empty(), subs: Seq::empty() }
    }

    pub open spec fn with_jsx_ctx(self, v: bool) -> Self {
        Self { in_jsx_context: v, ..self }
    }

    pub open spec fn with_jsx_expr(self, v: bool) -> Self {
        Self { in_jsx_expr: v, ..self }
    }

    /// The file's default export is the function `fn_name`.
    pub open spec fn is_default_export(self, fn_name: Seq<char>) -> bool {
        match self.registries.default_exports@.get(self.file_path@) {
            Some(d) => d@ == fn_name,
            None => false,
        }
    }

    /// The bindings after the parameters of the function `fn_name` are registered:
    /// the translation props its first parameter destructures, then the
    /// parameters registered as taking a translation function, then the other
    /// parameter names that shadow an outer binding.
    pub open spec fn params_v(self, fn_name: Seq<char>, params: Seq<Pat>) -> Seq<Map<Seq<char>, (int, Seq<Option<String>>)>> {
        let s0 = scopes_view(self.binding_context@);
        let s1 = if params.len() > 0 { from_pat_v(s0, self.registries.translation_prop@, fn_name, params[0]) } else { s0 };
        let r = fn_params_v(s1, self.registries.translation_fn_call@, self.file_path@, fn_name, self.is_default_export(fn_name), params);
        shadow_params_v(r.0, r.1, params)
    }

    /// Registering a function's parameters changes its bindings only, as [`Self::params_v`] says.
    pub open spec fn params_step(self, fn_name: Seq<char>, params: Vec<Pat>, b: Self) -> bool {
        &&& b == Self { binding_context: b.binding_context, ..self }
        &&& b.binding_context@.len() == self.binding_context@.len()
        &&& scopes_view(b.binding_context@) == self.params_v(fn_name, params@)
    }

    /// The walk over the first `n` statements of `v` takes `self` to `b`
    /// (`t` holds the intermediate states and the walks of the parts).
    pub open spec fn w_statements(self, v: Vec<Stmt>, n: int, b: Self, t: WalkTrace<'a>) -> bool
        decreases v, 0int, n,
    {
        if 0 < n <= v@.len() {
            proof { assert(decreases_to!(v => v@[n - 1])); }
            self.w_statements(v, n - 1, t.states[0], t.subs[0]) && t.states[0].w_stmt(v@[n - 1], b, t.subs[1])
        } else {
            b == self
        }
    }

    pub open spec fn w_stmt(self, st: Stmt, b: Self, t: WalkTrace<'a>) -> bool
        decreases st, 0int, 0int,
    {
        match st {
            Stmt::Expr(e) => self.w_expr(e, b, t),
            Stmt::Var(v) => self.w_var_decl(v, b, t),
            Stmt::Fn(f) => self.w_fn_decl(f, b, t),
            Stmt::Import(_) => b == self,
            Stmt::ExportDecl(d) => match d {
                Decl::Var(v) => self.w_var_decl(v, b, t),
                Decl::Fn(f) => self.w_fn_decl(f, b, t),
                Decl::Other(children) => self.w_statements(children, children@.len() as int, b, t),
            },
            Stmt::ExportDefaultFn(d) => self.w_default_fn(d, b, t),
            Stmt::ExportDefaultExpr(e) => self.w_default_expr(e, b, t),
            Stmt::ExportDefaultClass { body, .. } => self.w_statements(body, body@.len() as int, b, t),
            Stmt::Other(children) => self.w_statements(children, children@.len() as int, b, t),
        }
    }

    /// A named function: a new scope, its parameters registered, its parts walked, the scope left.
    pub open spec fn w_fn_decl(self, f: FnDecl, b: Self, t: WalkTrace<'a>) -> bool
        decreases f, 0int, 0int,
    {
        &&& self.bc_entered(t.states[0])
        &&& t.states[0].params_step(f.ident@, f.function.params, t.states[1])
        &&& t.states[1].w_function_parts(f.function, t.states[2], t.subs[0])
        &&& t.states[2].bc_exited(b)
    }

    /// The name of a default-exported function: `default` when it has none.
    pub open spec fn default_name(d: DefaultFn) -> Seq<char> {
        match d.ident { Some(n) => n@, None => "default"@ }
    }

    pub open spec fn w_default_fn(self, d: DefaultFn, b: Self, t: WalkTrace<'a>) -> bool
        decreases d, 0int, 0int,
    {
        &&& self.bc_entered(t.states[0])
        &&& t.states[0].params_step(Self::default_name(d), d.function.params, t.states[1])
        &&& t.states[1].w_function_parts(d.function, t.states[2], t.subs[0])
        &&& t.states[2].bc_exited(b)
    }

    pub open spec fn w_default_expr(self, e: Expr, b: Self, t: WalkTrace<'a>) -> bool
        decreases e, 1int, 0int,
    {
        match e {
            Expr::Arrow(a) => {
                &&& self.bc_entered(t.states[0])
                &&& t.states[0].params_step("default"@, a.params, t.states[1])
                &&& t.states[1].w_arrow_parts(a, t.states[2], t.subs[0])
                &&& t.states[2].bc_exited(b)
            },
            _ => self.w_expr(e, b, t),
        }
    }

    pub open spec fn w_function(self, f: Function, b: Self, t: WalkTrace<'a>) -> bool
        decreases f, 1int, 0int,
    {
        &&& self.bc_entered(t.states[0])
        &&& t.states[0].w_function_parts(f, t.states[1], t.subs[0])
        &&& t.states[1].bc_exited(b)
    }

    pub open spec fn w_function_parts(self, f: Function, b: Self, t: WalkTrace<'a>) -> bool
        decreases f, 0int, 0int,
    {
        &&& self.w_pats(f.params, f.params@.len() as int, t.states[0], t.subs[0])
        &&& t.states[0].w_statements(f.body, f.body@.len() as int, b, t.subs[1])
    }

    pub open spec fn w_arrow(self, a: ArrowExpr, b: Self, t: WalkTrace<'a>) -> bool
        decreases a, 1int, 0int,
    {
        &&& self.bc_entered(t.states[0])
        &&& t.states[0].w_arrow_parts(a, t.states[1], t.subs[0])
        &&& t.states[1].bc_exited(b)
    }

    pub open spec fn w_arrow_parts(self, a: ArrowExpr, b: Self, t: WalkTrace<'a>) -> bool
        decreases a, 0int, 0int,
    {
        &&& self.w_pats(a.params, a.params@.len() as int, t.states[0], t.subs[0])
        &&& t.states[0].w_statements(a.body, a.body@.len() as int, b, t.subs[1])
    }

    pub open spec fn w_var_decl(self, v: VarDecl, b: Self, t: WalkTrace<'a>) -> bool
        decreases v, 0int, 0int,
    {
        self.w_declarators(v.decls, v.decls@.len() as int, b, t)
    }

    pub open spec fn w_declarators(self, v: Vec<VarDeclarator>, n: int, b: Self, t: WalkTrace<'a>) -> bool
        decreases v, 0int, n,
    {
        if 0 < n <= v@.len() {
            proof { assert(decreases_to!(v => v@[n - 1])); }
            self.w_declarators(v, n - 1, t.states[0], t.subs[0]) && t.states[0].w_var_declarator(v@[n - 1], b, t.subs[1])
        } else {
            b == self
        }
    }

    pub open spec fn w_var_declarator(self, d: VarDeclarator, b: Self, t: WalkTrace<'a>) -> bool
        decreases d, 0int, 0int,
    {
        match (d.name, d.init) {
            (Pat::Ident { name, .. }, Some(Expr::Arrow(a))) => {
                &&& self.bc_entered(t.states[0])
                &&& t.states[0].params_step(name@, a.params, t.states[1])
                &&& t.states[1].w_arrow_parts(a, t.states[2], t.subs[0])
                &&& t.states[2].bc_exited(b)
            },
            _ => {
                &&& self.decl_bound(d, t.states[0])
                &&& t.states[0].w_pat(d.name, t.states[1], t.subs[0])
                &&& match d.init {
                    Some(init) => t.states[1].w_expr(init, b, t.subs[1]),
                    None => b == t.states[1],
                }
            },
        }
    }

    pub open spec fn w_pats(self, v: Vec<Pat>, n: int, b: Self, t: WalkTrace<'a>) -> bool
        decreases v, 0int, n,
    {
        if 0 < n <= v@.len() {
            proof { assert(decreases_to!(v => v@[n - 1])); }
            self.w_pats(v, n - 1, t.states[0], t.subs[0]) && t.states[0].w_pat(v@[n - 1], b, t.subs[1])
        } else {
            b == self
        }
    }

    pub open spec fn w_pat(self, p: Pat, b: Self, t: WalkTrace<'a>) -> bool
        decreases p, 0int, 0int,
    {
        match p {
            Pat::Ident { .. } => b == self,
            Pat::Object(props) => self.w_obj_pat_props(props, props@.len() as int, b, t),
            Pat::Assign { left, right } => self.w_pat(*left, t.states[0], t.subs[0]) && t.states[0].w_expr(*right, b, t.subs[1]),
            Pat::Array(elems) => self.w_pat_elems(elems, elems@.len() as int, b, t),
            Pat::Rest(q) => self.w_pat(*q, b, t),
            Pat::Other(children) => self.w_statements(children, children@.len() as int, b, t),
        }
    }

    pub open spec fn w_obj_pat_props(self, v: Vec<ObjectPatProp>, n: int, b: Self, t: WalkTrace<'a>) -> bool
        decreases v, 0int, n,
    {
        if 0 < n <= v@.len() {
            proof { assert(decreases_to!(v => v@[n - 1])); }
            self.w_obj_pat_props(v, n - 1, t.states[0], t.subs[0]) && t.states[0].w_obj_pat_prop(v@[n - 1], b, t.subs[1])
        } else {
            b == self
        }
    }

    pub open spec fn w_obj_pat_prop(self, x: ObjectPatProp, b: Self, t: WalkTrace<'a>) -> bool
        decreases x, 0int, 0int,
    {
        match x {
            ObjectPatProp::KeyValue { key, value } => self.w_prop_name(key, t.states[0], t.subs[0]) && t.states[0].w_pat(value, b, t.subs[1]),
            ObjectPatProp::Assign { value, .. } => match value {
                Some(e) => self.w_expr(e, b, t),
                None => b == self,
            },
            ObjectPatProp::Rest(q) => self.w_pat(q, b, t),
        }
    }

    pub open spec fn w_pat_elems(self, v: Vec<Option<Pat>>, n: int, b: Self, t: WalkTrace<'a>) -> bool
        decreases v, 0int, n,
    {
        if 0 < n <= v@.len() {
            proof { assert(decreases_to!(v => v@[n - 1])); }
            self.w_pat_elems(v, n - 1, t.states[0], t.subs[0]) && match v@[n - 1] {
                Some(q) => t.states[0].w_pat(q, b, t.subs[1]),
                None => b == t.states[0],
            }
        } else {
            b == self
        }
    }

    pub open spec fn w_prop_name(self, k: PropName, b: Self, t: WalkTrace<'a>) -> bool
        decreases k, 0int, 0int,
    {
        match k {
            PropName::Other(children) => self.w_statements(children, children@.len() as int, b, t),
            _ => b == self,
        }
    }

    pub open spec fn w_exprs(self, v: Vec<Expr>, n: int, b: Self, t: WalkTrace<'a>) -> bool
        decreases v, 0int, n,
    {
        if 0 < n <= v@.len() {
            proof { assert(decreases_to!(v => v@[n - 1])); }
            self.w_exprs(v, n - 1, t.states[0], t.subs[0]) && t.states[0].w_expr(v@[n - 1], b, t.subs[1])
        } else {
            b == self
        }
    }

    pub open spec fn w_args(self, v: Vec<ExprOrSpread>, n: int, b: Self, t: WalkTrace<'a>) -> bool
        decreases v, 0int, n,
    {
        if 0 < n <= v@.len() {
            proof { assert(decreases_to!(v => v@[n - 1])); }
            self.w_args(v, n - 1, t.states[0], t.subs[0]) && t.states[0].w_expr(v@[n - 1].expr, b, t.subs[1])
        } else {
            b == self
        }
    }

    pub open spec fn w_array_elems(self, v: Vec<Option<ExprOrSpread>>, n: int, b: Self, t: WalkTrace<'a>) -> bool
        decreases v, 0int, n,
    {
        if 0 < n <= v@.len() {
            proof { assert(decreases_to!(v => v@[n - 1])); }
            self.w_array_elems(v, n - 1, t.states[0], t.subs[0]) && match v@[n - 1] {
                Some(x) => t.states[0].w_expr(x.expr, b, t.subs[1]),
                None => b == t.states[0],
            }
        } else {
            b == self
        }
    }

    pub open spec fn w_props(self, v: Vec<PropOrSpread>, n: int, b: Self, t: WalkTrace<'a>) -> bool
        decreases v, 0int, n,
    {
        if 0 < n <= v@.len() {
            proof { assert(decreases_to!(v => v@[n - 1])); }
            self.w_props(v, n - 1, t.states[0], t.subs[0]) && t.states[0].w_prop(v@[n - 1], b, t.subs[1])
        } else {
            b == self
        }
    }

    pub open spec fn w_prop(self, x: PropOrSpread, b: Self, t: WalkTrace<'a>) -> bool
        decreases x, 0int, 0int,
    {
        match x {
            PropOrSpread::Spread(e) => self.w_expr(e, b, t),
            PropOrSpread::KeyValue { key, value } => self.w_prop_name(key, t.states[0], t.subs[0]) && t.states[0].w_expr(value, b, t.subs[1]),
            PropOrSpread::Shorthand(_) => b == self,
            PropOrSpread::Method { key, function } => self.w_prop_name(key, t.states[0], t.subs[0]) && t.states[0].w_function(function, b, t.subs[1]),
            PropOrSpread::Other(children) => self.w_statements(children, children@.len() as int, b, t),
        }
    }

    /// The walk over an expression takes `self` to `b`.
    pub open spec fn w_expr(self, e: Expr, b: Self, t: WalkTrace<'a>) -> bool
        decreases e, 0int, 0int,
    {
        match e {
            Expr::Ident(_) => b == self,
            Expr::Str(..) => b == self,
            Expr::Num(_) => b == self,
            Expr::Tpl(tp) => self.w_exprs(tp.exprs, tp.exprs@.len() as int, b, t),
            Expr::Cond { test, cons, alt } => {
                &&& self.w_expr(*test, t.states[0], t.subs[0])
                &&& t.states[0].w_expr(*cons, t.states[1], t.subs[1])
                &&& t.states[1].w_expr(*alt, b, t.subs[2])
            },
            Expr::Bin { left, right, .. } => self.w_expr(*left, t.states[0], t.subs[0]) && t.states[0].w_expr(*right, b, t.subs[1]),
            Expr::Paren(x) => self.w_expr(*x, b, t),
            Expr::TsAs(x) => self.w_expr(*x, b, t),
            Expr::TsConst(x) => self.w_expr(*x, b, t),
            Expr::TsSatisfies(x) => self.w_expr(*x, b, t),
            Expr::Await(x) => self.w_expr(*x, b, t),
            Expr::Call(c) => self.w_call(c, b, t),
            Expr::Member { obj, prop } => self.w_expr(*obj, t.states[0], t.subs[0]) && match prop {
                MemberProp::Computed(k) => t.states[0].w_expr(*k, b, t.subs[1]),
                _ => b == t.states[0],
            },
            Expr::Arrow(a) => self.w_arrow(a, b, t),
            Expr::Fn(f) => self.w_function(f, b, t),
            Expr::Object(props) => self.w_props(props, props@.len() as int, b, t),
            Expr::Array(elems) => self.w_array_elems(elems, elems@.len() as int, b, t),
            Expr::JSXElement(el) => self.w_jsx_element(*el, b, t),
            Expr::JSXFragment(children) => self.w_jsx_fragment(children, b, t),
            Expr::Other { children, .. } => self.w_statements(children, children@.len() as int, b, t),
        }
    }

    /// A call: what its site records, the callback scope of an iterator
    /// method entered, the callee and the arguments walked, the scope left.
    pub open spec fn w_call(self, c: CallExpr, b: Self, t: WalkTrace<'a>) -> bool
        decreases c, 0int, 0int,
    {
        &&& self.site_step(c, t.states[0])
        &&& t.states[0].iter_entered(c, t.states[1])
        &&& (match c.callee {
            Some(x) => t.states[1].w_expr(*x, t.states[2], t.subs[0]),
            None => t.states[2] == t.states[1],
        })
        &&& t.states[2].w_args(c.args, c.args@.len() as int, t.states[3], t.subs[1])
        &&& t.states[3].iter_exited(c, b)
    }

    pub open spec fn w_jsx_children(self, v: Vec<JSXChild>, n: int, b: Self, t: WalkTrace<'a>) -> bool
        decreases v, 0int, n,
    {
        if 0 < n <= v@.len() {
            proof { assert(decreases_to!(v => v@[n - 1])); }
            self.w_jsx_children(v, n - 1, t.states[0], t.subs[0]) && t.states[0].w_jsx_child(v@[n - 1], b, t.subs[1])
        } else {
            b == self
        }
    }

    pub open spec fn w_jsx_child(self, x: JSXChild, b: Self, t: WalkTrace<'a>) -> bool
        decreases x, 0int, 0int,
    {
        match x {
            JSXChild::Text(..) => b == self,
            JSXChild::Container(y) => self.w_jsx_container(y, b, t),
            JSXChild::Spread(y) => self.w_expr(y, b, t),
            JSXChild::Element(el) => self.w_jsx_element(*el, b, t),
            JSXChild::Fragment(children) => self.w_jsx_fragment(children, b, t),
        }
    }

    /// `{...}`: what is inside is walked as a JSX expression.
    pub open spec fn w_jsx_container(self, x: Option<Expr>, b: Self, t: WalkTrace<'a>) -> bool
        decreases x, 1int, 0int,
    {
        &&& self.with_jsx_expr(true).w_opt_expr(x, t.states[0], t.subs[0])
        &&& b == t.states[0].with_jsx_expr(self.in_jsx_expr)
    }

    pub open spec fn w_opt_expr(self, x: Option<Expr>, b: Self, t: WalkTrace<'a>) -> bool
        decreases x, 0int, 0int,
    {
        match x {
            Some(e) => self.w_expr(e, b, t),
            None => b == self,
        }
    }

    /// The attributes, then the children as JSX context.
    pub open spec fn w_jsx_element(self, el: JSXElement, b: Self, t: WalkTrace<'a>) -> bool
        decreases el, 0int, 0int,
    {
        &&& self.w_jsx_attrs(el.attrs, el.attrs@.len() as int, t.states[0], t.subs[0])
        &&& t.states[0].with_jsx_ctx(true).w_jsx_children(el.children, el.children@.len() as int, t.states[1], t.subs[1])
        &&& b == t.states[1].with_jsx_ctx(t.states[0].in_jsx_context)
    }

    pub open spec fn w_jsx_attrs(self, v: Vec<JSXAttrOrSpread>, n: int, b: Self, t: WalkTrace<'a>) -> bool
        decreases v, 0int, n,
    {
        if 0 < n <= v@.len() {
            proof { assert(decreases_to!(v => v@[n - 1])); }
            self.w_jsx_attrs(v, n - 1, t.states[0], t.subs[0]) && t.states[0].w_jsx_attr(v@[n - 1], b, t.subs[1])
        } else {
            b == self
        }
    }

    pub open spec fn w_jsx_attr(self, x: JSXAttrOrSpread, b: Self, t: WalkTrace<'a>) -> bool
        decreases x, 0int, 0int,
    {
        match x {
            JSXAttrOrSpread::Attr(a) => match a.value {
                Some(JSXAttrValue::Str(..)) => b == self,
                Some(JSXAttrValue::Container(y)) => self.w_jsx_container(y, b, t),
                Some(JSXAttrValue::Element(inner)) => self.w_jsx_element(*inner, b, t),
                Some(JSXAttrValue::Fragment(children)) => self.w_jsx_fragment(children, b, t),
                None => b == self,
            },
            JSXAttrOrSpread::Spread(y) => self.w_expr(y, b, t),
        }
    }

    /// The children of a fragment, as JSX context.
    pub open spec fn w_jsx_fragment(self, children: Vec<JSXChild>, b: Self, t: WalkTrace<'a>) -> bool
        decreases children, 1int, 0int,
    {
        &&& self.with_jsx_ctx(true).w_jsx_children(children, children@.len() as int, t.states[0], t.subs[0])
        &&& b == t.states[0].with_jsx_ctx(self.in_jsx_context)
    }
}

impl<'a> TranslationKeyVisitor<'a> {
    pub open spec fn spec_lines(&self) -> Seq<Seq<char>> {
        self.lines@.map_values(|l: Vec<char>| l@)
    }

    /// Line `n` (1-based) of the source, empty when there is none.
    pub open spec fn spec_source_line(&self, n: int) -> Seq<char> {
        spec_line_at(self.spec_lines(), n)
    }

    /// A comment for a usage on this line takes the JSX form: inside JSX
    /// children, unless in an expression whose line starts a ternary branch.
    pub open spec fn spec_jsx_comment(&self, line: Seq<char>) -> bool {
        self.in_jsx_context && !(self.in_jsx_expr && starts_branch(line))
    }

    /// The state the visitor keeps: the global scopes stay, the annotations'
    /// relative patterns start with `.`, and every output belongs to this file.
    pub open spec fn wf(&self) -> bool {
        &&& self.binding_context@.len() >= 1
        &&& self.value_analyzer.spec_scopes().len() >= 1
        &&& self.annotation_store.wf()
        &&& forall|i: int| 0 <= i < self.used_keys@.len() ==> (#[trigger] self.used_keys@[i]).file_path@ == self.file_path@
        &&& forall|i: int| 0 <= i < self.warnings@.len() ==> (#[trigger] self.warnings@[i]).file_path@ == self.file_path@
        &&& forall|i: int| 0 <= i < self.resolved_keys@.len() ==> (#[trigger] self.resolved_keys@[i]).file_path@ == self.file_path@
    }

    /// Everything but the outputs is the same in both states.
    pub open spec fn same_but_outputs(&self, other: &Self) -> bool {
        &&& other.file_path == self.file_path
        &&& other.lines == self.lines
        &&& other.binding_context == self.binding_context
        &&& other.annotation_store == self.annotation_store
        &&& other.value_analyzer == self.value_analyzer
        &&& other.registries == self.registries
        &&& other.available_keys == self.available_keys
        &&& other.in_jsx_context == self.in_jsx_context
        &&& other.in_jsx_expr == self.in_jsx_expr
    }

    /// What a walk over any node keeps: the file, the sources, the annotations,
    /// the number of scopes and the JSX flags stay; the outputs only grow.
    pub open spec fn kept(&self, after: &Self) -> bool {
        &&& after.wf()
        &&& after.file_path == self.file_path
        &&& after.lines == self.lines
        &&& after.annotation_store == self.annotation_store
        &&& after.registries == self.registries
        &&& after.available_keys == self.available_keys
        &&& after.binding_context@.len() == self.binding_context@.len()
        &&& after.value_analyzer.spec_scopes().len() == self.value_analyzer.spec_scopes().len()
        &&& after.in_jsx_context == self.in_jsx_context
        &&& after.in_jsx_expr == self.in_jsx_expr
        &&& is_prefix(self.used_keys@, after.used_keys@)
        &&& is_prefix(self.warnings@, after.warnings@)
        &&& is_prefix(self.schema_calls@, after.schema_calls@)
        &&& is_prefix(self.resolved_keys@, after.resolved_keys@)
    }

    /// `u` records `key` at `pos` in this file.
    pub open spec fn used_key_at(&self, u: UsedKey, key: Seq<char>, pos: Pos) -> bool {
        let line = self.spec_source_line(pos.line as int);
        &&& u.full_key@ == key
        &&& u.file_path@ == self.file_path@
        &&& u.line == pos.line
        &&& u.col == pos.col
        &&& u.source_line@ == line
        &&& u.in_jsx_context == self.spec_jsx_comment(line)
        &&& u.untranslated_disabled == spec_untranslated_disabled(self.spec_lines(), pos.line as int)
    }

    /// `after` is `before` followed by one usage of each of `keys`, in order, at `pos`.
    pub open spec fn keys_added(&self, before: Seq<UsedKey>, after: Seq<UsedKey>, keys: Seq<Seq<char>>, pos: Pos) -> bool {
        &&& after.len() == before.len() + keys.len()
        &&& is_prefix(before, after)
        &&& forall|j: int| before.len() <= j < after.len() ==> self.used_key_at(#[trigger] after[j], keys[j - before.len()], pos)
    }

    /// `w` is the warning `v` at `pos` in this file.
    pub open spec fn warning_at(&self, w: DynamicKeyWarning, v: WarningView, pos: Pos) -> bool {
        let line = self.spec_source_line(pos.line as int);
        &&& w.file_path@ == self.file_path@
        &&& w.line == pos.line
        &&& w.col == pos.col
        &&& w.reason == v.reason
        &&& w.source_line@ == line
        &&& (match w.hint { Some(h) => v.hint == Some(h@), None => v.hint is None })
        &&& (match w.pattern { Some(p) => v.pattern == Some(p@), None => v.pattern is None })
        &&& w.in_jsx_context == self.spec_jsx_comment(line)
    }

    /// The annotation that covers line `n`.
    pub open spec fn spec_annotation(&self, n: int) -> Option<GlotAnnotation> {
        annotation_at(self.annotation_store.annotations@, n)
    }

    /// The argument cannot be resolved by the value analyzer.
    pub open spec fn unresolvable(&self, arg: Expr) -> bool {
        view_resolve(self.value_analyzer.spec_analyze(arg)) is Err
    }

    /// The keys a call `t(arg)` at line `n` records under the binding `ts`.
    pub open spec fn spec_call_keys(&self, ts: TranslationSource, arg: Expr, n: int) -> Seq<Seq<char>> {
        let u = spec_unwrap_paren(arg);
        let nss = ts.spec_namespaces();
        match u {
            Expr::Cond { cons, alt, .. } => match (spec_string_key(*cons), spec_string_key(*alt)) {
                (Some(k1), Some(k2)) => ns_keys(k1, nss) + ns_keys(k2, nss),
                _ => Seq::empty(),
            },
            _ => if literal_form(u) {
                match static_key(u) {
                    Some(k) => ns_keys(k, nss),
                    None => Seq::empty(),
                }
            } else if self.unresolvable(arg) {
                match self.spec_annotation(n) {
                    Some(a) => svw(a.keys@) + expand_all(svw(a.relative_patterns@), nss, self.available_keys.spec_items()),
                    None => Seq::empty(),
                }
            } else {
                Seq::empty()
            },
        }
    }

    /// The warning a call `t(arg)` at line `n` gives under the binding `ts`, if any.
    pub open spec fn spec_call_warning(&self, ts: TranslationSource, arg: Expr, n: int) -> Option<WarningView> {
        let u = spec_unwrap_paren(arg);
        match u {
            Expr::Cond { cons, alt, .. } => {
                if spec_string_key(*cons) is Some && spec_string_key(*alt) is Some {
                    None
                } else if self.unresolvable(arg) {
                    let reason = if spec_is_template_with_expr(*cons) || spec_is_template_with_expr(*alt) {
                        DynamicKeyReason::TemplateWithExpr
                    } else {
                        DynamicKeyReason::VariableKey
                    };
                    Some(WarningView { reason, hint: None, pattern: None })
                } else {
                    None
                }
            },
            _ => if literal_form(u) || !self.unresolvable(arg) || self.spec_annotation(n) is Some {
                None
            } else {
                match u {
                    Expr::Tpl(t) => {
                        let pattern = if ts.spec_is_indirect() {
                            match spec_inferred_pattern(t, None) {
                                Some(p) => Some("."@ + p),
                                None => None,
                            }
                        } else {
                            spec_inferred_pattern(t, ts.spec_primary_namespace())
                        };
                        let hint = match pattern {
                            Some(p) => Some(spec_hint(p, self.in_jsx_context)),
                            None => None,
                        };
                        Some(WarningView { reason: DynamicKeyReason::TemplateWithExpr, hint, pattern })
                    },
                    _ => Some(WarningView { reason: DynamicKeyReason::VariableKey, hint: None, pattern: None }),
                }
            },
        }
    }

    /// A visitor as [`Self::new`] makes it for a file (and
    /// [`Self::set_existing_files`] tells it the files that exist): its
    /// source lines and annotations, one empty scope of each kind, no
    /// output, outside JSX.
    pub open spec fn fresh_for(
        self,
        file_path: Seq<char>,
        source: Seq<char>,
        registries: Registries,
        file_imports: Seq<ImportInfo>,
        available_keys: StrSet,
        existing_files: Set<Seq<char>>,
    ) -> bool {
        let ls = spec_lines(source);
        &&& self.wf()
        &&& self.file_path@ == file_path
        &&& *self.registries == registries
        &&& *self.available_keys == available_keys
        &&& self.spec_lines() == ls
        &&& self.annotation_store.annotations@.map_values(|e: (usize, GlotAnnotation)| entry_view(e))
            == stored(annotations_upto(ls, ls.len() as int), available_keys.spec_items())
        &&& self.annotation_store.warnings@.map_values(|w: PatternWarning| warning_view(w))
            == warnings_upto(ls, ls.len() as int)
        &&& self.binding_context@ == seq![Map::<Seq<char>, TranslationSource>::empty()]
        &&& self.value_analyzer.file_path@ == file_path
        &&& *self.value_analyzer.key_object_registry == registries.key_object
        &&& *self.value_analyzer.key_array_registry == registries.key_array
        &&& *self.value_analyzer.string_array_registry == registries.string_array
        &&& self.value_analyzer.file_imports@ == file_imports
        &&& self.value_analyzer.existing_files@ == existing_files
        &&& self.value_analyzer.variable_bindings@ == Map::<Seq<char>, ValueSource>::empty()
        &&& self.value_analyzer.spec_scopes() == seq![Map::<Seq<char>, IteratorBinding>::empty()]
        &&& self.used_keys@.len() == 0
        &&& self.warnings@.len() == 0
        &&& self.schema_calls@.len() == 0
        &&& self.resolved_keys@.len() == 0
        &&& !self.in_jsx_context
        &&& !self.in_jsx_expr
    }

    /// Tells the value analyzer which files exist, for resolving imports;
    /// nothing else changes.
    pub fn set_existing_files(&mut self, files: StrSet)
        ensures
            *final(self) == (Self { value_analyzer: final(self).value_analyzer, ..*old(self) }),
            final(self).value_analyzer == (ValueAnalyzer { existing_files: final(self).value_analyzer.existing_files, ..old(self).value_analyzer }),
            final(self).value_analyzer.existing_files@ == files@,
    {
        self.value_analyzer.existing_files = files;
    }

    /// Creates a visitor for one file; annotations are read from the source text.
    pub fn new(
        file_path: &'a str,
        registries: &'a Registries,
        file_imports: &'a FileImports,
        source: &str,
        available_keys: &'a StrSet,
    ) -> (r: Self)
        ensures
            r.wf(),
            r.file_path == file_path,
            r.registries == registries,
            r.available_keys == available_keys,
            r.spec_lines() == spec_lines(source@),
            r.binding_context@ == seq![Map::<Seq<char>, TranslationSource>::empty()],
            r.value_analyzer.spec_scopes().len() == 1,
            r.value_analyzer.file_path == file_path,
            r.value_analyzer.key_object_registry == &registries.key_object,
            r.value_analyzer.key_array_registry == &registries.key_array,
            r.value_analyzer.string_array_registry == &registries.string_array,
            r.value_analyzer.file_imports == file_imports,
            r.used_keys@.len() == 0,
            r.warnings@.len() == 0,
            r.schema_calls@.len() == 0,
            r.resolved_keys@.len() == 0,
            !r.in_jsx_context,
            !r.in_jsx_expr,
            r.fresh_for(file_path@, source@, *registries, file_imports@, *available_keys, Set::<Seq<char>>::empty()),
    {
        let annotation_store = AnnotationStore::parse(source, file_path, available_keys);
        let chars = chars_of(source);
        let lines = split_lines(&chars);
        TranslationKeyVisitor {
            file_path,
            lines,
            binding_context: BindingContext::new(),
            annotation_store,
            value_analyzer: ValueAnalyzer::new(
                file_path,
                &registries.key_object,
                &registries.key_array,
                &registries.string_array,
                file_imports,
            ),
            registries,
            available_keys,
            used_keys: Vec::new(),
            warnings: Vec::new(),
            schema_calls: Vec::new(),
            resolved_keys: Vec::new(),
            in_jsx_context: false,
            in_jsx_expr: false,
        }
    }

    /// Line `n` of the source.
    fn source_line(&self, n: usize) -> (r: String)
        ensures
            r@ == self.spec_source_line(n as int),
    {
        if n >= 1 && n <= self.lines.len() {
            string_from_chars(self.lines[n - 1].as_slice())
        } else {
            String::new()
        }
    }

    /// Whether a comment on this line takes the JSX form.
    fn should_use_jsx_comment(&self, source_line: &String) -> (r: bool)
        ensures
            r == self.spec_jsx_comment(source_line@),
    {
        if !self.in_jsx_context {
            return false;
        }
        if self.in_jsx_expr {
            let c = chars_of(source_line.as_str());
            if starts_branch_exec(&c) {
                return false;
            }
        }
        true
    }

    fn add_used_key(&mut self, pos: Pos, full_key: String)
        requires
            old(self).wf(),
        ensures
            old(self).same_but_outputs(final(self)),
            final(self).wf(),
            old(self).keys_added(old(self).used_keys@, final(self).used_keys@, seq![full_key@], pos),
            final(self).warnings == old(self).warnings,
            final(self).schema_calls == old(self).schema_calls,
            final(self).resolved_keys == old(self).resolved_keys,
    {
        let source_line = self.source_line(pos.line);
        let untranslated_disabled = untranslated_disabled_at(&self.lines, pos.line);
        let in_jsx_context = self.should_use_jsx_comment(&source_line);
        let file_path = text(self.file_path);
        self.used_keys.push(UsedKey {
            full_key,
            file_path,
            line: pos.line,
            col: pos.col,
            source_line,
            in_jsx_context,
            untranslated_disabled,
        });
    }

    /// Records `key` under every namespace of the binding.
    fn add_used_keys_with_namespaces(&mut self, pos: Pos, key: &str, ts: &TranslationSource)
        requires
            old(self).wf(),
        ensures
            old(self).same_but_outputs(final(self)),
            final(self).wf(),
            old(self).keys_added(old(self).used_keys@, final(self).used_keys@, ns_keys(key@, ts.spec_namespaces()), pos),
            final(self).warnings == old(self).warnings,
            final(self).schema_calls == old(self).schema_calls,
            final(self).resolved_keys == old(self).resolved_keys,
    {
        let namespaces = ts.namespaces();
        let ghost nss = namespaces@;
        let ghost s0 = *self;
        let mut i: usize = 0;
        while i < namespaces.len()
            invariant
                nss == namespaces@,
                nss == ts.spec_namespaces(),
                i <= nss.len(),
                self.wf(),
                s0.same_but_outputs(self),
                s0.keys_added(s0.used_keys@, self.used_keys@, ns_keys(key@, nss.take(i as int)), pos),
                self.warnings == s0.warnings,
                self.schema_calls == s0.schema_calls,
                self.resolved_keys == s0.resolved_keys,
            decreases nss.len() - i,
        {
            let full = resolve_full_key(&namespaces[i], key);
            let ghost u0 = self.used_keys@;
            self.add_used_key(pos, full);
            proof {
                let ks = ns_keys(key@, nss.take(i + 1));
                assert(ks =~= ns_keys(key@, nss.take(i as int)).push(full_key(nss[i as int], key@)));
                assert forall|j: int| s0.used_keys@.len() <= j < self.used_keys@.len()
                    implies s0.used_key_at(#[trigger] self.used_keys@[j], ks[j - s0.used_keys@.len()], pos) by {
                    if j < u0.len() {
                        assert(self.used_keys@[j] == u0[j]);
                    }
                }
            }
            i = i + 1;
        }
        assert(nss.take(nss.len() as int) =~= nss);
    }

    fn add_warning(&mut self, pos: Pos, reason: DynamicKeyReason, hint: Option<String>, pattern: Option<String>)
        requires
            old(self).wf(),
        ensures
            old(self).same_but_outputs(final(self)),
            final(self).wf(),
            final(self).warnings@.len() == old(self).warnings@.len() + 1,
            is_prefix(old(self).warnings@, final(self).warnings@),
            old(self).warning_at(final(self).warnings@.last(), WarningView {
                reason,
                hint: match hint { Some(h) => Some(h@), None => None },
                pattern: match pattern { Some(p) => Some(p@), None => None },
            }, pos),
            final(self).used_keys == old(self).used_keys,
            final(self).schema_calls == old(self).schema_calls,
            final(self).resolved_keys == old(self).resolved_keys,
    {
        let source_line = self.source_line(pos.line);
        let in_jsx_context = self.should_use_jsx_comment(&source_line);
        let file_path = text(self.file_path);
        self.warnings.push(DynamicKeyWarning {
            file_path,
            line: pos.line,
            col: pos.col,
            reason,
            source_line,
            hint,
            pattern,
            in_jsx_context,
        });
    }

    /// `r` records what the value analyzer made of `arg` in a call at `pos` under `ts`.
    pub open spec fn resolved_at(&self, r: ResolvedKey, ts: TranslationSource, arg: Expr, pos: Pos) -> bool {
        &&& r.file_path@ == self.file_path@
        &&& r.line == pos.line
        &&& r.col == pos.col
        &&& r.source_line@ == self.spec_source_line(pos.line as int)
        &&& r.namespace == ts.spec_primary_namespace()
        &&& source_view(r.source) == self.value_analyzer.spec_analyze(arg)
    }

    /// `after` is `before` with the warning `w` (if any) at `pos` appended.
    pub open spec fn warning_added(&self, before: Seq<DynamicKeyWarning>, after: Seq<DynamicKeyWarning>, w: Option<WarningView>, pos: Pos) -> bool {
        match w {
            Some(v) => after.len() == before.len() + 1 && is_prefix(before, after) && self.warning_at(after.last(), v, pos),
            None => after == before,
        }
    }

    proof fn lemma_keys_added_concat(&self, a: Seq<UsedKey>, b: Seq<UsedKey>, c: Seq<UsedKey>, k1: Seq<Seq<char>>, k2: Seq<Seq<char>>, pos: Pos)
        requires
            self.keys_added(a, b, k1, pos),
            self.keys_added(b, c, k2, pos),
        ensures
            self.keys_added(a, c, k1 + k2, pos),
    {
        let k = k1 + k2;
        assert forall|j: int| a.len() <= j < c.len() implies self.used_key_at(#[trigger] c[j], k[j - a.len()], pos) by {
            if j < b.len() {
                assert(c[j] == b[j]);
                assert(self.used_key_at(b[j], k1[j - a.len()], pos));
            } else {
                assert(self.used_key_at(c[j], k2[j - b.len()], pos));
            }
        }
    }

    /// Records the usages of a list of full keys.
    fn add_used_key_list(&mut self, pos: Pos, keys: Vec<String>)
        requires
            old(self).wf(),
        ensures
            old(self).same_but_outputs(final(self)),
            final(self).wf(),
            old(self).keys_added(old(self).used_keys@, final(self).used_keys@, svw(keys@), pos),
            final(self).warnings == old(self).warnings,
            final(self).schema_calls == old(self).schema_calls,
            final(self).resolved_keys == old(self).resolved_keys,
    {
        let ghost s0 = *self;
        let ghost kv = svw(keys@);
        let mut i: usize = 0;
        while i < keys.len()
            invariant
                i <= keys@.len(),
                kv == svw(keys@),
                self.wf(),
                s0.same_but_outputs(self),
                s0.keys_added(s0.used_keys@, self.used_keys@, kv.take(i as int), pos),
                self.warnings == s0.warnings,
                self.schema_calls == s0.schema_calls,
                self.resolved_keys == s0.resolved_keys,
            decreases keys@.len() - i,
        {
            let ghost u0 = self.used_keys@;
            self.add_used_key(pos, keys[i].clone());
            proof {
                assert(kv.take(i + 1) =~= kv.take(i as int) + seq![keys@[i as int]@]);
                s0.lemma_keys_added_concat(s0.used_keys@, u0, self.used_keys@, kv.take(i as int), seq![keys@[i as int]@], pos);
            }
            i = i + 1;
        }
        assert(kv.take(kv.len() as int) =~= kv);
    }

    /// Records a call of a translation function bound to `ts`: what the value
    /// analyzer makes of its first argument, then the keys it uses or a warning.
    fn record_translation_call(&mut self, c: &CallExpr, ts: &TranslationSource)
        requires
            old(self).wf(),
            c.args@.len() > 0,
        ensures
            old(self).same_but_outputs(final(self)),
            final(self).wf(),
            final(self).resolved_keys@.len() == old(self).resolved_keys@.len() + 1,
            is_prefix(old(self).resolved_keys@, final(self).resolved_keys@),
            old(self).resolved_at(final(self).resolved_keys@.last(), *ts, c.args@[0].expr, c.pos),
            old(self).keys_added(old(self).used_keys@, final(self).used_keys@,
                old(self).spec_call_keys(*ts, c.args@[0].expr, c.pos.line as int), c.pos),
            old(self).warning_added(old(self).warnings@, final(self).warnings@,
                old(self).spec_call_warning(*ts, c.args@[0].expr, c.pos.line as int), c.pos),
            final(self).schema_calls == old(self).schema_calls,
    {
        let ghost s0 = *self;
        let arg = &c.args[0].expr;
        let pos = c.pos;
        let namespace = ts.primary_namespace();
        let source = self.value_analyzer.analyze_expr(arg);
        let source_line = self.source_line(pos.line);
        let is_resolvable = source.resolve_keys().is_ok();
        proof { lemma_resolve_view(source); }
        assert(is_resolvable == !s0.unresolvable(*arg));
        self.resolved_keys.push(ResolvedKey {
            file_path: text(self.file_path),
            line: pos.line,
            col: pos.col,
            source_line,
            namespace: clone_opt_string(&namespace),
            source,
        });
        let ghost s1 = *self;
        assert(s1.used_keys == s0.used_keys);
        let u = unwrap_paren(arg);
        match u {
            Expr::Str(v, _) => {
                match v {
                    Some(k) => self.add_used_keys_with_namespaces(pos, k.as_str(), ts),
                    None => {},
                }
            },
            Expr::Tpl(t) => {
                if t.exprs.len() == 0 {
                    if t.quasis.len() > 0 {
                        match &t.quasis[0].cooked {
                            Some(k) => self.add_used_keys_with_namespaces(pos, k.as_str(), ts),
                            None => {},
                        }
                    }
                } else {
                    self.record_unresolved(c, ts, is_resolvable);
                }
            },
            Expr::Cond { cons, alt, .. } => {
                let k1 = extract_string_key(cons);
                let k2 = extract_string_key(alt);
                match (k1, k2) {
                    (Some(a), Some(b)) => {
                        self.add_used_keys_with_namespaces(pos, a.as_str(), ts);
                        let ghost u1 = self.used_keys@;
                        self.add_used_keys_with_namespaces(pos, b.as_str(), ts);
                        proof {
                            s1.lemma_keys_added_concat(s1.used_keys@, u1, self.used_keys@,
                                ns_keys(a@, ts.spec_namespaces()), ns_keys(b@, ts.spec_namespaces()), pos);
                        }
                    },
                    _ => {
                        if !is_resolvable {
                            let reason = if is_template_with_expr(cons) || is_template_with_expr(alt) {
                                DynamicKeyReason::TemplateWithExpr
                            } else {
                                DynamicKeyReason::VariableKey
                            };
                            self.add_warning(pos, reason, None, None);
                        }
                    },
                }
            },
            _ => {
                self.record_unresolved(c, ts, is_resolvable);
            },
        }
    }

    /// A call whose argument is not a literal form: when the value analyzer
    /// cannot resolve it, the annotation of its line gives its keys, or else a
    /// warning (with a suggested pattern for a template) is recorded.
    fn record_unresolved(&mut self, c: &CallExpr, ts: &TranslationSource, is_resolvable: bool)
        requires
            old(self).wf(),
            c.args@.len() > 0,
            !literal_form(spec_unwrap_paren(c.args@[0].expr)),
            is_resolvable == !old(self).unresolvable(c.args@[0].expr),
        ensures
            old(self).same_but_outputs(final(self)),
            final(self).wf(),
            old(self).keys_added(old(self).used_keys@, final(self).used_keys@,
                old(self).spec_call_keys(*ts, c.args@[0].expr, c.pos.line as int), c.pos),
            old(self).warning_added(old(self).warnings@, final(self).warnings@,
                old(self).spec_call_warning(*ts, c.args@[0].expr, c.pos.line as int), c.pos),
            final(self).schema_calls == old(self).schema_calls,
            final(self).resolved_keys == old(self).resolved_keys,
    {
        let ghost s0 = *self;
        let pos = c.pos;
        if is_resolvable {
            return;
        }
        let arg = &c.args[0].expr;
        let found = match self.annotation_store.get_annotation(pos.line) {
            Some(ann) => Some((crate::text::clone_strings(&ann.keys), crate::text::clone_strings(&ann.relative_patterns))),
            None => None,
        };
        match found {
            Some((keys, rel)) => {
                proof {
                    lemma_entry_for_bound(s0.annotation_store.annotations@, pos.line as int);
                    lemma_entry_for_bound(s0.annotation_store.annotations@, pos.line - 1);
                }
                let ghost ann = s0.spec_annotation(pos.line as int)->0;
                assert(crate::annotation_store::relative_ok(ann));
                let expanded = AnnotationStore::expand_relative_patterns(rel.as_slice(), ts, self.available_keys);
                let ghost kv = svw(keys@);
                self.add_used_key_list(pos, keys);
                let ghost u1 = self.used_keys@;
                let ghost ev = svw(expanded@);
                self.add_used_key_list(pos, expanded);
                proof {
                    s0.lemma_keys_added_concat(s0.used_keys@, u1, self.used_keys@, kv, ev, pos);
                }
            },
            None => {
                let u = unwrap_paren(arg);
                match u {
                    Expr::Tpl(t) => {
                        let pattern = if ts.is_indirect() {
                            match infer_pattern_from_template(t, &None) {
                                Some(p) => Some(relative_pattern(p.as_str())),
                                None => None,
                            }
                        } else {
                            let ns = ts.primary_namespace();
                            infer_pattern_from_template(t, &ns)
                        };
                        let hint = match &pattern {
                            Some(p) => Some(pattern_hint(p.as_str(), self.in_jsx_context)),
                            None => None,
                        };
                        self.add_warning(pos, DynamicKeyReason::TemplateWithExpr, hint, pattern);
                    },
                    _ => {
                        self.add_warning(pos, DynamicKeyReason::VariableKey, None, None);
                    },
                }
            },
        }
    }

    /// The binding of a name when it is a tracked translation function (not shadowed).
    pub open spec fn tracked_binding(&self, name: Seq<char>) -> Option<TranslationSource> {
        match scopes_lookup(self.binding_context@, name) {
            Some(ts) => if ts is Shadowed { None } else { Some(ts) },
            None => None,
        }
    }

    /// The translation function called in `t(...)`, when `t` is a tracked binding.
    pub open spec fn site_binding(&self, c: CallExpr) -> Option<TranslationSource> {
        match c.callee {
            Some(b) => match *b {
                Expr::Ident(n) => self.tracked_binding(n@),
                _ => None,
            },
            None => None,
        }
    }

    /// The translation function in `t.raw(...)`, `t.rich(...)` or `t.markup(...)`.
    pub open spec fn site_method_binding(&self, c: CallExpr) -> Option<TranslationSource> {
        match c.callee {
            Some(b) => match *b {
                Expr::Member { obj, prop } => match (*obj, prop) {
                    (Expr::Ident(o), MemberProp::Ident(m)) => if spec_is_key_method(m@) { self.tracked_binding(o@) } else { None },
                    _ => None,
                },
                _ => None,
            },
            None => None,
        }
    }

    /// The keys a call site records itself (its arguments' own calls aside).
    pub open spec fn site_keys(&self, c: CallExpr) -> Seq<Seq<char>> {
        if c.args@.len() == 0 {
            Seq::empty()
        } else {
            match self.site_binding(c) {
                Some(ts) => self.spec_call_keys(ts, c.args@[0].expr, c.pos.line as int),
                None => match self.site_method_binding(c) {
                    Some(ts) => match spec_string_key(c.args@[0].expr) {
                        Some(k) => ns_keys(k, ts.spec_namespaces()),
                        None => Seq::empty(),
                    },
                    None => Seq::empty(),
                },
            }
        }
    }

    /// The warning a call site records itself, if any.
    pub open spec fn site_warning(&self, c: CallExpr) -> Option<WarningView> {
        if c.args@.len() == 0 {
            None
        } else {
            match self.site_binding(c) {
                Some(ts) => self.spec_call_warning(ts, c.args@[0].expr, c.pos.line as int),
                None => None,
            }
        }
    }

    /// The namespace of a schema function call recorded at this site, if one is:
    /// `schemaFn(t)` with `schemaFn` registered and `t` tracked (or any other first argument).
    pub open spec fn site_schema(&self, c: CallExpr) -> Option<Option<String>> {
        match c.callee {
            Some(b) => match *b {
                Expr::Ident(n) => if self.registries.schema@.contains_key(n@) && c.args@.len() > 0 {
                    match c.args@[0].expr {
                        Expr::Ident(tv) => match self.tracked_binding(tv@) {
                            Some(ts) => Some(ts.spec_primary_namespace()),
                            None => None,
                        },
                        _ => Some(None),
                    }
                } else {
                    None
                },
                _ => None,
            },
            None => None,
        }
    }

    /// What this site adds, at the start of what the whole call adds.
    pub open spec fn site_recorded(&self, after: &Self, c: CallExpr) -> bool {
        let pos = c.pos;
        let keys = self.site_keys(c);
        let n = self.used_keys@.len() as int;
        let w = self.warnings@.len() as int;
        let r = self.resolved_keys@.len() as int;
        let sc = self.schema_calls@.len() as int;
        &&& after.used_keys@.len() >= n + keys.len()
        &&& forall|j: int| n <= j < n + keys.len() ==> self.used_key_at(#[trigger] after.used_keys@[j], keys[j - n], pos)
        &&& (match self.site_warning(c) {
            Some(v) => after.warnings@.len() > w && self.warning_at(after.warnings@[w], v, pos),
            None => true,
        })
        &&& (match self.site_binding(c) {
            Some(ts) => c.args@.len() > 0 ==> after.resolved_keys@.len() > r
                && self.resolved_at(after.resolved_keys@[r], ts, c.args@[0].expr, pos),
            None => true,
        })
        &&& (match self.site_schema(c) {
            Some(ns) => after.schema_calls@.len() > sc && {
                let info = after.schema_calls@[sc];
                &&& info.namespace == ns
                &&& info.line == pos.line
                &&& info.col == pos.col
                &&& (match c.callee { Some(b) => match *b { Expr::Ident(name) => info.schema_name@ == name@, _ => true }, None => true })
            },
            None => true,
        })
    }

    fn lookup_tracked(&self, name: &str) -> (r: Option<TranslationSource>)
        ensures
            (r is Some) == (self.tracked_binding(name@) is Some),
            r is Some ==> r->0.same_as(self.tracked_binding(name@)->0),
    {
        match self.binding_context.get_binding(name) {
            Some(ts) => if ts.is_shadowed() { None } else { Some(ts.duplicate()) },
            None => None,
        }
    }

    proof fn lemma_same_source(&self, a: TranslationSource, b: TranslationSource, arg: Expr, n: int)
        requires
            a.same_as(b),
        ensures
            self.spec_call_keys(a, arg, n) == self.spec_call_keys(b, arg, n),
            self.spec_call_warning(a, arg, n) == self.spec_call_warning(b, arg, n),
            a.spec_primary_namespace() == b.spec_primary_namespace(),
    {
        if a is Direct {
            assert(a.spec_namespaces()[0] == b.spec_namespaces()[0]);
        }
    }

    /// Records a schema function call `schemaFn(t)`.
    fn record_schema_call(&mut self, c: &CallExpr, name: &String)
        requires
            old(self).wf(),
            c.callee matches Some(b) && *b == Expr::Ident(*name),
        ensures
            old(self).same_but_outputs(final(self)),
            final(self).wf(),
            final(self).used_keys == old(self).used_keys,
            final(self).warnings == old(self).warnings,
            final(self).resolved_keys == old(self).resolved_keys,
            match old(self).site_schema(*c) {
                Some(ns) => final(self).schema_calls@.len() == old(self).schema_calls@.len() + 1
                    && is_prefix(old(self).schema_calls@, final(self).schema_calls@)
                    && final(self).schema_calls@.last().namespace == ns
                    && final(self).schema_calls@.last().schema_name@ == name@
                    && final(self).schema_calls@.last().line == c.pos.line
                    && final(self).schema_calls@.last().col == c.pos.col,
                None => final(self).schema_calls == old(self).schema_calls,
            },
    {
        if self.registries.schema.contains_key(name.as_str()) && c.args.len() > 0 {
            let (should_record, namespace) = match &c.args[0].expr {
                Expr::Ident(tv) => match self.lookup_tracked(tv.as_str()) {
                    Some(ts) => {
                        proof {
                            let b = self.tracked_binding(tv@)->0;
                            if ts is Direct {
                                assert(ts.spec_namespaces()[0] == b.spec_namespaces()[0]);
                            }
                        }
                        (true, ts.primary_namespace())
                    },
                    None => (false, None),
                },
                _ => (true, None),
            };
            if should_record {
                self.schema_calls.push(SchemaCallInfo {
                    schema_name: name.clone(),
                    namespace,
                    line: c.pos.line,
                    col: c.pos.col,
                });
            }
        }
    }

    /// Records what a call site says by itself: a translation call `t(...)`,
    /// a schema function call, or `t.raw(...)`/`t.rich(...)`/`t.markup(...)`.
    fn record_site(&mut self, c: &CallExpr)
        requires
            old(self).wf(),
        ensures
            old(self).same_but_outputs(final(self)),
            old(self).kept(final(self)),
            old(self).site_recorded(final(self), *c),
            old(self).site_step(*c, *final(self)),
    {
        let ghost s0 = *self;
        match &c.callee {
            Some(callee) => match &**callee {
                Expr::Ident(name) => {
                    if c.args.len() > 0 {
                        match self.lookup_tracked(name.as_str()) {
                            Some(ts) => {
                                proof {
                                    s0.lemma_same_source(ts, s0.tracked_binding(name@)->0, c.args@[0].expr, c.pos.line as int);
                                }
                                self.record_translation_call(c, &ts);
                            },
                            None => {},
                        }
                    }
                    let ghost s1 = *self;
                    self.record_schema_call(c, name);
                    assert(s1.site_schema(*c) == s0.site_schema(*c));
                },
                Expr::Member { obj, prop } => {
                    match (&**obj, prop) {
                        (Expr::Ident(o), MemberProp::Ident(m)) => {
                            if is_key_method(m.as_str()) && c.args.len() > 0 {
                                match self.lookup_tracked(o.as_str()) {
                                    Some(ts) => {
                                        match extract_string_key(&c.args[0].expr) {
                                            Some(k) => self.add_used_keys_with_namespaces(c.pos, k.as_str(), &ts),
                                            None => {},
                                        }
                                    },
                                    None => {},
                                }
                            }
                        },
                        _ => {},
                    }
                },
                _ => {},
            },
            None => {},
        }
    }

    proof fn lemma_kept_trans(a: Self, b: Self, c: Self)
        requires
            a.kept(&b),
            b.kept(&c),
        ensures
            a.kept(&c),
    {
    }

    /// Binds `binding` to the namespaces of the registered prop `component.prop`, if it is registered.
    fn try_register_translation_prop(&mut self, component_name: &str, prop_name: &str, binding_name: &str)
        requires
            old(self).wf(),
        ensures
            old(self).kept(final(self)),
            *final(self) == (Self { binding_context: final(self).binding_context, ..*old(self) }),
            scopes_view(final(self).binding_context@) == prop_bind_v(scopes_view(old(self).binding_context@),
                old(self).registries.translation_prop@, component_name@, prop_name@, binding_name@),
            final(self).value_analyzer == old(self).value_analyzer,
            final(self).used_keys == old(self).used_keys,
            final(self).warnings == old(self).warnings,
            final(self).schema_calls == old(self).schema_calls,
            final(self).resolved_keys == old(self).resolved_keys,
            match old(self).registries.translation_prop@.get(dotted(component_name@, prop_name@)) {
                Some(tp) => scopes_lookup(final(self).binding_context@, binding_name@) matches Some(ts)
                    && ts is FromProps && ts.spec_namespaces() == tp.namespaces@,
                None => final(self).binding_context == old(self).binding_context,
            },
    {
        let key = crate::key_objects::make_translation_prop_key(component_name, prop_name);
        match self.registries.translation_prop.get(key.as_str()) {
            Some(tp) => {
                let namespaces = crate::text::clone_opt_strings(&tp.namespaces);
                let src = TranslationSource::FromProps { namespaces };
                let ghost s0 = self.binding_context@;
                self.binding_context.insert_binding(text(binding_name), src);
                proof {
                    lemma_bind_view(s0, binding_name@, src);
                    crate::binding_context::law_insert_then_lookup(s0, binding_name@, src);
                }
            },
            None => {},
        }
    }

    /// Registers the translation props a component's first parameter destructures:
    /// `{ t }`, `{ t = fallback }`, `{ t: translate }`.
    #[verifier::loop_isolation(false)]
    fn register_translation_props_from_pat(&mut self, component_name: &str, pat: &Pat)
        requires
            old(self).wf(),
        ensures
            old(self).kept(final(self)),
            *final(self) == (Self { binding_context: final(self).binding_context, ..*old(self) }),
            scopes_view(final(self).binding_context@) == from_pat_v(scopes_view(old(self).binding_context@),
                old(self).registries.translation_prop@, component_name@, *pat),
    {
        let ghost s0 = *self;
        let ghost reg = self.registries.translation_prop@;
        match pat {
            Pat::Object(props) => {
                let mut i: usize = 0;
                while i < props.len()
                    invariant
                        i <= props@.len(),
                        s0.kept(self),
                        *self == (Self { binding_context: self.binding_context, ..s0 }),
                        scopes_view(self.binding_context@) == props_v(scopes_view(s0.binding_context@), reg, component_name@, props@.take(i as int)),
                    decreases props@.len() - i,
                {
                    proof { assert(props@.take(i + 1).drop_last() =~= props@.take(i as int)); }
                    match &props[i] {
                        ObjectPatProp::KeyValue { key, value } => {
                            match key {
                                PropName::Ident(k) => {
                                    match extract_binding_name_from_pat(value) {
                                        Some(b) => self.try_register_translation_prop(component_name, k.as_str(), b.as_str()),
                                        None => {},
                                    }
                                },
                                _ => {},
                            }
                        },
                        ObjectPatProp::Assign { key, .. } => {
                            self.try_register_translation_prop(component_name, key.as_str(), key.as_str());
                        },
                        ObjectPatProp::Rest(_) => {},
                    }
                    i = i + 1;
                }
                proof { assert(props@.take(props@.len() as int) =~= props@); }
            },
            _ => {},
        }
    }

    /// Binds the parameters of a function that is called with a translation
    /// function (registered as `file.fn.index`, or as `file.default.index` for
    /// the file's default export); then every other parameter name that
    /// shadows an outer binding is marked shadowed.
    #[verifier::loop_isolation(false)]
    fn register_translation_fn_params(&mut self, fn_name: &str, params: &Vec<Pat>)
        requires
            old(self).wf(),
        ensures
            old(self).kept(final(self)),
            *final(self) == (Self { binding_context: final(self).binding_context, ..*old(self) }),
            ({
                let r = fn_params_v(scopes_view(old(self).binding_context@), old(self).registries.translation_fn_call@,
                    old(self).file_path@, fn_name@, old(self).is_default_export(fn_name@), params@);
                scopes_view(final(self).binding_context@) == shadow_params_v(r.0, r.1, params@)
            }),
    {
        let ghost s0 = *self;
        let ghost calls = self.registries.translation_fn_call@;
        let is_default_export = match self.registries.default_exports.get(self.file_path) {
            Some(d) => crate::text::str_eq(d.as_str(), fn_name),
            None => false,
        };
        assert(is_default_export == s0.is_default_export(fn_name@));
        let mut registered = StrSet::new();
        let mut idx: usize = 0;
        while idx < params.len()
            invariant
                idx <= params@.len(),
                s0.kept(self),
                *self == (Self { binding_context: self.binding_context, ..s0 }),
                (scopes_view(self.binding_context@), registered@) == fn_params_v(scopes_view(s0.binding_context@), calls,
                    s0.file_path@, fn_name@, is_default_export, params@.take(idx as int)),
            decreases params@.len() - idx,
        {
            proof { assert(params@.take(idx + 1).drop_last() =~= params@.take(idx as int)); }
            match &params[idx] {
                Pat::Ident { name, .. } => {
                    let key = crate::key_objects::make_translation_fn_call_key(self.file_path, fn_name, idx);
                    let found = match self.registries.translation_fn_call.get(key.as_str()) {
                        Some(fc) => Some(crate::text::clone_opt_strings(&fc.namespaces)),
                        None => {
                            if is_default_export {
                                let dkey = crate::key_objects::make_translation_fn_call_key(self.file_path, "default", idx);
                                match self.registries.translation_fn_call.get(dkey.as_str()) {
                                    Some(fc) => Some(crate::text::clone_opt_strings(&fc.namespaces)),
                                    None => None,
                                }
                            } else {
                                None
                            }
                        },
                    };
                    proof {
                        let ns = fn_param_ns(calls, s0.file_path@, fn_name@, is_default_export, idx as int);
                        assert(match found { Some(v) => ns == Some(v@), None => ns is None });
                    }
                    match found {
                        Some(namespaces) => {
                            let ghost sc = self.binding_context@;
                            let src = TranslationSource::FromFnCall { namespaces };
                            self.binding_context.insert_binding(name.clone(), src);
                            proof { lemma_bind_view(sc, name@, src); }
                            registered.insert(name.clone());
                        },
                        None => {},
                    }
                },
                _ => {},
            }
            idx = idx + 1;
        }
        proof { assert(params@.take(params@.len() as int) =~= params@); }
        let ghost s1v = scopes_view(self.binding_context@);
        let ghost reg = registered@;
        let mut p: usize = 0;
        while p < params.len()
            invariant
                p <= params@.len(),
                s0.kept(self),
                *self == (Self { binding_context: self.binding_context, ..s0 }),
                registered@ == reg,
                scopes_view(self.binding_context@) == shadow_params_v(s1v, reg, params@.take(p as int)),
            decreases params@.len() - p,
        {
            proof { assert(params@.take(p + 1).drop_last() =~= params@.take(p as int)); }
            let names = extract_binding_names(&params[p]);
            let ghost nv = pat_names(params@[p as int]);
            let ghost base = scopes_view(self.binding_context@);
            let mut j: usize = 0;
            while j < names.len()
                invariant
                    j <= names@.len(),
                    nv == crate::text::strs_view(names@),
                    s0.kept(self),
                    *self == (Self { binding_context: self.binding_context, ..s0 }),
                    registered@ == reg,
                    scopes_view(self.binding_context@) == shadow_names_v(base, reg, nv.take(j as int)),
                decreases names@.len() - j,
            {
                proof {
                    assert(nv.take(j + 1).drop_last() =~= nv.take(j as int));
                    assert(nv[j as int] == names@[j as int]@);
                }
                let name = &names[j];
                proof { lemma_has_view(self.binding_context@, name@); }
                if !registered.contains(name.as_str())
                    && !self.binding_context.is_in_current_scope(name.as_str())
                    && self.binding_context.has_outer_binding(name.as_str()) {
                    let ghost sc = self.binding_context@;
                    self.binding_context.insert_binding(name.clone(), TranslationSource::Shadowed);
                    proof { lemma_bind_view(sc, name@, TranslationSource::Shadowed); }
                }
                j = j + 1;
            }
            proof {
                assert(nv.take(nv.len() as int) =~= nv);
                assert(params@.take(p + 1).last() == params@[p as int]);
            }
            p = p + 1;
        }
        proof { assert(params@.take(params@.len() as int) =~= params@); }
    }

    /// Registers the bindings a function's parameters give, before its body is walked.
    fn register_params(&mut self, fn_name: &str, params: &Vec<Pat>)
        requires
            old(self).wf(),
        ensures
            old(self).kept(final(self)),
            old(self).params_step(fn_name@, *params, *final(self)),
            final(self).value_analyzer == old(self).value_analyzer,
            final(self).used_keys == old(self).used_keys,
            final(self).warnings == old(self).warnings,
            final(self).schema_calls == old(self).schema_calls,
            final(self).resolved_keys == old(self).resolved_keys,
    {
        if params.len() > 0 {
            self.register_translation_props_from_pat(fn_name, &params[0]);
        }
        self.register_translation_fn_params(fn_name, params);
    }

    /// Walks a module.
    pub fn visit_module(&mut self, m: &Module)
        requires
            old(self).wf(),
        ensures
            old(self).kept(final(self)),
            exists|t: WalkTrace<'a>| #[trigger] old(self).w_statements(m.body, m.body@.len() as int, *final(self), t),
    {
        self.visit_stmts(&m.body);
    }

    /// Walks a module and hands out what was found.
    pub fn extract(self, m: &Module) -> (r: MissingKeyResult)
        requires
            self.wf(),
        ensures
            forall|i: int| 0 <= i < r.used_keys@.len() ==> (#[trigger] r.used_keys@[i]).file_path@ == self.file_path@,
            forall|i: int| 0 <= i < r.warnings@.len() ==> (#[trigger] r.warnings@[i]).file_path@ == self.file_path@,
            forall|i: int| 0 <= i < r.resolved_keys@.len() ==> (#[trigger] r.resolved_keys@[i]).file_path@ == self.file_path@,
            is_prefix(self.used_keys@, r.used_keys@),
            is_prefix(self.warnings@, r.warnings@),
            is_prefix(self.schema_calls@, r.schema_calls@),
            is_prefix(self.resolved_keys@, r.resolved_keys@),
            r.pattern_warnings == self.annotation_store.warnings,
            exists|after: Self, t: WalkTrace<'a>| #[trigger] self.w_statements(m.body, m.body@.len() as int, after, t)
                && r.used_keys == after.used_keys && r.warnings == after.warnings
                && r.schema_calls == after.schema_calls && r.resolved_keys == after.resolved_keys,
    {
        let mut v = self;
        v.visit_module(m);
        MissingKeyResult {
            used_keys: v.used_keys,
            warnings: v.warnings,
            schema_calls: v.schema_calls,
            resolved_keys: v.resolved_keys,
            pattern_warnings: v.annotation_store.warnings,
        }
    }

    /// The same as [`Self::extract`].
    pub fn check(self, m: &Module) -> (r: MissingKeyResult)
        requires
            self.wf(),
        ensures
            forall|i: int| 0 <= i < r.used_keys@.len() ==> (#[trigger] r.used_keys@[i]).file_path@ == self.file_path@,
            forall|i: int| 0 <= i < r.warnings@.len() ==> (#[trigger] r.warnings@[i]).file_path@ == self.file_path@,
            forall|i: int| 0 <= i < r.resolved_keys@.len() ==> (#[trigger] r.resolved_keys@[i]).file_path@ == self.file_path@,
            is_prefix(self.used_keys@, r.used_keys@),
            is_prefix(self.warnings@, r.warnings@),
            is_prefix(self.schema_calls@, r.schema_calls@),
            is_prefix(self.resolved_keys@, r.resolved_keys@),
            r.pattern_warnings == self.annotation_store.warnings,
            exists|after: Self, t: WalkTrace<'a>| #[trigger] self.w_statements(m.body, m.body@.len() as int, after, t)
                && r.used_keys == after.used_keys && r.warnings == after.warnings
                && r.schema_calls == after.schema_calls && r.resolved_keys == after.resolved_keys,
    {
        self.extract(m)
    }

    #[verifier::loop_isolation(false)]
    fn visit_stmts(&mut self, v: &Vec<Stmt>)
        requires
            old(self).wf(),
        ensures
            old(self).kept(final(self)),
            exists|t: WalkTrace<'a>| #[trigger] old(self).w_statements(*v, v@.len() as int, *final(self), t),
        decreases v, 0nat,
    {
        let ghost s0 = *self;
        let mut i: usize = 0;
        proof { assert(s0.w_statements(*v, 0, *self, Self::no_trace())); }
        while i < v.len()
            invariant
                i <= v@.len(),
                s0.kept(self),
                exists|t: WalkTrace<'a>| #[trigger] s0.w_statements(*v, i as int, *self, t),
            decreases v@.len() - i,
        {
            proof { assert(decreases_to!(v => v@[i as int])); }
            let ghost m = *self;
            let ghost t0 = choose|t: WalkTrace<'a>| s0.w_statements(*v, i as int, m, t);
            self.visit_stmt(&v[i]);
            proof {
                Self::lemma_kept_trans(s0, m, *self);
                let t1 = choose|t: WalkTrace<'a>| m.w_stmt(v@[i as int], *self, t);
                let t = WalkTrace { states: seq![m], subs: seq![t0, t1] };
                assert(s0.w_statements(*v, (i + 1) - 1, t.states[0], t.subs[0]));
                assert(s0.w_statements(*v, i + 1, *self, t));
            }
            i = i + 1;
        }
    }

    fn visit_stmt(&mut self, st: &Stmt)
        requires
            old(self).wf(),
        ensures
            old(self).kept(final(self)),
            exists|t: WalkTrace<'a>| #[trigger] old(self).w_stmt(*st, *final(self), t),
        decreases st, 0nat,
    {
        let ghost s0 = *self;
        match st {
            Stmt::Expr(e) => {
                self.visit_expr(e);
                proof { let t = choose|t: WalkTrace<'a>| s0.w_expr(*e, *self, t); assert(s0.w_stmt(*st, *self, t)); }
            },
            Stmt::Var(v) => {
                self.visit_var_decl(v);
                proof { let t = choose|t: WalkTrace<'a>| s0.w_var_decl(*v, *self, t); assert(s0.w_stmt(*st, *self, t)); }
            },
            Stmt::Fn(f) => {
                self.visit_fn_decl(f);
                proof { let t = choose|t: WalkTrace<'a>| s0.w_fn_decl(*f, *self, t); assert(s0.w_stmt(*st, *self, t)); }
            },
            Stmt::Import(_) => {
                proof { assert(s0.w_stmt(*st, *self, Self::no_trace())); }
            },
            Stmt::ExportDecl(d) => match d {
                Decl::Var(v) => {
                    self.visit_var_decl(v);
                    proof { let t = choose|t: WalkTrace<'a>| s0.w_var_decl(*v, *self, t); assert(s0.w_stmt(*st, *self, t)); }
                },
                Decl::Fn(f) => {
                    self.visit_fn_decl(f);
                    proof { let t = choose|t: WalkTrace<'a>| s0.w_fn_decl(*f, *self, t); assert(s0.w_stmt(*st, *self, t)); }
                },
                Decl::Other(children) => {
                    self.visit_stmts(children);
                    proof { let t = choose|t: WalkTrace<'a>| s0.w_statements(*children, children@.len() as int, *self, t); assert(s0.w_stmt(*st, *self, t)); }
                },
            },
            Stmt::ExportDefaultFn(d) => {
                self.visit_default_fn(d);
                proof { let t = choose|t: WalkTrace<'a>| s0.w_default_fn(*d, *self, t); assert(s0.w_stmt(*st, *self, t)); }
            },
            Stmt::ExportDefaultExpr(e) => {
                self.visit_default_expr(e);
                proof { let t = choose|t: WalkTrace<'a>| s0.w_default_expr(*e, *self, t); assert(s0.w_stmt(*st, *self, t)); }
            },
            Stmt::ExportDefaultClass { body, .. } => {
                self.visit_stmts(body);
                proof { let t = choose|t: WalkTrace<'a>| s0.w_statements(*body, body@.len() as int, *self, t); assert(s0.w_stmt(*st, *self, t)); }
            },
            Stmt::Other(children) => {
                self.visit_stmts(children);
                proof { let t = choose|t: WalkTrace<'a>| s0.w_statements(*children, children@.len() as int, *self, t); assert(s0.w_stmt(*st, *self, t)); }
            },
        }
    }

    /// `function Name(...) { ... }`: a scope with the parameters' bindings.
    fn visit_fn_decl(&mut self, f: &FnDecl)
        requires
            old(self).wf(),
        ensures
            old(self).kept(final(self)),
            exists|t: WalkTrace<'a>| #[trigger] old(self).w_fn_decl(*f, *final(self), t),
        decreases f, 0nat,
    {
        let ghost s0 = *self;
        self.binding_context.enter_scope();
        let ghost m1 = *self;
        self.register_params(f.ident.as_str(), &f.function.params);
        let ghost m2 = *self;
        self.visit_function_parts(&f.function);
        let ghost m3 = *self;
        self.binding_context.exit_scope();
        proof {
            let t1 = choose|t: WalkTrace<'a>| m2.w_function_parts(f.function, m3, t);
            let t = WalkTrace { states: seq![m1, m2, m3], subs: seq![t1] };
            assert(s0.bc_entered(m1));
            assert(m3.bc_exited(*self));
            assert(s0.w_fn_decl(*f, *self, t));
        }
    }

    /// `export default function [Name](...) { ... }`; an anonymous one is named `default`.
    fn visit_default_fn(&mut self, d: &DefaultFn)
        requires
            old(self).wf(),
        ensures
            old(self).kept(final(self)),
            exists|t: WalkTrace<'a>| #[trigger] old(self).w_default_fn(*d, *final(self), t),
        decreases d, 0nat,
    {
        let ghost s0 = *self;
        self.binding_context.enter_scope();
        let ghost m1 = *self;
        let name = match &d.ident {
            Some(n) => n.clone(),
            None => text("default"),
        };
        assert(name@ == Self::default_name(*d));
        self.register_params(name.as_str(), &d.function.params);
        let ghost m2 = *self;
        self.visit_function_parts(&d.function);
        let ghost m3 = *self;
        self.binding_context.exit_scope();
        proof {
            let t1 = choose|t: WalkTrace<'a>| m2.w_function_parts(d.function, m3, t);
            let t = WalkTrace { states: seq![m1, m2, m3], subs: seq![t1] };
            assert(s0.bc_entered(m1));
            assert(m3.bc_exited(*self));
            assert(s0.w_default_fn(*d, *self, t));
        }
    }

    /// `export default <expr>`: an arrow function there is the `default` function.
    fn visit_default_expr(&mut self, e: &Expr)
        requires
            old(self).wf(),
        ensures
            old(self).kept(final(self)),
            exists|t: WalkTrace<'a>| #[trigger] old(self).w_default_expr(*e, *final(self), t),
        decreases e, 1nat,
    {
        let ghost s0 = *self;
        match e {
            Expr::Arrow(a) => {
                self.binding_context.enter_scope();
                let ghost m1 = *self;
                self.register_params("default", &a.params);
                let ghost m2 = *self;
                self.visit_arrow_parts(a);
                let ghost m3 = *self;
                self.binding_context.exit_scope();
                proof {
                    let t1 = choose|t: WalkTrace<'a>| m2.w_arrow_parts(*a, m3, t);
                    let t = WalkTrace { states: seq![m1, m2, m3], subs: seq![t1] };
                    assert(s0.bc_entered(m1));
                    assert(m3.bc_exited(*self));
                    assert(s0.w_default_expr(*e, *self, t));
                }
            },
            _ => {
                self.visit_expr(e);
                proof { let t = choose|t: WalkTrace<'a>| s0.w_expr(*e, *self, t); assert(s0.w_default_expr(*e, *self, t)); }
            },
        }
    }

    /// A function expression or method: a scope of its own.
    fn visit_function(&mut self, f: &Function)
        requires
            old(self).wf(),
        ensures
            old(self).kept(final(self)),
            exists|t: WalkTrace<'a>| #[trigger] old(self).w_function(*f, *final(self), t),
        decreases f, 1nat,
    {
        let ghost s0 = *self;
        self.binding_context.enter_scope();
        let ghost m1 = *self;
        self.visit_function_parts(f);
        let ghost m2 = *self;
        self.binding_context.exit_scope();
        proof {
            let t1 = choose|t: WalkTrace<'a>| m1.w_function_parts(*f, m2, t);
            let t = WalkTrace { states: seq![m1, m2], subs: seq![t1] };
            assert(s0.bc_entered(m1));
            assert(m2.bc_exited(*self));
            assert(s0.w_function(*f, *self, t));
        }
    }

    fn visit_function_parts(&mut self, f: &Function)
        requires
            old(self).wf(),
        ensures
            old(self).kept(final(self)),
            exists|t: WalkTrace<'a>| #[trigger] old(self).w_function_parts(*f, *final(self), t),
        decreases f, 0nat,
    {
        let ghost s0 = *self;
        self.visit_pats(&f.params);
        let ghost s1 = *self;
        self.visit_stmts(&f.body);
        proof {
            Self::lemma_kept_trans(s0, s1, *self);
            let t0 = choose|t: WalkTrace<'a>| s0.w_pats(f.params, f.params@.len() as int, s1, t);
            let t1 = choose|t: WalkTrace<'a>| s1.w_statements(f.body, f.body@.len() as int, *self, t);
            let t = WalkTrace { states: seq![s1], subs: seq![t0, t1] };
            assert(s0.w_function_parts(*f, *self, t));
        }
    }

    /// An arrow function: a scope of its own.
    fn visit_arrow(&mut self, a: &ArrowExpr)
        requires
            old(self).wf(),
        ensures
            old(self).kept(final(self)),
            exists|t: WalkTrace<'a>| #[trigger] old(self).w_arrow(*a, *final(self), t),
        decreases a, 1nat,
    {
        let ghost s0 = *self;
        self.binding_context.enter_scope();
        let ghost m1 = *self;
        self.visit_arrow_parts(a);
        let ghost m2 = *self;
        self.binding_context.exit_scope();
        proof {
            let t1 = choose|t: WalkTrace<'a>| m1.w_arrow_parts(*a, m2, t);
            let t = WalkTrace { states: seq![m1, m2], subs: seq![t1] };
            assert(s0.bc_entered(m1));
            assert(m2.bc_exited(*self));
            assert(s0.w_arrow(*a, *self, t));
        }
    }

    fn visit_arrow_parts(&mut self, a: &ArrowExpr)
        requires
            old(self).wf(),
        ensures
            old(self).kept(final(self)),
            exists|t: WalkTrace<'a>| #[trigger] old(self).w_arrow_parts(*a, *final(self), t),
        decreases a, 0nat,
    {
        let ghost s0 = *self;
        self.visit_pats(&a.params);
        let ghost s1 = *self;
        self.visit_stmts(&a.body);
        proof {
            Self::lemma_kept_trans(s0, s1, *self);
            let t0 = choose|t: WalkTrace<'a>| s0.w_pats(a.params, a.params@.len() as int, s1, t);
            let t1 = choose|t: WalkTrace<'a>| s1.w_statements(a.body, a.body@.len() as int, *self, t);
            let t = WalkTrace { states: seq![s1], subs: seq![t0, t1] };
            assert(s0.w_arrow_parts(*a, *self, t));
        }
    }

    #[verifier::loop_isolation(false)]
    fn visit_var_decl(&mut self, v: &VarDecl)
        requires
            old(self).wf(),
        ensures
            old(self).kept(final(self)),
            exists|t: WalkTrace<'a>| #[trigger] old(self).w_var_decl(*v, *final(self), t),
        decreases v, 0nat,
    {
        let ghost s0 = *self;
        let mut i: usize = 0;
        proof { assert(s0.w_declarators(v.decls, 0, *self, Self::no_trace())); }
        while i < v.decls.len()
            invariant
                i <= v.decls@.len(),
                s0.kept(self),
                exists|t: WalkTrace<'a>| #[trigger] s0.w_declarators(v.decls, i as int, *self, t),
            decreases v.decls@.len() - i,
        {
            proof { assert(decreases_to!(v.decls => v.decls@[i as int])); }
            let ghost m = *self;
            let ghost t0 = choose|t: WalkTrace<'a>| s0.w_declarators(v.decls, i as int, m, t);
            self.visit_var_declarator(&v.decls[i]);
            proof {
                Self::lemma_kept_trans(s0, m, *self);
                let t1 = choose|t: WalkTrace<'a>| m.w_var_declarator(v.decls@[i as int], *self, t);
                let t = WalkTrace { states: seq![m], subs: seq![t0, t1] };
                assert(s0.w_declarators(v.decls, (i + 1) - 1, t.states[0], t.subs[0]));
                assert(s0.w_declarators(v.decls, i + 1, *self, t));
            }
            i = i + 1;
        }
        proof {
            let t = choose|t: WalkTrace<'a>| s0.w_declarators(v.decls, v.decls@.len() as int, *self, t);
            assert(s0.w_var_decl(*v, *self, t));
        }
    }

    /// `const t = useTranslations("Ns")` binds `t`; `const key = obj[name]` is
    /// handed to the value analyzer; `const Comp = (props) => ...` is walked as
    /// a function named `Comp`.
    fn visit_var_declarator(&mut self, d: &VarDeclarator)
        requires
            old(self).wf(),
        ensures
            old(self).kept(final(self)),
            exists|t: WalkTrace<'a>| #[trigger] old(self).w_var_declarator(*d, *final(self), t),
        decreases d, 0nat,
    {
        let ghost s0 = *self;
        match (&d.name, &d.init) {
            (Pat::Ident { name, .. }, Some(Expr::Arrow(a))) => {
                self.binding_context.enter_scope();
                let ghost m1 = *self;
                self.register_params(name.as_str(), &a.params);
                let ghost m2 = *self;
                self.visit_arrow_parts(a);
                let ghost m3 = *self;
                self.binding_context.exit_scope();
                proof {
                    let t1 = choose|t: WalkTrace<'a>| m2.w_arrow_parts(*a, m3, t);
                    let t = WalkTrace { states: seq![m1, m2, m3], subs: seq![t1] };
                    assert(s0.bc_entered(m1));
                    assert(m3.bc_exited(*self));
                    assert(s0.w_var_declarator(*d, *self, t));
                }
                return;
            },
            _ => {},
        }
        match &d.init {
            Some(init) => {
                let call = match init {
                    Expr::Call(c) => Some(c),
                    Expr::Await(inner) => match &**inner {
                        Expr::Call(c) => Some(c),
                        _ => None,
                    },
                    _ => None,
                };
                assert(match call { Some(c) => init_call(*init) == Some(*c), None => init_call(*init) is None });
                match call {
                    Some(c) => {
                        match (&c.callee, &d.name) {
                            (Some(callee), Pat::Ident { name, .. }) => {
                                match &**callee {
                                    Expr::Ident(f) => {
                                        if is_translation_hook(f.as_str()) {
                                            let namespace = extract_namespace_from_call(c);
                                            self.binding_context.insert_binding(name.clone(), TranslationSource::Direct { namespace });
                                        }
                                    },
                                    _ => {},
                                }
                            },
                            _ => {},
                        }
                    },
                    None => {},
                }
                let ghost sb = *self;
                match (extract_object_access_name(init), &d.name) {
                    (Some(obj), Pat::Ident { name, .. }) => {
                        self.value_analyzer.register_object_access(name.as_str(), obj.as_str());
                    },
                    _ => {},
                }
                proof {
                    assert(sb == Self { binding_context: sb.binding_context, ..s0 });
                }
            },
            None => {},
        }
        let ghost s1 = *self;
        proof { assert(s0.decl_bound(*d, s1)); }
        self.visit_pat(&d.name);
        let ghost s2 = *self;
        let ghost t0 = choose|t: WalkTrace<'a>| s1.w_pat(d.name, s2, t);
        match &d.init {
            Some(init) => {
                self.visit_expr(init);
                proof {
                    Self::lemma_kept_trans(s1, s2, *self);
                    let t1 = choose|t: WalkTrace<'a>| s2.w_expr(*init, *self, t);
                    let t = WalkTrace { states: seq![s1, s2], subs: seq![t0, t1] };
                    assert(s0.w_var_declarator(*d, *self, t));
                }
            },
            None => {
                proof {
                    let t = WalkTrace { states: seq![s1, s2], subs: seq![t0] };
                    assert(s0.w_var_declarator(*d, *self, t));
                }
            },
        }
        proof {
            Self::lemma_kept_trans(s0, s1, *self);
        }
    }

    #[verifier::loop_isolation(false)]
    fn visit_pats(&mut self, v: &Vec<Pat>)
        requires
            old(self).wf(),
        ensures
            old(self).kept(final(self)),
            exists|t: WalkTrace<'a>| #[trigger] old(self).w_pats(*v, v@.len() as int, *final(self), t),
        decreases v, 0nat,
    {
        let ghost s0 = *self;
        let mut i: usize = 0;
        proof { assert(s0.w_pats(*v, 0, *self, Self::no_trace())); }
        while i < v.len()
            invariant
                i <= v@.len(),
                s0.kept(self),
                exists|t: WalkTrace<'a>| #[trigger] s0.w_pats(*v, i as int, *self, t),
            decreases v@.len() - i,
        {
            proof { assert(decreases_to!(v => v@[i as int])); }
            let ghost m = *self;
            let ghost t0 = choose|t: WalkTrace<'a>| s0.w_pats(*v, i as int, m, t);
            self.visit_pat(&v[i]);
            proof {
                Self::lemma_kept_trans(s0, m, *self);
                let t1 = choose|t: WalkTrace<'a>| m.w_pat(v@[i as int], *self, t);
                let t = WalkTrace { states: seq![m], subs: seq![t0, t1] };
                assert(s0.w_pats(*v, (i + 1) - 1, t.states[0], t.subs[0]));
                assert(s0.w_pats(*v, i + 1, *self, t));
            }
            i = i + 1;
        }
    }

    /// Walks the default values and computed keys inside a pattern.
    #[verifier::loop_isolation(false)]
    fn visit_pat(&mut self, p: &Pat)
        requires
            old(self).wf(),
        ensures
            old(self).kept(final(self)),
            exists|t: WalkTrace<'a>| #[trigger] old(self).w_pat(*p, *final(self), t),
        decreases p, 0nat,
    {
        let ghost s0 = *self;
        match p {
            Pat::Ident { .. } => {
                proof { assert(s0.w_pat(*p, *self, Self::no_trace())); }
            },
            Pat::Object(props) => {
                let mut i: usize = 0;
                proof { assert(s0.w_obj_pat_props(*props, 0, *self, Self::no_trace())); }
                while i < props.len()
                    invariant
                        i <= props@.len(),
                        s0.kept(self),
                        exists|t: WalkTrace<'a>| #[trigger] s0.w_obj_pat_props(*props, i as int, *self, t),
                    decreases props@.len() - i,
                {
                    proof { assert(decreases_to!(props => props@[i as int])); }
                    let ghost m = *self;
                    let ghost t0 = choose|t: WalkTrace<'a>| s0.w_obj_pat_props(*props, i as int, m, t);
                    match &props[i] {
                        ObjectPatProp::KeyValue { key, value } => {
                            self.visit_prop_name(key);
                            let ghost m2 = *self;
                            self.visit_pat(value);
                            proof {
                                Self::lemma_kept_trans(m, m2, *self);
                                let ta = choose|t: WalkTrace<'a>| m.w_prop_name(*key, m2, t);
                                let tb = choose|t: WalkTrace<'a>| m2.w_pat(*value, *self, t);
                                let t1 = WalkTrace { states: seq![m2], subs: seq![ta, tb] };
                                assert(m.w_obj_pat_prop(props@[i as int], *self, t1));
                                let t = WalkTrace { states: seq![m], subs: seq![t0, t1] };
                                assert(s0.w_obj_pat_props(*props, (i + 1) - 1, t.states[0], t.subs[0]));
                                assert(s0.w_obj_pat_props(*props, i + 1, *self, t));
                            }
                        },
                        ObjectPatProp::Assign { value, .. } => {
                            match value {
                                Some(e) => {
                                    self.visit_expr(e);
                                    proof {
                                        let t1 = choose|t: WalkTrace<'a>| m.w_expr(*e, *self, t);
                                        assert(m.w_obj_pat_prop(props@[i as int], *self, t1));
                                        let t = WalkTrace { states: seq![m], subs: seq![t0, t1] };
                                        assert(s0.w_obj_pat_props(*props, (i + 1) - 1, t.states[0], t.subs[0]));
                                        assert(s0.w_obj_pat_props(*props, i + 1, *self, t));
                                    }
                                },
                                None => {
                                    proof {
                                        let t1 = Self::no_trace();
                                        assert(m.w_obj_pat_prop(props@[i as int], *self, t1));
                                        let t = WalkTrace { states: seq![m], subs: seq![t0, t1] };
                                        assert(s0.w_obj_pat_props(*props, (i + 1) - 1, t.states[0], t.subs[0]));
                                        assert(s0.w_obj_pat_props(*props, i + 1, *self, t));
                                    }
                                },
                            }
                        },
                        ObjectPatProp::Rest(q) => {
                            self.visit_pat(q);
                            proof {
                                let t1 = choose|t: WalkTrace<'a>| m.w_pat(*q, *self, t);
                                assert(m.w_obj_pat_prop(props@[i as int], *self, t1));
                                let t = WalkTrace { states: seq![m], subs: seq![t0, t1] };
                                assert(s0.w_obj_pat_props(*props, (i + 1) - 1, t.states[0], t.subs[0]));
                                assert(s0.w_obj_pat_props(*props, i + 1, *self, t));
                            }
                        },
                    }
                    proof { Self::lemma_kept_trans(s0, m, *self); }
                    i = i + 1;
                }
                proof {
                    let t = choose|t: WalkTrace<'a>| s0.w_obj_pat_props(*props, props@.len() as int, *self, t);
                    assert(s0.w_pat(*p, *self, t));
                }
            },
            Pat::Assign { left, right } => {
                self.visit_pat(left);
                let ghost m = *self;
                self.visit_expr(right);
                proof {
                    Self::lemma_kept_trans(s0, m, *self);
                    let t0 = choose|t: WalkTrace<'a>| s0.w_pat(**left, m, t);
                    let t1 = choose|t: WalkTrace<'a>| m.w_expr(**right, *self, t);
                    let t = WalkTrace { states: seq![m], subs: seq![t0, t1] };
                    assert(s0.w_pat(*p, *self, t));
                }
            },
            Pat::Array(elems) => {
                let mut i: usize = 0;
                proof { assert(s0.w_pat_elems(*elems, 0, *self, Self::no_trace())); }
                while i < elems.len()
                    invariant
                        i <= elems@.len(),
                        s0.kept(self),
                        exists|t: WalkTrace<'a>| #[trigger] s0.w_pat_elems(*elems, i as int, *self, t),
                    decreases elems@.len() - i,
                {
                    proof { assert(decreases_to!(elems => elems@[i as int])); }
                    let ghost m = *self;
                    let ghost t0 = choose|t: WalkTrace<'a>| s0.w_pat_elems(*elems, i as int, m, t);
                    match &elems[i] {
                        Some(q) => {
                            self.visit_pat(q);
                            proof {
                                let t1 = choose|t: WalkTrace<'a>| m.w_pat(*q, *self, t);
                                let t = WalkTrace { states: seq![m], subs: seq![t0, t1] };
                                assert(s0.w_pat_elems(*elems, (i + 1) - 1, t.states[0], t.subs[0]));
                                assert(s0.w_pat_elems(*elems, i + 1, *self, t));
                            }
                        },
                        None => {
                            proof {
                                let t = WalkTrace { states: seq![m], subs: seq![t0] };
                                assert(s0.w_pat_elems(*elems, (i + 1) - 1, t.states[0], t.subs[0]));
                                assert(s0.w_pat_elems(*elems, i + 1, *self, t));
                            }
                        },
                    }
                    proof { Self::lemma_kept_trans(s0, m, *self); }
                    i = i + 1;
                }
                proof {
                    let t = choose|t: WalkTrace<'a>| s0.w_pat_elems(*elems, elems@.len() as int, *self, t);
                    assert(s0.w_pat(*p, *self, t));
                }
            },
            Pat::Rest(q) => {
                self.visit_pat(q);
                proof { let t = choose|t: WalkTrace<'a>| s0.w_pat(**q, *self, t); assert(s0.w_pat(*p, *self, t)); }
            },
            Pat::Other(children) => {
                self.visit_stmts(children);
                proof { let t = choose|t: WalkTrace<'a>| s0.w_statements(*children, children@.len() as int, *self, t); assert(s0.w_pat(*p, *self, t)); }
            },
        }
    }

    fn visit_prop_name(&mut self, k: &PropName)
        requires
            old(self).wf(),
        ensures
            old(self).kept(final(self)),
            exists|t: WalkTrace<'a>| #[trigger] old(self).w_prop_name(*k, *final(self), t),
        decreases k, 0nat,
    {
        let ghost s0 = *self;
        match k {
            PropName::Other(children) => {
                self.visit_stmts(children);
                proof { let t = choose|t: WalkTrace<'a>| s0.w_statements(*children, children@.len() as int, *self, t); assert(s0.w_prop_name(*k, *self, t)); }
            },
            _ => {
                proof { assert(s0.w_prop_name(*k, *self, Self::no_trace())); }
            },
        }
    }

    #[verifier::loop_isolation(false)]
    fn visit_exprs(&mut self, v: &Vec<Expr>)
        requires
            old(self).wf(),
        ensures
            old(self).kept(final(self)),
            exists|t: WalkTrace<'a>| #[trigger] old(self).w_exprs(*v, v@.len() as int, *final(self), t),
        decreases v, 0nat,
    {
        let ghost s0 = *self;
        let mut i: usize = 0;
        proof { assert(s0.w_exprs(*v, 0, *self, Self::no_trace())); }
        while i < v.len()
            invariant
                i <= v@.len(),
                s0.kept(self),
                exists|t: WalkTrace<'a>| #[trigger] s0.w_exprs(*v, i as int, *self, t),
            decreases v@.len() - i,
        {
            proof { assert(decreases_to!(v => v@[i as int])); }
            let ghost m = *self;
            let ghost t0 = choose|t: WalkTrace<'a>| s0.w_exprs(*v, i as int, m, t);
            self.visit_expr(&v[i]);
            proof {
                Self::lemma_kept_trans(s0, m, *self);
                let t1 = choose|t: WalkTrace<'a>| m.w_expr(v@[i as int], *self, t);
                let t = WalkTrace { states: seq![m], subs: seq![t0, t1] };
                assert(s0.w_exprs(*v, (i + 1) - 1, t.states[0], t.subs[0]));
                assert(s0.w_exprs(*v, i + 1, *self, t));
            }
            i = i + 1;
        }
    }

    #[verifier::loop_isolation(false)]
    fn visit_args(&mut self, v: &Vec<ExprOrSpread>)
        requires
            old(self).wf(),
        ensures
            old(self).kept(final(self)),
            exists|t: WalkTrace<'a>| #[trigger] old(self).w_args(*v, v@.len() as int, *final(self), t),
        decreases v, 0nat,
    {
        let ghost s0 = *self;
        let mut i: usize = 0;
        proof { assert(s0.w_args(*v, 0, *self, Self::no_trace())); }
        while i < v.len()
            invariant
                i <= v@.len(),
                s0.kept(self),
                exists|t: WalkTrace<'a>| #[trigger] s0.w_args(*v, i as int, *self, t),
            decreases v@.len() - i,
        {
            proof { assert(decreases_to!(v => v@[i as int])); }
            let ghost m = *self;
            let ghost t0 = choose|t: WalkTrace<'a>| s0.w_args(*v, i as int, m, t);
            self.visit_expr(&v[i].expr);
            proof {
                Self::lemma_kept_trans(s0, m, *self);
                let t1 = choose|t: WalkTrace<'a>| m.w_expr(v@[i as int].expr, *self, t);
                let t = WalkTrace { states: seq![m], subs: seq![t0, t1] };
                assert(s0.w_args(*v, (i + 1) - 1, t.states[0], t.subs[0]));
                assert(s0.w_args(*v, i + 1, *self, t));
            }
            i = i + 1;
        }
    }

    #[verifier::loop_isolation(false)]
    fn visit_props(&mut self, v: &Vec<PropOrSpread>)
        requires
            old(self).wf(),
        ensures
            old(self).kept(final(self)),
            exists|t: WalkTrace<'a>| #[trigger] old(self).w_props(*v, v@.len() as int, *final(self), t),
        decreases v, 0nat,
    {
        let ghost s0 = *self;
        let mut i: usize = 0;
        proof { assert(s0.w_props(*v, 0, *self, Self::no_trace())); }
        while i < v.len()
            invariant
                i <= v@.len(),
                s0.kept(self),
                exists|t: WalkTrace<'a>| #[trigger] s0.w_props(*v, i as int, *self, t),
            decreases v@.len() - i,
        {
            proof { assert(decreases_to!(v => v@[i as int])); }
            let ghost m = *self;
            let ghost t0 = choose|t: WalkTrace<'a>| s0.w_props(*v, i as int, m, t);
            match &v[i] {
                PropOrSpread::Spread(e) => {
                    self.visit_expr(e);
                    proof {
                        let t1 = choose|t: WalkTrace<'a>| m.w_expr(*e, *self, t);
                        assert(m.w_prop(v@[i as int], *self, t1));
                        let t = WalkTrace { states: seq![m], subs: seq![t0, t1] };
                        assert(s0.w_props(*v, (i + 1) - 1, t.states[0], t.subs[0]));
                        assert(s0.w_props(*v, i + 1, *self, t));
                    }
                },
                PropOrSpread::KeyValue { key, value } => {
                    self.visit_prop_name(key);
                    let ghost m2 = *self;
                    self.visit_expr(value);
                    proof {
                        Self::lemma_kept_trans(m, m2, *self);
                        let ta = choose|t: WalkTrace<'a>| m.w_prop_name(*key, m2, t);
                        let tb = choose|t: WalkTrace<'a>| m2.w_expr(*value, *self, t);
                        let t1 = WalkTrace { states: seq![m2], subs: seq![ta, tb] };
                        assert(m.w_prop(v@[i as int], *self, t1));
                        let t = WalkTrace { states: seq![m], subs: seq![t0, t1] };
                        assert(s0.w_props(*v, (i + 1) - 1, t.states[0], t.subs[0]));
                        assert(s0.w_props(*v, i + 1, *self, t));
                    }
                },
                PropOrSpread::Shorthand(_) => {
                    proof {
                        let t1 = Self::no_trace();
                        assert(m.w_prop(v@[i as int], *self, t1));
                        let t = WalkTrace { states: seq![m], subs: seq![t0, t1] };
                        assert(s0.w_props(*v, (i + 1) - 1, t.states[0], t.subs[0]));
                        assert(s0.w_props(*v, i + 1, *self, t));
                    }
                },
                PropOrSpread::Method { key, function } => {
                    self.visit_prop_name(key);
                    let ghost m2 = *self;
                    self.visit_function(function);
                    proof {
                        Self::lemma_kept_trans(m, m2, *self);
                        let ta = choose|t: WalkTrace<'a>| m.w_prop_name(*key, m2, t);
                        let tb = choose|t: WalkTrace<'a>| m2.w_function(*function, *self, t);
                        let t1 = WalkTrace { states: seq![m2], subs: seq![ta, tb] };
                        assert(m.w_prop(v@[i as int], *self, t1));
                        let t = WalkTrace { states: seq![m], subs: seq![t0, t1] };
                        assert(s0.w_props(*v, (i + 1) - 1, t.states[0], t.subs[0]));
                        assert(s0.w_props(*v, i + 1, *self, t));
                    }
                },
                PropOrSpread::Other(children) => {
                    self.visit_stmts(children);
                    proof {
                        let t1 = choose|t: WalkTrace<'a>| m.w_statements(*children, children@.len() as int, *self, t);
                        assert(m.w_prop(v@[i as int], *self, t1));
                        let t = WalkTrace { states: seq![m], subs: seq![t0, t1] };
                        assert(s0.w_props(*v, (i + 1) - 1, t.states[0], t.subs[0]));
                        assert(s0.w_props(*v, i + 1, *self, t));
                    }
                },
            }
            proof { Self::lemma_kept_trans(s0, m, *self); }
            i = i + 1;
        }
    }

    /// Walks an expression, recording the translation calls inside it.
    #[verifier::loop_isolation(false)]
    pub fn visit_expr(&mut self, e: &Expr)
        requires
            old(self).wf(),
        ensures
            old(self).kept(final(self)),
            exists|t: WalkTrace<'a>| #[trigger] old(self).w_expr(*e, *final(self), t),
        decreases e, 0nat,
    {
        let ghost s0 = *self;
        match e {
            Expr::Ident(_) => { proof { assert(s0.w_expr(*e, *self, Self::no_trace())); } },
            Expr::Str(..) => { proof { assert(s0.w_expr(*e, *self, Self::no_trace())); } },
            Expr::Num(_) => { proof { assert(s0.w_expr(*e, *self, Self::no_trace())); } },
            Expr::Tpl(tp) => {
                self.visit_exprs(&tp.exprs);
                proof { let t = choose|t: WalkTrace<'a>| s0.w_exprs(tp.exprs, tp.exprs@.len() as int, *self, t); assert(s0.w_expr(*e, *self, t)); }
            },
            Expr::Cond { test, cons, alt } => {
                self.visit_expr(test);
                let ghost m1 = *self;
                self.visit_expr(cons);
                let ghost m2 = *self;
                self.visit_expr(alt);
                proof {
                    Self::lemma_kept_trans(s0, m1, m2);
                    Self::lemma_kept_trans(s0, m2, *self);
                    let t0 = choose|t: WalkTrace<'a>| s0.w_expr(**test, m1, t);
                    let t1 = choose|t: WalkTrace<'a>| m1.w_expr(**cons, m2, t);
                    let t2 = choose|t: WalkTrace<'a>| m2.w_expr(**alt, *self, t);
                    let t = WalkTrace { states: seq![m1, m2], subs: seq![t0, t1, t2] };
                    assert(s0.w_expr(*e, *self, t));
                }
            },
            Expr::Bin { left, right, .. } => {
                self.visit_expr(left);
                let ghost m1 = *self;
                self.visit_expr(right);
                proof {
                    Self::lemma_kept_trans(s0, m1, *self);
                    let t0 = choose|t: WalkTrace<'a>| s0.w_expr(**left, m1, t);
                    let t1 = choose|t: WalkTrace<'a>| m1.w_expr(**right, *self, t);
                    let t = WalkTrace { states: seq![m1], subs: seq![t0, t1] };
                    assert(s0.w_expr(*e, *self, t));
                }
            },
            Expr::Paren(x) => {
                self.visit_expr(x);
                proof { let t = choose|t: WalkTrace<'a>| s0.w_expr(**x, *self, t); assert(s0.w_expr(*e, *self, t)); }
            },
            Expr::TsAs(x) => {
                self.visit_expr(x);
                proof { let t = choose|t: WalkTrace<'a>| s0.w_expr(**x, *self, t); assert(s0.w_expr(*e, *self, t)); }
            },
            Expr::TsConst(x) => {
                self.visit_expr(x);
                proof { let t = choose|t: WalkTrace<'a>| s0.w_expr(**x, *self, t); assert(s0.w_expr(*e, *self, t)); }
            },
            Expr::TsSatisfies(x) => {
                self.visit_expr(x);
                proof { let t = choose|t: WalkTrace<'a>| s0.w_expr(**x, *self, t); assert(s0.w_expr(*e, *self, t)); }
            },
            Expr::Await(x) => {
                self.visit_expr(x);
                proof { let t = choose|t: WalkTrace<'a>| s0.w_expr(**x, *self, t); assert(s0.w_expr(*e, *self, t)); }
            },
            Expr::Call(c) => {
                self.visit_call_expr(c);
                proof { let t = choose|t: WalkTrace<'a>| s0.w_call(*c, *self, t); assert(s0.w_expr(*e, *self, t)); }
            },
            Expr::Member { obj, prop } => {
                self.visit_expr(obj);
                let ghost m1 = *self;
                let ghost t0 = choose|t: WalkTrace<'a>| s0.w_expr(**obj, m1, t);
                match prop {
                    MemberProp::Computed(k) => {
                        self.visit_expr(k);
                        proof {
                            Self::lemma_kept_trans(s0, m1, *self);
                            let t1 = choose|t: WalkTrace<'a>| m1.w_expr(**k, *self, t);
                            let t = WalkTrace { states: seq![m1], subs: seq![t0, t1] };
                            assert(s0.w_expr(*e, *self, t));
                        }
                    },
                    _ => {
                        proof {
                            let t = WalkTrace { states: seq![m1], subs: seq![t0] };
                            assert(s0.w_expr(*e, *self, t));
                        }
                    },
                }
            },
            Expr::Arrow(a) => {
                self.visit_arrow(a);
                proof { let t = choose|t: WalkTrace<'a>| s0.w_arrow(*a, *self, t); assert(s0.w_expr(*e, *self, t)); }
            },
            Expr::Fn(f) => {
                self.visit_function(f);
                proof { let t = choose|t: WalkTrace<'a>| s0.w_function(*f, *self, t); assert(s0.w_expr(*e, *self, t)); }
            },
            Expr::Object(props) => {
                self.visit_props(props);
                proof { let t = choose|t: WalkTrace<'a>| s0.w_props(*props, props@.len() as int, *self, t); assert(s0.w_expr(*e, *self, t)); }
            },
            Expr::Array(elems) => {
                let mut i: usize = 0;
                proof { assert(s0.w_array_elems(*elems, 0, *self, Self::no_trace())); }
                while i < elems.len()
                    invariant
                        i <= elems@.len(),
                        s0.kept(self),
                        exists|t: WalkTrace<'a>| #[trigger] s0.w_array_elems(*elems, i as int, *self, t),
                    decreases elems@.len() - i,
                {
                    proof { assert(decreases_to!(elems => elems@[i as int])); }
                    let ghost m = *self;
                    let ghost t0 = choose|t: WalkTrace<'a>| s0.w_array_elems(*elems, i as int, m, t);
                    match &elems[i] {
                        Some(x) => {
                            self.visit_expr(&x.expr);
                            proof {
                                let t1 = choose|t: WalkTrace<'a>| m.w_expr(x.expr, *self, t);
                                let t = WalkTrace { states: seq![m], subs: seq![t0, t1] };
                                assert(s0.w_array_elems(*elems, (i + 1) - 1, t.states[0], t.subs[0]));
                                assert(s0.w_array_elems(*elems, i + 1, *self, t));
                            }
                        },
                        None => {
                            proof {
                                let t = WalkTrace { states: seq![m], subs: seq![t0] };
                                assert(s0.w_array_elems(*elems, (i + 1) - 1, t.states[0], t.subs[0]));
                                assert(s0.w_array_elems(*elems, i + 1, *self, t));
                            }
                        },
                    }
                    proof { Self::lemma_kept_trans(s0, m, *self); }
                    i = i + 1;
                }
                proof {
                    let t = choose|t: WalkTrace<'a>| s0.w_array_elems(*elems, elems@.len() as int, *self, t);
                    assert(s0.w_expr(*e, *self, t));
                }
            },
            Expr::JSXElement(el) => {
                self.visit_jsx_element(el);
                proof { let t = choose|t: WalkTrace<'a>| s0.w_jsx_element(**el, *self, t); assert(s0.w_expr(*e, *self, t)); }
            },
            Expr::JSXFragment(children) => {
                self.visit_jsx_fragment(children);
                proof { let t = choose|t: WalkTrace<'a>| s0.w_jsx_fragment(*children, *self, t); assert(s0.w_expr(*e, *self, t)); }
            },
            Expr::Other { children, .. } => {
                self.visit_stmts(children);
                proof { let t = choose|t: WalkTrace<'a>| s0.w_statements(*children, children@.len() as int, *self, t); assert(s0.w_expr(*e, *self, t)); }
            },
        }
    }

    /// Walks a call: what the call site records (see [`Self::site_recorded`]),
    /// then its callee and arguments; a callback of `arr.map(x => ...)` and
    /// the like is walked with `x` bound to the elements of `arr`.
    pub fn visit_call_expr(&mut self, c: &CallExpr)
        requires
            old(self).wf(),
        ensures
            old(self).kept(final(self)),
            old(self).site_recorded(final(self), *c),
            exists|t: WalkTrace<'a>| #[trigger] old(self).w_call(*c, *final(self), t),
        decreases c, 0nat,
    {
        let ghost s0 = *self;
        self.record_site(c);
        let ghost s1 = *self;
        let entered = match &c.callee {
            Some(callee) => match &**callee {
                Expr::Member { obj, prop } => match (&**obj, prop) {
                    (Expr::Ident(array_name), MemberProp::Ident(method)) => {
                        if is_iterator_method(method.as_str()) && c.args.len() > 0 {
                            match extract_arrow_first_param(&c.args[0].expr) {
                                Some(param) => {
                                    self.value_analyzer.enter_scope();
                                    let ghost va1 = self.value_analyzer;
                                    self.value_analyzer.register_iterator(param.as_str(), array_name.as_str());
                                    proof {
                                        assert(iter_param(*c) == Some((param@, array_name@)));
                                        assert(va_entered(s1.value_analyzer, va1));
                                        assert(va_iter(va1, param@, array_name@, self.value_analyzer));
                                        assert(s1.iter_entered(*c, *self));
                                    }
                                    true
                                },
                                None => false,
                            }
                        } else {
                            false
                        }
                    },
                    _ => false,
                },
                _ => false,
            },
            None => false,
        };
        let ghost s2 = *self;
        proof {
            assert(entered == (iter_param(*c) is Some));
            assert(s1.iter_entered(*c, s2));
        }
        match &c.callee {
            Some(callee) => {
                proof { assert(decreases_to!(c => **callee)); }
                self.visit_expr(callee);
            },
            None => {},
        }
        let ghost s3 = *self;
        let ghost t0 = if c.callee.is_some() { choose|t: WalkTrace<'a>| s2.w_expr(*c.callee.unwrap(), s3, t) } else { Self::no_trace() };
        self.visit_args(&c.args);
        let ghost s4 = *self;
        proof { Self::lemma_kept_trans(s2, s3, *self); }
        if entered {
            self.value_analyzer.exit_scope();
        }
        proof {
            assert(s4.iter_exited(*c, *self));
            let t1 = choose|t: WalkTrace<'a>| s3.w_args(c.args, c.args@.len() as int, s4, t);
            let t = WalkTrace { states: seq![s1, s2, s3, s4], subs: seq![t0, t1] };
            assert(s0.w_call(*c, *self, t));
        }
    }

    #[verifier::loop_isolation(false)]
    fn visit_jsx_children(&mut self, v: &Vec<JSXChild>)
        requires
            old(self).wf(),
        ensures
            old(self).kept(final(self)),
            exists|t: WalkTrace<'a>| #[trigger] old(self).w_jsx_children(*v, v@.len() as int, *final(self), t),
        decreases v, 0nat,
    {
        let ghost s0 = *self;
        let mut i: usize = 0;
        proof { assert(s0.w_jsx_children(*v, 0, *self, Self::no_trace())); }
        while i < v.len()
            invariant
                i <= v@.len(),
                s0.kept(self),
                exists|t: WalkTrace<'a>| #[trigger] s0.w_jsx_children(*v, i as int, *self, t),
            decreases v@.len() - i,
        {
            proof { assert(decreases_to!(v => v@[i as int])); }
            let ghost m = *self;
            let ghost t0 = choose|t: WalkTrace<'a>| s0.w_jsx_children(*v, i as int, m, t);
            match &v[i] {
                JSXChild::Text(..) => {
                    proof { assert(m.w_jsx_child(v@[i as int], *self, Self::no_trace())); }
                },
                JSXChild::Container(x) => {
                    self.visit_jsx_container(x);
                    proof { let t1 = choose|t: WalkTrace<'a>| m.w_jsx_container(*x, *self, t); assert(m.w_jsx_child(v@[i as int], *self, t1)); }
                },
                JSXChild::Spread(x) => {
                    self.visit_expr(x);
                    proof { let t1 = choose|t: WalkTrace<'a>| m.w_expr(*x, *self, t); assert(m.w_jsx_child(v@[i as int], *self, t1)); }
                },
                JSXChild::Element(el) => {
                    self.visit_jsx_element(el);
                    proof { let t1 = choose|t: WalkTrace<'a>| m.w_jsx_element(**el, *self, t); assert(m.w_jsx_child(v@[i as int], *self, t1)); }
                },
                JSXChild::Fragment(children) => {
                    self.visit_jsx_fragment(children);
                    proof { let t1 = choose|t: WalkTrace<'a>| m.w_jsx_fragment(*children, *self, t); assert(m.w_jsx_child(v@[i as int], *self, t1)); }
                },
            }
            proof {
                Self::lemma_kept_trans(s0, m, *self);
                assert(exists|t: WalkTrace<'a>| #[trigger] m.w_jsx_child(v@[i as int], *self, t));
                let t1 = choose|t: WalkTrace<'a>| m.w_jsx_child(v@[i as int], *self, t);
                let t = WalkTrace { states: seq![m], subs: seq![t0, t1] };
                assert(s0.w_jsx_children(*v, (i + 1) - 1, t.states[0], t.subs[0]));
                assert(s0.w_jsx_children(*v, i + 1, *self, t));
            }
            i = i + 1;
        }
    }

    /// `{...}` in JSX: what is inside is a JSX expression.
    fn visit_jsx_container(&mut self, x: &Option<Expr>)
        requires
            old(self).wf(),
        ensures
            old(self).kept(final(self)),
            exists|t: WalkTrace<'a>| #[trigger] old(self).w_jsx_container(*x, *final(self), t),
        decreases x, 0nat,
    {
        let ghost s0 = *self;
        let prev = self.in_jsx_expr;
        self.in_jsx_expr = true;
        let ghost s1 = *self;
        match x {
            Some(e) => self.visit_expr(e),
            None => {},
        }
        let ghost s2 = *self;
        self.in_jsx_expr = prev;
        proof {
            assert(s1 == s0.with_jsx_expr(true));
            let t0 = if x.is_some() { choose|t: WalkTrace<'a>| s1.w_expr(x.unwrap(), s2, t) } else { Self::no_trace() };
            assert(s1.w_opt_expr(*x, s2, t0));
            assert(*self == s2.with_jsx_expr(s0.in_jsx_expr));
            let t = WalkTrace { states: seq![s2], subs: seq![t0] };
            assert(s0.w_jsx_container(*x, *self, t));
        }
    }

    /// The attributes of an element are outside its children; the children are JSX context.
    #[verifier::loop_isolation(false)]
    fn visit_jsx_element(&mut self, el: &JSXElement)
        requires
            old(self).wf(),
        ensures
            old(self).kept(final(self)),
            exists|t: WalkTrace<'a>| #[trigger] old(self).w_jsx_element(*el, *final(self), t),
        decreases el, 0nat,
    {
        let ghost s0 = *self;
        let mut i: usize = 0;
        proof { assert(s0.w_jsx_attrs(el.attrs, 0, *self, Self::no_trace())); }
        while i < el.attrs.len()
            invariant
                i <= el.attrs@.len(),
                s0.kept(self),
                exists|t: WalkTrace<'a>| #[trigger] s0.w_jsx_attrs(el.attrs, i as int, *self, t),
            decreases el.attrs@.len() - i,
        {
            proof { assert(decreases_to!(el.attrs => el.attrs@[i as int])); }
            let ghost m = *self;
            let ghost t0 = choose|t: WalkTrace<'a>| s0.w_jsx_attrs(el.attrs, i as int, m, t);
            match &el.attrs[i] {
                JSXAttrOrSpread::Attr(a) => {
                    match &a.value {
                        Some(JSXAttrValue::Str(..)) => {
                            proof { assert(m.w_jsx_attr(el.attrs@[i as int], *self, Self::no_trace())); }
                        },
                        Some(JSXAttrValue::Container(x)) => {
                            self.visit_jsx_container(x);
                            proof { let t1 = choose|t: WalkTrace<'a>| m.w_jsx_container(*x, *self, t); assert(m.w_jsx_attr(el.attrs@[i as int], *self, t1)); }
                        },
                        Some(JSXAttrValue::Element(inner)) => {
                            self.visit_jsx_element(inner);
                            proof { let t1 = choose|t: WalkTrace<'a>| m.w_jsx_element(**inner, *self, t); assert(m.w_jsx_attr(el.attrs@[i as int], *self, t1)); }
                        },
                        Some(JSXAttrValue::Fragment(children)) => {
                            self.visit_jsx_fragment(children);
                            proof { let t1 = choose|t: WalkTrace<'a>| m.w_jsx_fragment(*children, *self, t); assert(m.w_jsx_attr(el.attrs@[i as int], *self, t1)); }
                        },
                        None => {
                            proof { assert(m.w_jsx_attr(el.attrs@[i as int], *self, Self::no_trace())); }
                        },
                    }
                },
                JSXAttrOrSpread::Spread(x) => {
                    self.visit_expr(x);
                    proof { let t1 = choose|t: WalkTrace<'a>| m.w_expr(*x, *self, t); assert(m.w_jsx_attr(el.attrs@[i as int], *self, t1)); }
                },
            }
            proof {
                Self::lemma_kept_trans(s0, m, *self);
                assert(exists|t: WalkTrace<'a>| #[trigger] m.w_jsx_attr(el.attrs@[i as int], *self, t));
                let t1 = choose|t: WalkTrace<'a>| m.w_jsx_attr(el.attrs@[i as int], *self, t);
                let t = WalkTrace { states: seq![m], subs: seq![t0, t1] };
                assert(s0.w_jsx_attrs(el.attrs, (i + 1) - 1, t.states[0], t.subs[0]));
                assert(s0.w_jsx_attrs(el.attrs, i + 1, *self, t));
            }
            i = i + 1;
        }
        let ghost s1 = *self;
        let ghost ta = choose|t: WalkTrace<'a>| s0.w_jsx_attrs(el.attrs, el.attrs@.len() as int, s1, t);
        let prev = self.in_jsx_context;
        self.in_jsx_context = true;
        let ghost s2 = *self;
        self.visit_jsx_children(&el.children);
        let ghost s3 = *self;
        self.in_jsx_context = prev;
        proof {
            Self::lemma_kept_trans(s0, s1, *self);
            assert(s2 == s1.with_jsx_ctx(true));
            let tb = choose|t: WalkTrace<'a>| s2.w_jsx_children(el.children, el.children@.len() as int, s3, t);
            assert(*self == s3.with_jsx_ctx(s1.in_jsx_context));
            let t = WalkTrace { states: seq![s1, s3], subs: seq![ta, tb] };
            assert(s0.w_jsx_element(*el, *self, t));
        }
    }

    /// The children of a fragment are JSX context.
    fn visit_jsx_fragment(&mut self, children: &Vec<JSXChild>)
        requires
            old(self).wf(),
        ensures
            old(self).kept(final(self)),
            exists|t: WalkTrace<'a>| #[trigger] old(self).w_jsx_fragment(*children, *final(self), t),
        decreases children, 1nat,
    {
        let ghost s0 = *self;
        let prev = self.in_jsx_context;
        self.in_jsx_context = true;
        let ghost s1 = *self;
        self.visit_jsx_children(children);
        let ghost s2 = *self;
        self.in_jsx_context = prev;
        proof {
            assert(s1 == s0.with_jsx_ctx(true));
            let t0 = choose|t: WalkTrace<'a>| s1.w_jsx_children(*children, children@.len() as int, s2, t);
            assert(*self == s2.with_jsx_ctx(s0.in_jsx_context));
            let t = WalkTrace { states: seq![s2], subs: seq![t0] };
            assert(s0.w_jsx_fragment(*children, *self, t));
        }
    }
}

} // verus!
