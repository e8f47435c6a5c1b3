//! Finding schema factory functions: exported arrow functions whose first
//! parameter is a translation function (`(t) => z.object({...})`), with the
//! keys they pass to it and the other schema functions they hand it to.

use vstd::prelude::*;
use crate::ast::{
    ArrowExpr, CallExpr, Decl, Expr, ExprOrSpread, Function, JSXAttrOrSpread, JSXAttrValue,
    JSXChild, JSXElement, Module, ObjectPatProp, Pat, PropName, PropOrSpread, Stmt, VarDecl,
    VarDeclarator,
};
use crate::schema::SchemaFunction;
use crate::text::{chars_of, str_eq, strs_view, text};

verus! {

/// Something a schema function's body does with its translation parameter:
/// `(true, key)` for `t("key")`, `(false, name)` for `name(t, ...)`.
pub type SchemaEvent = (bool, Seq<char>);

/// The literal key of a call's first argument: a string literal, or a
/// template literal without expressions.
pub open spec fn spec_string_arg(c: CallExpr) -> Option<Seq<char>> {
    if c.args.len() == 0 {
        None
    } else {
        match c.args[0].expr {
            Expr::Str(Some(s), _) => Some(s@),
            Expr::Tpl(tpl) => if tpl.exprs.len() == 0 && tpl.quasis.len() > 0 {
                match tpl.quasis[0].cooked {
                    Some(s) => Some(s@),
                    None => None,
                }
            } else {
                None
            },
            _ => None,
        }
    }
}

/// The call's first argument is the identifier `t`.
pub open spec fn first_arg_is(c: CallExpr, t: Seq<char>) -> bool {
    c.args.len() > 0 && (c.args[0].expr matches Expr::Ident(n) && n@ == t)
}

/// What a call contributes by itself: the key of `t("key")`, or the name of
/// a function called with `t` as its first argument.
pub open spec fn call_events(c: CallExpr, t: Seq<char>) -> Seq<SchemaEvent> {
    match c.callee {
        Some(callee) => match *callee {
            Expr::Ident(name) => if name@ == t {
                match spec_string_arg(c) {
                    Some(k) => seq![(true, k)],
                    None => Seq::empty(),
                }
            } else if first_arg_is(c, t) {
                seq![(false, name@)]
            } else {
                Seq::empty()
            },
            _ => Seq::empty(),
        },
        None => Seq::empty(),
    }
}

/// A parameter that is the plain identifier `t`.
pub open spec fn binds(p: Pat, t: Seq<char>) -> bool {
    p matches Pat::Ident { name, .. } && name@ == t
}

/// A parameter list rebinds `t` by a plain identifier.
pub open spec fn shadows(params: Seq<Pat>, t: Seq<char>) -> bool {
    exists|i: int| 0 <= i < params.len() && binds(#[trigger] params[i], t)
}

pub open spec fn sev_stmts(s: Seq<Stmt>, t: Seq<char>) -> Seq<SchemaEvent>
    decreases s,
{
    if s.len() == 0 {
        Seq::empty()
    } else {
        sev_stmts(s.drop_last(), t) + sev_stmt(s.last(), t)
    }
}

/// The events of a statement, in the order a walk meets them. An `export`
/// inside a function body cannot occur and contributes nothing.
pub open spec fn sev_stmt(st: Stmt, t: Seq<char>) -> Seq<SchemaEvent>
    decreases st,
{
    match st {
        Stmt::Expr(e) => sev_expr(e, t),
        Stmt::Var(v) => sev_decls(v.decls@, t),
        Stmt::Fn(f) => sev_fn(f.function, t),
        Stmt::Import(_) => Seq::empty(),
        Stmt::ExportDecl(_) => Seq::empty(),
        Stmt::ExportDefaultFn(d) => sev_fn(d.function, t),
        Stmt::ExportDefaultExpr(e) => sev_expr(e, t),
        Stmt::ExportDefaultClass { body, .. } => sev_stmts(body@, t),
        Stmt::Other(c) => sev_stmts(c@, t),
    }
}

pub open spec fn sev_decls(s: Seq<VarDeclarator>, t: Seq<char>) -> Seq<SchemaEvent>
    decreases s,
{
    if s.len() == 0 {
        Seq::empty()
    } else {
        sev_decls(s.drop_last(), t) + sev_pat(s.last().name, t) + sev_opt(s.last().init, t)
    }
}

pub open spec fn sev_opt(x: Option<Expr>, t: Seq<char>) -> Seq<SchemaEvent>
    decreases x,
{
    match x {
        Some(e) => sev_expr(e, t),
        None => Seq::empty(),
    }
}

/// A function that rebinds `t` hides everything inside it.
pub open spec fn sev_fn(f: Function, t: Seq<char>) -> Seq<SchemaEvent>
    decreases f,
{
    if shadows(f.params@, t) {
        Seq::empty()
    } else {
        sev_pats(f.params@, t) + sev_stmts(f.body@, t)
    }
}

pub open spec fn sev_arrow(a: ArrowExpr, t: Seq<char>) -> Seq<SchemaEvent>
    decreases a,
{
    if shadows(a.params@, t) {
        Seq::empty()
    } else {
        sev_pats(a.params@, t) + sev_stmts(a.body@, t)
    }
}

pub open spec fn sev_pats(s: Seq<Pat>, t: Seq<char>) -> Seq<SchemaEvent>
    decreases s,
{
    if s.len() == 0 {
        Seq::empty()
    } else {
        sev_pats(s.drop_last(), t) + sev_pat(s.last(), t)
    }
}

pub open spec fn sev_pat(p: Pat, t: Seq<char>) -> Seq<SchemaEvent>
    decreases p,
{
    match p {
        Pat::Ident { .. } => Seq::empty(),
        Pat::Object(props) => sev_opps(props@, t),
        Pat::Assign { left, right } => sev_pat(*left, t) + sev_expr(*right, t),
        Pat::Array(elems) => sev_opats(elems@, t),
        Pat::Rest(q) => sev_pat(*q, t),
        Pat::Other(c) => sev_stmts(c@, t),
    }
}

pub open spec fn sev_opps(s: Seq<ObjectPatProp>, t: Seq<char>) -> Seq<SchemaEvent>
    decreases s,
{
    if s.len() == 0 {
        Seq::empty()
    } else {
        sev_opps(s.drop_last(), t) + match s.last() {
            ObjectPatProp::KeyValue { key, value } => sev_prop_name(key, t) + sev_pat(value, t),
            ObjectPatProp::Assign { value, .. } => sev_opt(value, t),
            ObjectPatProp::Rest(q) => sev_pat(q, t),
        }
    }
}

pub open spec fn sev_opats(s: Seq<Option<Pat>>, t: Seq<char>) -> Seq<SchemaEvent>
    decreases s,
{
    if s.len() == 0 {
        Seq::empty()
    } else {
        sev_opats(s.drop_last(), t) + match s.last() {
            Some(q) => sev_pat(q, t),
            None => Seq::empty(),
        }
    }
}

pub open spec fn sev_prop_name(k: PropName, t: Seq<char>) -> Seq<SchemaEvent>
    decreases k,
{
    match k {
        PropName::Other(c) => sev_stmts(c@, t),
        _ => Seq::empty(),
    }
}

pub open spec fn sev_exprs(s: Seq<Expr>, t: Seq<char>) -> Seq<SchemaEvent>
    decreases s,
{
    if s.len() == 0 {
        Seq::empty()
    } else {
        sev_exprs(s.drop_last(), t) + sev_expr(s.last(), t)
    }
}

pub open spec fn sev_args(s: Seq<ExprOrSpread>, t: Seq<char>) -> Seq<SchemaEvent>
    decreases s,
{
    if s.len() == 0 {
        Seq::empty()
    } else {
        sev_args(s.drop_last(), t) + sev_expr(s.last().expr, t)
    }
}

pub open spec fn sev_elems(s: Seq<Option<ExprOrSpread>>, t: Seq<char>) -> Seq<SchemaEvent>
    decreases s,
{
    if s.len() == 0 {
        Seq::empty()
    } else {
        sev_elems(s.drop_last(), t) + match s.last() {
            Some(x) => sev_expr(x.expr, t),
            None => Seq::empty(),
        }
    }
}

pub open spec fn sev_props(s: Seq<PropOrSpread>, t: Seq<char>) -> Seq<SchemaEvent>
    decreases s,
{
    if s.len() == 0 {
        Seq::empty()
    } else {
        sev_props(s.drop_last(), t) + match s.last() {
            PropOrSpread::Spread(e) => sev_expr(e, t),
            PropOrSpread::KeyValue { key, value } => sev_prop_name(key, t) + sev_expr(value, t),
            PropOrSpread::Shorthand(_) => Seq::empty(),
            PropOrSpread::Method { key, function } => sev_prop_name(key, t) + sev_fn(function, t),
            PropOrSpread::Other(c) => sev_stmts(c@, t),
        }
    }
}

/// The events of an expression: a call's own event comes before those of
/// its callee and arguments.
pub open spec fn sev_expr(e: Expr, t: Seq<char>) -> Seq<SchemaEvent>
    decreases e,
{
    match e {
        Expr::Ident(_) => Seq::empty(),
        Expr::Str(..) => Seq::empty(),
        Expr::Num(_) => Seq::empty(),
        Expr::Tpl(tpl) => sev_exprs(tpl.exprs@, t),
        Expr::Cond { test, cons, alt } => sev_expr(*test, t) + sev_expr(*cons, t) + sev_expr(*alt, t),
        Expr::Bin { left, right, .. } => sev_expr(*left, t) + sev_expr(*right, t),
        Expr::Paren(x) => sev_expr(*x, t),
        Expr::TsAs(x) => sev_expr(*x, t),
        Expr::TsConst(x) => sev_expr(*x, t),
        Expr::TsSatisfies(x) => sev_expr(*x, t),
        Expr::Await(x) => sev_expr(*x, t),
        Expr::Call(c) => sev_call(c, t),
        Expr::Member { obj, prop } => sev_expr(*obj, t) + match prop {
            crate::ast::MemberProp::Computed(k) => sev_expr(*k, t),
            _ => Seq::empty(),
        },
        Expr::Arrow(a) => sev_arrow(a, t),
        Expr::Fn(f) => sev_fn(f, t),
        Expr::Object(props) => sev_props(props@, t),
        Expr::Array(elems) => sev_elems(elems@, t),
        Expr::JSXElement(el) => sev_jsx(*el, t),
        Expr::JSXFragment(children) => sev_children(children@, t),
        Expr::Other { children, .. } => sev_stmts(children@, t),
    }
}

pub open spec fn sev_call(c: CallExpr, t: Seq<char>) -> Seq<SchemaEvent>
    decreases c,
{
    call_events(c, t) + match c.callee {
        Some(callee) => sev_expr(*callee, t),
        None => Seq::empty(),
    } + sev_args(c.args@, t)
}

pub open spec fn sev_jsx(el: JSXElement, t: Seq<char>) -> Seq<SchemaEvent>
    decreases el,
{
    sev_attrs(el.attrs@, t) + sev_children(el.children@, t)
}

pub open spec fn sev_attrs(s: Seq<JSXAttrOrSpread>, t: Seq<char>) -> Seq<SchemaEvent>
    decreases s,
{
    if s.len() == 0 {
        Seq::empty()
    } else {
        sev_attrs(s.drop_last(), t) + match s.last() {
            JSXAttrOrSpread::Attr(a) => match a.value {
                Some(JSXAttrValue::Str(..)) => Seq::empty(),
                Some(JSXAttrValue::Container(x)) => sev_opt(x, t),
                Some(JSXAttrValue::Element(inner)) => sev_jsx(*inner, t),
                Some(JSXAttrValue::Fragment(children)) => sev_children(children@, t),
                None => Seq::empty(),
            },
            JSXAttrOrSpread::Spread(x) => sev_expr(x, t),
        }
    }
}

pub open spec fn sev_children(s: Seq<JSXChild>, t: Seq<char>) -> Seq<SchemaEvent>
    decreases s,
{
    if s.len() == 0 {
        Seq::empty()
    } else {
        sev_children(s.drop_last(), t) + match s.last() {
            JSXChild::Text(..) => Seq::empty(),
            JSXChild::Container(x) => sev_opt(x, t),
            JSXChild::Spread(x) => sev_expr(x, t),
            JSXChild::Element(el) => sev_jsx(*el, t),
            JSXChild::Fragment(children) => sev_children(children@, t),
        }
    }
}


/// The keys among the events, in order.
pub open spec fn keys_of(evs: Seq<SchemaEvent>) -> Seq<Seq<char>>
    decreases evs.len(),
{
    if evs.len() == 0 {
        Seq::empty()
    } else {
        keys_of(evs.drop_last()) + if evs.last().0 { seq![evs.last().1] } else { Seq::<Seq<char>>::empty() }
    }
}

/// The names of the schema functions called with `t`, in order.
pub open spec fn nested_of(evs: Seq<SchemaEvent>) -> Seq<Seq<char>>
    decreases evs.len(),
{
    if evs.len() == 0 {
        Seq::empty()
    } else {
        nested_of(evs.drop_last()) + if evs.last().0 { Seq::<Seq<char>>::empty() } else { seq![evs.last().1] }
    }
}

proof fn lemma_split_add(a: Seq<SchemaEvent>, b: Seq<SchemaEvent>)
    ensures
        keys_of(a + b) == keys_of(a) + keys_of(b),
        nested_of(a + b) == nested_of(a) + nested_of(b),
    decreases b.len(),
{
    if b.len() == 0 {
        assert(a + b =~= a);
        assert(keys_of(a) + keys_of(b) =~= keys_of(a));
        assert(nested_of(a) + nested_of(b) =~= nested_of(a));
    } else {
        lemma_split_add(a, b.drop_last());
        assert((a + b).drop_last() =~= a + b.drop_last());
        assert((a + b).last() == b.last());
        assert(keys_of(a + b) =~= keys_of(a) + keys_of(b));
        assert(nested_of(a + b) =~= nested_of(a) + nested_of(b));
    }
}

proof fn lemma_single(e: SchemaEvent)
    ensures
        keys_of(seq![e]) == if e.0 { seq![e.1] } else { Seq::<Seq<char>>::empty() },
        nested_of(seq![e]) == if e.0 { Seq::<Seq<char>>::empty() } else { seq![e.1] },
{
    assert(seq![e].drop_last() =~= Seq::<SchemaEvent>::empty());
    assert(keys_of(Seq::<SchemaEvent>::empty()) == Seq::<Seq<char>>::empty());
    assert(nested_of(Seq::<SchemaEvent>::empty()) == Seq::<Seq<char>>::empty());
    assert(keys_of(seq![e]) =~= if e.0 { seq![e.1] } else { Seq::<Seq<char>>::empty() });
    assert(nested_of(seq![e]) =~= if e.0 { Seq::<Seq<char>>::empty() } else { seq![e.1] });
}

/// A type reference annotation `TFunction`.
pub open spec fn is_tfunction(annotation: Option<String>) -> bool {
    annotation matches Some(r) && r@ == "TFunction"@
}

/// The translation parameter of a schema arrow function: its first
/// parameter, a plain identifier that starts with `t` or is typed `TFunction`.
pub open spec fn spec_t_param(a: ArrowExpr) -> Option<Seq<char>> {
    if a.params.len() == 0 {
        None
    } else {
        match a.params[0] {
            Pat::Ident { name, annotation_ref } =>
                if (name@.len() > 0 && name@[0] == 't') || is_tfunction(annotation_ref) {
                    Some(name@)
                } else {
                    None
                },
            _ => None,
        }
    }
}

/// A schema function by its parts: name, file, keys and nested schema calls.
pub open spec fn fn_view(f: SchemaFunction) -> (Seq<char>, Seq<char>, Seq<Seq<char>>, Seq<Seq<char>>) {
    (f.name@, f.file_path@, strs_view(f.keys@), strs_view(f.nested_calls@))
}

pub open spec fn fns_view(s: Seq<SchemaFunction>) -> Seq<(Seq<char>, Seq<char>, Seq<Seq<char>>, Seq<Seq<char>>)> {
    s.map_values(|f: SchemaFunction| fn_view(f))
}

/// The schema function a declarator defines, if any: `name = (t, ...) => body`
/// where the body uses `t` for a key or hands it to another function.
pub open spec fn spec_one_fn(d: VarDeclarator, file: Seq<char>) -> Seq<(Seq<char>, Seq<char>, Seq<Seq<char>>, Seq<Seq<char>>)> {
    match (d.name, d.init) {
        (Pat::Ident { name, .. }, Some(Expr::Arrow(a))) => match spec_t_param(a) {
            Some(t) => {
                let evs = sev_stmts(a.body@, t);
                if keys_of(evs).len() > 0 || nested_of(evs).len() > 0 {
                    seq![(name@, file, keys_of(evs), nested_of(evs))]
                } else {
                    Seq::empty()
                }
            },
            None => Seq::empty(),
        },
        _ => Seq::empty(),
    }
}

pub open spec fn spec_decl_fns(s: Seq<VarDeclarator>, file: Seq<char>) -> Seq<(Seq<char>, Seq<char>, Seq<Seq<char>>, Seq<Seq<char>>)>
    decreases s.len(),
{
    if s.len() == 0 {
        Seq::empty()
    } else {
        spec_decl_fns(s.drop_last(), file) + spec_one_fn(s.last(), file)
    }
}

/// The schema functions of a list of module items, in order: those of each
/// `export const`, also inside blocks of items such as namespaces.
pub open spec fn spec_module_fns(s: Seq<Stmt>, file: Seq<char>) -> Seq<(Seq<char>, Seq<char>, Seq<Seq<char>>, Seq<Seq<char>>)>
    decreases s,
{
    if s.len() == 0 {
        Seq::empty()
    } else {
        spec_module_fns(s.drop_last(), file) + spec_item_fns(s.last(), file)
    }
}

pub open spec fn spec_item_fns(st: Stmt, file: Seq<char>) -> Seq<(Seq<char>, Seq<char>, Seq<Seq<char>>, Seq<Seq<char>>)>
    decreases st,
{
    match st {
        Stmt::ExportDecl(Decl::Var(v)) => spec_decl_fns(v.decls@, file),
        Stmt::Other(c) => spec_module_fns(c@, file),
        _ => Seq::empty(),
    }
}

/// The schema function being read: its name, translation parameter, and
/// what was found so far.
#[derive(Debug)]
pub struct SchemaFunctionContext {
    pub name: String,
    pub t_param_name: String,
    pub keys: Vec<String>,
    pub nested_calls: Vec<String>,
}

/// The state of schema function detection during a walk.
#[derive(Debug)]
pub struct SchemaInternalState {
    /// The schema function being read, if any.
    pub current_context: Option<SchemaFunctionContext>,
    /// Depth of nested functions that rebind the translation parameter.
    pub shadow_depth: usize,
}

/// `after` is `before` with the events recorded, unless a nested function
/// rebinds the parameter; nothing else changes.
pub open spec fn advanced(before: SchemaInternalState, after: SchemaInternalState, evs: Seq<SchemaEvent>) -> bool {
    &&& after.shadow_depth == before.shadow_depth
    &&& match (before.current_context, after.current_context) {
        (Some(b), Some(a)) => {
            &&& a.name == b.name
            &&& a.t_param_name == b.t_param_name
            &&& strs_view(a.keys@) == strs_view(b.keys@) + if before.shadow_depth == 0 { keys_of(evs) } else { Seq::<Seq<char>>::empty() }
            &&& strs_view(a.nested_calls@) == strs_view(b.nested_calls@) + if before.shadow_depth == 0 { nested_of(evs) } else { Seq::<Seq<char>>::empty() }
        },
        (None, None) => true,
        _ => false,
    }
}

proof fn lemma_advanced_trans(a: SchemaInternalState, b: SchemaInternalState, c: SchemaInternalState, e1: Seq<SchemaEvent>, e2: Seq<SchemaEvent>)
    requires
        advanced(a, b, e1),
        advanced(b, c, e2),
    ensures
        advanced(a, c, e1 + e2),
{
    lemma_split_add(e1, e2);
    match (a.current_context, b.current_context, c.current_context) {
        (Some(x), Some(y), Some(z)) => {
            if a.shadow_depth == 0 {
                assert(strs_view(z.keys@) =~= strs_view(x.keys@) + keys_of(e1 + e2));
                assert(strs_view(z.nested_calls@) =~= strs_view(x.nested_calls@) + nested_of(e1 + e2));
            } else {
                assert(strs_view(z.keys@) =~= strs_view(x.keys@) + Seq::<Seq<char>>::empty());
                assert(strs_view(z.nested_calls@) =~= strs_view(x.nested_calls@) + Seq::<Seq<char>>::empty());
            }
        },
        _ => {},
    }
}

proof fn lemma_advanced_empty(a: SchemaInternalState)
    requires
        a.current_context is Some,
    ensures
        advanced(a, a, Seq::empty()),
{
    let c = a.current_context.unwrap();
    assert(keys_of(Seq::<SchemaEvent>::empty()) =~= Seq::<Seq<char>>::empty());
    assert(strs_view(c.keys@) =~= strs_view(c.keys@) + Seq::<Seq<char>>::empty());
    assert(strs_view(c.nested_calls@) =~= strs_view(c.nested_calls@) + Seq::<Seq<char>>::empty());
}

/// The literal key of a call's first argument.
fn extract_string_arg(call: &CallExpr) -> (r: Option<String>)
    ensures
        crate::key_objects::opt_view(r) == spec_string_arg(*call),
{
    if call.args.len() == 0 {
        return None;
    }
    match &call.args[0].expr {
        Expr::Str(Some(s), _) => Some(s.clone()),
        Expr::Tpl(tpl) => {
            if tpl.exprs.len() == 0 && tpl.quasis.len() > 0 {
                match &tpl.quasis[0].cooked {
                    Some(s) => Some(s.clone()),
                    None => None,
                }
            } else {
                None
            }
        },
        _ => None,
    }
}

/// The call's first argument is the identifier `t_param_name`.
fn is_schema_call_with_t(call: &CallExpr, t_param_name: &str) -> (r: bool)
    ensures
        r == first_arg_is(*call, t_param_name@),
{
    if call.args.len() == 0 {
        return false;
    }
    match &call.args[0].expr {
        Expr::Ident(n) => str_eq(n.as_str(), t_param_name),
        _ => false,
    }
}

/// The annotation is the type reference `TFunction`.
fn is_tfunction_type(annotation: &Option<String>) -> (r: bool)
    ensures
        r == is_tfunction(*annotation),
{
    match annotation {
        Some(r) => {
            proof { reveal_strlit("TFunction"); }
            str_eq(r.as_str(), "TFunction")
        },
        None => false,
    }
}

/// Whether a parameter list rebinds `t` by a plain identifier.
fn params_shadow(params: &Vec<Pat>, t: &str) -> (r: bool)
    ensures
        r == shadows(params@, t@),
{
    let mut i: usize = 0;
    while i < params.len()
        invariant
            i <= params@.len(),
            forall|j: int| 0 <= j < i ==> !binds(#[trigger] params@[j], t@),
        decreases params@.len() - i,
    {
        match &params[i] {
            Pat::Ident { name, .. } => {
                if str_eq(name.as_str(), t) {
                    assert(binds(params@[i as int], t@));
                    return true;
                }
            },
            _ => {},
        }
        i = i + 1;
    }
    false
}

impl SchemaInternalState {
    /// No schema function being read.
    pub fn new() -> (r: Self)
        ensures
            r.current_context is None,
            r.shadow_depth == 0,
    {
        SchemaInternalState { current_context: None, shadow_depth: 0 }
    }

    /// The translation parameter of a schema arrow function.
    pub fn extract_t_param(arrow: &ArrowExpr) -> (r: Option<String>)
        ensures
            crate::key_objects::opt_view(r) == spec_t_param(*arrow),
    {
        if arrow.params.len() == 0 {
            return None;
        }
        match &arrow.params[0] {
            Pat::Ident { name, annotation_ref } => {
                let cs = chars_of(name.as_str());
                let starts_with_t = cs.len() > 0 && cs[0] == 't';
                if starts_with_t || is_tfunction_type(annotation_ref) {
                    Some(name.clone())
                } else {
                    None
                }
            },
            _ => None,
        }
    }

    /// Starts reading a declarator if it defines a schema arrow function,
    /// and hands back that function.
    pub fn check_schema_function<'a>(&mut self, decl: &'a VarDeclarator) -> (r: Option<&'a ArrowExpr>)
        ensures
            final(self).shadow_depth == old(self).shadow_depth,
            match (decl.name, decl.init) {
                (Pat::Ident { name, .. }, Some(Expr::Arrow(a))) => match spec_t_param(a) {
                    Some(t) => {
                        &&& r == Some(&a)
                        &&& final(self).current_context matches Some(c)
                        &&& c.name@ == name@
                        &&& c.t_param_name@ == t
                        &&& c.keys@.len() == 0
                        &&& c.nested_calls@.len() == 0
                    },
                    None => r is None && *final(self) == *old(self),
                },
                _ => r is None && *final(self) == *old(self),
            },
    {
        let func_name = match &decl.name {
            Pat::Ident { name, .. } => name,
            _ => return None,
        };
        let arrow = match &decl.init {
            Some(Expr::Arrow(a)) => a,
            _ => return None,
        };
        let t_param_name = match Self::extract_t_param(arrow) {
            Some(t) => t,
            None => return None,
        };
        self.current_context = Some(SchemaFunctionContext {
            name: func_name.clone(),
            t_param_name,
            keys: Vec::new(),
            nested_calls: Vec::new(),
        });
        Some(arrow)
    }

    /// Records what a call does with the translation parameter, when a
    /// schema function is being read and the parameter is not rebound.
    pub fn check_call_expr(&mut self, node: &CallExpr)
        ensures
            advanced(*old(self), *final(self), match old(self).current_context {
                Some(c) => call_events(*node, c.t_param_name@),
                None => Seq::empty(),
            }),
    {
        if self.shadow_depth != 0 {
            proof {
                let st = *self;
                match st.current_context {
                    Some(c) => {
                        assert(strs_view(c.keys@) =~= strs_view(c.keys@) + Seq::<Seq<char>>::empty());
                        assert(strs_view(c.nested_calls@) =~= strs_view(c.nested_calls@) + Seq::<Seq<char>>::empty());
                    },
                    None => {},
                }
            }
            return;
        }
        let ghost s0 = *self;
        match &mut self.current_context {
            Some(ctx) => {
                let ghost c0 = *ctx;
                match &node.callee {
                    Some(callee) => match &**callee {
                        Expr::Ident(fn_name) => {
                            if str_eq(fn_name.as_str(), ctx.t_param_name.as_str()) {
                                match extract_string_arg(node) {
                                    Some(key) => {
                                        ctx.keys.push(key);
                                        proof {
                                            lemma_single((true, key@));
                                            assert(keys_of(seq![(true, key@)]) =~= seq![key@]);
                                            assert(nested_of(seq![(true, key@)]) =~= Seq::<Seq<char>>::empty());
                                            assert(strs_view(ctx.keys@) =~= strs_view(c0.keys@) + seq![key@]);
                                            assert(strs_view(ctx.nested_calls@) =~= strs_view(c0.nested_calls@) + Seq::<Seq<char>>::empty());
                                        }
                                    },
                                    None => {
                                        proof {
                                            assert(strs_view(ctx.keys@) =~= strs_view(c0.keys@) + keys_of(Seq::empty()));
                                            assert(strs_view(ctx.nested_calls@) =~= strs_view(c0.nested_calls@) + nested_of(Seq::empty()));
                                        }
                                    },
                                }
                            } else if is_schema_call_with_t(node, ctx.t_param_name.as_str()) {
                                let n = fn_name.clone();
                                ctx.nested_calls.push(n);
                                proof {
                                    lemma_single((false, n@));
                                    assert(keys_of(seq![(false, n@)]) =~= Seq::<Seq<char>>::empty());
                                    assert(nested_of(seq![(false, n@)]) =~= seq![n@]);
                                    assert(strs_view(ctx.keys@) =~= strs_view(c0.keys@) + Seq::<Seq<char>>::empty());
                                    assert(strs_view(ctx.nested_calls@) =~= strs_view(c0.nested_calls@) + seq![n@]);
                                }
                            } else {
                                proof {
                                    assert(strs_view(ctx.keys@) =~= strs_view(c0.keys@) + keys_of(Seq::empty()));
                                    assert(strs_view(ctx.nested_calls@) =~= strs_view(c0.nested_calls@) + nested_of(Seq::empty()));
                                }
                            }
                        },
                        _ => {
                            proof {
                                assert(strs_view(ctx.keys@) =~= strs_view(c0.keys@) + keys_of(Seq::empty()));
                                assert(strs_view(ctx.nested_calls@) =~= strs_view(c0.nested_calls@) + nested_of(Seq::empty()));
                            }
                        },
                    },
                    None => {
                        proof {
                            assert(strs_view(ctx.keys@) =~= strs_view(c0.keys@) + keys_of(Seq::empty()));
                            assert(strs_view(ctx.nested_calls@) =~= strs_view(c0.nested_calls@) + nested_of(Seq::empty()));
                        }
                    },
                }
            },
            None => {},
        }
    }

    /// Whether the parameters rebind the translation parameter of the
    /// schema function being read.
    pub fn check_shadow(&self, params: &Vec<Pat>) -> (r: bool)
        ensures
            r == (self.current_context matches Some(c) && shadows(params@, c.t_param_name@)),
    {
        match &self.current_context {
            Some(ctx) => params_shadow(params, ctx.t_param_name.as_str()),
            None => false,
        }
    }

    /// Enters a function that rebinds the translation parameter.
    pub fn enter_shadow(&mut self)
        requires
            old(self).shadow_depth < usize::MAX,
        ensures
            final(self).shadow_depth == old(self).shadow_depth + 1,
            final(self).current_context == old(self).current_context,
    {
        self.shadow_depth = self.shadow_depth + 1;
    }

    /// Leaves a function that rebinds the translation parameter.
    pub fn exit_shadow(&mut self)
        requires
            old(self).shadow_depth > 0,
        ensures
            final(self).shadow_depth == old(self).shadow_depth - 1,
            final(self).current_context == old(self).current_context,
    {
        self.shadow_depth = self.shadow_depth - 1;
    }

    /// Ends the schema function being read: it is added to `output` when it
    /// used its translation parameter for a key or a nested schema call.
    pub fn finalize_schema_function(&mut self, file_path: &str, output: &mut Vec<SchemaFunction>)
        ensures
            final(self).current_context is None,
            final(self).shadow_depth == old(self).shadow_depth,
            match old(self).current_context {
                Some(c) => if c.keys@.len() > 0 || c.nested_calls@.len() > 0 {
                    fns_view(final(output)@) == fns_view(old(output)@).push(
                        (c.name@, file_path@, strs_view(c.keys@), strs_view(c.nested_calls@)))
                } else {
                    final(output)@ == old(output)@
                },
                None => final(output)@ == old(output)@,
            },
    {
        let taken = self.current_context.take();
        match taken {
            Some(ctx) => {
                if ctx.keys.len() > 0 || ctx.nested_calls.len() > 0 {
                    let ghost o0 = output@;
                    let f = SchemaFunction {
                        name: ctx.name,
                        file_path: text(file_path),
                        keys: ctx.keys,
                        nested_calls: ctx.nested_calls,
                    };
                    output.push(f);
                    proof {
                        assert(fns_view(output@) =~= fns_view(o0).push(fn_view(f)));
                    }
                }
            },
            None => {},
        }
    }
}

impl SchemaInternalState {
    /// Inside a schema function's body.
    pub open spec fn in_fn(&self) -> bool {
        self.current_context is Some && self.shadow_depth <= 1
    }

    /// The translation parameter of the schema function being read.
    pub open spec fn t(&self) -> Seq<char> {
        self.current_context.unwrap().t_param_name@
    }

    pub(crate) fn walk_stmts(&mut self, v: &Vec<Stmt>)
        requires
            old(self).in_fn(),
        ensures
            advanced(*old(self), *final(self), sev_stmts(v@, old(self).t())),
        decreases v,
    {
        let ghost s0 = *self;
        let ghost t = self.t();
        proof { lemma_advanced_empty(s0); }
        let mut i: usize = 0;
        while i < v.len()
            invariant
                i <= v@.len(),
                s0.in_fn(),
                t == s0.t(),
                advanced(s0, *self, sev_stmts(v@.take(i as int), t)),
            decreases v@.len() - i,
        {
            proof { assert(decreases_to!(v => v@[i as int])); }
            let ghost m = *self;
            self.walk_stmt(&v[i]);
            proof {
                lemma_advanced_trans(s0, m, *self, sev_stmts(v@.take(i as int), t), sev_stmt(v@[i as int], t));
                assert(v@.take(i + 1).drop_last() =~= v@.take(i as int));
            }
            i = i + 1;
        }
        proof { assert(v@.take(v@.len() as int) =~= v@); }
    }

    fn walk_stmt(&mut self, st: &Stmt)
        requires
            old(self).in_fn(),
        ensures
            advanced(*old(self), *final(self), sev_stmt(*st, old(self).t())),
        decreases st,
    {
        let ghost s0 = *self;
        match st {
            Stmt::Expr(e) => self.walk_expr(e),
            Stmt::Var(v) => self.walk_decls(&v.decls),
            Stmt::Fn(f) => self.walk_fn(&f.function),
            Stmt::Import(_) => { proof { lemma_advanced_empty(s0); } },
            Stmt::ExportDecl(_) => { proof { lemma_advanced_empty(s0); } },
            Stmt::ExportDefaultFn(d) => self.walk_fn(&d.function),
            Stmt::ExportDefaultExpr(e) => self.walk_expr(e),
            Stmt::ExportDefaultClass { body, .. } => self.walk_stmts(body),
            Stmt::Other(c) => self.walk_stmts(c),
        }
    }

    fn walk_decls(&mut self, v: &Vec<VarDeclarator>)
        requires
            old(self).in_fn(),
        ensures
            advanced(*old(self), *final(self), sev_decls(v@, old(self).t())),
        decreases v,
    {
        let ghost s0 = *self;
        let ghost t = self.t();
        proof { lemma_advanced_empty(s0); }
        let mut i: usize = 0;
        while i < v.len()
            invariant
                i <= v@.len(),
                s0.in_fn(),
                t == s0.t(),
                advanced(s0, *self, sev_decls(v@.take(i as int), t)),
            decreases v@.len() - i,
        {
            proof { assert(decreases_to!(v => v@[i as int])); }
            let ghost m = *self;
            self.walk_pat(&v[i].name);
            let ghost m2 = *self;
            self.walk_opt(&v[i].init);
            proof {
                lemma_advanced_trans(m, m2, *self, sev_pat(v@[i as int].name, t), sev_opt(v@[i as int].init, t));
                lemma_advanced_trans(s0, m, *self, sev_decls(v@.take(i as int), t), sev_pat(v@[i as int].name, t) + sev_opt(v@[i as int].init, t));
                assert(v@.take(i + 1).drop_last() =~= v@.take(i as int));
                assert(sev_decls(v@.take(i as int), t) + (sev_pat(v@[i as int].name, t) + sev_opt(v@[i as int].init, t))
                    =~= sev_decls(v@.take(i + 1), t));
            }
            i = i + 1;
        }
        proof { assert(v@.take(v@.len() as int) =~= v@); }
    }

    fn walk_opt(&mut self, x: &Option<Expr>)
        requires
            old(self).in_fn(),
        ensures
            advanced(*old(self), *final(self), sev_opt(*x, old(self).t())),
        decreases x,
    {
        match x {
            Some(e) => self.walk_expr(e),
            None => { proof { lemma_advanced_empty(*self); } },
        }
    }

    /// A function: if it rebinds the parameter, nothing inside it counts.
    fn walk_fn(&mut self, f: &Function)
        requires
            old(self).in_fn(),
        ensures
            advanced(*old(self), *final(self), sev_fn(*f, old(self).t())),
        decreases f,
    {
        let ghost s0 = *self;
        let ghost t = self.t();
        let shadowed = self.shadow_depth == 0 && self.check_shadow(&f.params);
        if shadowed {
            self.enter_shadow();
        }
        let ghost s1 = *self;
        self.walk_pats(&f.params);
        let ghost s2 = *self;
        self.walk_stmts(&f.body);
        proof { lemma_advanced_trans(s1, s2, *self, sev_pats(f.params@, t), sev_stmts(f.body@, t)); }
        if shadowed {
            self.exit_shadow();
        }
        proof {
            let c0 = s0.current_context.unwrap();
            let c = self.current_context.unwrap();
            if shadowed || s0.shadow_depth != 0 {
                assert(strs_view(c.keys@) =~= strs_view(c0.keys@) + Seq::<Seq<char>>::empty());
                assert(strs_view(c.nested_calls@) =~= strs_view(c0.nested_calls@) + Seq::<Seq<char>>::empty());
                if shadowed {
                    assert(sev_fn(*f, t) =~= Seq::<SchemaEvent>::empty());
                    assert(keys_of(Seq::<SchemaEvent>::empty()) =~= Seq::<Seq<char>>::empty());
                    assert(nested_of(Seq::<SchemaEvent>::empty()) =~= Seq::<Seq<char>>::empty());
                }
            }
        }
    }

    /// An arrow function: if it rebinds the parameter, nothing inside it counts.
    fn walk_arrow(&mut self, a: &ArrowExpr)
        requires
            old(self).in_fn(),
        ensures
            advanced(*old(self), *final(self), sev_arrow(*a, old(self).t())),
        decreases a,
    {
        let ghost s0 = *self;
        let ghost t = self.t();
        let shadowed = self.shadow_depth == 0 && self.check_shadow(&a.params);
        if shadowed {
            self.enter_shadow();
        }
        let ghost s1 = *self;
        self.walk_pats(&a.params);
        let ghost s2 = *self;
        self.walk_stmts(&a.body);
        proof { lemma_advanced_trans(s1, s2, *self, sev_pats(a.params@, t), sev_stmts(a.body@, t)); }
        if shadowed {
            self.exit_shadow();
        }
        proof {
            let c0 = s0.current_context.unwrap();
            let c = self.current_context.unwrap();
            if shadowed || s0.shadow_depth != 0 {
                assert(strs_view(c.keys@) =~= strs_view(c0.keys@) + Seq::<Seq<char>>::empty());
                assert(strs_view(c.nested_calls@) =~= strs_view(c0.nested_calls@) + Seq::<Seq<char>>::empty());
                if shadowed {
                    assert(sev_arrow(*a, t) =~= Seq::<SchemaEvent>::empty());
                    assert(keys_of(Seq::<SchemaEvent>::empty()) =~= Seq::<Seq<char>>::empty());
                    assert(nested_of(Seq::<SchemaEvent>::empty()) =~= Seq::<Seq<char>>::empty());
                }
            }
        }
    }

    fn walk_pats(&mut self, v: &Vec<Pat>)
        requires
            old(self).in_fn(),
        ensures
            advanced(*old(self), *final(self), sev_pats(v@, old(self).t())),
        decreases v,
    {
        let ghost s0 = *self;
        let ghost t = self.t();
        proof { lemma_advanced_empty(s0); }
        let mut i: usize = 0;
        while i < v.len()
            invariant
                i <= v@.len(),
                s0.in_fn(),
                t == s0.t(),
                advanced(s0, *self, sev_pats(v@.take(i as int), t)),
            decreases v@.len() - i,
        {
            proof { assert(decreases_to!(v => v@[i as int])); }
            let ghost m = *self;
            self.walk_pat(&v[i]);
            proof {
                lemma_advanced_trans(s0, m, *self, sev_pats(v@.take(i as int), t), sev_pat(v@[i as int], t));
                assert(v@.take(i + 1).drop_last() =~= v@.take(i as int));
            }
            i = i + 1;
        }
        proof { assert(v@.take(v@.len() as int) =~= v@); }
    }

    fn walk_pat(&mut self, p: &Pat)
        requires
            old(self).in_fn(),
        ensures
            advanced(*old(self), *final(self), sev_pat(*p, old(self).t())),
        decreases p,
    {
        let ghost s0 = *self;
        let ghost t = self.t();
        match p {
            Pat::Ident { .. } => { proof { lemma_advanced_empty(s0); } },
            Pat::Object(props) => self.walk_obj_pat_props(props),
            Pat::Assign { left, right } => {
                self.walk_pat(left);
                let ghost m = *self;
                self.walk_expr(right);
                proof { lemma_advanced_trans(s0, m, *self, sev_pat(**left, t), sev_expr(**right, t)); }
            },
            Pat::Array(elems) => self.walk_opt_pats(elems),
            Pat::Rest(q) => self.walk_pat(q),
            Pat::Other(c) => self.walk_stmts(c),
        }
    }

    fn walk_obj_pat_props(&mut self, v: &Vec<ObjectPatProp>)
        requires
            old(self).in_fn(),
        ensures
            advanced(*old(self), *final(self), sev_opps(v@, old(self).t())),
        decreases v,
    {
        let ghost s0 = *self;
        let ghost t = self.t();
        proof { lemma_advanced_empty(s0); }
        let mut i: usize = 0;
        while i < v.len()
            invariant
                i <= v@.len(),
                s0.in_fn(),
                t == s0.t(),
                advanced(s0, *self, sev_opps(v@.take(i as int), t)),
            decreases v@.len() - i,
        {
            proof { assert(decreases_to!(v => v@[i as int])); }
            let ghost m = *self;
            let ghost item = match v@[i as int] {
                ObjectPatProp::KeyValue { key, value } => sev_prop_name(key, t) + sev_pat(value, t),
                ObjectPatProp::Assign { value, .. } => sev_opt(value, t),
                ObjectPatProp::Rest(q) => sev_pat(q, t),
            };
            match &v[i] {
                ObjectPatProp::KeyValue { key, value } => {
                    self.walk_prop_name(key);
                    let ghost m2 = *self;
                    self.walk_pat(value);
                    proof { lemma_advanced_trans(m, m2, *self, sev_prop_name(*key, t), sev_pat(*value, t)); }
                },
                ObjectPatProp::Assign { value, .. } => self.walk_opt(value),
                ObjectPatProp::Rest(q) => self.walk_pat(q),
            }
            proof {
                lemma_advanced_trans(s0, m, *self, sev_opps(v@.take(i as int), t), item);
                assert(v@.take(i + 1).drop_last() =~= v@.take(i as int));
            }
            i = i + 1;
        }
        proof { assert(v@.take(v@.len() as int) =~= v@); }
    }

    fn walk_opt_pats(&mut self, v: &Vec<Option<Pat>>)
        requires
            old(self).in_fn(),
        ensures
            advanced(*old(self), *final(self), sev_opats(v@, old(self).t())),
        decreases v,
    {
        let ghost s0 = *self;
        let ghost t = self.t();
        proof { lemma_advanced_empty(s0); }
        let mut i: usize = 0;
        while i < v.len()
            invariant
                i <= v@.len(),
                s0.in_fn(),
                t == s0.t(),
                advanced(s0, *self, sev_opats(v@.take(i as int), t)),
            decreases v@.len() - i,
        {
            proof { assert(decreases_to!(v => v@[i as int])); }
            let ghost m = *self;
            let ghost item = match v@[i as int] {
                Some(q) => sev_pat(q, t),
                None => Seq::empty(),
            };
            match &v[i] {
                Some(q) => self.walk_pat(q),
                None => { proof { lemma_advanced_empty(m); } },
            }
            proof {
                lemma_advanced_trans(s0, m, *self, sev_opats(v@.take(i as int), t), item);
                assert(v@.take(i + 1).drop_last() =~= v@.take(i as int));
            }
            i = i + 1;
        }
        proof { assert(v@.take(v@.len() as int) =~= v@); }
    }

    fn walk_prop_name(&mut self, k: &PropName)
        requires
            old(self).in_fn(),
        ensures
            advanced(*old(self), *final(self), sev_prop_name(*k, old(self).t())),
        decreases k,
    {
        match k {
            PropName::Other(c) => self.walk_stmts(c),
            _ => { proof { lemma_advanced_empty(*self); } },
        }
    }

    fn walk_exprs(&mut self, v: &Vec<Expr>)
        requires
            old(self).in_fn(),
        ensures
            advanced(*old(self), *final(self), sev_exprs(v@, old(self).t())),
        decreases v,
    {
        let ghost s0 = *self;
        let ghost t = self.t();
        proof { lemma_advanced_empty(s0); }
        let mut i: usize = 0;
        while i < v.len()
            invariant
                i <= v@.len(),
                s0.in_fn(),
                t == s0.t(),
                advanced(s0, *self, sev_exprs(v@.take(i as int), t)),
            decreases v@.len() - i,
        {
            proof { assert(decreases_to!(v => v@[i as int])); }
            let ghost m = *self;
            self.walk_expr(&v[i]);
            proof {
                lemma_advanced_trans(s0, m, *self, sev_exprs(v@.take(i as int), t), sev_expr(v@[i as int], t));
                assert(v@.take(i + 1).drop_last() =~= v@.take(i as int));
            }
            i = i + 1;
        }
        proof { assert(v@.take(v@.len() as int) =~= v@); }
    }

    fn walk_args(&mut self, v: &Vec<ExprOrSpread>)
        requires
            old(self).in_fn(),
        ensures
            advanced(*old(self), *final(self), sev_args(v@, old(self).t())),
        decreases v,
    {
        let ghost s0 = *self;
        let ghost t = self.t();
        proof { lemma_advanced_empty(s0); }
        let mut i: usize = 0;
        while i < v.len()
            invariant
                i <= v@.len(),
                s0.in_fn(),
                t == s0.t(),
                advanced(s0, *self, sev_args(v@.take(i as int), t)),
            decreases v@.len() - i,
        {
            proof { assert(decreases_to!(v => v@[i as int])); }
            let ghost m = *self;
            self.walk_expr(&v[i].expr);
            proof {
                lemma_advanced_trans(s0, m, *self, sev_args(v@.take(i as int), t), sev_expr(v@[i as int].expr, t));
                assert(v@.take(i + 1).drop_last() =~= v@.take(i as int));
            }
            i = i + 1;
        }
        proof { assert(v@.take(v@.len() as int) =~= v@); }
    }

    fn walk_elems(&mut self, v: &Vec<Option<ExprOrSpread>>)
        requires
            old(self).in_fn(),
        ensures
            advanced(*old(self), *final(self), sev_elems(v@, old(self).t())),
        decreases v,
    {
        let ghost s0 = *self;
        let ghost t = self.t();
        proof { lemma_advanced_empty(s0); }
        let mut i: usize = 0;
        while i < v.len()
            invariant
                i <= v@.len(),
                s0.in_fn(),
                t == s0.t(),
                advanced(s0, *self, sev_elems(v@.take(i as int), t)),
            decreases v@.len() - i,
        {
            proof { assert(decreases_to!(v => v@[i as int])); }
            let ghost m = *self;
            let ghost item = match v@[i as int] {
                Some(x) => sev_expr(x.expr, t),
                None => Seq::empty(),
            };
            match &v[i] {
                Some(x) => self.walk_expr(&x.expr),
                None => { proof { lemma_advanced_empty(m); } },
            }
            proof {
                lemma_advanced_trans(s0, m, *self, sev_elems(v@.take(i as int), t), item);
                assert(v@.take(i + 1).drop_last() =~= v@.take(i as int));
            }
            i = i + 1;
        }
        proof { assert(v@.take(v@.len() as int) =~= v@); }
    }

    fn walk_props(&mut self, v: &Vec<PropOrSpread>)
        requires
            old(self).in_fn(),
        ensures
            advanced(*old(self), *final(self), sev_props(v@, old(self).t())),
        decreases v,
    {
        let ghost s0 = *self;
        let ghost t = self.t();
        proof { lemma_advanced_empty(s0); }
        let mut i: usize = 0;
        while i < v.len()
            invariant
                i <= v@.len(),
                s0.in_fn(),
                t == s0.t(),
                advanced(s0, *self, sev_props(v@.take(i as int), t)),
            decreases v@.len() - i,
        {
            proof { assert(decreases_to!(v => v@[i as int])); }
            let ghost m = *self;
            let ghost item = match v@[i as int] {
                PropOrSpread::Spread(e) => sev_expr(e, t),
                PropOrSpread::KeyValue { key, value } => sev_prop_name(key, t) + sev_expr(value, t),
                PropOrSpread::Shorthand(_) => Seq::empty(),
                PropOrSpread::Method { key, function } => sev_prop_name(key, t) + sev_fn(function, t),
                PropOrSpread::Other(c) => sev_stmts(c@, t),
            };
            match &v[i] {
                PropOrSpread::Spread(e) => self.walk_expr(e),
                PropOrSpread::KeyValue { key, value } => {
                    self.walk_prop_name(key);
                    let ghost m2 = *self;
                    self.walk_expr(value);
                    proof { lemma_advanced_trans(m, m2, *self, sev_prop_name(*key, t), sev_expr(*value, t)); }
                },
                PropOrSpread::Shorthand(_) => { proof { lemma_advanced_empty(m); } },
                PropOrSpread::Method { key, function } => {
                    self.walk_prop_name(key);
                    let ghost m2 = *self;
                    self.walk_fn(function);
                    proof { lemma_advanced_trans(m, m2, *self, sev_prop_name(*key, t), sev_fn(*function, t)); }
                },
                PropOrSpread::Other(c) => self.walk_stmts(c),
            }
            proof {
                lemma_advanced_trans(s0, m, *self, sev_props(v@.take(i as int), t), item);
                assert(v@.take(i + 1).drop_last() =~= v@.take(i as int));
            }
            i = i + 1;
        }
        proof { assert(v@.take(v@.len() as int) =~= v@); }
    }

    fn walk_expr(&mut self, e: &Expr)
        requires
            old(self).in_fn(),
        ensures
            advanced(*old(self), *final(self), sev_expr(*e, old(self).t())),
        decreases e,
    {
        let ghost s0 = *self;
        let ghost t = self.t();
        match e {
            Expr::Ident(_) => { proof { lemma_advanced_empty(s0); } },
            Expr::Str(..) => { proof { lemma_advanced_empty(s0); } },
            Expr::Num(_) => { proof { lemma_advanced_empty(s0); } },
            Expr::Tpl(tpl) => self.walk_exprs(&tpl.exprs),
            Expr::Cond { test, cons, alt } => {
                self.walk_expr(test);
                let ghost m1 = *self;
                self.walk_expr(cons);
                let ghost m2 = *self;
                self.walk_expr(alt);
                proof {
                    lemma_advanced_trans(s0, m1, m2, sev_expr(**test, t), sev_expr(**cons, t));
                    lemma_advanced_trans(s0, m2, *self, sev_expr(**test, t) + sev_expr(**cons, t), sev_expr(**alt, t));
                }
            },
            Expr::Bin { left, right, .. } => {
                self.walk_expr(left);
                let ghost m1 = *self;
                self.walk_expr(right);
                proof { lemma_advanced_trans(s0, m1, *self, sev_expr(**left, t), sev_expr(**right, t)); }
            },
            Expr::Paren(x) => self.walk_expr(x),
            Expr::TsAs(x) => self.walk_expr(x),
            Expr::TsConst(x) => self.walk_expr(x),
            Expr::TsSatisfies(x) => self.walk_expr(x),
            Expr::Await(x) => self.walk_expr(x),
            Expr::Call(c) => self.walk_call(c),
            Expr::Member { obj, prop } => {
                self.walk_expr(obj);
                let ghost m1 = *self;
                match prop {
                    crate::ast::MemberProp::Computed(k) => {
                        self.walk_expr(k);
                        proof { lemma_advanced_trans(s0, m1, *self, sev_expr(**obj, t), sev_expr(**k, t)); }
                    },
                    _ => {
                        proof {
                            lemma_advanced_empty(m1);
                            lemma_advanced_trans(s0, m1, m1, sev_expr(**obj, t), Seq::empty());
                            assert(sev_expr(**obj, t) + Seq::<SchemaEvent>::empty() =~= sev_expr(**obj, t));
                        }
                    },
                }
            },
            Expr::Arrow(a) => self.walk_arrow(a),
            Expr::Fn(f) => self.walk_fn(f),
            Expr::Object(props) => self.walk_props(props),
            Expr::Array(elems) => self.walk_elems(elems),
            Expr::JSXElement(el) => self.walk_jsx(el),
            Expr::JSXFragment(children) => self.walk_children(children),
            Expr::Other { children, .. } => self.walk_stmts(children),
        }
    }

    /// A call: its own event, then its callee and arguments.
    fn walk_call(&mut self, c: &CallExpr)
        requires
            old(self).in_fn(),
        ensures
            advanced(*old(self), *final(self), sev_call(*c, old(self).t())),
        decreases c,
    {
        let ghost s0 = *self;
        let ghost t = self.t();
        self.check_call_expr(c);
        let ghost s1 = *self;
        let ghost cc = *c;
        let ghost callee_evs = match cc.callee {
            Some(callee) => sev_expr(*callee, t),
            None => Seq::empty(),
        };
        match &c.callee {
            Some(callee) => {
                proof { assert(decreases_to!(c => **callee)); }
                self.walk_expr(callee);
            },
            None => { proof { lemma_advanced_empty(s1); } },
        }
        let ghost s2 = *self;
        self.walk_args(&c.args);
        proof {
            lemma_advanced_trans(s0, s1, s2, call_events(*c, t), callee_evs);
            lemma_advanced_trans(s0, s2, *self, call_events(*c, t) + callee_evs, sev_args(c.args@, t));
        }
    }

    fn walk_jsx(&mut self, el: &JSXElement)
        requires
            old(self).in_fn(),
        ensures
            advanced(*old(self), *final(self), sev_jsx(*el, old(self).t())),
        decreases el,
    {
        let ghost s0 = *self;
        let ghost t = self.t();
        self.walk_attrs(&el.attrs);
        let ghost s1 = *self;
        self.walk_children(&el.children);
        proof { lemma_advanced_trans(s0, s1, *self, sev_attrs(el.attrs@, t), sev_children(el.children@, t)); }
    }

    fn walk_attrs(&mut self, v: &Vec<JSXAttrOrSpread>)
        requires
            old(self).in_fn(),
        ensures
            advanced(*old(self), *final(self), sev_attrs(v@, old(self).t())),
        decreases v,
    {
        let ghost s0 = *self;
        let ghost t = self.t();
        proof { lemma_advanced_empty(s0); }
        let mut i: usize = 0;
        while i < v.len()
            invariant
                i <= v@.len(),
                s0.in_fn(),
                t == s0.t(),
                advanced(s0, *self, sev_attrs(v@.take(i as int), t)),
            decreases v@.len() - i,
        {
            proof { assert(decreases_to!(v => v@[i as int])); }
            let ghost m = *self;
            let ghost item = match v@[i as int] {
                JSXAttrOrSpread::Attr(a) => match a.value {
                    Some(JSXAttrValue::Str(..)) => Seq::empty(),
                    Some(JSXAttrValue::Container(x)) => sev_opt(x, t),
                    Some(JSXAttrValue::Element(inner)) => sev_jsx(*inner, t),
                    Some(JSXAttrValue::Fragment(children)) => sev_children(children@, t),
                    None => Seq::empty(),
                },
                JSXAttrOrSpread::Spread(x) => sev_expr(x, t),
            };
            match &v[i] {
                JSXAttrOrSpread::Attr(a) => match &a.value {
                    Some(JSXAttrValue::Str(..)) => { proof { lemma_advanced_empty(m); } },
                    Some(JSXAttrValue::Container(x)) => self.walk_opt(x),
                    Some(JSXAttrValue::Element(inner)) => self.walk_jsx(inner),
                    Some(JSXAttrValue::Fragment(children)) => self.walk_children(children),
                    None => { proof { lemma_advanced_empty(m); } },
                },
                JSXAttrOrSpread::Spread(x) => self.walk_expr(x),
            }
            proof {
                lemma_advanced_trans(s0, m, *self, sev_attrs(v@.take(i as int), t), item);
                assert(v@.take(i + 1).drop_last() =~= v@.take(i as int));
            }
            i = i + 1;
        }
        proof { assert(v@.take(v@.len() as int) =~= v@); }
    }

    fn walk_children(&mut self, v: &Vec<JSXChild>)
        requires
            old(self).in_fn(),
        ensures
            advanced(*old(self), *final(self), sev_children(v@, old(self).t())),
        decreases v,
    {
        let ghost s0 = *self;
        let ghost t = self.t();
        proof { lemma_advanced_empty(s0); }
        let mut i: usize = 0;
        while i < v.len()
            invariant
                i <= v@.len(),
                s0.in_fn(),
                t == s0.t(),
                advanced(s0, *self, sev_children(v@.take(i as int), t)),
            decreases v@.len() - i,
        {
            proof { assert(decreases_to!(v => v@[i as int])); }
            let ghost m = *self;
            let ghost item = match v@[i as int] {
                JSXChild::Text(..) => Seq::empty(),
                JSXChild::Container(x) => sev_opt(x, t),
                JSXChild::Spread(x) => sev_expr(x, t),
                JSXChild::Element(el) => sev_jsx(*el, t),
                JSXChild::Fragment(children) => sev_children(children@, t),
            };
            match &v[i] {
                JSXChild::Text(..) => { proof { lemma_advanced_empty(m); } },
                JSXChild::Container(x) => self.walk_opt(x),
                JSXChild::Spread(x) => self.walk_expr(x),
                JSXChild::Element(el) => self.walk_jsx(el),
                JSXChild::Fragment(children) => self.walk_children(children),
            }
            proof {
                lemma_advanced_trans(s0, m, *self, sev_children(v@.take(i as int), t), item);
                assert(v@.take(i + 1).drop_last() =~= v@.take(i as int));
            }
            i = i + 1;
        }
        proof { assert(v@.take(v@.len() as int) =~= v@); }
    }
}

/// Collects the schema factory functions of one file.
///
/// Only exported arrow functions are detected
/// (`export const createSchema = (t) => ...`), not function declarations or
/// function expressions.
pub struct SchemaFunctionCollector {
    pub file_path: String,
    pub functions: Vec<SchemaFunction>,
    pub state: SchemaInternalState,
}

impl SchemaFunctionCollector {
    /// Between schema functions: none being read, nothing rebound.
    pub open spec fn idle(&self) -> bool {
        self.state.current_context is None && self.state.shadow_depth == 0
    }

    /// A collector for one file with nothing found yet.
    pub fn new(file_path: &str) -> (r: Self)
        ensures
            r.idle(),
            r.file_path@ == file_path@,
            r.functions@.len() == 0,
    {
        SchemaFunctionCollector { file_path: text(file_path), functions: Vec::new(), state: SchemaInternalState::new() }
    }

    /// Walks a module and adds its schema functions, in order.
    pub fn visit_module(&mut self, m: &Module)
        requires
            old(self).idle(),
        ensures
            final(self).idle(),
            final(self).file_path == old(self).file_path,
            fns_view(final(self).functions@) == fns_view(old(self).functions@) + spec_module_fns(m.body@, old(self).file_path@),
    {
        self.visit_items(&m.body);
    }

    fn visit_items(&mut self, v: &Vec<Stmt>)
        requires
            old(self).idle(),
        ensures
            final(self).idle(),
            final(self).file_path == old(self).file_path,
            fns_view(final(self).functions@) == fns_view(old(self).functions@) + spec_module_fns(v@, old(self).file_path@),
        decreases v,
    {
        let ghost f0 = fns_view(self.functions@);
        let ghost file = self.file_path@;
        let mut i: usize = 0;
        while i < v.len()
            invariant
                i <= v@.len(),
                self.idle(),
                self.file_path@ == file,
                self.file_path == old(self).file_path,
                fns_view(self.functions@) == f0 + spec_module_fns(v@.take(i as int), file),
            decreases v@.len() - i,
        {
            proof { assert(decreases_to!(v => v@[i as int])); }
            let ghost before = fns_view(self.functions@);
            match &v[i] {
                Stmt::ExportDecl(Decl::Var(vd)) => self.visit_export_var(vd),
                Stmt::Other(c) => self.visit_items(c),
                _ => {},
            }
            proof {
                assert(v@.take(i + 1).drop_last() =~= v@.take(i as int));
                assert(fns_view(self.functions@) =~= before + spec_item_fns(v@[i as int], file));
            }
            i = i + 1;
        }
        proof { assert(v@.take(v@.len() as int) =~= v@); }
    }

    fn visit_export_var(&mut self, vd: &VarDecl)
        requires
            old(self).idle(),
        ensures
            final(self).idle(),
            final(self).file_path == old(self).file_path,
            fns_view(final(self).functions@) == fns_view(old(self).functions@) + spec_decl_fns(vd.decls@, old(self).file_path@),
    {
        let ghost f0 = fns_view(self.functions@);
        let ghost file = self.file_path@;
        let mut i: usize = 0;
        while i < vd.decls.len()
            invariant
                i <= vd.decls@.len(),
                self.idle(),
                self.file_path@ == file,
                self.file_path == old(self).file_path,
                fns_view(self.functions@) == f0 + spec_decl_fns(vd.decls@.take(i as int), file),
            decreases vd.decls@.len() - i,
        {
            let ghost before = fns_view(self.functions@);
            self.check_schema_function(&vd.decls[i]);
            proof {
                assert(vd.decls@.take(i + 1).drop_last() =~= vd.decls@.take(i as int));
                assert(fns_view(self.functions@) =~= before + spec_one_fn(vd.decls@[i as int], file));
            }
            i = i + 1;
        }
        proof { assert(vd.decls@.take(vd.decls@.len() as int) =~= vd.decls@); }
    }

    /// Reads a declarator that may define a schema function.
    fn check_schema_function(&mut self, decl: &VarDeclarator)
        requires
            old(self).idle(),
        ensures
            final(self).idle(),
            final(self).file_path == old(self).file_path,
            fns_view(final(self).functions@) == fns_view(old(self).functions@) + spec_one_fn(*decl, old(self).file_path@),
    {
        let ghost f0 = fns_view(self.functions@);
        match self.state.check_schema_function(decl) {
            Some(arrow) => {
                let ghost s1 = self.state;
                self.state.walk_stmts(&arrow.body);
                let ghost evs = sev_stmts(arrow.body@, s1.t());
                self.state.finalize_schema_function(self.file_path.as_str(), &mut self.functions);
                proof {
                    let c = s1.current_context.unwrap();
                    assert(strs_view(c.keys@) =~= Seq::<Seq<char>>::empty());
                    assert(strs_view(c.nested_calls@) =~= Seq::<Seq<char>>::empty());
                    if keys_of(evs).len() > 0 || nested_of(evs).len() > 0 {
                        assert(fns_view(self.functions@) =~= f0 + spec_one_fn(*decl, self.file_path@));
                    } else {
                        assert(fns_view(self.functions@) =~= f0 + spec_one_fn(*decl, self.file_path@));
                    }
                }
            },
            None => {
                proof { assert(fns_view(self.functions@) =~= f0 + spec_one_fn(*decl, self.file_path@)); }
            },
        }
    }

}

} // verus!
