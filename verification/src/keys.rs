//! What single expressions of a translation call say about keys: literal
//! keys, inferred glob patterns, hints, and the names that patterns bind.

use vstd::prelude::*;
use crate::ast::{CallExpr, Expr, ObjectPatProp, Pat, Tpl, TplElement, MemberProp};
use crate::key_objects::dotted;
use crate::text::{chars_of, concat3, push_char, push_text, str_eq, strs_view, text};
use crate::value_analyzer::{spec_unwrap_paren, unwrap_paren};

verus! {

/// `ns.key`, or `key` itself without a namespace.
pub open spec fn full_key(ns: Option<String>, key: Seq<char>) -> Seq<char> {
    match ns {
        Some(n) => dotted(n@, key),
        None => key,
    }
}

/// Prefixes a key with an optional namespace.
pub fn resolve_full_key(namespace: &Option<String>, key: &str) -> (r: String)
    ensures
        r@ == full_key(*namespace, key@),
{
    match namespace {
        Some(ns) => concat3(ns.as_str(), ".", key),
        None => text(key),
    }
}

/// The next-intl hooks that return a translation function.
pub open spec fn spec_is_translation_hook(name: Seq<char>) -> bool {
    name == "useTranslations"@ || name == "getTranslations"@
}

/// Whether a function name is `useTranslations` or `getTranslations`.
pub fn is_translation_hook(name: &str) -> (r: bool)
    ensures
        r == spec_is_translation_hook(name@),
{
    str_eq(name, "useTranslations") || str_eq(name, "getTranslations")
}

/// The namespace given to a hook call: its first argument when it is a string literal.
pub open spec fn spec_namespace_of_call(call: CallExpr) -> Option<String> {
    if call.args@.len() > 0 {
        match call.args@[0].expr {
            Expr::Str(Some(s), _) => Some(s),
            _ => None,
        }
    } else {
        None
    }
}

/// The call an initializer makes, directly or awaited: `f(..)` or `await f(..)`.
pub open spec fn init_call(init: Expr) -> Option<CallExpr> {
    match init {
        Expr::Call(c) => Some(c),
        Expr::Await(inner) => match *inner {
            Expr::Call(c) => Some(c),
            _ => None,
        },
        _ => None,
    }
}

/// When `init` is a call of `useTranslations`/`getTranslations` (awaited or
/// not), the namespace it gives.
pub open spec fn hook_namespace(init: Expr) -> Option<Option<String>> {
    match init_call(init) {
        Some(c) => match c.callee {
            Some(b) => match *b {
                Expr::Ident(f) => if spec_is_translation_hook(f@) { Some(spec_namespace_of_call(c)) } else { None },
                _ => None,
            },
            None => None,
        },
        None => None,
    }
}

/// `useTranslations("MyNamespace")` gives `Some("MyNamespace")`.
pub fn extract_namespace_from_call(call: &CallExpr) -> (r: Option<String>)
    ensures
        r == spec_namespace_of_call(*call),
{
    if call.args.len() > 0 {
        match &call.args[0].expr {
            Expr::Str(Some(s), _) => Some(s.clone()),
            _ => None,
        }
    } else {
        None
    }
}

/// The key of a string literal or of a template literal without expressions.
pub open spec fn spec_string_key(e: Expr) -> Option<Seq<char>> {
    match spec_unwrap_paren(e) {
        Expr::Str(Some(s), _) => Some(s@),
        Expr::Tpl(t) => if t.exprs@.len() == 0 && t.quasis@.len() > 0 && t.quasis@[0].cooked is Some {
            Some(t.quasis@[0].cooked->0@)
        } else {
            None
        },
        _ => None,
    }
}

/// Extracts a static key from an expression, after unwrapping parentheses.
pub fn extract_string_key(e: &Expr) -> (r: Option<String>)
    ensures
        match r {
            Some(k) => spec_string_key(*e) == Some(k@),
            None => spec_string_key(*e) is None,
        },
{
    match unwrap_paren(e) {
        Expr::Str(Some(s), _) => Some(s.clone()),
        Expr::Tpl(t) => {
            if t.exprs.len() == 0 && t.quasis.len() > 0 {
                match &t.quasis[0].cooked {
                    Some(c) => Some(c.clone()),
                    None => None,
                }
            } else {
                None
            }
        },
        _ => None,
    }
}

/// A template literal with at least one expression, after unwrapping parentheses.
pub open spec fn spec_is_template_with_expr(e: Expr) -> bool {
    match spec_unwrap_paren(e) {
        Expr::Tpl(t) => t.exprs@.len() > 0,
        _ => false,
    }
}

pub fn is_template_with_expr(e: &Expr) -> (r: bool)
    ensures
        r == spec_is_template_with_expr(*e),
{
    match unwrap_paren(e) {
        Expr::Tpl(t) => t.exprs.len() > 0,
        _ => false,
    }
}

/// The cooked text of a template element (empty when it has none).
pub open spec fn quasi_text(q: TplElement) -> Seq<char> {
    match q.cooked {
        Some(s) => s@,
        None => Seq::empty(),
    }
}

/// The template's texts joined with `*` in place of its expressions.
pub open spec fn tpl_pattern(qs: Seq<TplElement>) -> Seq<char>
    decreases qs.len(),
{
    if qs.len() == 0 {
        Seq::empty()
    } else if qs.len() == 1 {
        quasi_text(qs[0])
    } else {
        tpl_pattern(qs.drop_last()) + seq!['*'] + quasi_text(qs.last())
    }
}

/// Number of `*` in a text.
pub open spec fn star_count(s: Seq<char>) -> nat
    decreases s.len(),
{
    if s.len() == 0 {
        0
    } else {
        star_count(s.drop_last()) + if s.last() == '*' { 1nat } else { 0nat }
    }
}

/// A pattern that would match too much: `*.rest` (a wildcard first segment),
/// `*` alone, or more than two wildcards.
pub open spec fn too_broad(p: Seq<char>) -> bool {
    (p.len() >= 2 && p[0] == '*' && p[1] == '.') || p == seq!['*'] || star_count(p) > 2
}

/// The glob pattern a template literal stands for under a namespace, unless too broad.
pub open spec fn spec_inferred_pattern(t: Tpl, ns: Option<String>) -> Option<Seq<char>> {
    let full = full_key(ns, tpl_pattern(t.quasis@));
    if too_broad(full) { None } else { Some(full) }
}

fn count_stars(v: &Vec<char>) -> (r: usize)
    ensures
        r == star_count(v@),
{
    let mut n: usize = 0;
    let mut i: usize = 0;
    while i < v.len()
        invariant
            i <= v@.len(),
            n == star_count(v@.take(i as int)),
            n <= i,
        decreases v@.len() - i,
    {
        proof { assert(v@.take(i + 1).drop_last() =~= v@.take(i as int)); }
        if v[i] == '*' {
            n = n + 1;
        }
        i = i + 1;
    }
    assert(v@.take(v@.len() as int) =~= v@);
    n
}

/// Infers a glob pattern from a template literal: `step${x}.title` gives
/// `step*.title` (with the namespace in front); `None` when it is too broad.
pub fn infer_pattern_from_template(tpl: &Tpl, namespace: &Option<String>) -> (r: Option<String>)
    ensures
        match r {
            Some(p) => spec_inferred_pattern(*tpl, *namespace) == Some(p@),
            None => spec_inferred_pattern(*tpl, *namespace) is None,
        },
{
    let mut pattern = String::new();
    let mut i: usize = 0;
    while i < tpl.quasis.len()
        invariant
            i <= tpl.quasis@.len(),
            pattern@ == tpl_pattern(tpl.quasis@.take(i as int)),
        decreases tpl.quasis@.len() - i,
    {
        proof {
            let t = tpl.quasis@.take(i + 1);
            assert(t.drop_last() =~= tpl.quasis@.take(i as int));
            assert(t.last() == tpl.quasis@[i as int]);
        }
        if i > 0 {
            push_char(&mut pattern, '*');
        }
        match &tpl.quasis[i].cooked {
            Some(c) => push_text(&mut pattern, c.as_str()),
            None => {},
        }
        assert(pattern@ =~= tpl_pattern(tpl.quasis@.take(i + 1)));
        i = i + 1;
    }
    assert(tpl.quasis@.take(tpl.quasis@.len() as int) =~= tpl.quasis@);
    let full = resolve_full_key(namespace, pattern.as_str());
    let c = chars_of(full.as_str());
    let prefix_wild = c.len() >= 2 && c[0] == '*' && c[1] == '.';
    let only_wild = c.len() == 1 && c[0] == '*';
    proof {
        if c@.len() == 1 && c@[0] == '*' {
            assert(c@ =~= seq!['*']);
        }
    }
    let stars = count_stars(&c);
    if prefix_wild || only_wild || stars > 2 {
        None
    } else {
        Some(full)
    }
}

/// The hint for an unresolved template key, in the comment style of its place.
pub open spec fn spec_hint(p: Seq<char>, jsx: bool) -> Seq<char> {
    if jsx {
        "add `{/* glot-message-keys \""@ + p + "\" */}` to declare expected keys"@
    } else {
        "add `// glot-message-keys \""@ + p + "\"` to declare expected keys"@
    }
}

/// Suggests a `glot-message-keys` annotation for a pattern.
pub fn pattern_hint(p: &str, jsx: bool) -> (r: String)
    ensures
        r@ == spec_hint(p@, jsx),
{
    if jsx {
        concat3("add `{/* glot-message-keys \"", p, "\" */}` to declare expected keys")
    } else {
        concat3("add `// glot-message-keys \"", p, "\"` to declare expected keys")
    }
}

/// A relative pattern: the pattern with a leading `.`.
pub fn relative_pattern(p: &str) -> (r: String)
    ensures
        r@ == "."@ + p@,
{
    let mut r = text(".");
    push_text(&mut r, p);
    r
}

/// The object of a computed member access `obj[key]`.
pub open spec fn spec_object_access_name(e: Expr) -> Option<Seq<char>> {
    match e {
        Expr::Member { obj, prop } => match (*obj, prop) {
            (Expr::Ident(o), MemberProp::Computed(_)) => Some(o@),
            _ => None,
        },
        _ => None,
    }
}

/// `obj[key]` gives `obj`; a static access `obj.prop` needs no tracking.
pub fn extract_object_access_name(e: &Expr) -> (r: Option<String>)
    ensures
        match r {
            Some(n) => spec_object_access_name(*e) == Some(n@),
            None => spec_object_access_name(*e) is None,
        },
{
    match e {
        Expr::Member { obj, prop } => match (&**obj, prop) {
            (Expr::Ident(o), MemberProp::Computed(_)) => Some(o.clone()),
            _ => None,
        },
        _ => None,
    }
}

/// The first parameter name of an arrow function.
pub open spec fn spec_arrow_first_param(e: Expr) -> Option<Seq<char>> {
    match e {
        Expr::Arrow(a) => if a.params@.len() > 0 {
            match a.params@[0] {
                Pat::Ident { name, .. } => Some(name@),
                _ => None,
            }
        } else {
            None
        },
        _ => None,
    }
}

pub fn extract_arrow_first_param(e: &Expr) -> (r: Option<String>)
    ensures
        match r {
            Some(n) => spec_arrow_first_param(*e) == Some(n@),
            None => spec_arrow_first_param(*e) is None,
        },
{
    match e {
        Expr::Arrow(a) => {
            if a.params.len() > 0 {
                match &a.params[0] {
                    Pat::Ident { name, .. } => Some(name.clone()),
                    _ => None,
                }
            } else {
                None
            }
        },
        _ => None,
    }
}

/// The name a destructured value binds: `translate` in `{ t: translate }`
/// and in `{ t: translate = fallback }`.
pub open spec fn spec_binding_name(p: Pat) -> Option<Seq<char>> {
    match p {
        Pat::Ident { name, .. } => Some(name@),
        Pat::Assign { left, .. } => match *left {
            Pat::Ident { name, .. } => Some(name@),
            _ => None,
        },
        _ => None,
    }
}

pub fn extract_binding_name_from_pat(p: &Pat) -> (r: Option<String>)
    ensures
        match r {
            Some(n) => spec_binding_name(*p) == Some(n@),
            None => spec_binding_name(*p) is None,
        },
{
    match p {
        Pat::Ident { name, .. } => Some(name.clone()),
        Pat::Assign { left, .. } => match &**left {
            Pat::Ident { name, .. } => Some(name.clone()),
            _ => None,
        },
        _ => None,
    }
}

/// All names a pattern binds, in source order.
pub open spec fn pat_names(p: Pat) -> Seq<Seq<char>>
    decreases p,
{
    match p {
        Pat::Ident { name, .. } => seq![name@],
        Pat::Object(props) => props_names(props@),
        Pat::Assign { left, .. } => pat_names(*left),
        Pat::Array(elems) => elems_names(elems@),
        Pat::Rest(inner) => pat_names(*inner),
        Pat::Other(_) => Seq::empty(),
    }
}

/// Names bound by the properties of an object pattern.
pub open spec fn props_names(s: Seq<ObjectPatProp>) -> Seq<Seq<char>>
    decreases s,
{
    if s.len() == 0 {
        Seq::empty()
    } else {
        props_names(s.drop_last()) + prop_names(s.last())
    }
}

pub open spec fn prop_names(x: ObjectPatProp) -> Seq<Seq<char>>
    decreases x,
{
    match x {
        ObjectPatProp::KeyValue { value, .. } => pat_names(value),
        ObjectPatProp::Assign { key, .. } => seq![key@],
        ObjectPatProp::Rest(p) => pat_names(p),
    }
}

/// Names bound by the elements of an array pattern (holes bind none).
pub open spec fn elems_names(s: Seq<Option<Pat>>) -> Seq<Seq<char>>
    decreases s,
{
    if s.len() == 0 {
        Seq::empty()
    } else {
        elems_names(s.drop_last()) + match s.last() {
            Some(p) => pat_names(p),
            None => Seq::empty(),
        }
    }
}


/// Collects every name a pattern binds, in source order.
#[verifier::loop_isolation(false)]
pub fn extract_binding_names(p: &Pat) -> (r: Vec<String>)
    ensures
        strs_view(r@) == pat_names(*p),
    decreases p,
{
    match p {
        Pat::Ident { name, .. } => {
            let mut r: Vec<String> = Vec::new();
            r.push(name.clone());
            assert(strs_view(r@) =~= seq![name@]);
            r
        },
        Pat::Object(props) => {
            let mut r: Vec<String> = Vec::new();
            let mut i: usize = 0;
            while i < props.len()
                invariant
                    i <= props@.len(),
                    strs_view(r@) == props_names(props@.take(i as int)),
                decreases props@.len() - i,
            {
                proof {
                    assert(decreases_to!(props => props@[i as int]));
                    let t = props@.take(i + 1);
                    assert(t.drop_last() =~= props@.take(i as int));
                    assert(t.last() == props@[i as int]);
                }
                let mut part: Vec<String> = match &props[i] {
                    ObjectPatProp::KeyValue { value, .. } => extract_binding_names(value),
                    ObjectPatProp::Assign { key, .. } => {
                        let mut v: Vec<String> = Vec::new();
                        v.push(key.clone());
                        assert(strs_view(v@) =~= seq![key@]);
                        v
                    },
                    ObjectPatProp::Rest(q) => extract_binding_names(q),
                };
                assert(strs_view(part@) == prop_names(props@[i as int]));
                let ghost r0 = r@;
                let ghost pv = part@;
                r.append(&mut part);
                assert(strs_view(r@) =~= strs_view(r0) + strs_view(pv));
                i = i + 1;
            }
            assert(props@.take(props@.len() as int) =~= props@);
            r
        },
        Pat::Assign { left, .. } => extract_binding_names(left),
        Pat::Array(elems) => {
            let mut r: Vec<String> = Vec::new();
            let mut i: usize = 0;
            while i < elems.len()
                invariant
                    i <= elems@.len(),
                    strs_view(r@) == elems_names(elems@.take(i as int)),
                decreases elems@.len() - i,
            {
                proof {
                    assert(decreases_to!(elems => elems@[i as int]));
                    let t = elems@.take(i + 1);
                    assert(t.drop_last() =~= elems@.take(i as int));
                    assert(t.last() == elems@[i as int]);
                }
                let mut part: Vec<String> = match &elems[i] {
                    Some(q) => extract_binding_names(q),
                    None => Vec::new(),
                };
                let ghost r0 = r@;
                let ghost pv = part@;
                r.append(&mut part);
                assert(strs_view(r@) =~= strs_view(r0) + strs_view(pv));
                i = i + 1;
            }
            assert(elems@.take(elems@.len() as int) =~= elems@);
            r
        },
        Pat::Rest(inner) => extract_binding_names(inner),
        Pat::Other(_) => Vec::new(),
    }
}

} // verus!
