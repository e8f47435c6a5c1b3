//! Finding the lines that call a translation function: a name bound by
//! `const t = useTranslations(...)` (or `await getTranslations(...)`) and
//! called later in the file.

use vstd::prelude::*;
use crate::ast::{
    ArrowExpr, CallExpr, Decl, Expr, ExprOrSpread, Function, JSXAttrOrSpread, JSXAttrValue,
    JSXChild, JSXElement, Module, ObjectPatProp, Pat, PropName, PropOrSpread, Stmt, VarDecl,
    VarDeclarator,
};
use crate::keys::{is_translation_hook, spec_is_translation_hook};
use crate::strmap::StrSet;

verus! {

/// Something a walk meets: `(true, name, _)` when a hook call binds `name`,
/// `(false, name, line)` for a call of `name` on `line`.
pub type CallEvent = (bool, Seq<char>, usize);

/// A declarator's init is a hook call (possibly awaited).
pub open spec fn is_hook_init(init: Expr) -> bool {
    match init {
        Expr::Call(c) => c.callee matches Some(callee) && (*callee matches Expr::Ident(f) && spec_is_translation_hook(f@)),
        Expr::Await(x) => *x matches Expr::Call(c) && (c.callee matches Some(callee) && (*callee matches Expr::Ident(f) && spec_is_translation_hook(f@))),
        _ => false,
    }
}

/// The binding a declarator makes, if it binds a plain name to a hook call.
pub open spec fn bind_event(d: VarDeclarator) -> Seq<CallEvent> {
    match (d.name, d.init) {
        (Pat::Ident { name, .. }, Some(init)) => if is_hook_init(init) { seq![(true, name@, 0usize)] } else { Seq::empty() },
        _ => Seq::empty(),
    }
}

pub open spec fn tcev_binds(s: Seq<VarDeclarator>) -> Seq<CallEvent>
    decreases s.len(),
{
    if s.len() == 0 { Seq::empty() } else { tcev_binds(s.drop_last()) + bind_event(s.last()) }
}

/// A call of a plain name, with its line.
pub open spec fn call_event(c: CallExpr) -> Seq<CallEvent> {
    match c.callee {
        Some(callee) => match *callee {
            Expr::Ident(name) => seq![(false, name@, c.pos.line)],
            _ => Seq::empty(),
        },
        None => Seq::empty(),
    }
}

pub open spec fn tcev_stmts(s: Seq<Stmt>) -> Seq<CallEvent>
    decreases s,
{
    if s.len() == 0 {
        Seq::empty()
    } else {
        tcev_stmts(s.drop_last()) + tcev_stmt(s.last())
    }
}

/// The events of a statement, in the order a walk meets them.
pub open spec fn tcev_stmt(st: Stmt) -> Seq<CallEvent>
    decreases st,
{
    match st {
        Stmt::Expr(e) => tcev_expr(e),
        Stmt::Var(v) => tcev_var(v),
        Stmt::Fn(f) => tcev_fn(f.function),
        Stmt::Import(_) => Seq::empty(),
        Stmt::ExportDecl(d) => match d {
            Decl::Var(v) => tcev_var(v),
            Decl::Fn(f) => tcev_fn(f.function),
            Decl::Other(c) => tcev_stmts(c@),
        },
        Stmt::ExportDefaultFn(d) => tcev_fn(d.function),
        Stmt::ExportDefaultExpr(e) => tcev_expr(e),
        Stmt::ExportDefaultClass { body, .. } => tcev_stmts(body@),
        Stmt::Other(c) => tcev_stmts(c@),
    }
}

/// A declaration first binds the names its hook calls define, then its
/// parts are walked.
pub open spec fn tcev_var(v: VarDecl) -> Seq<CallEvent>
    decreases v,
{
    tcev_binds(v.decls@) + tcev_decls(v.decls@)
}

pub open spec fn tcev_decls(s: Seq<VarDeclarator>) -> Seq<CallEvent>
    decreases s,
{
    if s.len() == 0 {
        Seq::empty()
    } else {
        tcev_decls(s.drop_last()) + tcev_pat(s.last().name) + tcev_opt(s.last().init)
    }
}

pub open spec fn tcev_opt(x: Option<Expr>) -> Seq<CallEvent>
    decreases x,
{
    match x {
        Some(e) => tcev_expr(e),
        None => Seq::empty(),
    }
}

pub open spec fn tcev_fn(f: Function) -> Seq<CallEvent>
    decreases f,
{
    tcev_pats(f.params@) + tcev_stmts(f.body@)
}

pub open spec fn tcev_arrow(a: ArrowExpr) -> Seq<CallEvent>
    decreases a,
{
    tcev_pats(a.params@) + tcev_stmts(a.body@)
}

pub open spec fn tcev_pats(s: Seq<Pat>) -> Seq<CallEvent>
    decreases s,
{
    if s.len() == 0 {
        Seq::empty()
    } else {
        tcev_pats(s.drop_last()) + tcev_pat(s.last())
    }
}

pub open spec fn tcev_pat(p: Pat) -> Seq<CallEvent>
    decreases p,
{
    match p {
        Pat::Ident { .. } => Seq::empty(),
        Pat::Object(props) => tcev_opps(props@),
        Pat::Assign { left, right } => tcev_pat(*left) + tcev_expr(*right),
        Pat::Array(elems) => tcev_opats(elems@),
        Pat::Rest(q) => tcev_pat(*q),
        Pat::Other(c) => tcev_stmts(c@),
    }
}

pub open spec fn tcev_opps(s: Seq<ObjectPatProp>) -> Seq<CallEvent>
    decreases s,
{
    if s.len() == 0 {
        Seq::empty()
    } else {
        tcev_opps(s.drop_last()) + match s.last() {
            ObjectPatProp::KeyValue { key, value } => tcev_prop_name(key) + tcev_pat(value),
            ObjectPatProp::Assign { value, .. } => tcev_opt(value),
            ObjectPatProp::Rest(q) => tcev_pat(q),
        }
    }
}

pub open spec fn tcev_opats(s: Seq<Option<Pat>>) -> Seq<CallEvent>
    decreases s,
{
    if s.len() == 0 {
        Seq::empty()
    } else {
        tcev_opats(s.drop_last()) + match s.last() {
            Some(q) => tcev_pat(q),
            None => Seq::empty(),
        }
    }
}

pub open spec fn tcev_prop_name(k: PropName) -> Seq<CallEvent>
    decreases k,
{
    match k {
        PropName::Other(c) => tcev_stmts(c@),
        _ => Seq::empty(),
    }
}

pub open spec fn tcev_exprs(s: Seq<Expr>) -> Seq<CallEvent>
    decreases s,
{
    if s.len() == 0 {
        Seq::empty()
    } else {
        tcev_exprs(s.drop_last()) + tcev_expr(s.last())
    }
}

pub open spec fn tcev_args(s: Seq<ExprOrSpread>) -> Seq<CallEvent>
    decreases s,
{
    if s.len() == 0 {
        Seq::empty()
    } else {
        tcev_args(s.drop_last()) + tcev_expr(s.last().expr)
    }
}

pub open spec fn tcev_elems(s: Seq<Option<ExprOrSpread>>) -> Seq<CallEvent>
    decreases s,
{
    if s.len() == 0 {
        Seq::empty()
    } else {
        tcev_elems(s.drop_last()) + match s.last() {
            Some(x) => tcev_expr(x.expr),
            None => Seq::empty(),
        }
    }
}

pub open spec fn tcev_props(s: Seq<PropOrSpread>) -> Seq<CallEvent>
    decreases s,
{
    if s.len() == 0 {
        Seq::empty()
    } else {
        tcev_props(s.drop_last()) + match s.last() {
            PropOrSpread::Spread(e) => tcev_expr(e),
            PropOrSpread::KeyValue { key, value } => tcev_prop_name(key) + tcev_expr(value),
            PropOrSpread::Shorthand(_) => Seq::empty(),
            PropOrSpread::Method { key, function } => tcev_prop_name(key) + tcev_fn(function),
            PropOrSpread::Other(c) => tcev_stmts(c@),
        }
    }
}

/// The events of an expression: a call's own event comes before those of
/// its callee and arguments.
pub open spec fn tcev_expr(e: Expr) -> Seq<CallEvent>
    decreases e,
{
    match e {
        Expr::Ident(_) => Seq::empty(),
        Expr::Str(..) => Seq::empty(),
        Expr::Num(_) => Seq::empty(),
        Expr::Tpl(tpl) => tcev_exprs(tpl.exprs@),
        Expr::Cond { test, cons, alt } => tcev_expr(*test) + tcev_expr(*cons) + tcev_expr(*alt),
        Expr::Bin { left, right, .. } => tcev_expr(*left) + tcev_expr(*right),
        Expr::Paren(x) => tcev_expr(*x),
        Expr::TsAs(x) => tcev_expr(*x),
        Expr::TsConst(x) => tcev_expr(*x),
        Expr::TsSatisfies(x) => tcev_expr(*x),
        Expr::Await(x) => tcev_expr(*x),
        Expr::Call(c) => tcev_call(c),
        Expr::Member { obj, prop } => tcev_expr(*obj) + match prop {
            crate::ast::MemberProp::Computed(k) => tcev_expr(*k),
            _ => Seq::empty(),
        },
        Expr::Arrow(a) => tcev_arrow(a),
        Expr::Fn(f) => tcev_fn(f),
        Expr::Object(props) => tcev_props(props@),
        Expr::Array(elems) => tcev_elems(elems@),
        Expr::JSXElement(el) => tcev_jsx(*el),
        Expr::JSXFragment(children) => tcev_children(children@),
        Expr::Other { children, .. } => tcev_stmts(children@),
    }
}

pub open spec fn tcev_call(c: CallExpr) -> Seq<CallEvent>
    decreases c,
{
    call_event(c) + match c.callee {
        Some(callee) => tcev_expr(*callee),
        None => Seq::empty(),
    } + tcev_args(c.args@)
}

pub open spec fn tcev_jsx(el: JSXElement) -> Seq<CallEvent>
    decreases el,
{
    tcev_attrs(el.attrs@) + tcev_children(el.children@)
}

pub open spec fn tcev_attrs(s: Seq<JSXAttrOrSpread>) -> Seq<CallEvent>
    decreases s,
{
    if s.len() == 0 {
        Seq::empty()
    } else {
        tcev_attrs(s.drop_last()) + match s.last() {
            JSXAttrOrSpread::Attr(a) => match a.value {
                Some(JSXAttrValue::Str(..)) => Seq::empty(),
                Some(JSXAttrValue::Container(x)) => tcev_opt(x),
                Some(JSXAttrValue::Element(inner)) => tcev_jsx(*inner),
                Some(JSXAttrValue::Fragment(children)) => tcev_children(children@),
                None => Seq::empty(),
            },
            JSXAttrOrSpread::Spread(x) => tcev_expr(x),
        }
    }
}

pub open spec fn tcev_children(s: Seq<JSXChild>) -> Seq<CallEvent>
    decreases s,
{
    if s.len() == 0 {
        Seq::empty()
    } else {
        tcev_children(s.drop_last()) + match s.last() {
            JSXChild::Text(..) => Seq::empty(),
            JSXChild::Container(x) => tcev_opt(x),
            JSXChild::Spread(x) => tcev_expr(x),
            JSXChild::Element(el) => tcev_jsx(*el),
            JSXChild::Fragment(children) => tcev_children(children@),
        }
    }
}



/// The bound names and the lines found after the events: a binding adds a
/// name; a call of a bound name adds its line.
pub open spec fn tc_fold(st: (Set<Seq<char>>, Set<usize>), evs: Seq<CallEvent>) -> (Set<Seq<char>>, Set<usize>)
    decreases evs.len(),
{
    if evs.len() == 0 {
        st
    } else {
        let p = tc_fold(st, evs.drop_last());
        let e = evs.last();
        if e.0 {
            (p.0.insert(e.1), p.1)
        } else if p.0.contains(e.1) {
            (p.0, p.1.insert(e.2))
        } else {
            p
        }
    }
}

proof fn lemma_fold_add(st: (Set<Seq<char>>, Set<usize>), a: Seq<CallEvent>, b: Seq<CallEvent>)
    ensures
        tc_fold(st, a + b) == tc_fold(tc_fold(st, a), b),
    decreases b.len(),
{
    if b.len() == 0 {
        assert(a + b =~= a);
    } else {
        lemma_fold_add(st, a, b.drop_last());
        assert((a + b).drop_last() =~= a + b.drop_last());
        assert((a + b).last() == b.last());
    }
}


/// The state after one event.
proof fn lemma_fold_one(st: (Set<Seq<char>>, Set<usize>), e: CallEvent)
    ensures
        tc_fold(st, seq![e]) == if e.0 {
            (st.0.insert(e.1), st.1)
        } else if st.0.contains(e.1) {
            (st.0, st.1.insert(e.2))
        } else {
            st
        },
{
    assert(seq![e].drop_last() =~= Seq::<CallEvent>::empty());
    assert(tc_fold(st, Seq::<CallEvent>::empty()) == st);
}

/// Whether a declarator's init is a hook call (possibly awaited).
fn is_hook_init_exec(init: &Expr) -> (r: bool)
    ensures
        r == is_hook_init(*init),
{
    let call = match init {
        Expr::Call(c) => c,
        Expr::Await(x) => match &**x {
            Expr::Call(c) => c,
            _ => return false,
        },
        _ => return false,
    };
    match &call.callee {
        Some(callee) => match &**callee {
            Expr::Ident(f) => is_translation_hook(f.as_str()),
            _ => false,
        },
        None => false,
    }
}

/// Whether a list of lines holds `line`.
fn has_line(v: &Vec<usize>, line: usize) -> (r: bool)
    ensures
        r == v@.contains(line),
{
    let mut i: usize = 0;
    while i < v.len()
        invariant
            i <= v@.len(),
            forall|k: int| 0 <= k < i ==> v@[k] != line,
        decreases v@.len() - i,
    {
        if v[i] == line {
            assert(v@[i as int] == line);
            return true;
        }
        i = i + 1;
    }
    false
}

/// Finds the lines of a file that call a translation function.
pub struct TranslationCallFinder {
    /// Names bound to translation functions so far.
    pub bindings: StrSet,
    /// Lines with a call of a bound name, each once, in the order found.
    pub lines_with_calls: Vec<usize>,
}

impl TranslationCallFinder {
    pub open spec fn wf(&self) -> bool {
        self.lines_with_calls@.no_duplicates()
    }

    /// The bound names and the lines found.
    pub open spec fn tc_state(&self) -> (Set<Seq<char>>, Set<usize>) {
        (self.bindings@, self.lines_with_calls@.to_set())
    }

    /// A finder with nothing bound or found.
    pub fn new() -> (r: Self)
        ensures
            r.wf(),
            r.tc_state() == (Set::<Seq<char>>::empty(), Set::<usize>::empty()),
    {
        let r = TranslationCallFinder { bindings: StrSet::new(), lines_with_calls: Vec::new() };
        assert(r.lines_with_calls@.to_set() =~= Set::<usize>::empty());
        r
    }

    /// Walks a module and hands back the lines that call a translation
    /// function, each once.
    pub fn find(self, m: &Module) -> (r: Vec<usize>)
        requires
            self.wf(),
        ensures
            r@.no_duplicates(),
            r@.to_set() == tc_fold(self.tc_state(), tcev_stmts(m.body@)).1,
    {
        let mut finder = self;
        finder.walk_stmts(&m.body);
        finder.lines_with_calls
    }

    /// Records the names that declarators bind to hook calls.
    fn record_binds(&mut self, v: &Vec<VarDeclarator>)
        requires
            old(self).wf(),
        ensures
            final(self).wf(),
            final(self).tc_state() == tc_fold(old(self).tc_state(), tcev_binds(v@)),
    {
        let ghost s0 = *self;
        let mut i: usize = 0;
        while i < v.len()
            invariant
                i <= v@.len(),
                self.wf(),
                self.tc_state() == tc_fold(s0.tc_state(), tcev_binds(v@.take(i as int))),
            decreases v@.len() - i,
        {
            let ghost m = *self;
            proof {
                assert(v@.take(i + 1).drop_last() =~= v@.take(i as int));
                assert(v@.take(i + 1).last() == v@[i as int]);
            }
            match (&v[i].name, &v[i].init) {
                (Pat::Ident { name, .. }, Some(init)) => {
                    if is_hook_init_exec(init) {
                        self.bindings.insert(name.clone());
                        proof { lemma_fold_one(m.tc_state(), (true, name@, 0usize)); }
                    } else {
                        assert(bind_event(v@[i as int]) =~= Seq::<CallEvent>::empty());
                    }
                },
                _ => {
                    assert(bind_event(v@[i as int]) =~= Seq::<CallEvent>::empty());
                },
            }
            proof {
                lemma_trans(s0, m, *self, tcev_binds(v@.take(i as int)), bind_event(v@[i as int]));
                assert(tcev_binds(v@.take(i as int)) + bind_event(v@[i as int]) =~= tcev_binds(v@.take(i + 1)));
                if bind_event(v@[i as int]).len() == 0 {
                    assert(tc_fold(m.tc_state(), Seq::<CallEvent>::empty()) == m.tc_state());
                }
            }
            i = i + 1;
        }
        proof { assert(v@.take(v@.len() as int) =~= v@); }
    }

    /// A call of a bound name records its line.
    fn record_call(&mut self, c: &CallExpr)
        requires
            old(self).wf(),
        ensures
            final(self).wf(),
            final(self).tc_state() == tc_fold(old(self).tc_state(), call_event(*c)),
    {
        let ghost s0 = *self;
        match &c.callee {
            Some(callee) => match &**callee {
                Expr::Ident(name) => {
                    proof { lemma_fold_one(s0.tc_state(), (false, name@, c.pos.line)); }
                    if self.bindings.contains(name.as_str()) {
                        if !has_line(&self.lines_with_calls, c.pos.line) {
                            let ghost l0 = self.lines_with_calls@;
                            self.lines_with_calls.push(c.pos.line);
                            proof {
                                assert forall|y: usize| self.lines_with_calls@.contains(y) <==> (l0.contains(y) || y == c.pos.line) by {
                                    if self.lines_with_calls@.contains(y) {
                                        let k = choose|k: int| 0 <= k < self.lines_with_calls@.len() && #[trigger] self.lines_with_calls@[k] == y;
                                        if k < l0.len() { assert(l0[k] == y); }
                                    }
                                    if l0.contains(y) {
                                        let k = choose|k: int| 0 <= k < l0.len() && #[trigger] l0[k] == y;
                                        assert(self.lines_with_calls@[k] == y);
                                    }
                                    if y == c.pos.line {
                                        assert(self.lines_with_calls@[l0.len() as int] == y);
                                    }
                                }
                                assert(self.lines_with_calls@.to_set() =~= l0.to_set().insert(c.pos.line));
                            }
                        } else {
                            proof { assert(self.lines_with_calls@.to_set() =~= s0.lines_with_calls@.to_set().insert(c.pos.line)); }
                        }
                    }
                },
                _ => {
                    proof { lemma_empty(s0); }
                },
            },
            None => {
                proof { lemma_empty(s0); }
            },
        }
    }

    fn walk_stmts(&mut self, v: &Vec<Stmt>)
        requires
            old(self).wf(),
        ensures
            final(self).wf(),
            final(self).tc_state() == tc_fold(old(self).tc_state(), tcev_stmts(v@)),
        decreases v,
    {
        let ghost s0 = *self;
        proof { lemma_empty(s0); }
        let mut i: usize = 0;
        while i < v.len()
            invariant
                i <= v@.len(),
                s0.wf(),
                self.wf(),
                self.tc_state() == tc_fold(s0.tc_state(), tcev_stmts(v@.take(i as int))),
            decreases v@.len() - i,
        {
            proof { assert(decreases_to!(v => v@[i as int])); }
            let ghost m = *self;
            self.walk_stmt(&v[i]);
            proof {
                lemma_trans(s0, m, *self, tcev_stmts(v@.take(i as int)), tcev_stmt(v@[i as int]));
                assert(v@.take(i + 1).drop_last() =~= v@.take(i as int));
            }
            i = i + 1;
        }
        proof { assert(v@.take(v@.len() as int) =~= v@); }
    }

    fn walk_stmt(&mut self, st: &Stmt)
        requires
            old(self).wf(),
        ensures
            final(self).wf(),
            final(self).tc_state() == tc_fold(old(self).tc_state(), tcev_stmt(*st)),
        decreases st,
    {
        let ghost s0 = *self;
        match st {
            Stmt::Expr(e) => self.walk_expr(e),
            Stmt::Var(v) => self.walk_var(v),
            Stmt::Fn(f) => self.walk_fn(&f.function),
            Stmt::Import(_) => { proof { lemma_empty(s0); } },
            Stmt::ExportDecl(d) => match d {
                Decl::Var(v) => self.walk_var(v),
                Decl::Fn(f) => self.walk_fn(&f.function),
                Decl::Other(c) => self.walk_stmts(c),
            },
            Stmt::ExportDefaultFn(d) => self.walk_fn(&d.function),
            Stmt::ExportDefaultExpr(e) => self.walk_expr(e),
            Stmt::ExportDefaultClass { body, .. } => self.walk_stmts(body),
            Stmt::Other(c) => self.walk_stmts(c),
        }
    }

    /// A declaration: the names it binds to hook calls, then its parts.
    fn walk_var(&mut self, v: &VarDecl)
        requires
            old(self).wf(),
        ensures
            final(self).wf(),
            final(self).tc_state() == tc_fold(old(self).tc_state(), tcev_var(*v)),
        decreases v,
    {
        let ghost s0 = *self;
        self.record_binds(&v.decls);
        let ghost s1 = *self;
        self.walk_decls(&v.decls);
        proof { lemma_trans(s0, s1, *self, tcev_binds(v.decls@), tcev_decls(v.decls@)); }
    }

    fn walk_decls(&mut self, v: &Vec<VarDeclarator>)
        requires
            old(self).wf(),
        ensures
            final(self).wf(),
            final(self).tc_state() == tc_fold(old(self).tc_state(), tcev_decls(v@)),
        decreases v,
    {
        let ghost s0 = *self;
        proof { lemma_empty(s0); }
        let mut i: usize = 0;
        while i < v.len()
            invariant
                i <= v@.len(),
                s0.wf(),
                self.wf(),
                self.tc_state() == tc_fold(s0.tc_state(), tcev_decls(v@.take(i as int))),
            decreases v@.len() - i,
        {
            proof { assert(decreases_to!(v => v@[i as int])); }
            let ghost m = *self;
            self.walk_pat(&v[i].name);
            let ghost m2 = *self;
            self.walk_opt(&v[i].init);
            proof {
                lemma_trans(m, m2, *self, tcev_pat(v@[i as int].name), tcev_opt(v@[i as int].init));
                lemma_trans(s0, m, *self, tcev_decls(v@.take(i as int)), tcev_pat(v@[i as int].name) + tcev_opt(v@[i as int].init));
                assert(v@.take(i + 1).drop_last() =~= v@.take(i as int));
                assert(tcev_decls(v@.take(i as int)) + (tcev_pat(v@[i as int].name) + tcev_opt(v@[i as int].init))
                    =~= tcev_decls(v@.take(i + 1)));
            }
            i = i + 1;
        }
        proof { assert(v@.take(v@.len() as int) =~= v@); }
    }

    fn walk_opt(&mut self, x: &Option<Expr>)
        requires
            old(self).wf(),
        ensures
            final(self).wf(),
            final(self).tc_state() == tc_fold(old(self).tc_state(), tcev_opt(*x)),
        decreases x,
    {
        match x {
            Some(e) => self.walk_expr(e),
            None => { proof { lemma_empty(*self); } },
        }
    }

    /// A function: if it rebinds the parameter, nothing inside it counts.
    fn walk_fn(&mut self, f: &Function)
        requires
            old(self).wf(),
        ensures
            final(self).wf(),
            final(self).tc_state() == tc_fold(old(self).tc_state(), tcev_fn(*f)),
        decreases f,
    {
        let ghost s1 = *self;
        self.walk_pats(&f.params);
        let ghost s2 = *self;
        self.walk_stmts(&f.body);
        proof { lemma_trans(s1, s2, *self, tcev_pats(f.params@), tcev_stmts(f.body@)); }
    }

    fn walk_arrow(&mut self, a: &ArrowExpr)
        requires
            old(self).wf(),
        ensures
            final(self).wf(),
            final(self).tc_state() == tc_fold(old(self).tc_state(), tcev_arrow(*a)),
        decreases a,
    {
        let ghost s1 = *self;
        self.walk_pats(&a.params);
        let ghost s2 = *self;
        self.walk_stmts(&a.body);
        proof { lemma_trans(s1, s2, *self, tcev_pats(a.params@), tcev_stmts(a.body@)); }
    }

    fn walk_pats(&mut self, v: &Vec<Pat>)
        requires
            old(self).wf(),
        ensures
            final(self).wf(),
            final(self).tc_state() == tc_fold(old(self).tc_state(), tcev_pats(v@)),
        decreases v,
    {
        let ghost s0 = *self;
        proof { lemma_empty(s0); }
        let mut i: usize = 0;
        while i < v.len()
            invariant
                i <= v@.len(),
                s0.wf(),
                self.wf(),
                self.tc_state() == tc_fold(s0.tc_state(), tcev_pats(v@.take(i as int))),
            decreases v@.len() - i,
        {
            proof { assert(decreases_to!(v => v@[i as int])); }
            let ghost m = *self;
            self.walk_pat(&v[i]);
            proof {
                lemma_trans(s0, m, *self, tcev_pats(v@.take(i as int)), tcev_pat(v@[i as int]));
                assert(v@.take(i + 1).drop_last() =~= v@.take(i as int));
            }
            i = i + 1;
        }
        proof { assert(v@.take(v@.len() as int) =~= v@); }
    }

    fn walk_pat(&mut self, p: &Pat)
        requires
            old(self).wf(),
        ensures
            final(self).wf(),
            final(self).tc_state() == tc_fold(old(self).tc_state(), tcev_pat(*p)),
        decreases p,
    {
        let ghost s0 = *self;
        match p {
            Pat::Ident { .. } => { proof { lemma_empty(s0); } },
            Pat::Object(props) => self.walk_obj_pat_props(props),
            Pat::Assign { left, right } => {
                self.walk_pat(left);
                let ghost m = *self;
                self.walk_expr(right);
                proof { lemma_trans(s0, m, *self, tcev_pat(**left), tcev_expr(**right)); }
            },
            Pat::Array(elems) => self.walk_opt_pats(elems),
            Pat::Rest(q) => self.walk_pat(q),
            Pat::Other(c) => self.walk_stmts(c),
        }
    }

    fn walk_obj_pat_props(&mut self, v: &Vec<ObjectPatProp>)
        requires
            old(self).wf(),
        ensures
            final(self).wf(),
            final(self).tc_state() == tc_fold(old(self).tc_state(), tcev_opps(v@)),
        decreases v,
    {
        let ghost s0 = *self;
        proof { lemma_empty(s0); }
        let mut i: usize = 0;
        while i < v.len()
            invariant
                i <= v@.len(),
                s0.wf(),
                self.wf(),
                self.tc_state() == tc_fold(s0.tc_state(), tcev_opps(v@.take(i as int))),
            decreases v@.len() - i,
        {
            proof { assert(decreases_to!(v => v@[i as int])); }
            let ghost m = *self;
            let ghost item = match v@[i as int] {
                ObjectPatProp::KeyValue { key, value } => tcev_prop_name(key) + tcev_pat(value),
                ObjectPatProp::Assign { value, .. } => tcev_opt(value),
                ObjectPatProp::Rest(q) => tcev_pat(q),
            };
            match &v[i] {
                ObjectPatProp::KeyValue { key, value } => {
                    self.walk_prop_name(key);
                    let ghost m2 = *self;
                    self.walk_pat(value);
                    proof { lemma_trans(m, m2, *self, tcev_prop_name(*key), tcev_pat(*value)); }
                },
                ObjectPatProp::Assign { value, .. } => self.walk_opt(value),
                ObjectPatProp::Rest(q) => self.walk_pat(q),
            }
            proof {
                lemma_trans(s0, m, *self, tcev_opps(v@.take(i as int)), item);
                assert(v@.take(i + 1).drop_last() =~= v@.take(i as int));
            }
            i = i + 1;
        }
        proof { assert(v@.take(v@.len() as int) =~= v@); }
    }

    fn walk_opt_pats(&mut self, v: &Vec<Option<Pat>>)
        requires
            old(self).wf(),
        ensures
            final(self).wf(),
            final(self).tc_state() == tc_fold(old(self).tc_state(), tcev_opats(v@)),
        decreases v,
    {
        let ghost s0 = *self;
        proof { lemma_empty(s0); }
        let mut i: usize = 0;
        while i < v.len()
            invariant
                i <= v@.len(),
                s0.wf(),
                self.wf(),
                self.tc_state() == tc_fold(s0.tc_state(), tcev_opats(v@.take(i as int))),
            decreases v@.len() - i,
        {
            proof { assert(decreases_to!(v => v@[i as int])); }
            let ghost m = *self;
            let ghost item = match v@[i as int] {
                Some(q) => tcev_pat(q),
                None => Seq::empty(),
            };
            match &v[i] {
                Some(q) => self.walk_pat(q),
                None => { proof { lemma_empty(m); } },
            }
            proof {
                lemma_trans(s0, m, *self, tcev_opats(v@.take(i as int)), item);
                assert(v@.take(i + 1).drop_last() =~= v@.take(i as int));
            }
            i = i + 1;
        }
        proof { assert(v@.take(v@.len() as int) =~= v@); }
    }

    fn walk_prop_name(&mut self, k: &PropName)
        requires
            old(self).wf(),
        ensures
            final(self).wf(),
            final(self).tc_state() == tc_fold(old(self).tc_state(), tcev_prop_name(*k)),
        decreases k,
    {
        match k {
            PropName::Other(c) => self.walk_stmts(c),
            _ => { proof { lemma_empty(*self); } },
        }
    }

    fn walk_exprs(&mut self, v: &Vec<Expr>)
        requires
            old(self).wf(),
        ensures
            final(self).wf(),
            final(self).tc_state() == tc_fold(old(self).tc_state(), tcev_exprs(v@)),
        decreases v,
    {
        let ghost s0 = *self;
        proof { lemma_empty(s0); }
        let mut i: usize = 0;
        while i < v.len()
            invariant
                i <= v@.len(),
                s0.wf(),
                self.wf(),
                self.tc_state() == tc_fold(s0.tc_state(), tcev_exprs(v@.take(i as int))),
            decreases v@.len() - i,
        {
            proof { assert(decreases_to!(v => v@[i as int])); }
            let ghost m = *self;
            self.walk_expr(&v[i]);
            proof {
                lemma_trans(s0, m, *self, tcev_exprs(v@.take(i as int)), tcev_expr(v@[i as int]));
                assert(v@.take(i + 1).drop_last() =~= v@.take(i as int));
            }
            i = i + 1;
        }
        proof { assert(v@.take(v@.len() as int) =~= v@); }
    }

    fn walk_args(&mut self, v: &Vec<ExprOrSpread>)
        requires
            old(self).wf(),
        ensures
            final(self).wf(),
            final(self).tc_state() == tc_fold(old(self).tc_state(), tcev_args(v@)),
        decreases v,
    {
        let ghost s0 = *self;
        proof { lemma_empty(s0); }
        let mut i: usize = 0;
        while i < v.len()
            invariant
                i <= v@.len(),
                s0.wf(),
                self.wf(),
                self.tc_state() == tc_fold(s0.tc_state(), tcev_args(v@.take(i as int))),
            decreases v@.len() - i,
        {
            proof { assert(decreases_to!(v => v@[i as int])); }
            let ghost m = *self;
            self.walk_expr(&v[i].expr);
            proof {
                lemma_trans(s0, m, *self, tcev_args(v@.take(i as int)), tcev_expr(v@[i as int].expr));
                assert(v@.take(i + 1).drop_last() =~= v@.take(i as int));
            }
            i = i + 1;
        }
        proof { assert(v@.take(v@.len() as int) =~= v@); }
    }

    fn walk_elems(&mut self, v: &Vec<Option<ExprOrSpread>>)
        requires
            old(self).wf(),
        ensures
            final(self).wf(),
            final(self).tc_state() == tc_fold(old(self).tc_state(), tcev_elems(v@)),
        decreases v,
    {
        let ghost s0 = *self;
        proof { lemma_empty(s0); }
        let mut i: usize = 0;
        while i < v.len()
            invariant
                i <= v@.len(),
                s0.wf(),
                self.wf(),
                self.tc_state() == tc_fold(s0.tc_state(), tcev_elems(v@.take(i as int))),
            decreases v@.len() - i,
        {
            proof { assert(decreases_to!(v => v@[i as int])); }
            let ghost m = *self;
            let ghost item = match v@[i as int] {
                Some(x) => tcev_expr(x.expr),
                None => Seq::empty(),
            };
            match &v[i] {
                Some(x) => self.walk_expr(&x.expr),
                None => { proof { lemma_empty(m); } },
            }
            proof {
                lemma_trans(s0, m, *self, tcev_elems(v@.take(i as int)), item);
                assert(v@.take(i + 1).drop_last() =~= v@.take(i as int));
            }
            i = i + 1;
        }
        proof { assert(v@.take(v@.len() as int) =~= v@); }
    }

    fn walk_props(&mut self, v: &Vec<PropOrSpread>)
        requires
            old(self).wf(),
        ensures
            final(self).wf(),
            final(self).tc_state() == tc_fold(old(self).tc_state(), tcev_props(v@)),
        decreases v,
    {
        let ghost s0 = *self;
        proof { lemma_empty(s0); }
        let mut i: usize = 0;
        while i < v.len()
            invariant
                i <= v@.len(),
                s0.wf(),
                self.wf(),
                self.tc_state() == tc_fold(s0.tc_state(), tcev_props(v@.take(i as int))),
            decreases v@.len() - i,
        {
            proof { assert(decreases_to!(v => v@[i as int])); }
            let ghost m = *self;
            let ghost item = match v@[i as int] {
                PropOrSpread::Spread(e) => tcev_expr(e),
                PropOrSpread::KeyValue { key, value } => tcev_prop_name(key) + tcev_expr(value),
                PropOrSpread::Shorthand(_) => Seq::empty(),
                PropOrSpread::Method { key, function } => tcev_prop_name(key) + tcev_fn(function),
                PropOrSpread::Other(c) => tcev_stmts(c@),
            };
            match &v[i] {
                PropOrSpread::Spread(e) => self.walk_expr(e),
                PropOrSpread::KeyValue { key, value } => {
                    self.walk_prop_name(key);
                    let ghost m2 = *self;
                    self.walk_expr(value);
                    proof { lemma_trans(m, m2, *self, tcev_prop_name(*key), tcev_expr(*value)); }
                },
                PropOrSpread::Shorthand(_) => { proof { lemma_empty(m); } },
                PropOrSpread::Method { key, function } => {
                    self.walk_prop_name(key);
                    let ghost m2 = *self;
                    self.walk_fn(function);
                    proof { lemma_trans(m, m2, *self, tcev_prop_name(*key), tcev_fn(*function)); }
                },
                PropOrSpread::Other(c) => self.walk_stmts(c),
            }
            proof {
                lemma_trans(s0, m, *self, tcev_props(v@.take(i as int)), item);
                assert(v@.take(i + 1).drop_last() =~= v@.take(i as int));
            }
            i = i + 1;
        }
        proof { assert(v@.take(v@.len() as int) =~= v@); }
    }

    fn walk_expr(&mut self, e: &Expr)
        requires
            old(self).wf(),
        ensures
            final(self).wf(),
            final(self).tc_state() == tc_fold(old(self).tc_state(), tcev_expr(*e)),
        decreases e,
    {
        let ghost s0 = *self;
        match e {
            Expr::Ident(_) => { proof { lemma_empty(s0); } },
            Expr::Str(..) => { proof { lemma_empty(s0); } },
            Expr::Num(_) => { proof { lemma_empty(s0); } },
            Expr::Tpl(tpl) => self.walk_exprs(&tpl.exprs),
            Expr::Cond { test, cons, alt } => {
                self.walk_expr(test);
                let ghost m1 = *self;
                self.walk_expr(cons);
                let ghost m2 = *self;
                self.walk_expr(alt);
                proof {
                    lemma_trans(s0, m1, m2, tcev_expr(**test), tcev_expr(**cons));
                    lemma_trans(s0, m2, *self, tcev_expr(**test) + tcev_expr(**cons), tcev_expr(**alt));
                }
            },
            Expr::Bin { left, right, .. } => {
                self.walk_expr(left);
                let ghost m1 = *self;
                self.walk_expr(right);
                proof { lemma_trans(s0, m1, *self, tcev_expr(**left), tcev_expr(**right)); }
            },
            Expr::Paren(x) => self.walk_expr(x),
            Expr::TsAs(x) => self.walk_expr(x),
            Expr::TsConst(x) => self.walk_expr(x),
            Expr::TsSatisfies(x) => self.walk_expr(x),
            Expr::Await(x) => self.walk_expr(x),
            Expr::Call(c) => self.walk_call(c),
            Expr::Member { obj, prop } => {
                self.walk_expr(obj);
                let ghost m1 = *self;
                match prop {
                    crate::ast::MemberProp::Computed(k) => {
                        self.walk_expr(k);
                        proof { lemma_trans(s0, m1, *self, tcev_expr(**obj), tcev_expr(**k)); }
                    },
                    _ => {
                        proof {
                            lemma_empty(m1);
                            lemma_trans(s0, m1, m1, tcev_expr(**obj), Seq::empty());
                            assert(tcev_expr(**obj) + Seq::<CallEvent>::empty() =~= tcev_expr(**obj));
                        }
                    },
                }
            },
            Expr::Arrow(a) => self.walk_arrow(a),
            Expr::Fn(f) => self.walk_fn(f),
            Expr::Object(props) => self.walk_props(props),
            Expr::Array(elems) => self.walk_elems(elems),
            Expr::JSXElement(el) => self.walk_jsx(el),
            Expr::JSXFragment(children) => self.walk_children(children),
            Expr::Other { children, .. } => self.walk_stmts(children),
        }
    }

    /// A call: its own event, then its callee and arguments.
    fn walk_call(&mut self, c: &CallExpr)
        requires
            old(self).wf(),
        ensures
            final(self).wf(),
            final(self).tc_state() == tc_fold(old(self).tc_state(), tcev_call(*c)),
        decreases c,
    {
        let ghost s0 = *self;
        self.record_call(c);
        let ghost s1 = *self;
        let ghost cc = *c;
        let ghost callee_evs = match cc.callee {
            Some(callee) => tcev_expr(*callee),
            None => Seq::empty(),
        };
        match &c.callee {
            Some(callee) => {
                proof { assert(decreases_to!(c => **callee)); }
                self.walk_expr(callee);
            },
            None => { proof { lemma_empty(s1); } },
        }
        let ghost s2 = *self;
        self.walk_args(&c.args);
        proof {
            lemma_trans(s0, s1, s2, call_event(*c), callee_evs);
            lemma_trans(s0, s2, *self, call_event(*c) + callee_evs, tcev_args(c.args@));
        }
    }

    fn walk_jsx(&mut self, el: &JSXElement)
        requires
            old(self).wf(),
        ensures
            final(self).wf(),
            final(self).tc_state() == tc_fold(old(self).tc_state(), tcev_jsx(*el)),
        decreases el,
    {
        let ghost s0 = *self;
        self.walk_attrs(&el.attrs);
        let ghost s1 = *self;
        self.walk_children(&el.children);
        proof { lemma_trans(s0, s1, *self, tcev_attrs(el.attrs@), tcev_children(el.children@)); }
    }

    fn walk_attrs(&mut self, v: &Vec<JSXAttrOrSpread>)
        requires
            old(self).wf(),
        ensures
            final(self).wf(),
            final(self).tc_state() == tc_fold(old(self).tc_state(), tcev_attrs(v@)),
        decreases v,
    {
        let ghost s0 = *self;
        proof { lemma_empty(s0); }
        let mut i: usize = 0;
        while i < v.len()
            invariant
                i <= v@.len(),
                s0.wf(),
                self.wf(),
                self.tc_state() == tc_fold(s0.tc_state(), tcev_attrs(v@.take(i as int))),
            decreases v@.len() - i,
        {
            proof { assert(decreases_to!(v => v@[i as int])); }
            let ghost m = *self;
            let ghost item = match v@[i as int] {
                JSXAttrOrSpread::Attr(a) => match a.value {
                    Some(JSXAttrValue::Str(..)) => Seq::empty(),
                    Some(JSXAttrValue::Container(x)) => tcev_opt(x),
                    Some(JSXAttrValue::Element(inner)) => tcev_jsx(*inner),
                    Some(JSXAttrValue::Fragment(children)) => tcev_children(children@),
                    None => Seq::empty(),
                },
                JSXAttrOrSpread::Spread(x) => tcev_expr(x),
            };
            match &v[i] {
                JSXAttrOrSpread::Attr(a) => match &a.value {
                    Some(JSXAttrValue::Str(..)) => { proof { lemma_empty(m); } },
                    Some(JSXAttrValue::Container(x)) => self.walk_opt(x),
                    Some(JSXAttrValue::Element(inner)) => self.walk_jsx(inner),
                    Some(JSXAttrValue::Fragment(children)) => self.walk_children(children),
                    None => { proof { lemma_empty(m); } },
                },
                JSXAttrOrSpread::Spread(x) => self.walk_expr(x),
            }
            proof {
                lemma_trans(s0, m, *self, tcev_attrs(v@.take(i as int)), item);
                assert(v@.take(i + 1).drop_last() =~= v@.take(i as int));
            }
            i = i + 1;
        }
        proof { assert(v@.take(v@.len() as int) =~= v@); }
    }

    fn walk_children(&mut self, v: &Vec<JSXChild>)
        requires
            old(self).wf(),
        ensures
            final(self).wf(),
            final(self).tc_state() == tc_fold(old(self).tc_state(), tcev_children(v@)),
        decreases v,
    {
        let ghost s0 = *self;
        proof { lemma_empty(s0); }
        let mut i: usize = 0;
        while i < v.len()
            invariant
                i <= v@.len(),
                s0.wf(),
                self.wf(),
                self.tc_state() == tc_fold(s0.tc_state(), tcev_children(v@.take(i as int))),
            decreases v@.len() - i,
        {
            proof { assert(decreases_to!(v => v@[i as int])); }
            let ghost m = *self;
            let ghost item = match v@[i as int] {
                JSXChild::Text(..) => Seq::empty(),
                JSXChild::Container(x) => tcev_opt(x),
                JSXChild::Spread(x) => tcev_expr(x),
                JSXChild::Element(el) => tcev_jsx(*el),
                JSXChild::Fragment(children) => tcev_children(children@),
            };
            match &v[i] {
                JSXChild::Text(..) => { proof { lemma_empty(m); } },
                JSXChild::Container(x) => self.walk_opt(x),
                JSXChild::Spread(x) => self.walk_expr(x),
                JSXChild::Element(el) => self.walk_jsx(el),
                JSXChild::Fragment(children) => self.walk_children(children),
            }
            proof {
                lemma_trans(s0, m, *self, tcev_children(v@.take(i as int)), item);
                assert(v@.take(i + 1).drop_last() =~= v@.take(i as int));
            }
            i = i + 1;
        }
        proof { assert(v@.take(v@.len() as int) =~= v@); }
    }
}

proof fn lemma_trans(a: TranslationCallFinder, b: TranslationCallFinder, c: TranslationCallFinder, e1: Seq<CallEvent>, e2: Seq<CallEvent>)
    requires
        b.tc_state() == tc_fold(a.tc_state(), e1),
        c.tc_state() == tc_fold(b.tc_state(), e2),
    ensures
        c.tc_state() == tc_fold(a.tc_state(), e1 + e2),
{
    lemma_fold_add(a.tc_state(), e1, e2);
}

proof fn lemma_empty(a: TranslationCallFinder)
    ensures
        a.tc_state() == tc_fold(a.tc_state(), Seq::empty()),
{
}

} // verus!
