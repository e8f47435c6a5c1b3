//! Resolves dynamic translation key expressions to the values they may take.

use vstd::prelude::*;
use crate::ast::{BinOp, Expr, MemberProp, Tpl};
use crate::key_objects::{
    FileImports, ImportInfo, KeyArrayRegistry, KeyObjectRegistry, StringArrayRegistry, dotted,
    make_registry_key, resolve_import_path, spec_resolve_import_path,
};
use crate::strmap::{StrMap, StrSet};
use crate::text::{clone_strings, push_text, strs_view, text};
use crate::value_source::{ReasonView, SourceView, UnresolvableReason, ValueSource, source_view};

verus! {

/// How an iterator variable relates to its array.
#[derive(Debug, Clone, Copy, PartialEq, Eq, Structural)]
pub enum IteratorBindingType {
    /// Iterating over a string array directly: `KEYS.map(k => t(k))`
    StringArrayDirect,
    /// Iterating over an object array, reading properties: `items.map(i => t(i.key))`
    ObjectArrayProperty,
}

/// An iterator variable and the array it ranges over.
#[derive(Debug)]
pub struct IteratorBinding {
    pub array_name: String,
    pub binding_type: IteratorBindingType,
}

/// The name of an expression's kind, as shown in messages.
pub open spec fn spec_expr_type_name(e: Expr) -> Seq<char> {
    match e {
        Expr::Ident(_) => "Ident"@,
        Expr::Str(..) => "Lit"@,
        Expr::Num(_) => "Lit"@,
        Expr::Tpl(_) => "Tpl"@,
        Expr::Cond { .. } => "Cond"@,
        Expr::Bin { .. } => "Bin"@,
        Expr::Paren(_) => "Paren"@,
        Expr::TsAs(_) => "TsAs"@,
        Expr::TsConst(_) => "TsConstAssertion"@,
        Expr::TsSatisfies(_) => "TsSatisfies"@,
        Expr::Await(_) => "Await"@,
        Expr::Call(_) => "Call"@,
        Expr::Member { .. } => "Member"@,
        Expr::Arrow(_) => "Arrow"@,
        Expr::Fn(_) => "Fn"@,
        Expr::Object(_) => "Object"@,
        Expr::Array(_) => "Array"@,
        Expr::JSXElement(_) => "JSXElement"@,
        Expr::JSXFragment(_) => "JSXFragment"@,
        Expr::Other { kind, .. } => kind@,
    }
}

/// Gets the kind name of an expression for messages.
pub fn expr_type_name(e: &Expr) -> (r: String)
    ensures
        r@ == spec_expr_type_name(*e),
{
    match e {
        Expr::Ident(_) => text("Ident"),
        Expr::Str(..) => text("Lit"),
        Expr::Num(_) => text("Lit"),
        Expr::Tpl(_) => text("Tpl"),
        Expr::Cond { .. } => text("Cond"),
        Expr::Bin { .. } => text("Bin"),
        Expr::Paren(_) => text("Paren"),
        Expr::TsAs(_) => text("TsAs"),
        Expr::TsConst(_) => text("TsConstAssertion"),
        Expr::TsSatisfies(_) => text("TsSatisfies"),
        Expr::Await(_) => text("Await"),
        Expr::Call(_) => text("Call"),
        Expr::Member { .. } => text("Member"),
        Expr::Arrow(_) => text("Arrow"),
        Expr::Fn(_) => text("Fn"),
        Expr::Object(_) => text("Object"),
        Expr::Array(_) => text("Array"),
        Expr::JSXElement(_) => text("JSXElement"),
        Expr::JSXFragment(_) => text("JSXFragment"),
        Expr::Other { kind, .. } => kind.clone(),
    }
}

/// The expression inside parentheses and TypeScript assertions.
pub open spec fn spec_unwrap_paren(e: Expr) -> Expr
    decreases e,
{
    match e {
        Expr::Paren(x) => spec_unwrap_paren(*x),
        Expr::TsAs(x) => spec_unwrap_paren(*x),
        Expr::TsConst(x) => spec_unwrap_paren(*x),
        Expr::TsSatisfies(x) => spec_unwrap_paren(*x),
        _ => e,
    }
}

/// Unwraps `(expr)`, `expr as T`, `expr as const` and `expr satisfies T`.
pub fn unwrap_paren(e: &Expr) -> (r: &Expr)
    ensures
        *r == spec_unwrap_paren(*e),
    decreases e,
{
    match e {
        Expr::Paren(x) => unwrap_paren(x),
        Expr::TsAs(x) => unwrap_paren(x),
        Expr::TsConst(x) => unwrap_paren(x),
        Expr::TsSatisfies(x) => unwrap_paren(x),
        _ => e,
    }
}

/// Innermost-first lookup in a stack of scopes.
pub open spec fn stack_lookup<V>(s: Seq<Map<Seq<char>, V>>, name: Seq<char>) -> Option<V>
    decreases s.len(),
{
    if s.len() == 0 {
        None
    } else if s.last().contains_key(name) {
        Some(s.last()[name])
    } else {
        stack_lookup(s.drop_last(), name)
    }
}

/// Index of the first import binding `name` from index `i` on, or -1.
pub open spec fn first_import_from(imps: Seq<ImportInfo>, i: int, name: Seq<char>) -> int
    decreases imps.len() - i,
{
    if i < 0 || i >= imps.len() {
        -1
    } else if imps[i].local_name@ == name {
        i
    } else {
        first_import_from(imps, i + 1, name)
    }
}

/// The iterator scopes of an analyzer, innermost last; the global scope is
/// always there.
pub struct IteratorScopes {
    scopes: Vec<StrMap<IteratorBinding>>,
}

impl IteratorScopes {
    #[verifier::type_invariant]
    spec fn keeps_global_scope(self) -> bool {
        self.scopes@.len() >= 1
    }
}

impl View for IteratorScopes {
    type V = Seq<Map<Seq<char>, IteratorBinding>>;

    closed spec fn view(&self) -> Seq<Map<Seq<char>, IteratorBinding>> {
        self.scopes@.map_values(|m: StrMap<IteratorBinding>| m@)
    }
}

fn one_iterator_scope() -> (r: Vec<StrMap<IteratorBinding>>)
    ensures
        r@.len() == 1,
        r@[0]@ == Map::<Seq<char>, IteratorBinding>::empty(),
{
    let mut v = Vec::new();
    v.push(StrMap::new());
    v
}

impl IteratorScopes {
    /// Only the global scope, empty.
    pub fn new() -> (r: Self)
        ensures
            r@ == seq![Map::<Seq<char>, IteratorBinding>::empty()],
    {
        let r = IteratorScopes { scopes: one_iterator_scope() };
        assert(r@ =~= seq![Map::<Seq<char>, IteratorBinding>::empty()]);
        r
    }

    /// Number of scopes: at least the global one.
    pub fn len(&self) -> (r: usize)
        ensures
            r == self@.len(),
            r >= 1,
    {
        proof { use_type_invariant(self); }
        self.scopes.len()
    }

    /// Scope `i`, from the outermost.
    pub fn scope(&self, i: usize) -> (r: &StrMap<IteratorBinding>)
        requires
            i < self@.len(),
        ensures
            r@ == self@[i as int],
    {
        &self.scopes[i]
    }

    /// Enters a new, empty scope.
    pub fn enter(&mut self)
        ensures
            old(self)@.len() >= 1,
            final(self)@ == old(self)@.push(Map::empty()),
    {
        proof { use_type_invariant(&*self); }
        let ghost s0 = self@;
        let mut v = one_iterator_scope();
        std::mem::swap(&mut v, &mut self.scopes);
        v.push(StrMap::new());
        self.scopes = v;
        assert(self@ =~= s0.push(Map::empty()));
    }

    /// Leaves the innermost scope; the global scope is kept.
    pub fn exit(&mut self)
        ensures
            old(self)@.len() >= 1,
            final(self)@ == (if old(self)@.len() > 1 { old(self)@.drop_last() } else { old(self)@ }),
            final(self)@.len() >= 1,
    {
        proof { use_type_invariant(&*self); }
        let ghost s0 = self@;
        if self.scopes.len() > 1 {
            let mut v = one_iterator_scope();
            std::mem::swap(&mut v, &mut self.scopes);
            v.pop();
            self.scopes = v;
            assert(self@ =~= s0.drop_last());
        }
    }

    /// Binds `name` in the innermost scope.
    pub fn insert(&mut self, name: String, b: IteratorBinding)
        ensures
            old(self)@.len() >= 1,
            final(self)@ == old(self)@.drop_last().push(old(self)@.last().insert(name@, b)),
    {
        proof { use_type_invariant(&*self); }
        let ghost s0 = self@;
        let ghost n = name@;
        let mut v = one_iterator_scope();
        std::mem::swap(&mut v, &mut self.scopes);
        let mut scope = v.pop().unwrap();
        scope.insert(name, b);
        v.push(scope);
        self.scopes = v;
        assert(self@ =~= s0.drop_last().push(s0.last().insert(n, b)));
    }
}

/// Analyzer for resolving dynamic translation key expressions.
pub struct ValueAnalyzer<'a> {
    pub file_path: &'a str,
    /// Objects: `{ name: "value" }`
    pub key_object_registry: &'a KeyObjectRegistry,
    /// Object arrays: `[{ prop: "value" }]`
    pub key_array_registry: &'a KeyArrayRegistry,
    /// String arrays: `["a", "b"]`
    pub string_array_registry: &'a StringArrayRegistry,
    /// Imports of the file, for cross-file resolution.
    pub file_imports: &'a FileImports,
    /// Files known to exist, for resolving import paths.
    pub existing_files: StrSet,
    /// Variables bound to an object access: `const key = obj[name]`.
    pub variable_bindings: StrMap<ValueSource>,
    /// Iterator parameters, innermost scope last.
    pub iterator_scopes: IteratorScopes,
}

impl<'a> ValueAnalyzer<'a> {
    pub open spec fn spec_scopes(&self) -> Seq<Map<Seq<char>, IteratorBinding>> {
        self.iterator_scopes@
    }

    pub open spec fn spec_iterator(&self, name: Seq<char>) -> Option<IteratorBinding> {
        stack_lookup(self.spec_scopes(), name)
    }

    /// The registry key an imported name refers to, if it is imported from a relative path.
    pub open spec fn spec_import_key(&self, name: Seq<char>) -> Option<Seq<char>> {
        let imps = self.file_imports@;
        let i = first_import_from(imps, 0, name);
        if i < 0 {
            None
        } else {
            match spec_resolve_import_path(self.file_path@, imps[i].module_specifier@, self.existing_files@) {
                Some(p) => Some(dotted(p, imps[i].imported_name@)),
                None => None,
            }
        }
    }

    pub open spec fn spec_resolve_object(&self, name: Seq<char>) -> SourceView {
        let reg = self.key_object_registry@;
        let lk = dotted(self.file_path@, name);
        if reg.contains_key(lk) {
            SourceView::ObjectAccess { object_name: name, candidate_values: strs_view(reg[lk].candidate_keys@) }
        } else {
            match self.spec_import_key(name) {
                Some(k) => if reg.contains_key(k) && reg[k].is_exported && reg[k].is_module_level {
                    SourceView::ObjectAccess { object_name: name, candidate_values: strs_view(reg[k].candidate_keys@) }
                } else {
                    SourceView::Unresolvable { reason: ReasonView::UnknownObject(name) }
                },
                None => SourceView::Unresolvable { reason: ReasonView::UnknownObject(name) },
            }
        }
    }

    pub open spec fn spec_resolve_string_array(&self, name: Seq<char>) -> SourceView {
        let reg = self.string_array_registry@;
        let lk = dotted(self.file_path@, name);
        if reg.contains_key(lk) {
            SourceView::StringArrayElement { array_name: name, candidate_values: strs_view(reg[lk].values@) }
        } else {
            match self.spec_import_key(name) {
                Some(k) => if reg.contains_key(k) && reg[k].is_exported && reg[k].is_module_level {
                    SourceView::StringArrayElement { array_name: name, candidate_values: strs_view(reg[k].values@) }
                } else {
                    SourceView::Unresolvable { reason: ReasonView::UnknownArray(name) }
                },
                None => SourceView::Unresolvable { reason: ReasonView::UnknownArray(name) },
            }
        }
    }

    pub open spec fn spec_resolve_array_property(&self, array: Seq<char>, prop: Seq<char>) -> SourceView {
        let reg = self.key_array_registry@;
        let lk = dotted(self.file_path@, array);
        if reg.contains_key(lk) && reg[lk].property_values@.contains_key(prop) {
            SourceView::ArrayIteration { array_name: array, property_name: prop, candidate_values: strs_view(reg[lk].property_values@[prop]@) }
        } else {
            match self.spec_import_key(array) {
                Some(k) => if reg.contains_key(k) && reg[k].is_exported && reg[k].is_module_level
                    && reg[k].property_values@.contains_key(prop) {
                    SourceView::ArrayIteration { array_name: array, property_name: prop, candidate_values: strs_view(reg[k].property_values@[prop]@) }
                } else {
                    SourceView::Unresolvable { reason: ReasonView::UnknownArray(array) }
                },
                None => SourceView::Unresolvable { reason: ReasonView::UnknownArray(array) },
            }
        }
    }

    /// The binding type an iterator over `array` gets.
    pub open spec fn spec_binding_type(&self, array: Seq<char>) -> IteratorBindingType {
        let lk = dotted(self.file_path@, array);
        if self.string_array_registry@.contains_key(lk) {
            IteratorBindingType::StringArrayDirect
        } else if self.key_array_registry@.contains_key(lk) {
            IteratorBindingType::ObjectArrayProperty
        } else {
            match self.spec_import_key(array) {
                Some(k) => if self.string_array_registry@.contains_key(k) {
                    IteratorBindingType::StringArrayDirect
                } else {
                    IteratorBindingType::ObjectArrayProperty
                },
                None => IteratorBindingType::ObjectArrayProperty,
            }
        }
    }

    /// What an expression may evaluate to.
    pub open spec fn spec_analyze(&self, e: Expr) -> SourceView
        decreases e,
    {
        match e {
            Expr::Paren(x) => self.spec_analyze(*x),
            Expr::TsAs(x) => self.spec_analyze(*x),
            Expr::TsConst(x) => self.spec_analyze(*x),
            Expr::TsSatisfies(x) => self.spec_analyze(*x),
            Expr::Str(v, _) => match v {
                Some(s) => SourceView::Literal(s@),
                None => SourceView::Unresolvable { reason: ReasonView::UnsupportedExpression { expr_type: "Str (non-UTF8)"@ } },
            },
            Expr::Num(n) => SourceView::Literal(n@),
            Expr::Tpl(t) => {
                if t.exprs@.len() == 0 {
                    if t.quasis@.len() > 0 && t.quasis@[0].cooked is Some {
                        SourceView::Literal(t.quasis@[0].cooked->0@)
                    } else {
                        SourceView::Unresolvable { reason: ReasonView::UnsupportedExpression { expr_type: "Tpl (empty quasis)"@ } }
                    }
                } else if t.exprs@.len() > 1 {
                    SourceView::Unresolvable { reason: ReasonView::ComplexTemplate { expr_count: t.exprs@.len() as usize } }
                } else {
                    SourceView::Template {
                        prefix: if t.quasis@.len() > 0 && t.quasis@[0].cooked is Some { t.quasis@[0].cooked->0@ } else { Seq::empty() },
                        suffix: if t.quasis@.len() > 1 && t.quasis@[1].cooked is Some { t.quasis@[1].cooked->0@ } else { Seq::empty() },
                        inner: Box::new(self.spec_analyze(t.exprs@[0])),
                    }
                }
            },
            Expr::Cond { cons, alt, .. } => SourceView::Conditional {
                consequent: Box::new(self.spec_analyze(*cons)),
                alternate: Box::new(self.spec_analyze(*alt)),
            },
            Expr::Bin { op, left, right } => match op {
                BinOp::LogicalOr => SourceView::Conditional {
                    consequent: Box::new(self.spec_analyze(*left)),
                    alternate: Box::new(self.spec_analyze(*right)),
                },
                BinOp::LogicalAnd => SourceView::Unresolvable { reason: ReasonView::UnsupportedExpression { expr_type: "BinaryOp::LogicalAnd"@ } },
                BinOp::Other(name) => SourceView::Unresolvable { reason: ReasonView::UnsupportedExpression { expr_type: "BinaryOp::"@ + name@ } },
            },
            Expr::Ident(name) => {
                if self.variable_bindings@.contains_key(name@) {
                    source_view(self.variable_bindings@[name@])
                } else {
                    match self.spec_iterator(name@) {
                        Some(b) => if b.binding_type == IteratorBindingType::StringArrayDirect {
                            self.spec_resolve_string_array(b.array_name@)
                        } else {
                            SourceView::Unresolvable { reason: ReasonView::UnknownVariable(name@) }
                        },
                        None => SourceView::Unresolvable { reason: ReasonView::UnknownVariable(name@) },
                    }
                }
            },
            Expr::Member { obj, prop } => match (*obj, prop) {
                (Expr::Ident(o), MemberProp::Ident(p)) => match self.spec_iterator(o@) {
                    Some(b) => self.spec_resolve_array_property(b.array_name@, p@),
                    None => SourceView::Unresolvable { reason: ReasonView::UnsupportedExpression { expr_type: "Member (unresolved)"@ } },
                },
                _ => SourceView::Unresolvable { reason: ReasonView::UnsupportedExpression { expr_type: "Member (unresolved)"@ } },
            },
            _ => SourceView::Unresolvable { reason: ReasonView::UnsupportedExpression { expr_type: spec_expr_type_name(e) } },
        }
    }

    /// Creates an analyzer with one global iterator scope and no known files.
    pub fn new(
        file_path: &'a str,
        key_object_registry: &'a KeyObjectRegistry,
        key_array_registry: &'a KeyArrayRegistry,
        string_array_registry: &'a StringArrayRegistry,
        file_imports: &'a FileImports,
    ) -> (r: Self)
        ensures
            r.file_path == file_path,
            r.key_object_registry == key_object_registry,
            r.key_array_registry == key_array_registry,
            r.string_array_registry == string_array_registry,
            r.file_imports == file_imports,
            r.existing_files@ == Set::<Seq<char>>::empty(),
            r.variable_bindings@ == Map::<Seq<char>, ValueSource>::empty(),
            r.spec_scopes() == seq![Map::<Seq<char>, IteratorBinding>::empty()],
    {
        let r = ValueAnalyzer {
            file_path,
            key_object_registry,
            key_array_registry,
            string_array_registry,
            file_imports,
            existing_files: StrSet::new(),
            variable_bindings: StrMap::new(),
            iterator_scopes: IteratorScopes::new(),
        };
        r
    }

    /// Sets the files that import paths may resolve to.
    pub fn set_existing_files(&mut self, files: StrSet)
        ensures
            final(self).existing_files@ == files@,
            final(self).file_path == old(self).file_path,
            final(self).key_object_registry == old(self).key_object_registry,
            final(self).key_array_registry == old(self).key_array_registry,
            final(self).string_array_registry == old(self).string_array_registry,
            final(self).file_imports == old(self).file_imports,
            final(self).variable_bindings@ == old(self).variable_bindings@,
            final(self).spec_scopes() == old(self).spec_scopes(),
    {
        self.existing_files = files;
    }

    /// Enters a new iterator scope (a callback body).
    pub fn enter_scope(&mut self)
        ensures
            old(self).spec_scopes().len() >= 1,
            final(self).spec_scopes() == old(self).spec_scopes().push(Map::empty()),
            final(self).file_path == old(self).file_path,
            final(self).key_object_registry == old(self).key_object_registry,
            final(self).key_array_registry == old(self).key_array_registry,
            final(self).string_array_registry == old(self).string_array_registry,
            final(self).file_imports == old(self).file_imports,
            final(self).existing_files@ == old(self).existing_files@,
            final(self).variable_bindings@ == old(self).variable_bindings@,
    {
        self.iterator_scopes.enter();
    }

    /// Exits the innermost iterator scope; the global scope is kept.
    pub fn exit_scope(&mut self)
        ensures
            old(self).spec_scopes().len() >= 1,
            final(self).spec_scopes().len() >= 1,
            final(self).spec_scopes() == (if old(self).spec_scopes().len() > 1 { old(self).spec_scopes().drop_last() } else { old(self).spec_scopes() }),
            final(self).file_path == old(self).file_path,
            final(self).key_object_registry == old(self).key_object_registry,
            final(self).key_array_registry == old(self).key_array_registry,
            final(self).string_array_registry == old(self).string_array_registry,
            final(self).file_imports == old(self).file_imports,
            final(self).existing_files@ == old(self).existing_files@,
            final(self).variable_bindings@ == old(self).variable_bindings@,
    {
        self.iterator_scopes.exit();
    }

    /// Looks up an iterator binding from the innermost scope outwards.
    pub fn get_iterator_binding(&self, name: &str) -> (r: Option<&IteratorBinding>)
        ensures
            match r {
                Some(b) => self.spec_iterator(name@) == Some(*b),
                None => self.spec_iterator(name@) is None,
            },
    {
        let mut i = self.iterator_scopes.len();
        assert(self.spec_scopes().take(i as int) =~= self.spec_scopes());
        while i > 0
            invariant
                i <= self.spec_scopes().len(),
                stack_lookup(self.spec_scopes(), name@) == stack_lookup(self.spec_scopes().take(i as int), name@),
            decreases i,
        {
            proof {
                let t = self.spec_scopes().take(i as int);
                assert(t.drop_last() =~= self.spec_scopes().take(i - 1));
            }
            match self.iterator_scopes.scope(i - 1).get(name) {
                Some(b) => { return Some(b); },
                None => {},
            }
            i = i - 1;
        }
        None
    }

    fn find_import(&self, name: &str) -> (r: Option<usize>)
        ensures
            match r {
                Some(i) => i < self.file_imports@.len() && i as int == first_import_from(self.file_imports@, 0, name@),
                None => first_import_from(self.file_imports@, 0, name@) == -1,
            },
    {
        let mut i: usize = 0;
        while i < self.file_imports.len()
            invariant
                i <= self.file_imports@.len(),
                first_import_from(self.file_imports@, 0, name@) == first_import_from(self.file_imports@, i as int, name@),
            decreases self.file_imports@.len() - i,
        {
            if crate::text::str_eq(self.file_imports[i].local_name.as_str(), name) {
                return Some(i);
            }
            i = i + 1;
        }
        None
    }

    /// The registry key of an imported name.
    fn import_key(&self, name: &str) -> (r: Option<String>)
        ensures
            crate::key_objects::opt_view(r) == self.spec_import_key(name@),
    {
        match self.find_import(name) {
            None => None,
            Some(i) => {
                let info = &self.file_imports[i];
                match resolve_import_path(self.file_path, info.module_specifier.as_str(), &self.existing_files) {
                    Some(p) => Some(make_registry_key(p.as_str(), info.imported_name.as_str())),
                    None => None,
                }
            },
        }
    }

    /// Resolves an object from the registry: the file's own object first,
    /// then an exported module-level object of the file it is imported from.
    pub fn resolve_object(&self, name: &str) -> (r: ValueSource)
        ensures
            source_view(r) == self.spec_resolve_object(name@),
    {
        let local_key = make_registry_key(self.file_path, name);
        if let Some(obj) = self.key_object_registry.get(local_key.as_str()) {
            return ValueSource::ObjectAccess { object_name: text(name), candidate_values: clone_strings(&obj.candidate_keys) };
        }
        if let Some(k) = self.import_key(name) {
            if let Some(obj) = self.key_object_registry.get(k.as_str()) {
                if obj.is_exported && obj.is_module_level {
                    return ValueSource::ObjectAccess { object_name: text(name), candidate_values: clone_strings(&obj.candidate_keys) };
                }
            }
        }
        ValueSource::Unresolvable { reason: UnresolvableReason::UnknownObject(text(name)) }
    }

    /// Resolves a string array from the registry (local first, then imports).
    pub fn resolve_string_array(&self, name: &str) -> (r: ValueSource)
        ensures
            source_view(r) == self.spec_resolve_string_array(name@),
    {
        let local_key = make_registry_key(self.file_path, name);
        if let Some(arr) = self.string_array_registry.get(local_key.as_str()) {
            return ValueSource::StringArrayElement { array_name: text(name), candidate_values: clone_strings(&arr.values) };
        }
        if let Some(k) = self.import_key(name) {
            if let Some(arr) = self.string_array_registry.get(k.as_str()) {
                if arr.is_exported && arr.is_module_level {
                    return ValueSource::StringArrayElement { array_name: text(name), candidate_values: clone_strings(&arr.values) };
                }
            }
        }
        ValueSource::Unresolvable { reason: UnresolvableReason::UnknownArray(text(name)) }
    }

    /// Resolves a property of an object array from the registry (local first, then imports).
    pub fn resolve_array_property(&self, array_name: &str, prop_name: &str) -> (r: ValueSource)
        ensures
            source_view(r) == self.spec_resolve_array_property(array_name@, prop_name@),
    {
        let local_key = make_registry_key(self.file_path, array_name);
        if let Some(arr) = self.key_array_registry.get(local_key.as_str()) {
            if let Some(values) = arr.property_values.get(prop_name) {
                return ValueSource::ArrayIteration {
                    array_name: text(array_name),
                    property_name: text(prop_name),
                    candidate_values: clone_strings(values),
                };
            }
        }
        if let Some(k) = self.import_key(array_name) {
            if let Some(arr) = self.key_array_registry.get(k.as_str()) {
                if arr.is_exported && arr.is_module_level {
                    if let Some(values) = arr.property_values.get(prop_name) {
                        return ValueSource::ArrayIteration {
                            array_name: text(array_name),
                            property_name: text(prop_name),
                            candidate_values: clone_strings(values),
                        };
                    }
                }
            }
        }
        ValueSource::Unresolvable { reason: UnresolvableReason::UnknownArray(text(array_name)) }
    }

    fn unsupported(kind: &str) -> (r: ValueSource)
        ensures
            source_view(r) == (SourceView::Unresolvable { reason: ReasonView::UnsupportedExpression { expr_type: kind@ } }),
    {
        ValueSource::Unresolvable { reason: UnresolvableReason::UnsupportedExpression { expr_type: text(kind) } }
    }

    fn analyze_template(&self, tpl: &Tpl, e: &Expr) -> (r: ValueSource)
        requires
            *e == Expr::Tpl(*tpl),
        ensures
            source_view(r) == self.spec_analyze(*e),
        decreases *e, 0nat,
    {
        if tpl.exprs.len() == 0 {
            if tpl.quasis.len() > 0 {
                if let Some(c) = &tpl.quasis[0].cooked {
                    return ValueSource::Literal(c.clone());
                }
            }
            return Self::unsupported("Tpl (empty quasis)");
        }
        if tpl.exprs.len() > 1 {
            return ValueSource::Unresolvable { reason: UnresolvableReason::ComplexTemplate { expr_count: tpl.exprs.len() } };
        }
        let prefix = if tpl.quasis.len() > 0 {
            match &tpl.quasis[0].cooked { Some(c) => c.clone(), None => String::new() }
        } else {
            String::new()
        };
        let suffix = if tpl.quasis.len() > 1 {
            match &tpl.quasis[1].cooked { Some(c) => c.clone(), None => String::new() }
        } else {
            String::new()
        };
        proof { assert(decreases_to!(tpl.exprs => tpl.exprs[0])); }
        let inner = self.analyze_expr(&tpl.exprs[0]);
        ValueSource::Template { prefix, suffix, inner: Box::new(inner) }
    }

    /// Analyzes an expression and returns what it may evaluate to.
    pub fn analyze_expr(&self, e: &Expr) -> (r: ValueSource)
        ensures
            source_view(r) == self.spec_analyze(*e),
        decreases *e, 1nat,
    {
        match e {
            Expr::Paren(x) => self.analyze_expr(x),
            Expr::TsAs(x) => self.analyze_expr(x),
            Expr::TsConst(x) => self.analyze_expr(x),
            Expr::TsSatisfies(x) => self.analyze_expr(x),
            Expr::Str(v, _) => match v {
                Some(s) => ValueSource::Literal(s.clone()),
                None => Self::unsupported("Str (non-UTF8)"),
            },
            Expr::Num(n) => ValueSource::Literal(n.clone()),
            Expr::Tpl(t) => self.analyze_template(t, e),
            Expr::Cond { cons, alt, .. } => {
                let c = self.analyze_expr(cons);
                let a = self.analyze_expr(alt);
                ValueSource::Conditional { consequent: Box::new(c), alternate: Box::new(a) }
            },
            Expr::Bin { op, left, right } => match op {
                BinOp::LogicalOr => {
                    let l = self.analyze_expr(left);
                    let r = self.analyze_expr(right);
                    ValueSource::Conditional { consequent: Box::new(l), alternate: Box::new(r) }
                },
                BinOp::LogicalAnd => Self::unsupported("BinaryOp::LogicalAnd"),
                BinOp::Other(name) => {
                    let mut t = text("BinaryOp::");
                    push_text(&mut t, name.as_str());
                    ValueSource::Unresolvable { reason: UnresolvableReason::UnsupportedExpression { expr_type: t } }
                },
            },
            Expr::Ident(name) => {
                if let Some(src) = self.variable_bindings.get(name.as_str()) {
                    return src.duplicate();
                }
                match self.get_iterator_binding(name.as_str()) {
                    Some(b) => {
                        if b.binding_type == IteratorBindingType::StringArrayDirect {
                            self.resolve_string_array(b.array_name.as_str())
                        } else {
                            ValueSource::Unresolvable { reason: UnresolvableReason::UnknownVariable(name.clone()) }
                        }
                    },
                    None => ValueSource::Unresolvable { reason: UnresolvableReason::UnknownVariable(name.clone()) },
                }
            },
            Expr::Member { obj, prop } => {
                if let Expr::Ident(o) = &**obj {
                    if let MemberProp::Ident(p) = prop {
                        if let Some(b) = self.get_iterator_binding(o.as_str()) {
                            return self.resolve_array_property(b.array_name.as_str(), p.as_str());
                        }
                    }
                }
                Self::unsupported("Member (unresolved)")
            },
            _ => {
                let t = expr_type_name(e);
                ValueSource::Unresolvable { reason: UnresolvableReason::UnsupportedExpression { expr_type: t } }
            },
        }
    }

    /// Binds a variable to an object access: `const key = toolKeys[name]`.
    pub fn register_object_access(&mut self, var_name: &str, object_name: &str)
        ensures
            final(self).variable_bindings@.dom() == old(self).variable_bindings@.dom().insert(var_name@),
            source_view(final(self).variable_bindings@[var_name@]) == old(self).spec_resolve_object(object_name@),
            forall|k: Seq<char>| k != var_name@ && #[trigger] old(self).variable_bindings@.contains_key(k)
                ==> final(self).variable_bindings@[k] == old(self).variable_bindings@[k],
            final(self).file_path == old(self).file_path,
            final(self).key_object_registry == old(self).key_object_registry,
            final(self).key_array_registry == old(self).key_array_registry,
            final(self).string_array_registry == old(self).string_array_registry,
            final(self).file_imports == old(self).file_imports,
            final(self).existing_files@ == old(self).existing_files@,
            final(self).spec_scopes() == old(self).spec_scopes(),
    {
        let source = self.resolve_object(object_name);
        self.variable_bindings.insert(text(var_name), source);
    }

    /// Registers an iterator parameter over an array in the innermost scope:
    /// `KEYS.map(k => ...)` binds `k` to `KEYS`.
    pub fn register_iterator(&mut self, param_name: &str, array_name: &str)
        ensures
            old(self).spec_scopes().len() >= 1,
            final(self).spec_scopes() == old(self).spec_scopes().drop_last().push(
                old(self).spec_scopes().last().insert(param_name@, IteratorBinding {
                    array_name: final(self).spec_scopes().last()[param_name@].array_name,
                    binding_type: old(self).spec_binding_type(array_name@),
                })),
            final(self).spec_scopes().last()[param_name@].array_name@ == array_name@,
            final(self).file_path == old(self).file_path,
            final(self).key_object_registry == old(self).key_object_registry,
            final(self).key_array_registry == old(self).key_array_registry,
            final(self).string_array_registry == old(self).string_array_registry,
            final(self).file_imports == old(self).file_imports,
            final(self).existing_files@ == old(self).existing_files@,
            final(self).variable_bindings@ == old(self).variable_bindings@,
    {
        let local_key = make_registry_key(self.file_path, array_name);
        let binding_type = if self.string_array_registry.contains_key(local_key.as_str()) {
            IteratorBindingType::StringArrayDirect
        } else if self.key_array_registry.contains_key(local_key.as_str()) {
            IteratorBindingType::ObjectArrayProperty
        } else {
            match self.import_key(array_name) {
                Some(k) => if self.string_array_registry.contains_key(k.as_str()) {
                    IteratorBindingType::StringArrayDirect
                } else {
                    IteratorBindingType::ObjectArrayProperty
                },
                None => IteratorBindingType::ObjectArrayProperty,
            }
        };
        let ghost s0 = self.spec_scopes();
        let b = IteratorBinding { array_name: text(array_name), binding_type };
        let ghost bv = b;
        self.iterator_scopes.insert(text(param_name), b);
        assert(self.spec_scopes() == s0.drop_last().push(s0.last().insert(param_name@, bv)));
    }
}

} // verus!
