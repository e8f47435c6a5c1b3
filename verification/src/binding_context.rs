//! Translation function bindings with nested scopes.

use vstd::prelude::*;
use crate::strmap::StrMap;
use crate::translation_source::TranslationSource;

verus! {

/// Scopes of bindings, innermost last.
pub type Scopes = Seq<Map<Seq<char>, TranslationSource>>;

/// Looks `name` up from the innermost scope outwards.
pub open spec fn scopes_lookup(s: Scopes, name: Seq<char>) -> Option<TranslationSource>
    decreases s.len(),
{
    if s.len() == 0 {
        None
    } else if s.last().contains_key(name) {
        Some(s.last()[name])
    } else {
        scopes_lookup(s.drop_last(), name)
    }
}

/// Some scope other than the innermost one binds `name`.
pub open spec fn scopes_outer_has(s: Scopes, name: Seq<char>) -> bool {
    exists|i: int| 0 <= i < s.len() - 1 && #[trigger] s[i].contains_key(name)
}

/// The scopes after leaving the innermost one; the outermost scope is never left.
pub open spec fn scopes_exit(s: Scopes) -> Scopes {
    if s.len() > 1 { s.drop_last() } else { s }
}

/// Manages translation function bindings with a stack of scopes.
pub struct BindingContext {
    /// Stack of binding scopes (innermost last); only this module's
    /// methods change it, and they keep the global scope.
    bindings_stack: Vec<StrMap<TranslationSource>>,
}

impl BindingContext {
    /// The global scope is always there.
    #[verifier::type_invariant]
    spec fn keeps_global_scope(self) -> bool {
        self.bindings_stack@.len() >= 1
    }
}

/// A stack with only an empty global scope.
fn one_scope() -> (r: Vec<StrMap<TranslationSource>>)
    ensures
        r@.len() == 1,
        r@[0]@ == Map::<Seq<char>, TranslationSource>::empty(),
{
    let mut v = Vec::new();
    v.push(StrMap::new());
    v
}

impl View for BindingContext {
    type V = Scopes;

    closed spec fn view(&self) -> Scopes {
        self.bindings_stack@.map_values(|m: StrMap<TranslationSource>| m@)
    }
}

impl Default for BindingContext {
    fn default() -> (r: Self)
        ensures
            r@ == seq![Map::<Seq<char>, TranslationSource>::empty()],
    {
        Self::new()
    }
}

impl BindingContext {
    /// Creates a context with a single global scope.
    pub fn new() -> (r: Self)
        ensures
            r@ == seq![Map::<Seq<char>, TranslationSource>::empty()],
    {
        let mut v = Vec::new();
        v.push(StrMap::new());
        let r = BindingContext { bindings_stack: v };
        assert(r@ =~= seq![Map::<Seq<char>, TranslationSource>::empty()]);
        r
    }

    /// Number of scopes: at least the global one.
    pub fn depth(&self) -> (r: usize)
        ensures
            r == self@.len(),
            r >= 1,
    {
        proof { use_type_invariant(self); }
        self.bindings_stack.len()
    }

    /// Enters a new, empty scope (e.g., a function body).
    pub fn enter_scope(&mut self)
        ensures
            final(self)@ == old(self)@.push(Map::empty()),
            final(self)@.len() >= 2,
    {
        proof { use_type_invariant(&*self); }
        let ghost old_v = self@;
        let mut v = one_scope();
        std::mem::swap(&mut v, &mut self.bindings_stack);
        v.push(StrMap::new());
        self.bindings_stack = v;
        assert(self@ =~= old_v.push(Map::empty()));
    }

    /// Exits the innermost scope; the global scope is kept.
    pub fn exit_scope(&mut self)
        ensures
            old(self)@.len() >= 1,
            final(self)@ == scopes_exit(old(self)@),
            final(self)@.len() >= 1,
    {
        proof { use_type_invariant(&*self); }
        let ghost old_v = self@;
        if self.bindings_stack.len() > 1 {
            let mut v = one_scope();
            std::mem::swap(&mut v, &mut self.bindings_stack);
            v.pop();
            self.bindings_stack = v;
            assert(self@ =~= old_v.drop_last());
        }
    }

    /// Binds `name` in the innermost scope: a lookup of `name` then finds
    /// `source`; nothing else a lookup, the innermost scope or an outer
    /// scope says changes.
    pub fn insert_binding(&mut self, name: String, source: TranslationSource)
        ensures
            old(self)@.len() >= 1,
            final(self)@ == old(self)@.drop_last().push(old(self)@.last().insert(name@, source)),
            final(self)@.len() == old(self)@.len(),
            scopes_lookup(final(self)@, name@) == Some(source),
            final(self)@.last().contains_key(name@),
            forall|m: Seq<char>| m != name@ ==> #[trigger] scopes_lookup(final(self)@, m) == scopes_lookup(old(self)@, m),
            forall|m: Seq<char>| m != name@ ==> (#[trigger] final(self)@.last().contains_key(m)) == old(self)@.last().contains_key(m),
            forall|m: Seq<char>| #[trigger] scopes_outer_has(final(self)@, m) == scopes_outer_has(old(self)@, m),
    {
        proof { use_type_invariant(&*self); }
        let ghost old_v = self@;
        let ghost n = name@;
        let mut v = one_scope();
        std::mem::swap(&mut v, &mut self.bindings_stack);
        let mut scope = v.pop().unwrap();
        scope.insert(name, source);
        v.push(scope);
        self.bindings_stack = v;
        proof {
            assert(self@ =~= old_v.drop_last().push(old_v.last().insert(n, source)));
            law_insert_then_lookup(old_v, n, source);
            assert forall|m: Seq<char>| m != n implies #[trigger] scopes_lookup(self@, m) == scopes_lookup(old_v, m) by {
                law_insert_changes_only_name(old_v, n, source, m);
            }
            assert forall|m: Seq<char>| m != n implies (#[trigger] self@.last().contains_key(m)) == old_v.last().contains_key(m) by {
                law_insert_changes_only_name(old_v, n, source, m);
            }
            assert forall|m: Seq<char>| #[trigger] scopes_outer_has(self@, m) == scopes_outer_has(old_v, m) by {
                law_insert_changes_only_name(old_v, n, source, m);
            }
        }
    }

    /// Looks up a binding from the innermost to the outermost scope.
    pub fn get_binding(&self, name: &str) -> (r: Option<&TranslationSource>)
        ensures
            match r {
                Some(s) => scopes_lookup(self@, name@) == Some(*s),
                None => scopes_lookup(self@, name@) is None,
            },
            self@.len() >= 1,
    {
        proof { use_type_invariant(self); }
        let mut i = self.bindings_stack.len();
        assert(self@.take(i as int) =~= self@);
        while i > 0
            invariant
                i <= self@.len(),
                scopes_lookup(self@, name@) == scopes_lookup(self@.take(i as int), name@),
            decreases i,
        {
            proof {
                let t = self@.take(i as int);
                assert(t.drop_last() =~= self@.take(i - 1));
                assert(t.last() == self@[i - 1]);
            }
            match self.bindings_stack[i - 1].get(name) {
                Some(s) => { return Some(s); },
                None => {},
            }
            i = i - 1;
        }
        None
    }

    /// Whether `name` is bound in the innermost scope.
    pub fn is_in_current_scope(&self, name: &str) -> (r: bool)
        ensures
            r == (self@.len() > 0 && self@.last().contains_key(name@)),
            self@.len() >= 1,
    {
        proof { use_type_invariant(self); }
        let n = self.bindings_stack.len();
        if n == 0 {
            false
        } else {
            self.bindings_stack[n - 1].contains_key(name)
        }
    }

    /// Whether `name` is bound in a scope other than the innermost one.
    pub fn has_outer_binding(&self, name: &str) -> (r: bool)
        ensures
            r == scopes_outer_has(self@, name@),
            self@.len() >= 1,
    {
        proof { use_type_invariant(self); }
        let n = self.bindings_stack.len();
        if n == 0 {
            return false;
        }
        let mut i: usize = 0;
        while i < n - 1
            invariant
                n == self@.len(),
                i <= n - 1,
                forall|j: int| 0 <= j < i ==> !self@[j].contains_key(name@),
            decreases n - 1 - i,
        {
            if self.bindings_stack[i].contains_key(name) {
                assert(self@[i as int].contains_key(name@));
                return true;
            }
            i = i + 1;
        }
        false
    }
}

/// A binding made in the innermost scope is what a lookup of its name finds.
pub proof fn law_insert_then_lookup(s: Scopes, name: Seq<char>, src: TranslationSource)
    requires
        s.len() > 0,
    ensures
        scopes_lookup(s.drop_last().push(s.last().insert(name, src)), name) == Some(src),
{
    let t = s.drop_last().push(s.last().insert(name, src));
    assert(t.last() == s.last().insert(name, src));
}

/// Entering a scope and leaving it again restores the bindings.
pub proof fn law_enter_exit_restores(s: Scopes)
    requires
        s.len() > 0,
    ensures
        scopes_exit(s.push(Map::empty())) == s,
{
    assert(s.push(Map::empty()).drop_last() =~= s);
}

/// A fresh inner scope hides nothing: every lookup finds what it found before.
pub proof fn law_enter_keeps_lookups(s: Scopes, name: Seq<char>)
    ensures
        scopes_lookup(s.push(Map::empty()), name) == scopes_lookup(s, name),
{
    assert(s.push(Map::empty()).drop_last() =~= s);
}

/// Inside a new scope, every binding made before is an outer binding.
pub proof fn law_enter_makes_outer(s: Scopes, name: Seq<char>)
    requires
        s.len() > 0,
        s.last().contains_key(name),
    ensures
        scopes_outer_has(s.push(Map::empty()), name),
{
    let t = s.push(Map::empty());
    assert(t[s.len() - 1] == s.last());
    assert(t[s.len() - 1].contains_key(name));
}


/// Binding `name` changes no lookup of another name, nor whether the
/// innermost scope or an outer one binds another name; whether an outer
/// scope binds any name stays as it was.
pub proof fn law_insert_changes_only_name(s: Scopes, name: Seq<char>, src: TranslationSource, m: Seq<char>)
    requires
        s.len() > 0,
    ensures
        m != name ==> scopes_lookup(s.drop_last().push(s.last().insert(name, src)), m) == scopes_lookup(s, m),
        m != name ==> s.drop_last().push(s.last().insert(name, src)).last().contains_key(m) == s.last().contains_key(m),
        scopes_outer_has(s.drop_last().push(s.last().insert(name, src)), m) == scopes_outer_has(s, m),
{
    let t = s.drop_last().push(s.last().insert(name, src));
    assert(t.drop_last() =~= s.drop_last());
    if scopes_outer_has(s, m) {
        let i = choose|i: int| 0 <= i < s.len() - 1 && #[trigger] s[i].contains_key(m);
        assert(t[i] == s[i]);
    }
    if scopes_outer_has(t, m) {
        let i = choose|i: int| 0 <= i < t.len() - 1 && #[trigger] t[i].contains_key(m);
        assert(t[i] == s[i]);
    }
}

/// The scopes after a sequence of bindings, each made in the innermost scope.
pub open spec fn bind_all(s: Scopes, ops: Seq<(Seq<char>, TranslationSource)>) -> Scopes
    decreases ops.len(),
{
    if ops.len() == 0 || s.len() == 0 {
        s
    } else {
        let t = bind_all(s, ops.drop_last());
        t.drop_last().push(t.last().insert(ops.last().0, ops.last().1))
    }
}

proof fn lemma_bind_all_keeps_outer(s: Scopes, ops: Seq<(Seq<char>, TranslationSource)>)
    requires
        s.len() > 0,
    ensures
        bind_all(s, ops).len() == s.len(),
        bind_all(s, ops).drop_last() == s.drop_last(),
    decreases ops.len(),
{
    if ops.len() > 0 {
        lemma_bind_all_keeps_outer(s, ops.drop_last());
        let t = bind_all(s, ops.drop_last());
        assert(t.drop_last().push(t.last().insert(ops.last().0, ops.last().1)).drop_last() =~= t.drop_last());
    }
}

/// Entering a scope, binding any names in it, then leaving it, gives back
/// the scopes as they were: every lookup, and what the innermost scope binds.
pub proof fn law_enter_bind_exit_restores(s: Scopes, ops: Seq<(Seq<char>, TranslationSource)>)
    requires
        s.len() > 0,
    ensures
        scopes_exit(bind_all(s.push(Map::empty()), ops)) == s,
{
    lemma_bind_all_keeps_outer(s.push(Map::empty()), ops);
    assert(s.push(Map::empty()).drop_last() =~= s);
}

/// One step of a sequence of calls on a binding context.
pub enum BindingStep {
    Enter,
    Exit,
    Insert(Seq<char>, TranslationSource),
}

/// The scopes after the calls `steps`, from `s`.
pub open spec fn run_steps(s: Scopes, steps: Seq<BindingStep>) -> Scopes
    decreases steps.len(),
{
    if steps.len() == 0 {
        s
    } else {
        let t = run_steps(s, steps.drop_last());
        match steps.last() {
            BindingStep::Enter => t.push(Map::empty()),
            BindingStep::Exit => scopes_exit(t),
            BindingStep::Insert(n, src) => if t.len() == 0 { t } else { t.drop_last().push(t.last().insert(n, src)) },
        }
    }
}

/// The same calls, kept as the list of bindings made in each scope still open.
pub open spec fn run_frames(f: Seq<Seq<(Seq<char>, TranslationSource)>>, steps: Seq<BindingStep>) -> Seq<Seq<(Seq<char>, TranslationSource)>>
    decreases steps.len(),
{
    if steps.len() == 0 {
        f
    } else {
        let t = run_frames(f, steps.drop_last());
        match steps.last() {
            BindingStep::Enter => t.push(Seq::empty()),
            BindingStep::Exit => if t.len() > 1 { t.drop_last() } else { t },
            BindingStep::Insert(n, src) => if t.len() == 0 { t } else { t.drop_last().push(t.last().push((n, src))) },
        }
    }
}

/// The most recent binding of `name` in a list of bindings.
pub open spec fn last_binding(l: Seq<(Seq<char>, TranslationSource)>, name: Seq<char>) -> Option<TranslationSource>
    decreases l.len(),
{
    if l.len() == 0 {
        None
    } else if l.last().0 == name {
        Some(l.last().1)
    } else {
        last_binding(l.drop_last(), name)
    }
}

/// The most recent binding of `name` made in a scope still open, the
/// innermost scope first.
pub open spec fn frames_lookup(f: Seq<Seq<(Seq<char>, TranslationSource)>>, name: Seq<char>) -> Option<TranslationSource>
    decreases f.len(),
{
    if f.len() == 0 {
        None
    } else {
        match last_binding(f.last(), name) {
            Some(src) => Some(src),
            None => frames_lookup(f.drop_last(), name),
        }
    }
}

/// The map a list of bindings leaves.
pub open spec fn frame_map(l: Seq<(Seq<char>, TranslationSource)>) -> Map<Seq<char>, TranslationSource>
    decreases l.len(),
{
    if l.len() == 0 {
        Map::empty()
    } else {
        frame_map(l.drop_last()).insert(l.last().0, l.last().1)
    }
}

proof fn lemma_frame_map(l: Seq<(Seq<char>, TranslationSource)>, name: Seq<char>)
    ensures
        frame_map(l).contains_key(name) == (last_binding(l, name) is Some),
        frame_map(l).contains_key(name) ==> Some(frame_map(l)[name]) == last_binding(l, name),
    decreases l.len(),
{
    if l.len() > 0 {
        lemma_frame_map(l.drop_last(), name);
    }
}

proof fn lemma_frames_lookup(f: Seq<Seq<(Seq<char>, TranslationSource)>>, name: Seq<char>)
    ensures
        scopes_lookup(f.map_values(|l: Seq<(Seq<char>, TranslationSource)>| frame_map(l)), name) == frames_lookup(f, name),
    decreases f.len(),
{
    let sv = f.map_values(|l: Seq<(Seq<char>, TranslationSource)>| frame_map(l));
    if f.len() > 0 {
        lemma_frame_map(f.last(), name);
        assert(sv.drop_last() =~= f.drop_last().map_values(|l: Seq<(Seq<char>, TranslationSource)>| frame_map(l)));
        lemma_frames_lookup(f.drop_last(), name);
    }
}

proof fn lemma_run_frames(steps: Seq<BindingStep>)
    ensures
        run_steps(seq![Map::empty()], steps)
            == run_frames(seq![Seq::empty()], steps).map_values(|l: Seq<(Seq<char>, TranslationSource)>| frame_map(l)),
        run_frames(seq![Seq::empty()], steps).len() >= 1,
    decreases steps.len(),
{
    let f0 = seq![Seq::<(Seq<char>, TranslationSource)>::empty()];
    if steps.len() == 0 {
        assert(f0.map_values(|l: Seq<(Seq<char>, TranslationSource)>| frame_map(l)) =~= seq![Map::<Seq<char>, TranslationSource>::empty()]);
    } else {
        lemma_run_frames(steps.drop_last());
        let t = run_frames(f0, steps.drop_last());
        let tv = t.map_values(|l: Seq<(Seq<char>, TranslationSource)>| frame_map(l));
        match steps.last() {
            BindingStep::Enter => {
                assert(t.push(Seq::empty()).map_values(|l: Seq<(Seq<char>, TranslationSource)>| frame_map(l)) =~= tv.push(Map::empty()));
            },
            BindingStep::Exit => {
                if t.len() > 1 {
                    assert(t.drop_last().map_values(|l: Seq<(Seq<char>, TranslationSource)>| frame_map(l)) =~= tv.drop_last());
                }
            },
            BindingStep::Insert(n, src) => {
                let t2 = t.drop_last().push(t.last().push((n, src)));
                assert(t2.last().drop_last() =~= t.last());
                assert(t2.map_values(|l: Seq<(Seq<char>, TranslationSource)>| frame_map(l))
                    =~= tv.drop_last().push(tv.last().insert(n, src)));
            },
        }
    }
}

/// After any sequence of calls from a new context, a lookup of `name` finds
/// the source of the most recent binding of `name` made in a scope that is
/// still open, an inner scope before an outer one, or nothing.
pub proof fn law_lookup_after_steps(steps: Seq<BindingStep>, name: Seq<char>)
    ensures
        scopes_lookup(run_steps(seq![Map::empty()], steps), name)
            == frames_lookup(run_frames(seq![Seq::empty()], steps), name),
        run_steps(seq![Map::empty()], steps).len() >= 1,
{
    lemma_run_frames(steps);
    lemma_frames_lookup(run_frames(seq![Seq::empty()], steps), name);
}

} // verus!
