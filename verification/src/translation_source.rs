//! How a translation function binding was obtained.

use vstd::prelude::*;
use crate::text::{clone_opt_string, clone_opt_strings};

verus! {

/// Source of a translation function binding.
#[derive(Debug)]
pub enum TranslationSource {
    /// Direct binding: `const t = useTranslations("Namespace")`.
    Direct { namespace: Option<String> },
    /// From props: `function Component({ t }: Props)`; one namespace per call site.
    FromProps { namespaces: Vec<Option<String>> },
    /// From a function call argument: `const labels = (t) => ...; labels(t)`.
    FromFnCall { namespaces: Vec<Option<String>> },
    /// A parameter that shadows an outer translation binding; never tracked.
    Shadowed,
}

impl TranslationSource {
    /// All possible namespaces of the binding.
    pub open spec fn spec_namespaces(self) -> Seq<Option<String>> {
        match self {
            TranslationSource::Direct { namespace } => seq![namespace],
            TranslationSource::FromProps { namespaces } => namespaces@,
            TranslationSource::FromFnCall { namespaces } => namespaces@,
            TranslationSource::Shadowed => Seq::empty(),
        }
    }

    /// The namespace of a direct binding; none for the other sources.
    pub open spec fn spec_primary_namespace(self) -> Option<String> {
        match self {
            TranslationSource::Direct { namespace } => namespace,
            _ => None,
        }
    }

    pub open spec fn spec_is_indirect(self) -> bool {
        self is FromProps || self is FromFnCall
    }

    /// Returns true if this is a shadowed binding (should not be tracked).
    pub fn is_shadowed(&self) -> (r: bool)
        ensures
            r == (*self is Shadowed),
    {
        match self {
            TranslationSource::Shadowed => true,
            _ => false,
        }
    }

    /// Returns true if this is an indirect source (props or function call).
    pub fn is_indirect(&self) -> (r: bool)
        ensures
            r == self.spec_is_indirect(),
    {
        match self {
            TranslationSource::FromProps { .. } => true,
            TranslationSource::FromFnCall { .. } => true,
            _ => false,
        }
    }

    /// Gets all possible namespaces: one for a direct binding, one per call
    /// site for props and function arguments, none for a shadowed binding.
    pub fn namespaces(&self) -> (r: Vec<Option<String>>)
        ensures
            r@ == self.spec_namespaces(),
    {
        match self {
            TranslationSource::Direct { namespace } => {
                let mut v = Vec::new();
                v.push(clone_opt_string(namespace));
                assert(v@ =~= seq![*namespace]);
                v
            },
            TranslationSource::FromProps { namespaces } => clone_opt_strings(namespaces),
            TranslationSource::FromFnCall { namespaces } => clone_opt_strings(namespaces),
            TranslationSource::Shadowed => Vec::new(),
        }
    }

    /// Gets the namespace of a direct binding; `None` for the other sources.
    pub fn primary_namespace(&self) -> (r: Option<String>)
        ensures
            r == self.spec_primary_namespace(),
    {
        match self {
            TranslationSource::Direct { namespace } => clone_opt_string(namespace),
            _ => None,
        }
    }

    /// Same kind of source with the same namespaces.
    pub open spec fn same_as(self, other: Self) -> bool {
        &&& (self is Direct) == (other is Direct)
        &&& (self is FromProps) == (other is FromProps)
        &&& (self is FromFnCall) == (other is FromFnCall)
        &&& (self is Shadowed) == (other is Shadowed)
        &&& self.spec_namespaces() == other.spec_namespaces()
    }

    /// A copy of the source.
    pub fn duplicate(&self) -> (r: Self)
        ensures
            r.same_as(*self),
    {
        match self {
            TranslationSource::Direct { namespace } => TranslationSource::Direct { namespace: clone_opt_string(namespace) },
            TranslationSource::FromProps { namespaces } => TranslationSource::FromProps { namespaces: clone_opt_strings(namespaces) },
            TranslationSource::FromFnCall { namespaces } => TranslationSource::FromFnCall { namespaces: clone_opt_strings(namespaces) },
            TranslationSource::Shadowed => TranslationSource::Shadowed,
        }
    }
}

impl Clone for TranslationSource {
    fn clone(&self) -> (r: Self)
        ensures
            r.same_as(*self),
    {
        self.duplicate()
    }
}

} // verus!
