//! The values that a translation key expression can stand for.

use vstd::prelude::*;
use crate::text::{clone_strings, concat3, decimal, push_text, strs_view, text, usize_text};

verus! {

/// Represents the possible values an expression can resolve to.
#[derive(Debug)]
pub enum ValueSource {
    /// A known static string literal: `"keyA"`
    Literal(String),
    /// A template literal: `` `prefix.${inner}.suffix` ``
    Template { prefix: String, suffix: String, inner: Box<ValueSource> },
    /// A conditional expression: `cond ? a : b`
    Conditional { consequent: Box<ValueSource>, alternate: Box<ValueSource> },
    /// Object property access: `obj[key]` resolves to all values of the object.
    ObjectAccess { object_name: String, candidate_values: Vec<String> },
    /// Array iteration accessing a property: `arr.map(item => item.prop)`
    ArrayIteration { array_name: String, property_name: String, candidate_values: Vec<String> },
    /// String array element: `KEYS.map(k => k)` or `KEYS[0]`
    StringArrayElement { array_name: String, candidate_values: Vec<String> },
    /// Cannot resolve - the expression is truly dynamic.
    Unresolvable { reason: UnresolvableReason },
}

/// Reasons why a value source cannot be resolved.
#[derive(Debug, PartialEq)]
pub enum UnresolvableReason {
    /// Variable comes from an unknown source (e.g., function parameters, props).
    UnknownVariable(String),
    /// Referenced object is not in the registry.
    UnknownObject(String),
    /// Referenced array is not in the registry.
    UnknownArray(String),
    /// Template has several expressions; holds their number.
    ComplexTemplate { expr_count: usize },
    /// Expression type is not supported for analysis.
    UnsupportedExpression { expr_type: String },
}

impl UnresolvableReason {
    /// A copy of the reason.
    pub fn duplicate(&self) -> (r: Self)
        ensures
            r == *self,
    {
        match self {
            UnresolvableReason::UnknownVariable(s) => UnresolvableReason::UnknownVariable(s.clone()),
            UnresolvableReason::UnknownObject(s) => UnresolvableReason::UnknownObject(s.clone()),
            UnresolvableReason::UnknownArray(s) => UnresolvableReason::UnknownArray(s.clone()),
            UnresolvableReason::ComplexTemplate { expr_count } => UnresolvableReason::ComplexTemplate { expr_count: *expr_count },
            UnresolvableReason::UnsupportedExpression { expr_type } => UnresolvableReason::UnsupportedExpression { expr_type: expr_type.clone() },
        }
    }
}

impl Clone for UnresolvableReason {
    fn clone(&self) -> (r: Self)
        ensures
            r == *self,
    {
        self.duplicate()
    }
}

/// The mathematical value of a value source.
pub enum SourceView {
    Literal(Seq<char>),
    Template { prefix: Seq<char>, suffix: Seq<char>, inner: Box<SourceView> },
    Conditional { consequent: Box<SourceView>, alternate: Box<SourceView> },
    ObjectAccess { object_name: Seq<char>, candidate_values: Seq<Seq<char>> },
    ArrayIteration { array_name: Seq<char>, property_name: Seq<char>, candidate_values: Seq<Seq<char>> },
    StringArrayElement { array_name: Seq<char>, candidate_values: Seq<Seq<char>> },
    Unresolvable { reason: ReasonView },
}

/// The mathematical value of an unresolvable reason.
pub enum ReasonView {
    UnknownVariable(Seq<char>),
    UnknownObject(Seq<char>),
    UnknownArray(Seq<char>),
    ComplexTemplate { expr_count: usize },
    UnsupportedExpression { expr_type: Seq<char> },
}

pub open spec fn reason_view(r: UnresolvableReason) -> ReasonView {
    match r {
        UnresolvableReason::UnknownVariable(s) => ReasonView::UnknownVariable(s@),
        UnresolvableReason::UnknownObject(s) => ReasonView::UnknownObject(s@),
        UnresolvableReason::UnknownArray(s) => ReasonView::UnknownArray(s@),
        UnresolvableReason::ComplexTemplate { expr_count } => ReasonView::ComplexTemplate { expr_count },
        UnresolvableReason::UnsupportedExpression { expr_type } => ReasonView::UnsupportedExpression { expr_type: expr_type@ },
    }
}

/// All keys a source view stands for, or the first reason it cannot be resolved.
pub open spec fn view_resolve(v: SourceView) -> Result<Seq<Seq<char>>, ReasonView>
    decreases v,
{
    match v {
        SourceView::Literal(s) => Ok(seq![s]),
        SourceView::Template { prefix, suffix, inner } => match view_resolve(*inner) {
            Ok(keys) => Ok(wrap_all(prefix, keys, suffix)),
            Err(r) => Err(r),
        },
        SourceView::Conditional { consequent, alternate } => match view_resolve(*consequent) {
            Ok(a) => match view_resolve(*alternate) {
                Ok(b) => Ok(a + b),
                Err(r) => Err(r),
            },
            Err(r) => Err(r),
        },
        SourceView::ObjectAccess { candidate_values, .. } => Ok(candidate_values),
        SourceView::ArrayIteration { candidate_values, .. } => Ok(candidate_values),
        SourceView::StringArrayElement { candidate_values, .. } => Ok(candidate_values),
        SourceView::Unresolvable { reason } => Err(reason),
    }
}

/// Resolving a value source is resolving its view.
pub proof fn lemma_resolve_view(v: ValueSource)
    ensures
        spec_resolve(v) is Ok <==> view_resolve(source_view(v)) is Ok,
        spec_resolve(v) is Ok ==> spec_resolve(v)->Ok_0 == view_resolve(source_view(v))->Ok_0,
    decreases v,
{
    match v {
        ValueSource::Template { inner, .. } => { lemma_resolve_view(*inner); },
        ValueSource::Conditional { consequent, alternate } => {
            lemma_resolve_view(*consequent);
            lemma_resolve_view(*alternate);
        },
        _ => {},
    }
}

/// The mathematical value of a value source.
pub open spec fn source_view(v: ValueSource) -> SourceView
    decreases v,
{
    match v {
        ValueSource::Literal(s) => SourceView::Literal(s@),
        ValueSource::Template { prefix, suffix, inner } =>
            SourceView::Template { prefix: prefix@, suffix: suffix@, inner: Box::new(source_view(*inner)) },
        ValueSource::Conditional { consequent, alternate } =>
            SourceView::Conditional { consequent: Box::new(source_view(*consequent)), alternate: Box::new(source_view(*alternate)) },
        ValueSource::ObjectAccess { object_name, candidate_values } =>
            SourceView::ObjectAccess { object_name: object_name@, candidate_values: strs_view(candidate_values@) },
        ValueSource::ArrayIteration { array_name, property_name, candidate_values } =>
            SourceView::ArrayIteration { array_name: array_name@, property_name: property_name@, candidate_values: strs_view(candidate_values@) },
        ValueSource::StringArrayElement { array_name, candidate_values } =>
            SourceView::StringArrayElement { array_name: array_name@, candidate_values: strs_view(candidate_values@) },
        ValueSource::Unresolvable { reason } => SourceView::Unresolvable { reason: reason_view(reason) },
    }
}

impl Clone for ValueSource {
    fn clone(&self) -> (r: Self)
        ensures
            source_view(r) == source_view(*self),
    {
        self.duplicate()
    }
}

/// Result of analyzing the key argument of one `t(...)` call.
#[derive(Debug)]
pub struct ResolvedKey {
    pub file_path: String,
    pub line: usize,
    pub col: usize,
    pub source_line: String,
    pub namespace: Option<String>,
    pub source: ValueSource,
}

/// Each candidate key wrapped in a prefix and a suffix.
pub open spec fn wrap_all(prefix: Seq<char>, keys: Seq<Seq<char>>, suffix: Seq<char>) -> Seq<Seq<char>> {
    keys.map_values(|k: Seq<char>| prefix + k + suffix)
}

/// All keys a value source stands for, or the first reason it cannot be resolved.
pub open spec fn spec_resolve(v: ValueSource) -> Result<Seq<Seq<char>>, UnresolvableReason>
    decreases v,
{
    match v {
        ValueSource::Literal(s) => Ok(seq![s@]),
        ValueSource::Template { prefix, suffix, inner } => match spec_resolve(*inner) {
            Ok(keys) => Ok(wrap_all(prefix@, keys, suffix@)),
            Err(r) => Err(r),
        },
        ValueSource::Conditional { consequent, alternate } => match spec_resolve(*consequent) {
            Ok(a) => match spec_resolve(*alternate) {
                Ok(b) => Ok(a + b),
                Err(r) => Err(r),
            },
            Err(r) => Err(r),
        },
        ValueSource::ObjectAccess { candidate_values, .. } => Ok(strs_view(candidate_values@)),
        ValueSource::ArrayIteration { candidate_values, .. } => Ok(strs_view(candidate_values@)),
        ValueSource::StringArrayElement { candidate_values, .. } => Ok(strs_view(candidate_values@)),
        ValueSource::Unresolvable { reason } => Err(reason),
    }
}

/// Views of a list of strings coming out of `resolve_keys`.
pub open spec fn result_view(r: Result<Vec<String>, UnresolvableReason>) -> Result<Seq<Seq<char>>, UnresolvableReason> {
    match r {
        Ok(v) => Ok(strs_view(v@)),
        Err(e) => Err(e),
    }
}

fn wrap_keys(prefix: &String, keys: Vec<String>, suffix: &String) -> (r: Vec<String>)
    ensures
        strs_view(r@) == wrap_all(prefix@, strs_view(keys@), suffix@),
{
    let mut r: Vec<String> = Vec::new();
    let mut i: usize = 0;
    while i < keys.len()
        invariant
            i <= keys@.len(),
            strs_view(r@) == wrap_all(prefix@, strs_view(keys@.take(i as int)), suffix@),
        decreases keys@.len() - i,
    {
        let k = concat3(prefix.as_str(), keys[i].as_str(), suffix.as_str());
        let ghost old_r = r@;
        r.push(k);
        proof {
            let t0 = keys@.take(i as int);
            let t1 = keys@.take(i + 1);
            assert(t1 == t0.push(keys@[i as int]));
            assert(strs_view(t1) =~= strs_view(t0).push(keys@[i as int]@));
            assert(strs_view(r@) =~= strs_view(old_r).push(k@));
            assert(wrap_all(prefix@, strs_view(t1), suffix@) =~= wrap_all(prefix@, strs_view(t0), suffix@).push(prefix@ + keys@[i as int]@ + suffix@));
        }
        i = i + 1;
    }
    assert(keys@.take(keys@.len() as int) == keys@);
    r
}

impl ValueSource {
    /// A copy of the value source.
    pub fn duplicate(&self) -> (r: Self)
        ensures
            source_view(r) == source_view(*self),
        decreases self,
    {
        match self {
            ValueSource::Literal(s) => ValueSource::Literal(s.clone()),
            ValueSource::Template { prefix, suffix, inner } =>
                ValueSource::Template { prefix: prefix.clone(), suffix: suffix.clone(), inner: Box::new(inner.duplicate()) },
            ValueSource::Conditional { consequent, alternate } =>
                ValueSource::Conditional { consequent: Box::new(consequent.duplicate()), alternate: Box::new(alternate.duplicate()) },
            ValueSource::ObjectAccess { object_name, candidate_values } =>
                ValueSource::ObjectAccess { object_name: object_name.clone(), candidate_values: clone_strings(candidate_values) },
            ValueSource::ArrayIteration { array_name, property_name, candidate_values } =>
                ValueSource::ArrayIteration { array_name: array_name.clone(), property_name: property_name.clone(), candidate_values: clone_strings(candidate_values) },
            ValueSource::StringArrayElement { array_name, candidate_values } =>
                ValueSource::StringArrayElement { array_name: array_name.clone(), candidate_values: clone_strings(candidate_values) },
            ValueSource::Unresolvable { reason } => ValueSource::Unresolvable { reason: reason.duplicate() },
        }
    }

    /// Flattens the value source into all possible string keys.
    ///
    /// A conditional resolves only if both branches do; its keys are the
    /// consequent's followed by the alternate's.
    pub fn resolve_keys(&self) -> (r: Result<Vec<String>, UnresolvableReason>)
        ensures
            result_view(r) == spec_resolve(*self),
        decreases self,
    {
        match self {
            ValueSource::Literal(s) => {
                let mut v = Vec::new();
                v.push(s.clone());
                assert(strs_view(v@) =~= seq![s@]);
                Ok(v)
            },
            ValueSource::Template { prefix, suffix, inner } => {
                match inner.resolve_keys() {
                    Ok(keys) => Ok(wrap_keys(prefix, keys, suffix)),
                    Err(e) => Err(e),
                }
            },
            ValueSource::Conditional { consequent, alternate } => {
                let c = consequent.resolve_keys();
                let a = alternate.resolve_keys();
                match c {
                    Ok(mut ck) => match a {
                        Ok(mut ak) => {
                            let ghost cv = ck@;
                            let ghost av = ak@;
                            ck.append(&mut ak);
                            assert(strs_view(ck@) =~= strs_view(cv) + strs_view(av));
                            Ok(ck)
                        },
                        Err(e) => Err(e),
                    },
                    Err(e) => Err(e),
                }
            },
            ValueSource::ObjectAccess { candidate_values, .. } => Ok(clone_strings(candidate_values)),
            ValueSource::ArrayIteration { candidate_values, .. } => Ok(clone_strings(candidate_values)),
            ValueSource::StringArrayElement { candidate_values, .. } => Ok(clone_strings(candidate_values)),
            ValueSource::Unresolvable { reason } => Err(reason.duplicate()),
        }
    }

    /// Human-readable description of the value source for messages.
    pub open spec fn spec_description(self) -> Seq<char> {
        match self {
            ValueSource::Literal(s) => "literal \""@ + s@ + "\""@,
            ValueSource::Template { .. } => "template"@,
            ValueSource::Conditional { .. } => "conditional"@,
            ValueSource::ObjectAccess { object_name, .. } => "object \""@ + object_name@ + "\""@,
            ValueSource::ArrayIteration { array_name, property_name, .. } =>
                "array \""@ + array_name@ + "."@ + property_name@ + "\""@,
            ValueSource::StringArrayElement { array_name, .. } => "array \""@ + array_name@ + "\""@,
            ValueSource::Unresolvable { reason } => match reason {
                UnresolvableReason::UnknownVariable(v) => "unknown variable \""@ + v@ + "\""@,
                UnresolvableReason::UnknownObject(o) => "unknown object \""@ + o@ + "\""@,
                UnresolvableReason::UnknownArray(a) => "unknown array \""@ + a@ + "\""@,
                UnresolvableReason::ComplexTemplate { expr_count } =>
                    "complex template with "@ + decimal(expr_count as nat) + " expressions"@,
                UnresolvableReason::UnsupportedExpression { expr_type } =>
                    "unsupported expression: "@ + expr_type@,
            },
        }
    }

    /// Gets a human-readable description of the value source for messages.
    pub fn source_description(&self) -> (r: String)
        ensures
            r@ == self.spec_description(),
    {
        match self {
            ValueSource::Literal(s) => concat3("literal \"", s.as_str(), "\""),
            ValueSource::Template { .. } => text("template"),
            ValueSource::Conditional { .. } => text("conditional"),
            ValueSource::ObjectAccess { object_name, .. } => concat3("object \"", object_name.as_str(), "\""),
            ValueSource::ArrayIteration { array_name, property_name, .. } => {
                let mut r = concat3("array \"", array_name.as_str(), ".");
                push_text(&mut r, property_name.as_str());
                push_text(&mut r, "\"");
                r
            },
            ValueSource::StringArrayElement { array_name, .. } => concat3("array \"", array_name.as_str(), "\""),
            ValueSource::Unresolvable { reason } => match reason {
                UnresolvableReason::UnknownVariable(v) => concat3("unknown variable \"", v.as_str(), "\""),
                UnresolvableReason::UnknownObject(o) => concat3("unknown object \"", o.as_str(), "\""),
                UnresolvableReason::UnknownArray(a) => concat3("unknown array \"", a.as_str(), "\""),
                UnresolvableReason::ComplexTemplate { expr_count } => {
                    let n = usize_text(*expr_count);
                    concat3("complex template with ", n.as_str(), " expressions")
                },
                UnresolvableReason::UnsupportedExpression { expr_type } => {
                    let mut r = text("unsupported expression: ");
                    push_text(&mut r, expr_type.as_str());
                    r
                },
            },
        }
    }
}

} // verus!
