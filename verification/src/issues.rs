//! The issues the checks report, and what a report says of each.

use vstd::prelude::*;
use crate::context::{LocaleTypeMismatch, MessageContext, SourceContext, ValueType};
use crate::text::{IntoText, concat3, push_text, strs_view, text};

verus! {

/// The rule an issue belongs to.
#[derive(Debug, Clone, Copy, PartialEq, Eq, Structural)]
pub enum Rule {
    HardcodedText,
    MissingKey,
    UnusedKey,
    OrphanKey,
    ReplicaLag,
    Untranslated,
    TypeMismatch,
    UnresolvedKey,
    ParseError,
}

impl Rule {
    /// The rule's name as written in reports and directives.
    pub open spec fn spec_name(self) -> Seq<char> {
        match self {
            Rule::HardcodedText => "hardcoded"@,
            Rule::MissingKey => "missing-key"@,
            Rule::UnusedKey => "unused-key"@,
            Rule::OrphanKey => "orphan-key"@,
            Rule::ReplicaLag => "replica-lag"@,
            Rule::Untranslated => "untranslated"@,
            Rule::TypeMismatch => "type-mismatch"@,
            Rule::UnresolvedKey => "unresolved-key"@,
            Rule::ParseError => "parse-error"@,
        }
    }

    /// Renders the rule's name.
    pub fn to_string(&self) -> (r: String)
        ensures
            r@ == self.spec_name(),
    {
        match self {
            Rule::HardcodedText => text("hardcoded"),
            Rule::MissingKey => text("missing-key"),
            Rule::UnusedKey => text("unused-key"),
            Rule::OrphanKey => text("orphan-key"),
            Rule::ReplicaLag => text("replica-lag"),
            Rule::Untranslated => text("untranslated"),
            Rule::TypeMismatch => text("type-mismatch"),
            Rule::UnresolvedKey => text("unresolved-key"),
            Rule::ParseError => text("parse-error"),
        }
    }
}

/// How serious an issue is.
#[derive(Debug, Clone, Copy, PartialEq, Eq, Structural)]
pub enum Severity {
    Error,
    Warning,
}

/// A fully qualified translation key (`Namespace.key`).
#[derive(Debug, Clone, PartialEq, Eq)]
pub struct FullKey {
    pub key: String,
}

impl FullKey {
    pub fn new<S: IntoText>(key: S) -> (r: Self)
        ensures
            r.key@ == key.text_view(),
    {
        FullKey { key: key.into_text() }
    }

    pub fn as_str(&self) -> (r: &str)
        ensures
            r@ == self.key@,
    {
        self.key.as_str()
    }
}

/// A place in code that uses a key.
#[derive(Debug, Clone)]
pub struct ResolvedKeyUsage {
    pub key: FullKey,
    pub context: SourceContext,
    /// Rules that a comment at the usage switches off.
    pub suppressed_rules: Vec<Rule>,
    /// The schema function (and its file) the key comes from.
    pub from_schema: Option<(String, String)>,
}

/// Text in JSX that is not translated.
#[derive(Debug, Clone)]
pub struct HardcodedTextIssue {
    pub context: SourceContext,
    pub text: String,
}

/// A key used in code but missing from the primary locale.
#[derive(Debug, Clone)]
pub struct MissingKeyIssue {
    pub context: SourceContext,
    pub key: String,
    /// The schema function (and its file) the key comes from.
    pub from_schema: Option<(String, String)>,
}

/// A key of the primary locale that no code uses.
#[derive(Debug, Clone)]
pub struct UnusedKeyIssue {
    pub context: MessageContext,
}

/// A key of another locale that the primary locale lacks.
#[derive(Debug, Clone)]
pub struct OrphanKeyIssue {
    pub context: MessageContext,
    pub locale: String,
}

/// A used key of the primary locale that other locales lack.
#[derive(Debug, Clone)]
pub struct ReplicaLagIssue {
    pub context: MessageContext,
    pub primary_locale: String,
    pub missing_in: Vec<String>,
    pub usages: Vec<ResolvedKeyUsage>,
}

/// A value of other locales identical to the primary locale's.
#[derive(Debug, Clone)]
pub struct UntranslatedIssue {
    pub context: MessageContext,
    pub primary_locale: String,
    pub identical_in: Vec<String>,
    pub usages: Vec<ResolvedKeyUsage>,
}

/// A value whose type differs between locales.
#[derive(Debug, Clone)]
pub struct TypeMismatchIssue {
    pub context: MessageContext,
    pub expected_type: ValueType,
    pub primary_locale: String,
    pub mismatched_in: Vec<LocaleTypeMismatch>,
    pub usages: Vec<ResolvedKeyUsage>,
}

/// Why a key could not be resolved.
#[derive(Debug, Clone, PartialEq, Eq)]
pub enum IssueUnresolvedKeyReason {
    VariableKey,
    TemplateWithExpr,
    UnknownNamespace { schema_name: String },
}

impl IssueUnresolvedKeyReason {
    pub open spec fn spec_text(self) -> Seq<char> {
        match self {
            IssueUnresolvedKeyReason::VariableKey => "variable key"@,
            IssueUnresolvedKeyReason::TemplateWithExpr => "template with expression"@,
            IssueUnresolvedKeyReason::UnknownNamespace { schema_name } =>
                "unknown namespace for schema '"@ + schema_name@ + "'"@,
        }
    }

    /// Describes the reason.
    pub fn to_string(&self) -> (r: String)
        ensures
            r@ == self.spec_text(),
    {
        match self {
            IssueUnresolvedKeyReason::VariableKey => text("variable key"),
            IssueUnresolvedKeyReason::TemplateWithExpr => text("template with expression"),
            IssueUnresolvedKeyReason::UnknownNamespace { schema_name } =>
                concat3("unknown namespace for schema '", schema_name.as_str(), "'"),
        }
    }
}

/// A key that is computed and could not be resolved.
#[derive(Debug, Clone)]
pub struct UnresolvedKeyIssue {
    pub context: SourceContext,
    pub reason: IssueUnresolvedKeyReason,
    pub hint: Option<String>,
    /// A pattern for a `glot-message-keys` annotation, when one can be inferred.
    pub pattern: Option<String>,
}

/// A file that could not be parsed.
#[derive(Debug, Clone)]
pub struct ParseErrorIssue {
    pub file_path: String,
    pub error: String,
}

/// Any issue a check reports.
#[derive(Debug, Clone)]
pub enum Issue {
    HardcodedText(HardcodedTextIssue),
    MissingKey(MissingKeyIssue),
    UnusedKey(UnusedKeyIssue),
    OrphanKey(OrphanKeyIssue),
    ReplicaLag(ReplicaLagIssue),
    Untranslated(UntranslatedIssue),
    TypeMismatch(TypeMismatchIssue),
    UnresolvedKey(UnresolvedKeyIssue),
    ParseError(ParseErrorIssue),
}

/// Strings joined with `, `.
pub open spec fn comma_joined(v: Seq<Seq<char>>) -> Seq<char>
    decreases v.len(),
{
    if v.len() == 0 {
        Seq::empty()
    } else if v.len() == 1 {
        v[0]
    } else {
        comma_joined(v.drop_last()) + ", "@ + v.last()
    }
}

/// Joins strings with `, `.
pub fn join_commas(v: &Vec<String>) -> (r: String)
    ensures
        r@ == comma_joined(strs_view(v@)),
{
    let mut r = String::new();
    let mut i: usize = 0;
    while i < v.len()
        invariant
            i <= v@.len(),
            r@ == comma_joined(strs_view(v@.take(i as int))),
        decreases v@.len() - i,
    {
        proof {
            let t = strs_view(v@.take(i + 1));
            assert(t.drop_last() =~= strs_view(v@.take(i as int)));
            assert(t.last() == v@[i as int]@);
        }
        if i > 0 {
            push_text(&mut r, ", ");
        }
        push_text(&mut r, v[i].as_str());
        proof {
            if i == 0 {
                assert(r@ =~= comma_joined(strs_view(v@.take(1))));
            }
        }
        i = i + 1;
    }
    assert(v@.take(v@.len() as int) =~= v@);
    r
}

/// `locale (type)`, the way a type mismatch names one locale.
pub open spec fn mismatch_text(m: LocaleTypeMismatch) -> Seq<char> {
    m.locale@ + " ("@ + m.actual_type.spec_name() + ")"@
}

pub open spec fn mismatches_text(v: Seq<LocaleTypeMismatch>) -> Seq<Seq<char>> {
    v.map_values(|m: LocaleTypeMismatch| mismatch_text(m))
}

/// Where an issue is: file, line, column, and the source line when it is in code.
pub struct IssueLocation {
    pub file_path: String,
    pub line: usize,
    pub col: usize,
    pub source_line: Option<String>,
}

impl Issue {
    /// What the issue is about: the text, the key, the reason or the error.
    pub open spec fn spec_message(self) -> Seq<char> {
        match self {
            Issue::HardcodedText(i) => i.text@,
            Issue::MissingKey(i) => i.key@,
            Issue::UnusedKey(i) => i.context.key@,
            Issue::OrphanKey(i) => i.context.key@,
            Issue::ReplicaLag(i) => i.context.key@,
            Issue::Untranslated(i) => i.context.key@,
            Issue::TypeMismatch(i) => i.context.key@,
            Issue::UnresolvedKey(i) => i.reason.spec_text(),
            Issue::ParseError(i) => i.error@,
        }
    }

    /// The note a report adds to the issue.
    pub open spec fn spec_details(self) -> Option<Seq<char>> {
        match self {
            Issue::MissingKey(i) => match i.from_schema {
                Some(s) => Some("from "@ + s.0@ + " ("@ + s.1@ + ")"@),
                None => None,
            },
            Issue::UnusedKey(i) => Some("(\""@ + i.context.value@ + "\")"@),
            Issue::OrphanKey(i) => Some("in "@ + i.locale@ + " (\""@ + i.context.value@ + "\")"@),
            Issue::ReplicaLag(i) => Some("missing in: "@ + comma_joined(strs_view(i.missing_in@))),
            Issue::Untranslated(i) => Some("identical in: "@ + comma_joined(strs_view(i.identical_in@))),
            Issue::TypeMismatch(i) => Some("expected "@ + i.expected_type.spec_name() + " (as in "@
                + i.primary_locale@ + "), found: "@ + comma_joined(mismatches_text(i.mismatched_in@))),
            _ => None,
        }
    }

    /// The hint a report adds to the issue.
    pub open spec fn spec_hint(self) -> Option<Seq<char>> {
        match self {
            Issue::Untranslated(i) => Some("Value is identical to primary locale ("@ + i.primary_locale@
                + "), possibly not translated"@),
            Issue::UnresolvedKey(i) => match i.hint {
                Some(h) => Some(h@),
                None => None,
            },
            _ => None,
        }
    }

    pub open spec fn spec_severity(self) -> Severity {
        match self {
            Issue::HardcodedText(_) => Severity::Error,
            Issue::MissingKey(_) => Severity::Error,
            Issue::ReplicaLag(_) => Severity::Error,
            Issue::TypeMismatch(_) => Severity::Error,
            Issue::ParseError(_) => Severity::Error,
            _ => Severity::Warning,
        }
    }

    pub open spec fn spec_rule(self) -> Rule {
        match self {
            Issue::HardcodedText(_) => Rule::HardcodedText,
            Issue::MissingKey(_) => Rule::MissingKey,
            Issue::UnusedKey(_) => Rule::UnusedKey,
            Issue::OrphanKey(_) => Rule::OrphanKey,
            Issue::ReplicaLag(_) => Rule::ReplicaLag,
            Issue::Untranslated(_) => Rule::Untranslated,
            Issue::TypeMismatch(_) => Rule::TypeMismatch,
            Issue::UnresolvedKey(_) => Rule::UnresolvedKey,
            Issue::ParseError(_) => Rule::ParseError,
        }
    }

    /// The file of the issue.
    pub open spec fn spec_path(self) -> Seq<char> {
        match self {
            Issue::HardcodedText(i) => i.context.location.file_path@,
            Issue::MissingKey(i) => i.context.location.file_path@,
            Issue::UnusedKey(i) => i.context.location.file_path@,
            Issue::OrphanKey(i) => i.context.location.file_path@,
            Issue::ReplicaLag(i) => i.context.location.file_path@,
            Issue::Untranslated(i) => i.context.location.file_path@,
            Issue::TypeMismatch(i) => i.context.location.file_path@,
            Issue::UnresolvedKey(i) => i.context.location.file_path@,
            Issue::ParseError(i) => i.file_path@,
        }
    }

    /// The line of the issue (0 for a whole file).
    pub open spec fn spec_line(self) -> usize {
        match self {
            Issue::HardcodedText(i) => i.context.location.line,
            Issue::MissingKey(i) => i.context.location.line,
            Issue::UnusedKey(i) => i.context.location.line,
            Issue::OrphanKey(i) => i.context.location.line,
            Issue::ReplicaLag(i) => i.context.location.line,
            Issue::Untranslated(i) => i.context.location.line,
            Issue::TypeMismatch(i) => i.context.location.line,
            Issue::UnresolvedKey(i) => i.context.location.line,
            Issue::ParseError(_) => 0,
        }
    }

    /// The column of the issue (0 for a whole file).
    pub open spec fn spec_col(self) -> usize {
        match self {
            Issue::HardcodedText(i) => i.context.location.col,
            Issue::MissingKey(i) => i.context.location.col,
            Issue::UnusedKey(i) => i.context.location.col,
            Issue::OrphanKey(i) => i.context.location.col,
            Issue::ReplicaLag(i) => i.context.location.col,
            Issue::Untranslated(i) => i.context.location.col,
            Issue::TypeMismatch(i) => i.context.location.col,
            Issue::UnresolvedKey(i) => i.context.location.col,
            Issue::ParseError(_) => 0,
        }
    }

    /// The source line of an issue in code.
    pub open spec fn spec_source_line(self) -> Option<Seq<char>> {
        match self {
            Issue::HardcodedText(i) => Some(i.context.source_line@),
            Issue::MissingKey(i) => Some(i.context.source_line@),
            Issue::UnresolvedKey(i) => Some(i.context.source_line@),
            _ => None,
        }
    }

    /// The issue is about a line of a file (not a whole file).
    pub open spec fn spec_has_line(self) -> bool {
        !(self is ParseError)
    }

    /// The issue lists the usages of its key.
    pub open spec fn spec_lists_usages(self) -> bool {
        self is ReplicaLag || self is Untranslated || self is TypeMismatch
    }

    pub fn message(&self) -> (r: String)
        ensures
            r@ == self.spec_message(),
    {
        match self {
            Issue::HardcodedText(i) => i.text.clone(),
            Issue::MissingKey(i) => i.key.clone(),
            Issue::UnusedKey(i) => i.context.key.clone(),
            Issue::OrphanKey(i) => i.context.key.clone(),
            Issue::ReplicaLag(i) => i.context.key.clone(),
            Issue::Untranslated(i) => i.context.key.clone(),
            Issue::TypeMismatch(i) => i.context.key.clone(),
            Issue::UnresolvedKey(i) => i.reason.to_string(),
            Issue::ParseError(i) => i.error.clone(),
        }
    }

    pub fn details(&self) -> (r: Option<String>)
        ensures
            match r {
                Some(d) => self.spec_details() == Some(d@),
                None => self.spec_details() is None,
            },
    {
        match self {
            Issue::MissingKey(i) => match &i.from_schema {
                Some((name, path)) => {
                    let mut d = concat3("from ", name.as_str(), " (");
                    push_text(&mut d, path.as_str());
                    push_text(&mut d, ")");
                    Some(d)
                },
                None => None,
            },
            Issue::UnusedKey(i) => Some(concat3("(\"", i.context.value.as_str(), "\")")),
            Issue::OrphanKey(i) => {
                let mut d = concat3("in ", i.locale.as_str(), " (\"");
                push_text(&mut d, i.context.value.as_str());
                push_text(&mut d, "\")");
                Some(d)
            },
            Issue::ReplicaLag(i) => {
                let mut d = text("missing in: ");
                let j = join_commas(&i.missing_in);
                push_text(&mut d, j.as_str());
                Some(d)
            },
            Issue::Untranslated(i) => {
                let mut d = text("identical in: ");
                let j = join_commas(&i.identical_in);
                push_text(&mut d, j.as_str());
                Some(d)
            },
            Issue::TypeMismatch(i) => {
                let mut parts: Vec<String> = Vec::new();
                let mut k: usize = 0;
                while k < i.mismatched_in.len()
                    invariant
                        k <= i.mismatched_in@.len(),
                        strs_view(parts@) == mismatches_text(i.mismatched_in@.take(k as int)),
                    decreases i.mismatched_in@.len() - k,
                {
                    let m = &i.mismatched_in[k];
                    let ty = m.actual_type.to_string();
                    let mut p = concat3(m.locale.as_str(), " (", ty.as_str());
                    push_text(&mut p, ")");
                    let ghost p0 = parts@;
                    assert(p@ == mismatch_text(*m));
                    parts.push(p);
                    assert(i.mismatched_in@.take(k + 1) =~= i.mismatched_in@.take(k as int).push(*m));
                    assert(strs_view(parts@) =~= strs_view(p0).push(p@));
                    assert(mismatches_text(i.mismatched_in@.take(k + 1)) =~= mismatches_text(i.mismatched_in@.take(k as int)).push(mismatch_text(*m)));
                    k = k + 1;
                }
                assert(i.mismatched_in@.take(i.mismatched_in@.len() as int) =~= i.mismatched_in@);
                let ty = i.expected_type.to_string();
                let mut d = concat3("expected ", ty.as_str(), " (as in ");
                push_text(&mut d, i.primary_locale.as_str());
                push_text(&mut d, "), found: ");
                let j = join_commas(&parts);
                push_text(&mut d, j.as_str());
                Some(d)
            },
            _ => None,
        }
    }

    pub fn hint(&self) -> (r: Option<String>)
        ensures
            match r {
                Some(h) => self.spec_hint() == Some(h@),
                None => self.spec_hint() is None,
            },
    {
        match self {
            Issue::Untranslated(i) => Some(concat3(
                "Value is identical to primary locale (",
                i.primary_locale.as_str(),
                "), possibly not translated",
            )),
            Issue::UnresolvedKey(i) => match &i.hint {
                Some(h) => Some(h.clone()),
                None => None,
            },
            _ => None,
        }
    }

    pub fn report_severity(&self) -> (r: Severity)
        ensures
            r == self.spec_severity(),
    {
        match self {
            Issue::HardcodedText(_) => Severity::Error,
            Issue::MissingKey(_) => Severity::Error,
            Issue::ReplicaLag(_) => Severity::Error,
            Issue::TypeMismatch(_) => Severity::Error,
            Issue::ParseError(_) => Severity::Error,
            _ => Severity::Warning,
        }
    }

    pub fn report_rule(&self) -> (r: Rule)
        ensures
            r == self.spec_rule(),
    {
        match self {
            Issue::HardcodedText(_) => Rule::HardcodedText,
            Issue::MissingKey(_) => Rule::MissingKey,
            Issue::UnusedKey(_) => Rule::UnusedKey,
            Issue::OrphanKey(_) => Rule::OrphanKey,
            Issue::ReplicaLag(_) => Rule::ReplicaLag,
            Issue::Untranslated(_) => Rule::Untranslated,
            Issue::TypeMismatch(_) => Rule::TypeMismatch,
            Issue::UnresolvedKey(_) => Rule::UnresolvedKey,
            Issue::ParseError(_) => Rule::ParseError,
        }
    }

    /// Where the issue is.
    pub fn location(&self) -> (r: IssueLocation)
        ensures
            r.file_path@ == self.spec_path(),
            r.line == self.spec_line(),
            r.col == self.spec_col(),
            match r.source_line {
                Some(s) => self.spec_source_line() == Some(s@),
                None => self.spec_source_line() is None,
            },
    {
        match self {
            Issue::HardcodedText(i) => IssueLocation {
                file_path: i.context.location.file_path.clone(),
                line: i.context.location.line,
                col: i.context.location.col,
                source_line: Some(i.context.source_line.clone()),
            },
            Issue::MissingKey(i) => IssueLocation {
                file_path: i.context.location.file_path.clone(),
                line: i.context.location.line,
                col: i.context.location.col,
                source_line: Some(i.context.source_line.clone()),
            },
            Issue::UnresolvedKey(i) => IssueLocation {
                file_path: i.context.location.file_path.clone(),
                line: i.context.location.line,
                col: i.context.location.col,
                source_line: Some(i.context.source_line.clone()),
            },
            Issue::UnusedKey(i) => message_location(&i.context),
            Issue::OrphanKey(i) => message_location(&i.context),
            Issue::ReplicaLag(i) => message_location(&i.context),
            Issue::Untranslated(i) => message_location(&i.context),
            Issue::TypeMismatch(i) => message_location(&i.context),
            Issue::ParseError(i) => IssueLocation {
                file_path: i.file_path.clone(),
                line: 0,
                col: 0,
                source_line: None,
            },
        }
    }

    /// The usages the issue lists (none for the issues that list none).
    pub fn usages(&self) -> (r: &[ResolvedKeyUsage])
        ensures
            self.spec_lists_usages() ==> r@ == match *self {
                Issue::ReplicaLag(i) => i.usages@,
                Issue::Untranslated(i) => i.usages@,
                Issue::TypeMismatch(i) => i.usages@,
                _ => Seq::empty(),
            },
            !self.spec_lists_usages() ==> r@.len() == 0,
    {
        match self {
            Issue::ReplicaLag(i) => i.usages.as_slice(),
            Issue::Untranslated(i) => i.usages.as_slice(),
            Issue::TypeMismatch(i) => i.usages.as_slice(),
            _ => &[],
        }
    }
}

fn message_location(c: &MessageContext) -> (r: IssueLocation)
    ensures
        r.file_path@ == c.location.file_path@,
        r.line == c.location.line,
        r.col == c.location.col,
        r.source_line is None,
{
    IssueLocation {
        file_path: c.location.file_path.clone(),
        line: c.location.line,
        col: c.location.col,
        source_line: None,
    }
}

} // verus!
