//! The outcome of a run, with its counts.

use vstd::prelude::*;
use crate::commands::{count_parse_errors, issue_counts};
use crate::issues::{Issue, Severity};
use crate::report::{count_severity, place_sorted, sort_issues_by_place, sorted_by_place};

verus! {

/// The outcome of running the checks.
pub struct RunResult {
    pub error_count: usize,
    pub warning_count: usize,
    /// Whether errors make the process fail (dry runs that report work to
    /// do do not).
    pub exit_on_errors: bool,
    /// The issues found.
    pub issues: Vec<Issue>,
    /// Number of files that failed to parse.
    pub parse_error_count: usize,
    /// Number of source files checked.
    pub source_files_checked: usize,
    /// Number of locale files checked (0 when messages were not read).
    pub locale_files_checked: usize,
}

/// Puts together a run's result: its issues sorted by place (file path,
/// line, column), with their counts.
pub fn finish(issues: Vec<Issue>, source_files_checked: usize, locale_files_checked: usize) -> (r: RunResult)
    ensures
        r.issues@ == sorted_by_place(issues@, issues@.len() as int),
        r.issues@.to_multiset() == issues@.to_multiset(),
        place_sorted(r.issues@),
        r.error_count as nat == count_severity(issues@, Severity::Error),
        r.warning_count as nat == count_severity(issues@, Severity::Warning),
        r.parse_error_count as nat == count_parse_errors(issues@),
        r.exit_on_errors,
        r.source_files_checked == source_files_checked,
        r.locale_files_checked == locale_files_checked,
{
    let (error_count, warning_count, parse_error_count) = issue_counts(&issues);
    let mut issues = issues;
    sort_issues_by_place(&mut issues);
    RunResult {
        error_count,
        warning_count,
        exit_on_errors: true,
        issues,
        parse_error_count,
        source_files_checked,
        locale_files_checked,
    }
}

} // verus!
