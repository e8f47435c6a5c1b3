//! What the commands decide: which rules run, how a run ends, and the
//! counts their summaries report.

use vstd::prelude::*;
use crate::issues::{
    HardcodedTextIssue, Issue, OrphanKeyIssue, Severity, UnresolvedKeyIssue, UntranslatedIssue,
    UnusedKeyIssue,
};
use crate::report::{count_severity, place_sorted, sort_issues_by_place, sorted_by_place};
use crate::registries::reversed;
use crate::strmap::StrSet;

verus! {

/// How a command ends.
///
/// - `Success` (0): it completed and found nothing to report;
/// - `Failure` (1): it completed and found issues (or work left to do);
/// - `Error` (2): it could not do its work (a file did not parse, ...).
#[derive(Debug, Clone, Copy, PartialEq, Eq, Structural)]
pub enum ExitStatus {
    Success,
    Failure,
    Error,
}

impl ExitStatus {
    /// The process exit code.
    pub fn code(&self) -> (r: u8)
        ensures
            r == match *self {
                ExitStatus::Success => 0u8,
                ExitStatus::Failure => 1u8,
                ExitStatus::Error => 2u8,
            },
    {
        match self {
            ExitStatus::Success => 0,
            ExitStatus::Failure => 1,
            ExitStatus::Error => 2,
        }
    }
}

/// The checks `glot check` can run.
#[derive(Debug, Clone, Copy, PartialEq, Eq, Structural)]
pub enum CheckRule {
    Hardcoded,
    Missing,
    Unused,
    Orphan,
    ReplicaLag,
    Untranslated,
    TypeMismatch,
    Unresolved,
}

impl CheckRule {
    /// Every check, in the order they run.
    pub fn all() -> (r: Vec<CheckRule>)
        ensures
            r@ == seq![
                CheckRule::Hardcoded,
                CheckRule::Missing,
                CheckRule::Unused,
                CheckRule::Orphan,
                CheckRule::ReplicaLag,
                CheckRule::Untranslated,
                CheckRule::TypeMismatch,
                CheckRule::Unresolved,
            ],
    {
        let mut r: Vec<CheckRule> = Vec::new();
        r.push(CheckRule::Hardcoded);
        r.push(CheckRule::Missing);
        r.push(CheckRule::Unused);
        r.push(CheckRule::Orphan);
        r.push(CheckRule::ReplicaLag);
        r.push(CheckRule::Untranslated);
        r.push(CheckRule::TypeMismatch);
        r.push(CheckRule::Unresolved);
        proof {
            assert(r@ =~= seq![
                CheckRule::Hardcoded,
                CheckRule::Missing,
                CheckRule::Unused,
                CheckRule::Orphan,
                CheckRule::ReplicaLag,
                CheckRule::Untranslated,
                CheckRule::TypeMismatch,
                CheckRule::Unresolved,
            ]);
        }
        r
    }

    /// The same as [`Self::all`].
    pub fn default() -> (r: Vec<CheckRule>)
        ensures
            r@ == seq![
                CheckRule::Hardcoded,
                CheckRule::Missing,
                CheckRule::Unused,
                CheckRule::Orphan,
                CheckRule::ReplicaLag,
                CheckRule::Untranslated,
                CheckRule::TypeMismatch,
                CheckRule::Unresolved,
            ],
    {
        Self::all()
    }
}

/// The keys `glot clean` can delete.
#[derive(Debug, Clone, Copy, PartialEq, Eq, Structural)]
pub enum CleanRule {
    Unused,
    Orphan,
}

impl CleanRule {
    /// Both kinds.
    pub fn all() -> (r: Vec<CleanRule>)
        ensures
            r@ == seq![CleanRule::Unused, CleanRule::Orphan],
    {
        let mut r: Vec<CleanRule> = Vec::new();
        r.push(CleanRule::Unused);
        r.push(CleanRule::Orphan);
        assert(r@ =~= seq![CleanRule::Unused, CleanRule::Orphan]);
        r
    }
}

/// The issues `glot baseline` can suppress with comments.
#[derive(Debug, Clone, Copy, PartialEq, Eq, Structural)]
pub enum SuppressibleRule {
    Hardcoded,
    Untranslated,
}

impl SuppressibleRule {
    /// Both kinds.
    pub fn all() -> (r: Vec<SuppressibleRule>)
        ensures
            r@ == seq![SuppressibleRule::Hardcoded, SuppressibleRule::Untranslated],
    {
        let mut r: Vec<SuppressibleRule> = Vec::new();
        r.push(SuppressibleRule::Hardcoded);
        r.push(SuppressibleRule::Untranslated);
        assert(r@ =~= seq![SuppressibleRule::Hardcoded, SuppressibleRule::Untranslated]);
        r
    }

    /// The same as [`Self::all`]: the rules a baseline suppresses when none is asked for.
    pub fn default() -> (r: Vec<SuppressibleRule>)
        ensures
            r@ == seq![SuppressibleRule::Hardcoded, SuppressibleRule::Untranslated],
    {
        Self::all()
    }
}

/// The rules to run: those asked for, or all of them when none is.
pub fn selected_rules<T: Copy>(asked: &Vec<T>, all: Vec<T>) -> (r: Vec<T>)
    ensures
        r@ == if asked@.len() == 0 { all@ } else { asked@ },
{
    if asked.len() == 0 {
        all
    } else {
        let mut r: Vec<T> = Vec::new();
        let mut i: usize = 0;
        while i < asked.len()
            invariant
                i <= asked@.len(),
                r@ == asked@.take(i as int),
            decreases asked@.len() - i,
        {
            r.push(asked[i]);
            proof { assert(asked@.take(i + 1) =~= asked@.take(i as int).push(asked@[i as int])); }
            i = i + 1;
        }
        proof { assert(asked@.take(asked@.len() as int) =~= asked@); }
        r
    }
}

/// The groups of checks the check runner loads data for.
#[derive(Debug, Clone, Copy, PartialEq, Eq, Structural)]
pub enum CheckType {
    Hardcoded,
    Missing,
    Orphan,
    Untranslated,
    TypeMismatch,
}

/// Which command ran.
#[derive(Debug, Clone, Copy, PartialEq, Eq, Structural)]
pub enum CommandKind {
    Check,
    Baseline,
    Fix,
    Clean,
    Init,
}

#[derive(Debug)]
pub struct BaselineSummary {
    pub hardcoded_count: usize,
    pub untranslated_usage_count: usize,
    pub untranslated_key_count: usize,
    pub file_count: usize,
    pub is_apply: bool,
    /// Comments inserted in all (after `--apply`).
    pub applied_total_count: usize,
    /// Lines that got a comment for hardcoded text.
    pub applied_hardcoded_count: usize,
    /// Lines that got a comment for untranslated values.
    pub applied_untranslated_count: usize,
    pub hardcoded_issues: Vec<HardcodedTextIssue>,
    pub untranslated_issues: Vec<UntranslatedIssue>,
}

#[derive(Debug)]
pub struct FixSummary {
    pub unresolved_count: usize,
    pub inserted_count: usize,
    pub skipped_count: usize,
    pub file_count: usize,
    pub is_apply: bool,
    /// Issues with a pattern to insert.
    pub processed_count: usize,
    /// Comments inserted (after `--apply`).
    pub applied_count: usize,
    pub unresolved_issues: Vec<UnresolvedKeyIssue>,
}

#[derive(Debug)]
pub struct CleanSummary {
    pub unused_count: usize,
    pub orphan_count: usize,
    pub file_count: usize,
    pub is_apply: bool,
    /// Keys deleted in all (after `--apply`).
    pub applied_total_count: usize,
    pub applied_unused_count: usize,
    pub applied_orphan_count: usize,
    pub unused_issues: Vec<UnusedKeyIssue>,
    pub orphan_issues: Vec<OrphanKeyIssue>,
}

#[derive(Debug)]
pub struct InitSummary {
    pub created: bool,
}

/// What a command reports beyond its issues.
#[derive(Debug)]
pub enum CommandSummary {
    Check,
    Baseline(BaselineSummary),
    Fix(FixSummary),
    Clean(CleanSummary),
    Init(InitSummary),
}

/// The outcome of a command.
pub struct CommandResult {
    pub kind: CommandKind,
    pub summary: CommandSummary,
    pub error_count: usize,
    pub warning_count: usize,
    /// Whether errors make the process fail (dry runs that report work to
    /// do do not).
    pub exit_on_errors: bool,
    /// The issues found, in report order.
    pub issues: Vec<Issue>,
    /// Number of files that failed to parse.
    pub parse_error_count: usize,
    /// Number of source files checked.
    pub source_files_checked: usize,
    /// Number of locale files checked (0 when messages were not read).
    pub locale_files_checked: usize,
}

/// Number of parse errors among the issues.
pub open spec fn count_parse_errors(issues: Seq<Issue>) -> nat
    decreases issues.len(),
{
    if issues.len() == 0 {
        0
    } else {
        count_parse_errors(issues.drop_last()) + if issues.last() is ParseError { 1nat } else { 0nat }
    }
}

/// Counts errors, warnings and parse errors.
pub fn issue_counts(issues: &Vec<Issue>) -> (r: (usize, usize, usize))
    ensures
        r.0 as nat == count_severity(issues@, Severity::Error),
        r.1 as nat == count_severity(issues@, Severity::Warning),
        r.2 as nat == count_parse_errors(issues@),
{
    let mut errors: usize = 0;
    let mut warnings: usize = 0;
    let mut parse_errors: usize = 0;
    let mut i: usize = 0;
    while i < issues.len()
        invariant
            i <= issues@.len(),
            errors as nat == count_severity(issues@.take(i as int), Severity::Error),
            warnings as nat == count_severity(issues@.take(i as int), Severity::Warning),
            parse_errors as nat == count_parse_errors(issues@.take(i as int)),
            errors <= i,
            warnings <= i,
            parse_errors <= i,
        decreases issues@.len() - i,
    {
        proof {
            assert(issues@.take(i + 1).drop_last() =~= issues@.take(i as int));
            assert(issues@.take(i + 1).last() == issues@[i as int]);
        }
        match issues[i].report_severity() {
            Severity::Error => { errors = errors + 1; },
            Severity::Warning => { warnings = warnings + 1; },
        }
        match &issues[i] {
            Issue::ParseError(_) => { parse_errors = parse_errors + 1; },
            _ => {},
        }
        i = i + 1;
    }
    proof { assert(issues@.take(issues@.len() as int) =~= issues@); }
    (errors, warnings, parse_errors)
}

/// Puts together a command's result: its issues sorted by place (file
/// path, line, column), with their counts.
pub fn finish(
    kind: CommandKind,
    summary: CommandSummary,
    issues: Vec<Issue>,
    source_files_checked: usize,
    locale_files_checked: usize,
) -> (r: CommandResult)
    ensures
        r.kind == kind,
        r.issues@ == sorted_by_place(issues@, issues@.len() as int),
        r.issues@.to_multiset() == issues@.to_multiset(),
        place_sorted(r.issues@),
        r.error_count as nat == count_severity(issues@, Severity::Error),
        r.warning_count as nat == count_severity(issues@, Severity::Warning),
        r.parse_error_count as nat == count_parse_errors(issues@),
        r.exit_on_errors,
        r.source_files_checked == source_files_checked,
        r.locale_files_checked == locale_files_checked,
{
    let (error_count, warning_count, parse_error_count) = issue_counts(&issues);
    let mut issues = issues;
    sort_issues_by_place(&mut issues);
    CommandResult {
        kind,
        summary,
        error_count,
        warning_count,
        exit_on_errors: true,
        issues,
        parse_error_count,
        source_files_checked,
        locale_files_checked,
    }
}

/// The exit code of a finished command: 1 when errors count and there are
/// some, else 0.
pub fn exit_code_from_result(result: &CommandResult) -> (r: i32)
    ensures
        r == if result.exit_on_errors && result.error_count > 0 { 1i32 } else { 0i32 },
{
    if result.exit_on_errors && result.error_count > 0 {
        1
    } else {
        0
    }
}

/// Whether any issue is an error.
pub fn has_errors(issues: &Vec<Issue>) -> (r: bool)
    ensures
        r == (count_severity(issues@, Severity::Error) > 0),
{
    let (errors, _, _) = issue_counts(issues);
    errors > 0
}

/// How `glot check` ends: files that did not parse are an error; any issue
/// found (error or warning) is a failure; no issue is a success.
pub fn check_exit_status(parse_error_count: usize, issues: &Vec<Issue>) -> (r: ExitStatus)
    ensures
        r == if parse_error_count > 0 {
            ExitStatus::Error
        } else if issues@.len() > 0 {
            ExitStatus::Failure
        } else {
            ExitStatus::Success
        },
{
    if parse_error_count > 0 {
        ExitStatus::Error
    } else if issues.len() > 0 {
        ExitStatus::Failure
    } else {
        ExitStatus::Success
    }
}

/// How `glot clean` ends: files that did not parse are an error; keys left
/// to delete in a dry run are a failure.
pub fn clean_exit_status(parse_error_count: usize, total: usize, apply: bool) -> (r: ExitStatus)
    ensures
        r == if parse_error_count > 0 {
            ExitStatus::Error
        } else if total > 0 && !apply {
            ExitStatus::Failure
        } else {
            ExitStatus::Success
        },
{
    if parse_error_count > 0 {
        ExitStatus::Error
    } else if total > 0 && !apply {
        ExitStatus::Failure
    } else {
        ExitStatus::Success
    }
}

/// How `glot baseline` ends: files that did not parse are an error;
/// comments left to insert in a dry run, or untranslated keys that no
/// comment can suppress, are a failure.
pub fn baseline_exit_status(parse_error_count: usize, comment_total: usize, apply: bool, unsuppressible_count: usize) -> (r: ExitStatus)
    ensures
        r == if parse_error_count > 0 {
            ExitStatus::Error
        } else if (comment_total > 0 && !apply) || unsuppressible_count > 0 {
            ExitStatus::Failure
        } else {
            ExitStatus::Success
        },
{
    if parse_error_count > 0 {
        ExitStatus::Error
    } else if (comment_total > 0 && !apply) || unsuppressible_count > 0 {
        ExitStatus::Failure
    } else {
        ExitStatus::Success
    }
}

/// Number of different strings in a list.
pub open spec fn distinct_count(s: Seq<Seq<char>>) -> nat
    decreases s.len(),
{
    if s.len() == 0 {
        0
    } else {
        distinct_count(s.drop_last()) + if s.drop_last().contains(s.last()) { 0nat } else { 1nat }
    }
}

/// Number of different paths in a list (files a run touches).
pub fn count_distinct(paths: &Vec<String>) -> (r: usize)
    ensures
        r as nat == distinct_count(paths@.map_values(|s: String| s@)),
{
    let ghost pv = paths@.map_values(|s: String| s@);
    let mut seen = StrSet::new();
    let mut count: usize = 0;
    let mut i: usize = 0;
    while i < paths.len()
        invariant
            i <= paths@.len(),
            pv == paths@.map_values(|s: String| s@),
            forall|x: Seq<char>| seen@.contains(x) <==> pv.take(i as int).contains(x),
            count as nat == distinct_count(pv.take(i as int)),
            count <= i,
        decreases paths@.len() - i,
    {
        proof {
            assert(pv.take(i + 1).drop_last() =~= pv.take(i as int));
            assert(pv.take(i + 1).last() == paths@[i as int]@);
        }
        let fresh = seen.insert(paths[i].clone());
        if fresh {
            count = count + 1;
        }
        proof {
            assert forall|x: Seq<char>| seen@.contains(x) <==> pv.take(i + 1).contains(x) by {
                if pv.take(i + 1).contains(x) {
                    let k = choose|k: int| 0 <= k < pv.take(i + 1).len() && #[trigger] pv.take(i + 1)[k] == x;
                    if k < i {
                        assert(pv.take(i as int)[k] == x);
                    }
                }
                if pv.take(i as int).contains(x) {
                    let k = choose|k: int| 0 <= k < pv.take(i as int).len() && #[trigger] pv.take(i as int)[k] == x;
                    assert(pv.take(i + 1)[k] == x);
                }
                if x == paths@[i as int]@ {
                    assert(pv.take(i + 1)[i as int] == x);
                }
            }
        }
        i = i + 1;
    }
    proof { assert(pv.take(paths@.len() as int) =~= pv); }
    count
}

/// Number of different (file, line) places in a list.
pub open spec fn distinct_places(s: Seq<(Seq<char>, usize)>) -> nat
    decreases s.len(),
{
    if s.len() == 0 {
        0
    } else {
        distinct_places(s.drop_last()) + if s.drop_last().contains(s.last()) { 0nat } else { 1nat }
    }
}

/// Number of different (file, line) places in a list (lines a run
/// inserts comments on).
pub fn count_distinct_places(places: &Vec<(String, usize)>) -> (r: usize)
    ensures
        r as nat == distinct_places(places@.map_values(|p: (String, usize)| (p.0@, p.1))),
{
    let ghost pv = places@.map_values(|p: (String, usize)| (p.0@, p.1));
    let mut count: usize = 0;
    let mut i: usize = 0;
    while i < places.len()
        invariant
            i <= places@.len(),
            pv == places@.map_values(|p: (String, usize)| (p.0@, p.1)),
            count as nat == distinct_places(pv.take(i as int)),
            count <= i,
        decreases places@.len() - i,
    {
        proof {
            assert(pv.take(i + 1).drop_last() =~= pv.take(i as int));
            assert(pv.take(i + 1).last() == pv[i as int]);
        }
        let mut seen = false;
        let mut j: usize = 0;
        while j < i
            invariant
                j <= i,
                i < places@.len(),
                pv == places@.map_values(|p: (String, usize)| (p.0@, p.1)),
                seen == exists|k: int| 0 <= k < j && #[trigger] pv[k] == pv[i as int],
            decreases i - j,
        {
            if places[j].1 == places[i].1 && crate::text::str_eq(places[j].0.as_str(), places[i].0.as_str()) {
                assert(pv[j as int] == pv[i as int]);
                seen = true;
            }
            j = j + 1;
        }
        proof {
            if seen {
                let k = choose|k: int| 0 <= k < i && #[trigger] pv[k] == pv[i as int];
                assert(pv.take(i as int)[k] == pv[i as int]);
            } else {
                assert forall|k: int| 0 <= k < pv.take(i as int).len() implies pv.take(i as int)[k] != pv[i as int] by {
                    assert(pv.take(i as int)[k] == pv[k]);
                }
            }
        }
        if !seen {
            count = count + 1;
        }
        i = i + 1;
    }
    proof { assert(pv.take(places@.len() as int) =~= pv); }
    count
}

/// Untranslated issues split into those with usages in code (a comment
/// there can suppress them) and those without, each in order.
pub fn split_suppressible(issues: Vec<UntranslatedIssue>) -> (r: (Vec<UntranslatedIssue>, Vec<UntranslatedIssue>))
    ensures
        r.0@ == issues@.filter(|u: UntranslatedIssue| u.usages@.len() > 0),
        r.1@ == issues@.filter(|u: UntranslatedIssue| u.usages@.len() == 0),
{
    let ghost v0 = issues@;
    let n = issues.len();
    let mut rev = reversed(issues);
    let mut with_usages: Vec<UntranslatedIssue> = Vec::new();
    let mut without: Vec<UntranslatedIssue> = Vec::new();
    let mut i: usize = 0;
    while rev.len() > 0
        invariant
            i <= n,
            n == v0.len(),
            rev@.len() == n - i,
            forall|k: int| 0 <= k < rev@.len() ==> rev@[k] == v0[n - 1 - k],
            with_usages@ == v0.take(i as int).filter(|u: UntranslatedIssue| u.usages@.len() > 0),
            without@ == v0.take(i as int).filter(|u: UntranslatedIssue| u.usages@.len() == 0),
        decreases rev@.len(),
    {
        let u = rev.pop().unwrap();
        proof {
            assert(v0.take(i + 1).drop_last() =~= v0.take(i as int));
            assert(v0.take(i + 1).last() == v0[i as int]);
            reveal_with_fuel(Seq::filter, 1);
        }
        if u.usages.len() > 0 {
            with_usages.push(u);
        } else {
            without.push(u);
        }
        i = i + 1;
    }
    proof { assert(v0.take(n as int) =~= v0); }
    (with_usages, without)
}


/// The places (file, line) of hardcoded text issues, in order.
pub open spec fn hardcoded_places(s: Seq<HardcodedTextIssue>) -> Seq<(Seq<char>, usize)> {
    s.map_values(|i: HardcodedTextIssue| (i.context.location.file_path@, i.context.location.line))
}

/// The places (file, line) of the usages of untranslated values, in order.
pub open spec fn usage_places(s: Seq<UntranslatedIssue>) -> Seq<(Seq<char>, usize)>
    decreases s.len(),
{
    if s.len() == 0 {
        Seq::empty()
    } else {
        usage_places(s.drop_last()) + s.last().usages@.map_values(
            |u: crate::issues::ResolvedKeyUsage| (u.context.location.file_path@, u.context.location.line))
    }
}

/// The files of places.
pub open spec fn files_of(p: Seq<(Seq<char>, usize)>) -> Seq<Seq<char>> {
    p.map_values(|x: (Seq<char>, usize)| x.0)
}

fn push_places_of_usages(out: &mut Vec<(String, usize)>, issues: &[UntranslatedIssue])
    ensures
        final(out)@.map_values(|p: (String, usize)| (p.0@, p.1))
            == old(out)@.map_values(|p: (String, usize)| (p.0@, p.1)) + usage_places(issues@),
{
    let ghost o0 = out@.map_values(|p: (String, usize)| (p.0@, p.1));
    let mut i: usize = 0;
    while i < issues.len()
        invariant
            i <= issues@.len(),
            out@.map_values(|p: (String, usize)| (p.0@, p.1)) == o0 + usage_places(issues@.take(i as int)),
        decreases issues@.len() - i,
    {
        let us = &issues[i].usages;
        let ghost mid = out@.map_values(|p: (String, usize)| (p.0@, p.1));
        let mut j: usize = 0;
        while j < us.len()
            invariant
                j <= us@.len(),
                i < issues@.len(),
                us@ == issues@[i as int].usages@,
                out@.map_values(|p: (String, usize)| (p.0@, p.1)) == mid + us@.take(j as int).map_values(
                    |u: crate::issues::ResolvedKeyUsage| (u.context.location.file_path@, u.context.location.line)),
            decreases us@.len() - j,
        {
            let ghost before = out@;
            out.push((us[j].context.location.file_path.clone(), us[j].context.location.line));
            proof {
                assert(out@.map_values(|p: (String, usize)| (p.0@, p.1)) =~= before.map_values(|p: (String, usize)| (p.0@, p.1))
                    .push((us@[j as int].context.location.file_path@, us@[j as int].context.location.line)));
                assert(us@.take(j + 1).map_values(
                    |u: crate::issues::ResolvedKeyUsage| (u.context.location.file_path@, u.context.location.line))
                    =~= us@.take(j as int).map_values(
                    |u: crate::issues::ResolvedKeyUsage| (u.context.location.file_path@, u.context.location.line))
                    .push((us@[j as int].context.location.file_path@, us@[j as int].context.location.line)));
            }
            j = j + 1;
        }
        proof {
            assert(us@.take(us@.len() as int) =~= us@);
            assert(issues@.take(i + 1).drop_last() =~= issues@.take(i as int));
            assert(issues@.take(i + 1).last() == issues@[i as int]);
        }
        i = i + 1;
    }
    proof { assert(issues@.take(issues@.len() as int) =~= issues@); }
}

fn push_places_of_hardcoded(out: &mut Vec<(String, usize)>, issues: &[HardcodedTextIssue])
    ensures
        final(out)@.map_values(|p: (String, usize)| (p.0@, p.1))
            == old(out)@.map_values(|p: (String, usize)| (p.0@, p.1)) + hardcoded_places(issues@),
{
    let ghost o0 = out@.map_values(|p: (String, usize)| (p.0@, p.1));
    let mut i: usize = 0;
    while i < issues.len()
        invariant
            i <= issues@.len(),
            out@.map_values(|p: (String, usize)| (p.0@, p.1)) == o0 + hardcoded_places(issues@.take(i as int)),
        decreases issues@.len() - i,
    {
        let ghost before = out@;
        out.push((issues[i].context.location.file_path.clone(), issues[i].context.location.line));
        proof {
            assert(out@.map_values(|p: (String, usize)| (p.0@, p.1)) =~= before.map_values(|p: (String, usize)| (p.0@, p.1))
                .push((issues@[i as int].context.location.file_path@, issues@[i as int].context.location.line)));
            assert(hardcoded_places(issues@.take(i + 1)) =~= hardcoded_places(issues@.take(i as int))
                .push((issues@[i as int].context.location.file_path@, issues@[i as int].context.location.line)));
        }
        i = i + 1;
    }
    proof { assert(issues@.take(issues@.len() as int) =~= issues@); }
}

fn paths_of(places: &Vec<(String, usize)>) -> (r: Vec<String>)
    ensures
        r@.map_values(|s: String| s@) == files_of(places@.map_values(|p: (String, usize)| (p.0@, p.1))),
{
    let mut r: Vec<String> = Vec::new();
    let mut i: usize = 0;
    while i < places.len()
        invariant
            i <= places@.len(),
            r@.map_values(|s: String| s@) == files_of(places@.map_values(|p: (String, usize)| (p.0@, p.1))).take(i as int),
        decreases places@.len() - i,
    {
        let ghost before = r@;
        r.push(places[i].0.clone());
        proof {
            assert(r@.map_values(|s: String| s@) =~= before.map_values(|s: String| s@).push(places@[i as int].0@));
            assert(files_of(places@.map_values(|p: (String, usize)| (p.0@, p.1))).take(i + 1)
                =~= files_of(places@.map_values(|p: (String, usize)| (p.0@, p.1))).take(i as int).push(places@[i as int].0@));
        }
        i = i + 1;
    }
    proof { assert(files_of(places@.map_values(|p: (String, usize)| (p.0@, p.1))).take(places@.len() as int)
        =~= files_of(places@.map_values(|p: (String, usize)| (p.0@, p.1)))); }
    r
}

/// Lines that get a comment for hardcoded text: one per (file, line).
pub fn unique_hardcoded_lines(issues: &[HardcodedTextIssue]) -> (r: usize)
    ensures
        r as nat == distinct_places(hardcoded_places(issues@)),
{
    let mut places: Vec<(String, usize)> = Vec::new();
    proof { assert(places@.map_values(|p: (String, usize)| (p.0@, p.1)) =~= Seq::<(Seq<char>, usize)>::empty()); }
    push_places_of_hardcoded(&mut places, issues);
    proof { assert(Seq::<(Seq<char>, usize)>::empty() + hardcoded_places(issues@) =~= hardcoded_places(issues@)); }
    count_distinct_places(&places)
}

/// Lines that get a comment for untranslated values: one per (file, line)
/// of a usage.
pub fn unique_untranslated_lines(issues: &[UntranslatedIssue]) -> (r: usize)
    ensures
        r as nat == distinct_places(usage_places(issues@)),
{
    let mut places: Vec<(String, usize)> = Vec::new();
    proof { assert(places@.map_values(|p: (String, usize)| (p.0@, p.1)) =~= Seq::<(Seq<char>, usize)>::empty()); }
    push_places_of_usages(&mut places, issues);
    proof { assert(Seq::<(Seq<char>, usize)>::empty() + usage_places(issues@) =~= usage_places(issues@)); }
    count_distinct_places(&places)
}

/// Files a dry run of `baseline` would change: those of the hardcoded text
/// and of the usages of untranslated values.
pub fn baseline_file_count(hardcoded: &[HardcodedTextIssue], untranslated: &[UntranslatedIssue]) -> (r: usize)
    ensures
        r as nat == distinct_count(files_of(hardcoded_places(hardcoded@) + usage_places(untranslated@))),
{
    let mut places: Vec<(String, usize)> = Vec::new();
    proof { assert(places@.map_values(|p: (String, usize)| (p.0@, p.1)) =~= Seq::<(Seq<char>, usize)>::empty()); }
    push_places_of_hardcoded(&mut places, hardcoded);
    push_places_of_usages(&mut places, untranslated);
    proof {
        assert(Seq::<(Seq<char>, usize)>::empty() + hardcoded_places(hardcoded@) + usage_places(untranslated@)
            =~= hardcoded_places(hardcoded@) + usage_places(untranslated@));
    }
    let paths = paths_of(&places);
    count_distinct(&paths)
}

/// The files of message issues, in order.
pub open spec fn unused_files(s: Seq<UnusedKeyIssue>) -> Seq<Seq<char>> {
    s.map_values(|i: UnusedKeyIssue| i.context.location.file_path@)
}

pub open spec fn orphan_files(s: Seq<OrphanKeyIssue>) -> Seq<Seq<char>> {
    s.map_values(|i: OrphanKeyIssue| i.context.location.file_path@)
}

/// Files a dry run of `clean` would change.
pub fn clean_file_count(unused: &[UnusedKeyIssue], orphan: &[OrphanKeyIssue]) -> (r: usize)
    ensures
        r as nat == distinct_count(unused_files(unused@) + orphan_files(orphan@)),
{
    let mut paths: Vec<String> = Vec::new();
    let mut i: usize = 0;
    while i < unused.len()
        invariant
            i <= unused@.len(),
            paths@.map_values(|s: String| s@) == unused_files(unused@).take(i as int),
        decreases unused@.len() - i,
    {
        let ghost before = paths@;
        paths.push(unused[i].context.location.file_path.clone());
        proof {
            assert(paths@.map_values(|s: String| s@) =~= before.map_values(|s: String| s@).push(unused@[i as int].context.location.file_path@));
            assert(unused_files(unused@).take(i + 1) =~= unused_files(unused@).take(i as int).push(unused@[i as int].context.location.file_path@));
        }
        i = i + 1;
    }
    proof { assert(unused_files(unused@).take(unused@.len() as int) =~= unused_files(unused@)); }
    let mut j: usize = 0;
    while j < orphan.len()
        invariant
            j <= orphan@.len(),
            paths@.map_values(|s: String| s@) == unused_files(unused@) + orphan_files(orphan@).take(j as int),
        decreases orphan@.len() - j,
    {
        let ghost before = paths@;
        paths.push(orphan[j].context.location.file_path.clone());
        proof {
            assert(paths@.map_values(|s: String| s@) =~= before.map_values(|s: String| s@).push(orphan@[j as int].context.location.file_path@));
            assert(orphan_files(orphan@).take(j + 1) =~= orphan_files(orphan@).take(j as int).push(orphan@[j as int].context.location.file_path@));
        }
        j = j + 1;
    }
    proof { assert(orphan_files(orphan@).take(orphan@.len() as int) =~= orphan_files(orphan@)); }
    count_distinct(&paths)
}

/// The files of unresolved key issues, in order.
pub open spec fn unresolved_files(s: Seq<UnresolvedKeyIssue>) -> Seq<Seq<char>> {
    s.map_values(|i: UnresolvedKeyIssue| i.context.location.file_path@)
}

/// Files a dry run of `fix` would change.
pub fn fix_file_count(issues: &[UnresolvedKeyIssue]) -> (r: usize)
    ensures
        r as nat == distinct_count(unresolved_files(issues@)),
{
    let mut paths: Vec<String> = Vec::new();
    let mut i: usize = 0;
    while i < issues.len()
        invariant
            i <= issues@.len(),
            paths@.map_values(|s: String| s@) == unresolved_files(issues@).take(i as int),
        decreases issues@.len() - i,
    {
        let ghost before = paths@;
        paths.push(issues[i].context.location.file_path.clone());
        proof {
            assert(paths@.map_values(|s: String| s@) =~= before.map_values(|s: String| s@).push(issues@[i as int].context.location.file_path@));
            assert(unresolved_files(issues@).take(i + 1) =~= unresolved_files(issues@).take(i as int).push(issues@[i as int].context.location.file_path@));
        }
        i = i + 1;
    }
    proof { assert(unresolved_files(issues@).take(issues@.len() as int) =~= unresolved_files(issues@)); }
    count_distinct(&paths)
}

/// Number of usages of untranslated values in all.
pub open spec fn usage_total(s: Seq<UntranslatedIssue>) -> nat
    decreases s.len(),
{
    if s.len() == 0 { 0 } else { usage_total(s.drop_last()) + s.last().usages@.len() }
}

/// The comments `baseline` inserts for untranslated values: one per usage.
pub fn untranslated_usage_count(issues: &[UntranslatedIssue]) -> (r: usize)
    requires
        usage_total(issues@) <= usize::MAX,
    ensures
        r as nat == usage_total(issues@),
{
    let mut n: usize = 0;
    let mut i: usize = 0;
    while i < issues.len()
        invariant
            i <= issues@.len(),
            n as nat == usage_total(issues@.take(i as int)),
            usage_total(issues@) <= usize::MAX,
        decreases issues@.len() - i,
    {
        proof {
            assert(issues@.take(i + 1).drop_last() =~= issues@.take(i as int));
            assert(issues@.take(i + 1).last() == issues@[i as int]);
            lemma_usage_total_prefix(issues@, i + 1);
        }
        n = n + issues[i].usages.len();
        i = i + 1;
    }
    proof { assert(issues@.take(issues@.len() as int) =~= issues@); }
    n
}

proof fn lemma_usage_total_prefix(s: Seq<UntranslatedIssue>, k: int)
    requires
        0 <= k <= s.len(),
    ensures
        usage_total(s.take(k)) <= usage_total(s),
    decreases s.len() - k,
{
    if k < s.len() {
        lemma_usage_total_prefix(s, k + 1);
        assert(s.take(k + 1).drop_last() =~= s.take(k));
    } else {
        assert(s.take(k) =~= s);
    }
}

/// How `glot fix` ends: files that did not parse are an error; unresolved
/// keys left in a dry run are a failure.
pub fn fix_exit_status(parse_error_count: usize, unresolved_count: usize, apply: bool) -> (r: ExitStatus)
    ensures
        r == if parse_error_count > 0 {
            ExitStatus::Error
        } else if unresolved_count > 0 && !apply {
            ExitStatus::Failure
        } else {
            ExitStatus::Success
        },
{
    if parse_error_count > 0 {
        ExitStatus::Error
    } else if unresolved_count > 0 && !apply {
        ExitStatus::Failure
    } else {
        ExitStatus::Success
    }
}

} // verus!
