//! Which checks a run asks for, and which data they need loaded.

use vstd::prelude::*;
use crate::check_context::{spec_resolved_messages_dir, Cells, CheckContext, MessageData, MessageMap};
use crate::clean::{orphan_entries, orphan_key_issues, unused_entries, unused_key_issues};
use crate::context::ValueType;
use crate::rules::{
    all_hardcoded, all_schema_calls, all_used, all_warnings, hardcoded_findings, hardcoded_reported, lagging_entries,
    mismatched_entries, missing_in_primary, missing_key_issues, primary_entries, replica_lag_issues, replica_lag_of,
    schema_issue_view, schema_missing, schema_missing_key_issues, type_mismatch_issues, type_mismatch_of,
    unresolved_findings, unresolved_reported, untranslated_entries, untranslated_issues, untranslated_of,
};
use crate::strmap::StrMap;
use crate::commands::{count_parse_errors, CheckRule, CheckType};
use crate::issues::{
    HardcodedTextIssue, Issue, MissingKeyIssue, OrphanKeyIssue, ReplicaLagIssue, Severity, TypeMismatchIssue,
    UnresolvedKeyIssue, UntranslatedIssue, UnusedKeyIssue,
};
use crate::report::{count_severity, sorted_by_place};
use crate::run_result::{finish, RunResult};
use crate::text::{chars_of, concat3, push_char, push_text, strs_view, text};

verus! {

/// The checks to run over a context.
pub struct CheckRunner {
    /// The checks asked for (each once).
    pub checks: Vec<CheckType>,
    pub ctx: CheckContext,
}

/// The checks that read the key usages of the code.
pub open spec fn needs_usages(s: Set<CheckType>) -> bool {
    s.contains(CheckType::Missing) || s.contains(CheckType::Untranslated)
        || s.contains(CheckType::TypeMismatch) || s.contains(CheckType::Orphan)
}

impl CheckRunner {
    /// The checks asked for, as a set.
    pub open spec fn check_set(&self) -> Set<CheckType> {
        self.checks@.to_set()
    }

    /// A runner over `ctx` with no check asked for yet.
    pub fn new(ctx: CheckContext) -> (r: Self)
        ensures
            r.check_set() == Set::<CheckType>::empty(),
            r.ctx == ctx,
    {
        let r = CheckRunner { checks: Vec::new(), ctx };
        assert(r.check_set() =~= Set::<CheckType>::empty());
        r
    }

    fn has(&self, check: CheckType) -> (r: bool)
        ensures
            r == self.check_set().contains(check),
    {
        let mut i: usize = 0;
        while i < self.checks.len()
            invariant
                i <= self.checks@.len(),
                forall|j: int| 0 <= j < i ==> self.checks@[j] != check,
            decreases self.checks@.len() - i,
        {
            if self.checks[i] == check {
                assert(self.checks@.contains(check));
                return true;
            }
            i = i + 1;
        }
        false
    }

    /// Asks for `check` too.
    pub fn add(self, check: CheckType) -> (r: Self)
        ensures
            r.check_set() == self.check_set().insert(check),
            r.ctx == self.ctx,
    {
        let ghost before = self.check_set();
        let ghost s0 = self.checks@;
        let present = self.has(check);
        let mut r = self;
        if !present {
            r.checks.push(check);
            proof { s0.lemma_push_to_set_commute(check); }
            proof { assert(r.check_set() =~= before.insert(check)); }
        } else {
            proof { assert(before.insert(check) =~= before); }
        }
        r
    }

    pub fn hardcoded(self) -> (r: Self)
        ensures
            r.check_set() == self.check_set().insert(CheckType::Hardcoded),
            r.ctx == self.ctx,
    {
        self.add(CheckType::Hardcoded)
    }

    pub fn missing(self) -> (r: Self)
        ensures
            r.check_set() == self.check_set().insert(CheckType::Missing),
            r.ctx == self.ctx,
    {
        self.add(CheckType::Missing)
    }

    pub fn orphan(self) -> (r: Self)
        ensures
            r.check_set() == self.check_set().insert(CheckType::Orphan),
            r.ctx == self.ctx,
    {
        self.add(CheckType::Orphan)
    }

    pub fn untranslated(self) -> (r: Self)
        ensures
            r.check_set() == self.check_set().insert(CheckType::Untranslated),
            r.ctx == self.ctx,
    {
        self.add(CheckType::Untranslated)
    }

    pub fn type_mismatch(self) -> (r: Self)
        ensures
            r.check_set() == self.check_set().insert(CheckType::TypeMismatch),
            r.ctx == self.ctx,
    {
        self.add(CheckType::TypeMismatch)
    }

    /// Asks for every check.
    pub fn all(self) -> (r: Self)
        ensures
            r.check_set() == self.check_set() + set![
                CheckType::Hardcoded,
                CheckType::Missing,
                CheckType::Orphan,
                CheckType::Untranslated,
                CheckType::TypeMismatch,
            ],
            r.ctx == self.ctx,
    {
        let ghost before = self.check_set();
        let r = self.hardcoded().missing().orphan().untranslated().type_mismatch();
        assert(r.check_set() =~= before + set![
            CheckType::Hardcoded,
            CheckType::Missing,
            CheckType::Orphan,
            CheckType::Untranslated,
            CheckType::TypeMismatch,
        ]);
        r
    }

    /// Whether the checks asked for read the key usages of the code (and
    /// so the registries).
    pub fn needs_extractions(&self) -> (r: bool)
        ensures
            r == needs_usages(self.check_set()),
    {
        self.has(CheckType::Missing) || self.has(CheckType::Untranslated) || self.has(CheckType::TypeMismatch)
            || self.has(CheckType::Orphan)
    }

    /// Whether the checks asked for read the message files: the same checks
    /// that read the key usages.
    pub fn needs_messages(&self) -> (r: bool)
        ensures
            r == needs_usages(self.check_set()),
    {
        self.needs_extractions()
    }
}


/// The group of checks a rule of `glot check` belongs to: missing,
/// unresolved and replica-lag keys go with the missing-key check, unused
/// keys with the orphan check.
pub open spec fn group_of(r: CheckRule) -> CheckType {
    match r {
        CheckRule::Hardcoded => CheckType::Hardcoded,
        CheckRule::Missing => CheckType::Missing,
        CheckRule::Unresolved => CheckType::Missing,
        CheckRule::ReplicaLag => CheckType::Missing,
        CheckRule::Unused => CheckType::Orphan,
        CheckRule::Orphan => CheckType::Orphan,
        CheckRule::Untranslated => CheckType::Untranslated,
        CheckRule::TypeMismatch => CheckType::TypeMismatch,
    }
}

/// The groups of checks that the rules asked for belong to, rule by rule.
pub fn check_types_for(rules: &Vec<CheckRule>) -> (r: Vec<CheckType>)
    ensures
        r@ == rules@.map_values(|x: CheckRule| group_of(x)),
{
    let mut r: Vec<CheckType> = Vec::new();
    let mut i: usize = 0;
    while i < rules.len()
        invariant
            i <= rules@.len(),
            r@ == rules@.take(i as int).map_values(|x: CheckRule| group_of(x)),
        decreases rules@.len() - i,
    {
        let g = match rules[i] {
            CheckRule::Hardcoded => CheckType::Hardcoded,
            CheckRule::Missing => CheckType::Missing,
            CheckRule::Unresolved => CheckType::Missing,
            CheckRule::ReplicaLag => CheckType::Missing,
            CheckRule::Unused => CheckType::Orphan,
            CheckRule::Orphan => CheckType::Orphan,
            CheckRule::Untranslated => CheckType::Untranslated,
            CheckRule::TypeMismatch => CheckType::TypeMismatch,
        };
        r.push(g);
        proof {
            assert(rules@.take(i + 1).map_values(|x: CheckRule| group_of(x))
                =~= rules@.take(i as int).map_values(|x: CheckRule| group_of(x)).push(group_of(rules@[i as int])));
        }
        i = i + 1;
    }
    proof { assert(rules@.take(rules@.len() as int) =~= rules@); }
    r
}

/// What the checks found, each kind apart.
pub struct Findings {
    pub parse_errors: Vec<Issue>,
    pub hardcoded: Vec<HardcodedTextIssue>,
    pub missing: Vec<MissingKeyIssue>,
    pub unresolved: Vec<UnresolvedKeyIssue>,
    pub replica_lag: Vec<ReplicaLagIssue>,
    pub unused: Vec<UnusedKeyIssue>,
    pub orphan: Vec<OrphanKeyIssue>,
    pub untranslated: Vec<UntranslatedIssue>,
    pub type_mismatch: Vec<TypeMismatchIssue>,
}

/// `s` where `b` holds, else nothing.
pub open spec fn when(b: bool, s: Seq<Issue>) -> Seq<Issue> {
    if b { s } else { Seq::empty() }
}

/// The issues a run reports, before sorting: the parse errors; the
/// hardcoded text (hardcoded check); the missing keys, the keys that could
/// not be resolved and the keys other locales lack (missing-key check);
/// the unused and the orphan keys (orphan check); the untranslated values;
/// the values of another type.
pub open spec fn run_issues(checks: Set<CheckType>, f: Findings) -> Seq<Issue> {
    f.parse_errors@
        + when(checks.contains(CheckType::Hardcoded), f.hardcoded@.map_values(|h: HardcodedTextIssue| Issue::HardcodedText(h)))
        + when(checks.contains(CheckType::Missing), f.missing@.map_values(|m: MissingKeyIssue| Issue::MissingKey(m)))
        + when(checks.contains(CheckType::Missing), f.unresolved@.map_values(|u: UnresolvedKeyIssue| Issue::UnresolvedKey(u)))
        + when(checks.contains(CheckType::Missing), f.replica_lag@.map_values(|x: ReplicaLagIssue| Issue::ReplicaLag(x)))
        + when(checks.contains(CheckType::Orphan), f.unused@.map_values(|x: UnusedKeyIssue| Issue::UnusedKey(x)))
        + when(checks.contains(CheckType::Orphan), f.orphan@.map_values(|x: OrphanKeyIssue| Issue::OrphanKey(x)))
        + when(checks.contains(CheckType::Untranslated), f.untranslated@.map_values(|x: UntranslatedIssue| Issue::Untranslated(x)))
        + when(checks.contains(CheckType::TypeMismatch), f.type_mismatch@.map_values(|x: TypeMismatchIssue| Issue::TypeMismatch(x)))
}

/// How a character stands inside a quoted string in debug form: a quote, a
/// backslash, a newline, a carriage return and a tab are escaped.
pub open spec fn debug_char(c: char) -> Seq<char> {
    if c == '"' {
        seq!['\\', '"']
    } else if c == '\\' {
        seq!['\\', '\\']
    } else if c == '\n' {
        seq!['\\', 'n']
    } else if c == '\r' {
        seq!['\\', 'r']
    } else if c == '\t' {
        seq!['\\', 't']
    } else {
        seq![c]
    }
}

/// The characters of `s`, each in its debug form.
pub open spec fn debug_chars(s: Seq<char>) -> Seq<char>
    decreases s.len(),
{
    if s.len() == 0 { Seq::empty() } else { debug_chars(s.drop_last()) + debug_char(s.last()) }
}

/// A list of names in debug form: `["en", "zh"]`.
pub open spec fn debug_list(v: Seq<Seq<char>>) -> Seq<char>
    decreases v.len(),
{
    "["@ + debug_items(v) + "]"@
}

/// The quoted names of `v`, separated by `, `.
pub open spec fn debug_items(v: Seq<Seq<char>>) -> Seq<char>
    decreases v.len(),
{
    if v.len() == 0 {
        Seq::empty()
    } else if v.len() == 1 {
        seq!['"'] + debug_chars(v[0]) + seq!['"']
    } else {
        debug_items(v.drop_last()) + ", "@ + seq!['"'] + debug_chars(v.last()) + seq!['"']
    }
}

/// The line that names the locales that were found, or says there are none.
pub open spec fn locales_line(locales: Seq<Seq<char>>) -> Seq<char> {
    if locales.len() == 0 {
        "No locale files found in the directory."@
    } else {
        "Available locales: "@ + debug_list(locales)
    }
}

/// The message for a run whose checks need messages but whose primary
/// locale file was not found: the file and directory, the locales found,
/// and a hint.
pub open spec fn missing_primary_text(primary_locale: Seq<char>, messages_dir: Seq<char>, locales: Seq<Seq<char>>) -> Seq<char> {
    "Primary locale file '"@ + primary_locale + ".json' not found in '"@ + messages_dir + "'.\n"@
        + locales_line(locales)
        + "\nHint: Check your .glotrc.json 'primaryLocale' setting."@
}

fn push_debug_chars(out: &mut String, s: &str)
    ensures
        final(out)@ == old(out)@ + debug_chars(s@),
{
    let cs = chars_of(s);
    let ghost o0 = out@;
    let mut i: usize = 0;
    while i < cs.len()
        invariant
            i <= cs@.len(),
            cs@ == s@,
            out@ == o0 + debug_chars(cs@.take(i as int)),
        decreases cs@.len() - i,
    {
        let c = cs[i];
        proof {
            assert(cs@.take(i + 1).drop_last() =~= cs@.take(i as int));
            assert(cs@.take(i + 1).last() == c);
        }
        let ghost before = out@;
        if c == '"' {
            push_char(out, '\\');
            push_char(out, '"');
        } else if c == '\\' {
            push_char(out, '\\');
            push_char(out, '\\');
        } else if c == '\n' {
            push_char(out, '\\');
            push_char(out, 'n');
        } else if c == '\r' {
            push_char(out, '\\');
            push_char(out, 'r');
        } else if c == '\t' {
            push_char(out, '\\');
            push_char(out, 't');
        } else {
            push_char(out, c);
        }
        proof {
            assert(out@ =~= before + debug_char(c));
            assert(o0 + debug_chars(cs@.take(i + 1)) =~= o0 + debug_chars(cs@.take(i as int)) + debug_char(c));
        }
        i = i + 1;
    }
    proof { assert(cs@.take(cs@.len() as int) =~= cs@); }
}

fn locales_text(locales: &Vec<String>) -> (r: String)
    ensures
        r@ == locales_line(strs_view(locales@)),
{
    proof {
        reveal_strlit("No locale files found in the directory.");
        reveal_strlit("Available locales: ");
        reveal_strlit("[");
        reveal_strlit("]");
        reveal_strlit(", ");
    }
    if locales.len() == 0 {
        return text("No locale files found in the directory.");
    }
    let ghost v = strs_view(locales@);
    let mut items = String::new();
    let mut i: usize = 0;
    while i < locales.len()
        invariant
            i <= locales@.len(),
            v == strs_view(locales@),
            items@ == debug_items(v.take(i as int)),
        decreases locales@.len() - i,
    {
        proof {
            assert(v.take(i + 1).drop_last() =~= v.take(i as int));
            assert(v.take(i + 1).last() == locales@[i as int]@);
        }
        let ghost before = items@;
        if i > 0 {
            push_text(&mut items, ", ");
        }
        push_char(&mut items, '"');
        push_debug_chars(&mut items, locales[i].as_str());
        push_char(&mut items, '"');
        proof {
            if i == 0 {
                assert(before =~= Seq::<char>::empty());
                assert(v.take(1)[0] == locales@[0]@);
                assert(items@ =~= debug_items(v.take(1)));
            } else {
                assert(items@ =~= debug_items(v.take(i + 1)));
            }
        }
        i = i + 1;
    }
    proof { assert(v.take(v.len() as int) =~= v); }
    let mut r = text("Available locales: [");
    push_text(&mut r, items.as_str());
    push_char(&mut r, ']');
    proof {
        reveal_strlit("Available locales: [");
        assert("Available locales: ["@ =~= "Available locales: "@ + "["@);
        assert(r@ =~= "Available locales: "@ + debug_list(v));
    }
    r
}

fn append_wrapped<T, F: Fn(T) -> Issue>(out: &mut Vec<Issue>, v: Vec<T>, wrap: F, Ghost(f): Ghost<spec_fn(T) -> Issue>)
    requires
        forall|t: T| #[trigger] call_requires(wrap, (t,)),
        forall|t: T, r: Issue| #[trigger] call_ensures(wrap, (t,), r) ==> r == f(t),
    ensures
        final(out)@ == old(out)@ + v@.map_values(f),
{
    let ghost o0 = out@;
    let ghost s = v@;
    let mut rest = v;
    let n = rest.len();
    let mut k: usize = 0;
    while rest.len() > 0
        invariant
            n == s.len(),
            k <= s.len(),
            rest@ == s.skip(k as int),
            out@ == o0 + s.take(k as int).map_values(f),
            forall|t: T| #[trigger] call_requires(wrap, (t,)),
            forall|t: T, r: Issue| #[trigger] call_ensures(wrap, (t,), r) ==> r == f(t),
        decreases rest@.len(),
    {
        let x = rest.remove(0);
        proof {
            assert(s.skip(k as int)[0] == s[k as int]);
            assert(s.take(k + 1) =~= s.take(k as int).push(s[k as int]));
            assert(s.skip(k + 1) =~= s.skip(k as int).drop_first());
        }
        let w = wrap(x);
        out.push(w);
        proof {
            assert(out@ =~= o0 + s.take(k + 1).map_values(f));
        }
        k = k + 1;
    }
    proof { assert(s.take(k as int) =~= s); }
}

fn contains_check(checks: &Vec<CheckType>, check: CheckType) -> (r: bool)
    ensures
        r == checks@.to_set().contains(check),
{
    let mut i: usize = 0;
    while i < checks.len()
        invariant
            i <= checks@.len(),
            forall|j: int| 0 <= j < i ==> checks@[j] != check,
        decreases checks@.len() - i,
    {
        if checks[i] == check {
            assert(checks@.contains(check));
            return true;
        }
        i = i + 1;
    }
    false
}

/// Runs the selected checks over what they found: fails when they need the
/// messages and the primary locale file was not found (naming the locales
/// that were found); otherwise reports what the selected checks found
/// (`run_issues`), sorted by place, with their counts.
pub fn run_checks(
    checks: &Vec<CheckType>,
    findings: Findings,
    primary_locale_found: bool,
    primary_locale: &str,
    messages_dir: &str,
    locales: &Vec<String>,
    source_files_checked: usize,
    locale_files_checked: usize,
) -> (r: Result<RunResult, String>)
    ensures
        r is Err <==> (needs_usages(checks@.to_set()) && !primary_locale_found),
        r matches Err(e) ==> e@ == missing_primary_text(primary_locale@, messages_dir@, strs_view(locales@)),
        r matches Ok(res) ==> {
            let all = run_issues(checks@.to_set(), findings);
            &&& res.issues@ == sorted_by_place(all, all.len() as int)
            &&& res.issues@.to_multiset() == all.to_multiset()
            &&& res.error_count as nat == count_severity(all, Severity::Error)
            &&& res.warning_count as nat == count_severity(all, Severity::Warning)
            &&& res.parse_error_count as nat == count_parse_errors(all)
            &&& res.exit_on_errors
            &&& res.source_files_checked == source_files_checked
            &&& res.locale_files_checked == locale_files_checked
        },
{
    let hardcoded_on = contains_check(checks, CheckType::Hardcoded);
    let missing_on = contains_check(checks, CheckType::Missing);
    let orphan_on = contains_check(checks, CheckType::Orphan);
    let untranslated_on = contains_check(checks, CheckType::Untranslated);
    let type_on = contains_check(checks, CheckType::TypeMismatch);
    let needs = missing_on || untranslated_on || type_on || orphan_on;
    if needs && !primary_locale_found {
        let mut e = concat3("Primary locale file '", primary_locale, ".json' not found in '");
        push_text(&mut e, messages_dir);
        push_text(&mut e, "'.\n");
        let line = locales_text(locales);
        push_text(&mut e, line.as_str());
        push_text(&mut e, "\nHint: Check your .glotrc.json 'primaryLocale' setting.");
        return Err(e);
    }
    let ghost f0 = findings;
    let ghost cs = checks@.to_set();
    let Findings {
        parse_errors, hardcoded, missing, unresolved, replica_lag, unused, orphan, untranslated, type_mismatch,
    } = findings;
    let mut all = parse_errors;
    let ghost a0 = all@;
    if hardcoded_on {
        append_wrapped(&mut all, hardcoded,
            |x: HardcodedTextIssue| -> (r: Issue) ensures r == Issue::HardcodedText(x) { Issue::HardcodedText(x) },
            Ghost(|x: HardcodedTextIssue| Issue::HardcodedText(x)));
    }
    let ghost a1 = all@;
    if missing_on {
        append_wrapped(&mut all, missing,
            |x: MissingKeyIssue| -> (r: Issue) ensures r == Issue::MissingKey(x) { Issue::MissingKey(x) },
            Ghost(|x: MissingKeyIssue| Issue::MissingKey(x)));
    }
    let ghost a2 = all@;
    if missing_on {
        append_wrapped(&mut all, unresolved,
            |x: UnresolvedKeyIssue| -> (r: Issue) ensures r == Issue::UnresolvedKey(x) { Issue::UnresolvedKey(x) },
            Ghost(|x: UnresolvedKeyIssue| Issue::UnresolvedKey(x)));
    }
    let ghost a3 = all@;
    if missing_on {
        append_wrapped(&mut all, replica_lag,
            |x: ReplicaLagIssue| -> (r: Issue) ensures r == Issue::ReplicaLag(x) { Issue::ReplicaLag(x) },
            Ghost(|x: ReplicaLagIssue| Issue::ReplicaLag(x)));
    }
    let ghost a4 = all@;
    if orphan_on {
        append_wrapped(&mut all, unused,
            |x: UnusedKeyIssue| -> (r: Issue) ensures r == Issue::UnusedKey(x) { Issue::UnusedKey(x) },
            Ghost(|x: UnusedKeyIssue| Issue::UnusedKey(x)));
    }
    let ghost a5 = all@;
    if orphan_on {
        append_wrapped(&mut all, orphan,
            |x: OrphanKeyIssue| -> (r: Issue) ensures r == Issue::OrphanKey(x) { Issue::OrphanKey(x) },
            Ghost(|x: OrphanKeyIssue| Issue::OrphanKey(x)));
    }
    let ghost a6 = all@;
    if untranslated_on {
        append_wrapped(&mut all, untranslated,
            |x: UntranslatedIssue| -> (r: Issue) ensures r == Issue::Untranslated(x) { Issue::Untranslated(x) },
            Ghost(|x: UntranslatedIssue| Issue::Untranslated(x)));
    }
    let ghost a7 = all@;
    if type_on {
        append_wrapped(&mut all, type_mismatch,
            |x: TypeMismatchIssue| -> (r: Issue) ensures r == Issue::TypeMismatch(x) { Issue::TypeMismatch(x) },
            Ghost(|x: TypeMismatchIssue| Issue::TypeMismatch(x)));
    }
    proof {
        assert(a0 == f0.parse_errors@);
        assert(a1 =~= a0 + when(cs.contains(CheckType::Hardcoded), f0.hardcoded@.map_values(|h: HardcodedTextIssue| Issue::HardcodedText(h))));
        assert(a2 =~= a1 + when(cs.contains(CheckType::Missing), f0.missing@.map_values(|m: MissingKeyIssue| Issue::MissingKey(m))));
        assert(a3 =~= a2 + when(cs.contains(CheckType::Missing), f0.unresolved@.map_values(|u: UnresolvedKeyIssue| Issue::UnresolvedKey(u))));
        assert(a4 =~= a3 + when(cs.contains(CheckType::Missing), f0.replica_lag@.map_values(|x: ReplicaLagIssue| Issue::ReplicaLag(x))));
        assert(a5 =~= a4 + when(cs.contains(CheckType::Orphan), f0.unused@.map_values(|x: UnusedKeyIssue| Issue::UnusedKey(x))));
        assert(a6 =~= a5 + when(cs.contains(CheckType::Orphan), f0.orphan@.map_values(|x: OrphanKeyIssue| Issue::OrphanKey(x))));
        assert(a7 =~= a6 + when(cs.contains(CheckType::Untranslated), f0.untranslated@.map_values(|x: UntranslatedIssue| Issue::Untranslated(x))));
        assert(all@ =~= a7 + when(cs.contains(CheckType::TypeMismatch), f0.type_mismatch@.map_values(|x: TypeMismatchIssue| Issue::TypeMismatch(x))));
        assert(all@ =~= run_issues(cs, f0));
    }
    Ok(finish(all, source_files_checked, locale_files_checked))
}

/// The primary locale's messages of a context, where they were found.
pub open spec fn primary_of(c: Cells) -> Option<MessageMap> {
    match c.messages() {
        Some(m) => m.primary_messages,
        None => None,
    }
}

/// `v` is the hardcoded text found, where the check is on.
pub open spec fn hardcoded_found(c: Cells, on: bool, v: Seq<HardcodedTextIssue>) -> bool {
    if on && c.hardcoded_issues() is Some {
        let hs = all_hardcoded(c.hardcoded_issues()->0.spec_entries());
        &&& v.len() == hs.len()
        &&& forall|i: int| 0 <= i < hs.len() ==> hardcoded_reported(#[trigger] v[i], hs[i])
    } else {
        v.len() == 0
    }
}

/// `v` is the missing keys found, where the check is on: those used in
/// code, then those schema calls expand to.
pub open spec fn missing_found(c: Cells, on: bool, v: Seq<MissingKeyIssue>) -> bool {
    if on && c.extractions() is Some && primary_of(c) is Some {
        let e = c.extractions()->0.spec_entries();
        let p = primary_of(c)->0@;
        let used = missing_in_primary(all_used(e), p);
        &&& v.len() >= used.len()
        &&& v.take(used.len() as int) == used
        &&& match c.registries() {
            Some(reg) => v.skip(used.len() as int).map_values(|i: MissingKeyIssue| schema_issue_view(i))
                == schema_missing(all_schema_calls(e), reg.schema, p),
            None => v.len() == used.len(),
        }
    } else {
        v.len() == 0
    }
}

/// `v` is the unresolved keys found, where the check is on.
pub open spec fn unresolved_found(c: Cells, on: bool, v: Seq<UnresolvedKeyIssue>) -> bool {
    if on && c.extractions() is Some {
        let ws = all_warnings(c.extractions()->0.spec_entries());
        &&& v.len() == ws.len()
        &&& forall|i: int| 0 <= i < ws.len() ==> unresolved_reported(#[trigger] v[i], ws[i])
    } else {
        v.len() == 0
    }
}

/// `v` is the keys other locales lack, where the check is on.
pub open spec fn replica_found(c: Cells, on: bool, pl: Seq<char>, v: Seq<ReplicaLagIssue>) -> bool {
    if on && c.extractions() is Some && c.messages() is Some {
        let m = c.messages()->0;
        let sel = lagging_entries(primary_entries(m), m.all_messages.spec_entries(), pl);
        &&& v.len() == sel.len()
        &&& forall|i: int| 0 <= i < sel.len() ==> replica_lag_of(#[trigger] v[i], sel[i],
            m.all_messages.spec_entries(), pl, all_used(c.extractions()->0.spec_entries()))
    } else {
        v.len() == 0
    }
}

/// `v` is the unused keys found, where the check is on.
pub open spec fn unused_found(c: Cells, on: bool, v: Seq<UnusedKeyIssue>) -> bool {
    if on && primary_of(c) is Some && c.used_keys() is Some {
        let es = unused_entries(primary_of(c)->0.spec_entries(), c.used_keys()->0@);
        &&& v.len() == es.len()
        &&& forall|i: int| 0 <= i < v.len() ==> (#[trigger] v[i]).context.same_as(es[i])
    } else {
        v.len() == 0
    }
}

/// `v` is the orphan keys found, where the check is on.
pub open spec fn orphan_found(c: Cells, on: bool, pl: Seq<char>, v: Seq<OrphanKeyIssue>) -> bool {
    if on && primary_of(c) is Some {
        let es = orphan_entries(c.messages()->0.all_messages.spec_entries(), primary_of(c)->0@.dom(), pl);
        &&& v.len() == es.len()
        &&& forall|i: int| 0 <= i < v.len() ==> (#[trigger] v[i]).context.same_as(es[i].0) && v[i].locale@ == es[i].1
    } else {
        v.len() == 0
    }
}

/// `v` is the untranslated values found, where the check is on.
pub open spec fn untranslated_found(c: Cells, on: bool, pl: Seq<char>, v: Seq<UntranslatedIssue>) -> bool {
    if on && c.extractions() is Some && c.messages() is Some {
        let m = c.messages()->0;
        let used = all_used(c.extractions()->0.spec_entries());
        let sel = untranslated_entries(primary_entries(m), m.all_messages.spec_entries(), pl, used);
        &&& v.len() == sel.len()
        &&& forall|i: int| 0 <= i < sel.len() ==> untranslated_of(#[trigger] v[i], sel[i], m.all_messages.spec_entries(), pl, used)
    } else {
        v.len() == 0
    }
}

/// `v` is the values of another type found, where the check is on.
pub open spec fn type_found(
    c: Cells,
    on: bool,
    pl: Seq<char>,
    types: Map<Seq<char>, StrMap<ValueType>>,
    v: Seq<TypeMismatchIssue>,
) -> bool {
    if on && c.extractions() is Some && c.messages() is Some {
        let m = c.messages()->0;
        let sel = mismatched_entries(primary_entries(m), m.all_messages.spec_entries(), types, pl);
        &&& v.len() == sel.len()
        &&& forall|i: int| 0 <= i < sel.len() ==> type_mismatch_of(#[trigger] v[i], sel[i],
            m.all_messages.spec_entries(), types, pl, all_used(c.extractions()->0.spec_entries()))
    } else {
        v.len() == 0
    }
}

/// `f` is what the checks of `cs` find in the data of `ctx`, with these
/// value types and parse errors.
pub open spec fn findings_of(
    ctx: CheckContext,
    cs: Set<CheckType>,
    types: Map<Seq<char>, StrMap<ValueType>>,
    parse_errors: Seq<Issue>,
    f: Findings,
) -> bool {
    let c = ctx.cells;
    let pl = ctx.config.primary_locale@;
    &&& f.parse_errors@ == parse_errors
    &&& hardcoded_found(c, cs.contains(CheckType::Hardcoded), f.hardcoded@)
    &&& missing_found(c, cs.contains(CheckType::Missing), f.missing@)
    &&& unresolved_found(c, cs.contains(CheckType::Missing), f.unresolved@)
    &&& replica_found(c, cs.contains(CheckType::Missing), pl, f.replica_lag@)
    &&& unused_found(c, cs.contains(CheckType::Orphan), f.unused@)
    &&& orphan_found(c, cs.contains(CheckType::Orphan), pl, f.orphan@)
    &&& untranslated_found(c, cs.contains(CheckType::Untranslated), pl, f.untranslated@)
    &&& type_found(c, cs.contains(CheckType::TypeMismatch), pl, types, f.type_mismatch@)
}

impl CheckRunner {
    /// What the checks asked for find in the data of the context (the data
    /// they need loaded beforehand; a check finds nothing in data that is
    /// not there), with the type of each message value, locale by locale,
    /// and the parse errors of the source files.
    pub fn findings(&self, types: &StrMap<StrMap<ValueType>>, parse_errors: Vec<Issue>) -> (f: Findings)
        ensures
            findings_of(self.ctx, self.check_set(), types@, parse_errors@, f),
    {
        let ghost c = self.ctx.cells;
        let pl = self.ctx.config.primary_locale.as_str();
        let hardcoded_on = self.has(CheckType::Hardcoded);
        let missing_on = self.has(CheckType::Missing);
        let orphan_on = self.has(CheckType::Orphan);
        let untranslated_on = self.has(CheckType::Untranslated);
        let type_on = self.has(CheckType::TypeMismatch);
        let usages = self.ctx.all_key_usages();
        let messages = self.ctx.messages();
        let primary: Option<&MessageMap> = match messages {
            Some(m) => match &m.primary_messages {
                Some(p) => Some(p),
                None => None,
            },
            None => None,
        };
        assert(primary matches Some(p) ==> primary_of(c) == Some(*p));
        assert(primary is None ==> primary_of(c) is None);

        let hardcoded = match self.ctx.hardcoded_issues() {
            Some(a) => if hardcoded_on { hardcoded_findings(a) } else { Vec::new() },
            None => Vec::new(),
        };
        let mut missing: Vec<MissingKeyIssue> = Vec::new();
        let mut unresolved: Vec<UnresolvedKeyIssue> = Vec::new();
        let mut replica_lag: Vec<ReplicaLagIssue> = Vec::new();
        if missing_on {
            match usages {
                Some(u) => {
                    unresolved = unresolved_findings(u);
                    match primary {
                        Some(p) => {
                            missing = missing_key_issues(u, p);
                            let ghost used = missing@;
                            assert(missing@.take(used.len() as int) =~= used);
                            match self.ctx.registries() {
                                Some(reg) => {
                                    let mut more = schema_missing_key_issues(u, &reg.schema, p);
                                    let ghost sv = more@;
                                    missing.append(&mut more);
                                    proof {
                                        assert(missing@.take(used.len() as int) =~= used);
                                        assert(missing@.skip(used.len() as int) =~= sv);
                                    }
                                },
                                None => {},
                            }
                        },
                        None => {},
                    }
                    match messages {
                        Some(m) => {
                            replica_lag = replica_lag_issues(pl, m, u);
                        },
                        None => {},
                    }
                },
                None => {},
            }
        }
        let mut unused: Vec<UnusedKeyIssue> = Vec::new();
        let mut orphan: Vec<OrphanKeyIssue> = Vec::new();
        if orphan_on {
            match primary {
                Some(p) => {
                    match self.ctx.used_keys() {
                        Some(k) => {
                            unused = unused_key_issues(p, k);
                        },
                        None => {},
                    }
                    match messages {
                        Some(m) => {
                            orphan = orphan_key_issues(pl, &m.all_messages, p);
                        },
                        None => {},
                    }
                },
                None => {},
            }
        }
        let mut untranslated: Vec<UntranslatedIssue> = Vec::new();
        let mut type_mismatch: Vec<TypeMismatchIssue> = Vec::new();
        match (usages, messages) {
            (Some(u), Some(m)) => {
                if untranslated_on {
                    untranslated = untranslated_issues(pl, m, u);
                }
                if type_on {
                    type_mismatch = type_mismatch_issues(pl, m, types, u);
                }
            },
            _ => {},
        }
        Findings {
            parse_errors,
            hardcoded,
            missing,
            unresolved,
            replica_lag,
            unused,
            orphan,
            untranslated,
            type_mismatch,
        }
    }
}

/// The locales whose message files were found, in order.
pub open spec fn locale_names(m: Option<MessageData>) -> Seq<Seq<char>> {
    match m {
        Some(d) => d.all_messages.spec_entries().map_values(|e: (String, MessageMap)| e.0@),
        None => Seq::empty(),
    }
}

/// The number of message files found.
pub open spec fn locale_count(m: Option<MessageData>) -> nat {
    match m {
        Some(d) => d.all_messages.spec_entries().len(),
        None => 0,
    }
}

fn names_of(m: Option<&MessageData>) -> (r: Vec<String>)
    ensures
        strs_view(r@) == locale_names(match m { Some(d) => Some(*d), None => None }),
{
    let mut out: Vec<String> = Vec::new();
    match m {
        Some(d) => {
            let es = d.all_messages.entries();
            let mut i: usize = 0;
            while i < es.len()
                invariant
                    i <= es@.len(),
                    es@ == d.all_messages.spec_entries(),
                    strs_view(out@) == es@.take(i as int).map_values(|e: (String, MessageMap)| e.0@),
                decreases es@.len() - i,
            {
                let ghost before = out@;
                out.push(es[i].0.clone());
                proof {
                    assert(out@ == before.push(es@[i as int].0));
                    assert(es@.take(i + 1) =~= es@.take(i as int).push(es@[i as int]));
                    assert(strs_view(out@) =~= strs_view(before).push(es@[i as int].0@));
                    assert(strs_view(out@) =~= es@.take(i + 1).map_values(|e: (String, MessageMap)| e.0@));
                }
                i = i + 1;
            }
            proof { assert(es@.take(es@.len() as int) =~= es@); }
        },
        None => {
            proof { assert(strs_view(out@) =~= Seq::<Seq<char>>::empty()); }
        },
    }
    out
}

impl CheckRunner {
    /// Runs the checks asked for over the data of the context (loaded
    /// beforehand), with the type of each message value and the parse
    /// errors of the source files: fails when the checks need the messages
    /// and the primary locale's file was not found, naming the locales that
    /// were; otherwise reports what the checks find (`findings_of`), sorted
    /// by place, with their counts, the source files and the message files.
    pub fn run(self, types: &StrMap<StrMap<ValueType>>, parse_errors: Vec<Issue>) -> (r: Result<RunResult, String>)
        ensures
            r is Err <==> (needs_usages(self.check_set()) && primary_of(self.ctx.cells) is None),
            r matches Err(e) ==> e@ == missing_primary_text(
                self.ctx.config.primary_locale@,
                spec_resolved_messages_dir(self.ctx.root_dir@, self.ctx.config.messages_dir@),
                locale_names(self.ctx.cells.messages()),
            ),
            r matches Ok(res) ==> exists|f: Findings| #[trigger] findings_of(self.ctx, self.check_set(), types@, parse_errors@, f) && {
                let all = run_issues(self.check_set(), f);
                &&& res.issues@ == sorted_by_place(all, all.len() as int)
                &&& res.issues@.to_multiset() == all.to_multiset()
                &&& res.error_count as nat == count_severity(all, Severity::Error)
                &&& res.warning_count as nat == count_severity(all, Severity::Warning)
                &&& res.parse_error_count as nat == count_parse_errors(all)
                &&& res.source_files_checked == self.ctx.files@.len()
                &&& res.locale_files_checked == locale_count(self.ctx.cells.messages())
            },
    {
        let f = self.findings(types, parse_errors);
        let ghost f0 = f;
        let messages = self.ctx.messages();
        let found = match messages {
            Some(m) => m.primary_messages.is_some(),
            None => false,
        };
        let locales = names_of(messages);
        let dir = self.ctx.resolved_messages_dir();
        let locale_files = match messages {
            Some(m) => m.all_messages.len(),
            None => 0,
        };
        let r = run_checks(
            &self.checks,
            f,
            found,
            self.ctx.config.primary_locale.as_str(),
            dir.as_str(),
            &locales,
            self.ctx.files.len(),
            locale_files,
        );
        proof {
            assert(self.checks@.to_set() == self.check_set());
            assert(findings_of(self.ctx, self.check_set(), types@, parse_errors@, f0));
        }
        r
    }
}

} // verus!
