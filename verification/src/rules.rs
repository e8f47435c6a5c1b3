//! The checks that hold the keys used in code against the message files:
//! keys the primary locale lacks, keys other locales lack, values left as
//! in the primary locale, and values of another type than there.

use vstd::prelude::*;
use crate::check_context::{AllHardcodedIssues, AllKeyUsages, MessageData, MessageMap};
use crate::context::{CommentStyle, LocaleTypeMismatch, MessageContext, MessageLocation, SourceContext, SourceLocation, ValueType};
use crate::extraction::{DynamicKeyReason, DynamicKeyWarning, MissingKeyResult, UsedKey};
use crate::hardcoded::HardcodedIssue;
use crate::issues::{
    FullKey, HardcodedTextIssue, IssueUnresolvedKeyReason, MissingKeyIssue, ReplicaLagIssue, ResolvedKeyUsage, Rule,
    TypeMismatchIssue, UnresolvedKeyIssue, UntranslatedIssue,
};
use crate::schema::{expand_schema_keys, expanded_views, expansion, key_well_formed, SchemaCallInfo, SchemaRegistry};
use crate::strmap::{StrMap, StrSet};
use crate::text::str_eq;

verus! {

/// Every used key of every file, file by file in the order of the usages.
pub open spec fn all_used(e: Seq<(String, MissingKeyResult)>) -> Seq<UsedKey>
    decreases e.len(),
{
    if e.len() == 0 {
        Seq::empty()
    } else {
        all_used(e.drop_last()) + e.last().1.used_keys@
    }
}

/// The comment style at a usage.
pub open spec fn style_of(in_jsx: bool) -> CommentStyle {
    if in_jsx { CommentStyle::Jsx } else { CommentStyle::Js }
}

/// The place in code of a usage.
pub open spec fn source_context_of(u: UsedKey) -> SourceContext {
    SourceContext {
        location: SourceLocation { file_path: u.file_path, line: u.line, col: u.col },
        source_line: u.source_line,
        comment_style: style_of(u.in_jsx_context),
    }
}

/// The missing-key finding at a usage.
pub open spec fn missing_issue_of(u: UsedKey) -> MissingKeyIssue {
    MissingKeyIssue { context: source_context_of(u), key: u.full_key, from_schema: None }
}

/// One finding for each usage, in order, whose key the primary locale lacks.
pub open spec fn missing_in_primary(used: Seq<UsedKey>, primary: Map<Seq<char>, MessageContext>) -> Seq<MissingKeyIssue>
    decreases used.len(),
{
    if used.len() == 0 {
        Seq::empty()
    } else {
        let rest = missing_in_primary(used.drop_last(), primary);
        if primary.contains_key(used.last().full_key@) { rest } else { rest.push(missing_issue_of(used.last())) }
    }
}

/// The usages of the key `k`, in order.
pub open spec fn uses_of(used: Seq<UsedKey>, k: Seq<char>) -> Seq<UsedKey>
    decreases used.len(),
{
    if used.len() == 0 {
        Seq::empty()
    } else {
        let rest = uses_of(used.drop_last(), k);
        if used.last().full_key@ == k { rest.push(used.last()) } else { rest }
    }
}

/// The rules a usage switches off.
pub open spec fn suppressed_at(u: UsedKey) -> Seq<Rule> {
    if u.untranslated_disabled { seq![Rule::Untranslated] } else { Seq::empty() }
}

/// `r` reports the usage `u`.
pub open spec fn usage_matches(r: ResolvedKeyUsage, u: UsedKey) -> bool {
    &&& r.key.key@ == u.full_key@
    &&& r.context == source_context_of(u)
    &&& r.suppressed_rules@ == suppressed_at(u)
    &&& r.from_schema is None
}

/// `rs` reports the usages `us`, one for one and in order.
pub open spec fn usages_match(rs: Seq<ResolvedKeyUsage>, us: Seq<UsedKey>) -> bool {
    &&& rs.len() == us.len()
    &&& forall|i: int| 0 <= i < rs.len() ==> usage_matches(#[trigger] rs[i], us[i])
}

/// A usage of `k` switches the untranslated rule off.
pub open spec fn untranslated_off(used: Seq<UsedKey>, k: Seq<char>) -> bool {
    exists|j: int| #![trigger used[j]] 0 <= j < used.len() && used[j].full_key@ == k && used[j].untranslated_disabled
}

fn copy_used(u: &UsedKey) -> (r: UsedKey)
    ensures
        r == *u,
{
    UsedKey {
        full_key: u.full_key.clone(),
        file_path: u.file_path.clone(),
        line: u.line,
        col: u.col,
        source_line: u.source_line.clone(),
        in_jsx_context: u.in_jsx_context,
        untranslated_disabled: u.untranslated_disabled,
    }
}

fn context_at(u: &UsedKey) -> (r: SourceContext)
    ensures
        r == source_context_of(*u),
{
    SourceContext {
        location: SourceLocation { file_path: u.file_path.clone(), line: u.line, col: u.col },
        source_line: u.source_line.clone(),
        comment_style: if u.in_jsx_context { CommentStyle::Jsx } else { CommentStyle::Js },
    }
}

fn copy_message(c: &MessageContext) -> (r: MessageContext)
    ensures
        r == *c,
{
    MessageContext {
        location: MessageLocation {
            file_path: c.location.file_path.clone(),
            line: c.location.line,
            col: c.location.col,
        },
        key: c.key.clone(),
        value: c.value.clone(),
    }
}

/// Every used key of every file of the key usages, file by file.
pub fn flat_used_keys(usages: &AllKeyUsages) -> (r: Vec<UsedKey>)
    ensures
        r@ == all_used(usages.spec_entries()),
{
    let entries = usages.entries();
    let mut out: Vec<UsedKey> = Vec::new();
    let mut i: usize = 0;
    while i < entries.len()
        invariant
            i <= entries@.len(),
            entries@ == usages.spec_entries(),
            out@ == all_used(entries@.take(i as int)),
        decreases entries@.len() - i,
    {
        let used = &entries[i].1.used_keys;
        let ghost before = out@;
        let mut j: usize = 0;
        while j < used.len()
            invariant
                i < entries@.len(),
                j <= used@.len(),
                used@ == entries@[i as int].1.used_keys@,
                out@ == before + used@.take(j as int),
            decreases used@.len() - j,
        {
            out.push(copy_used(&used[j]));
            proof {
                assert(before + used@.take(j + 1) =~= (before + used@.take(j as int)).push(used@[j as int]));
            }
            j = j + 1;
        }
        proof {
            assert(entries@.take(i + 1).drop_last() =~= entries@.take(i as int));
            assert(used@.take(used@.len() as int) =~= used@);
        }
        i = i + 1;
    }
    proof { assert(entries@.take(entries@.len() as int) =~= entries@); }
    out
}

/// The keys used in code that the primary locale's messages lack: one
/// finding at each such usage, file by file and in order.
pub fn missing_key_issues(usages: &AllKeyUsages, primary: &MessageMap) -> (r: Vec<MissingKeyIssue>)
    ensures
        r@ == missing_in_primary(all_used(usages.spec_entries()), primary@),
{
    let used = flat_used_keys(usages);
    let mut out: Vec<MissingKeyIssue> = Vec::new();
    let mut i: usize = 0;
    while i < used.len()
        invariant
            i <= used@.len(),
            out@ == missing_in_primary(used@.take(i as int), primary@),
        decreases used@.len() - i,
    {
        proof {
            assert(used@.take(i + 1).drop_last() =~= used@.take(i as int));
        }
        let u = &used[i];
        if !primary.contains_key(u.full_key.as_str()) {
            out.push(MissingKeyIssue { context: context_at(u), key: u.full_key.clone(), from_schema: None });
        }
        i = i + 1;
    }
    proof { assert(used@.take(used@.len() as int) =~= used@); }
    out
}

/// The usages of `k`, as reported with a finding.
pub fn usages_for(used: &Vec<UsedKey>, k: &str) -> (r: Vec<ResolvedKeyUsage>)
    ensures
        usages_match(r@, uses_of(used@, k@)),
{
    let mut out: Vec<ResolvedKeyUsage> = Vec::new();
    let mut i: usize = 0;
    while i < used.len()
        invariant
            i <= used@.len(),
            usages_match(out@, uses_of(used@.take(i as int), k@)),
        decreases used@.len() - i,
    {
        proof {
            assert(used@.take(i + 1).drop_last() =~= used@.take(i as int));
        }
        let u = &used[i];
        if str_eq(u.full_key.as_str(), k) {
            let mut rules: Vec<Rule> = Vec::new();
            if u.untranslated_disabled {
                rules.push(Rule::Untranslated);
            }
            proof {
                if u.untranslated_disabled {
                    assert(rules@ =~= seq![Rule::Untranslated]);
                } else {
                    assert(rules@ =~= Seq::<Rule>::empty());
                }
            }
            out.push(ResolvedKeyUsage {
                key: FullKey { key: u.full_key.clone() },
                context: context_at(u),
                suppressed_rules: rules,
                from_schema: None,
            });
        }
        i = i + 1;
    }
    proof { assert(used@.take(used@.len() as int) =~= used@); }
    out
}

/// Whether a usage of `k` switches the untranslated rule off.
pub fn untranslated_switched_off(used: &Vec<UsedKey>, k: &str) -> (r: bool)
    ensures
        r == untranslated_off(used@, k@),
{
    let mut i: usize = 0;
    while i < used.len()
        invariant
            i <= used@.len(),
            forall|j: int| #![trigger used@[j]] 0 <= j < i ==> !(used@[j].full_key@ == k@ && used@[j].untranslated_disabled),
        decreases used@.len() - i,
    {
        if used[i].untranslated_disabled && str_eq(used[i].full_key.as_str(), k) {
            return true;
        }
        i = i + 1;
    }
    false
}

/// The entries of the primary locale's messages, in order (none where they
/// were not found).
pub open spec fn primary_entries(m: MessageData) -> Seq<(String, MessageContext)> {
    match m.primary_messages {
        Some(p) => p.spec_entries(),
        None => Seq::empty(),
    }
}

/// The locales other than the primary one whose messages lack `k`, in the
/// order of the locales.
pub open spec fn lagging_in(locales: Seq<(String, MessageMap)>, pl: Seq<char>, k: Seq<char>) -> Seq<String>
    decreases locales.len(),
{
    if locales.len() == 0 {
        Seq::empty()
    } else {
        let rest = lagging_in(locales.drop_last(), pl, k);
        let e = locales.last();
        if e.0@ != pl && !e.1@.contains_key(k) { rest.push(e.0) } else { rest }
    }
}

/// The locales other than the primary one whose value for `k` is `v`, in
/// the order of the locales.
pub open spec fn identical_in(locales: Seq<(String, MessageMap)>, pl: Seq<char>, k: Seq<char>, v: Seq<char>) -> Seq<String>
    decreases locales.len(),
{
    if locales.len() == 0 {
        Seq::empty()
    } else {
        let rest = identical_in(locales.drop_last(), pl, k, v);
        let e = locales.last();
        if e.0@ != pl && e.1@.contains_key(k) && e.1@[k].value@ == v { rest.push(e.0) } else { rest }
    }
}

/// The primary entries that some other locale lacks.
pub open spec fn lagging_entries(es: Seq<(String, MessageContext)>, locales: Seq<(String, MessageMap)>, pl: Seq<char>) -> Seq<(String, MessageContext)>
    decreases es.len(),
{
    if es.len() == 0 {
        Seq::empty()
    } else {
        let rest = lagging_entries(es.drop_last(), locales, pl);
        if lagging_in(locales, pl, es.last().0@).len() > 0 { rest.push(es.last()) } else { rest }
    }
}

/// The primary entries whose value some other locale repeats, unless a
/// usage of the key switches the rule off.
pub open spec fn untranslated_entries(
    es: Seq<(String, MessageContext)>,
    locales: Seq<(String, MessageMap)>,
    pl: Seq<char>,
    used: Seq<UsedKey>,
) -> Seq<(String, MessageContext)>
    decreases es.len(),
{
    if es.len() == 0 {
        Seq::empty()
    } else {
        let rest = untranslated_entries(es.drop_last(), locales, pl, used);
        let e = es.last();
        if !untranslated_off(used, e.0@) && identical_in(locales, pl, e.0@, e.1.value@).len() > 0 {
            rest.push(e)
        } else {
            rest
        }
    }
}

/// `r` reports that the locales of `lagging_in` lack the primary entry `e`.
pub open spec fn replica_lag_of(
    r: ReplicaLagIssue,
    e: (String, MessageContext),
    locales: Seq<(String, MessageMap)>,
    pl: Seq<char>,
    used: Seq<UsedKey>,
) -> bool {
    &&& r.context == e.1
    &&& r.primary_locale@ == pl
    &&& r.missing_in@ == lagging_in(locales, pl, e.0@)
    &&& usages_match(r.usages@, uses_of(used, e.0@))
}

/// `r` reports that the locales of `identical_in` repeat the value of the
/// primary entry `e`.
pub open spec fn untranslated_of(
    r: UntranslatedIssue,
    e: (String, MessageContext),
    locales: Seq<(String, MessageMap)>,
    pl: Seq<char>,
    used: Seq<UsedKey>,
) -> bool {
    &&& r.context == e.1
    &&& r.primary_locale@ == pl
    &&& r.identical_in@ == identical_in(locales, pl, e.0@, e.1.value@)
    &&& usages_match(r.usages@, uses_of(used, e.0@))
}

fn lagging_locales(locales: &Vec<(String, MessageMap)>, pl: &str, k: &str) -> (r: Vec<String>)
    ensures
        r@ == lagging_in(locales@, pl@, k@),
{
    let mut out: Vec<String> = Vec::new();
    let mut i: usize = 0;
    while i < locales.len()
        invariant
            i <= locales@.len(),
            out@ == lagging_in(locales@.take(i as int), pl@, k@),
        decreases locales@.len() - i,
    {
        proof {
            assert(locales@.take(i + 1).drop_last() =~= locales@.take(i as int));
        }
        let e = &locales[i];
        if !str_eq(e.0.as_str(), pl) && !e.1.contains_key(k) {
            out.push(e.0.clone());
        }
        i = i + 1;
    }
    proof { assert(locales@.take(locales@.len() as int) =~= locales@); }
    out
}

fn identical_locales(locales: &Vec<(String, MessageMap)>, pl: &str, k: &str, v: &str) -> (r: Vec<String>)
    ensures
        r@ == identical_in(locales@, pl@, k@, v@),
{
    let mut out: Vec<String> = Vec::new();
    let mut i: usize = 0;
    while i < locales.len()
        invariant
            i <= locales@.len(),
            out@ == identical_in(locales@.take(i as int), pl@, k@, v@),
        decreases locales@.len() - i,
    {
        proof {
            assert(locales@.take(i + 1).drop_last() =~= locales@.take(i as int));
        }
        let e = &locales[i];
        if !str_eq(e.0.as_str(), pl) {
            match e.1.get(k) {
                Some(c) => {
                    if str_eq(c.value.as_str(), v) {
                        out.push(e.0.clone());
                    }
                },
                None => {},
            }
        }
        i = i + 1;
    }
    proof { assert(locales@.take(locales@.len() as int) =~= locales@); }
    out
}

/// The keys of the primary locale that other locales lack: one finding
/// for each such key, in the order of the primary messages, naming the
/// locales that lack it and listing the usages of the key in code. None
/// where the primary messages were not found.
pub fn replica_lag_issues(primary_locale: &str, messages: &MessageData, usages: &AllKeyUsages) -> (r: Vec<ReplicaLagIssue>)
    ensures
        ({
            let sel = lagging_entries(primary_entries(*messages), messages.all_messages.spec_entries(), primary_locale@);
            &&& r@.len() == sel.len()
            &&& forall|i: int| 0 <= i < sel.len() ==> replica_lag_of(#[trigger] r@[i], sel[i],
                messages.all_messages.spec_entries(), primary_locale@, all_used(usages.spec_entries()))
        }),
{
    let mut out: Vec<ReplicaLagIssue> = Vec::new();
    let primary = match &messages.primary_messages {
        Some(p) => p,
        None => {
            return out;
        },
    };
    let used = flat_used_keys(usages);
    let locales = messages.all_messages.entries();
    let es = primary.entries();
    let ghost ls = locales@;
    let ghost pl = primary_locale@;
    let mut i: usize = 0;
    while i < es.len()
        invariant
            i <= es@.len(),
            es@ == primary_entries(*messages),
            ls == messages.all_messages.spec_entries(),
            locales@ == ls,
            pl == primary_locale@,
            used@ == all_used(usages.spec_entries()),
            ({
                let sel = lagging_entries(es@.take(i as int), ls, pl);
                &&& out@.len() == sel.len()
                &&& forall|j: int| 0 <= j < sel.len() ==> replica_lag_of(#[trigger] out@[j], sel[j], ls, pl, used@)
            }),
        decreases es@.len() - i,
    {
        proof {
            assert(es@.take(i + 1).drop_last() =~= es@.take(i as int));
        }
        let e = &es[i];
        let missing_in = lagging_locales(locales, primary_locale, e.0.as_str());
        if missing_in.len() > 0 {
            let issue = ReplicaLagIssue {
                context: copy_message(&e.1),
                primary_locale: primary_locale.to_string(),
                missing_in,
                usages: usages_for(&used, e.0.as_str()),
            };
            let ghost before = out@;
            out.push(issue);
            proof {
                let sel = lagging_entries(es@.take(i + 1), ls, pl);
                assert(sel == lagging_entries(es@.take(i as int), ls, pl).push(es@[i as int]));
                assert forall|j: int| 0 <= j < sel.len() implies replica_lag_of(#[trigger] out@[j], sel[j], ls, pl, used@) by {
                    if j < before.len() {
                        assert(out@[j] == before[j]);
                    }
                }
            }
        }
        i = i + 1;
    }
    proof { assert(es@.take(es@.len() as int) =~= es@); }
    out
}

/// The values of the primary locale that other locales repeat as they
/// are: one finding for each such key, in the order of the primary
/// messages, naming the locales, unless a usage of the key switches the
/// untranslated rule off. None where the primary messages were not found.
pub fn untranslated_issues(primary_locale: &str, messages: &MessageData, usages: &AllKeyUsages) -> (r: Vec<UntranslatedIssue>)
    ensures
        ({
            let used = all_used(usages.spec_entries());
            let sel = untranslated_entries(primary_entries(*messages), messages.all_messages.spec_entries(), primary_locale@, used);
            &&& r@.len() == sel.len()
            &&& forall|i: int| 0 <= i < sel.len() ==> untranslated_of(#[trigger] r@[i], sel[i],
                messages.all_messages.spec_entries(), primary_locale@, used)
        }),
{
    let mut out: Vec<UntranslatedIssue> = Vec::new();
    let primary = match &messages.primary_messages {
        Some(p) => p,
        None => {
            return out;
        },
    };
    let used = flat_used_keys(usages);
    let locales = messages.all_messages.entries();
    let es = primary.entries();
    let ghost ls = locales@;
    let ghost pl = primary_locale@;
    let mut i: usize = 0;
    while i < es.len()
        invariant
            i <= es@.len(),
            es@ == primary_entries(*messages),
            ls == messages.all_messages.spec_entries(),
            locales@ == ls,
            pl == primary_locale@,
            used@ == all_used(usages.spec_entries()),
            ({
                let sel = untranslated_entries(es@.take(i as int), ls, pl, used@);
                &&& out@.len() == sel.len()
                &&& forall|j: int| 0 <= j < sel.len() ==> untranslated_of(#[trigger] out@[j], sel[j], ls, pl, used@)
            }),
        decreases es@.len() - i,
    {
        proof {
            assert(es@.take(i + 1).drop_last() =~= es@.take(i as int));
        }
        let e = &es[i];
        if !untranslated_switched_off(&used, e.0.as_str()) {
            let same = identical_locales(locales, primary_locale, e.0.as_str(), e.1.value.as_str());
            if same.len() > 0 {
                let issue = UntranslatedIssue {
                    context: copy_message(&e.1),
                    primary_locale: primary_locale.to_string(),
                    identical_in: same,
                    usages: usages_for(&used, e.0.as_str()),
                };
                let ghost before = out@;
                out.push(issue);
                proof {
                    let sel = untranslated_entries(es@.take(i + 1), ls, pl, used@);
                    assert(sel == untranslated_entries(es@.take(i as int), ls, pl, used@).push(es@[i as int]));
                    assert forall|j: int| 0 <= j < sel.len() implies untranslated_of(#[trigger] out@[j], sel[j], ls, pl, used@) by {
                        if j < before.len() {
                            assert(out@[j] == before[j]);
                        }
                    }
                }
            }
        }
        i = i + 1;
    }
    proof { assert(es@.take(es@.len() as int) =~= es@); }
    out
}

/// The type of `k`'s value in locale `l`, where the types know it.
pub open spec fn type_at(types: Map<Seq<char>, StrMap<ValueType>>, l: Seq<char>, k: Seq<char>) -> Option<ValueType> {
    if types.contains_key(l) && types[l]@.contains_key(k) { Some(types[l]@[k]) } else { None }
}

/// The locales other than the primary one whose value for `k` has a type
/// other than `expected`, in the order of the locales, each with the place
/// of its value.
pub open spec fn mismatches_in(
    locales: Seq<(String, MessageMap)>,
    types: Map<Seq<char>, StrMap<ValueType>>,
    pl: Seq<char>,
    k: Seq<char>,
    expected: ValueType,
) -> Seq<LocaleTypeMismatch>
    decreases locales.len(),
{
    if locales.len() == 0 {
        Seq::empty()
    } else {
        let rest = mismatches_in(locales.drop_last(), types, pl, k, expected);
        let e = locales.last();
        match type_at(types, e.0@, k) {
            Some(t) => if e.0@ != pl && t != expected && e.1@.contains_key(k) {
                rest.push(LocaleTypeMismatch { locale: e.0, actual_type: t, location: e.1@[k].location })
            } else {
                rest
            },
            None => rest,
        }
    }
}

/// The primary entries whose value has a known type that some other
/// locale's value for the key does not have.
pub open spec fn mismatched_entries(
    es: Seq<(String, MessageContext)>,
    locales: Seq<(String, MessageMap)>,
    types: Map<Seq<char>, StrMap<ValueType>>,
    pl: Seq<char>,
) -> Seq<(String, MessageContext)>
    decreases es.len(),
{
    if es.len() == 0 {
        Seq::empty()
    } else {
        let rest = mismatched_entries(es.drop_last(), locales, types, pl);
        let e = es.last();
        match type_at(types, pl, e.0@) {
            Some(t) => if mismatches_in(locales, types, pl, e.0@, t).len() > 0 { rest.push(e) } else { rest },
            None => rest,
        }
    }
}

/// `r` reports that the locales of `mismatches_in` give the primary entry
/// `e` a value of another type.
pub open spec fn type_mismatch_of(
    r: TypeMismatchIssue,
    e: (String, MessageContext),
    locales: Seq<(String, MessageMap)>,
    types: Map<Seq<char>, StrMap<ValueType>>,
    pl: Seq<char>,
    used: Seq<UsedKey>,
) -> bool {
    &&& type_at(types, pl, e.0@) == Some(r.expected_type)
    &&& r.context == e.1
    &&& r.primary_locale@ == pl
    &&& r.mismatched_in@ == mismatches_in(locales, types, pl, e.0@, r.expected_type)
    &&& usages_match(r.usages@, uses_of(used, e.0@))
}

fn value_type_at(types: &StrMap<StrMap<ValueType>>, l: &str, k: &str) -> (r: Option<ValueType>)
    ensures
        r == type_at(types@, l@, k@),
{
    match types.get(l) {
        Some(m) => match m.get(k) {
            Some(t) => Some(*t),
            None => None,
        },
        None => None,
    }
}

fn locale_mismatches(
    locales: &Vec<(String, MessageMap)>,
    types: &StrMap<StrMap<ValueType>>,
    pl: &str,
    k: &str,
    expected: ValueType,
) -> (r: Vec<LocaleTypeMismatch>)
    ensures
        r@ == mismatches_in(locales@, types@, pl@, k@, expected),
{
    let mut out: Vec<LocaleTypeMismatch> = Vec::new();
    let mut i: usize = 0;
    while i < locales.len()
        invariant
            i <= locales@.len(),
            out@ == mismatches_in(locales@.take(i as int), types@, pl@, k@, expected),
        decreases locales@.len() - i,
    {
        proof {
            assert(locales@.take(i + 1).drop_last() =~= locales@.take(i as int));
        }
        let e = &locales[i];
        match value_type_at(types, e.0.as_str(), k) {
            Some(t) => {
                if !str_eq(e.0.as_str(), pl) && t != expected {
                    match e.1.get(k) {
                        Some(c) => {
                            out.push(LocaleTypeMismatch {
                                locale: e.0.clone(),
                                actual_type: t,
                                location: MessageLocation {
                                    file_path: c.location.file_path.clone(),
                                    line: c.location.line,
                                    col: c.location.col,
                                },
                            });
                        },
                        None => {},
                    }
                }
            },
            None => {},
        }
        i = i + 1;
    }
    proof { assert(locales@.take(locales@.len() as int) =~= locales@); }
    out
}

/// The keys whose value has another type in some other locale than in the
/// primary one (a string against an array): one finding for each such key,
/// in the order of the primary messages, with the type the primary locale
/// gives it and each locale that differs. `types` gives, locale by locale,
/// the type of each key's value. None where the primary messages were not
/// found.
pub fn type_mismatch_issues(
    primary_locale: &str,
    messages: &MessageData,
    types: &StrMap<StrMap<ValueType>>,
    usages: &AllKeyUsages,
) -> (r: Vec<TypeMismatchIssue>)
    ensures
        ({
            let sel = mismatched_entries(primary_entries(*messages), messages.all_messages.spec_entries(), types@, primary_locale@);
            &&& r@.len() == sel.len()
            &&& forall|i: int| 0 <= i < sel.len() ==> type_mismatch_of(#[trigger] r@[i], sel[i],
                messages.all_messages.spec_entries(), types@, primary_locale@, all_used(usages.spec_entries()))
        }),
{
    let mut out: Vec<TypeMismatchIssue> = Vec::new();
    let primary = match &messages.primary_messages {
        Some(p) => p,
        None => {
            return out;
        },
    };
    let used = flat_used_keys(usages);
    let locales = messages.all_messages.entries();
    let es = primary.entries();
    let ghost ls = locales@;
    let ghost pl = primary_locale@;
    let mut i: usize = 0;
    while i < es.len()
        invariant
            i <= es@.len(),
            es@ == primary_entries(*messages),
            ls == messages.all_messages.spec_entries(),
            locales@ == ls,
            pl == primary_locale@,
            used@ == all_used(usages.spec_entries()),
            ({
                let sel = mismatched_entries(es@.take(i as int), ls, types@, pl);
                &&& out@.len() == sel.len()
                &&& forall|j: int| 0 <= j < sel.len() ==> type_mismatch_of(#[trigger] out@[j], sel[j], ls, types@, pl, used@)
            }),
        decreases es@.len() - i,
    {
        proof {
            assert(es@.take(i + 1).drop_last() =~= es@.take(i as int));
        }
        let e = &es[i];
        match value_type_at(types, primary_locale, e.0.as_str()) {
            Some(expected) => {
                let mismatched = locale_mismatches(locales, types, primary_locale, e.0.as_str(), expected);
                if mismatched.len() > 0 {
                    let issue = TypeMismatchIssue {
                        context: copy_message(&e.1),
                        expected_type: expected,
                        primary_locale: primary_locale.to_string(),
                        mismatched_in: mismatched,
                        usages: usages_for(&used, e.0.as_str()),
                    };
                    let ghost before = out@;
                    out.push(issue);
                    proof {
                        let sel = mismatched_entries(es@.take(i + 1), ls, types@, pl);
                        assert(sel == mismatched_entries(es@.take(i as int), ls, types@, pl).push(es@[i as int]));
                        assert forall|j: int| 0 <= j < sel.len() implies type_mismatch_of(#[trigger] out@[j], sel[j], ls, types@, pl, used@) by {
                            if j < before.len() {
                                assert(out@[j] == before[j]);
                            }
                        }
                    }
                }
            },
            None => {},
        }
        i = i + 1;
    }
    proof { assert(es@.take(es@.len() as int) =~= es@); }
    out
}

/// A key is reported missing exactly when code uses it and the primary
/// locale's messages lack it.
pub proof fn law_missing_key_iff_used_and_undefined(used: Seq<UsedKey>, primary: Map<Seq<char>, MessageContext>, k: Seq<char>)
    ensures
        (exists|i: int| 0 <= i < missing_in_primary(used, primary).len()
            && #[trigger] missing_in_primary(used, primary)[i].key@ == k)
        <==> ((exists|j: int| 0 <= j < used.len() && #[trigger] used[j].full_key@ == k) && !primary.contains_key(k)),
    decreases used.len(),
{
    if used.len() > 0 {
        let rest = used.drop_last();
        law_missing_key_iff_used_and_undefined(rest, primary, k);
        let m = missing_in_primary(used, primary);
        let mr = missing_in_primary(rest, primary);
        if exists|j: int| 0 <= j < rest.len() && #[trigger] rest[j].full_key@ == k {
            let j = choose|j: int| 0 <= j < rest.len() && #[trigger] rest[j].full_key@ == k;
            assert(used[j].full_key@ == k);
        }
        if exists|j: int| 0 <= j < used.len() && #[trigger] used[j].full_key@ == k {
            let j = choose|j: int| 0 <= j < used.len() && #[trigger] used[j].full_key@ == k;
            if j < rest.len() {
                assert(rest[j].full_key@ == k);
            }
        }
        if exists|i: int| 0 <= i < mr.len() && #[trigger] mr[i].key@ == k {
            let i = choose|i: int| 0 <= i < mr.len() && #[trigger] mr[i].key@ == k;
            assert(m[i].key@ == k);
        }
        if exists|i: int| 0 <= i < m.len() && #[trigger] m[i].key@ == k {
            let i = choose|i: int| 0 <= i < m.len() && #[trigger] m[i].key@ == k;
            if i < mr.len() {
                assert(mr[i].key@ == k);
            } else {
                assert(used.last().full_key@ == k);
                assert(used[used.len() - 1].full_key@ == k);
            }
        }
        if !primary.contains_key(used.last().full_key@) && used.last().full_key@ == k {
            assert(m[m.len() - 1].key@ == k);
        }
    }
}

/// A locale is named as lacking key `k` exactly when it is a locale other
/// than the primary one whose messages lack `k`.
pub proof fn law_lagging_locales_are_those_lacking_the_key(locales: Seq<(String, MessageMap)>, pl: Seq<char>, k: Seq<char>, l: Seq<char>)
    ensures
        (exists|i: int| 0 <= i < lagging_in(locales, pl, k).len() && #[trigger] lagging_in(locales, pl, k)[i]@ == l)
        <==> (exists|j: int| 0 <= j < locales.len() && #[trigger] locales[j].0@ == l && l != pl && !locales[j].1@.contains_key(k)),
    decreases locales.len(),
{
    if locales.len() > 0 {
        let rest = locales.drop_last();
        law_lagging_locales_are_those_lacking_the_key(rest, pl, k, l);
        let lr = lagging_in(rest, pl, k);
        let la = lagging_in(locales, pl, k);
        if exists|i: int| 0 <= i < lr.len() && #[trigger] lr[i]@ == l {
            let i = choose|i: int| 0 <= i < lr.len() && #[trigger] lr[i]@ == l;
            assert(la[i]@ == l);
        }
        if exists|i: int| 0 <= i < la.len() && #[trigger] la[i]@ == l {
            let i = choose|i: int| 0 <= i < la.len() && #[trigger] la[i]@ == l;
            if i < lr.len() {
                assert(lr[i]@ == l);
            } else {
                assert(locales[locales.len() - 1] == locales.last());
            }
        }
        if exists|j: int| 0 <= j < rest.len() && #[trigger] rest[j].0@ == l && l != pl && !rest[j].1@.contains_key(k) {
            let j = choose|j: int| 0 <= j < rest.len() && #[trigger] rest[j].0@ == l && l != pl && !rest[j].1@.contains_key(k);
            assert(locales[j] == rest[j]);
        }
        if exists|j: int| 0 <= j < locales.len() && #[trigger] locales[j].0@ == l && l != pl && !locales[j].1@.contains_key(k) {
            let j = choose|j: int| 0 <= j < locales.len() && #[trigger] locales[j].0@ == l && l != pl && !locales[j].1@.contains_key(k);
            if j < rest.len() {
                assert(rest[j] == locales[j]);
            } else {
                assert(locales.last() == locales[j]);
                assert(la[la.len() - 1]@ == l);
            }
        }
    }
}

/// A locale is named as repeating the value `v` of key `k` exactly when it
/// is a locale other than the primary one whose messages give `k` the value
/// `v`.
pub proof fn law_identical_locales_are_those_repeating_the_value(
    locales: Seq<(String, MessageMap)>,
    pl: Seq<char>,
    k: Seq<char>,
    v: Seq<char>,
    l: Seq<char>,
)
    ensures
        (exists|i: int| 0 <= i < identical_in(locales, pl, k, v).len() && #[trigger] identical_in(locales, pl, k, v)[i]@ == l)
        <==> (exists|j: int| 0 <= j < locales.len() && #[trigger] locales[j].0@ == l && l != pl
            && locales[j].1@.contains_key(k) && locales[j].1@[k].value@ == v),
    decreases locales.len(),
{
    if locales.len() > 0 {
        let rest = locales.drop_last();
        law_identical_locales_are_those_repeating_the_value(rest, pl, k, v, l);
        let ir = identical_in(rest, pl, k, v);
        let ia = identical_in(locales, pl, k, v);
        if exists|i: int| 0 <= i < ir.len() && #[trigger] ir[i]@ == l {
            let i = choose|i: int| 0 <= i < ir.len() && #[trigger] ir[i]@ == l;
            assert(ia[i]@ == l);
        }
        if exists|i: int| 0 <= i < ia.len() && #[trigger] ia[i]@ == l {
            let i = choose|i: int| 0 <= i < ia.len() && #[trigger] ia[i]@ == l;
            if i < ir.len() {
                assert(ir[i]@ == l);
            } else {
                assert(locales[locales.len() - 1] == locales.last());
            }
        }
        if exists|j: int| 0 <= j < rest.len() && #[trigger] rest[j].0@ == l && l != pl
            && rest[j].1@.contains_key(k) && rest[j].1@[k].value@ == v {
            let j = choose|j: int| 0 <= j < rest.len() && #[trigger] rest[j].0@ == l && l != pl
                && rest[j].1@.contains_key(k) && rest[j].1@[k].value@ == v;
            assert(locales[j] == rest[j]);
        }
        if exists|j: int| 0 <= j < locales.len() && #[trigger] locales[j].0@ == l && l != pl
            && locales[j].1@.contains_key(k) && locales[j].1@[k].value@ == v {
            let j = choose|j: int| 0 <= j < locales.len() && #[trigger] locales[j].0@ == l && l != pl
                && locales[j].1@.contains_key(k) && locales[j].1@[k].value@ == v;
            if j < rest.len() {
                assert(rest[j] == locales[j]);
            } else {
                assert(locales.last() == locales[j]);
                assert(ia[ia.len() - 1]@ == l);
            }
        }
    }
}

/// A locale is named as giving key `k` a value of another type exactly
/// when it is a locale other than the primary one whose messages hold `k`
/// and whose value for `k` has a known type other than `expected`; each
/// naming gives that type and the place of the locale's value.
pub proof fn law_mismatched_locales_are_those_of_another_type(
    locales: Seq<(String, MessageMap)>,
    types: Map<Seq<char>, StrMap<ValueType>>,
    pl: Seq<char>,
    k: Seq<char>,
    expected: ValueType,
    l: Seq<char>,
)
    ensures
        (exists|i: int| #![trigger mismatches_in(locales, types, pl, k, expected)[i]]
            0 <= i < mismatches_in(locales, types, pl, k, expected).len()
            && mismatches_in(locales, types, pl, k, expected)[i].locale@ == l)
        <==> (exists|j: int| #![trigger locales[j]] 0 <= j < locales.len() && locales[j].0@ == l && l != pl
            && locales[j].1@.contains_key(k) && type_at(types, l, k) is Some && type_at(types, l, k)->0 != expected),
        forall|i: int| #![trigger mismatches_in(locales, types, pl, k, expected)[i]]
            0 <= i < mismatches_in(locales, types, pl, k, expected).len() ==> {
                let m = mismatches_in(locales, types, pl, k, expected)[i];
                &&& type_at(types, m.locale@, k) == Some(m.actual_type)
                &&& m.actual_type != expected
                &&& m.locale@ != pl
                &&& exists|j: int| #![trigger locales[j]] 0 <= j < locales.len() && locales[j].0 == m.locale
                    && locales[j].1@.contains_key(k) && locales[j].1@[k].location == m.location
            },
    decreases locales.len(),
{
    if locales.len() > 0 {
        let rest = locales.drop_last();
        law_mismatched_locales_are_those_of_another_type(rest, types, pl, k, expected, l);
        let mr = mismatches_in(rest, types, pl, k, expected);
        let ma = mismatches_in(locales, types, pl, k, expected);
        let e = locales.last();
        assert(locales[locales.len() - 1] == e);
        assert forall|i: int| #![trigger ma[i]] 0 <= i < mr.len() implies ma[i] == mr[i] by {}
        if exists|i: int| #![trigger mr[i]] 0 <= i < mr.len() && mr[i].locale@ == l {
            let i = choose|i: int| #![trigger mr[i]] 0 <= i < mr.len() && mr[i].locale@ == l;
            assert(ma[i] == mr[i]);
        }
        if exists|i: int| #![trigger ma[i]] 0 <= i < ma.len() && ma[i].locale@ == l {
            let i = choose|i: int| #![trigger ma[i]] 0 <= i < ma.len() && ma[i].locale@ == l;
            if i < mr.len() {
                assert(mr[i] == ma[i]);
            }
        }
        if exists|j: int| #![trigger rest[j]] 0 <= j < rest.len() && rest[j].0@ == l && l != pl
            && rest[j].1@.contains_key(k) && type_at(types, l, k) is Some && type_at(types, l, k)->0 != expected {
            let j = choose|j: int| #![trigger rest[j]] 0 <= j < rest.len() && rest[j].0@ == l && l != pl
                && rest[j].1@.contains_key(k) && type_at(types, l, k) is Some && type_at(types, l, k)->0 != expected;
            assert(locales[j] == rest[j]);
        }
        if exists|j: int| #![trigger locales[j]] 0 <= j < locales.len() && locales[j].0@ == l && l != pl
            && locales[j].1@.contains_key(k) && type_at(types, l, k) is Some && type_at(types, l, k)->0 != expected {
            let j = choose|j: int| #![trigger locales[j]] 0 <= j < locales.len() && locales[j].0@ == l && l != pl
                && locales[j].1@.contains_key(k) && type_at(types, l, k) is Some && type_at(types, l, k)->0 != expected;
            if j < rest.len() {
                assert(rest[j] == locales[j]);
            } else {
                assert(ma[ma.len() - 1].locale@ == l);
            }
        }
        assert forall|i: int| #![trigger ma[i]] 0 <= i < ma.len() implies {
                let m = ma[i];
                &&& type_at(types, m.locale@, k) == Some(m.actual_type)
                &&& m.actual_type != expected
                &&& m.locale@ != pl
                &&& exists|j: int| #![trigger locales[j]] 0 <= j < locales.len() && locales[j].0 == m.locale
                    && locales[j].1@.contains_key(k) && locales[j].1@[k].location == m.location
            } by {
            if i < mr.len() {
                assert(ma[i] == mr[i]);
                assert(mr[i] == mr[i]);
                let j = choose|j: int| #![trigger rest[j]] 0 <= j < rest.len() && rest[j].0 == mr[i].locale
                    && rest[j].1@.contains_key(k) && rest[j].1@[k].location == mr[i].location;
                assert(locales[j] == rest[j]);
            } else {
                assert(locales[locales.len() - 1].0 == ma[i].locale);
            }
        }
    }
}

/// Every schema call of every file, with its file, file by file in order.
pub open spec fn all_schema_calls(e: Seq<(String, MissingKeyResult)>) -> Seq<(String, SchemaCallInfo)>
    decreases e.len(),
{
    if e.len() == 0 {
        Seq::empty()
    } else {
        let f = e.last().0;
        all_schema_calls(e.drop_last()) + e.last().1.schema_calls@.map_values(|c: SchemaCallInfo| (f, c))
    }
}

/// What a missing-key finding from a schema says: file, line, column, key,
/// and the schema function with its file.
pub open spec fn schema_issue_view(i: MissingKeyIssue) -> (Seq<char>, usize, usize, Seq<char>, Option<(Seq<char>, Seq<char>)>) {
    (
        i.context.location.file_path@,
        i.context.location.line,
        i.context.location.col,
        i.key@,
        match i.from_schema {
            Some(p) => Some((p.0@, p.1@)),
            None => None,
        },
    )
}

/// The keys among `keys` (expanded at a call of file `path`) that the
/// primary locale lacks, as findings at the call, in order.
pub open spec fn call_missing(
    path: Seq<char>,
    c: SchemaCallInfo,
    keys: Seq<(Seq<char>, Seq<char>, Seq<char>, bool)>,
    registry: SchemaRegistry,
    primary: Map<Seq<char>, MessageContext>,
) -> Seq<(Seq<char>, usize, usize, Seq<char>, Option<(Seq<char>, Seq<char>)>)>
    decreases keys.len(),
{
    if keys.len() == 0 {
        Seq::empty()
    } else {
        let rest = call_missing(path, c, keys.drop_last(), registry, primary);
        let k = keys.last();
        if primary.contains_key(k.0) {
            rest
        } else {
            rest.push((path, c.line, c.col, k.0, Some((k.2, registry@[k.2].file_path@))))
        }
    }
}

/// The keys that the schema calls expand to and the primary locale lacks,
/// call by call, each call expanded on its own.
pub open spec fn schema_missing(
    calls: Seq<(String, SchemaCallInfo)>,
    registry: SchemaRegistry,
    primary: Map<Seq<char>, MessageContext>,
) -> Seq<(Seq<char>, usize, usize, Seq<char>, Option<(Seq<char>, Seq<char>)>)>
    decreases calls.len(),
{
    if calls.len() == 0 {
        Seq::empty()
    } else {
        let c = calls.last();
        schema_missing(calls.drop_last(), registry, primary)
            + call_missing(c.0@, c.1, expansion(c.1.schema_name@, c.1.namespace, registry, Set::empty()).0, registry, primary)
    }
}

fn copy_call(c: &SchemaCallInfo) -> (r: SchemaCallInfo)
    ensures
        r == *c,
{
    let namespace = match &c.namespace {
        Some(n) => Some(n.clone()),
        None => None,
    };
    SchemaCallInfo { schema_name: c.schema_name.clone(), namespace, line: c.line, col: c.col }
}

/// Every schema call of every file of the key usages, with its file.
pub fn flat_schema_calls(usages: &AllKeyUsages) -> (r: Vec<(String, SchemaCallInfo)>)
    ensures
        r@ == all_schema_calls(usages.spec_entries()),
{
    let entries = usages.entries();
    let mut out: Vec<(String, SchemaCallInfo)> = Vec::new();
    let mut i: usize = 0;
    while i < entries.len()
        invariant
            i <= entries@.len(),
            entries@ == usages.spec_entries(),
            out@ == all_schema_calls(entries@.take(i as int)),
        decreases entries@.len() - i,
    {
        let calls = &entries[i].1.schema_calls;
        let ghost f = entries@[i as int].0;
        let ghost before = out@;
        let mut j: usize = 0;
        while j < calls.len()
            invariant
                i < entries@.len(),
                j <= calls@.len(),
                calls@ == entries@[i as int].1.schema_calls@,
                f == entries@[i as int].0,
                out@ == before + calls@.take(j as int).map_values(|c: SchemaCallInfo| (f, c)),
            decreases calls@.len() - j,
        {
            out.push((entries[i].0.clone(), copy_call(&calls[j])));
            proof {
                assert(before + calls@.take(j + 1).map_values(|c: SchemaCallInfo| (f, c))
                    =~= (before + calls@.take(j as int).map_values(|c: SchemaCallInfo| (f, c))).push((f, calls@[j as int])));
            }
            j = j + 1;
        }
        proof {
            assert(entries@.take(i + 1).drop_last() =~= entries@.take(i as int));
            assert(calls@.take(calls@.len() as int) =~= calls@);
        }
        i = i + 1;
    }
    proof { assert(entries@.take(entries@.len() as int) =~= entries@); }
    out
}

/// The keys that schema calls expand to (each call on its own, with the
/// namespace it was given) and that the primary locale's messages lack:
/// one finding for each, at the call, naming the schema function and its
/// file; calls file by file and in order, keys in expansion order.
pub fn schema_missing_key_issues(usages: &AllKeyUsages, registry: &SchemaRegistry, primary: &MessageMap) -> (r: Vec<MissingKeyIssue>)
    ensures
        r@.map_values(|i: MissingKeyIssue| schema_issue_view(i))
            == schema_missing(all_schema_calls(usages.spec_entries()), *registry, primary@),
        forall|i: int| 0 <= i < r@.len() ==> (#[trigger] r@[i]).context.source_line@.len() == 0
            && r@[i].context.comment_style == CommentStyle::Js,
{
    let calls = flat_schema_calls(usages);
    let mut out: Vec<MissingKeyIssue> = Vec::new();
    let mut i: usize = 0;
    while i < calls.len()
        invariant
            i <= calls@.len(),
            out@.map_values(|x: MissingKeyIssue| schema_issue_view(x)) == schema_missing(calls@.take(i as int), *registry, primary@),
            forall|j: int| 0 <= j < out@.len() ==> (#[trigger] out@[j]).context.source_line@.len() == 0
                && out@[j].context.comment_style == CommentStyle::Js,
        decreases calls@.len() - i,
    {
        proof {
            assert(calls@.take(i + 1).drop_last() =~= calls@.take(i as int));
        }
        let path = &calls[i].0;
        let call = &calls[i].1;
        let mut visited = StrSet::new();
        let expanded = expand_schema_keys(call.schema_name.as_str(), &call.namespace, registry, &mut visited);
        let ghost kv = expanded_views(expanded.keys@);
        let ghost before = out@.map_values(|x: MissingKeyIssue| schema_issue_view(x));
        let keys = &expanded.keys;
        let mut k: usize = 0;
        while k < keys.len()
            invariant
                k <= keys@.len(),
                kv == expanded_views(keys@),
                forall|j: int| 0 <= j < keys@.len() ==> key_well_formed(#[trigger] keys@[j], call.namespace, registry@),
                out@.map_values(|x: MissingKeyIssue| schema_issue_view(x))
                    == before + call_missing(path@, *call, kv.take(k as int), *registry, primary@),
                forall|j: int| 0 <= j < out@.len() ==> (#[trigger] out@[j]).context.source_line@.len() == 0
                    && out@[j].context.comment_style == CommentStyle::Js,
            decreases keys@.len() - k,
        {
            proof {
                assert(kv.take(k + 1).drop_last() =~= kv.take(k as int));
                assert(kv.take(k + 1).last() == kv[k as int]);
            }
            let ek = &keys[k];
            if !primary.contains_key(ek.full_key.as_str()) {
                let schema_file = match registry.get(ek.from_schema.as_str()) {
                    Some(f) => f.file_path.clone(),
                    None => String::new(),
                };
                let ghost o = out@.map_values(|x: MissingKeyIssue| schema_issue_view(x));
                out.push(MissingKeyIssue {
                    context: SourceContext {
                        location: SourceLocation { file_path: path.clone(), line: call.line, col: call.col },
                        source_line: String::new(),
                        comment_style: CommentStyle::Js,
                    },
                    key: ek.full_key.clone(),
                    from_schema: Some((ek.from_schema.clone(), schema_file)),
                });
                proof {
                    assert(out@.map_values(|x: MissingKeyIssue| schema_issue_view(x))
                        =~= o.push(schema_issue_view(out@[out@.len() - 1])));
                }
            }
            k = k + 1;
        }
        proof {
            assert(kv.take(kv.len() as int) =~= kv);
            assert(calls@[i as int].1 == *call);
        }
        i = i + 1;
    }
    proof { assert(calls@.take(calls@.len() as int) =~= calls@); }
    out
}

/// The hardcoded text of every file, file by file in order.
pub open spec fn all_hardcoded(e: Seq<(String, Vec<HardcodedIssue>)>) -> Seq<HardcodedIssue>
    decreases e.len(),
{
    if e.len() == 0 { Seq::empty() } else { all_hardcoded(e.drop_last()) + e.last().1@ }
}

/// `r` reports the hardcoded text `h`.
pub open spec fn hardcoded_reported(r: HardcodedTextIssue, h: HardcodedIssue) -> bool {
    &&& r.context.location.file_path@ == h.file_path@
    &&& r.context.location.line == h.line
    &&& r.context.location.col == h.col
    &&& r.context.source_line@ == h.source_line@
    &&& r.context.comment_style == style_of(h.in_jsx_context)
    &&& r.text@ == h.text@
}

/// The dynamic keys of every file, file by file in order.
pub open spec fn all_warnings(e: Seq<(String, MissingKeyResult)>) -> Seq<DynamicKeyWarning>
    decreases e.len(),
{
    if e.len() == 0 { Seq::empty() } else { all_warnings(e.drop_last()) + e.last().1.warnings@ }
}

/// `r` reports the dynamic key `w`.
pub open spec fn unresolved_reported(r: UnresolvedKeyIssue, w: DynamicKeyWarning) -> bool {
    &&& r.context.location.file_path@ == w.file_path@
    &&& r.context.location.line == w.line
    &&& r.context.location.col == w.col
    &&& r.context.source_line@ == w.source_line@
    &&& r.context.comment_style == style_of(w.in_jsx_context)
    &&& r.reason == match w.reason {
        DynamicKeyReason::VariableKey => IssueUnresolvedKeyReason::VariableKey,
        DynamicKeyReason::TemplateWithExpr => IssueUnresolvedKeyReason::TemplateWithExpr,
    }
    &&& r.hint == w.hint
    &&& r.pattern == w.pattern
}

fn copy_text_opt(o: &Option<String>) -> (r: Option<String>)
    ensures
        r == *o,
{
    match o {
        Some(t) => Some(t.clone()),
        None => None,
    }
}

/// The hardcoded text of every file as findings, file by file and in order.
pub fn hardcoded_findings(all: &AllHardcodedIssues) -> (r: Vec<HardcodedTextIssue>)
    ensures
        r@.len() == all_hardcoded(all.spec_entries()).len(),
        forall|i: int| 0 <= i < r@.len() ==> hardcoded_reported(#[trigger] r@[i], all_hardcoded(all.spec_entries())[i]),
{
    let entries = all.entries();
    let mut out: Vec<HardcodedTextIssue> = Vec::new();
    let mut i: usize = 0;
    while i < entries.len()
        invariant
            i <= entries@.len(),
            entries@ == all.spec_entries(),
            out@.len() == all_hardcoded(entries@.take(i as int)).len(),
            forall|k: int| 0 <= k < out@.len() ==> hardcoded_reported(#[trigger] out@[k], all_hardcoded(entries@.take(i as int))[k]),
        decreases entries@.len() - i,
    {
        let hs = &entries[i].1;
        let ghost prev = all_hardcoded(entries@.take(i as int));
        let mut j: usize = 0;
        while j < hs.len()
            invariant
                i < entries@.len(),
                j <= hs@.len(),
                hs@ == entries@[i as int].1@,
                out@.len() == prev.len() + j,
                forall|k: int| 0 <= k < out@.len() ==> hardcoded_reported(#[trigger] out@[k], (prev + hs@)[k]),
            decreases hs@.len() - j,
        {
            let h = &hs[j];
            out.push(HardcodedTextIssue {
                context: SourceContext {
                    location: SourceLocation { file_path: h.file_path.clone(), line: h.line, col: h.col },
                    source_line: h.source_line.clone(),
                    comment_style: if h.in_jsx_context { CommentStyle::Jsx } else { CommentStyle::Js },
                },
                text: h.text.clone(),
            });
            j = j + 1;
        }
        proof {
            assert(entries@.take(i + 1).drop_last() =~= entries@.take(i as int));
            assert(all_hardcoded(entries@.take(i + 1)) == prev + hs@);
        }
        i = i + 1;
    }
    proof { assert(entries@.take(entries@.len() as int) =~= entries@); }
    out
}

/// The dynamic keys of every file as unresolved-key findings, file by file
/// and in order.
pub fn unresolved_findings(usages: &AllKeyUsages) -> (r: Vec<UnresolvedKeyIssue>)
    ensures
        r@.len() == all_warnings(usages.spec_entries()).len(),
        forall|i: int| 0 <= i < r@.len() ==> unresolved_reported(#[trigger] r@[i], all_warnings(usages.spec_entries())[i]),
{
    let entries = usages.entries();
    let mut out: Vec<UnresolvedKeyIssue> = Vec::new();
    let mut i: usize = 0;
    while i < entries.len()
        invariant
            i <= entries@.len(),
            entries@ == usages.spec_entries(),
            out@.len() == all_warnings(entries@.take(i as int)).len(),
            forall|k: int| 0 <= k < out@.len() ==> unresolved_reported(#[trigger] out@[k], all_warnings(entries@.take(i as int))[k]),
        decreases entries@.len() - i,
    {
        let ws = &entries[i].1.warnings;
        let ghost prev = all_warnings(entries@.take(i as int));
        let mut j: usize = 0;
        while j < ws.len()
            invariant
                i < entries@.len(),
                j <= ws@.len(),
                ws@ == entries@[i as int].1.warnings@,
                out@.len() == prev.len() + j,
                forall|k: int| 0 <= k < out@.len() ==> unresolved_reported(#[trigger] out@[k], (prev + ws@)[k]),
            decreases ws@.len() - j,
        {
            let w = &ws[j];
            let reason = match w.reason {
                DynamicKeyReason::VariableKey => IssueUnresolvedKeyReason::VariableKey,
                DynamicKeyReason::TemplateWithExpr => IssueUnresolvedKeyReason::TemplateWithExpr,
            };
            out.push(UnresolvedKeyIssue {
                context: SourceContext {
                    location: SourceLocation { file_path: w.file_path.clone(), line: w.line, col: w.col },
                    source_line: w.source_line.clone(),
                    comment_style: if w.in_jsx_context { CommentStyle::Jsx } else { CommentStyle::Js },
                },
                reason,
                hint: copy_text_opt(&w.hint),
                pattern: copy_text_opt(&w.pattern),
            });
            j = j + 1;
        }
        proof {
            assert(entries@.take(i + 1).drop_last() =~= entries@.take(i as int));
            assert(all_warnings(entries@.take(i + 1)) == prev + ws@);
        }
        i = i + 1;
    }
    proof { assert(entries@.take(entries@.len() as int) =~= entries@); }
    out
}

} // verus!
