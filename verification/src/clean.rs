//! What `glot clean` does with the keys it finds: whether it may go on, the
//! deletions of the selected kinds, and how it ends.

use vstd::prelude::*;
use crate::actions::{deletes, Action, DeleteKey, Operation};
use crate::commands::{clean_exit_status, CleanRule, ExitStatus};
use crate::issues::{OrphanKeyIssue, UnresolvedKeyIssue, UnusedKeyIssue};
use crate::check_context::MessageMap;
use crate::context::MessageContext;
use crate::strmap::{StrMap, StrSet};

verus! {

/// What `glot clean` will do.
pub struct CleanPlan {
    /// Message files that did not parse, or keys that could not be
    /// resolved, stop the clean before it deletes anything.
    pub blocked: bool,
    /// The deletions: the unused keys, then the orphan keys (of the kinds selected).
    pub operations: Vec<Operation>,
    pub unused_count: usize,
    pub orphan_count: usize,
    pub status: ExitStatus,
}

/// The kind `rule` is selected: none given selects both.
pub open spec fn clean_selected(rules: Seq<CleanRule>, rule: CleanRule) -> bool {
    rules.len() == 0 || rules.contains(rule)
}

fn is_selected(rules: &Vec<CleanRule>, rule: CleanRule) -> (r: bool)
    ensures
        r == clean_selected(rules@, rule),
{
    if rules.len() == 0 {
        return true;
    }
    let mut i: usize = 0;
    while i < rules.len()
        invariant
            i <= rules@.len(),
            forall|j: int| 0 <= j < i ==> rules@[j] != rule,
        decreases rules@.len() - i,
    {
        if rules[i] == rule {
            assert(rules@.contains(rule));
            return true;
        }
        i = i + 1;
    }
    false
}

/// Plans a clean. Message files that failed to parse, or unresolved keys,
/// block it: it ends with an error and deletes nothing. Otherwise it
/// deletes the unused keys (when that kind is selected), then the orphan
/// keys (likewise), and ends as [`clean_exit_status`] says: an error when
/// source files did not parse, a failure when a dry run finds keys to
/// delete, else a success.
pub fn clean_plan(
    message_parse_error_count: usize,
    unresolved: &Vec<UnresolvedKeyIssue>,
    rules: &Vec<CleanRule>,
    unused: Vec<UnusedKeyIssue>,
    orphan: Vec<OrphanKeyIssue>,
    parse_error_count: usize,
    apply: bool,
) -> (r: CleanPlan)
    ensures
        r.blocked == (message_parse_error_count > 0 || unresolved@.len() > 0),
        r.blocked ==> r.status == ExitStatus::Error && r.operations@.len() == 0
            && r.unused_count == 0 && r.orphan_count == 0,
        !r.blocked ==> {
            let nu = if clean_selected(rules@, CleanRule::Unused) { unused@.len() } else { 0 };
            let no = if clean_selected(rules@, CleanRule::Orphan) { orphan@.len() } else { 0 };
            &&& r.unused_count == nu
            &&& r.orphan_count == no
            &&& r.operations@.len() == nu + no
            &&& forall|i: int| 0 <= i < nu ==> deletes(#[trigger] r.operations@[i], unused@[i].context)
            &&& forall|i: int| 0 <= i < no ==> deletes(#[trigger] r.operations@[nu + i], orphan@[i].context)
            &&& r.status == if parse_error_count > 0 {
                ExitStatus::Error
            } else if nu + no > 0 && !apply {
                ExitStatus::Failure
            } else {
                ExitStatus::Success
            }
        },
{
    if message_parse_error_count > 0 || unresolved.len() > 0 {
        return CleanPlan {
            blocked: true,
            operations: Vec::new(),
            unused_count: 0,
            orphan_count: 0,
            status: ExitStatus::Error,
        };
    }
    let mut operations: Vec<Operation> = Vec::new();
    let mut unused_count: usize = 0;
    let mut orphan_count: usize = 0;
    if is_selected(rules, CleanRule::Unused) {
        operations = <DeleteKey as Action<UnusedKeyIssue>>::to_operations(unused.as_slice());
        unused_count = operations.len();
    }
    let ghost u = operations@;
    if is_selected(rules, CleanRule::Orphan) {
        let mut ops = <DeleteKey as Action<OrphanKeyIssue>>::to_operations(orphan.as_slice());
        orphan_count = ops.len();
        let ghost ov = ops@;
        operations.append(&mut ops);
        proof {
            assert(operations@ =~= u + ov);
            assert forall|i: int| 0 <= i < orphan_count implies deletes(#[trigger] operations@[unused_count + i], orphan@[i].context) by {
                assert(operations@[unused_count + i] == ov[i]);
            }
        }
    }
    let total = operations.len();
    let status = clean_exit_status(parse_error_count, total, apply);
    CleanPlan { blocked: false, operations, unused_count, orphan_count, status }
}


/// The messages of `es` whose key no code uses, in order.
pub open spec fn unused_entries(es: Seq<(String, MessageContext)>, used: Set<Seq<char>>) -> Seq<MessageContext>
    decreases es.len(),
{
    if es.len() == 0 {
        Seq::empty()
    } else {
        let r = unused_entries(es.drop_last(), used);
        if used.contains(es.last().0@) { r } else { r.push(es.last().1) }
    }
}

/// An entry's message is reported unused exactly when no code uses its
/// key: every reported message is that of an entry whose key is not used,
/// and the message of every entry whose key is not used is reported.
pub proof fn law_unused_exactly_when_not_used(es: Seq<(String, MessageContext)>, used: Set<Seq<char>>)
    ensures
        forall|i: int| #![trigger unused_entries(es, used)[i]] 0 <= i < unused_entries(es, used).len() ==> exists|j: int|
            #![trigger es[j]] 0 <= j < es.len() && es[j].1 == unused_entries(es, used)[i] && !used.contains(es[j].0@),
        forall|j: int| #![trigger es[j]] 0 <= j < es.len() && !used.contains(es[j].0@) ==> exists|i: int|
            #![trigger unused_entries(es, used)[i]] 0 <= i < unused_entries(es, used).len() && unused_entries(es, used)[i] == es[j].1,
    decreases es.len(),
{
    if es.len() > 0 {
        let rest = es.drop_last();
        law_unused_exactly_when_not_used(rest, used);
        let r0 = unused_entries(rest, used);
        let r = unused_entries(es, used);
        assert forall|i: int| #![trigger r[i]] 0 <= i < r.len() implies exists|j: int|
            #![trigger es[j]] 0 <= j < es.len() && es[j].1 == r[i] && !used.contains(es[j].0@) by {
            if i < r0.len() {
                assert(r0[i] == r0[i]);
                let j = choose|j: int| #![trigger rest[j]] 0 <= j < rest.len() && rest[j].1 == r0[i] && !used.contains(rest[j].0@);
                assert(es[j] == rest[j]);
            } else {
                assert(es[es.len() - 1] == es.last());
            }
        }
        assert forall|j: int| #![trigger es[j]] 0 <= j < es.len() && !used.contains(es[j].0@) implies exists|i: int|
            #![trigger r[i]] 0 <= i < r.len() && r[i] == es[j].1 by {
            if j < rest.len() {
                assert(rest[j] == es[j]);
                assert(!used.contains(rest[j].0@));
                let i = choose|i: int| #![trigger r0[i]] 0 <= i < r0.len() && r0[i] == rest[j].1;
                assert(r[i] == r0[i]);
            } else {
                assert(es[j] == es.last());
                assert(r[r.len() - 1] == es[j].1);
            }
        }
    }
}

/// The keys of the primary locale that no code uses, each as an issue.
pub fn unused_key_issues(primary: &MessageMap, used: &StrSet) -> (r: Vec<UnusedKeyIssue>)
    ensures
        r@.len() == unused_entries(primary.spec_entries(), used@).len(),
        forall|i: int| 0 <= i < r@.len() ==> (#[trigger] r@[i]).context.same_as(unused_entries(primary.spec_entries(), used@)[i]),
{
    let es = primary.entries();
    let mut r: Vec<UnusedKeyIssue> = Vec::new();
    let mut i: usize = 0;
    while i < es.len()
        invariant
            i <= es@.len(),
            es@ == primary.spec_entries(),
            r@.len() == unused_entries(es@.take(i as int), used@).len(),
            forall|j: int| 0 <= j < r@.len() ==> (#[trigger] r@[j]).context.same_as(unused_entries(es@.take(i as int), used@)[j]),
        decreases es@.len() - i,
    {
        proof {
            assert(es@.take(i + 1).drop_last() =~= es@.take(i as int));
            assert(es@.take(i + 1).last() == es@[i as int]);
        }
        if !used.contains(es[i].0.as_str()) {
            r.push(UnusedKeyIssue { context: es[i].1.duplicate() });
        }
        i = i + 1;
    }
    proof { assert(es@.take(es@.len() as int) =~= es@); }
    r
}

/// The messages of one locale's `es` whose key the primary locale lacks,
/// each with the locale, in order.
pub open spec fn orphans_in(es: Seq<(String, MessageContext)>, primary: Set<Seq<char>>, locale: Seq<char>) -> Seq<(MessageContext, Seq<char>)>
    decreases es.len(),
{
    if es.len() == 0 {
        Seq::empty()
    } else {
        let r = orphans_in(es.drop_last(), primary, locale);
        if primary.contains(es.last().0@) { r } else { r.push((es.last().1, locale)) }
    }
}

/// The orphan messages of every locale but the primary one, locale by locale.
pub open spec fn orphan_entries(
    locales: Seq<(String, MessageMap)>,
    primary: Set<Seq<char>>,
    primary_locale: Seq<char>,
) -> Seq<(MessageContext, Seq<char>)>
    decreases locales.len(),
{
    if locales.len() == 0 {
        Seq::empty()
    } else {
        let r = orphan_entries(locales.drop_last(), primary, primary_locale);
        let l = locales.last();
        if l.0@ == primary_locale { r } else { r + orphans_in(l.1.spec_entries(), primary, l.0@) }
    }
}

fn orphans_of_locale(out: &mut Vec<OrphanKeyIssue>, locale: &String, msgs: &MessageMap, primary: &MessageMap)
    ensures
        final(out)@.len() == old(out)@.len() + orphans_in(msgs.spec_entries(), primary@.dom(), locale@).len(),
        forall|j: int| 0 <= j < old(out)@.len() ==> #[trigger] final(out)@[j] == old(out)@[j],
        forall|j: int| 0 <= j < orphans_in(msgs.spec_entries(), primary@.dom(), locale@).len() ==> {
            let o = final(out)@[old(out)@.len() + j];
            let e = #[trigger] orphans_in(msgs.spec_entries(), primary@.dom(), locale@)[j];
            o.context.same_as(e.0) && o.locale@ == e.1
        },
{
    let ghost o0 = out@;
    let es = msgs.entries();
    let mut i: usize = 0;
    while i < es.len()
        invariant
            i <= es@.len(),
            es@ == msgs.spec_entries(),
            out@.len() == o0.len() + orphans_in(es@.take(i as int), primary@.dom(), locale@).len(),
            forall|j: int| 0 <= j < o0.len() ==> #[trigger] out@[j] == o0[j],
            forall|j: int| 0 <= j < orphans_in(es@.take(i as int), primary@.dom(), locale@).len() ==> {
                let o = out@[o0.len() + j];
                let e = #[trigger] orphans_in(es@.take(i as int), primary@.dom(), locale@)[j];
                o.context.same_as(e.0) && o.locale@ == e.1
            },
        decreases es@.len() - i,
    {
        proof {
            assert(es@.take(i + 1).drop_last() =~= es@.take(i as int));
            assert(es@.take(i + 1).last() == es@[i as int]);
        }
        if !primary.contains_key(es[i].0.as_str()) {
            out.push(OrphanKeyIssue { context: es[i].1.duplicate(), locale: locale.clone() });
        }
        i = i + 1;
    }
    proof { assert(es@.take(es@.len() as int) =~= es@); }
}

/// The keys of other locales that the primary locale lacks, each as an
/// issue with its locale, locale by locale.
pub fn orphan_key_issues(primary_locale: &str, all: &StrMap<MessageMap>, primary: &MessageMap) -> (r: Vec<OrphanKeyIssue>)
    ensures
        r@.len() == orphan_entries(all.spec_entries(), primary@.dom(), primary_locale@).len(),
        forall|i: int| 0 <= i < r@.len() ==> {
            let e = orphan_entries(all.spec_entries(), primary@.dom(), primary_locale@)[i];
            (#[trigger] r@[i]).context.same_as(e.0) && r@[i].locale@ == e.1
        },
{
    let ls = all.entries();
    let mut r: Vec<OrphanKeyIssue> = Vec::new();
    let mut i: usize = 0;
    while i < ls.len()
        invariant
            i <= ls@.len(),
            ls@ == all.spec_entries(),
            r@.len() == orphan_entries(ls@.take(i as int), primary@.dom(), primary_locale@).len(),
            forall|j: int| 0 <= j < r@.len() ==> {
                let e = orphan_entries(ls@.take(i as int), primary@.dom(), primary_locale@)[j];
                (#[trigger] r@[j]).context.same_as(e.0) && r@[j].locale@ == e.1
            },
        decreases ls@.len() - i,
    {
        proof {
            assert(ls@.take(i + 1).drop_last() =~= ls@.take(i as int));
            assert(ls@.take(i + 1).last() == ls@[i as int]);
        }
        if !crate::text::str_eq(ls[i].0.as_str(), primary_locale) {
            let ghost r0 = r@;
            orphans_of_locale(&mut r, &ls[i].0, &ls[i].1, primary);
            proof {
                let prev = orphan_entries(ls@.take(i as int), primary@.dom(), primary_locale@);
                let add = orphans_in(ls@[i as int].1.spec_entries(), primary@.dom(), ls@[i as int].0@);
                assert forall|j: int| 0 <= j < r@.len() implies {
                    let e = (prev + add)[j];
                    (#[trigger] r@[j]).context.same_as(e.0) && r@[j].locale@ == e.1
                } by {
                    if j >= r0.len() {
                        let k = j - r0.len();
                        assert(r@[r0.len() + k] == r@[j]);
                    } else {
                        assert(r@[j] == r0[j]);
                    }
                }
            }
        }
        i = i + 1;
    }
    proof { assert(ls@.take(ls@.len() as int) =~= ls@); }
    r
}

} // verus!
