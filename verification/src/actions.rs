//! Actions turn issues into edits of files: comments to insert in code and
//! keys to delete from message files.

use vstd::prelude::*;
use crate::context::{CommentStyle, MessageContext, SourceContext};
use crate::issues::{
    HardcodedTextIssue, OrphanKeyIssue, ResolvedKeyUsage, Rule, UnresolvedKeyIssue,
    UntranslatedIssue, UnusedKeyIssue,
};
use crate::text::{concat3, push_text, text};

verus! {

/// One edit of one file.
#[derive(Debug, Clone)]
pub enum Operation {
    /// Insert a comment on the line before a place in code.
    InsertComment { context: SourceContext, comment: String },
    /// Delete a key from a message file.
    DeleteJsonKey { context: MessageContext },
}

/// Statistics from running an action.
#[derive(Debug, Clone)]
pub struct ActionStats {
    /// Number of issues processed.
    pub processed: usize,
    /// Number of issues skipped (e.g. missing required fields).
    pub skipped: usize,
    /// Number of files modified.
    pub files_modified: usize,
    /// Number of changes actually applied to files.
    pub changes_applied: usize,
}

impl Default for ActionStats {
    fn default() -> (r: Self)
        ensures
            r.processed == 0,
            r.skipped == 0,
            r.files_modified == 0,
            r.changes_applied == 0,
    {
        ActionStats { processed: 0, skipped: 0, files_modified: 0, changes_applied: 0 }
    }
}

impl ActionStats {
    /// Adds the counts of `other` to these.
    pub fn add_assign(&mut self, other: Self)
        requires
            old(self).processed + other.processed <= usize::MAX,
            old(self).skipped + other.skipped <= usize::MAX,
            old(self).files_modified + other.files_modified <= usize::MAX,
            old(self).changes_applied + other.changes_applied <= usize::MAX,
        ensures
            final(self).processed == old(self).processed + other.processed,
            final(self).skipped == old(self).skipped + other.skipped,
            final(self).files_modified == old(self).files_modified + other.files_modified,
            final(self).changes_applied == old(self).changes_applied + other.changes_applied,
    {
        self.processed = self.processed + other.processed;
        self.skipped = self.skipped + other.skipped;
        self.files_modified = self.files_modified + other.files_modified;
        self.changes_applied = self.changes_applied + other.changes_applied;
    }
}

/// The paths of the files that took changes, one per outcome that changed
/// something, in order.
pub open spec fn changed_paths(outcomes: Seq<(String, usize)>) -> Seq<Seq<char>>
    decreases outcomes.len(),
{
    if outcomes.len() == 0 {
        Seq::empty()
    } else {
        let rest = changed_paths(outcomes.drop_last());
        if outcomes.last().1 > 0 { rest.push(outcomes.last().0@) } else { rest }
    }
}

/// The changes of all outcomes together.
pub open spec fn changes_total(outcomes: Seq<(String, usize)>) -> nat
    decreases outcomes.len(),
{
    if outcomes.len() == 0 { 0 } else { changes_total(outcomes.drop_last()) + outcomes.last().1 as nat }
}

/// The statistics of applying `processed` operations, from what each
/// write did (the file written and how many changes went into it): the
/// changes applied in all, and the number of different files that took a
/// change.
pub fn action_stats(processed: usize, outcomes: &Vec<(String, usize)>) -> (r: ActionStats)
    requires
        changes_total(outcomes@) <= usize::MAX,
    ensures
        r.processed == processed,
        r.skipped == 0,
        r.changes_applied == changes_total(outcomes@),
        r.files_modified as nat == crate::commands::distinct_count(changed_paths(outcomes@)),
{
    let mut changes: usize = 0;
    let mut paths: Vec<String> = Vec::new();
    let mut i: usize = 0;
    while i < outcomes.len()
        invariant
            i <= outcomes@.len(),
            changes_total(outcomes@) <= usize::MAX,
            changes as nat == changes_total(outcomes@.take(i as int)),
            paths@.map_values(|s: String| s@) == changed_paths(outcomes@.take(i as int)),
        decreases outcomes@.len() - i,
    {
        proof {
            assert(outcomes@.take(i + 1).drop_last() =~= outcomes@.take(i as int));
            lemma_changes_total_prefix(outcomes@, i + 1);
        }
        let n = outcomes[i].1;
        changes = changes + n;
        if n > 0 {
            let ghost before = paths@;
            paths.push(outcomes[i].0.clone());
            proof {
                assert(paths@.map_values(|s: String| s@) =~= before.map_values(|s: String| s@).push(outcomes@[i as int].0@));
            }
        }
        i = i + 1;
    }
    proof { assert(outcomes@.take(outcomes@.len() as int) =~= outcomes@); }
    let files = crate::commands::count_distinct(&paths);
    ActionStats { processed, skipped: 0, files_modified: files, changes_applied: changes }
}

proof fn lemma_changes_total_prefix(s: Seq<(String, usize)>, n: int)
    requires
        0 <= n <= s.len(),
    ensures
        changes_total(s.take(n)) <= changes_total(s),
    decreases s.len(),
{
    if n < s.len() {
        assert(s.drop_last().take(n) =~= s.take(n));
        lemma_changes_total_prefix(s.drop_last(), n);
    } else {
        assert(s.take(n) =~= s);
    }
}

/// Converts issues of one kind into operations.
pub trait Action<I> {
    fn to_operations(issues: &[I]) -> Vec<Operation>;
}

/// `op` deletes the key of `c`.
pub open spec fn deletes(op: Operation, c: MessageContext) -> bool {
    op matches Operation::DeleteJsonKey { context } && context.same_as(c)
}

/// `op` inserts `comment` at `c`.
pub open spec fn inserts(op: Operation, c: SourceContext, comment: Seq<char>) -> bool {
    op matches Operation::InsertComment { context, comment: k } && context.same_as(c) && k@ == comment
}

/// Deletes unused or orphan keys from message files.
pub struct DeleteKey;

impl Action<UnusedKeyIssue> for DeleteKey {
    fn to_operations(issues: &[UnusedKeyIssue]) -> (r: Vec<Operation>)
        ensures
            r@.len() == issues@.len(),
            forall|i: int| 0 <= i < issues@.len() ==> deletes(#[trigger] r@[i], issues@[i].context),
    {
        let mut r: Vec<Operation> = Vec::new();
        let mut i: usize = 0;
        while i < issues.len()
            invariant
                i <= issues@.len(),
                r@.len() == i,
                forall|k: int| 0 <= k < i ==> deletes(#[trigger] r@[k], issues@[k].context),
            decreases issues@.len() - i,
        {
            r.push(Operation::DeleteJsonKey { context: issues[i].context.duplicate() });
            i = i + 1;
        }
        r
    }
}

impl Action<OrphanKeyIssue> for DeleteKey {
    fn to_operations(issues: &[OrphanKeyIssue]) -> (r: Vec<Operation>)
        ensures
            r@.len() == issues@.len(),
            forall|i: int| 0 <= i < issues@.len() ==> deletes(#[trigger] r@[i], issues@[i].context),
    {
        let mut r: Vec<Operation> = Vec::new();
        let mut i: usize = 0;
        while i < issues.len()
            invariant
                i <= issues@.len(),
                r@.len() == i,
                forall|k: int| 0 <= k < i ==> deletes(#[trigger] r@[k], issues@[k].context),
            decreases issues@.len() - i,
        {
            r.push(Operation::DeleteJsonKey { context: issues[i].context.duplicate() });
            i = i + 1;
        }
        r
    }
}

/// A comment in the given style around a directive.
pub open spec fn styled_comment(directive: Seq<char>, style: CommentStyle) -> Seq<char> {
    match style {
        CommentStyle::Js => "// "@ + directive,
        CommentStyle::Jsx => "{/* "@ + directive + " */}"@,
    }
}

fn style_comment(directive: &str, style: CommentStyle) -> (r: String)
    ensures
        r@ == styled_comment(directive@, style),
{
    match style {
        CommentStyle::Js => {
            let mut r = text("// ");
            push_text(&mut r, directive);
            r
        },
        CommentStyle::Jsx => concat3("{/* ", directive, " */}"),
    }
}

/// Inserts `glot-disable-next-line` comments (used by `baseline`).
pub struct InsertDisableComment;

/// `glot-disable-next-line <rule>` in the given comment style.
pub open spec fn disable_comment(rule: Rule, style: CommentStyle) -> Seq<char> {
    styled_comment("glot-disable-next-line "@ + rule.spec_name(), style)
}

/// All usages of the issues, in order.
pub open spec fn all_usages(issues: Seq<UntranslatedIssue>) -> Seq<ResolvedKeyUsage>
    decreases issues.len(),
{
    if issues.len() == 0 {
        Seq::empty()
    } else {
        all_usages(issues.drop_last()) + issues.last().usages@
    }
}

impl InsertDisableComment {
    /// Formats a disable comment for a rule.
    pub fn format_comment(rule: Rule, comment_style: CommentStyle) -> (r: String)
        ensures
            r@ == disable_comment(rule, comment_style),
    {
        let name = rule.to_string();
        let mut directive = text("glot-disable-next-line ");
        push_text(&mut directive, name.as_str());
        style_comment(directive.as_str(), comment_style)
    }
}

impl Action<HardcodedTextIssue> for InsertDisableComment {
    fn to_operations(issues: &[HardcodedTextIssue]) -> (r: Vec<Operation>)
        ensures
            r@.len() == issues@.len(),
            forall|i: int| 0 <= i < issues@.len() ==> inserts(#[trigger] r@[i], issues@[i].context,
                disable_comment(Rule::HardcodedText, issues@[i].context.comment_style)),
    {
        let mut r: Vec<Operation> = Vec::new();
        let mut i: usize = 0;
        while i < issues.len()
            invariant
                i <= issues@.len(),
                r@.len() == i,
                forall|k: int| 0 <= k < i ==> inserts(#[trigger] r@[k], issues@[k].context,
                    disable_comment(Rule::HardcodedText, issues@[k].context.comment_style)),
            decreases issues@.len() - i,
        {
            let comment = Self::format_comment(Rule::HardcodedText, issues[i].context.comment_style);
            r.push(Operation::InsertComment { context: issues[i].context.duplicate(), comment });
            i = i + 1;
        }
        r
    }
}

impl Action<UntranslatedIssue> for InsertDisableComment {
    /// One comment at each usage of each issue.
    fn to_operations(issues: &[UntranslatedIssue]) -> (r: Vec<Operation>)
        ensures
            r@.len() == all_usages(issues@).len(),
            forall|j: int| 0 <= j < r@.len() ==> inserts(#[trigger] r@[j], all_usages(issues@)[j].context,
                disable_comment(Rule::Untranslated, all_usages(issues@)[j].context.comment_style)),
    {
        let mut r: Vec<Operation> = Vec::new();
        let mut i: usize = 0;
        while i < issues.len()
            invariant
                i <= issues@.len(),
                r@.len() == all_usages(issues@.take(i as int)).len(),
                forall|j: int| 0 <= j < r@.len() ==> inserts(#[trigger] r@[j], all_usages(issues@.take(i as int))[j].context,
                    disable_comment(Rule::Untranslated, all_usages(issues@.take(i as int))[j].context.comment_style)),
            decreases issues@.len() - i,
        {
            let ghost before = all_usages(issues@.take(i as int));
            proof {
                assert(issues@.take(i + 1).drop_last() =~= issues@.take(i as int));
            }
            let usages = &issues[i].usages;
            let mut u: usize = 0;
            while u < usages.len()
                invariant
                    u <= usages@.len(),
                    r@.len() == before.len() + u,
                    forall|j: int| 0 <= j < before.len() ==> inserts(#[trigger] r@[j], before[j].context,
                        disable_comment(Rule::Untranslated, before[j].context.comment_style)),
                    forall|j: int| before.len() <= j < r@.len() ==> inserts(#[trigger] r@[j], usages@[j - before.len()].context,
                        disable_comment(Rule::Untranslated, usages@[j - before.len()].context.comment_style)),
                decreases usages@.len() - u,
            {
                let comment = Self::format_comment(Rule::Untranslated, usages[u].context.comment_style);
                r.push(Operation::InsertComment { context: usages[u].context.duplicate(), comment });
                u = u + 1;
            }
            proof {
                let after = all_usages(issues@.take(i + 1));
                assert(after =~= before + issues@[i as int].usages@);
                assert forall|j: int| 0 <= j < r@.len() implies inserts(#[trigger] r@[j], after[j].context,
                    disable_comment(Rule::Untranslated, after[j].context.comment_style)) by {
                    if j < before.len() {
                        assert(after[j] == before[j]);
                    } else {
                        assert(after[j] == usages@[j - before.len()]);
                    }
                }
            }
            i = i + 1;
        }
        assert(issues@.take(issues@.len() as int) =~= issues@);
        r
    }
}

/// Inserts `glot-message-keys` comments for dynamic keys (used by `fix`).
pub struct InsertMessageKeys;

/// `glot-message-keys "<pattern>"` in the given comment style.
pub open spec fn message_keys_comment(pattern: Seq<char>, style: CommentStyle) -> Seq<char> {
    styled_comment("glot-message-keys \""@ + pattern + "\""@, style)
}

/// The issues that have a pattern, in order.
pub open spec fn with_pattern(issues: Seq<UnresolvedKeyIssue>) -> Seq<UnresolvedKeyIssue>
    decreases issues.len(),
{
    if issues.len() == 0 {
        Seq::empty()
    } else if issues.last().pattern is Some {
        with_pattern(issues.drop_last()).push(issues.last())
    } else {
        with_pattern(issues.drop_last())
    }
}

impl InsertMessageKeys {
    /// Formats a message-keys comment for a pattern.
    pub fn format_comment(pattern: &str, comment_style: CommentStyle) -> (r: String)
        ensures
            r@ == message_keys_comment(pattern@, comment_style),
    {
        let directive = concat3("glot-message-keys \"", pattern, "\"");
        style_comment(directive.as_str(), comment_style)
    }
}

impl Action<UnresolvedKeyIssue> for InsertMessageKeys {
    /// One comment for each issue that has a pattern; the others are skipped.
    fn to_operations(issues: &[UnresolvedKeyIssue]) -> (r: Vec<Operation>)
        ensures
            r@.len() == with_pattern(issues@).len(),
            forall|j: int| 0 <= j < r@.len() ==> inserts(#[trigger] r@[j], with_pattern(issues@)[j].context,
                message_keys_comment(with_pattern(issues@)[j].pattern->0@, with_pattern(issues@)[j].context.comment_style)),
    {
        let mut r: Vec<Operation> = Vec::new();
        let mut i: usize = 0;
        while i < issues.len()
            invariant
                i <= issues@.len(),
                r@.len() == with_pattern(issues@.take(i as int)).len(),
                forall|j: int| 0 <= j < r@.len() ==> inserts(#[trigger] r@[j], with_pattern(issues@.take(i as int))[j].context,
                    message_keys_comment(with_pattern(issues@.take(i as int))[j].pattern->0@,
                        with_pattern(issues@.take(i as int))[j].context.comment_style)),
            decreases issues@.len() - i,
        {
            proof {
                assert(issues@.take(i + 1).drop_last() =~= issues@.take(i as int));
                assert(issues@.take(i + 1).last() == issues@[i as int]);
            }
            match &issues[i].pattern {
                Some(p) => {
                    let comment = Self::format_comment(p.as_str(), issues[i].context.comment_style);
                    r.push(Operation::InsertComment { context: issues[i].context.duplicate(), comment });
                },
                None => {},
            }
            i = i + 1;
        }
        assert(issues@.take(issues@.len() as int) =~= issues@);
        r
    }
}

} // verus!
