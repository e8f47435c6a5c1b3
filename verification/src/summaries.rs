//! The closing lines of `baseline`, `clean` and `fix`: what was (or would
//! be) changed, and what could not be.

use vstd::prelude::*;
use crate::commands::{BaselineSummary, CleanSummary, CommandResult, CommandSummary, FixSummary, InitSummary};
use crate::issues::{IssueUnresolvedKeyReason, UnresolvedKeyIssue, UntranslatedIssue};
use crate::report::{
    parse_warning_line, parse_warning_text, report_lines, report_spec, success_line, success_mark, success_text,
    Line, Segment, Style, caret_padding, failure_mark, line_text, lines_text, pad_left, pad_left_exec,
    push_line, push_seg, segs_text, spaces, spaces_exec, text_width,
};
use crate::text::{chars_of, decimal, push_text, string_from_chars, text, usize_text};

verus! {

/// `n` in decimal.
pub open spec fn d(n: usize) -> Seq<char> {
    decimal(n as nat)
}

/// A line of two segments.
fn line2(a: String, sa: Style, b: String, sb: Style) -> (r: Line)
    ensures
        line_text(r) == a@ + b@,
{
    let ghost t = a@ + b@;
    let mut segs: Vec<Segment> = Vec::new();
    assert(segs_text(segs@) == Seq::<char>::empty());
    push_seg(&mut segs, a, sa);
    push_seg(&mut segs, b, sb);
    let r = Line { segments: segs };
    assert(line_text(r) =~= t);
    r
}

/// A line of three segments.
fn line3(a: String, sa: Style, b: String, sb: Style, c: String, sc: Style) -> (r: Line)
    ensures
        line_text(r) == a@ + b@ + c@,
{
    let ghost t = a@ + b@ + c@;
    let mut segs: Vec<Segment> = Vec::new();
    assert(segs_text(segs@) == Seq::<char>::empty());
    push_seg(&mut segs, a, sa);
    push_seg(&mut segs, b, sb);
    push_seg(&mut segs, c, sc);
    let r = Line { segments: segs };
    assert(line_text(r) =~= t);
    r
}

/// A plain line.
fn line1(a: String) -> (r: Line)
    ensures
        line_text(r) == a@,
{
    let ghost t = a@;
    let mut segs: Vec<Segment> = Vec::new();
    assert(segs_text(segs@) == Seq::<char>::empty());
    push_seg(&mut segs, a, Style::Plain);
    let r = Line { segments: segs };
    assert(line_text(r) =~= t);
    r
}

/// `Run with --apply to <what>.`
fn run_with_apply(what: &str) -> (r: Line)
    ensures
        line_text(r) == "Run with "@ + "--apply"@ + " to "@ + what@ + "."@,
{
    let mut rest = text(" to ");
    push_text(&mut rest, what);
    push_text(&mut rest, ".");
    let r = line3(text("Run with "), Style::Plain, text("--apply"), Style::Flag, rest, Style::Plain);
    assert(line_text(r) =~= "Run with "@ + "--apply"@ + " to "@ + what@ + "."@);
    r
}

/// The summary of `baseline`, when it has comments to report.
pub open spec fn baseline_text(s: BaselineSummary) -> Seq<Seq<char>> {
    let total = s.hardcoded_count + s.untranslated_usage_count;
    if total == 0 {
        Seq::empty()
    } else if s.is_apply {
        seq!["Inserted"@ + " "@ + d(s.applied_total_count) + " comment(s) in "@ + d(s.file_count)
            + " file(s) (processed "@ + decimal(total as nat) + " issue(s)):"@]
        + (if s.hardcoded_count > 0 {
            seq!["  - hardcoded: "@ + d(s.applied_hardcoded_count) + " comment(s) (from "@ + d(s.hardcoded_count) + " issue(s))"@]
        } else {
            Seq::empty()
        })
        + (if s.untranslated_usage_count > 0 {
            seq!["  - untranslated: "@ + d(s.applied_untranslated_count) + " comment(s), "@ + d(s.untranslated_key_count)
                + " key(s) (from "@ + d(s.untranslated_usage_count) + " usage(s))"@]
        } else {
            Seq::empty()
        })
    } else {
        seq!["Would insert"@ + " "@ + decimal(total as nat) + " comment(s) in "@ + d(s.file_count) + " file(s):"@]
        + (if s.hardcoded_count > 0 {
            seq!["  - hardcoded: "@ + d(s.hardcoded_count) + " comment(s)"@]
        } else {
            Seq::empty()
        })
        + (if s.untranslated_usage_count > 0 {
            seq!["  - untranslated: "@ + d(s.untranslated_usage_count) + " comment(s), "@ + d(s.untranslated_key_count) + " key(s)"@]
        } else {
            Seq::empty()
        })
        + seq!["Run with "@ + "--apply"@ + " to "@ + "insert these comments"@ + "."@]
    }
}

/// The summary lines of `baseline`.
pub fn baseline_summary_lines(s: &BaselineSummary) -> (r: Vec<Line>)
    requires
        s.hardcoded_count + s.untranslated_usage_count <= usize::MAX,
    ensures
        lines_text(r@) == baseline_text(*s),
{
    let mut out: Vec<Line> = Vec::new();
    assert(lines_text(out@) =~= Seq::<Seq<char>>::empty());
    let total = s.hardcoded_count + s.untranslated_usage_count;
    if total == 0 {
        return out;
    }
    let ghost l0 = lines_text(out@);
    if s.is_apply {
        let mut m = text(" ");
        push_text(&mut m, usize_text(s.applied_total_count).as_str());
        push_text(&mut m, " comment(s) in ");
        push_text(&mut m, usize_text(s.file_count).as_str());
        push_text(&mut m, " file(s) (processed ");
        push_text(&mut m, usize_text(total).as_str());
        push_text(&mut m, " issue(s)):");
        let l = line2(text("Inserted"), Style::Success, m, Style::Plain);
        assert(line_text(l) =~= "Inserted"@ + " "@ + d(s.applied_total_count) + " comment(s) in "@ + d(s.file_count)
            + " file(s) (processed "@ + decimal(total as nat) + " issue(s)):"@);
        push_line(&mut out, l);
        let ghost l1 = lines_text(out@);
        if s.hardcoded_count > 0 {
            let mut h = text("  - hardcoded: ");
            push_text(&mut h, usize_text(s.applied_hardcoded_count).as_str());
            push_text(&mut h, " comment(s) (from ");
            push_text(&mut h, usize_text(s.hardcoded_count).as_str());
            push_text(&mut h, " issue(s))");
            let l = line1(h);
            assert(line_text(l) =~= "  - hardcoded: "@ + d(s.applied_hardcoded_count) + " comment(s) (from "@ + d(s.hardcoded_count) + " issue(s))"@);
            push_line(&mut out, l);
        }
        let ghost l2 = lines_text(out@);
        if s.untranslated_usage_count > 0 {
            let mut u = text("  - untranslated: ");
            push_text(&mut u, usize_text(s.applied_untranslated_count).as_str());
            push_text(&mut u, " comment(s), ");
            push_text(&mut u, usize_text(s.untranslated_key_count).as_str());
            push_text(&mut u, " key(s) (from ");
            push_text(&mut u, usize_text(s.untranslated_usage_count).as_str());
            push_text(&mut u, " usage(s))");
            let l = line1(u);
            assert(line_text(l) =~= "  - untranslated: "@ + d(s.applied_untranslated_count) + " comment(s), "@ + d(s.untranslated_key_count)
                + " key(s) (from "@ + d(s.untranslated_usage_count) + " usage(s))"@);
            push_line(&mut out, l);
        }
        assert(lines_text(out@) =~= baseline_text(*s));
    } else {
        let mut m = text(" ");
        push_text(&mut m, usize_text(total).as_str());
        push_text(&mut m, " comment(s) in ");
        push_text(&mut m, usize_text(s.file_count).as_str());
        push_text(&mut m, " file(s):");
        let l = line2(text("Would insert"), Style::Caution, m, Style::Plain);
        assert(line_text(l) =~= "Would insert"@ + " "@ + decimal(total as nat) + " comment(s) in "@ + d(s.file_count) + " file(s):"@);
        push_line(&mut out, l);
        if s.hardcoded_count > 0 {
            let mut h = text("  - hardcoded: ");
            push_text(&mut h, usize_text(s.hardcoded_count).as_str());
            push_text(&mut h, " comment(s)");
            let l = line1(h);
            assert(line_text(l) =~= "  - hardcoded: "@ + d(s.hardcoded_count) + " comment(s)"@);
            push_line(&mut out, l);
        }
        if s.untranslated_usage_count > 0 {
            let mut u = text("  - untranslated: ");
            push_text(&mut u, usize_text(s.untranslated_usage_count).as_str());
            push_text(&mut u, " comment(s), ");
            push_text(&mut u, usize_text(s.untranslated_key_count).as_str());
            push_text(&mut u, " key(s)");
            let l = line1(u);
            assert(line_text(l) =~= "  - untranslated: "@ + d(s.untranslated_usage_count) + " comment(s), "@ + d(s.untranslated_key_count) + " key(s)"@);
            push_line(&mut out, l);
        }
        push_line(&mut out, run_with_apply("insert these comments"));
        assert(lines_text(out@) =~= baseline_text(*s));
    }
    out
}


/// The summary of `clean`, when it has keys to report.
pub open spec fn clean_text(s: CleanSummary) -> Seq<Seq<char>> {
    let total = s.unused_count + s.orphan_count;
    if total == 0 {
        Seq::empty()
    } else if s.is_apply {
        seq!["Deleted"@ + " "@ + d(s.applied_total_count) + " key(s) in "@ + d(s.file_count)
            + " file(s) (processed "@ + decimal(total as nat) + " key(s))."@]
        + (if s.unused_count > 0 {
            seq!["  - unused: "@ + d(s.applied_unused_count) + " key(s) (from "@ + d(s.unused_count) + " issue(s))"@]
        } else {
            Seq::empty()
        })
        + (if s.orphan_count > 0 {
            seq!["  - orphan: "@ + d(s.applied_orphan_count) + " key(s) (from "@ + d(s.orphan_count) + " issue(s))"@]
        } else {
            Seq::empty()
        })
    } else {
        seq!["Would delete"@ + " "@ + d(s.unused_count) + " unused key(s) and "@ + d(s.orphan_count)
            + " orphan key(s) from "@ + d(s.file_count) + " file(s)."@,
            "Run with "@ + "--apply"@ + " to "@ + "delete these keys"@ + "."@]
    }
}

/// The summary lines of `clean`.
pub fn clean_summary_lines(s: &CleanSummary) -> (r: Vec<Line>)
    requires
        s.unused_count + s.orphan_count <= usize::MAX,
    ensures
        lines_text(r@) == clean_text(*s),
{
    let mut out: Vec<Line> = Vec::new();
    assert(lines_text(out@) =~= Seq::<Seq<char>>::empty());
    let total = s.unused_count + s.orphan_count;
    if total == 0 {
        return out;
    }
    if s.is_apply {
        let mut m = text(" ");
        push_text(&mut m, usize_text(s.applied_total_count).as_str());
        push_text(&mut m, " key(s) in ");
        push_text(&mut m, usize_text(s.file_count).as_str());
        push_text(&mut m, " file(s) (processed ");
        push_text(&mut m, usize_text(total).as_str());
        push_text(&mut m, " key(s)).");
        let l = line2(text("Deleted"), Style::Success, m, Style::Plain);
        assert(line_text(l) =~= "Deleted"@ + " "@ + d(s.applied_total_count) + " key(s) in "@ + d(s.file_count)
            + " file(s) (processed "@ + decimal(total as nat) + " key(s))."@);
        push_line(&mut out, l);
        if s.unused_count > 0 {
            let mut u = text("  - unused: ");
            push_text(&mut u, usize_text(s.applied_unused_count).as_str());
            push_text(&mut u, " key(s) (from ");
            push_text(&mut u, usize_text(s.unused_count).as_str());
            push_text(&mut u, " issue(s))");
            let l = line1(u);
            assert(line_text(l) =~= "  - unused: "@ + d(s.applied_unused_count) + " key(s) (from "@ + d(s.unused_count) + " issue(s))"@);
            push_line(&mut out, l);
        }
        if s.orphan_count > 0 {
            let mut o = text("  - orphan: ");
            push_text(&mut o, usize_text(s.applied_orphan_count).as_str());
            push_text(&mut o, " key(s) (from ");
            push_text(&mut o, usize_text(s.orphan_count).as_str());
            push_text(&mut o, " issue(s))");
            let l = line1(o);
            assert(line_text(l) =~= "  - orphan: "@ + d(s.applied_orphan_count) + " key(s) (from "@ + d(s.orphan_count) + " issue(s))"@);
            push_line(&mut out, l);
        }
        assert(lines_text(out@) =~= clean_text(*s));
    } else {
        let mut m = text(" ");
        push_text(&mut m, usize_text(s.unused_count).as_str());
        push_text(&mut m, " unused key(s) and ");
        push_text(&mut m, usize_text(s.orphan_count).as_str());
        push_text(&mut m, " orphan key(s) from ");
        push_text(&mut m, usize_text(s.file_count).as_str());
        push_text(&mut m, " file(s).");
        let l = line2(text("Would delete"), Style::Caution, m, Style::Plain);
        assert(line_text(l) =~= "Would delete"@ + " "@ + d(s.unused_count) + " unused key(s) and "@ + d(s.orphan_count)
            + " orphan key(s) from "@ + d(s.file_count) + " file(s)."@);
        push_line(&mut out, l);
        push_line(&mut out, run_with_apply("delete these keys"));
        assert(lines_text(out@) =~= clean_text(*s));
    }
    out
}

/// Why `clean` refuses to run: files that could not be parsed, or
/// unresolved keys (whose usage cannot be tracked).
pub open spec fn clean_blocked_text(count: usize, parse_errors: bool) -> Seq<Seq<char>> {
    if parse_errors {
        seq!["Error: "@ + failure_mark() + " Cannot clean, "@ + d(count) + " file(s) could not be parsed."@,
            "Parse errors mean some files could not be analyzed."@,
            "Run `glot check` to see details and fix them."@]
    } else {
        seq!["Error: "@ + failure_mark() + " Cannot clean, "@ + d(count) + " unresolved key warning(s) found."@,
            "Unresolved keys prevent tracking all key usage."@,
            "Run `glot check` to see details, then fix or suppress them."@]
    }
}

/// The lines `clean` prints when it refuses to run.
pub fn clean_blocked_lines(count: usize, parse_errors: bool) -> (r: Vec<Line>)
    ensures
        lines_text(r@) == clean_blocked_text(count, parse_errors),
{
    proof { reveal_strlit("\u{2718}"); }
    let mut out: Vec<Line> = Vec::new();
    assert(lines_text(out@) =~= Seq::<Seq<char>>::empty());
    let mut m = text(" Cannot clean, ");
    push_text(&mut m, usize_text(count).as_str());
    if parse_errors {
        push_text(&mut m, " file(s) could not be parsed.");
    } else {
        push_text(&mut m, " unresolved key warning(s) found.");
    }
    let l = line3(text("Error: "), Style::Plain, text("\u{2718}"), Style::Failure, m, Style::Plain);
    let (second, third) = if parse_errors {
        (text("Parse errors mean some files could not be analyzed."), text("Run `glot check` to see details and fix them."))
    } else {
        (text("Unresolved keys prevent tracking all key usage."), text("Run `glot check` to see details, then fix or suppress them."))
    };
    if parse_errors {
        assert(line_text(l) =~= "Error: "@ + failure_mark() + " Cannot clean, "@ + d(count) + " file(s) could not be parsed."@);
    } else {
        assert(line_text(l) =~= "Error: "@ + failure_mark() + " Cannot clean, "@ + d(count) + " unresolved key warning(s) found."@);
    }
    push_line(&mut out, l);
    push_line(&mut out, line1(second));
    push_line(&mut out, line1(third));
    assert(lines_text(out@) =~= clean_blocked_text(count, parse_errors));
    out
}

/// Number of issues with a pattern to insert.
pub open spec fn count_fixable(issues: Seq<UnresolvedKeyIssue>) -> nat
    decreases issues.len(),
{
    if issues.len() == 0 {
        0
    } else {
        count_fixable(issues.drop_last()) + if issues.last().pattern is Some { 1nat } else { 0nat }
    }
}

/// How many unresolved keys `fix` can fix (they have a pattern) and how
/// many it must skip.
pub fn fix_counts(issues: &Vec<UnresolvedKeyIssue>) -> (r: (usize, usize))
    ensures
        r.0 as nat == count_fixable(issues@),
        r.0 + r.1 == issues@.len(),
{
    let mut fixable: usize = 0;
    let mut i: usize = 0;
    while i < issues.len()
        invariant
            i <= issues@.len(),
            fixable as nat == count_fixable(issues@.take(i as int)),
            fixable <= i,
        decreases issues@.len() - i,
    {
        proof {
            assert(issues@.take(i + 1).drop_last() =~= issues@.take(i as int));
            assert(issues@.take(i + 1).last() == issues@[i as int]);
        }
        if issues[i].pattern.is_some() {
            fixable = fixable + 1;
        }
        i = i + 1;
    }
    proof { assert(issues@.take(issues@.len() as int) =~= issues@); }
    (fixable, issues.len() - fixable)
}

/// The summary of `fix` after its preview, when there are unresolved keys.
pub open spec fn fix_text(s: FixSummary, has_unfixable: bool) -> Seq<Seq<char>> {
    let has_fixable = s.processed_count > 0;
    if s.unresolved_count == 0 {
        Seq::empty()
    } else {
        (if s.is_apply {
            if has_fixable {
                seq!["Inserted"@ + " "@ + d(s.applied_count) + " comment(s) in "@ + d(s.file_count)
                    + " file(s) (processed "@ + d(s.processed_count) + " issue(s))."@]
                + if s.skipped_count > 0 {
                    seq!["  - skipped: "@ + d(s.skipped_count) + " issue(s) without pattern"@]
                } else {
                    Seq::empty()
                }
            } else {
                Seq::empty()
            }
        } else if has_fixable {
            seq!["Would insert"@ + " "@ + d(s.processed_count) + " comment(s) in "@ + d(s.file_count) + " file(s)."@,
                "Run with "@ + "--apply"@ + " to "@ + "insert these comments"@ + "."@]
        } else {
            Seq::empty()
        })
        + if has_unfixable && !s.is_apply {
            if has_fixable {
                seq!["Note: "@ + d(s.skipped_count) + " dynamic key(s) cannot be fixed (variable keys)."@]
            } else {
                seq![Seq::empty(), "Note: No fixable dynamic keys (all are variable keys without hints)."@]
            }
        } else {
            Seq::empty()
        }
    }
}

/// The summary lines of `fix` after its preview; `has_unfixable` says
/// whether some unresolved key has no pattern.
pub fn fix_summary_lines(s: &FixSummary, has_unfixable: bool) -> (r: Vec<Line>)
    ensures
        lines_text(r@) == fix_text(*s, has_unfixable),
{
    let mut out: Vec<Line> = Vec::new();
    assert(lines_text(out@) =~= Seq::<Seq<char>>::empty());
    if s.unresolved_count == 0 {
        return out;
    }
    let has_fixable = s.processed_count > 0;
    if s.is_apply {
        if has_fixable {
            let mut m = text(" ");
            push_text(&mut m, usize_text(s.applied_count).as_str());
            push_text(&mut m, " comment(s) in ");
            push_text(&mut m, usize_text(s.file_count).as_str());
            push_text(&mut m, " file(s) (processed ");
            push_text(&mut m, usize_text(s.processed_count).as_str());
            push_text(&mut m, " issue(s)).");
            let l = line2(text("Inserted"), Style::Success, m, Style::Plain);
            assert(line_text(l) =~= "Inserted"@ + " "@ + d(s.applied_count) + " comment(s) in "@ + d(s.file_count)
                + " file(s) (processed "@ + d(s.processed_count) + " issue(s))."@);
            push_line(&mut out, l);
            if s.skipped_count > 0 {
                let mut k = text("  - skipped: ");
                push_text(&mut k, usize_text(s.skipped_count).as_str());
                push_text(&mut k, " issue(s) without pattern");
                let l = line1(k);
                assert(line_text(l) =~= "  - skipped: "@ + d(s.skipped_count) + " issue(s) without pattern"@);
                push_line(&mut out, l);
            }
        }
    } else if has_fixable {
        let mut m = text(" ");
        push_text(&mut m, usize_text(s.processed_count).as_str());
        push_text(&mut m, " comment(s) in ");
        push_text(&mut m, usize_text(s.file_count).as_str());
        push_text(&mut m, " file(s).");
        let l = line2(text("Would insert"), Style::Caution, m, Style::Plain);
        assert(line_text(l) =~= "Would insert"@ + " "@ + d(s.processed_count) + " comment(s) in "@ + d(s.file_count) + " file(s)."@);
        push_line(&mut out, l);
        push_line(&mut out, run_with_apply("insert these comments"));
    }
    let ghost before = lines_text(out@);
    if has_unfixable && !s.is_apply {
        if has_fixable {
            let mut n = text("Note: ");
            push_text(&mut n, usize_text(s.skipped_count).as_str());
            push_text(&mut n, " dynamic key(s) cannot be fixed (variable keys).");
            let l = line1(n);
            assert(line_text(l) =~= "Note: "@ + d(s.skipped_count) + " dynamic key(s) cannot be fixed (variable keys)."@);
            push_line(&mut out, l);
        } else {
            let e = line1(String::new());
            assert(line_text(e) =~= Seq::<char>::empty());
            push_line(&mut out, e);
            push_line(&mut out, line1(text("Note: No fixable dynamic keys (all are variable keys without hints).")));
        }
    }
    assert(lines_text(out@) =~= fix_text(*s, has_unfixable));
    out
}

/// The columns before a caret under column `col` of a source line.
fn caret_padding_exec(sl: &str, col: usize) -> (r: usize)
    ensures
        r == caret_padding(sl@, col),
{
    let chars = chars_of(sl);
    let take = if col > 1 {
        if col - 1 < chars.len() { col - 1 } else { chars.len() }
    } else {
        0
    };
    let prefix_chars = crate::lines::s_range(&chars, 0, take);
    let prefix = string_from_chars(prefix_chars.as_slice());
    proof {
        if col <= 1 {
            assert(prefix@ =~= Seq::<char>::empty());
        } else {
            assert(prefix@ =~= sl@.take(take as int));
        }
    }
    text_width(prefix.as_str())
}

/// The lines of one unresolved key `fix` cannot fix.
pub open spec fn unfixable_key_text(i: UnresolvedKeyIssue) -> Seq<Seq<char>> {
    let c = i.context;
    seq![
        "  "@ + "-->"@ + " "@ + c.location.file_path@ + ":"@ + d(c.location.line) + ":"@ + d(c.location.col) + "  "@ + "[unresolved-key]"@,
        "     "@ + "|"@,
        " "@ + pad_left(d(c.location.line), 3) + " "@ + "|"@ + " "@ + c.source_line@,
        "     "@ + "|"@ + " "@ + spaces(caret_padding(c.source_line@, c.location.col) as nat) + "^"@,
        "   "@ + "="@ + " reason: "@ + i.reason.spec_text(),
        Seq::empty()
    ]
}

pub open spec fn unfixable_keys_rest(issues: Seq<UnresolvedKeyIssue>) -> Seq<Seq<char>>
    decreases issues.len(),
{
    if issues.len() == 0 {
        Seq::empty()
    } else {
        unfixable_keys_rest(issues.drop_last()) + unfixable_key_text(issues.last())
    }
}

/// What `fix` prints about the unresolved keys it cannot fix (those without
/// a pattern): a heading, then each key at its place with its reason.
pub open spec fn unfixable_keys_text(issues: Seq<UnresolvedKeyIssue>) -> Seq<Seq<char>> {
    seq![failure_mark() + " Cannot fix "@ + decimal(issues.len()) + " unresolved key(s) (variable keys without pattern hints):"@,
        Seq::empty()]
    + unfixable_keys_rest(issues)
}

/// The lines about the unresolved keys `fix` cannot fix.
pub fn unfixable_keys_lines(issues: &[UnresolvedKeyIssue]) -> (r: Vec<Line>)
    ensures
        lines_text(r@) == unfixable_keys_text(issues@),
{
    proof { reveal_strlit("\u{2718}"); }
    let mut out: Vec<Line> = Vec::new();
    assert(lines_text(out@) =~= Seq::<Seq<char>>::empty());
    let mut m = text(" Cannot fix ");
    push_text(&mut m, usize_text(issues.len()).as_str());
    push_text(&mut m, " unresolved key(s) (variable keys without pattern hints):");
    let l = line2(text("\u{2718}"), Style::Failure, m, Style::Plain);
    assert(line_text(l) =~= failure_mark() + " Cannot fix "@ + decimal(issues@.len()) + " unresolved key(s) (variable keys without pattern hints):"@);
    push_line(&mut out, l);
    let e = line1(String::new());
    assert(line_text(e) =~= Seq::<char>::empty());
    push_line(&mut out, e);
    let ghost head = lines_text(out@);
    let mut i: usize = 0;
    while i < issues.len()
        invariant
            i <= issues@.len(),
            head == seq![failure_mark() + " Cannot fix "@ + decimal(issues@.len()) + " unresolved key(s) (variable keys without pattern hints):"@,
                Seq::<char>::empty()],
            lines_text(out@) == head + unfixable_keys_rest(issues@.take(i as int)),
        decreases issues@.len() - i,
    {
        let c = &issues[i].context;
        let ghost before = lines_text(out@);
        // --> place  [rule]
        let mut place = text(" ");
        push_text(&mut place, c.file_path());
        push_text(&mut place, ":");
        push_text(&mut place, usize_text(c.line()).as_str());
        push_text(&mut place, ":");
        push_text(&mut place, usize_text(c.col()).as_str());
        push_text(&mut place, "  ");
        let mut segs: Vec<Segment> = Vec::new();
        assert(segs_text(segs@) == Seq::<char>::empty());
        push_seg(&mut segs, text("  "), Style::Plain);
        push_seg(&mut segs, text("-->"), Style::Gutter);
        push_seg(&mut segs, place, Style::Plain);
        push_seg(&mut segs, text("[unresolved-key]"), Style::Rule);
        let l1 = Line { segments: segs };
        assert(line_text(l1) =~= "  "@ + "-->"@ + " "@ + c.location.file_path@ + ":"@ + d(c.location.line) + ":"@ + d(c.location.col) + "  "@ + "[unresolved-key]"@);
        push_line(&mut out, l1);
        let l2 = line2(text("     "), Style::Plain, text("|"), Style::Gutter);
        push_line(&mut out, l2);
        let mut segs: Vec<Segment> = Vec::new();
        assert(segs_text(segs@) == Seq::<char>::empty());
        push_seg(&mut segs, text(" "), Style::Plain);
        push_seg(&mut segs, pad_left_exec(usize_text(c.line()), 3), Style::Gutter);
        push_seg(&mut segs, text(" "), Style::Plain);
        push_seg(&mut segs, text("|"), Style::Gutter);
        push_seg(&mut segs, text(" "), Style::Plain);
        push_seg(&mut segs, c.source_line.clone(), Style::Plain);
        let l3 = Line { segments: segs };
        assert(line_text(l3) =~= " "@ + pad_left(d(c.location.line), 3) + " "@ + "|"@ + " "@ + c.source_line@);
        push_line(&mut out, l3);
        let padding = caret_padding_exec(c.source_line.as_str(), c.col());
        let mut segs: Vec<Segment> = Vec::new();
        assert(segs_text(segs@) == Seq::<char>::empty());
        push_seg(&mut segs, text("     "), Style::Plain);
        push_seg(&mut segs, text("|"), Style::Gutter);
        push_seg(&mut segs, text(" "), Style::Plain);
        push_seg(&mut segs, spaces_exec(padding), Style::Plain);
        push_seg(&mut segs, text("^"), Style::ErrorCaret);
        let l4 = Line { segments: segs };
        assert(line_text(l4) =~= "     "@ + "|"@ + " "@ + spaces(caret_padding(c.source_line@, c.location.col) as nat) + "^"@);
        push_line(&mut out, l4);
        let mut reason = text(" reason: ");
        push_text(&mut reason, issues[i].reason.to_string().as_str());
        let l5 = line3(text("   "), Style::Plain, text("="), Style::Gutter, reason, Style::Plain);
        assert(line_text(l5) =~= "   "@ + "="@ + " reason: "@ + issues@[i as int].reason.spec_text());
        push_line(&mut out, l5);
        let e = line1(String::new());
        assert(line_text(e) =~= Seq::<char>::empty());
        push_line(&mut out, e);
        proof {
            assert(issues@.take(i + 1).drop_last() =~= issues@.take(i as int));
            assert(issues@.take(i + 1).last() == issues@[i as int]);
            assert(lines_text(out@) =~= before + unfixable_key_text(issues@[i as int]));
            assert(lines_text(out@) =~= head + unfixable_keys_rest(issues@.take(i + 1)));
        }
        i = i + 1;
    }
    proof { assert(issues@.take(issues@.len() as int) =~= issues@); }
    out
}

/// What `baseline` prints about untranslated keys no comment can suppress
/// (they have no usages in code).
pub open spec fn untranslated_rest(issues: Seq<UntranslatedIssue>) -> Seq<Seq<char>>
    decreases issues.len(),
{
    if issues.len() == 0 {
        Seq::empty()
    } else {
        untranslated_rest(issues.drop_last()).push("  - "@ + issues.last().context.key@ + " at "@
            + issues.last().context.location.file_path@ + ":"@ + d(issues.last().context.location.line))
    }
}

pub open spec fn untranslated_without_usages_text(issues: Seq<UntranslatedIssue>) -> Seq<Seq<char>> {
    seq!["Error: "@ + failure_mark() + " "@ + decimal(issues.len())
        + " untranslated key issue(s) cannot be suppressed with source comments because no usages were found."@]
    + untranslated_rest(issues)
    + seq!["Translate these values, remove unused keys, or configure `severities.untranslated` for a project-wide policy."@]
}

/// The lines about untranslated keys `baseline` cannot suppress.
pub fn untranslated_without_usages_lines(issues: &[UntranslatedIssue]) -> (r: Vec<Line>)
    ensures
        lines_text(r@) == untranslated_without_usages_text(issues@),
{
    proof { reveal_strlit("\u{2718}"); }
    let mut out: Vec<Line> = Vec::new();
    assert(lines_text(out@) =~= Seq::<Seq<char>>::empty());
    let mut m = text(" ");
    push_text(&mut m, usize_text(issues.len()).as_str());
    push_text(&mut m, " untranslated key issue(s) cannot be suppressed with source comments because no usages were found.");
    let l = line3(text("Error: "), Style::Plain, text("\u{2718}"), Style::Failure, m, Style::Plain);
    assert(line_text(l) =~= "Error: "@ + failure_mark() + " "@ + decimal(issues@.len())
        + " untranslated key issue(s) cannot be suppressed with source comments because no usages were found."@);
    push_line(&mut out, l);
    let ghost head = lines_text(out@);
    let mut i: usize = 0;
    while i < issues.len()
        invariant
            i <= issues@.len(),
            head.len() == 1,
            head[0] == "Error: "@ + failure_mark() + " "@ + decimal(issues@.len())
                + " untranslated key issue(s) cannot be suppressed with source comments because no usages were found."@,
            lines_text(out@) == head + untranslated_rest(issues@.take(i as int)),
        decreases issues@.len() - i,
    {
        let c = &issues[i].context;
        let mut t = text("  - ");
        push_text(&mut t, c.key.as_str());
        push_text(&mut t, " at ");
        push_text(&mut t, c.file_path());
        push_text(&mut t, ":");
        push_text(&mut t, usize_text(c.line()).as_str());
        let ghost before = lines_text(out@);
        let l = line1(t);
        push_line(&mut out, l);
        proof {
            assert(issues@.take(i + 1).drop_last() =~= issues@.take(i as int));
            assert(issues@.take(i + 1).last() == issues@[i as int]);
            assert(lines_text(out@) =~= head + untranslated_rest(issues@.take(i + 1)));
        }
        i = i + 1;
    }
    proof { assert(issues@.take(issues@.len() as int) =~= issues@); }
    push_line(&mut out, line1(text("Translate these values, remove unused keys, or configure `severities.untranslated` for a project-wide policy.")));
    assert(lines_text(out@) =~= untranslated_without_usages_text(issues@));
    out
}

} // verus!

verus! {

/// The unresolved keys without a pattern, in order: those `fix` cannot fix.
pub open spec fn without_pattern(issues: Seq<UnresolvedKeyIssue>) -> Seq<UnresolvedKeyIssue>
    decreases issues.len(),
{
    if issues.len() == 0 {
        Seq::empty()
    } else if issues.last().pattern is None {
        without_pattern(issues.drop_last()).push(issues.last())
    } else {
        without_pattern(issues.drop_last())
    }
}

/// `a` and `b` report the same places for the same reasons, one for one.
pub open spec fn same_reports(a: Seq<UnresolvedKeyIssue>, b: Seq<UnresolvedKeyIssue>) -> bool {
    &&& a.len() == b.len()
    &&& forall|i: int| 0 <= i < a.len() ==> (#[trigger] a[i]).context.same_as(b[i].context)
        && a[i].reason.spec_text() == b[i].reason.spec_text()
}

proof fn lemma_same_reports_text(a: Seq<UnresolvedKeyIssue>, b: Seq<UnresolvedKeyIssue>)
    requires
        same_reports(a, b),
    ensures
        unfixable_keys_rest(a) == unfixable_keys_rest(b),
    decreases a.len(),
{
    if a.len() > 0 {
        lemma_same_reports_text(a.drop_last(), b.drop_last());
        assert(a.last().context.same_as(b.last().context));
        assert(unfixable_key_text(a.last()) =~= unfixable_key_text(b.last()));
    }
}

fn copy_reason(r: &IssueUnresolvedKeyReason) -> (c: IssueUnresolvedKeyReason)
    ensures
        c.spec_text() == r.spec_text(),
{
    match r {
        IssueUnresolvedKeyReason::VariableKey => IssueUnresolvedKeyReason::VariableKey,
        IssueUnresolvedKeyReason::TemplateWithExpr => IssueUnresolvedKeyReason::TemplateWithExpr,
        IssueUnresolvedKeyReason::UnknownNamespace { schema_name } =>
            IssueUnresolvedKeyReason::UnknownNamespace { schema_name: schema_name.clone() },
    }
}

/// Copies of the unresolved keys that have no pattern, in order.
fn unfixable_issues(issues: &[UnresolvedKeyIssue]) -> (r: Vec<UnresolvedKeyIssue>)
    ensures
        same_reports(r@, without_pattern(issues@)),
{
    let mut r: Vec<UnresolvedKeyIssue> = Vec::new();
    let mut i: usize = 0;
    proof { assert(issues@.take(0) =~= Seq::<UnresolvedKeyIssue>::empty()); }
    while i < issues.len()
        invariant
            i <= issues@.len(),
            same_reports(r@, without_pattern(issues@.take(i as int))),
        decreases issues@.len() - i,
    {
        proof {
            assert(issues@.take(i + 1).drop_last() =~= issues@.take(i as int));
            assert(issues@.take(i + 1).last() == issues@[i as int]);
        }
        if issues[i].pattern.is_none() {
            let c = UnresolvedKeyIssue {
                context: issues[i].context.duplicate(),
                reason: copy_reason(&issues[i].reason),
                hint: None,
                pattern: None,
            };
            r.push(c);
        }
        i = i + 1;
    }
    proof { assert(issues@.take(issues@.len() as int) =~= issues@); }
    r
}

/// What `fix` reports after its preview: the keys it cannot fix, where
/// there are any, then its summary.
pub open spec fn fix_report_text(s: FixSummary) -> Seq<Seq<char>> {
    let unfixable = without_pattern(s.unresolved_issues@);
    (if unfixable.len() > 0 { unfixable_keys_text(unfixable) } else { Seq::empty() })
        + fix_text(s, unfixable.len() > 0)
}

/// The lines `fix` reports after its preview.
pub fn fix_report_lines(s: &FixSummary) -> (r: Vec<Line>)
    ensures
        lines_text(r@) == fix_report_text(*s),
{
    let unfixable = unfixable_issues(s.unresolved_issues.as_slice());
    let has_unfixable = unfixable.len() > 0;
    let mut out: Vec<Line> = Vec::new();
    if has_unfixable {
        out = unfixable_keys_lines(unfixable.as_slice());
        proof {
            lemma_same_reports_text(unfixable@, without_pattern(s.unresolved_issues@));
        }
    }
    let ghost first = lines_text(out@);
    let mut rest = fix_summary_lines(s, has_unfixable);
    let ghost second = lines_text(rest@);
    out.append(&mut rest);
    proof {
        assert(lines_text(out@) =~= first + second);
    }
    out
}

/// The name of the configuration file.
pub open spec fn config_file_name() -> Seq<char> {
    ".glotrc.json"@
}

/// What `init` reports: that it created the configuration file, if it did.
pub open spec fn init_text(s: InitSummary) -> Seq<Seq<char>> {
    if s.created { seq![success_mark() + " Created "@ + config_file_name()] } else { Seq::empty() }
}

/// The lines `init` reports.
pub fn init_summary_lines(s: &InitSummary) -> (r: Vec<Line>)
    ensures
        lines_text(r@) == init_text(*s),
{
    proof { reveal_strlit("\u{2713}"); }
    let mut out: Vec<Line> = Vec::new();
    assert(lines_text(out@) =~= Seq::<Seq<char>>::empty());
    if s.created {
        let mut m = text(" Created ");
        push_text(&mut m, ".glotrc.json");
        let l = line2(text("\u{2713}"), Style::Success, m, Style::Success);
        assert("\u{2713}"@ =~= success_mark());
        assert(line_text(l) =~= success_mark() + " Created "@ + config_file_name());
        push_line(&mut out, l);
        assert(lines_text(out@) =~= init_text(*s));
    }
    out
}

/// What a command reports about its own work.
pub open spec fn command_text(r: CommandResult) -> Seq<Seq<char>> {
    match r.summary {
        CommandSummary::Check => report_spec(r.issues@),
        CommandSummary::Baseline(s) => baseline_text(s),
        CommandSummary::Fix(s) => fix_report_text(s),
        CommandSummary::Clean(s) => clean_text(s),
        CommandSummary::Init(s) => init_text(s),
    }
}

/// The whole output of a command: its report, the success line where it
/// found no issue, and the warning about files that did not parse
/// (unless details are shown).
pub open spec fn result_text(r: CommandResult, verbose: bool) -> Seq<Seq<char>> {
    command_text(r)
        + (if r.issues@.len() == 0 {
            seq![success_text(r.source_files_checked, r.locale_files_checked)]
        } else {
            Seq::empty()
        })
        + (if r.parse_error_count > 0 && !verbose { seq![parse_warning_text(r.parse_error_count)] } else { Seq::empty() })
}

/// The lines a finished command prints.
pub fn result_lines(result: &CommandResult, verbose: bool) -> (r: Vec<Line>)
    requires
        result.summary matches CommandSummary::Baseline(s) ==> s.hardcoded_count + s.untranslated_usage_count <= usize::MAX,
        result.summary matches CommandSummary::Clean(s) ==> s.unused_count + s.orphan_count <= usize::MAX,
    ensures
        lines_text(r@) == result_text(*result, verbose),
{
    let mut out = match &result.summary {
        CommandSummary::Check => report_lines(result.issues.as_slice()),
        CommandSummary::Baseline(s) => baseline_summary_lines(s),
        CommandSummary::Fix(s) => fix_report_lines(s),
        CommandSummary::Clean(s) => clean_summary_lines(s),
        CommandSummary::Init(s) => init_summary_lines(s),
    };
    let ghost first = lines_text(out@);
    assert(first == command_text(*result));
    if result.issues.len() == 0 {
        let l = success_line(result.source_files_checked, result.locale_files_checked);
        push_line(&mut out, l);
    }
    let ghost second = lines_text(out@);
    assert(second == command_text(*result) + (if result.issues@.len() == 0 {
            seq![success_text(result.source_files_checked, result.locale_files_checked)]
        } else {
            Seq::empty()
        }));
    match parse_warning_line(result.parse_error_count, verbose) {
        Some(l) => push_line(&mut out, l),
        None => {},
    }
    out
}

} // verus!
