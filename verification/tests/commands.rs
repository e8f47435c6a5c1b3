//! What the commands decide and the summaries they print.

use glot::args::{Arguments, CheckArgs, CheckCommand, Command, CommonArgs};
use glot::commands::{
    BaselineSummary, CheckRule, CleanRule, CleanSummary, CommandKind, CommandSummary, ExitStatus,
    FixSummary, InitSummary, SuppressibleRule, baseline_exit_status, baseline_file_count, check_exit_status,
    clean_exit_status, clean_file_count, count_distinct, exit_code_from_result, finish,
    fix_exit_status, fix_file_count, selected_rules, split_suppressible, unique_hardcoded_lines,
    unique_untranslated_lines, untranslated_usage_count,
};
use glot::context::{CommentStyle, MessageContext, MessageLocation, SourceContext, SourceLocation};
use glot::issues::{
    FullKey, HardcodedTextIssue, Issue, IssueUnresolvedKeyReason, OrphanKeyIssue, ParseErrorIssue,
    ResolvedKeyUsage, UnresolvedKeyIssue, UntranslatedIssue, UnusedKeyIssue,
};
use glot::actions::Operation;
use glot::edits::{insert_comment_lines, insert_ops_by_file};
use glot::report::lines_to_string;
use glot::run_result;
use glot::summaries::{
    baseline_summary_lines, clean_blocked_lines, clean_summary_lines, fix_counts, fix_summary_lines,
    fix_report_lines, init_summary_lines, result_lines, unfixable_keys_lines, untranslated_without_usages_lines,
};

fn hardcoded(file: &str, line: usize) -> HardcodedTextIssue {
    HardcodedTextIssue {
        context: SourceContext::new(SourceLocation::new(file, line, 5), "<p>Hi</p>", CommentStyle::Jsx),
        text: "Hi".to_string(),
    }
}

fn usage(file: &str, line: usize) -> ResolvedKeyUsage {
    ResolvedKeyUsage {
        key: FullKey::new("Common.ok"),
        context: SourceContext::new(SourceLocation::new(file, line, 3), "t(\"ok\")", CommentStyle::Js),
        suppressed_rules: Vec::new(),
        from_schema: None,
    }
}

fn untranslated(key: &str, usages: Vec<ResolvedKeyUsage>) -> UntranslatedIssue {
    UntranslatedIssue {
        context: MessageContext::new(MessageLocation::new("./messages/zh.json", 4, 3), key, "OK"),
        primary_locale: "en".to_string(),
        identical_in: vec!["zh".to_string()],
        usages,
    }
}

fn unresolved(file: &str, line: usize, pattern: Option<&str>) -> UnresolvedKeyIssue {
    UnresolvedKeyIssue {
        context: SourceContext::new(SourceLocation::new(file, line, 9), "  t(key)", CommentStyle::Js),
        reason: IssueUnresolvedKeyReason::VariableKey,
        hint: None,
        pattern: pattern.map(|p| p.to_string()),
    }
}

#[test]
fn exit_status_codes() {
    assert_eq!(ExitStatus::Success.code(), 0);
    assert_eq!(ExitStatus::Failure.code(), 1);
    assert_eq!(ExitStatus::Error.code(), 2);
}

#[test]
fn every_rule_by_default() {
    assert_eq!(CheckRule::all().len(), 8);
    assert_eq!(CheckRule::all()[0], CheckRule::Hardcoded);
    assert_eq!(CheckRule::all()[7], CheckRule::Unresolved);
    assert_eq!(CleanRule::all(), vec![CleanRule::Unused, CleanRule::Orphan]);
    assert_eq!(SuppressibleRule::all(), vec![SuppressibleRule::Hardcoded, SuppressibleRule::Untranslated]);
    assert_eq!(selected_rules(&Vec::new(), CleanRule::all()), vec![CleanRule::Unused, CleanRule::Orphan]);
    assert_eq!(selected_rules(&vec![CleanRule::Orphan], CleanRule::all()), vec![CleanRule::Orphan]);
}

#[test]
fn finish_counts_issues() {
    let issues = vec![
        Issue::HardcodedText(hardcoded("./a.tsx", 3)),
        Issue::Untranslated(untranslated("Common.ok", vec![])),
        Issue::ParseError(ParseErrorIssue { file_path: "./b.tsx".to_string(), error: "bad".to_string() }),
    ];
    let r = finish(CommandKind::Check, CommandSummary::Check, issues, 4, 2);
    assert_eq!(r.error_count, 2);
    assert_eq!(r.warning_count, 1);
    assert_eq!(r.parse_error_count, 1);
    assert_eq!(r.issues.len(), 3);
    assert_eq!(r.source_files_checked, 4);
    assert_eq!(r.locale_files_checked, 2);
    assert_eq!(exit_code_from_result(&r), 1);
    let r = run_result::finish(Vec::new(), 1, 0);
    assert_eq!(r.error_count, 0);
    assert!(r.exit_on_errors);
}

#[test]
fn exit_statuses_of_commands() {
    let warning_only = vec![Issue::Untranslated(untranslated("Common.ok", vec![]))];
    let with_error = vec![Issue::HardcodedText(hardcoded("./a.tsx", 3))];
    assert_eq!(check_exit_status(0, &warning_only), ExitStatus::Failure);
    assert_eq!(check_exit_status(0, &Vec::new()), ExitStatus::Success);
    assert_eq!(check_exit_status(0, &with_error), ExitStatus::Failure);
    assert_eq!(check_exit_status(1, &warning_only), ExitStatus::Error);
    assert_eq!(clean_exit_status(0, 2, false), ExitStatus::Failure);
    assert_eq!(clean_exit_status(0, 2, true), ExitStatus::Success);
    assert_eq!(clean_exit_status(0, 0, false), ExitStatus::Success);
    assert_eq!(baseline_exit_status(0, 0, false, 1), ExitStatus::Failure);
    assert_eq!(baseline_exit_status(0, 3, true, 0), ExitStatus::Success);
    assert_eq!(baseline_exit_status(2, 0, true, 0), ExitStatus::Error);
    assert_eq!(fix_exit_status(0, 1, false), ExitStatus::Failure);
    assert_eq!(fix_exit_status(0, 1, true), ExitStatus::Success);
}

#[test]
fn distinct_counts() {
    let paths = vec!["a".to_string(), "b".to_string(), "a".to_string()];
    assert_eq!(count_distinct(&paths), 2);
    let hc = vec![hardcoded("./a.tsx", 3), hardcoded("./a.tsx", 3), hardcoded("./a.tsx", 4)];
    assert_eq!(unique_hardcoded_lines(&hc), 2);
    let un = vec![
        untranslated("A", vec![usage("./b.tsx", 1), usage("./b.tsx", 1)]),
        untranslated("B", vec![usage("./b.tsx", 2)]),
    ];
    assert_eq!(unique_untranslated_lines(&un), 2);
    assert_eq!(untranslated_usage_count(&un), 3);
    assert_eq!(baseline_file_count(&hc, &un), 2);
    let unused = vec![UnusedKeyIssue { context: MessageContext::new(MessageLocation::new("en.json", 1, 1), "A", "a") }];
    let orphan = vec![OrphanKeyIssue {
        context: MessageContext::new(MessageLocation::new("zh.json", 1, 1), "B", "b"),
        locale: "zh".to_string(),
    }];
    assert_eq!(clean_file_count(&unused, &orphan), 2);
    let unres = vec![unresolved("./a.tsx", 1, None), unresolved("./a.tsx", 2, Some("k.*"))];
    assert_eq!(fix_file_count(&unres), 1);
    assert_eq!(fix_counts(&unres), (1, 1));
}

#[test]
fn split_untranslated_by_usages() {
    let (with, without) = split_suppressible(vec![
        untranslated("A", vec![usage("./b.tsx", 1)]),
        untranslated("B", vec![]),
        untranslated("C", vec![usage("./c.tsx", 2)]),
    ]);
    assert_eq!(with.len(), 2);
    assert_eq!(with[1].context.key, "C");
    assert_eq!(without.len(), 1);
    assert_eq!(without[0].context.key, "B");
}

#[test]
fn baseline_summary_text() {
    let s = BaselineSummary {
        hardcoded_count: 2,
        untranslated_usage_count: 3,
        untranslated_key_count: 1,
        file_count: 2,
        is_apply: false,
        applied_total_count: 0,
        applied_hardcoded_count: 0,
        applied_untranslated_count: 0,
        hardcoded_issues: Vec::new(),
        untranslated_issues: Vec::new(),
    };
    let text = lines_to_string(&baseline_summary_lines(&s));
    assert_eq!(
        text,
        "Would insert 5 comment(s) in 2 file(s):\n  - hardcoded: 2 comment(s)\n  - untranslated: 3 comment(s), 1 key(s)\nRun with --apply to insert these comments.\n"
    );
    let s = BaselineSummary { is_apply: true, applied_total_count: 4, applied_hardcoded_count: 2, applied_untranslated_count: 2, ..s };
    let text = lines_to_string(&baseline_summary_lines(&s));
    assert_eq!(
        text,
        "Inserted 4 comment(s) in 2 file(s) (processed 5 issue(s)):\n  - hardcoded: 2 comment(s) (from 2 issue(s))\n  - untranslated: 2 comment(s), 1 key(s) (from 3 usage(s))\n"
    );
}

#[test]
fn clean_summary_text() {
    let s = CleanSummary {
        unused_count: 2,
        orphan_count: 1,
        file_count: 2,
        is_apply: false,
        applied_total_count: 0,
        applied_unused_count: 0,
        applied_orphan_count: 0,
        unused_issues: Vec::new(),
        orphan_issues: Vec::new(),
    };
    let text = lines_to_string(&clean_summary_lines(&s));
    assert_eq!(text, "Would delete 2 unused key(s) and 1 orphan key(s) from 2 file(s).\nRun with --apply to delete these keys.\n");
    let s = CleanSummary { is_apply: true, applied_total_count: 3, applied_unused_count: 2, applied_orphan_count: 1, ..s };
    let text = lines_to_string(&clean_summary_lines(&s));
    assert_eq!(
        text,
        "Deleted 3 key(s) in 2 file(s) (processed 3 key(s)).\n  - unused: 2 key(s) (from 2 issue(s))\n  - orphan: 1 key(s) (from 1 issue(s))\n"
    );
    let text = lines_to_string(&clean_blocked_lines(2, true));
    assert!(text.starts_with("Error: \u{2718} Cannot clean, 2 file(s) could not be parsed.\n"));
}

#[test]
fn fix_summary_and_unfixable_keys() {
    let s = FixSummary {
        unresolved_count: 2,
        inserted_count: 0,
        skipped_count: 1,
        file_count: 1,
        is_apply: false,
        processed_count: 1,
        applied_count: 0,
        unresolved_issues: Vec::new(),
    };
    let text = lines_to_string(&fix_summary_lines(&s, true));
    assert_eq!(
        text,
        "Would insert 1 comment(s) in 1 file(s).\nRun with --apply to insert these comments.\nNote: 1 dynamic key(s) cannot be fixed (variable keys).\n"
    );
    let s = FixSummary { processed_count: 0, skipped_count: 2, ..s };
    let text = lines_to_string(&fix_summary_lines(&s, true));
    assert_eq!(text, "\nNote: No fixable dynamic keys (all are variable keys without hints).\n");
    let text = lines_to_string(&unfixable_keys_lines(&[unresolved("./a.tsx", 7, None)]));
    assert_eq!(
        text,
        "\u{2718} Cannot fix 1 unresolved key(s) (variable keys without pattern hints):\n\n  --> ./a.tsx:7:9  [unresolved-key]\n     |\n   7 |   t(key)\n     |         ^\n   = reason: variable key\n\n"
    );
}

#[test]
fn untranslated_without_usages_text() {
    let text = lines_to_string(&untranslated_without_usages_lines(&[untranslated("Common.ok", vec![])]));
    assert_eq!(
        text,
        "Error: \u{2718} 1 untranslated key issue(s) cannot be suppressed with source comments because no usages were found.\n  - Common.ok at ./messages/zh.json:4\nTranslate these values, remove unused keys, or configure `severities.untranslated` for a project-wide policy.\n"
    );
}

#[test]
fn verbose_follows_the_command() {
    let args = Arguments {
        command: Some(Command::Check(CheckCommand {
            checks: Vec::new(),
            args: CheckArgs {
                common: CommonArgs { primary_locale: None, source_root: None, messages_root: None, verbose: true },
            },
        })),
    };
    assert!(args.verbose());
    assert!(args.with_command_or_help().is_some());
    assert!(!Arguments { command: Some(Command::Init) }.verbose());
    assert!(Arguments { command: None }.with_command_or_help().is_none());
}

#[test]
fn insert_comment_lines_keeps_indentation_and_skips_repeats() {
    let inserts = vec![
        (2usize, "// x".to_string()),
        (2usize, "// x".to_string()),
        (3usize, "// y".to_string()),
        (9usize, "// z".to_string()),
    ];
    let (text, count) = insert_comment_lines("a\n  b\nc", &inserts);
    assert_eq!(text, "a\n  // x\n  b\n// y\nc");
    assert_eq!(count, 2);
}

#[test]
fn insert_comment_lines_without_inserts_keeps_text() {
    let (text, count) = insert_comment_lines("one\ntwo", &Vec::new());
    assert_eq!(text, "one\ntwo");
    assert_eq!(count, 0);
}

#[test]
fn fix_report_lists_unfixable_keys_first() {
    let s = FixSummary {
        unresolved_count: 2,
        inserted_count: 0,
        skipped_count: 1,
        file_count: 1,
        is_apply: false,
        processed_count: 1,
        applied_count: 0,
        unresolved_issues: vec![unresolved("./a.tsx", 7, None), unresolved("./a.tsx", 9, Some("Common.*"))],
    };
    let text = lines_to_string(&fix_report_lines(&s));
    assert_eq!(
        text,
        "\u{2718} Cannot fix 1 unresolved key(s) (variable keys without pattern hints):\n\n  --> ./a.tsx:7:9  [unresolved-key]\n     |\n   7 |   t(key)\n     |         ^\n   = reason: variable key\n\nWould insert 1 comment(s) in 1 file(s).\nRun with --apply to insert these comments.\nNote: 1 dynamic key(s) cannot be fixed (variable keys).\n"
    );
}

#[test]
fn result_of_a_clean_check_is_the_success_line() {
    let result = finish(CommandKind::Check, CommandSummary::Check, Vec::new(), 3, 2);
    let text = lines_to_string(&result_lines(&result, false));
    assert_eq!(text, "\u{2713} Checked 3 source files, 2 locale files - no issues found\n");
}

#[test]
fn result_warns_about_files_that_did_not_parse() {
    let issues = vec![Issue::ParseError(ParseErrorIssue { file_path: "./bad.tsx".to_string(), error: "oops".to_string() })];
    let result = finish(CommandKind::Check, CommandSummary::Check, issues, 1, 0);
    let quiet = lines_to_string(&result_lines(&result, false));
    assert!(quiet.ends_with("warning: 1 file(s) could not be parsed (use -v for details)\n"));
    let verbose = lines_to_string(&result_lines(&result, true));
    assert!(!verbose.contains("could not be parsed (use -v"));
}

#[test]
fn init_reports_the_created_file() {
    let text = lines_to_string(&init_summary_lines(&InitSummary { created: true }));
    assert_eq!(text, "\u{2713} Created .glotrc.json\n");
    assert_eq!(lines_to_string(&init_summary_lines(&InitSummary { created: false })), "");
    let result = finish(CommandKind::Init, CommandSummary::Init(InitSummary { created: true }), Vec::new(), 0, 0);
    assert!(lines_to_string(&result_lines(&result, false)).starts_with("\u{2713} Created .glotrc.json\n"));
}

fn insert_op(file: &str, line: usize, comment: &str) -> Operation {
    Operation::InsertComment {
        context: SourceContext::new(SourceLocation::new(file, line, 1), "x", CommentStyle::Js),
        comment: comment.to_string(),
    }
}

#[test]
fn insert_operations_are_grouped_by_file_in_order() {
    let ops = vec![
        insert_op("b.tsx", 4, "// one"),
        insert_op("a.tsx", 2, "// two"),
        Operation::DeleteJsonKey {
            context: MessageContext::new(MessageLocation::new("en.json", 1, 1), "k", "v"),
        },
        insert_op("b.tsx", 1, "// three"),
    ];
    let groups = insert_ops_by_file(&ops);
    assert_eq!(groups.len(), 2);
    assert_eq!(groups[0].0, "b.tsx");
    assert_eq!(groups[0].1, vec![(4, "// one".to_string()), (1, "// three".to_string())]);
    assert_eq!(groups[1].0, "a.tsx");
    assert_eq!(groups[1].1, vec![(2, "// two".to_string())]);
}

#[test]
fn finish_sorts_issues_by_place() {
    let issues = vec![
        Issue::ParseError(ParseErrorIssue { file_path: "b.tsx".to_string(), error: "x".to_string() }),
        Issue::ParseError(ParseErrorIssue { file_path: "a.tsx".to_string(), error: "y".to_string() }),
    ];
    let r = run_result::finish(issues, 2, 0);
    assert_eq!(r.parse_error_count, 2);
    match (&r.issues[0], &r.issues[1]) {
        (Issue::ParseError(a), Issue::ParseError(b)) => {
            assert_eq!(a.file_path, "a.tsx");
            assert_eq!(b.file_path, "b.tsx");
        }
        _ => panic!("unexpected issues"),
    }
}
