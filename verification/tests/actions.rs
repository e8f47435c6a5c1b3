//! Turning issues into file edits.

use glot::actions::{Action, ActionStats, DeleteKey, InsertDisableComment, InsertMessageKeys, Operation};
use glot::context::{CommentStyle, MessageContext, MessageLocation, SourceContext, SourceLocation};
use glot::issues::{
    FullKey, HardcodedTextIssue, IssueUnresolvedKeyReason, OrphanKeyIssue, ResolvedKeyUsage, Rule,
    UnresolvedKeyIssue, UntranslatedIssue, UnusedKeyIssue,
};

/// A usage of `Common.ok` at a place in code.
fn usage(context: SourceContext) -> ResolvedKeyUsage {
    ResolvedKeyUsage { key: FullKey::new("Common.ok"), context, suppressed_rules: Vec::new(), from_schema: None }
}

#[test]
fn test_unused_key_to_operations() {

        let loc = MessageLocation::new("./messages/en.json", 5, 3);
        let ctx = MessageContext::new(loc, "Common.unused", "Unused value");
        let issue = UnusedKeyIssue { context: ctx };

        let ops = DeleteKey::to_operations(&[issue]);

        assert_eq!(ops.len(), 1);
        match &ops[0] {
            Operation::DeleteJsonKey { context } => {
                assert_eq!(context.file_path(), "./messages/en.json");
                assert_eq!(context.key, "Common.unused");
            }
            _ => panic!("Expected DeleteJsonKey"),
        }
}

#[test]
fn test_orphan_key_to_operations() {

        let loc = MessageLocation::new("./messages/zh.json", 10, 3);
        let ctx = MessageContext::new(loc, "Common.orphan", "orphan value");
        let issue = OrphanKeyIssue {
            context: ctx,
            locale: "zh".to_string(),
        };

        let ops = DeleteKey::to_operations(&[issue]);

        assert_eq!(ops.len(), 1);
        match &ops[0] {
            Operation::DeleteJsonKey { context } => {
                assert_eq!(context.file_path(), "./messages/zh.json");
                assert_eq!(context.key, "Common.orphan");
            }
            _ => panic!("Expected DeleteJsonKey"),
        }
}

#[test]
fn test_multiple_issues() {

        let loc1 = MessageLocation::new("./messages/en.json", 5, 3);
        let ctx1 = MessageContext::new(loc1, "Common.a", "A");
        let issue1 = UnusedKeyIssue { context: ctx1 };

        let loc2 = MessageLocation::new("./messages/en.json", 10, 3);
        let ctx2 = MessageContext::new(loc2, "Common.b", "B");
        let issue2 = UnusedKeyIssue { context: ctx2 };

        let ops = DeleteKey::to_operations(&[issue1, issue2]);

        assert_eq!(ops.len(), 2);
}

#[test]
fn insert_disable_comment_test_format_comment_js() {

        let comment = InsertDisableComment::format_comment(Rule::HardcodedText, CommentStyle::Js);
        assert_eq!(comment, "// glot-disable-next-line hardcoded");
}

#[test]
fn insert_disable_comment_test_format_comment_jsx() {

        let comment = InsertDisableComment::format_comment(Rule::Untranslated, CommentStyle::Jsx);
        assert_eq!(comment, "{/* glot-disable-next-line untranslated */}");
}

#[test]
fn test_hardcoded_to_operations() {

        let loc = SourceLocation::new("./src/app.tsx", 10, 5);
        let ctx = SourceContext::new(loc, "const x = \"Hello\";", CommentStyle::Js);
        let issue = HardcodedTextIssue {
            context: ctx,
            text: "Hello".to_string(),
        };

        let ops = InsertDisableComment::to_operations(&[issue]);

        assert_eq!(ops.len(), 1);
        match &ops[0] {
            Operation::InsertComment { context, comment } => {
                assert_eq!(context.file_path(), "./src/app.tsx");
                assert_eq!(comment, "// glot-disable-next-line hardcoded");
            }
            _ => panic!("Expected InsertComment"),
        }
}

#[test]
fn test_untranslated_to_operations() {

        let msg_loc = MessageLocation::new("./messages/en.json", 5, 3);
        let msg_ctx = MessageContext::new(msg_loc, "Common.ok", "OK");

        let usage1_loc = SourceLocation::new("./src/a.tsx", 10, 5);
        let usage1_ctx = SourceContext::new(usage1_loc, "{t('Common.ok')}", CommentStyle::Jsx);

        let usage2_loc = SourceLocation::new("./src/b.tsx", 20, 3);
        let usage2_ctx = SourceContext::new(usage2_loc, "t('Common.ok')", CommentStyle::Js);

        let issue = UntranslatedIssue {
            context: msg_ctx,
            primary_locale: "en".to_string(),
            identical_in: vec!["zh".to_string()],
            usages: vec![usage(usage1_ctx), usage(usage2_ctx)],
        };

        let ops = InsertDisableComment::to_operations(&[issue]);

        assert_eq!(ops.len(), 2);

        // First usage - JSX style
        match &ops[0] {
            Operation::InsertComment { context, comment } => {
                assert_eq!(context.file_path(), "./src/a.tsx");
                assert_eq!(comment, "{/* glot-disable-next-line untranslated */}");
            }
            _ => panic!("Expected InsertComment"),
        }

        // Second usage - JS style
        match &ops[1] {
            Operation::InsertComment { context, comment } => {
                assert_eq!(context.file_path(), "./src/b.tsx");
                assert_eq!(comment, "// glot-disable-next-line untranslated");
            }
            _ => panic!("Expected InsertComment"),
        }
}

#[test]
fn test_untranslated_no_usages() {

        let msg_loc = MessageLocation::new("./messages/en.json", 5, 3);
        let msg_ctx = MessageContext::new(msg_loc, "Common.ok", "OK");

        let issue = UntranslatedIssue {
            context: msg_ctx,
            primary_locale: "en".to_string(),
            identical_in: vec!["zh".to_string()],
            usages: vec![], // No usages
        };

        let ops = InsertDisableComment::to_operations(&[issue]);

        assert_eq!(ops.len(), 0);
}

#[test]
fn insert_message_keys_test_format_comment_js() {

        let comment = InsertMessageKeys::format_comment("Common.status.*", CommentStyle::Js);
        assert_eq!(comment, "// glot-message-keys \"Common.status.*\"");
}

#[test]
fn insert_message_keys_test_format_comment_jsx() {

        let comment = InsertMessageKeys::format_comment("Common.status.*", CommentStyle::Jsx);
        assert_eq!(comment, "{/* glot-message-keys \"Common.status.*\" */}");
}

#[test]
fn test_to_operations_with_pattern() {

        let loc = SourceLocation::new("./src/app.tsx", 10, 5);
        let ctx = SourceContext::new(loc, "t(`status.${code}`)", CommentStyle::Jsx);
        let issue = UnresolvedKeyIssue {
            context: ctx,
            reason: IssueUnresolvedKeyReason::TemplateWithExpr,
            hint: Some("Use glot-message-keys".to_string()),
            pattern: Some("status.*".to_string()),
        };

        let ops = InsertMessageKeys::to_operations(&[issue]);

        assert_eq!(ops.len(), 1);
        match &ops[0] {
            Operation::InsertComment { context, comment } => {
                assert_eq!(context.file_path(), "./src/app.tsx");
                assert_eq!(comment, "{/* glot-message-keys \"status.*\" */}");
            }
            _ => panic!("Expected InsertComment"),
        }
}

#[test]
fn test_to_operations_without_pattern() {

        let loc = SourceLocation::new("./src/app.tsx", 10, 5);
        let ctx = SourceContext::new(loc, "t(keyVar)", CommentStyle::Js);
        let issue = UnresolvedKeyIssue {
            context: ctx,
            reason: IssueUnresolvedKeyReason::VariableKey,
            hint: None,
            pattern: None, // No pattern - cannot be fixed
        };

        let ops = InsertMessageKeys::to_operations(&[issue]);

        assert_eq!(ops.len(), 0); // Skipped
}

#[test]
fn test_to_operations_mixed() {

        let loc1 = SourceLocation::new("./src/a.tsx", 10, 5);
        let ctx1 = SourceContext::new(loc1, "t(`status.${code}`)", CommentStyle::Jsx);
        let issue1 = UnresolvedKeyIssue {
            context: ctx1,
            reason: IssueUnresolvedKeyReason::TemplateWithExpr,
            hint: None,
            pattern: Some("status.*".to_string()),
        };

        let loc2 = SourceLocation::new("./src/b.tsx", 20, 3);
        let ctx2 = SourceContext::new(loc2, "t(keyVar)", CommentStyle::Js);
        let issue2 = UnresolvedKeyIssue {
            context: ctx2,
            reason: IssueUnresolvedKeyReason::VariableKey,
            hint: None,
            pattern: None, // No pattern
        };

        let ops = InsertMessageKeys::to_operations(&[issue1, issue2]);

        assert_eq!(ops.len(), 1); // Only one has pattern
}

#[test]
fn traits_test_action_stats_add_assign() {

        let mut stats1 = ActionStats {
            processed: 5,
            skipped: 1,
            changes_applied: 4,
            files_modified: 2,
        };
        let stats2 = ActionStats {
            processed: 3,
            skipped: 2,
            changes_applied: 1,
            files_modified: 1,
        };

        stats1.add_assign(stats2);

        assert_eq!(stats1.processed, 8);
        assert_eq!(stats1.skipped, 3);
        assert_eq!(stats1.changes_applied, 5);
        assert_eq!(stats1.files_modified, 3);
}

#[test]
fn traits_test_action_stats_default() {

        let stats = ActionStats::default();
        assert_eq!(stats.processed, 0);
        assert_eq!(stats.skipped, 0);
        assert_eq!(stats.changes_applied, 0);
        assert_eq!(stats.files_modified, 0);
}

#[test]
fn action_stats_count_changes_and_changed_files() {
    let outcomes = vec![
        ("./a.tsx".to_string(), 2),
        ("./b.tsx".to_string(), 0),
        ("./messages/en.json".to_string(), 1),
        ("./a.tsx".to_string(), 3),
    ];
    let stats = glot::actions::action_stats(7, &outcomes);
    assert_eq!(stats.processed, 7);
    assert_eq!(stats.skipped, 0);
    assert_eq!(stats.changes_applied, 6);
    assert_eq!(stats.files_modified, 2);
    let none = glot::actions::action_stats(0, &Vec::new());
    assert_eq!(none.changes_applied, 0);
    assert_eq!(none.files_modified, 0);
}
