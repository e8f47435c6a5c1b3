//! Cargo-style reports.

use glot::context::{
    CommentStyle, LocaleTypeMismatch, MessageContext, MessageLocation, SourceContext, SourceLocation,
    ValueType,
};
use glot::issues::{
    FullKey, HardcodedTextIssue, Issue, IssueUnresolvedKeyReason, MissingKeyIssue, OrphanKeyIssue,
    ParseErrorIssue, ReplicaLagIssue, ResolvedKeyUsage, TypeMismatchIssue, UnresolvedKeyIssue,
    UntranslatedIssue, UnusedKeyIssue,
};
use glot::report::{print_success_to, report_to};

fn strip_ansi(s: &str) -> String {
    let mut result = String::new();
    let mut chars = s.chars().peekable();
    while let Some(c) = chars.next() {
        if c == '\x1b' {
            while let Some(&next) = chars.peek() {
                chars.next();
                if next == 'm' {
                    break;
                }
            }
        } else {
            result.push(c);
        }
    }
    result
}

#[test]
fn test_report_empty() {

        let mut output = Vec::new();
        report_to(&[], &mut output);
        assert!(output.is_empty());
}

#[test]
fn test_report_hardcoded_issue() {

        let loc = SourceLocation::new("./src/app.tsx", 10, 5);
        let ctx = SourceContext::new(loc, "const x = \"Hello\";", CommentStyle::Js);
        let issue = Issue::HardcodedText(HardcodedTextIssue {
            context: ctx,
            text: "Hello".to_string(),
        });

        let mut output = Vec::new();
        report_to(&[issue], &mut output);
        let output_str = String::from_utf8(output).unwrap();
        let stripped = strip_ansi(&output_str);

        assert!(stripped.contains("error:"));
        assert!(stripped.contains("\"Hello\""));
        assert!(stripped.contains("hardcoded"));
        assert!(stripped.contains("./src/app.tsx:10:5"));
        assert!(stripped.contains("const x = \"Hello\";"));
}

#[test]
fn test_report_missing_key_with_schema() {

        let loc = SourceLocation::new("./src/form.tsx", 20, 5);
        let ctx = SourceContext::new(loc, "formSchema(t)", CommentStyle::Js);
        let issue = Issue::MissingKey(MissingKeyIssue {
            context: ctx,
            key: "Form.email".to_string(),
            from_schema: Some((
                "formSchema".to_string(),
                "./src/schemas/form.ts".to_string(),
            )),
        });

        let mut output = Vec::new();
        report_to(&[issue], &mut output);
        let output_str = String::from_utf8(output).unwrap();
        let stripped = strip_ansi(&output_str);

        assert!(stripped.contains("error:"));
        assert!(stripped.contains("\"Form.email\""));
        assert!(stripped.contains("note:"));
        assert!(stripped.contains("from formSchema"));
}

#[test]
fn test_report_unused_key() {

        let loc = MessageLocation::new("./messages/en.json", 5, 3);
        let ctx = MessageContext::new(loc, "Common.unused", "Unused Value");
        let issue = Issue::UnusedKey(UnusedKeyIssue { context: ctx });

        let mut output = Vec::new();
        report_to(&[issue], &mut output);
        let output_str = String::from_utf8(output).unwrap();
        let stripped = strip_ansi(&output_str);

        assert!(stripped.contains("warning:"));
        assert!(stripped.contains("\"Common.unused\""));
        assert!(stripped.contains("unused-key"));
        assert!(stripped.contains("./messages/en.json:5:3"));
        assert!(stripped.contains("(\"Unused Value\")"));
}

#[test]
fn test_report_with_usages() {

        let msg_loc = MessageLocation::new("./messages/en.json", 5, 3);
        let msg_ctx = MessageContext::new(msg_loc, "Common.submit", "Submit");

        let usage_loc = SourceLocation::new("./src/Button.tsx", 25, 10);
        let usage_ctx = SourceContext::new(usage_loc, "{t('Common.submit')}", CommentStyle::Jsx);
        let usage = ResolvedKeyUsage {
            key: FullKey::new("Common.submit"),
            context: usage_ctx,
            suppressed_rules: Vec::new(),
            from_schema: None,
        };

        let issue = Issue::ReplicaLag(ReplicaLagIssue {
            context: msg_ctx,
            primary_locale: "en".to_string(),
            missing_in: vec!["zh".to_string(), "ja".to_string()],
            usages: vec![usage],
        });

        let mut output = Vec::new();
        report_to(&[issue], &mut output);
        let output_str = String::from_utf8(output).unwrap();
        let stripped = strip_ansi(&output_str);

        assert!(stripped.contains("error:"));
        assert!(stripped.contains("missing in: zh, ja"));
        assert!(stripped.contains("used:"));
        assert!(stripped.contains("./src/Button.tsx:25:10"));
}

#[test]
fn test_report_summary() {

        let loc1 = SourceLocation::new("./src/a.tsx", 10, 5);
        let ctx1 = SourceContext::new(loc1, "\"Error\"", CommentStyle::Js);
        let issue1 = Issue::HardcodedText(HardcodedTextIssue {
            context: ctx1,
            text: "Error".to_string(),
        });

        let loc2 = MessageLocation::new("./messages/en.json", 5, 3);
        let ctx2 = MessageContext::new(loc2, "Common.unused", "Unused");
        let issue2 = Issue::UnusedKey(UnusedKeyIssue { context: ctx2 });

        let mut output = Vec::new();
        report_to(&[issue1, issue2], &mut output);
        let output_str = String::from_utf8(output).unwrap();
        let stripped = strip_ansi(&output_str);

        assert!(stripped.contains("2 problems"));
        assert!(stripped.contains("1 error"));
        assert!(stripped.contains("1 warning"));
}

#[test]
fn test_print_success() {

        let mut output = Vec::new();
        print_success_to(10, 3, &mut output);
        let output_str = String::from_utf8(output).unwrap();
        let stripped = strip_ansi(&output_str);

        assert!(stripped.contains("10 source files"));
        assert!(stripped.contains("3 locale files"));
        assert!(stripped.contains("no issues found"));
}

#[test]
fn test_print_success_no_locales() {

        let mut output = Vec::new();
        print_success_to(5, 0, &mut output);
        let output_str = String::from_utf8(output).unwrap();
        let stripped = strip_ansi(&output_str);

        assert!(stripped.contains("5 source files"));
        assert!(!stripped.contains("locale"));
}

#[test]
fn test_report_unresolved_key_with_hint() {

        let loc = SourceLocation::new("./src/app.tsx", 15, 8);
        let ctx = SourceContext::new(loc, "t(`status.${code}`)", CommentStyle::Jsx);
        let issue = Issue::UnresolvedKey(UnresolvedKeyIssue {
            context: ctx,
            reason: IssueUnresolvedKeyReason::TemplateWithExpr,
            hint: Some("Use glot-message-keys annotation".to_string()),
            pattern: Some("status.*".to_string()),
        });

        let mut output = Vec::new();
        report_to(&[issue], &mut output);
        let output_str = String::from_utf8(output).unwrap();
        let stripped = strip_ansi(&output_str);

        assert!(stripped.contains("warning:"));
        assert!(stripped.contains("template with expression"));
        assert!(stripped.contains("unresolved-key"));
        assert!(stripped.contains("hint:"));
        assert!(stripped.contains("glot-message-keys"));
}

#[test]
fn test_report_orphan_key() {

        let loc = MessageLocation::new("./messages/zh.json", 10, 3);
        let ctx = MessageContext::new(loc, "Common.orphan", "孤儿值");
        let issue = Issue::OrphanKey(OrphanKeyIssue {
            context: ctx,
            locale: "zh".to_string(),
        });

        let mut output = Vec::new();
        report_to(&[issue], &mut output);
        let output_str = String::from_utf8(output).unwrap();
        let stripped = strip_ansi(&output_str);

        assert!(stripped.contains("warning:"));
        assert!(stripped.contains("\"Common.orphan\""));
        assert!(stripped.contains("orphan-key"));
        assert!(stripped.contains("in zh"));
        assert!(stripped.contains("(\"孤儿值\")"));
}

#[test]
fn test_report_untranslated() {

        let msg_loc = MessageLocation::new("./messages/en.json", 5, 3);
        let msg_ctx = MessageContext::new(msg_loc, "Common.ok", "OK");

        let issue = Issue::Untranslated(UntranslatedIssue {
            context: msg_ctx,
            primary_locale: "en".to_string(),
            identical_in: vec!["zh".to_string(), "ja".to_string()],
            usages: vec![],
        });

        let mut output = Vec::new();
        report_to(&[issue], &mut output);
        let output_str = String::from_utf8(output).unwrap();
        let stripped = strip_ansi(&output_str);

        assert!(stripped.contains("warning:"));
        assert!(stripped.contains("\"Common.ok\""));
        assert!(stripped.contains("untranslated"));
        assert!(stripped.contains("identical in: zh, ja"));
        assert!(stripped.contains("(no usages found)"));
}

#[test]
fn test_report_type_mismatch() {

        let msg_loc = MessageLocation::new("./messages/en.json", 8, 3);
        let msg_ctx = MessageContext::new(msg_loc, "Page.items", "[\"a\", \"b\"]");

        let mismatch_loc = MessageLocation::new("./messages/zh.json", 8, 3);
        let mismatch = LocaleTypeMismatch::new("zh", ValueType::String, mismatch_loc);

        let issue = Issue::TypeMismatch(TypeMismatchIssue {
            context: msg_ctx,
            expected_type: ValueType::StringArray,
            primary_locale: "en".to_string(),
            mismatched_in: vec![mismatch],
            usages: vec![],
        });

        let mut output = Vec::new();
        report_to(&[issue], &mut output);
        let output_str = String::from_utf8(output).unwrap();
        let stripped = strip_ansi(&output_str);

        assert!(stripped.contains("error:"));
        assert!(stripped.contains("\"Page.items\""));
        assert!(stripped.contains("type-mismatch"));
        assert!(stripped.contains("expected array"));
        assert!(stripped.contains("zh (string)"));
}

#[test]
fn test_report_unresolved_key_unknown_namespace() {

        let loc = SourceLocation::new("./src/form.tsx", 30, 5);
        let ctx = SourceContext::new(loc, "schema(t)", CommentStyle::Js);
        let issue = Issue::UnresolvedKey(UnresolvedKeyIssue {
            context: ctx,
            reason: IssueUnresolvedKeyReason::UnknownNamespace {
                schema_name: "formSchema".to_string(),
            },
            hint: None,
            pattern: None,
        });

        let mut output = Vec::new();
        report_to(&[issue], &mut output);
        let output_str = String::from_utf8(output).unwrap();
        let stripped = strip_ansi(&output_str);

        assert!(stripped.contains("warning:"));
        assert!(stripped.contains("unknown namespace for schema 'formSchema'"));
        assert!(stripped.contains("unresolved-key"));
}

#[test]
fn test_report_parse_error() {

        let issue = Issue::ParseError(ParseErrorIssue {
            file_path: "./src/broken.tsx".to_string(),
            error: "Unexpected token at line 5".to_string(),
        });

        let mut output = Vec::new();
        report_to(&[issue], &mut output);
        let output_str = String::from_utf8(output).unwrap();
        let stripped = strip_ansi(&output_str);

        assert!(stripped.contains("error:"));
        assert!(stripped.contains("Unexpected token at line 5"));
        assert!(stripped.contains("parse-error"));
        assert!(stripped.contains("./src/broken.tsx"));
}

#[test]
fn test_report_usages_truncation() {

        let msg_loc = MessageLocation::new("./messages/en.json", 5, 3);
        let msg_ctx = MessageContext::new(msg_loc, "Common.key", "Value");

        // Create 5 usages (more than MAX_USAGES_DISPLAY = 3)
        let usages: Vec<ResolvedKeyUsage> = (1..=5)
            .map(|i| {
                let loc = SourceLocation::new(format!("./src/file{}.tsx", i), i * 10, 5);
                let ctx = SourceContext::new(loc, "t('Common.key')", CommentStyle::Js);
                ResolvedKeyUsage {
                    key: FullKey::new("Common.key"),
                    context: ctx,
                    suppressed_rules: Vec::new(),
                    from_schema: None,
                }
            })
            .collect();

        let issue = Issue::ReplicaLag(ReplicaLagIssue {
            context: msg_ctx,
            primary_locale: "en".to_string(),
            missing_in: vec!["zh".to_string()],
            usages,
        });

        let mut output = Vec::new();
        report_to(&[issue], &mut output);
        let output_str = String::from_utf8(output).unwrap();
        let stripped = strip_ansi(&output_str);

        // Should show 3 usages and "(and 2 more)"
        assert!(stripped.contains("./src/file1.tsx:10:5"));
        assert!(stripped.contains("./src/file2.tsx:20:5"));
        assert!(stripped.contains("./src/file3.tsx:30:5"));
        assert!(stripped.contains("(and 2 more)"));
        assert!(!stripped.contains("./src/file4.tsx"));
        assert!(!stripped.contains("./src/file5.tsx"));
}

#[test]
fn test_report_sorting_by_file_and_line() {

        // Create issues in random order
        let loc1 = SourceLocation::new("./src/b.tsx", 20, 5);
        let ctx1 = SourceContext::new(loc1, "\"B20\"", CommentStyle::Js);
        let issue1 = Issue::HardcodedText(HardcodedTextIssue {
            context: ctx1,
            text: "B20".to_string(),
        });

        let loc2 = SourceLocation::new("./src/a.tsx", 10, 5);
        let ctx2 = SourceContext::new(loc2, "\"A10\"", CommentStyle::Js);
        let issue2 = Issue::HardcodedText(HardcodedTextIssue {
            context: ctx2,
            text: "A10".to_string(),
        });

        let loc3 = SourceLocation::new("./src/a.tsx", 5, 5);
        let ctx3 = SourceContext::new(loc3, "\"A5\"", CommentStyle::Js);
        let issue3 = Issue::HardcodedText(HardcodedTextIssue {
            context: ctx3,
            text: "A5".to_string(),
        });

        let mut output = Vec::new();
        report_to(&[issue1, issue2, issue3], &mut output);
        let output_str = String::from_utf8(output).unwrap();

        // Should be sorted: a.tsx:5, a.tsx:10, b.tsx:20
        let a5_pos = output_str.find("\"A5\"").unwrap();
        let a10_pos = output_str.find("\"A10\"").unwrap();
        let b20_pos = output_str.find("\"B20\"").unwrap();

        assert!(a5_pos < a10_pos, "a.tsx:5 should come before a.tsx:10");
        assert!(a10_pos < b20_pos, "a.tsx:10 should come before b.tsx:20");
}

#[test]
fn test_report_unicode_source_line() {

        // Test that caret aligns correctly with CJK characters
        let loc = SourceLocation::new("./src/app.tsx", 10, 8);
        // "你好" takes 4 display width (2 per CJK char), then "World" starts at col 8
        let ctx = SourceContext::new(loc, "const x = \"你好World\";", CommentStyle::Js);
        let issue = Issue::HardcodedText(HardcodedTextIssue {
            context: ctx,
            text: "World".to_string(),
        });

        let mut output = Vec::new();
        report_to(&[issue], &mut output);
        let output_str = String::from_utf8(output).unwrap();

        // Just verify it doesn't panic and contains expected content
        assert!(output_str.contains("你好World"));
        assert!(output_str.contains("^"));
}
