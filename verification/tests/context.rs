//! Locations and contexts of issues.

use glot::context::{
    CommentStyle, LocaleTypeMismatch, MessageContext, MessageLocation, SourceContext, SourceLocation,
    ValueType,
};

#[test]
fn context_test_source_location_new() {

        let loc = SourceLocation::new("./src/app.tsx", 10, 5);
        assert_eq!(loc.file_path, "./src/app.tsx");
        assert_eq!(loc.line, 10);
        assert_eq!(loc.col, 5);
}

#[test]
fn context_test_source_context_new() {

        let loc = SourceLocation::new("./src/app.tsx", 10, 5);
        let ctx = SourceContext::new(loc, "const x = \"Hello\";", CommentStyle::Js);
        assert_eq!(ctx.file_path(), "./src/app.tsx");
        assert_eq!(ctx.line(), 10);
        assert_eq!(ctx.col(), 5);
        assert_eq!(ctx.source_line, "const x = \"Hello\";");
        assert_eq!(ctx.comment_style, CommentStyle::Js);
}

#[test]
fn context_test_source_context_jsx_comment() {

        let loc = SourceLocation::new("./src/app.tsx", 20, 3);
        let ctx = SourceContext::new(loc, "<span>{t(`key`)}</span>", CommentStyle::Jsx);
        assert_eq!(ctx.comment_style, CommentStyle::Jsx);
        assert!(ctx.comment_style.is_jsx());
}

#[test]
fn test_comment_style_is_jsx() {

        assert!(!CommentStyle::Js.is_jsx());
        assert!(CommentStyle::Jsx.is_jsx());
}

#[test]
fn context_test_message_location_new() {

        let loc = MessageLocation::new("./messages/en.json", 5, 3);
        assert_eq!(loc.file_path, "./messages/en.json");
        assert_eq!(loc.line, 5);
        assert_eq!(loc.col, 3);
}

#[test]
fn context_test_message_location_with_line() {

        let loc = MessageLocation::with_line("./messages/en.json", 5);
        assert_eq!(loc.file_path, "./messages/en.json");
        assert_eq!(loc.line, 5);
        assert_eq!(loc.col, 1);
}

#[test]
fn context_test_message_context_new() {

        let loc = MessageLocation::new("./messages/en.json", 5, 3);
        let ctx = MessageContext::new(loc, "Common.submit", "Submit");
        assert_eq!(ctx.file_path(), "./messages/en.json");
        assert_eq!(ctx.line(), 5);
        assert_eq!(ctx.key, "Common.submit");
        assert_eq!(ctx.value, "Submit");
}

#[test]
fn context_test_locale_type_mismatch_new() {

        let loc = MessageLocation::new("./messages/zh.json", 8, 1);
        let mismatch = LocaleTypeMismatch::new("zh", ValueType::String, loc);
        assert_eq!(mismatch.locale, "zh");
        assert_eq!(mismatch.actual_type, ValueType::String);
        assert_eq!(mismatch.location.file_path, "./messages/zh.json");
}

#[test]
fn message_test_message_location_new() {

        let loc = MessageLocation::new("./messages/en.json", 5, 3);
        assert_eq!(loc.file_path, "./messages/en.json");
        assert_eq!(loc.line, 5);
        assert_eq!(loc.col, 3);
}

#[test]
fn message_test_message_location_with_line() {

        let loc = MessageLocation::with_line("./messages/en.json", 5);
        assert_eq!(loc.file_path, "./messages/en.json");
        assert_eq!(loc.line, 5);
        assert_eq!(loc.col, 1);
}

#[test]
fn message_test_message_context_new() {

        let loc = MessageLocation::new("./messages/en.json", 5, 3);
        let ctx = MessageContext::new(loc, "Common.submit", "Submit");
        assert_eq!(ctx.file_path(), "./messages/en.json");
        assert_eq!(ctx.line(), 5);
        assert_eq!(ctx.key, "Common.submit");
        assert_eq!(ctx.value, "Submit");
}

#[test]
fn source_test_source_location_new() {

        let loc = SourceLocation::new("./src/app.tsx", 10, 5);
        assert_eq!(loc.file_path, "./src/app.tsx");
        assert_eq!(loc.line, 10);
        assert_eq!(loc.col, 5);
}

#[test]
fn source_test_source_context_new() {

        let loc = SourceLocation::new("./src/app.tsx", 10, 5);
        let ctx = SourceContext::new(loc, "const x = \"Hello\";", CommentStyle::Js);
        assert_eq!(ctx.file_path(), "./src/app.tsx");
        assert_eq!(ctx.line(), 10);
        assert_eq!(ctx.col(), 5);
        assert_eq!(ctx.source_line, "const x = \"Hello\";");
        assert_eq!(ctx.comment_style, CommentStyle::Js);
}

#[test]
fn source_test_source_context_jsx_comment() {

        let loc = SourceLocation::new("./src/app.tsx", 20, 3);
        let ctx = SourceContext::new(loc, "<span>{t(`key`)}</span>", CommentStyle::Jsx);
        assert_eq!(ctx.comment_style, CommentStyle::Jsx);
        assert!(ctx.comment_style.is_jsx());
}

#[test]
fn type_mismatch_test_locale_type_mismatch_new() {

        let loc = MessageLocation::new("./messages/zh.json", 8, 1);
        let mismatch = LocaleTypeMismatch::new("zh", ValueType::String, loc);
        assert_eq!(mismatch.locale, "zh");
        assert_eq!(mismatch.actual_type, ValueType::String);
        assert_eq!(mismatch.location.file_path, "./messages/zh.json");
}

#[test]
fn test_value_type_display() {

        assert_eq!(ValueType::String.to_string(), "string");
        assert_eq!(ValueType::StringArray.to_string(), "array");
}
