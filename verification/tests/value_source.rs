//! Resolving value sources to keys.

use glot::value_source::{UnresolvableReason, ValueSource};

#[test]
fn test_literal_resolves_to_itself() {

        let source = ValueSource::Literal("key".to_string());
        assert_eq!(source.resolve_keys(), Ok(vec!["key".to_string()]));
}

#[test]
fn test_template_combines_prefix_suffix() {

        let source = ValueSource::Template {
            prefix: "prefix.".to_string(),
            suffix: ".suffix".to_string(),
            inner: Box::new(ValueSource::Literal("middle".to_string())),
        };
        assert_eq!(
            source.resolve_keys(),
            Ok(vec!["prefix.middle.suffix".to_string()])
        );
}

#[test]
fn test_template_with_multiple_inner_values() {

        let source = ValueSource::Template {
            prefix: "ns.".to_string(),
            suffix: "".to_string(),
            inner: Box::new(ValueSource::StringArrayElement {
                array_name: "KEYS".to_string(),
                candidate_values: vec!["a".to_string(), "b".to_string()],
            }),
        };
        assert_eq!(
            source.resolve_keys(),
            Ok(vec!["ns.a".to_string(), "ns.b".to_string()])
        );
}

#[test]
fn test_conditional_merges_branches() {

        let source = ValueSource::Conditional {
            consequent: Box::new(ValueSource::Literal("keyA".to_string())),
            alternate: Box::new(ValueSource::Literal("keyB".to_string())),
        };
        let result = source.resolve_keys().unwrap();
        assert_eq!(result.len(), 2);
        assert!(result.contains(&"keyA".to_string()));
        assert!(result.contains(&"keyB".to_string()));
}

#[test]
fn test_conditional_fails_if_one_branch_unresolvable() {

        let source = ValueSource::Conditional {
            consequent: Box::new(ValueSource::Literal("keyA".to_string())),
            alternate: Box::new(ValueSource::Unresolvable {
                reason: UnresolvableReason::UnknownVariable("x".to_string()),
            }),
        };
        assert!(source.resolve_keys().is_err());
}

#[test]
fn test_object_access_returns_candidate_values() {

        let source = ValueSource::ObjectAccess {
            object_name: "toolKeys".to_string(),
            candidate_values: vec!["keyA".to_string(), "keyB".to_string()],
        };
        assert_eq!(
            source.resolve_keys(),
            Ok(vec!["keyA".to_string(), "keyB".to_string()])
        );
}

#[test]
fn test_unresolvable_returns_error() {

        let source = ValueSource::Unresolvable {
            reason: UnresolvableReason::UnknownVariable("x".to_string()),
        };
        assert_eq!(
            source.resolve_keys(),
            Err(UnresolvableReason::UnknownVariable("x".to_string()))
        );
}

#[test]
fn test_nested_template_with_conditional() {

        // t(flag ? `${k}.plural` : `${k}.singular`)
        // where k comes from KEYS = ["a", "b"]
        let string_array = ValueSource::StringArrayElement {
            array_name: "KEYS".to_string(),
            candidate_values: vec!["a".to_string(), "b".to_string()],
        };

        let source = ValueSource::Conditional {
            consequent: Box::new(ValueSource::Template {
                prefix: "".to_string(),
                suffix: ".plural".to_string(),
                inner: Box::new(string_array.clone()),
            }),
            alternate: Box::new(ValueSource::Template {
                prefix: "".to_string(),
                suffix: ".singular".to_string(),
                inner: Box::new(string_array),
            }),
        };

        let result = source.resolve_keys().unwrap();
        assert_eq!(result.len(), 4);
        assert!(result.contains(&"a.plural".to_string()));
        assert!(result.contains(&"b.plural".to_string()));
        assert!(result.contains(&"a.singular".to_string()));
        assert!(result.contains(&"b.singular".to_string()));
}

#[test]
fn test_source_description() {

        assert_eq!(
            ValueSource::Literal("key".to_string()).source_description(),
            "literal \"key\""
        );

        assert_eq!(
            ValueSource::ObjectAccess {
                object_name: "obj".to_string(),
                candidate_values: vec![],
            }
            .source_description(),
            "object \"obj\""
        );

        assert_eq!(
            ValueSource::Unresolvable {
                reason: UnresolvableReason::ComplexTemplate { expr_count: 3 },
            }
            .source_description(),
            "complex template with 3 expressions"
        );

        assert_eq!(
            ValueSource::Unresolvable {
                reason: UnresolvableReason::UnsupportedExpression {
                    expr_type: "Arrow".to_string(),
                },
            }
            .source_description(),
            "unsupported expression: Arrow"
        );
}
