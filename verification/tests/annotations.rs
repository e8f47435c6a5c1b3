//! `glot-message-keys` annotations.

use glot::annotation_store::AnnotationStore;
use glot::strmap::StrSet;
use glot::translation_source::TranslationSource;

#[test]
fn test_parse_empty_source() {

        let store = AnnotationStore::parse("const x = 1;", "test.tsx", &StrSet::new());
        assert!(store.annotations.is_empty());
        assert!(store.warnings.is_empty());
}

#[test]
fn test_parse_absolute_pattern() {

        let source = r#"
// glot-message-keys "Common.submit"
t(`${key}`)
"#;
        let store = AnnotationStore::parse(source, "test.tsx", &StrSet::new());

        let ann = store.get_annotation(3);
        assert!(ann.is_some());
        assert_eq!(ann.unwrap().keys, vec!["Common.submit".to_string()]);
        assert!(ann.unwrap().relative_patterns.is_empty());
}

#[test]
fn test_parse_relative_pattern() {

        let source = r#"
// glot-message-keys ".submit"
t(`${key}`)
"#;
        let store = AnnotationStore::parse(source, "test.tsx", &StrSet::new());

        let ann = store.get_annotation(3);
        assert!(ann.is_some());
        assert!(ann.unwrap().keys.is_empty());
        assert_eq!(ann.unwrap().relative_patterns, vec![".submit".to_string()]);
}

#[test]
fn test_parse_glob_pattern_with_available_keys() {

        let mut available_keys = StrSet::new();
        available_keys.insert("Common.btn.submit".to_string());
        available_keys.insert("Common.btn.cancel".to_string());
        available_keys.insert("Other.key".to_string());

        let source = r#"
// glot-message-keys "Common.btn.*"
t(`${key}`)
"#;
        let store = AnnotationStore::parse(source, "test.tsx", &available_keys);

        let ann = store.get_annotation(3);
        assert!(ann.is_some());
        let keys = &ann.unwrap().keys;
        assert_eq!(keys.len(), 2);
        assert!(keys.contains(&"Common.btn.submit".to_string()));
        assert!(keys.contains(&"Common.btn.cancel".to_string()));
}

#[test]
fn test_get_annotation_previous_line() {

        let source = r#"
// glot-message-keys "Common.key"
const x = t(`${dynamic}`)
"#;
        let store = AnnotationStore::parse(source, "test.tsx", &StrSet::new());

        // Line 3 should find annotation from line 2
        let ann = store.get_annotation(3);
        assert!(ann.is_some());
}

#[test]
fn test_expand_relative_patterns_direct() {

        let patterns = vec![".submit".to_string(), ".cancel".to_string()];
        let source = TranslationSource::Direct {
            namespace: Some("Common".to_string()),
        };

        let expanded =
            AnnotationStore::expand_relative_patterns(&patterns, &source, &StrSet::new());

        assert_eq!(expanded.len(), 2);
        assert!(expanded.contains(&"Common.submit".to_string()));
        assert!(expanded.contains(&"Common.cancel".to_string()));
}

#[test]
fn test_expand_relative_patterns_no_namespace() {

        let patterns = vec![".submit".to_string()];
        let source = TranslationSource::Direct { namespace: None };

        let expanded =
            AnnotationStore::expand_relative_patterns(&patterns, &source, &StrSet::new());

        assert_eq!(expanded, vec!["submit".to_string()]);
}

#[test]
fn test_expand_relative_patterns_from_props() {

        let patterns = vec![".key".to_string()];
        let source = TranslationSource::FromProps {
            namespaces: vec![Some("Ns1".to_string()), Some("Ns2".to_string())],
        };

        let expanded =
            AnnotationStore::expand_relative_patterns(&patterns, &source, &StrSet::new());

        assert_eq!(expanded.len(), 2);
        assert!(expanded.contains(&"Ns1.key".to_string()));
        assert!(expanded.contains(&"Ns2.key".to_string()));
}

#[test]
fn test_expand_relative_patterns_with_glob() {

        let patterns = vec![".btn.*".to_string()];
        let source = TranslationSource::Direct {
            namespace: Some("Common".to_string()),
        };

        let mut available_keys = StrSet::new();
        available_keys.insert("Common.btn.submit".to_string());
        available_keys.insert("Common.btn.cancel".to_string());

        let expanded =
            AnnotationStore::expand_relative_patterns(&patterns, &source, &available_keys);

        assert_eq!(expanded.len(), 2);
        assert!(expanded.contains(&"Common.btn.submit".to_string()));
        assert!(expanded.contains(&"Common.btn.cancel".to_string()));
}
