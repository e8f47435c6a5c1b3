//! Resolution of dynamic keys through registries.

use glot::key_objects::{
    FileImports, ImportInfo, KeyArray, KeyArrayRegistry, KeyObject, KeyObjectRegistry, StringArray,
    StringArrayRegistry, make_registry_key,
};
use glot::strmap::StrMap;
use glot::value_analyzer::{IteratorBindingType, ValueAnalyzer};
use glot::value_source::{UnresolvableReason, ValueSource};

fn create_empty_analyzer<'a>(
    file_path: &'a str,
    object_registry: &'a KeyObjectRegistry,
    array_registry: &'a KeyArrayRegistry,
    string_array_registry: &'a StringArrayRegistry,
    imports: &'a FileImports,
) -> ValueAnalyzer<'a> {
    ValueAnalyzer::new(file_path, object_registry, array_registry, string_array_registry, imports)
}

#[test]
fn test_resolve_string_array_local() {

        let object_registry = KeyObjectRegistry::new();
        let array_registry = KeyArrayRegistry::new();
        let mut string_array_registry = StringArrayRegistry::new();
        let imports = FileImports::new();

        string_array_registry.insert(
            make_registry_key("test.tsx", "KEYS"),
            StringArray {
                name: "KEYS".to_string(),
                file_path: "test.tsx".to_string(),
                is_exported: false,
                is_module_level: true,
                values: vec!["a".to_string(), "b".to_string()],
            },
        );

        let analyzer = create_empty_analyzer(
            "test.tsx",
            &object_registry,
            &array_registry,
            &string_array_registry,
            &imports,
        );

        let result = analyzer.resolve_string_array("KEYS");
        assert!(matches!(
            result,
            ValueSource::StringArrayElement {
                array_name,
                candidate_values
            } if array_name == "KEYS" && candidate_values == vec!["a", "b"]
        ));
}

#[test]
fn test_resolve_object_local() {

        let mut object_registry = KeyObjectRegistry::new();
        let array_registry = KeyArrayRegistry::new();
        let string_array_registry = StringArrayRegistry::new();
        let imports = FileImports::new();

        object_registry.insert(
            make_registry_key("test.tsx", "toolKeys"),
            KeyObject {
                name: "toolKeys".to_string(),
                file_path: "test.tsx".to_string(),
                is_exported: false,
                is_module_level: true,
                candidate_keys: vec!["keyA".to_string(), "keyB".to_string()],
            },
        );

        let analyzer = create_empty_analyzer(
            "test.tsx",
            &object_registry,
            &array_registry,
            &string_array_registry,
            &imports,
        );

        let result = analyzer.resolve_object("toolKeys");
        assert!(matches!(
            result,
            ValueSource::ObjectAccess {
                object_name,
                candidate_values
            } if object_name == "toolKeys" && candidate_values == vec!["keyA", "keyB"]
        ));
}

#[test]
fn test_resolve_array_property_local() {

        let object_registry = KeyObjectRegistry::new();
        let mut array_registry = KeyArrayRegistry::new();
        let string_array_registry = StringArrayRegistry::new();
        let imports = FileImports::new();

        let mut property_values = StrMap::new();
        property_values.insert(
            "titleKey".to_string(),
            vec!["a".to_string(), "b".to_string()],
        );

        array_registry.insert(
            make_registry_key("test.tsx", "capabilities"),
            KeyArray {
                name: "capabilities".to_string(),
                file_path: "test.tsx".to_string(),
                is_exported: false,
                is_module_level: true,
                property_values,
            },
        );

        let analyzer = create_empty_analyzer(
            "test.tsx",
            &object_registry,
            &array_registry,
            &string_array_registry,
            &imports,
        );

        let result = analyzer.resolve_array_property("capabilities", "titleKey");
        assert!(matches!(
            result,
            ValueSource::ArrayIteration {
                array_name,
                property_name,
                candidate_values
            } if array_name == "capabilities"
                && property_name == "titleKey"
                && candidate_values == vec!["a", "b"]
        ));
}

#[test]
fn test_unknown_variable_returns_unresolvable() {

        let object_registry = KeyObjectRegistry::new();
        let array_registry = KeyArrayRegistry::new();
        let string_array_registry = StringArrayRegistry::new();
        let imports = FileImports::new();

        let analyzer = create_empty_analyzer(
            "test.tsx",
            &object_registry,
            &array_registry,
            &string_array_registry,
            &imports,
        );

        let result = analyzer.resolve_string_array("UNKNOWN");
        assert!(matches!(
            result,
            ValueSource::Unresolvable {
                reason: UnresolvableReason::UnknownArray(name)
            } if name == "UNKNOWN"
        ));
}

#[test]
fn test_register_iterator_string_array() {

        let object_registry = KeyObjectRegistry::new();
        let array_registry = KeyArrayRegistry::new();
        let mut string_array_registry = StringArrayRegistry::new();
        let imports = FileImports::new();

        string_array_registry.insert(
            make_registry_key("test.tsx", "KEYS"),
            StringArray {
                name: "KEYS".to_string(),
                file_path: "test.tsx".to_string(),
                is_exported: false,
                is_module_level: true,
                values: vec!["a".to_string(), "b".to_string()],
            },
        );

        let mut analyzer = create_empty_analyzer(
            "test.tsx",
            &object_registry,
            &array_registry,
            &string_array_registry,
            &imports,
        );

        analyzer.register_iterator("k", "KEYS");

        // After registration, k should be recognized as iterating over KEYS
        assert!(analyzer.get_iterator_binding("k").is_some());
        assert!(matches!(
            analyzer.get_iterator_binding("k").unwrap().binding_type,
            IteratorBindingType::StringArrayDirect
        ));
}

#[test]
fn test_import_without_matching_file_returns_unresolvable() {

        // When an import's target file doesn't exist/can't be resolved,
        // the lookup should return Unresolvable
        let mut object_registry = KeyObjectRegistry::new();
        object_registry.insert(
            make_registry_key("constants.ts", "toolKeys"),
            KeyObject {
                name: "toolKeys".to_string(),
                file_path: "constants.ts".to_string(),
                is_exported: true,
                is_module_level: true,
                candidate_keys: vec!["create".to_string()],
            },
        );

        let imports = vec![ImportInfo {
            local_name: "toolKeys".to_string(),
            imported_name: "toolKeys".to_string(),
            module_specifier: "./constants".to_string(), // File doesn't exist in tests
        }];

        let array_registry = KeyArrayRegistry::new();
        let string_array_registry = StringArrayRegistry::new();

        let analyzer = create_empty_analyzer(
            "component.tsx",
            &object_registry,
            &array_registry,
            &string_array_registry,
            &imports,
        );

        // Since the import can't be resolved (file doesn't exist),
        // this should return Unresolvable
        let result = analyzer.resolve_object("toolKeys");
        assert!(matches!(
            result,
            ValueSource::Unresolvable {
                reason: UnresolvableReason::UnknownObject(name)
            } if name == "toolKeys"
        ));
}
