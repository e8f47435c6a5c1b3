//! Scoped translation function bindings.

use glot::binding_context::BindingContext;
use glot::translation_source::TranslationSource;

#[test]
fn test_new_has_global_scope() {

        let ctx = BindingContext::new();
        assert_eq!(ctx.depth(), 1);
}

#[test]
fn test_enter_exit_scope() {

        let mut ctx = BindingContext::new();
        ctx.enter_scope();
        assert_eq!(ctx.depth(), 2);
        ctx.exit_scope();
        assert_eq!(ctx.depth(), 1);
}

#[test]
fn test_exit_scope_keeps_global() {

        let mut ctx = BindingContext::new();
        ctx.exit_scope(); // Should not remove global scope
        assert_eq!(ctx.depth(), 1);
}

#[test]
fn test_insert_and_get_binding() {

        let mut ctx = BindingContext::new();
        ctx.insert_binding(
            "t".to_string(),
            TranslationSource::Direct {
                namespace: Some("Common".to_string()),
            },
        );

        let binding = ctx.get_binding("t");
        assert!(binding.is_some());
        assert!(matches!(
            binding.unwrap(),
            TranslationSource::Direct { namespace } if namespace == &Some("Common".to_string())
        ));
}

#[test]
fn test_inner_scope_shadows_outer() {

        let mut ctx = BindingContext::new();
        ctx.insert_binding(
            "t".to_string(),
            TranslationSource::Direct {
                namespace: Some("Outer".to_string()),
            },
        );

        ctx.enter_scope();
        ctx.insert_binding(
            "t".to_string(),
            TranslationSource::Direct {
                namespace: Some("Inner".to_string()),
            },
        );

        // Should find inner scope binding
        let binding = ctx.get_binding("t");
        assert!(matches!(
            binding.unwrap(),
            TranslationSource::Direct { namespace } if namespace == &Some("Inner".to_string())
        ));

        ctx.exit_scope();

        // Should find outer scope binding now
        let binding = ctx.get_binding("t");
        assert!(matches!(
            binding.unwrap(),
            TranslationSource::Direct { namespace } if namespace == &Some("Outer".to_string())
        ));
}

#[test]
fn test_is_in_current_scope() {

        let mut ctx = BindingContext::new();
        ctx.insert_binding("t".to_string(), TranslationSource::Shadowed);

        assert!(ctx.is_in_current_scope("t"));
        assert!(!ctx.is_in_current_scope("other"));

        ctx.enter_scope();
        assert!(!ctx.is_in_current_scope("t")); // t is in outer scope
}

#[test]
fn test_has_outer_binding() {

        let mut ctx = BindingContext::new();
        ctx.insert_binding("t".to_string(), TranslationSource::Shadowed);

        assert!(!ctx.has_outer_binding("t")); // Only in current scope

        ctx.enter_scope();
        assert!(ctx.has_outer_binding("t")); // Now t is in outer scope

        ctx.insert_binding("t".to_string(), TranslationSource::Shadowed);
        // Still has outer binding even though current scope also has t
        assert!(ctx.has_outer_binding("t"));
}
