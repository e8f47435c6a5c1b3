//! The context a command works on: its settings and the data it keeps.

use glot::check_context::{CheckContext, Config, MessageData};
use glot::commands::CheckType;
use glot::registries::AllFileImports;
use glot::runner::CheckRunner;
use glot::strmap::{StrMap, StrSet};

fn create_test_context(root_dir: &str, messages_dir: &str) -> CheckContext {
    let config = Config {
        primary_locale: "en".to_string(),
        messages_dir: messages_dir.to_string(),
        includes: Vec::new(),
        ignores: Vec::new(),
        ignore_test_files: true,
        checked_attributes: Vec::new(),
        ignore_texts: Vec::new(),
    };
    CheckContext::new(config, root_dir.to_string(), Vec::new(), false)
}

#[test]
fn test_resolved_messages_dir_absolute_path() {
    let ctx = create_test_context("/project", "/absolute/path/messages");
    assert_eq!(ctx.resolved_messages_dir(), "/absolute/path/messages");
}

#[test]
fn test_resolved_messages_dir_relative_with_dot() {
    let ctx = create_test_context(".", "./messages");
    assert_eq!(ctx.resolved_messages_dir(), "./messages");
}

#[test]
fn test_resolved_messages_dir_relative_with_root() {
    let ctx = create_test_context("/project/app", "./messages");
    assert_eq!(ctx.resolved_messages_dir(), "/project/app/messages");
}

#[test]
fn test_resolved_messages_dir_relative_no_dot_prefix() {
    let ctx = create_test_context("/project", "locales");
    assert_eq!(ctx.resolved_messages_dir(), "/project/locales");
}

#[test]
fn resolved_messages_dir_strips_repeated_dot_components() {
    assert_eq!(create_test_context("/project", "././locales").resolved_messages_dir(), "/project/locales");
    assert_eq!(create_test_context("./.", "locales").resolved_messages_dir(), "locales");
}

#[test]
fn test_oncecell_getters_return_none_initially() {
    let ctx = create_test_context(".", "./messages");
    assert!(ctx.registries().is_none());
    assert!(ctx.file_imports().is_none());
    assert!(ctx.messages().is_none());
    assert!(ctx.all_key_usages().is_none());
    assert!(ctx.used_keys().is_none());
}

#[test]
fn test_oncecell_setters_and_getters() {
    let mut ctx = create_test_context(".", "./messages");

    let file_imports: AllFileImports = StrMap::new();
    ctx.set_file_imports(file_imports);
    assert!(ctx.file_imports().is_some());
    assert_eq!(ctx.file_imports().unwrap().len(), 0);

    let mut used_keys = StrSet::new();
    used_keys.insert("test.key".to_string());
    ctx.set_used_keys(used_keys);
    assert!(ctx.used_keys().is_some());
    assert!(ctx.used_keys().unwrap().contains("test.key"));
}

#[test]
fn test_oncecell_messages_data() {
    let mut ctx = create_test_context(".", "./messages");

    let message_data = MessageData { all_messages: StrMap::new(), primary_messages: None };
    ctx.set_messages(message_data);

    assert!(ctx.messages().is_some());
    let messages = ctx.messages().unwrap();
    assert_eq!(messages.all_messages.len(), 0);
    assert!(messages.primary_messages.is_none());
}

#[test]
fn a_part_keeps_its_first_value() {
    let mut ctx = create_test_context(".", "./messages");
    let mut first = StrSet::new();
    first.insert("a".to_string());
    ctx.set_used_keys(first);
    let mut second = StrSet::new();
    second.insert("b".to_string());
    ctx.set_used_keys(second);
    let kept = ctx.used_keys().unwrap();
    assert!(kept.contains("a"));
    assert!(!kept.contains("b"));
}

#[test]
fn ensuring_without_parsed_files_changes_nothing() {
    let mut ctx = create_test_context(".", "./messages");
    ctx.ensure_registries();
    ctx.ensure_extractions();
    ctx.ensure_used_keys();
    assert!(ctx.registries().is_none());
    assert!(ctx.all_key_usages().is_none());
    assert!(ctx.hardcoded_issues().is_none());
    assert!(ctx.used_keys().is_none());
}

#[test]
fn ensuring_with_no_files_gives_empty_data() {
    let mut ctx = create_test_context(".", "./messages");
    ctx.set_parsed_files(Vec::new());
    ctx.ensure_used_keys();
    assert_eq!(ctx.registries().unwrap().schema.len(), 0);
    assert_eq!(ctx.file_imports().unwrap().len(), 0);
    assert_eq!(ctx.file_comments().unwrap().len(), 0);
    assert_eq!(ctx.all_key_usages().unwrap().len(), 0);
    assert_eq!(ctx.hardcoded_issues().unwrap().len(), 0);
    assert_eq!(ctx.used_keys().unwrap().len(), 0);
}

#[test]
fn ignore_texts_come_from_the_configuration() {
    let config = Config {
        primary_locale: "en".to_string(),
        messages_dir: "./messages".to_string(),
        includes: Vec::new(),
        ignores: Vec::new(),
        ignore_test_files: true,
        checked_attributes: Vec::new(),
        ignore_texts: vec!["OK".to_string(), "N/A".to_string(), "OK".to_string()],
    };
    let ctx = CheckContext::new(config, "/p".to_string(), vec!["a.tsx".to_string()], true);
    assert_eq!(ctx.ignore_texts.len(), 2);
    assert!(ctx.ignore_texts.contains("N/A"));
    assert!(ctx.verbose);
    assert_eq!(ctx.files, vec!["a.tsx".to_string()]);
}

#[test]
fn runner_collects_each_check_once() {
    let runner = CheckRunner::new(create_test_context(".", "./messages")).hardcoded().hardcoded();
    assert_eq!(runner.checks, vec![CheckType::Hardcoded]);
    assert!(!runner.needs_extractions());
    assert!(!runner.needs_messages());
    let runner = runner.orphan();
    assert!(runner.needs_extractions());
    assert!(runner.needs_messages());
}

#[test]
fn runner_all_asks_for_every_check() {
    let runner = CheckRunner::new(create_test_context(".", "./messages")).missing().all();
    assert_eq!(
        runner.checks,
        vec![CheckType::Missing, CheckType::Hardcoded, CheckType::Orphan, CheckType::Untranslated, CheckType::TypeMismatch]
    );
    let runner = CheckRunner::new(create_test_context(".", "./messages")).untranslated();
    assert!(runner.needs_messages());
    let runner = CheckRunner::new(create_test_context(".", "./messages")).type_mismatch();
    assert!(runner.needs_extractions());
}
