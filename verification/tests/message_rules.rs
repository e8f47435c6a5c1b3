use glot::check_context::{AllKeyUsages, CheckContext, Config, MessageData, MessageMap};
use glot::runner::CheckRunner;
use glot::context::{CommentStyle, MessageContext, MessageLocation, ValueType};
use glot::extraction::{DynamicKeyReason, DynamicKeyWarning, MissingKeyResult, UsedKey};
use glot::hardcoded::HardcodedIssue;
use glot::issues::{IssueUnresolvedKeyReason, Rule};
use glot::messages::{flatten_messages, JsonValue};
use glot::rules::{
    flat_used_keys, hardcoded_findings, missing_key_issues, replica_lag_issues, schema_missing_key_issues,
    type_mismatch_issues, unresolved_findings, untranslated_issues,
};
use glot::schema::{SchemaCallInfo, SchemaFunction};
use glot::key_objects::{KeyObject, TranslationFnCall};
use glot::registries::collect_registries;
use glot::registry::RegistryCollector;
use glot::strmap::{StrMap, StrSet};

fn used(key: &str, file: &str, line: usize, disabled: bool) -> UsedKey {
    UsedKey {
        full_key: key.to_string(),
        file_path: file.to_string(),
        line,
        col: 5,
        source_line: format!("t(\"{}\")", key),
        in_jsx_context: line % 2 == 0,
        untranslated_disabled: disabled,
    }
}

fn result(keys: Vec<UsedKey>) -> MissingKeyResult {
    MissingKeyResult {
        used_keys: keys,
        warnings: Vec::new(),
        schema_calls: Vec::new(),
        resolved_keys: Vec::new(),
        pattern_warnings: Vec::new(),
    }
}

fn usages(files: Vec<(&str, Vec<UsedKey>)>) -> AllKeyUsages {
    let mut m = StrMap::new();
    for (f, keys) in files {
        m.insert(f.to_string(), result(keys));
    }
    m
}

fn messages(file: &str, entries: &[(&str, &str)]) -> MessageMap {
    let mut m = StrMap::new();
    for (i, (k, v)) in entries.iter().enumerate() {
        m.insert(k.to_string(), MessageContext::new(MessageLocation::new(file, i + 2, 3), *k, *v));
    }
    m
}

fn data(locales: Vec<(&str, MessageMap)>, primary: MessageMap) -> MessageData {
    let mut all = StrMap::new();
    for (l, m) in locales {
        all.insert(l.to_string(), m);
    }
    MessageData { all_messages: all, primary_messages: Some(primary) }
}

fn types(entries: &[(&str, &[(&str, ValueType)])]) -> StrMap<StrMap<ValueType>> {
    let mut all = StrMap::new();
    for (l, ts) in entries {
        let mut m = StrMap::new();
        for (k, t) in ts.iter() {
            m.insert(k.to_string(), *t);
        }
        all.insert(l.to_string(), m);
    }
    all
}

#[test]
fn used_keys_come_file_by_file() {
    let u = usages(vec![
        ("./a.tsx", vec![used("A.x", "./a.tsx", 1, false), used("A.y", "./a.tsx", 2, false)]),
        ("./b.tsx", vec![used("B.z", "./b.tsx", 3, false)]),
    ]);
    let flat = flat_used_keys(&u);
    let keys: Vec<&str> = flat.iter().map(|k| k.full_key.as_str()).collect();
    assert_eq!(keys, vec!["A.x", "A.y", "B.z"]);
}

#[test]
fn missing_keys_are_reported_at_each_usage() {
    let u = usages(vec![
        ("./a.tsx", vec![used("common.submit", "./a.tsx", 4, false), used("common.cancel", "./a.tsx", 5, false)]),
        ("./b.tsx", vec![used("common.submit", "./b.tsx", 9, false)]),
    ]);
    let primary = messages("./messages/en.json", &[("common.cancel", "Cancel")]);
    let issues = missing_key_issues(&u, &primary);
    assert_eq!(issues.len(), 2);
    assert_eq!(issues[0].key, "common.submit");
    assert_eq!(issues[0].context.location.file_path, "./a.tsx");
    assert_eq!(issues[0].context.location.line, 4);
    assert_eq!(issues[0].context.comment_style, CommentStyle::Jsx);
    assert_eq!(issues[0].context.source_line, "t(\"common.submit\")");
    assert_eq!(issues[1].context.location.file_path, "./b.tsx");
    assert_eq!(issues[1].context.location.line, 9);
    assert_eq!(issues[1].context.comment_style, CommentStyle::Js);
    assert!(issues[1].from_schema.is_none());
}

#[test]
fn no_missing_keys_when_all_are_defined() {
    let u = usages(vec![("./a.tsx", vec![used("common.cancel", "./a.tsx", 4, false)])]);
    let primary = messages("./messages/en.json", &[("common.cancel", "Cancel")]);
    assert!(missing_key_issues(&u, &primary).is_empty());
}

#[test]
fn replica_lag_names_the_locales_that_lack_a_key() {
    let en = messages("./messages/en.json", &[("a", "A"), ("b", "B")]);
    let de = messages("./messages/de.json", &[("a", "A-de")]);
    let zh = messages("./messages/zh.json", &[("a", "A-zh"), ("b", "B-zh")]);
    let fr = messages("./messages/fr.json", &[]);
    let m = data(
        vec![("de", de), ("en", messages("./messages/en.json", &[("a", "A"), ("b", "B")])), ("fr", fr), ("zh", zh)],
        en,
    );
    let u = usages(vec![("./p.tsx", vec![used("b", "./p.tsx", 3, false), used("a", "./p.tsx", 4, false)])]);
    let issues = replica_lag_issues("en", &m, &u);
    assert_eq!(issues.len(), 2);
    assert_eq!(issues[0].context.key, "a");
    assert_eq!(issues[0].missing_in, vec!["fr".to_string()]);
    assert_eq!(issues[0].primary_locale, "en");
    assert_eq!(issues[0].usages.len(), 1);
    assert_eq!(issues[0].usages[0].context.location.line, 4);
    assert_eq!(issues[1].context.key, "b");
    assert_eq!(issues[1].context.value, "B");
    assert_eq!(issues[1].missing_in, vec!["de".to_string(), "fr".to_string()]);
    assert_eq!(issues[1].usages[0].key.key, "b");
}

#[test]
fn replica_lag_needs_the_primary_messages() {
    let m = MessageData { all_messages: StrMap::new(), primary_messages: None };
    assert!(replica_lag_issues("en", &m, &usages(Vec::new())).is_empty());
}

#[test]
fn untranslated_values_name_the_locales_that_repeat_them() {
    let en = messages("./messages/en.json", &[("common.submit", "Submit"), ("common.cancel", "Cancel")]);
    let zh = messages("./messages/zh.json", &[("common.submit", "Submit"), ("common.cancel", "取消")]);
    let de = messages("./messages/de.json", &[("common.submit", "Submit")]);
    let m = data(vec![("de", de), ("zh", zh)], en);
    let u = usages(vec![("./a.tsx", vec![used("common.submit", "./a.tsx", 7, false)])]);
    let issues = untranslated_issues("en", &m, &u);
    assert_eq!(issues.len(), 1);
    assert_eq!(issues[0].context.key, "common.submit");
    assert_eq!(issues[0].context.value, "Submit");
    assert_eq!(issues[0].identical_in, vec!["de".to_string(), "zh".to_string()]);
    assert_eq!(issues[0].usages.len(), 1);
    assert!(issues[0].usages[0].suppressed_rules.is_empty());
}

#[test]
fn untranslated_switched_off_by_a_usage() {
    let en = messages("./messages/en.json", &[("common.submit", "Submit")]);
    let zh = messages("./messages/zh.json", &[("common.submit", "Submit")]);
    let m = data(vec![("zh", zh)], en);
    let u = usages(vec![(
        "./a.tsx",
        vec![used("common.submit", "./a.tsx", 7, false), used("common.submit", "./a.tsx", 9, true)],
    )]);
    assert!(untranslated_issues("en", &m, &u).is_empty());
}

#[test]
fn untranslated_usage_lists_its_switched_off_rule() {
    let en = messages("./messages/en.json", &[("k", "Same")]);
    let zh = messages("./messages/zh.json", &[("k", "Same")]);
    let m = data(vec![("zh", zh)], en);
    let u = usages(vec![("./a.tsx", vec![used("other", "./a.tsx", 1, true)])]);
    let issues = untranslated_issues("en", &m, &u);
    assert_eq!(issues.len(), 1);
    assert!(issues[0].usages.is_empty());
}

#[test]
fn type_mismatch_names_each_locale_with_another_type() {
    let en = messages("./messages/en.json", &[("list", "[a]"), ("title", "T")]);
    let de = messages("./messages/de.json", &[("list", "x"), ("title", "T-de")]);
    let zh = messages("./messages/zh.json", &[("list", "[b]"), ("title", "[c]")]);
    let m = data(vec![("de", de), ("zh", zh)], en);
    let t = types(&[
        ("en", &[("list", ValueType::StringArray), ("title", ValueType::String)]),
        ("de", &[("list", ValueType::String), ("title", ValueType::String)]),
        ("zh", &[("list", ValueType::StringArray), ("title", ValueType::StringArray)]),
    ]);
    let u = usages(vec![("./a.tsx", vec![used("title", "./a.tsx", 2, false)])]);
    let issues = type_mismatch_issues("en", &m, &t, &u);
    assert_eq!(issues.len(), 2);
    assert_eq!(issues[0].context.key, "list");
    assert_eq!(issues[0].expected_type, ValueType::StringArray);
    assert_eq!(issues[0].mismatched_in.len(), 1);
    assert_eq!(issues[0].mismatched_in[0].locale, "de");
    assert_eq!(issues[0].mismatched_in[0].actual_type, ValueType::String);
    assert_eq!(issues[0].mismatched_in[0].location.file_path, "./messages/de.json");
    assert_eq!(issues[0].mismatched_in[0].location.line, 2);
    assert!(issues[0].usages.is_empty());
    assert_eq!(issues[1].context.key, "title");
    assert_eq!(issues[1].expected_type, ValueType::String);
    assert_eq!(issues[1].mismatched_in[0].locale, "zh");
    assert_eq!(issues[1].mismatched_in[0].location.line, 3);
    assert_eq!(issues[1].usages.len(), 1);
    assert_eq!(issues[1].usages[0].suppressed_rules, Vec::<Rule>::new());
}

#[test]
fn message_files_flatten_into_dotted_keys() {
    let root = JsonValue::Object(vec![
        (
            "common".to_string(),
            JsonValue::Object(vec![
                ("submit".to_string(), JsonValue::Text("Submit".to_string())),
                ("items".to_string(), JsonValue::List("[\"a\",\"b\"]".to_string())),
            ]),
        ),
        ("count".to_string(), JsonValue::Scalar("3".to_string())),
    ]);
    let (messages, types) = flatten_messages("./messages/en.json", &root);
    assert_eq!(messages.len(), 3);
    let submit = messages.get("common.submit").unwrap();
    assert_eq!(submit.key, "common.submit");
    assert_eq!(submit.value, "Submit");
    assert_eq!(submit.location.file_path, "./messages/en.json");
    assert_eq!(submit.location.line, 1);
    assert_eq!(messages.get("common.items").unwrap().value, "[\"a\",\"b\"]");
    assert_eq!(messages.get("count").unwrap().value, "3");
    assert_eq!(*types.get("common.items").unwrap(), ValueType::StringArray);
    assert_eq!(*types.get("common.submit").unwrap(), ValueType::String);
    assert_eq!(*types.get("count").unwrap(), ValueType::String);
    assert!(messages.get("common").is_none());
}

#[test]
fn a_file_without_an_object_has_no_messages() {
    let (messages, types) = flatten_messages("./messages/en.json", &JsonValue::Text("x".to_string()));
    assert_eq!(messages.len(), 0);
    assert_eq!(types.len(), 0);
}

#[test]
fn schema_keys_the_primary_locale_lacks_are_missing() {
    let mut registry = StrMap::new();
    registry.insert(
        "formSchema".to_string(),
        SchemaFunction {
            name: "formSchema".to_string(),
            file_path: "./src/schemas/form.ts".to_string(),
            keys: vec!["email".to_string(), "name".to_string()],
            nested_calls: Vec::new(),
        },
    );
    let mut r = result(Vec::new());
    r.schema_calls = vec![SchemaCallInfo {
        schema_name: "formSchema".to_string(),
        namespace: Some("Form".to_string()),
        line: 20,
        col: 5,
    }];
    let mut u = StrMap::new();
    u.insert("./src/form.tsx".to_string(), r);
    let primary = messages("./messages/en.json", &[("Form.name", "Name")]);
    let issues = schema_missing_key_issues(&u, &registry, &primary);
    assert_eq!(issues.len(), 1);
    assert_eq!(issues[0].key, "Form.email");
    assert_eq!(issues[0].context.location.file_path, "./src/form.tsx");
    assert_eq!(issues[0].context.location.line, 20);
    assert_eq!(issues[0].context.location.col, 5);
    assert_eq!(
        issues[0].from_schema,
        Some(("formSchema".to_string(), "./src/schemas/form.ts".to_string()))
    );
}

#[test]
fn registries_key_objects_by_place_and_merge_namespaces_once() {
    let call = |ns: Vec<Option<&str>>| TranslationFnCall {
        fn_file_path: "./lib/f.ts".to_string(),
        fn_name: "f".to_string(),
        arg_index: 0,
        namespaces: ns.into_iter().map(|n| n.map(|s| s.to_string())).collect(),
    };
    let mut a = RegistryCollector::new("./a.tsx");
    a.objects.push(KeyObject {
        name: "keys".to_string(),
        file_path: "./a.tsx".to_string(),
        is_exported: true,
        is_module_level: true,
        candidate_keys: vec!["x".to_string()],
    });
    a.translation_fn_calls.push(call(vec![Some("A"), Some("B")]));
    a.default_export_name = Some("Page".to_string());
    let mut b = RegistryCollector::new("./b.tsx");
    b.translation_fn_calls.push(call(vec![Some("B"), Some("C"), None]));
    let (reg, _) = collect_registries(vec![("./a.tsx".to_string(), a), ("./b.tsx".to_string(), b)], &StrSet::new());
    assert!(reg.key_object.get("./a.tsx.keys").is_some());
    assert_eq!(reg.key_object.len(), 1);
    assert_eq!(reg.default_exports.get("./a.tsx"), Some(&"Page".to_string()));
    assert!(reg.default_exports.get("./b.tsx").is_none());
    let merged = &reg.translation_fn_call.get("./lib/f.ts.f.0").unwrap().namespaces;
    assert_eq!(
        merged,
        &vec![Some("A".to_string()), Some("B".to_string()), Some("C".to_string()), None]
    );
}

#[test]
fn hardcoded_text_and_dynamic_keys_become_findings_in_file_order() {
    let mut all = StrMap::new();
    all.insert(
        "./a.tsx".to_string(),
        vec![HardcodedIssue {
            file_path: "./a.tsx".to_string(),
            line: 3,
            col: 7,
            text: "Submit".to_string(),
            source_line: "<b>Submit</b>".to_string(),
            in_jsx_context: true,
        }],
    );
    all.insert("./b.tsx".to_string(), Vec::new());
    let found = hardcoded_findings(&all);
    assert_eq!(found.len(), 1);
    assert_eq!(found[0].text, "Submit");
    assert_eq!(found[0].context.location.line, 3);
    assert_eq!(found[0].context.comment_style, CommentStyle::Jsx);

    let mut r = result(Vec::new());
    r.warnings = vec![DynamicKeyWarning {
        file_path: "./c.tsx".to_string(),
        line: 8,
        col: 2,
        reason: DynamicKeyReason::TemplateWithExpr,
        source_line: "t(`a.${x}`)".to_string(),
        hint: Some("hint".to_string()),
        pattern: Some("a.*".to_string()),
        in_jsx_context: false,
    }];
    let mut u = StrMap::new();
    u.insert("./c.tsx".to_string(), r);
    let found = unresolved_findings(&u);
    assert_eq!(found.len(), 1);
    assert_eq!(found[0].reason, IssueUnresolvedKeyReason::TemplateWithExpr);
    assert_eq!(found[0].pattern, Some("a.*".to_string()));
    assert_eq!(found[0].hint, Some("hint".to_string()));
    assert_eq!(found[0].context.comment_style, CommentStyle::Js);
}

fn context_with(messages: MessageData, usages: AllKeyUsages) -> CheckContext {
    let config = Config {
        primary_locale: "en".to_string(),
        messages_dir: "./messages".to_string(),
        includes: Vec::new(),
        ignores: Vec::new(),
        ignore_test_files: true,
        checked_attributes: Vec::new(),
        ignore_texts: Vec::new(),
    };
    let mut ctx = CheckContext::new(config, ".".to_string(), vec!["./a.tsx".to_string()], false);
    ctx.set_messages(messages);
    ctx.set_all_key_usages(usages);
    ctx
}

#[test]
fn runner_reports_what_the_selected_checks_find() {
    let en = messages("./messages/en.json", &[("common.submit", "Submit"), ("common.cancel", "Cancel")]);
    let zh = messages("./messages/zh.json", &[("common.submit", "Submit")]);
    let en_copy = messages("./messages/en.json", &[("common.submit", "Submit"), ("common.cancel", "Cancel")]);
    let m = data(vec![("en", en_copy), ("zh", zh)], en);
    let u = usages(vec![("./a.tsx", vec![used("common.title", "./a.tsx", 3, false)])]);
    let ctx = context_with(m, u);
    let r = CheckRunner::new(ctx).missing().untranslated().run(&StrMap::new(), Vec::new()).unwrap();
    assert_eq!(r.issues.len(), 3);
    assert_eq!(r.error_count, 2);
    assert_eq!(r.warning_count, 1);
    assert_eq!(r.source_files_checked, 1);
    assert_eq!(r.locale_files_checked, 2);
}

#[test]
fn runner_fails_without_the_primary_messages() {
    let m = MessageData { all_messages: StrMap::new(), primary_messages: None };
    let ctx = context_with(m, usages(Vec::new()));
    match CheckRunner::new(ctx).orphan().run(&StrMap::new(), Vec::new()) {
        Err(e) => assert!(e.starts_with("Primary locale file 'en.json' not found in './messages'.")),
        Ok(_) => panic!("expected an error"),
    }
}
