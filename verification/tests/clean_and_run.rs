use glot::clean::clean_plan;
use glot::commands::{CheckRule, CheckType, CleanRule, ExitStatus};
use glot::context::{CommentStyle, MessageContext, MessageLocation, SourceContext, SourceLocation};
use glot::issues::{
    HardcodedTextIssue, Issue, IssueUnresolvedKeyReason, OrphanKeyIssue, ParseErrorIssue, UnresolvedKeyIssue,
    UnusedKeyIssue,
};
use glot::actions::Operation;
use glot::runner::{check_types_for, run_checks, Findings};

fn unused(key: &str) -> UnusedKeyIssue {
    UnusedKeyIssue { context: MessageContext::new(MessageLocation::new("./messages/en.json", 2, 3), key, "v") }
}

fn orphan(key: &str) -> OrphanKeyIssue {
    OrphanKeyIssue {
        context: MessageContext::new(MessageLocation::new("./messages/zh.json", 3, 3), key, "v"),
        locale: "zh".to_string(),
    }
}

fn unresolved_at(file: &str, line: usize) -> UnresolvedKeyIssue {
    UnresolvedKeyIssue {
        context: SourceContext::new(SourceLocation::new(file, line, 9), "  t(key)", CommentStyle::Js),
        reason: IssueUnresolvedKeyReason::VariableKey,
        hint: None,
        pattern: None,
    }
}

fn hardcoded_at(file: &str, line: usize) -> HardcodedTextIssue {
    HardcodedTextIssue {
        context: SourceContext::new(SourceLocation::new(file, line, 5), "<p>Hi</p>", CommentStyle::Jsx),
        text: "Hi".to_string(),
    }
}

fn deleted_key(op: &Operation) -> String {
    match op {
        Operation::DeleteJsonKey { context } => context.key.clone(),
        _ => panic!("not a deletion"),
    }
}

#[test]
fn clean_blocked_by_message_parse_errors() {
    let p = clean_plan(1, &Vec::new(), &Vec::new(), vec![unused("A.x")], Vec::new(), 0, true);
    assert!(p.blocked);
    assert_eq!(p.status, ExitStatus::Error);
    assert!(p.operations.is_empty());
}

#[test]
fn clean_blocked_by_unresolved_keys() {
    let p = clean_plan(0, &vec![unresolved_at("./a.tsx", 3)], &Vec::new(), vec![unused("A.x")], Vec::new(), 0, false);
    assert!(p.blocked);
    assert_eq!(p.status, ExitStatus::Error);
    assert_eq!(p.unused_count, 0);
}

#[test]
fn clean_deletes_selected_kinds_in_order() {
    let p = clean_plan(0, &Vec::new(), &Vec::new(), vec![unused("A.x"), unused("A.y")], vec![orphan("B.z")], 0, false);
    assert!(!p.blocked);
    assert_eq!(p.unused_count, 2);
    assert_eq!(p.orphan_count, 1);
    let keys: Vec<String> = p.operations.iter().map(deleted_key).collect();
    assert_eq!(keys, vec!["A.x".to_string(), "A.y".to_string(), "B.z".to_string()]);
    assert_eq!(p.status, ExitStatus::Failure);

    let p = clean_plan(0, &Vec::new(), &vec![CleanRule::Orphan], vec![unused("A.x")], vec![orphan("B.z")], 0, true);
    assert_eq!(p.unused_count, 0);
    assert_eq!(p.orphan_count, 1);
    assert_eq!(p.status, ExitStatus::Success);

    let p = clean_plan(0, &Vec::new(), &Vec::new(), Vec::new(), Vec::new(), 2, false);
    assert_eq!(p.status, ExitStatus::Error);
}

fn findings(
    parse_errors: Vec<Issue>,
    hardcoded: Vec<HardcodedTextIssue>,
    unresolved: Vec<UnresolvedKeyIssue>,
) -> Findings {
    Findings {
        parse_errors,
        hardcoded,
        missing: Vec::new(),
        unresolved,
        replica_lag: Vec::new(),
        unused: Vec::new(),
        orphan: Vec::new(),
        untranslated: Vec::new(),
        type_mismatch: Vec::new(),
    }
}

fn empty_findings() -> Findings {
    findings(Vec::new(), Vec::new(), Vec::new())
}

#[test]
fn run_checks_needs_primary_locale() {
    let none: Vec<String> = Vec::new();
    let r = run_checks(&vec![CheckType::Missing], empty_findings(), false, "en", "./messages", &none, 1, 0);
    match r {
        Err(e) => assert_eq!(
            e,
            "Primary locale file 'en.json' not found in './messages'.\nNo locale files found in the directory.\nHint: Check your .glotrc.json 'primaryLocale' setting."
        ),
        Ok(_) => panic!("expected an error"),
    }
    let found = vec!["de".to_string(), "zh".to_string()];
    let r = run_checks(&vec![CheckType::Orphan], empty_findings(), false, "en", "./messages", &found, 1, 0);
    match r {
        Err(e) => assert_eq!(
            e,
            "Primary locale file 'en.json' not found in './messages'.\nAvailable locales: [\"de\", \"zh\"]\nHint: Check your .glotrc.json 'primaryLocale' setting."
        ),
        Ok(_) => panic!("expected an error"),
    }
    let r = run_checks(&vec![CheckType::Hardcoded], empty_findings(), false, "en", "./messages", &none, 1, 0);
    assert!(r.is_ok());
}

#[test]
fn run_checks_dispatches_selected_checks() {
    let parse = vec![Issue::ParseError(ParseErrorIssue { file_path: "z.tsx".to_string(), error: "bad".to_string() })];
    let r = run_checks(
        &vec![CheckType::Hardcoded, CheckType::Missing],
        findings(parse, vec![hardcoded_at("./b.tsx", 2)], vec![unresolved_at("./a.tsx", 7)]),
        true,
        "en",
        "./messages",
        &Vec::new(),
        3,
        2,
    )
    .unwrap();
    assert_eq!(r.issues.len(), 3);
    assert_eq!(r.error_count, 2);
    assert_eq!(r.warning_count, 1);
    assert_eq!(r.parse_error_count, 1);
    assert!(matches!(r.issues[0], Issue::UnresolvedKey(_)));
    assert!(matches!(r.issues[1], Issue::HardcodedText(_)));
    assert!(matches!(r.issues[2], Issue::ParseError(_)));

    let r = run_checks(
        &vec![CheckType::Hardcoded],
        findings(Vec::new(), vec![hardcoded_at("./b.tsx", 2)], vec![unresolved_at("./a.tsx", 7)]),
        true,
        "en",
        "./m",
        &Vec::new(),
        1,
        0,
    )
    .unwrap();
    assert_eq!(r.issues.len(), 1);
}

#[test]
fn run_checks_reports_orphan_and_unused_only_with_the_orphan_check() {
    let mut f = empty_findings();
    f.unused = vec![unused("A.x")];
    f.orphan = vec![orphan("B.z")];
    let r = run_checks(&vec![CheckType::Orphan], f, true, "en", "./messages", &Vec::new(), 1, 2).unwrap();
    assert_eq!(r.issues.len(), 2);
    assert_eq!(r.warning_count, 2);

    let mut f = empty_findings();
    f.unused = vec![unused("A.x")];
    let r = run_checks(&vec![CheckType::Hardcoded], f, true, "en", "./messages", &Vec::new(), 1, 2).unwrap();
    assert_eq!(r.issues.len(), 0);
}

#[test]
fn rules_map_to_their_check_groups() {
    let groups = check_types_for(&vec![
        CheckRule::Unresolved,
        CheckRule::Unused,
        CheckRule::Hardcoded,
        CheckRule::ReplicaLag,
        CheckRule::TypeMismatch,
        CheckRule::Untranslated,
    ]);
    assert_eq!(
        groups,
        vec![
            CheckType::Missing,
            CheckType::Orphan,
            CheckType::Hardcoded,
            CheckType::Missing,
            CheckType::TypeMismatch,
            CheckType::Untranslated,
        ]
    );
}
