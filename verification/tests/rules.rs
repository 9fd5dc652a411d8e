use scanner_core::rules::{Rule, RuleAction, RuleSet};

fn rule(id: &str, patterns: &[&str]) -> Rule {
    Rule {
        id: id.to_string(),
        name: id.to_string(),
        description: String::new(),
        patterns: patterns.iter().map(|p| p.to_string()).collect(),
        action: RuleAction::Review,
    }
}

#[test]
fn builtin_rules_parse_and_match() {
    // The shipped rules database is not part of this crate, so this runs the
    // same checks against a two-rule set written for the purpose.
    let set = RuleSet::from_rules(vec![
        rule("user-temp", &["c:/users/*/appdata/local/temp"]),
        rule("windows-temp", &["c:/windows/temp"]),
    ])
    .unwrap();
    assert!(!set.rules().is_empty());
    assert!(set.match_path("c:/users/richa/appdata/local/temp").is_some());
    assert!(set.match_path("c:/users/richa/documents").is_none());
}

#[test]
fn first_rule_in_order_wins() {
    let set = RuleSet::from_rules(vec![
        rule("a", &["d:/nothing", "**/logs"]),
        rule("b", &["**/app/logs"]),
        rule("c", &["**/app/**"]),
    ])
    .unwrap();
    assert_eq!(set.match_path("c:/app/logs").map(|r| r.id.as_str()), Some("a"));
    assert_eq!(set.match_path("c:/app/data").map(|r| r.id.as_str()), Some("c"));
    assert!(set.match_path("c:/other").is_none());
}

#[test]
fn star_spans_separators() {
    let set = RuleSet::from_rules(vec![rule("deep", &["c:/*/temp"])]).unwrap();
    assert!(set.match_path("c:/a/b/temp").is_some());
}

#[test]
fn invalid_pattern_is_refused() {
    assert!(RuleSet::from_rules(vec![rule("ok", &["**/x"]), rule("bad", &["a[b"])]).is_err());
    assert!(RuleSet::from_rules(Vec::new()).is_ok());
}
