use fix_layout::backend::{Backend, BackendError, WindowAttribute};
use fix_layout::rules::{Rule, RuleSet};
use fix_layout::segments::split_class_segments;

/// A windowing-system backend that reports fixed attribute values.
struct FixedBackend {
    name: Option<String>,
    class: Option<String>,
}

impl Backend for FixedBackend {
    fn create() -> Result<Self, BackendError> {
        Ok(FixedBackend { name: None, class: None })
    }

    fn wait_for_focus_change(&mut self) {}

    fn attribute_of_focused_window(&mut self, attribute: WindowAttribute) -> Option<String> {
        match attribute {
            WindowAttribute::Name => self.name.clone(),
            WindowAttribute::Class => self.class.clone(),
        }
    }
}

fn rule(
    pattern: &str,
    attribute: WindowAttribute,
    on_match: Option<&str>,
    on_unmatch: Option<&str>,
) -> Rule {
    Rule::new(
        pattern,
        attribute,
        on_match.map(|s| s.to_string()),
        on_unmatch.map(|s| s.to_string()),
    )
    .expect("pattern must be valid")
}

#[test]
fn class_value_splits_into_segments() {
    let segs = split_class_segments("firefox\0Firefox\0");
    assert_eq!(segs, vec!["firefox".to_string(), "Firefox".to_string()]);
}

#[test]
fn empty_segments_are_dropped() {
    assert_eq!(
        split_class_segments("\0\0a\0\0bc"),
        vec!["a".to_string(), "bc".to_string()]
    );
    assert!(split_class_segments("").is_empty());
    assert!(split_class_segments("\0\0\0").is_empty());
}

#[test]
fn segment_without_separator_is_kept_whole() {
    assert_eq!(split_class_segments("alacritty"), vec!["alacritty".to_string()]);
}

#[test]
fn invalid_pattern_is_rejected() {
    assert!(Rule::new("(", WindowAttribute::Class, None, None).is_none());
    let accepted = Rule::new("^code$", WindowAttribute::Class, None, None);
    assert!(accepted.is_some());
    assert_eq!(accepted.unwrap().attribute(), WindowAttribute::Class);
}

#[test]
fn matching_class_selects_on_match() {
    let rules = RuleSet::new(vec![rule(
        "^code$",
        WindowAttribute::Class,
        Some("layout-A"),
        Some("layout-B"),
    )]);
    let actions = rules.evaluate_with_values(&None, &Some("code\0Code\0".to_string()));
    assert_eq!(actions, vec!["layout-A".to_string()]);
}

#[test]
fn matching_either_class_segment_counts() {
    let rules = RuleSet::new(vec![rule(
        "^Code$",
        WindowAttribute::Class,
        Some("layout-A"),
        Some("layout-B"),
    )]);
    let actions = rules.evaluate_with_values(&None, &Some("code\0Code\0".to_string()));
    assert_eq!(actions, vec!["layout-A".to_string()]);
}

#[test]
fn unmatched_class_selects_on_unmatch() {
    let rules = RuleSet::new(vec![rule(
        "^code$",
        WindowAttribute::Class,
        Some("layout-A"),
        Some("layout-B"),
    )]);
    let actions = rules.evaluate_with_values(&None, &Some("bash\0Bash\0".to_string()));
    assert_eq!(actions, vec!["layout-B".to_string()]);
}

#[test]
fn absent_value_selects_on_unmatch() {
    let rules = RuleSet::new(vec![rule(
        "^code$",
        WindowAttribute::Class,
        Some("layout-A"),
        Some("layout-B"),
    )]);
    let actions = rules.evaluate_with_values(&None, &None);
    assert_eq!(actions, vec!["layout-B".to_string()]);
}

#[test]
fn name_is_matched_raw_not_split() {
    // The class/name asymmetry: a name attribute is matched against the raw
    // string, so an anchored pattern does not match across embedded NULs.
    let by_name = RuleSet::new(vec![rule(
        "^firefox$",
        WindowAttribute::Name,
        Some("yes"),
        Some("no"),
    )]);
    let by_class = RuleSet::new(vec![rule(
        "^firefox$",
        WindowAttribute::Class,
        Some("yes"),
        Some("no"),
    )]);
    let value = Some("firefox\0Firefox\0".to_string());
    assert_eq!(by_name.evaluate_with_values(&value, &None), vec!["no".to_string()]);
    assert_eq!(by_class.evaluate_with_values(&None, &value), vec!["yes".to_string()]);
}

#[test]
fn name_substring_matches_unanchored_pattern() {
    let rules = RuleSet::new(vec![rule(
        "vim",
        WindowAttribute::Name,
        Some("editor"),
        None,
    )]);
    let actions = rules.evaluate_with_values(&Some("nvim ~/notes.txt".to_string()), &None);
    assert_eq!(actions, vec!["editor".to_string()]);
}

#[test]
fn evaluation_is_idempotent() {
    let build = || {
        RuleSet::new(vec![
            rule("^code$", WindowAttribute::Class, Some("layout-A"), Some("layout-B")),
            rule("term", WindowAttribute::Name, Some("t-on"), Some("t-off")),
        ])
    };
    let rules = build();
    let name = Some("terminal".to_string());
    let class = Some("code\0Code\0".to_string());
    let first = rules.evaluate_with_values(&name, &class);
    let second = rules.evaluate_with_values(&name, &class);
    assert_eq!(first, second);
    assert_eq!(first, vec!["layout-A".to_string(), "t-on".to_string()]);
}

#[test]
fn rules_dispatch_independently() {
    // Four rules, two match; one matching rule has no match command and one
    // non-matching rule has no unmatch command, so exactly two actions come
    // out: one match action and one unmatch action.
    let rules = RuleSet::new(vec![
        rule("^code$", WindowAttribute::Class, Some("m1"), Some("u1")),
        rule("^code$", WindowAttribute::Class, None, Some("u2")),
        rule("^zsh$", WindowAttribute::Class, Some("m3"), Some("u3")),
        rule("^zsh$", WindowAttribute::Class, Some("m4"), None),
    ]);
    let class = Some("code\0Code\0".to_string());
    let actions = rules.evaluate_with_values(&None, &class);
    assert_eq!(actions, vec!["m1".to_string(), "u3".to_string()]);
}

#[test]
fn rule_order_affects_dispatch_order_not_counts() {
    let build = |flip: bool| {
        let a = rule("^code$", WindowAttribute::Class, Some("m-code"), None);
        let b = rule("bash", WindowAttribute::Class, None, Some("u-bash"));
        let c = rule("^vim$", WindowAttribute::Name, Some("m-vim"), Some("u-vim"));
        RuleSet::new(if flip { vec![c, b, a] } else { vec![a, b, c] })
    };
    let name = Some("emacs".to_string());
    let class = Some("code\0Code\0".to_string());
    let forward = build(false).evaluate_with_values(&name, &class);
    let backward = build(true).evaluate_with_values(&name, &class);
    assert_eq!(forward.len(), backward.len());
    assert_eq!(
        forward,
        vec!["m-code".to_string(), "u-bash".to_string(), "u-vim".to_string()]
    );
    assert_eq!(
        backward,
        vec!["u-vim".to_string(), "u-bash".to_string(), "m-code".to_string()]
    );
}

#[test]
fn both_attribute_kinds_dispatch_in_one_pass() {
    let rules = RuleSet::new(vec![
        rule("^vim", WindowAttribute::Name, Some("name-hit"), Some("name-miss")),
        rule("^code$", WindowAttribute::Class, Some("class-hit"), Some("class-miss")),
    ]);
    let mut backend = FixedBackend {
        name: Some("vim notes".to_string()),
        class: Some("code\0Code\0".to_string()),
    };
    let actions = rules.evaluate(&mut backend);
    assert_eq!(actions, vec!["name-hit".to_string(), "class-hit".to_string()]);
}

#[test]
fn evaluate_with_absent_focus_uses_unmatch_branch() {
    let rules = RuleSet::new(vec![rule(
        "^code$",
        WindowAttribute::Class,
        Some("layout-A"),
        Some("layout-B"),
    )]);
    let mut backend = FixedBackend { name: None, class: None };
    let actions = rules.evaluate(&mut backend);
    assert_eq!(actions, vec!["layout-B".to_string()]);
}

#[test]
fn rule_without_commands_never_dispatches() {
    let rules = RuleSet::new(vec![rule("^code$", WindowAttribute::Class, None, None)]);
    assert!(rules
        .evaluate_with_values(&None, &Some("code\0Code\0".to_string()))
        .is_empty());
    assert!(rules.evaluate_with_values(&None, &None).is_empty());
    assert_eq!(rules.len(), 1);
}

#[test]
fn backend_error_describes_itself() {
    let err = BackendError::Initialize { detail: "no display".to_string() };
    assert_eq!(err.describe().as_str(), "no display");
}

#[test]
fn created_backend_reports_no_window() {
    let mut backend = FixedBackend::create().expect("create cannot fail");
    backend.wait_for_focus_change();
    assert_eq!(backend.attribute_of_focused_window(WindowAttribute::Name), None);
}
