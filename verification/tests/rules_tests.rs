use organiser::rules::{select, Action, DuplicateAction, Rule, SelectError};
use organiser::size::{SizeError, SizeMatcher};
use regex::Regex;

fn rule(pattern: &str, min_size: Option<&str>, actions: Vec<Action>) -> Rule {
    Rule {
        regex: Regex::new(pattern).unwrap(),
        min_size: min_size.map(|s| s.to_string()),
        actions,
    }
}

fn delete() -> Vec<Action> {
    vec![Action::Delete]
}

fn pick(rules: &Vec<Rule>, name: &str, size: Option<u64>) -> Result<Option<usize>, SelectError> {
    select(rules, &SizeMatcher::new().unwrap(), name, size)
}

#[test]
fn no_rules_no_choice() {
    assert_eq!(pick(&vec![], "a.txt", Some(1)), Ok(None));
    assert_eq!(pick(&vec![], "a.txt", None), Ok(None));
}

#[test]
fn name_without_any_pattern_is_not_matched() {
    let rules = vec![
        rule(r"\.zip$", None, delete()),
        rule(r"\.pdf$", Some("1k"), delete()),
        rule("^report", None, delete()),
    ];
    assert_eq!(pick(&rules, "notes.txt", Some(5000)), Ok(None));
    assert_eq!(pick(&rules, "notes.txt", None), Ok(None));
    assert_eq!(pick(&rules, "", Some(0)), Ok(None));
}

#[test]
fn first_of_two_matching_rules_is_chosen() {
    let rules = vec![
        rule(r"\.txt$", None, delete()),
        rule("notes", None, delete()),
        rule(r"\.zip$", None, delete()),
    ];
    assert_eq!(pick(&rules, "notes.txt", Some(1)), Ok(Some(0)));
    assert_eq!(pick(&rules, "notes.pdf", Some(1)), Ok(Some(1)));
    assert_eq!(pick(&rules, "notes.zip", Some(1)), Ok(Some(1)));
    assert_eq!(pick(&rules, "other.zip", Some(1)), Ok(Some(2)));
}

#[test]
fn small_file_falls_through_to_the_next_matching_rule() {
    let rules = vec![
        rule(r"\.iso$", Some("1k"), delete()),
        rule(r"\.iso$", None, delete()),
    ];
    assert_eq!(pick(&rules, "disk.iso", Some(2000)), Ok(Some(0)));
    assert_eq!(pick(&rules, "disk.iso", Some(1025)), Ok(Some(0)));
    assert_eq!(pick(&rules, "disk.iso", Some(1024)), Ok(Some(1)));
    assert_eq!(pick(&rules, "disk.iso", Some(0)), Ok(Some(1)));
}

#[test]
fn small_file_with_no_other_rule_is_not_matched() {
    let rules = vec![rule(r"\.iso$", Some("10"), delete()), rule(r"\.zip$", None, delete())];
    assert_eq!(pick(&rules, "disk.iso", Some(10)), Ok(None));
    assert_eq!(pick(&rules, "disk.iso", Some(11)), Ok(Some(0)));
}

#[test]
fn size_is_not_needed_without_threshold() {
    let rules = vec![rule(r"\.zip$", None, delete())];
    assert_eq!(pick(&rules, "a.zip", None), Ok(Some(0)));
}

#[test]
fn unknown_size_fails_a_rule_with_threshold() {
    let rules = vec![
        rule(r"\.txt$", Some("1k"), delete()),
        rule(r"\.zip$", Some("1k"), delete()),
        rule(r"\.zip$", None, delete()),
    ];
    assert_eq!(pick(&rules, "a.zip", None), Err(SelectError::SizeUnknown));
    assert_eq!(pick(&rules, "a.txt", None), Err(SelectError::SizeUnknown));
    assert_eq!(pick(&rules, "a.pdf", None), Ok(None));
}

#[test]
fn bad_threshold_fails_the_choice() {
    let rules = vec![
        rule(r"\.zip$", Some("5x"), delete()),
        rule(r"\.zip$", None, delete()),
    ];
    assert_eq!(
        pick(&rules, "a.zip", Some(100)),
        Err(SelectError::Threshold(SizeError::UnknownUnit("x".to_string())))
    );
    let rules = vec![rule("a", Some("many"), delete())];
    assert_eq!(pick(&rules, "a", Some(1)), Err(SelectError::Threshold(SizeError::Malformed)));
    let rules = vec![rule("a", Some("99999999999999999999"), delete())];
    assert_eq!(pick(&rules, "a", Some(1)), Err(SelectError::Threshold(SizeError::Magnitude)));
}

#[test]
fn unknown_size_is_reported_before_a_bad_threshold() {
    let rules = vec![rule("a", Some("5x"), delete())];
    assert_eq!(pick(&rules, "a", None), Err(SelectError::SizeUnknown));
}

#[test]
fn bad_threshold_of_a_rule_that_is_not_reached_does_no_harm() {
    let rules = vec![
        rule(r"\.txt$", Some("5x"), delete()),
        rule(r"\.zip$", None, delete()),
        rule(r"\.zip$", Some("5x"), delete()),
    ];
    assert_eq!(pick(&rules, "a.zip", Some(100)), Ok(Some(1)));
    assert_eq!(pick(&rules, "a.zip", None), Ok(Some(1)));
}

#[test]
fn rule_without_actions_is_passed_by() {
    let rules = vec![rule(r"\.zip$", None, vec![]), rule("a", None, delete())];
    assert_eq!(pick(&rules, "a.zip", Some(1)), Ok(Some(1)));
    assert_eq!(pick(&rules, "b.zip", Some(1)), Ok(None));
}

#[test]
fn rule_without_actions_still_has_its_threshold_judged() {
    let rules = vec![rule(r"\.zip$", Some("5x"), vec![]), rule("a", None, delete())];
    assert_eq!(
        pick(&rules, "a.zip", Some(1)),
        Err(SelectError::Threshold(SizeError::UnknownUnit("x".to_string())))
    );
    assert_eq!(pick(&rules, "a.zip", None), Err(SelectError::SizeUnknown));
}

#[test]
fn later_actions_do_not_change_the_choice() {
    let rules = vec![rule(
        "a",
        None,
        vec![
            Action::Unzip { dest: "out".to_string() },
            Action::Move { dest: "done".to_string(), duplicate: DuplicateAction::Skip },
        ],
    )];
    assert_eq!(pick(&rules, "a", Some(1)), Ok(Some(0)));
}
