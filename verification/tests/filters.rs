use ntfy_daemon::filters::{check_filters, filter_text, rule_verdicts, select_action};
use ntfy_daemon::models::{FilterAction, FilterRule, ReceivedMessage};

fn rule(regex: &str, action: FilterAction) -> FilterRule {
    FilterRule { name: regex.to_string(), regex: regex.to_string(), action }
}

fn message(title: Option<&str>, body: Option<&str>) -> ReceivedMessage {
    ReceivedMessage {
        id: "m".to_string(),
        time: 1,
        event: "message".to_string(),
        topic: "alerts".to_string(),
        message: body.map(|s| s.to_string()),
        title: title.map(|s| s.to_string()),
        tags: None,
        priority: None,
        actions: None,
    }
}

#[test]
fn filter_text_is_title_space_body() {
    assert_eq!(filter_text(&message(Some("T"), Some("body"))), "T body");
    assert_eq!(filter_text(&message(None, Some("body"))), " body");
    assert_eq!(filter_text(&message(Some("T"), None)), "T ");
    assert_eq!(filter_text(&message(None, None)), " ");
}

#[test]
fn no_rules_decide_nothing() {
    assert_eq!(check_filters(&None, &message(None, Some("x"))), None);
    assert_eq!(check_filters(&Some(vec![]), &message(None, Some("x"))), None);
}

#[test]
fn discard_rule_matches_the_body() {
    let rules = Some(vec![rule("secret", FilterAction::Discard)]);
    assert_eq!(
        check_filters(&rules, &message(None, Some("this is a secret"))),
        Some(FilterAction::Discard)
    );
    assert_eq!(check_filters(&rules, &message(None, Some("nothing here"))), None);
}

#[test]
fn rules_match_the_title_too() {
    let rules = Some(vec![rule("^Backup", FilterAction::Mute)]);
    assert_eq!(
        check_filters(&rules, &message(Some("Backup done"), Some("ok"))),
        Some(FilterAction::Mute)
    );
    // Without a title the text begins with the space.
    let anchored = Some(vec![rule("^ack", FilterAction::MarkRead)]);
    assert_eq!(check_filters(&anchored, &message(None, Some("ack ok"))), None);
    assert_eq!(
        check_filters(&anchored, &message(Some("ack"), Some("ok"))),
        Some(FilterAction::MarkRead)
    );
}

#[test]
fn first_match_wins() {
    let rules = Some(vec![
        rule("zzz", FilterAction::Discard),
        rule("a+", FilterAction::MarkRead),
        rule("a", FilterAction::Discard),
    ]);
    assert_eq!(check_filters(&rules, &message(None, Some("caab"))), Some(FilterAction::MarkRead));
}

#[test]
fn a_rule_that_does_not_compile_is_passed_over() {
    let rules = Some(vec![rule("foo(bar", FilterAction::Discard), rule("bar", FilterAction::Mute)]);
    assert_eq!(check_filters(&rules, &message(None, Some("foo(bar"))), Some(FilterAction::Mute));
    let only_broken = Some(vec![rule("(", FilterAction::Discard)]);
    assert_eq!(check_filters(&only_broken, &message(None, Some("("))), None);
}

#[test]
fn verdicts_come_from_the_regex_crate() {
    let rules = vec![
        rule("^h.llo$", FilterAction::Mute),
        rule("[", FilterAction::Mute),
        rule("x", FilterAction::Mute),
    ];
    assert_eq!(rule_verdicts(&rules, "hello"), vec![Some(true), None, Some(false)]);
    assert_eq!(rule_verdicts(&rules, "^h.llo$"), vec![Some(false), None, Some(false)]);
}

#[test]
fn select_action_takes_the_first_match() {
    let rules = vec![
        rule("a", FilterAction::Mute),
        rule("b", FilterAction::Discard),
        rule("c", FilterAction::MarkRead),
    ];
    assert_eq!(select_action(&rules, &vec![Some(false), None, Some(true)]), Some(FilterAction::MarkRead));
    assert_eq!(select_action(&rules, &vec![None, Some(true), Some(true)]), Some(FilterAction::Discard));
    assert_eq!(select_action(&rules, &vec![None, Some(false), None]), None);
    assert_eq!(select_action(&rules, &vec![Some(true)]), Some(FilterAction::Mute));
    assert_eq!(select_action(&rules, &vec![]), None);
    assert_eq!(select_action(&vec![], &vec![Some(true)]), None);
}
