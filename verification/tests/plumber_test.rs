use xfiles::message::Message;
use xfiles::plumber::Plumber;

fn msg(sender: &str, path: &str, msg_type: &str) -> Message {
    Message::new(sender.to_string(), path.to_string(), msg_type.to_string())
}

#[test]
fn test_plumber_routes_by_type() {
    let mut plumber = Plumber::new();
    plumber
        .add_rule("ai", "type:llm_request", "/ai/inference", 100, None)
        .unwrap();

    let m = msg("test", "/prompt", "llm_request");
    let dests = plumber.route(&m);
    assert_eq!(dests, vec!["/ai/inference"]);
}

#[test]
fn test_plumber_fallback_to_log() {
    let mut plumber = Plumber::new();
    plumber
        .add_rule("ai", "type:llm_request", "/ai/inference", 100, None)
        .unwrap();

    let m = msg("test", "/prompt", "unknown_type");
    let dests = plumber.route(&m);
    assert_eq!(dests, vec!["/proc/log"]);
}

#[test]
fn test_plumber_priority_order() {
    let mut plumber = Plumber::new();
    plumber
        .add_rule("low", "type:test", "/low", 10, None)
        .unwrap();
    plumber
        .add_rule("high", "type:test", "/high", 100, None)
        .unwrap();

    let rules = plumber.list_rules();
    assert_eq!(rules[0].2, 100); // highest priority first
    assert_eq!(rules[1].2, 10);
}

#[test]
fn invalid_pattern_is_refused_and_rules_stay() {
    let mut plumber = Plumber::new();
    assert!(plumber.add_rule("bad", "(", "/x", 1, None).is_err());
    assert!(plumber.list_rules().is_empty());
}

#[test]
fn every_matching_rule_contributes_in_priority_order() {
    let mut plumber = Plumber::new();
    plumber.add_rule("a", "type:t", "/a", 1, None).unwrap();
    plumber.add_rule("b", "type:t", "/b", 5, None).unwrap();
    plumber.add_rule("c", "type:other", "/c", 9, None).unwrap();
    let m = msg("s", "/p", "t");
    assert_eq!(plumber.route(&m), vec!["/b", "/a"]);
}

#[test]
fn equal_priorities_keep_insertion_order() {
    let mut plumber = Plumber::new();
    plumber.add_rule("first", "type:t", "/first", 3, None).unwrap();
    plumber.add_rule("second", "type:t", "/second", 3, None).unwrap();
    let m = msg("s", "/p", "t");
    assert_eq!(plumber.route(&m), vec!["/first", "/second"]);
}

#[test]
fn header_match_restricts_a_rule() {
    let mut plumber = Plumber::new();
    plumber
        .add_rule("h", "type:t", "/h", 1, Some(vec![("lang".to_string(), "en".to_string())]))
        .unwrap();
    let plain = msg("s", "/p", "t");
    assert_eq!(plumber.route(&plain), vec!["/proc/log"]);
    let tagged = msg("s", "/p", "t").with_header("lang".to_string(), "en".to_string());
    assert_eq!(plumber.route(&tagged), vec!["/h"]);
}
