use chat_client::api::{ChatError, Machine, Role};
use chat_client::session::{checked_temperature, reconcile_turns, InputTurn, Session};

fn turn(content: &str) -> InputTurn {
    InputTurn {
        role: Role::User,
        label: String::new(),
        content: content.to_string(),
        delete: false,
        move_up: false,
        move_down: false,
    }
}

fn contents(turns: &[InputTurn]) -> Vec<String> {
    turns.iter().map(|t| t.content.clone()).collect()
}

fn no_flags(turns: &[InputTurn]) -> bool {
    turns.iter().all(|t| !t.delete && !t.move_up && !t.move_down)
}

#[test]
fn new_session_defaults() {
    let s = Session::new();
    assert_eq!(s.turns.len(), 1);
    assert_eq!(s.turns[0].role, Role::User);
    assert!(s.turns[0].content.is_empty() && s.turns[0].label.is_empty());
    assert!(s.templates.is_empty());
    assert!(s.last_results.is_empty());
    assert_eq!(s.settings.model, Machine::Gpt35Turbo);
    assert_eq!(s.settings.temperature_milli, 1000);
    assert!(s.settings.api_key.is_empty());
}

#[test]
fn delete_keeps_order_of_the_rest() {
    let mut turns = vec![turn("a"), turn("b"), turn("c"), turn("d")];
    turns[1].delete = true;
    turns[3].delete = true;
    let mut templates = Vec::new();
    reconcile_turns(&mut templates, &mut turns);
    assert_eq!(contents(&turns), vec!["a", "c"]);
}

#[test]
fn delete_every_turn() {
    let mut turns = vec![turn("a"), turn("b")];
    turns[0].delete = true;
    turns[1].delete = true;
    let mut templates = Vec::new();
    reconcile_turns(&mut templates, &mut turns);
    assert!(turns.is_empty());
}

#[test]
fn templates_flagged_are_removed() {
    let mut templates = vec![turn("x"), turn("y")];
    templates[0].delete = true;
    let mut turns = vec![turn("a")];
    reconcile_turns(&mut templates, &mut turns);
    assert_eq!(contents(&templates), vec!["y"]);
    assert_eq!(contents(&turns), vec!["a"]);
}

#[test]
fn move_up_of_first_and_down_of_last_do_nothing() {
    let mut turns = vec![turn("a"), turn("b"), turn("c")];
    turns[0].move_up = true;
    turns[2].move_down = true;
    let mut templates = Vec::new();
    reconcile_turns(&mut templates, &mut turns);
    assert_eq!(contents(&turns), vec!["a", "b", "c"]);
    assert!(no_flags(&turns));
}

#[test]
fn move_up_and_down() {
    let mut turns = vec![turn("a"), turn("b"), turn("c")];
    turns[2].move_up = true;
    let mut templates = Vec::new();
    reconcile_turns(&mut templates, &mut turns);
    assert_eq!(contents(&turns), vec!["a", "c", "b"]);
    turns[0].move_down = true;
    reconcile_turns(&mut templates, &mut turns);
    assert_eq!(contents(&turns), vec!["c", "a", "b"]);
    assert!(no_flags(&turns));
}

#[test]
fn simultaneous_moves_interact() {
    // a asks to go down and b to go up: both name the same swap, made twice.
    let mut turns = vec![turn("a"), turn("b"), turn("c")];
    turns[0].move_down = true;
    turns[1].move_up = true;
    let mut templates = Vec::new();
    reconcile_turns(&mut templates, &mut turns);
    assert_eq!(contents(&turns), vec!["a", "b", "c"]);
    // b and c both ask to go up: swaps at 1 then 2.
    turns[1].move_up = true;
    turns[2].move_up = true;
    reconcile_turns(&mut templates, &mut turns);
    assert_eq!(contents(&turns), vec!["b", "c", "a"]);
}

#[test]
fn move_after_delete_uses_new_positions() {
    let mut turns = vec![turn("a"), turn("b"), turn("c")];
    turns[0].delete = true;
    turns[1].move_up = true;
    let mut templates = Vec::new();
    reconcile_turns(&mut templates, &mut turns);
    assert_eq!(contents(&turns), vec!["b", "c"]);
}

#[test]
fn second_pass_changes_nothing() {
    let mut turns = vec![turn("a"), turn("b"), turn("c"), turn("d")];
    turns[0].move_down = true;
    turns[2].delete = true;
    turns[3].move_up = true;
    let mut templates = vec![turn("t")];
    reconcile_turns(&mut templates, &mut turns);
    let once = contents(&turns);
    assert_eq!(once, vec!["b", "d", "a"]);
    reconcile_turns(&mut templates, &mut turns);
    assert_eq!(contents(&turns), once);
    assert_eq!(contents(&templates), vec!["t"]);
}

#[test]
fn session_reconcile() {
    let mut s = Session::new();
    s.add_turn();
    s.turns[0].content = "first".to_string();
    s.turns[1].move_up = true;
    s.reconcile();
    assert_eq!(contents(&s.turns), vec!["", "first"]);
}

#[test]
fn messages_follow_turns() {
    let mut s = Session::new();
    s.turns[0].role = Role::System;
    s.turns[0].label = "rules".to_string();
    s.turns[0].content = "be brief".to_string();
    s.add_turn();
    s.turns[1].content = "hello".to_string();
    s.settings.model = Machine::Gpt4O;
    s.settings.temperature_milli = 250;
    s.settings.api_key = "SECRET-REDACTED".to_string();
    let r = s.prepare_request();
    assert_eq!(r.messages.len(), 2);
    assert_eq!(r.messages[0].role, Role::System);
    assert_eq!(r.messages[0].content, "be brief");
    assert_eq!(r.messages[1].role, Role::User);
    assert_eq!(r.messages[1].content, "hello");
    assert_eq!(r.model, Machine::Gpt4O);
    assert_eq!(r.temperature_milli, 250);
    assert_eq!(r.api_key, "SECRET-REDACTED");
    assert!(!r.body.contains("rules"));
    assert!(r.body.contains(r#""temperature":0.250"#));
}

#[test]
fn empty_turns_still_give_a_request() {
    let mut s = Session::new();
    s.turns.clear();
    let r = s.prepare_request();
    assert!(r.messages.is_empty());
    assert!(r.body.contains(r#""messages":[]"#));
}

#[test]
fn outcome_replaces_results() {
    let mut s = Session::new();
    s.apply_outcome(Ok(vec!["x".to_string(), "y".to_string()]));
    assert_eq!(s.last_results, vec!["x", "y"]);
    s.apply_outcome(Err(ChatError::NotJson("oops".to_string())));
    assert_eq!(s.last_results, vec!["oops"]);
    s.apply_outcome(Ok(Vec::new()));
    assert!(s.last_results.is_empty());
}

#[test]
fn templates_save_and_load() {
    let mut s = Session::new();
    s.turns[0].label = "greet".to_string();
    s.turns[0].content = "hello".to_string();
    s.save_template(0);
    assert_eq!(s.templates.len(), 1);
    assert_eq!(s.templates[0].label, "greet");
    s.load_template(0);
    assert_eq!(contents(&s.turns), vec!["hello", "hello"]);
    assert_eq!(s.turns[1].label, "greet");
}

#[test]
fn api_key_is_trimmed() {
    let mut s = Session::new();
    s.set_api_key("  key-123 \n");
    assert_eq!(s.settings.api_key, "key-123");
}

#[test]
fn stored_temperature_range() {
    assert_eq!(checked_temperature(0), Some(0));
    assert_eq!(checked_temperature(2000), Some(2000));
    assert_eq!(checked_temperature(2001), None);
}

#[test]
fn temperature_reset() {
    let mut s = Session::new();
    s.settings.temperature_milli = 1800;
    s.reset_temperature();
    assert_eq!(s.settings.temperature_milli, 1000);
}

#[test]
fn api_key_trims_unicode_white_space() {
    let mut s = Session::new();
    s.set_api_key("\u{3000}\u{a0}k e y\u{2028}");
    assert_eq!(s.settings.api_key, "k e y");
}
