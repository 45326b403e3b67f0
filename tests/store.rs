use chat_client::api::{Machine, Role};
use chat_client::session::InputTurn;
use chat_client::store::{load_model, load_results, load_turns, save_model, save_results, save_turns, turns_from_json, turns_to_json};

fn turn(role: Role, label: &str, content: &str) -> InputTurn {
    InputTurn {
        role,
        label: label.to_string(),
        content: content.to_string(),
        delete: false,
        move_up: true,
        move_down: false,
    }
}

#[test]
fn turns_are_stored_in_the_established_form() {
    let turns = vec![turn(Role::System, "rules", "be \"brief\""), turn(Role::User, "", "hi\n")];
    assert_eq!(
        save_turns(&turns),
        r#"[{"role":"System","save_name":"rules","text":"be \"brief\""},{"role":"User","save_name":"","text":"hi\n"}]"#
    );
}

#[test]
fn turns_round_trip() {
    let turns = vec![turn(Role::System, "rules", "be \"brief\""), turn(Role::User, "", ""), turn(Role::User, "ünï", "ç")];
    let back = load_turns(&save_turns(&turns)).unwrap();
    assert_eq!(back.len(), 3);
    for (a, b) in turns.iter().zip(back.iter()) {
        assert_eq!(a.role, b.role);
        assert_eq!(a.label, b.label);
        assert_eq!(a.content, b.content);
        assert!(!b.delete && !b.move_up && !b.move_down);
    }
    let again = turns_from_json(&turns_to_json(&back)).unwrap();
    assert_eq!(again.len(), 3);
    assert!(load_turns("[]").unwrap().is_empty());
}

#[test]
fn turns_stored_by_other_writers_are_read() {
    let back = load_turns(r#"[ {"text": "t", "role": "User", "save_name": "n", "extra": 1} ]"#).unwrap();
    assert_eq!(back.len(), 1);
    assert_eq!(back[0].content, "t");
    assert_eq!(back[0].label, "n");
}

#[test]
fn bad_stored_turns_are_refused() {
    assert!(load_turns("not json").is_none());
    assert!(load_turns("{}").is_none());
    assert!(load_turns(r#"[{"role":"Robot","save_name":"","text":""}]"#).is_none());
    assert!(load_turns(r#"[{"role":"User","text":""}]"#).is_none());
}

#[test]
fn results_round_trip() {
    let results = vec!["one".to_string(), "two \"q\"".to_string()];
    let text = save_results(&results);
    assert_eq!(text, r#"["one","two \"q\""]"#);
    assert_eq!(load_results(&text), Some(results));
    assert_eq!(save_results(&Vec::new()), "[]");
    assert_eq!(load_results("[1]"), None);
    assert_eq!(load_results("x"), None);
}

#[test]
fn model_round_trip() {
    for m in [Machine::Gpt35Turbo, Machine::Gpt4, Machine::Gpt4Turbo, Machine::Gpt4O, Machine::Gpt4OMini, Machine::GptO1, Machine::GptO1Mini] {
        assert_eq!(load_model(&save_model(m)), Some(m));
    }
    assert_eq!(save_model(Machine::Gpt4OMini), "\"Gpt4OMini\"");
    assert_eq!(load_model("\"Gpt5\""), None);
    assert_eq!(load_model("Gpt4"), None);
}

#[test]
fn flags_are_not_stored() {
    let plain = vec![turn(Role::User, "l", "c")];
    let mut flagged = vec![turn(Role::User, "l", "c")];
    flagged[0].delete = true;
    flagged[0].move_down = true;
    assert_eq!(save_turns(&plain), save_turns(&flagged));
    assert_eq!(save_turns(&plain), r#"[{"role":"User","save_name":"l","text":"c"}]"#);
    assert_eq!(save_turns(&Vec::new()), "[]");
}
