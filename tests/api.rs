use chat_client::api::{parse_temperature, request_body, temperature_string, Machine, Message, Role};

#[test]
fn role_names() {
    assert_eq!(Role::System.to_string(), "system");
    assert_eq!(Role::User.to_string(), "user");
    assert_eq!(Role::default(), Role::User);
}

#[test]
fn machine_names() {
    assert_eq!(Machine::Gpt35Turbo.to_string(), "gpt-3.5-turbo");
    assert_eq!(Machine::Gpt4.to_string(), "gpt-4");
    assert_eq!(Machine::Gpt4Turbo.to_string(), "gpt-4-turbo");
    assert_eq!(Machine::Gpt4O.to_string(), "gpt-4o");
    assert_eq!(Machine::Gpt4OMini.to_string(), "gpt-4o-mini");
    assert_eq!(Machine::GptO1.to_string(), "o1-preview");
    assert_eq!(Machine::GptO1Mini.to_string(), "o1-mini");
    assert_eq!(Machine::Gpt4OMini.label(), "GPT-4O-Mini");
    assert_eq!(Machine::default(), Machine::Gpt35Turbo);
}

#[test]
fn message_constructors() {
    let s = Message::system("rules".to_string());
    assert_eq!(s.role, Role::System);
    assert_eq!(s.content, "rules");
    let u = Message::user("question".to_string());
    assert_eq!(u.role, Role::User);
    assert_eq!(u.content, "question");
}

#[test]
fn temperature_texts() {
    assert_eq!(temperature_string(0), "0.000");
    assert_eq!(temperature_string(700), "0.700");
    assert_eq!(temperature_string(1000), "1.000");
    assert_eq!(temperature_string(1234), "1.234");
    assert_eq!(temperature_string(2000), "2.000");
}

#[test]
fn test_chat() {
    let messages = vec![
        Message { role: Role::System, content: "You are a helpful assistant.".to_string() },
        Message { role: Role::User, content: "What is the meaning of life?".to_string() },
    ];
    let body = request_body(Machine::Gpt4OMini, &messages, 1000);
    assert_eq!(
        body,
        r#"{"frequency_penalty":0.0,"logit_bias":null,"messages":[{"content":"You are a helpful assistant.","role":"system"},{"content":"What is the meaning of life?","role":"user"}],"model":"gpt-4o-mini","n":1,"presence_penalty":0.0,"temperature":1.000,"top_p":1.0}"#
    );
    let v: serde_json::Value = serde_json::from_str(&body).unwrap();
    assert_eq!(v["messages"][1]["content"], "What is the meaning of life?");
    assert_eq!(v["temperature"].as_f64(), Some(1.0));
}

#[test]
fn request_body_escapes_content() {
    let messages = vec![Message::user("say \"hi\"\n".to_string())];
    let body = request_body(Machine::Gpt4, &messages, 700);
    let v: serde_json::Value = serde_json::from_str(&body).unwrap();
    assert_eq!(v["messages"][0]["content"], "say \"hi\"\n");
    assert_eq!(v["messages"][0]["role"], "user");
    assert_eq!(v["model"], "gpt-4");
    assert_eq!(v["n"], 1);
    assert_eq!(v["temperature"].as_f64(), Some(0.7));
}

#[test]
fn temperature_text_reads_back() {
    for milli in [0u32, 1, 7, 70, 700, 999, 1000, 1500, 1999, 2000] {
        assert_eq!(parse_temperature(&temperature_string(milli)), Some(milli));
    }
}

#[test]
fn temperature_text_forms() {
    assert_eq!(parse_temperature("1"), Some(1000));
    assert_eq!(parse_temperature("0.7"), Some(700));
    assert_eq!(parse_temperature("1.25"), Some(1250));
    assert_eq!(parse_temperature("2.001"), None);
    assert_eq!(parse_temperature("3"), None);
    assert_eq!(parse_temperature(""), None);
    assert_eq!(parse_temperature("1."), None);
    assert_eq!(parse_temperature("0.1234"), None);
    assert_eq!(parse_temperature("x.5"), None);
    assert_eq!(parse_temperature("1,5"), None);
}
