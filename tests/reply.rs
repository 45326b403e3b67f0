use chat_client::api::ChatError;
use chat_client::json::{render, Json, Member};
use chat_client::reply::{decode_reply, decode_value};

#[test]
fn single_choice_gives_its_text() {
    let r = decode_reply(r#"{"choices":[{"message":{"content":"hi"}}]}"#);
    assert_eq!(r, Ok(vec!["hi".to_string()]));
}

#[test]
fn choices_keep_their_order() {
    let body = r#"{"id":"x","choices":[{"index":0,"message":{"role":"assistant","content":"one"}},{"message":{"content":"two"}}]}"#;
    assert_eq!(decode_reply(body), Ok(vec!["one".to_string(), "two".to_string()]));
}

#[test]
fn empty_choices_give_no_completion() {
    assert_eq!(decode_reply(r#"{"choices":[]}"#), Ok(Vec::new()));
}

#[test]
fn error_member_gives_remote_error() {
    let r = decode_reply(r#"{"error":{"message":"bad key"}}"#);
    match r {
        Err(ChatError::Remote(text)) => {
            assert!(text.contains("bad key"));
            assert_eq!(text, r#"{"error":{"message":"bad key"}}"#);
        }
        other => panic!("unexpected {:?}", other),
    }
}

#[test]
fn error_wins_over_choices() {
    let r = decode_reply(r#"{ "choices": [], "error": {"code": 401} }"#);
    assert_eq!(r, Err(ChatError::Remote(r#"{"choices":[],"error":{"code":401}}"#.to_string())));
}

#[test]
fn text_that_is_not_json_comes_back_verbatim() {
    let r = decode_reply("not json");
    assert_eq!(r, Err(ChatError::NotJson("not json".to_string())));
    assert_eq!(r.unwrap_err().message(), "not json");
}

#[test]
fn missing_choices_is_malformed() {
    assert_eq!(decode_reply("{}"), Err(ChatError::Malformed));
    assert_eq!(decode_reply(r#"{"choices":5}"#), Err(ChatError::Malformed));
    assert_eq!(decode_reply("[1,2]"), Err(ChatError::Malformed));
}

#[test]
fn content_that_is_not_text_is_malformed() {
    assert_eq!(
        decode_reply(r#"{"choices":[{"message":{"content":"a"}},{"message":{"content":3}}]}"#),
        Err(ChatError::Malformed)
    );
    assert_eq!(decode_reply(r#"{"choices":[{"text":"a"}]}"#), Err(ChatError::Malformed));
}

#[test]
fn malformed_has_a_message() {
    assert_eq!(ChatError::Malformed.message(), "the reply holds no list of text choices");
    assert_eq!(ChatError::Transport("down".to_string()).message(), "down");
}

#[test]
fn render_escapes_strings() {
    let j = Json::Object(vec![
        Member { key: "a\"b".to_string(), value: Json::Str("line\nnext".to_string()) },
        Member { key: "n".to_string(), value: Json::Array(vec![Json::Number("1".to_string()), Json::Null, Json::Bool(true)]) },
    ]);
    assert_eq!(render(&j), r#"{"a\"b":"line\nnext","n":[1,null,true]}"#);
}

#[test]
fn remote_error_is_written_compactly() {
    let r = decode_reply("{ \"error\" : { \"code\" : 1.50, \"tags\" : [ null, true ] } }");
    assert_eq!(r, Err(ChatError::Remote(r#"{"error":{"code":1.5,"tags":[null,true]}}"#.to_string())));
}

#[test]
fn decode_value_reads_a_decoded_reply() {
    let choice = Json::Object(vec![Member {
        key: "message".to_string(),
        value: Json::Object(vec![Member { key: "content".to_string(), value: Json::Str("hi".to_string()) }]),
    }]);
    let reply = Json::Object(vec![Member { key: "choices".to_string(), value: Json::Array(vec![choice]) }]);
    assert_eq!(decode_value(&reply), Ok(vec!["hi".to_string()]));
    let err = Json::Object(vec![Member { key: "error".to_string(), value: Json::Str("bad key".to_string()) }]);
    assert_eq!(decode_value(&err), Err(ChatError::Remote(r#"{"error":"bad key"}"#.to_string())));
    assert_eq!(decode_value(&Json::Null), Err(ChatError::Malformed));
}

#[test]
fn control_characters_are_escaped() {
    let j = Json::Str("a\u{1}\u{8}\u{c}\t\r\\/é".to_string());
    assert_eq!(render(&j), "\"a\\u0001\\b\\f\\t\\r\\\\/é\"");
}
