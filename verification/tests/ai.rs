use sg_agent::ai::{
    openai_request, reply_from_output, AiErr, ClientBuilder, Request, ResponseFormat,
    ResponseOutputItem, ResponseOutputText,
};

#[test]
fn request_new_defaults() {
    let r = Request::new("hello".to_string());
    assert_eq!(r.input, "hello");
    assert_eq!(r.model, "gpt-5.2");
    assert!(matches!(r.format, ResponseFormat::Text));
    assert!(r.tools.is_empty());
    assert_eq!(r.prev_id, None);
}

#[test]
fn openai_body_uses_fixed_model_and_previous_id() {
    let mut r = Request::new("question".to_string());
    r.model = "other".to_string();
    r.prev_id = Some("resp_9".to_string());
    let body = openai_request(r);
    assert_eq!(body.model, "gpt-5.2");
    assert_eq!(body.input, "question");
    assert_eq!(body.previous_response_id, Some("resp_9".to_string()));
}

fn message(content: Vec<ResponseOutputText>) -> ResponseOutputItem {
    ResponseOutputItem::ResponseOutputMessage {
        id: "msg".to_string(),
        content,
        role: "assistant".to_string(),
        status: "completed".to_string(),
    }
}

#[test]
fn reply_takes_first_text() {
    let out = vec![message(vec![
        ResponseOutputText::OutputText { text: "answer".to_string() },
        ResponseOutputText::Refusal { refusal: "no".to_string() },
    ])];
    let r = reply_from_output("resp_1".to_string(), &out).unwrap();
    assert_eq!(r.id, "resp_1");
    assert_eq!(r.content, "answer");
}

#[test]
fn reply_takes_refusal() {
    let out = vec![message(vec![ResponseOutputText::Refusal { refusal: "no".to_string() }])];
    let r = reply_from_output("resp_2".to_string(), &out).unwrap();
    assert_eq!(r.content, "no");
}

#[test]
fn reply_errors() {
    let out = vec![message(vec![])];
    assert!(matches!(reply_from_output("x".to_string(), &out), Err(AiErr::Custom(m)) if m == "failed to parse"));
    let out = vec![ResponseOutputItem::ResponseFunctionToolCall {}, message(vec![])];
    assert!(matches!(reply_from_output("x".to_string(), &out), Err(AiErr::Custom(m)) if m == "Custom"));
    let out = vec![ResponseOutputItem::ResponseFileSearchToolCall {}];
    assert!(matches!(reply_from_output("x".to_string(), &out), Err(AiErr::Custom(m)) if m == "Custom"));
}

#[test]
fn openai_client_errors() {
    assert!(matches!(ClientBuilder::openai(None), Err(AiErr::MissingKey)));
    assert!(matches!(ClientBuilder::openai(Some("bad\nkey".to_string())), Err(AiErr::HeaderErr)));
    assert!(matches!(ClientBuilder::openai(Some("del\u{7f}".to_string())), Err(AiErr::HeaderErr)));
}

#[test]
fn openai_client_keeps_key() {
    match ClientBuilder::openai(Some("sk-test\tkey-é".to_string())) {
        Ok(c) => {
            assert_eq!(c.key, "sk-test\tkey-é");
            assert_eq!(c.http_client.auth(), "Bearer sk-test\tkey-é");
            assert!(c.http_client.auth_sensitive());
        },
        Err(e) => panic!("a valid key must give a client, got {:?}", e),
    }
}
