use clawbot_web::wechat::{
    extract_msg_content, find_context_token, inbound_line, message_to_response, poll_error,
    send_error, InboundMessage, InboundMessageItem, PollError, SendOutcome, TextItem,
};

fn item(kind: i64, text: Option<&str>, body: Option<&str>) -> InboundMessageItem {
    InboundMessageItem {
        item_type: kind,
        text_item: text.map(|t| TextItem { text: t.to_string() }),
        body: body.map(|b| b.to_string()),
    }
}

fn msg(from: &str, to: &str, token: &str, items: Vec<InboundMessageItem>) -> InboundMessage {
    InboundMessage {
        from_user_id: from.to_string(),
        to_user_id: to.to_string(),
        context_token: token.to_string(),
        item_list: items,
    }
}

fn content(items: Vec<InboundMessageItem>) -> (String, String) {
    extract_msg_content(&msg("a", "b", "", items))
}

#[test]
fn content_is_that_of_the_first_known_item() {
    let pair = |a: &str, b: &str| (a.to_string(), b.to_string());
    assert_eq!(content(vec![]), pair("", "text"));
    assert_eq!(content(vec![item(3, Some("x"), None)]), pair("", "text"));
    assert_eq!(content(vec![item(1, Some("x"), Some("y"))]), pair("x", "text"));
    assert_eq!(content(vec![item(1, None, Some("y"))]), pair("y", "text"));
    assert_eq!(content(vec![item(1, None, None)]), pair("", "text"));
    assert_eq!(content(vec![item(2, Some("x"), None), item(1, Some("y"), None)]), pair("", "image"));
    assert_eq!(content(vec![item(9, None, None), item(4, None, None)]), pair("", "file"));
}

#[test]
fn token_has_to_come_from_the_user() {
    let all = vec![
        msg("x", "bot", "t0", vec![]),
        msg("u", "bot", "", vec![]),
        msg("u", "", "t1", vec![]),
        msg("u", "bot", "t2", vec![]),
        msg("u", "bot", "t3", vec![]),
    ];
    assert_eq!(find_context_token(&all, "u"), Some("t2".to_string()));
    assert_eq!(find_context_token(&all, "x"), Some("t0".to_string()));
    assert_eq!(find_context_token(&all, "y"), None);
}

#[test]
fn response_shows_the_last_text() {
    let r = message_to_response(&msg(
        "u",
        "bot",
        "tok",
        vec![item(1, Some("a"), None), item(2, None, None), item(1, None, Some("b")), item(7, None, None)],
    ));
    assert_eq!(r.from_user_id, "u");
    assert_eq!(r.text, Some("b".to_string()));
    assert!(r.image);
    assert!(!r.file);
    assert_eq!(r.context_token, "tok");
    let r = message_to_response(&msg("u", "bot", "", vec![item(4, None, None)]));
    assert_eq!(r.text, None);
    assert!(!r.image && r.file);
    let r = message_to_response(&msg("u", "bot", "", vec![item(1, None, None)]));
    assert_eq!(r.text, Some(String::new()));
}

#[test]
fn lines_for_items() {
    assert_eq!(inbound_line(&item(1, Some("hi"), Some("no"))), "[them] hi");
    assert_eq!(inbound_line(&item(1, None, Some("yes"))), "[them] yes");
    assert_eq!(inbound_line(&item(1, None, None)), "[them] [text]");
    assert_eq!(inbound_line(&item(2, None, None)), "[them] [image]");
    assert_eq!(inbound_line(&item(4, None, None)), "[them] [file]");
    assert_eq!(inbound_line(&item(3, Some("v"), None)), "[them] [unknown type: 3]");
    assert_eq!(inbound_line(&item(-1, None, None)), "[them] [unknown type: -1]");
}

#[test]
fn failures_are_told_apart() {
    let text = || "e".to_string();
    assert!(matches!(poll_error(true, true, text()), PollError::SessionExpired(e) if e == "e"));
    assert!(matches!(poll_error(true, false, text()), PollError::SessionExpired(_)));
    assert!(matches!(poll_error(false, true, text()), PollError::Timeout(e) if e == "e"));
    assert!(matches!(poll_error(false, false, text()), PollError::Other(e) if e == "e"));
    assert!(matches!(send_error(true, text()), SendOutcome::InvalidToken(e) if e == "e"));
    assert!(matches!(send_error(false, text()), SendOutcome::Failed(e) if e == "e"));
}
