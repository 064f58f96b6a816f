use clawbot_web::db::{self, Db};
use clawbot_web::webhook::{
    after_attempt, after_poll, begin_send, get_context_token_from_db_or_poll, handle_health,
    handle_messages, handle_send, kind_from_type, media_kind, prepare_media, restore_cursor, sent_message, start_lines, Attempt, MediaKind,
    Outgoing, Step,
};
use clawbot_web::wechat::{Account, InboundMessage, PollError, SendOutcome, Updates};

fn account() -> Account {
    Account { user_id: "w".to_string(), bot_token: "bot".to_string(), route_tag: Some("r".to_string()) }
}

fn message(from: &str, token: &str) -> InboundMessage {
    InboundMessage {
        from_user_id: from.to_string(),
        to_user_id: "bot".to_string(),
        context_token: token.to_string(),
        item_list: Vec::new(),
    }
}

fn updates(buf: Option<&str>, messages: Vec<InboundMessage>) -> Updates {
    Updates { get_updates_buf: buf.map(|b| b.to_string()), messages }
}

fn on_record(token: &str, cursor: &str) -> Db {
    let mut d = Db::new();
    db::save_context_token(&mut d, "w", "bot", None, token).unwrap();
    db::save_updates_buf(&mut d, "w", cursor).unwrap();
    d
}

fn failure(s: Step) -> String {
    match s {
        Step::Failed(e) => e,
        other => panic!("{other:?}"),
    }
}

#[test]
fn health_is_fine() {
    let r = handle_health();
    assert!(r.success && r.messages.is_none());
    assert_eq!(r.message, "ok");
}

#[test]
fn cursor_is_restored() {
    assert_eq!(restore_cursor(&Db::new(), "w"), None);
    assert_eq!(restore_cursor(&on_record("", ""), "w"), Some(String::new()));
    assert_eq!(restore_cursor(&on_record("", "c"), "w"), Some("c".to_string()));
    assert_eq!(start_lines("w", true), ["restored session from database for `w`"]);
    assert_eq!(
        start_lines("w", false),
        [
            "no saved session for `w`; the user must send a message first to activate",
            "use `GET /webhook/messages` to poll; the first poll will activate the session",
        ]
    );
}

#[test]
fn poll_is_answered_and_saved() {
    let mut d = on_record("", "c0");
    let mut buf = "c0".to_string();
    let u = updates(Some("c1"), vec![message("a", "t1"), message("b", ""), message("c", "t2")]);
    let r = handle_messages(&mut d, &account(), &mut buf, Ok(u)).unwrap();
    assert_eq!(r.message, "3 messages");
    let shown = r.messages.unwrap();
    assert_eq!(shown[2].from_user_id, "c");
    assert_eq!(shown[0].context_token, "t1");
    assert_eq!(buf, "c1");
    let s = db::load_session(&d, "w").unwrap().unwrap();
    assert_eq!(s.updates_buf, "c1");
    assert_eq!(s.context_token, "t2");
    assert_eq!(s.route_tag, Some("r".to_string()));
    let r = handle_messages(&mut d, &account(), &mut buf, Ok(updates(None, vec![]))).unwrap();
    assert_eq!(r.message, "0 messages");
    assert_eq!(buf, "c1");
}

#[test]
fn failed_polls_have_their_status() {
    let mut d = Db::new();
    let mut buf = "c".to_string();
    let mut fail = |e: PollError| {
        let e = handle_messages(&mut d, &account(), &mut buf, Err(e)).unwrap_err();
        assert!(!e.body.success && e.body.messages.is_none());
        (e.status, e.body.message)
    };
    assert_eq!(fail(PollError::SessionExpired("x".to_string())), (401, "session expired: x".to_string()));
    assert_eq!(fail(PollError::Timeout("y".to_string())), (502, "y".to_string()));
    assert_eq!(fail(PollError::Other("z".to_string())), (502, "z".to_string()));
    assert_eq!(buf, "c");
}

#[test]
fn send_results_are_answered() {
    assert_eq!(handle_send(Ok("done".to_string())).unwrap().message, "done");
    let e = handle_send(Err("bad".to_string())).unwrap_err();
    assert_eq!((e.status, e.body.message.as_str()), (400, "bad"));
}

#[test]
fn images_are_told_from_files() {
    assert_eq!(media_kind("/tmp/a.png"), MediaKind::Image);
    assert_eq!(media_kind("a.JPG"), MediaKind::Image);
    assert_eq!(media_kind("a.txt"), MediaKind::File);
    assert_eq!(media_kind("a.mp4"), MediaKind::File);
    assert_eq!(media_kind("png"), MediaKind::File);
    assert_eq!(kind_from_type(&Some("image".to_string())), MediaKind::Image);
    assert_eq!(kind_from_type(&Some("text".to_string())), MediaKind::File);
    assert_eq!(kind_from_type(&None), MediaKind::File);
}

#[test]
fn file_has_to_exist() {
    assert_eq!(prepare_media("a.png", false).unwrap_err(), "file `a.png` does not exist");
    match prepare_media("a.png", true) {
        Ok(Outgoing::Media { kind, path }) => {
            assert_eq!(kind, MediaKind::Image);
            assert_eq!(path, "a.png");
        }
        other => panic!("{other:?}"),
    }
}

#[test]
fn success_is_told() {
    assert_eq!(sent_message("w", &Outgoing::Text), "sent text message to `w`");
    let image = Outgoing::Media { kind: MediaKind::Image, path: "p.png".to_string() };
    assert_eq!(sent_message("w", &image), "sent image `p.png` to `w`");
    let file = Outgoing::Media { kind: MediaKind::File, path: "p".to_string() };
    assert_eq!(sent_message("w", &file), "sent file `p` to `w`");
}

#[test]
fn sending_begins_with_the_token_on_record() {
    assert!(matches!(begin_send(&on_record("t", ""), "w"), Step::Try { token, .. } if token == "t"));
    assert!(matches!(begin_send(&on_record("", ""), "w"), Step::Poll));
    assert!(matches!(begin_send(&Db::failed("x".to_string()), "w"), Step::Poll));
}

#[test]
fn stale_token_leads_to_a_poll_once() {
    let stale = || Attempt::Send(SendOutcome::InvalidToken("old".to_string()));
    assert!(matches!(after_attempt("w", &Outgoing::Text, false, stale()), Step::Poll));
    assert_eq!(failure(after_attempt("w", &Outgoing::Text, true, stale())), "old");
    let sent = || Attempt::Send(SendOutcome::Sent);
    let note = "sent text message to `w`";
    assert!(matches!(after_attempt("w", &Outgoing::Text, false, sent()), Step::Sent(m) if m == note));
    assert!(matches!(after_attempt("w", &Outgoing::Text, true, sent()), Step::Sent(m) if m == note));
    for a in [
        Attempt::UploadFailed("no".to_string()),
        Attempt::Send(SendOutcome::Failed("no".to_string())),
    ] {
        assert_eq!(failure(after_attempt("w", &Outgoing::Text, false, a)), "no");
    }
    let a = Attempt::UploadFailed("up".to_string());
    assert_eq!(failure(after_attempt("w", &Outgoing::Text, true, a)), "up");
}

#[test]
fn fresh_token_goes_on_record() {
    let mut d = on_record("old", "c0");
    let p = Ok(updates(Some("c1"), vec![message("w", "fresh")]));
    assert!(matches!(after_poll(&mut d, &account(), &p), Step::Try { token, .. } if token == "fresh"));
    let s = db::load_session(&d, "w").unwrap().unwrap();
    assert_eq!((s.context_token.as_str(), s.updates_buf.as_str()), ("fresh", "c1"));
    assert!(matches!(begin_send(&d, "w"), Step::Try { token, .. } if token == "fresh"));
}

#[test]
fn poll_without_a_token_saves_nothing() {
    let mut d = on_record("old", "c0");
    let p = Ok(updates(Some("c1"), vec![message("x", "fresh")]));
    let t = get_context_token_from_db_or_poll(&mut d, &account(), &p);
    assert_eq!(t, Some("old".to_string()));
    assert_eq!(db::load_session(&d, "w").unwrap().unwrap().updates_buf, "c0");
    let t = get_context_token_from_db_or_poll(&mut d, &account(), &Err("down".to_string()));
    assert_eq!(t, Some("old".to_string()));
    let mut d = Db::new();
    let s = after_poll(&mut d, &account(), &Err("down".to_string()));
    assert_eq!(failure(s), "no context token for `w`; the user must send a message first");
    assert!(d.sessions.is_empty());
}
