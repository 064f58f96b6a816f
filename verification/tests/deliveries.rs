use clawbot_web::db::{self, Db};
use clawbot_web::delivery::{
    absorb_updates, after_poll, after_send, background_cursor, begin_send, make_job, poll_context_token,
    receive_message, session_account, Cursors, Delivery, PollLocks,
    SendJob, SendStep, MAX_CONCURRENT_POLLS,
};
use clawbot_web::wechat::{InboundMessage, InboundMessageItem, SendOutcome, TextItem, Updates};

fn tables() -> Db {
    let mut d = Db::new();
    db::save_context_token(&mut d, "w", "bot", Some("ann"), "").unwrap();
    d
}

fn job() -> SendJob {
    make_job(&db::load_session(&tables(), "w").unwrap().unwrap(), "hi")
}

fn message(from: &str, token: &str, text: &str) -> InboundMessage {
    InboundMessage {
        from_user_id: from.to_string(),
        to_user_id: "bot".to_string(),
        context_token: token.to_string(),
        item_list: vec![InboundMessageItem {
            item_type: 1,
            text_item: Some(TextItem { text: text.to_string() }),
            body: None,
        }],
    }
}

fn polled(buf: Option<&str>, messages: Vec<InboundMessage>) -> Result<Updates, String> {
    Ok(Updates { get_updates_buf: buf.map(|b| b.to_string()), messages })
}

fn cursor(step: SendStep) -> Option<String> {
    match step {
        SendStep::Poll(c) => c,
        other => panic!("{other:?}"),
    }
}

#[test]
fn job_carries_the_account() {
    let j = job();
    assert_eq!(j.user_id, "w");
    assert_eq!(j.bot_token, "bot");
    assert_eq!(j.route_tag, Some("ann".to_string()));
    assert_eq!(j.text, "hi");
}

#[test]
fn token_on_record_is_tried_first() {
    let mut d = tables();
    let c = Cursors::new();
    assert_eq!(cursor(begin_send(&d, &c, &job())), None);
    db::save_context_token(&mut d, "w", "bot", Some("ann"), "tok").unwrap();
    let step = begin_send(&d, &c, &job());
    assert!(matches!(step, SendStep::Send { token, polled: false } if token == "tok"));
}

#[test]
fn cursor_in_memory_comes_before_the_saved_one() {
    let mut d = tables();
    let mut c = Cursors::new();
    db::save_updates_buf(&mut d, "w", "saved").unwrap();
    assert_eq!(cursor(begin_send(&d, &c, &job())), Some("saved".to_string()));
    let s = db::load_session(&d, "w").unwrap().unwrap();
    assert_eq!(background_cursor(&c, &s), Some("saved".to_string()));
    c.insert("w".to_string(), "held".to_string());
    assert_eq!(cursor(begin_send(&d, &c, &job())), Some("held".to_string()));
    assert_eq!(background_cursor(&c, &s), Some("held".to_string()));
}

#[test]
fn sent_text_is_recorded() {
    let mut d = tables();
    let c = Cursors::new();
    let step = after_send(&mut d, &c, &job(), false, SendOutcome::Sent);
    assert!(matches!(step, SendStep::Done(Delivery::Sent)));
    assert_eq!(d.messages.len(), 1);
    let m = &d.messages[0];
    assert_eq!(m.wechat_user_id, "w");
    assert_eq!(m.direction, "send");
    assert_eq!(m.content, "hi");
    assert_eq!(m.msg_type, "text");
    assert_eq!(m.raw_json, "");
    let step = after_send(&mut d, &c, &job(), true, SendOutcome::Sent);
    assert!(matches!(step, SendStep::Done(Delivery::Sent)));
    assert_eq!(d.messages.len(), 2);
}

#[test]
fn failed_text_is_not_recorded() {
    let mut d = tables();
    let c = Cursors::new();
    let step = after_send(&mut d, &c, &job(), false, SendOutcome::Failed("no".to_string()));
    assert!(matches!(step, SendStep::Done(Delivery::Failed(e)) if e == "no"));
    let step = after_send(&mut d, &c, &job(), false, SendOutcome::InvalidToken("old".to_string()));
    assert_eq!(cursor(step), None);
    let stale = SendOutcome::InvalidToken("old".to_string());
    let step = after_send(&mut d, &c, &job(), true, stale);
    assert!(matches!(step, SendStep::Done(Delivery::Failed(e)) if e == "old"));
    let step = after_send(&mut d, &c, &job(), true, SendOutcome::Failed("no".to_string()));
    assert!(matches!(step, SendStep::Done(Delivery::Failed(e)) if e == "no"));
    assert!(d.messages.is_empty());
}

#[test]
fn polled_token_is_saved_and_used() {
    let mut d = tables();
    let mut c = Cursors::new();
    let p = polled(Some("next"), vec![message("x", "t0", "a"), message("w", "t1", "b")]);
    let step = after_poll(&mut d, &mut c, &job(), &p);
    assert!(matches!(step, SendStep::Send { token, polled: true } if token == "t1"));
    let s = db::load_session(&d, "w").unwrap().unwrap();
    assert_eq!(s.context_token, "t1");
    assert_eq!(s.updates_buf, "next");
    assert_eq!(c.get("w"), Some(&"next".to_string()));
    assert!(matches!(begin_send(&d, &c, &job()), SendStep::Send { token, .. } if token == "t1"));
    assert!(d.messages.is_empty());
}

#[test]
fn token_on_record_helps_out() {
    let mut d = tables();
    let mut c = Cursors::new();
    db::save_context_token(&mut d, "w", "bot", Some("ann"), "old").unwrap();
    let step = after_poll(&mut d, &mut c, &job(), &polled(Some("next"), vec![]));
    assert!(matches!(step, SendStep::Send { token, .. } if token == "old"));
    assert_eq!(c.get("w"), Some(&"next".to_string()));
    let step = after_poll(&mut d, &mut c, &job(), &Err("down".to_string()));
    assert!(matches!(step, SendStep::Send { token, .. } if token == "old"));
}

#[test]
fn without_a_token_nothing_is_saved() {
    let mut d = tables();
    let mut c = Cursors::new();
    let step = after_poll(&mut d, &mut c, &job(), &polled(Some("next"), vec![message("x", "t", "a")]));
    assert!(matches!(step, SendStep::Done(Delivery::NoToken)));
    assert_eq!(c.len(), 0);
    assert_eq!(db::load_session(&d, "w").unwrap().unwrap().updates_buf, "");
}

#[test]
fn poll_gives_token_and_cursor() {
    let p = polled(Some("n"), vec![message("w", "t", "a")]);
    assert_eq!(poll_context_token(&p, "w"), (Some("t".to_string()), Some("n".to_string())));
    assert_eq!(poll_context_token(&p, "v"), (None, Some("n".to_string())));
    assert_eq!(poll_context_token(&Err("e".to_string()), "w"), (None, None));
}

#[test]
fn background_poll_records_every_message() {
    let mut d = tables();
    let mut c = Cursors::new();
    let s = db::load_session(&d, "w").unwrap().unwrap();
    let u = polled(Some("n1"), vec![message("w", "t1", "a"), message("w", "", "b")]).unwrap();
    let raws = vec!["{1}".to_string(), "{2}".to_string()];
    absorb_updates(&mut d, &mut c, &session_account(&s), &u, &raws);
    assert_eq!(c.get("w"), Some(&"n1".to_string()));
    assert_eq!(d.messages.len(), 2);
    assert_eq!(d.messages[0].content, "a");
    assert_eq!(d.messages[0].raw_json, "{1}");
    assert_eq!(d.messages[1].content, "b");
    assert_eq!(d.messages[1].direction, "receive");
    let s = db::load_session(&d, "w").unwrap().unwrap();
    assert_eq!(s.context_token, "t1");
    assert_eq!(s.updates_buf, "n1");
    assert_eq!(s.route_tag, Some("ann".to_string()));
}

#[test]
fn message_is_recorded_at_the_given_time() {
    let mut d = tables();
    let s = db::load_session(&d, "w").unwrap().unwrap();
    let m = InboundMessage {
        item_list: vec![InboundMessageItem { item_type: 4, text_item: None, body: None }],
        ..message("w", "", "")
    };
    receive_message(&mut d, &session_account(&s), &m, "raw", "noon");
    assert_eq!(d.messages[0].created_at, "noon");
    assert_eq!(d.messages[0].msg_type, "file");
    assert_eq!(d.messages[0].content, "");
    assert_eq!(db::load_session(&d, "w").unwrap().unwrap().context_token, "");
}

#[test]
fn every_account_has_its_own_lock() {
    let mut l = PollLocks::new();
    assert_eq!(l.get_poll_lock("a"), 0);
    assert_eq!(l.get_poll_lock("b"), 1);
    assert_eq!(l.get_poll_lock("a"), 0);
    assert_eq!(l.get_poll_lock("c"), 2);
    assert_eq!(l.get_poll_lock("b"), 1);
    assert_eq!(MAX_CONCURRENT_POLLS, 20);
}
