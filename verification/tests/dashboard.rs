use clawbot_web::db::{self, Db};
use clawbot_web::delivery::Delivery;
use clawbot_web::reply::{Data, ErrorReply};
use clawbot_web::serve::{
    begin_broadcast, begin_messages, begin_send_msg, begin_webhook_messages, begin_webhook_send,
    broadcast_result, find_own_account, finish_broadcast, finish_messages, finish_send_msg,
    finish_webhook_messages, finish_webhook_send, handle_admin_messages, handle_admin_users,
    handle_bind_qrcode, handle_bind_status, handle_me, total_pages, PageRequest, QrCode, QrStatus,
    SendMsgRequest,
};

const ANN: Option<&str> = Some("Bearer tann");
const BOB: Option<&str> = Some("Bearer tbob");

fn tables() -> Db {
    let mut d = Db::new();
    db::insert_user(&mut d, "ann", "x", "then").unwrap();
    db::insert_user(&mut d, "bob", "x", "then").unwrap();
    db::insert_auth_token(&mut d, "tann", 1, "then").unwrap();
    db::insert_auth_token(&mut d, "tbob", 2, "then").unwrap();
    db::save_context_token(&mut d, "w0", "bot0", None, "").unwrap();
    db::save_context_token(&mut d, "w1", "bot1", Some("bob"), "").unwrap();
    db::save_context_token(&mut d, "w2", "bot2", Some("bob"), "").unwrap();
    d
}

fn told(e: ErrorReply) -> (u16, String) {
    assert!(!e.body.success);
    (e.status, e.body.message)
}

fn text(t: Option<&str>) -> SendMsgRequest {
    SendMsgRequest { text: t.map(|s| s.to_string()) }
}

fn status(status: &str, bot: Option<&str>, user: Option<&str>) -> Result<QrStatus, String> {
    Ok(QrStatus {
        status: status.to_string(),
        bot_token: bot.map(|s| s.to_string()),
        ilink_user_id: user.map(|s| s.to_string()),
    })
}

#[test]
fn profile_shows_the_bound_account() {
    let d = tables();
    let r = handle_me(&d, BOB).unwrap();
    assert_eq!(r.message, "ok");
    let p = match r.data {
        Some(Data::Profile(p)) => p,
        other => panic!("{other:?}"),
    };
    assert_eq!((p.username.as_str(), p.role.as_str()), ("bob", "user"));
    assert!(p.wechat_bound);
    assert_eq!(p.wechat_user_id, Some("w1".to_string()));
    assert_eq!(p.webhook_url, Some("/webhook/w1/send".to_string()));
    let u = p.webhook_usage.unwrap();
    assert_eq!(
        u.curl,
        "curl -X POST http://<host>:<port>/webhook/w1/send -H 'Content-Type: application/json' -d '{\"text\":\"hello\"}'"
    );
    assert_eq!(
        u.python,
        "import requests\nr = requests.post(\"http://<host>:<port>/webhook/w1/send\", json={\"text\":\"hello\"})\nprint(r.json())"
    );
    assert_eq!(
        u.rust,
        "let resp = client.post(format!(\"http://<host>:<port>/webhook/w1/send\", user_id)).json(&serde_json::json!({\"text\":\"hello\"})).send().await?;"
    );
}

#[test]
fn profile_without_an_account() {
    let d = tables();
    match handle_me(&d, ANN).unwrap().data {
        Some(Data::Profile(p)) => {
            assert!(!p.wechat_bound);
            assert_eq!(p.wechat_user_id, None);
            assert_eq!(p.webhook_url, None);
            assert!(p.webhook_usage.is_none());
        }
        other => panic!("{other:?}"),
    }
    assert_eq!(handle_me(&d, None).unwrap_err().status, 401);
}

#[test]
fn qr_code_is_handed_on() {
    let code = QrCode { qrcode_id: Some("q".to_string()), qrcode_url: None };
    let r = handle_bind_qrcode(Ok(code)).unwrap();
    assert_eq!(r.message, "qr code fetched");
    match r.data {
        Some(Data::QrCode { qrcode_id, qrcode_url }) => {
            assert_eq!((qrcode_id.as_str(), qrcode_url.as_str()), ("q", ""));
        }
        other => panic!("{other:?}"),
    }
    let e = handle_bind_qrcode(Err("down".to_string())).unwrap_err();
    assert_eq!(told(e), (502, "down".to_string()));
}

#[test]
fn confirmed_code_binds_the_account() {
    let mut d = tables();
    let ann = db::get_user_by_username(&d, "ann").unwrap().unwrap();
    db::save_context_token(&mut d, "w9", "older", None, "tok").unwrap();
    db::save_updates_buf(&mut d, "w9", "cur").unwrap();
    let r = handle_bind_status(&mut d, &ann, status("confirmed", Some("bot9"), Some("w9"))).unwrap();
    assert_eq!(r.message, "WeChat account bound successfully");
    assert!(matches!(r.data, Some(Data::Bound { wechat_user_id }) if wechat_user_id == "w9"));
    let s = db::load_session(&d, "w9").unwrap().unwrap();
    assert_eq!(s.bot_token, "bot9");
    assert_eq!(s.route_tag, Some("ann".to_string()));
    assert_eq!((s.context_token.as_str(), s.updates_buf.as_str()), ("", ""));
    assert_eq!(find_own_account(&d, ANN, "none").unwrap().user_id, "w9");
}

#[test]
fn unfinished_binding_changes_nothing() {
    let mut d = tables();
    let ann = db::get_user_by_username(&d, "ann").unwrap().unwrap();
    let r = handle_bind_status(&mut d, &ann, status("scanned", Some("b"), Some("w"))).unwrap();
    assert_eq!(r.message, "polling");
    assert!(matches!(r.data, Some(Data::Status { status }) if status == "scanned"));
    let incomplete = (502, "incomplete bind data from server".to_string());
    let r = handle_bind_status(&mut d, &ann, status("confirmed", None, Some("w")));
    assert_eq!(told(r.unwrap_err()), incomplete);
    let r = handle_bind_status(&mut d, &ann, status("confirmed", Some("b"), Some("")));
    assert_eq!(told(r.unwrap_err()), incomplete);
    let r = handle_bind_status(&mut d, &ann, Err("down".to_string()));
    assert_eq!(told(r.unwrap_err()), (502, "down".to_string()));
    assert_eq!(d.sessions.len(), 3);
}

#[test]
fn sending_to_the_own_account() {
    let d = tables();
    let j = begin_send_msg(&d, BOB, &text(Some("hi"))).unwrap();
    assert_eq!((j.user_id.as_str(), j.bot_token.as_str(), j.text.as_str()), ("w1", "bot1", "hi"));
    assert_eq!(begin_send_msg(&d, BOB, &text(None)).unwrap().text, "");
    let e = begin_send_msg(&d, ANN, &text(Some("hi"))).unwrap_err();
    assert_eq!(told(e), (400, "no WeChat account bound; scan a QR code first".to_string()));
    assert_eq!(begin_send_msg(&d, None, &text(None)).unwrap_err().status, 401);
    assert_eq!(finish_send_msg(Delivery::Sent).unwrap().message, "message sent");
    assert_eq!(
        told(finish_send_msg(Delivery::NoToken).unwrap_err()),
        (502, "no context token; the other user must send a message first".to_string())
    );
    assert_eq!(
        told(finish_send_msg(Delivery::Failed("e".to_string())).unwrap_err()),
        (502, "e".to_string())
    );
}

#[test]
fn sending_through_the_webhook() {
    let d = tables();
    let j = begin_webhook_send(&d, "w0", &text(Some("hi"))).unwrap();
    assert_eq!(j.route_tag, None);
    let e = begin_webhook_send(&d, "w7", &text(Some("hi"))).unwrap_err();
    assert_eq!(told(e), (404, "unknown wechat user".to_string()));
    let broken = Db::failed("x".to_string());
    assert_eq!(begin_webhook_send(&broken, "w0", &text(None)).unwrap_err().status, 404);
    assert_eq!(finish_webhook_send("w0", Delivery::Sent).unwrap().message, "message sent via webhook");
    assert_eq!(
        told(finish_webhook_send("w0", Delivery::NoToken).unwrap_err()),
        (502, "no context token for `w0`".to_string())
    );
    assert_eq!(
        told(finish_webhook_send("w0", Delivery::Failed("e".to_string())).unwrap_err()),
        (502, "e".to_string())
    );
}

#[test]
fn broadcast_goes_to_every_account() {
    let d = tables();
    let jobs = begin_broadcast(&d, ANN, &text(Some("all"))).unwrap();
    let ids: Vec<&str> = jobs.iter().map(|j| j.user_id.as_str()).collect();
    assert_eq!(ids, ["w0", "w1", "w2"]);
    assert!(jobs.iter().all(|j| j.text == "all"));
    let e = begin_broadcast(&d, ANN, &text(None)).unwrap_err();
    assert_eq!(told(e), (400, "text is required".to_string()));
    let e = begin_broadcast(&d, BOB, &text(Some("all"))).unwrap_err();
    assert_eq!(told(e), (403, "admin access required".to_string()));
}

#[test]
fn broadcast_is_counted() {
    let results = vec![
        broadcast_result("w0", Delivery::Sent),
        broadcast_result("w1", Delivery::NoToken),
        broadcast_result("w2", Delivery::Failed("e".to_string())),
    ];
    assert!(results[0].success && results[0].error.is_none());
    assert!(!results[1].success);
    assert_eq!(results[1].error, Some("no context token for `w1`".to_string()));
    assert_eq!(results[2].error, Some("e".to_string()));
    let r = finish_broadcast(results);
    assert_eq!(r.message, "broadcast sent to 1/3 users");
    match r.data {
        Some(Data::Broadcast { results }) => assert_eq!(results[2].user_id, "w2"),
        other => panic!("{other:?}"),
    }
    assert_eq!(finish_broadcast(Vec::new()).message, "broadcast sent to 0/0 users");
}

#[test]
fn pages_have_defaults_and_limits() {
    let p = PageRequest::parse(None, None);
    assert_eq!((p.page, p.page_size), (1, 15));
    let p = PageRequest::parse(Some("3"), Some("1000"));
    assert_eq!((p.page, p.page_size), (3, 100));
    let p = PageRequest::parse(Some("x"), Some(""));
    assert_eq!((p.page, p.page_size), (1, 15));
    let p = PageRequest::parse(Some("-2"), Some("-5"));
    assert_eq!((p.page, p.page_size), (-2, -5));
    assert!(p.fits());
    assert!(!PageRequest::parse(Some("9223372036854775807"), Some("100")).fits());
    assert!(!PageRequest::parse(Some("-9223372036854775808"), Some("1")).fits());
    assert!(PageRequest::parse(Some("9223372036854775807"), Some("1")).fits());
}

#[test]
fn pages_are_counted_as_by_division() {
    for total in 0..60i64 {
        for size in -12..=30i64 {
            let expected = (total as f64 / size as f64).ceil() as i64;
            assert_eq!(total_pages(total, size), expected);
        }
    }
    assert_eq!(total_pages(31, 15), 3);
    assert_eq!(total_pages(30, 15), 2);
    assert_eq!(total_pages(0, 0), 0);
    assert_eq!(total_pages(1, 0), i64::MAX);
    assert_eq!(total_pages(7, i64::MIN), 0);
    assert_eq!(total_pages(i64::MAX, 1), i64::MAX);
    assert_eq!(total_pages(i64::MAX, -1), -i64::MAX);
}

#[test]
fn own_messages_are_shown() {
    let mut d = tables();
    db::insert_message(&mut d, "w1", "receive", "hello", "text", "{}", "t").unwrap();
    db::insert_message(&mut d, "w2", "receive", "other", "text", "{}", "t").unwrap();
    db::insert_message(&mut d, "w1", "receive", "", "image", "{}", "t").unwrap();
    db::insert_message(&mut d, "w1", "send", "bye", "text", "", "t").unwrap();
    db::insert_message(&mut d, "w1", "receive", "", "text", "{}", "t").unwrap();
    let page = begin_messages(&d, BOB, &PageRequest::parse(None, None)).unwrap();
    assert_eq!(page.rows.len(), 4);
    assert_eq!(page.total, 4);
    let senders = vec![None, Some("x".to_string()), Some("y".to_string()), None];
    let r = finish_messages(&page, &senders);
    assert_eq!(r.message, "ok");
    match r.data {
        Some(Data::MessagePage { messages, page, page_size, total, total_pages }) => {
            assert_eq!((page, page_size, total, total_pages), (1, 15, 4, 1));
            assert_eq!(messages[0].from_user_id, "w1");
            assert_eq!(messages[0].text, None);
            assert_eq!(messages[1].from_user_id, "我");
            assert_eq!(messages[1].text, Some("bye".to_string()));
            assert_eq!(messages[2].from_user_id, "y");
            assert!(messages[2].image && !messages[2].file);
            assert_eq!(messages[3].text, Some("hello".to_string()));
        }
        other => panic!("{other:?}"),
    }
    let e = begin_messages(&d, ANN, &PageRequest::parse(None, None)).unwrap_err();
    assert_eq!(told(e), (400, "no WeChat account bound".to_string()));
}

#[test]
fn webhook_shows_messages() {
    let mut d = tables();
    db::insert_message(&mut d, "w0", "receive", "", "file", "{}", "t").unwrap();
    let rows = begin_webhook_messages(&d, "w0").unwrap();
    let r = finish_webhook_messages(&rows, &vec![Some("s".to_string())]);
    match r.data {
        Some(Data::Messages { messages }) => {
            assert_eq!(messages.len(), 1);
            assert_eq!(messages[0].from_user_id, "s");
            assert!(messages[0].file);
        }
        other => panic!("{other:?}"),
    }
    let e = begin_webhook_messages(&d, "w7").unwrap_err();
    assert_eq!(told(e), (404, "unknown wechat user".to_string()));
}

#[test]
fn administrator_sees_all_users() {
    let d = tables();
    match handle_admin_users(&d, ANN).unwrap().data {
        Some(Data::Users { users }) => {
            assert_eq!(users.len(), 2);
            assert_eq!(users[0].username, "ann");
            assert!(!users[0].wechat_bound);
            assert_eq!(users[1].id, 2);
            assert_eq!(users[1].wechat_user_id, Some("w1".to_string()));
        }
        other => panic!("{other:?}"),
    }
    assert_eq!(handle_admin_users(&d, BOB).unwrap_err().status, 403);
}

#[test]
fn administrator_sees_all_messages() {
    let mut d = tables();
    db::insert_message(&mut d, "w1", "receive", "a", "text", "{}", "t1").unwrap();
    db::insert_message(&mut d, "w0", "receive", "b", "text", "{}", "t2").unwrap();
    db::insert_message(&mut d, "gone", "receive", "c", "text", "{}", "t3").unwrap();
    let req = PageRequest::parse(Some("1"), Some("2"));
    match handle_admin_messages(&d, ANN, None, &req).unwrap().data {
        Some(Data::AdminPage { messages, total, total_pages, .. }) => {
            assert_eq!((total, total_pages), (3, 2));
            assert_eq!(messages.len(), 2);
            assert_eq!(messages[0].content, "c");
            assert_eq!(messages[0].username, "");
            assert_eq!(messages[1].username, "");
            assert_eq!(messages[1].created_at, "t2");
        }
        other => panic!("{other:?}"),
    }
    match handle_admin_messages(&d, ANN, Some("w1"), &req).unwrap().data {
        Some(Data::AdminPage { messages, total, .. }) => {
            assert_eq!(total, 1);
            assert_eq!(messages[0].username, "bob");
            assert_eq!(messages[0].id, 1);
        }
        other => panic!("{other:?}"),
    }
    assert_eq!(handle_admin_messages(&d, None, None, &req).unwrap_err().status, 401);
}

#[test]
fn pages_past_the_last_are_empty() {
    let mut d = tables();
    for _ in 0..5 {
        db::insert_message(&mut d, "w1", "send", "x", "text", "", "t").unwrap();
    }
    for page in 1..6i64 {
        let req = PageRequest { page, page_size: 2 };
        let rows = begin_messages(&d, BOB, &req).unwrap();
        assert_eq!(rows.rows.is_empty(), page > total_pages(5, 2));
    }
}
