use clawbot_web::auth::{handle_register, LoginRequest};
use clawbot_web::captcha::{handle_captcha, CaptchaDraft, CaptchaStore};
use clawbot_web::db::{self, Db};
use clawbot_web::delivery::{absorb_updates, after_send, make_job, session_account, Cursors};
use clawbot_web::serve::{handle_bind_status, QrStatus};
use clawbot_web::wechat::{InboundMessage, SendOutcome, Updates};

#[test]
fn handlers_keep_the_tables_in_order() {
    let mut d = Db::new();
    let mut captchas = CaptchaStore::new();
    for (id, name) in [("1", "ann"), ("2", "bob"), ("3", "ann")] {
        let draft = CaptchaDraft { id: id.to_string(), code: "QQQQQQ".to_string() };
        handle_captcha(&mut captchas, draft, &Vec::new(), 0);
        let req = LoginRequest {
            username: name.to_string(),
            password: "pw".to_string(),
            captcha_id: Some(id.to_string()),
            captcha_code: Some("qqqqqq".to_string()),
        };
        assert_eq!(handle_register(&mut d, &mut captchas, &req, 0).is_ok(), id != "3");
        assert!(d.is_well_formed());
    }
    let bob = db::get_user_by_username(&d, "bob").unwrap().unwrap();
    let confirmed = QrStatus {
        status: "confirmed".to_string(),
        bot_token: Some("bot".to_string()),
        ilink_user_id: Some("w".to_string()),
    };
    handle_bind_status(&mut d, &bob, Ok(confirmed)).unwrap();
    let session = db::load_session(&d, "w").unwrap().unwrap();
    let mut cursors = Cursors::new();
    after_send(&mut d, &cursors, &make_job(&session, "hi"), false, SendOutcome::Sent);
    let updates = Updates {
        get_updates_buf: Some("c".to_string()),
        messages: vec![InboundMessage {
            from_user_id: "w".to_string(),
            to_user_id: "bot".to_string(),
            context_token: "t".to_string(),
            item_list: Vec::new(),
        }],
    };
    let raws = vec!["{}".to_string()];
    absorb_updates(&mut d, &mut cursors, &session_account(&session), &updates, &raws);
    assert!(d.is_well_formed());
    assert_eq!((d.sessions.len(), d.users.len(), d.tokens.len(), d.messages.len()), (1, 2, 2, 2));
    assert_eq!(d.users.iter().filter(|u| u.role == "admin").count(), 1);
}
