use clawbot_web::chat::{
    after_try, on_line, on_poll_error, on_updates, restore, start_lines, try_error, ChatState,
    LineAction, Output, PollNext, TryNext, TryOutcome,
};
use clawbot_web::db::{self, Db};
use clawbot_web::wechat::{
    Account, InboundMessage, InboundMessageItem, PollError, TextItem, Updates,
};

fn account() -> Account {
    Account { user_id: "w".to_string(), bot_token: "bot".to_string(), route_tag: None }
}

fn state(token: Option<&str>) -> ChatState {
    ChatState {
        context_token: token.map(|t| t.to_string()),
        buf: Some("c0".to_string()),
        consecutive_errors: 0,
    }
}

fn message(token: &str, texts: &[&str]) -> InboundMessage {
    InboundMessage {
        from_user_id: "w".to_string(),
        to_user_id: "bot".to_string(),
        context_token: token.to_string(),
        item_list: texts
            .iter()
            .map(|t| InboundMessageItem {
                item_type: 1,
                text_item: Some(TextItem { text: t.to_string() }),
                body: None,
            })
            .collect(),
    }
}

fn lines(out: &[Output]) -> Vec<String> {
    out.iter()
        .map(|o| match o {
            Output::Chat(s) => format!("out {s}"),
            Output::Notice(s) => format!("err {s}"),
        })
        .collect()
}

#[test]
fn chat_is_restored() {
    let mut d = Db::new();
    let s = restore(&d, "w");
    assert!(s.context_token.is_none() && s.buf.is_none());
    db::save_context_token(&mut d, "w", "b", None, "t").unwrap();
    let s = restore(&d, "w");
    assert_eq!(s.context_token, Some("t".to_string()));
    assert_eq!(s.buf, None);
    assert_eq!(s.consecutive_errors, 0);
    assert_eq!(start_lines("w", true), ["restored session from database"]);
    assert_eq!(
        start_lines("w", false),
        [
            "no saved session found; waiting for w to send a message to activate the bot...",
            "after activation, the session will be saved and you can restart without re-activation",
        ]
    );
}

#[test]
fn lines_are_trimmed_and_blank_ones_ignored() {
    assert!(matches!(on_line(&state(Some("t")), "w", " \t"), LineAction::Ignore));
    match on_line(&state(Some("t")), "w", "  hi there \n") {
        LineAction::Send { token, text } => {
            assert_eq!((token.as_str(), text.as_str()), ("t", "hi there"));
        }
        other => panic!("{other:?}"),
    }
    match on_line(&state(None), "w", "hi") {
        LineAction::Refuse(m) => assert_eq!(
            m,
            "[system] no context token yet; wait for w to send a message first"
        ),
        other => panic!("{other:?}"),
    }
}

#[test]
fn only_timeouts_are_retried() {
    let late = || TryOutcome::Timeout("late".to_string());
    assert!(matches!(
        after_try(0, "hi", late()),
        TryNext::Retry { attempt: 1, delay_millis: 200 }
    ));
    assert!(matches!(
        after_try(1, "hi", late()),
        TryNext::Retry { attempt: 2, delay_millis: 400 }
    ));
    let error = |n: TryNext| match n {
        TryNext::Done(Output::Notice(m)) => m,
        other => panic!("{other:?}"),
    };
    assert_eq!(error(after_try(2, "hi", late())), "[error] failed to send message: late");
    assert_eq!(
        error(after_try(0, "hi", TryOutcome::Failed("no".to_string()))),
        "[error] failed to send message: no"
    );
    assert!(matches!(
        after_try(1, "hi", TryOutcome::Sent),
        TryNext::Done(Output::Chat(m)) if m == "[you] hi"
    ));
}

#[test]
fn updates_are_printed_and_saved() {
    let mut d = Db::new();
    let mut s = state(None);
    s.consecutive_errors = 2;
    let u = Updates {
        get_updates_buf: Some("c1".to_string()),
        messages: vec![message("t1", &["a", "b"]), message("", &["c"]), message("t2", &[])],
    };
    let out = on_updates(&mut d, &account(), &mut s, &u);
    let note = "err [system] session activated – context token saved to DB";
    assert_eq!(lines(&out), [note, "out [them] a", "out [them] b", "out [them] c", note]);
    assert_eq!(s.context_token, Some("t2".to_string()));
    assert_eq!(s.buf, Some("c1".to_string()));
    assert_eq!(s.consecutive_errors, 0);
    assert_eq!(db::load_session(&d, "w").unwrap().unwrap().context_token, "t2");
    assert_eq!(restore(&d, "w").context_token, s.context_token);
}

#[test]
fn cursor_follows_the_service() {
    let mut d = Db::new();
    let mut s = state(Some("t"));
    let u = Updates { get_updates_buf: None, messages: Vec::new() };
    assert!(on_updates(&mut d, &account(), &mut s, &u).is_empty());
    assert_eq!(s.buf, None);
    assert_eq!(s.context_token, Some("t".to_string()));
}

#[test]
fn failures_are_counted() {
    let mut s = state(None);
    let mut seen = Vec::new();
    for _ in 0..4 {
        match on_poll_error(&mut s, "w", PollError::Other("bad".to_string())) {
            PollNext::Pause { notice, secs } => seen.push((notice, secs, s.consecutive_errors)),
            other => panic!("{other:?}"),
        }
    }
    assert_eq!(seen[0], ("chat error (1): bad".to_string(), 2, 1));
    assert_eq!(seen[1], ("chat error (2): bad".to_string(), 2, 2));
    assert_eq!(seen[2], ("chat error (3): bad".to_string(), 30, 0));
    assert_eq!(seen[3], ("chat error (1): bad".to_string(), 2, 1));
}

#[test]
fn timeouts_are_ignored_and_expiry_ends_the_chat() {
    let mut s = state(None);
    s.consecutive_errors = 1;
    let n = on_poll_error(&mut s, "w", PollError::Timeout("late".to_string()));
    assert!(matches!(n, PollNext::Again));
    assert_eq!(s.consecutive_errors, 1);
    match on_poll_error(&mut s, "w", PollError::SessionExpired("x".to_string())) {
        PollNext::Quit(m) => {
            assert_eq!(m, "session expired for user `w`, re-run `wechat-cli login`");
        }
        other => panic!("{other:?}"),
    }
}

#[test]
fn timeouts_are_told_apart() {
    assert!(matches!(try_error(true, "e".to_string()), TryOutcome::Timeout(e) if e == "e"));
    assert!(matches!(try_error(false, "e".to_string()), TryOutcome::Failed(e) if e == "e"));
}
