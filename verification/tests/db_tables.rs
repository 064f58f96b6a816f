use clawbot_web::db::{self, Db, DbError, UserRow};

fn with_users(names: &[&str]) -> Db {
    let mut d = Db::new();
    for n in names {
        db::insert_user(&mut d, n, "hash", "then").unwrap();
    }
    d
}

#[test]
fn password_round_trip() {
    let mut d = Db::new();
    let user = db::create_user(&mut d, "ann", "secret").unwrap();
    assert_eq!(user.id, 1);
    assert_eq!(user.username, "ann");
    assert_eq!(user.role, "admin");
    assert_ne!(d.users[0].password, "secret");
    let found = db::verify_user(&d, "ann", "secret").unwrap().unwrap();
    assert_eq!(found.id, 1);
    assert!(db::verify_user(&d, "ann", "Secret").unwrap().is_none());
    assert!(db::verify_user(&d, "bob", "secret").unwrap().is_none());
}

#[test]
fn creation_times_are_rfc_3339() {
    let mut d = Db::new();
    db::save_message(&mut d, "w", "send", "hi", "text", "").unwrap();
    let t = &d.messages[0].created_at;
    assert!(chrono::DateTime::parse_from_rfc3339(t).is_ok());
    assert!(t.ends_with("+00:00"));
}

#[test]
fn updated_password_replaces_the_old_one() {
    let mut d = with_users(&["ann", "bob"]);
    db::update_password(&mut d, "ann", "new").unwrap();
    assert!(db::verify_user(&d, "ann", "new").unwrap().is_some());
    assert!(db::verify_user(&d, "ann", "hash2").unwrap().is_none());
    assert_eq!(d.users[1].password, "hash");
    db::update_password(&mut d, "nobody", "new").unwrap();
    assert_eq!(d.users.len(), 2);
}

#[test]
fn malformed_hash_is_a_password_error() {
    let d = with_users(&["ann"]);
    match db::verify_user(&d, "ann", "x") {
        Err(DbError::Password(m)) => assert!(!m.is_empty()),
        other => panic!("{other:?}"),
    }
}

#[test]
fn first_user_is_the_administrator() {
    let d = with_users(&["ann", "bob", "cid"]);
    let roles: Vec<&str> = d.users.iter().map(|u| u.role.as_str()).collect();
    assert_eq!(roles, ["admin", "user", "user"]);
    let ids: Vec<i64> = db::list_users(&d).unwrap().iter().map(|u| u.id).collect();
    assert_eq!(ids, [1, 2, 3]);
    assert_eq!(db::get_user_by_id(&d, 2).unwrap().unwrap().username, "bob");
    assert_eq!(db::get_user_by_username(&d, "cid").unwrap().unwrap().id, 3);
    assert!(db::get_user_by_id(&d, 4).unwrap().is_none());
    assert!(db::get_user_by_username(&d, "ANN").unwrap().is_none());
}

#[test]
fn taken_name_is_refused() {
    let mut d = with_users(&["ann"]);
    let e = db::insert_user(&mut d, "ann", "other", "now").unwrap_err();
    assert_eq!(e.message(), "UNIQUE constraint failed: users.username");
    assert_eq!(d.users.len(), 1);
    assert_eq!(d.last_user_id, 1);
}

#[test]
fn numbers_run_out() {
    let mut d = Db::new();
    d.last_user_id = i64::MAX;
    d.last_message_id = i64::MAX;
    let e = db::insert_user(&mut d, "ann", "h", "now").unwrap_err();
    assert_eq!(e.message(), "database or disk is full");
    assert!(matches!(
        db::insert_message(&mut d, "w", "send", "a", "text", "", "now"),
        Err(DbError::Full)
    ));
    assert!(d.users.is_empty() && d.messages.is_empty());
}

#[test]
fn numbers_are_not_reused() {
    let mut d = with_users(&["ann", "bob"]);
    d.users.pop();
    let u = db::insert_user(&mut d, "cid", "h", "now").unwrap();
    assert_eq!(u.id, 3);
    assert!(d.is_well_formed());
}

#[test]
fn promotion_gives_an_administrator() {
    let mut d = with_users(&["ann", "bob"]);
    d.users[0].role = "user".to_string();
    db::promote_first_user(&mut d);
    assert_eq!(d.users[0].role, "admin");
    assert_eq!(d.users[1].role, "user");
    d.users[0].role = "user".to_string();
    d.users[1].role = "admin".to_string();
    db::promote_first_user(&mut d);
    assert_eq!(d.users[0].role, "user");
    let mut empty = Db::new();
    db::promote_first_user(&mut empty);
    assert!(empty.users.is_empty());
}

#[test]
fn tokens_belong_to_users() {
    let mut d = with_users(&["ann", "bob"]);
    let t = db::create_auth_token(&mut d, 2).unwrap();
    assert_eq!(t.len(), 32);
    assert!(t.bytes().all(|b| b.is_ascii_digit() || (b'a'..=b'f').contains(&b)));
    assert_eq!(t.as_bytes()[12], b'4');
    assert!(b"89ab".contains(&t.as_bytes()[16]));
    assert_eq!(db::validate_auth_token(&d, &t).unwrap().unwrap().username, "bob");
    assert!(db::validate_auth_token(&d, "nonsense").unwrap().is_none());
    let u = db::create_auth_token(&mut d, 2).unwrap();
    assert_ne!(t, u);
    let e = db::create_auth_token(&mut d, 9).unwrap_err();
    assert_eq!(e.message(), "FOREIGN KEY constraint failed");
    let e = db::insert_auth_token(&mut d, &t, 1, "now").unwrap_err();
    assert_eq!(e.message(), "UNIQUE constraint failed: auth_tokens.token");
    assert_eq!(d.tokens.len(), 2);
}

#[test]
fn saved_context_tokens_are_read_back() {
    let mut d = Db::new();
    db::save_context_token(&mut d, "w1", "bot", Some("ann"), "ctx").unwrap();
    db::save_updates_buf(&mut d, "w1", "cursor").unwrap();
    db::save_context_token(&mut d, "w2", "bot2", None, "").unwrap();
    db::save_context_token(&mut d, "w1", "bot3", None, "ctx2").unwrap();
    let s = db::load_session(&d, "w1").unwrap().unwrap();
    assert_eq!(s.bot_token, "bot3");
    assert_eq!(s.route_tag, None);
    assert_eq!(s.context_token, "ctx2");
    assert_eq!(s.updates_buf, "cursor");
    let s = db::load_session(&d, "w2").unwrap().unwrap();
    assert_eq!(s.updates_buf, "");
    db::save_updates_buf(&mut d, "w3", "lost").unwrap();
    assert!(db::load_session(&d, "w3").unwrap().is_none());
    let all = db::list_wechat_sessions(&d).unwrap();
    assert_eq!(all.len(), 2);
    assert_eq!(all[0].user_id, "w1");
}

#[test]
fn messages_come_newest_first() {
    let mut d = Db::new();
    for i in 0..7 {
        let who = if i % 2 == 0 { "w1" } else { "w2" };
        let text = format!("m{i}");
        db::insert_message(&mut d, who, "receive", &text, "text", "{}", "now").unwrap();
    }
    let (rows, total) = db::list_messages_paginated(&d, Some("w1"), 1, 3).unwrap();
    let texts: Vec<&str> = rows.iter().map(|m| m.content.as_str()).collect();
    assert_eq!(texts, ["m6", "m4", "m2"]);
    assert_eq!(total, 4);
    let (rows, _) = db::list_messages_paginated(&d, Some("w1"), 2, 3).unwrap();
    assert_eq!(rows.len(), 1);
    assert_eq!(rows[0].content, "m0");
    let (rows, total) = db::list_messages_paginated(&d, Some("w1"), 3, 3).unwrap();
    assert!(rows.is_empty());
    assert_eq!(total, 4);
    assert_eq!(db::list_messages(&d, None).unwrap().len(), 7);
    let (rows, _) = db::list_messages_paginated(&d, None, 0, 3).unwrap();
    assert_eq!(rows.len(), 3);
    let (rows, _) = db::list_messages_paginated(&d, None, 1, -1).unwrap();
    assert_eq!(rows.len(), 7);
    let (rows, _) = db::list_messages_paginated(&d, None, 1, 0).unwrap();
    assert!(rows.is_empty());
}

#[test]
fn listing_stops_at_two_hundred() {
    let mut d = Db::new();
    for i in 0..205 {
        db::insert_message(&mut d, "w", "send", &format!("{i}"), "text", "", "now").unwrap();
    }
    let rows = db::list_messages(&d, Some("w")).unwrap();
    assert_eq!(rows.len(), 200);
    assert_eq!(rows[0].content, "204");
    assert_eq!(rows[199].content, "5");
}

#[test]
fn failed_storage_fails_everything() {
    let mut d = Db::failed("disk I/O error".to_string());
    assert_eq!(db::load_session(&d, "w").unwrap_err().message(), "disk I/O error");
    assert!(db::list_users(&d).is_err());
    assert!(db::verify_user(&d, "a", "b").is_err());
    assert!(db::list_messages_paginated(&d, None, 1, 1).is_err());
    assert!(matches!(
        db::save_context_token(&mut d, "w", "b", None, "c"),
        Err(DbError::Storage(_))
    ));
    assert!(d.sessions.is_empty());
}

#[test]
fn misnumbered_tables_are_noticed() {
    let mut d = with_users(&["ann"]);
    assert!(d.is_well_formed());
    d.users.push(UserRow {
        id: 1,
        username: "x".to_string(),
        password: String::new(),
        created_at: String::new(),
        role: "user".to_string(),
    });
    assert!(!d.is_well_formed());
    d.users[1].id = 7;
    assert!(!d.is_well_formed());
    d.last_user_id = 7;
    assert!(d.is_well_formed());
    d.last_message_id = -1;
    assert!(!d.is_well_formed());
}

#[test]
fn hashing_may_fail() {
    let mut d = with_users(&["ann"]);
    let failed = || Err("no randomness".to_string());
    match db::create_user_with(&mut d, "bob", failed(), "now") {
        Err(DbError::Password(m)) => assert_eq!(m, "no randomness"),
        other => panic!("{other:?}"),
    }
    let e = db::update_password_with(&mut d, "ann", failed()).unwrap_err();
    assert_eq!(e.message(), "no randomness");
    assert_eq!(d.users.len(), 1);
    assert_eq!(d.users[0].password, "hash");
    let u = db::create_user_with(&mut d, "bob", Ok("h2".to_string()), "now").unwrap();
    assert_eq!((u.id, u.created_at.as_str()), (2, "now"));
    db::update_password_with(&mut d, "bob", Ok("h3".to_string())).unwrap();
    assert_eq!(d.users[1].password, "h3");
}

#[test]
fn verdict_on_the_password_decides() {
    let user = || db::User {
        id: 3,
        username: "ann".to_string(),
        role: "user".to_string(),
        created_at: String::new(),
    };
    assert_eq!(db::user_if_accepted(user(), Ok(true)).unwrap().unwrap().id, 3);
    assert!(db::user_if_accepted(user(), Ok(false)).unwrap().is_none());
    let e = db::user_if_accepted(user(), Err("bad".to_string())).unwrap_err();
    assert_eq!(e.message(), "bad");
}

#[test]
fn listings_and_lookups_agree() {
    let mut d = with_users(&["ann", "bob"]);
    for id in ["w1", "w2"] {
        db::save_context_token(&mut d, id, "bot", Some("ann"), id).unwrap();
    }
    db::save_updates_buf(&mut d, "w2", "c").unwrap();
    let all = db::list_wechat_sessions(&d).unwrap();
    assert_eq!(all.len(), 2);
    for s in &all {
        let found = db::load_session(&d, &s.user_id).unwrap().unwrap();
        assert_eq!(found.context_token, s.context_token);
        assert_eq!(found.updates_buf, s.updates_buf);
    }
    for u in db::list_users(&d).unwrap() {
        assert_eq!(db::get_user_by_username(&d, &u.username).unwrap().unwrap().id, u.id);
    }
    assert!(db::get_user_by_username(&d, " ann").unwrap().is_none());
}

#[test]
fn login_survives_other_operations() {
    let mut d = Db::new();
    db::create_user(&mut d, "ann", "pw").unwrap();
    db::insert_user(&mut d, "bob", "x", "now").unwrap();
    db::set_password(&mut d, "bob", "y").unwrap();
    db::set_password(&mut d, "nobody", "z").unwrap();
    db::save_message(&mut d, "w", "send", "hi", "text", "").unwrap();
    assert_eq!(db::verify_user(&d, "ann", "pw").unwrap().unwrap().id, 1);
    assert!(db::verify_user(&d, "nobody", "pw").unwrap().is_none());
}
