use clawbot_web::auth::{
    check_captcha, login as log_in, register,
    extract_admin, extract_user, handle_admin_change_password, handle_change_password, handle_login,
    handle_register, password_reply, register_with, registration_error, table_error, welcome_reply,
    ChangePasswordRequest, LoginRequest,
};
use clawbot_web::captcha::{handle_captcha, CaptchaDraft, CaptchaStore};
use clawbot_web::db::{self, Db, DbError, User};
use clawbot_web::reply::{Data, ErrorReply, Reply};

const T: u128 = 5;

fn store() -> CaptchaStore {
    let mut s = CaptchaStore::new();
    for id in ["a", "b", "c"] {
        let draft = CaptchaDraft { id: id.to_string(), code: "ABC123".to_string() };
        handle_captcha(&mut s, draft, &Vec::new(), T);
    }
    s
}

fn login(id: &str, username: &str, password: &str) -> LoginRequest {
    LoginRequest {
        username: username.to_string(),
        password: password.to_string(),
        captcha_id: Some(id.to_string()),
        captcha_code: Some("abc123".to_string()),
    }
}

fn change(old: Option<&str>, new: &str, username: Option<&str>) -> ChangePasswordRequest {
    ChangePasswordRequest {
        old_password: old.map(|s| s.to_string()),
        new_password: new.to_string(),
        username: username.map(|s| s.to_string()),
    }
}

fn token(r: Reply) -> (String, String, String) {
    match r.unwrap().data {
        Some(Data::Login { token, username, role }) => (token, username, role),
        other => panic!("{other:?}"),
    }
}

fn told(e: ErrorReply) -> (u16, String) {
    assert!(!e.body.success);
    assert!(e.body.data.is_none());
    (e.status, e.body.message)
}

fn refused(r: Reply) -> (u16, String) {
    told(r.unwrap_err())
}

fn two_users() -> Db {
    let mut d = Db::new();
    db::insert_user(&mut d, "ann", "x", "then").unwrap();
    db::insert_user(&mut d, "bob", "x", "then").unwrap();
    db::insert_auth_token(&mut d, "tann", 1, "then").unwrap();
    db::insert_auth_token(&mut d, "tbob", 2, "then").unwrap();
    d
}

#[test]
fn registered_user_is_signed_in() {
    let mut d = Db::new();
    let mut s = store();
    let r = handle_register(&mut d, &mut s, &login("a", "  ann ", "pw"), T);
    assert_eq!(r.as_ref().unwrap().message, "registered successfully");
    let (t, name, role) = token(r);
    assert_eq!((name.as_str(), role.as_str()), ("ann", "admin"));
    let u = extract_user(&d, Some(&format!("Bearer {t}"))).unwrap();
    assert_eq!(u.username, "ann");
    let r = handle_login(&mut d, &mut s, &login("b", " ann", "pw"), T);
    assert_eq!(r.as_ref().unwrap().message, "login successful");
    let (t2, _, _) = token(r);
    assert_ne!(t, t2);
    assert_eq!(extract_admin(&d, Some(&format!("Bearer {t2}"))).unwrap().username, "ann");
    let r = handle_login(&mut d, &mut s, &login("c", "ann", "PW"), T);
    assert_eq!(refused(r), (401, "invalid username or password".to_string()));
}

#[test]
fn captcha_comes_first() {
    let mut d = Db::new();
    let mut s = store();
    let mut req = login("zzz", "", "");
    let r = handle_register(&mut d, &mut s, &req, T);
    assert_eq!(refused(r), (400, "invalid or expired captcha".to_string()));
    req.captcha_id = None;
    let r = handle_login(&mut d, &mut s, &req, T);
    assert_eq!(refused(r), (400, "captcha_id and captcha_code are required".to_string()));
    assert!(d.users.is_empty());
}

#[test]
fn name_and_password_are_required() {
    let mut d = Db::new();
    let mut s = store();
    let r = handle_register(&mut d, &mut s, &login("a", " \t", "pw"), T);
    assert_eq!(refused(r), (400, "username and password are required".to_string()));
    let r = handle_register(&mut d, &mut s, &login("b", "ann", "  "), T);
    assert_eq!(refused(r), (400, "username and password are required".to_string()));
    let r = handle_register(&mut d, &mut s, &login("a", "ann", "pw"), T);
    assert_eq!(refused(r), (400, "captcha already used".to_string()));
}

#[test]
fn taken_name_is_a_conflict() {
    let mut d = two_users();
    let mut s = store();
    let r = handle_register(&mut d, &mut s, &login("a", "ann", "pw"), T);
    assert_eq!(refused(r), (409, "username already exists".to_string()));
    assert_eq!(d.users.len(), 2);
}

#[test]
fn storage_failures_are_reported() {
    let mut d = Db::failed("broken".to_string());
    let mut s = store();
    let r = handle_register(&mut d, &mut s, &login("a", "ann", "pw"), T);
    assert_eq!(refused(r), (500, "broken".to_string()));
    let r = handle_login(&mut d, &mut s, &login("b", "ann", "pw"), T);
    assert_eq!(refused(r), (500, "broken".to_string()));
    assert_eq!(told(extract_user(&d, Some("Bearer x")).unwrap_err()), (500, "broken".to_string()));
}

#[test]
fn header_has_to_hold_a_known_token() {
    let d = two_users();
    let missing = (401, "missing or invalid Authorization header".to_string());
    assert_eq!(told(extract_user(&d, None).unwrap_err()), missing);
    assert_eq!(told(extract_user(&d, Some("tann")).unwrap_err()), missing);
    assert_eq!(told(extract_user(&d, Some("bearer tann")).unwrap_err()), missing);
    let unknown = (401, "invalid or expired token".to_string());
    assert_eq!(told(extract_user(&d, Some("Bearer ")).unwrap_err()), unknown);
    assert_eq!(told(extract_user(&d, Some("Bearer  tann")).unwrap_err()), unknown);
    assert_eq!(extract_user(&d, Some("Bearer tbob")).unwrap().id, 2);
}

#[test]
fn only_administrators_pass() {
    let d = two_users();
    assert_eq!(extract_admin(&d, Some("Bearer tann")).unwrap().id, 1);
    let e = extract_admin(&d, Some("Bearer tbob")).unwrap_err();
    assert_eq!(told(e), (403, "admin access required".to_string()));
    assert_eq!(extract_admin(&d, None).unwrap_err().status, 401);
}

#[test]
fn own_password_is_changed() {
    let mut d = two_users();
    db::update_password(&mut d, "bob", "old").unwrap();
    let auth = Some("Bearer tbob");
    let r = handle_change_password(&mut d, auth, &change(Some("old"), "  ", None));
    assert_eq!(refused(r), (400, "new password is required".to_string()));
    let r = handle_change_password(&mut d, auth, &change(Some("bad"), "new", None));
    assert_eq!(refused(r), (401, "old password is incorrect".to_string()));
    let r = handle_change_password(&mut d, None, &change(Some("old"), "new", None));
    assert_eq!(refused(r).0, 401);
    let r = handle_change_password(&mut d, auth, &change(Some("old"), " new ", None)).unwrap();
    assert_eq!(r.message, "password changed");
    assert!(r.success && r.data.is_none());
    assert!(db::verify_user(&d, "bob", "new").unwrap().is_some());
    assert_eq!(d.users[0].password, "x");
}

#[test]
fn administrator_changes_any_password() {
    let mut d = two_users();
    let auth = Some("Bearer tann");
    let r = handle_admin_change_password(&mut d, Some("Bearer tbob"), &change(None, "n", Some("bob")));
    assert_eq!(refused(r).0, 403);
    let r = handle_admin_change_password(&mut d, auth, &change(None, "n", None));
    assert_eq!(refused(r), (400, "target username is required".to_string()));
    let r = handle_admin_change_password(&mut d, auth, &change(None, " ", Some("bob")));
    assert_eq!(refused(r), (400, "new password is required".to_string()));
    let r = handle_admin_change_password(&mut d, auth, &change(None, "n", Some("cid")));
    assert_eq!(refused(r), (404, "user not found".to_string()));
    let r = handle_admin_change_password(&mut d, auth, &change(None, "n", Some("bob"))).unwrap();
    assert_eq!(r.message, "password changed for `bob`");
    assert!(db::verify_user(&d, "bob", "n").unwrap().is_some());
}

#[test]
fn replies_on_given_results() {
    assert_eq!(
        told(registration_error(&DbError::Unique("users.username".to_string()))),
        (409, "username already exists".to_string())
    );
    assert_eq!(
        told(registration_error(&DbError::Full)),
        (500, "database or disk is full".to_string())
    );
    assert_eq!(
        told(table_error(&DbError::Password("bad salt".to_string()))),
        (500, "bad salt".to_string())
    );
    assert_eq!(refused(password_reply(Err(DbError::ForeignKey), "m")).0, 500);
    assert_eq!(password_reply(Ok(()), "m").unwrap().message, "m");
    let user = User {
        id: 4,
        username: "ann".to_string(),
        role: "user".to_string(),
        created_at: String::new(),
    };
    let (t, name, role) = token(Ok(welcome_reply("hello", user, "t".to_string())));
    assert_eq!((t.as_str(), name.as_str(), role.as_str()), ("t", "ann", "user"));
}

#[test]
fn registration_follows_the_hashing() {
    let mut d = Db::new();
    let hash = || Ok("hash".to_string());
    let r = register_with(&mut d, "ann", hash(), "t0", "tok".to_string(), "t1");
    assert_eq!(r.as_ref().unwrap().message, "registered successfully");
    assert_eq!(token(r), ("tok".to_string(), "ann".to_string(), "admin".to_string()));
    assert_eq!(d.users[0].password, "hash");
    assert_eq!(d.users[0].created_at, "t0");
    assert_eq!(d.tokens[0].created_at, "t1");
    let r = register_with(&mut d, "ann", hash(), "t2", "new".to_string(), "t2");
    assert_eq!(refused(r), (409, "username already exists".to_string()));
    let failed = || Err("no randomness".to_string());
    let r = register_with(&mut d, "ann", failed(), "t2", "new".to_string(), "t2");
    assert_eq!(refused(r), (500, "no randomness".to_string()));
    let r = register_with(&mut d, "bob", failed(), "t2", "new".to_string(), "t2");
    assert_eq!(refused(r), (500, "no randomness".to_string()));
    assert_eq!((d.users.len(), d.tokens.len()), (1, 1));
    let r = register_with(&mut d, "bob", hash(), "t2", "tok".to_string(), "t2");
    assert_eq!(token(r), (String::new(), "bob".to_string(), "user".to_string()));
    assert_eq!((d.users.len(), d.tokens.len()), (2, 1));
    d.last_user_id = i64::MAX;
    let r = register_with(&mut d, "cid", hash(), "t2", "x".to_string(), "t2");
    assert_eq!(refused(r), (500, "database or disk is full".to_string()));
}

#[test]
fn captcha_and_registration_may_be_parted() {
    let mut d = Db::new();
    let mut s = store();
    let req = login("a", "ann", "pw");
    assert!(check_captcha(&mut s, &req, T).is_ok());
    let e = check_captcha(&mut s, &req, T).unwrap_err();
    assert_eq!(told(e), (400, "captcha already used".to_string()));
    assert_eq!(token(register(&mut d, &req)).1, "ann");
    assert_eq!(token(log_in(&mut d, &req)).2, "admin");
}
