//! Signing in: who may call what, and the handlers that deal with passwords.

use vstd::prelude::*;

use crate::captcha::{self, CaptchaSessionView, CaptchaStore};
use crate::db::{
    self, AuthTokenView, Db, DbError, DbErrorView, DbView, User, UserRowView, UserView,
};
use crate::reply::{
    self, ApiResponse, ApiResponseView, Data, DataView, ErrorReply, ErrorReplyView, Reply, ReplyView,
};
use crate::{db_laws, model, outside, text};

verus! {

/// What a visitor sends to register or to log in.
#[derive(Debug)]
pub struct LoginRequest {
    pub username: String,
    pub password: String,
    pub captcha_id: Option<String>,
    pub captcha_code: Option<String>,
}

/// The plain value of a [`LoginRequest`].
#[verifier::ext_equal]
pub struct LoginRequestView {
    pub username: Seq<char>,
    pub password: Seq<char>,
    pub captcha_id: Option<Seq<char>>,
    pub captcha_code: Option<Seq<char>>,
}

impl View for LoginRequest {
    type V = LoginRequestView;

    open spec fn view(&self) -> LoginRequestView {
        LoginRequestView {
            username: self.username@,
            password: self.password@,
            captcha_id: self.captcha_id.deep_view(),
            captcha_code: self.captcha_code.deep_view(),
        }
    }
}

impl DeepView for LoginRequest {
    type V = LoginRequestView;

    open spec fn deep_view(&self) -> LoginRequestView {
        self@
    }
}

/// What is sent to change a password.
#[derive(Debug)]
pub struct ChangePasswordRequest {
    pub old_password: Option<String>,
    pub new_password: String,
    pub username: Option<String>,
}

/// The plain value of a [`ChangePasswordRequest`].
#[verifier::ext_equal]
pub struct ChangePasswordRequestView {
    pub old_password: Option<Seq<char>>,
    pub new_password: Seq<char>,
    pub username: Option<Seq<char>>,
}

impl View for ChangePasswordRequest {
    type V = ChangePasswordRequestView;

    open spec fn view(&self) -> ChangePasswordRequestView {
        ChangePasswordRequestView {
            old_password: self.old_password.deep_view(),
            new_password: self.new_password@,
            username: self.username.deep_view(),
        }
    }
}

impl DeepView for ChangePasswordRequest {
    type V = ChangePasswordRequestView;

    open spec fn deep_view(&self) -> ChangePasswordRequestView {
        self@
    }
}

/// The token in an `Authorization` header.
pub open spec fn bearer(authorization: Option<Seq<char>>) -> Option<Seq<char>> {
    match authorization {
        Some(h) => text::stripped(h, "Bearer "@),
        None => None,
    }
}

/// A failure of the tables, as it is told to the caller.
pub open spec fn table_failure(e: DbErrorView) -> ErrorReplyView {
    reply::failure(reply::INTERNAL_SERVER_ERROR, e.text())
}

/// The user whom a request comes from.
pub open spec fn signed_in(d: DbView, authorization: Option<Seq<char>>) -> Result<
    UserView,
    ErrorReplyView,
> {
    match bearer(authorization) {
        None => Err(
            reply::failure(reply::UNAUTHORIZED, "missing or invalid Authorization header"@),
        ),
        Some(token) => match d.guard(d.token_owner(token)) {
            Err(e) => Err(table_failure(e)),
            Ok(None) => Err(reply::failure(reply::UNAUTHORIZED, "invalid or expired token"@)),
            Ok(Some(user)) => Ok(user),
        },
    }
}

/// The administrator whom a request comes from.
pub open spec fn signed_in_admin(d: DbView, authorization: Option<Seq<char>>) -> Result<
    UserView,
    ErrorReplyView,
> {
    match signed_in(d, authorization) {
        Err(e) => Err(e),
        Ok(user) => if user.role == "admin"@ {
            Ok(user)
        } else {
            Err(reply::failure(reply::FORBIDDEN, "admin access required"@))
        },
    }
}

/// Reports a failure of the tables.
pub fn table_error(e: &DbError) -> (r: ErrorReply)
    ensures
        r@ == table_failure(e@),
{
    reply::fail(reply::INTERNAL_SERVER_ERROR, e.message().as_str())
}

/// Gives the user whom a request comes from, by its `Authorization` header.
pub fn extract_user(db: &Db, authorization: Option<&str>) -> (r: Result<User, ErrorReply>)
    ensures
        model::outcome(r) == signed_in(db@, authorization.deep_view()),
{
    let token: Option<String> = match authorization {
        Some(h) => text::strip_prefix(h, "Bearer "),
        None => None,
    };
    match token {
        None => Err(reply::fail(reply::UNAUTHORIZED, "missing or invalid Authorization header")),
        Some(token) => match db::validate_auth_token(db, token.as_str()) {
            Err(e) => Err(table_error(&e)),
            Ok(None) => Err(reply::fail(reply::UNAUTHORIZED, "invalid or expired token")),
            Ok(Some(user)) => Ok(user),
        },
    }
}

/// Gives the administrator whom a request comes from.
pub fn extract_admin(db: &Db, authorization: Option<&str>) -> (r: Result<User, ErrorReply>)
    ensures
        model::outcome(r) == signed_in_admin(db@, authorization.deep_view()),
{
    let user: User = extract_user(db, authorization)?;
    if text::same(user.role.as_str(), "admin") {
        Ok(user)
    } else {
        Err(reply::fail(reply::FORBIDDEN, "admin access required"))
    }
}

/// The answer to a user who has just signed in.
pub open spec fn welcome(message: Seq<char>, user: UserView, token: Seq<char>) -> ApiResponseView {
    ApiResponseView::ok_with_data(
        message,
        DataView::Login { token, username: user.username, role: user.role },
    )
}

/// Answers a user who has just signed in.
pub fn welcome_reply(message: &str, user: User, token: String) -> (r: ApiResponse)
    ensures
        r@ == welcome(message@, user@, token@),
{
    ApiResponse::ok_with_data(
        message,
        Data::Login { token, username: user.username, role: user.role },
    )
}

/// Why a registration is refused: a name that is taken is a conflict, anything else a
/// failure of the tables.
pub open spec fn registration_refusal(e: DbErrorView) -> ErrorReplyView {
    if text::has_part(e.text(), "UNIQUE"@) {
        reply::failure(reply::CONFLICT, "username already exists"@)
    } else {
        table_failure(e)
    }
}

/// Tells why a registration is refused.
pub fn registration_error(e: &DbError) -> (r: ErrorReply)
    ensures
        r@ == registration_refusal(e@),
{
    if text::contains(e.message().as_str(), "UNIQUE") {
        reply::fail(reply::CONFLICT, "username already exists")
    } else {
        table_error(e)
    }
}

/// What a registration does to the tables and what is answered, given the outcome of
/// hashing the password, the time of joining, and a login token with its time. The user
/// is created, then the token; a token that could not be created is reported as empty.
pub open spec fn register_step(
    before: DbView,
    name: Seq<char>,
    hashed: Result<Seq<char>, Seq<char>>,
    joined: Seq<char>,
    token: Seq<char>,
    now: Seq<char>,
) -> (DbView, ReplyView) {
    let (mid, created) = before.create_user(name, hashed, joined);
    match created {
        Ok(user) => {
            let (after, added) = mid.insert_auth_token(token, user.id, now);
            let shown = match added {
                Ok(_) => token,
                Err(_) => Seq::empty(),
            };
            (after, Ok(welcome("registered successfully"@, user, shown)))
        },
        Err(e) => (mid, Err(registration_refusal(e))),
    }
}

/// Registers a user, given the outcome of hashing the password, the time of joining, and
/// a login token with its time.
pub fn register_with(
    db: &mut Db,
    name: &str,
    hashed: Result<String, String>,
    joined: &str,
    token: String,
    now: &str,
) -> (r: Reply)
    ensures
        (final(db)@, model::outcome(r)) == register_step(
            old(db)@,
            name@,
            model::outcome(hashed),
            joined@,
            token@,
            now@,
        ),
{
    match db::create_user_with(db, name, hashed, joined) {
        Ok(user) => {
            let shown: String = match db::insert_auth_token(db, token.as_str(), user.id, now) {
                Ok(_) => token,
                Err(_) => String::new(),
            };
            Ok(welcome_reply("registered successfully", user, shown))
        },
        Err(e) => Err(registration_error(&e)),
    }
}

/// What may come of a registration whose captcha was passed. A name or a password of
/// white space alone is refused. Otherwise the password, as it was given, is hashed with
/// some outcome, and the trimmed name is registered accordingly, with a random token.
pub open spec fn registered(
    before: DbView,
    after: DbView,
    req: LoginRequestView,
    answer: ReplyView,
) -> bool {
    let name = text::trimmed(req.username);
    if name.len() == 0 || text::trimmed(req.password).len() == 0 {
        &&& after == before
        &&& answer == Err::<ApiResponseView, ErrorReplyView>(
            reply::failure(reply::BAD_REQUEST, "username and password are required"@),
        )
    } else {
        name_registered(before, after, name, req.password, answer)
    }
}

/// A name was registered with some outcome of hashing the password, at some moment and
/// with some random token.
pub open spec fn name_registered(
    before: DbView,
    after: DbView,
    name: Seq<char>,
    password: Seq<char>,
    answer: ReplyView,
) -> bool {
    exists|
        hashed: Result<Seq<char>, Seq<char>>,
        joined: Seq<char>,
        token: Seq<char>,
        now: Seq<char>,
    |
        {
            &&& db::hash_fits(password, hashed)
            &&& outside::is_simple_uuid(token)
            &&& (after, answer) == #[trigger] register_step(
                before,
                name,
                hashed,
                joined,
                token,
                now,
            )
        }
}

/// What may come of a login whose captcha was passed: the password fits the trimmed
/// name, and a login token was created.
pub open spec fn logged_in(
    before: DbView,
    after: DbView,
    req: LoginRequestView,
    answer: ReplyView,
) -> bool {
    match before.verify_user(text::trimmed(req.username), req.password) {
        Err(e) => {
            &&& after == before
            &&& answer == Err::<ApiResponseView, ErrorReplyView>(table_failure(e))
        },
        Ok(None) => {
            &&& after == before
            &&& answer == Err::<ApiResponseView, ErrorReplyView>(
                reply::failure(reply::UNAUTHORIZED, "invalid username or password"@),
            )
        },
        Ok(Some(user)) => exists|token: Result<Seq<char>, DbErrorView>|
            {
                &&& #[trigger] db::token_created(before, after, user.id, token)
                &&& answer == match token {
                    Ok(t) => Ok::<ApiResponseView, ErrorReplyView>(
                        welcome("login successful"@, user, t),
                    ),
                    Err(e) => Err(table_failure(e)),
                }
            },
    }
}

/// What an answer to a captcha does to the store, and what is told.
pub open spec fn captcha_of(
    store: Map<Seq<char>, CaptchaSessionView>,
    req: LoginRequestView,
    now: int,
) -> (Map<Seq<char>, CaptchaSessionView>, Result<(), Seq<char>>) {
    captcha::captcha_verdict(store, req.captcha_id, req.captcha_code, now)
}

/// Checks the captcha of a registration or a login.
pub fn check_captcha(store: &mut CaptchaStore, req: &LoginRequest, now: u128) -> (r: Result<
    (),
    ErrorReply,
>)
    requires
        old(store).wf(),
    ensures
        final(store).wf(),
        final(store)@ == captcha_of(old(store)@, req@, now as int).0,
        model::outcome(r) == captcha::captcha_refusal(captcha_of(old(store)@, req@, now as int).1),
{
    let id: Option<&str> = match &req.captcha_id {
        Some(t) => Some(t.as_str()),
        None => None,
    };
    let code: Option<&str> = match &req.captcha_code {
        Some(t) => Some(t.as_str()),
        None => None,
    };
    captcha::verify_captcha(store, id, code, now)
}

/// Registers a user whose captcha was passed.
pub fn register(db: &mut Db, req: &LoginRequest) -> (r: Reply)
    ensures
        registered(old(db)@, final(db)@, req@, model::outcome(r)),
{
    let name: String = text::trim(req.username.as_str());
    if name.as_str().is_empty() || text::trim(req.password.as_str()).as_str().is_empty() {
        return Err(reply::fail(reply::BAD_REQUEST, "username and password are required"));
    }
    let hashed: Result<String, String> = outside::bcrypt_hash(req.password.as_str());
    assert(db::hash_fits(req@.password, model::outcome(hashed)));
    let joined: String = outside::now_rfc3339();
    let token: String = outside::random_uuid();
    let issued: String = outside::now_rfc3339();
    register_with(db, name.as_str(), hashed, joined.as_str(), token, issued.as_str())
}

/// What may come of a registration: the captcha is checked first, and where it is not passed the
/// request ends there.
pub open spec fn registration_handled(
    store: Map<Seq<char>, CaptchaSessionView>,
    store_after: Map<Seq<char>, CaptchaSessionView>,
    before: DbView,
    after: DbView,
    req: LoginRequestView,
    now: int,
    answer: ReplyView,
) -> bool {
    &&& store_after == captcha_of(store, req, now).0
    &&& match captcha::captcha_refusal(captcha_of(store, req, now).1) {
        Ok(_) => registered(before, after, req, answer),
        Err(e) => after == before && answer == Err::<ApiResponseView, ErrorReplyView>(e),
    }
}

/// Registers a user, once the captcha is passed.
pub fn handle_register(
    db: &mut Db,
    store: &mut CaptchaStore,
    req: &LoginRequest,
    now: u128,
) -> (r: Reply)
    requires
        old(store).wf(),
    ensures
        final(store).wf(),
        registration_handled(
            old(store)@,
            final(store)@,
            old(db)@,
            final(db)@,
            req@,
            now as int,
            model::outcome(r),
        ),
{
    check_captcha(store, req, now)?;
    register(db, req)
}

/// Logs a user in whose captcha was passed.
pub fn login(db: &mut Db, req: &LoginRequest) -> (r: Reply)
    ensures
        logged_in(old(db)@, final(db)@, req@, model::outcome(r)),
{
    let name: String = text::trim(req.username.as_str());
    let user: User = match db::verify_user(db, name.as_str(), req.password.as_str()) {
        Err(e) => {
            return Err(table_error(&e));
        },
        Ok(None) => {
            return Err(reply::fail(reply::UNAUTHORIZED, "invalid username or password"));
        },
        Ok(Some(user)) => user,
    };
    let token: Result<String, DbError> = db::create_auth_token(db, user.id);
    assert(db::token_created(old(db)@, db@, user@.id, model::outcome(token)));
    match token {
        Ok(token) => Ok(welcome_reply("login successful", user, token)),
        Err(e) => Err(table_error(&e)),
    }
}

/// What may come of a login: the captcha is checked first, and where it is not passed the
/// request ends there.
pub open spec fn login_handled(
    store: Map<Seq<char>, CaptchaSessionView>,
    store_after: Map<Seq<char>, CaptchaSessionView>,
    before: DbView,
    after: DbView,
    req: LoginRequestView,
    now: int,
    answer: ReplyView,
) -> bool {
    &&& store_after == captcha_of(store, req, now).0
    &&& match captcha::captcha_refusal(captcha_of(store, req, now).1) {
        Ok(_) => logged_in(before, after, req, answer),
        Err(e) => after == before && answer == Err::<ApiResponseView, ErrorReplyView>(e),
    }
}

/// Logs a user in, once the captcha is passed.
pub fn handle_login(
    db: &mut Db,
    store: &mut CaptchaStore,
    req: &LoginRequest,
    now: u128,
) -> (r: Reply)
    requires
        old(store).wf(),
    ensures
        final(store).wf(),
        login_handled(
            old(store)@,
            final(store)@,
            old(db)@,
            final(db)@,
            req@,
            now as int,
            model::outcome(r),
        ),
{
    check_captcha(store, req, now)?;
    login(db, req)
}

/// The answer to a change of password.
pub open spec fn password_answer(result: Result<(), DbErrorView>, message: Seq<char>) -> ReplyView {
    match result {
        Ok(_) => Ok(ApiResponseView::ok(message)),
        Err(e) => Err(table_failure(e)),
    }
}

/// Answers a change of password.
pub fn password_reply(result: Result<(), DbError>, message: &str) -> (r: Reply)
    ensures
        model::outcome(r) == password_answer(model::outcome(result), message@),
{
    match result {
        Ok(_) => Ok(ApiResponse::ok(message)),
        Err(e) => Err(table_error(&e)),
    }
}

/// Why a user may not change their own password; the name of the user where they may.
pub open spec fn own_password_check(
    d: DbView,
    authorization: Option<Seq<char>>,
    req: ChangePasswordRequestView,
) -> Result<Seq<char>, ErrorReplyView> {
    match signed_in(d, authorization) {
        Err(e) => Err(e),
        Ok(user) => if text::trimmed(req.new_password).len() == 0 {
            Err(reply::failure(reply::BAD_REQUEST, "new password is required"@))
        } else {
            match d.verify_user(user.username, text::text_or_empty(req.old_password)) {
                Err(e) => Err(table_failure(e)),
                Ok(None) => Err(
                    reply::failure(reply::UNAUTHORIZED, "old password is incorrect"@),
                ),
                Ok(Some(_)) => Ok(user.username),
            }
        },
    }
}

/// Why the administrator may not change a user's password; the name of the user where
/// they may.
pub open spec fn any_password_check(
    d: DbView,
    authorization: Option<Seq<char>>,
    req: ChangePasswordRequestView,
) -> Result<Seq<char>, ErrorReplyView> {
    let target = text::text_or_empty(req.username);
    match signed_in_admin(d, authorization) {
        Err(e) => Err(e),
        Ok(_) => if target.len() == 0 {
            Err(reply::failure(reply::BAD_REQUEST, "target username is required"@))
        } else if text::trimmed(req.new_password).len() == 0 {
            Err(reply::failure(reply::BAD_REQUEST, "new password is required"@))
        } else {
            match d.guard(d.user_by_name(target)) {
                Err(e) => Err(table_failure(e)),
                Ok(None) => Err(reply::failure(reply::NOT_FOUND, "user not found"@)),
                Ok(Some(_)) => Ok(target),
            }
        },
    }
}

/// What may come of a change of password after its checks: a refusal changes nothing;
/// otherwise the trimmed new password was set.
pub open spec fn password_changed(
    before: DbView,
    after: DbView,
    check: Result<Seq<char>, ErrorReplyView>,
    new_password: Seq<char>,
    message: Seq<char>,
    answer: ReplyView,
) -> bool {
    match check {
        Err(e) => after == before && answer == Err::<ApiResponseView, ErrorReplyView>(e),
        Ok(name) => password_set(
            before,
            after,
            name,
            text::trimmed(new_password),
            message,
            answer,
        ),
    }
}

/// A user was given a new password, and the answer tells how that went.
pub open spec fn password_set(
    before: DbView,
    after: DbView,
    name: Seq<char>,
    password: Seq<char>,
    message: Seq<char>,
    answer: ReplyView,
) -> bool {
    exists|result: Result<(), DbErrorView>|
        #[trigger] db::password_updated(before, after, name, password, result) && answer
            == password_answer(result, message)
}

/// What may come of a user's change of their own password.
pub open spec fn own_password_changed(
    before: DbView,
    after: DbView,
    authorization: Option<Seq<char>>,
    req: ChangePasswordRequestView,
    answer: ReplyView,
) -> bool {
    password_changed(
        before,
        after,
        own_password_check(before, authorization, req),
        req.new_password,
        "password changed"@,
        answer,
    )
}

/// Changes the password of the user who asks, who proves to know the old one.
pub fn handle_change_password(
    db: &mut Db,
    authorization: Option<&str>,
    req: &ChangePasswordRequest,
) -> (r: Reply)
    ensures
        own_password_changed(
            old(db)@,
            final(db)@,
            authorization.deep_view(),
            req@,
            model::outcome(r),
        ),
{
    let user: User = extract_user(db, authorization)?;
    let fresh: String = text::trim(req.new_password.as_str());
    if fresh.as_str().is_empty() {
        return Err(reply::fail(reply::BAD_REQUEST, "new password is required"));
    }
    let old_password: String = text::or_empty(text::copy_option(&req.old_password));
    match db::verify_user(db, user.username.as_str(), old_password.as_str()) {
        Err(e) => {
            return Err(table_error(&e));
        },
        Ok(None) => {
            return Err(reply::fail(reply::UNAUTHORIZED, "old password is incorrect"));
        },
        Ok(Some(_)) => {},
    }
    let result: Result<(), DbError> = db::update_password(
        db,
        user.username.as_str(),
        fresh.as_str(),
    );
    password_reply(result, "password changed")
}

/// The answer to the administrator who changed a password.
pub open spec fn changed_for(target: Seq<char>) -> Seq<char> {
    "password changed for `"@ + target + "`"@
}

/// What may come of the administrator's change of a user's password.
pub open spec fn any_password_changed(
    before: DbView,
    after: DbView,
    authorization: Option<Seq<char>>,
    req: ChangePasswordRequestView,
    answer: ReplyView,
) -> bool {
    password_changed(
        before,
        after,
        any_password_check(before, authorization, req),
        req.new_password,
        changed_for(text::text_or_empty(req.username)),
        answer,
    )
}

/// Changes the password of any user, for the administrator.
pub fn handle_admin_change_password(
    db: &mut Db,
    authorization: Option<&str>,
    req: &ChangePasswordRequest,
) -> (r: Reply)
    ensures
        any_password_changed(
            old(db)@,
            final(db)@,
            authorization.deep_view(),
            req@,
            model::outcome(r),
        ),
{
    extract_admin(db, authorization)?;
    let target: String = text::or_empty(text::copy_option(&req.username));
    if target.as_str().is_empty() {
        return Err(reply::fail(reply::BAD_REQUEST, "target username is required"));
    }
    let fresh: String = text::trim(req.new_password.as_str());
    if fresh.as_str().is_empty() {
        return Err(reply::fail(reply::BAD_REQUEST, "new password is required"));
    }
    match db::get_user_by_username(db, target.as_str()) {
        Err(e) => {
            return Err(table_error(&e));
        },
        Ok(None) => {
            return Err(reply::fail(reply::NOT_FOUND, "user not found"));
        },
        Ok(Some(_)) => {},
    }
    let result: Result<(), DbError> = db::update_password(db, target.as_str(), fresh.as_str());
    let message: String = text::join3("password changed for `", target.as_str(), "`");
    password_reply(result, message.as_str())
}

/// A token signs in the user whom it belongs to.
pub proof fn token_signs_in(d: DbView, token: Seq<char>)
    requires
        d.fault is None,
    ensures
        signed_in(d, Some("Bearer "@ + token)) == match d.token_owner(token) {
            Some(user) => Ok::<UserView, ErrorReplyView>(user),
            None => Err(reply::failure(reply::UNAUTHORIZED, "invalid or expired token"@)),
        },
{
    let header = "Bearer "@ + token;
    let n = "Bearer "@.len() as int;
    assert(header.take(n) =~= "Bearer "@);
    assert(header.skip(n) =~= token);
}

/// A registration is the creation of a user, followed by that of a token where it
/// succeeded.
pub proof fn registration_creates_user_and_token(
    before: DbView,
    after: DbView,
    name: Seq<char>,
    password: Seq<char>,
    answer: ReplyView,
) -> (r: (DbView, Result<UserView, DbErrorView>, Result<Seq<char>, DbErrorView>))
    requires
        name_registered(before, after, name, password, answer),
    ensures
        db::user_created(before, r.0, name, password, r.1),
        match r.1 {
            Ok(user) => db::token_created(r.0, after, user.id, r.2) && answer == Ok::<
                ApiResponseView,
                ErrorReplyView,
            >(
                welcome(
                    "registered successfully"@,
                    user,
                    match r.2 {
                        Ok(t) => t,
                        Err(_) => Seq::empty(),
                    },
                ),
            ),
            Err(e) => after == r.0 && answer == Err::<ApiResponseView, ErrorReplyView>(
                registration_refusal(e),
            ),
        },
{
    let (hashed, joined, token, now) = choose|
        hashed: Result<Seq<char>, Seq<char>>,
        joined: Seq<char>,
        token: Seq<char>,
        now: Seq<char>,
    |
        {
            &&& db::hash_fits(password, hashed)
            &&& outside::is_simple_uuid(token)
            &&& (after, answer) == #[trigger] register_step(
                before,
                name,
                hashed,
                joined,
                token,
                now,
            )
        };
    let (mid, created) = before.create_user(name, hashed, joined);
    let given: Result<Seq<char>, DbErrorView> = match created {
        Ok(user) => match mid.insert_auth_token(token, user.id, now).1 {
            Ok(_) => Ok(token),
            Err(e) => Err(e),
        },
        Err(e) => Err(e),
    };
    (mid, created, given)
}

/// Who has just registered or logged in is signed in by the token they were given.
pub proof fn welcomed_users_are_signed_in(
    before: DbView,
    after: DbView,
    req: LoginRequestView,
    answer: ReplyView,
    token: Seq<char>,
    username: Seq<char>,
    role: Seq<char>,
)
    requires
        before.wf(),
        registered(before, after, req, answer) || logged_in(before, after, req, answer),
        answer matches Ok(a) && a.data == Some(DataView::Login { token, username, role }),
        token.len() > 0,
    ensures
        username == text::trimmed(req.username),
        after.fault is None,
        signed_in(after, Some("Bearer "@ + token)) matches Ok(user) && user.username == username
            && user.role == role,
{
    let name = text::trimmed(req.username);
    if registered(before, after, req, answer) {
        let (mid, created, given) = registration_creates_user_and_token(
            before,
            after,
            name,
            req.password,
            answer,
        );
        let user = created->Ok_0;
        db_laws::created_user_can_log_in(before, mid, name, req.password, user);
        db_laws::created_token_is_valid(mid, after, user.id, token, token.push('x'));
        lemma_token_keeps_users(mid, after, user.id, given);
    } else {
        let user = before.verify_user(name, req.password)->Ok_0->0;
        let given = choose|given: Result<Seq<char>, DbErrorView>|
            {
                &&& #[trigger] db::token_created(before, after, user.id, given)
                &&& answer == match given {
                    Ok(t) => Ok::<ApiResponseView, ErrorReplyView>(
                        welcome("login successful"@, user, t),
                    ),
                    Err(e) => Err(table_failure(e)),
                }
            };
        db_laws::created_token_is_valid(before, after, user.id, token, token.push('x'));
        lemma_token_keeps_users(before, after, user.id, given);
        lemma_found_by_number(before, name);
    }
    token_signs_in(after, token);
}

proof fn lemma_token_keeps_users(
    before: DbView,
    after: DbView,
    id: int,
    given: Result<Seq<char>, DbErrorView>,
)
    requires
        db::token_created(before, after, id, given),
        given is Ok,
    ensures
        after.fault is None,
        after.users == before.users,
{
}

/// The user with a given name is the one with that user's number.
proof fn lemma_found_by_number(d: DbView, name: Seq<char>)
    requires
        d.wf(),
        d.user_row(name) is Some,
    ensures
        d.user_by_id(d.user_row(name)->0.id) == Some(d.user_row(name)->0.user()),
        d.user_row(name)->0.username == name,
{
    let row = d.user_row(name)->0;
    let p = db::with_name(name);
    let q = db::with_id(row.id);
    let ids = d.users.map_values(|u: UserRowView| u.id);
    model::first_where_finds(d.users, p);
    let i = choose|i: int| 0 <= i < d.users.len() && #[trigger] d.users[i] == row && p(row);
    assert forall|j: int| 0 <= j < i implies !q(#[trigger] d.users[j]) by {
        assert(ids[j] < ids[i]);
    }
    model::first_where_is(d.users, q, i);
}

proof fn lemma_taken_is_conflict()
    ensures
        registration_refusal(DbErrorView::Unique("users.username"@)) == reply::failure(
            reply::CONFLICT,
            "username already exists"@,
        ),
{
    let e = DbErrorView::Unique("users.username"@);
    reveal_strlit("UNIQUE");
    reveal_strlit("UNIQUE constraint failed: ");
    assert(e.text().subrange(0int, 0int + "UNIQUE"@.len()) =~= "UNIQUE"@);
}

/// With the hashing and the storage in order, a name is registered exactly where nobody
/// has it. Then one user is added, with that name, the hash and the time of joining, as
/// the administrator where there were no users; the token, where it is a new one, is
/// theirs. A name that is taken is answered with a conflict. No refusal changes
/// anything.
pub proof fn fresh_names_are_registered(
    before: DbView,
    name: Seq<char>,
    hash: Seq<char>,
    joined: Seq<char>,
    token: Seq<char>,
    now: Seq<char>,
)
    requires
        before.fault is None,
        before.last_user_id < i64::MAX,
    ensures
        ({
            let (after, answer) = register_step(before, name, Ok(hash), joined, token, now);
            let row = UserRowView {
                id: before.last_user_id + 1,
                username: name,
                password: hash,
                created_at: joined,
                role: if before.users.len() == 0 {
                    "admin"@
                } else {
                    "user"@
                },
            };
            &&& before.user_by_name(name) is None <==> answer is Ok
            &&& answer is Ok ==> after.users == before.users.push(row)
            &&& answer is Ok && !model::any_where(before.tokens, db::with_token(token)) ==> answer
                == Ok::<ApiResponseView, ErrorReplyView>(
                welcome("registered successfully"@, row.user(), token),
            ) && after.tokens == before.tokens.push(
                AuthTokenView { token, user_id: row.id, created_at: now },
            )
            &&& answer is Ok && model::any_where(before.tokens, db::with_token(token)) ==> answer
                == Ok::<ApiResponseView, ErrorReplyView>(
                welcome("registered successfully"@, row.user(), Seq::empty()),
            ) && after.tokens == before.tokens
            &&& answer is Err ==> after == before && answer == Err::<
                ApiResponseView,
                ErrorReplyView,
            >(reply::failure(reply::CONFLICT, "username already exists"@))
        }),
{
    lemma_taken_is_conflict();
    model::first_where_finds(before.users, db::with_name(name));
    if before.user_by_name(name) is None {
        let mid = before.create_user(name, Ok(hash), joined).0;
        let id = before.last_user_id + 1;
        assert(db::with_id(id)(mid.users[before.users.len() as int]));
    }
}

/// Whatever comes of the hashing, a registration that is refused changes nothing, and one
/// that succeeds adds one user with the trimmed name and a hash that fits the password
/// as it was given.
pub proof fn registration_adds_one_user_or_nothing(
    before: DbView,
    after: DbView,
    req: LoginRequestView,
    answer: ReplyView,
)
    requires
        registered(before, after, req, answer),
    ensures
        answer is Err ==> after == before,
        answer is Ok ==> ({
            let name = text::trimmed(req.username);
            &&& before.user_by_name(name) is None
            &&& after.users.len() == before.users.len() + 1
            &&& after.users.drop_last() == before.users
            &&& after.users.last().username == name
            &&& outside::bcrypt_accepts(req.password, after.users.last().password)
            &&& after.users.last().role == before.next_role()
        }),
{
    let name = text::trimmed(req.username);
    model::first_where_finds(before.users, db::with_name(name));
    if name.len() > 0 && text::trimmed(req.password).len() > 0 {
        let (hashed, joined, token, now) = choose|
            hashed: Result<Seq<char>, Seq<char>>,
            joined: Seq<char>,
            token: Seq<char>,
            now: Seq<char>,
        |
            {
                &&& db::hash_fits(req.password, hashed)
                &&& outside::is_simple_uuid(token)
                &&& (after, answer) == #[trigger] register_step(
                    before,
                    name,
                    hashed,
                    joined,
                    token,
                    now,
                )
            };
        if answer is Ok {
            assert(after.users.drop_last() =~= before.users);
        }
    }
}

/// A name that is taken is answered with a conflict, and nothing changes, unless the
/// storage, the numbering or the hashing fails; a hashing that failed is told as such.
pub proof fn taken_name_is_a_conflict(
    before: DbView,
    name: Seq<char>,
    hashed: Result<Seq<char>, Seq<char>>,
    joined: Seq<char>,
    token: Seq<char>,
    now: Seq<char>,
)
    requires
        before.user_by_name(name) is Some,
        before.fault is None,
        before.last_user_id < i64::MAX,
    ensures
        register_step(before, name, hashed, joined, token, now) == (
            before,
            Err::<ApiResponseView, ErrorReplyView>(
                match hashed {
                    Ok(_) => reply::failure(reply::CONFLICT, "username already exists"@),
                    Err(m) => registration_refusal(DbErrorView::Password(m)),
                },
            ),
        ),
{
    lemma_taken_is_conflict();
    model::first_where_finds(before.users, db::with_name(name));
}

/// Whoever passes as the administrator is signed in and has that role; a signed-in
/// user with another role is refused as forbidden.
pub proof fn only_admins_pass(d: DbView, authorization: Option<Seq<char>>)
    ensures
        signed_in_admin(d, authorization) matches Ok(user) ==> signed_in(d, authorization) == Ok::<
            UserView,
            ErrorReplyView,
        >(user) && user.role == "admin"@,
        signed_in(d, authorization) matches Ok(user) ==> user.role != "admin"@ ==> signed_in_admin(
            d,
            authorization,
        ) == Err::<UserView, ErrorReplyView>(
            reply::failure(reply::FORBIDDEN, "admin access required"@),
        ),
        signed_in(d, authorization) matches Err(e) ==> signed_in_admin(d, authorization) == Err::<
            UserView,
            ErrorReplyView,
        >(e),
{
}

/// A changed password is the one that is accepted from now on, and nobody else's
/// changes.
pub proof fn changed_password_is_accepted(
    before: DbView,
    after: DbView,
    name: Seq<char>,
    new_password: Seq<char>,
    message: Seq<char>,
    answer: ReplyView,
    other: Seq<char>,
)
    requires
        password_changed(before, after, Ok(name), new_password, message, answer),
        answer is Ok,
        other != name,
    ensures
        after.verify_user(name, text::trimmed(new_password)) == Ok::<Option<UserView>, DbErrorView>(
            before.user_by_name(name),
        ),
        after.user_row(other) == before.user_row(other),
{
    let fresh = text::trimmed(new_password);
    let result = choose|result: Result<(), DbErrorView>|
        #[trigger] db::password_updated(before, after, name, fresh, result) && answer
            == password_answer(result, message);
    db_laws::updated_password_is_accepted(before, after, name, fresh, other);
}

/// A request that is refused before the password is touched changes nothing, and who
/// is not signed in is always refused.
pub proof fn strangers_change_no_password(
    before: DbView,
    after: DbView,
    authorization: Option<Seq<char>>,
    req: ChangePasswordRequestView,
    message: Seq<char>,
    answer: ReplyView,
)
    requires
        signed_in(before, authorization) is Err,
        password_changed(
            before,
            after,
            own_password_check(before, authorization, req),
            req.new_password,
            message,
            answer,
        ) || password_changed(
            before,
            after,
            any_password_check(before, authorization, req),
            req.new_password,
            message,
            answer,
        ),
    ensures
        after == before,
        answer == Err::<ApiResponseView, ErrorReplyView>(signed_in(before, authorization)->Err_0),
{
}

} // verus!
