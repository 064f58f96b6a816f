//! Who gets in, and what comes of registering, logging in and changing passwords.

use vstd::prelude::*;

use crate::auth::{self, ChangePasswordRequestView, LoginRequestView};
use crate::captcha::CaptchaSessionView;
use crate::db::{self, DbErrorView, DbView, UserRowView, UserView};
use crate::reply::{ApiResponseView, DataView, ErrorReplyView, ReplyView};
use crate::{db_laws, model, outside, table_laws, text, text_laws};

verus! {

/// An answer that refuses with the given status and text.
pub open spec fn refuses<T>(r: Result<T, ErrorReplyView>, status: u16, text: Seq<char>) -> bool {
    r matches Err(e) && e.status == status && !e.body.success && e.body.message == text
        && e.body.data is None
}

/// An answer of success with the given text and payload.
pub open spec fn grants(r: ReplyView, text: Seq<char>, data: Option<DataView>) -> bool {
    r matches Ok(a) && a.success && a.message == text && a.data == data
}

/// A request is signed by the user `u` whose row is the `k`-th, through the `i`-th login
/// token.
pub open spec fn signed_by(
    d: DbView,
    authorization: Option<Seq<char>>,
    i: int,
    k: int,
) -> bool {
    &&& d.fault is None
    &&& 0 <= i < d.tokens.len()
    &&& 0 <= k < d.users.len()
    &&& authorization == Some("Bearer "@ + d.tokens[i].token)
    &&& d.tokens[i].user_id == d.users[k].id
}

/// A request whose header bears a login token comes from the user of that token.
pub proof fn tokens_sign_their_users_in(
    d: DbView,
    authorization: Option<Seq<char>>,
    i: int,
    k: int,
)
    requires
        d.wf(),
        db_laws::keyed(d),
        signed_by(d, authorization, i, k),
    ensures
        auth::signed_in(d, authorization) matches Ok(u) && table_laws::shows(d.users[k], u),
{
    auth::token_signs_in(d, d.tokens[i].token);
    table_laws::tokens_belong_to_the_user_of_their_row(d, i, k, Seq::empty());
}

/// Whoever counts as signed in has sent a header with a login token that is stored, and is
/// the user of that token. The two results are the places of the token and the user.
pub proof fn only_stored_tokens_sign_in(d: DbView, authorization: Option<Seq<char>>) -> (r: (
    int,
    int,
))
    requires
        auth::signed_in(d, authorization) is Ok,
    ensures
        signed_by(d, authorization, r.0, r.1),
        table_laws::shows(d.users[r.1], auth::signed_in(d, authorization)->Ok_0),
{
    let token = auth::bearer(authorization)->0;
    text_laws::stripping_undoes_prefixing("Bearer "@, token, authorization->0);
    let p = db::with_token(token);
    model::first_where_finds(d.tokens, p);
    let t = model::first_where(d.tokens, p)->0;
    let i = choose|i: int| 0 <= i < d.tokens.len() && #[trigger] d.tokens[i] == t && p(t);
    let q = db::with_id(t.user_id);
    model::first_where_finds(d.users, q);
    let row = model::first_where(d.users, q)->0;
    let k = choose|k: int| 0 <= k < d.users.len() && #[trigger] d.users[k] == row && q(row);
    (i, k)
}

/// Everyone else is refused for want of authorization: without a header, with one of another
/// form, and with a token that nobody has. A storage that failed is told as such.
pub proof fn strangers_are_refused(
    d: DbView,
    authorization: Option<Seq<char>>,
    token: Seq<char>,
)
    ensures
        refuses(
            auth::signed_in(d, None),
            401,
            "missing or invalid Authorization header"@,
        ),
        auth::bearer(authorization) == Some(token) <==> authorization == Some("Bearer "@ + token),
        auth::bearer(authorization) is None ==> refuses(
            auth::signed_in(d, authorization),
            401,
            "missing or invalid Authorization header"@,
        ),
        d.fault is None && (forall|j: int|
            0 <= j < d.tokens.len() ==> (#[trigger] d.tokens[j]).token != token) ==> refuses(
            auth::signed_in(d, Some("Bearer "@ + token)),
            401,
            "invalid or expired token"@,
        ),
        d.fault matches Some(m) ==> refuses(
            auth::signed_in(d, Some("Bearer "@ + token)),
            500,
            m,
        ),
{
    text_laws::stripping_undoes_prefixing(
        "Bearer "@,
        token,
        match authorization {
            Some(h) => h,
            None => Seq::empty(),
        },
    );
    if forall|j: int| 0 <= j < d.tokens.len() ==> (#[trigger] d.tokens[j]).token != token {
        model::first_where_none(d.tokens, db::with_token(token));
    }
}

/// The administrator passes as such; every other signed-in user is forbidden, and who is not
/// signed in is refused as anywhere.
pub proof fn only_the_administrator_passes(d: DbView, authorization: Option<Seq<char>>)
    ensures
        auth::signed_in(d, authorization) matches Ok(u) ==> u.role == "admin"@
            ==> auth::signed_in_admin(d, authorization) == Ok::<UserView, ErrorReplyView>(u),
        auth::signed_in(d, authorization) matches Ok(u) ==> u.role != "admin"@ ==> refuses(
            auth::signed_in_admin(d, authorization),
            403,
            "admin access required"@,
        ),
        auth::signed_in(d, authorization) matches Err(e) ==> auth::signed_in_admin(
            d,
            authorization,
        ) == Err::<UserView, ErrorReplyView>(e),
{
}

/// A captcha that can still be passed: it was handed out under the given number, was not
/// answered yet, and is not past its five minutes.
pub open spec fn open_captcha(
    store: Map<Seq<char>, CaptchaSessionView>,
    id: Seq<char>,
    now: int,
) -> bool {
    &&& store.contains_key(id)
    &&& !store[id].used
    &&& now - store[id].created_at <= 300_000_000_000
}

/// A request passes its captcha exactly where it names one that is still open and answers it
/// with its code, in small or capital letters. It is spent by that.
pub proof fn captchas_are_passed_by_their_code(
    store: Map<Seq<char>, CaptchaSessionView>,
    req: LoginRequestView,
    now: int,
    id: Seq<char>,
    code: Seq<char>,
)
    requires
        req.captcha_id == Some(id),
        req.captcha_code == Some(code),
    ensures
        ({
            let (after, verdict) = auth::captcha_of(store, req, now);
            &&& verdict is Ok <==> id.len() > 0 && code.len() > 0 && open_captcha(store, id, now)
                && store[id].code == outside::uppercase_text(code)
            &&& verdict is Ok ==> after.contains_key(id) && after[id].used
        }),
{
}

/// Nobody registers or logs in without passing a captcha: a request that names none, or does
/// not pass the one it names, is refused as bad, and changes no table.
pub proof fn nobody_gets_in_without_a_captcha(
    store: Map<Seq<char>, CaptchaSessionView>,
    store_after: Map<Seq<char>, CaptchaSessionView>,
    before: DbView,
    after: DbView,
    req: LoginRequestView,
    now: int,
    answer: ReplyView,
)
    requires
        auth::registration_handled(store, store_after, before, after, req, now, answer)
            || auth::login_handled(store, store_after, before, after, req, now, answer),
    ensures
        req.captcha_id is None || req.captcha_code is None ==> refuses(
            answer,
            400,
            "captcha_id and captcha_code are required"@,
        ) && after == before && store_after == store,
        answer is Ok || after != before ==> (req.captcha_id matches Some(id)
            && req.captcha_code matches Some(code) && open_captcha(store, id, now)
            && store[id].code == outside::uppercase_text(code) && store_after.contains_key(id)
            && store_after[id].used),
        req.captcha_id matches Some(id) ==> req.captcha_code matches Some(code) ==> (!open_captcha(
            store,
            id,
            now,
        ) || store[id].code != outside::uppercase_text(code)) ==> answer is Err && (
        answer->Err_0).status == 400 && after == before,
{
}

/// With the captcha passed, a registration and a login go their way.
pub proof fn passed_captchas_let_requests_through(
    store: Map<Seq<char>, CaptchaSessionView>,
    store_after: Map<Seq<char>, CaptchaSessionView>,
    before: DbView,
    after: DbView,
    req: LoginRequestView,
    now: int,
    answer: ReplyView,
    id: Seq<char>,
    code: Seq<char>,
)
    requires
        req.captcha_id == Some(id),
        req.captcha_code == Some(code),
        id.len() > 0,
        code.len() > 0,
        open_captcha(store, id, now),
        store[id].code == outside::uppercase_text(code),
    ensures
        auth::registration_handled(store, store_after, before, after, req, now, answer)
            ==> auth::registered(before, after, req, answer),
        auth::login_handled(store, store_after, before, after, req, now, answer)
            ==> auth::logged_in(before, after, req, answer),
{
}

/// A registration with a blank name or a blank password is refused as bad, and changes
/// nothing.
pub proof fn blank_names_and_passwords_are_refused(
    before: DbView,
    after: DbView,
    req: LoginRequestView,
    answer: ReplyView,
)
    requires
        auth::registered(before, after, req, answer),
        text_laws::blank(req.username) || text_laws::blank(req.password),
    ensures
        refuses(answer, 400, "username and password are required"@),
        after == before,
{
    text_laws::trimmed_texts_stay(req.username);
    text_laws::trimmed_texts_stay(req.password);
}

/// Who has registered is told their name without the white space round it, the role that
/// they have, and a login token, and is stored under that name with a hash that fits the
/// password as it was given. The first user is the administrator, everyone after that an
/// ordinary user. The token, unless it is empty, is stored for them.
pub proof fn registered_users_are_stored_and_told(
    before: DbView,
    after: DbView,
    req: LoginRequestView,
    answer: ReplyView,
)
    requires
        auth::registered(before, after, req, answer),
        answer is Ok,
    ensures
        ({
            let row = after.users.last();
            &&& answer matches Ok(a) && a.success && a.message == "registered successfully"@ && (
            a.data matches Some(DataView::Login { token, username, role }) && username
                == row.username && role == row.role && (token.len() > 0 ==> after.tokens.len()
                == before.tokens.len() + 1 && after.tokens.last().token == token
                && after.tokens.last().user_id == row.id) && (token.len() == 0 ==> after.tokens
                == before.tokens))
            &&& after.users.len() == before.users.len() + 1
            &&& after.users.drop_last() == before.users
            &&& row.id == before.last_user_id + 1
            &&& row.username == text::trimmed(req.username)
            &&& outside::bcrypt_verdict(req.password, row.password) == Ok::<bool, Seq<char>>(true)
            &&& row.role == if before.users.len() == 0 {
                "admin"@
            } else {
                "user"@
            }
            &&& forall|j: int|
                0 <= j < before.users.len() ==> (#[trigger] before.users[j]).username
                    != row.username
            &&& after.sessions == before.sessions && after.messages == before.messages
        }),
{
    let name = text::trimmed(req.username);
    assert(auth::name_registered(before, after, name, req.password, answer));
    let (hashed, joined, token, now) = choose|
        hashed: Result<Seq<char>, Seq<char>>,
        joined: Seq<char>,
        token: Seq<char>,
        now: Seq<char>,
    |
        {
            &&& db::hash_fits(req.password, hashed)
            &&& outside::is_simple_uuid(token)
            &&& (after, answer) == #[trigger] auth::register_step(
                before,
                name,
                hashed,
                joined,
                token,
                now,
            )
        };
    let hash = hashed->Ok_0;
    table_laws::users_join_behind_the_others(before, name, hash, joined);
    assert(after.users.drop_last() =~= before.users);
}

/// A registration with a name that nobody has succeeds, unless the password could not be
/// hashed; it is refused as a failure of the server then.
pub proof fn fresh_names_get_in(
    before: DbView,
    after: DbView,
    req: LoginRequestView,
    answer: ReplyView,
)
    requires
        before.fault is None,
        before.last_user_id < i64::MAX,
        auth::registered(before, after, req, answer),
        !text_laws::blank(req.username),
        !text_laws::blank(req.password),
        forall|j: int|
            0 <= j < before.users.len() ==> (#[trigger] before.users[j]).username != text::trimmed(
                req.username,
            ),
    ensures
        answer is Ok || (exists|m: Seq<char>|
            if text::has_part(m, "UNIQUE"@) {
                refuses(answer, 409, "username already exists"@)
            } else {
                #[trigger] refuses(answer, 500, m)
            }),
{
    lemma_blank(req.username);
    lemma_blank(req.password);
    let name = text::trimmed(req.username);
    assert(auth::name_registered(before, after, name, req.password, answer));
    let (hashed, joined, token, now) = choose|
        hashed: Result<Seq<char>, Seq<char>>,
        joined: Seq<char>,
        token: Seq<char>,
        now: Seq<char>,
    |
        {
            &&& db::hash_fits(req.password, hashed)
            &&& outside::is_simple_uuid(token)
            &&& (after, answer) == #[trigger] auth::register_step(
                before,
                name,
                hashed,
                joined,
                token,
                now,
            )
        };
    model::first_where_none(before.users, db::with_name(name));
    if let Ok(hash) = hashed {
        auth::fresh_names_are_registered(before, name, hash, joined, token, now);
    } else {
        let m = hashed->Err_0;
        if text::has_part(m, "UNIQUE"@) {
            assert(refuses(answer, 409, "username already exists"@));
            assert(!refuses(answer, 500, m));
        } else {
            assert(refuses(answer, 500, m));
        }
    }
}

/// A name that somebody has is refused as a conflict, whatever the password, as long as the
/// password could be hashed and the storage is in order; nothing changes.
pub proof fn taken_names_are_refused(
    before: DbView,
    name: Seq<char>,
    hash: Seq<char>,
    joined: Seq<char>,
    token: Seq<char>,
    now: Seq<char>,
    k: int,
)
    requires
        before.fault is None,
        before.last_user_id < i64::MAX,
        0 <= k < before.users.len(),
        before.users[k].username == name,
    ensures
        auth::register_step(before, name, Ok(hash), joined, token, now).0 == before,
        refuses(
            auth::register_step(before, name, Ok(hash), joined, token, now).1,
            409,
            "username already exists"@,
        ),
{
    model::first_where_finds(before.users, db::with_name(name));
    assert(db::with_name(name)(before.users[k]));
    auth::taken_name_is_a_conflict(before, name, Ok(hash), joined, token, now);
}

/// A login is decided by the password hash of the user with that name, white space round it
/// left out. Where the password fits, the user is told their name, their role and a login
/// token, and that token is stored for them and nothing else changes; unless the storage
/// could not take it. Where it does not fit, the login is refused and changes nothing.
pub proof fn logins_need_the_password(
    before: DbView,
    after: DbView,
    req: LoginRequestView,
    answer: ReplyView,
    k: int,
)
    requires
        db_laws::keyed(before),
        before.fault is None,
        auth::logged_in(before, after, req, answer),
        0 <= k < before.users.len(),
        before.users[k].username == text::trimmed(req.username),
    ensures
        ({
            let row = before.users[k];
            let verdict = outside::bcrypt_verdict(req.password, row.password);
            &&& verdict == Ok::<bool, Seq<char>>(false) ==> refuses(
                answer,
                401,
                "invalid username or password"@,
            ) && after == before
            &&& verdict matches Err(m) ==> refuses(answer, 500, m) && after == before
            &&& verdict == Ok::<bool, Seq<char>>(true) && answer is Ok ==> (answer matches Ok(a)
                && a.success && a.message == "login successful"@ && (a.data matches Some(
                DataView::Login { token, username, role },
            ) && username == row.username && role == row.role && token.len() == 32 && after == (
            DbView { tokens: after.tokens, ..before }) && after.tokens.len() == before.tokens.len()
                + 1 && after.tokens.drop_last() == before.tokens && after.tokens.last().token
                == token && after.tokens.last().user_id == row.id))
            &&& verdict == Ok::<bool, Seq<char>>(true) && answer is Err ==> after == before && (
            answer->Err_0).status == 500
        }),
{
    let row = before.users[k];
    table_laws::logins_are_decided_by_the_hash(before, k, req.password);
    let verdict = outside::bcrypt_verdict(req.password, row.password);
    if verdict == Ok::<bool, Seq<char>>(true) {
        let user = before.verify_user(text::trimmed(req.username), req.password)->Ok_0->0;
        let given = choose|given: Result<Seq<char>, DbErrorView>|
            {
                &&& #[trigger] db::token_created(before, after, user.id, given)
                &&& answer == match given {
                    Ok(t) => Ok::<ApiResponseView, ErrorReplyView>(
                        auth::welcome("login successful"@, user, t),
                    ),
                    Err(e) => Err(auth::table_failure(e)),
                }
            };
        assert(db::token_created(before, after, user.id, given));
        if given is Ok {
            assert(after.tokens.drop_last() =~= before.tokens);
        }
    }
}

/// A login under a name that nobody has is refused as one with a wrong password is.
pub proof fn unknown_names_are_refused_alike(
    before: DbView,
    after: DbView,
    req: LoginRequestView,
    answer: ReplyView,
)
    requires
        before.fault is None,
        auth::logged_in(before, after, req, answer),
        forall|j: int|
            0 <= j < before.users.len() ==> (#[trigger] before.users[j]).username != text::trimmed(
                req.username,
            ),
    ensures
        refuses(answer, 401, "invalid username or password"@),
        after == before,
{
    model::first_where_none(before.users, db::with_name(text::trimmed(req.username)));
}

/// The `k`-th user has a hash that fits the password, and nothing else is different.
pub open spec fn only_password_set(
    before: DbView,
    after: DbView,
    k: int,
    password: Seq<char>,
) -> bool {
    let row = after.users[k];
    &&& after.users == before.users.update(k, row)
    &&& row == (UserRowView { password: row.password, ..before.users[k] })
    &&& outside::bcrypt_verdict(password, row.password) == Ok::<bool, Seq<char>>(true)
    &&& after == (DbView { users: after.users, ..before })
}

proof fn lemma_password_set(
    before: DbView,
    after: DbView,
    k: int,
    password: Seq<char>,
    message: Seq<char>,
    answer: ReplyView,
)
    requires
        db_laws::keyed(before),
        before.fault is None,
        0 <= k < before.users.len(),
        auth::password_set(before, after, before.users[k].username, password, message, answer),
    ensures
        answer is Ok ==> grants(answer, message, None) && only_password_set(
            before,
            after,
            k,
            password,
        ),
        answer is Err ==> after == before && (answer->Err_0).status == 500,
{
    let name = before.users[k].username;
    let result = choose|result: Result<(), DbErrorView>|
        #[trigger] db::password_updated(before, after, name, password, result) && answer
            == auth::password_answer(result, message);
    let hashed = choose|hashed: Result<Seq<char>, Seq<char>>|
        db::hash_fits(password, hashed) && (after, result) == #[trigger] before.update_password(
            name,
            hashed,
        );
    if answer is Ok {
        let hash = hashed->Ok_0;
        assert forall|j: int| 0 <= j < before.users.len() && j != k implies (
        #[trigger] before.users[j]).username != name by {
            if j < k {
                assert(before.users[j].username != before.users[k].username);
            } else {
                assert(before.users[k].username != before.users[j].username);
            }
        }
        assert(after.users =~= before.users.update(k, after.users[k]));
    }
}

/// A user changes their own password by proving to know the old one: the hash in their row is
/// replaced by one that fits the new password, white space round it left out, and nothing
/// else changes. A blank new password is refused as bad, and a wrong old one as unauthorized,
/// without any change.
pub proof fn own_passwords_are_changed_by_who_knows_them(
    before: DbView,
    after: DbView,
    authorization: Option<Seq<char>>,
    req: ChangePasswordRequestView,
    answer: ReplyView,
    i: int,
    k: int,
)
    requires
        before.wf(),
        db_laws::keyed(before),
        signed_by(before, authorization, i, k),
        auth::own_password_changed(before, after, authorization, req, answer),
    ensures
        ({
            let old_password = match req.old_password {
                Some(p) => p,
                None => Seq::empty(),
            };
            let verdict = outside::bcrypt_verdict(old_password, before.users[k].password);
            let blank = text_laws::blank(req.new_password);
            &&& blank ==> refuses(answer, 400, "new password is required"@) && after == before
            &&& !blank && verdict == Ok::<bool, Seq<char>>(false) ==> refuses(
                answer,
                401,
                "old password is incorrect"@,
            ) && after == before
            &&& verdict matches Err(m) ==> !blank ==> refuses(answer, 500, m) && after == before
            &&& answer is Ok ==> verdict == Ok::<bool, Seq<char>>(true) && grants(
                answer,
                "password changed"@,
                None,
            ) && only_password_set(before, after, k, text::trimmed(req.new_password))
            &&& answer is Err ==> after == before
        }),
{
    tokens_sign_their_users_in(before, authorization, i, k);
    lemma_blank(req.new_password);
    let old_password = text::text_or_empty(req.old_password);
    table_laws::logins_are_decided_by_the_hash(before, k, old_password);
    let verdict = outside::bcrypt_verdict(old_password, before.users[k].password);
    let user = auth::signed_in(before, authorization)->Ok_0;
    assert(user.username == before.users[k].username);
    if let Ok(fits) = verdict {
        assert(fits || verdict == Ok::<bool, Seq<char>>(false));
    }
    if auth::own_password_check(before, authorization, req) is Ok {
        assert(verdict == Ok::<bool, Seq<char>>(true));
        lemma_password_set(
            before,
            after,
            k,
            text::trimmed(req.new_password),
            "password changed"@,
            answer,
        );
    }
}

proof fn lemma_blank(s: Seq<char>)
    ensures
        text_laws::blank(s) <==> text::trimmed(s).len() == 0,
{
    text_laws::trimmed_texts_stay(s);
    let (a, b) = text_laws::trimming_cuts_white_space_at_the_ends(s);
    if text::trimmed(s).len() == 0 {
        assert forall|i: int| 0 <= i < s.len() implies text::is_white_space(#[trigger] s[i]) by {
            if i < a.len() {
                assert(s[i] == a[i]);
            } else {
                assert(s[i] == b[i - a.len()]);
            }
        }
    }
}

/// The administrator changes the password of the user they name: the hash in that user's row
/// is replaced by one that fits the new password, white space round it left out, and nothing
/// else changes. Without a name, with a blank password or for a user who does not exist the
/// change is refused, and so it is for anyone else.
pub proof fn the_administrator_changes_any_password(
    before: DbView,
    after: DbView,
    authorization: Option<Seq<char>>,
    req: ChangePasswordRequestView,
    answer: ReplyView,
    k: int,
)
    requires
        db_laws::keyed(before),
        auth::any_password_changed(before, after, authorization, req, answer),
    ensures
        auth::signed_in(before, authorization) matches Ok(u) ==> u.role != "admin"@ ==> refuses(
            answer,
            403,
            "admin access required"@,
        ) && after == before,
        auth::signed_in(before, authorization) matches Err(e) ==> answer == Err::<
            ApiResponseView,
            ErrorReplyView,
        >(e) && after == before,
        auth::signed_in(before, authorization) matches Ok(u) ==> u.role == "admin"@ ==> {
            let blank = text_laws::blank(req.new_password);
            &&& req.username is None || req.username == Some(Seq::<char>::empty()) ==> refuses(
                answer,
                400,
                "target username is required"@,
            ) && after == before
            &&& req.username matches Some(name) ==> name.len() > 0 ==> {
                &&& blank ==> refuses(answer, 400, "new password is required"@) && after == before
                &&& !blank && (forall|j: int|
                    0 <= j < before.users.len() ==> (#[trigger] before.users[j]).username
                        != name) ==> refuses(answer, 404, "user not found"@) && after == before
                &&& !blank && 0 <= k < before.users.len() && before.users[k].username == name
                    && answer is Ok ==> grants(
                    answer,
                    "password changed for `"@ + name + "`"@,
                    None,
                ) && only_password_set(before, after, k, text::trimmed(req.new_password))
                &&& !blank && 0 <= k < before.users.len() && before.users[k].username == name
                    && answer is Err ==> (answer->Err_0).status == 500
            }
        },
        answer is Err ==> after == before,
{
    lemma_blank(req.new_password);
    let name = text::text_or_empty(req.username);
    model::first_where_finds(before.users, db::with_name(name));
    if auth::signed_in_admin(before, authorization) is Ok {
        assert(before.fault is None);
        if forall|j: int|
            0 <= j < before.users.len() ==> (#[trigger] before.users[j]).username != name {
            model::first_where_none(before.users, db::with_name(name));
        }
        if 0 <= k < before.users.len() && before.users[k].username == name {
            assert(db::with_name(name)(before.users[k]));
        }
        if auth::any_password_check(before, authorization, req) is Ok {
            let row = before.user_row(name)->0;
            let at = choose|at: int|
                0 <= at < before.users.len() && #[trigger] before.users[at] == row && db::with_name(
                    name,
                )(row);
            if 0 <= k < before.users.len() && before.users[k].username == name && at != k {
                if at < k {
                    assert(before.users[at].username != before.users[k].username);
                } else {
                    assert(before.users[k].username != before.users[at].username);
                }
            }
            lemma_password_set(
                before,
                after,
                at,
                text::trimmed(req.new_password),
                auth::changed_for(name),
                answer,
            );
        }
    }
}

/// A failure of the tables is told as one of the server, in the words of the tables.
pub proof fn table_failures_are_told(e: DbErrorView, m: Seq<char>)
    ensures
        auth::table_failure(e).status == 500,
        auth::table_failure(e).body == (ApiResponseView {
            success: false,
            message: e.text(),
            data: None,
        }),
        DbErrorView::Full.text() == "database or disk is full"@,
        DbErrorView::ForeignKey.text() == "FOREIGN KEY constraint failed"@,
        !text::has_part(m, "UNIQUE"@) ==> auth::registration_refusal(DbErrorView::Storage(m))
            == auth::table_failure(DbErrorView::Storage(m)),
{
}

} // verus!
