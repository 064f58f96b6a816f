//! What holds of the tables across operations.

use vstd::prelude::*;

use crate::db::{DbErrorView, DbView, MessageView, SessionView, UserRowView, UserView};
use crate::{db, model, outside};

verus! {

/// Accounts, user names, user numbers and tokens are each unique, and every token
/// belongs to a user.
pub open spec fn keyed(d: DbView) -> bool {
    &&& forall|i: int, j: int|
        0 <= i < j < d.sessions.len() ==> (#[trigger] d.sessions[i]).user_id != (
        #[trigger] d.sessions[j]).user_id
    &&& forall|i: int, j: int|
        0 <= i < j < d.users.len() ==> (#[trigger] d.users[i]).username != (
        #[trigger] d.users[j]).username
    &&& forall|i: int, j: int|
        0 <= i < j < d.tokens.len() ==> (#[trigger] d.tokens[i]).token != (
        #[trigger] d.tokens[j]).token
    &&& forall|i: int|
        0 <= i < d.tokens.len() ==> model::any_where(
            d.users,
            db::with_id((#[trigger] d.tokens[i]).user_id),
        )
}

/// Some user is the administrator, unless there are no users.
pub open spec fn administered(d: DbView) -> bool {
    d.users.len() > 0 ==> model::any_where(d.users, db::with_role("admin"@))
}

/// The step from `a` to `b` is one that an operation on the tables may make.
pub open spec fn table_step(a: DbView, b: DbView) -> bool {
    ||| exists|u: Seq<char>, t: Seq<char>, g: Option<Seq<char>>, c: Seq<char>|
        b == #[trigger] a.save_context_token(u, t, g, c)
    ||| exists|u: Seq<char>, c: Seq<char>| b == #[trigger] a.save_updates_buf(u, c)
    ||| exists|u: Seq<char>, h: Seq<char>, n: Seq<char>|
        b == (#[trigger] a.insert_user(u, h, n)).0
    ||| exists|t: Seq<char>, u: int, n: Seq<char>|
        b == (#[trigger] a.insert_auth_token(t, u, n)).0
    ||| exists|u: Seq<char>, h: Seq<char>| b == #[trigger] a.set_password(u, h)
    ||| exists|u: Seq<char>, d: Seq<char>, c: Seq<char>, t: Seq<char>, r: Seq<char>, n: Seq<char>|
        b == (#[trigger] a.insert_message(u, d, c, t, r, n)).0
    ||| b == a.with_admin()
}

proof fn lemma_ids_kept(a: Seq<UserRowView>, b: Seq<UserRowView>, id: int)
    requires
        a.len() <= b.len(),
        forall|i: int| 0 <= i < a.len() ==> (#[trigger] b[i]).id == a[i].id,
        model::any_where(a, db::with_id(id)),
    ensures
        model::any_where(b, db::with_id(id)),
{
    let p = db::with_id(id);
    let i = choose|i: int| 0 <= i < a.len() && p(#[trigger] a[i]);
    assert(p(b[i]));
}

/// Every operation keeps the numbering, the unique keys and the administrator.
pub proof fn operations_keep_the_invariants(a: DbView, b: DbView)
    requires
        table_step(a, b),
    ensures
        a.wf() ==> b.wf(),
        keyed(a) ==> keyed(b),
        administered(a) ==> administered(b),
{
    if b.users.len() >= a.users.len() && forall|i: int|
        0 <= i < a.users.len() ==> (#[trigger] b.users[i]).id == a.users[i].id {
        assert forall|i: int| keyed(a) && 0 <= i < a.tokens.len() implies model::any_where(
            b.users,
            db::with_id((#[trigger] a.tokens[i]).user_id),
        ) by {
            lemma_ids_kept(a.users, b.users, a.tokens[i].user_id);
        }
    }
    let ua = a.users.map_values(|u: UserRowView| u.id);
    let ub = b.users.map_values(|u: UserRowView| u.id);
    let ma = a.messages.map_values(|m: MessageView| m.id);
    let mb = b.messages.map_values(|m: MessageView| m.id);
    assert(a.users == b.users ==> ua == ub);
    assert(a.messages == b.messages ==> ma == mb);
    if administered(a) && a.users.len() > 0 {
        let p = db::with_role("admin"@);
        let k = choose|k: int| 0 <= k < a.users.len() && p(#[trigger] a.users[k]);
        if k < b.users.len() && b.users[k].role == a.users[k].role {
            assert(p(b.users[k]));
        }
    }
    if exists|u: Seq<char>, h: Seq<char>, n: Seq<char>| b == (#[trigger] a.insert_user(u, h, n)).0 {
        let (u, h, n) = choose|u: Seq<char>, h: Seq<char>, n: Seq<char>|
            b == (#[trigger] a.insert_user(u, h, n)).0;
        if a.insert_user(u, h, n).1 is Ok {
            assert(ub =~= ua.push(a.last_user_id + 1));
            let p = db::with_name(u);
            assert forall|i: int| 0 <= i < a.users.len() implies (#[trigger] a.users[i]).username
                != u by {
                assert(!p(a.users[i]));
            }
            if a.users.len() == 0 {
                assert(db::with_role("admin"@)(b.users[0]));
            }
        }
    } else if exists|t: Seq<char>, u: int, n: Seq<char>|
        b == (#[trigger] a.insert_auth_token(t, u, n)).0 {
        let (t, u, n) = choose|t: Seq<char>, u: int, n: Seq<char>|
            b == (#[trigger] a.insert_auth_token(t, u, n)).0;
        if a.insert_auth_token(t, u, n).1 is Ok {
            let p = db::with_token(t);
            assert forall|i: int| 0 <= i < a.tokens.len() implies (#[trigger] a.tokens[i]).token
                != t by {
                assert(!p(a.tokens[i]));
            }
        }
    } else if exists|u: Seq<char>, h: Seq<char>| b == #[trigger] a.set_password(u, h) {
        assert(ub =~= ua);
    } else if exists|
        u: Seq<char>,
        d: Seq<char>,
        c: Seq<char>,
        t: Seq<char>,
        r: Seq<char>,
        n: Seq<char>,
    |
        b == (#[trigger] a.insert_message(u, d, c, t, r, n)).0 {
        let (u, d, c, t, r, n) = choose|
            u: Seq<char>,
            d: Seq<char>,
            c: Seq<char>,
            t: Seq<char>,
            r: Seq<char>,
            n: Seq<char>,
        |
            b == (#[trigger] a.insert_message(u, d, c, t, r, n)).0;
        if a.insert_message(u, d, c, t, r, n).1 is Ok {
            assert(mb =~= ma.push(a.last_message_id + 1));
        }
    } else if b == a.with_admin() {
        assert(ub =~= ua);
        if b != a {
            assert(db::with_role("admin"@)(b.users[0]));
        }
    } else if exists|u: Seq<char>, t: Seq<char>, g: Option<Seq<char>>, c: Seq<char>|
        b == #[trigger] a.save_context_token(u, t, g, c) {
        let (u, t, g, c) = choose|u: Seq<char>, t: Seq<char>, g: Option<Seq<char>>, c: Seq<char>|
            b == #[trigger] a.save_context_token(u, t, g, c);
        let p = db::of_account(u);
        if !model::any_where(a.sessions, p) {
            assert forall|i: int| 0 <= i < a.sessions.len() implies (
            #[trigger] a.sessions[i]).user_id != u by {
                assert(!p(a.sessions[i]));
            }
        }
    }
}

/// A saved context token is what a later read of the account gives, together with
/// the key and tag that were saved; the cursor stays as it was, and is empty for an
/// account that was not known. Every other account reads as before.
pub proof fn saved_context_token_is_read_back(
    d: DbView,
    user_id: Seq<char>,
    bot_token: Seq<char>,
    route_tag: Option<Seq<char>>,
    context_token: Seq<char>,
    other: Seq<char>,
)
    requires
        d.fault is None,
        other != user_id,
    ensures
        ({
            let after = d.save_context_token(user_id, bot_token, route_tag, context_token);
            &&& after.session(user_id) == Some(
                SessionView {
                    user_id,
                    bot_token,
                    route_tag,
                    context_token,
                    updates_buf: match d.session(user_id) {
                        Some(s) => s.updates_buf,
                        None => Seq::empty(),
                    },
                },
            )
            &&& after.session(other) == d.session(other)
        }),
{
    let after = d.save_context_token(user_id, bot_token, route_tag, context_token);
    let p = db::of_account(user_id);
    let q = db::of_account(other);
    model::first_where_finds(d.sessions, p);
    model::first_where_finds(d.sessions, q);
    if model::any_where(d.sessions, p) {
        let i = choose|i: int|
            0 <= i < d.sessions.len() && #[trigger] d.sessions[i] == d.session(user_id)->0 && p(
                d.sessions[i],
            ) && forall|j: int| 0 <= j < i ==> !p(#[trigger] d.sessions[j]);
        assert forall|j: int| 0 <= j < i implies !p(#[trigger] after.sessions[j]) by {
            assert(!p(d.sessions[j]));
        }
        model::first_where_is(after.sessions, p, i);
        if d.session(other) is Some {
            let k = choose|k: int|
                0 <= k < d.sessions.len() && #[trigger] d.sessions[k] == d.session(other)->0 && q(
                    d.sessions[k],
                ) && forall|j: int| 0 <= j < k ==> !q(#[trigger] d.sessions[j]);
            assert forall|j: int| 0 <= j < k implies !q(#[trigger] after.sessions[j]) by {
                assert(!q(d.sessions[j]));
            }
            model::first_where_is(after.sessions, q, k);
        } else {
            assert forall|j: int| 0 <= j < after.sessions.len() implies !q(
                #[trigger] after.sessions[j],
            ) by {
                assert(!q(d.sessions[j]));
            }
            model::first_where_none(after.sessions, q);
        }
    } else {
        let n = d.sessions.len() as int;
        assert forall|j: int| 0 <= j < n implies !p(#[trigger] after.sessions[j]) by {
            assert(!p(d.sessions[j]));
        }
        model::first_where_is(after.sessions, p, n);
        assert(after.sessions.drop_last() =~= d.sessions);
    }
}

/// A saved cursor is what a later read of a known account gives, and nothing else
/// of the account changes; an unknown account stays unknown, and every other
/// account reads as before.
pub proof fn saved_cursor_is_read_back(
    d: DbView,
    user_id: Seq<char>,
    updates_buf: Seq<char>,
    other: Seq<char>,
)
    requires
        d.fault is None,
        other != user_id,
    ensures
        ({
            let after = d.save_updates_buf(user_id, updates_buf);
            &&& after.session(user_id) == match d.session(user_id) {
                Some(s) => Some(SessionView { updates_buf, ..s }),
                None => None,
            }
            &&& after.session(other) == d.session(other)
        }),
{
    let after = d.save_updates_buf(user_id, updates_buf);
    let f = |s: SessionView|
        if s.user_id == user_id {
            SessionView { updates_buf, ..s }
        } else {
            s
        };
    assert(after.sessions =~= d.sessions.map_values(f));
    lemma_mapped_lookup(d.sessions, f, user_id);
    lemma_mapped_lookup(d.sessions, f, other);
    model::first_where_finds(d.sessions, db::of_account(user_id));
    model::first_where_finds(d.sessions, db::of_account(other));
}

/// A change of rows that keeps their account finds the changed row.
proof fn lemma_mapped_lookup(
    rows: Seq<SessionView>,
    f: spec_fn(SessionView) -> SessionView,
    user_id: Seq<char>,
)
    requires
        forall|s: SessionView| (#[trigger] f(s)).user_id == s.user_id,
    ensures
        model::first_where(rows.map_values(f), db::of_account(user_id)) == match model::first_where(
            rows,
            db::of_account(user_id),
        ) {
            Some(s) => Some(f(s)),
            None => None,
        },
    decreases rows.len(),
{
    if rows.len() > 0 {
        lemma_mapped_lookup(rows.drop_last(), f, user_id);
        assert(rows.map_values(f).drop_last() =~= rows.drop_last().map_values(f));
        assert(rows.map_values(f).last() == f(rows.last()));
    }
}

/// A user who was created can log in with the password, and is found by name and
/// by number.
pub proof fn created_user_can_log_in(
    before: DbView,
    after: DbView,
    username: Seq<char>,
    password: Seq<char>,
    user: UserView,
)
    requires
        before.wf(),
        db::user_created(before, after, username, password, Ok(user)),
    ensures
        after.verify_user(username, password) == Ok::<Option<UserView>, DbErrorView>(Some(user)),
        after.user_by_name(username) == Some(user),
        after.user_by_id(user.id) == Some(user),
        user.username == username,
        user.role == before.next_role(),
{
    let (hashed, now) = choose|hashed: Result<Seq<char>, Seq<char>>, now: Seq<char>|
        db::hash_fits(password, hashed) && (after, Ok::<UserView, DbErrorView>(user))
            == #[trigger] before.create_user(username, hashed, now);
    let p = db::with_name(username);
    let q = db::with_id(user.id);
    let n = before.users.len() as int;
    let ids = before.users.map_values(|u: UserRowView| u.id);
    assert forall|j: int| 0 <= j < n implies !p(#[trigger] after.users[j]) && !q(
        after.users[j],
    ) by {
        assert(!p(before.users[j]));
        assert(ids[j] <= before.last_user_id);
    }
    model::first_where_is(after.users, p, n);
    model::first_where_is(after.users, q, n);
}

/// A user name can be taken once: creating it again is refused, whatever the
/// password, and changes nothing.
pub proof fn taken_name_is_refused(d: DbView, username: Seq<char>, hash: Seq<char>, now: Seq<char>)
    requires
        d.user_by_name(username) is Some,
    ensures
        d.insert_user(username, hash, now).0 == d,
        d.insert_user(username, hash, now).1 is Err,
        d.fault is None && d.last_user_id < i64::MAX ==> d.insert_user(username, hash, now).1
            == Err::<UserView, DbErrorView>(DbErrorView::Unique("users.username"@)),
{
    model::first_where_finds(d.users, db::with_name(username));
}

/// The first user is the administrator, and every later one an ordinary user.
pub proof fn first_user_is_admin(d: DbView, username: Seq<char>, hash: Seq<char>, now: Seq<char>)
    requires
        d.insert_user(username, hash, now).1 is Ok,
    ensures
        d.users.len() == 0 ==> d.insert_user(username, hash, now).1->Ok_0.role == "admin"@,
        d.users.len() > 0 ==> d.insert_user(username, hash, now).1->Ok_0.role == "user"@,
{
}

/// After the promotion some user is the administrator, unless there are no users or
/// the storage failed.
pub proof fn promotion_gives_an_admin(d: DbView)
    requires
        d.fault is None,
    ensures
        administered(d.with_admin()),
{
    if d.users.len() > 0 && !model::any_where(d.users, db::with_role("admin"@)) {
        assert(db::with_role("admin"@)(d.with_admin().users[0]));
    }
}

/// After a change of password the user logs in with the new one and is otherwise as
/// before, and so is every other user; where nobody has the name, nothing changes.
pub proof fn updated_password_is_accepted(
    before: DbView,
    after: DbView,
    username: Seq<char>,
    password: Seq<char>,
    other: Seq<char>,
)
    requires
        db::password_updated(before, after, username, password, Ok(())),
        other != username,
    ensures
        after.verify_user(username, password) == Ok::<Option<UserView>, DbErrorView>(
            before.user_by_name(username),
        ),
        after.user_row(other) == before.user_row(other),
        before.user_by_name(username) is None ==> after == before,
{
    let hashed = choose|hashed: Result<Seq<char>, Seq<char>>|
        db::hash_fits(password, hashed) && (after, Ok::<(), DbErrorView>(()))
            == #[trigger] before.update_password(username, hashed);
    let hash = hashed->Ok_0;
    let f = |u: UserRowView|
        if u.username == username {
            UserRowView { password: hash, ..u }
        } else {
            u
        };
    assert(after.users =~= before.users.map_values(f));
    lemma_mapped_user(before.users, f, username);
    lemma_mapped_user(before.users, f, other);
    model::first_where_finds(before.users, db::with_name(username));
    model::first_where_finds(before.users, db::with_name(other));
    if before.user_by_name(username) is None {
        assert forall|i: int| 0 <= i < before.users.len() implies #[trigger] after.users[i]
            == before.users[i] by {
            assert(!db::with_name(username)(before.users[i]));
        }
        assert(after.users =~= before.users);
    }
}

proof fn lemma_mapped_user(
    rows: Seq<UserRowView>,
    f: spec_fn(UserRowView) -> UserRowView,
    username: Seq<char>,
)
    requires
        forall|u: UserRowView| (#[trigger] f(u)).username == u.username,
    ensures
        model::first_where(rows.map_values(f), db::with_name(username)) == match model::first_where(
            rows,
            db::with_name(username),
        ) {
            Some(u) => Some(f(u)),
            None => None,
        },
    decreases rows.len(),
{
    if rows.len() > 0 {
        lemma_mapped_user(rows.drop_last(), f, username);
        assert(rows.map_values(f).drop_last() =~= rows.drop_last().map_values(f));
        assert(rows.map_values(f).last() == f(rows.last()));
    }
}

/// A login token that was created belongs to the user it was created for, and every
/// other token keeps its owner.
pub proof fn created_token_is_valid(
    before: DbView,
    after: DbView,
    user_id: int,
    token: Seq<char>,
    other: Seq<char>,
)
    requires
        db::token_created(before, after, user_id, Ok(token)),
        other != token,
    ensures
        after.token_owner(token) == before.user_by_id(user_id),
        after.token_owner(token) is Some,
        after.token_owner(other) == before.token_owner(other),
{
    let (t, now) = choose|t: Seq<char>, now: Seq<char>|
        {
            &&& outside::is_simple_uuid(t)
            &&& after == (#[trigger] before.insert_auth_token(t, user_id, now)).0
            &&& match before.insert_auth_token(t, user_id, now).1 {
                Ok(_) => Ok::<Seq<char>, DbErrorView>(token) == Ok::<Seq<char>, DbErrorView>(t),
                Err(e) => Ok::<Seq<char>, DbErrorView>(token) == Err::<Seq<char>, DbErrorView>(e),
            }
        };
    let p = db::with_token(token);
    let n = before.tokens.len() as int;
    assert forall|j: int| 0 <= j < n implies !p(#[trigger] after.tokens[j]) by {
        assert(!p(before.tokens[j]));
    }
    model::first_where_is(after.tokens, p, n);
    model::first_where_finds(before.users, db::with_id(user_id));
    assert(after.tokens.drop_last() =~= before.tokens);
}

/// A message that was saved is the newest of its account and of all; the messages of
/// other accounts are as before.
pub proof fn saved_message_is_newest(
    d: DbView,
    account: Seq<char>,
    direction: Seq<char>,
    content: Seq<char>,
    msg_type: Seq<char>,
    raw_json: Seq<char>,
    now: Seq<char>,
    other: Seq<char>,
)
    requires
        d.insert_message(account, direction, content, msg_type, raw_json, now).1 is Ok,
        other != account,
    ensures
        ({
            let after = d.insert_message(account, direction, content, msg_type, raw_json, now).0;
            let row = MessageView {
                id: d.last_message_id + 1,
                wechat_user_id: account,
                direction,
                content,
                msg_type,
                raw_json,
                created_at: now,
            };
            &&& after.newest_first(Some(account)) == seq![row] + d.newest_first(Some(account))
            &&& after.newest_first(None) == seq![row] + d.newest_first(None)
            &&& after.newest_first(Some(other)) == d.newest_first(Some(other))
        }),
{
    reveal(Seq::filter);
    let after = d.insert_message(account, direction, content, msg_type, raw_json, now).0;
    assert(after.messages.drop_last() =~= d.messages);
    let row = after.messages.last();
    assert(after.newest_first(Some(account)) =~= seq![row] + d.newest_first(Some(account)));
    assert(after.newest_first(None) =~= seq![row] + d.newest_first(None));
}

/// An operation that is refused changes nothing.
pub proof fn refused_operations_change_nothing(
    d: DbView,
    a: Seq<char>,
    b: Seq<char>,
    c: Seq<char>,
    e: Seq<char>,
    f: Seq<char>,
    tag: Option<Seq<char>>,
    now: Seq<char>,
    id: int,
)
    ensures
        d.insert_user(a, b, now).1 is Err ==> d.insert_user(a, b, now).0 == d,
        d.insert_auth_token(a, id, now).1 is Err ==> d.insert_auth_token(a, id, now).0 == d,
        d.insert_message(a, b, c, e, f, now).1 is Err ==> d.insert_message(a, b, c, e, f, now).0
            == d,
        d.guard(()) is Err ==> d.save_context_token(a, b, tag, c) == d,
        d.guard(()) is Err ==> d.save_updates_buf(a, b) == d,
        d.guard(()) is Err ==> d.set_password(a, b) == d,
{
}

/// The messages of an account are spread over the pages without gap or overlap: with
/// a positive page size, the `k`-th newest message stands on page `k / size + 1` at
/// place `k % size`, and a page holds nothing else.
pub proof fn pages_cover_every_message(
    d: DbView,
    account: Option<Seq<char>>,
    page_size: int,
    k: int,
)
    requires
        page_size > 0,
        0 <= k < d.newest_first(account).len(),
    ensures
        ({
            let page = d.message_page(account, k / page_size + 1, page_size).0;
            &&& k % page_size < page.len() <= page_size
            &&& page[k % page_size] == d.newest_first(account)[k]
        }),
{
    let rows = d.newest_first(account);
    let n = rows.len() as int;
    vstd::arithmetic::div_mod::lemma_fundamental_div_mod(k, page_size);
    vstd::arithmetic::div_mod::lemma_mod_bound(k, page_size);
    let q = k / page_size;
    assert((q + 1 - 1) * page_size == page_size * q) by (nonlinear_arith);
    assert(0 <= page_size * q) by {
        vstd::arithmetic::div_mod::lemma_div_pos_is_pos(k, page_size);
        assert(0 <= page_size * q) by (nonlinear_arith)
            requires
                0 <= q,
                0 < page_size,
        ;
    }
}

/// The accounts that are listed are exactly those that a single lookup finds: an account
/// is found where it is listed under its number, and each number is listed once.
pub proof fn listed_accounts_are_those_found(d: DbView, user_id: Seq<char>, s: SessionView)
    requires
        d.fault is None,
        keyed(d),
    ensures
        d.guard(d.session(user_id)) == Ok::<Option<SessionView>, DbErrorView>(Some(s)) <==> (
        d.sessions.contains(s) && s.user_id == user_id),
        d.guard(d.session(user_id)) == Ok::<Option<SessionView>, DbErrorView>(None) <==> forall|
            i: int,
        |
            0 <= i < d.sessions.len() ==> (#[trigger] d.sessions[i]).user_id != user_id,
        forall|i: int, j: int|
            0 <= i < d.sessions.len() && 0 <= j < d.sessions.len() && (
            #[trigger] d.sessions[i]).user_id == (#[trigger] d.sessions[j]).user_id ==> i == j,
{
    let p = db::of_account(user_id);
    model::first_where_finds(d.sessions, p);
    if let Some(found) = d.session(user_id) {
        let i = choose|i: int|
            0 <= i < d.sessions.len() && #[trigger] d.sessions[i] == found && p(found);
        assert(d.sessions[i].user_id == user_id);
        if d.sessions.contains(s) && s.user_id == user_id {
            let j = choose|j: int| 0 <= j < d.sessions.len() && d.sessions[j] == s;
            assert(d.sessions[j].user_id == d.sessions[i].user_id);
            assert(i == j);
        }
    } else {
        assert forall|i: int| 0 <= i < d.sessions.len() implies (
        #[trigger] d.sessions[i]).user_id != user_id by {
            assert(!p(d.sessions[i]));
        }
    }
}

/// The users that a listing gives, without their passwords.
pub open spec fn listed_users(d: DbView) -> Seq<UserView> {
    d.users.map_values(|u: UserRowView| u.user())
}

/// A lookup by name gives the one listed user of exactly that name, or none where nobody
/// has it; no two listed users have one name.
pub proof fn name_finds_the_one_listed_user(d: DbView, username: Seq<char>, u: UserView)
    requires
        d.fault is None,
        keyed(d),
    ensures
        d.guard(d.user_by_name(username)) == Ok::<Option<UserView>, DbErrorView>(Some(u)) <==> (
        listed_users(d).contains(u) && u.username == username),
        d.guard(d.user_by_name(username)) == Ok::<Option<UserView>, DbErrorView>(None)
            <==> forall|i: int|
            0 <= i < listed_users(d).len() ==> (#[trigger] listed_users(d)[i]).username
                != username,
        forall|i: int, j: int|
            0 <= i < listed_users(d).len() && 0 <= j < listed_users(d).len() && (
            #[trigger] listed_users(d)[i]).username == (
            #[trigger] listed_users(d)[j]).username ==> i == j,
{
    let all = listed_users(d);
    let p = db::with_name(username);
    model::first_where_finds(d.users, p);
    assert forall|i: int, j: int|
        0 <= i < all.len() && 0 <= j < all.len() && (#[trigger] all[i]).username == (
        #[trigger] all[j]).username implies i == j by {
        assert(d.users[i].username == d.users[j].username);
    }
    if let Some(row) = d.user_row(username) {
        let i = choose|i: int| 0 <= i < d.users.len() && #[trigger] d.users[i] == row && p(row);
        assert(all[i] == row.user());
        if all.contains(u) && u.username == username {
            let j = choose|j: int| 0 <= j < all.len() && all[j] == u;
            assert(all[j].username == all[i].username);
        }
    } else {
        assert forall|i: int| 0 <= i < all.len() implies (#[trigger] all[i]).username
            != username by {
            assert(!p(d.users[i]));
        }
    }
}

/// A login with a name that nobody has is no error: it finds nobody.
pub proof fn unknown_names_log_nobody_in(d: DbView, username: Seq<char>, password: Seq<char>)
    requires
        d.fault is None,
        d.user_by_name(username) is None,
    ensures
        d.verify_user(username, password) == Ok::<Option<UserView>, DbErrorView>(None),
{
}

/// What a login with a known name gives stays the same until that user's password is
/// changed: no other operation touches it.
pub proof fn logins_survive_other_operations(
    d: DbView,
    username: Seq<char>,
    password: Seq<char>,
    a: Seq<char>,
    b: Seq<char>,
    c: Seq<char>,
    e: Seq<char>,
    f: Seq<char>,
    tag: Option<Seq<char>>,
    now: Seq<char>,
    id: int,
)
    requires
        d.user_by_name(username) is Some,
    ensures
        ({
            let given = d.verify_user(username, password);
            &&& d.save_context_token(a, b, tag, c).verify_user(username, password) == given
            &&& d.save_updates_buf(a, b).verify_user(username, password) == given
            &&& d.insert_user(a, b, now).0.verify_user(username, password) == given
            &&& d.insert_auth_token(a, id, now).0.verify_user(username, password) == given
            &&& d.insert_message(a, b, c, e, f, now).0.verify_user(username, password) == given
            &&& a != username ==> d.set_password(a, b).verify_user(username, password) == given
        }),
{
    let p = db::with_name(username);
    model::first_where_finds(d.users, p);
    let row = d.user_row(username)->0;
    let i = choose|i: int|
        0 <= i < d.users.len() && #[trigger] d.users[i] == row && p(row) && forall|j: int|
            0 <= j < i ==> !p(#[trigger] d.users[j]);
    let joined = d.insert_user(a, b, now).0;
    assert forall|j: int| 0 <= j < i implies !p(#[trigger] joined.users[j]) by {
        assert(!p(d.users[j]));
    }
    model::first_where_is(joined.users, p, i);
    let changed = d.set_password(a, b);
    if a != username {
        assert forall|j: int| 0 <= j < i implies !p(#[trigger] changed.users[j]) by {
            assert(!p(d.users[j]));
        }
        model::first_where_is(changed.users, p, i);
    }
}

} // verus!
