//! What the operations on the tables do to every row.

use vstd::prelude::*;

use crate::db::{AuthTokenView, DbErrorView, DbView, MessageView, SessionView, UserRowView, UserView};
use crate::{db, db_laws, model, outside};

verus! {

/// The row of a user who can be shown as `user`: the two agree in everything but the
/// password.
pub open spec fn shows(row: UserRowView, user: UserView) -> bool {
    &&& user.id == row.id
    &&& user.username == row.username
    &&& user.role == row.role
    &&& user.created_at == row.created_at
}

/// A lookup by number gives the one user with that number, without the password, and
/// nobody where no user has it.
pub proof fn numbers_find_their_users(d: DbView, k: int, id: int)
    requires
        d.wf(),
    ensures
        0 <= k < d.users.len() ==> (d.user_by_id(d.users[k].id) matches Some(u) && shows(
            d.users[k],
            u,
        )),
        (forall|j: int| 0 <= j < d.users.len() ==> (#[trigger] d.users[j]).id != id)
            ==> d.user_by_id(id) is None,
{
    let ids = d.users.map_values(|u: UserRowView| u.id);
    if 0 <= k < d.users.len() {
        let p = db::with_id(d.users[k].id);
        assert forall|j: int| 0 <= j < k implies !p(#[trigger] d.users[j]) by {
            assert(ids[j] < ids[k]);
        }
        model::first_where_is(d.users, p, k);
    }
    if forall|j: int| 0 <= j < d.users.len() ==> (#[trigger] d.users[j]).id != id {
        model::first_where_none(d.users, db::with_id(id));
    }
}

/// A login token belongs to the user whose number its row holds; a token that no row holds
/// belongs to nobody.
pub proof fn tokens_belong_to_the_user_of_their_row(d: DbView, i: int, k: int, token: Seq<char>)
    requires
        d.wf(),
        db_laws::keyed(d),
    ensures
        0 <= i < d.tokens.len() && 0 <= k < d.users.len() && d.tokens[i].user_id == d.users[k].id
            ==> (d.token_owner(d.tokens[i].token) matches Some(u) && shows(d.users[k], u)),
        (forall|j: int| 0 <= j < d.tokens.len() ==> (#[trigger] d.tokens[j]).token != token)
            ==> d.token_owner(token) is None,
{
    if 0 <= i < d.tokens.len() {
        let p = db::with_token(d.tokens[i].token);
        assert forall|j: int| 0 <= j < i implies !p(#[trigger] d.tokens[j]) by {
            assert(d.tokens[j].token != d.tokens[i].token);
        }
        model::first_where_is(d.tokens, p, i);
        numbers_find_their_users(d, k, 0);
    }
    if forall|j: int| 0 <= j < d.tokens.len() ==> (#[trigger] d.tokens[j]).token != token {
        model::first_where_none(d.tokens, db::with_token(token));
    }
}

/// A login is decided by the hash in the row of exactly that name: the user is given where
/// the password fits it, nobody where it does not, and a hash that cannot be read is
/// reported. A storage that failed is reported first.
pub proof fn logins_are_decided_by_the_hash(d: DbView, k: int, password: Seq<char>)
    requires
        db_laws::keyed(d),
        0 <= k < d.users.len(),
    ensures
        ({
            let row = d.users[k];
            let given = d.verify_user(row.username, password);
            let verdict = outside::bcrypt_verdict(password, row.password);
            &&& d.fault is None && verdict == Ok::<bool, Seq<char>>(true) ==> (given matches Ok(
                found,
            ) && found matches Some(u) && shows(row, u))
            &&& d.fault is None && verdict == Ok::<bool, Seq<char>>(false) ==> given == Ok::<
                Option<UserView>,
                DbErrorView,
            >(None)
            &&& verdict matches Err(m) ==> d.fault is None ==> given == Err::<
                Option<UserView>,
                DbErrorView,
            >(DbErrorView::Password(m))
            &&& d.fault matches Some(m) ==> given == Err::<Option<UserView>, DbErrorView>(
                DbErrorView::Storage(m),
            )
        }),
{
    let p = db::with_name(d.users[k].username);
    assert forall|j: int| 0 <= j < k implies !p(#[trigger] d.users[j]) by {
        assert(d.users[j].username != d.users[k].username);
    }
    model::first_where_is(d.users, p, k);
}

proof fn lemma_filtered_order(rows: Seq<MessageView>, p: spec_fn(MessageView) -> bool)
    requires
        forall|i: int, j: int|
            0 <= i < j < rows.len() ==> (#[trigger] rows[i]).id < (#[trigger] rows[j]).id,
    ensures
        forall|i: int, j: int|
            0 <= i < j < rows.filter(p).len() ==> (#[trigger] rows.filter(p)[i]).id < (
            #[trigger] rows.filter(p)[j]).id,
        forall|i: int|
            0 <= i < rows.filter(p).len() && rows.len() > 0 ==> (#[trigger] rows.filter(p)[i]).id
                <= rows.last().id,
    decreases rows.len(),
{
    reveal(Seq::filter);
    if rows.len() > 0 {
        let front = rows.drop_last();
        lemma_filtered_order(front, p);
        let kept = front.filter(p);
        let all = rows.filter(p);
        assert forall|i: int| 0 <= i < kept.len() implies (#[trigger] kept[i]).id
            < rows.last().id by {
            assert(kept[i].id <= front.last().id);
            assert(rows[front.len() - 1].id < rows[rows.len() - 1].id);
        }
        assert forall|i: int, j: int| 0 <= i < j < all.len() implies (#[trigger] all[i]).id < (
        #[trigger] all[j]).id by {
            assert(all[i] == kept[i]);
        }
        assert forall|i: int| 0 <= i < all.len() implies (#[trigger] all[i]).id
            <= rows.last().id by {
            if i < kept.len() {
                assert(all[i] == kept[i]);
            }
        }
    }
}

/// The messages of an account are exactly the stored ones that belong to it, and without an
/// account all of them; they stand from the largest number to the smallest.
pub proof fn newest_messages_come_first(d: DbView, account: Option<Seq<char>>, m: MessageView)
    requires
        d.wf(),
    ensures
        ({
            let rows = d.newest_first(account);
            &&& rows.contains(m) <==> d.messages.contains(m) && (account matches Some(u)
                ==> m.wechat_user_id == u)
            &&& forall|i: int, j: int|
                0 <= i < j < rows.len() ==> (#[trigger] rows[i]).id > (#[trigger] rows[j]).id
        }),
{
    let p = db::about_account(account);
    let kept = d.messages.filter(p);
    let rows = d.newest_first(account);
    let ids = d.messages.map_values(|m: MessageView| m.id);
    assert forall|i: int, j: int| 0 <= i < j < d.messages.len() implies (
    #[trigger] d.messages[i]).id < (#[trigger] d.messages[j]).id by {
        assert(ids[i] < ids[j]);
    }
    lemma_filtered_order(d.messages, p);
    assert forall|i: int, j: int| 0 <= i < j < rows.len() implies (#[trigger] rows[i]).id > (
    #[trigger] rows[j]).id by {
        let a = kept.len() - 1 - j;
        let b = kept.len() - 1 - i;
        assert(kept[a].id < kept[b].id);
    }
    if rows.contains(m) {
        let i = choose|i: int| 0 <= i < rows.len() && rows[i] == m;
        let at = kept.len() - 1 - i;
        assert(kept[at] == m);
        d.messages.lemma_filter_pred(p, at);
        d.messages.lemma_filter_contains_rev(p, m);
    }
    if d.messages.contains(m) && (account matches Some(u) ==> m.wechat_user_id == u) {
        let i = choose|i: int| 0 <= i < d.messages.len() && d.messages[i] == m;
        assert(p(d.messages[i]));
        d.messages.lemma_filter_contains(p, i);
        let at = choose|at: int| 0 <= at < kept.len() && kept[at] == m;
        assert(rows[kept.len() - 1 - at] == m);
    }
}

/// A page with a positive size skips what stands on the pages before it, holds as many
/// messages as its size where so many are left and otherwise the rest, and the count is
/// that of all messages. A page before the first is shown as the first.
pub proof fn pages_are_cut_from_the_newest(
    d: DbView,
    account: Option<Seq<char>>,
    page: int,
    page_size: int,
    i: int,
)
    requires
        page_size > 0,
    ensures
        ({
            let all = d.newest_first(account);
            let (rows, total) = d.message_page(account, page, page_size);
            let skipped = if page <= 1 {
                0
            } else {
                (page - 1) * page_size
            };
            &&& total == all.len()
            &&& rows.len() <= page_size
            &&& rows.len() == page_size || skipped + rows.len() == all.len() || rows.len() == 0
                && skipped >= all.len()
            &&& 0 <= i < rows.len() ==> skipped + i < all.len() && rows[i] == all[skipped + i]
        }),
{
    let offset = (page - 1) * page_size;
    if page > 1 {
        assert(offset > 0) by (nonlinear_arith)
            requires
                page > 1,
                page_size > 0,
                offset == (page - 1) * page_size,
        ;
    } else {
        assert(offset <= 0) by (nonlinear_arith)
            requires
                page <= 1,
                page_size > 0,
                offset == (page - 1) * page_size,
        ;
    }
}

/// A page of size zero is empty.
pub proof fn empty_pages_are_empty(d: DbView, account: Option<Seq<char>>, page: int)
    ensures
        d.message_page(account, page, 0).0.len() == 0,
        d.message_page(account, page, 0).1 == d.newest_first(account).len(),
{
}

/// The two tables agree in all but the accounts.
pub open spec fn only_accounts_differ(a: DbView, b: DbView) -> bool {
    &&& a.users == b.users
    &&& a.tokens == b.tokens
    &&& a.messages == b.messages
    &&& a.last_user_id == b.last_user_id
    &&& a.last_message_id == b.last_message_id
    &&& a.fault == b.fault
}

/// Saving a token or a cursor touches no table but the accounts. Accounts keep their
/// places; an unknown one is put behind the others by its first token, and is not added by
/// a cursor.
pub proof fn saving_touches_the_accounts_only(
    d: DbView,
    user_id: Seq<char>,
    bot_token: Seq<char>,
    tag: Option<Seq<char>>,
    value: Seq<char>,
    i: int,
)
    ensures
        ({
            let a = d.save_context_token(user_id, bot_token, tag, value);
            let b = d.save_updates_buf(user_id, value);
            &&& only_accounts_differ(a, d)
            &&& only_accounts_differ(b, d)
            &&& b.sessions.len() == d.sessions.len()
            &&& d.sessions.len() <= a.sessions.len() <= d.sessions.len() + 1
            &&& d.fault is None ==> (a.sessions.len() == d.sessions.len() + 1 <==> forall|j: int|
                0 <= j < d.sessions.len() ==> (#[trigger] d.sessions[j]).user_id != user_id)
            &&& a.sessions.len() > d.sessions.len() ==> a.sessions.last().user_id == user_id
            &&& 0 <= i < d.sessions.len() ==> a.sessions[i].user_id == d.sessions[i].user_id
                && b.sessions[i].user_id == d.sessions[i].user_id
            &&& 0 <= i < d.sessions.len() && d.sessions[i].user_id != user_id ==> a.sessions[i]
                == d.sessions[i] && b.sessions[i] == d.sessions[i]
        }),
{
    let p = db::of_account(user_id);
    if model::any_where(d.sessions, p) {
        let k = choose|k: int| 0 <= k < d.sessions.len() && p(#[trigger] d.sessions[k]);
        assert(d.sessions[k].user_id == user_id);
    } else {
        assert forall|j: int| 0 <= j < d.sessions.len() implies (#[trigger] d.sessions[j]).user_id
            != user_id by {
            assert(!p(d.sessions[j]));
        }
    }
}

/// A user joins exactly where the storage is in order, a number is left and nobody has the
/// name. Then they stand behind the others, under the next number, with the given name,
/// hash and time; all else stays.
pub proof fn users_join_behind_the_others(
    d: DbView,
    username: Seq<char>,
    hash: Seq<char>,
    now: Seq<char>,
)
    ensures
        ({
            let (after, result) = d.insert_user(username, hash, now);
            let free = forall|j: int|
                0 <= j < d.users.len() ==> (#[trigger] d.users[j]).username != username;
            &&& result is Ok <==> d.fault is None && d.last_user_id < i64::MAX && free
            &&& result is Err ==> after == d
            &&& result matches Ok(u) ==> {
                &&& after.users.len() == d.users.len() + 1
                &&& after.users.drop_last() == d.users
                &&& shows(after.users.last(), u)
                &&& u.id == d.last_user_id + 1
                &&& u.username == username
                &&& u.created_at == now
                &&& u.role == if d.users.len() == 0 {
                    "admin"@
                } else {
                    "user"@
                }
                &&& after.users.last().password == hash
                &&& after.last_user_id == u.id
                &&& after.sessions == d.sessions && after.tokens == d.tokens && after.messages
                    == d.messages
                &&& after.fault is None && after.last_message_id == d.last_message_id
            }
        }),
{
    let p = db::with_name(username);
    if model::any_where(d.users, p) {
        let k = choose|k: int| 0 <= k < d.users.len() && p(#[trigger] d.users[k]);
        assert(d.users[k].username == username);
    } else {
        assert forall|j: int| 0 <= j < d.users.len() implies (#[trigger] d.users[j]).username
            != username by {
            assert(!p(d.users[j]));
        }
    }
    let after = d.insert_user(username, hash, now).0;
    if d.insert_user(username, hash, now).1 is Ok {
        assert(after.users.drop_last() =~= d.users);
    }
}

/// A login token is added exactly where the storage is in order, nobody has that token and
/// the user exists; it stands behind the others, with the user's number, and all else stays.
pub proof fn tokens_are_added_for_users_who_exist(
    d: DbView,
    token: Seq<char>,
    user_id: int,
    now: Seq<char>,
)
    ensures
        ({
            let (after, result) = d.insert_auth_token(token, user_id, now);
            let free = forall|j: int|
                0 <= j < d.tokens.len() ==> (#[trigger] d.tokens[j]).token != token;
            let known = exists|j: int|
                0 <= j < d.users.len() && (#[trigger] d.users[j]).id == user_id;
            &&& result is Ok <==> d.fault is None && free && known
            &&& result is Err ==> after == d
            &&& result is Ok ==> after == (DbView {
                tokens: d.tokens.push(AuthTokenView { token, user_id, created_at: now }),
                ..d
            })
        }),
{
    let p = db::with_token(token);
    let q = db::with_id(user_id);
    if model::any_where(d.tokens, p) {
        let k = choose|k: int| 0 <= k < d.tokens.len() && p(#[trigger] d.tokens[k]);
        assert(d.tokens[k].token == token);
    } else {
        assert forall|j: int| 0 <= j < d.tokens.len() implies (#[trigger] d.tokens[j]).token
            != token by {
            assert(!p(d.tokens[j]));
        }
    }
    if model::any_where(d.users, q) {
        let k = choose|k: int| 0 <= k < d.users.len() && q(#[trigger] d.users[k]);
        assert(d.users[k].id == user_id);
    } else if exists|j: int| 0 <= j < d.users.len() && (#[trigger] d.users[j]).id == user_id {
        let j = choose|j: int| 0 <= j < d.users.len() && (#[trigger] d.users[j]).id == user_id;
        assert(q(d.users[j]));
    }
}

/// A new password hash replaces the one in the row of that name and nothing else anywhere.
pub proof fn password_changes_touch_one_hash(
    d: DbView,
    username: Seq<char>,
    hash: Seq<char>,
    i: int,
)
    requires
        d.fault is None,
    ensures
        ({
            let after = d.set_password(username, hash);
            &&& after == (DbView { users: after.users, ..d })
            &&& after.users.len() == d.users.len()
            &&& 0 <= i < d.users.len() && d.users[i].username != username ==> after.users[i]
                == d.users[i]
            &&& 0 <= i < d.users.len() && d.users[i].username == username ==> after.users[i] == (
            UserRowView { password: hash, ..d.users[i] })
        }),
{
}

/// A message is stored exactly where the storage is in order and a number is left; it
/// stands behind the others under the next number, as it was given, and all else stays.
pub proof fn messages_are_stored_as_given(
    d: DbView,
    account: Seq<char>,
    direction: Seq<char>,
    content: Seq<char>,
    msg_type: Seq<char>,
    raw_json: Seq<char>,
    now: Seq<char>,
)
    ensures
        ({
            let (after, result) = d.insert_message(
                account,
                direction,
                content,
                msg_type,
                raw_json,
                now,
            );
            let row = after.messages.last();
            &&& result is Ok <==> d.fault is None && d.last_message_id < i64::MAX
            &&& result is Err ==> after == d
            &&& result is Ok ==> {
                &&& after == (DbView {
                    messages: d.messages.push(row),
                    last_message_id: row.id,
                    ..d
                })
                &&& row.id == d.last_message_id + 1
                &&& row.wechat_user_id == account
                &&& row.direction == direction
                &&& row.content == content
                &&& row.msg_type == msg_type
                &&& row.raw_json == raw_json
                &&& row.created_at == now
            }
        }),
{
}

/// The promotion changes nothing but the role of the first user, and that only where nobody
/// is the administrator.
pub proof fn promotion_touches_the_first_user_only(d: DbView, i: int)
    ensures
        ({
            let after = d.with_admin();
            &&& after == (DbView { users: after.users, ..d })
            &&& after.users.len() == d.users.len()
            &&& 0 < i < d.users.len() ==> after.users[i] == d.users[i]
            &&& d.users.len() > 0 ==> after.users[0] == (UserRowView {
                role: after.users[0].role,
                ..d.users[0]
            })
            &&& (exists|j: int|
                0 <= j < d.users.len() && (#[trigger] d.users[j]).role == "admin"@) ==> after
                == d
            &&& d.fault is None && d.users.len() > 0 && (forall|j: int|
                0 <= j < d.users.len() ==> (#[trigger] d.users[j]).role != "admin"@)
                ==> after.users[0].role == "admin"@
        }),
{
    let p = db::with_role("admin"@);
    if exists|j: int| 0 <= j < d.users.len() && (#[trigger] d.users[j]).role == "admin"@ {
        let j = choose|j: int| 0 <= j < d.users.len() && (#[trigger] d.users[j]).role == "admin"@;
        assert(p(d.users[j]));
    }
}

/// A storage that failed is reported by every operation, and none changes the tables. A
/// password that could not be hashed is reported as such and changes nothing either.
pub proof fn failures_are_reported(
    d: DbView,
    a: Seq<char>,
    b: Seq<char>,
    c: Seq<char>,
    reason: Seq<char>,
    tag: Option<Seq<char>>,
    id: int,
)
    ensures
        d.fault == Some(reason) ==> {
            let e = DbErrorView::Storage(reason);
            &&& d.guard(d.session(a)) == Err::<Option<SessionView>, DbErrorView>(e)
            &&& d.guard(()) == Err::<(), DbErrorView>(e)
            &&& d.insert_user(a, b, c) == (d, Err::<UserView, DbErrorView>(e))
            &&& d.insert_auth_token(a, id, c) == (d, Err::<(), DbErrorView>(e))
            &&& d.insert_message(a, b, c, a, b, c) == (d, Err::<(), DbErrorView>(e))
            &&& d.save_context_token(a, b, tag, c) == d
            &&& d.save_updates_buf(a, b) == d
            &&& d.set_password(a, b) == d
            &&& d.with_admin() == d
        },
        d.fault is None ==> d.guard(d.session(a)) == Ok::<Option<SessionView>, DbErrorView>(
            d.session(a),
        ) && d.guard(()) == Ok::<(), DbErrorView>(()),
        d.create_user(a, Err(reason), c) == (d, Err::<UserView, DbErrorView>(
            DbErrorView::Password(reason),
        )),
        d.update_password(a, Err(reason)) == (d, Err::<(), DbErrorView>(
            DbErrorView::Password(reason),
        )),
        d.create_user(a, Ok(b), c) == d.insert_user(a, b, c),
        d.update_password(a, Ok(b)).0 == d.set_password(a, b),
        d.fault is None ==> d.update_password(a, Ok(b)).1 is Ok,
        DbErrorView::Storage(reason).text() == reason,
        DbErrorView::Password(reason).text() == reason,
        DbErrorView::Unique(a).text() == "UNIQUE constraint failed: "@ + a,
{
}

/// A page with a negative size is not limited: it holds everything behind what it skips.
pub proof fn negative_sizes_do_not_limit(
    d: DbView,
    account: Option<Seq<char>>,
    page: int,
    page_size: int,
    i: int,
)
    requires
        page_size < 0,
    ensures
        ({
            let all = d.newest_first(account);
            let (rows, total) = d.message_page(account, page, page_size);
            let offset = (page - 1) * page_size;
            let skipped = if offset < 0 {
                0
            } else {
                offset
            };
            &&& total == all.len()
            &&& skipped <= all.len() ==> rows.len() == all.len() - skipped
            &&& skipped > all.len() ==> rows.len() == 0
            &&& 0 <= i < rows.len() ==> rows[i] == all[skipped + i]
        }),
{
}

} // verus!
