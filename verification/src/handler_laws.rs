//! What every handler keeps of the tables.

use vstd::prelude::*;

use crate::auth::{self, LoginRequestView};
use crate::db::{self, DbErrorView, DbView, UserView};
use crate::delivery::{self, SendJobView, SendStepView};
use crate::reply::{ErrorReplyView, ReplyView};
use crate::serve::{self, QrStatusView};
use crate::wechat::{self, AccountView, InboundMessageView, SendOutcomeView, UpdatesView};
use crate::{db_laws, text, webhook};

verus! {

/// The step from `a` to `b` keeps the numbering of the rows, the unique keys and the
/// administrator.
pub open spec fn keeps(a: DbView, b: DbView) -> bool {
    &&& a.wf() ==> b.wf()
    &&& db_laws::keyed(a) ==> db_laws::keyed(b)
    &&& db_laws::administered(a) ==> db_laws::administered(b)
}

proof fn lemma_save_context_token(
    a: DbView,
    user_id: Seq<char>,
    bot_token: Seq<char>,
    route_tag: Option<Seq<char>>,
    token: Seq<char>,
)
    ensures
        keeps(a, a.save_context_token(user_id, bot_token, route_tag, token)),
{
    let b = a.save_context_token(user_id, bot_token, route_tag, token);
    assert(db_laws::table_step(a, b));
    db_laws::operations_keep_the_invariants(a, b);
}

proof fn lemma_save_updates_buf(a: DbView, user_id: Seq<char>, buf: Seq<char>)
    ensures
        keeps(a, a.save_updates_buf(user_id, buf)),
{
    let b = a.save_updates_buf(user_id, buf);
    assert(db_laws::table_step(a, b));
    db_laws::operations_keep_the_invariants(a, b);
}

proof fn lemma_insert_message(
    a: DbView,
    user_id: Seq<char>,
    direction: Seq<char>,
    content: Seq<char>,
    kind: Seq<char>,
    raw: Seq<char>,
    now: Seq<char>,
)
    ensures
        keeps(a, a.insert_message(user_id, direction, content, kind, raw, now).0),
{
    let b = a.insert_message(user_id, direction, content, kind, raw, now).0;
    assert(db_laws::table_step(a, b));
    db_laws::operations_keep_the_invariants(a, b);
}

proof fn lemma_user_created(
    a: DbView,
    b: DbView,
    username: Seq<char>,
    password: Seq<char>,
    result: Result<UserView, DbErrorView>,
)
    requires
        db::user_created(a, b, username, password, result),
    ensures
        keeps(a, b),
{
    let (hashed, now) = choose|hashed: Result<Seq<char>, Seq<char>>, now: Seq<char>|
        db::hash_fits(password, hashed) && (b, result) == #[trigger] a.create_user(
            username,
            hashed,
            now,
        );
    if let Ok(hash) = hashed {
        assert(b == a.insert_user(username, hash, now).0);
        assert(db_laws::table_step(a, b));
        db_laws::operations_keep_the_invariants(a, b);
    }
}

proof fn lemma_token_created(
    a: DbView,
    b: DbView,
    user_id: int,
    result: Result<Seq<char>, DbErrorView>,
)
    requires
        db::token_created(a, b, user_id, result),
    ensures
        keeps(a, b),
{
    assert(db_laws::table_step(a, b));
    db_laws::operations_keep_the_invariants(a, b);
}

/// Registering and logging in keep the tables in order, whatever comes of it.
pub proof fn signing_in_keeps_order(
    a: DbView,
    b: DbView,
    req: LoginRequestView,
    answer: ReplyView,
)
    requires
        auth::registered(a, b, req, answer) || auth::logged_in(a, b, req, answer),
    ensures
        keeps(a, b),
{
    let name = text::trimmed(req.username);
    if a != b {
        if auth::registered(a, b, req, answer) {
            let (mid, created, token) = auth::registration_creates_user_and_token(
                a,
                b,
                name,
                req.password,
                answer,
            );
            lemma_user_created(a, mid, name, req.password, created);
            if let Ok(user) = created {
                lemma_token_created(mid, b, user.id, token);
            }
        } else {
            let user = a.verify_user(name, req.password)->Ok_0->0;
            let token = choose|token: Result<Seq<char>, DbErrorView>| #[trigger]
                db::token_created(a, b, user.id, token);
            lemma_token_created(a, b, user.id, token);
        }
    }
}

/// Changing a password keeps the tables in order.
pub proof fn changing_a_password_keeps_order(
    a: DbView,
    b: DbView,
    check: Result<Seq<char>, ErrorReplyView>,
    new_password: Seq<char>,
    message: Seq<char>,
    answer: ReplyView,
)
    requires
        auth::password_changed(a, b, check, new_password, message, answer),
    ensures
        keeps(a, b),
{
    if let Ok(name) = check {
        let fresh = text::trimmed(new_password);
        let result = choose|result: Result<(), DbErrorView>|
            #[trigger] db::password_updated(a, b, name, fresh, result) && answer
                == auth::password_answer(result, message);
        let hashed = choose|hashed: Result<Seq<char>, Seq<char>>|
            db::hash_fits(fresh, hashed) && (b, result) == #[trigger] a.update_password(
                name,
                hashed,
            );
        if let Ok(hash) = hashed {
            assert(b == a.set_password(name, hash));
            assert(db_laws::table_step(a, b));
            db_laws::operations_keep_the_invariants(a, b);
        }
    }
}

/// Binding an account keeps the tables in order.
pub proof fn binding_keeps_order(
    a: DbView,
    username: Seq<char>,
    fetched: Result<QrStatusView, Seq<char>>,
)
    ensures
        keeps(a, serve::bind_status_step(a, username, fetched).0),
{
    if let Ok(s) = fetched {
        let user_id = text::text_or_empty(s.ilink_user_id);
        let bot_token = text::text_or_empty(s.bot_token);
        let mid = a.save_context_token(user_id, bot_token, Some(username), Seq::empty());
        lemma_save_context_token(a, user_id, bot_token, Some(username), Seq::empty());
        lemma_save_updates_buf(mid, user_id, Seq::empty());
    }
}

/// Sending a text keeps the tables in order, in every step.
pub proof fn sending_keeps_order(
    a: DbView,
    b: DbView,
    cursors: Map<Seq<char>, Seq<char>>,
    job: SendJobView,
    polled: bool,
    outcome: SendOutcomeView,
    step: SendStepView,
    updates: Result<UpdatesView, Seq<char>>,
)
    ensures
        delivery::send_done(a, b, cursors, job, polled, outcome, step) ==> keeps(a, b),
        keeps(a, delivery::poll_step(a, cursors, job, updates).0),
{
    if delivery::send_done(a, b, cursors, job, polled, outcome, step) && outcome
        == SendOutcomeView::Sent {
        let now = choose|now: Seq<char>|
            b == (#[trigger] a.insert_message(
                job.user_id,
                "send"@,
                job.text,
                "text"@,
                ""@,
                now,
            )).0;
        lemma_insert_message(a, job.user_id, "send"@, job.text, "text"@, ""@, now);
    }
    let (fresh, next) = delivery::polled_token(updates, job.user_id);
    let (mid, _) = delivery::cursor_kept(a, cursors, job.user_id, next);
    if let Some(buf) = next {
        lemma_save_updates_buf(a, job.user_id, buf);
    }
    let token = match fresh {
        Some(t) => Some(t),
        None => delivery::cached_token(a, job.user_id),
    };
    if let Some(t) = token {
        lemma_save_context_token(mid, job.user_id, job.bot_token, job.route_tag, t);
    }
}

proof fn lemma_token_noted(a: DbView, account: AccountView, msg: InboundMessageView)
    ensures
        keeps(a, delivery::token_noted(a, account, msg)),
{
    lemma_save_context_token(
        a,
        account.user_id,
        account.bot_token,
        account.route_tag,
        msg.context_token,
    );
}

proof fn lemma_tokens_noted(a: DbView, account: AccountView, messages: Seq<InboundMessageView>)
    ensures
        keeps(a, delivery::tokens_noted(a, account, messages)),
    decreases messages.len(),
{
    if messages.len() > 0 {
        lemma_tokens_noted(a, account, messages.drop_last());
        lemma_token_noted(
            delivery::tokens_noted(a, account, messages.drop_last()),
            account,
            messages.last(),
        );
    }
}

/// Taking in a poll keeps the tables in order, in the chat and in the single-account
/// webhook.
pub proof fn taking_in_a_poll_keeps_order(a: DbView, account: AccountView, updates: UpdatesView)
    ensures
        keeps(a, delivery::poll_saved(a, account, updates)),
{
    let start = match updates.get_updates_buf {
        Some(buf) => a.save_updates_buf(account.user_id, buf),
        None => a,
    };
    if let Some(buf) = updates.get_updates_buf {
        lemma_save_updates_buf(a, account.user_id, buf);
    }
    lemma_tokens_noted(start, account, updates.messages);
}

/// Recording the messages of a poll in the background keeps the tables in order.
pub proof fn recording_keeps_order(
    a: DbView,
    account: AccountView,
    messages: Seq<InboundMessageView>,
    raws: Seq<Seq<char>>,
    times: Seq<Seq<char>>,
)
    ensures
        keeps(a, delivery::all_received(a, account, messages, raws, times)),
    decreases messages.len(),
{
    if messages.len() > 0 {
        let n = messages.len() - 1;
        recording_keeps_order(a, account, messages.drop_last(), raws, times);
        let mid = delivery::all_received(a, account, messages.drop_last(), raws, times);
        let noted = delivery::token_noted(mid, account, messages[n]);
        lemma_token_noted(mid, account, messages[n]);
        let (content, kind) = wechat::msg_content(messages[n]);
        lemma_insert_message(
            noted,
            account.user_id,
            "receive"@,
            content,
            kind,
            raws[n],
            times[n],
        );
    }
}

/// Fetching a context token for the single-account webhook keeps the tables in order.
pub proof fn fetching_a_token_keeps_order(
    a: DbView,
    account: AccountView,
    polled: Result<UpdatesView, Seq<char>>,
)
    ensures
        keeps(a, webhook::context_token_after_poll(a, account, polled).0),
{
    let (fresh, next) = delivery::polled_token(polled, account.user_id);
    if let Some(t) = fresh {
        let mid = match next {
            Some(buf) => a.save_updates_buf(account.user_id, buf),
            None => a,
        };
        if let Some(buf) = next {
            lemma_save_updates_buf(a, account.user_id, buf);
        }
        lemma_save_context_token(mid, account.user_id, account.bot_token, account.route_tag, t);
    }
}

} // verus!
