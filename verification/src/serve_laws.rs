//! What the dashboard shows and sends, for every state of the tables.

use vstd::prelude::*;

use crate::db::{DbView, MessageView, SessionView, UserView};
use crate::delivery::{DeliveryView, SendJobView};
use crate::reply::{
    ApiResponseView, BroadcastResultView, DataView, ErrorReplyView, MessageResponseView,
};
use crate::serve::{
    self, MessageRowsView, PageRequestView, QrCodeView, QrStatusView, SendMsgRequestView,
};
use crate::{auth, auth_laws, db, db_laws, model, table_laws, text};

verus! {

/// The `i`-th account is the first one that is tagged with the name.
pub open spec fn first_tagged(d: DbView, username: Seq<char>, i: int) -> bool {
    &&& 0 <= i < d.sessions.len()
    &&& d.sessions[i].route_tag == Some(username)
    &&& forall|j: int|
        0 <= j < i ==> (#[trigger] d.sessions[j]).route_tag != Some(username)
}

/// No account is tagged with the name.
pub open spec fn none_tagged(d: DbView, username: Seq<char>) -> bool {
    forall|j: int|
        0 <= j < d.sessions.len() ==> (#[trigger] d.sessions[j]).route_tag != Some(username)
}

/// A user's account is the first one that is tagged with their name.
pub proof fn accounts_belong_to_the_name_they_are_tagged_with(
    d: DbView,
    username: Seq<char>,
    i: int,
)
    requires
        d.fault is None,
    ensures
        first_tagged(d, username, i) ==> serve::bound_account(d, username) == Some(d.sessions[i]),
        none_tagged(d, username) ==> serve::bound_account(d, username) is None,
{
    let p = serve::tagged(username);
    if first_tagged(d, username, i) {
        assert forall|j: int| 0 <= j < i implies !p(#[trigger] d.sessions[j]) by {
            assert(d.sessions[j].route_tag != Some(username));
        }
        model::first_where_is(d.sessions, p, i);
    }
    if none_tagged(d, username) {
        assert forall|j: int| 0 <= j < d.sessions.len() implies !p(#[trigger] d.sessions[j]) by {
            assert(d.sessions[j].route_tag != Some(username));
        }
        model::first_where_none(d.sessions, p);
    }
}

/// A user who asks about themselves is told their own name and role, and the account that is
/// tagged with their name, with the path and the calls of its sending webhook; nothing of an
/// account where none is.
pub proof fn users_are_told_about_themselves(
    d: DbView,
    authorization: Option<Seq<char>>,
    user: UserView,
    i: int,
)
    requires
        auth::signed_in(d, authorization) == Ok::<UserView, ErrorReplyView>(user),
    ensures
        serve::me_answer(d, authorization) matches Ok(a) && a.success && a.message == "ok"@ && (
        a.data matches Some(DataView::Profile(p)) && p.username == user.username && p.role
            == user.role && (none_tagged(d, user.username) ==> !p.wechat_bound
            && p.wechat_user_id is None && p.webhook_url is None && p.webhook_usage is None) && (
        first_tagged(d, user.username, i) ==> {
            let id = d.sessions[i].user_id;
            &&& p.wechat_bound
            &&& p.wechat_user_id == Some(id)
            &&& p.webhook_url == Some("/webhook/"@ + id + "/send"@)
            &&& p.webhook_usage matches Some(usage) && text::has_part(usage.curl, id)
                && text::has_part(usage.python, id) && text::has_part(usage.rust, id)
                && text::has_part(usage.curl, "/webhook/"@ + id + "/send"@) && text::has_part(
                usage.python,
                "/webhook/"@ + id + "/send"@,
            ) && text::has_part(usage.rust, "/webhook/"@ + id + "/send"@)
        })),
{
    accounts_belong_to_the_name_they_are_tagged_with(d, user.username, i);
    let id = d.sessions[i].user_id;
    let path = "/webhook/"@ + id + "/send"@;
    let usage = serve::usage_of(id);
    lemma_around(
        "curl -X POST http://<host>:<port>/webhook/"@,
        id,
        "/send -H 'Content-Type: application/json' -d '{\"text\":\"hello\"}'"@,
    );
    lemma_around(
        "import requests\nr = requests.post(\"http://<host>:<port>/webhook/"@,
        id,
        "/send\", json={\"text\":\"hello\"})\nprint(r.json())"@,
    );
    lemma_around(
        "let resp = client.post(format!(\"http://<host>:<port>/webhook/"@,
        id,
        "/send\", user_id)).json(&serde_json::json!({\"text\":\"hello\"})).send().await?;"@,
    );
    reveal_strlit("/webhook/");
    reveal_strlit("/send");
    reveal_strlit("curl -X POST http://<host>:<port>/webhook/");
    reveal_strlit("/send -H 'Content-Type: application/json' -d '{\"text\":\"hello\"}'");
    reveal_strlit("import requests\nr = requests.post(\"http://<host>:<port>/webhook/");
    reveal_strlit("/send\", json={\"text\":\"hello\"})\nprint(r.json())");
    let a = "curl -X POST http://<host>:<port>/webhook/"@;
    let b = "import requests\nr = requests.post(\"http://<host>:<port>/webhook/"@;
    reveal_strlit("let resp = client.post(format!(\"http://<host>:<port>/webhook/");
    reveal_strlit(
        "/send\", user_id)).json(&serde_json::json!({\"text\":\"hello\"})).send().await?;",
    );
    let c = "let resp = client.post(format!(\"http://<host>:<port>/webhook/"@;
    let l = c.len() - "/webhook/"@.len();
    assert(usage.rust.subrange(l, l + path.len()) =~= path);
    let n = a.len() - "/webhook/"@.len();
    let m = b.len() - "/webhook/"@.len();
    assert(usage.curl.subrange(n, n + path.len()) =~= path);
    assert(usage.python.subrange(m, m + path.len()) =~= path);
}

proof fn lemma_around(a: Seq<char>, s: Seq<char>, b: Seq<char>)
    ensures
        text::has_part(a + s + b, s),
{
    let whole = a + s + b;
    assert(whole.subrange(a.len() as int, a.len() as int + s.len()) =~= s);
}

/// A QR code is handed on as the service gave it; what it left out is empty. A service that
/// failed is told in its words.
pub proof fn qr_codes_are_handed_on(code: QrCodeView, id: Seq<char>, url: Seq<char>, e: Seq<char>)
    ensures
        auth_laws::grants(
            serve::qrcode_answer(Ok(QrCodeView { qrcode_id: Some(id), qrcode_url: Some(url) })),
            "qr code fetched"@,
            Some(DataView::QrCode { qrcode_id: id, qrcode_url: url }),
        ),
        serve::qrcode_answer(Ok(code)) matches Ok(a) && (a.data matches Some(
            DataView::QrCode { qrcode_id, qrcode_url },
        ) && (code.qrcode_id is None ==> qrcode_id.len() == 0) && (code.qrcode_url is None
            ==> qrcode_url.len() == 0)),
        auth_laws::refuses(serve::qrcode_answer(Err(e)), 502, e),
{
}

/// A confirmed QR code that names an account and its key puts that account on record, tagged
/// with the user who asked, with that key and with neither context token nor cursor, and
/// says so. Other accounts and tables stay as they were.
pub proof fn confirmed_codes_bind_their_account(
    d: DbView,
    username: Seq<char>,
    status: QrStatusView,
    user_id: Seq<char>,
    bot_token: Seq<char>,
    other: Seq<char>,
)
    requires
        status.status == "confirmed"@,
        status.ilink_user_id == Some(user_id),
        status.bot_token == Some(bot_token),
        user_id.len() > 0,
        bot_token.len() > 0,
        other != user_id,
    ensures
        ({
            let (after, answer) = serve::bind_status_step(d, username, Ok(status));
            &&& auth_laws::grants(
                answer,
                "WeChat account bound successfully"@,
                Some(DataView::Bound { wechat_user_id: user_id }),
            )
            &&& table_laws::only_accounts_differ(after, d)
            &&& d.fault is None ==> after.session(user_id) == Some(
                SessionView {
                    user_id,
                    bot_token,
                    route_tag: Some(username),
                    context_token: Seq::empty(),
                    updates_buf: Seq::empty(),
                },
            )
            &&& d.fault is None ==> after.session(other) == d.session(other)
        }),
{
    let mid = d.save_context_token(user_id, bot_token, Some(username), Seq::empty());
    if d.fault is None {
        db_laws::saved_context_token_is_read_back(
            d,
            user_id,
            bot_token,
            Some(username),
            Seq::empty(),
            other,
        );
        db_laws::saved_cursor_is_read_back(mid, user_id, Seq::empty(), other);
    }
}

/// Before a QR code is confirmed its status is told and nothing changes; a confirmation
/// without account or key is refused, and so is a service that failed, without a change.
pub proof fn other_statuses_bind_nothing(
    d: DbView,
    username: Seq<char>,
    status: QrStatusView,
    e: Seq<char>,
)
    ensures
        status.status != "confirmed"@ ==> serve::bind_status_step(d, username, Ok(status)).0 == d
            && auth_laws::grants(
            serve::bind_status_step(d, username, Ok(status)).1,
            "polling"@,
            Some(DataView::Status { status: status.status }),
        ),
        status.status == "confirmed"@ && (status.bot_token is None || status.ilink_user_id is None
            || status.bot_token == Some(Seq::<char>::empty()) || status.ilink_user_id == Some(
            Seq::<char>::empty(),
        )) ==> serve::bind_status_step(d, username, Ok(status)).0 == d && auth_laws::refuses(
            serve::bind_status_step(d, username, Ok(status)).1,
            502,
            "incomplete bind data from server"@,
        ),
        serve::bind_status_step(d, username, Err(e)).0 == d,
        auth_laws::refuses(serve::bind_status_step(d, username, Err(e)).1, 502, e),
{
}

/// The text goes to the account, reached as its record says.
pub open spec fn goes_to(job: SendJobView, s: SessionView, req: SendMsgRequestView) -> bool {
    &&& job.user_id == s.user_id
    &&& job.bot_token == s.bot_token
    &&& job.route_tag == s.route_tag
    &&& req.text matches Some(t) ==> job.text == t
    &&& req.text is None ==> job.text.len() == 0
}

/// A user's text goes to the account that is tagged with their name, reached with the key of
/// that account's own record; a user without an account is told to bind one.
pub proof fn users_send_to_their_own_account(
    d: DbView,
    authorization: Option<Seq<char>>,
    req: SendMsgRequestView,
    user: UserView,
    i: int,
)
    ensures
        auth::signed_in(d, authorization) == Ok::<UserView, ErrorReplyView>(user) && first_tagged(
            d,
            user.username,
            i,
        ) ==> (serve::own_job(d, authorization, req) matches Ok(job) && goes_to(
            job,
            d.sessions[i],
            req,
        )),
        auth::signed_in(d, authorization) == Ok::<UserView, ErrorReplyView>(user) && none_tagged(
            d,
            user.username,
        ) ==> auth_laws::refuses(
            serve::own_job(d, authorization, req),
            400,
            "no WeChat account bound; scan a QR code first"@,
        ),
        auth::signed_in(d, authorization) matches Err(e) ==> serve::own_job(d, authorization, req)
            == Err::<SendJobView, ErrorReplyView>(e),
{
    if auth::signed_in(d, authorization) is Ok {
        accounts_belong_to_the_name_they_are_tagged_with(d, user.username, i);
    }
}

/// A text through the webhook goes to the account that the webhook names, reached with the
/// key of its record; an account that is not on record is not found.
pub proof fn webhooks_send_to_the_account_they_name(
    d: DbView,
    wechat_user_id: Seq<char>,
    req: SendMsgRequestView,
)
    requires
        d.fault is None,
    ensures
        d.session(wechat_user_id) matches Some(s) ==> s.user_id == wechat_user_id && (
        serve::webhook_job(d, wechat_user_id, req) matches Ok(job) && goes_to(job, s, req)),
        d.session(wechat_user_id) is None ==> auth_laws::refuses(
            serve::webhook_job(d, wechat_user_id, req),
            404,
            "unknown wechat user"@,
        ),
{
    model::first_where_finds(d.sessions, db::of_account(wechat_user_id));
}

/// Success is told exactly of a text that was sent; everything else is told as a failure
/// behind the server, in the words of the service where it spoke.
pub proof fn deliveries_are_told_as_they_went(user_id: Seq<char>, e: Seq<char>)
    ensures
        auth_laws::grants(serve::send_msg_answer(DeliveryView::Sent), "message sent"@, None),
        auth_laws::refuses(
            serve::send_msg_answer(DeliveryView::NoToken),
            502,
            "no context token; the other user must send a message first"@,
        ),
        auth_laws::refuses(serve::send_msg_answer(DeliveryView::Failed(e)), 502, e),
        auth_laws::grants(
            serve::webhook_send_answer(user_id, DeliveryView::Sent),
            "message sent via webhook"@,
            None,
        ),
        auth_laws::refuses(
            serve::webhook_send_answer(user_id, DeliveryView::NoToken),
            502,
            "no context token for `"@ + user_id + "`"@,
        ),
        auth_laws::refuses(
            serve::webhook_send_answer(user_id, DeliveryView::Failed(e)),
            502,
            e,
        ),
        serve::broadcast_entry(user_id, DeliveryView::Sent) == (BroadcastResultView {
            user_id,
            success: true,
            error: None,
        }),
        serve::broadcast_entry(user_id, DeliveryView::NoToken) == (BroadcastResultView {
            user_id,
            success: false,
            error: Some("no context token for `"@ + user_id + "`"@),
        }),
        serve::broadcast_entry(user_id, DeliveryView::Failed(e)) == (BroadcastResultView {
            user_id,
            success: false,
            error: Some(e),
        }),
{
}

/// A broadcast of the administrator with a text has one job for every account, in their order:
/// the `i`-th one carries the number, the bot token and the route tag of the `i`-th account's
/// own record, and the text.
pub proof fn broadcasts_reach_each_account_by_its_own_record(
    d: DbView,
    authorization: Option<Seq<char>>,
    req: SendMsgRequestView,
    i: int,
)
    requires
        auth::signed_in_admin(d, authorization) is Ok,
        req.text matches Some(t) && t.len() > 0,
    ensures
        serve::broadcast_jobs(d, authorization, req) matches Ok(jobs) && jobs.len()
            == d.sessions.len() && (0 <= i < jobs.len() ==> goes_to(jobs[i], d.sessions[i], req)),
{
}

/// A broadcast without a text is refused, and so is one by anyone but the administrator.
pub proof fn broadcasts_need_a_text_and_the_administrator(
    d: DbView,
    authorization: Option<Seq<char>>,
    req: SendMsgRequestView,
)
    ensures
        auth::signed_in_admin(d, authorization) is Ok && (req.text is None || req.text == Some(
            Seq::<char>::empty(),
        )) ==> auth_laws::refuses(
            serve::broadcast_jobs(d, authorization, req),
            400,
            "text is required"@,
        ),
        auth::signed_in_admin(d, authorization) matches Err(e) ==> serve::broadcast_jobs(
            d,
            authorization,
            req,
        ) == Err::<Seq<SendJobView>, ErrorReplyView>(e),
{
}

/// How many of the results are successes.
pub open spec fn successes(results: Seq<BroadcastResultView>) -> int
    decreases results.len(),
{
    if results.len() == 0 {
        0
    } else {
        successes(results.drop_last()) + if results.last().success {
            1int
        } else {
            0int
        }
    }
}

proof fn lemma_successes(results: Seq<BroadcastResultView>)
    ensures
        results.filter(serve::succeeded()).len() == successes(results),
    decreases results.len(),
{
    reveal(Seq::filter);
    if results.len() > 0 {
        lemma_successes(results.drop_last());
    }
}

/// A broadcast is answered with every result as it came, and with how many succeeded out of
/// how many.
pub proof fn broadcasts_are_counted(results: Seq<BroadcastResultView>)
    ensures
        serve::broadcast_answer(results).success,
        serve::broadcast_answer(results).data == Some(DataView::Broadcast { results }),
        serve::broadcast_answer(results).message == "broadcast sent to "@ + text::decimal_digits(
            successes(results),
        ) + "/"@ + text::decimal_digits(results.len() as int) + " users"@,
{
    lemma_successes(results);
}

/// The first page and fifteen messages are what is asked for without numbers, or with texts
/// that are none; a number that is given counts, up to a hundred messages.
pub proof fn pages_are_asked_for_by_number(
    page: Option<Seq<char>>,
    size: Option<Seq<char>>,
    n: i64,
)
    ensures
        ({
            let asked = serve::requested_page(page, size);
            &&& (page matches Some(p) ==> text::parsed_i64(p) is None) ==> asked.page == 1
            &&& (size matches Some(s) ==> text::parsed_i64(s) is None) ==> asked.page_size == 15
            &&& (page matches Some(p) && text::parsed_i64(p) == Some(n)) ==> asked.page == n
            &&& (size matches Some(s) && text::parsed_i64(s) == Some(n)) ==> asked.page_size == if n
                <= 100 {
                n as int
            } else {
                100
            }
        }),
{
}

/// The pages that are counted hold all messages, and one page less would not.
pub proof fn pages_are_counted_to_hold_all(total: int, page_size: int)
    requires
        0 <= total,
        page_size > 0,
    ensures
        total <= serve::page_count(total, page_size) * page_size < total + page_size,
{
    let m = total + page_size - 1;
    let q = serve::page_count(total, page_size);
    vstd::arithmetic::div_mod::lemma_fundamental_div_mod(m, page_size);
    vstd::arithmetic::div_mod::lemma_mod_bound(m, page_size);
    assert(page_size * q == q * page_size) by (nonlinear_arith);
}

/// The rows are a page of the messages of the account: as many as there are in all, and those
/// that stand on that page.
pub open spec fn is_page_of(
    d: DbView,
    account: Seq<char>,
    req: PageRequestView,
    page: MessageRowsView,
) -> bool {
    &&& page.page == req.page
    &&& page.page_size == req.page_size
    &&& page.total == d.newest_first(Some(account)).len()
    &&& page.rows == d.message_page(Some(account), req.page, req.page_size).0
}

/// A user is shown a page of the messages of the account that is tagged with their name, and
/// of no other; a user without an account is told so.
pub proof fn users_page_through_their_own_account(
    d: DbView,
    authorization: Option<Seq<char>>,
    req: PageRequestView,
    user: UserView,
    i: int,
)
    ensures
        auth::signed_in(d, authorization) == Ok::<UserView, ErrorReplyView>(user) && first_tagged(
            d,
            user.username,
            i,
        ) ==> (serve::own_page(d, authorization, req) matches Ok(page) && is_page_of(
            d,
            d.sessions[i].user_id,
            req,
            page,
        )),
        auth::signed_in(d, authorization) == Ok::<UserView, ErrorReplyView>(user) && none_tagged(
            d,
            user.username,
        ) ==> auth_laws::refuses(
            serve::own_page(d, authorization, req),
            400,
            "no WeChat account bound"@,
        ),
        auth::signed_in(d, authorization) matches Err(e) ==> serve::own_page(d, authorization, req)
            == Err::<MessageRowsView, ErrorReplyView>(e),
{
    if auth::signed_in(d, authorization) is Ok {
        accounts_belong_to_the_name_they_are_tagged_with(d, user.username, i);
    }
}

/// How a stored message is shown to its user.
pub open spec fn displays(
    shown: MessageResponseView,
    m: MessageView,
    sender: Option<Seq<char>>,
) -> bool {
    &&& m.direction == "send"@ ==> shown.from_user_id == "我"@
    &&& sender matches Some(s) ==> m.direction != "send"@ ==> shown.from_user_id == s
    &&& sender is None && m.direction != "send"@ ==> shown.from_user_id == m.wechat_user_id
    &&& m.msg_type == "text"@ && m.content.len() > 0 ==> shown.text == Some(m.content)
    &&& m.msg_type != "text"@ || m.content.len() == 0 ==> shown.text is None
    &&& shown.image <==> m.msg_type == "image"@
    &&& shown.file <==> m.msg_type == "file"@
}

/// A page shows each of its messages at its place: one that was sent as the user's own, one
/// that came in under who sent it, its text where it is one, and whether it is an image or a
/// file. The page's numbers are told as they are.
pub proof fn pages_show_each_message_at_its_place(
    page: MessageRowsView,
    senders: Seq<Option<Seq<char>>>,
    k: int,
)
    requires
        senders.len() == page.rows.len(),
    ensures
        ({
            let a = serve::page_answer(page, senders);
            a.success && a.message == "ok"@ && (a.data matches Some(
                DataView::MessagePage { messages, page: number, page_size, total, total_pages },
            ) && number == page.page && page_size == page.page_size && total == page.total
                && total_pages == serve::page_count(page.total, page.page_size) && messages.len()
                == page.rows.len() && (0 <= k < messages.len() ==> displays(
                messages[k],
                page.rows[k],
                senders[k],
            )))
        }),
        ({
            let a = serve::webhook_messages_answer(page.rows, senders);
            a.success && a.message == "ok"@ && (a.data matches Some(
                DataView::Messages { messages },
            ) && messages.len() == page.rows.len() && (0 <= k < messages.len() ==> displays(
                messages[k],
                page.rows[k],
                senders[k],
            )))
        }),
{
}

/// The webhook shows the messages of the account that it names, from the newest on, two
/// hundred at most; an account that is not on record is not found.
pub proof fn webhooks_show_the_newest_messages(d: DbView, wechat_user_id: Seq<char>, k: int)
    requires
        d.fault is None,
    ensures
        d.session(wechat_user_id) is Some ==> (serve::webhook_rows(d, wechat_user_id) matches Ok(
            rows,
        ) && {
            let all = d.newest_first(Some(wechat_user_id));
            &&& rows.len() == if all.len() < 200 {
                all.len()
            } else {
                200
            }
            &&& 0 <= k < rows.len() ==> rows[k] == all[k]
        }),
        d.session(wechat_user_id) is None ==> auth_laws::refuses(
            serve::webhook_rows(d, wechat_user_id),
            404,
            "unknown wechat user"@,
        ),
{
    model::first_where_finds(d.sessions, db::of_account(wechat_user_id));
}

/// The administrator is shown every user at their place: number, name and role as they are
/// stored, and the account that is tagged with their name, if there is one.
pub proof fn the_administrator_sees_every_user(
    d: DbView,
    authorization: Option<Seq<char>>,
    k: int,
    i: int,
)
    requires
        auth::signed_in_admin(d, authorization) is Ok,
    ensures
        serve::admin_users_answer(d, authorization) matches Ok(a) && a.success && a.message
            == "ok"@ && (a.data matches Some(DataView::Users { users }) && users.len()
            == d.users.len() && (0 <= k < users.len() ==> {
            let row = d.users[k];
            &&& users[k].id == row.id
            &&& users[k].username == row.username
            &&& users[k].role == row.role
            &&& first_tagged(d, row.username, i) ==> users[k].wechat_bound
                && users[k].wechat_user_id == Some(d.sessions[i].user_id)
            &&& none_tagged(d, row.username) ==> !users[k].wechat_bound
                && users[k].wechat_user_id is None
        })),
{
    assert(d.fault is None);
    if 0 <= k < d.users.len() {
        accounts_belong_to_the_name_they_are_tagged_with(d, d.users[k].username, i);
    }
}

/// Each entry of the administrator's page has the number, account, direction, content, type
/// and time of the stored message at the same place of the page, and the name that the
/// account is tagged with. The page's numbers are told as they are.
pub proof fn the_administrator_sees_messages_as_they_are_stored(
    d: DbView,
    authorization: Option<Seq<char>>,
    account: Option<Seq<char>>,
    req: PageRequestView,
    k: int,
)
    requires
        auth::signed_in_admin(d, authorization) is Ok,
    ensures
        serve::admin_messages_answer(d, authorization, account, req) matches Ok(a) && a.success
            && a.message == "ok"@ && (a.data matches Some(
            DataView::AdminPage { messages, page, page_size, total, total_pages },
        ) && page == req.page && page_size == req.page_size && total == d.newest_first(
            account,
        ).len() && total_pages == serve::page_count(total, page_size) && {
            let rows = d.message_page(account, req.page, req.page_size).0;
            &&& messages.len() == rows.len()
            &&& 0 <= k < rows.len() ==> {
                &&& messages[k].id == rows[k].id
                &&& messages[k].wechat_user_id == rows[k].wechat_user_id
                &&& messages[k].direction == rows[k].direction
                &&& messages[k].content == rows[k].content
                &&& messages[k].msg_type == rows[k].msg_type
                &&& messages[k].created_at == rows[k].created_at
                &&& match d.session(rows[k].wechat_user_id) {
                    Some(s) => match s.route_tag {
                        Some(name) => messages[k].username == name,
                        None => messages[k].username.len() == 0,
                    },
                    None => messages[k].username.len() == 0,
                }
            }
        }),
{
    assert(d.fault is None);
}

/// Nobody but the administrator sees users or messages of others.
pub proof fn others_see_no_listing(
    d: DbView,
    authorization: Option<Seq<char>>,
    account: Option<Seq<char>>,
    req: PageRequestView,
    e: ErrorReplyView,
)
    requires
        auth::signed_in_admin(d, authorization) == Err::<UserView, ErrorReplyView>(e),
    ensures
        serve::admin_users_answer(d, authorization) == Err::<ApiResponseView, ErrorReplyView>(e),
        serve::admin_messages_answer(d, authorization, account, req) == Err::<
            ApiResponseView,
            ErrorReplyView,
        >(e),
{
}

/// Without a page size there is no counting: no pages for no messages, and otherwise more than
/// can be counted. A negative page size counts backwards, as many pages as are full.
pub proof fn odd_page_sizes_are_counted(total: int, page_size: int)
    requires
        0 <= total,
        page_size <= 0,
    ensures
        page_size == 0 && total == 0 ==> serve::page_count(total, page_size) == 0,
        page_size == 0 && total > 0 ==> serve::page_count(total, page_size) == i64::MAX,
        page_size < 0 ==> ({
            let full = -serve::page_count(total, page_size);
            full * (-page_size) <= total < full * (-page_size) - page_size
        }),
{
    if page_size < 0 {
        let s = -page_size;
        vstd::arithmetic::div_mod::lemma_fundamental_div_mod(total, s);
        vstd::arithmetic::div_mod::lemma_mod_bound(total, s);
        assert(s * (total / s) == (total / s) * s) by (nonlinear_arith);
    }
}

/// Pages that anyone could turn to can be asked for.
pub proof fn usual_pages_fit(page: int, page_size: int)
    requires
        0 <= page <= 0x100_0000_0000_0000,
        0 <= page_size <= 100,
    ensures
        db::page_fits(page, page_size),
{
    assert(-100 <= (page - 1) * page_size <= 0x100_0000_0000_0000 * 100) by (nonlinear_arith)
        requires
            0 <= page <= 0x100_0000_0000_0000,
            0 <= page_size <= 100,
    ;
}

/// An account that cannot be read is not found by the webhook.
pub proof fn unread_accounts_are_not_found(
    d: DbView,
    wechat_user_id: Seq<char>,
    req: SendMsgRequestView,
)
    requires
        d.fault is Some,
    ensures
        auth_laws::refuses(
            serve::webhook_job(d, wechat_user_id, req),
            404,
            "unknown wechat user"@,
        ),
        auth_laws::refuses(serve::webhook_rows(d, wechat_user_id), 404, "unknown wechat user"@),
{
}

} // verus!
