//! The handlers of the dashboard, apart from those that deal with passwords.
//!
//! A handler that talks to the chat service in the middle is split: what comes before
//! the call, and what is answered once the service has spoken.

use vstd::prelude::*;

use crate::auth;
use crate::db::{
    self, Db, DbView, Message, MessageView, Session, SessionView, User, UserRowView,
    UserView,
};
use crate::delivery::{self, Delivery, DeliveryView, SendJob, SendJobView};
use crate::reply::{
    self, ApiResponse, ApiResponseView, BroadcastResult, BroadcastResultView, Data, DataView,
    ErrorReply, ErrorReplyView, MessageResponse, MessageResponseView, MessageSummary,
    MessageSummaryView, Profile, ProfileView, Reply, ReplyView, UserSummary, UserSummaryView,
    WebhookUsage, WebhookUsageView,
};
use crate::{db_laws, model, text};

verus! {

/// What is sent to have a text delivered.
#[derive(Debug)]
pub struct SendMsgRequest {
    pub text: Option<String>,
}

/// The plain value of a [`SendMsgRequest`].
#[verifier::ext_equal]
pub struct SendMsgRequestView {
    pub text: Option<Seq<char>>,
}

impl View for SendMsgRequest {
    type V = SendMsgRequestView;

    open spec fn view(&self) -> SendMsgRequestView {
        SendMsgRequestView {
            text: self.text.deep_view(),
        }
    }
}

impl DeepView for SendMsgRequest {
    type V = SendMsgRequestView;

    open spec fn deep_view(&self) -> SendMsgRequestView {
        self@
    }
}

/// What is sent to ask how far a binding is.
#[derive(Debug)]
pub struct BindStatusRequest {
    pub qrcode_id: String,
}

/// The plain value of a [`BindStatusRequest`].
#[verifier::ext_equal]
pub struct BindStatusRequestView {
    pub qrcode_id: Seq<char>,
}

impl View for BindStatusRequest {
    type V = BindStatusRequestView;

    open spec fn view(&self) -> BindStatusRequestView {
        BindStatusRequestView {
            qrcode_id: self.qrcode_id@,
        }
    }
}

impl DeepView for BindStatusRequest {
    type V = BindStatusRequestView;

    open spec fn deep_view(&self) -> BindStatusRequestView {
        self@
    }
}

/// A QR code from the chat service.
#[derive(Debug)]
pub struct QrCode {
    pub qrcode_id: Option<String>,
    pub qrcode_url: Option<String>,
}

/// The plain value of a [`QrCode`].
#[verifier::ext_equal]
pub struct QrCodeView {
    pub qrcode_id: Option<Seq<char>>,
    pub qrcode_url: Option<Seq<char>>,
}

impl View for QrCode {
    type V = QrCodeView;

    open spec fn view(&self) -> QrCodeView {
        QrCodeView {
            qrcode_id: self.qrcode_id.deep_view(),
            qrcode_url: self.qrcode_url.deep_view(),
        }
    }
}

impl DeepView for QrCode {
    type V = QrCodeView;

    open spec fn deep_view(&self) -> QrCodeView {
        self@
    }
}

/// What the chat service says of a QR code.
#[derive(Debug)]
pub struct QrStatus {
    pub status: String,
    pub bot_token: Option<String>,
    pub ilink_user_id: Option<String>,
}

/// The plain value of a [`QrStatus`].
#[verifier::ext_equal]
pub struct QrStatusView {
    pub status: Seq<char>,
    pub bot_token: Option<Seq<char>>,
    pub ilink_user_id: Option<Seq<char>>,
}

impl View for QrStatus {
    type V = QrStatusView;

    open spec fn view(&self) -> QrStatusView {
        QrStatusView {
            status: self.status@,
            bot_token: self.bot_token.deep_view(),
            ilink_user_id: self.ilink_user_id.deep_view(),
        }
    }
}

impl DeepView for QrStatus {
    type V = QrStatusView;

    open spec fn deep_view(&self) -> QrStatusView {
        self@
    }
}

/// A page of messages that was asked for.
#[derive(Debug)]
pub struct PageRequest {
    pub page: i64,
    pub page_size: i64,
}

/// The plain value of a [`PageRequest`].
#[verifier::ext_equal]
pub struct PageRequestView {
    pub page: int,
    pub page_size: int,
}

impl View for PageRequest {
    type V = PageRequestView;

    open spec fn view(&self) -> PageRequestView {
        PageRequestView {
            page: self.page as int,
            page_size: self.page_size as int,
        }
    }
}

impl DeepView for PageRequest {
    type V = PageRequestView;

    open spec fn deep_view(&self) -> PageRequestView {
        self@
    }
}

/// A page of messages as the tables hold them.
#[derive(Debug)]
pub struct MessageRows {
    pub rows: Vec<Message>,
    pub page: i64,
    pub page_size: i64,
    pub total: i64,
}

/// The plain value of a [`MessageRows`].
#[verifier::ext_equal]
pub struct MessageRowsView {
    pub rows: Seq<MessageView>,
    pub page: int,
    pub page_size: int,
    pub total: int,
}

impl View for MessageRows {
    type V = MessageRowsView;

    open spec fn view(&self) -> MessageRowsView {
        MessageRowsView {
            rows: self.rows.deep_view(),
            page: self.page as int,
            page_size: self.page_size as int,
            total: self.total as int,
        }
    }
}

impl DeepView for MessageRows {
    type V = MessageRowsView;

    open spec fn deep_view(&self) -> MessageRowsView {
        self@
    }
}

// Accounts and their owners.

pub open spec fn tagged(username: Seq<char>) -> spec_fn(SessionView) -> bool {
    |s: SessionView| s.route_tag == Some(username)
}

/// The accounts, none where they cannot be read.
pub open spec fn known_accounts(d: DbView) -> Seq<SessionView> {
    match d.guard(d.sessions) {
        Ok(s) => s,
        Err(_) => Seq::empty(),
    }
}

/// The account that a user has bound: the first one with their name.
pub open spec fn bound_account(d: DbView, username: Seq<char>) -> Option<SessionView> {
    model::first_where(known_accounts(d), tagged(username))
}

fn list_accounts(db: &Db) -> (r: Vec<Session>)
    ensures
        r.deep_view() == known_accounts(db@),
{
    match db::list_wechat_sessions(db) {
        Ok(s) => s,
        Err(_) => {
            let r: Vec<Session> = Vec::new();
            assert(r.deep_view() =~= Seq::empty());
            r
        },
    }
}

fn has_tag(session: &Session, username: &str) -> (r: bool)
    ensures
        r == tagged(username@)(session@),
{
    match &session.route_tag {
        Some(t) => text::same(t.as_str(), username),
        None => false,
    }
}

fn find_bound(sessions: &Vec<Session>, username: &str) -> (r: Option<Session>)
    ensures
        r.deep_view() == model::first_where(sessions.deep_view(), tagged(username@)),
{
    let ghost rows = sessions.deep_view();
    let ghost p = tagged(username@);
    let mut i: usize = 0;
    while i < sessions.len()
        invariant
            i <= sessions@.len(),
            rows == sessions.deep_view(),
            p == tagged(username@),
            forall|j: int| 0 <= j < i ==> !p(#[trigger] rows[j]),
        decreases sessions@.len() - i,
    {
        assert(rows[i as int] == sessions@[i as int]@);
        if has_tag(&sessions[i], username) {
            proof {
                model::first_where_is(rows, p, i as int);
            }
            return Some(sessions[i].clone());
        }
        i = i + 1;
    }
    proof {
        model::first_where_none(rows, p);
    }
    None
}

/// The account of the user whom a request comes from; `missing` is told to a user who
/// has none.
pub open spec fn own_account(
    d: DbView,
    authorization: Option<Seq<char>>,
    missing: Seq<char>,
) -> Result<SessionView, ErrorReplyView> {
    match auth::signed_in(d, authorization) {
        Err(e) => Err(e),
        Ok(user) => match bound_account(d, user.username) {
            Some(s) => Ok(s),
            None => Err(reply::failure(reply::BAD_REQUEST, missing)),
        },
    }
}

/// Gives the account of the user whom a request comes from.
pub fn find_own_account(db: &Db, authorization: Option<&str>, missing: &str) -> (r: Result<
    Session,
    ErrorReply,
>)
    ensures
        model::outcome(r) == own_account(db@, authorization.deep_view(), missing@),
{
    let user: User = auth::extract_user(db, authorization)?;
    let sessions: Vec<Session> = list_accounts(db);
    match find_bound(&sessions, user.username.as_str()) {
        Some(s) => Ok(s),
        None => Err(reply::fail(reply::BAD_REQUEST, missing)),
    }
}

/// The account that a webhook speaks of.
pub open spec fn webhook_account(d: DbView, wechat_user_id: Seq<char>) -> Result<
    SessionView,
    ErrorReplyView,
> {
    match d.guard(d.session(wechat_user_id)) {
        Ok(Some(s)) => Ok(s),
        _ => Err(reply::failure(reply::NOT_FOUND, "unknown wechat user"@)),
    }
}

fn find_webhook_account(db: &Db, wechat_user_id: &str) -> (r: Result<Session, ErrorReply>)
    ensures
        model::outcome(r) == webhook_account(db@, wechat_user_id@),
{
    match db::load_session(db, wechat_user_id) {
        Ok(Some(s)) => Ok(s),
        _ => Err(reply::fail(reply::NOT_FOUND, "unknown wechat user")),
    }
}

// The user's own account.

/// Ready-made calls of the sending webhook of an account.
pub open spec fn usage_of(user_id: Seq<char>) -> WebhookUsageView {
    WebhookUsageView {
        curl: "curl -X POST http://<host>:<port>/webhook/"@ + user_id
            + "/send -H 'Content-Type: application/json' -d '{\"text\":\"hello\"}'"@,
        python: "import requests\nr = requests.post(\"http://<host>:<port>/webhook/"@ + user_id
            + "/send\", json={\"text\":\"hello\"})\nprint(r.json())"@,
        rust: "let resp = client.post(format!(\"http://<host>:<port>/webhook/"@ + user_id
            + "/send\", user_id)).json(&serde_json::json!({\"text\":\"hello\"})).send().await?;"@,
    }
}

fn make_usage(user_id: &str) -> (r: WebhookUsage)
    ensures
        r@ == usage_of(user_id@),
{
    WebhookUsage {
        curl: text::join3(
            "curl -X POST http://<host>:<port>/webhook/",
            user_id,
            "/send -H 'Content-Type: application/json' -d '{\"text\":\"hello\"}'",
        ),
        python: text::join3(
            "import requests\nr = requests.post(\"http://<host>:<port>/webhook/",
            user_id,
            "/send\", json={\"text\":\"hello\"})\nprint(r.json())",
        ),
        rust: text::join3(
            "let resp = client.post(format!(\"http://<host>:<port>/webhook/",
            user_id,
            "/send\", user_id)).json(&serde_json::json!({\"text\":\"hello\"})).send().await?;",
        ),
    }
}

/// What a user is told about their own account.
pub open spec fn profile_of(user: UserView, bound: Option<SessionView>) -> ProfileView {
    ProfileView {
        username: user.username,
        role: user.role,
        wechat_bound: bound is Some,
        wechat_user_id: match bound {
            Some(s) => Some(s.user_id),
            None => None,
        },
        webhook_url: match bound {
            Some(s) => Some("/webhook/"@ + s.user_id + "/send"@),
            None => None,
        },
        webhook_usage: match bound {
            Some(s) => Some(usage_of(s.user_id)),
            None => None,
        },
    }
}

/// The answer to a user who asks about their own account.
pub open spec fn me_answer(d: DbView, authorization: Option<Seq<char>>) -> ReplyView {
    match auth::signed_in(d, authorization) {
        Err(e) => Err(e),
        Ok(user) => Ok(
            ApiResponseView::ok_with_data(
                "ok"@,
                DataView::Profile(profile_of(user, bound_account(d, user.username))),
            ),
        ),
    }
}

/// Tells a user about their own account.
pub fn handle_me(db: &Db, authorization: Option<&str>) -> (r: Reply)
    ensures
        model::outcome(r) == me_answer(db@, authorization.deep_view()),
{
    let user: User = auth::extract_user(db, authorization)?;
    let sessions: Vec<Session> = list_accounts(db);
    let profile: Profile = match find_bound(&sessions, user.username.as_str()) {
        Some(s) => Profile {
            username: user.username,
            role: user.role,
            wechat_bound: true,
            webhook_url: Some(text::join3("/webhook/", s.user_id.as_str(), "/send")),
            webhook_usage: Some(make_usage(s.user_id.as_str())),
            wechat_user_id: Some(s.user_id),
        },
        None => Profile {
            username: user.username,
            role: user.role,
            wechat_bound: false,
            webhook_url: None,
            webhook_usage: None,
            wechat_user_id: None,
        },
    };
    Ok(ApiResponse::ok_with_data("ok", Data::Profile(profile)))
}

// Binding an account.

/// The answer to a request for a QR code, once the service has spoken.
pub open spec fn qrcode_answer(fetched: Result<QrCodeView, Seq<char>>) -> ReplyView {
    match fetched {
        Err(e) => Err(reply::failure(reply::BAD_GATEWAY, e)),
        Ok(code) => Ok(
            ApiResponseView::ok_with_data(
                "qr code fetched"@,
                DataView::QrCode {
                    qrcode_id: text::text_or_empty(code.qrcode_id),
                    qrcode_url: text::text_or_empty(code.qrcode_url),
                },
            ),
        ),
    }
}

/// Answers a request for a QR code from a user who is signed in.
pub fn handle_bind_qrcode(fetched: Result<QrCode, String>) -> (r: Reply)
    ensures
        model::outcome(r) == qrcode_answer(model::outcome(fetched)),
{
    match fetched {
        Err(e) => Err(reply::fail(reply::BAD_GATEWAY, e.as_str())),
        Ok(code) => Ok(
            ApiResponse::ok_with_data(
                "qr code fetched",
                Data::QrCode {
                    qrcode_id: text::or_empty(code.qrcode_id),
                    qrcode_url: text::or_empty(code.qrcode_url),
                },
            ),
        ),
    }
}

/// What the chat service's word on a QR code does to the tables, and what is answered.
/// A confirmed code binds the account to the user, with neither token nor cursor.
pub open spec fn bind_status_step(
    d: DbView,
    username: Seq<char>,
    fetched: Result<QrStatusView, Seq<char>>,
) -> (DbView, ReplyView) {
    match fetched {
        Err(e) => (d, Err(reply::failure(reply::BAD_GATEWAY, e))),
        Ok(s) => if s.status == "confirmed"@ {
            let bot_token = text::text_or_empty(s.bot_token);
            let user_id = text::text_or_empty(s.ilink_user_id);
            if bot_token.len() == 0 || user_id.len() == 0 {
                (d, Err(reply::failure(reply::BAD_GATEWAY, "incomplete bind data from server"@)))
            } else {
                (
                    d.save_context_token(
                        user_id,
                        bot_token,
                        Some(username),
                        Seq::empty(),
                    ).save_updates_buf(user_id, Seq::empty()),
                    Ok(
                        ApiResponseView::ok_with_data(
                            "WeChat account bound successfully"@,
                            DataView::Bound { wechat_user_id: user_id },
                        ),
                    ),
                )
            }
        } else {
            (
                d,
                Ok(
                    ApiResponseView::ok_with_data(
                        "polling"@,
                        DataView::Status { status: s.status },
                    ),
                ),
            )
        },
    }
}

/// Answers how far a binding is, and binds the account once it is confirmed, for a
/// user who is signed in.
pub fn handle_bind_status(db: &mut Db, user: &User, fetched: Result<QrStatus, String>) -> (r: Reply)
    ensures
        (final(db)@, model::outcome(r)) == bind_status_step(
            old(db)@,
            user@.username,
            model::outcome(fetched),
        ),
{
    let s: QrStatus = match fetched {
        Err(e) => {
            return Err(reply::fail(reply::BAD_GATEWAY, e.as_str()));
        },
        Ok(s) => s,
    };
    if text::same(s.status.as_str(), "confirmed") {
        let bot_token: String = text::or_empty(s.bot_token);
        let user_id: String = text::or_empty(s.ilink_user_id);
        if bot_token.as_str().is_empty() || user_id.as_str().is_empty() {
            return Err(reply::fail(reply::BAD_GATEWAY, "incomplete bind data from server"));
        }
        proof {
            reveal_strlit("");
            assert(""@ =~= Seq::<char>::empty());
        }
        let _ = db::save_context_token(
            db,
            user_id.as_str(),
            bot_token.as_str(),
            Some(user.username.as_str()),
            "",
        );
        let _ = db::save_updates_buf(db, user_id.as_str(), "");
        Ok(
            ApiResponse::ok_with_data(
                "WeChat account bound successfully",
                Data::Bound { wechat_user_id: user_id },
            ),
        )
    } else {
        Ok(ApiResponse::ok_with_data("polling", Data::Status { status: s.status }))
    }
}

// Sending.

/// The text that a request asks to deliver.
pub open spec fn requested_text(req: SendMsgRequestView) -> Seq<char> {
    text::text_or_empty(req.text)
}

fn text_asked(req: &SendMsgRequest) -> (r: String)
    ensures
        r@ == requested_text(req@),
{
    text::or_empty(text::copy_option(&req.text))
}

/// A text for an account, where there is one.
pub open spec fn job_or_refusal(
    account: Result<SessionView, ErrorReplyView>,
    req: SendMsgRequestView,
) -> Result<SendJobView, ErrorReplyView> {
    match account {
        Ok(s) => Ok(delivery::job_for(s, requested_text(req))),
        Err(e) => Err(e),
    }
}

/// A text from a user to their own account.
pub open spec fn own_job(
    d: DbView,
    authorization: Option<Seq<char>>,
    req: SendMsgRequestView,
) -> Result<SendJobView, ErrorReplyView> {
    job_or_refusal(
        own_account(d, authorization, "no WeChat account bound; scan a QR code first"@),
        req,
    )
}

/// Begins to send a text from a user to their own account.
pub fn begin_send_msg(db: &Db, authorization: Option<&str>, req: &SendMsgRequest) -> (r: Result<
    SendJob,
    ErrorReply,
>)
    ensures
        model::outcome(r) == own_job(db@, authorization.deep_view(), req@),
{
    let session: Session = find_own_account(
        db,
        authorization,
        "no WeChat account bound; scan a QR code first",
    )?;
    Ok(delivery::make_job(&session, text_asked(req).as_str()))
}

/// The answer to a user who sent a text to their own account.
pub open spec fn send_msg_answer(delivery: DeliveryView) -> ReplyView {
    match delivery {
        DeliveryView::Sent => Ok(ApiResponseView::ok("message sent"@)),
        DeliveryView::NoToken => Err(
            reply::failure(
                reply::BAD_GATEWAY,
                "no context token; the other user must send a message first"@,
            ),
        ),
        DeliveryView::Failed(e) => Err(reply::failure(reply::BAD_GATEWAY, e)),
    }
}

/// Answers a user who sent a text to their own account.
pub fn finish_send_msg(delivery: Delivery) -> (r: Reply)
    ensures
        model::outcome(r) == send_msg_answer(delivery@),
{
    match delivery {
        Delivery::Sent => Ok(ApiResponse::ok("message sent")),
        Delivery::NoToken => Err(
            reply::fail(
                reply::BAD_GATEWAY,
                "no context token; the other user must send a message first",
            ),
        ),
        Delivery::Failed(e) => Err(reply::fail(reply::BAD_GATEWAY, e.as_str())),
    }
}

/// A text to the account that a webhook speaks of.
pub open spec fn webhook_job(
    d: DbView,
    wechat_user_id: Seq<char>,
    req: SendMsgRequestView,
) -> Result<SendJobView, ErrorReplyView> {
    job_or_refusal(webhook_account(d, wechat_user_id), req)
}

/// Begins to send a text to the account that a webhook speaks of.
pub fn begin_webhook_send(db: &Db, wechat_user_id: &str, req: &SendMsgRequest) -> (r: Result<
    SendJob,
    ErrorReply,
>)
    ensures
        model::outcome(r) == webhook_job(db@, wechat_user_id@, req@),
{
    let session: Session = find_webhook_account(db, wechat_user_id)?;
    Ok(delivery::make_job(&session, text_asked(req).as_str()))
}

/// How a delivery ended: in an error text, unless the text was sent.
pub open spec fn delivery_error(user_id: Seq<char>, delivery: DeliveryView) -> Option<Seq<char>> {
    match delivery {
        DeliveryView::Sent => None,
        DeliveryView::NoToken => Some("no context token for `"@ + user_id + "`"@),
        DeliveryView::Failed(e) => Some(e),
    }
}

fn error_of(user_id: &str, delivery: Delivery) -> (r: Option<String>)
    ensures
        r.deep_view() == delivery_error(user_id@, delivery@),
{
    match delivery {
        Delivery::Sent => None,
        Delivery::NoToken => Some(text::join3("no context token for `", user_id, "`")),
        Delivery::Failed(e) => Some(e),
    }
}

/// The answer to a caller of the sending webhook.
pub open spec fn webhook_send_answer(user_id: Seq<char>, delivery: DeliveryView) -> ReplyView {
    match delivery_error(user_id, delivery) {
        None => Ok(ApiResponseView::ok("message sent via webhook"@)),
        Some(e) => Err(reply::failure(reply::BAD_GATEWAY, e)),
    }
}

/// Answers a caller of the sending webhook.
pub fn finish_webhook_send(user_id: &str, delivery: Delivery) -> (r: Reply)
    ensures
        model::outcome(r) == webhook_send_answer(user_id@, delivery@),
{
    match error_of(user_id, delivery) {
        None => Ok(ApiResponse::ok("message sent via webhook")),
        Some(e) => Err(reply::fail(reply::BAD_GATEWAY, e.as_str())),
    }
}

/// The texts of a broadcast: one for every account, from the administrator only.
pub open spec fn broadcast_jobs(
    d: DbView,
    authorization: Option<Seq<char>>,
    req: SendMsgRequestView,
) -> Result<Seq<SendJobView>, ErrorReplyView> {
    match auth::signed_in_admin(d, authorization) {
        Err(e) => Err(e),
        Ok(_) => if requested_text(req).len() == 0 {
            Err(reply::failure(reply::BAD_REQUEST, "text is required"@))
        } else {
            match d.guard(d.sessions) {
                Err(e) => Err(auth::table_failure(e)),
                Ok(sessions) => Ok(
                    sessions.map_values(|s: SessionView| delivery::job_for(s, requested_text(req))),
                ),
            }
        },
    }
}

/// Begins a broadcast.
pub fn begin_broadcast(db: &Db, authorization: Option<&str>, req: &SendMsgRequest) -> (r: Result<
    Vec<SendJob>,
    ErrorReply,
>)
    ensures
        model::outcome(r) == broadcast_jobs(db@, authorization.deep_view(), req@),
{
    auth::extract_admin(db, authorization)?;
    let text: String = text_asked(req);
    if text.as_str().is_empty() {
        return Err(reply::fail(reply::BAD_REQUEST, "text is required"));
    }
    let sessions: Vec<Session> = match db::list_wechat_sessions(db) {
        Err(e) => {
            return Err(auth::table_error(&e));
        },
        Ok(s) => s,
    };
    let mut jobs: Vec<SendJob> = Vec::new();
    let mut i: usize = 0;
    while i < sessions.len()
        invariant
            i <= sessions@.len(),
            jobs@.len() == i,
            forall|j: int|
                0 <= j < i ==> (#[trigger] jobs@[j])@ == delivery::job_for(sessions@[j]@, text@),
        decreases sessions@.len() - i,
    {
        jobs.push(delivery::make_job(&sessions[i], text.as_str()));
        i = i + 1;
    }
    assert(jobs.deep_view() =~= db@.sessions.map_values(
        |s: SessionView| delivery::job_for(s, requested_text(req@)),
    )) by {
        assert forall|j: int| 0 <= j < sessions@.len() implies #[trigger] sessions@[j]@
            == db@.sessions[j] by {
            assert(sessions.deep_view()[j] == sessions@[j]@);
        }
    }
    Ok(jobs)
}

/// How a broadcast went for one account.
pub open spec fn broadcast_entry(user_id: Seq<char>, delivery: DeliveryView) -> BroadcastResultView {
    BroadcastResultView {
        user_id,
        success: delivery is Sent,
        error: delivery_error(user_id, delivery),
    }
}

/// Reports how a broadcast went for one account.
pub fn broadcast_result(user_id: &str, delivery: Delivery) -> (r: BroadcastResult)
    ensures
        r@ == broadcast_entry(user_id@, delivery@),
{
    let error: Option<String> = error_of(user_id, delivery);
    BroadcastResult { user_id: user_id.to_owned(), success: error.is_none(), error }
}

pub open spec fn succeeded() -> spec_fn(BroadcastResultView) -> bool {
    |r: BroadcastResultView| r.success
}

/// The answer to a broadcast.
pub open spec fn broadcast_answer(results: Seq<BroadcastResultView>) -> ApiResponseView {
    ApiResponseView::ok_with_data(
        "broadcast sent to "@ + text::decimal_digits(results.filter(succeeded()).len() as int)
            + "/"@ + text::decimal_digits(results.len() as int) + " users"@,
        DataView::Broadcast { results },
    )
}

/// Answers a broadcast.
pub fn finish_broadcast(results: Vec<BroadcastResult>) -> (r: ApiResponse)
    ensures
        r@ == broadcast_answer(results.deep_view()),
{
    let ghost rows = results.deep_view();
    let mut count: u64 = 0;
    let mut i: usize = 0;
    proof {
        reveal(Seq::filter);
        assert(rows.take(0).filter(succeeded()) =~= Seq::empty());
    }
    while i < results.len()
        invariant
            i <= results@.len(),
            rows == results.deep_view(),
            count <= i,
            count == rows.take(i as int).filter(succeeded()).len(),
        decreases results@.len() - i,
    {
        proof {
            reveal(Seq::filter);
            assert(rows.take(i + 1).drop_last() =~= rows.take(i as int));
            assert(rows.take(i + 1).last() == results@[i as int]@);
        }
        if results[i].success {
            count = count + 1;
        }
        i = i + 1;
    }
    assert(rows.take(i as int) =~= rows);
    let message: String = "broadcast sent to ".to_owned().concat(
        text::decimal(count).as_str(),
    ).concat("/").concat(text::decimal(results.len() as u64).as_str()).concat(" users");
    ApiResponse::ok_with_data(message.as_str(), Data::Broadcast { results })
}

// Reading messages.

/// The page that query parameters ask for: page 1 with 15 messages unless they say
/// otherwise, and 100 messages at most.
pub open spec fn requested_page(
    page: Option<Seq<char>>,
    page_size: Option<Seq<char>>,
) -> PageRequestView {
    let size = parsed_or(page_size, 15);
    PageRequestView {
        page: parsed_or(page, 1),
        page_size: if size > 100 {
            100
        } else {
            size
        },
    }
}

pub open spec fn parsed_or(s: Option<Seq<char>>, default: int) -> int {
    match s {
        Some(t) => match text::parsed_i64(t) {
            Some(n) => n as int,
            None => default,
        },
        None => default,
    }
}

fn number_or(s: Option<&str>, default: i64) -> (r: i64)
    ensures
        r == parsed_or(s.deep_view(), default as int),
{
    match s {
        Some(t) => match text::parse_i64(t) {
            Some(n) => n,
            None => default,
        },
        None => default,
    }
}

impl PageRequest {
    /// Reads the page that query parameters ask for.
    pub fn parse(page: Option<&str>, page_size: Option<&str>) -> (r: PageRequest)
        ensures
            r@ == requested_page(page.deep_view(), page_size.deep_view()),
    {
        let size: i64 = number_or(page_size, 15);
        PageRequest {
            page: number_or(page, 1),
            page_size: if size > 100 {
                100
            } else {
                size
            },
        }
    }

    /// Tells whether the first row of the page is one that a 64-bit offset can hold.
    pub fn fits(&self) -> (r: bool)
        ensures
            r == db::page_fits(self@.page, self@.page_size),
    {
        match self.page.checked_sub(1) {
            Some(before) => before.checked_mul(self.page_size).is_some(),
            None => false,
        }
    }
}

/// How many pages a number of messages fills, as far as the page size says so. A page
/// size of zero is never enough, and a negative one counts backwards.
pub open spec fn page_count(total: int, page_size: int) -> int {
    if page_size > 0 {
        (total + page_size - 1) / page_size
    } else if page_size == 0 {
        if total == 0 {
            0
        } else {
            i64::MAX as int
        }
    } else {
        -(total / (-page_size))
    }
}

/// Counts the pages that a number of messages fills.
pub fn total_pages(total: i64, page_size: i64) -> (r: i64)
    requires
        0 <= total,
        page_size <= 100,
    ensures
        r == page_count(total as int, page_size as int),
{
    if page_size > 0 {
        let whole: i64 = total / page_size;
        proof {
            lemma_rounded_up(total as int, page_size as int);
            vstd::arithmetic::div_mod::lemma_div_pos_is_pos(total as int, page_size as int);
            vstd::arithmetic::div_mod::lemma_div_is_ordered_by_denominator(
                total as int,
                1,
                page_size as int,
            );
            vstd::arithmetic::div_mod::lemma_div_basics(total as int);
        }
        if total % page_size == 0 {
            whole
        } else {
            proof {
                if page_size == 1 {
                    vstd::arithmetic::div_mod::lemma_mod_bound(total as int, 1);
                } else {
                    vstd::arithmetic::div_mod::lemma_div_is_ordered_by_denominator(
                        total as int,
                        2,
                        page_size as int,
                    );
                }
            }
            whole + 1
        }
    } else if page_size == 0 {
        if total == 0 {
            0
        } else {
            i64::MAX
        }
    } else if page_size == i64::MIN {
        proof {
            vstd::arithmetic::div_mod::lemma_basic_div(total as int, -(page_size as int));
        }
        0
    } else {
        let size: i64 = -page_size;
        proof {
            vstd::arithmetic::div_mod::lemma_div_pos_is_pos(total as int, size as int);
            vstd::arithmetic::div_mod::lemma_div_is_ordered_by_denominator(
                total as int,
                1,
                size as int,
            );
            vstd::arithmetic::div_mod::lemma_div_basics(total as int);
        }
        -(total / size)
    }
}

proof fn lemma_rounded_up(a: int, b: int)
    requires
        0 <= a,
        0 < b,
    ensures
        (a + b - 1) / b == a / b + (if a % b == 0 {
            0int
        } else {
            1int
        }),
{
    let q = a / b;
    let r = a % b;
    vstd::arithmetic::div_mod::lemma_fundamental_div_mod(a, b);
    vstd::arithmetic::div_mod::lemma_mod_bound(a, b);
    assert(b * (q + 1) == b * q + b) by (nonlinear_arith);
    if r == 0 {
        assert(q * b == b * q) by (nonlinear_arith);
        vstd::arithmetic::div_mod::lemma_fundamental_div_mod_converse(a + b - 1, b, q, b - 1);
    } else {
        assert((q + 1) * b == b * q + b) by (nonlinear_arith);
        vstd::arithmetic::div_mod::lemma_fundamental_div_mod_converse(a + b - 1, b, q + 1, r - 1);
    }
}

/// A page of the messages of an account; an empty one where they cannot be read.
pub open spec fn account_page(
    d: DbView,
    account: Seq<char>,
    req: PageRequestView,
) -> MessageRowsView {
    let (rows, total) = if d.fault is None {
        d.message_page(Some(account), req.page, req.page_size)
    } else {
        (Seq::empty(), 0)
    };
    MessageRowsView { rows, page: req.page, page_size: req.page_size, total }
}

/// A page of the messages of a user's own account.
pub open spec fn own_page(
    d: DbView,
    authorization: Option<Seq<char>>,
    req: PageRequestView,
) -> Result<MessageRowsView, ErrorReplyView> {
    match own_account(d, authorization, "no WeChat account bound"@) {
        Err(e) => Err(e),
        Ok(s) => Ok(account_page(d, s.user_id, req)),
    }
}

/// Begins to show a user a page of the messages of their own account: finds the rows.
pub fn begin_messages(db: &Db, authorization: Option<&str>, req: &PageRequest) -> (r: Result<
    MessageRows,
    ErrorReply,
>)
    requires
        db@.wf(),
        own_account(db@, authorization.deep_view(), "no WeChat account bound"@) is Ok
            ==> db::page_fits(req@.page, req@.page_size),
    ensures
        model::outcome(r) == own_page(db@, authorization.deep_view(), req@),
{
    let session: Session = find_own_account(db, authorization, "no WeChat account bound")?;
    match db::list_messages_paginated(
        db,
        Some(session.user_id.as_str()),
        req.page,
        req.page_size,
    ) {
        Ok((rows, total)) => Ok(
            MessageRows { rows, page: req.page, page_size: req.page_size, total },
        ),
        Err(_) => {
            let rows: Vec<Message> = Vec::new();
            assert(rows.deep_view() =~= Seq::empty());
            Ok(MessageRows { rows, page: req.page, page_size: req.page_size, total: 0 })
        },
    }
}

/// A message as it is shown to its user. `sender` is who sent it according to the
/// message as it came in, where that could be read.
pub open spec fn shown(m: MessageView, sender: Option<Seq<char>>) -> MessageResponseView {
    MessageResponseView {
        from_user_id: if m.direction == "send"@ {
            "我"@
        } else {
            match sender {
                Some(s) => s,
                None => m.wechat_user_id,
            }
        },
        text: if m.msg_type == "text"@ {
            text::unless_empty(m.content)
        } else {
            None
        },
        image: m.msg_type == "image"@,
        file: m.msg_type == "file"@,
    }
}

fn show_message(m: &Message, sender: &Option<String>) -> (r: MessageResponse)
    ensures
        r@ == shown(m@, sender.deep_view()),
{
    let from_user_id: String = if text::same(m.direction.as_str(), "send") {
        "我".to_owned()
    } else {
        match sender {
            Some(s) => s.clone(),
            None => m.wechat_user_id.clone(),
        }
    };
    MessageResponse {
        from_user_id,
        text: if text::same(m.msg_type.as_str(), "text") {
            text::non_empty(&m.content)
        } else {
            None
        },
        image: text::same(m.msg_type.as_str(), "image"),
        file: text::same(m.msg_type.as_str(), "file"),
    }
}

/// Messages as they are shown to their user.
pub open spec fn all_shown(rows: Seq<MessageView>, senders: Seq<Option<Seq<char>>>) -> Seq<
    MessageResponseView,
> {
    Seq::new(rows.len(), |i: int| shown(rows[i], senders[i]))
}

fn show_messages(rows: &Vec<Message>, senders: &Vec<Option<String>>) -> (r: Vec<MessageResponse>)
    requires
        senders@.len() == rows@.len(),
    ensures
        r.deep_view() == all_shown(rows.deep_view(), senders.deep_view()),
{
    let mut out: Vec<MessageResponse> = Vec::new();
    let mut i: usize = 0;
    while i < rows.len()
        invariant
            i <= rows@.len(),
            senders@.len() == rows@.len(),
            out@.len() == i,
            forall|j: int|
                0 <= j < i ==> (#[trigger] out@[j])@ == shown(rows@[j]@, senders@[j].deep_view()),
        decreases rows@.len() - i,
    {
        out.push(show_message(&rows[i], &senders[i]));
        i = i + 1;
    }
    assert(out.deep_view() =~= all_shown(rows.deep_view(), senders.deep_view()));
    out
}

/// The answer to a user who asks for a page of messages.
pub open spec fn page_answer(
    page: MessageRowsView,
    senders: Seq<Option<Seq<char>>>,
) -> ApiResponseView {
    ApiResponseView::ok_with_data(
        "ok"@,
        DataView::MessagePage {
            messages: all_shown(page.rows, senders),
            page: page.page,
            page_size: page.page_size,
            total: page.total,
            total_pages: page_count(page.total, page.page_size),
        },
    )
}

/// Shows a user a page of messages, given who sent each.
pub fn finish_messages(page: &MessageRows, senders: &Vec<Option<String>>) -> (r: ApiResponse)
    requires
        senders@.len() == page.rows@.len(),
        0 <= page.total,
        page.page_size <= 100,
    ensures
        r@ == page_answer(page@, senders.deep_view()),
{
    ApiResponse::ok_with_data(
        "ok",
        Data::MessagePage {
            messages: show_messages(&page.rows, senders),
            page: page.page,
            page_size: page.page_size,
            total: page.total,
            total_pages: total_pages(page.total, page.page_size),
        },
    )
}

/// The newest messages of the account that a webhook speaks of.
pub open spec fn webhook_rows(d: DbView, wechat_user_id: Seq<char>) -> Result<
    Seq<MessageView>,
    ErrorReplyView,
> {
    match webhook_account(d, wechat_user_id) {
        Err(e) => Err(e),
        Ok(s) => Ok(d.message_page(Some(s.user_id), 1, 200).0),
    }
}

/// Begins to show the messages of the account that a webhook speaks of: finds the
/// newest rows.
pub fn begin_webhook_messages(db: &Db, wechat_user_id: &str) -> (r: Result<
    Vec<Message>,
    ErrorReply,
>)
    requires
        db@.wf(),
    ensures
        model::outcome(r) == webhook_rows(db@, wechat_user_id@),
{
    let session: Session = find_webhook_account(db, wechat_user_id)?;
    match db::list_messages(db, Some(session.user_id.as_str())) {
        Ok(rows) => Ok(rows),
        Err(_) => Ok(Vec::new()),
    }
}

/// The answer to a caller of the webhook who asks for messages.
pub open spec fn webhook_messages_answer(
    rows: Seq<MessageView>,
    senders: Seq<Option<Seq<char>>>,
) -> ApiResponseView {
    ApiResponseView::ok_with_data("ok"@, DataView::Messages { messages: all_shown(rows, senders) })
}

/// Shows messages to a caller of the webhook, given who sent each.
pub fn finish_webhook_messages(rows: &Vec<Message>, senders: &Vec<Option<String>>) -> (r:
    ApiResponse)
    requires
        senders@.len() == rows@.len(),
    ensures
        r@ == webhook_messages_answer(rows.deep_view(), senders.deep_view()),
{
    ApiResponse::ok_with_data("ok", Data::Messages { messages: show_messages(rows, senders) })
}

// The administrator's view.

/// A user as it is shown to the administrator.
pub open spec fn user_summary(d: DbView, u: UserView) -> UserSummaryView {
    let bound = bound_account(d, u.username);
    UserSummaryView {
        id: u.id,
        username: u.username,
        role: u.role,
        wechat_bound: bound is Some,
        wechat_user_id: match bound {
            Some(s) => Some(s.user_id),
            None => None,
        },
    }
}

/// The answer to the administrator who asks for all users.
pub open spec fn admin_users_answer(d: DbView, authorization: Option<Seq<char>>) -> ReplyView {
    match auth::signed_in_admin(d, authorization) {
        Err(e) => Err(e),
        Ok(_) => Ok(
            ApiResponseView::ok_with_data(
                "ok"@,
                DataView::Users {
                    users: d.users.map_values(|u: UserRowView| user_summary(d, u.user())),
                },
            ),
        ),
    }
}

/// Users stand by ascending number.
pub open spec fn summaries_by_number(users: Seq<UserSummaryView>) -> bool {
    forall|i: int, j: int|
        0 <= i < j < users.len() ==> (#[trigger] users[i]).id < (#[trigger] users[j]).id
}

/// Shows the administrator all users, by ascending number.
pub fn handle_admin_users(db: &Db, authorization: Option<&str>) -> (r: Reply)
    requires
        db@.wf(),
    ensures
        model::outcome(r) == admin_users_answer(db@, authorization.deep_view()),
        r matches Ok(a) ==> (a@.data matches Some(DataView::Users { users }) && summaries_by_number(
            users,
        )),
{
    auth::extract_admin(db, authorization)?;
    let users: Vec<User> = match db::list_users(db) {
        Err(e) => {
            return Err(auth::table_error(&e));
        },
        Ok(u) => u,
    };
    let sessions: Vec<Session> = list_accounts(db);
    let ghost all = db@.users.map_values(|u: UserRowView| u.user());
    let mut out: Vec<UserSummary> = Vec::new();
    let mut i: usize = 0;
    while i < users.len()
        invariant
            i <= users@.len(),
            users.deep_view() == all,
            sessions.deep_view() == known_accounts(db@),
            out@.len() == i,
            forall|j: int| 0 <= j < i ==> (#[trigger] out@[j])@ == user_summary(db@, all[j]),
        decreases users@.len() - i,
    {
        assert(users.deep_view()[i as int] == users@[i as int]@);
        let wechat_user_id: Option<String> = match find_bound(
            &sessions,
            users[i].username.as_str(),
        ) {
            Some(s) => Some(s.user_id),
            None => None,
        };
        out.push(
            UserSummary {
                id: users[i].id,
                username: users[i].username.clone(),
                role: users[i].role.clone(),
                wechat_bound: wechat_user_id.is_some(),
                wechat_user_id,
            },
        );
        i = i + 1;
    }
    assert(users.deep_view().len() == all.len());
    assert(out.deep_view() =~= db@.users.map_values(
        |u: UserRowView| user_summary(db@, u.user()),
    ));
    assert forall|i: int, j: int| 0 <= i < j < out@.len() implies (
    #[trigger] out.deep_view()[i]).id < (#[trigger] out.deep_view()[j]).id by {
        assert(users.deep_view()[i].id < users.deep_view()[j].id);
    }
    Ok(ApiResponse::ok_with_data("ok", Data::Users { users: out }))
}

/// A message as it is shown to the administrator, with the name of the user whose
/// account it belongs to.
pub open spec fn message_summary(d: DbView, m: MessageView) -> MessageSummaryView {
    MessageSummaryView {
        id: m.id,
        wechat_user_id: m.wechat_user_id,
        username: match model::first_where(known_accounts(d), db::of_account(m.wechat_user_id)) {
            Some(s) => text::text_or_empty(s.route_tag),
            None => Seq::empty(),
        },
        direction: m.direction,
        content: m.content,
        msg_type: m.msg_type,
        created_at: m.created_at,
    }
}

fn account_owner(sessions: &Vec<Session>, user_id: &str) -> (r: String)
    ensures
        r@ == match model::first_where(sessions.deep_view(), db::of_account(user_id@)) {
            Some(s) => text::text_or_empty(s.route_tag),
            None => Seq::empty(),
        },
{
    let ghost rows = sessions.deep_view();
    let ghost p = db::of_account(user_id@);
    let mut i: usize = 0;
    while i < sessions.len()
        invariant
            i <= sessions@.len(),
            rows == sessions.deep_view(),
            p == db::of_account(user_id@),
            forall|j: int| 0 <= j < i ==> !p(#[trigger] rows[j]),
        decreases sessions@.len() - i,
    {
        assert(rows[i as int] == sessions@[i as int]@);
        if text::same(sessions[i].user_id.as_str(), user_id) {
            proof {
                model::first_where_is(rows, p, i as int);
            }
            return text::or_empty(text::copy_option(&sessions[i].route_tag));
        }
        i = i + 1;
    }
    proof {
        model::first_where_none(rows, p);
    }
    String::new()
}

/// The answer to the administrator who asks for a page of messages, of one account or
/// of all.
pub open spec fn admin_messages_answer(
    d: DbView,
    authorization: Option<Seq<char>>,
    account: Option<Seq<char>>,
    req: PageRequestView,
) -> ReplyView {
    match auth::signed_in_admin(d, authorization) {
        Err(e) => Err(e),
        Ok(_) => {
            let (rows, total) = d.message_page(account, req.page, req.page_size);
            Ok(
                ApiResponseView::ok_with_data(
                    "ok"@,
                    DataView::AdminPage {
                        messages: rows.map_values(|m: MessageView| message_summary(d, m)),
                        page: req.page,
                        page_size: req.page_size,
                        total,
                        total_pages: page_count(total, req.page_size),
                    },
                ),
            )
        },
    }
}

/// Shows the administrator a page of messages, of one account or of all.
pub fn handle_admin_messages(
    db: &Db,
    authorization: Option<&str>,
    wechat_user_id: Option<&str>,
    req: &PageRequest,
) -> (r: Reply)
    requires
        db@.wf(),
        req.page_size <= 100,
        auth::signed_in_admin(db@, authorization.deep_view()) is Ok ==> db::page_fits(
            req@.page,
            req@.page_size,
        ),
    ensures
        model::outcome(r) == admin_messages_answer(
            db@,
            authorization.deep_view(),
            wechat_user_id.deep_view(),
            req@,
        ),
{
    auth::extract_admin(db, authorization)?;
    let (rows, total): (Vec<Message>, i64) = match db::list_messages_paginated(
        db,
        wechat_user_id,
        req.page,
        req.page_size,
    ) {
        Err(e) => {
            return Err(auth::table_error(&e));
        },
        Ok(page) => page,
    };
    let sessions: Vec<Session> = list_accounts(db);
    let ghost all = rows.deep_view();
    let mut out: Vec<MessageSummary> = Vec::new();
    let mut i: usize = 0;
    while i < rows.len()
        invariant
            i <= rows@.len(),
            rows.deep_view() == all,
            sessions.deep_view() == known_accounts(db@),
            out@.len() == i,
            forall|j: int| 0 <= j < i ==> (#[trigger] out@[j])@ == message_summary(db@, all[j]),
        decreases rows@.len() - i,
    {
        assert(all[i as int] == rows@[i as int]@);
        let m: &Message = &rows[i];
        out.push(
            MessageSummary {
                id: m.id,
                wechat_user_id: m.wechat_user_id.clone(),
                username: account_owner(&sessions, m.wechat_user_id.as_str()),
                direction: m.direction.clone(),
                content: m.content.clone(),
                msg_type: m.msg_type.clone(),
                created_at: m.created_at.clone(),
            },
        );
        i = i + 1;
    }
    assert(out.deep_view() =~= all.map_values(|m: MessageView| message_summary(db@, m)));
    Ok(
        ApiResponse::ok_with_data(
            "ok",
            Data::AdminPage {
                messages: out,
                page: req.page,
                page_size: req.page_size,
                total,
                total_pages: total_pages(total, req.page_size),
            },
        ),
    )
}

/// Once a QR code is confirmed the account is on record for the user, with neither
/// token nor cursor, and the user is told that they have an account; every other
/// account stays as it was.
pub proof fn confirmed_code_binds_the_account(
    d: DbView,
    username: Seq<char>,
    status: QrStatusView,
    user_id: Seq<char>,
    other: Seq<char>,
)
    requires
        d.fault is None,
        bind_status_step(d, username, Ok(status)).1 == Ok::<ApiResponseView, ErrorReplyView>(
            ApiResponseView::ok_with_data(
                "WeChat account bound successfully"@,
                DataView::Bound { wechat_user_id: user_id },
            ),
        ),
        status.status == "confirmed"@,
        other != user_id,
    ensures
        ({
            let after = bind_status_step(d, username, Ok(status)).0;
            &&& after.session(user_id) == Some(
                SessionView {
                    user_id,
                    bot_token: text::text_or_empty(status.bot_token),
                    route_tag: Some(username),
                    context_token: Seq::empty(),
                    updates_buf: Seq::empty(),
                },
            )
            &&& bound_account(after, username) is Some
            &&& after.session(other) == d.session(other)
            &&& delivery::cached_token(after, user_id) is None
        }),
{
    let bot_token = text::text_or_empty(status.bot_token);
    let mid = d.save_context_token(user_id, bot_token, Some(username), Seq::empty());
    let after = mid.save_updates_buf(user_id, Seq::empty());
    db_laws::saved_context_token_is_read_back(
        d,
        user_id,
        bot_token,
        Some(username),
        Seq::empty(),
        other,
    );
    db_laws::saved_cursor_is_read_back(mid, user_id, Seq::empty(), other);
    let p = tagged(username);
    model::first_where_finds(after.sessions, db::of_account(user_id));
    model::first_where_finds(after.sessions, p);
    let row = after.session(user_id)->0;
    let i = choose|i: int|
        0 <= i < after.sessions.len() && #[trigger] after.sessions[i] == row;
    assert(p(after.sessions[i]));
}

/// A page is never asked for with more than a hundred messages.
pub proof fn page_sizes_are_limited(page: Option<Seq<char>>, page_size: Option<Seq<char>>)
    ensures
        requested_page(page, page_size).page_size <= 100,
{
}

/// With a positive page size the pages that hold messages are exactly those from the
/// first to the last one that is counted.
pub proof fn counted_pages_are_the_ones_with_messages(
    d: DbView,
    account: Option<Seq<char>>,
    page: int,
    page_size: int,
)
    requires
        page_size > 0,
        page >= 1,
    ensures
        ({
            let (rows, total) = d.message_page(account, page, page_size);
            rows.len() > 0 <==> page <= page_count(total, page_size)
        }),
{
    let total = d.newest_first(account).len() as int;
    let count = page_count(total, page_size);
    let offset = (page - 1) * page_size;
    let m = total + page_size - 1;
    vstd::arithmetic::div_mod::lemma_fundamental_div_mod(m, page_size);
    vstd::arithmetic::div_mod::lemma_mod_bound(m, page_size);
    assert(0 <= offset) by (nonlinear_arith)
        requires
            page >= 1,
            page_size > 0,
            offset == (page - 1) * page_size,
    ;
    if page <= count {
        assert(offset <= page_size * count - page_size) by (nonlinear_arith)
            requires
                page <= count,
                page_size > 0,
                offset == (page - 1) * page_size,
        ;
    } else {
        assert(offset >= page_size * count) by (nonlinear_arith)
            requires
                page - 1 >= count,
                page_size > 0,
                offset == (page - 1) * page_size,
        ;
    }
}

/// A user is shown messages of their own account only.
pub proof fn users_see_only_their_own_messages(
    d: DbView,
    account: Seq<char>,
    req: PageRequestView,
    k: int,
)
    requires
        0 <= k < account_page(d, account, req).rows.len(),
    ensures
        account_page(d, account, req).rows[k].wechat_user_id == account,
{
    let p = db::about_account(Some(account));
    let chosen = d.messages.filter(p);
    let rows = d.newest_first(Some(account));
    assert forall|i: int| 0 <= i < rows.len() implies (#[trigger] rows[i]).wechat_user_id
        == account by {
        let at = chosen.len() - 1 - i;
        assert(rows[i] == chosen[at]);
        d.messages.lemma_filter_pred(p, at);
    }
}

/// A broadcast goes to every account once, with the text that was asked for.
pub proof fn broadcast_reaches_every_account(
    d: DbView,
    authorization: Option<Seq<char>>,
    req: SendMsgRequestView,
    i: int,
)
    requires
        broadcast_jobs(d, authorization, req) is Ok,
        0 <= i < d.sessions.len(),
    ensures
        auth::signed_in_admin(d, authorization) is Ok,
        broadcast_jobs(d, authorization, req)->Ok_0.len() == d.sessions.len(),
        broadcast_jobs(d, authorization, req)->Ok_0[i].user_id == d.sessions[i].user_id,
        broadcast_jobs(d, authorization, req)->Ok_0[i].text == requested_text(req),
{
}

/// A text counts as delivered in a broadcast exactly when no error is reported for it.
pub proof fn broadcast_success_has_no_error(user_id: Seq<char>, delivery: DeliveryView)
    ensures
        broadcast_entry(user_id, delivery).success <==> broadcast_entry(
            user_id,
            delivery,
        ).error is None,
{
}

} // verus!
