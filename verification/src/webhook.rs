//! The webhook server for a single account: reading what came in, and sending texts and
//! files.

use vstd::prelude::*;

use crate::db::{self, Db, DbView};
use crate::delivery;
use crate::wechat::{
    self, Account, AccountView, InboundMessageView, InboundResponse, InboundResponseView, PollError,
    PollErrorView, SendOutcome, SendOutcomeView, Updates, UpdatesView,
};
use crate::{db_laws, model, outside, reply, text};

verus! {

/// The body of an answer.
#[derive(Debug)]
pub struct WebhookResponse {
    pub success: bool,
    pub message: String,
    pub messages: Option<Vec<InboundResponse>>,
}

/// The plain value of a [`WebhookResponse`].
#[verifier::ext_equal]
pub struct WebhookResponseView {
    pub success: bool,
    pub message: Seq<char>,
    pub messages: Option<Seq<InboundResponseView>>,
}

impl View for WebhookResponse {
    type V = WebhookResponseView;

    open spec fn view(&self) -> WebhookResponseView {
        WebhookResponseView {
            success: self.success,
            message: self.message@,
            messages: self.messages.deep_view(),
        }
    }
}

impl DeepView for WebhookResponse {
    type V = WebhookResponseView;

    open spec fn deep_view(&self) -> WebhookResponseView {
        self@
    }
}

/// A failure with its HTTP status.
#[derive(Debug)]
pub struct WebhookFailure {
    pub status: u16,
    pub body: WebhookResponse,
}

/// The plain value of a [`WebhookFailure`].
#[verifier::ext_equal]
pub struct WebhookFailureView {
    pub status: u16,
    pub body: WebhookResponseView,
}

impl View for WebhookFailure {
    type V = WebhookFailureView;

    open spec fn view(&self) -> WebhookFailureView {
        WebhookFailureView {
            status: self.status,
            body: self.body@,
        }
    }
}

impl DeepView for WebhookFailure {
    type V = WebhookFailureView;

    open spec fn deep_view(&self) -> WebhookFailureView {
        self@
    }
}

/// How a file is sent.
#[derive(Clone, Copy, Debug, PartialEq, Eq, Structural)]
pub enum MediaKind {
    /// As an image.
    Image,
    /// As a plain file.
    File,
}

/// The plain value of a [`MediaKind`].
#[verifier::ext_equal]
pub enum MediaKindView {
    Image,
    File,
}

impl View for MediaKind {
    type V = MediaKindView;

    open spec fn view(&self) -> MediaKindView {
        match self {
            MediaKind::Image => MediaKindView::Image,
            MediaKind::File => MediaKindView::File,
        }
    }
}

impl DeepView for MediaKind {
    type V = MediaKindView;

    open spec fn deep_view(&self) -> MediaKindView {
        self@
    }
}

/// What is sent.
#[derive(Debug)]
pub enum Outgoing {
    /// A text.
    Text,
    /// A file.
    Media { kind: MediaKind, path: String },
}

/// The plain value of an [`Outgoing`].
#[verifier::ext_equal]
pub enum OutgoingView {
    Text,
    Media { kind: MediaKindView, path: Seq<char> },
}

impl View for Outgoing {
    type V = OutgoingView;

    open spec fn view(&self) -> OutgoingView {
        match self {
            Outgoing::Text => OutgoingView::Text,
            Outgoing::Media { kind, path } => OutgoingView::Media {
                kind: kind@,
                path: path@,
            },
        }
    }
}

impl DeepView for Outgoing {
    type V = OutgoingView;

    open spec fn deep_view(&self) -> OutgoingView {
        self@
    }
}

/// How an attempt to send went.
#[derive(Debug)]
pub enum Attempt {
    /// The file could not be uploaded, for the given reason.
    UploadFailed(String),
    /// The message was handed to the service.
    Send(SendOutcome),
}

/// The plain value of an [`Attempt`].
#[verifier::ext_equal]
pub enum AttemptView {
    UploadFailed(Seq<char>),
    Send(SendOutcomeView),
}

impl View for Attempt {
    type V = AttemptView;

    open spec fn view(&self) -> AttemptView {
        match self {
            Attempt::UploadFailed(x) => AttemptView::UploadFailed(x@),
            Attempt::Send(x) => AttemptView::Send(x@),
        }
    }
}

impl DeepView for Attempt {
    type V = AttemptView;

    open spec fn deep_view(&self) -> AttemptView {
        self@
    }
}

/// What comes next in sending.
#[derive(Debug)]
pub enum Step {
    /// Send with this context token; `polled` says whether that follows a poll.
    Try { token: String, polled: bool },
    /// Poll the service for a context token.
    Poll,
    /// It was sent; the text says so.
    Sent(String),
    /// It failed, for the given reason.
    Failed(String),
}

/// The plain value of a [`Step`].
#[verifier::ext_equal]
pub enum StepView {
    Try { token: Seq<char>, polled: bool },
    Poll,
    Sent(Seq<char>),
    Failed(Seq<char>),
}

impl View for Step {
    type V = StepView;

    open spec fn view(&self) -> StepView {
        match self {
            Step::Try { token, polled } => StepView::Try {
                token: token@,
                polled: *polled,
            },
            Step::Poll => StepView::Poll,
            Step::Sent(x) => StepView::Sent(x@),
            Step::Failed(x) => StepView::Failed(x@),
        }
    }
}

impl DeepView for Step {
    type V = StepView;

    open spec fn deep_view(&self) -> StepView {
        self@
    }
}

pub open spec fn plain(success: bool, message: Seq<char>) -> WebhookResponseView {
    WebhookResponseView { success, message, messages: None }
}

pub open spec fn failed(status: u16, message: Seq<char>) -> WebhookFailureView {
    WebhookFailureView { status, body: plain(false, message) }
}

fn fail(status: u16, message: String) -> (r: WebhookFailure)
    ensures
        r@ == failed(status, message@),
{
    WebhookFailure { status, body: WebhookResponse { success: false, message, messages: None } }
}

/// The answer to a question after the server's health.
pub open spec fn health() -> WebhookResponseView {
    plain(true, "ok"@)
}

/// Tells that the server is up.
pub fn handle_health() -> (r: WebhookResponse)
    ensures
        r@ == health(),
{
    WebhookResponse { success: true, message: "ok".to_owned(), messages: None }
}

/// The cursor to start from: the one on record, or an empty one. Nothing where the
/// account is not on record.
pub open spec fn starting_cursor(d: DbView, user_id: Seq<char>) -> Option<Seq<char>> {
    match d.guard(d.session(user_id)) {
        Ok(Some(s)) => Some(s.updates_buf),
        _ => None,
    }
}

/// Gives the cursor on record, if the account is.
pub fn restore_cursor(db: &Db, user_id: &str) -> (r: Option<String>)
    ensures
        r.deep_view() == starting_cursor(db@, user_id@),
{
    match db::load_session(db, user_id) {
        Ok(Some(s)) => Some(s.updates_buf),
        _ => None,
    }
}

/// What is told at the start.
pub open spec fn start_notice(user_id: Seq<char>, restored: bool) -> Seq<Seq<char>> {
    if restored {
        seq!["restored session from database for `"@ + user_id + "`"@]
    } else {
        seq![
            "no saved session for `"@ + user_id
                + "`; the user must send a message first to activate"@,
            "use `GET /webhook/messages` to poll; the first poll will activate the session"@,
        ]
    }
}

/// Tells at the start whether the account is on record.
pub fn start_lines(user_id: &str, restored: bool) -> (r: Vec<String>)
    ensures
        r.deep_view() == start_notice(user_id@, restored),
{
    let mut lines: Vec<String> = Vec::new();
    if restored {
        lines.push(text::join3("restored session from database for `", user_id, "`"));
    } else {
        lines.push(
            text::join3(
                "no saved session for `",
                user_id,
                "`; the user must send a message first to activate",
            ),
        );
        lines.push(
            "use `GET /webhook/messages` to poll; the first poll will activate the session".to_owned(),
        );
    }
    assert(lines.deep_view() =~= start_notice(user_id@, restored));
    lines
}

/// The answer to a poll.
pub open spec fn poll_answer(polled: Result<UpdatesView, PollErrorView>) -> Result<
    WebhookResponseView,
    WebhookFailureView,
> {
    match polled {
        Ok(u) => Ok(
            WebhookResponseView {
                success: true,
                message: text::decimal_digits(u.messages.len() as int) + " messages"@,
                messages: Some(
                    u.messages.map_values(|m: InboundMessageView| wechat::inbound_response(m)),
                ),
            },
        ),
        Err(PollErrorView::SessionExpired(e)) => Err(
            failed(reply::UNAUTHORIZED, "session expired: "@ + e),
        ),
        Err(PollErrorView::Timeout(e)) => Err(failed(reply::BAD_GATEWAY, e)),
        Err(PollErrorView::Other(e)) => Err(failed(reply::BAD_GATEWAY, e)),
    }
}

/// The tables and the cursor after a poll.
pub open spec fn poll_taken(
    d: DbView,
    account: AccountView,
    buf: Seq<char>,
    polled: Result<UpdatesView, PollErrorView>,
) -> (DbView, Seq<char>) {
    match polled {
        Ok(u) => (
            delivery::poll_saved(d, account, u),
            match u.get_updates_buf {
                Some(b) => b,
                None => buf,
            },
        ),
        Err(_) => (d, buf),
    }
}

/// Answers with what a poll brought, and keeps the cursor and the context tokens.
pub fn handle_messages(
    db: &mut Db,
    account: &Account,
    buf: &mut String,
    polled: Result<Updates, PollError>,
) -> (r: Result<WebhookResponse, WebhookFailure>)
    ensures
        model::outcome(r) == poll_answer(model::outcome(polled)),
        (final(db)@, final(buf)@) == poll_taken(
            old(db)@,
            account@,
            old(buf)@,
            model::outcome(polled),
        ),
{
    let u: Updates = match polled {
        Err(PollError::SessionExpired(e)) => {
            return Err(
                fail(reply::UNAUTHORIZED, "session expired: ".to_owned().concat(e.as_str())),
            );
        },
        Err(PollError::Timeout(e)) => {
            return Err(fail(reply::BAD_GATEWAY, e));
        },
        Err(PollError::Other(e)) => {
            return Err(fail(reply::BAD_GATEWAY, e));
        },
        Ok(u) => u,
    };
    if let Some(b) = &u.get_updates_buf {
        *buf = b.clone();
        let _ = db::save_updates_buf(db, account.user_id.as_str(), b.as_str());
    }
    let ghost start = db@;
    let ghost all = u@.messages;
    let mut messages: Vec<InboundResponse> = Vec::new();
    let mut i: usize = 0;
    assert(all.take(0) =~= Seq::empty());
    while i < u.messages.len()
        invariant
            i <= u.messages@.len(),
            all == u@.messages,
            messages@.len() == i,
            forall|j: int|
                0 <= j < i ==> (#[trigger] messages@[j])@ == wechat::inbound_response(all[j]),
            db@ == delivery::tokens_noted(start, account@, all.take(i as int)),
        decreases u.messages@.len() - i,
    {
        delivery::note_token(db, account, &u.messages[i]);
        messages.push(wechat::message_to_response(&u.messages[i]));
        assert(all.take(i + 1).drop_last() =~= all.take(i as int));
        assert(all.take(i + 1).last() == u.messages@[i as int]@);
        i = i + 1;
    }
    assert(all.take(i as int) =~= all);
    assert(messages.deep_view() =~= all.map_values(
        |m: InboundMessageView| wechat::inbound_response(m),
    ));
    Ok(
        WebhookResponse {
            success: true,
            message: text::decimal(messages.len() as u64).concat(" messages"),
            messages: Some(messages),
        },
    )
}

/// The answer to a request to send.
pub open spec fn send_answer(result: Result<Seq<char>, Seq<char>>) -> Result<
    WebhookResponseView,
    WebhookFailureView,
> {
    match result {
        Ok(m) => Ok(plain(true, m)),
        Err(e) => Err(failed(reply::BAD_REQUEST, e)),
    }
}

/// Answers a request to send.
pub fn handle_send(result: Result<String, String>) -> (r: Result<WebhookResponse, WebhookFailure>)
    ensures
        model::outcome(r) == send_answer(model::outcome(result)),
{
    match result {
        Ok(m) => Ok(WebhookResponse { success: true, message: m, messages: None }),
        Err(e) => Err(fail(reply::BAD_REQUEST, e)),
    }
}

// What is sent.

/// How a file of the given top-level media type is sent.
pub open spec fn kind_of_type(top_level: Option<Seq<char>>) -> MediaKind {
    if top_level == Some("image"@) {
        MediaKind::Image
    } else {
        MediaKind::File
    }
}

/// Tells how a file of the given top-level media type is sent.
pub fn kind_from_type(top_level: &Option<String>) -> (r: MediaKind)
    ensures
        r == kind_of_type(top_level.deep_view()),
{
    match top_level {
        Some(t) => if text::same(t.as_str(), "image") {
            MediaKind::Image
        } else {
            MediaKind::File
        },
        None => MediaKind::File,
    }
}

/// Tells how a file is sent, by its path.
pub fn media_kind(path: &str) -> (r: MediaKind)
    ensures
        outside::is_portable_path(path@) ==> r == kind_of_type(outside::guessed_type(path@)),
{
    kind_from_type(&outside::mime_top_level(path))
}

/// What comes of preparing a file.
pub open spec fn media_prepared(
    path: Seq<char>,
    exists: bool,
    result: Result<OutgoingView, Seq<char>>,
) -> bool {
    match result {
        Ok(out) => exists && (out matches OutgoingView::Media { kind, path: p } && p == path && (
        outside::is_portable_path(path) ==> kind == kind_of_type(outside::guessed_type(path))@)),
        Err(e) => !exists && e == "file `"@ + path + "` does not exist"@,
    }
}

/// Prepares a file, which has to exist.
pub fn prepare_media(path: &str, exists: bool) -> (r: Result<Outgoing, String>)
    ensures
        media_prepared(path@, exists, model::outcome(r)),
{
    if exists {
        Ok(Outgoing::Media { kind: media_kind(path), path: path.to_owned() })
    } else {
        Err(text::join3("file `", path, "` does not exist"))
    }
}

/// The word for what is sent.
pub open spec fn label(kind: MediaKindView) -> Seq<char> {
    match kind {
        MediaKindView::Image => "image"@,
        MediaKindView::File => "file"@,
    }
}

/// What is told once it was sent.
pub open spec fn sent_note(user_id: Seq<char>, out: OutgoingView) -> Seq<char> {
    match out {
        OutgoingView::Text => "sent text message to `"@ + user_id + "`"@,
        OutgoingView::Media { kind, path } => "sent "@ + label(kind) + " `"@ + path + "` to `"@
            + user_id + "`"@,
    }
}

/// Tells that it was sent.
pub fn sent_message(user_id: &str, out: &Outgoing) -> (r: String)
    ensures
        r@ == sent_note(user_id@, out@),
{
    match out {
        Outgoing::Text => text::join3("sent text message to `", user_id, "`"),
        Outgoing::Media { kind, path } => {
            let word: &str = match kind {
                MediaKind::Image => "image",
                MediaKind::File => "file",
            };
            "sent ".to_owned().concat(word).concat(" `").concat(path.as_str()).concat(
                "` to `",
            ).concat(user_id).concat("`")
        },
    }
}

// Sending.

/// The first step: try the context token on record, or poll for one.
pub open spec fn first_step(d: DbView, user_id: Seq<char>) -> StepView {
    match delivery::cached_token(d, user_id) {
        Some(token) => StepView::Try { token, polled: false },
        None => StepView::Poll,
    }
}

/// Begins to send.
pub fn begin_send(db: &Db, user_id: &str) -> (r: Step)
    ensures
        r@ == first_step(db@, user_id@),
{
    match delivery::load_token(db, user_id) {
        Some(token) => Step::Try { token, polled: false },
        None => Step::Poll,
    }
}

/// What follows an attempt: a token that is not accepted leads to a poll, unless there
/// was one already; any other failure ends it.
pub open spec fn attempt_step(
    user_id: Seq<char>,
    out: OutgoingView,
    polled: bool,
    attempt: AttemptView,
) -> StepView {
    match attempt {
        AttemptView::UploadFailed(e) => StepView::Failed(e),
        AttemptView::Send(SendOutcomeView::Sent) => StepView::Sent(sent_note(user_id, out)),
        AttemptView::Send(SendOutcomeView::InvalidToken(e)) => if polled {
            StepView::Failed(e)
        } else {
            StepView::Poll
        },
        AttemptView::Send(SendOutcomeView::Failed(e)) => StepView::Failed(e),
    }
}

/// Goes on after an attempt.
pub fn after_attempt(user_id: &str, out: &Outgoing, polled: bool, attempt: Attempt) -> (r: Step)
    ensures
        r@ == attempt_step(user_id@, out@, polled, attempt@),
{
    match attempt {
        Attempt::UploadFailed(e) => Step::Failed(e),
        Attempt::Send(SendOutcome::Sent) => Step::Sent(sent_message(user_id, out)),
        Attempt::Send(SendOutcome::InvalidToken(e)) => {
            if polled {
                Step::Failed(e)
            } else {
                Step::Poll
            }
        },
        Attempt::Send(SendOutcome::Failed(e)) => Step::Failed(e),
    }
}

/// The context token after a poll, and what is saved: a token that the poll brought is
/// saved with the next cursor; without one nothing is saved, and the token on record is
/// taken.
pub open spec fn context_token_after_poll(
    d: DbView,
    account: AccountView,
    polled: Result<UpdatesView, Seq<char>>,
) -> (DbView, Option<Seq<char>>) {
    let (fresh, next) = delivery::polled_token(polled, account.user_id);
    match fresh {
        Some(t) => {
            let kept = match next {
                Some(b) => d.save_updates_buf(account.user_id, b),
                None => d,
            };
            (
                kept.save_context_token(account.user_id, account.bot_token, account.route_tag, t),
                Some(t),
            )
        },
        None => (d, delivery::cached_token(d, account.user_id)),
    }
}

/// Gives the context token after a poll: a fresh one, or else the one on record.
pub fn get_context_token_from_db_or_poll(
    db: &mut Db,
    account: &Account,
    polled: &Result<Updates, String>,
) -> (r: Option<String>)
    ensures
        (final(db)@, r.deep_view()) == context_token_after_poll(
            old(db)@,
            account@,
            model::outcome(*polled),
        ),
{
    let (fresh, next) = delivery::poll_context_token(polled, account.user_id.as_str());
    match fresh {
        Some(t) => {
            if let Some(b) = next {
                let _ = db::save_updates_buf(db, account.user_id.as_str(), b.as_str());
            }
            let tag: Option<&str> = match &account.route_tag {
                Some(t) => Some(t.as_str()),
                None => None,
            };
            let _ = db::save_context_token(
                db,
                account.user_id.as_str(),
                account.bot_token.as_str(),
                tag,
                t.as_str(),
            );
            Some(t)
        },
        None => delivery::load_token(db, account.user_id.as_str()),
    }
}

/// What follows a poll.
pub open spec fn after_poll_step(user_id: Seq<char>, token: Option<Seq<char>>) -> StepView {
    match token {
        Some(token) => StepView::Try { token, polled: true },
        None => StepView::Failed(
            "no context token for `"@ + user_id + "`; the user must send a message first"@,
        ),
    }
}

/// What a poll for a context token does to the tables, and the step that follows.
pub open spec fn poll_step(
    d: DbView,
    account: AccountView,
    polled: Result<UpdatesView, Seq<char>>,
) -> (DbView, StepView) {
    let (after, token) = context_token_after_poll(d, account, polled);
    (after, after_poll_step(account.user_id, token))
}

/// Goes on after a poll.
pub fn after_poll(db: &mut Db, account: &Account, polled: &Result<Updates, String>) -> (r: Step)
    ensures
        (final(db)@, r@) == poll_step(old(db)@, account@, model::outcome(*polled)),
{
    match get_context_token_from_db_or_poll(db, account, polled) {
        Some(token) => Step::Try { token, polled: true },
        None => Step::Failed(
            text::join3(
                "no context token for `",
                account.user_id.as_str(),
                "`; the user must send a message first",
            ),
        ),
    }
}

/// How many steps may still come, at most.
pub open spec fn steps_left(step: StepView) -> int {
    match step {
        StepView::Try { polled: false, .. } => 3,
        StepView::Poll => 2,
        StepView::Try { polled: true, .. } => 1,
        StepView::Sent(_) => 0,
        StepView::Failed(_) => 0,
    }
}

/// Sending comes to an end: every step leaves fewer to come, so that there is one poll
/// at most and two attempts at most.
pub proof fn sending_comes_to_an_end(
    user_id: Seq<char>,
    out: OutgoingView,
    token: Seq<char>,
    polled: bool,
    attempt: AttemptView,
    found: Option<Seq<char>>,
)
    ensures
        0 <= steps_left(attempt_step(user_id, out, polled, attempt)) < steps_left(
            StepView::Try { token, polled },
        ),
        0 <= steps_left(after_poll_step(user_id, found)) < steps_left(StepView::Poll),
{
}

/// Success is told exactly when the service took the message.
pub proof fn success_means_sent(
    user_id: Seq<char>,
    out: OutgoingView,
    polled: bool,
    attempt: AttemptView,
)
    ensures
        attempt_step(user_id, out, polled, attempt) is Sent <==> attempt == AttemptView::Send(
            SendOutcomeView::Sent,
        ),
{
}

/// A fresh token is not empty and is the one on record afterwards, so that the next
/// send begins with it; where the poll brings none, nothing is saved. Messages are
/// never recorded.
pub proof fn fresh_token_goes_on_record(
    d: DbView,
    account: AccountView,
    polled: Result<UpdatesView, Seq<char>>,
)
    requires
        d.fault is None,
    ensures
        ({
            let (after, token) = context_token_after_poll(d, account, polled);
            let fresh = delivery::polled_token(polled, account.user_id).0;
            &&& token matches Some(t) ==> t.len() > 0 && first_step(after, account.user_id)
                == (StepView::Try { token: t, polled: false })
            &&& fresh is None ==> after == d
            &&& fresh is Some ==> token == fresh
            &&& after.messages == d.messages
        }),
{
    let (fresh, next) = delivery::polled_token(polled, account.user_id);
    if let Ok(u) = polled {
        wechat::picked_token_is_from_the_user(u.messages, account.user_id);
    }
    if let Some(t) = fresh {
        let kept = match next {
            Some(b) => d.save_updates_buf(account.user_id, b),
            None => d,
        };
        let other = account.user_id.push('x');
        assert(other.len() != account.user_id.len());
        db_laws::saved_context_token_is_read_back(
            kept,
            account.user_id,
            account.bot_token,
            account.route_tag,
            t,
            other,
        );
    }
}

} // verus!
