//! How the single-account webhook sends and reads, whatever the chat service answers.

use vstd::prelude::*;

use crate::db::{DbView, SessionView};
use crate::webhook::{
    self, AttemptView, MediaKind, MediaKindView, OutgoingView, StepView, WebhookFailureView,
    WebhookResponseView,
};
use crate::wechat::{self, AccountView, PollErrorView, SendOutcomeView, UpdatesView};
use crate::{db_laws, delivery_laws, outside, table_laws, text, wechat_laws};

verus! {

/// A failure with the given status and text, and no messages.
pub open spec fn fails_with<T>(r: Result<T, WebhookFailureView>, status: u16, text: Seq<char>) -> bool {
    r matches Err(e) && e.status == status && !e.body.success && e.body.message == text
        && e.body.messages is None
}

/// Sending begins with the context token on record, where that is not empty, and with a poll
/// otherwise.
pub proof fn a_recorded_token_is_tried_first(d: DbView, user_id: Seq<char>)
    requires
        d.fault is None,
    ensures
        match d.session(user_id) {
            Some(s) => if s.context_token.len() > 0 {
                webhook::first_step(d, user_id) == (StepView::Try {
                    token: s.context_token,
                    polled: false,
                })
            } else {
                webhook::first_step(d, user_id) == StepView::Poll
            },
            None => webhook::first_step(d, user_id) == StepView::Poll,
        },
{
}

/// A text and a file alike: a send that is refused for its context token before any poll was
/// made is followed by a poll, and only after a poll is such a refusal final. An upload or a
/// send that fails for another reason is final at once, with the words of the service.
pub proof fn a_refused_token_leads_to_one_poll(
    user_id: Seq<char>,
    out: OutgoingView,
    polled: bool,
    e: Seq<char>,
)
    ensures
        webhook::attempt_step(
            user_id,
            out,
            false,
            AttemptView::Send(SendOutcomeView::InvalidToken(e)),
        ) == StepView::Poll,
        webhook::attempt_step(
            user_id,
            out,
            true,
            AttemptView::Send(SendOutcomeView::InvalidToken(e)),
        ) == StepView::Failed(e),
        webhook::attempt_step(
            user_id,
            out,
            polled,
            AttemptView::Send(SendOutcomeView::Failed(e)),
        ) == StepView::Failed(e),
        webhook::attempt_step(user_id, out, polled, AttemptView::UploadFailed(e))
            == StepView::Failed(e),
{
}

/// What is told of a message that was sent names what was sent and to whom.
pub proof fn success_names_what_was_sent(
    user_id: Seq<char>,
    path: Seq<char>,
    polled: bool,
)
    ensures
        ({
            let sent = AttemptView::Send(SendOutcomeView::Sent);
            let image = OutgoingView::Media { kind: MediaKindView::Image, path };
            let file = OutgoingView::Media { kind: MediaKindView::File, path };
            &&& webhook::attempt_step(user_id, OutgoingView::Text, polled, sent) == StepView::Sent(
                "sent text message to `"@ + user_id + "`"@,
            )
            &&& webhook::attempt_step(user_id, image, polled, sent) == StepView::Sent(
                "sent "@ + "image"@ + " `"@ + path + "` to `"@ + user_id + "`"@,
            )
            &&& webhook::attempt_step(user_id, file, polled, sent) == StepView::Sent(
                "sent "@ + "file"@ + " `"@ + path + "` to `"@ + user_id + "`"@,
            )
        }),
{
}

/// Whenever a poll brings a context token for the account, the message goes out with exactly
/// that token, and the record of the account holds it afterwards, with the account's key and
/// tag and the next cursor where the poll gave one and the account was known. Other accounts
/// and tables stay as they were.
pub proof fn a_fresh_token_is_used_and_recorded(
    d: DbView,
    account: AccountView,
    u: UpdatesView,
    i: int,
    other: Seq<char>,
)
    requires
        wechat_laws::brings_token(u.messages, account.user_id, i),
        other != account.user_id,
    ensures
        ({
            let (after, found) = webhook::context_token_after_poll(d, account, Ok(u));
            let token = u.messages[i].context_token;
            &&& found == Some(token)
            &&& webhook::poll_step(d, account, Ok(u)) == (
                after,
                StepView::Try { token, polled: true },
            )
            &&& table_laws::only_accounts_differ(after, d)
            &&& d.fault is None ==> after.session(account.user_id) == Some(
                SessionView {
                    user_id: account.user_id,
                    bot_token: account.bot_token,
                    route_tag: account.route_tag,
                    context_token: token,
                    updates_buf: match (d.session(account.user_id), u.get_updates_buf) {
                        (Some(_), Some(next)) => next,
                        (Some(s), None) => s.updates_buf,
                        (None, _) => Seq::empty(),
                    },
                },
            )
            &&& d.fault is None ==> after.session(other) == d.session(other)
        }),
{
    wechat_laws::the_first_token_is_picked(u.messages, account.user_id, i);
    let mid = match u.get_updates_buf {
        Some(b) => d.save_updates_buf(account.user_id, b),
        None => d,
    };
    if d.fault is None {
        if let Some(b) = u.get_updates_buf {
            db_laws::saved_cursor_is_read_back(d, account.user_id, b, other);
        }
        db_laws::saved_context_token_is_read_back(
            mid,
            account.user_id,
            account.bot_token,
            account.route_tag,
            u.messages[i].context_token,
            other,
        );
    }
}

/// Where a poll failed or brought no context token for the account, nothing is saved, and
/// the token on record is tried again; without one sending fails, and the account is named.
pub proof fn without_a_fresh_token_the_record_decides(
    d: DbView,
    account: AccountView,
    polled: Result<UpdatesView, Seq<char>>,
)
    requires
        d.fault is None,
        polled matches Ok(u) ==> wechat_laws::brings_no_token(u.messages, account.user_id),
    ensures
        ({
            let (after, found) = webhook::context_token_after_poll(d, account, polled);
            let (saved, step) = webhook::poll_step(d, account, polled);
            let failed = StepView::Failed(
                "no context token for `"@ + account.user_id
                    + "`; the user must send a message first"@,
            );
            &&& after == d && saved == d
            &&& match d.session(account.user_id) {
                Some(s) => if s.context_token.len() > 0 {
                    found == Some(s.context_token) && step == (StepView::Try {
                        token: s.context_token,
                        polled: true,
                    })
                } else {
                    found is None && step == failed
                },
                None => found is None && step == failed,
            }
        }),
{
    if let Ok(u) = polled {
        wechat_laws::the_first_token_is_picked(u.messages, account.user_id, 0);
    }
}

/// The server starts from the cursor on record, and knows none where the account is not on
/// record.
pub proof fn the_server_starts_from_the_recorded_cursor(d: DbView, user_id: Seq<char>)
    requires
        d.fault is None,
    ensures
        d.session(user_id) matches Some(s) ==> webhook::starting_cursor(d, user_id) == Some(
            s.updates_buf,
        ),
        d.session(user_id) is None ==> webhook::starting_cursor(d, user_id) is None,
{
}

/// A poll is answered with every message that it brought, in order, each as it is shown to
/// callers, and with how many there are.
pub proof fn polls_are_answered_with_every_message(u: UpdatesView, k: int)
    ensures
        webhook::poll_answer(Ok(u)) matches Ok(a) && a.success && a.message
            == text::decimal_digits(u.messages.len() as int) + " messages"@ && (
        a.messages matches Some(shown) && shown.len() == u.messages.len() && (0 <= k
            < u.messages.len() ==> shown[k] == wechat::inbound_response(u.messages[k]))),
{
}

/// A poll that failed is answered as such: the end of the session as a lack of
/// authorization, anything else as a failure behind the server. Nothing is saved then, and
/// the cursor stays.
pub proof fn failed_polls_change_nothing(
    d: DbView,
    account: AccountView,
    buf: Seq<char>,
    e: Seq<char>,
    error: PollErrorView,
)
    ensures
        fails_with(
            webhook::poll_answer(Err(PollErrorView::SessionExpired(e))),
            401,
            "session expired: "@ + e,
        ),
        fails_with(webhook::poll_answer(Err(PollErrorView::Timeout(e))), 502, e),
        fails_with(webhook::poll_answer(Err(PollErrorView::Other(e))), 502, e),
        webhook::poll_taken(d, account, buf, Err(error)) == (d, buf),
{
}

/// After a poll the server goes on from the next cursor, where the poll gave one, and so
/// does a server that is started again, where the account was on record; the last context
/// token that the poll brought is the one that sending begins with.
pub proof fn restarted_servers_go_on_where_they_were(
    d: DbView,
    account: AccountView,
    buf: Seq<char>,
    u: UpdatesView,
    i: int,
)
    requires
        d.fault is None,
    ensures
        ({
            let (after, cursor) = webhook::poll_taken(d, account, buf, Ok(u));
            &&& u.get_updates_buf matches Some(next) ==> cursor == next
            &&& u.get_updates_buf is None ==> cursor == buf
            &&& u.get_updates_buf is Some && d.session(account.user_id) is Some
                ==> webhook::starting_cursor(after, account.user_id) == Some(cursor)
            &&& delivery_laws::has_last_token(u.messages, i) ==> webhook::first_step(
                after,
                account.user_id,
            ) == (StepView::Try { token: u.messages[i].context_token, polled: false })
            &&& table_laws::only_accounts_differ(after, d)
        }),
{
    let other = account.user_id.push('x');
    assert(other.len() != account.user_id.len());
    delivery_laws::a_poll_leaves_its_last_token(d, account, u, i, other);
    delivery_laws::a_poll_keeps_the_cursor(d, account, u);
}

/// A request to send is answered with the words in which it succeeded, or with those in which
/// it failed, as a bad request.
pub proof fn sends_are_answered_in_their_words(m: Seq<char>)
    ensures
        webhook::send_answer(Ok(m)) == Ok::<WebhookResponseView, WebhookFailureView>(
            WebhookResponseView { success: true, message: m, messages: None },
        ),
        fails_with(webhook::send_answer(Err(m)), 400, m),
{
}

/// A file that exists is prepared under its own path, and as an image exactly where its type
/// is one; a file that does not is refused by name.
pub proof fn files_are_prepared_by_their_type(
    path: Seq<char>,
    exists: bool,
    result: Result<OutgoingView, Seq<char>>,
)
    requires
        webhook::media_prepared(path, exists, result),
    ensures
        result is Ok <==> exists,
        result matches Ok(out) ==> (out matches OutgoingView::Media { kind, path: p } && p == path
            && (outside::is_portable_path(path) ==> (kind == MediaKindView::Image
            <==> outside::guessed_type(path) == Some("image"@)))),
        result matches Err(e) ==> e == "file `"@ + path + "` does not exist"@,
        webhook::kind_of_type(Some("image"@)) == MediaKind::Image,
        webhook::kind_of_type(None) == MediaKind::File,
{
}

/// A storage that cannot be read counts as one without the account: there is no cursor to start
/// from, and sending begins with a poll.
pub proof fn unread_storage_leads_to_polls(d: DbView, user_id: Seq<char>)
    requires
        d.fault is Some,
    ensures
        webhook::starting_cursor(d, user_id) is None,
        webhook::first_step(d, user_id) == StepView::Poll,
{
}

/// At the start the account is named, whether it is on record or not, and the server answers
/// that it is well.
pub proof fn the_start_names_the_account(user_id: Seq<char>)
    ensures
        webhook::start_notice(user_id, true).len() == 1,
        webhook::start_notice(user_id, true)[0] == "restored session from database for `"@
            + user_id + "`"@,
        webhook::start_notice(user_id, false).len() == 2,
        webhook::start_notice(user_id, false)[0] == "no saved session for `"@ + user_id
            + "`; the user must send a message first to activate"@,
        webhook::start_notice(user_id, false)[1]
            == "use `GET /webhook/messages` to poll; the first poll will activate the session"@,
        webhook::health() == (WebhookResponseView { success: true, message: "ok"@, messages: None }),
{
}

} // verus!
