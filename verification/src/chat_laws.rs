//! How the interactive chat behaves, whatever is typed and whatever the chat service
//! answers.

use vstd::prelude::*;

use crate::chat::{
    self, ChatStateView, LineActionView, OutputView, PollNextView, TryNextView, TryOutcomeView,
};
use crate::db::DbView;
use crate::wechat::{self, AccountView, InboundMessageView, PollErrorView, UpdatesView};
use crate::{delivery_laws, model, table_laws, text, text_laws};

verus! {

/// A chat starts from exactly what is on record for its account: the context token and the
/// cursor, each where it is not empty. No failure is counted yet.
pub proof fn chats_start_from_the_record(d: DbView, user_id: Seq<char>)
    requires
        d.fault is None,
    ensures
        ({
            let state = chat::initial_state(d, user_id);
            &&& state.consecutive_errors == 0
            &&& match d.session(user_id) {
                Some(s) => {
                    &&& s.context_token.len() > 0 ==> state.context_token == Some(s.context_token)
                    &&& s.context_token.len() == 0 ==> state.context_token is None
                    &&& s.updates_buf.len() > 0 ==> state.buf == Some(s.updates_buf)
                    &&& s.updates_buf.len() == 0 ==> state.buf is None
                },
                None => state.context_token is None && state.buf is None,
            }
        }),
{
}

/// A chat that is started again after a poll that brought a next cursor goes on from the same
/// cursor as the one that kept running, where the account was on record; one that is started
/// again after a poll without a next cursor goes on from the one that was on record.
pub proof fn restarted_chats_poll_from_the_same_cursor(
    d: DbView,
    account: AccountView,
    state: ChatStateView,
    u: UpdatesView,
)
    requires
        d.fault is None,
        d.session(account.user_id) is Some,
    ensures
        ({
            let (after, running, _) = chat::updates_taken(d, account, state, u);
            let restarted = chat::initial_state(after, account.user_id);
            &&& u.get_updates_buf matches Some(next) ==> next.len() > 0 ==> restarted.buf
                == running.buf && restarted.buf == Some(next)
            &&& u.get_updates_buf is None ==> restarted.buf == chat::initial_state(
                d,
                account.user_id,
            ).buf
        }),
{
    delivery_laws::a_poll_keeps_the_cursor(d, account, u);
    let other = account.user_id.push('x');
    assert(other.len() != account.user_id.len());
    delivery_laws::a_poll_leaves_its_last_token(d, account, u, 0, other);
}

/// After a poll the chat sends with the last context token that the poll brought, and keeps
/// the one it had where the poll brought none; it polls from the next cursor of the poll, and
/// no failure is counted any more.
pub proof fn polls_renew_the_chat(
    d: DbView,
    account: AccountView,
    state: ChatStateView,
    u: UpdatesView,
    i: int,
)
    ensures
        ({
            let after = chat::updates_taken(d, account, state, u).1;
            &&& delivery_laws::has_last_token(u.messages, i) ==> after.context_token == Some(
                u.messages[i].context_token,
            )
            &&& delivery_laws::has_no_token(u.messages) ==> after.context_token
                == state.context_token
            &&& after.buf == u.get_updates_buf
            &&& after.consecutive_errors == 0
        }),
{
    let p = chat::with_context_token();
    model::last_where_finds(u.messages, p);
    if let Some(m) = model::last_where(u.messages, p) {
        let k = choose|k: int|
            0 <= k < u.messages.len() && #[trigger] u.messages[k] == m && p(m) && forall|j: int|
                k < j < u.messages.len() ==> !p(#[trigger] u.messages[j]);
        assert(u.messages[k].context_token.len() > 0);
        if delivery_laws::has_last_token(u.messages, i) {
            if k < i {
                assert(!p(u.messages[i]));
            }
        }
    } else if delivery_laws::has_last_token(u.messages, i) {
        assert(!p(u.messages[i]));
    }
}

/// A blank line is ignored. Any other line is sent without the white space round it, with the
/// chat's context token, or refused where there is none.
pub proof fn lines_are_sent_with_the_token(
    token: Option<Seq<char>>,
    user_id: Seq<char>,
    line: Seq<char>,
)
    ensures
        ({
            let action = chat::line_action(token, user_id, line);
            &&& text_laws::blank(line) ==> action == LineActionView::Ignore
            &&& !text_laws::blank(line) ==> match token {
                Some(t) => action == (LineActionView::Send { token: t, text: text::trimmed(line) }),
                None => action == LineActionView::Refuse(
                    "[system] no context token yet; wait for "@ + user_id
                        + " to send a message first"@,
                ),
            }
        }),
{
    text_laws::trimmed_texts_stay(line);
    let (a, b) = text_laws::trimming_cuts_white_space_at_the_ends(line);
    if text::trimmed(line).len() == 0 {
        assert forall|i: int| 0 <= i < line.len() implies text::is_white_space(
            #[trigger] line[i],
        ) by {
            if i < a.len() {
                assert(line[i] == a[i]);
            } else {
                assert(line[i] == b[i - a.len()]);
            }
        }
    }
}

/// A line that was sent is shown as it was sent. One that timed out is tried again, up to the
/// third attempt, after a pause that doubles; every other failure, and a third timeout, is
/// told in the words of the service.
pub proof fn lines_are_retried_on_timeouts_only(attempt: int, line: Seq<char>, e: Seq<char>)
    requires
        0 <= attempt < 3,
    ensures
        ({
            let told = TryNextView::Done(
                OutputView::Notice("[error] failed to send message: "@ + e),
            );
            &&& chat::try_next(attempt, line, TryOutcomeView::Sent) == TryNextView::Done(
                OutputView::Chat("[you] "@ + line),
            )
            &&& chat::try_next(attempt, line, TryOutcomeView::Failed(e)) == told
            &&& chat::try_next(2, line, TryOutcomeView::Timeout(e)) == told
            &&& chat::try_next(0, line, TryOutcomeView::Timeout(e)) == (TryNextView::Retry {
                attempt: 1,
                delay_millis: 200,
            })
            &&& chat::try_next(1, line, TryOutcomeView::Timeout(e)) == (TryNextView::Retry {
                attempt: 2,
                delay_millis: 400,
            })
            &&& chat::try_failure(true, e) == TryOutcomeView::Timeout(e)
            &&& chat::try_failure(false, e) == TryOutcomeView::Failed(e)
        }),
{
    vstd::arithmetic::power2::lemma2_to64();
}

/// A message is printed item by item, in order, and behind a notice exactly where it brings a
/// context token.
pub proof fn messages_are_printed_item_by_item(msg: InboundMessageView, k: int)
    ensures
        ({
            let lines = chat::message_lines(msg);
            let n: int = if msg.context_token.len() > 0 {
                1
            } else {
                0
            };
            &&& lines.len() == n + msg.item_list.len()
            &&& n == 1 ==> lines[0] == OutputView::Notice(
                "[system] session activated – context token saved to DB"@,
            )
            &&& 0 <= k < msg.item_list.len() ==> lines[n + k] == OutputView::Chat(
                wechat::item_line(msg.item_list[k]),
            )
        }),
{
}

/// What is printed of several messages is what is printed of the first ones, followed by what
/// is printed of the rest; of a single one it is its lines.
pub proof fn messages_are_printed_in_order(
    a: Seq<InboundMessageView>,
    b: Seq<InboundMessageView>,
    msg: InboundMessageView,
)
    ensures
        chat::all_lines(a + b) == chat::all_lines(a) + chat::all_lines(b),
        chat::all_lines(seq![msg]) == chat::message_lines(msg),
    decreases b.len(),
{
    let one = seq![msg];
    assert(one.drop_last() =~= Seq::empty());
    assert(chat::all_lines(one.drop_last()) =~= Seq::empty());
    assert(chat::all_lines(one) =~= chat::message_lines(msg));
    if b.len() == 0 {
        assert(a + b =~= a);
        assert(chat::all_lines(a + b) =~= chat::all_lines(a) + chat::all_lines(b));
    } else {
        messages_are_printed_in_order(a, b.drop_last(), msg);
        assert((a + b).drop_last() =~= a + b.drop_last());
        assert(chat::all_lines(a + b) =~= chat::all_lines(a) + chat::all_lines(b));
    }
}

/// A failed poll leaves the token and the cursor of the chat alone. The end of the session
/// ends the chat; running out of time leads to another poll at once; any other failure is
/// told, counted, and followed by a pause: a long one after every third, which starts the
/// count again.
pub proof fn failed_polls_keep_the_chat(
    state: ChatStateView,
    user_id: Seq<char>,
    e: Seq<char>,
)
    requires
        0 <= state.consecutive_errors < 3,
    ensures
        ({
            let (expired, quit) = chat::state_after_error(
                state,
                user_id,
                PollErrorView::SessionExpired(e),
            );
            let (waited, again) = chat::state_after_error(state, user_id, PollErrorView::Timeout(e));
            let (failed, pause) = chat::state_after_error(state, user_id, PollErrorView::Other(e));
            let count = state.consecutive_errors + 1;
            &&& expired == state
            &&& quit == PollNextView::Quit(
                "session expired for user `"@ + user_id + "`, re-run `wechat-cli login`"@,
            )
            &&& waited == state
            &&& again == PollNextView::Again
            &&& failed.context_token == state.context_token && failed.buf == state.buf
            &&& failed.consecutive_errors == if count == 3 {
                0
            } else {
                count
            }
            &&& pause == (PollNextView::Pause {
                notice: "chat error ("@ + text::decimal_digits(count) + "): "@ + e,
                secs: if count == 3 {
                    30
                } else {
                    2
                },
            })
        }),
{
}

/// A poll that was taken in is on record: a chat that is started again sends with the last
/// context token that the poll brought, as the one that kept running does. Every message is
/// printed, and no table but the accounts changes.
pub proof fn polls_are_kept_and_printed(
    d: DbView,
    account: AccountView,
    state: ChatStateView,
    u: UpdatesView,
    i: int,
)
    requires
        d.fault is None,
    ensures
        ({
            let (after, running, lines) = chat::updates_taken(d, account, state, u);
            &&& delivery_laws::has_last_token(u.messages, i) ==> chat::initial_state(
                after,
                account.user_id,
            ).context_token == Some(u.messages[i].context_token) && running.context_token == Some(
                u.messages[i].context_token,
            )
            &&& delivery_laws::has_no_token(u.messages) ==> chat::initial_state(
                after,
                account.user_id,
            ).context_token == chat::initial_state(d, account.user_id).context_token
            &&& lines == chat::all_lines(u.messages)
            &&& table_laws::only_accounts_differ(after, d)
        }),
{
    let other = account.user_id.push('x');
    assert(other.len() != account.user_id.len());
    delivery_laws::a_poll_leaves_its_last_token(d, account, u, i, other);
    polls_renew_the_chat(d, account, state, u, i);
}

/// A storage that cannot be read counts as one without the account.
pub proof fn unread_storage_starts_a_new_chat(d: DbView, user_id: Seq<char>)
    requires
        d.fault is Some,
    ensures
        chat::initial_state(d, user_id) == (ChatStateView {
            context_token: None,
            buf: None,
            consecutive_errors: 0,
        }),
{
}

/// At the start the user is told whether there is a session to go on with; without one they are
/// told whose message they have to wait for.
pub proof fn the_start_tells_whom_to_wait_for(user_id: Seq<char>)
    ensures
        chat::start_notice(user_id, true) == seq!["restored session from database"@],
        chat::start_notice(user_id, false).len() == 2,
        chat::start_notice(user_id, false)[0] == "no saved session found; waiting for "@ + user_id
            + " to send a message to activate the bot..."@,
        chat::start_notice(user_id, false)[1]
            == "after activation, the session will be saved and you can restart without re-activation"@,
{
}

} // verus!
