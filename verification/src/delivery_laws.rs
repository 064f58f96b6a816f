//! How a text reaches an account, whatever the chat service answers.

use vstd::prelude::*;

use crate::db::{DbView, MessageView, SessionView};
use crate::delivery::{self, DeliveryView, SendJobView, SendStepView};
use crate::wechat::{self, AccountView, InboundMessageView, SendOutcomeView, UpdatesView};
use crate::{db, db_laws, model, table_laws, wechat_laws};

verus! {

/// The cursor that a poll of an account starts from, given what the server remembers and
/// what is on record: the remembered one, or else a recorded one that is not empty.
pub open spec fn starts_from(
    cursors: Map<Seq<char>, Seq<char>>,
    user_id: Seq<char>,
    recorded: Option<SessionView>,
    cursor: Option<Seq<char>>,
) -> bool {
    &&& cursors.contains_key(user_id) ==> cursor == Some(cursors[user_id])
    &&& !cursors.contains_key(user_id) ==> match recorded {
        Some(s) => if s.updates_buf.len() > 0 {
            cursor == Some(s.updates_buf)
        } else {
            cursor is None
        },
        None => cursor is None,
    }
}

/// A text is first tried with the context token on record, where that is not empty; without
/// one the account is polled, from the cursor that the server remembers or has on record.
pub proof fn a_recorded_token_is_tried_first(
    d: DbView,
    cursors: Map<Seq<char>, Seq<char>>,
    user_id: Seq<char>,
)
    requires
        d.fault is None,
    ensures
        match d.session(user_id) {
            Some(s) => s.context_token.len() > 0 ==> delivery::first_step(d, cursors, user_id) == (
            SendStepView::Send { token: s.context_token, polled: false }),
            None => true,
        },
        (d.session(user_id) matches Some(s) ==> s.context_token.len() == 0) ==> (
        delivery::first_step(d, cursors, user_id) matches SendStepView::Poll(cursor) && starts_from(
            cursors,
            user_id,
            d.session(user_id),
            cursor,
        )),
{
}

/// A token that is refused before any poll leads to a poll, from the cursor that the server
/// remembers or has on record; refused after a poll it ends the delivery, as does any other
/// failure at any time, with the words of the service. None of that changes the tables.
pub proof fn a_refused_token_leads_to_one_poll(
    before: DbView,
    after: DbView,
    cursors: Map<Seq<char>, Seq<char>>,
    job: SendJobView,
    polled: bool,
    e: Seq<char>,
    step: SendStepView,
)
    requires
        before.fault is None,
    ensures
        delivery::send_done(
            before,
            after,
            cursors,
            job,
            polled,
            SendOutcomeView::InvalidToken(e),
            step,
        ) ==> {
            &&& after == before
            &&& polled ==> step == SendStepView::Done(DeliveryView::Failed(e))
            &&& !polled ==> (step matches SendStepView::Poll(cursor) && starts_from(
                cursors,
                job.user_id,
                before.session(job.user_id),
                cursor,
            ))
        },
        delivery::send_done(before, after, cursors, job, polled, SendOutcomeView::Failed(e), step)
            ==> after == before && step == SendStepView::Done(DeliveryView::Failed(e)),
{
}

/// A text that was sent ends the delivery well, and is stored as the newest message, sent to
/// the account, under its text; nothing else changes.
pub proof fn a_sent_text_is_stored(
    before: DbView,
    after: DbView,
    cursors: Map<Seq<char>, Seq<char>>,
    job: SendJobView,
    polled: bool,
    step: SendStepView,
)
    requires
        delivery::send_done(
            before,
            after,
            cursors,
            job,
            polled,
            SendOutcomeView::Sent,
            step,
        ),
    ensures
        step == SendStepView::Done(DeliveryView::Sent),
        before.fault is None && before.last_message_id < i64::MAX ==> {
            let row = after.messages.last();
            &&& after == (DbView {
                messages: before.messages.push(row),
                last_message_id: row.id,
                ..before
            })
            &&& row.id == before.last_message_id + 1
            &&& row.wechat_user_id == job.user_id
            &&& row.direction == "send"@
            &&& row.content == job.text
            &&& row.msg_type == "text"@
            &&& row.raw_json.len() == 0
        },
{
    reveal_strlit("");
    let now = choose|now: Seq<char>|
        after == (#[trigger] before.insert_message(
            job.user_id,
            "send"@,
            job.text,
            "text"@,
            ""@,
            now,
        )).0;
    assert(after == before.insert_message(job.user_id, "send"@, job.text, "text"@, ""@, now).0);
}

/// Whenever a poll brings a context token for the account, the text is sent with exactly
/// that token, and the record of the account holds it afterwards, together with the key and
/// tag that the account is reached by and the next cursor where the poll gave one and the
/// account was known. What was on record before does not matter; other accounts and other
/// tables stay as they were.
pub proof fn a_fresh_token_is_used_and_recorded(
    d: DbView,
    cursors: Map<Seq<char>, Seq<char>>,
    job: SendJobView,
    u: UpdatesView,
    i: int,
    other: Seq<char>,
)
    requires
        wechat_laws::brings_token(u.messages, job.user_id, i),
        other != job.user_id,
    ensures
        ({
            let (after, after_cursors, step) = delivery::poll_step(d, cursors, job, Ok(u));
            let token = u.messages[i].context_token;
            &&& step == (SendStepView::Send { token, polled: true })
            &&& table_laws::only_accounts_differ(after, d)
            &&& d.fault is None ==> {
                &&& after.session(job.user_id) == Some(
                    SessionView {
                        user_id: job.user_id,
                        bot_token: job.bot_token,
                        route_tag: job.route_tag,
                        context_token: token,
                        updates_buf: match (d.session(job.user_id), u.get_updates_buf) {
                            (Some(_), Some(next)) => next,
                            (Some(s), None) => s.updates_buf,
                            (None, _) => Seq::empty(),
                        },
                    },
                )
                &&& after.session(other) == d.session(other)
            }
            &&& u.get_updates_buf matches Some(next) ==> after_cursors == cursors.insert(
                job.user_id,
                next,
            )
            &&& u.get_updates_buf is None ==> after_cursors == cursors
        }),
{
    wechat_laws::the_first_token_is_picked(u.messages, job.user_id, i);
    let mid = match u.get_updates_buf {
        Some(b) => d.save_updates_buf(job.user_id, b),
        None => d,
    };
    if d.fault is None {
        if let Some(b) = u.get_updates_buf {
            db_laws::saved_cursor_is_read_back(d, job.user_id, b, other);
        }
        db_laws::saved_context_token_is_read_back(
            mid,
            job.user_id,
            job.bot_token,
            job.route_tag,
            u.messages[i].context_token,
            other,
        );
    }
}

/// Where a poll failed or brought no context token for the account, the one on record is
/// sent with again and stays on record; without one the delivery ends, and nothing is
/// saved.
pub proof fn without_a_fresh_token_the_record_decides(
    d: DbView,
    cursors: Map<Seq<char>, Seq<char>>,
    job: SendJobView,
    polled: Result<UpdatesView, Seq<char>>,
    other: Seq<char>,
)
    requires
        d.fault is None,
        polled matches Ok(u) ==> wechat_laws::brings_no_token(u.messages, job.user_id),
        other != job.user_id,
    ensures
        ({
            let (after, after_cursors, step) = delivery::poll_step(d, cursors, job, polled);
            &&& table_laws::only_accounts_differ(after, d)
            &&& match d.session(job.user_id) {
                Some(s) => if s.context_token.len() > 0 {
                    &&& step == (SendStepView::Send { token: s.context_token, polled: true })
                    &&& after.session(job.user_id) == Some(
                        SessionView {
                            bot_token: job.bot_token,
                            route_tag: job.route_tag,
                            updates_buf: match polled {
                                Ok(u) => match u.get_updates_buf {
                                    Some(next) => next,
                                    None => s.updates_buf,
                                },
                                Err(_) => s.updates_buf,
                            },
                            ..s
                        },
                    )
                    &&& after.session(other) == d.session(other)
                } else {
                    step == SendStepView::Done(DeliveryView::NoToken) && after == d
                        && after_cursors == cursors
                },
                None => step == SendStepView::Done(DeliveryView::NoToken) && after == d
                    && after_cursors == cursors,
            }
            &&& polled is Err ==> after_cursors == cursors
        }),
{
    if let Ok(u) = polled {
        wechat_laws::the_first_token_is_picked(u.messages, job.user_id, 0);
    }
    model::first_where_finds(d.sessions, db::of_account(job.user_id));
    let next = match polled {
        Ok(u) => u.get_updates_buf,
        Err(_) => None,
    };
    let mid = match next {
        Some(b) => d.save_updates_buf(job.user_id, b),
        None => d,
    };
    if let Some(b) = next {
        db_laws::saved_cursor_is_read_back(d, job.user_id, b, other);
    }
    if let Some(s) = d.session(job.user_id) {
        db_laws::saved_context_token_is_read_back(
            mid,
            job.user_id,
            job.bot_token,
            job.route_tag,
            s.context_token,
            other,
        );
    }
}

/// A stale token is replaced on the way: the text begins with the recorded token, and where
/// the service refuses it and the poll brings another one, goes out with that one.
pub proof fn a_stale_token_is_replaced(
    d: DbView,
    after: DbView,
    cursors: Map<Seq<char>, Seq<char>>,
    job: SendJobView,
    s: SessionView,
    e: Seq<char>,
    step: SendStepView,
    u: UpdatesView,
    i: int,
)
    requires
        d.fault is None,
        d.session(job.user_id) == Some(s),
        s.context_token.len() > 0,
        delivery::send_done(
            d,
            after,
            cursors,
            job,
            false,
            SendOutcomeView::InvalidToken(e),
            step,
        ),
        wechat_laws::brings_token(u.messages, job.user_id, i),
    ensures
        delivery::first_step(d, cursors, job.user_id) == (SendStepView::Send {
            token: s.context_token,
            polled: false,
        }),
        step is Poll,
        delivery::poll_step(after, cursors, job, Ok(u)).2 == (SendStepView::Send {
            token: u.messages[i].context_token,
            polled: true,
        }),
{
    a_recorded_token_is_tried_first(d, cursors, job.user_id);
    let other = job.user_id.push('x');
    assert(other.len() != job.user_id.len());
    a_fresh_token_is_used_and_recorded(after, cursors, job, u, i, other);
}

/// A text goes to the account of the record, with the key and the tag of that record.
pub proof fn texts_go_out_as_the_record_says(session: SessionView, text: Seq<char>)
    ensures
        delivery::job_for(session, text).user_id == session.user_id,
        delivery::job_for(session, text).bot_token == session.bot_token,
        delivery::job_for(session, text).route_tag == session.route_tag,
        delivery::job_for(session, text).text == text,
        delivery::account_of(session).user_id == session.user_id,
        delivery::account_of(session).bot_token == session.bot_token,
        delivery::account_of(session).route_tag == session.route_tag,
{
}

/// An account is polled in the background from the cursor that the server remembers, or
/// else from the one on record, if it is not empty.
pub proof fn background_polls_start_where_the_last_ended(
    cursors: Map<Seq<char>, Seq<char>>,
    session: SessionView,
)
    ensures
        starts_from(
            cursors,
            session.user_id,
            Some(session),
            delivery::background_start(cursors, session),
        ),
{
}

/// The `i`-th message is the last that has a context token.
pub open spec fn has_last_token(messages: Seq<InboundMessageView>, i: int) -> bool {
    &&& 0 <= i < messages.len()
    &&& messages[i].context_token.len() > 0
    &&& forall|j: int| i < j < messages.len() ==> (#[trigger] messages[j]).context_token.len() == 0
}

/// No message has a context token.
pub open spec fn has_no_token(messages: Seq<InboundMessageView>) -> bool {
    forall|j: int|
        0 <= j < messages.len() ==> (#[trigger] messages[j]).context_token.len() == 0
}

proof fn lemma_noted(
    d: DbView,
    account: AccountView,
    messages: Seq<InboundMessageView>,
    i: int,
    other: Seq<char>,
)
    requires
        d.fault is None,
        other != account.user_id,
        has_last_token(messages, i) || has_no_token(messages),
    ensures
        ({
            let after = delivery::tokens_noted(d, account, messages);
            &&& table_laws::only_accounts_differ(after, d)
            &&& has_no_token(messages) ==> after == d
            &&& after.session(other) == d.session(other)
            &&& has_last_token(messages, i) ==> after.session(account.user_id) == Some(
                SessionView {
                    user_id: account.user_id,
                    bot_token: account.bot_token,
                    route_tag: account.route_tag,
                    context_token: messages[i].context_token,
                    updates_buf: match d.session(account.user_id) {
                        Some(s) => s.updates_buf,
                        None => Seq::empty(),
                    },
                },
            )
        }),
    decreases messages.len(),
{
    if messages.len() > 0 {
        let front = messages.drop_last();
        let n = messages.len() - 1;
        if has_no_token(messages) {
            assert forall|j: int| 0 <= j < front.len() implies (
            #[trigger] front[j]).context_token.len() == 0 by {
                assert(front[j] == messages[j]);
            }
            lemma_noted(d, account, front, 0, other);
            assert(messages[n].context_token.len() == 0);
        } else if i < n {
            assert forall|j: int| i < j < front.len() implies (
            #[trigger] front[j]).context_token.len() == 0 by {
                assert(front[j] == messages[j]);
            }
            lemma_noted(d, account, front, i, other);
            assert(messages[n].context_token.len() == 0);
        } else {
            let k = lemma_last_token_or_none(front);
            lemma_noted(d, account, front, k, other);
            let mid = delivery::tokens_noted(d, account, front);
            db_laws::saved_context_token_is_read_back(
                mid,
                account.user_id,
                account.bot_token,
                account.route_tag,
                messages[n].context_token,
                other,
            );
        }
    }
}

proof fn lemma_last_token_or_none(messages: Seq<InboundMessageView>) -> (i: int)
    ensures
        has_last_token(messages, i) || has_no_token(messages),
    decreases messages.len(),
{
    if messages.len() == 0 {
        0
    } else {
        let front = messages.drop_last();
        let n = messages.len() - 1;
        if messages[n].context_token.len() > 0 {
            n
        } else {
            let i = lemma_last_token_or_none(front);
            if has_last_token(front, i) {
                assert(messages[i] == front[i]);
                assert forall|j: int| i < j < messages.len() implies (
                #[trigger] messages[j]).context_token.len() == 0 by {
                    if j < n {
                        assert(front[j] == messages[j]);
                    }
                }
            } else {
                assert forall|j: int| 0 <= j < messages.len() implies (
                #[trigger] messages[j]).context_token.len() == 0 by {
                    if j < n {
                        assert(front[j] == messages[j]);
                    }
                }
            }
            i
        }
    }
}

/// Taking in a poll puts the last context token that it brought on record for the account
/// that was polled, with that account's key and tag, and the next cursor where the account
/// was known. A poll without tokens changes the cursor at most. Messages are not stored,
/// and other accounts stay as they were.
pub proof fn a_poll_leaves_its_last_token(
    d: DbView,
    account: AccountView,
    u: UpdatesView,
    i: int,
    other: Seq<char>,
)
    requires
        d.fault is None,
        other != account.user_id,
    ensures
        ({
            let after = delivery::poll_saved(d, account, u);
            let cursor = match (d.session(account.user_id), u.get_updates_buf) {
                (Some(_), Some(next)) => next,
                (Some(s), None) => s.updates_buf,
                (None, _) => Seq::empty(),
            };
            &&& table_laws::only_accounts_differ(after, d)
            &&& after.session(other) == d.session(other)
            &&& has_last_token(u.messages, i) ==> after.session(account.user_id) == Some(
                SessionView {
                    user_id: account.user_id,
                    bot_token: account.bot_token,
                    route_tag: account.route_tag,
                    context_token: u.messages[i].context_token,
                    updates_buf: cursor,
                },
            )
            &&& has_no_token(u.messages) ==> after.session(account.user_id) == match d.session(
                account.user_id,
            ) {
                Some(s) => Some(SessionView { updates_buf: cursor, ..s }),
                None => None,
            }
        }),
{
    let start = match u.get_updates_buf {
        Some(b) => d.save_updates_buf(account.user_id, b),
        None => d,
    };
    if let Some(b) = u.get_updates_buf {
        db_laws::saved_cursor_is_read_back(d, account.user_id, b, other);
    }
    if has_last_token(u.messages, i) {
        lemma_noted(start, account, u.messages, i, other);
    } else {
        let k = lemma_last_token_or_none(u.messages);
        lemma_noted(start, account, u.messages, k, other);
    }
    model::first_where_finds(d.sessions, db::of_account(account.user_id));
}

/// The next cursor of a poll is on record afterwards, where the account was; without a next
/// cursor the one on record stays.
pub proof fn a_poll_keeps_the_cursor(d: DbView, account: AccountView, u: UpdatesView)
    requires
        d.fault is None,
    ensures
        d.session(account.user_id) matches Some(s) ==> (delivery::poll_saved(
            d,
            account,
            u,
        ).session(account.user_id) matches Some(t) && t.updates_buf == match u.get_updates_buf {
            Some(next) => next,
            None => s.updates_buf,
        }),
{
    let other = account.user_id.push('x');
    assert(other.len() != account.user_id.len());
    let k = lemma_last_token_or_none(u.messages);
    a_poll_leaves_its_last_token(d, account, u, k, other);
}

/// The row under which a message of the chat service is stored.
pub open spec fn stores(row: MessageView, account: AccountView, msg: InboundMessageView, raw: Seq<
    char,
>) -> bool {
    &&& row.wechat_user_id == account.user_id
    &&& row.direction == "receive"@
    &&& row.content == wechat::msg_content(msg).0
    &&& row.msg_type == wechat::msg_content(msg).1
    &&& row.raw_json == raw
}

proof fn lemma_received(
    d: DbView,
    account: AccountView,
    messages: Seq<InboundMessageView>,
    raws: Seq<Seq<char>>,
    times: Seq<Seq<char>>,
)
    ensures
        delivery::all_received(d, account, messages, raws, times).sessions
            == delivery::tokens_noted(d, account, messages).sessions,
        delivery::all_received(d, account, messages, raws, times).fault == d.fault,
        delivery::tokens_noted(d, account, messages).fault == d.fault,
        delivery::all_received(d, account, messages, raws, times).users == d.users,
        delivery::all_received(d, account, messages, raws, times).tokens == d.tokens,
    decreases messages.len(),
{
    if messages.len() > 0 {
        lemma_received(d, account, messages.drop_last(), raws, times);
    }
}

/// Every message that a poll in the background brings is stored, one after the other, as
/// one that came in for the polled account; the last context token goes on record, and the
/// next cursor is remembered, and recorded where the account was known. Nothing else
/// changes.
pub proof fn background_polls_lose_nothing(
    d: DbView,
    after: DbView,
    cursors: Map<Seq<char>, Seq<char>>,
    after_cursors: Map<Seq<char>, Seq<char>>,
    account: AccountView,
    u: UpdatesView,
    raws: Seq<Seq<char>>,
    i: int,
    k: int,
    other: Seq<char>,
)
    requires
        delivery::updates_absorbed(d, after, cursors, after_cursors, account, u, raws),
        d.fault is None,
        0 <= d.last_message_id,
        d.last_message_id + u.messages.len() <= i64::MAX,
        other != account.user_id,
    ensures
        after.messages.len() == d.messages.len() + u.messages.len(),
        after.messages.take(d.messages.len() as int) == d.messages,
        0 <= k < u.messages.len() ==> stores(
            after.messages[d.messages.len() + k],
            account,
            u.messages[k],
            raws[k],
        ),
        after.users == d.users,
        after.tokens == d.tokens,
        after.session(other) == d.session(other),
        has_last_token(u.messages, i) ==> (after.session(account.user_id) matches Some(s)
            && s.context_token == u.messages[i].context_token && s.bot_token == account.bot_token
            && s.route_tag == account.route_tag),
        d.session(account.user_id) matches Some(s) ==> (after.session(account.user_id) matches Some(
            t,
        ) && t.updates_buf == match u.get_updates_buf {
            Some(next) => next,
            None => s.updates_buf,
        }),
        u.get_updates_buf matches Some(next) ==> after_cursors == cursors.insert(
            account.user_id,
            next,
        ),
        u.get_updates_buf is None ==> after_cursors == cursors,
{
    let start = delivery::cursor_kept(d, cursors, account.user_id, u.get_updates_buf).0;
    let times = choose|times: Seq<Seq<char>>|
        times.len() == u.messages.len() && after == #[trigger] delivery::all_received(
            start,
            account,
            u.messages,
            raws,
            times,
        );
    delivery::every_message_is_recorded(start, account, u.messages, raws, times);
    lemma_received(start, account, u.messages, raws, times);
    assert(after.messages.take(d.messages.len() as int) =~= d.messages);
    let saved = delivery::poll_saved(d, account, u);
    assert(saved == delivery::tokens_noted(start, account, u.messages));
    assert(after.sessions == saved.sessions);
    assert(after.session(other) == saved.session(other));
    assert(after.session(account.user_id) == saved.session(account.user_id));
    let last = lemma_last_token_or_none(u.messages);
    a_poll_leaves_its_last_token(d, account, u, last, other);
    a_poll_leaves_its_last_token(d, account, u, i, other);
}

/// An account keeps its lock: whoever asks for it again, before or after others did, gets the
/// same one, and an account that is asked for the first time gets one that nobody has.
pub proof fn accounts_keep_their_lock(
    slots: Map<Seq<char>, usize>,
    count: nat,
    user_id: Seq<char>,
    lock: usize,
    slots_after: Map<Seq<char>, usize>,
    count_after: nat,
    other: Seq<char>,
    again: usize,
    slots_last: Map<Seq<char>, usize>,
    count_last: nat,
)
    requires
        delivery::lock_given(slots, count, user_id, lock, slots_after, count_after),
        delivery::lock_given(slots_after, count_after, other, again, slots_last, count_last),
        forall|a: Seq<char>| #[trigger] slots.contains_key(a) ==> slots[a] < count,
    ensures
        slots.contains_key(user_id) ==> lock == slots[user_id],
        slots_after.contains_key(user_id) && slots_after[user_id] == lock,
        slots.contains_key(other) ==> slots_after.contains_key(other) && slots_after[other]
            == slots[other],
        other == user_id ==> again == lock,
        !slots.contains_key(user_id) && slots.contains_key(other) ==> slots[other] != lock,
        slots_last.contains_key(user_id) && slots_last[user_id] == lock,
        other != user_id && !slots.contains_key(other) ==> again != lock,
{
}

/// A storage that cannot be read counts as one without tokens and cursors: the account is
/// polled, and without a fresh token nothing is sent.
pub proof fn unread_storage_leads_to_polls(
    d: DbView,
    cursors: Map<Seq<char>, Seq<char>>,
    job: SendJobView,
    polled: Result<UpdatesView, Seq<char>>,
)
    requires
        d.fault is Some,
    ensures
        delivery::first_step(d, cursors, job.user_id) matches SendStepView::Poll(cursor)
            && starts_from(cursors, job.user_id, None, cursor),
        (polled matches Ok(u) ==> wechat_laws::brings_no_token(u.messages, job.user_id))
            ==> delivery::poll_step(d, cursors, job, polled) == (
            d,
            cursors,
            SendStepView::Done(DeliveryView::NoToken),
        ),
{
    if let Ok(u) = polled {
        wechat_laws::the_first_token_is_picked(u.messages, job.user_id, 0);
    }
}

} // verus!
