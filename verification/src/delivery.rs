//! Sending a text to a bound account.
//!
//! A text is sent with the context token that is on record, if there is one. Where the
//! chat service no longer accepts it, or there is none, the service is polled for a
//! fresh one, and the text is sent with that. The functions here decide what comes
//! next; the caller talks to the service and hands back what it said.

use vstd::prelude::*;

use crate::db::{self, Db, DbError, DbView, MessageView, Session, SessionView};
use crate::keyed::Keyed;
use crate::wechat::{self, Account, AccountView, SendOutcome, SendOutcomeView, Updates, UpdatesView};
use crate::{db_laws, model, outside, text};

verus! {

/// How many accounts are polled at a time.
pub const MAX_CONCURRENT_POLLS: usize = 20;

/// A text for an account, and how to reach it.
#[derive(Debug)]
pub struct SendJob {
    pub user_id: String,
    pub bot_token: String,
    pub route_tag: Option<String>,
    pub text: String,
}

/// The plain value of a [`SendJob`].
#[verifier::ext_equal]
pub struct SendJobView {
    pub user_id: Seq<char>,
    pub bot_token: Seq<char>,
    pub route_tag: Option<Seq<char>>,
    pub text: Seq<char>,
}

impl View for SendJob {
    type V = SendJobView;

    open spec fn view(&self) -> SendJobView {
        SendJobView {
            user_id: self.user_id@,
            bot_token: self.bot_token@,
            route_tag: self.route_tag.deep_view(),
            text: self.text@,
        }
    }
}

impl DeepView for SendJob {
    type V = SendJobView;

    open spec fn deep_view(&self) -> SendJobView {
        self@
    }
}

/// How sending a text ended.
#[derive(Debug)]
pub enum Delivery {
    /// The text was sent.
    Sent,
    /// No context token is known for the account.
    NoToken,
    /// The chat service refused the text, for the given reason.
    Failed(String),
}

/// The plain value of a [`Delivery`].
#[verifier::ext_equal]
pub enum DeliveryView {
    Sent,
    NoToken,
    Failed(Seq<char>),
}

impl View for Delivery {
    type V = DeliveryView;

    open spec fn view(&self) -> DeliveryView {
        match self {
            Delivery::Sent => DeliveryView::Sent,
            Delivery::NoToken => DeliveryView::NoToken,
            Delivery::Failed(x) => DeliveryView::Failed(x@),
        }
    }
}

impl DeepView for Delivery {
    type V = DeliveryView;

    open spec fn deep_view(&self) -> DeliveryView {
        self@
    }
}

/// What comes next in sending a text.
#[derive(Debug)]
pub enum SendStep {
    /// Send the text with this context token; `polled` says whether that follows a
    /// poll.
    Send { token: String, polled: bool },
    /// Poll the service, from this cursor on.
    Poll(Option<String>),
    /// Nothing is left to do.
    Done(Delivery),
}

/// The plain value of a [`SendStep`].
#[verifier::ext_equal]
pub enum SendStepView {
    Send { token: Seq<char>, polled: bool },
    Poll(Option<Seq<char>>),
    Done(DeliveryView),
}

impl View for SendStep {
    type V = SendStepView;

    open spec fn view(&self) -> SendStepView {
        match self {
            SendStep::Send { token, polled } => SendStepView::Send {
                token: token@,
                polled: *polled,
            },
            SendStep::Poll(x) => SendStepView::Poll(x.deep_view()),
            SendStep::Done(x) => SendStepView::Done(x@),
        }
    }
}

impl DeepView for SendStep {
    type V = SendStepView;

    open spec fn deep_view(&self) -> SendStepView {
        self@
    }
}

/// The cursors of the accounts as the server holds them in memory.
pub type Cursors = Keyed<String>;

/// The context token on record for an account.
pub open spec fn cached_token(d: DbView, user_id: Seq<char>) -> Option<Seq<char>> {
    match d.guard(d.session(user_id)) {
        Ok(Some(s)) => text::unless_empty(s.context_token),
        _ => None,
    }
}

/// The cursor on record for an account.
pub open spec fn saved_cursor(d: DbView, user_id: Seq<char>) -> Option<Seq<char>> {
    match d.guard(d.session(user_id)) {
        Ok(Some(s)) => text::unless_empty(s.updates_buf),
        _ => None,
    }
}

/// The cursor to poll an account from: the one in memory, or else the one that the
/// given record has.
pub open spec fn cursor_or(
    cursors: Map<Seq<char>, Seq<char>>,
    user_id: Seq<char>,
    saved: Option<Seq<char>>,
) -> Option<Seq<char>> {
    if cursors.contains_key(user_id) {
        Some(cursors[user_id])
    } else {
        saved
    }
}

/// The cursor to poll an account from.
pub open spec fn current_cursor(
    d: DbView,
    cursors: Map<Seq<char>, Seq<char>>,
    user_id: Seq<char>,
) -> Option<Seq<char>> {
    cursor_or(cursors, user_id, saved_cursor(d, user_id))
}

/// Gives the context token on record for an account.
pub fn load_token(db: &Db, user_id: &str) -> (r: Option<String>)
    ensures
        r.deep_view() == cached_token(db@, user_id@),
{
    match db::load_session(db, user_id) {
        Ok(Some(s)) => text::non_empty(&s.context_token),
        _ => None,
    }
}

/// Gives the cursor on record for an account.
pub fn load_cursor(db: &Db, user_id: &str) -> (r: Option<String>)
    ensures
        r.deep_view() == saved_cursor(db@, user_id@),
{
    match db::load_session(db, user_id) {
        Ok(Some(s)) => text::non_empty(&s.updates_buf),
        _ => None,
    }
}

fn choose_cursor(cursors: &Cursors, user_id: &str, saved: Option<String>) -> (r: Option<String>)
    requires
        cursors.wf(),
    ensures
        r.deep_view() == cursor_or(cursors@, user_id@, saved.deep_view()),
{
    match cursors.get(user_id) {
        Some(c) => Some(c.clone()),
        None => saved,
    }
}

/// The first step: send with the token on record, or poll for one.
pub open spec fn first_step(
    d: DbView,
    cursors: Map<Seq<char>, Seq<char>>,
    user_id: Seq<char>,
) -> SendStepView {
    match cached_token(d, user_id) {
        Some(token) => SendStepView::Send { token, polled: false },
        None => SendStepView::Poll(current_cursor(d, cursors, user_id)),
    }
}

/// Begins to send a text.
pub fn begin_send(db: &Db, cursors: &Cursors, job: &SendJob) -> (r: SendStep)
    requires
        cursors.wf(),
    ensures
        r@ == first_step(db@, cursors@, job@.user_id),
{
    match load_token(db, job.user_id.as_str()) {
        Some(token) => SendStep::Send { token, polled: false },
        None => SendStep::Poll(
            choose_cursor(
                cursors,
                job.user_id.as_str(),
                load_cursor(db, job.user_id.as_str()),
            ),
        ),
    }
}

/// The text was recorded as sent at some moment, as far as the tables took it.
pub open spec fn sent_logged(before: DbView, after: DbView, job: SendJobView) -> bool {
    exists|now: Seq<char>|
        after == (#[trigger] before.insert_message(
            job.user_id,
            "send"@,
            job.text,
            "text"@,
            ""@,
            now,
        )).0
}

fn log_sent(db: &mut Db, job: &SendJob)
    ensures
        sent_logged(old(db)@, final(db)@, job@),
{
    let r: Result<(), DbError> = db::save_message(
        db,
        job.user_id.as_str(),
        "send",
        job.text.as_str(),
        "text",
        "",
    );
    assert(db::message_saved(
        old(db)@,
        db@,
        job@.user_id,
        "send"@,
        job@.text,
        "text"@,
        ""@,
        model::outcome(r),
    ));
}

/// What follows an attempt to send: a text that was sent is recorded; a token that is
/// not accepted leads to a poll, unless there was one already; any other failure ends
/// it.
pub open spec fn send_done(
    before: DbView,
    after: DbView,
    cursors: Map<Seq<char>, Seq<char>>,
    job: SendJobView,
    polled: bool,
    outcome: SendOutcomeView,
    step: SendStepView,
) -> bool {
    match outcome {
        SendOutcomeView::Sent => {
            &&& sent_logged(before, after, job)
            &&& step == SendStepView::Done(DeliveryView::Sent)
        },
        SendOutcomeView::InvalidToken(e) => {
            &&& after == before
            &&& step == if polled {
                SendStepView::Done(DeliveryView::Failed(e))
            } else {
                SendStepView::Poll(current_cursor(before, cursors, job.user_id))
            }
        },
        SendOutcomeView::Failed(e) => {
            &&& after == before
            &&& step == SendStepView::Done(DeliveryView::Failed(e))
        },
    }
}

/// Goes on after an attempt to send.
pub fn after_send(
    db: &mut Db,
    cursors: &Cursors,
    job: &SendJob,
    polled: bool,
    outcome: SendOutcome,
) -> (r: SendStep)
    requires
        cursors.wf(),
    ensures
        send_done(old(db)@, final(db)@, cursors@, job@, polled, outcome@, r@),
{
    match outcome {
        SendOutcome::Sent => {
            log_sent(db, job);
            SendStep::Done(Delivery::Sent)
        },
        SendOutcome::InvalidToken(e) => {
            if polled {
                SendStep::Done(Delivery::Failed(e))
            } else {
                SendStep::Poll(
                    choose_cursor(
                        cursors,
                        job.user_id.as_str(),
                        load_cursor(db, job.user_id.as_str()),
                    ),
                )
            }
        },
        SendOutcome::Failed(e) => SendStep::Done(Delivery::Failed(e)),
    }
}

/// What a poll gives: the first context token for the user, and the next cursor;
/// nothing where it failed.
pub open spec fn polled_token(
    polled: Result<UpdatesView, Seq<char>>,
    user_id: Seq<char>,
) -> (Option<Seq<char>>, Option<Seq<char>>) {
    match polled {
        Ok(u) => (wechat::first_context_token(u.messages, user_id), u.get_updates_buf),
        Err(_) => (None, None),
    }
}

/// Gives the first context token for a user that a poll brought, and the next cursor.
pub fn poll_context_token(polled: &Result<Updates, String>, user_id: &str) -> (r: (
    Option<String>,
    Option<String>,
))
    ensures
        (r.0.deep_view(), r.1.deep_view()) == polled_token(model::outcome(*polled), user_id@),
{
    match polled {
        Ok(u) => (
            wechat::find_context_token(&u.messages, user_id),
            text::copy_option(&u.get_updates_buf),
        ),
        Err(_) => (None, None),
    }
}

/// The tables and the cursors after the next cursor of a poll was saved.
pub open spec fn cursor_kept(
    d: DbView,
    cursors: Map<Seq<char>, Seq<char>>,
    user_id: Seq<char>,
    next: Option<Seq<char>>,
) -> (DbView, Map<Seq<char>, Seq<char>>) {
    match next {
        Some(b) => (d.save_updates_buf(user_id, b), cursors.insert(user_id, b)),
        None => (d, cursors),
    }
}

/// What a poll does to the tables and the cursors, and the step that follows. A token
/// from the poll comes before the one on record. Where there is neither, nothing is
/// saved; otherwise the next cursor and the token are.
pub open spec fn poll_step(
    d: DbView,
    cursors: Map<Seq<char>, Seq<char>>,
    job: SendJobView,
    polled: Result<UpdatesView, Seq<char>>,
) -> (DbView, Map<Seq<char>, Seq<char>>, SendStepView) {
    let (fresh, next) = polled_token(polled, job.user_id);
    let token = match fresh {
        Some(t) => Some(t),
        None => cached_token(d, job.user_id),
    };
    match token {
        None => (d, cursors, SendStepView::Done(DeliveryView::NoToken)),
        Some(t) => {
            let (d1, c1) = cursor_kept(d, cursors, job.user_id, next);
            (
                d1.save_context_token(job.user_id, job.bot_token, job.route_tag, t),
                c1,
                SendStepView::Send { token: t, polled: true },
            )
        },
    }
}

fn tag_of(tag: &Option<String>) -> (r: Option<&str>)
    ensures
        r.deep_view() == tag.deep_view(),
{
    match tag {
        Some(t) => Some(t.as_str()),
        None => None,
    }
}

/// Goes on after a poll.
pub fn after_poll(
    db: &mut Db,
    cursors: &mut Cursors,
    job: &SendJob,
    polled: &Result<Updates, String>,
) -> (r: SendStep)
    requires
        old(cursors).wf(),
    ensures
        final(cursors).wf(),
        (final(db)@, final(cursors)@, r@) == poll_step(
            old(db)@,
            old(cursors)@,
            job@,
            model::outcome(*polled),
        ),
{
    let uid: &str = job.user_id.as_str();
    let (fresh, next) = poll_context_token(polled, uid);
    let token: Option<String> = match fresh {
        Some(t) => Some(t),
        None => load_token(db, uid),
    };
    match token {
        None => SendStep::Done(Delivery::NoToken),
        Some(t) => {
            if let Some(b) = next {
                let _ = db::save_updates_buf(db, uid, b.as_str());
                cursors.insert(job.user_id.clone(), b);
            }
            let _ = db::save_context_token(
                db,
                uid,
                job.bot_token.as_str(),
                tag_of(&job.route_tag),
                t.as_str(),
            );
            SendStep::Send { token: t, polled: true }
        },
    }
}

/// The text for an account.
pub open spec fn job_for(session: SessionView, text: Seq<char>) -> SendJobView {
    SendJobView {
        user_id: session.user_id,
        bot_token: session.bot_token,
        route_tag: session.route_tag,
        text,
    }
}

/// Makes a text for an account.
pub fn make_job(session: &Session, text: &str) -> (r: SendJob)
    ensures
        r@ == job_for(session@, text@),
{
    SendJob {
        user_id: session.user_id.clone(),
        bot_token: session.bot_token.clone(),
        route_tag: text::copy_option(&session.route_tag),
        text: text.to_owned(),
    }
}

/// The cursor from which an account is polled in the background.
pub open spec fn background_start(
    cursors: Map<Seq<char>, Seq<char>>,
    session: SessionView,
) -> Option<Seq<char>> {
    cursor_or(cursors, session.user_id, text::unless_empty(session.updates_buf))
}

/// Gives the cursor from which an account is polled in the background.
pub fn background_cursor(cursors: &Cursors, session: &Session) -> (r: Option<String>)
    requires
        cursors.wf(),
    ensures
        r.deep_view() == background_start(cursors@, session@),
{
    choose_cursor(cursors, session.user_id.as_str(), text::non_empty(&session.updates_buf))
}

/// The account of a record.
pub open spec fn account_of(session: SessionView) -> AccountView {
    AccountView {
        user_id: session.user_id,
        bot_token: session.bot_token,
        route_tag: session.route_tag,
    }
}

/// Gives the account of a record.
pub fn session_account(session: &Session) -> (r: Account)
    ensures
        r@ == account_of(session@),
{
    Account {
        user_id: session.user_id.clone(),
        bot_token: session.bot_token.clone(),
        route_tag: text::copy_option(&session.route_tag),
    }
}

/// The tables after the context token of a message was saved, where it has one.
pub open spec fn token_noted(
    d: DbView,
    account: AccountView,
    msg: wechat::InboundMessageView,
) -> DbView {
    if msg.context_token.len() == 0 {
        d
    } else {
        d.save_context_token(
            account.user_id,
            account.bot_token,
            account.route_tag,
            msg.context_token,
        )
    }
}

/// The tables after the context tokens of messages were saved, one after the other.
pub open spec fn tokens_noted(
    d: DbView,
    account: AccountView,
    messages: Seq<wechat::InboundMessageView>,
) -> DbView
    decreases messages.len(),
{
    if messages.len() == 0 {
        d
    } else {
        token_noted(
            tokens_noted(d, account, messages.drop_last()),
            account,
            messages.last(),
        )
    }
}

/// The tables after a poll was taken in: the next cursor and the context tokens are
/// saved.
pub open spec fn poll_saved(d: DbView, account: AccountView, updates: UpdatesView) -> DbView {
    let start = match updates.get_updates_buf {
        Some(b) => d.save_updates_buf(account.user_id, b),
        None => d,
    };
    tokens_noted(start, account, updates.messages)
}

/// The tables after a message that came in at `now` was recorded, with the context
/// token that it brought.
pub open spec fn received(
    d: DbView,
    account: AccountView,
    msg: wechat::InboundMessageView,
    raw: Seq<char>,
    now: Seq<char>,
) -> DbView {
    let (content, kind) = wechat::msg_content(msg);
    token_noted(d, account, msg).insert_message(
        account.user_id,
        "receive"@,
        content,
        kind,
        raw,
        now,
    ).0
}

/// The tables after messages were recorded one after the other, each at its time.
pub open spec fn all_received(
    d: DbView,
    account: AccountView,
    messages: Seq<wechat::InboundMessageView>,
    raws: Seq<Seq<char>>,
    times: Seq<Seq<char>>,
) -> DbView
    decreases messages.len(),
{
    if messages.len() == 0 {
        d
    } else {
        let n = messages.len() - 1;
        received(
            all_received(d, account, messages.drop_last(), raws, times),
            account,
            messages[n],
            raws[n],
            times[n],
        )
    }
}

/// Records a message that came in at the given time.
pub fn receive_message(
    db: &mut Db,
    account: &Account,
    msg: &wechat::InboundMessage,
    raw: &str,
    now: &str,
)
    ensures
        final(db)@ == received(old(db)@, account@, msg@, raw@, now@),
{
    note_token(db, account, msg);
    let (content, kind) = wechat::extract_msg_content(msg);
    let _ = db::insert_message(
        db,
        account.user_id.as_str(),
        "receive",
        content.as_str(),
        kind.as_str(),
        raw,
        now,
    );
}

/// Saves the context token of a message, where it has one.
pub fn note_token(db: &mut Db, account: &Account, msg: &wechat::InboundMessage)
    ensures
        final(db)@ == token_noted(old(db)@, account@, msg@),
{
    if !msg.context_token.as_str().is_empty() {
        let _ = db::save_context_token(
            db,
            account.user_id.as_str(),
            account.bot_token.as_str(),
            tag_of(&account.route_tag),
            msg.context_token.as_str(),
        );
    }
}

/// What a poll in the background brought for an account was taken in: the next cursor was
/// kept, and every message was recorded, each at some time.
pub open spec fn updates_absorbed(
    before: DbView,
    after: DbView,
    cursors: Map<Seq<char>, Seq<char>>,
    after_cursors: Map<Seq<char>, Seq<char>>,
    account: AccountView,
    updates: UpdatesView,
    raws: Seq<Seq<char>>,
) -> bool {
    let kept = cursor_kept(before, cursors, account.user_id, updates.get_updates_buf);
    &&& after_cursors == kept.1
    &&& exists|times: Seq<Seq<char>>|
        times.len() == updates.messages.len() && after == #[trigger] all_received(
            kept.0,
            account,
            updates.messages,
            raws,
            times,
        )
}

/// Takes in what a poll in the background brought for an account: keeps the next
/// cursor, and records every message. `raws` holds the messages as they came over the
/// wire.
pub fn absorb_updates(
    db: &mut Db,
    cursors: &mut Cursors,
    account: &Account,
    updates: &Updates,
    raws: &Vec<String>,
)
    requires
        old(cursors).wf(),
        raws@.len() == updates.messages@.len(),
    ensures
        final(cursors).wf(),
        updates_absorbed(
            old(db)@,
            final(db)@,
            old(cursors)@,
            final(cursors)@,
            account@,
            updates@,
            raws.deep_view(),
        ),
{
    if let Some(b) = &updates.get_updates_buf {
        cursors.insert(account.user_id.clone(), b.clone());
        let _ = db::save_updates_buf(db, account.user_id.as_str(), b.as_str());
    }
    let ghost start = cursor_kept(
        old(db)@,
        old(cursors)@,
        account@.user_id,
        updates@.get_updates_buf,
    ).0;
    assert(db@ == start);
    let ghost messages = updates@.messages;
    let ghost lines = raws.deep_view();
    let ghost mut times: Seq<Seq<char>> = Seq::empty();
    let mut i: usize = 0;
    assert(messages.take(0) =~= Seq::empty());
    while i < updates.messages.len()
        invariant
            i <= updates.messages@.len(),
            raws@.len() == updates.messages@.len(),
            messages == updates@.messages,
            lines == raws.deep_view(),
            times.len() == i,
            db@ == all_received(start, account@, messages.take(i as int), lines, times),
        decreases updates.messages@.len() - i,
    {
        let now: String = outside::now_rfc3339();
        receive_message(db, account, &updates.messages[i], raws[i].as_str(), now.as_str());
        proof {
            let more = times.push(now@);
            lemma_times(start, account@, messages.take(i as int), lines, times, more);
            assert(messages.take(i + 1).drop_last() =~= messages.take(i as int));
            assert(messages.take(i + 1)[i as int] == updates.messages@[i as int]@);
            assert(lines[i as int] == raws@[i as int]@);
            times = more;
        }
        i = i + 1;
    }
    assert(messages.take(i as int) =~= messages);
}

/// Later times do not matter for the messages before them.
proof fn lemma_times(
    d: DbView,
    account: AccountView,
    messages: Seq<wechat::InboundMessageView>,
    raws: Seq<Seq<char>>,
    a: Seq<Seq<char>>,
    b: Seq<Seq<char>>,
)
    requires
        messages.len() <= a.len(),
        messages.len() <= b.len(),
        forall|i: int| 0 <= i < messages.len() ==> #[trigger] a[i] == b[i],
    ensures
        all_received(d, account, messages, raws, a) == all_received(d, account, messages, raws, b),
    decreases messages.len(),
{
    if messages.len() > 0 {
        lemma_times(d, account, messages.drop_last(), raws, a, b);
        assert(a[messages.len() - 1] == b[messages.len() - 1]);
    }
}

/// The locks under which accounts are polled: each account has a lock of its own, known
/// by its number.
#[derive(Debug)]
pub struct PollLocks {
    slots: Keyed<usize>,
}

impl View for PollLocks {
    type V = Map<Seq<char>, usize>;

    closed spec fn view(&self) -> Map<Seq<char>, usize> {
        self.slots@
    }
}

/// An account was given a lock: the one it has, or else the next one, which is its own from
/// then on.
pub open spec fn lock_given(
    slots: Map<Seq<char>, usize>,
    count: nat,
    user_id: Seq<char>,
    lock: usize,
    slots_after: Map<Seq<char>, usize>,
    count_after: nat,
) -> bool {
    if slots.contains_key(user_id) {
        lock == slots[user_id] && slots_after == slots && count_after == count
    } else {
        lock == count && slots_after == slots.insert(user_id, lock) && count_after == count + 1
    }
}

impl PollLocks {
    /// How many locks there are.
    pub closed spec fn count(&self) -> nat {
        self.slots.count()
    }

    /// Locks are numbered from zero, and no two accounts share one.
    pub closed spec fn wf(&self) -> bool {
        &&& self.slots.wf()
        &&& numbered(self.slots@, self.slots.count())
    }

    pub fn new() -> (r: PollLocks)
        ensures
            r.wf(),
            r@ == Map::<Seq<char>, usize>::empty(),
            r.count() == 0,
    {
        PollLocks { slots: Keyed::new() }
    }

    /// Gives the number of an account's lock; an account that has none gets the next
    /// one.
    pub fn get_poll_lock(&mut self, user_id: &str) -> (r: usize)
        requires
            old(self).wf(),
        ensures
            final(self).wf(),
            lock_given(
                old(self)@,
                old(self).count(),
                user_id@,
                r,
                final(self)@,
                final(self).count(),
            ),
    {
        match self.slots.get(user_id) {
            Some(slot) => *slot,
            None => {
                let slot: usize = self.slots.len();
                self.slots.insert(user_id.to_owned(), slot);
                slot
            },
        }
    }

    /// No two accounts share a lock, and every lock has a number below the count.
    pub proof fn locks_are_distinct(&self, a: Seq<char>, b: Seq<char>)
        requires
            self.wf(),
            self@.contains_key(a),
            self@.contains_key(b),
        ensures
            self@[a] == self@[b] ==> a == b,
            self@[a] < self.count(),
    {
    }
}

spec fn numbered(slots: Map<Seq<char>, usize>, count: nat) -> bool {
    &&& forall|a: Seq<char>| #[trigger] slots.contains_key(a) ==> slots[a] < count
    &&& forall|a: Seq<char>, b: Seq<char>| #[trigger]
        slots.contains_key(a) && #[trigger] slots.contains_key(b) && slots[a] == slots[b] ==> a == b
}

/// A text is recorded as sent exactly when it was sent: the record is the newest
/// message of the account then, and the messages are untouched otherwise, also by a
/// poll.
pub proof fn sent_texts_are_recorded(
    before: DbView,
    after: DbView,
    cursors: Map<Seq<char>, Seq<char>>,
    job: SendJobView,
    polled: bool,
    outcome: SendOutcomeView,
    step: SendStepView,
    updates: Result<UpdatesView, Seq<char>>,
)
    requires
        before.fault is None,
        before.last_message_id < i64::MAX,
        send_done(before, after, cursors, job, polled, outcome, step),
    ensures
        step == SendStepView::Done(DeliveryView::Sent) <==> outcome == SendOutcomeView::Sent,
        step == SendStepView::Done(DeliveryView::Sent) ==> ({
            let rows = after.newest_first(Some(job.user_id));
            &&& rows.drop_first() == before.newest_first(Some(job.user_id))
            &&& rows.len() > 0
            &&& rows[0].direction == "send"@
            &&& rows[0].content == job.text
            &&& rows[0].msg_type == "text"@
        }),
        step != SendStepView::Done(DeliveryView::Sent) ==> after == before,
        poll_step(before, cursors, job, updates).0.messages == before.messages,
{
    let other = job.user_id.push('x');
    assert(other.len() != job.user_id.len());
    if outcome == SendOutcomeView::Sent {
        let now = choose|now: Seq<char>|
            after == (#[trigger] before.insert_message(
                job.user_id,
                "send"@,
                job.text,
                "text"@,
                ""@,
                now,
            )).0;
        db_laws::saved_message_is_newest(
            before,
            job.user_id,
            "send"@,
            job.text,
            "text"@,
            ""@,
            now,
            other,
        );
        assert(after.newest_first(Some(job.user_id)).drop_first() =~= before.newest_first(
            Some(job.user_id),
        ));
    }
}

/// The token that a poll leads to is not empty, and is the one on record from then on:
/// the next text to the account begins with it. The next cursor is kept as well.
pub proof fn polled_token_is_used_again(
    d: DbView,
    cursors: Map<Seq<char>, Seq<char>>,
    job: SendJobView,
    polled: Result<UpdatesView, Seq<char>>,
    token: Seq<char>,
)
    requires
        d.fault is None,
        poll_step(d, cursors, job, polled).2 == (SendStepView::Send { token, polled: true }),
    ensures
        ({
            let (d2, c2, _) = poll_step(d, cursors, job, polled);
            &&& token.len() > 0
            &&& first_step(d2, c2, job.user_id) == (SendStepView::Send {
                token,
                polled: false,
            })
            &&& polled_token(polled, job.user_id).1 matches Some(b) ==> current_cursor(
                d2,
                c2,
                job.user_id,
            ) == Some(b)
        }),
{
    let (fresh, next) = polled_token(polled, job.user_id);
    if let Ok(u) = polled {
        wechat::picked_token_is_from_the_user(u.messages, job.user_id);
    }
    let d1 = match next {
        Some(b) => d.save_updates_buf(job.user_id, b),
        None => d,
    };
    let other = job.user_id.push('x');
    assert(other.len() != job.user_id.len());
    db_laws::saved_context_token_is_read_back(
        d1,
        job.user_id,
        job.bot_token,
        job.route_tag,
        token,
        other,
    );
}

/// How many steps may still come, at most.
pub open spec fn steps_left(step: SendStepView) -> int {
    match step {
        SendStepView::Send { polled: false, .. } => 3,
        SendStepView::Poll(_) => 2,
        SendStepView::Send { polled: true, .. } => 1,
        SendStepView::Done(_) => 0,
    }
}

/// Sending comes to an end: every step leaves fewer to come, so that there is one poll
/// at most and two attempts at most.
pub proof fn sending_comes_to_an_end(
    before: DbView,
    after: DbView,
    cursors: Map<Seq<char>, Seq<char>>,
    job: SendJobView,
    token: Seq<char>,
    polled: bool,
    outcome: SendOutcomeView,
    step: SendStepView,
    cursor: Option<Seq<char>>,
    updates: Result<UpdatesView, Seq<char>>,
)
    ensures
        steps_left(first_step(before, cursors, job.user_id)) <= 3,
        send_done(before, after, cursors, job, polled, outcome, step) ==> 0 <= steps_left(step)
            < steps_left(SendStepView::Send { token, polled }),
        0 <= steps_left(poll_step(before, cursors, job, updates).2) < steps_left(
            SendStepView::Poll(cursor),
        ),
{
}

/// Without a token from the poll or on record nothing is sent and nothing is saved.
pub proof fn without_a_token_nothing_is_saved(
    d: DbView,
    cursors: Map<Seq<char>, Seq<char>>,
    job: SendJobView,
    polled: Result<UpdatesView, Seq<char>>,
)
    requires
        polled_token(polled, job.user_id).0 is None,
        cached_token(d, job.user_id) is None,
    ensures
        poll_step(d, cursors, job, polled) == (
            d,
            cursors,
            SendStepView::Done(DeliveryView::NoToken),
        ),
{
}

/// Every message of a poll in the background is recorded, in order, for the account
/// that was polled, and none is lost or changed.
pub proof fn every_message_is_recorded(
    d: DbView,
    account: AccountView,
    messages: Seq<wechat::InboundMessageView>,
    raws: Seq<Seq<char>>,
    times: Seq<Seq<char>>,
)
    requires
        d.fault is None,
        0 <= d.last_message_id,
        d.last_message_id + messages.len() <= i64::MAX,
    ensures
        ({
            let after = all_received(d, account, messages, raws, times);
            &&& after.fault is None
            &&& after.last_message_id == d.last_message_id + messages.len()
            &&& after.messages == d.messages + Seq::new(
                messages.len(),
                |i: int|
                    MessageView {
                        id: d.last_message_id + 1 + i,
                        wechat_user_id: account.user_id,
                        direction: "receive"@,
                        content: wechat::msg_content(messages[i]).0,
                        msg_type: wechat::msg_content(messages[i]).1,
                        raw_json: raws[i],
                        created_at: times[i],
                    },
            )
        }),
    decreases messages.len(),
{
    if messages.len() > 0 {
        let front = messages.drop_last();
        every_message_is_recorded(d, account, front, raws, times);
        let n = messages.len() - 1;
        let mid = all_received(d, account, front, raws, times);
        let after = all_received(d, account, messages, raws, times);
        assert(token_noted(mid, account, messages[n]).messages == mid.messages);
        assert forall|i: int| 0 <= i < n implies front[i] == messages[i] by {}
        assert(after.messages =~= d.messages + Seq::new(
            messages.len(),
            |i: int|
                MessageView {
                    id: d.last_message_id + 1 + i,
                    wechat_user_id: account.user_id,
                    direction: "receive"@,
                    content: wechat::msg_content(messages[i]).0,
                    msg_type: wechat::msg_content(messages[i]).1,
                    raw_json: raws[i],
                    created_at: times[i],
                },
        ));
    } else {
        assert(all_received(d, account, messages, raws, times).messages =~= d.messages + Seq::new(
            0,
            |i: int| d.messages[i],
        ));
    }
}

} // verus!
