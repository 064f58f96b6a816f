//! The interactive chat with one account.

use vstd::prelude::*;

use crate::db::{self, Db, DbView};
use crate::delivery;
use crate::wechat::{
    self, Account, AccountView, InboundMessage, InboundMessageItemView, InboundMessageView, PollError,
    PollErrorView, Updates, UpdatesView,
};
use crate::{db_laws, model, text};

verus! {

/// How often a text is tried.
pub const SEND_ATTEMPTS: u32 = 3;

/// How many failed polls in a row lead to a long pause.
pub const ERRORS_BEFORE_LONG_PAUSE: u32 = 3;

pub const LONG_PAUSE_SECS: u64 = 30;

pub const SHORT_PAUSE_SECS: u64 = 2;

/// What the chat remembers.
#[derive(Debug)]
pub struct ChatState {
    pub context_token: Option<String>,
    pub buf: Option<String>,
    /// How many polls have failed in a row.
    pub consecutive_errors: u32,
}

/// The plain value of a [`ChatState`].
#[verifier::ext_equal]
pub struct ChatStateView {
    pub context_token: Option<Seq<char>>,
    pub buf: Option<Seq<char>>,
    pub consecutive_errors: int,
}

impl View for ChatState {
    type V = ChatStateView;

    open spec fn view(&self) -> ChatStateView {
        ChatStateView {
            context_token: self.context_token.deep_view(),
            buf: self.buf.deep_view(),
            consecutive_errors: self.consecutive_errors as int,
        }
    }
}

impl ChatStateView {
    /// The count of failed polls stays below the one that leads to a long pause.
    pub open spec fn wf(self) -> bool {
        0 <= self.consecutive_errors < ERRORS_BEFORE_LONG_PAUSE
    }
}

/// A line for the user.
#[derive(Debug)]
pub enum Output {
    /// A line of the conversation.
    Chat(String),
    /// A line about the conversation.
    Notice(String),
}

/// The plain value of an [`Output`].
#[verifier::ext_equal]
pub enum OutputView {
    Chat(Seq<char>),
    Notice(Seq<char>),
}

impl View for Output {
    type V = OutputView;

    open spec fn view(&self) -> OutputView {
        match self {
            Output::Chat(x) => OutputView::Chat(x@),
            Output::Notice(x) => OutputView::Notice(x@),
        }
    }
}

impl DeepView for Output {
    type V = OutputView;

    open spec fn deep_view(&self) -> OutputView {
        self@
    }
}

/// What to do with a line that the user typed.
#[derive(Debug)]
pub enum LineAction {
    /// Nothing.
    Ignore,
    /// Tell the user that it cannot be sent.
    Refuse(String),
    /// Send it with this context token.
    Send { token: String, text: String },
}

/// The plain value of a [`LineAction`].
#[verifier::ext_equal]
pub enum LineActionView {
    Ignore,
    Refuse(Seq<char>),
    Send { token: Seq<char>, text: Seq<char> },
}

impl View for LineAction {
    type V = LineActionView;

    open spec fn view(&self) -> LineActionView {
        match self {
            LineAction::Ignore => LineActionView::Ignore,
            LineAction::Refuse(x) => LineActionView::Refuse(x@),
            LineAction::Send { token, text } => LineActionView::Send {
                token: token@,
                text: text@,
            },
        }
    }
}

impl DeepView for LineAction {
    type V = LineActionView;

    open spec fn deep_view(&self) -> LineActionView {
        self@
    }
}

/// How an attempt to send a line went.
#[derive(Debug)]
pub enum TryOutcome {
    /// The service took it.
    Sent,
    /// The service did not answer in time.
    Timeout(String),
    /// It failed for another reason.
    Failed(String),
}

/// The plain value of a [`TryOutcome`].
#[verifier::ext_equal]
pub enum TryOutcomeView {
    Sent,
    Timeout(Seq<char>),
    Failed(Seq<char>),
}

impl View for TryOutcome {
    type V = TryOutcomeView;

    open spec fn view(&self) -> TryOutcomeView {
        match self {
            TryOutcome::Sent => TryOutcomeView::Sent,
            TryOutcome::Timeout(x) => TryOutcomeView::Timeout(x@),
            TryOutcome::Failed(x) => TryOutcomeView::Failed(x@),
        }
    }
}

impl DeepView for TryOutcome {
    type V = TryOutcomeView;

    open spec fn deep_view(&self) -> TryOutcomeView {
        self@
    }
}

/// What follows an attempt to send a line.
#[derive(Debug)]
pub enum TryNext {
    /// Wait so many milliseconds, and try for the given time, counted from zero.
    Retry { attempt: u64, delay_millis: u64 },
    /// Tell the user how it went.
    Done(Output),
}

/// The plain value of a [`TryNext`].
#[verifier::ext_equal]
pub enum TryNextView {
    Retry { attempt: int, delay_millis: int },
    Done(OutputView),
}

impl View for TryNext {
    type V = TryNextView;

    open spec fn view(&self) -> TryNextView {
        match self {
            TryNext::Retry { attempt, delay_millis } => TryNextView::Retry {
                attempt: *attempt as int,
                delay_millis: *delay_millis as int,
            },
            TryNext::Done(x) => TryNextView::Done(x@),
        }
    }
}

impl DeepView for TryNext {
    type V = TryNextView;

    open spec fn deep_view(&self) -> TryNextView {
        self@
    }
}

/// What follows a failed poll.
#[derive(Debug)]
pub enum PollNext {
    /// The chat is over, for the given reason.
    Quit(String),
    /// Poll again at once.
    Again,
    /// Tell the user, wait so many seconds, and poll again.
    Pause { notice: String, secs: u64 },
}

/// The plain value of a [`PollNext`].
#[verifier::ext_equal]
pub enum PollNextView {
    Quit(Seq<char>),
    Again,
    Pause { notice: Seq<char>, secs: int },
}

impl View for PollNext {
    type V = PollNextView;

    open spec fn view(&self) -> PollNextView {
        match self {
            PollNext::Quit(x) => PollNextView::Quit(x@),
            PollNext::Again => PollNextView::Again,
            PollNext::Pause { notice, secs } => PollNextView::Pause {
                notice: notice@,
                secs: *secs as int,
            },
        }
    }
}

impl DeepView for PollNext {
    type V = PollNextView;

    open spec fn deep_view(&self) -> PollNextView {
        self@
    }
}

/// What the chat starts with: the token and the cursor on record.
pub open spec fn initial_state(d: DbView, user_id: Seq<char>) -> ChatStateView {
    ChatStateView {
        context_token: delivery::cached_token(d, user_id),
        buf: delivery::saved_cursor(d, user_id),
        consecutive_errors: 0,
    }
}

/// Starts a chat.
pub fn restore(db: &Db, user_id: &str) -> (r: ChatState)
    ensures
        r@ == initial_state(db@, user_id@),
        r@.wf(),
{
    ChatState {
        context_token: delivery::load_token(db, user_id),
        buf: delivery::load_cursor(db, user_id),
        consecutive_errors: 0,
    }
}

/// What is told at the start.
pub open spec fn start_notice(user_id: Seq<char>, restored: bool) -> Seq<Seq<char>> {
    if restored {
        seq!["restored session from database"@]
    } else {
        seq![
            "no saved session found; waiting for "@ + user_id
                + " to send a message to activate the bot..."@,
            "after activation, the session will be saved and you can restart without re-activation"@,
        ]
    }
}

/// Tells at the start whether there is a token on record.
pub fn start_lines(user_id: &str, restored: bool) -> (r: Vec<String>)
    ensures
        r.deep_view() == start_notice(user_id@, restored),
{
    let mut lines: Vec<String> = Vec::new();
    if restored {
        lines.push("restored session from database".to_owned());
    } else {
        lines.push(
            text::join3(
                "no saved session found; waiting for ",
                user_id,
                " to send a message to activate the bot...",
            ),
        );
        lines.push(
            "after activation, the session will be saved and you can restart without re-activation".to_owned(),
        );
    }
    assert(lines.deep_view() =~= start_notice(user_id@, restored));
    lines
}

// Sending.

/// What to do with a line: blank lines are ignored, and without a token nothing can be
/// sent.
pub open spec fn line_action(
    context_token: Option<Seq<char>>,
    user_id: Seq<char>,
    line: Seq<char>,
) -> LineActionView {
    let text = text::trimmed(line);
    if text.len() == 0 {
        LineActionView::Ignore
    } else {
        match context_token {
            Some(token) => LineActionView::Send { token, text },
            None => LineActionView::Refuse(
                "[system] no context token yet; wait for "@ + user_id
                    + " to send a message first"@,
            ),
        }
    }
}

/// Decides what to do with a line that the user typed.
pub fn on_line(state: &ChatState, user_id: &str, line: &str) -> (r: LineAction)
    ensures
        r@ == line_action(state@.context_token, user_id@, line@),
{
    let text: String = text::trim(line);
    if text.as_str().is_empty() {
        return LineAction::Ignore;
    }
    match &state.context_token {
        Some(token) => LineAction::Send { token: token.clone(), text },
        None => LineAction::Refuse(
            text::join3(
                "[system] no context token yet; wait for ",
                user_id,
                " to send a message first",
            ),
        ),
    }
}

/// How an attempt that failed counts.
pub open spec fn try_failure(timed_out: bool, text: Seq<char>) -> TryOutcomeView {
    if timed_out {
        TryOutcomeView::Timeout(text)
    } else {
        TryOutcomeView::Failed(text)
    }
}

/// Tells how an attempt that failed counts: running out of time is told apart.
pub fn try_error(timed_out: bool, text: String) -> (r: TryOutcome)
    ensures
        r@ == try_failure(timed_out, text@),
{
    if timed_out {
        TryOutcome::Timeout(text)
    } else {
        TryOutcome::Failed(text)
    }
}

/// The pause before an attempt, which doubles from one to the next.
pub open spec fn delay_before(attempt: int) -> int {
    (100 * vstd::arithmetic::power2::pow2(attempt as nat)) as int
}

/// What follows the attempt with the given number: a line that was sent is shown; an
/// attempt that timed out is repeated, up to the third; anything else is an error.
pub open spec fn try_next(attempt: int, text: Seq<char>, outcome: TryOutcomeView) -> TryNextView {
    match outcome {
        TryOutcomeView::Sent => TryNextView::Done(OutputView::Chat("[you] "@ + text)),
        TryOutcomeView::Timeout(e) => if attempt + 1 < SEND_ATTEMPTS {
            TryNextView::Retry { attempt: attempt + 1, delay_millis: delay_before(attempt + 1) }
        } else {
            TryNextView::Done(OutputView::Notice("[error] failed to send message: "@ + e))
        },
        TryOutcomeView::Failed(e) => TryNextView::Done(
            OutputView::Notice("[error] failed to send message: "@ + e),
        ),
    }
}

/// Goes on after an attempt to send a line.
pub fn after_try(attempt: u64, text: &str, outcome: TryOutcome) -> (r: TryNext)
    requires
        attempt < SEND_ATTEMPTS,
    ensures
        r@ == try_next(attempt as int, text@, outcome@),
{
    match outcome {
        TryOutcome::Sent => TryNext::Done(Output::Chat("[you] ".to_owned().concat(text))),
        TryOutcome::Timeout(e) => {
            if attempt + 1 < SEND_ATTEMPTS as u64 {
                proof {
                    vstd::arithmetic::power2::lemma2_to64();
                }
                let delay_millis: u64 = if attempt == 0 {
                    200
                } else {
                    400
                };
                TryNext::Retry { attempt: attempt + 1, delay_millis }
            } else {
                TryNext::Done(
                    Output::Notice(
                        "[error] failed to send message: ".to_owned().concat(e.as_str()),
                    ),
                )
            }
        },
        TryOutcome::Failed(e) => TryNext::Done(
            Output::Notice("[error] failed to send message: ".to_owned().concat(e.as_str())),
        ),
    }
}

// Receiving.

/// The notice of a new context token.
pub open spec fn activated() -> OutputView {
    OutputView::Notice("[system] session activated – context token saved to DB"@)
}

/// The lines for a message: a notice where it brings a context token, then a line for
/// each of its items.
pub open spec fn message_lines(msg: InboundMessageView) -> Seq<OutputView> {
    let notice = if msg.context_token.len() > 0 {
        seq![activated()]
    } else {
        Seq::empty()
    };
    notice + msg.item_list.map_values(
        |item: InboundMessageItemView| OutputView::Chat(wechat::item_line(item)),
    )
}

/// The lines for messages, one after the other.
pub open spec fn all_lines(messages: Seq<InboundMessageView>) -> Seq<OutputView>
    decreases messages.len(),
{
    if messages.len() == 0 {
        Seq::empty()
    } else {
        all_lines(messages.drop_last()) + message_lines(messages.last())
    }
}

pub open spec fn with_context_token() -> spec_fn(InboundMessageView) -> bool {
    |msg: InboundMessageView| msg.context_token.len() > 0
}

/// What the chat remembers after a poll: the newest token, the next cursor, and no
/// failures.
pub open spec fn state_after(state: ChatStateView, updates: UpdatesView) -> ChatStateView {
    ChatStateView {
        context_token: match model::last_where(updates.messages, with_context_token()) {
            Some(msg) => Some(msg.context_token),
            None => state.context_token,
        },
        buf: updates.get_updates_buf,
        consecutive_errors: 0,
    }
}

fn push_message_lines(out: &mut Vec<Output>, msg: &InboundMessage)
    ensures
        final(out).deep_view() == old(out).deep_view() + message_lines(msg@),
{
    let ghost before = old(out).deep_view();
    let ghost items = msg@.item_list;
    let ghost notice = if msg@.context_token.len() > 0 {
        seq![activated()]
    } else {
        Seq::empty()
    };
    if !msg.context_token.as_str().is_empty() {
        out.push(
            Output::Notice("[system] session activated – context token saved to DB".to_owned()),
        );
    }
    assert(out.deep_view() =~= before + notice);
    let ghost lined = |item: InboundMessageItemView| OutputView::Chat(wechat::item_line(item));
    let mut i: usize = 0;
    assert(items.take(0).map_values(lined) =~= Seq::empty());
    while i < msg.item_list.len()
        invariant
            i <= msg.item_list@.len(),
            items == msg@.item_list,
            lined == (|item: InboundMessageItemView| OutputView::Chat(wechat::item_line(item))),
            out.deep_view() == before + notice + items.take(i as int).map_values(lined),
        decreases msg.item_list@.len() - i,
    {
        let ghost so_far = out.deep_view();
        let line: Output = Output::Chat(wechat::inbound_line(&msg.item_list[i]));
        out.push(line);
        assert(out.deep_view() =~= so_far.push(line@));
        assert(items.take(i + 1).map_values(lined) =~= items.take(i as int).map_values(lined).push(
            line@,
        )) by {
            assert(items[i as int] == msg.item_list@[i as int]@);
        }
        assert(out.deep_view() =~= before + notice + items.take(i + 1).map_values(lined));
        i = i + 1;
    }
    assert(items.take(i as int) =~= items);
    assert(out.deep_view() =~= before + message_lines(msg@));
}

/// What a poll does to the tables and the chat, and what is printed.
pub open spec fn updates_taken(
    d: DbView,
    account: AccountView,
    state: ChatStateView,
    updates: UpdatesView,
) -> (DbView, ChatStateView, Seq<OutputView>) {
    (
        delivery::poll_saved(d, account, updates),
        state_after(state, updates),
        all_lines(updates.messages),
    )
}

/// Takes in what a poll brought, and gives the lines to print.
pub fn on_updates(db: &mut Db, account: &Account, state: &mut ChatState, updates: &Updates) -> (r:
    Vec<Output>)
    ensures
        (final(db)@, final(state)@, r.deep_view()) == updates_taken(
            old(db)@,
            account@,
            old(state)@,
            updates@,
        ),
        final(state)@.wf(),
{
    state.consecutive_errors = 0;
    state.buf = text::copy_option(&updates.get_updates_buf);
    if let Some(b) = &updates.get_updates_buf {
        let _ = db::save_updates_buf(db, account.user_id.as_str(), b.as_str());
    }
    let ghost start = db@;
    let ghost all = updates@.messages;
    let ghost p = with_context_token();
    let ghost first = state@.context_token;
    let mut out: Vec<Output> = Vec::new();
    let mut i: usize = 0;
    assert(all.take(0) =~= Seq::empty());
    assert(out.deep_view() =~= Seq::empty());
    while i < updates.messages.len()
        invariant
            i <= updates.messages@.len(),
            all == updates@.messages,
            p == with_context_token(),
            state@.buf == updates@.get_updates_buf,
            state@.consecutive_errors == 0,
            state@.context_token == match model::last_where(all.take(i as int), p) {
                Some(msg) => Some(msg.context_token),
                None => first,
            },
            db@ == delivery::tokens_noted(start, account@, all.take(i as int)),
            out.deep_view() == all_lines(all.take(i as int)),
        decreases updates.messages@.len() - i,
    {
        let msg: &InboundMessage = &updates.messages[i];
        assert(all.take(i + 1).drop_last() =~= all.take(i as int));
        assert(all.take(i + 1).last() == msg@);
        if !msg.context_token.as_str().is_empty() {
            state.context_token = Some(msg.context_token.clone());
        }
        delivery::note_token(db, account, msg);
        push_message_lines(&mut out, msg);
        i = i + 1;
    }
    assert(all.take(i as int) =~= all);
    out
}

/// What follows a failed poll, and how many have failed in a row then.
pub open spec fn poll_error_step(
    errors: int,
    user_id: Seq<char>,
    error: PollErrorView,
) -> (int, PollNextView) {
    match error {
        PollErrorView::SessionExpired(_) => (
            errors,
            PollNextView::Quit(
                "session expired for user `"@ + user_id + "`, re-run `wechat-cli login`"@,
            ),
        ),
        PollErrorView::Timeout(_) => (errors, PollNextView::Again),
        PollErrorView::Other(e) => {
            let count = errors + 1;
            let notice = "chat error ("@ + text::decimal_digits(count) + "): "@ + e;
            if count >= ERRORS_BEFORE_LONG_PAUSE {
                (0, PollNextView::Pause { notice, secs: LONG_PAUSE_SECS as int })
            } else {
                (count, PollNextView::Pause { notice, secs: SHORT_PAUSE_SECS as int })
            }
        },
    }
}

/// What the chat remembers after a failed poll, and what follows.
pub open spec fn state_after_error(
    state: ChatStateView,
    user_id: Seq<char>,
    error: PollErrorView,
) -> (ChatStateView, PollNextView) {
    let (errors, next) = poll_error_step(state.consecutive_errors, user_id, error);
    (ChatStateView { consecutive_errors: errors, ..state }, next)
}

/// Goes on after a failed poll.
pub fn on_poll_error(state: &mut ChatState, user_id: &str, error: PollError) -> (r: PollNext)
    requires
        old(state)@.wf(),
    ensures
        final(state)@.wf(),
        (final(state)@, r@) == state_after_error(old(state)@, user_id@, error@),
{
    match error {
        PollError::SessionExpired(_) => PollNext::Quit(
            text::join3("session expired for user `", user_id, "`, re-run `wechat-cli login`"),
        ),
        PollError::Timeout(_) => PollNext::Again,
        PollError::Other(e) => {
            let count: u32 = state.consecutive_errors + 1;
            let notice: String = "chat error (".to_owned().concat(
                text::decimal(count as u64).as_str(),
            ).concat("): ").concat(e.as_str());
            if count >= ERRORS_BEFORE_LONG_PAUSE {
                state.consecutive_errors = 0;
                PollNext::Pause { notice, secs: LONG_PAUSE_SECS }
            } else {
                state.consecutive_errors = count;
                PollNext::Pause { notice, secs: SHORT_PAUSE_SECS }
            }
        },
    }
}

/// The number of the attempt that follows attempts with the given outcomes, if there
/// is one.
pub open spec fn attempts_made(outcomes: Seq<TryOutcomeView>, text: Seq<char>) -> Option<int>
    decreases outcomes.len(),
{
    if outcomes.len() == 0 {
        Some(0)
    } else {
        match attempts_made(outcomes.drop_last(), text) {
            None => None,
            Some(attempt) => match try_next(attempt, text, outcomes.last()) {
                TryNextView::Retry { attempt: next, .. } => Some(next),
                TryNextView::Done(_) => None,
            },
        }
    }
}

/// A line is tried three times at most: there is a next attempt only after fewer than
/// three, all of which timed out.
pub proof fn lines_are_tried_three_times_at_most(outcomes: Seq<TryOutcomeView>, text: Seq<char>)
    ensures
        attempts_made(outcomes, text) matches Some(next) ==> next == outcomes.len()
            && outcomes.len() < SEND_ATTEMPTS && forall|i: int|
            0 <= i < outcomes.len() ==> (#[trigger] outcomes[i]) is Timeout,
    decreases outcomes.len(),
{
    if outcomes.len() > 0 {
        lines_are_tried_three_times_at_most(outcomes.drop_last(), text);
        if attempts_made(outcomes, text) is Some {
            assert forall|i: int| 0 <= i < outcomes.len() implies (
            #[trigger] outcomes[i]) is Timeout by {
                if i < outcomes.len() - 1 {
                    assert(outcomes.drop_last()[i] == outcomes[i]);
                }
            }
        }
    }
}

/// Each pause is twice as long as the one before, and the first one is 200
/// milliseconds.
pub proof fn pauses_double(attempt: int)
    requires
        attempt >= 1,
    ensures
        delay_before(1) == 200,
        delay_before(attempt + 1) == 2 * delay_before(attempt),
{
    vstd::arithmetic::power2::lemma2_to64();
    vstd::arithmetic::power2::lemma_pow2_unfold((attempt + 1) as nat);
}

/// Every third failure in a row leads to the long pause, and the count starts again.
pub proof fn third_failure_pauses_long(errors: int, user_id: Seq<char>, e: Seq<char>)
    requires
        0 <= errors < ERRORS_BEFORE_LONG_PAUSE,
    ensures
        ({
            let (count, next) = poll_error_step(errors, user_id, PollErrorView::Other(e));
            &&& errors == 2 <==> (next matches PollNextView::Pause { secs, .. } && secs
                == LONG_PAUSE_SECS)
            &&& count == (errors + 1) % 3
        }),
{
}

/// A chat that is started again after a poll that brought a token goes on with that
/// token, unless the storage failed.
pub proof fn restarted_chat_knows_the_token(
    d: DbView,
    account: AccountView,
    state: ChatStateView,
    updates: UpdatesView,
)
    requires
        d.fault is None,
        model::any_where(updates.messages, with_context_token()),
    ensures
        initial_state(delivery::poll_saved(d, account, updates), account.user_id).context_token
            == state_after(state, updates).context_token,
{
    let start = match updates.get_updates_buf {
        Some(b) => d.save_updates_buf(account.user_id, b),
        None => d,
    };
    lemma_last_token(start, account, updates.messages);
}

proof fn lemma_last_token(d: DbView, account: AccountView, messages: Seq<InboundMessageView>)
    requires
        d.fault is None,
    ensures
        delivery::tokens_noted(d, account, messages).fault is None,
        match model::last_where(messages, with_context_token()) {
            Some(msg) => delivery::cached_token(
                delivery::tokens_noted(d, account, messages),
                account.user_id,
            ) == Some(msg.context_token),
            None => !model::any_where(messages, with_context_token()),
        },
    decreases messages.len(),
{
    let p = with_context_token();
    if messages.len() > 0 {
        let front = messages.drop_last();
        let mid = delivery::tokens_noted(d, account, front);
        lemma_last_token(d, account, front);
        if messages.last().context_token.len() > 0 {
            let other = account.user_id.push('x');
            assert(other.len() != account.user_id.len());
            db_laws::saved_context_token_is_read_back(
                mid,
                account.user_id,
                account.bot_token,
                account.route_tag,
                messages.last().context_token,
                other,
            );
        } else if model::any_where(messages, p) {
            let i = choose|i: int| 0 <= i < messages.len() && p(#[trigger] messages[i]);
            assert(front[i] == messages[i]);
            assert(p(front[i]));
        }
    }
}

} // verus!
