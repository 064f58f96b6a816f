//! Messages as the chat service delivers them.

use vstd::prelude::*;

use crate::{model, text};

verus! {

/// The kinds of items that a message may hold and that are understood.
pub const TEXT_ITEM: i64 = 1;

pub const IMAGE_ITEM: i64 = 2;

pub const FILE_ITEM: i64 = 4;

/// The text of an item.
#[derive(Debug)]
pub struct TextItem {
    pub text: String,
}

/// The plain value of a [`TextItem`].
#[verifier::ext_equal]
pub struct TextItemView {
    pub text: Seq<char>,
}

impl View for TextItem {
    type V = TextItemView;

    open spec fn view(&self) -> TextItemView {
        TextItemView {
            text: self.text@,
        }
    }
}

impl DeepView for TextItem {
    type V = TextItemView;

    open spec fn deep_view(&self) -> TextItemView {
        self@
    }
}

/// A part of a message.
#[derive(Debug)]
pub struct InboundMessageItem {
    pub item_type: i64,
    pub text_item: Option<TextItem>,
    pub body: Option<String>,
}

/// The plain value of an [`InboundMessageItem`].
#[verifier::ext_equal]
pub struct InboundMessageItemView {
    pub item_type: int,
    pub text_item: Option<TextItemView>,
    pub body: Option<Seq<char>>,
}

impl View for InboundMessageItem {
    type V = InboundMessageItemView;

    open spec fn view(&self) -> InboundMessageItemView {
        InboundMessageItemView {
            item_type: self.item_type as int,
            text_item: self.text_item.deep_view(),
            body: self.body.deep_view(),
        }
    }
}

impl DeepView for InboundMessageItem {
    type V = InboundMessageItemView;

    open spec fn deep_view(&self) -> InboundMessageItemView {
        self@
    }
}

/// A message from the chat service.
#[derive(Debug)]
pub struct InboundMessage {
    pub from_user_id: String,
    pub to_user_id: String,
    pub context_token: String,
    pub item_list: Vec<InboundMessageItem>,
}

/// The plain value of an [`InboundMessage`].
#[verifier::ext_equal]
pub struct InboundMessageView {
    pub from_user_id: Seq<char>,
    pub to_user_id: Seq<char>,
    pub context_token: Seq<char>,
    pub item_list: Seq<InboundMessageItemView>,
}

impl View for InboundMessage {
    type V = InboundMessageView;

    open spec fn view(&self) -> InboundMessageView {
        InboundMessageView {
            from_user_id: self.from_user_id@,
            to_user_id: self.to_user_id@,
            context_token: self.context_token@,
            item_list: self.item_list.deep_view(),
        }
    }
}

impl DeepView for InboundMessage {
    type V = InboundMessageView;

    open spec fn deep_view(&self) -> InboundMessageView {
        self@
    }
}

/// What a poll of the chat service brought: messages, and the cursor for the next
/// poll.
#[derive(Debug)]
pub struct Updates {
    pub get_updates_buf: Option<String>,
    pub messages: Vec<InboundMessage>,
}

/// The plain value of a [`Updates`].
#[verifier::ext_equal]
pub struct UpdatesView {
    pub get_updates_buf: Option<Seq<char>>,
    pub messages: Seq<InboundMessageView>,
}

impl View for Updates {
    type V = UpdatesView;

    open spec fn view(&self) -> UpdatesView {
        UpdatesView {
            get_updates_buf: self.get_updates_buf.deep_view(),
            messages: self.messages.deep_view(),
        }
    }
}

impl DeepView for Updates {
    type V = UpdatesView;

    open spec fn deep_view(&self) -> UpdatesView {
        self@
    }
}

/// An inbound message as it is shown to a caller of the webhook.
#[derive(Debug)]
pub struct InboundResponse {
    pub from_user_id: String,
    pub text: Option<String>,
    pub image: bool,
    pub file: bool,
    pub context_token: String,
}

/// The plain value of an [`InboundResponse`].
#[verifier::ext_equal]
pub struct InboundResponseView {
    pub from_user_id: Seq<char>,
    pub text: Option<Seq<char>>,
    pub image: bool,
    pub file: bool,
    pub context_token: Seq<char>,
}

impl View for InboundResponse {
    type V = InboundResponseView;

    open spec fn view(&self) -> InboundResponseView {
        InboundResponseView {
            from_user_id: self.from_user_id@,
            text: self.text.deep_view(),
            image: self.image,
            file: self.file,
            context_token: self.context_token@,
        }
    }
}

impl DeepView for InboundResponse {
    type V = InboundResponseView;

    open spec fn deep_view(&self) -> InboundResponseView {
        self@
    }
}

/// How an attempt to send went.
#[derive(Debug)]
pub enum SendOutcome {
    /// The service took the message.
    Sent,
    /// The service did not accept the context token; the text says so.
    InvalidToken(String),
    /// The attempt failed for another reason.
    Failed(String),
}

/// The plain value of a [`SendOutcome`].
#[verifier::ext_equal]
pub enum SendOutcomeView {
    Sent,
    InvalidToken(Seq<char>),
    Failed(Seq<char>),
}

impl View for SendOutcome {
    type V = SendOutcomeView;

    open spec fn view(&self) -> SendOutcomeView {
        match self {
            SendOutcome::Sent => SendOutcomeView::Sent,
            SendOutcome::InvalidToken(x) => SendOutcomeView::InvalidToken(x@),
            SendOutcome::Failed(x) => SendOutcomeView::Failed(x@),
        }
    }
}

impl DeepView for SendOutcome {
    type V = SendOutcomeView;

    open spec fn deep_view(&self) -> SendOutcomeView {
        self@
    }
}

/// Why a poll failed.
#[derive(Debug)]
pub enum PollError {
    /// The service has ended the session.
    SessionExpired(String),
    /// The service did not answer in time.
    Timeout(String),
    /// Any other reason.
    Other(String),
}

/// The plain value of a [`PollError`].
#[verifier::ext_equal]
pub enum PollErrorView {
    SessionExpired(Seq<char>),
    Timeout(Seq<char>),
    Other(Seq<char>),
}

impl View for PollError {
    type V = PollErrorView;

    open spec fn view(&self) -> PollErrorView {
        match self {
            PollError::SessionExpired(x) => PollErrorView::SessionExpired(x@),
            PollError::Timeout(x) => PollErrorView::Timeout(x@),
            PollError::Other(x) => PollErrorView::Other(x@),
        }
    }
}

impl DeepView for PollError {
    type V = PollErrorView;

    open spec fn deep_view(&self) -> PollErrorView {
        self@
    }
}

/// An account and how to reach it.
#[derive(Debug)]
pub struct Account {
    pub user_id: String,
    pub bot_token: String,
    pub route_tag: Option<String>,
}

/// The plain value of an [`Account`].
#[verifier::ext_equal]
pub struct AccountView {
    pub user_id: Seq<char>,
    pub bot_token: Seq<char>,
    pub route_tag: Option<Seq<char>>,
}

impl View for Account {
    type V = AccountView;

    open spec fn view(&self) -> AccountView {
        AccountView {
            user_id: self.user_id@,
            bot_token: self.bot_token@,
            route_tag: self.route_tag.deep_view(),
        }
    }
}

impl DeepView for Account {
    type V = AccountView;

    open spec fn deep_view(&self) -> AccountView {
        self@
    }
}

/// Why a poll failed.
pub open spec fn poll_failure(expired: bool, timed_out: bool, text: Seq<char>) -> PollErrorView {
    if expired {
        PollErrorView::SessionExpired(text)
    } else if timed_out {
        PollErrorView::Timeout(text)
    } else {
        PollErrorView::Other(text)
    }
}

/// Tells why a poll failed: the end of the session counts before running out of time.
pub fn poll_error(expired: bool, timed_out: bool, text: String) -> (r: PollError)
    ensures
        r@ == poll_failure(expired, timed_out, text@),
{
    if expired {
        PollError::SessionExpired(text)
    } else if timed_out {
        PollError::Timeout(text)
    } else {
        PollError::Other(text)
    }
}

/// How an attempt to send that failed counts.
pub open spec fn send_failure(invalid_token: bool, text: Seq<char>) -> SendOutcomeView {
    if invalid_token {
        SendOutcomeView::InvalidToken(text)
    } else {
        SendOutcomeView::Failed(text)
    }
}

/// Tells how an attempt to send that failed counts.
pub fn send_error(invalid_token: bool, text: String) -> (r: SendOutcome)
    ensures
        r@ == send_failure(invalid_token, text@),
{
    if invalid_token {
        SendOutcome::InvalidToken(text)
    } else {
        SendOutcome::Failed(text)
    }
}

/// The text of an item: its text part, or else its body.
pub open spec fn item_text(item: InboundMessageItemView) -> Option<Seq<char>> {
    match item.text_item {
        Some(t) => Some(t.text),
        None => item.body,
    }
}

pub open spec fn of_type(kind: int) -> spec_fn(InboundMessageItemView) -> bool {
    |item: InboundMessageItemView| item.item_type == kind
}

/// Whether an item is of a kind that is understood.
pub open spec fn understood() -> spec_fn(InboundMessageItemView) -> bool {
    |item: InboundMessageItemView|
        item.item_type == TEXT_ITEM || item.item_type == IMAGE_ITEM || item.item_type == FILE_ITEM
}

/// The content of a message and its kind: those of its first item that is
/// understood; the empty text where there is none.
pub open spec fn msg_content(msg: InboundMessageView) -> (Seq<char>, Seq<char>) {
    match model::first_where(msg.item_list, understood()) {
        Some(item) => if item.item_type == TEXT_ITEM {
            (text::text_or_empty(item_text(item)), "text"@)
        } else if item.item_type == IMAGE_ITEM {
            (Seq::empty(), "image"@)
        } else {
            (Seq::empty(), "file"@)
        },
        None => (Seq::empty(), "text"@),
    }
}

/// Whether a message carries a context token for conversations with a user.
pub open spec fn activates(user_id: Seq<char>) -> spec_fn(InboundMessageView) -> bool {
    |msg: InboundMessageView|
        msg.from_user_id == user_id && msg.context_token.len() > 0 && msg.to_user_id.len() > 0
}

/// The first context token for a user among some messages.
pub open spec fn first_context_token(messages: Seq<InboundMessageView>, user_id: Seq<char>) -> Option<
    Seq<char>,
> {
    match model::first_where(messages, activates(user_id)) {
        Some(msg) => Some(msg.context_token),
        None => None,
    }
}

/// A message as it is shown to a caller of the webhook: its last text, and whether it
/// holds an image or a file.
pub open spec fn inbound_response(msg: InboundMessageView) -> InboundResponseView {
    InboundResponseView {
        from_user_id: msg.from_user_id,
        text: match model::last_where(msg.item_list, of_type(TEXT_ITEM as int)) {
            Some(item) => Some(text::text_or_empty(item_text(item))),
            None => None,
        },
        image: model::any_where(msg.item_list, of_type(IMAGE_ITEM as int)),
        file: model::any_where(msg.item_list, of_type(FILE_ITEM as int)),
        context_token: msg.context_token,
    }
}

/// The line that is printed for an item.
pub open spec fn item_line(item: InboundMessageItemView) -> Seq<char> {
    if item.item_type == TEXT_ITEM {
        "[them] "@ + match item_text(item) {
            Some(t) => t,
            None => "[text]"@,
        }
    } else if item.item_type == IMAGE_ITEM {
        "[them] [image]"@
    } else if item.item_type == FILE_ITEM {
        "[them] [file]"@
    } else {
        "[them] [unknown type: "@ + text::signed_decimal(item.item_type) + "]"@
    }
}

fn text_of(item: &InboundMessageItem) -> (r: Option<String>)
    ensures
        r.deep_view() == item_text(item@),
{
    match &item.text_item {
        Some(t) => Some(t.text.clone()),
        None => text::copy_option(&item.body),
    }
}

/// Gives the content of a message and its kind.
pub fn extract_msg_content(msg: &InboundMessage) -> (r: (String, String))
    ensures
        (r.0@, r.1@) == msg_content(msg@),
{
    let ghost p = understood();
    let mut i: usize = 0;
    while i < msg.item_list.len()
        invariant
            i <= msg.item_list@.len(),
            p == understood(),
            forall|j: int| 0 <= j < i ==> !p(#[trigger] msg@.item_list[j]),
        decreases msg.item_list@.len() - i,
    {
        let kind: i64 = msg.item_list[i].item_type;
        assert(msg@.item_list[i as int] == msg.item_list@[i as int]@);
        if kind == TEXT_ITEM || kind == IMAGE_ITEM || kind == FILE_ITEM {
            proof {
                model::first_where_is(msg@.item_list, p, i as int);
            }
            if kind == TEXT_ITEM {
                return (text::or_empty(text_of(&msg.item_list[i])), "text".to_owned());
            }
            if kind == IMAGE_ITEM {
                return (String::new(), "image".to_owned());
            }
            return (String::new(), "file".to_owned());
        }
        i = i + 1;
    }
    proof {
        model::first_where_none(msg@.item_list, p);
    }
    (String::new(), "text".to_owned())
}

/// Gives the first context token for a user among some messages.
pub fn find_context_token(messages: &Vec<InboundMessage>, user_id: &str) -> (r: Option<String>)
    ensures
        r.deep_view() == first_context_token(messages.deep_view(), user_id@),
{
    let ghost p = activates(user_id@);
    let ghost rows = messages.deep_view();
    let mut i: usize = 0;
    while i < messages.len()
        invariant
            i <= messages@.len(),
            p == activates(user_id@),
            rows == messages.deep_view(),
            forall|j: int| 0 <= j < i ==> !p(#[trigger] rows[j]),
        decreases messages@.len() - i,
    {
        let msg: &InboundMessage = &messages[i];
        assert(rows[i as int] == msg@);
        if text::same(msg.from_user_id.as_str(), user_id) && !msg.context_token.as_str().is_empty()
            && !msg.to_user_id.as_str().is_empty() {
            proof {
                model::first_where_is(rows, p, i as int);
            }
            return Some(msg.context_token.clone());
        }
        i = i + 1;
    }
    proof {
        model::first_where_none(rows, p);
    }
    None
}

/// Gives what a caller of the webhook is shown of a message.
pub fn message_to_response(msg: &InboundMessage) -> (r: InboundResponse)
    ensures
        r@ == inbound_response(msg@),
{
    let mut found: Option<String> = None;
    let mut image: bool = false;
    let mut file: bool = false;
    let ghost items = msg@.item_list;
    let ghost p = of_type(TEXT_ITEM as int);
    let ghost is_image = of_type(IMAGE_ITEM as int);
    let ghost is_file = of_type(FILE_ITEM as int);
    let mut i: usize = 0;
    assert(items.take(0) =~= Seq::empty());
    while i < msg.item_list.len()
        invariant
            i <= msg.item_list@.len(),
            items == msg@.item_list,
            p == of_type(TEXT_ITEM as int),
            is_image == of_type(IMAGE_ITEM as int),
            is_file == of_type(FILE_ITEM as int),
            found.deep_view() == match model::last_where(items.take(i as int), p) {
                Some(item) => Some(text::text_or_empty(item_text(item))),
                None => None,
            },
            image == exists|j: int| 0 <= j < i && is_image(#[trigger] items[j]),
            file == exists|j: int| 0 <= j < i && is_file(#[trigger] items[j]),
        decreases msg.item_list@.len() - i,
    {
        let item: &InboundMessageItem = &msg.item_list[i];
        assert(items[i as int] == item@);
        assert(items.take(i + 1).drop_last() =~= items.take(i as int));
        assert(items.take(i + 1).last() == item@);
        if item.item_type == TEXT_ITEM {
            found = Some(text::or_empty(text_of(item)));
        } else if item.item_type == IMAGE_ITEM {
            assert(is_image(items[i as int]));
            image = true;
        } else if item.item_type == FILE_ITEM {
            assert(is_file(items[i as int]));
            file = true;
        }
        i = i + 1;
    }
    assert(items.take(i as int) =~= items);
    InboundResponse {
        from_user_id: msg.from_user_id.clone(),
        text: found,
        image,
        file,
        context_token: msg.context_token.clone(),
    }
}

/// Gives the line that is printed for an item.
pub fn inbound_line(item: &InboundMessageItem) -> (r: String)
    ensures
        r@ == item_line(item@),
{
    if item.item_type == TEXT_ITEM {
        match text_of(item) {
            Some(t) => "[them] ".to_owned().concat(t.as_str()),
            None => "[them] ".to_owned().concat("[text]"),
        }
    } else if item.item_type == IMAGE_ITEM {
        "[them] [image]".to_owned()
    } else if item.item_type == FILE_ITEM {
        "[them] [file]".to_owned()
    } else {
        text::join3("[them] [unknown type: ", text::decimal_signed(item.item_type).as_str(), "]")
    }
}

/// A context token that was picked is not empty and came with a message of the user.
pub proof fn picked_token_is_from_the_user(messages: Seq<InboundMessageView>, user_id: Seq<char>)
    ensures
        match first_context_token(messages, user_id) {
            Some(token) => token.len() > 0 && exists|i: int|
                0 <= i < messages.len() && (#[trigger] messages[i]).from_user_id == user_id
                    && messages[i].context_token == token,
            None => forall|i: int|
                0 <= i < messages.len() && (#[trigger] messages[i]).from_user_id == user_id
                    ==> messages[i].context_token.len() == 0 || messages[i].to_user_id.len() == 0,
        },
{
    model::first_where_finds(messages, activates(user_id));
    if first_context_token(messages, user_id) is None {
        assert forall|i: int|
            0 <= i < messages.len() && (#[trigger] messages[i]).from_user_id == user_id implies
            messages[i].context_token.len() == 0 || messages[i].to_user_id.len() == 0 by {
            assert(!activates(user_id)(messages[i]));
        }
    }
}

/// The content of a message that is not of kind text is empty.
pub proof fn only_texts_have_content(msg: InboundMessageView)
    ensures
        msg_content(msg).1 == "text"@ || msg_content(msg).1 == "image"@ || msg_content(msg).1
            == "file"@,
        msg_content(msg).1 != "text"@ ==> msg_content(msg).0.len() == 0,
{
}

} // verus!
