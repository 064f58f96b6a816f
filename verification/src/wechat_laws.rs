//! How every message of the chat service is read.

use vstd::prelude::*;

use crate::wechat::{
    self, InboundMessageItemView, InboundMessageView, PollErrorView, SendOutcomeView,
};
use crate::{model, text};

verus! {

/// The `i`-th message is the first from the user that has both a context token and an
/// addressee.
pub open spec fn brings_token(
    messages: Seq<InboundMessageView>,
    user_id: Seq<char>,
    i: int,
) -> bool {
    &&& 0 <= i < messages.len()
    &&& messages[i].from_user_id == user_id
    &&& messages[i].context_token.len() > 0
    &&& messages[i].to_user_id.len() > 0
    &&& forall|j: int|
        0 <= j < i && (#[trigger] messages[j]).from_user_id == user_id
            ==> messages[j].context_token.len() == 0 || messages[j].to_user_id.len() == 0
}

/// No message from the user has both a context token and an addressee.
pub open spec fn brings_no_token(messages: Seq<InboundMessageView>, user_id: Seq<char>) -> bool {
    forall|j: int|
        0 <= j < messages.len() && (#[trigger] messages[j]).from_user_id == user_id
            ==> messages[j].context_token.len() == 0 || messages[j].to_user_id.len() == 0
}

/// The token that is picked is that of the first message from the user that has one and an
/// addressee, and none is picked where there is no such message.
pub proof fn the_first_token_is_picked(
    messages: Seq<InboundMessageView>,
    user_id: Seq<char>,
    i: int,
)
    ensures
        brings_token(messages, user_id, i) ==> wechat::first_context_token(messages, user_id)
            == Some(messages[i].context_token),
        brings_no_token(messages, user_id) ==> wechat::first_context_token(messages, user_id)
            is None,
{
    let p = wechat::activates(user_id);
    if brings_token(messages, user_id, i) {
        assert forall|j: int| 0 <= j < i implies !p(#[trigger] messages[j]) by {
            assert(messages[j].from_user_id == user_id ==> messages[j].context_token.len() == 0
                || messages[j].to_user_id.len() == 0);
        }
        model::first_where_is(messages, p, i);
    }
    if brings_no_token(messages, user_id) {
        assert forall|j: int| 0 <= j < messages.len() implies !p(#[trigger] messages[j]) by {
            assert(messages[j].from_user_id == user_id ==> messages[j].context_token.len() == 0
                || messages[j].to_user_id.len() == 0);
        }
        model::first_where_none(messages, p);
    }
}

/// The item's kind is text, image or file.
pub open spec fn known_kind(item: InboundMessageItemView) -> bool {
    item.item_type == 1 || item.item_type == 2 || item.item_type == 4
}

/// A message is recorded by its first item of a known kind: a text with its text part, or
/// else its body; an image and a file without content. Without such an item it is an empty
/// text.
pub proof fn the_first_known_item_is_the_content(msg: InboundMessageView, i: int)
    requires
        0 <= i <= msg.item_list.len(),
        forall|j: int| 0 <= j < i ==> !known_kind(#[trigger] msg.item_list[j]),
        i < msg.item_list.len() ==> known_kind(msg.item_list[i]),
    ensures
        ({
            let (content, kind) = wechat::msg_content(msg);
            let item = msg.item_list[i];
            &&& i == msg.item_list.len() ==> content.len() == 0 && kind == "text"@
            &&& i < msg.item_list.len() && item.item_type == 1 ==> kind == "text"@
            &&& i < msg.item_list.len() && item.item_type == 2 ==> kind == "image"@
                && content.len() == 0
            &&& i < msg.item_list.len() && item.item_type == 4 ==> kind == "file"@
                && content.len() == 0
            &&& i < msg.item_list.len() && item.item_type == 1 ==> match (
                item.text_item,
                item.body,
            ) {
                (Some(t), _) => content == t.text,
                (None, Some(b)) => content == b,
                (None, None) => content.len() == 0,
            }
        }),
{
    let p = wechat::understood();
    assert forall|j: int| 0 <= j < i implies !p(#[trigger] msg.item_list[j]) by {
        assert(!known_kind(msg.item_list[j]));
    }
    if i < msg.item_list.len() {
        model::first_where_is(msg.item_list, p, i);
    } else {
        model::first_where_none(msg.item_list, p);
    }
}

/// A caller of the webhook is shown who sent a message and with which context token, the
/// text of its last text item, if it has one, and whether any item is an image or a file.
pub proof fn shown_messages_match_their_items(msg: InboundMessageView, i: int)
    ensures
        ({
            let shown = wechat::inbound_response(msg);
            let item = msg.item_list[i];
            &&& shown.from_user_id == msg.from_user_id
            &&& shown.context_token == msg.context_token
            &&& shown.image <==> exists|j: int|
                0 <= j < msg.item_list.len() && (#[trigger] msg.item_list[j]).item_type == 2
            &&& shown.file <==> exists|j: int|
                0 <= j < msg.item_list.len() && (#[trigger] msg.item_list[j]).item_type == 4
            &&& shown.text is Some <==> exists|j: int|
                0 <= j < msg.item_list.len() && (#[trigger] msg.item_list[j]).item_type == 1
            &&& 0 <= i < msg.item_list.len() && item.item_type == 1 && (forall|j: int|
                i < j < msg.item_list.len() ==> (#[trigger] msg.item_list[j]).item_type != 1)
                ==> shown.text == Some(
                match (item.text_item, item.body) {
                    (Some(t), _) => t.text,
                    (None, Some(b)) => b,
                    (None, None) => Seq::empty(),
                },
            )
        }),
{
    let items = msg.item_list;
    let p = wechat::of_type(1);
    let q = wechat::of_type(2);
    let r = wechat::of_type(4);
    model::last_where_finds(items, p);
    let shown = wechat::inbound_response(msg);
    assert(shown.image == model::any_where(items, q));
    assert(shown.file == model::any_where(items, r));
    if exists|j: int| 0 <= j < items.len() && (#[trigger] items[j]).item_type == 2 {
        let j = choose|j: int| 0 <= j < items.len() && (#[trigger] items[j]).item_type == 2;
        assert(q(items[j]));
    }
    if exists|j: int| 0 <= j < items.len() && (#[trigger] items[j]).item_type == 4 {
        let j = choose|j: int| 0 <= j < items.len() && (#[trigger] items[j]).item_type == 4;
        assert(r(items[j]));
    }
    if exists|j: int| 0 <= j < items.len() && (#[trigger] items[j]).item_type == 1 {
        let j = choose|j: int| 0 <= j < items.len() && (#[trigger] items[j]).item_type == 1;
        assert(p(items[j]));
    }
    if shown.text is Some {
        let x = model::last_where(items, p)->0;
        let k = choose|k: int|
            0 <= k < items.len() && #[trigger] items[k] == x && p(x) && forall|j: int|
                k < j < items.len() ==> !p(#[trigger] items[j]);
        assert(items[k].item_type == 1);
        if 0 <= i < items.len() && items[i].item_type == 1 && (forall|j: int|
            i < j < items.len() ==> (#[trigger] items[j]).item_type != 1) {
            if i < k {
                assert(items[k].item_type != 1);
            } else if k < i {
                assert(!p(items[i]));
            }
        }
    }
}

/// The line for an item starts with who speaks. A text is shown as it is; every other item
/// by its kind.
pub proof fn printed_lines_show_the_items(item: InboundMessageItemView)
    ensures
        item.item_type == 1 ==> wechat::item_line(item) == "[them] "@ + match (
            item.text_item,
            item.body,
        ) {
            (Some(t), _) => t.text,
            (None, Some(b)) => b,
            (None, None) => "[text]"@,
        },
        item.item_type == 2 ==> wechat::item_line(item) == "[them] [image]"@,
        item.item_type == 4 ==> wechat::item_line(item) == "[them] [file]"@,
        !known_kind(item) ==> wechat::item_line(item) == "[them] [unknown type: "@
            + text::signed_decimal(item.item_type) + "]"@,
{
}

/// The end of the session is told apart from running out of time even where both hold, and
/// each failure keeps its text.
pub proof fn poll_failures_are_told_apart(expired: bool, timed_out: bool, text: Seq<char>)
    ensures
        expired <==> wechat::poll_failure(expired, timed_out, text)
            == PollErrorView::SessionExpired(text),
        !expired && timed_out <==> wechat::poll_failure(expired, timed_out, text)
            == PollErrorView::Timeout(text),
        !expired && !timed_out <==> wechat::poll_failure(expired, timed_out, text)
            == PollErrorView::Other(text),
{
}

/// A refused context token is told apart from every other failure to send, and each keeps
/// its text.
pub proof fn send_failures_are_told_apart(invalid_token: bool, text: Seq<char>)
    ensures
        invalid_token <==> wechat::send_failure(invalid_token, text)
            == SendOutcomeView::InvalidToken(text),
        !invalid_token <==> wechat::send_failure(invalid_token, text) == SendOutcomeView::Failed(
            text,
        ),
{
}

} // verus!
