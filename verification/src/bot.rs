//! The chat bot's answers to the commands its users send.
use vstd::prelude::*;
use crate::text::{signed_decimal, i64_to_decimal};

verus! {

/// The commands the bot understands.
#[derive(Clone, Copy, PartialEq, Eq, Structural, Debug)]
pub enum Command {
    /// Lists the commands.
    Help,
    /// Subscribes the chat to the notices.
    Subscribe,
    /// Unsubscribes the chat from the notices.
    Unsubscribe,
}

/// How a command changes the list of subscribers.
#[derive(Clone, Copy, PartialEq, Eq, Structural, Debug)]
pub enum SubscriptionChange {
    /// The list stays as it is.
    Unchanged,
    /// The chat is added to the list.
    AddUser,
    /// The chat is removed from the list.
    RemoveUser,
}

/// The answer to a command: the change to the subscribers, then the text to
/// send back; `None` stands for the list of commands with their descriptions.
pub struct ReplyPlan {
    pub change: SubscriptionChange,
    pub text: Option<String>,
}

/// The confirmation sent after a subscription.
pub open spec fn subscribed_text() -> Seq<char> {
    "Congratulations!\nYou're now subscribed to cgu notices notifications, I will send you the notice everytime CGU posts something on their website notice board."@
}

/// The confirmation sent after an unsubscription.
pub open spec fn unsubscribed_text() -> Seq<char> {
    "You've been unsubscribed from CGU notices notificaitons, I won't send you notices anymore.\nTo subscribe again just send /subscribe"@
}

/// How the bot answers `cmd`: help lists the commands; subscribe adds the
/// chat and confirms it; unsubscribe removes the chat and confirms it.
pub fn plan_reply(cmd: Command) -> (r: ReplyPlan)
    ensures
        cmd == Command::Help ==> r.change == SubscriptionChange::Unchanged && r.text is None,
        cmd == Command::Subscribe ==> r.change == SubscriptionChange::AddUser && r.text is Some
            && r.text->0@ == subscribed_text(),
        cmd == Command::Unsubscribe ==> r.change == SubscriptionChange::RemoveUser && r.text is Some
            && r.text->0@ == unsubscribed_text(),
{
    match cmd {
        Command::Help => ReplyPlan { change: SubscriptionChange::Unchanged, text: None },
        Command::Subscribe => ReplyPlan {
            change: SubscriptionChange::AddUser,
            text: Some(
                String::from_str(
                    "Congratulations!\nYou're now subscribed to cgu notices notifications, I will send you the notice everytime CGU posts something on their website notice board.",
                ),
            ),
        },
        Command::Unsubscribe => ReplyPlan {
            change: SubscriptionChange::RemoveUser,
            text: Some(
                String::from_str(
                    "You've been unsubscribed from CGU notices notificaitons, I won't send you notices anymore.\nTo subscribe again just send /subscribe",
                ),
            ),
        },
    }
}

/// The text by which a chat is listed among the subscribers: its id in
/// decimal.
pub fn chat_id_text(chat_id: i64) -> (r: String)
    ensures
        r@ == signed_decimal(chat_id as int),
{
    i64_to_decimal(chat_id)
}

} // verus!
