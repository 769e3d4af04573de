//! What the bot does with an incoming chat message.

use vstd::prelude::*;

use crate::text::same_text;

verus! {

/// The bot's answer to a message.
#[derive(Clone, Copy, Debug, PartialEq, Eq, Structural)]
pub enum Reply {
    /// The message comes from another chat than the configured one.
    Ignore,
    /// `/start`: tell how to ask for a note.
    Help,
    /// `/remind`: send a note.
    Remind,
    /// `/repeat`: send the repeat queue summary.
    Repeat,
    /// Anything else.
    Unknown,
}

/// The answer to `text` sent from `chat_id`, where only `allowed_chat` is served.
pub open spec fn reply_spec(chat_id: i64, allowed_chat: i64, text: Option<Seq<char>>) -> Reply {
    if chat_id != allowed_chat {
        Reply::Ignore
    } else if text == Some("/start"@) {
        Reply::Help
    } else if text == Some("/remind"@) {
        Reply::Remind
    } else if text == Some("/repeat"@) {
        Reply::Repeat
    } else {
        Reply::Unknown
    }
}

/// Decides the answer to a message.
pub fn reply_for(chat_id: i64, allowed_chat: i64, text: Option<&str>) -> (r: Reply)
    ensures
        r == reply_spec(
            chat_id,
            allowed_chat,
            match text {
                Some(t) => Some(t@),
                None => None,
            },
        ),
{
    if chat_id != allowed_chat {
        return Reply::Ignore;
    }
    match text {
        Some(t) => {
            if same_text(t, "/start") {
                Reply::Help
            } else if same_text(t, "/remind") {
                Reply::Remind
            } else if same_text(t, "/repeat") {
                Reply::Repeat
            } else {
                Reply::Unknown
            }
        },
        None => Reply::Unknown,
    }
}

impl Reply {
    /// The text the bot sends back itself, where it sends one.
    pub fn message(&self) -> (r: Option<&'static str>)
        ensures
            *self == Reply::Help ==> r == Some("/remind to remind the note"),
            *self == Reply::Unknown ==> r == Some("Command not found"),
            *self != Reply::Help && *self != Reply::Unknown ==> r is None,
    {
        match self {
            Reply::Help => Some("/remind to remind the note"),
            Reply::Unknown => Some("Command not found"),
            _ => None,
        }
    }
}

} // verus!
