use vstd::prelude::*;

use crate::error::BotError;
use crate::text::same_text;

verus! {

/// An inbound market message, once its JSON has been decoded.
#[derive(Debug, PartialEq, Eq)]
pub enum Message {
    /// `[open, close, high, low]` in price units.
    Candles(Vec<i64>),
    /// Any other action: ignored.
    Unknown,
}

pub open spec fn candles_action() -> Seq<char> {
    "candles"@
}

impl Message {
    /// Builds a message from its `action` and, where the `message` field was an
    /// array of numbers, those numbers. A `candles` action without such an
    /// array is malformed.
    pub fn from_action(action: &str, values: Option<Vec<i64>>) -> (r: Result<Message, BotError>)
        ensures
            action@ != candles_action() ==> r == Ok::<Message, BotError>(Message::Unknown),
            action@ == candles_action() ==> match values {
                Some(v) => r matches Ok(Message::Candles(w)) && w@ == v@,
                None => r == Err::<Message, BotError>(BotError::MalformedUpdate),
            },
    {
        if same_text(action, "candles") {
            match values {
                Some(v) => Ok(Message::Candles(v)),
                None => Err(BotError::MalformedUpdate),
            }
        } else {
            Ok(Message::Unknown)
        }
    }
}

} // verus!
