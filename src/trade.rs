use vstd::prelude::*;

use crate::decimal::{price_text, push_price};

verus! {

/// The side of a trade signal.
#[derive(Debug, Clone, Copy, PartialEq, Eq, Structural)]
pub enum Direction {
    Call,
    Put,
}

pub open spec fn direction_text(d: Direction) -> Seq<char> {
    match d {
        Direction::Call => "call"@,
        Direction::Put => "put"@,
    }
}

/// A directional trade signal at a price, in price units.
#[derive(Debug, Clone, Copy, PartialEq, Eq, Structural)]
pub struct Trade {
    pub direction: Direction,
    pub price: i64,
}

/// The outbound trade message:
/// `{"action":"trade","direction":"call"|"put","price":<number>}`.
pub open spec fn trade_json(t: Trade) -> Seq<char> {
    "{\"action\":\"trade\",\"direction\":\""@ + direction_text(t.direction) + "\",\"price\":"@
        + price_text(t.price as int) + "}"@
}

impl Direction {
    pub fn as_str(&self) -> (r: &'static str)
        ensures
            r@ == direction_text(*self),
    {
        match self {
            Direction::Call => "call",
            Direction::Put => "put",
        }
    }
}

impl Trade {
    pub fn call(price: i64) -> (r: Trade)
        ensures
            r == (Trade { direction: Direction::Call, price }),
    {
        Trade { direction: Direction::Call, price }
    }

    pub fn put(price: i64) -> (r: Trade)
        ensures
            r == (Trade { direction: Direction::Put, price }),
    {
        Trade { direction: Direction::Put, price }
    }

    /// The message that announces this trade to the trading server.
    pub fn to_json(&self) -> (r: String)
        ensures
            r@ == trade_json(*self),
    {
        let mut s = String::from_str("{\"action\":\"trade\",\"direction\":\"");
        s.append(self.direction.as_str());
        s.append("\",\"price\":");
        push_price(&mut s, self.price);
        s.append("}");
        assert(s@ =~= trade_json(*self));
        s
    }
}

} // verus!
