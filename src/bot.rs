use vstd::prelude::*;

use crate::candlestick::{long_head, long_tail, trend_of, Candlestick, Trend};
use crate::error::BotError;
use crate::message::Message;
use crate::trade::{Direction, Trade};

verus! {

/// The trade that a candle calls for under a trend: a call at the close on an
/// up trend with a long tail, a put at the close on a down trend with a long
/// head, and nothing otherwise.
pub open spec fn trade_for(trend: Trend, c: Candlestick) -> Option<Trade> {
    match trend {
        Trend::Up => if long_tail(c) {
            Some(Trade { direction: Direction::Call, price: c.close })
        } else {
            None
        },
        Trend::Down => if long_head(c) {
            Some(Trade { direction: Direction::Put, price: c.close })
        } else {
            None
        },
        Trend::Unknown => None,
    }
}

/// The decision engine: the current trend and the log of every trade emitted.
pub struct Bot {
    trend: Trend,
    trades: Vec<Trade>,
}

/// What a `Bot` holds: its trend and its trade log.
pub struct BotState {
    pub trend: Trend,
    pub trades: Seq<Trade>,
}

impl View for Bot {
    type V = BotState;

    closed spec fn view(&self) -> BotState {
        BotState { trend: self.trend, trades: self.trades@ }
    }
}

/// The state after one candle: the trend is the candle's, and the trade that
/// this trend and candle call for, if any, is appended to the log.
pub open spec fn after_candle(s: BotState, c: Candlestick) -> BotState {
    let t = trend_of(c);
    BotState {
        trend: t,
        trades: match trade_for(t, c) {
            Some(tr) => s.trades.push(tr),
            None => s.trades,
        },
    }
}

impl Bot {
    /// A bot with no trend yet and an empty log.
    pub fn new() -> (r: Bot)
        ensures
            r@.trend == Trend::Unknown,
            r@.trades.len() == 0,
    {
        Bot { trend: Trend::Unknown, trades: Vec::new() }
    }

    pub fn trend(&self) -> (r: Trend)
        ensures
            r == self@.trend,
    {
        self.trend
    }

    /// Every trade emitted so far, oldest first.
    pub fn trades(&self) -> (r: &Vec<Trade>)
        ensures
            r@ == self@.trades,
    {
        &self.trades
    }

    /// Applies the trade rule to a candle under the current trend. The trade,
    /// if any, is logged and returned to be sent.
    pub fn execute_trades(&mut self, c: &Candlestick) -> (r: Option<Trade>)
        ensures
            r == trade_for(old(self)@.trend, *c),
            final(self)@.trend == old(self)@.trend,
            final(self)@.trades == match r {
                Some(t) => old(self)@.trades.push(t),
                None => old(self)@.trades,
            },
    {
        let r = match self.trend {
            Trend::Up => if c.has_long_tail() {
                Some(Trade::call(c.close))
            } else {
                None
            },
            Trend::Down => if c.has_long_head() {
                Some(Trade::put(c.close))
            } else {
                None
            },
            Trend::Unknown => None,
        };
        if let Some(t) = r {
            self.trades.push(t);
        }
        r
    }

    /// Takes in one candle: updates the trend from it and returns the trade
    /// to send, if the rule fires.
    pub fn handle_candle(&mut self, c: &Candlestick) -> (r: Option<Trade>)
        ensures
            r == trade_for(trend_of(*c), *c),
            final(self)@ == after_candle(old(self)@, *c),
    {
        self.trend = c.analyze_trend();
        self.execute_trades(c)
    }

    /// Takes in one inbound message. Candles drive one decision cycle; any
    /// other message leaves the bot as it was. A candle message with fewer than
    /// four values is malformed and also leaves the bot as it was.
    pub fn handle_message(&mut self, msg: &Message) -> (r: Result<Option<Trade>, BotError>)
        ensures
            match msg {
                Message::Candles(v) => if v@.len() < 4 {
                    r == Err::<Option<Trade>, BotError>(BotError::MalformedUpdate)
                        && final(self)@ == old(self)@
                } else {
                    let c = Candlestick { open: v@[0], close: v@[1], high: v@[2], low: v@[3] };
                    r == Ok::<Option<Trade>, BotError>(trade_for(trend_of(c), c))
                        && final(self)@ == after_candle(old(self)@, c)
                },
                Message::Unknown => r == Ok::<Option<Trade>, BotError>(None) && final(self)@
                    == old(self)@,
            },
    {
        match msg {
            Message::Candles(v) => {
                match Candlestick::from_candles(v.as_slice()) {
                    Ok(c) => Ok(self.handle_candle(&c)),
                    Err(e) => Err(e),
                }
            },
            Message::Unknown => Ok(None),
        }
    }
}

/// A candle that closes where it opened never produces a trade, whatever its
/// high and low.
pub proof fn lemma_flat_candle_no_trade(s: BotState, c: Candlestick)
    requires
        c.open == c.close,
    ensures
        trade_for(trend_of(c), c) is None,
        after_candle(s, c).trades == s.trades,
        after_candle(s, c).trend == Trend::Unknown,
{
}

/// Every candle adds at most one trade to the log, and a trade that is added
/// is priced at the candle's close and points the way of its trend.
pub proof fn lemma_one_trade_per_candle(s: BotState, c: Candlestick)
    ensures
        after_candle(s, c).trades.len() <= s.trades.len() + 1,
        after_candle(s, c).trades.subrange(0, s.trades.len() as int) == s.trades,
        trade_for(trend_of(c), c) matches Some(t) ==> t.price == c.close && (t.direction
            == Direction::Call <==> c.close > c.open),
{
    match trade_for(trend_of(c), c) {
        Some(t) => assert(s.trades.push(t).subrange(0, s.trades.len() as int) =~= s.trades),
        None => assert(s.trades.subrange(0, s.trades.len() as int) =~= s.trades),
    }
}

} // verus!
