use vstd::prelude::*;

use crate::error::BotError;

verus! {

/// Short-term direction of the price, as read from one candle.
#[derive(Debug, Clone, Copy, PartialEq, Eq, Structural)]
pub enum Trend {
    Up,
    Down,
    Unknown,
}

/// One open/close/high/low summary, in fixed-point price units.
#[derive(Debug, Clone, Copy, PartialEq, Eq, Structural)]
pub struct Candlestick {
    pub open: i64,
    pub close: i64,
    pub high: i64,
    pub low: i64,
}

/// The trend of a candle: up when it closed above its open, down when below.
pub open spec fn trend_of(c: Candlestick) -> Trend {
    if c.close > c.open {
        Trend::Up
    } else if c.close < c.open {
        Trend::Down
    } else {
        Trend::Unknown
    }
}

/// The lower wick (open to low) is longer than the upper wick (close to high).
pub open spec fn long_tail(c: Candlestick) -> bool {
    c.open - c.low > c.high - c.close
}

/// The upper wick (close to high) is longer than the lower wick (open to low).
pub open spec fn long_head(c: Candlestick) -> bool {
    c.high - c.close > c.open - c.low
}

/// The candle with the roles of (open, low) and (high, close) swapped.
pub open spec fn flip(c: Candlestick) -> Candlestick {
    Candlestick { open: c.high, close: c.low, high: c.open, low: c.close }
}

impl Candlestick {
    /// Reads a candle from `[open, close, high, low]`; further values are ignored.
    pub fn from_candles(candles: &[i64]) -> (r: Result<Candlestick, BotError>)
        ensures
            candles@.len() < 4 <==> r is Err,
            r is Err ==> r == Err::<Candlestick, BotError>(BotError::MalformedUpdate),
            r is Ok ==> r->Ok_0 == (Candlestick {
                open: candles@[0],
                close: candles@[1],
                high: candles@[2],
                low: candles@[3],
            }),
    {
        if candles.len() < 4 {
            return Err(BotError::MalformedUpdate);
        }
        Ok(Candlestick { open: candles[0], close: candles[1], high: candles[2], low: candles[3] })
    }

    pub fn analyze_trend(&self) -> (r: Trend)
        ensures
            r == trend_of(*self),
    {
        if self.close > self.open {
            Trend::Up
        } else if self.close < self.open {
            Trend::Down
        } else {
            Trend::Unknown
        }
    }

    pub fn has_long_tail(&self) -> (r: bool)
        ensures
            r == long_tail(*self),
    {
        (self.open as i128) - (self.low as i128) > (self.high as i128) - (self.close as i128)
    }

    pub fn has_long_head(&self) -> (r: bool)
        ensures
            r == long_head(*self),
    {
        (self.high as i128) - (self.close as i128) > (self.open as i128) - (self.low as i128)
    }
}

/// Classification follows the sign of `close - open`: up when positive, down
/// when negative, unknown when zero.
pub proof fn lemma_trend_by_sign(c: Candlestick)
    ensures
        c.close > c.open ==> trend_of(c) == Trend::Up,
        c.close < c.open ==> trend_of(c) == Trend::Down,
        c.close == c.open ==> trend_of(c) == Trend::Unknown,
{
}

/// A candle has a long tail exactly when its flipped candle has a long head.
pub proof fn lemma_tail_head_symmetry(c: Candlestick)
    ensures
        long_tail(c) == long_head(flip(c)),
        long_head(c) == long_tail(flip(c)),
{
}

/// A wick tie gives neither a long tail nor a long head, and the two never
/// hold together.
pub proof fn lemma_tail_head_exclusive(c: Candlestick)
    ensures
        !(long_tail(c) && long_head(c)),
        c.open - c.low == c.high - c.close ==> !long_tail(c) && !long_head(c),
{
}

} // verus!
