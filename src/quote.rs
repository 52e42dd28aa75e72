use vstd::prelude::*;

use crate::error::BotError;

verus! {

/// One parsed quote. Numbers are in price units; an absent value reads as zero.
#[derive(Debug, Clone, PartialEq, Eq)]
pub struct Quote {
    pub symbol: String,
    pub price: i64,
    pub volume: i64,
    pub change: i64,
    pub change_percent: i64,
}

pub open spec fn or_zero(v: Option<i64>) -> i64 {
    match v {
        Some(x) => x,
        None => 0,
    }
}

fn value_or_zero(v: Option<i64>) -> (r: i64)
    ensures
        r == or_zero(v),
{
    match v {
        Some(x) => x,
        None => 0,
    }
}

/// The four values of a quote envelope's `v` object: `lp`, `volume`, `ch`
/// and `chp`, each where it was present.
pub type QuoteValues = (Option<i64>, Option<i64>, Option<i64>, Option<i64>);

impl Quote {
    /// Builds a quote from the decoded fields of a quote envelope: the symbol
    /// (`n`) and, where the envelope has a `v` object, its values. An envelope
    /// without `n` or without `v` does not have the shape of a quote.
    pub fn from_fields(symbol: Option<String>, values: Option<QuoteValues>) -> (r: Result<
        Quote,
        BotError,
    >)
        ensures
            symbol is None || values is None <==> r is Err,
            r is Err ==> r == Err::<Quote, BotError>(BotError::ProtocolMismatch),
            r matches Ok(q) ==> {
                let (lp, volume, ch, chp) = values->Some_0;
                &&& q.symbol@ == symbol->Some_0@
                &&& q.price == or_zero(lp)
                &&& q.volume == or_zero(volume)
                &&& q.change == or_zero(ch)
                &&& q.change_percent == or_zero(chp)
            },
    {
        match (symbol, values) {
            (Some(s), Some((lp, volume, ch, chp))) => Ok(
                Quote {
                    symbol: s,
                    price: value_or_zero(lp),
                    volume: value_or_zero(volume),
                    change: value_or_zero(ch),
                    change_percent: value_or_zero(chp),
                },
            ),
            _ => Err(BotError::ProtocolMismatch),
        }
    }
}

} // verus!
