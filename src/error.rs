use vstd::prelude::*;

verus! {

/// The conditions that the library reports instead of panicking.
#[derive(Debug, Clone, Copy, PartialEq, Eq, Structural)]
pub enum BotError {
    /// A market update that lacks the numeric fields a candle needs.
    MalformedUpdate,
    /// A quote envelope without the keys that a quote needs.
    ProtocolMismatch,
    /// The symbol lookup returned no usable record.
    SymbolResolutionFailure,
}

} // verus!
