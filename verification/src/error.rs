//! The ways in which an operation of the cache can fail.
use vstd::prelude::*;
use vstd::string::StringExecFns;

verus! {

/// What is wrong with the parameters of a request.
#[derive(Clone, Copy, Debug, PartialEq, Eq, Structural)]
pub enum ParameterFault {
    /// SMA was asked for with a number of lengths other than one.
    SmaLength,
    /// EMA was asked for with a number of lengths other than one.
    EmaLength,
    /// RSI was asked for with a number of lengths other than one.
    RsiLength,
    /// MACD was asked for with a number of lengths other than three.
    MacdLengths,
    /// The name is that of no indicator.
    Variant,
    /// The name is that of no timeframe.
    Timeframe,
    /// A simple moving average was asked for over a window of no quotes.
    ZeroLength,
    /// The name is that of no strategy.
    Strategy,
    /// A strategy was asked for with a number of lengths other than three.
    StrategyLengths,
}

/// Why a request failed. Nothing is retried: each failure goes back to the
/// caller, who decides.
#[derive(Debug, PartialEq, Eq)]
pub enum ChartError {
    /// The provider could not be reached or answered with an error.
    Network(String),
    /// The fetch took longer than its budget.
    Timeout,
    /// The provider returned fewer rows than the minimum.
    InsufficientData,
    /// Nothing is registered under the symbol and timeframe.
    UnknownKey,
    /// The request names no indicator, strategy or timeframe, or gives the
    /// wrong lengths.
    InvalidParameters(ParameterFault),
    /// The shared state could not be locked.
    LockFailure,
}

impl ParameterFault {
    /// The text of the fault.
    pub open spec fn text(self) -> Seq<char> {
        match self {
            ParameterFault::SmaLength => "SMA requires exactly one length"@,
            ParameterFault::EmaLength => "EMA requires exactly one length"@,
            ParameterFault::RsiLength => "RSI requires exactly one length"@,
            ParameterFault::MacdLengths => "MACD requires exactly three lengths"@,
            ParameterFault::Variant => "Invalid indicator variant"@,
            ParameterFault::Timeframe => "Invalid timeframe"@,
            ParameterFault::ZeroLength => "SMA requires a positive length"@,
            ParameterFault::Strategy => "Invalid strategy"@,
            ParameterFault::StrategyLengths => "A strategy requires exactly three lengths"@,
        }
    }

    /// The text of the fault.
    pub fn message(self) -> (r: &'static str)
        ensures
            r@ == self.text(),
    {
        match self {
            ParameterFault::SmaLength => "SMA requires exactly one length",
            ParameterFault::EmaLength => "EMA requires exactly one length",
            ParameterFault::RsiLength => "RSI requires exactly one length",
            ParameterFault::MacdLengths => "MACD requires exactly three lengths",
            ParameterFault::Variant => "Invalid indicator variant",
            ParameterFault::Timeframe => "Invalid timeframe",
            ParameterFault::ZeroLength => "SMA requires a positive length",
            ParameterFault::Strategy => "Invalid strategy",
            ParameterFault::StrategyLengths => "A strategy requires exactly three lengths",
        }
    }
}

impl ChartError {
    /// The text of the error.
    pub open spec fn text(self) -> Seq<char> {
        match self {
            ChartError::Network(reason) => reason@,
            ChartError::Timeout => "Request timed out"@,
            ChartError::InsufficientData => "Insufficient data fetched from backend"@,
            ChartError::UnknownKey => "Stock data not found for the given key"@,
            ChartError::InvalidParameters(fault) => fault.text(),
            ChartError::LockFailure => "Failed to acquire lock on STOCK_DATA"@,
        }
    }

    /// The text of the error, as the caller is shown it.
    pub fn message(&self) -> (r: String)
        ensures
            r@ == self.text(),
    {
        match self {
            ChartError::Network(reason) => reason.clone(),
            ChartError::Timeout => String::from_str("Request timed out"),
            ChartError::InsufficientData => String::from_str(
                "Insufficient data fetched from backend",
            ),
            ChartError::UnknownKey => String::from_str("Stock data not found for the given key"),
            ChartError::InvalidParameters(fault) => String::from_str(fault.message()),
            ChartError::LockFailure => String::from_str("Failed to acquire lock on STOCK_DATA"),
        }
    }
}

} // verus!
