//! The indicators of a stored series, asked for by name.
use crate::error::{ChartError, ParameterFault};
use crate::models::stock_model::{stored, StockModel};
use crate::types::{closes, same_text, times, CustomQuote, IndicatorData};
use crate::utils::indicator_utils::{
    calculate_ema, calculate_macd, calculate_rsi, calculate_sma, calculate_volume, ema_values,
    follows, histogram_values, macd_values, rsi_values, signal_values, sma_values, volume_values,
};
use vstd::prelude::*;

verus! {

/// The indicators that can be asked for.
#[derive(Clone, Copy, Debug, PartialEq, Eq, Structural)]
pub enum IndicatorKind {
    Sma,
    Ema,
    Rsi,
    Macd,
    Volume,
}

impl IndicatorKind {
    /// The indicator that a name stands for.
    pub open spec fn named(name: Seq<char>) -> Option<IndicatorKind> {
        if name == "SMA"@ {
            Some(IndicatorKind::Sma)
        } else if name == "EMA"@ {
            Some(IndicatorKind::Ema)
        } else if name == "RSI"@ {
            Some(IndicatorKind::Rsi)
        } else if name == "MACD"@ {
            Some(IndicatorKind::Macd)
        } else if name == "VOLUME"@ {
            Some(IndicatorKind::Volume)
        } else {
            None
        }
    }

    /// Reads an indicator from its name.
    pub fn parse(name: &str) -> (r: Option<IndicatorKind>)
        ensures
            r == IndicatorKind::named(name@),
    {
        if same_text(name, "SMA") {
            Some(IndicatorKind::Sma)
        } else if same_text(name, "EMA") {
            Some(IndicatorKind::Ema)
        } else if same_text(name, "RSI") {
            Some(IndicatorKind::Rsi)
        } else if same_text(name, "MACD") {
            Some(IndicatorKind::Macd)
        } else if same_text(name, "VOLUME") {
            Some(IndicatorKind::Volume)
        } else {
            None
        }
    }
}

/// What is wrong with a request for an indicator, if anything.
///
/// SMA, EMA and RSI take one length and MACD three; volume takes none and
/// ignores what it is given. A simple moving average over a window of no
/// quotes has no mean to give and is refused. A zero length is taken for
/// every other indicator.
pub open spec fn request_fault(variant: Seq<char>, lengths: Seq<usize>) -> Option<ParameterFault> {
    match IndicatorKind::named(variant) {
        None => Some(ParameterFault::Variant),
        Some(IndicatorKind::Sma) => if lengths.len() != 1 {
            Some(ParameterFault::SmaLength)
        } else if lengths[0] == 0 {
            Some(ParameterFault::ZeroLength)
        } else {
            None
        },
        Some(IndicatorKind::Ema) => if lengths.len() != 1 {
            Some(ParameterFault::EmaLength)
        } else {
            None
        },
        Some(IndicatorKind::Rsi) => if lengths.len() != 1 {
            Some(ParameterFault::RsiLength)
        } else {
            None
        },
        Some(IndicatorKind::Macd) => if lengths.len() != 3 {
            Some(ParameterFault::MacdLengths)
        } else {
            None
        },
        Some(IndicatorKind::Volume) => None,
    }
}

/// The lines are those of the indicator over the quotes: one line for SMA,
/// EMA, RSI and volume, and for MACD the line, the signal line and the
/// histogram, in this order.
pub open spec fn lines_of(
    lines: Seq<Vec<IndicatorData>>,
    kind: IndicatorKind,
    quotes: Seq<CustomQuote>,
    lengths: Seq<usize>,
) -> bool {
    let at = times(quotes);
    let of = closes(quotes);
    match kind {
        IndicatorKind::Sma => lines.len() == 1 && follows(
            lines[0]@,
            at,
            sma_values(of, lengths[0] as int),
        ),
        IndicatorKind::Ema => lines.len() == 1 && follows(
            lines[0]@,
            at,
            ema_values(of, lengths[0] as int),
        ),
        IndicatorKind::Rsi => lines.len() == 1 && follows(
            lines[0]@,
            at.skip(lengths[0] as int),
            rsi_values(of, lengths[0] as int),
        ),
        IndicatorKind::Macd => lines.len() == 3 && follows(
            lines[0]@,
            at,
            macd_values(of, lengths[0] as int, lengths[1] as int),
        ) && follows(
            lines[1]@,
            at,
            signal_values(of, lengths[0] as int, lengths[1] as int, lengths[2] as int),
        ) && follows(
            lines[2]@,
            at,
            histogram_values(of, lengths[0] as int, lengths[1] as int, lengths[2] as int),
        ),
        IndicatorKind::Volume => lines.len() == 1 && follows(lines[0]@, at, volume_values(quotes)),
    }
}

/// The indicator `variant` of the series stored under `symbol` and
/// `timeframe`, with the lengths given.
///
/// Fails with `UnknownKey` where nothing is stored under them, and else
/// with `InvalidParameters` where the request is at fault; nothing is
/// computed then.
pub fn get_indicators(
    model: &StockModel,
    symbol: &str,
    timeframe: &str,
    variant: &str,
    lengths: Vec<usize>,
) -> (r: Result<Vec<Vec<IndicatorData>>, ChartError>)
    ensures
        match stored(model@, symbol@, timeframe@) {
            None => r == Err::<Vec<Vec<IndicatorData>>, ChartError>(ChartError::UnknownKey),
            Some(series) => match request_fault(variant@, lengths@) {
                Some(fault) => r == Err::<Vec<Vec<IndicatorData>>, ChartError>(
                    ChartError::InvalidParameters(fault),
                ),
                None => r matches Ok(lines) && lines_of(
                    lines@,
                    IndicatorKind::named(variant@)->Some_0,
                    series.quotes,
                    lengths@,
                ),
            },
        },
{
    let chart_data = match model.get_data(symbol, timeframe) {
        Some(quotes) => quotes,
        None => {
            return Err(ChartError::UnknownKey);
        },
    };
    let kind = match IndicatorKind::parse(variant) {
        Some(kind) => kind,
        None => {
            return Err(ChartError::InvalidParameters(ParameterFault::Variant));
        },
    };
    let mut lines: Vec<Vec<IndicatorData>> = Vec::new();
    match kind {
        IndicatorKind::Sma => {
            if lengths.len() != 1 {
                return Err(ChartError::InvalidParameters(ParameterFault::SmaLength));
            }
            if lengths[0] == 0 {
                return Err(ChartError::InvalidParameters(ParameterFault::ZeroLength));
            }
            lines.push(calculate_sma(chart_data.as_slice(), lengths[0]));
        },
        IndicatorKind::Ema => {
            if lengths.len() != 1 {
                return Err(ChartError::InvalidParameters(ParameterFault::EmaLength));
            }
            lines.push(calculate_ema(chart_data.as_slice(), lengths[0]));
        },
        IndicatorKind::Rsi => {
            if lengths.len() != 1 {
                return Err(ChartError::InvalidParameters(ParameterFault::RsiLength));
            }
            lines.push(calculate_rsi(chart_data.as_slice(), lengths[0]));
        },
        IndicatorKind::Macd => {
            if lengths.len() != 3 {
                return Err(ChartError::InvalidParameters(ParameterFault::MacdLengths));
            }
            let (macd_line, signal_line, macd_histogram) = calculate_macd(
                chart_data.as_slice(),
                lengths[0],
                lengths[1],
                lengths[2],
            );
            lines.push(macd_line);
            lines.push(signal_line);
            lines.push(macd_histogram);
        },
        IndicatorKind::Volume => {
            lines.push(calculate_volume(chart_data.as_slice()));
        },
    }
    Ok(lines)
}

} // verus!
