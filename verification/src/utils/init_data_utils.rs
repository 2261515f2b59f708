//! The first population of the cache.
use crate::error::{ChartError, ParameterFault};
use crate::models::series::merged;
use crate::models::stock_data::SeriesView;
use crate::models::stock_model::{
    distinct_symbols, lemma_put_series, lemma_put_series_twice, registered, replaced, stored,
    StockModel, SymbolView,
};
use crate::types::{CustomQuote, Timeframe};
use crate::utils::calendar::{current_time, date_label, label_of};
use crate::utils::fetch_stock_utils::{chart_address, chart_url};
use vstd::prelude::*;

verus! {

/// `instant - span`, or the earliest instant there is where that cannot be
/// written.
pub open spec fn earlier(instant: int, span: int) -> int {
    if instant - span < i64::MIN {
        i64::MIN as int
    } else {
        instant - span
    }
}

/// `instant - span`, or the earliest instant there is.
pub fn move_back(instant: i64, span: i64) -> (r: i64)
    requires
        0 <= span,
    ensures
        r == earlier(instant as int, span as int),
{
    if instant < i64::MIN + span {
        i64::MIN
    } else {
        instant - span
    }
}

/// The address to fetch for the first population of a series at instant
/// `now`: the provider's rows of the look-back of the timeframe.
pub fn fetch_initial_data_at(symbol: &str, timeframe: &str, now: i64) -> (r: Result<
    String,
    ChartError,
>)
    ensures
        match Timeframe::named(timeframe@) {
            Some(tf) => r matches Ok(url) && url@ == chart_address(
                symbol@,
                timeframe@,
                date_label(earlier(now as int, tf.lookback())),
                date_label(now as int),
            ),
            None => r == Err::<String, ChartError>(
                ChartError::InvalidParameters(ParameterFault::Timeframe),
            ),
        },
{
    match Timeframe::parse(timeframe) {
        Some(tf) => {
            let from = label_of(move_back(now, tf.lookback_ms()));
            let to = label_of(now);
            Ok(chart_url(symbol, timeframe, from.as_str(), to.as_str()))
        },
        None => Err(ChartError::InvalidParameters(ParameterFault::Timeframe)),
    }
}

/// The address to fetch for the first population of a series at the
/// present instant.
pub fn fetch_initial_data(symbol: &str, timeframe: &str) -> (r: Result<String, ChartError>)
    ensures
        match Timeframe::named(timeframe@) {
            Some(tf) => r matches Ok(url) && exists|now: i64|
                url@ == chart_address(
                    symbol@,
                    timeframe@,
                    date_label(earlier(now as int, tf.lookback())),
                    date_label(now as int),
                ),
            None => r == Err::<String, ChartError>(
                ChartError::InvalidParameters(ParameterFault::Timeframe),
            ),
        },
{
    let now: i64 = current_time();
    fetch_initial_data_at(symbol, timeframe, now)
}

/// A series after its first population with a batch: the batch is merged
/// into it, and the window moves back by one look-back, to end where it
/// began.
pub open spec fn populated(
    series: SeriesView,
    tf: Timeframe,
    batch: Seq<CustomQuote>,
) -> SeriesView {
    SeriesView {
        quotes: merged(series.quotes, batch),
        from: earlier(series.from, tf.lookback()),
        to: series.from,
    }
}

/// Populates the series under `symbol` and `timeframe` with the batch that
/// was fetched for it. Fails where nothing is stored under them.
pub fn initialize_data(
    model: &mut StockModel,
    symbol: &str,
    timeframe: &str,
    data: Vec<CustomQuote>,
) -> (r: Result<(), ChartError>)
    ensures
        match stored(old(model)@, symbol@, timeframe@) {
            Some(series) => r is Ok && final(model)@ == replaced(
                old(model)@,
                symbol@,
                timeframe@,
                populated(series, Timeframe::named(timeframe@)->Some_0, data@),
            ),
            None => r == Err::<(), ChartError>(ChartError::UnknownKey) && final(model)@ == old(
                model,
            )@,
        },
        distinct_symbols(final(model)@),
{
    let ghost before = model@;
    let window = model.get_period(symbol, timeframe);
    model.stock_datas.distinct();
    match (window, Timeframe::parse(timeframe)) {
        (Some(range), Some(tf)) => {
            let ghost series = stored(before, symbol@, timeframe@)->Some_0;
            let new_from = move_back(range.from, tf.lookback_ms());
            model.append_data(symbol, timeframe, data);
            proof {
                lemma_put_series(
                    before,
                    symbol@,
                    tf,
                    SeriesView { quotes: merged(series.quotes, data@), ..series },
                );
            }
            model.update_period(symbol, timeframe, new_from, range.from);
            proof {
                lemma_put_series_twice(
                    before,
                    symbol@,
                    tf,
                    SeriesView { quotes: merged(series.quotes, data@), ..series },
                    populated(series, tf, data@),
                );
            }
            Ok(())
        },
        _ => Err(ChartError::UnknownKey),
    }
}

/// The symbols that the cache holds from the start, in the order in which
/// their series are first populated.
pub fn startup_symbols() -> (symbols: Vec<&'static str>)
    ensures
        symbols@.len() == 3,
        symbols@[0]@ == "AAPL"@,
        symbols@[1]@ == "GOOGL"@,
        symbols@[2]@ == "AMZN"@,
{
    let mut symbols: Vec<&'static str> = Vec::new();
    symbols.push("AAPL");
    symbols.push("GOOGL");
    symbols.push("AMZN");
    symbols
}

/// The cache as it is at the start, at instant `now`: the startup symbols
/// are registered, in their order.
pub fn startup_model_at(now: i64) -> (model: StockModel)
    ensures
        model@ == registered(
            registered(
                registered(Seq::<SymbolView>::empty(), "AAPL"@, now as int),
                "GOOGL"@,
                now as int,
            ),
            "AMZN"@,
            now as int,
        ),
        distinct_symbols(model@),
{
    let mut model = StockModel::new();
    model.initialize_timeframes_at("AAPL", now);
    model.initialize_timeframes_at("GOOGL", now);
    model.initialize_timeframes_at("AMZN", now);
    model
}

} // verus!
