//! The refresh of a series: what is done with the outcome of a fetch.
use crate::coordinator::{concluded, distinct_keys, FetchCoordinator};
use crate::error::ChartError;
use crate::models::series::{
    accepted, copy_quotes, drop_repeated_times, earliest, earliest_time, in_time_order,
    lemma_unique_times, merged, select_new, strictly_increasing, unique_times,
};
use crate::models::stock_data::SeriesView;
use crate::models::stock_model::{
    distinct_symbols, lemma_put_series, lemma_put_series_twice, replaced, series_of, stored,
    StockModel, SymbolView,
};
use crate::types::{
    back_to_floor, step_back, CustomQuote, StockQuote, Timeframe, DAY_MS, MIN_DATE,
};
use crate::utils::fetch_stock_utils::{clean_rows, cleaned, MIN_ROWS};
use crate::utils::sorting::{
    lemma_stable_sort_of_sorted, lemma_stable_sort_sorted, sort_by_time, stable_sort,
};
use vstd::prelude::*;

verus! {

/// How a fetch from the provider ended.
#[derive(Debug)]
pub enum FetchOutcome {
    /// The provider answered with these rows.
    Rows(Vec<StockQuote>),
    /// The provider could not be reached or answered with an error.
    Failed(String),
    /// No answer came within the time given.
    TimedOut,
}

/// A series after a refresh with the rows of a fetch.
///
/// The rows are cleaned, and those that the series does not hold yet are
/// merged into it. The window then starts one growth step earlier, and ends
/// one day before the earliest quote that was taken in, or one day before
/// its old start where none was; neither end goes below the floor date.
/// Last, the series is put in order of time, whether a quote was taken in
/// or not, and every instant that then occurs more than once loses all its
/// quotes.
pub open spec fn refreshed(series: SeriesView, tf: Timeframe, rows: Seq<StockQuote>) -> SeriesView {
    let fresh = accepted(series.quotes, cleaned(rows));
    SeriesView {
        quotes: unique_times(stable_sort(merged(series.quotes, fresh))),
        from: back_to_floor(series.from, tf.growth()),
        to: back_to_floor(earliest(fresh, series.from), DAY_MS as int),
    }
}

/// What a fetch for a key comes to: the refreshed series, or the error.
pub open spec fn verdict(
    table: Seq<SymbolView>,
    symbol: Seq<char>,
    timeframe: Seq<char>,
    outcome: FetchOutcome,
) -> Result<SeriesView, ChartError> {
    match stored(table, symbol, timeframe) {
        None => Err(ChartError::UnknownKey),
        Some(series) => match outcome {
            FetchOutcome::TimedOut => Err(ChartError::Timeout),
            FetchOutcome::Failed(reason) => Err(ChartError::Network(reason)),
            FetchOutcome::Rows(rows) => if rows@.len() < MIN_ROWS {
                Err(ChartError::InsufficientData)
            } else {
                Ok(refreshed(series, Timeframe::named(timeframe)->Some_0, rows@))
            },
        },
    }
}

/// What the end of a fetch does to the failure mark of its key: a success
/// clears it, a timeout or too few rows set it, and any other error leaves
/// it as it was.
pub open spec fn mark_after(result: Result<SeriesView, ChartError>) -> Option<bool> {
    match result {
        Ok(_) => Some(false),
        Err(ChartError::Timeout) => Some(true),
        Err(ChartError::InsufficientData) => Some(true),
        Err(_) => None,
    }
}

/// Ends a fetch for the series under `symbol` and `timeframe`.
///
/// Where the provider brought at least `MIN_ROWS` rows for a registered
/// key, the series is refreshed with them and returned, each of its quotes
/// later than the one before it. Every other outcome
/// is an error and leaves the cache as it was. Either way the key is idle
/// afterwards, marked as failed after a timeout or too few rows and
/// unmarked after a success.
pub fn fetch_stock_chart(
    model: &mut StockModel,
    coordinator: &mut FetchCoordinator,
    symbol: &str,
    timeframe: &str,
    outcome: FetchOutcome,
) -> (r: Result<Vec<CustomQuote>, ChartError>)
    ensures
        match verdict(old(model)@, symbol@, timeframe@, outcome) {
            Ok(series) => r matches Ok(quotes) && quotes@ == series.quotes && final(model)@
                == replaced(old(model)@, symbol@, timeframe@, series),
            Err(e) => r == Err::<Vec<CustomQuote>, ChartError>(e) && final(model)@ == old(
                model,
            )@,
        },
        final(coordinator)@ == concluded(
            old(coordinator)@,
            symbol@,
            timeframe@,
            mark_after(verdict(old(model)@, symbol@, timeframe@, outcome)),
        ),
        r matches Ok(quotes) ==> strictly_increasing(quotes@),
        distinct_symbols(final(model)@),
        distinct_keys(final(coordinator)@),
{
    let ghost before = model@;
    let window = model.get_period(symbol, timeframe);
    model.stock_datas.distinct();
    match window {
        None => {
            coordinator.conclude(symbol, timeframe, None);
            Err(ChartError::UnknownKey)
        },
        Some(range) => match outcome {
            FetchOutcome::TimedOut => {
                coordinator.conclude(symbol, timeframe, Some(true));
                Err(ChartError::Timeout)
            },
            FetchOutcome::Failed(reason) => {
                coordinator.conclude(symbol, timeframe, None);
                Err(ChartError::Network(reason))
            },
            FetchOutcome::Rows(rows) => {
                if rows.len() < MIN_ROWS {
                    coordinator.conclude(symbol, timeframe, Some(true));
                    Err(ChartError::InsufficientData)
                } else {
                    let ghost tf = Timeframe::named(timeframe@)->Some_0;
                    let ghost series = series_of(before, symbol@, tf)->Some_0;
                    let ghost target = refreshed(series, tf, rows@);
                    proof {
                        lemma_refresh_orders(series, tf, rows@);
                    }
                    let step = match Timeframe::parse(timeframe) {
                        Some(frame) => frame.growth_ms(),
                        None => 0,
                    };
                    let quotes = clean_rows(rows);
                    let fresh = match model.get_data(symbol, timeframe) {
                        Some(existing) => select_new(existing, &quotes),
                        None => Vec::new(),
                    };
                    let new_from = step_back(range.from, step);
                    let new_to = step_back(earliest_time(&fresh, range.from), DAY_MS);
                    model.append_data(symbol, timeframe, fresh);
                    proof {
                        lemma_put_series(
                            before,
                            symbol@,
                            tf,
                            SeriesView { quotes: merged(series.quotes, fresh@), ..series },
                        );
                    }
                    model.update_period(symbol, timeframe, new_from, new_to);
                    proof {
                        let a = SeriesView { quotes: merged(series.quotes, fresh@), ..series };
                        let b = SeriesView { from: new_from as int, to: new_to as int, ..a };
                        lemma_put_series_twice(before, symbol@, tf, a, b);
                        lemma_put_series(before, symbol@, tf, b);
                    }
                    let kept = match model.get_data(symbol, timeframe) {
                        Some(all) => {
                            if in_time_order(all) {
                                proof {
                                    lemma_stable_sort_of_sorted(all@);
                                }
                                drop_repeated_times(all)
                            } else {
                                let ordered = sort_by_time(copy_quotes(all));
                                drop_repeated_times(&ordered)
                            }
                        },
                        None => Vec::new(),
                    };
                    let answer = copy_quotes(&kept);
                    model.update_data(symbol, timeframe, kept);
                    proof {
                        let a = SeriesView { quotes: merged(series.quotes, fresh@), ..series };
                        let b = SeriesView { from: new_from as int, to: new_to as int, ..a };
                        lemma_put_series_twice(before, symbol@, tf, b, target);
                        assert(target == SeriesView { quotes: answer@, ..b });
                    }
                    coordinator.conclude(symbol, timeframe, Some(false));
                    Ok(answer)
                }
            },
        },
    }
}

/// A refresh never moves the start of a window forward, as long as the
/// start was not below the floor date before.
pub proof fn lemma_window_grows(series: SeriesView, tf: Timeframe, rows: Seq<StockQuote>)
    requires
        series.from >= MIN_DATE,
    ensures
        MIN_DATE <= refreshed(series, tf, rows).from <= series.from,
        refreshed(series, tf, rows).to >= MIN_DATE,
{
}

/// A refresh leaves the window in order, its start not after its end,
/// unless a quote was taken in that lies more than a growth step less one
/// day before the old start.
pub proof fn lemma_refreshed_window_ordered(
    series: SeriesView,
    tf: Timeframe,
    rows: Seq<StockQuote>,
)
    requires
        earliest(accepted(series.quotes, cleaned(rows)), series.from) >= series.from - tf.growth()
            + DAY_MS,
    ensures
        refreshed(series, tf, rows).from <= refreshed(series, tf, rows).to,
{
}

/// After a refresh a series is in order of time and no instant occurs
/// twice in it: each of its quotes is later than the one before it.
pub proof fn lemma_refresh_orders(series: SeriesView, tf: Timeframe, rows: Seq<StockQuote>)
    ensures
        strictly_increasing(refreshed(series, tf, rows).quotes),
{
    let fresh = accepted(series.quotes, cleaned(rows));
    let all = stable_sort(merged(series.quotes, fresh));
    lemma_stable_sort_sorted(merged(series.quotes, fresh));
    lemma_unique_times(all);
}

} // verus!
