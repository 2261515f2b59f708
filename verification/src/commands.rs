//! What the user interface asks of the cache, apart from refreshes and
//! analyses: the symbols, their series and their windows.
use crate::error::ChartError;
use crate::models::series::{copy_quotes, merged};
use crate::models::stock_data::SeriesView;
use crate::models::stock_model::{
    distinct_symbols, has_symbol, registered, replaced, stored, symbols_of, unregistered,
    StockModel, SymbolView,
};
use crate::types::{CustomQuote, DateRange};
use crate::utils::calendar::current_time;
use vstd::prelude::*;

verus! {

/// A table after a batch was merged into the series under a symbol and the
/// name of a timeframe; unchanged where nothing is stored under them.
pub open spec fn appended(
    table: Seq<SymbolView>,
    symbol: Seq<char>,
    interval: Seq<char>,
    batch: Seq<CustomQuote>,
) -> Seq<SymbolView> {
    match stored(table, symbol, interval) {
        Some(series) => replaced(
            table,
            symbol,
            interval,
            SeriesView { quotes: merged(series.quotes, batch), ..series },
        ),
        None => table,
    }
}

/// A table after the first `n` of the batches, each with the name of its
/// timeframe, were merged into the series of a symbol, one after another.
pub open spec fn appended_each(
    table: Seq<SymbolView>,
    symbol: Seq<char>,
    batches: Seq<(String, Vec<CustomQuote>)>,
    n: int,
) -> Seq<SymbolView>
    decreases n,
{
    if n <= 0 {
        table
    } else {
        appended(
            appended_each(table, symbol, batches, n - 1),
            symbol,
            batches[n - 1].0@,
            batches[n - 1].1@,
        )
    }
}

/// A table after a symbol was added at instant `now` with its first
/// batches. A symbol that is there already is left as it is, and the
/// batches are dropped.
pub open spec fn added(
    table: Seq<SymbolView>,
    symbol: Seq<char>,
    now: int,
    batches: Seq<(String, Vec<CustomQuote>)>,
) -> Seq<SymbolView> {
    if has_symbol(table, symbol) {
        table
    } else {
        appended_each(registered(table, symbol, now), symbol, batches, batches.len() as int)
    }
}

/// The symbols of the cache, in the order in which they were registered.
pub fn get_labels(model: &StockModel) -> (labels: Vec<String>)
    ensures
        labels@.len() == model@.len(),
        forall|i: int| 0 <= i < labels@.len() ==> (#[trigger] labels@[i])@ == symbols_of(model@)[i],
{
    model.stock_datas.keys()
}

/// Adds a symbol to the cache with the batches that were fetched for it,
/// the windows starting from `now`.
pub fn add_item_at(
    model: &mut StockModel,
    item: &str,
    now: i64,
    data: Vec<(String, Vec<CustomQuote>)>,
)
    ensures
        final(model)@ == added(old(model)@, item@, now as int, data@),
        distinct_symbols(final(model)@),
{
    if !model.stock_datas.contains_key(item) {
        model.initialize_timeframes_at(item, now);
        let mut i: usize = 0;
        while i < data.len()
            invariant
                i <= data.len(),
                distinct_symbols(model@),
                model@ == appended_each(
                    registered(old(model)@, item@, now as int),
                    item@,
                    data@,
                    i as int,
                ),
            decreases data.len() - i,
        {
            let batch = copy_quotes(&data[i].1);
            model.append_data(item, data[i].0.as_str(), batch);
            i = i + 1;
        }
    } else {
        model.stock_datas.distinct();
    }
}

/// Adds a symbol to the cache with the batches that were fetched for it,
/// the windows starting from the present instant.
pub fn add_item(model: &mut StockModel, item: &str, data: Vec<(String, Vec<CustomQuote>)>)
    ensures
        exists|now: i64| final(model)@ == added(old(model)@, item@, now as int, data@),
        distinct_symbols(final(model)@),
{
    let now: i64 = current_time();
    add_item_at(model, item, now, data);
}

/// The quotes stored under a symbol and a timeframe.
pub fn get_data(model: &StockModel, symbol: &str, timeframe: &str) -> (r: Result<
    Vec<CustomQuote>,
    ChartError,
>)
    ensures
        match stored(model@, symbol@, timeframe@) {
            Some(series) => r matches Ok(quotes) && quotes@ == series.quotes,
            None => r == Err::<Vec<CustomQuote>, ChartError>(ChartError::UnknownKey),
        },
{
    match model.get_data(symbol, timeframe) {
        Some(quotes) => Ok(copy_quotes(quotes)),
        None => Err(ChartError::UnknownKey),
    }
}

/// The window stored under a symbol and a timeframe.
pub fn get_range(model: &StockModel, symbol: &str, timeframe: &str) -> (r: Result<
    DateRange,
    ChartError,
>)
    ensures
        match stored(model@, symbol@, timeframe@) {
            Some(series) => r matches Ok(range) && range.from == series.from && range.to
                == series.to,
            None => r == Err::<DateRange, ChartError>(ChartError::UnknownKey),
        },
{
    match model.get_period(symbol, timeframe) {
        Some(range) => Ok(range),
        None => Err(ChartError::UnknownKey),
    }
}

/// Removes a symbol and its series from the cache.
pub fn delete_label(model: &mut StockModel, label: &str)
    ensures
        final(model)@ == unregistered(old(model)@, label@),
        !has_symbol(final(model)@, label@),
        distinct_symbols(final(model)@),
{
    model.stock_datas.remove(label);
    model.stock_datas.distinct();
}

} // verus!
