//! What is done around a fetch from the provider: the address that is
//! asked, and the cleaning of the rows that come back.
use crate::error::ChartError;
use crate::models::stock_model::{stored, StockModel};
use crate::types::{CustomQuote, StockQuote};
use crate::utils::calendar::{date_label, label_of};
use crate::utils::sorting::{sort_by_time, stable_sort};
use vstd::prelude::*;
use vstd::string::StringExecFns;

verus! {

/// The fewest rows that a fetch must bring to count as a success.
pub const MIN_ROWS: usize = 5;

/// The time that a fetch is given, in milliseconds.
pub const FETCH_TIMEOUT_MS: u64 = 3000;

/// The test that a row is complete.
pub open spec fn is_complete_row() -> spec_fn(StockQuote) -> bool {
    |row: StockQuote| row.is_complete()
}

/// The complete rows, in the order in which they came.
pub open spec fn complete_rows(rows: Seq<StockQuote>) -> Seq<StockQuote> {
    rows.filter(is_complete_row())
}

/// The quotes made of rows so that the prices form one path: each quote but
/// the first opens at the close of the row before it, whatever open its own
/// row reports. The first keeps the open of its row.
pub open spec fn continuous(rows: Seq<StockQuote>) -> Seq<CustomQuote> {
    Seq::new(
        rows.len(),
        |i: int|
            CustomQuote {
                high: rows[i].high,
                volume: rows[i].volume,
                open: if i == 0 {
                    rows[i].open
                } else {
                    rows[i - 1].close
                },
                low: rows[i].low,
                close: rows[i].close,
                time: rows[i].date,
            },
    )
}

/// What a batch of rows becomes before it is merged: the complete rows in
/// order of time, made into a continuous path and put in order once more.
pub open spec fn cleaned(rows: Seq<StockQuote>) -> Seq<CustomQuote> {
    stable_sort(continuous(stable_sort(complete_rows(rows))))
}

/// Drops the rows that lack an open, high, low or close, and sorts the rest
/// by time.
pub fn filter_complete_quotes(stock_data: Vec<StockQuote>) -> (complete_data: Vec<StockQuote>)
    ensures
        complete_data@ == stable_sort(complete_rows(stock_data@)),
{
    let mut kept: Vec<StockQuote> = Vec::new();
    let mut i: usize = 0;
    while i < stock_data.len()
        invariant
            i <= stock_data.len(),
            kept@ == complete_rows(stock_data@.take(i as int)),
        decreases stock_data.len() - i,
    {
        let row: StockQuote = stock_data[i];
        proof {
            broadcast use Seq::lemma_filter_push;

            assert(stock_data@.take(i + 1) == stock_data@.take(i as int).push(row));
        }
        if row.complete() {
            kept.push(row);
        }
        i = i + 1;
    }
    proof {
        assert(stock_data@.take(stock_data.len() as int) == stock_data@);
    }
    sort_by_time(kept)
}

/// Makes quotes of rows: each quote but the first opens at the close of the
/// row before it. The quotes are sorted by time.
pub fn transform_to_custom_quotes(stock_data: Vec<StockQuote>) -> (custom_quotes: Vec<CustomQuote>)
    ensures
        custom_quotes@ == stable_sort(continuous(stock_data@)),
{
    let mut quotes: Vec<CustomQuote> = Vec::new();
    let mut index: usize = 0;
    while index < stock_data.len()
        invariant
            index <= stock_data.len(),
            quotes@ == continuous(stock_data@).take(index as int),
        decreases stock_data.len() - index,
    {
        let row: StockQuote = stock_data[index];
        let first_price = if index == 0 {
            row.open
        } else {
            stock_data[index - 1].close
        };
        quotes.push(
            CustomQuote {
                high: row.high,
                volume: row.volume,
                open: first_price,
                low: row.low,
                close: row.close,
                time: row.date,
            },
        );
        proof {
            let whole = continuous(stock_data@);
            assert(whole.take(index + 1) == whole.take(index as int).push(whole[index as int]));
        }
        index = index + 1;
    }
    proof {
        let whole = continuous(stock_data@);
        assert(whole.take(stock_data.len() as int) == whole);
    }
    sort_by_time(quotes)
}

/// The address of the provider's chart rows for a symbol, a timeframe and a
/// range, the two ends of the range written out as given.
pub open spec fn chart_address(
    symbol: Seq<char>,
    timeframe: Seq<char>,
    from: Seq<char>,
    to: Seq<char>,
) -> Seq<char> {
    "http://localhost:3000/stock/chart/"@ + symbol + "?timeframe="@ + timeframe + "&period1="@
        + from + "&period2="@ + to
}

/// The address of the provider's chart rows for a symbol, a timeframe and a
/// range.
pub fn chart_url(symbol: &str, timeframe: &str, from: &str, to: &str) -> (url: String)
    ensures
        url@ == chart_address(symbol@, timeframe@, from@, to@),
{
    let mut url = String::from_str("http://localhost:3000/stock/chart/");
    url.append(symbol);
    url.append("?timeframe=");
    url.append(timeframe);
    url.append("&period1=");
    url.append(from);
    url.append("&period2=");
    url.append(to);
    url
}

/// The address of the provider's list of the symbols that match a query.
pub open spec fn search_address(query: Seq<char>) -> Seq<char> {
    "http://localhost:3000/search-stocks/"@ + query
}

/// The address of the provider's list of the symbols that match a query.
pub fn search_url(query: &str) -> (url: String)
    ensures
        url@ == search_address(query@),
{
    let mut url = String::from_str("http://localhost:3000/search-stocks/");
    url.append(query);
    url
}

/// The address to fetch for a refresh of the series under `symbol` and
/// `timeframe`: the provider's rows for the window that is stored for it.
/// Fails where nothing is stored under them.
pub fn fetch_stock_data(model: &StockModel, symbol: &str, timeframe: &str) -> (r: Result<
    String,
    ChartError,
>)
    ensures
        match stored(model@, symbol@, timeframe@) {
            Some(series) => r matches Ok(url) && url@ == chart_address(
                symbol@,
                timeframe@,
                date_label(series.from),
                date_label(series.to),
            ),
            None => r == Err::<String, ChartError>(ChartError::UnknownKey),
        },
{
    match model.get_period(symbol, timeframe) {
        Some(range) => {
            let from = label_of(range.from);
            let to = label_of(range.to);
            Ok(chart_url(symbol, timeframe, from.as_str(), to.as_str()))
        },
        None => Err(ChartError::UnknownKey),
    }
}

/// The address to fetch for a backtest over a range that the caller names.
pub fn fetch_stock_data_for_backtest(symbol: &str, timeframe: &str, from: &str, to: &str) -> (url:
    String)
    ensures
        url@ == chart_address(symbol@, timeframe@, from@, to@),
{
    chart_url(symbol, timeframe, from, to)
}

/// Cleans a batch of rows: drops the incomplete ones, sorts the rest, makes
/// a continuous path of them and sorts it.
pub fn clean_rows(rows: Vec<StockQuote>) -> (quotes: Vec<CustomQuote>)
    ensures
        quotes@ == cleaned(rows@),
{
    transform_to_custom_quotes(filter_complete_quotes(rows))
}

} // verus!
