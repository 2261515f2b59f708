//! The trading strategies that can be backtested: each turns the rows of a
//! fetch into signals and runs the signals over the closes.
use crate::error::{ChartError, ParameterFault};
use crate::types::{closes, same_text, CustomQuote, IndicatorData, StockQuote, StrategyResult};
use crate::utils::backtest_utils::{calculate_performance, reports, signals_of, Signal};
use crate::utils::calendar::date_label;
use crate::utils::fetch_stock_utils::{clean_rows, cleaned};
use crate::utils::indicator_utils::{
    calculate_ema, calculate_macd, calculate_sma, ema_at, macd_values, signal_values, sma_at,
};
use vstd::prelude::*;
use vstd::string::StringExecFns;

verus! {

/// The strategies that can be asked for.
#[derive(Clone, Copy, Debug, PartialEq, Eq, Structural)]
pub enum StrategyKind {
    Alligator,
    Macd,
    ThreeEma,
}

impl StrategyKind {
    /// The strategy that a name stands for.
    pub open spec fn named(name: Seq<char>) -> Option<StrategyKind> {
        if name == "alligator"@ {
            Some(StrategyKind::Alligator)
        } else if name == "macd"@ {
            Some(StrategyKind::Macd)
        } else if name == "three_ema"@ {
            Some(StrategyKind::ThreeEma)
        } else {
            None
        }
    }

    /// Reads a strategy from its name.
    pub fn parse(name: &str) -> (r: Option<StrategyKind>)
        ensures
            r == StrategyKind::named(name@),
    {
        if same_text(name, "alligator") {
            Some(StrategyKind::Alligator)
        } else if same_text(name, "macd") {
            Some(StrategyKind::Macd)
        } else if same_text(name, "three_ema") {
            Some(StrategyKind::ThreeEma)
        } else {
            None
        }
    }
}

/// The text of a signal.
pub open spec fn signal_text(signal: Signal) -> Seq<char> {
    match signal {
        Signal::Buy => "buy"@,
        Signal::Sell => "sell"@,
        Signal::Hold => "hold"@,
    }
}

/// The text of a signal.
pub fn signal_name(signal: Signal) -> (r: String)
    ensures
        r@ == signal_text(signal),
{
    match signal {
        Signal::Buy => String::from_str("buy"),
        Signal::Sell => String::from_str("sell"),
        Signal::Hold => String::from_str("hold"),
    }
}

/// What three averages that are ordered one way or the other ask for: a
/// buy where the first is above the second and the second above the third,
/// a sell where each is below the next, and else nothing.
pub open spec fn trend_signal(first: int, second: int, third: int) -> Signal {
    if first > second && second > third {
        Signal::Buy
    } else if first < second && second < third {
        Signal::Sell
    } else {
        Signal::Hold
    }
}

/// What a line asks for against its signal line: a buy above it, a sell
/// below it.
pub open spec fn crossing_signal(line: int, signal: int) -> Signal {
    if line > signal {
        Signal::Buy
    } else if line < signal {
        Signal::Sell
    } else {
        Signal::Hold
    }
}

/// The signals of the alligator strategy: from the second quote on, the
/// trend of three simple moving averages.
pub open spec fn alligator_signals(prices: Seq<int>, p1: int, p2: int, p3: int) -> Seq<Signal> {
    Seq::new(
        prices.len(),
        |i: int|
            if i == 0 {
                Signal::Hold
            } else {
                trend_signal(sma_at(prices, p1, i), sma_at(prices, p2, i), sma_at(prices, p3, i))
            },
    )
}

/// The signals of the three-averages strategy: from the second quote on,
/// the trend of three exponential moving averages.
pub open spec fn three_ema_signals(prices: Seq<int>, p1: int, p2: int, p3: int) -> Seq<Signal> {
    Seq::new(
        prices.len(),
        |i: int|
            if i == 0 {
                Signal::Hold
            } else {
                trend_signal(ema_at(prices, p1, i), ema_at(prices, p2, i), ema_at(prices, p3, i))
            },
    )
}

/// The signals of the MACD strategy: the line against the signal line,
/// from the index on that reaches each of the three lengths.
pub open spec fn macd_signals(prices: Seq<int>, short: int, long: int, signal: int) -> Seq<Signal> {
    Seq::new(
        prices.len(),
        |i: int|
            if i < short || i < long || i < signal {
                Signal::Hold
            } else {
                crossing_signal(
                    macd_values(prices, short, long)[i],
                    signal_values(prices, short, long, signal)[i],
                )
            },
    )
}

/// The report is that of the signals run over the quotes, and shows the
/// signals and the dates of the quotes.
pub open spec fn backtested(
    r: StrategyResult,
    quotes: Seq<CustomQuote>,
    signals: Seq<Signal>,
) -> bool {
    &&& reports(r, closes(quotes), signals)
    &&& r.signals@.len() == quotes.len()
    &&& forall|i: int|
        0 <= i < quotes.len() ==> (#[trigger] r.signals@[i])@ == signal_text(signals[i])
    &&& r.dates@.len() == quotes.len()
    &&& forall|i: int|
        0 <= i < quotes.len() ==> (#[trigger] r.dates@[i])@ == date_label(quotes[i].time as int)
}

/// Runs signals over quotes.
fn run_signals(quotes: &Vec<CustomQuote>, signals: &Vec<Signal>) -> (r: StrategyResult)
    requires
        quotes@.len() == signals@.len(),
    ensures
        backtested(r, quotes@, signals@),
{
    let mut texts: Vec<String> = Vec::new();
    let mut i: usize = 0;
    while i < signals.len()
        invariant
            i <= signals.len(),
            texts@.len() == i,
            forall|k: int| 0 <= k < i ==> (#[trigger] texts@[k])@ == signal_text(signals@[k]),
        decreases signals.len() - i,
    {
        texts.push(signal_name(signals[i]));
        i = i + 1;
    }
    proof {
        reveal_strlit("buy");
        reveal_strlit("sell");
        reveal_strlit("hold");
        assert forall|k: int| 0 <= k < signals@.len() implies #[trigger] signals_of(texts@)[k]
            == signals@[k] by {
            assert(texts@[k]@ == signal_text(signals@[k]));
            assert("buy"@.len() == 3 && "sell"@.len() == 4 && "hold"@.len() == 4);
            assert("sell"@[0] == 's' && "hold"@[0] == 'h');
        }
        assert(signals_of(texts@) =~= signals@);
    }
    calculate_performance(quotes.as_slice(), texts.as_slice())
}

/// The trend of three lines of samples at every index but the first.
fn trend_signals(
    first: &Vec<IndicatorData>,
    second: &Vec<IndicatorData>,
    third: &Vec<IndicatorData>,
) -> (signals: Vec<Signal>)
    requires
        first@.len() == second@.len() == third@.len(),
    ensures
        signals@.len() == first@.len(),
        forall|i: int|
            0 <= i < signals@.len() ==> #[trigger] signals@[i] == if i == 0 {
                Signal::Hold
            } else {
                trend_signal(
                    first@[i].value as int,
                    second@[i].value as int,
                    third@[i].value as int,
                )
            },
{
    let mut signals: Vec<Signal> = Vec::new();
    let mut i: usize = 0;
    while i < first.len()
        invariant
            i <= first.len(),
            first@.len() == second@.len() == third@.len(),
            signals@.len() == i,
            forall|k: int|
                0 <= k < i ==> #[trigger] signals@[k] == if k == 0 {
                    Signal::Hold
                } else {
                    trend_signal(
                        first@[k].value as int,
                        second@[k].value as int,
                        third@[k].value as int,
                    )
                },
        decreases first.len() - i,
    {
        let a: i64 = first[i].value;
        let b: i64 = second[i].value;
        let c: i64 = third[i].value;
        let signal = if i == 0 {
            Signal::Hold
        } else if a > b && b > c {
            Signal::Buy
        } else if a < b && b < c {
            Signal::Sell
        } else {
            Signal::Hold
        };
        signals.push(signal);
        i = i + 1;
    }
    signals
}

/// Backtests the alligator strategy on the rows of a fetch: the rows are
/// cleaned, and a position is taken where three simple moving averages of
/// the lengths given are ordered one way or the other. A length of zero is
/// refused, as a simple moving average over no quotes has no mean to give.
pub fn alligator_strategy(
    rows: Vec<StockQuote>,
    period1: usize,
    period2: usize,
    period3: usize,
) -> (r: Result<StrategyResult, ChartError>)
    ensures
        if period1 == 0 || period2 == 0 || period3 == 0 {
            r is Err && r->Err_0 == ChartError::InvalidParameters(ParameterFault::ZeroLength)
        } else {
            r matches Ok(report) && backtested(
                report,
                cleaned(rows@),
                alligator_signals(
                    closes(cleaned(rows@)),
                    period1 as int,
                    period2 as int,
                    period3 as int,
                ),
            )
        },
{
    if period1 == 0 || period2 == 0 || period3 == 0 {
        return Err(ChartError::InvalidParameters(ParameterFault::ZeroLength));
    }
    let custom_quotes = clean_rows(rows);
    let sma1 = calculate_sma(custom_quotes.as_slice(), period1);
    let sma2 = calculate_sma(custom_quotes.as_slice(), period2);
    let sma3 = calculate_sma(custom_quotes.as_slice(), period3);
    let signals = trend_signals(&sma1, &sma2, &sma3);
    proof {
        assert(signals@ =~= alligator_signals(
            closes(custom_quotes@),
            period1 as int,
            period2 as int,
            period3 as int,
        ));
    }
    Ok(run_signals(&custom_quotes, &signals))
}

/// Backtests the three-averages strategy on the rows of a fetch: as the
/// alligator strategy, with exponential moving averages.
pub fn three_ema_strategy(
    rows: Vec<StockQuote>,
    period1: usize,
    period2: usize,
    period3: usize,
) -> (r: Result<StrategyResult, ChartError>)
    ensures
        r matches Ok(report) && backtested(
            report,
            cleaned(rows@),
            three_ema_signals(
                closes(cleaned(rows@)),
                period1 as int,
                period2 as int,
                period3 as int,
            ),
        ),
{
    let custom_quotes = clean_rows(rows);
    let ema1 = calculate_ema(custom_quotes.as_slice(), period1);
    let ema2 = calculate_ema(custom_quotes.as_slice(), period2);
    let ema3 = calculate_ema(custom_quotes.as_slice(), period3);
    let signals = trend_signals(&ema1, &ema2, &ema3);
    proof {
        assert(signals@ =~= three_ema_signals(
            closes(custom_quotes@),
            period1 as int,
            period2 as int,
            period3 as int,
        ));
    }
    Ok(run_signals(&custom_quotes, &signals))
}

/// Backtests the MACD strategy on the rows of a fetch: the rows are
/// cleaned, and a position is taken where the MACD line is above or below
/// its signal line, from the index on that reaches each of the lengths.
pub fn macd_strategy(
    rows: Vec<StockQuote>,
    macd_short: usize,
    macd_long: usize,
    macd_signal: usize,
) -> (r: Result<StrategyResult, ChartError>)
    ensures
        r matches Ok(report) && backtested(
            report,
            cleaned(rows@),
            macd_signals(
                closes(cleaned(rows@)),
                macd_short as int,
                macd_long as int,
                macd_signal as int,
            ),
        ),
{
    let custom_quotes = clean_rows(rows);
    let (macd_line, signal_line, _) = calculate_macd(
        custom_quotes.as_slice(),
        macd_short,
        macd_long,
        macd_signal,
    );
    let mut signals: Vec<Signal> = Vec::new();
    let ghost prices = closes(custom_quotes@);
    let ghost wanted = macd_signals(
        prices,
        macd_short as int,
        macd_long as int,
        macd_signal as int,
    );
    let mut i: usize = 0;
    while i < custom_quotes.len()
        invariant
            i <= custom_quotes.len(),
            prices == closes(custom_quotes@),
            wanted == macd_signals(
                prices,
                macd_short as int,
                macd_long as int,
                macd_signal as int,
            ),
            macd_line@.len() == custom_quotes@.len(),
            signal_line@.len() == custom_quotes@.len(),
            forall|k: int|
                0 <= k < macd_line@.len() ==> (#[trigger] macd_line@[k]).value == macd_values(
                    prices,
                    macd_short as int,
                    macd_long as int,
                )[k],
            forall|k: int|
                0 <= k < signal_line@.len() ==> (#[trigger] signal_line@[k]).value == signal_values(
                    prices,
                    macd_short as int,
                    macd_long as int,
                    macd_signal as int,
                )[k],
            signals@.len() == i,
            forall|k: int| 0 <= k < i ==> #[trigger] signals@[k] == wanted[k],
        decreases custom_quotes.len() - i,
    {
        let line: i64 = macd_line[i].value;
        let smooth: i64 = signal_line[i].value;
        let signal = if i < macd_short || i < macd_long || i < macd_signal {
            Signal::Hold
        } else if line > smooth {
            Signal::Buy
        } else if line < smooth {
            Signal::Sell
        } else {
            Signal::Hold
        };
        signals.push(signal);
        i = i + 1;
    }
    proof {
        assert(signals@ =~= wanted);
    }
    Ok(run_signals(&custom_quotes, &signals))
}

/// Backtests the strategy `strategy` on the rows of a fetch, with the
/// three lengths in `params`. The alligator strategy refuses a length of
/// zero; the other two take it.
pub fn run_backtest(strategy: &str, rows: Vec<StockQuote>, params: Vec<usize>) -> (r: Result<
    StrategyResult,
    ChartError,
>)
    ensures
        match StrategyKind::named(strategy@) {
            None => r is Err && r->Err_0 == ChartError::InvalidParameters(ParameterFault::Strategy),
            Some(kind) => if params@.len() != 3 {
                r is Err && r->Err_0 == ChartError::InvalidParameters(
                    ParameterFault::StrategyLengths,
                )
            } else if kind == StrategyKind::Alligator && (params@[0] == 0 || params@[1] == 0
                || params@[2] == 0) {
                r is Err && r->Err_0 == ChartError::InvalidParameters(ParameterFault::ZeroLength)
            } else {
                r matches Ok(report) && backtested(
                    report,
                    cleaned(rows@),
                    match kind {
                        StrategyKind::Alligator => alligator_signals(
                            closes(cleaned(rows@)),
                            params@[0] as int,
                            params@[1] as int,
                            params@[2] as int,
                        ),
                        StrategyKind::Macd => macd_signals(
                            closes(cleaned(rows@)),
                            params@[0] as int,
                            params@[1] as int,
                            params@[2] as int,
                        ),
                        StrategyKind::ThreeEma => three_ema_signals(
                            closes(cleaned(rows@)),
                            params@[0] as int,
                            params@[1] as int,
                            params@[2] as int,
                        ),
                    },
                )
            },
        },
{
    match StrategyKind::parse(strategy) {
        None => Err(ChartError::InvalidParameters(ParameterFault::Strategy)),
        Some(kind) => {
            if params.len() != 3 {
                return Err(ChartError::InvalidParameters(ParameterFault::StrategyLengths));
            }
            match kind {
                StrategyKind::Alligator => alligator_strategy(
                    rows,
                    params[0],
                    params[1],
                    params[2],
                ),
                StrategyKind::Macd => macd_strategy(rows, params[0], params[1], params[2]),
                StrategyKind::ThreeEma => three_ema_strategy(rows, params[0], params[1], params[2]),
            }
        },
    }
}

} // verus!
