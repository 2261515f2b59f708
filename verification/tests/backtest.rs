use stockchart::error::{ChartError, ParameterFault};
use stockchart::strategies::{
    alligator_strategy, macd_strategy, run_backtest, three_ema_strategy,
};
use stockchart::types::{CustomQuote, Price, StockQuote, StrategyResult};
use stockchart::utils::backtest_utils::{
    calculate_performance, COMMISSION, INITIAL_CAPITAL, LOT_SIZE,
};

const DAY: i64 = 86_400_000;
const T0: i64 = 1_640_995_200_000;

fn price(ticks: i64) -> Option<Price> {
    Some(Price::new(ticks).unwrap())
}

fn series(closes: &[i64]) -> Vec<CustomQuote> {
    let mut out = Vec::new();
    for (i, close) in closes.iter().enumerate() {
        out.push(CustomQuote {
            high: price(*close),
            volume: Some(1_000),
            open: price(*close),
            low: price(*close),
            close: price(*close),
            time: T0 + i as i64 * DAY,
        });
    }
    out
}

fn rows(closes: &[i64]) -> Vec<StockQuote> {
    let mut out = Vec::new();
    for (i, close) in closes.iter().enumerate() {
        out.push(StockQuote {
            high: price(*close),
            volume: Some(1_000),
            open: price(*close),
            low: price(*close),
            close: price(*close),
            date: T0 + i as i64 * DAY,
        });
    }
    out
}

fn texts(signals: &[&str]) -> Vec<String> {
    signals.iter().map(|s| s.to_string()).collect()
}

fn run(closes: &[i64], signals: &[&str]) -> StrategyResult {
    calculate_performance(&series(closes), &texts(signals))
}

#[test]
fn the_terms_of_a_backtest() {
    assert_eq!(INITIAL_CAPITAL, 1_000_000_000);
    assert_eq!(LOT_SIZE, 20);
    assert_eq!(COMMISSION, 5_000);
}

#[test]
fn one_winning_long_trade() {
    let r = run(&[100_000, 100_000, 120_000, 120_000], &["hold", "buy", "sell", "hold"]);
    assert_eq!(r.num_trades, 1);
    assert_eq!(r.winning_trades, 1);
    assert_eq!(r.losing_trades, 0);
    assert_eq!(r.profit_factor, 390_000);
    assert_eq!(r.winning_percentage, 1_000_000);
    assert_eq!(r.final_capital, 1_000_390_000);
    assert_eq!(r.total_return_percentage, 390);
    assert_eq!(r.signals, texts(&["hold", "buy", "sell", "hold"]));
}

#[test]
fn signals_that_all_hold_leave_the_capital() {
    let r = run(&[100_000, 90_000, 150_000], &["hold", "hold", "hold"]);
    assert_eq!(r.num_trades, 0);
    assert_eq!(r.winning_trades, 0);
    assert_eq!(r.losing_trades, 0);
    assert_eq!(r.winning_percentage, 0);
    assert_eq!(r.profit_factor, 0);
    assert_eq!(r.final_capital, INITIAL_CAPITAL);
    assert_eq!(r.total_return_percentage, 0);
}

#[test]
fn a_text_that_is_no_signal_holds() {
    let r = run(&[100_000, 90_000, 150_000], &["buy", "BUY", "wait"]);
    assert_eq!(r.num_trades, 0);
    assert_eq!(r.final_capital, INITIAL_CAPITAL);
}

#[test]
fn the_first_signal_is_not_acted_on() {
    let r = run(&[100_000, 100_000], &["buy", "hold"]);
    assert_eq!(r.num_trades, 0);
    assert_eq!(r.final_capital, INITIAL_CAPITAL);
}

#[test]
fn a_position_that_is_still_held_is_given_up_at_the_last_close() {
    let r = run(&[100_000, 110_000], &["hold", "buy"]);
    assert_eq!(r.num_trades, 0);
    assert_eq!(r.winning_trades, 0);
    assert_eq!(r.losing_trades, 0);
    assert_eq!(r.winning_percentage, 0);
    assert_eq!(r.final_capital, 999_990_000);
    assert_eq!(r.total_return_percentage, -10);
}

#[test]
fn a_losing_short_trade() {
    let r = run(&[100_000, 100_000, 120_000], &["hold", "sell", "buy"]);
    assert_eq!(r.num_trades, 1);
    assert_eq!(r.winning_trades, 0);
    assert_eq!(r.losing_trades, 1);
    assert_eq!(r.profit_factor, 0);
    assert_eq!(r.final_capital, 1_000_390_000);
}

#[test]
fn a_winning_short_trade() {
    let r = run(&[120_000, 120_000, 100_000], &["hold", "sell", "buy"]);
    assert_eq!(r.num_trades, 1);
    assert_eq!(r.winning_trades, 1);
    assert_eq!(r.profit_factor, 390_000);
    assert_eq!(r.final_capital, 999_590_000);
}

#[test]
fn a_trade_without_profit_counts_as_lost() {
    let r = run(&[100_000, 100_000, 100_500], &["hold", "buy", "sell"]);
    assert_eq!(r.winning_trades, 0);
    assert_eq!(r.losing_trades, 1);
}

#[test]
fn a_win_and_a_loss() {
    let r = run(
        &[100_000, 100_000, 120_000, 120_000, 140_000, 140_000],
        &["hold", "buy", "sell", "sell", "buy", "hold"],
    );
    assert_eq!(r.num_trades, 2);
    assert_eq!(r.winning_trades, 1);
    assert_eq!(r.losing_trades, 1);
    assert_eq!(r.num_trades, r.winning_trades + r.losing_trades);
    assert_eq!(r.winning_percentage, 500_000);
    assert_eq!(r.profit_factor, 9_512);
    assert_eq!(r.final_capital, 1_000_780_000);
    assert_eq!(r.total_return_percentage, 780);
}

#[test]
fn a_signal_for_the_side_that_is_held_does_nothing() {
    let once = run(&[100_000, 100_000, 110_000, 120_000], &["hold", "buy", "hold", "sell"]);
    let twice = run(&[100_000, 100_000, 110_000, 120_000], &["hold", "buy", "buy", "sell"]);
    assert_eq!(once.final_capital, twice.final_capital);
    assert_eq!(twice.num_trades, 1);
}

#[test]
fn a_missing_close_counts_as_zero() {
    let mut data = series(&[100_000, 100_000]);
    data[1].close = None;
    let r = calculate_performance(&data, &texts(&["hold", "buy"]));
    assert_eq!(r.final_capital, INITIAL_CAPITAL - 2 * COMMISSION);
}

#[test]
fn a_backtest_of_nothing() {
    let r = run(&[], &[]);
    assert_eq!(r.num_trades, 0);
    assert_eq!(r.final_capital, INITIAL_CAPITAL);
    assert!(r.signals.is_empty() && r.dates.is_empty());
}

#[test]
fn the_report_shows_the_dates_of_the_quotes() {
    let mut data = series(&[100_000, 100_000, 100_000]);
    data[0].time = 0;
    data[2].time = 947_638_923_004;
    let r = calculate_performance(&data, &texts(&["hold", "hold", "hold"]));
    assert_eq!(r.dates, vec![
        String::from("1970-01-01 00:00:00 UTC"),
        String::from("2022-01-02 00:00:00 UTC"),
        String::from("2000-01-12 01:02:03.004 UTC"),
    ]);
}

#[test]
fn an_instant_beyond_the_calendar_has_an_empty_date() {
    let mut data = series(&[100_000]);
    data[0].time = i64::MAX;
    let r = calculate_performance(&data, &texts(&["hold"]));
    assert_eq!(r.dates, vec![String::new()]);
}

#[test]
fn alligator_buys_into_a_rising_market() {
    let r = alligator_strategy(rows(&[100_000, 110_000, 120_000, 130_000]), 1, 2, 3).unwrap();
    assert_eq!(r.signals, texts(&["hold", "hold", "buy", "buy"]));
    assert_eq!(r.num_trades, 0);
    assert_eq!(r.final_capital, 1_000_190_000);
    assert_eq!(r.total_return_percentage, 190);
    assert_eq!(r.dates.len(), 4);
    assert_eq!(r.dates[0], "2022-01-01 00:00:00 UTC");
}

#[test]
fn alligator_sells_into_a_falling_market() {
    let r = alligator_strategy(rows(&[130_000, 120_000, 110_000, 100_000]), 1, 2, 3).unwrap();
    assert_eq!(r.signals, texts(&["hold", "hold", "sell", "sell"]));
}

#[test]
fn three_ema_buys_into_a_rising_market() {
    let r = three_ema_strategy(rows(&[100_000, 110_000, 120_000, 130_000]), 1, 2, 3).unwrap();
    assert_eq!(r.signals, texts(&["hold", "buy", "buy", "buy"]));
    assert_eq!(r.num_trades, 0);
    assert_eq!(r.final_capital, 1_000_390_000);
}

#[test]
fn macd_strategy_waits_for_its_lengths() {
    let r = macd_strategy(rows(&[100_000, 110_000, 120_000, 110_000, 100_000]), 1, 2, 2).unwrap();
    assert_eq!(r.signals, texts(&["hold", "hold", "buy", "sell", "sell"]));
    assert_eq!(r.num_trades, 1);
    assert_eq!(r.winning_trades, 0);
    assert_eq!(r.losing_trades, 1);
    assert_eq!(r.winning_percentage, 0);
    assert_eq!(r.final_capital, 999_780_000);
    assert_eq!(r.total_return_percentage, -220);
}

#[test]
fn strategies_clean_the_rows() {
    let mut data = rows(&[120_000, 110_000, 100_000, 130_000, 100_000]);
    data[4].high = None;
    data.swap(0, 3);
    let r = alligator_strategy(data, 1, 2, 3).unwrap();
    assert_eq!(r.dates.len(), 4);
    assert_eq!(r.dates[0], "2022-01-01 00:00:00 UTC");
    assert_eq!(r.dates[3], "2022-01-04 00:00:00 UTC");
    assert_eq!(r.signals, texts(&["hold", "hold", "sell", "buy"]));
    assert_eq!(r.num_trades, 1);
    assert_eq!(r.losing_trades, 1);
}

#[test]
fn strategies_of_no_rows() {
    for r in [
        alligator_strategy(vec![], 1, 2, 3).unwrap(),
        three_ema_strategy(vec![], 1, 2, 3).unwrap(),
        macd_strategy(vec![], 12, 26, 9).unwrap(),
    ] {
        assert_eq!(r.num_trades, 0);
        assert_eq!(r.final_capital, INITIAL_CAPITAL);
    }
}

#[test]
fn the_alligator_refuses_a_length_of_zero() {
    let zero = ChartError::InvalidParameters(ParameterFault::ZeroLength);
    assert_eq!(alligator_strategy(rows(&[1, 2]), 0, 2, 3).unwrap_err(), zero);
    assert_eq!(alligator_strategy(rows(&[1, 2]), 1, 0, 3).unwrap_err(), zero);
    assert_eq!(alligator_strategy(vec![], 1, 2, 0).unwrap_err(), zero);
}

#[test]
fn the_exponential_strategies_take_a_length_of_zero() {
    let data = [100_000, 110_000, 120_000, 130_000];
    let r = three_ema_strategy(rows(&data), 0, 1, 3).unwrap();
    assert_eq!(r.signals, texts(&["hold", "buy", "hold", "buy"]));
    assert_eq!(r.num_trades, 0);
    assert_eq!(r.final_capital, 1_000_390_000);
    let r = three_ema_strategy(rows(&data), 1, 0, 3).unwrap();
    assert_eq!(r.signals, texts(&["hold", "hold", "hold", "hold"]));
    assert_eq!(r.final_capital, INITIAL_CAPITAL);
    let r = macd_strategy(rows(&[100_000, 110_000, 120_000, 110_000, 100_000]), 1, 2, 0).unwrap();
    assert_eq!(r.signals, texts(&["hold", "hold", "buy", "buy", "sell"]));
    assert_eq!(r.num_trades, 1);
    assert_eq!(r.losing_trades, 1);
    assert_eq!(r.final_capital, 999_590_000);
    assert_eq!(r.total_return_percentage, -410);
    let r = macd_strategy(rows(&data), 0, 0, 0).unwrap();
    assert_eq!(r.signals, texts(&["hold", "hold", "hold", "hold"]));
}

#[test]
fn the_trades_are_the_winning_and_the_losing_ones_together() {
    let closes = [100_000, 100_000, 120_000, 120_000, 140_000, 140_000, 90_000];
    let words = ["buy", "sell", "hold", "noise"];
    let mut pick = 0usize;
    for _ in 0..200 {
        let mut signals = Vec::new();
        for _ in 0..closes.len() {
            pick = (pick * 31 + 7) % 1_009;
            signals.push(words[pick % 4]);
        }
        let r = run(&closes, &signals);
        assert_eq!(r.num_trades, r.winning_trades + r.losing_trades);
    }
}

#[test]
fn strategies_by_name() {
    let data = [100_000, 110_000, 120_000, 130_000];
    let r = run_backtest("alligator", rows(&data), vec![1, 2, 3]).unwrap();
    assert_eq!(r.signals, texts(&["hold", "hold", "buy", "buy"]));
    let r = run_backtest("three_ema", rows(&data), vec![1, 2, 3]).unwrap();
    assert_eq!(r.signals, texts(&["hold", "buy", "buy", "buy"]));
    let r = run_backtest("macd", rows(&[100_000, 110_000, 120_000, 110_000, 100_000]), vec![
        1, 2, 2,
    ])
    .unwrap();
    assert_eq!(r.signals, texts(&["hold", "hold", "buy", "sell", "sell"]));
    assert_eq!(
        run_backtest("martingale", rows(&data), vec![1, 2, 3]).unwrap_err(),
        ChartError::InvalidParameters(ParameterFault::Strategy)
    );
    assert_eq!(
        run_backtest("macd", rows(&data), vec![1, 2]).unwrap_err(),
        ChartError::InvalidParameters(ParameterFault::StrategyLengths)
    );
    assert_eq!(
        run_backtest("alligator", rows(&data), vec![1, 2, 0]).unwrap_err(),
        ChartError::InvalidParameters(ParameterFault::ZeroLength)
    );
    let r = run_backtest("macd", rows(&data), vec![1, 2, 0]).unwrap();
    assert_eq!(r.signals.len(), 4);
    let r = run_backtest("three_ema", rows(&data), vec![0, 1, 3]).unwrap();
    assert_eq!(r.signals, texts(&["hold", "buy", "hold", "buy"]));
}
