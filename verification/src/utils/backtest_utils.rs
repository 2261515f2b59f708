//! The backtest: what a sequence of signals would have made of a fixed
//! capital, trading one lot at the closes of a series.
use crate::types::{amount_or_zero, closes, CustomQuote, StrategyResult, PRICE_LIMIT, SCALE};
use crate::utils::arith::{floor_div, lemma_product_bound, lemma_quotient_between};
use crate::utils::calendar::{date_label, label_of};
use vstd::arithmetic::div_mod::lemma_fundamental_div_mod_converse;
use vstd::prelude::*;
use vstd::string::StringExecFns;

verus! {

/// What is paid for each opening and each closing of a position: half a
/// unit, in ticks.
pub const COMMISSION: i128 = 5_000;

/// The capital at the start: a hundred thousand units, in ticks.
pub const INITIAL_CAPITAL: i128 = 1_000_000_000;

/// The number of shares of every position.
pub const LOT_SIZE: i128 = 20;

/// What a signal asks for.
#[derive(Clone, Copy, Debug, PartialEq, Eq, Structural)]
pub enum Signal {
    Buy,
    Sell,
    Hold,
}

/// The position that is held.
#[derive(Clone, Copy, Debug, PartialEq, Eq, Structural)]
pub enum Side {
    Flat,
    Long,
    Short,
}

/// The signal that a text stands for: `buy`, `sell`, and anything else,
/// which holds.
pub open spec fn signal_of(text: Seq<char>) -> Signal {
    if text == "buy"@ {
        Signal::Buy
    } else if text == "sell"@ {
        Signal::Sell
    } else {
        Signal::Hold
    }
}

/// The signals that a sequence of texts stands for.
pub open spec fn signals_of(texts: Seq<String>) -> Seq<Signal> {
    Seq::new(texts.len(), |i: int| signal_of(texts[i]@))
}

/// The books of a backtest.
pub struct Ledger {
    pub capital: int,
    pub side: Side,
    /// Trades: positions that were opened and closed again.
    pub num_trades: int,
    /// Positions closed at a profit.
    pub winning_trades: int,
    /// Positions closed at no profit.
    pub losing_trades: int,
    /// The sum of the profits of the winning trades.
    pub profit: int,
    /// The sum of the losses of the losing trades, as a positive amount.
    pub loss: int,
}

/// The books before the first signal.
pub open spec fn opening() -> Ledger {
    Ledger {
        capital: INITIAL_CAPITAL as int,
        side: Side::Flat,
        num_trades: 0,
        winning_trades: 0,
        losing_trades: 0,
        profit: 0,
        loss: 0,
    }
}

/// The books after a position was opened at `close`: the lot and one
/// commission are paid.
pub open spec fn opened_position(ledger: Ledger, side: Side, close: int) -> Ledger {
    Ledger { capital: ledger.capital - (LOT_SIZE * close + COMMISSION), side, ..ledger }
}

/// The books after the position was closed at `close` with the result
/// `trade_profit`: the lot less one commission is received, and the trade
/// is counted, as won where the result is above zero, as lost where it is
/// not.
pub open spec fn closed_position(ledger: Ledger, close: int, trade_profit: int) -> Ledger {
    let paid = Ledger {
        capital: ledger.capital + (LOT_SIZE * close - COMMISSION),
        side: Side::Flat,
        num_trades: ledger.num_trades + 1,
        ..ledger
    };
    if trade_profit > 0 {
        Ledger {
            winning_trades: ledger.winning_trades + 1,
            profit: ledger.profit + trade_profit,
            ..paid
        }
    } else {
        Ledger {
            losing_trades: ledger.losing_trades + 1,
            loss: ledger.loss - trade_profit,
            ..paid
        }
    }
}

/// The books after one signal at a bar that closes at `close`, the bar
/// before it having closed at `prev_close`.
///
/// A buy opens a long position and a sell a short one where none is held. A
/// sell closes a long position and a buy a short one; the result of the
/// trade is the lot times the move of the close since the bar before, in
/// favour of the position, less two commissions. Every other signal leaves
/// the books as they are.
pub open spec fn step(ledger: Ledger, signal: Signal, close: int, prev_close: int) -> Ledger {
    match (signal, ledger.side) {
        (Signal::Buy, Side::Flat) => opened_position(ledger, Side::Long, close),
        (Signal::Sell, Side::Flat) => opened_position(ledger, Side::Short, close),
        (Signal::Sell, Side::Long) => closed_position(
            ledger,
            close,
            LOT_SIZE * (close - prev_close) - 2 * COMMISSION,
        ),
        (Signal::Buy, Side::Short) => closed_position(
            ledger,
            close,
            LOT_SIZE * (prev_close - close) - 2 * COMMISSION,
        ),
        _ => ledger,
    }
}

/// The books after the signals at the indices 1 to `n - 1`. The signal at
/// index 0 is not acted on.
pub open spec fn ledger_at(prices: Seq<int>, signals: Seq<Signal>, n: int) -> Ledger
    decreases n,
{
    if n <= 1 {
        opening()
    } else {
        step(ledger_at(prices, signals, n - 1), signals[n - 1], prices[n - 1], prices[n - 2])
    }
}

/// The capital at the end: a position that is still held is given up at
/// the last close, for one commission.
pub open spec fn final_capital_of(ledger: Ledger, last_close: int) -> int {
    if ledger.side == Side::Flat {
        ledger.capital
    } else {
        ledger.capital + LOT_SIZE * last_close - COMMISSION
    }
}

/// The winning trades in percent of the trades, in ticks; zero where there
/// was no trade.
pub open spec fn winning_percentage_of(ledger: Ledger) -> int {
    if ledger.num_trades > 0 {
        (ledger.winning_trades * 100 * SCALE) / ledger.num_trades
    } else {
        0
    }
}

/// The gross profit by the gross loss, in ticks of the ratio; the gross
/// profit itself where nothing was lost.
pub open spec fn profit_factor_of(ledger: Ledger) -> int {
    if ledger.loss > 0 {
        (ledger.profit * SCALE) / ledger.loss
    } else {
        ledger.profit
    }
}

/// The gain of a final capital over the initial one in percent, in ticks.
pub open spec fn return_percentage_of(final_capital: int) -> int {
    ((final_capital - INITIAL_CAPITAL) * 100 * SCALE) / (INITIAL_CAPITAL as int)
}

/// The last close of a series, or zero where it is empty.
pub open spec fn last_close(prices: Seq<int>) -> int {
    if prices.len() == 0 {
        0
    } else {
        prices[prices.len() - 1]
    }
}

/// The figures of a report are those of the books after all signals, and
/// its trades are as many as the winning and the losing ones together.
pub open spec fn reports(r: StrategyResult, prices: Seq<int>, signals: Seq<Signal>) -> bool {
    let ledger = ledger_at(prices, signals, signals.len() as int);
    let capital = final_capital_of(ledger, last_close(prices));
    &&& r.num_trades == ledger.num_trades
    &&& r.num_trades == r.winning_trades + r.losing_trades
    &&& r.winning_trades == ledger.winning_trades
    &&& r.losing_trades == ledger.losing_trades
    &&& r.winning_percentage == winning_percentage_of(ledger)
    &&& r.profit_factor == profit_factor_of(ledger)
    &&& r.final_capital == capital
    &&& r.total_return_percentage == return_percentage_of(capital)
}

/// Every trade is a win or a loss; won and lost amounts are never
/// negative; and all amounts are bounded by the number of signals.
pub proof fn lemma_ledger_balance(prices: Seq<int>, signals: Seq<Signal>, n: int)
    requires
        n <= prices.len(),
        n <= signals.len(),
        forall|k: int|
            0 <= k < prices.len() ==> -PRICE_LIMIT <= #[trigger] prices[k] <= PRICE_LIMIT,
    ensures
        ({
            let ledger = ledger_at(prices, signals, n);
            let steps = if n <= 1 {
                0
            } else {
                n - 1
            };
            &&& ledger.num_trades == ledger.winning_trades + ledger.losing_trades
            &&& 0 <= ledger.winning_trades
            &&& 0 <= ledger.losing_trades
            &&& 0 <= ledger.num_trades <= steps
            &&& 0 <= ledger.profit <= steps * (40 * PRICE_LIMIT)
            &&& 0 <= ledger.loss <= steps * (40 * PRICE_LIMIT + 2 * COMMISSION)
            &&& INITIAL_CAPITAL - steps * (20 * PRICE_LIMIT + COMMISSION) <= ledger.capital
                <= INITIAL_CAPITAL + steps * (20 * PRICE_LIMIT + COMMISSION)
        }),
    decreases n,
{
    if n > 1 {
        lemma_ledger_balance(prices, signals, n - 1);
        let steps = n - 1;
        assert(steps * (40 * PRICE_LIMIT) == (steps - 1) * (40 * PRICE_LIMIT) + 40 * PRICE_LIMIT)
            by (nonlinear_arith);
        assert(steps * (40 * PRICE_LIMIT + 2 * COMMISSION) == (steps - 1) * (40 * PRICE_LIMIT + 2
            * COMMISSION) + (40 * PRICE_LIMIT + 2 * COMMISSION)) by (nonlinear_arith);
        assert(steps * (20 * PRICE_LIMIT + COMMISSION) == (steps - 1) * (20 * PRICE_LIMIT
            + COMMISSION) + (20 * PRICE_LIMIT + COMMISSION)) by (nonlinear_arith);
        assert(-PRICE_LIMIT <= prices[n - 1] <= PRICE_LIMIT);
        assert(-PRICE_LIMIT <= prices[n - 2] <= PRICE_LIMIT);
        if n == 2 {
            assert((steps - 1) * (40 * PRICE_LIMIT) == 0) by (nonlinear_arith)
                requires
                    steps == 1,
            ;
            assert((steps - 1) * (40 * PRICE_LIMIT + 2 * COMMISSION) == 0) by (nonlinear_arith)
                requires
                    steps == 1,
            ;
            assert((steps - 1) * (20 * PRICE_LIMIT + COMMISSION) == 0) by (nonlinear_arith)
                requires
                    steps == 1,
            ;
        }
    }
}

/// Every trade is won or lost: the trades are as many as the winning and
/// the losing ones together, whatever the signals. A position that is
/// still held at the end is no trade yet.
pub proof fn lemma_trades_add_up(prices: Seq<int>, signals: Seq<Signal>, n: int)
    ensures
        ledger_at(prices, signals, n).num_trades == ledger_at(prices, signals, n).winning_trades
            + ledger_at(prices, signals, n).losing_trades,
    decreases n,
{
    if n > 1 {
        lemma_trades_add_up(prices, signals, n - 1);
    }
}

/// Signals that all hold leave the capital as it was at the start: there
/// is no trade and no commission.
pub proof fn lemma_all_hold(prices: Seq<int>, signals: Seq<Signal>, n: int)
    requires
        n <= signals.len(),
        forall|i: int| 1 <= i < n ==> #[trigger] signals[i] == Signal::Hold,
    ensures
        ledger_at(prices, signals, n) == opening(),
        final_capital_of(ledger_at(prices, signals, n), last_close(prices)) == INITIAL_CAPITAL,
        return_percentage_of(INITIAL_CAPITAL as int) == 0,
    decreases n,
{
    if n > 1 {
        lemma_all_hold(prices, signals, n - 1);
    }
    lemma_return_percentage(INITIAL_CAPITAL as int);
}

/// Dividing a gain by a thousand gives its percentage of the initial
/// capital in ticks.
pub proof fn lemma_return_percentage(final_capital: int)
    ensures
        return_percentage_of(final_capital) == (final_capital - INITIAL_CAPITAL) / 1000,
{
    let x = final_capital - INITIAL_CAPITAL;
    let q = x / 1000;
    let r = x % 1000;
    assert(x * 100 * SCALE == q * (INITIAL_CAPITAL as int) + r * 1_000_000) by (nonlinear_arith)
        requires
            x == 1000 * q + r,
            SCALE == 10_000,
            INITIAL_CAPITAL == 1_000_000_000,
    ;
    lemma_fundamental_div_mod_converse(
        x * 100 * SCALE,
        INITIAL_CAPITAL as int,
        q,
        r * 1_000_000,
    );
}

/// Reads a signal.
fn read_signal(text: &String, buy: &String, sell: &String) -> (signal: Signal)
    requires
        buy@ == "buy"@,
        sell@ == "sell"@,
    ensures
        signal == signal_of(text@),
{
    if *text == *buy {
        Signal::Buy
    } else if *text == *sell {
        Signal::Sell
    } else {
        Signal::Hold
    }
}

/// Runs the signals over the closes of a series and reports how the
/// capital fared. Signal and quote of one index belong together; the first
/// signal is not acted on.
pub fn calculate_performance(data: &[CustomQuote], signals: &[String]) -> (r: StrategyResult)
    requires
        data.len() == signals.len(),
    ensures
        reports(r, closes(data@), signals_of(signals@)),
        r.signals@.len() == signals@.len(),
        forall|i: int| 0 <= i < signals@.len() ==> (#[trigger] r.signals@[i])@ == signals@[i]@,
        r.dates@.len() == data@.len(),
        forall|i: int|
            0 <= i < data@.len() ==> (#[trigger] r.dates@[i])@ == date_label(data@[i].time as int),
{
    let buy = String::from_str("buy");
    let sell = String::from_str("sell");
    let ghost prices = closes(data@);
    let ghost asked = signals_of(signals@);
    let mut capital: i128 = INITIAL_CAPITAL;
    let mut side = Side::Flat;
    let mut num_trades: usize = 0;
    let mut winning_trades: usize = 0;
    let mut losing_trades: usize = 0;
    let mut profit: i128 = 0;
    let mut loss: i128 = 0;
    let mut shown: Vec<String> = Vec::new();
    let mut dates: Vec<String> = Vec::new();
    let mut last: i64 = 0;
    let mut i: usize = 0;
    while i < signals.len()
        invariant
            i <= signals.len(),
            data@.len() == signals@.len(),
            buy@ == "buy"@,
            sell@ == "sell"@,
            prices == closes(data@),
            asked == signals_of(signals@),
            forall|k: int| 0 <= k < i ==> -PRICE_LIMIT <= #[trigger] prices[k] <= PRICE_LIMIT,
            last == last_close(prices.take(i as int)),
            -PRICE_LIMIT <= last <= PRICE_LIMIT,
            ({
                let ledger = ledger_at(prices, asked, i as int);
                &&& capital == ledger.capital
                &&& side == ledger.side
                &&& num_trades == ledger.num_trades
                &&& winning_trades == ledger.winning_trades
                &&& losing_trades == ledger.losing_trades
                &&& profit == ledger.profit
                &&& loss == ledger.loss
            }),
            shown@.len() == i,
            dates@.len() == i,
            forall|k: int| 0 <= k < i ==> (#[trigger] shown@[k])@ == signals@[k]@,
            forall|k: int|
                0 <= k < i ==> (#[trigger] dates@[k])@ == date_label(data@[k].time as int),
        decreases signals.len() - i,
    {
        let close: i64 = amount_or_zero(data[i].close);
        proof {
            let cut = prices.take(i as int);
            let more = prices.take(i + 1);
            assert(forall|k: int| 0 <= k < i ==> cut[k] == prices[k]);
            assert forall|k: int| 0 <= k < more.len() implies -PRICE_LIMIT <= #[trigger] more[k]
                <= PRICE_LIMIT by {
                assert(more[k] == prices[k]);
            }
            lemma_ledger_balance(more, asked, i as int);
            lemma_ledger_balance(more, asked, i + 1);
            lemma_same_ledger(prices, more, asked, i + 1);
            lemma_product_bound(
                i as int,
                40 * PRICE_LIMIT + 2 * COMMISSION,
                0xffff_ffff_ffff_ffff,
                40 * PRICE_LIMIT + 2 * COMMISSION,
            );
            lemma_product_bound(
                i as int,
                40 * PRICE_LIMIT,
                0xffff_ffff_ffff_ffff,
                40 * PRICE_LIMIT,
            );
            lemma_product_bound(
                i as int,
                20 * PRICE_LIMIT + COMMISSION,
                0xffff_ffff_ffff_ffff,
                20 * PRICE_LIMIT + COMMISSION,
            );
        }
        if i >= 1 {
            let signal = read_signal(&signals[i], &buy, &sell);
            let turnover: i128 = LOT_SIZE * (close as i128);
            let moved: i128 = LOT_SIZE * (close as i128 - last as i128);
            match (signal, side) {
                (Signal::Buy, Side::Flat) => {
                    side = Side::Long;
                    capital = capital - (turnover + COMMISSION);
                },
                (Signal::Sell, Side::Flat) => {
                    side = Side::Short;
                    capital = capital - (turnover + COMMISSION);
                },
                (Signal::Sell, Side::Long) => {
                    num_trades = num_trades + 1;
                    capital = capital + (turnover - COMMISSION);
                    let trade_profit: i128 = moved - 2 * COMMISSION;
                    if trade_profit > 0 {
                        winning_trades = winning_trades + 1;
                        profit = profit + trade_profit;
                    } else {
                        losing_trades = losing_trades + 1;
                        loss = loss - trade_profit;
                    }
                    side = Side::Flat;
                },
                (Signal::Buy, Side::Short) => {
                    num_trades = num_trades + 1;
                    capital = capital + (turnover - COMMISSION);
                    let trade_profit: i128 = -moved - 2 * COMMISSION;
                    if trade_profit > 0 {
                        winning_trades = winning_trades + 1;
                        profit = profit + trade_profit;
                    } else {
                        losing_trades = losing_trades + 1;
                        loss = loss - trade_profit;
                    }
                    side = Side::Flat;
                },
                _ => {},
            }
        }
        shown.push(signals[i].clone());
        dates.push(label_of(data[i].time));
        last = close;
        i = i + 1;
    }
    let ghost ledger = ledger_at(prices, asked, signals@.len() as int);
    proof {
        assert(prices.take(i as int) == prices);
        lemma_ledger_balance(prices, asked, i as int);
        let steps: int = if i <= 1 {
            0
        } else {
            i - 1
        };
        lemma_product_bound(
            steps,
            40 * PRICE_LIMIT + 2 * COMMISSION,
            0xffff_ffff_ffff_ffff,
            40 * PRICE_LIMIT + 2 * COMMISSION,
        );
        lemma_product_bound(steps, 40 * PRICE_LIMIT, 0xffff_ffff_ffff_ffff, 40 * PRICE_LIMIT);
        lemma_product_bound(
            steps,
            20 * PRICE_LIMIT + COMMISSION,
            0xffff_ffff_ffff_ffff,
            20 * PRICE_LIMIT + COMMISSION,
        );
    }
    let final_capital: i128 = match side {
        Side::Flat => capital,
        _ => capital + LOT_SIZE * (last as i128) - COMMISSION,
    };
    let winning_percentage: i64 = if num_trades > 0 {
        proof {
            assert(0 * ledger.num_trades <= ledger.winning_trades * 100 * SCALE <= 1_000_000
                * ledger.num_trades) by (nonlinear_arith)
                requires
                    0 <= ledger.winning_trades <= ledger.num_trades,
                    SCALE == 10_000,
            ;
            lemma_quotient_between(
                ledger.winning_trades * 100 * SCALE,
                ledger.num_trades,
                0,
                1_000_000,
            );
        }
        floor_div(winning_trades as i128 * 100 * (SCALE as i128), num_trades as i128) as i64
    } else {
        0
    };
    let profit_factor: i128 = if loss > 0 {
        proof {
            lemma_product_bound(
                SCALE as int,
                profit as int,
                SCALE as int,
                0xffff_ffff_ffff_ffff * (40 * PRICE_LIMIT),
            );
            assert(profit * SCALE == SCALE * profit) by (nonlinear_arith);
        }
        floor_div(profit * (SCALE as i128), loss)
    } else {
        profit
    };
    proof {
        lemma_return_percentage(final_capital as int);
    }
    let total_return_percentage: i128 = floor_div(final_capital - INITIAL_CAPITAL, 1000);
    StrategyResult {
        signals: shown,
        dates,
        num_trades,
        winning_trades,
        losing_trades,
        winning_percentage,
        profit_factor,
        final_capital,
        total_return_percentage,
    }
}

/// The books depend on the closes up to the last signal only.
pub proof fn lemma_same_ledger(a: Seq<int>, b: Seq<int>, signals: Seq<Signal>, n: int)
    requires
        n <= a.len(),
        n <= b.len(),
        forall|k: int| 0 <= k < n ==> a[k] == b[k],
    ensures
        ledger_at(a, signals, n) == ledger_at(b, signals, n),
    decreases n,
{
    if n > 1 {
        lemma_same_ledger(a, b, signals, n - 1);
    }
}

} // verus!
