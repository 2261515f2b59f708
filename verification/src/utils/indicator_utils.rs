//! The technical indicators: moving averages, RSI, MACD and volume.
//!
//! Every indicator is a function of the closes of a series, in ticks. Each
//! quotient is rounded down to the tick.
use crate::types::{
    amount_or_zero, closes, times, CustomQuote, IndicatorData, PRICE_LIMIT, SAMPLE_LIMIT, SCALE,
};
use crate::utils::arith::{floor_div, lemma_product_bound, lemma_quotient_between};
use vstd::prelude::*;

verus! {

/// The sum of `values[lo]` to `values[hi - 1]`.
pub open spec fn range_sum(values: Seq<int>, lo: int, hi: int) -> int
    decreases hi - lo,
{
    if hi <= lo {
        0
    } else {
        range_sum(values, lo, hi - 1) + values[hi - 1]
    }
}

/// Where the window of `period` values that ends before index `end` starts.
pub open spec fn window_start(end: int, period: int) -> int {
    if end > period {
        end - period
    } else {
        0
    }
}

/// The simple moving average at index `i`: the mean of the last `period`
/// values up to `values[i]`, or of all values so far where they are fewer.
pub open spec fn sma_at(values: Seq<int>, period: int, i: int) -> int {
    let start = window_start(i + 1, period);
    range_sum(values, start, i + 1) / (i + 1 - start)
}

/// The simple moving average at every index.
pub open spec fn sma_values(values: Seq<int>, period: int) -> Seq<int> {
    Seq::new(values.len(), |i: int| sma_at(values, period, i))
}

/// An amount held within `SAMPLE_LIMIT` of zero: the amount itself where it
/// is that close, and else the limit on its side.
pub open spec fn held(amount: int) -> int {
    if amount < -SAMPLE_LIMIT {
        -SAMPLE_LIMIT as int
    } else if amount > SAMPLE_LIMIT {
        SAMPLE_LIMIT as int
    } else {
        amount
    }
}

/// One step of exponential smoothing with the constant `2 / (period + 1)`:
/// `value * k + prev * (1 - k)`.
///
/// With a period of zero the constant is 2 and the step is `2 * value -
/// prev`, which does not stay among its values and can grow with every
/// step; it is then held within `SAMPLE_LIMIT`.
pub open spec fn ema_next(value: int, prev: int, period: int) -> int {
    let exact = (2 * value + (period - 1) * prev) / (period + 1);
    if period >= 1 {
        exact
    } else {
        held(exact)
    }
}

/// The exponential moving average at index `i`. It starts at `values[0]`.
pub open spec fn ema_at(values: Seq<int>, period: int, i: int) -> int
    decreases i,
{
    if i <= 0 {
        values[0]
    } else {
        ema_next(values[i], ema_at(values, period, i - 1), period)
    }
}

/// The exponential moving average at every index.
pub open spec fn ema_values(values: Seq<int>, period: int) -> Seq<int> {
    Seq::new(values.len(), |i: int| ema_at(values, period, i))
}

/// The rise from `values[j - 1]` to `values[j]`, or zero where it is none.
pub open spec fn gain(values: Seq<int>, j: int) -> int {
    if values[j] - values[j - 1] > 0 {
        values[j] - values[j - 1]
    } else {
        0
    }
}

/// The fall from `values[j - 1]` to `values[j]`, or zero where it is none.
pub open spec fn loss(values: Seq<int>, j: int) -> int {
    if values[j] - values[j - 1] > 0 {
        0
    } else {
        values[j - 1] - values[j]
    }
}

/// The sum of the rises that end at the indices `lo` to `hi - 1`.
pub open spec fn gains(values: Seq<int>, lo: int, hi: int) -> int
    decreases hi - lo,
{
    if hi <= lo {
        0
    } else {
        gains(values, lo, hi - 1) + gain(values, hi - 1)
    }
}

/// The sum of the falls that end at the indices `lo` to `hi - 1`.
pub open spec fn losses(values: Seq<int>, lo: int, hi: int) -> int
    decreases hi - lo,
{
    if hi <= lo {
        0
    } else {
        losses(values, lo, hi - 1) + loss(values, hi - 1)
    }
}

/// One hundred, in ticks.
pub open spec fn hundred() -> int {
    100 * SCALE
}

/// The relative strength index of summed rises `up` and falls `down`, both
/// in ticks: `100 - 100 / (1 + rs)`, where `rs` is `up / down`, or `up`
/// counted in units where there is no fall.
pub open spec fn rsi_of(up: int, down: int) -> int {
    if down == 0 {
        hundred() - (hundred() * SCALE) / (SCALE + up)
    } else {
        hundred() - (hundred() * down) / (up + down)
    }
}

/// The relative strength index at index `i`, over the `period` changes that
/// lead up to `values[i]`.
pub open spec fn rsi_at(values: Seq<int>, period: int, i: int) -> int {
    rsi_of(gains(values, i - period + 1, i + 1), losses(values, i - period + 1, i + 1))
}

/// The relative strength index at every index from `period` on.
pub open spec fn rsi_values(values: Seq<int>, period: int) -> Seq<int> {
    Seq::new(
        if values.len() > period {
            (values.len() - period) as nat
        } else {
            0
        },
        |k: int| rsi_at(values, period, period + k),
    )
}

/// The MACD line at every index: the short average less the long one.
pub open spec fn macd_values(values: Seq<int>, short: int, long: int) -> Seq<int> {
    Seq::new(values.len(), |i: int| ema_at(values, short, i) - ema_at(values, long, i))
}

/// The signal line: the MACD line, smoothed.
pub open spec fn signal_values(values: Seq<int>, short: int, long: int, signal: int) -> Seq<int> {
    ema_values(macd_values(values, short, long), signal)
}

/// The MACD histogram: the MACD line less the signal line.
pub open spec fn histogram_values(values: Seq<int>, short: int, long: int, signal: int) -> Seq<
    int,
> {
    Seq::new(
        values.len(),
        |i: int|
            macd_values(values, short, long)[i] - signal_values(values, short, long, signal)[i],
    )
}

/// The volume of a quote as a sample: the count itself, zero where it is
/// missing, and the largest sample where the count is beyond it.
pub open spec fn volume_of(q: CustomQuote) -> int {
    match q.volume {
        Some(count) => if count > i64::MAX {
            i64::MAX as int
        } else {
            count as int
        },
        None => 0,
    }
}

/// The volume at every index.
pub open spec fn volume_values(data: Seq<CustomQuote>) -> Seq<int> {
    Seq::new(data.len(), |i: int| volume_of(data[i]))
}

/// The values of the samples.
pub open spec fn values_of(series: Seq<IndicatorData>) -> Seq<int> {
    Seq::new(series.len(), |i: int| series[i].value as int)
}

/// The instants of the samples.
pub open spec fn times_of(series: Seq<IndicatorData>) -> Seq<int> {
    Seq::new(series.len(), |i: int| series[i].time as int)
}

/// The samples are at `instants`, in this order, and have `values`.
pub open spec fn follows(out: Seq<IndicatorData>, instants: Seq<int>, values: Seq<int>) -> bool {
    &&& out.len() == values.len()
    &&& out.len() <= instants.len()
    &&& forall|i: int|
        0 <= i < out.len() ==> (#[trigger] out[i]).time == instants[i] && out[i].value == values[i]
}

/// Every value is within `limit` of zero.
pub open spec fn all_within(values: Seq<int>, limit: int) -> bool {
    forall|i: int| 0 <= i < values.len() ==> -limit <= #[trigger] values[i] <= limit
}

/// A sum is its first term and the sum of the rest.
pub proof fn lemma_range_sum_without_first(values: Seq<int>, lo: int, hi: int)
    requires
        lo < hi,
    ensures
        range_sum(values, lo, hi) == values[lo] + range_sum(values, lo + 1, hi),
    decreases hi - lo,
{
    if lo + 1 < hi {
        lemma_range_sum_without_first(values, lo, hi - 1);
    } else {
        assert(range_sum(values, lo, hi - 1) == 0);
        assert(range_sum(values, lo + 1, hi) == 0);
    }
}

/// A sum of `n` terms within `limit` of zero is within `n * limit` of zero.
pub proof fn lemma_range_sum_bounded(values: Seq<int>, lo: int, hi: int, limit: int)
    requires
        0 <= lo <= hi <= values.len(),
        forall|k: int| lo <= k < hi ==> -limit <= #[trigger] values[k] <= limit,
    ensures
        -((hi - lo) * limit) <= range_sum(values, lo, hi) <= (hi - lo) * limit,
    decreases hi - lo,
{
    if lo < hi {
        lemma_range_sum_bounded(values, lo, hi - 1, limit);
        assert((hi - lo) * limit == (hi - 1 - lo) * limit + limit) by (nonlinear_arith);
    } else {
        assert((hi - lo) * limit == 0) by (nonlinear_arith)
            requires
                hi - lo == 0,
        ;
    }
}

/// A smoothing step lands between the value and the average before it.
pub proof fn lemma_ema_next_between(value: int, prev: int, period: int, lo: int, hi: int)
    requires
        period >= 1,
        lo <= value <= hi,
        lo <= prev <= hi,
    ensures
        lo <= ema_next(value, prev, period) <= hi,
{
    let x = 2 * value + (period - 1) * prev;
    assert(lo * (period + 1) <= x <= hi * (period + 1)) by (nonlinear_arith)
        requires
            period >= 1,
            lo <= value <= hi,
            lo <= prev <= hi,
            x == 2 * value + (period - 1) * prev,
    ;
    lemma_quotient_between(x, period + 1, lo, hi);
}

/// The exponential moving average of values within `limit` of zero is
/// within `limit` of zero, whatever the period, for a limit that is not
/// under `SAMPLE_LIMIT`.
pub proof fn lemma_ema_within(values: Seq<int>, period: int, i: int, limit: int)
    requires
        period >= 0,
        limit >= SAMPLE_LIMIT,
        0 <= i < values.len(),
        forall|k: int| 0 <= k <= i ==> -limit <= #[trigger] values[k] <= limit,
    ensures
        -limit <= ema_at(values, period, i) <= limit,
    decreases i,
{
    if i > 0 {
        lemma_ema_within(values, period, i - 1, limit);
        if period >= 1 {
            lemma_ema_next_between(
                values[i],
                ema_at(values, period, i - 1),
                period,
                -limit,
                limit,
            );
        }
    }
}

/// With a period of zero the smoothing is exact, `2 * value - prev`, as
/// long as it stays within `SAMPLE_LIMIT`; and over values within
/// `PRICE_LIMIT` it does so for the first half a million samples.
pub proof fn lemma_ema_of_period_zero(values: Seq<int>, i: int)
    requires
        0 <= i < values.len(),
        (2 * i + 1) * PRICE_LIMIT <= SAMPLE_LIMIT,
        forall|k: int| 0 <= k <= i ==> -PRICE_LIMIT <= #[trigger] values[k] <= PRICE_LIMIT,
    ensures
        -((2 * i + 1) * PRICE_LIMIT) <= ema_at(values, 0, i) <= (2 * i + 1) * PRICE_LIMIT,
        i > 0 ==> ema_at(values, 0, i) == 2 * values[i] - ema_at(values, 0, i - 1),
    decreases i,
{
    if i > 0 {
        assert((2 * i + 1) * PRICE_LIMIT == (2 * (i - 1) + 1) * PRICE_LIMIT + 2 * PRICE_LIMIT)
            by (nonlinear_arith);
        lemma_ema_of_period_zero(values, i - 1);
    } else {
        assert((2 * i + 1) * PRICE_LIMIT == PRICE_LIMIT) by (nonlinear_arith)
            requires
                i == 0,
        ;
    }
}

/// With a period of one or more, the exponential moving average stays
/// within the bounds of the values it is made of.
pub proof fn lemma_ema_between(values: Seq<int>, period: int, i: int, lo: int, hi: int)
    requires
        period >= 1,
        0 <= i < values.len(),
        forall|k: int| 0 <= k <= i ==> lo <= #[trigger] values[k] <= hi,
    ensures
        lo <= ema_at(values, period, i) <= hi,
    decreases i,
{
    if i > 0 {
        lemma_ema_between(values, period, i - 1, lo, hi);
        lemma_ema_next_between(values[i], ema_at(values, period, i - 1), period, lo, hi);
    }
}

/// The relative strength index lies between 0 and 100.
pub proof fn lemma_rsi_in_range(up: int, down: int)
    requires
        up >= 0,
        down >= 0,
    ensures
        0 <= rsi_of(up, down) <= hundred(),
{
    if down == 0 {
        let x = hundred() * SCALE;
        assert(0 * (SCALE + up) <= x <= hundred() * (SCALE + up)) by (nonlinear_arith)
            requires
                up >= 0,
                x == hundred() * SCALE,
                hundred() == 1_000_000,
                SCALE == 10_000,
        ;
        lemma_quotient_between(x, SCALE + up, 0, hundred());
    } else {
        let x = hundred() * down;
        assert(0 * (up + down) <= x <= hundred() * (up + down)) by (nonlinear_arith)
            requires
                up >= 0,
                down > 0,
                x == hundred() * down,
                hundred() == 1_000_000,
        ;
        lemma_quotient_between(x, up + down, 0, hundred());
    }
}

/// The sum of a stretch of one value is that value times its length.
pub proof fn lemma_range_sum_constant(values: Seq<int>, lo: int, hi: int, v: int)
    requires
        0 <= lo <= hi <= values.len(),
        forall|k: int| lo <= k < hi ==> #[trigger] values[k] == v,
    ensures
        range_sum(values, lo, hi) == (hi - lo) * v,
    decreases hi - lo,
{
    if lo < hi {
        lemma_range_sum_constant(values, lo, hi - 1, v);
        assert((hi - lo) * v == (hi - 1 - lo) * v + v) by (nonlinear_arith);
    } else {
        assert((hi - lo) * v == 0) by (nonlinear_arith)
            requires
                hi - lo == 0,
        ;
    }
}

/// The simple moving average of a constant series is the constant: where
/// every value up to index `i` is `v`, the average at `i` is `v`, whatever
/// the period.
pub proof fn lemma_sma_of_constant(values: Seq<int>, period: int, v: int, i: int)
    requires
        period >= 1,
        0 <= i < values.len(),
        forall|k: int| 0 <= k <= i ==> #[trigger] values[k] == v,
    ensures
        sma_at(values, period, i) == v,
{
    let start = window_start(i + 1, period);
    lemma_range_sum_constant(values, start, i + 1, v);
    vstd::arithmetic::div_mod::lemma_div_multiples_vanish(v, i + 1 - start);
}

/// With a period of one or more, the exponential moving average of a
/// series that stays at `v` after its first value moves toward `v` and
/// never past it: from below it rises and stays at or under `v`, from above
/// it falls and stays at or over `v`.
pub proof fn lemma_ema_approaches(values: Seq<int>, period: int, v: int, i: int)
    requires
        period >= 1,
        0 <= i,
        i + 1 < values.len(),
        forall|k: int| 1 <= k <= i + 1 ==> #[trigger] values[k] == v,
    ensures
        values[0] <= v ==> ema_at(values, period, i) <= ema_at(values, period, i + 1) <= v,
        values[0] >= v ==> v <= ema_at(values, period, i + 1) <= ema_at(values, period, i),
{
    let before = ema_at(values, period, i);
    if values[0] <= v {
        lemma_ema_between(values, period, i, values[0], v);
        lemma_ema_next_between(v, before, period, before, v);
    }
    if values[0] >= v {
        lemma_ema_between(values, period, i, v, values[0]);
        lemma_ema_next_between(v, before, period, v, before);
    }
}

/// Over a stretch in which the values never fall there are no losses.
pub proof fn lemma_no_losses(values: Seq<int>, lo: int, hi: int)
    requires
        forall|j: int| lo <= j < hi ==> #[trigger] values[j] >= values[j - 1],
    ensures
        losses(values, lo, hi) == 0,
        gains(values, lo, hi) >= 0,
    decreases hi - lo,
{
    if lo < hi {
        lemma_no_losses(values, lo, hi - 1);
    }
}

/// The relative strength index of a series that never falls over the
/// window. It has no losses, so `rs` is the sum of the rises, and the index
/// is `100 - 100 / (1 + rs)`. That is 100 exactly where the quotient rounds
/// down to nothing, which it does once the rises sum to a million units.
pub proof fn lemma_rsi_of_rising(values: Seq<int>, period: int, i: int)
    requires
        forall|j: int| i - period + 1 <= j <= i ==> #[trigger] values[j] >= values[j - 1],
    ensures
        rsi_at(values, period, i) == hundred() - (hundred() * SCALE) / (SCALE + gains(
            values,
            i - period + 1,
            i + 1,
        )),
        gains(values, i - period + 1, i + 1) > hundred() * SCALE - SCALE <==> rsi_at(
            values,
            period,
            i,
        ) == hundred(),
{
    lemma_no_losses(values, i - period + 1, i + 1);
    let up = gains(values, i - period + 1, i + 1);
    let x = hundred() * SCALE;
    if up > x - SCALE {
        vstd::arithmetic::div_mod::lemma_fundamental_div_mod_converse(x, SCALE + up, 0, x);
    } else {
        assert(1 * (SCALE + up) <= x <= x * (SCALE + up)) by (nonlinear_arith)
            requires
                0 <= up <= x - SCALE,
                SCALE == 10_000,
                x == 10_000_000_000,
        ;
        lemma_quotient_between(x, SCALE + up, 1, x);
    }
}

/// One step of exponential smoothing.
pub fn ema_step(value: i64, prev: i64, period: usize) -> (r: i64)
    ensures
        r == ema_next(value as int, prev as int, period as int),
        period >= 1 && value <= prev ==> value <= r <= prev,
        period >= 1 && prev <= value ==> prev <= r <= value,
        period == 0 ==> -SAMPLE_LIMIT <= r <= SAMPLE_LIMIT,
{
    if period == 0 {
        let exact: i128 = 2 * (value as i128) - prev as i128;
        assert(exact == (2 * value + (period - 1) * prev) / (period + 1)) by (nonlinear_arith)
            requires
                period == 0,
                exact == 2 * value - prev,
        ;
        return if exact < -(SAMPLE_LIMIT as i128) {
            -SAMPLE_LIMIT
        } else if exact > SAMPLE_LIMIT as i128 {
            SAMPLE_LIMIT
        } else {
            exact as i64
        };
    }
    let weight: i128 = period as i128 - 1;
    proof {
        lemma_product_bound(
            weight as int,
            prev as int,
            0xffff_ffff_ffff_fffe,
            0x8000_0000_0000_0000,
        );
        if value <= prev {
            lemma_ema_next_between(
                value as int,
                prev as int,
                period as int,
                value as int,
                prev as int,
            );
        } else {
            lemma_ema_next_between(
                value as int,
                prev as int,
                period as int,
                prev as int,
                value as int,
            );
        }
    }
    let carried: i128 = weight * (prev as i128);
    let top: i128 = 2 * (value as i128) + carried;
    floor_div(top, period as i128 + 1) as i64
}

/// The simple moving average of the closes over `period` quotes. The first
/// `period - 1` samples are the mean of the quotes so far.
pub fn calculate_sma(data: &[CustomQuote], period: usize) -> (sma_data: Vec<IndicatorData>)
    requires
        period >= 1,
    ensures
        follows(sma_data@, times(data@), sma_values(closes(data@), period as int)),
        all_within(values_of(sma_data@), PRICE_LIMIT as int),
{
    let mut sma_data: Vec<IndicatorData> = Vec::new();
    let mut sum: i128 = 0;
    let ghost values = closes(data@);
    let mut i: usize = 0;
    while i < data.len()
        invariant
            period >= 1,
            i <= data.len(),
            values == closes(data@),
            sma_data@.len() == i,
            forall|k: int| 0 <= k < i ==> -PRICE_LIMIT <= #[trigger] values[k] <= PRICE_LIMIT,
            sum == range_sum(values, window_start(i as int, period as int), i as int),
            forall|k: int|
                0 <= k < i ==> (#[trigger] sma_data@[k]).time == data@[k].time && sma_data@[k].value
                    == sma_at(values, period as int, k) && -PRICE_LIMIT <= sma_data@[k].value
                    <= PRICE_LIMIT,
        decreases data.len() - i,
    {
        let close: i64 = amount_or_zero(data[i].close);
        let ghost start = window_start(i as int, period as int);
        let ghost next = window_start(i + 1, period as int);
        proof {
            lemma_range_sum_bounded(values, start, i as int, PRICE_LIMIT as int);
            lemma_product_bound(
                i - start,
                PRICE_LIMIT as int,
                0xffff_ffff_ffff_ffff,
                PRICE_LIMIT as int,
            );
        }
        sum = sum + close as i128;
        if i >= period {
            proof {
                lemma_range_sum_without_first(values, start, i + 1);
            }
            sum = sum - amount_or_zero(data[i - period].close) as i128;
        }
        let count: i128 = if i >= period - 1 {
            period as i128
        } else {
            i as i128 + 1
        };
        proof {
            assert(sum == range_sum(values, next, i + 1));
            assert(count == i + 1 - next);
            lemma_range_sum_bounded(values, next, i + 1, PRICE_LIMIT as int);
            assert(-(PRICE_LIMIT as int) * count == -(count * PRICE_LIMIT)) by (nonlinear_arith);
            assert(PRICE_LIMIT * count == count * PRICE_LIMIT) by (nonlinear_arith);
            lemma_quotient_between(
                sum as int,
                count as int,
                -(PRICE_LIMIT as int),
                PRICE_LIMIT as int,
            );
        }
        let value: i64 = floor_div(sum, count) as i64;
        sma_data.push(IndicatorData { time: data[i].time, value });
        i = i + 1;
    }
    sma_data
}

/// The exponential moving average of the closes with the smoothing
/// constant `2 / (period + 1)`. The first sample is the first close.
pub fn calculate_ema(data: &[CustomQuote], period: usize) -> (ema_data: Vec<IndicatorData>)
    ensures
        follows(ema_data@, times(data@), ema_values(closes(data@), period as int)),
        all_within(values_of(ema_data@), SAMPLE_LIMIT as int),
        period >= 1 ==> all_within(values_of(ema_data@), PRICE_LIMIT as int),
{
    let mut ema_data: Vec<IndicatorData> = Vec::new();
    if data.len() == 0 {
        return ema_data;
    }
    let ghost values = closes(data@);
    let mut ema: i64 = amount_or_zero(data[0].close);
    ema_data.push(IndicatorData { time: data[0].time, value: ema });
    let mut i: usize = 1;
    while i < data.len()
        invariant
            1 <= i <= data.len(),
            values == closes(data@),
            ema_data@.len() == i,
            ema == ema_at(values, period as int, i - 1),
            -SAMPLE_LIMIT <= ema <= SAMPLE_LIMIT,
            period >= 1 ==> -PRICE_LIMIT <= ema <= PRICE_LIMIT,
            forall|k: int|
                0 <= k < i ==> (#[trigger] ema_data@[k]).time == data@[k].time && ema_data@[k].value
                    == ema_at(values, period as int, k) && -SAMPLE_LIMIT <= ema_data@[k].value
                    <= SAMPLE_LIMIT && (period >= 1 ==> -PRICE_LIMIT <= ema_data@[k].value
                    <= PRICE_LIMIT),
        decreases data.len() - i,
    {
        let close: i64 = amount_or_zero(data[i].close);
        ema = ema_step(close, ema, period);
        ema_data.push(IndicatorData { time: data[i].time, value: ema });
        i = i + 1;
    }
    ema_data
}

/// The exponential moving average of a series of samples, as
/// `calculate_ema` is that of closes.
pub fn calculate_ema_for_indicator_data(data: &[IndicatorData], period: usize) -> (ema_data: Vec<
    IndicatorData,
>)
    ensures
        follows(ema_data@, times_of(data@), ema_values(values_of(data@), period as int)),
{
    let mut ema_data: Vec<IndicatorData> = Vec::new();
    if data.len() == 0 {
        return ema_data;
    }
    let ghost values = values_of(data@);
    let mut ema: i64 = data[0].value;
    ema_data.push(IndicatorData { time: data[0].time, value: ema });
    let mut i: usize = 1;
    while i < data.len()
        invariant
            1 <= i <= data.len(),
            values == values_of(data@),
            ema_data@.len() == i,
            ema == ema_at(values, period as int, i - 1),
            forall|k: int|
                0 <= k < i ==> (#[trigger] ema_data@[k]).time == data@[k].time && ema_data@[k].value
                    == ema_at(values, period as int, k),
        decreases data.len() - i,
    {
        ema = ema_step(data[i].value, ema, period);
        ema_data.push(IndicatorData { time: data[i].time, value: ema });
        i = i + 1;
    }
    ema_data
}

/// The relative strength index over `period` changes of the close. There
/// is no sample for the first `period` quotes.
pub fn calculate_rsi(data: &[CustomQuote], period: usize) -> (rsi_data: Vec<IndicatorData>)
    ensures
        follows(
            rsi_data@,
            times(data@).skip(period as int),
            rsi_values(closes(data@), period as int),
        ),
        forall|k: int|
            0 <= k < rsi_data@.len() ==> 0 <= (#[trigger] rsi_data@[k]).value <= 100 * SCALE,
{
    let mut rsi_data: Vec<IndicatorData> = Vec::new();
    let ghost values = closes(data@);
    let mut i: usize = period;
    while i < data.len()
        invariant
            period <= i,
            values == closes(data@),
            i < data.len() ==> rsi_data@.len() == i - period,
            i >= data.len() ==> rsi_data@.len() == rsi_values(values, period as int).len(),
            forall|k: int|
                0 <= k < rsi_data@.len() ==> (#[trigger] rsi_data@[k]).time == data@[period + k].time
                    && rsi_data@[k].value == rsi_at(values, period as int, period + k) && 0
                    <= rsi_data@[k].value <= 100 * SCALE,
        decreases data.len() - i,
    {
        let mut up: i128 = 0;
        let mut down: i128 = 0;
        let first: usize = i - period + 1;
        let mut j: usize = first;
        while j <= i
            invariant
                period <= i < data.len(),
                first == i - period + 1,
                first <= j <= i + 1,
                values == closes(data@),
                up == gains(values, first as int, j as int),
                down == losses(values, first as int, j as int),
                0 <= up <= (j - first) * (2 * PRICE_LIMIT),
                0 <= down <= (j - first) * (2 * PRICE_LIMIT),
            decreases i + 1 - j,
        {
            let change: i128 = amount_or_zero(data[j].close) as i128 - amount_or_zero(
                data[j - 1].close,
            ) as i128;
            proof {
                assert((j + 1 - first) * (2 * PRICE_LIMIT) == (j - first) * (2 * PRICE_LIMIT) + 2
                    * PRICE_LIMIT) by (nonlinear_arith);
                lemma_product_bound(
                    j - first,
                    2 * PRICE_LIMIT,
                    0xffff_ffff_ffff_ffff,
                    2 * PRICE_LIMIT,
                );
            }
            if change > 0 {
                up = up + change;
            } else {
                down = down - change;
            }
            j = j + 1;
        }
        proof {
            lemma_product_bound(
                period as int,
                2 * PRICE_LIMIT,
                0xffff_ffff_ffff_ffff,
                2 * PRICE_LIMIT,
            );
            lemma_rsi_in_range(up as int, down as int);
        }
        let whole: i128 = 1_000_000;
        let part: i128 = if down == 0 {
            floor_div(whole * (SCALE as i128), SCALE as i128 + up)
        } else {
            proof {
                lemma_product_bound(
                    down as int,
                    whole as int,
                    0xffff_ffff_ffff_ffff * (2 * PRICE_LIMIT),
                    whole as int,
                );
                assert(whole * down == down * whole) by (nonlinear_arith);
            }
            floor_div(whole * down, up + down)
        };
        let value: i64 = (whole - part) as i64;
        rsi_data.push(IndicatorData { time: data[i].time, value });
        i = i + 1;
    }
    proof {
        assert forall|k: int| 0 <= k < rsi_data@.len() implies (#[trigger] rsi_data@[k]).time
            == times(data@).skip(period as int)[k] by {}
    }
    rsi_data
}

/// The MACD of the closes: the line (the short average less the long one),
/// the signal line (the line, smoothed) and the histogram (the line less
/// the signal line), each with one sample for every quote.
pub fn calculate_macd(
    data: &[CustomQuote],
    short_period: usize,
    long_period: usize,
    signal_period: usize,
) -> (r: (Vec<IndicatorData>, Vec<IndicatorData>, Vec<IndicatorData>))
    ensures
        follows(
            r.0@,
            times(data@),
            macd_values(closes(data@), short_period as int, long_period as int),
        ),
        follows(
            r.1@,
            times(data@),
            signal_values(
                closes(data@),
                short_period as int,
                long_period as int,
                signal_period as int,
            ),
        ),
        follows(
            r.2@,
            times(data@),
            histogram_values(
                closes(data@),
                short_period as int,
                long_period as int,
                signal_period as int,
            ),
        ),
        forall|i: int|
            0 <= i < r.2@.len() ==> (#[trigger] r.2@[i]).value == r.0@[i].value - r.1@[i].value,
{
    let short_ema = calculate_ema(data, short_period);
    let long_ema = calculate_ema(data, long_period);
    let ghost values = closes(data@);
    let ghost line = macd_values(values, short_period as int, long_period as int);
    let mut macd_line: Vec<IndicatorData> = Vec::new();
    let mut i: usize = 0;
    while i < short_ema.len()
        invariant
            i <= short_ema.len(),
            short_ema@.len() == data@.len(),
            long_ema@.len() == data@.len(),
            values == closes(data@),
            line == macd_values(values, short_period as int, long_period as int),
            follows(short_ema@, times(data@), ema_values(values, short_period as int)),
            follows(long_ema@, times(data@), ema_values(values, long_period as int)),
            all_within(values_of(short_ema@), SAMPLE_LIMIT as int),
            all_within(values_of(long_ema@), SAMPLE_LIMIT as int),
            macd_line@.len() == i,
            forall|k: int|
                0 <= k < i ==> (#[trigger] macd_line@[k]).time == data@[k].time && macd_line@[k].value
                    == line[k] && -2 * SAMPLE_LIMIT <= macd_line@[k].value <= 2 * SAMPLE_LIMIT,
        decreases short_ema.len() - i,
    {
        proof {
            assert(values_of(short_ema@)[i as int] == short_ema@[i as int].value);
            assert(values_of(long_ema@)[i as int] == long_ema@[i as int].value);
        }
        macd_line.push(
            IndicatorData {
                time: short_ema[i].time,
                value: short_ema[i].value - long_ema[i].value,
            },
        );
        i = i + 1;
    }
    let signal_line = calculate_ema_for_indicator_data(macd_line.as_slice(), signal_period);
    let ghost smooth = signal_values(
        values,
        short_period as int,
        long_period as int,
        signal_period as int,
    );
    proof {
        assert(values_of(macd_line@) =~= line);
        assert(times_of(macd_line@) =~= times(data@));
    }
    let mut macd_histogram: Vec<IndicatorData> = Vec::new();
    let mut i: usize = 0;
    while i < macd_line.len()
        invariant
            i <= macd_line.len(),
            macd_line@.len() == data@.len(),
            signal_line@.len() == data@.len(),
            line.len() == data@.len(),
            smooth == ema_values(line, signal_period as int),
            forall|k: int|
                0 <= k < macd_line@.len() ==> (#[trigger] macd_line@[k]).time == data@[k].time
                    && macd_line@[k].value == line[k] && -2 * SAMPLE_LIMIT
                    <= macd_line@[k].value <= 2 * SAMPLE_LIMIT,
            forall|k: int|
                0 <= k < signal_line@.len() ==> (#[trigger] signal_line@[k]).value == smooth[k],
            macd_histogram@.len() == i,
            forall|k: int|
                0 <= k < i ==> (#[trigger] macd_histogram@[k]).time == data@[k].time
                    && macd_histogram@[k].value == line[k] - smooth[k],
        decreases macd_line.len() - i,
    {
        proof {
            assert forall|k: int| 0 <= k <= i implies -2 * SAMPLE_LIMIT <= #[trigger] line[k] <= 2
                * SAMPLE_LIMIT by {
                assert(macd_line@[k].value == line[k]);
            }
            lemma_ema_within(line, signal_period as int, i as int, 2 * SAMPLE_LIMIT);
        }
        macd_histogram.push(
            IndicatorData {
                time: macd_line[i].time,
                value: macd_line[i].value - signal_line[i].value,
            },
        );
        i = i + 1;
    }
    (macd_line, signal_line, macd_histogram)
}

/// The volume of every quote, a missing volume counting as zero.
pub fn calculate_volume(data: &[CustomQuote]) -> (volume_data: Vec<IndicatorData>)
    ensures
        follows(volume_data@, times(data@), volume_values(data@)),
{
    let mut volume_data: Vec<IndicatorData> = Vec::new();
    let mut i: usize = 0;
    while i < data.len()
        invariant
            i <= data.len(),
            volume_data@.len() == i,
            forall|k: int|
                0 <= k < i ==> (#[trigger] volume_data@[k]).time == data@[k].time
                    && volume_data@[k].value == volume_of(data@[k]),
        decreases data.len() - i,
    {
        let value: i64 = match data[i].volume {
            Some(count) => if count > i64::MAX as u64 {
                i64::MAX
            } else {
                count as i64
            },
            None => 0,
        };
        volume_data.push(IndicatorData { time: data[i].time, value });
        i = i + 1;
    }
    volume_data
}

} // verus!
