//! The values that move through the cache: prices, quotes, indicator
//! samples, date windows and backtest reports.
use vstd::prelude::*;
use vstd::string::StringSliceAdditionalSpecFns;
use vstd::utf8::encode_utf8_decode_utf8;

verus! {

/// Ticks per currency unit: an amount of `n` ticks stands for `n / 10000`.
pub const SCALE: i64 = 10_000;

/// The largest magnitude a price may have, in ticks (one hundred million
/// units). The bound keeps every intermediate product of the indicator and
/// backtest arithmetic inside 128 bits, whatever the length of a series.
pub const PRICE_LIMIT: i64 = 1_000_000_000_000;

/// The largest magnitude that a smoothed sample is let reach where the
/// smoothing is of length zero, in ticks (a hundred trillion units). With
/// any other length a smoothed sample lies among the values it is made of.
pub const SAMPLE_LIMIT: i64 = 1_000_000_000_000_000_000;

/// 2000-01-01T00:00:00Z, the earliest instant a window is ever grown to.
pub const MIN_DATE: i64 = 946_684_800_000;

/// Milliseconds in a day.
pub const DAY_MS: i64 = 86_400_000;

/// A price in ticks, never larger in magnitude than `PRICE_LIMIT`.
#[derive(Clone, Copy, Debug, PartialEq, Eq, Structural)]
pub struct Price {
    ticks: i64,
}

impl View for Price {
    type V = int;

    closed spec fn view(&self) -> int {
        self.ticks as int
    }
}

impl Price {
    #[verifier::type_invariant]
    spec fn within_limit(self) -> bool {
        -PRICE_LIMIT <= self.ticks <= PRICE_LIMIT
    }

    /// The price of `ticks` ticks, if that is within the limit.
    pub fn new(ticks: i64) -> (r: Option<Price>)
        ensures
            r is Some <==> -PRICE_LIMIT <= ticks <= PRICE_LIMIT,
            r matches Some(p) ==> p@ == ticks,
    {
        if -PRICE_LIMIT <= ticks && ticks <= PRICE_LIMIT {
            Some(Price { ticks })
        } else {
            None
        }
    }

    /// The number of ticks.
    pub fn ticks(&self) -> (r: i64)
        ensures
            r == self@,
            -PRICE_LIMIT <= r <= PRICE_LIMIT,
    {
        proof {
            use_type_invariant(self);
        }
        self.ticks
    }
}

/// The ticks of an optional price, a missing one counting as zero.
pub open spec fn amount(p: Option<Price>) -> int {
    match p {
        Some(x) => x@,
        None => 0,
    }
}

/// The ticks of an optional price, a missing one counting as zero.
pub fn amount_or_zero(p: Option<Price>) -> (r: i64)
    ensures
        r == amount(p),
        -PRICE_LIMIT <= r <= PRICE_LIMIT,
{
    match p {
        Some(x) => x.ticks(),
        None => 0,
    }
}

/// Anything that carries an instant by which it can be put in order.
pub trait Timed: Copy {
    /// The instant, in milliseconds since the Unix epoch.
    spec fn instant(&self) -> int;

    /// The instant, in milliseconds since the Unix epoch.
    fn time_ms(&self) -> (t: i64)
        ensures
            t == self.instant(),
    ;
}

/// The timeframes a symbol is charted in.
#[derive(Clone, Copy, Debug, PartialEq, Eq, Structural)]
pub enum Timeframe {
    Minute,
    Hour,
    Day,
    Week,
}

impl Timeframe {
    /// The timeframe that a name stands for: `1M`, `1H`, `1D` or `1WK`.
    pub open spec fn named(name: Seq<char>) -> Option<Timeframe> {
        if name == "1M"@ {
            Some(Timeframe::Minute)
        } else if name == "1H"@ {
            Some(Timeframe::Hour)
        } else if name == "1D"@ {
            Some(Timeframe::Day)
        } else if name == "1WK"@ {
            Some(Timeframe::Week)
        } else {
            None
        }
    }

    /// Reads a timeframe from its name.
    pub fn parse(name: &str) -> (r: Option<Timeframe>)
        ensures
            r == Timeframe::named(name@),
    {
        if same_text(name, "1M") {
            Some(Timeframe::Minute)
        } else if same_text(name, "1H") {
            Some(Timeframe::Hour)
        } else if same_text(name, "1D") {
            Some(Timeframe::Day)
        } else if same_text(name, "1WK") {
            Some(Timeframe::Week)
        } else {
            None
        }
    }

    /// The name of the timeframe.
    pub open spec fn name(self) -> Seq<char> {
        match self {
            Timeframe::Minute => "1M"@,
            Timeframe::Hour => "1H"@,
            Timeframe::Day => "1D"@,
            Timeframe::Week => "1WK"@,
        }
    }

    /// The name of the timeframe.
    pub fn as_str(self) -> (r: &'static str)
        ensures
            r@ == self.name(),
    {
        match self {
            Timeframe::Minute => "1M",
            Timeframe::Hour => "1H",
            Timeframe::Day => "1D",
            Timeframe::Week => "1WK",
        }
    }

    /// How far back the first window of a series reaches, in milliseconds:
    /// 3 days, 15 weeks, 4 years and 7 years of 365 days.
    pub open spec fn lookback(self) -> int {
        match self {
            Timeframe::Minute => 3 * DAY_MS,
            Timeframe::Hour => 105 * DAY_MS,
            Timeframe::Day => 1460 * DAY_MS,
            Timeframe::Week => 2555 * DAY_MS,
        }
    }

    /// How far back the first window of a series reaches, in milliseconds.
    pub fn lookback_ms(self) -> (r: i64)
        ensures
            r == self.lookback(),
    {
        match self {
            Timeframe::Minute => 3 * DAY_MS,
            Timeframe::Hour => 105 * DAY_MS,
            Timeframe::Day => 1460 * DAY_MS,
            Timeframe::Week => 2555 * DAY_MS,
        }
    }

    /// By how much a refresh moves the start of a window back, in
    /// milliseconds: 5 days, 30 weeks, 8 years and 15 years of 365 days.
    pub open spec fn growth(self) -> int {
        match self {
            Timeframe::Minute => 5 * DAY_MS,
            Timeframe::Hour => 210 * DAY_MS,
            Timeframe::Day => 2920 * DAY_MS,
            Timeframe::Week => 5475 * DAY_MS,
        }
    }

    /// By how much a refresh moves the start of a window back, in
    /// milliseconds.
    pub fn growth_ms(self) -> (r: i64)
        ensures
            r == self.growth(),
    {
        match self {
            Timeframe::Minute => 5 * DAY_MS,
            Timeframe::Hour => 210 * DAY_MS,
            Timeframe::Day => 2920 * DAY_MS,
            Timeframe::Week => 5475 * DAY_MS,
        }
    }

    /// The timeframes, from the shortest to the longest.
    pub fn all() -> (r: Vec<Timeframe>)
        ensures
            r@ == seq![Timeframe::Minute, Timeframe::Hour, Timeframe::Day, Timeframe::Week],
    {
        let mut r: Vec<Timeframe> = Vec::new();
        r.push(Timeframe::Minute);
        r.push(Timeframe::Hour);
        r.push(Timeframe::Day);
        r.push(Timeframe::Week);
        proof {
            assert(r@ =~= seq![
                Timeframe::Minute,
                Timeframe::Hour,
                Timeframe::Day,
                Timeframe::Week,
            ]);
        }
        r
    }

    /// Each growth step is longer than the look-back of its timeframe, so
    /// repeated refreshes widen a window at an increasing rate.
    pub proof fn lemma_growth_exceeds_lookback(self)
        ensures
            self.growth() > self.lookback() > 0,
    {
    }
}

/// Whether two texts hold the same characters.
pub fn same_text(a: &str, b: &str) -> (r: bool)
    ensures
        r == (a@ == b@),
{
    let left = a.as_bytes();
    let right = b.as_bytes();
    proof {
        encode_utf8_decode_utf8(a@);
        encode_utf8_decode_utf8(b@);
    }
    if left.len() != right.len() {
        return false;
    }
    let mut i: usize = 0;
    while i < left.len()
        invariant
            i <= left.len(),
            left@.len() == right@.len(),
            left@ == a.spec_bytes(),
            right@ == b.spec_bytes(),
            forall|k: int| 0 <= k < i ==> left@[k] == right@[k],
        decreases left.len() - i,
    {
        if left[i] != right[i] {
            proof {
                if a@ == b@ {
                    assert(left@[i as int] == right@[i as int]);
                }
            }
            return false;
        }
        i = i + 1;
    }
    proof {
        assert(left@ =~= right@);
    }
    true
}

/// `instant - span`, but never earlier than `MIN_DATE`.
pub open spec fn back_to_floor(instant: int, span: int) -> int {
    if instant - span < MIN_DATE {
        MIN_DATE as int
    } else {
        instant - span
    }
}

/// `instant - span`, but never earlier than `MIN_DATE`.
pub fn step_back(instant: i64, span: i64) -> (r: i64)
    requires
        0 <= span,
    ensures
        r == back_to_floor(instant as int, span as int),
{
    if instant < MIN_DATE || instant - MIN_DATE < span {
        MIN_DATE
    } else {
        instant - span
    }
}

/// A row as the provider reports it. Any of the price fields may be absent.
#[derive(Clone, Copy, Debug, PartialEq, Eq, Structural)]
pub struct StockQuote {
    pub high: Option<Price>,
    pub volume: Option<u64>,
    pub open: Option<Price>,
    pub low: Option<Price>,
    pub close: Option<Price>,
    pub date: i64,
}

impl StockQuote {
    /// A row is complete when open, high, low and close are all present.
    pub open spec fn is_complete(self) -> bool {
        self.high is Some && self.low is Some && self.open is Some && self.close is Some
    }

    /// Whether open, high, low and close are all present.
    pub fn complete(&self) -> (r: bool)
        ensures
            r == self.is_complete(),
    {
        self.high.is_some() && self.low.is_some() && self.open.is_some() && self.close.is_some()
    }
}

impl Timed for StockQuote {
    open spec fn instant(&self) -> int {
        self.date as int
    }

    fn time_ms(&self) -> (t: i64) {
        self.date
    }
}

/// One observation of a symbol at one instant, as the cache stores it.
/// Two quotes are equal when all six fields are.
#[derive(Clone, Copy, Debug, PartialEq, Eq, Structural)]
pub struct CustomQuote {
    pub high: Option<Price>,
    pub volume: Option<u64>,
    pub open: Option<Price>,
    pub low: Option<Price>,
    pub close: Option<Price>,
    pub time: i64,
}

impl Timed for CustomQuote {
    open spec fn instant(&self) -> int {
        self.time as int
    }

    fn time_ms(&self) -> (t: i64) {
        self.time
    }
}

/// One sample of an indicator. `value` is in ticks for the price averages
/// and for RSI (so 100 reads 1_000_000), and a plain count for volume.
#[derive(Clone, Copy, Debug, PartialEq, Eq, Structural)]
pub struct IndicatorData {
    pub time: i64,
    pub value: i64,
}

/// The range of instants a stored series is known to cover.
#[derive(Clone, Copy, Debug, PartialEq, Eq, Structural)]
pub struct DateRange {
    pub from: i64,
    pub to: i64,
}

/// The report of a backtest. Counts are plain numbers; percentages, the
/// profit factor and the capital are in ticks.
#[derive(Debug)]
pub struct StrategyResult {
    pub signals: Vec<String>,
    pub dates: Vec<String>,
    pub num_trades: usize,
    pub winning_trades: usize,
    pub losing_trades: usize,
    pub winning_percentage: i64,
    pub profit_factor: i128,
    pub final_capital: i128,
    pub total_return_percentage: i128,
}

/// Corporate events attached to a chart response. The provider sends none.
#[derive(Clone, Copy, Debug, PartialEq, Eq, Structural)]
pub struct EventsData;

/// Descriptive data attached to a chart response. The provider sends none.
#[derive(Clone, Copy, Debug, PartialEq, Eq, Structural)]
pub struct MetaData;

/// The closes of a series, in ticks, a missing close counting as zero.
pub open spec fn closes(data: Seq<CustomQuote>) -> Seq<int> {
    Seq::new(data.len(), |i: int| amount(data[i].close))
}

/// The instants of a series.
pub open spec fn times(data: Seq<CustomQuote>) -> Seq<int> {
    Seq::new(data.len(), |i: int| data[i].time as int)
}

} // verus!
