//! The table of cached series, one per symbol and timeframe.
use crate::models::series::{merge_quotes, merged, removed_at, without_time};
use crate::models::stock_data::{SeriesView, StockData};
use crate::types::{
    back_to_floor, same_text, step_back, CustomQuote, DateRange, Timeframe, MIN_DATE,
};
use crate::utils::calendar::current_time;
use vstd::prelude::*;

verus! {

/// The four series of one symbol, as plain mathematics.
pub struct FramesView {
    pub minute: SeriesView,
    pub hour: SeriesView,
    pub day: SeriesView,
    pub week: SeriesView,
}

impl FramesView {
    /// The series of a timeframe.
    pub open spec fn frame(self, tf: Timeframe) -> SeriesView {
        match tf {
            Timeframe::Minute => self.minute,
            Timeframe::Hour => self.hour,
            Timeframe::Day => self.day,
            Timeframe::Week => self.week,
        }
    }

    /// The same four series, but for that of `tf`, which is `series`.
    pub open spec fn with_frame(self, tf: Timeframe, series: SeriesView) -> FramesView {
        match tf {
            Timeframe::Minute => FramesView { minute: series, ..self },
            Timeframe::Hour => FramesView { hour: series, ..self },
            Timeframe::Day => FramesView { day: series, ..self },
            Timeframe::Week => FramesView { week: series, ..self },
        }
    }
}

/// The empty series with which a timeframe starts at instant `now`: its
/// window ends at `now` and begins one look-back earlier, but not before
/// the floor date.
pub open spec fn first_series(tf: Timeframe, now: int) -> SeriesView {
    SeriesView { quotes: Seq::empty(), from: back_to_floor(now, tf.lookback()), to: now }
}

/// A first window is in order, its start not after its end, where `now` is
/// not before the floor date; and it never starts before the floor date.
pub proof fn lemma_first_window_ordered(tf: Timeframe, now: int)
    ensures
        first_series(tf, now).from >= MIN_DATE,
        now >= MIN_DATE ==> first_series(tf, now).from <= first_series(tf, now).to,
{
}

/// The four empty series with which a symbol starts at instant `now`.
pub open spec fn first_frames(now: int) -> FramesView {
    FramesView {
        minute: first_series(Timeframe::Minute, now),
        hour: first_series(Timeframe::Hour, now),
        day: first_series(Timeframe::Day, now),
        week: first_series(Timeframe::Week, now),
    }
}

/// The series of one symbol, one for each timeframe.
#[derive(Debug)]
pub struct TimeframeMap {
    pub minute: StockData,
    pub hour: StockData,
    pub day: StockData,
    pub week: StockData,
}

impl View for TimeframeMap {
    type V = FramesView;

    open spec fn view(&self) -> FramesView {
        FramesView { minute: self.minute@, hour: self.hour@, day: self.day@, week: self.week@ }
    }
}

impl TimeframeMap {
    /// The four empty series with which a symbol starts at instant `now`.
    pub fn starting_at(now: i64) -> (r: Self)
        ensures
            r@ == first_frames(now as int),
    {
        TimeframeMap {
            minute: StockData::new(step_back(now, Timeframe::Minute.lookback_ms()), now),
            hour: StockData::new(step_back(now, Timeframe::Hour.lookback_ms()), now),
            day: StockData::new(step_back(now, Timeframe::Day.lookback_ms()), now),
            week: StockData::new(step_back(now, Timeframe::Week.lookback_ms()), now),
        }
    }

    /// Whether `interval` names a timeframe.
    pub fn contains_key(&self, interval: &str) -> (r: bool)
        ensures
            r == Timeframe::named(interval@) is Some,
    {
        Timeframe::parse(interval).is_some()
    }

    /// The series of the timeframe that `interval` names.
    pub fn get(&self, interval: &str) -> (r: Option<&StockData>)
        ensures
            match Timeframe::named(interval@) {
                Some(tf) => r matches Some(data) && data@ == self@.frame(tf),
                None => r is None,
            },
    {
        match Timeframe::parse(interval) {
            Some(tf) => Some(self.frame(tf)),
            None => None,
        }
    }

    /// The series of a timeframe.
    pub fn frame(&self, tf: Timeframe) -> (r: &StockData)
        ensures
            r@ == self@.frame(tf),
    {
        match tf {
            Timeframe::Minute => &self.minute,
            Timeframe::Hour => &self.hour,
            Timeframe::Day => &self.day,
            Timeframe::Week => &self.week,
        }
    }

    /// Replaces the window of a timeframe.
    pub fn set_window(&mut self, tf: Timeframe, from: i64, to: i64)
        ensures
            final(self)@ == old(self)@.with_frame(
                tf,
                SeriesView { from: from as int, to: to as int, ..old(self)@.frame(tf) },
            ),
    {
        match tf {
            Timeframe::Minute => self.minute.update_period(from, to),
            Timeframe::Hour => self.hour.update_period(from, to),
            Timeframe::Day => self.day.update_period(from, to),
            Timeframe::Week => self.week.update_period(from, to),
        }
    }

    /// Replaces the quotes of a timeframe.
    pub fn set_quotes(&mut self, tf: Timeframe, quotes: Vec<CustomQuote>)
        ensures
            final(self)@ == old(self)@.with_frame(
                tf,
                SeriesView { quotes: quotes@, ..old(self)@.frame(tf) },
            ),
    {
        match tf {
            Timeframe::Minute => self.minute.chart_data = quotes,
            Timeframe::Hour => self.hour.chart_data = quotes,
            Timeframe::Day => self.day.chart_data = quotes,
            Timeframe::Week => self.week.chart_data = quotes,
        }
    }
}

/// One symbol with its four series, as plain mathematics.
pub struct SymbolView {
    pub symbol: Seq<char>,
    pub frames: FramesView,
}

/// Whether a table has an entry for `symbol`.
pub open spec fn has_symbol(table: Seq<SymbolView>, symbol: Seq<char>) -> bool {
    exists|i: int| 0 <= i < table.len() && (#[trigger] table[i]).symbol == symbol
}

/// The place of the entry for `symbol`.
pub open spec fn slot_of(table: Seq<SymbolView>, symbol: Seq<char>) -> int {
    choose|i: int| 0 <= i < table.len() && (#[trigger] table[i]).symbol == symbol
}

/// No two entries are for the same symbol.
pub open spec fn distinct_symbols(table: Seq<SymbolView>) -> bool {
    forall|i: int, j: int|
        0 <= i < j < table.len() ==> (#[trigger] table[i]).symbol != (#[trigger] table[j]).symbol
}

/// The series stored for a symbol and a timeframe, if the symbol is there.
pub open spec fn series_of(table: Seq<SymbolView>, symbol: Seq<char>, tf: Timeframe) -> Option<
    SeriesView,
> {
    if has_symbol(table, symbol) {
        Some(table[slot_of(table, symbol)].frames.frame(tf))
    } else {
        None
    }
}

/// The series stored under a symbol and the name of a timeframe, if the
/// symbol is there and the name is one.
pub open spec fn stored(table: Seq<SymbolView>, symbol: Seq<char>, interval: Seq<char>) -> Option<
    SeriesView,
> {
    match Timeframe::named(interval) {
        Some(tf) => series_of(table, symbol, tf),
        None => None,
    }
}

/// The table in which the series of `symbol` and `tf` is `series`, and all
/// else as in `table`. Where the symbol has no entry the table is unchanged.
pub open spec fn put_series(
    table: Seq<SymbolView>,
    symbol: Seq<char>,
    tf: Timeframe,
    series: SeriesView,
) -> Seq<SymbolView> {
    if has_symbol(table, symbol) {
        let i = slot_of(table, symbol);
        table.update(
            i,
            SymbolView { symbol: table[i].symbol, frames: table[i].frames.with_frame(tf, series) },
        )
    } else {
        table
    }
}

/// The table in which the series under `symbol` and the timeframe that
/// `interval` names is `series`, and all else as in `table`.
pub open spec fn replaced(
    table: Seq<SymbolView>,
    symbol: Seq<char>,
    interval: Seq<char>,
    series: SeriesView,
) -> Seq<SymbolView> {
    match Timeframe::named(interval) {
        Some(tf) => put_series(table, symbol, tf, series),
        None => table,
    }
}

/// What `put_series` changes and what it leaves: the series that was put
/// is found again, every other series and the list of symbols stay.
pub proof fn lemma_put_series(
    table: Seq<SymbolView>,
    symbol: Seq<char>,
    tf: Timeframe,
    series: SeriesView,
)
    requires
        distinct_symbols(table),
        has_symbol(table, symbol),
    ensures
        distinct_symbols(put_series(table, symbol, tf, series)),
        symbols_of(put_series(table, symbol, tf, series)) == symbols_of(table),
        series_of(put_series(table, symbol, tf, series), symbol, tf) == Some(series),
        forall|other: Seq<char>| #[trigger]
            has_symbol(put_series(table, symbol, tf, series), other) == has_symbol(table, other),
        forall|other: Seq<char>, frame: Timeframe|
            other != symbol || frame != tf ==> #[trigger] series_of(
                put_series(table, symbol, tf, series),
                other,
                frame,
            ) == series_of(table, other, frame),
{
    let i = slot_of(table, symbol);
    let after = put_series(table, symbol, tf, series);
    lemma_update_keeps_symbols(table, after, i);
    assert forall|other: Seq<char>| #[trigger]
        has_symbol(after, other) == has_symbol(table, other) by {
        if has_symbol(table, other) {
            let k = slot_of(table, other);
            assert(after[k].symbol == other);
        }
        if has_symbol(after, other) {
            let k = slot_of(after, other);
            assert(table[k].symbol == other);
        }
    }
    assert forall|other: Seq<char>| has_symbol(table, other) implies slot_of(after, other)
        == slot_of(table, other) by {
        let k = slot_of(table, other);
        let m = slot_of(after, other);
        assert(after[k].symbol == other);
        assert(table[m].symbol == other);
        if k < m {
            assert(table[k].symbol != table[m].symbol);
        } else if m < k {
            assert(table[m].symbol != table[k].symbol);
        }
    }
    assert(has_symbol(after, symbol));
    assert forall|other: Seq<char>, frame: Timeframe|
        other != symbol || frame != tf implies #[trigger] series_of(after, other, frame)
        == series_of(table, other, frame) by {
        if has_symbol(table, other) {
            let k = slot_of(table, other);
            if k == i {
                assert(table[i].symbol == symbol);
            }
        }
    }
}

/// Putting a series where one was just put leaves only the second.
pub proof fn lemma_put_series_twice(
    table: Seq<SymbolView>,
    symbol: Seq<char>,
    tf: Timeframe,
    first: SeriesView,
    second: SeriesView,
)
    requires
        distinct_symbols(table),
    ensures
        put_series(put_series(table, symbol, tf, first), symbol, tf, second) == put_series(
            table,
            symbol,
            tf,
            second,
        ),
{
    if has_symbol(table, symbol) {
        lemma_put_series(table, symbol, tf, first);
        let once = put_series(table, symbol, tf, first);
        let i = slot_of(table, symbol);
        let k = slot_of(once, symbol);
        assert(once[i].symbol == symbol);
        assert(has_symbol(once, symbol));
        assert(table[k].symbol == symbol);
        if i < k {
            assert(table[i].symbol != table[k].symbol);
        } else if k < i {
            assert(table[k].symbol != table[i].symbol);
        }
        assert(put_series(once, symbol, tf, second) =~= put_series(table, symbol, tf, second));
    }
}

/// The table after `symbol` was registered at instant `now`: a new entry
/// with four empty series is added at the end, unless the symbol has an
/// entry already, which then stays as it is.
pub open spec fn registered(table: Seq<SymbolView>, symbol: Seq<char>, now: int) -> Seq<
    SymbolView,
> {
    if has_symbol(table, symbol) {
        table
    } else {
        table.push(SymbolView { symbol, frames: first_frames(now) })
    }
}

/// The table without the entry for `symbol`.
pub open spec fn unregistered(table: Seq<SymbolView>, symbol: Seq<char>) -> Seq<SymbolView> {
    if has_symbol(table, symbol) {
        table.remove(slot_of(table, symbol))
    } else {
        table
    }
}

/// The symbols of a table, in the order of its entries.
pub open spec fn symbols_of(table: Seq<SymbolView>) -> Seq<Seq<char>> {
    Seq::new(table.len(), |i: int| table[i].symbol)
}

/// A symbol and its series.
#[derive(Debug)]
pub struct SymbolEntry {
    pub symbol: String,
    pub frames: TimeframeMap,
}

impl View for SymbolEntry {
    type V = SymbolView;

    open spec fn view(&self) -> SymbolView {
        SymbolView { symbol: self.symbol@, frames: self.frames@ }
    }
}

/// The entries of the cache in the order in which the symbols were
/// registered. No two entries are for the same symbol.
#[derive(Debug)]
pub struct SymbolTable {
    entries: Vec<SymbolEntry>,
}

impl View for SymbolTable {
    type V = Seq<SymbolView>;

    closed spec fn view(&self) -> Seq<SymbolView> {
        table_view(self.entries@)
    }
}

/// The entries of a table as plain mathematics.
pub open spec fn table_view(entries: Seq<SymbolEntry>) -> Seq<SymbolView> {
    Seq::new(entries.len(), |i: int| entries[i]@)
}

/// A table stays one of distinct symbols when one entry is replaced by
/// another for the same symbol.
pub proof fn lemma_update_keeps_symbols(before: Seq<SymbolView>, after: Seq<SymbolView>, i: int)
    requires
        distinct_symbols(before),
        0 <= i < before.len(),
        after.len() == before.len(),
        after[i].symbol == before[i].symbol,
        forall|k: int| 0 <= k < before.len() && k != i ==> after[k] == before[k],
    ensures
        distinct_symbols(after),
        symbols_of(after) == symbols_of(before),
{
    assert forall|a: int, b: int| 0 <= a < b < after.len() implies (#[trigger] after[a]).symbol != (
    #[trigger] after[b]).symbol by {
        assert(after[a].symbol == before[a].symbol);
        assert(after[b].symbol == before[b].symbol);
    }
    assert(symbols_of(after) =~= symbols_of(before));
}

impl SymbolTable {
    #[verifier::type_invariant]
    spec fn one_entry_per_symbol(self) -> bool {
        distinct_symbols(self@)
    }

    /// A table without entries.
    pub fn new() -> (r: Self)
        ensures
            r@ == Seq::<SymbolView>::empty(),
    {
        let r = SymbolTable { entries: Vec::new() };
        assert(r@ =~= Seq::<SymbolView>::empty());
        r
    }

    /// The number of symbols.
    pub fn len(&self) -> (n: usize)
        ensures
            n == self@.len(),
    {
        self.entries.len()
    }

    /// Recalls that no two entries are for the same symbol. Nothing is
    /// done at run time.
    pub fn distinct(&self)
        ensures
            distinct_symbols(self@),
    {
        proof {
            use_type_invariant(self);
        }
    }

    /// Whether the table has no entry.
    pub fn is_empty(&self) -> (r: bool)
        ensures
            r == (self@.len() == 0),
    {
        self.entries.len() == 0
    }

    /// The place of the entry for `symbol`, if there is one.
    pub fn find(&self, symbol: &str) -> (r: Option<usize>)
        ensures
            distinct_symbols(self@),
            r is Some == has_symbol(self@, symbol@),
            r matches Some(i) ==> i < self@.len() && i == slot_of(self@, symbol@) && self@[i as int].symbol
                == symbol@,
    {
        proof {
            use_type_invariant(self);
        }
        let mut i: usize = 0;
        while i < self.entries.len()
            invariant
                i <= self.entries.len(),
                self@.len() == self.entries.len(),
                distinct_symbols(self@),
                forall|k: int| 0 <= k < i ==> (#[trigger] self@[k]).symbol != symbol@,
            decreases self.entries.len() - i,
        {
            if same_text(self.entries[i].symbol.as_str(), symbol) {
                assert(self@[i as int].symbol == symbol@);
                return Some(i);
            }
            i = i + 1;
        }
        None
    }

    /// Whether the table has an entry for `symbol`.
    pub fn contains_key(&self, symbol: &str) -> (r: bool)
        ensures
            r == has_symbol(self@, symbol@),
    {
        self.find(symbol).is_some()
    }

    /// The series of `symbol`, if it has an entry.
    pub fn get(&self, symbol: &str) -> (r: Option<&TimeframeMap>)
        ensures
            r is Some == has_symbol(self@, symbol@),
            r matches Some(frames) ==> frames@ == self@[slot_of(self@, symbol@)].frames,
    {
        match self.find(symbol) {
            Some(i) => Some(&self.entries[i].frames),
            None => None,
        }
    }

    /// The entry at place `i`.
    pub fn entry(&self, i: usize) -> (r: &SymbolEntry)
        requires
            i < self@.len(),
        ensures
            r@ == self@[i as int],
    {
        &self.entries[i]
    }

    /// Adds an entry for `symbol` at the end, unless it has one.
    pub fn insert(&mut self, symbol: &str, frames: TimeframeMap)
        ensures
            final(self)@ == if has_symbol(old(self)@, symbol@) {
                old(self)@
            } else {
                old(self)@.push(SymbolView { symbol: symbol@, frames: frames@ })
            },
    {
        if self.find(symbol).is_none() {
            let ghost before = self@;
            proof {
                use_type_invariant(&*self);
            }
            let mut entries: Vec<SymbolEntry> = Vec::new();
            core::mem::swap(&mut self.entries, &mut entries);
            entries.push(SymbolEntry { symbol: symbol.to_owned(), frames });
            proof {
                assert(table_view(entries@) =~= before.push(
                    SymbolView { symbol: symbol@, frames: frames@ },
                ));
            }
            core::mem::swap(&mut self.entries, &mut entries);
        }
    }

    /// Removes the entry for `symbol`, if it has one.
    pub fn remove(&mut self, symbol: &str)
        ensures
            final(self)@ == unregistered(old(self)@, symbol@),
            !has_symbol(final(self)@, symbol@),
    {
        match self.find(symbol) {
            Some(i) => {
                let ghost before = self@;
                proof {
                    use_type_invariant(&*self);
                }
                let mut entries: Vec<SymbolEntry> = Vec::new();
                core::mem::swap(&mut self.entries, &mut entries);
                entries.remove(i);
                proof {
                    let after = table_view(entries@);
                    assert(after =~= before.remove(i as int));
                    assert forall|k: int| 0 <= k < after.len() implies (#[trigger] after[k]).symbol
                        != symbol@ by {
                        if k < i {
                            assert(after[k] == before[k]);
                        } else {
                            assert(after[k] == before[k + 1]);
                        }
                    }
                    assert forall|a: int, b: int| 0 <= a < b < after.len() implies (
                    #[trigger] after[a]).symbol != (#[trigger] after[b]).symbol by {
                        let a0 = if a < i { a } else { a + 1 };
                        let b0 = if b < i { b } else { b + 1 };
                        assert(after[a] == before[a0] && after[b] == before[b0]);
                    }
                }
                core::mem::swap(&mut self.entries, &mut entries);
            },
            None => {},
        }
    }

    /// The symbols, in the order of the entries.
    pub fn keys(&self) -> (r: Vec<String>)
        ensures
            r@.len() == self@.len(),
            forall|i: int| 0 <= i < r@.len() ==> (#[trigger] r@[i])@ == self@[i].symbol,
    {
        let mut r: Vec<String> = Vec::new();
        let mut i: usize = 0;
        while i < self.entries.len()
            invariant
                i <= self.entries.len(),
                self@.len() == self.entries.len(),
                r@.len() == i,
                forall|k: int| 0 <= k < i ==> (#[trigger] r@[k])@ == self@[k].symbol,
            decreases self.entries.len() - i,
        {
            r.push(self.entries[i].symbol.clone());
            i = i + 1;
        }
        r
    }

    /// Replaces the window of the series at place `i` and timeframe `tf`.
    pub fn set_window(&mut self, i: usize, tf: Timeframe, from: i64, to: i64)
        requires
            i < old(self)@.len(),
        ensures
            final(self)@ == old(self)@.update(
                i as int,
                SymbolView {
                    symbol: old(self)@[i as int].symbol,
                    frames: old(self)@[i as int].frames.with_frame(
                        tf,
                        SeriesView {
                            from: from as int,
                            to: to as int,
                            ..old(self)@[i as int].frames.frame(tf)
                        },
                    ),
                },
            ),
    {
        let ghost before = self@;
        proof {
            use_type_invariant(&*self);
        }
        let mut entries: Vec<SymbolEntry> = Vec::new();
        core::mem::swap(&mut self.entries, &mut entries);
        entries[i].frames.set_window(tf, from, to);
        proof {
            assert(table_view(entries@) =~= before.update(
                i as int,
                SymbolView {
                    symbol: before[i as int].symbol,
                    frames: before[i as int].frames.with_frame(
                        tf,
                        SeriesView {
                            from: from as int,
                            to: to as int,
                            ..before[i as int].frames.frame(tf)
                        },
                    ),
                },
            ));
            lemma_update_keeps_symbols(before, table_view(entries@), i as int);
        }
        core::mem::swap(&mut self.entries, &mut entries);
    }

    /// Replaces the quotes of the series at place `i` and timeframe `tf`.
    pub fn set_quotes(&mut self, i: usize, tf: Timeframe, quotes: Vec<CustomQuote>)
        requires
            i < old(self)@.len(),
        ensures
            final(self)@ == old(self)@.update(
                i as int,
                SymbolView {
                    symbol: old(self)@[i as int].symbol,
                    frames: old(self)@[i as int].frames.with_frame(
                        tf,
                        SeriesView { quotes: quotes@, ..old(self)@[i as int].frames.frame(tf) },
                    ),
                },
            ),
    {
        let ghost before = self@;
        let ghost fresh = quotes@;
        proof {
            use_type_invariant(&*self);
        }
        let mut entries: Vec<SymbolEntry> = Vec::new();
        core::mem::swap(&mut self.entries, &mut entries);
        entries[i].frames.set_quotes(tf, quotes);
        proof {
            assert(table_view(entries@) =~= before.update(
                i as int,
                SymbolView {
                    symbol: before[i as int].symbol,
                    frames: before[i as int].frames.with_frame(
                        tf,
                        SeriesView { quotes: fresh, ..before[i as int].frames.frame(tf) },
                    ),
                },
            ));
            lemma_update_keeps_symbols(before, table_view(entries@), i as int);
        }
        core::mem::swap(&mut self.entries, &mut entries);
    }
}

/// The cache: every registered symbol with its four series.
#[derive(Debug)]
pub struct StockModel {
    pub stock_datas: SymbolTable,
}

impl View for StockModel {
    type V = Seq<SymbolView>;

    open spec fn view(&self) -> Seq<SymbolView> {
        self.stock_datas@
    }
}

impl StockModel {
    /// A cache without symbols.
    pub fn new() -> (r: Self)
        ensures
            r@ == Seq::<SymbolView>::empty(),
    {
        Self { stock_datas: SymbolTable::new() }
    }

    /// Registers `symbol` with the windows that start from the present
    /// instant, as the system clock gives it. A symbol that is registered
    /// already keeps its series.
    pub fn initialize_timeframes(&mut self, symbol: &str)
        ensures
            exists|now: i64| final(self)@ == registered(old(self)@, symbol@, now as int),
            distinct_symbols(final(self)@),
    {
        let now: i64 = current_time();
        self.initialize_timeframes_at(symbol, now);
    }

    /// Registers `symbol` with the windows that start from `now`. A symbol
    /// that is registered already keeps its series.
    pub fn initialize_timeframes_at(&mut self, symbol: &str, now: i64)
        ensures
            final(self)@ == registered(old(self)@, symbol@, now as int),
            distinct_symbols(final(self)@),
    {
        self.stock_datas.insert(symbol, TimeframeMap::starting_at(now));
        self.stock_datas.distinct();
    }

    /// The quotes stored under `symbol` and `interval`.
    pub fn get_data(&self, symbol: &str, interval: &str) -> (r: Option<&Vec<CustomQuote>>)
        ensures
            match stored(self@, symbol@, interval@) {
                Some(series) => r matches Some(quotes) && quotes@ == series.quotes,
                None => r is None,
            },
    {
        match Timeframe::parse(interval) {
            None => None,
            Some(tf) => match self.stock_datas.find(symbol) {
                None => None,
                Some(i) => Some(&self.stock_datas.entry(i).frames.frame(tf).chart_data),
            },
        }
    }

    /// The window stored under `symbol` and `interval`.
    pub fn get_period(&self, symbol: &str, interval: &str) -> (r: Option<DateRange>)
        ensures
            match stored(self@, symbol@, interval@) {
                Some(series) => r matches Some(range) && range.from == series.from && range.to
                    == series.to,
                None => r is None,
            },
    {
        match Timeframe::parse(interval) {
            None => None,
            Some(tf) => match self.stock_datas.find(symbol) {
                None => None,
                Some(i) => {
                    let data = self.stock_datas.entry(i).frames.frame(tf);
                    Some(DateRange { from: data.from, to: data.to })
                },
            },
        }
    }

    /// Replaces the window stored under `symbol` and `interval`. Nothing
    /// happens where nothing is stored under them.
    pub fn update_period(&mut self, symbol: &str, interval: &str, new_from: i64, new_to: i64)
        ensures
            final(self)@ == match stored(old(self)@, symbol@, interval@) {
                Some(series) => replaced(
                    old(self)@,
                    symbol@,
                    interval@,
                    SeriesView { from: new_from as int, to: new_to as int, ..series },
                ),
                None => old(self)@,
            },
            distinct_symbols(final(self)@),
    {
        match Timeframe::parse(interval) {
            None => {},
            Some(tf) => match self.stock_datas.find(symbol) {
                None => {},
                Some(i) => {
                    self.stock_datas.set_window(i, tf, new_from, new_to);
                },
            },
        }
        self.stock_datas.distinct();
    }

    /// Removes every quote at instant `time` from the series stored under
    /// `symbol` and `interval`.
    pub fn remove_data(&mut self, symbol: &str, interval: &str, time: i64)
        ensures
            final(self)@ == match stored(old(self)@, symbol@, interval@) {
                Some(series) => replaced(
                    old(self)@,
                    symbol@,
                    interval@,
                    SeriesView { quotes: removed_at(series.quotes, time as int), ..series },
                ),
                None => old(self)@,
            },
            distinct_symbols(final(self)@),
    {
        match Timeframe::parse(interval) {
            None => {},
            Some(tf) => match self.stock_datas.find(symbol) {
                None => {},
                Some(i) => {
                    let kept = without_time(
                        &self.stock_datas.entry(i).frames.frame(tf).chart_data,
                        time,
                    );
                    self.stock_datas.set_quotes(i, tf, kept);
                },
            },
        }
        self.stock_datas.distinct();
    }

    /// Merges a batch into the series stored under `symbol` and `interval`:
    /// the quotes that the series does not hold yet are added and the
    /// series is put in order of time. A batch that brings nothing new
    /// leaves the series as it is.
    pub fn append_data(&mut self, symbol: &str, interval: &str, new_data: Vec<CustomQuote>)
        ensures
            final(self)@ == match stored(old(self)@, symbol@, interval@) {
                Some(series) => replaced(
                    old(self)@,
                    symbol@,
                    interval@,
                    SeriesView { quotes: merged(series.quotes, new_data@), ..series },
                ),
                None => old(self)@,
            },
            distinct_symbols(final(self)@),
    {
        match Timeframe::parse(interval) {
            None => {},
            Some(tf) => match self.stock_datas.find(symbol) {
                None => {},
                Some(i) => {
                    let all = merge_quotes(
                        &self.stock_datas.entry(i).frames.frame(tf).chart_data,
                        &new_data,
                    );
                    self.stock_datas.set_quotes(i, tf, all);
                },
            },
        }
        self.stock_datas.distinct();
    }

    /// Replaces the quotes stored under `symbol` and `interval`.
    pub fn update_data(&mut self, symbol: &str, interval: &str, updated_data: Vec<CustomQuote>)
        ensures
            final(self)@ == match stored(old(self)@, symbol@, interval@) {
                Some(series) => replaced(
                    old(self)@,
                    symbol@,
                    interval@,
                    SeriesView { quotes: updated_data@, ..series },
                ),
                None => old(self)@,
            },
            distinct_symbols(final(self)@),
    {
        match Timeframe::parse(interval) {
            None => {},
            Some(tf) => match self.stock_datas.find(symbol) {
                None => {},
                Some(i) => {
                    self.stock_datas.set_quotes(i, tf, updated_data);
                },
            },
        }
        self.stock_datas.distinct();
    }
}

} // verus!
