//! One cached series: its quotes and the window they cover.
use crate::types::CustomQuote;
use vstd::prelude::*;

verus! {

/// What a stored series holds, as plain mathematics.
pub struct SeriesView {
    pub quotes: Seq<CustomQuote>,
    pub from: int,
    pub to: int,
}

/// The quotes of one symbol in one timeframe, and the range of instants
/// that has been fetched for them.
#[derive(Debug)]
pub struct StockData {
    pub chart_data: Vec<CustomQuote>,
    pub from: i64,
    pub to: i64,
}

impl View for StockData {
    type V = SeriesView;

    open spec fn view(&self) -> SeriesView {
        SeriesView { quotes: self.chart_data@, from: self.from as int, to: self.to as int }
    }
}

impl StockData {
    /// An empty series that covers `from` to `to`.
    pub fn new(from: i64, to: i64) -> (r: Self)
        ensures
            r@ == (SeriesView { quotes: Seq::empty(), from: from as int, to: to as int }),
    {
        Self { chart_data: Vec::new(), from, to }
    }

    /// Replaces the window; the quotes stay as they are.
    pub fn update_period(&mut self, new_from: i64, new_to: i64)
        ensures
            final(self)@ == (SeriesView {
                quotes: old(self)@.quotes,
                from: new_from as int,
                to: new_to as int,
            }),
    {
        self.from = new_from;
        self.to = new_to;
    }
}

} // verus!
