//! Bars of a candlestick series and their columns.
//!
//! Prices and volumes are whole numbers of ticks: the caller picks the unit
//! (a cent, a satoshi, a thousandth of a contract) and every bar of a table
//! uses the same one.

use vstd::prelude::*;

verus! {

/// One bar: the time at which it opens, in milliseconds, and what was traded in it.
#[derive(Clone, Copy, Debug, PartialEq, Eq, Structural)]
pub struct Candle {
    pub open_time: i64,
    pub open: u32,
    pub high: u32,
    pub low: u32,
    pub close: u32,
    pub volume: u32,
}

/// The five measured columns of a table of bars.
#[derive(Clone, Copy, Debug, PartialEq, Eq, Structural)]
pub enum Field {
    Open,
    High,
    Low,
    Close,
    Volume,
}

impl Candle {
    /// What this bar holds in the column `field`.
    pub open spec fn value_of(self, field: Field) -> u32 {
        match field {
            Field::Open => self.open,
            Field::High => self.high,
            Field::Low => self.low,
            Field::Close => self.close,
            Field::Volume => self.volume,
        }
    }

    /// What this bar holds in the column `field`.
    pub fn value(&self, field: Field) -> (v: u32)
        ensures
            v == self.value_of(field),
    {
        match field {
            Field::Open => self.open,
            Field::High => self.high,
            Field::Low => self.low,
            Field::Close => self.close,
            Field::Volume => self.volume,
        }
    }
}

/// The column `field` of a table of bars.
pub open spec fn column_of(candles: Seq<Candle>, field: Field) -> Seq<u32> {
    Seq::new(candles.len(), |i: int| candles[i].value_of(field))
}

/// The opening times of a table of bars.
pub open spec fn open_times(candles: Seq<Candle>) -> Seq<i64> {
    Seq::new(candles.len(), |i: int| candles[i].open_time)
}

/// Whether every bar opens later than the bar before it.
pub open spec fn chronological(candles: Seq<Candle>) -> bool {
    forall|i: int, j: int| 0 <= i < j < candles.len() ==> candles[i].open_time < candles[j].open_time
}

/// Whether the bars are in temporal order, with no opening time twice.
pub fn is_chronological(candles: &Vec<Candle>) -> (r: bool)
    ensures
        r == chronological(candles@),
{
    let n = candles.len();
    if n == 0 {
        return true;
    }
    let mut i: usize = 1;
    while i < n
        invariant
            n == candles.len(),
            1 <= i <= n,
            forall|a: int, b: int| 0 <= a < b < i ==> candles[a].open_time < candles[b].open_time,
        decreases n - i,
    {
        if candles[i - 1].open_time >= candles[i].open_time {
            return false;
        }
        i = i + 1;
    }
    true
}

/// The opening time of every bar, in milliseconds.
pub fn timestamp(candles: &Vec<Candle>) -> (times: Vec<i64>)
    ensures
        times@ == open_times(candles@),
{
    let n = candles.len();
    let mut times: Vec<i64> = Vec::new();
    let mut i: usize = 0;
    while i < n
        invariant
            n == candles.len(),
            0 <= i <= n,
            times.len() == i,
            forall|k: int| 0 <= k < i ==> times[k] == candles[k].open_time,
        decreases n - i,
    {
        times.push(candles[i].open_time);
        i = i + 1;
    }
    times
}

/// The column `field` of the bars.
pub fn column(candles: &Vec<Candle>, field: Field) -> (values: Vec<u32>)
    ensures
        values@ == column_of(candles@, field),
{
    let n = candles.len();
    let mut values: Vec<u32> = Vec::new();
    let mut i: usize = 0;
    while i < n
        invariant
            n == candles.len(),
            0 <= i <= n,
            values.len() == i,
            forall|k: int| 0 <= k < i ==> values[k] == candles[k].value_of(field),
        decreases n - i,
    {
        values.push(candles[i].value(field));
        i = i + 1;
    }
    values
}

} // verus!
