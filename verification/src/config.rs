//! What the caller sets: the trailing window and the two thresholds.

use vstd::prelude::*;

verus! {

/// A non-negative threshold, held exactly as `num / den`.
#[derive(Clone, Copy, Debug)]
pub struct Ratio {
    num: u32,
    den: u32,
}

impl Ratio {
    #[verifier::type_invariant]
    spec fn inv(self) -> bool {
        self.den > 0
    }

    /// The numerator.
    pub closed spec fn num(self) -> int {
        self.num as int
    }

    /// The denominator. It is positive for every ratio that `new` returned.
    pub closed spec fn den(self) -> int {
        self.den as int
    }

    /// The ratio `num / den`, or `None` where `den` is zero.
    pub fn new(num: u32, den: u32) -> (r: Option<Ratio>)
        ensures
            r is Some <==> den > 0,
            r matches Some(q) ==> q.num() == num && q.den() == den,
    {
        if den == 0 {
            None
        } else {
            Some(Ratio { num, den })
        }
    }

    /// The numerator of this ratio.
    pub fn numerator(&self) -> (n: u32)
        ensures
            n == self.num(),
    {
        self.num
    }

    /// The denominator of this ratio, which is never zero.
    pub fn denominator(&self) -> (d: u32)
        ensures
            d == self.den(),
            d > 0,
    {
        proof {
            use_type_invariant(self);
        }
        self.den
    }
}

/// The trailing window over which statistics are taken.
///
/// `window_size` bars at most enter a statistic, and a statistic exists only
/// once `min_periods` bars are behind the current one.
#[derive(Clone, Copy, Debug)]
pub struct RollingWindowConfig {
    window_size: u32,
    min_periods: u32,
}

impl RollingWindowConfig {
    #[verifier::type_invariant]
    spec fn inv(self) -> bool {
        0 < self.min_periods <= self.window_size
    }

    /// The largest number of bars in a window.
    pub closed spec fn size(self) -> int {
        self.window_size as int
    }

    /// The least number of bars for which a statistic is given.
    pub closed spec fn least(self) -> int {
        self.min_periods as int
    }

    /// The window, or `None` unless `0 < min_periods <= window_size`.
    pub fn new(window_size: u32, min_periods: u32) -> (c: Option<RollingWindowConfig>)
        ensures
            c is Some <==> 0 < min_periods <= window_size,
            c matches Some(w) ==> w.size() == window_size && w.least() == min_periods,
    {
        if min_periods == 0 || min_periods > window_size {
            None
        } else {
            Some(RollingWindowConfig { window_size, min_periods })
        }
    }

    /// The largest number of bars in a window.
    pub fn window_size(&self) -> (n: u32)
        ensures
            n == self.size(),
            n >= self.least(),
    {
        proof {
            use_type_invariant(self);
        }
        self.window_size
    }

    /// The least number of bars for which a statistic is given.
    pub fn min_periods(&self) -> (n: u32)
        ensures
            n == self.least(),
            0 < n <= self.size(),
    {
        proof {
            use_type_invariant(self);
        }
        self.min_periods
    }
}

} // verus!
