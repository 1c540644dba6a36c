//! Exact fixed-point representation of the decimal values in the archive.

use vstd::prelude::*;

verus! {

/// A decimal number, held exactly as a count of ten-thousandths.
///
/// Every decimal value this crate reads has a fixed small scale: daily
/// measurements are tenths, monthly measurements are hundredths, and station
/// coordinates carry at most four fractional digits. Ten-thousandths are fine
/// enough to hold each of them exactly, with no floating point involved.
#[derive(Clone, Copy, Debug, PartialEq, Eq, Hash, Structural)]
pub struct Decimal {
    /// the represented value, times ten thousand
    pub e4: i64,
}

impl Decimal {
    /// The value `n / 10`, e.g. a daily temperature given in tenths.
    pub fn from_tenths(n: i64) -> (r: Decimal)
        requires
            -9_000_000_000_000_000 <= n <= 9_000_000_000_000_000,
        ensures
            r.e4 == n * 1000,
    {
        Decimal { e4: n * 1000 }
    }

    /// The value `n / 100`, e.g. a monthly temperature given in hundredths.
    pub fn from_hundredths(n: i64) -> (r: Decimal)
        requires
            -90_000_000_000_000_000 <= n <= 90_000_000_000_000_000,
        ensures
            r.e4 == n * 100,
    {
        Decimal { e4: n * 100 }
    }

    /// The value `n / 10000`.
    pub fn from_e4(n: i64) -> (r: Decimal)
        ensures
            r.e4 == n,
    {
        Decimal { e4: n }
    }
}

} // verus!
