//! Row expansion for the columnar output: each decoded reading becomes
//! day- or month-indexed physical rows, in one of the two layouts — long
//! (one row per present value) or wide (one column per measurement kind) —
//! and rows are cut into bounded batches for chunked writing.

use vstd::prelude::*;
use crate::daily::DailyReading;
use crate::date::{date32_from_ymd, date32_of, valid_date};
use crate::decimal::Decimal;
use crate::file_properties::{Dataset, Element};
use crate::monthly::MonthlyReading;

verus! {

/// One row of the long daily layout: a single present measurement, tagged
/// with its element and dataset. Its value column is never missing.
#[derive(Debug)]
pub struct LongRow {
    pub id: String,
    /// days since 1970-01-01, or missing when the day does not exist in
    /// the calendar (e.g. day 31 of a 30-day month)
    pub date: Option<i32>,
    pub element: Element,
    pub dataset: Dataset,
    pub value: Decimal,
    pub lat: Option<Decimal>,
    pub lon: Option<Decimal>,
}

/// One row of the wide daily layout: one row per day, one column per
/// element, at most one of them populated.
#[derive(Debug)]
pub struct WideRow {
    pub id: String,
    /// days since 1970-01-01, or missing when the day does not exist
    pub date: Option<i32>,
    pub tmax: Option<Decimal>,
    pub tmin: Option<Decimal>,
    pub prcp: Option<Decimal>,
    pub lat: Option<Decimal>,
    pub lon: Option<Decimal>,
}

/// One row of the monthly wide layout: one row per station-month, one
/// column per (element, dataset) pair.
#[derive(Debug)]
pub struct MonthlyWideRow {
    pub id: String,
    /// days since 1970-01-01 of the month's first day
    pub date: Option<i32>,
    pub max_raw: Option<Decimal>,
    pub max_tob: Option<Decimal>,
    pub max_fls52: Option<Decimal>,
    pub min_raw: Option<Decimal>,
    pub min_tob: Option<Decimal>,
    pub min_fls52: Option<Decimal>,
    pub avg_raw: Option<Decimal>,
    pub avg_tob: Option<Decimal>,
    pub avg_fls52: Option<Decimal>,
}

/// Whether day slot `day` of `r` yields a long row: exactly when its
/// value is present.
pub open spec fn long_keep(r: DailyReading, day: int) -> bool {
    r.values@[day] is Some
}

/// The long row day slot `day` of `r` expands to. A day that does not
/// exist in the calendar keeps its value under a missing date rather than
/// being dropped.
pub open spec fn long_row_of(r: DailyReading, day: int) -> LongRow {
    LongRow {
        id: r.id,
        date: if valid_date(r.year as int, r.month->0 as int, day + 1) {
            Some(date32_of(r.year as int, r.month->0 as int, day + 1) as i32)
        } else {
            None
        },
        element: r.properties.element,
        dataset: r.properties.dataset,
        value: r.values@[day]->0,
        lat: r.lat,
        lon: r.lon,
    }
}

/// The long rows of the first `n` day slots of `r`, in slot order.
pub open spec fn long_rows_of_upto(r: DailyReading, n: int) -> Seq<LongRow>
    decreases n,
{
    if n <= 0 {
        Seq::empty()
    } else {
        long_rows_of_upto(r, n - 1) + (if long_keep(r, n - 1) {
            seq![long_row_of(r, n - 1)]
        } else {
            Seq::<LongRow>::empty()
        })
    }
}

/// The long rows of all day slots of `r`.
pub open spec fn long_rows_of(r: DailyReading) -> Seq<LongRow> {
    long_rows_of_upto(r, r.values@.len() as int)
}

/// The long rows of a whole reading list, reading by reading.
pub open spec fn long_rows_spec(rs: Seq<DailyReading>) -> Seq<LongRow>
    decreases rs.len(),
{
    if rs.len() == 0 {
        Seq::empty()
    } else {
        long_rows_spec(rs.drop_last()) + long_rows_of(rs.last())
    }
}

/// Expands daily readings into the long layout: one row per present value
/// slot, in reading and slot order; a slot on a day the calendar does not
/// have yields its row with a missing date.
pub fn expand_daily_long(readings: &Vec<DailyReading>) -> (rows: Vec<LongRow>)
    requires
        forall|i: int| 0 <= i < readings@.len() ==> (#[trigger] readings@[i]).month is Some,
        forall|i: int| 0 <= i < readings@.len() ==> (#[trigger] readings@[i]).values@.len() <= 31,
    ensures
        rows@ == long_rows_spec(readings@),
{
    let mut rows: Vec<LongRow> = Vec::new();
    let mut i: usize = 0;
    proof {
        assert(readings@.subrange(0, 0) =~= Seq::<DailyReading>::empty());
    }
    while i < readings.len()
        invariant
            0 <= i <= readings@.len(),
            forall|k: int| 0 <= k < readings@.len() ==> (#[trigger] readings@[k]).month is Some,
            forall|k: int|
                0 <= k < readings@.len() ==> (#[trigger] readings@[k]).values@.len() <= 31,
            rows@ == long_rows_spec(readings@.subrange(0, i as int)),
        decreases readings@.len() - i,
    {
        let ghost rv = readings@[i as int];
        let rec = &readings[i];
        let m: u16 = match rec.month {
            Some(mm) => mm,
            None => {
                proof {
                    assert(false);
                }
                0
            },
        };
        let mut day: usize = 0;
        let nd = rec.values.len();
        while day < nd
            invariant
                0 <= day <= nd,
                nd == rv.values@.len() <= 31,
                rv == readings@[i as int],
                0 <= i < readings@.len(),
                rec == &readings[i as int],
                m == rv.month->0,
                rv.month is Some,
                rows@ == long_rows_spec(readings@.subrange(0, i as int)) + long_rows_of_upto(
                    rv,
                    day as int,
                ),
            decreases nd - day,
        {
            let val = rec.values[day];
            if let Some(v) = val {
                let date = date32_from_ymd(rec.year, m as u32, (day + 1) as u32);
                rows.push(
                    LongRow {
                        id: rec.id.clone(),
                        date,
                        element: rec.properties.element,
                        dataset: rec.properties.dataset,
                        value: v,
                        lat: rec.lat,
                        lon: rec.lon,
                    },
                );
                proof {
                    assert(long_keep(rv, day as int));
                    assert(rows@.last() == long_row_of(rv, day as int));
                    assert(rows@ =~= long_rows_spec(readings@.subrange(0, i as int))
                        + long_rows_of_upto(rv, day + 1));
                }
            } else {
                proof {
                    assert(!long_keep(rv, day as int));
                    assert(rows@ =~= long_rows_spec(readings@.subrange(0, i as int))
                        + long_rows_of_upto(rv, day + 1));
                }
            }
            day += 1;
        }
        proof {
            let pre1 = readings@.subrange(0, i + 1);
            assert(pre1.drop_last() =~= readings@.subrange(0, i as int));
            assert(pre1.last() == rv);
            assert(rows@ =~= long_rows_spec(pre1));
        }
        i += 1;
    }
    proof {
        assert(readings@.subrange(0, readings@.len() as int) =~= readings@);
    }
    rows
}

/// The measurement cell of a wide row for element `e`: the day's value
/// when the reading reports that element, otherwise missing.
pub open spec fn wide_cell(r: DailyReading, day: int, e: Element) -> Option<Decimal> {
    if r.properties.element == e {
        r.values@[day]
    } else {
        None
    }
}

/// The wide row day slot `day` of `r` expands to. Every day yields a row;
/// a day that does not exist in the calendar gets a missing date.
pub open spec fn wide_row_of(r: DailyReading, day: int) -> WideRow {
    WideRow {
        id: r.id,
        date: if valid_date(r.year as int, r.month->0 as int, day + 1) {
            Some(date32_of(r.year as int, r.month->0 as int, day + 1) as i32)
        } else {
            None
        },
        tmax: wide_cell(r, day, Element::Tmax),
        tmin: wide_cell(r, day, Element::Tmin),
        prcp: wide_cell(r, day, Element::Prcp),
        lat: r.lat,
        lon: r.lon,
    }
}

/// The wide rows of `r`: one per day slot.
pub open spec fn wide_rows_of(r: DailyReading) -> Seq<WideRow> {
    Seq::new(r.values@.len(), |d: int| wide_row_of(r, d))
}

/// The wide rows of a whole reading list.
pub open spec fn wide_rows_spec(rs: Seq<DailyReading>) -> Seq<WideRow>
    decreases rs.len(),
{
    if rs.len() == 0 {
        Seq::empty()
    } else {
        wide_rows_spec(rs.drop_last()) + wide_rows_of(rs.last())
    }
}

/// Expands daily readings into the wide layout: one row per day slot,
/// dense, with only the reading's own element column populated.
pub fn expand_daily_wide(readings: &Vec<DailyReading>) -> (rows: Vec<WideRow>)
    requires
        forall|i: int| 0 <= i < readings@.len() ==> (#[trigger] readings@[i]).month is Some,
        forall|i: int| 0 <= i < readings@.len() ==> (#[trigger] readings@[i]).values@.len() <= 31,
    ensures
        rows@ == wide_rows_spec(readings@),
{
    let mut rows: Vec<WideRow> = Vec::new();
    let mut i: usize = 0;
    proof {
        assert(readings@.subrange(0, 0) =~= Seq::<DailyReading>::empty());
    }
    while i < readings.len()
        invariant
            0 <= i <= readings@.len(),
            forall|k: int| 0 <= k < readings@.len() ==> (#[trigger] readings@[k]).month is Some,
            forall|k: int|
                0 <= k < readings@.len() ==> (#[trigger] readings@[k]).values@.len() <= 31,
            rows@ == wide_rows_spec(readings@.subrange(0, i as int)),
        decreases readings@.len() - i,
    {
        let ghost rv = readings@[i as int];
        let ghost rows0 = rows@;
        let rec = &readings[i];
        let m: u16 = match rec.month {
            Some(mm) => mm,
            None => {
                proof {
                    assert(false);
                }
                0
            },
        };
        let mut day: usize = 0;
        let nd = rec.values.len();
        while day < nd
            invariant
                0 <= day <= nd,
                nd == rv.values@.len() <= 31,
                rv == readings@[i as int],
                0 <= i < readings@.len(),
                rec == &readings[i as int],
                m == rv.month->0,
                rv.month is Some,
                rows@.len() == rows0.len() + day,
                rows@.subrange(0, rows0.len() as int) == rows0,
                forall|d: int|
                    0 <= d < day ==> rows@[rows0.len() + d] == wide_row_of(rv, d),
            decreases nd - day,
        {
            let val = rec.values[day];
            let date = date32_from_ymd(rec.year, m as u32, (day + 1) as u32);
            let (tmax, tmin, prcp): (Option<Decimal>, Option<Decimal>, Option<Decimal>) =
                match rec.properties.element {
                Element::Tmax => (val, None, None),
                Element::Tmin => (None, val, None),
                Element::Prcp => (None, None, val),
                _ => (None, None, None),
            };
            let ghost prev = rows@;
            rows.push(
                WideRow {
                    id: rec.id.clone(),
                    date,
                    tmax,
                    tmin,
                    prcp,
                    lat: rec.lat,
                    lon: rec.lon,
                },
            );
            proof {
                assert(rows@.last() == wide_row_of(rv, day as int));
                assert(rows@.subrange(0, rows0.len() as int) =~= rows0);
                assert forall|d: int|
                    0 <= d < day + 1 implies rows@[rows0.len() + d] == wide_row_of(rv, d) by {
                    if d < day {
                        assert(rows@[rows0.len() + d] == prev[rows0.len() + d]);
                    }
                }
            }
            day += 1;
        }
        proof {
            let pre1 = readings@.subrange(0, i + 1);
            assert(pre1.drop_last() =~= readings@.subrange(0, i as int));
            assert(pre1.last() == rv);
            assert(rows@ =~= wide_rows_spec(pre1));
        }
        i += 1;
    }
    proof {
        assert(readings@.subrange(0, readings@.len() as int) =~= readings@);
    }
    rows
}

/// The cell of the monthly wide layout for `(e, d)`: the month's value
/// when the reading carries exactly that element and dataset, else missing.
/// A slot beyond the reading's value list is missing too.
pub open spec fn monthly_cell(r: MonthlyReading, month0: int, e: Element, d: Dataset) -> Option<
    Decimal,
> {
    if r.properties.element == e && r.properties.dataset == d {
        if 0 <= month0 < r.values@.len() {
            r.values@[month0]
        } else {
            None
        }
    } else {
        None
    }
}

/// The monthly wide row of month `month0 + 1` of `r`: the first of the
/// month is always a real date, so the date is always present.
pub open spec fn monthly_row_of(r: MonthlyReading, month0: int) -> MonthlyWideRow {
    MonthlyWideRow {
        id: r.id,
        date: Some(date32_of(r.year as int, month0 + 1, 1) as i32),
        max_raw: monthly_cell(r, month0, Element::Max, Dataset::Raw),
        max_tob: monthly_cell(r, month0, Element::Max, Dataset::Tob),
        max_fls52: monthly_cell(r, month0, Element::Max, Dataset::Fls52),
        min_raw: monthly_cell(r, month0, Element::Min, Dataset::Raw),
        min_tob: monthly_cell(r, month0, Element::Min, Dataset::Tob),
        min_fls52: monthly_cell(r, month0, Element::Min, Dataset::Fls52),
        avg_raw: monthly_cell(r, month0, Element::Avg, Dataset::Raw),
        avg_tob: monthly_cell(r, month0, Element::Avg, Dataset::Tob),
        avg_fls52: monthly_cell(r, month0, Element::Avg, Dataset::Fls52),
    }
}

/// The 12 monthly wide rows of one reading.
pub open spec fn monthly_rows_of(r: MonthlyReading) -> Seq<MonthlyWideRow> {
    Seq::new(12, |m: int| monthly_row_of(r, m))
}

/// The monthly wide rows of a whole reading list.
pub open spec fn monthly_rows_spec(rs: Seq<MonthlyReading>) -> Seq<MonthlyWideRow>
    decreases rs.len(),
{
    if rs.len() == 0 {
        Seq::empty()
    } else {
        monthly_rows_spec(rs.drop_last()) + monthly_rows_of(rs.last())
    }
}

/// Expands monthly readings into the monthly wide layout: 12 rows per
/// reading, with the single (element, dataset) column of the reading
/// populated from its value slots.
pub fn expand_monthly_wide(readings: &Vec<MonthlyReading>) -> (rows: Vec<MonthlyWideRow>)
    ensures
        rows@ == monthly_rows_spec(readings@),
{
    let mut rows: Vec<MonthlyWideRow> = Vec::new();
    let mut i: usize = 0;
    proof {
        assert(readings@.subrange(0, 0) =~= Seq::<MonthlyReading>::empty());
    }
    while i < readings.len()
        invariant
            0 <= i <= readings@.len(),
            rows@ == monthly_rows_spec(readings@.subrange(0, i as int)),
        decreases readings@.len() - i,
    {
        let ghost rv = readings@[i as int];
        let ghost rows0 = rows@;
        let rec = &readings[i];
        let mut m0: usize = 0;
        while m0 < 12
            invariant
                0 <= m0 <= 12,
                rv == readings@[i as int],
                0 <= i < readings@.len(),
                rec == &readings[i as int],
                rows@.len() == rows0.len() + m0,
                rows@.subrange(0, rows0.len() as int) == rows0,
                forall|d: int|
                    0 <= d < m0 ==> rows@[rows0.len() + d] == monthly_row_of(rv, d),
            decreases 12 - m0,
        {
            let val: Option<Decimal> = if m0 < rec.values.len() {
                rec.values[m0]
            } else {
                None
            };
            let date = date32_from_ymd(rec.year, (m0 + 1) as u32, 1);
            proof {
                assert(date is Some);
            }
            let cells: [Option<Decimal>; 9] = match (rec.properties.element, rec.properties.dataset) {
                (Element::Max, Dataset::Raw) => [val, None, None, None, None, None, None, None, None],
                (Element::Max, Dataset::Tob) => [None, val, None, None, None, None, None, None, None],
                (Element::Max, Dataset::Fls52) => [None, None, val, None, None, None, None, None, None],
                (Element::Min, Dataset::Raw) => [None, None, None, val, None, None, None, None, None],
                (Element::Min, Dataset::Tob) => [None, None, None, None, val, None, None, None, None],
                (Element::Min, Dataset::Fls52) => [None, None, None, None, None, val, None, None, None],
                (Element::Avg, Dataset::Raw) => [None, None, None, None, None, None, val, None, None],
                (Element::Avg, Dataset::Tob) => [None, None, None, None, None, None, None, val, None],
                (Element::Avg, Dataset::Fls52) => [None, None, None, None, None, None, None, None, val],
                _ => [None, None, None, None, None, None, None, None, None],
            };
            let ghost prev = rows@;
            rows.push(
                MonthlyWideRow {
                    id: rec.id.clone(),
                    date,
                    max_raw: cells[0],
                    max_tob: cells[1],
                    max_fls52: cells[2],
                    min_raw: cells[3],
                    min_tob: cells[4],
                    min_fls52: cells[5],
                    avg_raw: cells[6],
                    avg_tob: cells[7],
                    avg_fls52: cells[8],
                },
            );
            proof {
                assert(rows@.last() == monthly_row_of(rv, m0 as int));
                assert(rows@.subrange(0, rows0.len() as int) =~= rows0);
                assert forall|d: int|
                    0 <= d < m0 + 1 implies rows@[rows0.len() + d] == monthly_row_of(rv, d) by {
                    if d < m0 {
                        assert(rows@[rows0.len() + d] == prev[rows0.len() + d]);
                    }
                }
            }
            m0 += 1;
        }
        proof {
            let pre1 = readings@.subrange(0, i + 1);
            assert(pre1.drop_last() =~= readings@.subrange(0, i as int));
            assert(pre1.last() == rv);
            assert(rows@ =~= monthly_rows_spec(pre1));
        }
        i += 1;
    }
    proof {
        assert(readings@.subrange(0, readings@.len() as int) =~= readings@);
    }
    rows
}

/// How many of the first `n` value slots of `vals` are present.
pub open spec fn present_count(vals: Seq<Option<Decimal>>, n: int) -> int
    decreases n,
{
    if n <= 0 {
        0
    } else {
        present_count(vals, n - 1) + (if vals[n - 1] is Some {
            1int
        } else {
            0
        })
    }
}

/// How many present value slots a whole reading list holds.
pub open spec fn total_present(rs: Seq<DailyReading>) -> int
    decreases rs.len(),
{
    if rs.len() == 0 {
        0
    } else {
        total_present(rs.drop_last()) + present_count(
            rs.last().values@,
            rs.last().values@.len() as int,
        )
    }
}

proof fn lemma_long_rows_of_count(r: DailyReading, n: int)
    ensures
        long_rows_of_upto(r, n).len() == present_count(r.values@, n),
    decreases n,
{
    if n > 0 {
        lemma_long_rows_of_count(r, n - 1);
    }
}

/// Law: the long layout holds exactly one row per present value slot, for
/// any readings — sentinel and short-line slots contribute none, nothing
/// is duplicated, and a present value on a day outside the calendar keeps
/// its row (with a missing date) rather than being dropped.
pub proof fn lemma_long_row_count(readings: Seq<DailyReading>)
    ensures
        long_rows_spec(readings).len() == total_present(readings),
    decreases readings.len(),
{
    if readings.len() > 0 {
        lemma_long_row_count(readings.drop_last());
        let last = readings.last();
        lemma_long_rows_of_count(last, last.values@.len() as int);
    }
}

/// How many of a wide row's three measurement cells are null.
pub open spec fn wide_null_count(row: WideRow) -> int {
    (if row.tmax is None {
        1int
    } else {
        0
    }) + (if row.tmin is None {
        1int
    } else {
        0
    }) + (if row.prcp is None {
        1int
    } else {
        0
    })
}

/// The total null measurement cells of a wide row sequence.
pub open spec fn total_wide_nulls(rows: Seq<WideRow>) -> int
    decreases rows.len(),
{
    if rows.len() == 0 {
        0
    } else {
        total_wide_nulls(rows.drop_last()) + wide_null_count(rows.last())
    }
}

proof fn lemma_total_nulls_concat(a: Seq<WideRow>, b: Seq<WideRow>)
    ensures
        total_wide_nulls(a + b) == total_wide_nulls(a) + total_wide_nulls(b),
    decreases b.len(),
{
    if b.len() == 0 {
        assert(a + b =~= a);
    } else {
        assert((a + b).drop_last() =~= a + b.drop_last());
        assert((a + b).last() == b.last());
        lemma_total_nulls_concat(a, b.drop_last());
    }
}

proof fn lemma_total_nulls_lower(s: Seq<WideRow>)
    requires
        forall|i: int| 0 <= i < s.len() ==> wide_null_count(#[trigger] s[i]) >= 2,
    ensures
        total_wide_nulls(s) >= 2 * s.len(),
    decreases s.len(),
{
    if s.len() > 0 {
        let h = s.drop_last();
        assert forall|i: int| 0 <= i < h.len() implies wide_null_count(#[trigger] h[i]) >= 2 by {
            assert(h[i] == s[i]);
        }
        lemma_total_nulls_lower(h);
        assert(wide_null_count(s.last()) >= 2);
    }
}

/// Law: a wide row populates at most the one element column its reading
/// reports, so at least two of every row's three measurement cells — two
/// thirds of all cells — are null, whatever the readings hold.
pub proof fn lemma_wide_null_ratio(readings: Seq<DailyReading>)
    ensures
        total_wide_nulls(wide_rows_spec(readings)) >= 2 * wide_rows_spec(readings).len(),
    decreases readings.len(),
{
    if readings.len() > 0 {
        let h = readings.drop_last();
        let last = readings.last();
        lemma_wide_null_ratio(h);
        assert forall|i: int|
            0 <= i < wide_rows_of(last).len() implies wide_null_count(
            #[trigger] wide_rows_of(last)[i],
        ) >= 2 by {
            assert(wide_rows_of(last)[i] == wide_row_of(last, i));
        }
        lemma_total_nulls_lower(wide_rows_of(last));
        lemma_total_nulls_concat(wide_rows_spec(h), wide_rows_of(last));
    }
}

/// The `[start, end)` index ranges that cut `n` rows into batches of at
/// most `size`, in order: every batch but the last is exactly full, and
/// together they tile `[0, n)`.
pub fn batch_bounds(n: usize, size: usize) -> (r: Vec<(usize, usize)>)
    requires
        size >= 1,
    ensures
        (n == 0) <==> (r@.len() == 0),
        r@.len() > 0 ==> r@[0].0 == 0 && r@[r@.len() - 1].1 == n,
        forall|i: int|
            0 <= i < r@.len() ==> (#[trigger] r@[i]).0 < r@[i].1 <= n && r@[i].1 - r@[i].0 <= size,
        forall|i: int|
            0 <= i < r@.len() - 1 ==> (#[trigger] r@[i]).1 == r@[i + 1].0 && r@[i].1 - r@[i].0
                == size,
{
    let mut r: Vec<(usize, usize)> = Vec::new();
    let mut start: usize = 0;
    while start < n
        invariant
            size >= 1,
            0 <= start <= n,
            (start == 0) <==> (r@.len() == 0),
            r@.len() > 0 ==> r@[0].0 == 0 && r@[r@.len() - 1].1 == start,
            forall|i: int|
                0 <= i < r@.len() ==> (#[trigger] r@[i]).0 < r@[i].1 <= n && r@[i].1 - r@[i].0
                    <= size,
            forall|i: int|
                0 <= i < r@.len() - 1 ==> (#[trigger] r@[i]).1 == r@[i + 1].0 && r@[i].1 - r@[i].0
                    == size,
            r@.len() > 0 && start < n ==> r@[r@.len() - 1].1 - r@[r@.len() - 1].0 == size,
        decreases n - start,
    {
        let end: usize = if n - start > size {
            start + size
        } else {
            n
        };
        let ghost prev = r@;
        r.push((start, end));
        proof {
            assert forall|i: int|
                0 <= i < r@.len() - 1 implies (#[trigger] r@[i]).1 == r@[i + 1].0 && r@[i].1
                - r@[i].0 == size by {
                if i < prev.len() - 1 {
                    assert(r@[i] == prev[i] && r@[i + 1] == prev[i + 1]);
                } else {
                    assert(r@[i] == prev[i]);
                }
            }
        }
        start = end;
    }
    r
}

} // verus!
