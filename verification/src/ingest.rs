//! The pure heart of the ingestion pipeline: decoding one file's lines
//! into readings — skipping and counting lines that fail, keeping only
//! the interesting elements — and grouping monthly readings by dataset.
//!
//! Reading the files, fanning out one task per file and merging the
//! results is I/O and scheduling; it happens in the surrounding binary,
//! which hands each file's lines to these functions.

use vstd::prelude::*;
use crate::daily::{daily_element_kept, daily_header_ok, daily_matches, DailyReading};
use crate::file_properties::{element_of_code, file_properties_spec, Dataset};
use crate::monthly::{monthly_element_kept, monthly_header_ok, monthly_matches, MonthlyReading};

verus! {

/// Whether the daily ingestion keeps a line: its header decodes and its
/// element is one of the interesting ones.
pub open spec fn daily_line_kept(line: Seq<char>) -> bool {
    daily_header_ok(line) && daily_element_kept(element_of_code(line.subrange(17, 21)))
}

/// The lines of `ls` that the daily ingestion keeps, in order.
pub open spec fn daily_kept_lines(ls: Seq<Seq<char>>) -> Seq<Seq<char>>
    decreases ls.len(),
{
    if ls.len() == 0 {
        Seq::empty()
    } else {
        let h = daily_kept_lines(ls.drop_last());
        if daily_line_kept(ls.last()) {
            h.push(ls.last())
        } else {
            h
        }
    }
}

/// How many lines of `ls` fail daily decoding outright.
pub open spec fn daily_failed_count(ls: Seq<Seq<char>>) -> int
    decreases ls.len(),
{
    if ls.len() == 0 {
        0
    } else {
        daily_failed_count(ls.drop_last()) + (if daily_header_ok(ls.last()) {
            0int
        } else {
            1
        })
    }
}

/// Decodes one daily file's lines. A line whose header fails is skipped
/// and counted, never aborting the file; a line that decodes but carries
/// an uninteresting element is dropped silently. Returns the readings of
/// the kept lines, in order, and the failed-line count.
pub fn decode_daily_lines(lines: &Vec<String>) -> (r: (Vec<DailyReading>, usize))
    ensures
        ({
            let ls = lines@.map_values(|s: String| s@);
            &&& r.0@.len() == daily_kept_lines(ls).len()
            &&& (forall|j: int|
                0 <= j < r.0@.len() ==> daily_matches(#[trigger] r.0@[j], daily_kept_lines(ls)[j]))
            &&& r.1 == daily_failed_count(ls)
        }),
{
    let ghost ls = lines@.map_values(|s: String| s@);
    let mut out: Vec<DailyReading> = Vec::new();
    let mut failed: usize = 0;
    let mut i: usize = 0;
    proof {
        assert(ls.subrange(0, 0) =~= Seq::<Seq<char>>::empty());
    }
    while i < lines.len()
        invariant
            0 <= i <= lines@.len(),
            ls == lines@.map_values(|s: String| s@),
            out@.len() == daily_kept_lines(ls.subrange(0, i as int)).len(),
            forall|j: int|
                0 <= j < out@.len() ==> daily_matches(
                    #[trigger] out@[j],
                    daily_kept_lines(ls.subrange(0, i as int))[j],
                ),
            failed == daily_failed_count(ls.subrange(0, i as int)),
            failed <= i,
        decreases lines@.len() - i,
    {
        let ghost pre = ls.subrange(0, i as int);
        let ghost pre1 = ls.subrange(0, i + 1);
        proof {
            assert(pre1.drop_last() =~= pre);
            assert(pre1.last() == ls[i as int]);
            assert(ls[i as int] == lines@[i as int]@);
        }
        match DailyReading::from_line(lines[i].as_str(), "") {
            Ok(d) => {
                let keep = d.is_valid();
                if keep {
                    let ghost prev = out@;
                    out.push(d);
                    proof {
                        assert(daily_line_kept(ls[i as int]));
                        assert forall|j: int|
                            0 <= j < out@.len() implies daily_matches(
                            #[trigger] out@[j],
                            daily_kept_lines(pre1)[j],
                        ) by {
                            if j < prev.len() {
                                assert(out@[j] == prev[j]);
                                assert(daily_kept_lines(pre1)[j] == daily_kept_lines(pre)[j]);
                            }
                        }
                    }
                } else {
                    proof {
                        assert(!daily_line_kept(ls[i as int]));
                    }
                }
            },
            Err(_) => {
                failed += 1;
                proof {
                    assert(!daily_line_kept(ls[i as int]));
                }
            },
        }
        i += 1;
    }
    proof {
        assert(ls.subrange(0, ls.len() as int) =~= ls);
    }
    (out, failed)
}

/// Whether the monthly ingestion keeps a line of the named source file.
pub open spec fn monthly_line_kept(line: Seq<char>, file_name: Seq<char>) -> bool {
    monthly_header_ok(line) && monthly_element_kept(file_properties_spec(file_name).element)
}

/// The lines of `ls` that the monthly ingestion keeps, in order.
pub open spec fn monthly_kept_lines(ls: Seq<Seq<char>>, file_name: Seq<char>) -> Seq<Seq<char>>
    decreases ls.len(),
{
    if ls.len() == 0 {
        Seq::empty()
    } else {
        let h = monthly_kept_lines(ls.drop_last(), file_name);
        if monthly_line_kept(ls.last(), file_name) {
            h.push(ls.last())
        } else {
            h
        }
    }
}

/// How many lines of `ls` fail monthly decoding outright.
pub open spec fn monthly_failed_count(ls: Seq<Seq<char>>) -> int
    decreases ls.len(),
{
    if ls.len() == 0 {
        0
    } else {
        monthly_failed_count(ls.drop_last()) + (if monthly_header_ok(ls.last()) {
            0int
        } else {
            1
        })
    }
}

/// Decodes one monthly file's lines; the file name names the dataset and
/// element of every reading in it. Same skip-and-count policy as the
/// daily decoder.
pub fn decode_monthly_lines(lines: &Vec<String>, file_name: &str) -> (r: (
    Vec<MonthlyReading>,
    usize,
))
    ensures
        ({
            let ls = lines@.map_values(|s: String| s@);
            &&& r.0@.len() == monthly_kept_lines(ls, file_name@).len()
            &&& (forall|j: int|
                0 <= j < r.0@.len() ==> monthly_matches(
                    #[trigger] r.0@[j],
                    monthly_kept_lines(ls, file_name@)[j],
                    file_name@,
                ))
            &&& r.1 == monthly_failed_count(ls)
        }),
{
    let ghost ls = lines@.map_values(|s: String| s@);
    let mut out: Vec<MonthlyReading> = Vec::new();
    let mut failed: usize = 0;
    let mut i: usize = 0;
    proof {
        assert(ls.subrange(0, 0) =~= Seq::<Seq<char>>::empty());
    }
    while i < lines.len()
        invariant
            0 <= i <= lines@.len(),
            ls == lines@.map_values(|s: String| s@),
            out@.len() == monthly_kept_lines(ls.subrange(0, i as int), file_name@).len(),
            forall|j: int|
                0 <= j < out@.len() ==> monthly_matches(
                    #[trigger] out@[j],
                    monthly_kept_lines(ls.subrange(0, i as int), file_name@)[j],
                    file_name@,
                ),
            failed == monthly_failed_count(ls.subrange(0, i as int)),
            failed <= i,
        decreases lines@.len() - i,
    {
        let ghost pre = ls.subrange(0, i as int);
        let ghost pre1 = ls.subrange(0, i + 1);
        proof {
            assert(pre1.drop_last() =~= pre);
            assert(pre1.last() == ls[i as int]);
            assert(ls[i as int] == lines@[i as int]@);
        }
        match MonthlyReading::from_line(lines[i].as_str(), file_name) {
            Ok(d) => {
                let keep = d.is_valid();
                if keep {
                    let ghost prev = out@;
                    out.push(d);
                    proof {
                        assert(monthly_line_kept(ls[i as int], file_name@));
                        assert forall|j: int|
                            0 <= j < out@.len() implies monthly_matches(
                            #[trigger] out@[j],
                            monthly_kept_lines(pre1, file_name@)[j],
                            file_name@,
                        ) by {
                            if j < prev.len() {
                                assert(out@[j] == prev[j]);
                                assert(monthly_kept_lines(pre1, file_name@)[j]
                                    == monthly_kept_lines(pre, file_name@)[j]);
                            }
                        }
                    }
                } else {
                    proof {
                        assert(!monthly_line_kept(ls[i as int], file_name@));
                    }
                }
            },
            Err(_) => {
                failed += 1;
                proof {
                    assert(!monthly_line_kept(ls[i as int], file_name@));
                }
            },
        }
        i += 1;
    }
    proof {
        assert(ls.subrange(0, ls.len() as int) =~= ls);
    }
    (out, failed)
}

/// The readings of `rs` that carry dataset `d`, in order.
pub open spec fn with_dataset(rs: Seq<MonthlyReading>, d: Dataset) -> Seq<MonthlyReading>
    decreases rs.len(),
{
    if rs.len() == 0 {
        Seq::empty()
    } else {
        let h = with_dataset(rs.drop_last(), d);
        if rs.last().properties.dataset == d {
            h.push(rs.last())
        } else {
            h
        }
    }
}

/// Monthly readings, split by their dataset tier: the monthly pipeline
/// writes one output file per tier.
pub struct DatasetGroups {
    pub raw: Vec<MonthlyReading>,
    pub tob: Vec<MonthlyReading>,
    pub fls52: Vec<MonthlyReading>,
    pub unknown: Vec<MonthlyReading>,
}

/// Splits monthly readings by dataset, keeping each group in input order.
pub fn group_by_dataset(readings: Vec<MonthlyReading>) -> (g: DatasetGroups)
    ensures
        g.raw@ == with_dataset(readings@, Dataset::Raw),
        g.tob@ == with_dataset(readings@, Dataset::Tob),
        g.fls52@ == with_dataset(readings@, Dataset::Fls52),
        g.unknown@ == with_dataset(readings@, Dataset::Unknown),
{
    let ghost all = readings@;
    let mut rest = readings;
    let mut raw: Vec<MonthlyReading> = Vec::new();
    let mut tob: Vec<MonthlyReading> = Vec::new();
    let mut fls52: Vec<MonthlyReading> = Vec::new();
    let mut unknown: Vec<MonthlyReading> = Vec::new();
    proof {
        assert(all.subrange(0, 0) =~= Seq::<MonthlyReading>::empty());
    }
    while rest.len() > 0
        invariant
            rest@.len() <= all.len(),
            rest@ == all.subrange(all.len() - rest@.len(), all.len() as int),
            raw@ == with_dataset(all.subrange(0, all.len() - rest@.len()), Dataset::Raw),
            tob@ == with_dataset(all.subrange(0, all.len() - rest@.len()), Dataset::Tob),
            fls52@ == with_dataset(all.subrange(0, all.len() - rest@.len()), Dataset::Fls52),
            unknown@ == with_dataset(all.subrange(0, all.len() - rest@.len()), Dataset::Unknown),
        decreases rest@.len(),
    {
        let ghost k = all.len() - rest@.len();
        let ghost pre1 = all.subrange(0, k + 1);
        proof {
            assert(pre1.drop_last() =~= all.subrange(0, k));
            assert(pre1.last() == all[k]);
        }
        let rec = rest.remove(0);
        proof {
            assert(rec == all[k]);
        }
        match rec.properties.dataset {
            Dataset::Raw => {
                raw.push(rec);
            },
            Dataset::Tob => {
                tob.push(rec);
            },
            Dataset::Fls52 => {
                fls52.push(rec);
            },
            Dataset::Unknown => {
                unknown.push(rec);
            },
        }
        proof {
            assert(rest@ =~= all.subrange(all.len() - rest@.len(), all.len() as int));
        }
    }
    proof {
        assert(all.subrange(0, all.len() as int) =~= all);
    }
    DatasetGroups { raw, tob, fls52, unknown }
}

} // verus!
