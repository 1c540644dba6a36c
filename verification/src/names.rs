//! Names the pipeline computes: the archive URLs of the monthly datasets
//! and the dated names of the output files.

use vstd::prelude::*;
use crate::file_properties::{ascii_lower, lower_spec};

verus! {

/// The digit character of `d`.
pub open spec fn digit_char(d: int) -> char {
    ((48 + d) as u8) as char
}

/// The decimal writing of `n`, most significant digit first.
pub open spec fn dec_spec(n: int) -> Seq<char>
    decreases n,
{
    if n < 10 {
        seq![digit_char(n)]
    } else {
        dec_spec(n / 10).push(digit_char(n % 10))
    }
}

/// The two-digit, zero-padded writing of `n`.
pub open spec fn pad2_spec(n: int) -> Seq<char> {
    if n < 10 {
        seq!['0', digit_char(n)]
    } else {
        dec_spec(n)
    }
}

/// The one-character string of digit `d`.
fn digit_str(d: u32) -> (r: &'static str)
    requires
        d < 10,
    ensures
        r@ == seq![digit_char(d as int)],
{
    let s: &'static str = if d == 0 {
        "0"
    } else if d == 1 {
        "1"
    } else if d == 2 {
        "2"
    } else if d == 3 {
        "3"
    } else if d == 4 {
        "4"
    } else if d == 5 {
        "5"
    } else if d == 6 {
        "6"
    } else if d == 7 {
        "7"
    } else if d == 8 {
        "8"
    } else {
        "9"
    };
    proof {
        reveal_strlit("0");
        reveal_strlit("1");
        reveal_strlit("2");
        reveal_strlit("3");
        reveal_strlit("4");
        reveal_strlit("5");
        reveal_strlit("6");
        reveal_strlit("7");
        reveal_strlit("8");
        reveal_strlit("9");
        assert(s@ =~= seq![digit_char(d as int)]);
    }
    s
}

/// Writes `n` in decimal.
pub fn u32_to_string(n: u32) -> (r: String)
    ensures
        r@ == dec_spec(n as int),
    decreases n,
{
    if n < 10 {
        digit_str(n).to_owned()
    } else {
        let mut s = u32_to_string(n / 10);
        s.append(digit_str(n % 10));
        proof {
            assert(s@ =~= dec_spec(n as int));
        }
        s
    }
}

/// Writes `n` two digits wide, zero padded.
pub fn pad2_string(n: u32) -> (r: String)
    ensures
        r@ == pad2_spec(n as int),
{
    if n < 10 {
        let mut s = String::from_str("0");
        s.append(digit_str(n));
        proof {
            reveal_strlit("0");
            assert(s@ =~= pad2_spec(n as int));
        }
        s
    } else {
        u32_to_string(n)
    }
}

/// The archive URL of one (element, dataset) pair of the monthly data.
pub open spec fn url_spec(element: Seq<char>, dataset: Seq<char>) -> Seq<char> {
    "https://www.ncei.noaa.gov/pub/data/ushcn/v2.5/ushcn."@ + element + ".latest."@ + dataset
        + ".tar.gz"@
}

/// The URLs of one element crossed with every dataset, in order.
pub open spec fn urls_for(element: Seq<char>, datasets: Seq<(String, String)>) -> Seq<Seq<char>>
    decreases datasets.len(),
{
    if datasets.len() == 0 {
        Seq::empty()
    } else {
        urls_for(element, datasets.drop_last()).push(url_spec(element, datasets.last().1@))
    }
}

/// The URLs of every element crossed with every dataset.
pub open spec fn urls_spec(elements: Seq<(String, String)>, datasets: Seq<(String, String)>) -> Seq<
    Seq<char>,
>
    decreases elements.len(),
{
    if elements.len() == 0 {
        Seq::empty()
    } else {
        urls_spec(elements.drop_last(), datasets) + urls_for(elements.last().1@, datasets)
    }
}

/// The monthly elements, as (name, archive tag) pairs.
pub fn element_map() -> (r: Vec<(String, String)>)
    ensures
        r@.len() == 3,
        r@[0].0@ == "max"@ && r@[0].1@ == "tmax"@,
        r@[1].0@ == "min"@ && r@[1].1@ == "tmin"@,
        r@[2].0@ == "avg"@ && r@[2].1@ == "tavg"@,
{
    let mut m: Vec<(String, String)> = Vec::new();
    m.push((String::from_str("max"), String::from_str("tmax")));
    m.push((String::from_str("min"), String::from_str("tmin")));
    m.push((String::from_str("avg"), String::from_str("tavg")));
    m
}

/// The monthly datasets, as (name, archive tag) pairs.
pub fn dataset_map() -> (r: Vec<(String, String)>)
    ensures
        r@.len() == 3,
        r@[0].0@ == "fls52"@ && r@[0].1@ == "FLs.52j"@,
        r@[1].0@ == "raw"@ && r@[1].1@ == "raw"@,
        r@[2].0@ == "tob"@ && r@[2].1@ == "tob"@,
{
    let mut m: Vec<(String, String)> = Vec::new();
    m.push((String::from_str("fls52"), String::from_str("FLs.52j")));
    m.push((String::from_str("raw"), String::from_str("raw")));
    m.push((String::from_str("tob"), String::from_str("tob")));
    m
}

/// The archive URLs of every element under every dataset: one per pair,
/// elements outermost, in map order.
pub fn generate_file_urls(element_map: &Vec<(String, String)>, dataset_map: &Vec<(String, String)>)
    -> (r: Vec<String>)
    ensures
        r@.map_values(|u: String| u@) == urls_spec(element_map@, dataset_map@),
{
    let mut r: Vec<String> = Vec::new();
    let mut i: usize = 0;
    proof {
        assert(element_map@.subrange(0, 0) =~= Seq::<(String, String)>::empty());
    }
    while i < element_map.len()
        invariant
            0 <= i <= element_map@.len(),
            r@.map_values(|u: String| u@) == urls_spec(
                element_map@.subrange(0, i as int),
                dataset_map@,
            ),
        decreases element_map@.len() - i,
    {
        let ghost ev = element_map@[i as int].1@;
        let mut j: usize = 0;
        proof {
            assert(dataset_map@.subrange(0, 0) =~= Seq::<(String, String)>::empty());
        }
        while j < dataset_map.len()
            invariant
                0 <= j <= dataset_map@.len(),
                0 <= i < element_map@.len(),
                ev == element_map@[i as int].1@,
                r@.map_values(|u: String| u@) == urls_spec(
                    element_map@.subrange(0, i as int),
                    dataset_map@,
                ) + urls_for(ev, dataset_map@.subrange(0, j as int)),
            decreases dataset_map@.len() - j,
        {
            let ghost dpre1 = dataset_map@.subrange(0, j + 1);
            proof {
                assert(dpre1.drop_last() =~= dataset_map@.subrange(0, j as int));
                assert(dpre1.last() == dataset_map@[j as int]);
            }
            let mut url = String::from_str(
                "https://www.ncei.noaa.gov/pub/data/ushcn/v2.5/ushcn.",
            );
            url.append(element_map[i].1.as_str());
            url.append(".latest.");
            url.append(dataset_map[j].1.as_str());
            url.append(".tar.gz");
            proof {
                assert(url@ =~= url_spec(ev, dataset_map@[j as int].1@));
            }
            let ghost prev = r@;
            r.push(url);
            proof {
                let a = urls_spec(element_map@.subrange(0, i as int), dataset_map@);
                let b = urls_for(ev, dataset_map@.subrange(0, j as int));
                assert(prev.map_values(|u: String| u@) == a + b);
                assert(urls_for(ev, dpre1) =~= b.push(url_spec(ev, dataset_map@[j as int].1@)));
                assert(r@ =~= prev.push(url));
                assert(r@.map_values(|u: String| u@) =~= prev.map_values(|u: String| u@).push(
                    url@,
                ));
                assert((a + b).push(url@) =~= a + urls_for(ev, dpre1));
                assert(r@.map_values(|u: String| u@) =~= a + urls_for(ev, dpre1));
            }
            j += 1;
        }
        proof {
            let pre1 = element_map@.subrange(0, i + 1);
            assert(pre1.drop_last() =~= element_map@.subrange(0, i as int));
            assert(pre1.last() == element_map@[i as int]);
            assert(dataset_map@.subrange(0, dataset_map@.len() as int) =~= dataset_map@);
            assert(r@.map_values(|u: String| u@) =~~= urls_spec(pre1, dataset_map@));
        }
        i += 1;
    }
    proof {
        assert(element_map@.subrange(0, element_map@.len() as int) =~= element_map@);
    }
    r
}

/// The dated name of a period's output file.
pub open spec fn parquet_name_spec(period: Seq<char>, y: int, m: int, d: int) -> Seq<char> {
    "ushcn-"@ + period + "-"@ + dec_spec(y) + "-"@ + pad2_spec(m) + "-"@ + pad2_spec(d)
        + ".parquet"@
}

/// The dated name of a period's output file, e.g. `ushcn-daily-2024-07-16.parquet`.
pub fn make_parquet_file_name(period: &str, year: u32, month: u32, day: u32) -> (r: String)
    ensures
        r@ == parquet_name_spec(period@, year as int, month as int, day as int),
{
    let mut s = String::from_str("ushcn-");
    s.append(period);
    s.append("-");
    s.append(u32_to_string(year).as_str());
    s.append("-");
    s.append(pad2_string(month).as_str());
    s.append("-");
    s.append(pad2_string(day).as_str());
    s.append(".parquet");
    proof {
        assert(s@ =~= parquet_name_spec(period@, year as int, month as int, day as int));
    }
    s
}

/// The dated name of one dataset's output file for a period.
pub open spec fn dataset_parquet_name_spec(
    period: Seq<char>,
    dataset: Seq<char>,
    y: int,
    m: int,
    d: int,
) -> Seq<char> {
    "ushcn-"@ + period + "-"@ + dataset + "-"@ + dec_spec(y) + "-"@ + pad2_spec(m) + "-"@
        + pad2_spec(d) + ".parquet"@
}

/// The dated name of one dataset's output file, e.g.
/// `ushcn-monthly-raw-2024-07-16.parquet`; the dataset tag is folded to
/// lower case.
pub fn make_dataset_parquet_file_name(
    period: &str,
    dataset: &str,
    year: u32,
    month: u32,
    day: u32,
) -> (r: String)
    ensures
        r@ == dataset_parquet_name_spec(
            period@,
            lower_spec(dataset@),
            year as int,
            month as int,
            day as int,
        ),
{
    let mut s = String::from_str("ushcn-");
    s.append(period);
    s.append("-");
    s.append(ascii_lower(dataset).as_str());
    s.append("-");
    s.append(u32_to_string(year).as_str());
    s.append("-");
    s.append(pad2_string(month).as_str());
    s.append("-");
    s.append(pad2_string(day).as_str());
    s.append(".parquet");
    proof {
        assert(s@ =~= dataset_parquet_name_spec(
            period@,
            lower_spec(dataset@),
            year as int,
            month as int,
            day as int,
        ));
    }
    s
}

/// The dated name of a station-list output file under the given prefix.
pub open spec fn stations_name_spec(prefix: Seq<char>, y: int, m: int, d: int) -> Seq<char> {
    prefix + "-stations-"@ + dec_spec(y) + "-"@ + pad2_spec(m) + "-"@ + pad2_spec(d) + ".parquet"@
}

fn stations_file_name(prefix: &str, year: u32, month: u32, day: u32) -> (r: String)
    ensures
        r@ == stations_name_spec(prefix@, year as int, month as int, day as int),
{
    let mut s = String::from_str(prefix);
    s.append("-stations-");
    s.append(u32_to_string(year).as_str());
    s.append("-");
    s.append(pad2_string(month).as_str());
    s.append("-");
    s.append(pad2_string(day).as_str());
    s.append(".parquet");
    proof {
        assert(s@ =~= stations_name_spec(prefix@, year as int, month as int, day as int));
    }
    s
}

/// The dated name of the USHCN station-list output file.
pub fn make_ushcn_parquet_file_name(year: u32, month: u32, day: u32) -> (r: String)
    ensures
        r@ == stations_name_spec("ushcn"@, year as int, month as int, day as int),
{
    stations_file_name("ushcn", year, month, day)
}

/// The dated name of the GHCN station-list output file.
pub fn make_ghcn_parquet_file_name(year: u32, month: u32, day: u32) -> (r: String)
    ensures
        r@ == stations_name_spec("ghcnd"@, year as int, month as int, day as int),
{
    stations_file_name("ghcnd", year, month, day)
}

} // verus!
