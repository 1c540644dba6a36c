//! The daily record frame: one station-month line with 31 day slots.

use vstd::prelude::*;
use crate::decimal::Decimal;
use crate::file_properties::{element_of_code, Dataset, Element, FileProperties};
use crate::reading::{DecodeError, Reading};
use crate::text::{lemma_parse_int_bound, parse_int_in, parse_int_spec, parse_u16_in, parse_u16_spec};

verus! {

/// One decoded daily record: a station-month of day-by-day values.
#[derive(Debug, Clone)]
pub struct DailyReading {
    /// station identifier
    pub id: String,
    /// station latitude, once coordinates are injected
    pub lat: Option<Decimal>,
    /// station longitude, once coordinates are injected
    pub lon: Option<Decimal>,
    /// year of the readings
    pub year: u16,
    /// month of the readings
    pub month: Option<u16>,
    /// element of the readings; daily lines carry no dataset
    pub properties: FileProperties,
    /// one value per day of the month, in tenths of the element's unit
    pub values: Vec<Option<Decimal>>,
}

/// The value of day slot `i` of a daily line: five characters starting at
/// offset `21 + 8 i`, trimmed and read as a signed integer count of tenths.
/// A short line, unparseable text, or the `-9999` sentinel all yield a
/// missing value.
pub open spec fn daily_slot_spec(line: Seq<char>, i: int) -> Option<Decimal> {
    if line.len() >= 21 + 8 * i + 5 {
        match parse_int_spec(line.subrange(21 + 8 * i, 21 + 8 * i + 5)) {
            Some(v) => if v == -9999 {
                None
            } else {
                Some(Decimal { e4: (v * 1000) as i64 })
            },
            None => None,
        }
    } else {
        None
    }
}

/// All 31 day slots of a daily line.
pub open spec fn daily_values_spec(line: Seq<char>) -> Seq<Option<Decimal>> {
    Seq::new(31, |i: int| daily_slot_spec(line, i))
}

/// Whether the daily header fields — station id, year, month, element —
/// can all be sliced and read.
pub open spec fn daily_header_ok(line: Seq<char>) -> bool {
    line.len() >= 21 && parse_u16_spec(line.subrange(11, 15)) is Some && parse_u16_spec(
        line.subrange(15, 17),
    ) is Some
}

/// Which header field a failing daily line is rejected for.
pub open spec fn daily_error_spec(line: Seq<char>) -> DecodeError {
    if line.len() < 11 {
        DecodeError::MalformedRecord { from: 0, to: 11 }
    } else if line.len() < 15 || parse_u16_spec(line.subrange(11, 15)) is None {
        DecodeError::MalformedRecord { from: 11, to: 15 }
    } else if line.len() < 17 || parse_u16_spec(line.subrange(15, 17)) is None {
        DecodeError::MalformedRecord { from: 15, to: 17 }
    } else {
        DecodeError::MalformedRecord { from: 17, to: 21 }
    }
}

/// Whether a daily element is one that ingestion keeps.
pub open spec fn daily_element_kept(e: Element) -> bool {
    e == Element::Prcp || e == Element::Tmax || e == Element::Tmin
}

/// How a decoded daily reading relates to its line: every field is what
/// the fixed-width layout assigns it, and coordinates start out unknown.
pub open spec fn daily_matches(d: DailyReading, line: Seq<char>) -> bool {
    &&& d.id@ == line.subrange(0, 11)
    &&& d.lat is None
    &&& d.lon is None
    &&& d.year == parse_u16_spec(line.subrange(11, 15))->0
    &&& d.month == Some(parse_u16_spec(line.subrange(15, 17))->0)
    &&& d.properties == (FileProperties {
        dataset: Dataset::Unknown,
        element: element_of_code(line.subrange(17, 21)),
    })
    &&& d.values@ == daily_values_spec(line)
}

/// Law: a daily line decodes to exactly 31 value slots, one per possible
/// day of a month, however short the line is.
pub proof fn lemma_daily_slot_count(line: Seq<char>)
    ensures
        daily_values_spec(line).len() == 31,
{
}

/// Law: the `-9999` sentinel in a day slot always decodes to a missing
/// value, never to a number.
pub proof fn lemma_daily_sentinel_missing(line: Seq<char>, i: int)
    requires
        parse_int_spec(line.subrange(21 + 8 * i, 21 + 8 * i + 5)) == Some(-9999int),
    ensures
        daily_slot_spec(line, i) is None,
{
}

/// Law: a present daily slot holding integer `v` decodes to the value
/// `v / 10` — exactly `v * 1000` ten-thousandths.
pub proof fn lemma_daily_scaling(line: Seq<char>, i: int, v: int)
    requires
        line.len() >= 21 + 8 * i + 5,
        parse_int_spec(line.subrange(21 + 8 * i, 21 + 8 * i + 5)) == Some(v),
        v != -9999,
    ensures
        daily_slot_spec(line, i) == Some(Decimal { e4: (v * 1000) as i64 }),
{
}

/// Reads the 31 day slots of a daily line. Slots the line is too short for
/// are missing, never an error.
pub fn parse_daily_values(line: &str) -> (v: Vec<Option<Decimal>>)
    ensures
        v@ == daily_values_spec(line@),
{
    let n = line.unicode_len();
    let mut values: Vec<Option<Decimal>> = Vec::new();
    let mut i: usize = 0;
    while i < 31
        invariant
            0 <= i <= 31,
            n == line@.len(),
            values@.len() == i,
            forall|k: int| 0 <= k < i ==> values@[k] == daily_slot_spec(line@, k),
        decreases 31 - i,
    {
        let start = 21 + 8 * i;
        let slot: Option<Decimal> = if n >= start + 5 {
            match parse_int_in(line, start, start + 5) {
                Some(v) => {
                    if v == -9999 {
                        None
                    } else {
                        proof {
                            lemma_parse_int_bound(line@.subrange(start as int, start + 5));
                        }
                        Some(Decimal { e4: v * 1000 })
                    }
                },
                None => None,
            }
        } else {
            None
        };
        values.push(slot);
        i += 1;
    }
    proof {
        assert(values@ =~= daily_values_spec(line@));
    }
    values
}

impl DailyReading {
    /// Decodes one daily line. The header must be sliceable and numeric;
    /// the value slots degrade to missing values instead of failing.
    pub fn from_line(line: &str, file_name: &str) -> (r: Result<DailyReading, DecodeError>)
        ensures
            r is Ok <==> daily_header_ok(line@),
            r matches Ok(d) ==> daily_matches(d, line@),
            r matches Err(e) ==> e == daily_error_spec(line@),
    {
        let n = line.unicode_len();
        if n < 11 {
            return Err(DecodeError::MalformedRecord { from: 0, to: 11 });
        }
        if n < 15 {
            return Err(DecodeError::MalformedRecord { from: 11, to: 15 });
        }
        let year = match parse_u16_in(line, 11, 15) {
            Some(y) => y,
            None => {
                return Err(DecodeError::MalformedRecord { from: 11, to: 15 });
            },
        };
        if n < 17 {
            return Err(DecodeError::MalformedRecord { from: 15, to: 17 });
        }
        let month = match parse_u16_in(line, 15, 17) {
            Some(m) => m,
            None => {
                return Err(DecodeError::MalformedRecord { from: 15, to: 17 });
            },
        };
        if n < 21 {
            return Err(DecodeError::MalformedRecord { from: 17, to: 21 });
        }
        let id = line.substring_char(0, 11).to_owned();
        let properties = match FileProperties::from_element(line.substring_char(17, 21)) {
            Ok(p) => p,
            Err(e) => {
                return Err(e);
            },
        };
        let values = parse_daily_values(line);
        Ok(DailyReading { id, lat: None, lon: None, year, month: Some(month), properties, values })
    }

    /// Whether this record's element is precipitation or a temperature
    /// extreme, the daily elements that ingestion keeps.
    pub fn is_valid(&self) -> (b: bool)
        ensures
            b == daily_element_kept(self.properties.element),
    {
        match self.properties.element {
            Element::Prcp | Element::Tmax | Element::Tmin => true,
            _ => false,
        }
    }
}

impl Reading for DailyReading {
    fn from_line(line: &str, file_name: &str) -> Result<Self, DecodeError> {
        DailyReading::from_line(line, file_name)
    }

    fn is_valid(&self) -> bool {
        DailyReading::is_valid(self)
    }
}

} // verus!
