//! The monthly record frame: one station-year line with 12 month slots.

use vstd::prelude::*;
use crate::decimal::Decimal;
use crate::file_properties::{file_properties_spec, Element, FileProperties};
use crate::reading::{DecodeError, Reading};
use crate::text::{lemma_parse_int_bound, parse_int_in, parse_int_spec, parse_u16_in, parse_u16_spec};

verus! {

/// One decoded monthly record: a station-year of month-by-month values.
#[derive(Debug, Clone)]
pub struct MonthlyReading {
    /// station identifier
    pub id: String,
    /// station latitude, once coordinates are injected
    pub lat: Option<Decimal>,
    /// station longitude, once coordinates are injected
    pub lon: Option<Decimal>,
    /// year of the readings
    pub year: u16,
    /// always absent: each slot is a whole month
    pub month: Option<u16>,
    /// dataset and element, derived from the source file name
    pub properties: FileProperties,
    /// one value per month of the year, in hundredths of the element's unit
    pub values: Vec<Option<Decimal>>,
}

/// The value of month slot `i` of a monthly line: five characters starting
/// at offset `17 + 9 i`, trimmed and read as a signed integer count of
/// hundredths. A short line, unparseable text, or the `-9999` sentinel all
/// yield a missing value.
pub open spec fn monthly_slot_spec(line: Seq<char>, i: int) -> Option<Decimal> {
    if line.len() >= 17 + 9 * i + 5 {
        match parse_int_spec(line.subrange(17 + 9 * i, 17 + 9 * i + 5)) {
            Some(v) => if v == -9999 {
                None
            } else {
                Some(Decimal { e4: (v * 100) as i64 })
            },
            None => None,
        }
    } else {
        None
    }
}

/// All 12 month slots of a monthly line.
pub open spec fn monthly_values_spec(line: Seq<char>) -> Seq<Option<Decimal>> {
    Seq::new(12, |i: int| monthly_slot_spec(line, i))
}

/// Whether the monthly header fields — station id and year — can be
/// sliced and read.
pub open spec fn monthly_header_ok(line: Seq<char>) -> bool {
    line.len() >= 16 && parse_u16_spec(line.subrange(12, 16)) is Some
}

/// Which header field a failing monthly line is rejected for.
pub open spec fn monthly_error_spec(line: Seq<char>) -> DecodeError {
    if line.len() < 11 {
        DecodeError::MalformedRecord { from: 0, to: 11 }
    } else {
        DecodeError::MalformedRecord { from: 12, to: 16 }
    }
}

/// Whether a monthly element is one that ingestion keeps.
pub open spec fn monthly_element_kept(e: Element) -> bool {
    e == Element::Max || e == Element::Min || e == Element::Avg
}

/// How a decoded monthly reading relates to its line and source file
/// name: every field is what the fixed-width layout assigns it.
pub open spec fn monthly_matches(d: MonthlyReading, line: Seq<char>, file_name: Seq<char>) -> bool {
    &&& d.id@ == line.subrange(0, 11)
    &&& d.lat is None
    &&& d.lon is None
    &&& d.year == parse_u16_spec(line.subrange(12, 16))->0
    &&& d.month is None
    &&& d.properties == file_properties_spec(file_name)
    &&& d.values@ == monthly_values_spec(line)
}

/// Law: a monthly line decodes to exactly 12 value slots, one per month
/// of the year, however short the line is.
pub proof fn lemma_monthly_slot_count(line: Seq<char>)
    ensures
        monthly_values_spec(line).len() == 12,
{
}

/// Law: the `-9999` sentinel in a month slot always decodes to a missing
/// value, never to a number.
pub proof fn lemma_monthly_sentinel_missing(line: Seq<char>, i: int)
    requires
        parse_int_spec(line.subrange(17 + 9 * i, 17 + 9 * i + 5)) == Some(-9999int),
    ensures
        monthly_slot_spec(line, i) is None,
{
}

/// Law: a present monthly slot holding integer `v` decodes to the value
/// `v / 100` — exactly `v * 100` ten-thousandths.
pub proof fn lemma_monthly_scaling(line: Seq<char>, i: int, v: int)
    requires
        line.len() >= 17 + 9 * i + 5,
        parse_int_spec(line.subrange(17 + 9 * i, 17 + 9 * i + 5)) == Some(v),
        v != -9999,
    ensures
        monthly_slot_spec(line, i) == Some(Decimal { e4: (v * 100) as i64 }),
{
}

/// Reads the 12 month slots of a monthly line. Slots the line is too short
/// for are missing, never an error.
pub fn parse_monthly_values(line: &str) -> (v: Vec<Option<Decimal>>)
    ensures
        v@ == monthly_values_spec(line@),
{
    let n = line.unicode_len();
    let mut values: Vec<Option<Decimal>> = Vec::new();
    let mut i: usize = 0;
    while i < 12
        invariant
            0 <= i <= 12,
            n == line@.len(),
            values@.len() == i,
            forall|k: int| 0 <= k < i ==> values@[k] == monthly_slot_spec(line@, k),
        decreases 12 - i,
    {
        let start = 17 + 9 * i;
        let slot: Option<Decimal> = if n >= start + 5 {
            match parse_int_in(line, start, start + 5) {
                Some(v) => {
                    if v == -9999 {
                        None
                    } else {
                        proof {
                            lemma_parse_int_bound(line@.subrange(start as int, start + 5));
                        }
                        Some(Decimal { e4: v * 100 })
                    }
                },
                None => None,
            }
        } else {
            None
        };
        values.push(slot);
        i += 1;
    }
    proof {
        assert(values@ =~= monthly_values_spec(line@));
    }
    values
}

impl MonthlyReading {
    /// Decodes one monthly line; dataset and element come from the source
    /// file name. The header must be sliceable and numeric; the value slots
    /// degrade to missing values instead of failing.
    pub fn from_line(line: &str, file_name: &str) -> (r: Result<MonthlyReading, DecodeError>)
        ensures
            r is Ok <==> monthly_header_ok(line@),
            r matches Ok(d) ==> monthly_matches(d, line@, file_name@),
            r matches Err(e) ==> e == monthly_error_spec(line@),
    {
        let n = line.unicode_len();
        if n < 11 {
            return Err(DecodeError::MalformedRecord { from: 0, to: 11 });
        }
        if n < 16 {
            return Err(DecodeError::MalformedRecord { from: 12, to: 16 });
        }
        let year = match parse_u16_in(line, 12, 16) {
            Some(y) => y,
            None => {
                return Err(DecodeError::MalformedRecord { from: 12, to: 16 });
            },
        };
        let id = line.substring_char(0, 11).to_owned();
        let properties = match FileProperties::from_file(file_name) {
            Ok(p) => p,
            Err(e) => {
                return Err(e);
            },
        };
        let values = parse_monthly_values(line);
        Ok(MonthlyReading { id, lat: None, lon: None, year, month: None, properties, values })
    }

    /// Whether this record's element is a monthly maximum, minimum or
    /// average, the monthly elements that ingestion keeps.
    pub fn is_valid(&self) -> (b: bool)
        ensures
            b == monthly_element_kept(self.properties.element),
    {
        match self.properties.element {
            Element::Max | Element::Min | Element::Avg => true,
            _ => false,
        }
    }
}

impl Reading for MonthlyReading {
    fn from_line(line: &str, file_name: &str) -> Result<Self, DecodeError> {
        MonthlyReading::from_line(line, file_name)
    }

    fn is_valid(&self) -> bool {
        MonthlyReading::is_valid(self)
    }
}

} // verus!
