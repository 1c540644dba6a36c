//! The station gazetteer: fixed-width station lines, in the two dialects
//! that differ by a one-character shift of the latitude field.

use vstd::prelude::*;
use crate::decimal::Decimal;
use crate::reading::DecodeError;
use crate::text::{parse_decimal_in, parse_decimal_spec, trim_bounds, trim_spec};

verus! {

/// One station of the gazetteer.
#[derive(Debug, Clone)]
pub struct Station {
    pub country_code: String,
    pub network_code: String,
    pub id_placeholder: String,
    pub coop_id: String,
    pub latitude: Option<Decimal>,
    pub longitude: Option<Decimal>,
    pub elevation: Option<Decimal>,
    pub state: Option<String>,
    pub name: String,
}

/// Which station-list dialect a line is written in. The two differ only in
/// where the latitude field starts.
#[derive(Clone, Copy, Debug, PartialEq, Eq, Structural)]
pub enum Dialect {
    Ushcn,
    Ghcn,
}

/// Where the latitude field starts under each dialect.
pub open spec fn lat_start(d: Dialect) -> int {
    if d == Dialect::Ushcn {
        12
    } else {
        11
    }
}

/// A coordinate-like field: a signed decimal, with `-999.9` standing for
/// a missing value.
pub open spec fn coord_of(w: Seq<char>) -> Option<Decimal> {
    match parse_decimal_spec(w) {
        Some(v) => if v == -9_999_000 {
            None
        } else {
            Some(Decimal { e4: v as i64 })
        },
        None => None,
    }
}

/// The coordinate field at `line[from..to]`.
pub open spec fn coord_spec(line: Seq<char>, from: int, to: int) -> Option<Decimal> {
    coord_of(line.subrange(from, to))
}

/// How a decoded station relates to its line under a dialect: every field
/// is the fixed-width slice the format assigns it.
pub open spec fn station_matches(s: Station, line: Seq<char>, d: Dialect) -> bool {
    &&& s.country_code@ == line.subrange(0, 2)
    &&& s.network_code@ == line.subrange(2, 3)
    &&& s.id_placeholder@ == line.subrange(3, 5)
    &&& s.coop_id@ == line.subrange(5, 11)
    &&& s.latitude == coord_spec(line, lat_start(d), 20)
    &&& s.longitude == coord_spec(line, 21, 30)
    &&& s.elevation == coord_spec(line, 32, 37)
    &&& (match s.state {
        None => trim_spec(line.subrange(38, 40)).len() == 0,
        Some(st) => trim_spec(line.subrange(38, 40)).len() > 0 && st@ == trim_spec(
            line.subrange(38, 40),
        ),
    })
    &&& s.name@ == trim_spec(line.subrange(41, 71))
}

/// Which field a too-short station line is rejected for: the first one
/// that cannot be sliced.
pub open spec fn station_error_spec(line: Seq<char>, d: Dialect) -> DecodeError {
    if line.len() < 2 {
        DecodeError::MalformedRecord { from: 0, to: 2 }
    } else if line.len() < 3 {
        DecodeError::MalformedRecord { from: 2, to: 3 }
    } else if line.len() < 5 {
        DecodeError::MalformedRecord { from: 3, to: 5 }
    } else if line.len() < 11 {
        DecodeError::MalformedRecord { from: 5, to: 11 }
    } else if line.len() < 20 {
        DecodeError::MalformedRecord { from: lat_start(d) as usize, to: 20 }
    } else if line.len() < 30 {
        DecodeError::MalformedRecord { from: 21, to: 30 }
    } else if line.len() < 37 {
        DecodeError::MalformedRecord { from: 32, to: 37 }
    } else if line.len() < 40 {
        DecodeError::MalformedRecord { from: 38, to: 40 }
    } else {
        DecodeError::MalformedRecord { from: 41, to: 71 }
    }
}

/// Law: the two station-list dialects differ only by the one-character
/// shift of the latitude field. On one and the same line, the window the
/// USHCN dialect reads as latitude is exactly the GHCN window with its
/// first character dropped, and every other field is read identically —
/// `station_matches` places them at the same offsets for both dialects.
pub proof fn lemma_dialect_latitude_shift(line: Seq<char>)
    requires
        line.len() >= 71,
    ensures
        lat_start(Dialect::Ushcn) == lat_start(Dialect::Ghcn) + 1,
        line.subrange(lat_start(Dialect::Ushcn), 20) == line.subrange(
            lat_start(Dialect::Ghcn),
            20,
        ).drop_first(),
        coord_spec(line, lat_start(Dialect::Ushcn), 20) == coord_of(
            line.subrange(lat_start(Dialect::Ghcn), 20).drop_first(),
        ),
{
    assert(line.subrange(12, 20) =~= line.subrange(11, 20).drop_first());
}

/// The station identifier: the four identifier fields, concatenated.
pub open spec fn station_id_spec(s: Station) -> Seq<char> {
    s.country_code@ + s.network_code@ + s.id_placeholder@ + s.coop_id@
}

/// Parses a coordinate-like field, turning the `-999.9` sentinel into a
/// missing value.
pub fn parse_and_filter(s: &str) -> (r: Option<Decimal>)
    ensures
        r == coord_of(s@),
{
    let n = s.unicode_len();
    proof {
        assert(s@.subrange(0, n as int) =~= s@);
    }
    match parse_decimal_in(s, 0, n) {
        Some(v) => {
            if v == -9_999_000 {
                None
            } else {
                Some(Decimal { e4: v })
            }
        },
        None => None,
    }
}

/// Trims a field, yielding it as a `String`, or `None` if nothing is left.
pub fn parse_str(s: &str) -> (r: Option<String>)
    ensures
        (match r {
            None => trim_spec(s@).len() == 0,
            Some(st) => trim_spec(s@).len() > 0 && st@ == trim_spec(s@),
        }),
{
    let n = s.unicode_len();
    proof {
        assert(s@.subrange(0, n as int) =~= s@);
    }
    let (a, b) = trim_bounds(s, 0, n);
    if a == b {
        None
    } else {
        Some(s.substring_char(a, b).to_owned())
    }
}

/// The coordinate field at `line[from..to]`, executably.
fn coord_field(line: &str, from: usize, to: usize) -> (r: Option<Decimal>)
    requires
        from <= to <= line@.len(),
    ensures
        r == coord_spec(line@, from as int, to as int),
{
    match parse_decimal_in(line, from, to) {
        Some(v) => {
            if v == -9_999_000 {
                None
            } else {
                Some(Decimal { e4: v })
            }
        },
        None => None,
    }
}

/// The trimmed field at `line[from..to]`, as an owned `String`.
fn trimmed_field(line: &str, from: usize, to: usize) -> (r: String)
    requires
        from <= to <= line@.len(),
    ensures
        r@ == trim_spec(line@.subrange(from as int, to as int)),
{
    let (a, b) = trim_bounds(line, from, to);
    s_to_owned(line, a, b)
}

/// The raw field at `line[from..to]`, as an owned `String`.
fn s_to_owned(line: &str, from: usize, to: usize) -> (r: String)
    requires
        from <= to <= line@.len(),
    ensures
        r@ == line@.subrange(from as int, to as int),
{
    line.substring_char(from, to).to_owned()
}

impl Station {
    /// Decodes one station line under the given dialect. A line shorter
    /// than the fixed layout fails with the first field that cannot be
    /// sliced.
    pub fn from_line(line: &str, dialect: Dialect) -> (r: Result<Station, DecodeError>)
        ensures
            r is Ok <==> line@.len() >= 71,
            r matches Ok(s) ==> station_matches(s, line@, dialect),
            r matches Err(e) ==> e == station_error_spec(line@, dialect),
    {
        let n = line.unicode_len();
        if n < 2 {
            return Err(DecodeError::MalformedRecord { from: 0, to: 2 });
        }
        if n < 3 {
            return Err(DecodeError::MalformedRecord { from: 2, to: 3 });
        }
        if n < 5 {
            return Err(DecodeError::MalformedRecord { from: 3, to: 5 });
        }
        if n < 11 {
            return Err(DecodeError::MalformedRecord { from: 5, to: 11 });
        }
        let lat_from: usize = match dialect {
            Dialect::Ushcn => 12,
            Dialect::Ghcn => 11,
        };
        if n < 20 {
            return Err(DecodeError::MalformedRecord { from: lat_from, to: 20 });
        }
        if n < 30 {
            return Err(DecodeError::MalformedRecord { from: 21, to: 30 });
        }
        if n < 37 {
            return Err(DecodeError::MalformedRecord { from: 32, to: 37 });
        }
        if n < 40 {
            return Err(DecodeError::MalformedRecord { from: 38, to: 40 });
        }
        if n < 71 {
            return Err(DecodeError::MalformedRecord { from: 41, to: 71 });
        }
        let country_code = s_to_owned(line, 0, 2);
        let network_code = s_to_owned(line, 2, 3);
        let id_placeholder = s_to_owned(line, 3, 5);
        let coop_id = s_to_owned(line, 5, 11);
        let latitude = coord_field(line, lat_from, 20);
        let longitude = coord_field(line, 21, 30);
        let elevation = coord_field(line, 32, 37);
        let state = {
            let (a, b) = trim_bounds(line, 38, 40);
            if a == b {
                None
            } else {
                Some(s_to_owned(line, a, b))
            }
        };
        let name = trimmed_field(line, 41, 71);
        Ok(
            Station {
                country_code,
                network_code,
                id_placeholder,
                coop_id,
                latitude,
                longitude,
                elevation,
                state,
                name,
            },
        )
    }

    /// Decodes one line of the USHCN station list.
    pub fn from_ushcn_line(line: &str) -> (r: Result<Station, DecodeError>)
        ensures
            r is Ok <==> line@.len() >= 71,
            r matches Ok(s) ==> station_matches(s, line@, Dialect::Ushcn),
            r matches Err(e) ==> e == station_error_spec(line@, Dialect::Ushcn),
    {
        Station::from_line(line, Dialect::Ushcn)
    }

    /// Decodes one line of the GHCN station list.
    pub fn from_ghcn_line(line: &str) -> (r: Result<Station, DecodeError>)
        ensures
            r is Ok <==> line@.len() >= 71,
            r matches Ok(s) ==> station_matches(s, line@, Dialect::Ghcn),
            r matches Err(e) ==> e == station_error_spec(line@, Dialect::Ghcn),
    {
        Station::from_line(line, Dialect::Ghcn)
    }

    /// The station identifier: the four identifier fields, concatenated.
    pub fn station_id(&self) -> (r: String)
        ensures
            r@ == station_id_spec(*self),
    {
        let mut r = String::new();
        r.append(self.country_code.as_str());
        r.append(self.network_code.as_str());
        r.append(self.id_placeholder.as_str());
        r.append(self.coop_id.as_str());
        proof {
            assert(r@ =~= station_id_spec(*self));
        }
        r
    }
}

impl Default for Station {
    /// A station with empty identifier fields and no coordinates.
    fn default() -> (r: Station)
        ensures
            r.country_code@ == Seq::<char>::empty(),
            r.network_code@ == Seq::<char>::empty(),
            r.id_placeholder@ == Seq::<char>::empty(),
            r.coop_id@ == Seq::<char>::empty(),
            r.latitude is None,
            r.longitude is None,
            r.elevation is None,
            r.state is None,
            r.name@ == Seq::<char>::empty(),
    {
        Station {
            country_code: String::new(),
            network_code: String::new(),
            id_placeholder: String::new(),
            coop_id: String::new(),
            latitude: None,
            longitude: None,
            elevation: None,
            state: None,
            name: String::new(),
        }
    }
}

/// Decodes a whole station list. Station files are assumed well formed:
/// one bad line fails the whole list, with the first failure's error.
pub fn parse_station_lines(lines: &Vec<String>, dialect: Dialect) -> (r: Result<
    Vec<Station>,
    DecodeError,
>)
    ensures
        r is Ok <==> (forall|j: int| 0 <= j < lines@.len() ==> (#[trigger] lines@[j])@.len() >= 71),
        r matches Ok(v) ==> v@.len() == lines@.len() && (forall|j: int|
            0 <= j < lines@.len() ==> station_matches(
                #[trigger] v@[j],
                lines@[j]@,
                dialect,
            )),
        r matches Err(e) ==> (exists|j: int|
            0 <= j < lines@.len() && (#[trigger] lines@[j])@.len() < 71 && e == station_error_spec(
                lines@[j]@,
                dialect,
            ) && (forall|k: int| 0 <= k < j ==> (#[trigger] lines@[k])@.len() >= 71)),
{
    let mut out: Vec<Station> = Vec::new();
    let mut i: usize = 0;
    while i < lines.len()
        invariant
            0 <= i <= lines@.len(),
            out@.len() == i,
            forall|k: int| 0 <= k < i ==> (#[trigger] lines@[k])@.len() >= 71,
            forall|k: int| 0 <= k < i ==> station_matches(#[trigger] out@[k], lines@[k]@, dialect),
        decreases lines@.len() - i,
    {
        match Station::from_line(lines[i].as_str(), dialect) {
            Ok(s) => {
                out.push(s);
            },
            Err(e) => {
                return Err(e);
            },
        }
        i += 1;
    }
    Ok(out)
}

} // verus!
