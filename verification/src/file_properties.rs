//! The dataset and element tags of a record, and how they are read from an
//! element code or derived from a source file name.

use vstd::prelude::*;
use crate::reading::DecodeError;
use crate::text::str_eq;

verus! {

/// The quality tier of a monthly record: raw, time-of-observation corrected,
/// or fully homogenized.
#[derive(Clone, Copy, Debug, PartialEq, Eq, Hash, Structural)]
pub enum Dataset {
    Fls52,
    Raw,
    Tob,
    Unknown,
}

/// The measured quantity: monthly max/min/average, or daily precipitation
/// and temperature extremes.
#[derive(Clone, Copy, Debug, PartialEq, Eq, Hash, Structural)]
pub enum Element {
    Max,
    Min,
    Avg,
    Prcp,
    Tmax,
    Tmin,
    Unknown,
}

/// The dataset and element a record belongs to.
#[derive(Clone, Copy, Debug, PartialEq, Eq, Hash, Structural)]
pub struct FileProperties {
    pub dataset: Dataset,
    pub element: Element,
}

/// `s` split at every `.`, as `str::split('.')` yields it.
pub open spec fn split_dots_spec(s: Seq<char>) -> Seq<Seq<char>>
    decreases s.len(),
{
    if s.len() == 0 {
        seq![Seq::<char>::empty()]
    } else if s[s.len() - 1] == '.' {
        split_dots_spec(s.subrange(0, s.len() - 1)).push(Seq::<char>::empty())
    } else {
        let r = split_dots_spec(s.subrange(0, s.len() - 1));
        r.update(r.len() - 1, r[r.len() - 1].push(s[s.len() - 1]))
    }
}

pub proof fn lemma_split_dots_nonempty(s: Seq<char>)
    ensures
        split_dots_spec(s).len() >= 1,
    decreases s.len(),
{
    if s.len() > 0 {
        lemma_split_dots_nonempty(s.subrange(0, s.len() - 1));
    }
}

/// `c` with an ASCII capital letter folded to lower case.
pub open spec fn lower_char(c: char) -> char {
    if 65 <= c as u32 <= 90 {
        ((c as u32 + 32) as u8) as char
    } else {
        c
    }
}

/// `s` with ASCII capitals folded to lower case.
pub open spec fn lower_spec(s: Seq<char>) -> Seq<char> {
    s.map_values(|c: char| lower_char(c))
}

/// The element named by a monthly file-name tag.
pub open spec fn element_of_tag(t: Seq<char>) -> Element {
    if t == "tmax"@ {
        Element::Max
    } else if t == "tmin"@ {
        Element::Min
    } else if t == "tavg"@ {
        Element::Avg
    } else {
        Element::Unknown
    }
}

/// The dataset named by a monthly file-name tag.
pub open spec fn dataset_of_tag(t: Seq<char>) -> Dataset {
    if t == "raw"@ {
        Dataset::Raw
    } else if t == "tob"@ {
        Dataset::Tob
    } else {
        Dataset::Unknown
    }
}

/// The element named by a daily record's four-character code, compared
/// without regard to ASCII case.
pub open spec fn element_of_code(s: Seq<char>) -> Element {
    if lower_spec(s) == "prcp"@ {
        Element::Prcp
    } else if lower_spec(s) == "tmax"@ {
        Element::Tmax
    } else if lower_spec(s) == "tmin"@ {
        Element::Tmin
    } else {
        Element::Unknown
    }
}

/// The properties a monthly source file name carries in its dot-separated
/// segments: two tag segments name the dataset and element, three mean the
/// fully homogenized dataset, and any other shape is unknown.
pub open spec fn file_properties_spec(name: Seq<char>) -> FileProperties {
    let ps = split_dots_spec(name);
    if ps.len() == 3 {
        FileProperties { dataset: dataset_of_tag(ps[1]), element: element_of_tag(ps[2]) }
    } else if ps.len() == 4 {
        FileProperties { dataset: Dataset::Fls52, element: element_of_tag(ps[3]) }
    } else {
        FileProperties { dataset: Dataset::Unknown, element: Element::Unknown }
    }
}

/// Splits `s` at every `.`.
pub fn split_dots(s: &str) -> (r: Vec<String>)
    ensures
        r@.map_values(|p: String| p@) == split_dots_spec(s@),
{
    let len = s.unicode_len();
    let mut parts: Vec<String> = Vec::new();
    let mut cur = String::new();
    let mut i: usize = 0;
    proof {
        assert(parts@.map_values(|p: String| p@).push(cur@) =~= split_dots_spec(
            s@.subrange(0, 0),
        ));
    }
    while i < len
        invariant
            0 <= i <= len,
            len == s@.len(),
            parts@.map_values(|p: String| p@).push(cur@) =~= split_dots_spec(
                s@.subrange(0, i as int),
            ),
        decreases len - i,
    {
        let ghost pre = s@.subrange(0, i as int);
        let ghost pre1 = s@.subrange(0, i + 1);
        proof {
            assert(pre1.subrange(0, pre1.len() - 1) =~= pre);
            assert(pre1[pre1.len() - 1] == s@[i as int]);
        }
        let c = s.get_char(i);
        if c == '.' {
            parts.push(cur);
            cur = String::new();
            proof {
                assert(parts@.map_values(|p: String| p@).push(cur@) =~= split_dots_spec(pre1));
            }
        } else {
            let piece = s.substring_char(i, i + 1);
            let ghost prev_cur = cur@;
            proof {
                assert(piece@ =~= seq![s@[i as int]]);
            }
            cur.append(piece);
            proof {
                let r = split_dots_spec(pre);
                lemma_split_dots_nonempty(pre);
                assert(cur@ =~= prev_cur.push(s@[i as int]));
                assert(r[r.len() - 1] == prev_cur);
                assert(parts@.map_values(|p: String| p@).push(cur@) =~= r.update(
                    r.len() - 1,
                    prev_cur.push(s@[i as int]),
                ));
            }
        }
        i += 1;
    }
    parts.push(cur);
    proof {
        assert(s@.subrange(0, len as int) =~= s@);
        assert(parts@.map_values(|p: String| p@) =~= split_dots_spec(s@));
    }
    parts
}

/// Whether `s`, folded to ASCII lower case, equals `pat`.
fn eq_folded(s: &str, pat: &str) -> (r: bool)
    ensures
        r == (lower_spec(s@) == pat@),
{
    let ls = s.unicode_len();
    let lp = pat.unicode_len();
    if ls != lp {
        proof {
            if lower_spec(s@) == pat@ {
                assert(lower_spec(s@).len() == pat@.len());
            }
        }
        return false;
    }
    let mut i: usize = 0;
    while i < ls
        invariant
            0 <= i <= ls,
            ls == s@.len() == pat@.len(),
            forall|j: int| 0 <= j < i ==> lower_char(s@[j]) == pat@[j],
        decreases ls - i,
    {
        let c = s.get_char(i);
        let u = c as u32;
        let folded: char = if 65 <= u && u <= 90 {
            ((u + 32) as u8) as char
        } else {
            c
        };
        proof {
            assert(folded == lower_char(s@[i as int]));
        }
        if folded != pat.get_char(i) {
            proof {
                if lower_spec(s@) == pat@ {
                    assert(lower_spec(s@)[i as int] == pat@[i as int]);
                }
            }
            return false;
        }
        i += 1;
    }
    proof {
        assert(lower_spec(s@) =~= pat@);
    }
    true
}

impl Element {
    /// Reads a daily element code such as `TMAX`, ignoring ASCII case;
    /// anything unrecognized is `Unknown`.
    pub fn from_str(s: &str) -> (r: Element)
        ensures
            r == element_of_code(s@),
    {
        if eq_folded(s, "prcp") {
            Element::Prcp
        } else if eq_folded(s, "tmax") {
            Element::Tmax
        } else if eq_folded(s, "tmin") {
            Element::Tmin
        } else {
            Element::Unknown
        }
    }
}

impl FileProperties {
    /// Derives dataset and element from a monthly source file name. An
    /// unrecognized name shape yields unknown tags, never an error.
    pub fn from_file(file_name: &str) -> (r: Result<FileProperties, DecodeError>)
        ensures
            r is Ok,
            r->Ok_0 == file_properties_spec(file_name@),
    {
        let parts = split_dots(file_name);
        if parts.len() == 3 {
            let dataset = if str_eq(parts[1].as_str(), "raw") {
                Dataset::Raw
            } else if str_eq(parts[1].as_str(), "tob") {
                Dataset::Tob
            } else {
                Dataset::Unknown
            };
            let element = Self::tag_element(parts[2].as_str());
            Ok(FileProperties { dataset, element })
        } else if parts.len() == 4 {
            let element = Self::tag_element(parts[3].as_str());
            Ok(FileProperties { dataset: Dataset::Fls52, element })
        } else {
            Ok(FileProperties { dataset: Dataset::Unknown, element: Element::Unknown })
        }
    }

    /// The properties of a daily record: its element code, with no dataset.
    pub fn from_element(element: &str) -> (r: Result<FileProperties, DecodeError>)
        ensures
            r is Ok,
            r->Ok_0 == (FileProperties {
                dataset: Dataset::Unknown,
                element: element_of_code(element@),
            }),
    {
        let element = Element::from_str(element);
        Ok(FileProperties { dataset: Dataset::Unknown, element })
    }

    /// The element named by a monthly file-name tag.
    fn tag_element(t: &str) -> (r: Element)
        ensures
            r == element_of_tag(t@),
    {
        if str_eq(t, "tmax") {
            Element::Max
        } else if str_eq(t, "tmin") {
            Element::Min
        } else if str_eq(t, "tavg") {
            Element::Avg
        } else {
            Element::Unknown
        }
    }
}

/// The tag the columnar output writes for a daily element.
pub open spec fn element_tag_spec(e: Element) -> Seq<char> {
    match e {
        Element::Tmax => "TMAX"@,
        Element::Tmin => "TMIN"@,
        Element::Prcp => "PRCP"@,
        _ => "UNKNOWN"@,
    }
}

/// The tag the columnar output writes for a dataset.
pub open spec fn dataset_tag_spec(d: Dataset) -> Seq<char> {
    match d {
        Dataset::Raw => "RAW"@,
        Dataset::Tob => "TOB"@,
        Dataset::Fls52 => "FLS52"@,
        _ => "UNKNOWN"@,
    }
}

/// Writes a daily element as its output tag.
pub fn element_to_string(element: &Element) -> (r: String)
    ensures
        r@ == element_tag_spec(*element),
{
    match element {
        Element::Tmax => "TMAX".to_owned(),
        Element::Tmin => "TMIN".to_owned(),
        Element::Prcp => "PRCP".to_owned(),
        _ => "UNKNOWN".to_owned(),
    }
}

/// The one-character string of an ASCII capital's lower-case form.
fn folded_letter(c: char) -> (r: &'static str)
    requires
        65 <= c as u32 <= 90,
    ensures
        r@ == seq![lower_char(c)],
{
    let s: &'static str = match c {
        'A' => "a",
        'B' => "b",
        'C' => "c",
        'D' => "d",
        'E' => "e",
        'F' => "f",
        'G' => "g",
        'H' => "h",
        'I' => "i",
        'J' => "j",
        'K' => "k",
        'L' => "l",
        'M' => "m",
        'N' => "n",
        'O' => "o",
        'P' => "p",
        'Q' => "q",
        'R' => "r",
        'S' => "s",
        'T' => "t",
        'U' => "u",
        'V' => "v",
        'W' => "w",
        'X' => "x",
        'Y' => "y",
        _ => "z",
    };
    proof {
        reveal_strlit("a");
        reveal_strlit("b");
        reveal_strlit("c");
        reveal_strlit("d");
        reveal_strlit("e");
        reveal_strlit("f");
        reveal_strlit("g");
        reveal_strlit("h");
        reveal_strlit("i");
        reveal_strlit("j");
        reveal_strlit("k");
        reveal_strlit("l");
        reveal_strlit("m");
        reveal_strlit("n");
        reveal_strlit("o");
        reveal_strlit("p");
        reveal_strlit("q");
        reveal_strlit("r");
        reveal_strlit("s");
        reveal_strlit("t");
        reveal_strlit("u");
        reveal_strlit("v");
        reveal_strlit("w");
        reveal_strlit("x");
        reveal_strlit("y");
        reveal_strlit("z");
        assert(s@ =~= seq![lower_char(c)]);
    }
    s
}

/// `s` with its ASCII capitals folded to lower case.
pub fn ascii_lower(s: &str) -> (r: String)
    ensures
        r@ == lower_spec(s@),
{
    let n = s.unicode_len();
    let mut out = String::new();
    let mut i: usize = 0;
    proof {
        assert(out@ =~= lower_spec(s@.subrange(0, 0)));
    }
    while i < n
        invariant
            0 <= i <= n,
            n == s@.len(),
            out@ == lower_spec(s@.subrange(0, i as int)),
        decreases n - i,
    {
        let c = s.get_char(i);
        let u = c as u32;
        if 65 <= u && u <= 90 {
            out.append(folded_letter(c));
        } else {
            let piece = s.substring_char(i, i + 1);
            proof {
                assert(piece@ =~= seq![s@[i as int]]);
            }
            out.append(piece);
        }
        proof {
            assert(out@ =~= lower_spec(s@.subrange(0, i + 1)));
        }
        i += 1;
    }
    proof {
        assert(s@.subrange(0, n as int) =~= s@);
    }
    out
}

/// Writes a dataset as its output tag.
pub fn dataset_to_string(dataset: &Dataset) -> (r: String)
    ensures
        r@ == dataset_tag_spec(*dataset),
{
    match dataset {
        Dataset::Raw => "RAW".to_owned(),
        Dataset::Tob => "TOB".to_owned(),
        Dataset::Fls52 => "FLS52".to_owned(),
        _ => "UNKNOWN".to_owned(),
    }
}

} // verus!
