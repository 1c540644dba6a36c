//! Character-level parsing of the fixed-width archive text: whitespace
//! trimming, digit runs, signed integers and plain decimal fractions.
//!
//! Every parser is total: malformed text yields `None`, never a panic. The
//! integer parsers accept at most thirteen digits, which is far beyond any
//! field width in the archive and keeps every value well inside `i64`.

use vstd::prelude::*;

verus! {

/// The whitespace characters that trimming removes (the ASCII ones).
pub open spec fn is_space_char(c: char) -> bool {
    c == ' ' || c == '\t' || c == '\n' || c == '\r' || c == '\u{b}' || c == '\u{c}'
}

/// Whether `c` is an ASCII decimal digit.
pub open spec fn is_digit_char(c: char) -> bool {
    48 <= c as u32 <= 57
}

/// The numeric value of a digit character.
pub open spec fn digit_value(c: char) -> int {
    c as u32 - 48
}

/// `s` with leading whitespace removed.
pub open spec fn trim_start_spec(s: Seq<char>) -> Seq<char>
    decreases s.len(),
{
    if s.len() > 0 && is_space_char(s[0]) {
        trim_start_spec(s.subrange(1, s.len() as int))
    } else {
        s
    }
}

/// `s` with trailing whitespace removed.
pub open spec fn trim_end_spec(s: Seq<char>) -> Seq<char>
    decreases s.len(),
{
    if s.len() > 0 && is_space_char(s[s.len() - 1]) {
        trim_end_spec(s.subrange(0, s.len() - 1))
    } else {
        s
    }
}

/// `s` with whitespace removed from both ends.
pub open spec fn trim_spec(s: Seq<char>) -> Seq<char> {
    trim_end_spec(trim_start_spec(s))
}

/// Whether every character of `s` is a decimal digit.
pub open spec fn all_digits(s: Seq<char>) -> bool {
    forall|j: int| 0 <= j < s.len() ==> is_digit_char(#[trigger] s[j])
}

/// The number written by the digit run `s`, most significant digit first.
pub open spec fn digits_val(s: Seq<char>) -> int
    decreases s.len(),
{
    if s.len() == 0 {
        0
    } else {
        digits_val(s.subrange(0, s.len() - 1)) * 10 + digit_value(s[s.len() - 1])
    }
}

/// Ten to the power `n`.
pub open spec fn pow10(n: nat) -> int
    decreases n,
{
    if n == 0 {
        1
    } else {
        10 * pow10((n - 1) as nat)
    }
}

/// The index of the first `.` in `u`, or `u.len()` if there is none.
pub open spec fn find_dot(u: Seq<char>) -> int
    decreases u.len(),
{
    if u.len() == 0 {
        0
    } else if u[0] == '.' {
        0
    } else {
        1 + find_dot(u.subrange(1, u.len() as int))
    }
}

/// A signed integer read as `str::parse::<i64>` would read it from a trimmed
/// field: optional sign, then one to thirteen digits, nothing else.
pub open spec fn parse_int_spec(w: Seq<char>) -> Option<int> {
    let t = trim_spec(w);
    if t.len() > 0 && (t[0] == '-' || t[0] == '+') {
        let ds = t.subrange(1, t.len() as int);
        if 1 <= ds.len() <= 13 && all_digits(ds) {
            Some(if t[0] == '-' { -digits_val(ds) } else { digits_val(ds) })
        } else {
            None
        }
    } else {
        if 1 <= t.len() <= 13 && all_digits(t) {
            Some(digits_val(t))
        } else {
            None
        }
    }
}

/// An unsigned header number, read strictly (no trimming): an optional `+`,
/// then one to thirteen digits whose value fits in `u16`.
pub open spec fn parse_u16_spec(w: Seq<char>) -> Option<u16> {
    let ds = if w.len() > 0 && w[0] == '+' {
        w.subrange(1, w.len() as int)
    } else {
        w
    };
    if 1 <= ds.len() <= 13 && all_digits(ds) && digits_val(ds) <= 65535 {
        Some(digits_val(ds) as u16)
    } else {
        None
    }
}

/// The value of an unsigned decimal fraction `u` (no sign), in
/// ten-thousandths: digits, optionally a `.` and up to four more digits.
pub open spec fn decimal_digits_val(u: Seq<char>) -> Option<int> {
    let k = find_dot(u);
    let ip = u.subrange(0, k);
    let fp = if k < u.len() {
        u.subrange(k + 1, u.len() as int)
    } else {
        Seq::<char>::empty()
    };
    if all_digits(ip) && all_digits(fp) && ip.len() + fp.len() >= 1 && ip.len() <= 13 && fp.len()
        <= 4 {
        Some(digits_val(ip) * 10000 + digits_val(fp) * pow10((4 - fp.len()) as nat))
    } else {
        None
    }
}

/// A signed decimal fraction read from a trimmed field, in ten-thousandths.
pub open spec fn parse_decimal_spec(w: Seq<char>) -> Option<int> {
    let t = trim_spec(w);
    if t.len() > 0 && (t[0] == '-' || t[0] == '+') {
        match decimal_digits_val(t.subrange(1, t.len() as int)) {
            Some(m) => Some(if t[0] == '-' { -m } else { m }),
            None => None,
        }
    } else {
        decimal_digits_val(t)
    }
}

pub proof fn lemma_pow10_pos(n: nat)
    ensures
        pow10(n) >= 1,
    decreases n,
{
    if n > 0 {
        lemma_pow10_pos((n - 1) as nat);
    }
}

pub proof fn lemma_pow10_mono(m: nat, n: nat)
    requires
        m <= n,
    ensures
        pow10(m) <= pow10(n),
    decreases n,
{
    if m < n {
        lemma_pow10_mono(m, (n - 1) as nat);
        lemma_pow10_pos((n - 1) as nat);
    }
}

pub proof fn lemma_digits_val_bound(s: Seq<char>)
    requires
        all_digits(s),
    ensures
        0 <= digits_val(s) < pow10(s.len()),
    decreases s.len(),
{
    if s.len() > 0 {
        let h = s.subrange(0, s.len() - 1);
        assert(all_digits(h));
        lemma_digits_val_bound(h);
    }
}

/// A parsed integer has at most thirteen digits, so its magnitude stays
/// under ten to the thirteenth.
pub proof fn lemma_parse_int_bound(w: Seq<char>)
    ensures
        parse_int_spec(w) is Some ==> -10_000_000_000_000 < parse_int_spec(w)->0
            < 10_000_000_000_000,
{
    let t = trim_spec(w);
    if parse_int_spec(w) is Some {
        if t.len() > 0 && (t[0] == '-' || t[0] == '+') {
            let ds = t.subrange(1, t.len() as int);
            lemma_digits_val_bound(ds);
            lemma_pow10_mono(ds.len(), 13);
        } else {
            lemma_digits_val_bound(t);
            lemma_pow10_mono(t.len(), 13);
        }
        assert(pow10(13) == 10_000_000_000_000) by {
            reveal_with_fuel(pow10, 14);
        }
    }
}

/// If the first `k` characters of `s` are whitespace and the next one (if
/// any) is not, trimming the start removes exactly those `k`.
pub proof fn lemma_trim_start_at(s: Seq<char>, k: int)
    requires
        0 <= k <= s.len(),
        forall|j: int| 0 <= j < k ==> is_space_char(#[trigger] s[j]),
        k == s.len() || !is_space_char(s[k]),
    ensures
        trim_start_spec(s) == s.subrange(k, s.len() as int),
    decreases k,
{
    if k == 0 {
        assert(s.subrange(0, s.len() as int) =~= s);
    } else {
        let t = s.subrange(1, s.len() as int);
        assert(is_space_char(s[0]));
        assert forall|j: int| 0 <= j < k - 1 implies is_space_char(#[trigger] t[j]) by {
            assert(t[j] == s[j + 1]);
        }
        lemma_trim_start_at(t, k - 1);
        assert(t.subrange(k - 1, t.len() as int) =~= s.subrange(k, s.len() as int));
    }
}

/// If every character from `k` on is whitespace and the one before `k` (if
/// any) is not, trimming the end keeps exactly the first `k`.
pub proof fn lemma_trim_end_at(s: Seq<char>, k: int)
    requires
        0 <= k <= s.len(),
        forall|j: int| k <= j < s.len() ==> is_space_char(#[trigger] s[j]),
        k == 0 || !is_space_char(s[k - 1]),
    ensures
        trim_end_spec(s) == s.subrange(0, k),
    decreases s.len(),
{
    if k == s.len() {
        assert(s.subrange(0, s.len() as int) =~= s);
    } else {
        assert(is_space_char(s[s.len() - 1]));
        let t = s.subrange(0, s.len() - 1);
        assert forall|j: int| k <= j < t.len() implies is_space_char(#[trigger] t[j]) by {
            assert(t[j] == s[j]);
        }
        if k > 0 {
            assert(t[k - 1] == s[k - 1]);
        }
        lemma_trim_end_at(t, k);
        assert(t.subrange(0, k) =~= s.subrange(0, k));
    }
}

pub proof fn lemma_find_dot(u: Seq<char>)
    ensures
        0 <= find_dot(u) <= u.len(),
        forall|j: int| 0 <= j < find_dot(u) ==> u[j] != '.',
        find_dot(u) < u.len() ==> u[find_dot(u)] == '.',
    decreases u.len(),
{
    if u.len() == 0 {
    } else if u[0] == '.' {
    } else {
        let t = u.subrange(1, u.len() as int);
        lemma_find_dot(t);
        assert forall|j: int| 0 <= j < find_dot(u) implies u[j] != '.' by {
            if j > 0 {
                assert(u[j] == t[j - 1]);
            }
        }
        if find_dot(u) < u.len() {
            assert(u[find_dot(u)] == t[find_dot(t)]);
        }
    }
}

/// Whether `c` is whitespace, executably.
pub fn is_space(c: char) -> (r: bool)
    ensures
        r == is_space_char(c),
{
    c == ' ' || c == '\t' || c == '\n' || c == '\r' || c == '\u{b}' || c == '\u{c}'
}

/// The bounds of `s[from..to]` once whitespace is trimmed from both ends.
pub fn trim_bounds(s: &str, from: usize, to: usize) -> (r: (usize, usize))
    requires
        from <= to <= s@.len(),
    ensures
        from <= r.0 <= r.1 <= to,
        s@.subrange(r.0 as int, r.1 as int) == trim_spec(s@.subrange(from as int, to as int)),
{
    let ghost w = s@.subrange(from as int, to as int);
    let mut a: usize = from;
    while a < to && is_space(s.get_char(a))
        invariant
            from <= a <= to <= s@.len(),
            forall|j: int| from <= j < a ==> is_space_char(#[trigger] s@[j]),
        decreases to - a,
    {
        a += 1;
    }
    proof {
        assert forall|j: int| 0 <= j < a - from implies is_space_char(#[trigger] w[j]) by {
            assert(w[j] == s@[from + j]);
        }
        if a < to {
            assert(w[a - from] == s@[a as int]);
        }
        lemma_trim_start_at(w, a - from);
    }
    let ghost ts = trim_start_spec(w);
    assert(ts == w.subrange(a - from, w.len() as int));
    let mut b: usize = to;
    while b > a && is_space(s.get_char(b - 1))
        invariant
            from <= a <= b <= to <= s@.len(),
            forall|j: int| b <= j < to ==> is_space_char(#[trigger] s@[j]),
        decreases b,
    {
        b -= 1;
    }
    proof {
        assert forall|j: int| b - a <= j < ts.len() implies is_space_char(#[trigger] ts[j]) by {
            assert(ts[j] == s@[a + j]);
        }
        if b > a {
            assert(ts[b - a - 1] == s@[b - 1]);
        }
        lemma_trim_end_at(ts, b - a);
        assert(ts.subrange(0, b - a) =~= s@.subrange(a as int, b as int));
    }
    (a, b)
}

/// The value of the digit run `s[from..to]`, or `None` if any character of
/// it is not a digit.
pub fn digits_value_in(s: &str, from: usize, to: usize) -> (r: Option<i64>)
    requires
        from <= to <= s@.len(),
        to - from <= 13,
    ensures
        ({
            let w = s@.subrange(from as int, to as int);
            match r {
                Some(v) => all_digits(w) && v == digits_val(w) && 0 <= v < pow10(w.len()),
                None => !all_digits(w),
            }
        }),
{
    let ghost w = s@.subrange(from as int, to as int);
    let mut acc: i64 = 0;
    let mut i: usize = from;
    proof {
        assert(w.subrange(0, 0) =~= Seq::<char>::empty());
    }
    while i < to
        invariant
            from <= i <= to <= s@.len(),
            to - from <= 13,
            w == s@.subrange(from as int, to as int),
            all_digits(w.subrange(0, i - from)),
            acc == digits_val(w.subrange(0, i - from)),
            0 <= acc < pow10((i - from) as nat),
        decreases to - i,
    {
        let c = s.get_char(i);
        proof {
            assert(c == w[i - from]);
        }
        let u = c as u32;
        if u < 48 || u > 57 {
            proof {
                assert(!is_digit_char(w[i - from]));
            }
            return None;
        }
        let d = (u - 48) as i64;
        proof {
            let p = w.subrange(0, i - from + 1);
            assert(p.subrange(0, p.len() - 1) =~= w.subrange(0, i - from));
            assert(p[p.len() - 1] == w[i - from]);
            assert(pow10((i - from + 1) as nat) == 10 * pow10((i - from) as nat));
            lemma_pow10_mono((i - from + 1) as nat, 13);
            assert(pow10(13) == 10_000_000_000_000) by {
                reveal_with_fuel(pow10, 14);
            }
        }
        acc = acc * 10 + d;
        i += 1;
    }
    proof {
        assert(w.subrange(0, (to - from) as int) =~= w);
    }
    Some(acc)
}

/// Parses `s[from..to]` as a trimmed signed integer.
pub fn parse_int_in(s: &str, from: usize, to: usize) -> (r: Option<i64>)
    requires
        from <= to <= s@.len(),
    ensures
        ({
            let v = parse_int_spec(s@.subrange(from as int, to as int));
            match r {
                Some(x) => v is Some && x == v->0,
                None => v is None,
            }
        }),
{
    let ghost w = s@.subrange(from as int, to as int);
    let (a, b) = trim_bounds(s, from, to);
    let ghost t = trim_spec(w);
    let mut neg = false;
    let mut d0: usize = a;
    if a < b {
        let c = s.get_char(a);
        proof {
            assert(c == t[0]);
        }
        if c == '-' {
            neg = true;
            d0 = a + 1;
        } else if c == '+' {
            d0 = a + 1;
        }
    }
    proof {
        assert(s@.subrange(d0 as int, b as int) =~= t.subrange(d0 - a, t.len() as int));
        if d0 == a {
            assert(t.subrange(0, t.len() as int) =~= t);
        }
    }
    if b - d0 < 1 || b - d0 > 13 {
        return None;
    }
    match digits_value_in(s, d0, b) {
        Some(v) => {
            if neg {
                Some(-v)
            } else {
                Some(v)
            }
        },
        None => None,
    }
}

/// Parses `s[from..to]` as a strict unsigned header number fitting `u16`.
pub fn parse_u16_in(s: &str, from: usize, to: usize) -> (r: Option<u16>)
    requires
        from <= to <= s@.len(),
    ensures
        r == parse_u16_spec(s@.subrange(from as int, to as int)),
{
    let ghost w = s@.subrange(from as int, to as int);
    let mut d0: usize = from;
    if from < to {
        let c = s.get_char(from);
        proof {
            assert(c == w[0]);
        }
        if c == '+' {
            d0 = from + 1;
        }
    }
    proof {
        assert(s@.subrange(d0 as int, to as int) =~= (if w.len() > 0 && w[0] == '+' {
            w.subrange(1, w.len() as int)
        } else {
            w
        }));
    }
    if to - d0 < 1 || to - d0 > 13 {
        return None;
    }
    match digits_value_in(s, d0, to) {
        Some(v) => {
            if v <= 65535 {
                Some(v as u16)
            } else {
                None
            }
        },
        None => None,
    }
}

/// Parses the unsigned decimal fraction `s[from..to]` into ten-thousandths.
fn decimal_digits_in(s: &str, from: usize, to: usize) -> (r: Option<i64>)
    requires
        from <= to <= s@.len(),
    ensures
        ({
            let v = decimal_digits_val(s@.subrange(from as int, to as int));
            match r {
                Some(x) => v is Some && x == v->0 && 0 <= x < 200_000_000_000_000_000,
                None => v is None,
            }
        }),
{
    let ghost u = s@.subrange(from as int, to as int);
    let mut k: usize = from;
    while k < to && s.get_char(k) != '.'
        invariant
            from <= k <= to <= s@.len(),
            forall|j: int| from <= j < k ==> s@[j] != '.',
        decreases to - k,
    {
        k += 1;
    }
    proof {
        lemma_find_dot(u);
        assert forall|j: int| 0 <= j < k - from implies u[j] != '.' by {
            assert(u[j] == s@[from + j]);
        }
        if k < to {
            assert(u[k - from] == s@[k as int]);
        }
        // the scan stopped exactly at the first dot, or at the end
        assert(find_dot(u) == k - from) by {
            if find_dot(u) < k - from {
                assert(u[find_dot(u)] == '.');
            }
            if find_dot(u) > k - from {
                assert(k - from < u.len());
            }
        }
    }
    let ghost ip = u.subrange(0, k - from);
    let ghost fp = if k - from < u.len() {
        u.subrange(k - from + 1, u.len() as int)
    } else {
        Seq::<char>::empty()
    };
    proof {
        assert(s@.subrange(from as int, k as int) =~= ip);
    }
    if k - from > 13 {
        proof {
            assert(ip.len() > 13);
        }
        return None;
    }
    let iv = match digits_value_in(s, from, k) {
        Some(v) => v,
        None => {
            return None;
        },
    };
    let mut fv: i64 = 0;
    let mut fl: usize = 0;
    if k < to {
        fl = to - (k + 1);
        proof {
            assert(s@.subrange(k + 1, to as int) =~= fp);
        }
        if fl > 4 {
            proof {
                assert(fp.len() > 4);
            }
            return None;
        }
        fv = match digits_value_in(s, k + 1, to) {
            Some(v) => v,
            None => {
                return None;
            },
        };
    }
    if k - from == 0 && fl == 0 {
        // no digits at all, on either side of the dot
        proof {
            assert(ip.len() + fp.len() == 0);
        }
        return None;
    }
    let p: i64 = if fl == 0 {
        10000
    } else if fl == 1 {
        1000
    } else if fl == 2 {
        100
    } else if fl == 3 {
        10
    } else {
        1
    };
    proof {
        assert(pow10(4) == 10000 && pow10(3) == 1000 && pow10(2) == 100 && pow10(1) == 10 && pow10(
            0,
        ) == 1) by {
            reveal_with_fuel(pow10, 5);
        }
        assert(p == pow10((4 - fp.len()) as nat));
        assert(pow10(13) == 10_000_000_000_000) by {
            reveal_with_fuel(pow10, 14);
        }
        assert(pow10(4) == 10000) by {
            reveal_with_fuel(pow10, 5);
        }
        lemma_pow10_mono(ip.len(), 13);
        lemma_pow10_mono(fp.len(), 4);
    }
    Some(iv * 10000 + fv * p)
}

/// Parses `s[from..to]` as a trimmed signed decimal fraction, returning its
/// value in ten-thousandths.
pub fn parse_decimal_in(s: &str, from: usize, to: usize) -> (r: Option<i64>)
    requires
        from <= to <= s@.len(),
    ensures
        ({
            let v = parse_decimal_spec(s@.subrange(from as int, to as int));
            match r {
                Some(x) => v is Some && x == v->0,
                None => v is None,
            }
        }),
{
    let ghost w = s@.subrange(from as int, to as int);
    let (a, b) = trim_bounds(s, from, to);
    let ghost t = trim_spec(w);
    let mut neg = false;
    let mut d0: usize = a;
    if a < b {
        let c = s.get_char(a);
        proof {
            assert(c == t[0]);
        }
        if c == '-' {
            neg = true;
            d0 = a + 1;
        } else if c == '+' {
            d0 = a + 1;
        }
    }
    proof {
        assert(s@.subrange(d0 as int, b as int) =~= t.subrange(d0 - a, t.len() as int));
        if d0 == a {
            assert(t.subrange(0, t.len() as int) =~= t);
        }
    }
    match decimal_digits_in(s, d0, b) {
        Some(m) => {
            if neg {
                Some(-m)
            } else {
                Some(m)
            }
        },
        None => None,
    }
}

/// Whether two string slices hold the same characters.
pub fn str_eq(a: &str, b: &str) -> (r: bool)
    ensures
        r == (a@ == b@),
{
    let la = a.unicode_len();
    let lb = b.unicode_len();
    if la != lb {
        proof {
            if a@ == b@ {
                assert(a@.len() == b@.len());
            }
        }
        return false;
    }
    let mut i: usize = 0;
    while i < la
        invariant
            0 <= i <= la,
            la == a@.len() == b@.len(),
            forall|j: int| 0 <= j < i ==> a@[j] == b@[j],
        decreases la - i,
    {
        if a.get_char(i) != b.get_char(i) {
            proof {
                if a@ == b@ {
                    assert(a@[i as int] == b@[i as int]);
                }
            }
            return false;
        }
        i += 1;
    }
    proof {
        assert(a@ =~= b@);
    }
    true
}

} // verus!
