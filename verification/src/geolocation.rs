//! Geolocation: coordinates in millionths of a degree, and the decimal
//! text form they take in the location cache file and in the remote
//! lookup's response.
//!
//! A coordinate text is an optional minus sign, one to three integer
//! digits, and an optional fraction of at least one digit. Fraction digits
//! beyond the sixth carry no weight at this resolution and are ignored.

use vstd::prelude::*;

use crate::commands::Error;
use crate::config::Location;
use crate::json::member_render_text;
use crate::json::rendered_member;
use crate::text::opt_chars;

use crate::text::all_digit_bytes;
use crate::text::is_digit_byte;
use crate::text::digit_byte;
use crate::text::digits_value;
use crate::text::digits_number;
use crate::text::find_byte;
use crate::text::first_byte_at;
use crate::text::lemma_digits_value_bound;
use crate::text::lemma_first_byte_unique;
use crate::text::lemma_pow10_mono;
use crate::text::no_byte;
use crate::text::pow10;
use crate::text::pow10_u32;

verus! {

/// A point on the globe, in millionths of a degree, positive north and
/// east.
#[derive(Clone, Copy, Debug, PartialEq, Eq, Structural)]
pub struct Geolocation {
    pub latitude: i64,
    pub longitude: i64,
}

impl Geolocation {
    /// Whether the coordinates lie on the globe.
    pub open spec fn valid(self) -> bool {
        &&& -90_000_000 <= self.latitude <= 90_000_000
        &&& -180_000_000 <= self.longitude <= 180_000_000
    }
}

/// Whether the bytes after any minus sign form a well-shaped unsigned
/// coordinate: one to three integer digits, optionally followed by a dot
/// and at least one fraction digit.
pub open spec fn is_coord_body(t: Seq<u8>) -> bool {
    if no_byte(t, 46) {
        1 <= t.len() <= 3 && all_digit_bytes(t)
    } else {
        exists|p: int| first_byte_at(t, 46, p) && coord_split_ok(t, p)
    }
}

/// Whether splitting the unsigned body at dot position `p` gives a
/// well-shaped integer part and fraction.
pub open spec fn coord_split_ok(t: Seq<u8>, p: int) -> bool {
    &&& 1 <= p <= 3
    &&& all_digit_bytes(t.take(p))
    &&& p + 1 < t.len()
    &&& all_digit_bytes(t.skip(p + 1))
}

/// The value of a fraction, in millionths: the first six digits, padded
/// with zeroes on the right; digits beyond the sixth are ignored.
pub open spec fn frac_micro(s: Seq<u8>) -> int {
    if s.len() >= 6 {
        digits_value(s.take(6))
    } else {
        digits_value(s) * pow10((6 - s.len()) as nat)
    }
}

/// The value of an unsigned coordinate body, in millionths of a degree.
pub open spec fn coord_body_micro(t: Seq<u8>) -> int {
    if no_byte(t, 46) {
        digits_value(t) * 1_000_000
    } else {
        let p = choose|p: int| first_byte_at(t, 46, p) && coord_split_ok(t, p);
        digits_value(t.take(p)) * 1_000_000 + frac_micro(t.skip(p + 1))
    }
}

/// Whether the bytes form a well-shaped signed coordinate text.
pub open spec fn is_coord_text(s: Seq<u8>) -> bool {
    if s.len() > 0 && s[0] == 45 {
        is_coord_body(s.drop_first())
    } else {
        is_coord_body(s)
    }
}

/// The value of a signed coordinate text, in millionths of a degree.
pub open spec fn coord_of_text(s: Seq<u8>) -> int {
    if s.len() > 0 && s[0] == 45 {
        -coord_body_micro(s.drop_first())
    } else {
        coord_body_micro(s)
    }
}

/// The canonical text of a signed micro-degree value: minus sign if
/// negative, integer degrees without leading zeroes, a dot, and exactly
/// six fraction digits.
pub open spec fn coord_text(v: int) -> Seq<u8> {
    if v < 0 {
        seq![45u8] + coord_body_text(-v)
    } else {
        coord_body_text(v)
    }
}

/// The canonical text of an unsigned micro-degree value.
pub open spec fn coord_body_text(n: int) -> Seq<u8> {
    int_digits(n / 1_000_000) + seq![46u8] + fixed_six(n % 1_000_000)
}

/// A value up to 999 in decimal, without leading zeroes.
pub open spec fn int_digits(n: int) -> Seq<u8> {
    if n >= 100 {
        seq![digit_byte(n / 100), digit_byte(n / 10 % 10), digit_byte(n % 10)]
    } else if n >= 10 {
        seq![digit_byte(n / 10), digit_byte(n % 10)]
    } else {
        seq![digit_byte(n)]
    }
}

/// A value below a million in exactly six decimal digits.
pub open spec fn fixed_six(n: int) -> Seq<u8> {
    seq![
        digit_byte(n / 100_000),
        digit_byte(n / 10_000 % 10),
        digit_byte(n / 1_000 % 10),
        digit_byte(n / 100 % 10),
        digit_byte(n / 10 % 10),
        digit_byte(n % 10),
    ]
}

/// Appends the canonical decimal rendering of a micro-degree value.
pub fn push_coord_text(out: &mut Vec<u8>, v: i64)
    requires
        -999_999_999 <= v <= 999_999_999,
    ensures
        final(out)@ == old(out)@ + coord_text(v as int),
{
    let magnitude: u32 = if v < 0 {
        (-v) as u32
    } else {
        v as u32
    };
    if v < 0 {
        out.push(45);
    }
    let whole: u32 = magnitude / 1_000_000;
    let frac: u32 = magnitude % 1_000_000;
    if whole >= 100 {
        out.push(48 + (whole / 100) as u8);
        out.push(48 + (whole / 10 % 10) as u8);
        out.push(48 + (whole % 10) as u8);
    } else if whole >= 10 {
        out.push(48 + (whole / 10) as u8);
        out.push(48 + (whole % 10) as u8);
    } else {
        out.push(48 + whole as u8);
    }
    out.push(46);
    out.push(48 + (frac / 100_000) as u8);
    out.push(48 + (frac / 10_000 % 10) as u8);
    out.push(48 + (frac / 1_000 % 10) as u8);
    out.push(48 + (frac / 100 % 10) as u8);
    out.push(48 + (frac / 10 % 10) as u8);
    out.push(48 + (frac % 10) as u8);
    proof {
        assert(out@ =~= old(out)@ + coord_text(v as int));
    }
}

/// A one-digit run denotes its digit.
proof fn lemma_digits_value_one(a: int)
    requires
        0 <= a < 10,
    ensures
        digits_value(seq![digit_byte(a)]) == a,
        all_digit_bytes(seq![digit_byte(a)]),
{
    reveal_with_fuel(digits_value, 3);
    assert(seq![digit_byte(a)].drop_last() =~= Seq::<u8>::empty());
}

/// A two-digit run denotes tens and ones.
proof fn lemma_digits_value_two(a: int, b: int)
    requires
        0 <= a < 10,
        0 <= b < 10,
    ensures
        digits_value(seq![digit_byte(a), digit_byte(b)]) == 10 * a + b,
        all_digit_bytes(seq![digit_byte(a), digit_byte(b)]),
{
    assert(seq![digit_byte(a), digit_byte(b)].drop_last() =~= seq![digit_byte(a)]);
    lemma_digits_value_one(a);
}

/// A three-digit run denotes hundreds, tens and ones.
proof fn lemma_digits_value_three(a: int, b: int, c: int)
    requires
        0 <= a < 10,
        0 <= b < 10,
        0 <= c < 10,
    ensures
        digits_value(seq![digit_byte(a), digit_byte(b), digit_byte(c)]) == 100 * a + 10 * b + c,
        all_digit_bytes(seq![digit_byte(a), digit_byte(b), digit_byte(c)]),
{
    assert(seq![digit_byte(a), digit_byte(b), digit_byte(c)].drop_last() =~= seq![
        digit_byte(a),
        digit_byte(b),
    ]);
    lemma_digits_value_two(a, b);
}

/// The integer-part rendering of a value up to 999 is one to three digits
/// and denotes the value back.
proof fn lemma_int_digits(q: int)
    requires
        0 <= q <= 999,
    ensures
        all_digit_bytes(int_digits(q)),
        1 <= int_digits(q).len() <= 3,
        digits_value(int_digits(q)) == q,
{
    if q >= 100 {
        lemma_digits_value_three(q / 100, q / 10 % 10, q % 10);
    } else if q >= 10 {
        lemma_digits_value_two(q / 10, q % 10);
    } else {
        lemma_digits_value_one(q);
    }
}

/// The six-digit rendering of a value below a million denotes the value
/// back.
proof fn lemma_fixed_six(r: int)
    requires
        0 <= r <= 999_999,
    ensures
        all_digit_bytes(fixed_six(r)),
        fixed_six(r).len() == 6,
        digits_value(fixed_six(r)) == r,
{
    reveal_with_fuel(digits_value, 8);
    let s = fixed_six(r);
    let s5 = seq![
        digit_byte(r / 100_000),
        digit_byte(r / 10_000 % 10),
        digit_byte(r / 1_000 % 10),
        digit_byte(r / 100 % 10),
        digit_byte(r / 10 % 10),
    ];
    let s4 = s5.drop_last();
    assert(s.drop_last() =~= s5);
    assert(s5.drop_last() =~= seq![
        digit_byte(r / 100_000),
        digit_byte(r / 10_000 % 10),
        digit_byte(r / 1_000 % 10),
        digit_byte(r / 100 % 10),
    ]);
    assert(seq![
        digit_byte(r / 100_000),
        digit_byte(r / 10_000 % 10),
        digit_byte(r / 1_000 % 10),
        digit_byte(r / 100 % 10),
    ].drop_last() =~= seq![
        digit_byte(r / 100_000),
        digit_byte(r / 10_000 % 10),
        digit_byte(r / 1_000 % 10),
    ]);
    assert(seq![
        digit_byte(r / 100_000),
        digit_byte(r / 10_000 % 10),
        digit_byte(r / 1_000 % 10),
    ].drop_last() =~= seq![digit_byte(r / 100_000), digit_byte(r / 10_000 % 10)]);
    lemma_digits_value_two(r / 100_000, r / 10_000 % 10);
    assert(r / 10 / 10 == r / 100) by (nonlinear_arith)
        requires 0 <= r;
    assert(r / 100 / 10 == r / 1_000) by (nonlinear_arith)
        requires 0 <= r;
    assert(r / 1_000 / 10 == r / 10_000) by (nonlinear_arith)
        requires 0 <= r;
    assert(r / 10_000 / 10 == r / 100_000) by (nonlinear_arith)
        requires 0 <= r;
    assert(100_000 * (r / 100_000) + 10_000 * (r / 10_000 % 10) + 1_000 * (r / 1_000 % 10) + 100
        * (r / 100 % 10) + 10 * (r / 10 % 10) + r % 10 == r);
}

/// The canonical rendering of an unsigned micro-degree value is a
/// well-shaped body and denotes the value back.
proof fn lemma_coord_body_round_trip(n: int)
    requires
        0 <= n <= 999_999_999,
    ensures
        is_coord_body(coord_body_text(n)),
        coord_body_micro(coord_body_text(n)) == n,
        coord_body_text(n)[0] != 45,
        coord_body_text(n).len() >= 2,
{
    let q = n / 1_000_000;
    let r = n % 1_000_000;
    let i = int_digits(q);
    let f = fixed_six(r);
    let t = coord_body_text(n);
    lemma_int_digits(q);
    lemma_fixed_six(r);
    assert(t[i.len() as int] == 46);
    assert(first_byte_at(t, 46, i.len() as int)) by {
        assert forall|j: int| 0 <= j < i.len() implies t[j] != 46 by {
            assert(t[j] == i[j]);
        }
    }
    assert(t.take(i.len() as int) =~= i);
    assert(t.skip(i.len() as int + 1) =~= f);
    assert(coord_split_ok(t, i.len() as int));
    assert(!no_byte(t, 46));
    assert(is_coord_body(t));
    let p = choose|p: int| first_byte_at(t, 46, p);
    lemma_first_byte_unique(t, 46, p, i.len() as int);
    assert(f.take(6) =~= f);
    assert(frac_micro(f) == r);
    assert(t[0] == i[0]);
}

/// Rendering a micro-degree value and parsing it back returns the same
/// value; the coordinate text form is lossless.
pub proof fn lemma_coord_text_round_trip(v: int)
    requires
        -999_999_999 <= v <= 999_999_999,
    ensures
        is_coord_text(coord_text(v)),
        coord_of_text(coord_text(v)) == v,
{
    if v < 0 {
        lemma_coord_body_round_trip(-v);
        let s = coord_text(v);
        assert(s[0] == 45);
        assert(s.drop_first() =~= coord_body_text(-v));
    } else {
        lemma_coord_body_round_trip(v);
    }
}

/// Every byte of a coordinate text is a minus sign, a dot, or a digit.
pub proof fn lemma_coord_text_bytes(v: int)
    requires
        -999_999_999 <= v <= 999_999_999,
    ensures
        forall|j: int|
            0 <= j < coord_text(v).len() ==> (coord_text(v)[j] == 45 || coord_text(v)[j] == 46
                || is_digit_byte(coord_text(v)[j])),
{
    let n = if v < 0 {
        -v
    } else {
        v
    };
    let q = n / 1_000_000;
    let r = n % 1_000_000;
    lemma_int_digits(q);
    lemma_fixed_six(r);
    let t = coord_body_text(n);
    assert forall|j: int|
        0 <= j < t.len() implies (t[j] == 45 || t[j] == 46 || is_digit_byte(t[j])) by {
        let i = int_digits(q);
        if j < i.len() {
            assert(t[j] == i[j]);
        } else if j > i.len() {
            assert(t[j] == fixed_six(r)[j - i.len() - 1]);
        }
    }
}

/// Parses the fraction digits of a coordinate starting at `from`,
/// returning its value in millionths.
fn parse_frac(s: &[u8], from: usize) -> (r: Option<u32>)
    requires
        from < s@.len(),
    ensures
        match r {
            Some(v) => all_digit_bytes(s@.skip(from as int)) && v == frac_micro(
                s@.skip(from as int),
            ) && v < 1_000_000,
            None => !all_digit_bytes(s@.skip(from as int)),
        },
{
    let len: usize = s.len();
    let n: usize = len - from;
    let k: usize = if n >= 6 {
        6
    } else {
        n
    };
    let head: u32 = match digits_number(s, from, from + k) {
        Some(v) => v,
        None => {
            proof {
                let frac = s@.skip(from as int);
                let sub = s@.subrange(from as int, from + k);
                assert(!all_digit_bytes(sub));
                let j = choose|j: int| 0 <= j < sub.len() && !crate::text::is_digit_byte(sub[j]);
                assert(frac[j] == sub[j]);
            }
            return None;
        },
    };
    // Any digits beyond the sixth must still be digits for the text to be
    // well shaped; their value is ignored.
    let mut i: usize = from + k;
    while i < len
        invariant
            from + k <= i <= len,
            len == s@.len(),
            forall|j: int| from + k <= j < i ==> crate::text::is_digit_byte(s@[j]),
        decreases len - i,
    {
        let b: u8 = s[i];
        if !(48 <= b && b <= 57) {
            proof {
                assert(s@.skip(from as int)[i - from] == s@[i as int]);
            }
            return None;
        }
        i = i + 1;
    }
    proof {
        let frac = s@.skip(from as int);
        assert forall|j: int| 0 <= j < frac.len() implies crate::text::is_digit_byte(frac[j]) by {
            assert(frac[j] == s@[from + j]);
            if j < k {
                assert(s@.subrange(from as int, from + k)[j] == s@[from + j]);
            }
        }
        if n >= 6 {
            assert(frac.take(6) =~= s@.subrange(from as int, from + 6));
        } else {
            assert(frac =~= s@.subrange(from as int, from + k));
        }
        lemma_digits_value_bound(s@.subrange(from as int, from + k));
        reveal_with_fuel(pow10, 10);
        lemma_pow10_mono(k as nat, 6);
    }
    if k == 6 {
        Some(head)
    } else {
        let scale: u32 = pow10_u32(6 - k);
        proof {
            reveal_with_fuel(pow10, 10);
            crate::text::lemma_pow10_add(k as nat, (6 - k) as nat);
            assert(head * scale < 1_000_000) by (nonlinear_arith)
                requires
                    0 <= head < pow10(k as nat),
                    scale == pow10((6 - k) as nat),
                    scale >= 1,
                    pow10(k as nat) * pow10((6 - k) as nat) == 1_000_000,
            ;
        }
        Some(head * scale)
    }
}

/// Parses a signed decimal coordinate into millionths of a degree;
/// anything else is rejected.
pub fn parse_coordinate_bytes(s: &[u8]) -> (r: Option<i64>)
    ensures
        match r {
            Some(v) => is_coord_text(s@) && v == coord_of_text(s@),
            None => !is_coord_text(s@),
        },
{
    if s.len() == 0 {
        return None;
    }
    let negative: bool = s[0] == 45;
    let start: usize = if negative {
        1
    } else {
        0
    };
    proof {
        if negative {
            assert(s@.drop_first() =~= s@.skip(1));
        } else {
            assert(s@ =~= s@.skip(0));
        }
    }
    match parse_coord_body(s, start) {
        Some(v) => {
            if negative {
                Some(-(v as i64))
            } else {
                Some(v as i64)
            }
        },
        None => None,
    }
}

/// Parses the unsigned coordinate body `s[start..]`, in millionths.
fn parse_coord_body(s: &[u8], start: usize) -> (r: Option<u32>)
    requires
        start <= s@.len(),
    ensures
        match r {
            Some(v) => is_coord_body(s@.skip(start as int)) && v == coord_body_micro(
                s@.skip(start as int),
            ) && v <= 999_999_999,
            None => !is_coord_body(s@.skip(start as int)),
        },
{
    let ghost t = s@.skip(start as int);
    let len: usize = s.len();
    if start >= len {
        return None;
    }
    let (dot, int_to): (Option<usize>, usize) = match find_byte_from(s, start, 46) {
        Some(p) => (Some(p), p),
        None => (None, len),
    };
    if int_to == start || int_to - start > 3 {
        proof {
            lemma_body_shape(s@, start as int, dot, int_to as int);
        }
        return None;
    }
    let int_part: u32 = match digits_number(s, start, int_to) {
        Some(v) => v,
        None => {
            proof {
                lemma_body_digits_fail(s@, start as int, dot, int_to as int);
            }
            return None;
        },
    };
    proof {
        lemma_digits_value_bound(s@.subrange(start as int, int_to as int));
        reveal_with_fuel(pow10, 10);
        lemma_pow10_mono((int_to - start) as nat, 3);
    }
    match dot {
        None => {
            proof {
                assert(t =~= s@.subrange(start as int, len as int));
                assert(no_byte(t, 46));
            }
            Some(int_part * 1_000_000)
        },
        Some(p) => {
            if p + 1 >= len {
                proof {
                    lemma_body_shape(s@, start as int, dot, int_to as int);
                }
                return None;
            }
            match parse_frac(s, p + 1) {
                Some(frac) => {
                    proof {
                        lemma_body_value(s@, start as int, p as int);
                    }
                    Some(int_part * 1_000_000 + frac)
                },
                None => {
                    proof {
                        lemma_body_frac_fail(s@, start as int, p as int);
                    }
                    None
                },
            }
        },
    }
}

/// Finds the first occurrence of a byte at or after `start`.
fn find_byte_from(s: &[u8], start: usize, c: u8) -> (r: Option<usize>)
    requires
        start <= s@.len(),
    ensures
        match r {
            Some(p) => start <= p && first_byte_at(s@.skip(start as int), c, p - start),
            None => no_byte(s@.skip(start as int), c),
        },
{
    let mut i: usize = start;
    while i < s.len()
        invariant
            start <= i <= s@.len(),
            forall|j: int| start <= j < i ==> s@[j] != c,
        decreases s@.len() - i,
    {
        if s[i] == c {
            proof {
                let t = s@.skip(start as int);
                assert forall|j: int| 0 <= j < i - start implies t[j] != c by {
                    assert(t[j] == s@[start + j]);
                }
                assert(t[i - start] == s@[i as int]);
            }
            return Some(i);
        }
        i = i + 1;
    }
    proof {
        let t = s@.skip(start as int);
        assert forall|j: int| 0 <= j < t.len() implies t[j] != c by {
            assert(t[j] == s@[start + j]);
        }
    }
    None
}

/// When the supposed integer part is empty or too long, or the dot sits at
/// the very end, the body is not well shaped.
proof fn lemma_body_shape(s: Seq<u8>, start: int, dot: Option<usize>, int_to: int)
    requires
        0 <= start < s.len(),
        match dot {
            Some(p) => start <= p && first_byte_at(s.skip(start), 46, p - start) && int_to == p,
            None => no_byte(s.skip(start), 46) && int_to == s.len(),
        },
        int_to == start || int_to - start > 3 || (dot is Some && int_to + 1 >= s.len()),
    ensures
        !is_coord_body(s.skip(start)),
{
    let t = s.skip(start);
    match dot {
        Some(p) => {
            if exists|q: int| first_byte_at(t, 46, q) && coord_split_ok(t, q) {
                let q = choose|q: int| first_byte_at(t, 46, q) && coord_split_ok(t, q);
                lemma_first_byte_unique(t, 46, q, p - start);
            }
        },
        None => {
        },
    }
}

/// When the integer part holds a non-digit, the body is not well shaped.
proof fn lemma_body_digits_fail(s: Seq<u8>, start: int, dot: Option<usize>, int_to: int)
    requires
        0 <= start < s.len(),
        start < int_to <= s.len(),
        int_to - start <= 3,
        match dot {
            Some(p) => start <= p && first_byte_at(s.skip(start), 46, p - start) && int_to == p,
            None => no_byte(s.skip(start), 46) && int_to == s.len(),
        },
        !all_digit_bytes(s.subrange(start, int_to)),
    ensures
        !is_coord_body(s.skip(start)),
{
    let t = s.skip(start);
    let sub = s.subrange(start, int_to);
    let j = choose|j: int| 0 <= j < sub.len() && !crate::text::is_digit_byte(sub[j]);
    match dot {
        Some(p) => {
            assert(t.take(p - start)[j] == sub[j]);
            if exists|q: int| first_byte_at(t, 46, q) && coord_split_ok(t, q) {
                let q = choose|q: int| first_byte_at(t, 46, q) && coord_split_ok(t, q);
                lemma_first_byte_unique(t, 46, q, p - start);
            }
        },
        None => {
            assert(t[j] == sub[j]);
        },
    }
}

/// When the fraction holds a non-digit, the body is not well shaped.
proof fn lemma_body_frac_fail(s: Seq<u8>, start: int, p: int)
    requires
        0 <= start <= p,
        p + 1 < s.len(),
        first_byte_at(s.skip(start), 46, p - start),
        !all_digit_bytes(s.skip(p + 1)),
    ensures
        !is_coord_body(s.skip(start)),
{
    let t = s.skip(start);
    if exists|q: int| first_byte_at(t, 46, q) && coord_split_ok(t, q) {
        let q = choose|q: int| first_byte_at(t, 46, q) && coord_split_ok(t, q);
        lemma_first_byte_unique(t, 46, q, p - start);
        assert(t.skip(p - start + 1) =~= s.skip(p + 1));
    }
}

/// Connects the parsed pieces to the spec value when a dot is present.
proof fn lemma_body_value(s: Seq<u8>, start: int, p: int)
    requires
        0 <= start <= p,
        p + 1 < s.len(),
        first_byte_at(s.skip(start), 46, p - start),
        1 <= p - start <= 3,
        all_digit_bytes(s.subrange(start, p)),
        all_digit_bytes(s.skip(p + 1)),
    ensures
        is_coord_body(s.skip(start)),
        coord_body_micro(s.skip(start)) == digits_value(s.subrange(start, p)) * 1_000_000
            + frac_micro(s.skip(p + 1)),
{
    let t = s.skip(start);
    assert(t.take(p - start) =~= s.subrange(start, p));
    assert(t.skip(p - start + 1) =~= s.skip(p + 1));
    assert(coord_split_ok(t, p - start));
    assert(is_coord_body(t));
    let q = choose|q: int| first_byte_at(t, 46, q) && coord_split_ok(t, q);
    lemma_first_byte_unique(t, 46, q, p - start);
}

/// The location cache content: latitude, a comma, longitude.
pub open spec fn geo_text(g: Geolocation) -> Seq<u8> {
    coord_text(g.latitude as int) + seq![44u8] + coord_text(g.longitude as int)
}

/// Whether the bytes read as a pair of coordinate texts around a comma
/// and denote a point on the globe.
pub open spec fn is_geo_text(s: Seq<u8>) -> bool {
    &&& exists|p: int| first_byte_at(s, 44, p)
    &&& {
        let p = choose|p: int| first_byte_at(s, 44, p);
        &&& is_coord_text(s.take(p))
        &&& is_coord_text(s.skip(p + 1))
        &&& geo_of_text(s).valid()
    }
}

/// The point that a well-shaped pair text denotes.
pub open spec fn geo_of_text(s: Seq<u8>) -> Geolocation {
    let p = choose|p: int| first_byte_at(s, 44, p);
    Geolocation {
        latitude: coord_of_text(s.take(p)) as i64,
        longitude: coord_of_text(s.skip(p + 1)) as i64,
    }
}

/// A well-shaped coordinate text denotes a value the rendering can carry
/// back.
pub proof fn lemma_coord_value_bound(s: Seq<u8>)
    requires
        is_coord_text(s),
    ensures
        -999_999_999 <= coord_of_text(s) <= 999_999_999,
{
    let t = if s.len() > 0 && s[0] == 45 {
        s.drop_first()
    } else {
        s
    };
    reveal_with_fuel(pow10, 10);
    if no_byte(t, 46) {
        lemma_digits_value_bound(t);
        lemma_pow10_mono(t.len() as nat, 3);
    } else {
        let p = choose|p: int| first_byte_at(t, 46, p) && coord_split_ok(t, p);
        assert(coord_split_ok(t, p));
        lemma_digits_value_bound(t.take(p));
        lemma_pow10_mono(t.take(p).len() as nat, 3);
        let f = t.skip(p + 1);
        if f.len() >= 6 {
            lemma_digits_value_bound(f.take(6));
        } else {
            lemma_digits_value_bound(f);
            lemma_pow10_mono((6 - f.len()) as nat, 5);
            crate::text::lemma_pow10_add(f.len() as nat, (6 - f.len()) as nat);
            assert(digits_value(f) * pow10((6 - f.len()) as nat) < 1_000_000) by (nonlinear_arith)
                requires
                    0 <= digits_value(f) < pow10(f.len() as nat),
                    pow10(f.len() as nat) * pow10((6 - f.len()) as nat) == 1_000_000,
                    pow10((6 - f.len()) as nat) >= 1,
            ;
        }
    }
}

/// Parses a cached `latitude,longitude` pair; anything that is not a
/// well-shaped in-range pair is rejected.
pub fn parse_cached_geolocation(content: &str) -> (r: Option<Geolocation>)
    ensures
        match r {
            Some(g) => is_geo_text(crate::text::bytes_of(content@)) && g == geo_of_text(
                crate::text::bytes_of(content@),
            ) && g.valid(),
            None => !is_geo_text(crate::text::bytes_of(content@)),
        },
{
    let b: &[u8] = content.as_bytes();
    let p: usize = match find_byte(b, 44) {
        Some(p) => p,
        None => { return None; },
    };
    let (left, rest) = b.split_at(p);
    let (_comma, right) = rest.split_at(1);
    proof {
        assert(left@ =~= b@.take(p as int));
        assert(right@ =~= b@.skip(p + 1));
        let q = choose|q: int| first_byte_at(b@, 44, q);
        lemma_first_byte_unique(b@, 44, q, p as int);
    }
    let latitude: i64 = match parse_coordinate_bytes(left) {
        Some(v) => v,
        None => { return None; },
    };
    let longitude: i64 = match parse_coordinate_bytes(right) {
        Some(v) => v,
        None => { return None; },
    };
    proof {
        lemma_coord_value_bound(b@.take(p as int));
        lemma_coord_value_bound(b@.skip(p + 1));
    }
    if -90_000_000 <= latitude && latitude <= 90_000_000 && -180_000_000 <= longitude
        && longitude <= 180_000_000 {
        Some(Geolocation { latitude, longitude })
    } else {
        None
    }
}

/// Renders a point as the location cache content `latitude,longitude`.
pub fn format_geolocation(g: &Geolocation) -> (r: String)
    requires
        g.valid(),
    ensures
        crate::text::bytes_of(r@) == geo_text(*g),
{
    let mut out: Vec<u8> = Vec::new();
    push_coord_text(&mut out, g.latitude);
    out.push(44);
    push_coord_text(&mut out, g.longitude);
    proof {
        assert(out@ =~= geo_text(*g));
        lemma_coord_text_bytes(g.latitude as int);
        lemma_coord_text_bytes(g.longitude as int);
        assert forall|j: int| 0 <= j < out@.len() implies out@[j] < 128 by {
            let lat = coord_text(g.latitude as int);
            let lng = coord_text(g.longitude as int);
            if j < lat.len() {
                assert(out@[j] == lat[j]);
            } else if j > lat.len() {
                assert(out@[j] == lng[j - lat.len() - 1]);
            }
        }
    }
    crate::text::ascii_to_string(out)
}

/// Rendering a point and parsing it back returns the same point; the
/// location cache content is lossless.
pub proof fn lemma_geo_text_round_trip(g: Geolocation)
    requires
        g.valid(),
    ensures
        is_geo_text(geo_text(g)),
        geo_of_text(geo_text(g)) == g,
{
    let s = geo_text(g);
    let lat = coord_text(g.latitude as int);
    let lng = coord_text(g.longitude as int);
    lemma_coord_text_bytes(g.latitude as int);
    lemma_coord_text_bytes(g.longitude as int);
    assert(s[lat.len() as int] == 44);
    assert(first_byte_at(s, 44, lat.len() as int)) by {
        assert forall|j: int| 0 <= j < lat.len() implies s[j] != 44 by {
            assert(s[j] == lat[j]);
        }
    }
    let p = choose|p: int| first_byte_at(s, 44, p);
    lemma_first_byte_unique(s, 44, p, lat.len() as int);
    assert(s.take(lat.len() as int) =~= lat);
    assert(s.skip(lat.len() as int + 1) =~= lng);
    lemma_coord_text_round_trip(g.latitude as int);
    lemma_coord_text_round_trip(g.longitude as int);
}

/// Resolves geolocation from the explicit settings alone.
///
/// - Both coordinates set: that point, verbatim; neither the cache nor
///   the network has any bearing on the result.
/// - Exactly one coordinate set: a configuration contradiction;
///   `InvalidConfig`.
/// - Neither set: `Ok(None)`, and the caller moves on to the cache tier.
pub fn geolocation_from_settings(location: &Location) -> (r: Result<Option<Geolocation>, Error>)
    ensures
        match (location.latitude, location.longitude) {
            (Some(lat), Some(lng)) => r == Ok::<Option<Geolocation>, Error>(Some(Geolocation { latitude: lat, longitude: lng })),
            (None, None) => r == Ok::<Option<Geolocation>, Error>(None),
            _ => r == Err::<Option<Geolocation>, Error>(Error::InvalidConfig),
        },
{
    match (location.latitude, location.longitude) {
        (Some(lat), Some(lng)) => Ok(Some(Geolocation { latitude: lat, longitude: lng })),
        (None, None) => Ok(None),
        _ => Err(Error::InvalidConfig),
    }
}

/// What the geolocation lookup acceptance decides, as a function of the
/// response body alone: the point read from the body's top-level
/// `latitude` and `longitude` members, provided both render as in-range
/// decimal coordinate texts; `None` for a failed request or any body that
/// falls short of that.
pub open spec fn spec_geolocation_acceptance(body: Option<Seq<char>>) -> Option<Geolocation> {
    match body {
        None => None,
        Some(text) => {
            let latitude = member_render_text(text, "latitude"@);
            let longitude = member_render_text(text, "longitude"@);
            if latitude is Some && is_coord_text(crate::text::bytes_of(latitude->Some_0))
                && longitude is Some && is_coord_text(
                crate::text::bytes_of(longitude->Some_0),
            ) {
                let point = Geolocation {
                    latitude: coord_of_text(crate::text::bytes_of(latitude->Some_0)) as i64,
                    longitude: coord_of_text(crate::text::bytes_of(longitude->Some_0)) as i64,
                };
                if point.valid() {
                    Some(point)
                } else {
                    None
                }
            } else {
                None
            }
        },
    }
}

/// Accepts what the remote geolocation lookup answered, `None` for a
/// failed request. Returns exactly the point that
/// `spec_geolocation_acceptance` reads from the body, with the cache
/// content to persist for it; `None` when the body falls short, and a
/// failure here is never fatal — the caller falls back.
pub fn accept_geolocation_lookup(body: Option<&str>) -> (r: Option<(Geolocation, String)>)
    ensures
        match (r, spec_geolocation_acceptance(opt_chars(body))) {
            (Some(entry), Some(point)) => entry.0 == point && entry.0.valid() && crate::text::bytes_of(
                entry.1@,
            ) == geo_text(point),
            (None, None) => true,
            _ => false,
        },
{
    let text: &str = match body {
        Some(t) => t,
        None => { return None; },
    };
    let latitude: i64 = match rendered_member(text, "latitude") {
        Some(member) => match parse_coordinate_bytes(member.as_str().as_bytes()) {
            Some(v) => v,
            None => { return None; },
        },
        None => { return None; },
    };
    let longitude: i64 = match rendered_member(text, "longitude") {
        Some(member) => match parse_coordinate_bytes(member.as_str().as_bytes()) {
            Some(v) => v,
            None => { return None; },
        },
        None => { return None; },
    };
    if -90_000_000 <= latitude && latitude <= 90_000_000 && -180_000_000 <= longitude
        && longitude <= 180_000_000 {
        let point = Geolocation { latitude, longitude };
        let cache: String = format_geolocation(&point);
        proof {
            lemma_geo_text_round_trip(point);
        }
        Some((point, cache))
    } else {
        None
    }
}

} // verus!
