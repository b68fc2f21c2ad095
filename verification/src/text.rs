//! Byte-level helpers shared by the textual formats this crate reads and
//! writes: decimal digits, and turning ASCII byte buffers back into strings.

use vstd::prelude::*;

verus! {

/// The UTF-8 bytes of a string, the form in which this crate models all
/// text it parses or renders.
pub open spec fn bytes_of(s: Seq<char>) -> Seq<u8> {
    vstd::utf8::encode_utf8(s)
}

/// The characters of an optional string.
pub open spec fn opt_chars(s: Option<&str>) -> Option<Seq<char>> {
    match s {
        Some(t) => Some(t@),
        None => None,
    }
}

/// Whether a byte is an ASCII decimal digit.
pub open spec fn is_digit_byte(b: u8) -> bool {
    48 <= b && b <= 57
}

/// The numeric value of an ASCII decimal digit byte.
pub open spec fn digit_value(b: u8) -> int {
    b - 48
}

/// The ASCII digit byte for a value in 0..10.
pub open spec fn digit_byte(v: int) -> u8 {
    (48 + v) as u8
}

/// Whether every byte of the sequence is ASCII.
pub open spec fn all_ascii(s: Seq<u8>) -> bool {
    forall|i: int| 0 <= i < s.len() ==> s[i] < 128
}

/// Relies on `String::from_utf8`: ASCII bytes are valid UTF-8 and become a
/// string made of exactly those bytes.
#[verifier::external_body]
pub fn ascii_to_string(bytes: Vec<u8>) -> (r: String)
    requires
        all_ascii(bytes@),
    ensures
        bytes_of(r@) == bytes@,
{
    String::from_utf8(bytes).unwrap()
}

/// Reads the two-digit decimal number at positions `i` and `i + 1`.
pub fn two_digit_number(s: &[u8], i: usize) -> (r: Option<u8>)
    requires
        i + 2 <= s@.len(),
    ensures
        match r {
            Some(v) => is_digit_byte(s@[i as int]) && is_digit_byte(s@[i + 1])
                && v == 10 * digit_value(s@[i as int]) + digit_value(s@[i + 1]),
            None => !(is_digit_byte(s@[i as int]) && is_digit_byte(s@[i + 1])),
        },
{
    let hi: u8 = s[i];
    let lo: u8 = s[i + 1];
    if 48 <= hi && hi <= 57 && 48 <= lo && lo <= 57 {
        Some(10 * (hi - 48) + (lo - 48))
    } else {
        None
    }
}

/// Whether the byte occurs nowhere in the sequence.
pub open spec fn no_byte(s: Seq<u8>, c: u8) -> bool {
    forall|j: int| 0 <= j < s.len() ==> s[j] != c
}

/// Whether position `p` holds the first occurrence of `c` in `s`.
pub open spec fn first_byte_at(s: Seq<u8>, c: u8, p: int) -> bool {
    &&& 0 <= p < s.len()
    &&& s[p] == c
    &&& forall|j: int| 0 <= j < p ==> s[j] != c
}

/// A byte has at most one first occurrence.
pub proof fn lemma_first_byte_unique(s: Seq<u8>, c: u8, p1: int, p2: int)
    requires
        first_byte_at(s, c, p1),
        first_byte_at(s, c, p2),
    ensures
        p1 == p2,
{
}

/// Finds the first occurrence of a byte.
pub fn find_byte(s: &[u8], c: u8) -> (r: Option<usize>)
    ensures
        match r {
            Some(p) => first_byte_at(s@, c, p as int),
            None => no_byte(s@, c),
        },
{
    let mut i: usize = 0;
    while i < s.len()
        invariant
            0 <= i <= s@.len(),
            forall|j: int| 0 <= j < i ==> s@[j] != c,
        decreases s@.len() - i,
    {
        if s[i] == c {
            return Some(i);
        }
        i = i + 1;
    }
    None
}

/// Whether every byte of the sequence is an ASCII decimal digit.
pub open spec fn all_digit_bytes(s: Seq<u8>) -> bool {
    forall|j: int| 0 <= j < s.len() ==> is_digit_byte(s[j])
}

/// The number that a run of decimal digit bytes denotes, most significant
/// digit first.
pub open spec fn digits_value(s: Seq<u8>) -> int
    decreases s.len(),
{
    if s.len() == 0 {
        0
    } else {
        10 * digits_value(s.drop_last()) + digit_value(s.last())
    }
}

/// Ten to the `n`th power.
pub open spec fn pow10(n: nat) -> int
    decreases n,
{
    if n == 0 {
        1
    } else {
        10 * pow10((n - 1) as nat)
    }
}

/// A run of `n` digit bytes denotes a number below ten to the `n`th.
pub proof fn lemma_digits_value_bound(s: Seq<u8>)
    requires
        all_digit_bytes(s),
    ensures
        0 <= digits_value(s) < pow10(s.len() as nat),
    decreases s.len(),
{
    if s.len() > 0 {
        lemma_digits_value_bound(s.drop_last());
    }
}

/// Reads the decimal number held in `s[from..to]`; the range must be short
/// enough that the number fits comfortably.
pub fn digits_number(s: &[u8], from: usize, to: usize) -> (r: Option<u32>)
    requires
        from <= to,
        to <= s@.len(),
        to - from <= 9,
    ensures
        match r {
            Some(v) => all_digit_bytes(s@.subrange(from as int, to as int)) && v == digits_value(
                s@.subrange(from as int, to as int),
            ),
            None => !all_digit_bytes(s@.subrange(from as int, to as int)),
        },
{
    let mut i: usize = from;
    let mut acc: u32 = 0;
    while i < to
        invariant
            from <= i <= to,
            to <= s@.len(),
            to - from <= 9,
            all_digit_bytes(s@.subrange(from as int, i as int)),
            acc == digits_value(s@.subrange(from as int, i as int)),
            acc < pow10((i - from) as nat),
        decreases to - i,
    {
        let b: u8 = s[i];
        if !(48 <= b && b <= 57) {
            proof {
                assert(s@.subrange(from as int, to as int)[i - from] == s@[i as int]);
            }
            return None;
        }
        proof {
            reveal_with_fuel(pow10, 10);
            lemma_pow10_mono((i - from) as nat, 8);
            assert(s@.subrange(from as int, i + 1).drop_last() =~= s@.subrange(
                from as int,
                i as int,
            ));
        }
        acc = 10 * acc + ((b - 48) as u32);
        i = i + 1;
    }
    proof {
        assert(s@.subrange(from as int, i as int) =~= s@.subrange(from as int, to as int));
    }
    Some(acc)
}

/// Ten to a power not above nine, as a machine integer.
pub fn pow10_u32(n: usize) -> (r: u32)
    requires
        n <= 9,
    ensures
        r == pow10(n as nat),
{
    let mut i: usize = 0;
    let mut acc: u32 = 1;
    while i < n
        invariant
            0 <= i <= n <= 9,
            acc == pow10(i as nat),
        decreases n - i,
    {
        proof {
            reveal_with_fuel(pow10, 10);
            lemma_pow10_mono(i as nat, 8);
        }
        acc = 10 * acc;
        i = i + 1;
    }
    acc
}

/// Powers of ten grow with the exponent.
pub proof fn lemma_pow10_mono(a: nat, b: nat)
    requires
        a <= b,
    ensures
        0 < pow10(a) <= pow10(b),
    decreases b,
{
    if a < b {
        lemma_pow10_mono(a, (b - 1) as nat);
    } else if b > 0 {
        lemma_pow10_mono((a - 1) as nat, (b - 1) as nat);
    }
}

/// Powers of ten multiply by adding exponents.
pub proof fn lemma_pow10_add(a: nat, b: nat)
    ensures
        pow10(a + b) == pow10(a) * pow10(b),
    decreases a,
{
    if a > 0 {
        lemma_pow10_add((a - 1) as nat, b);
        assert(10 * (pow10((a - 1) as nat) * pow10(b)) == (10 * pow10((a - 1) as nat)) * pow10(
            b,
        )) by (nonlinear_arith);
    }
}

/// Appends the two-digit decimal rendering of `v` (which must be below 100).
pub fn push_two_digits(out: &mut Vec<u8>, v: u8)
    requires
        v < 100,
    ensures
        final(out)@ == old(out)@ + seq![digit_byte(v as int / 10), digit_byte(v as int % 10)],
{
    out.push(48 + v / 10);
    out.push(48 + v % 10);
    proof {
        assert(out@ =~= old(out)@ + seq![digit_byte(v as int / 10), digit_byte(v as int % 10)]);
    }
}

} // verus!
