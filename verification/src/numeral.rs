//! Parsing of the unsigned integer literals in which range constraints are
//! written: base-10 by default, a `0x`, `0o` or `0b` prefix for
//! hexadecimal, octal or binary, and `_` digit separators, which are
//! stripped before anything else is looked at.

use vstd::prelude::*;

verus! {

/// Why a numeral failed to parse.
#[derive(Clone, Copy, Debug, PartialEq, Eq, Structural)]
pub enum NumeralError {
    /// No digits at all, once separators and any radix prefix are removed.
    Empty,
    /// A byte that is not a digit of the selected radix.
    InvalidDigit,
    /// The value does not fit in 64 unsigned bits.
    TooLarge,
}

/// ASCII underscore, the digit separator.
pub open spec fn is_separator(b: u8) -> bool {
    b == 95
}

/// `s` with every separator removed, order kept.
pub open spec fn strip_separators(s: Seq<u8>) -> Seq<u8>
    decreases s.len(),
{
    if s.len() == 0 {
        Seq::empty()
    } else if is_separator(s.last()) {
        strip_separators(s.drop_last())
    } else {
        strip_separators(s.drop_last()).push(s.last())
    }
}

/// Whether `t` begins with a radix prefix: ASCII `0` and then `x`, `o` or
/// `b` (bytes 48, then 120, 111 or 98).
pub open spec fn has_radix_prefix(t: Seq<u8>) -> bool {
    t.len() >= 2 && t[0] == 48 && (t[1] == 120 || t[1] == 111 || t[1] == 98)
}

/// The radix that the prefix of `t` selects: 16 under `0x`, 8 under `0o`,
/// 2 under `0b`, else 10.
pub open spec fn radix_of(t: Seq<u8>) -> int {
    if t.len() >= 2 && t[0] == 48 && t[1] == 120 {
        16
    } else if t.len() >= 2 && t[0] == 48 && t[1] == 111 {
        8
    } else if t.len() >= 2 && t[0] == 48 && t[1] == 98 {
        2
    } else {
        10
    }
}

/// The digit bytes of `t`: everything after the radix prefix, or all of
/// `t` when there is none.
pub open spec fn digits_of(t: Seq<u8>) -> Seq<u8> {
    if has_radix_prefix(t) {
        t.skip(2)
    } else {
        t
    }
}

/// The value of one digit byte: ASCII `0`-`9` as 0 to 9, then `a`-`f` and
/// `A`-`F` as 10 to 15; any other byte maps to 99, which no radix admits.
pub open spec fn digit_value(b: u8) -> int {
    if 48 <= b && b <= 57 {
        b - 48
    } else if 97 <= b && b <= 102 {
        b - 97 + 10
    } else if 65 <= b && b <= 70 {
        b - 65 + 10
    } else {
        99
    }
}

/// Whether `b` is a digit of `radix`.
pub open spec fn is_digit(b: u8, radix: int) -> bool {
    digit_value(b) < radix
}

/// The value of a digit string, most significant digit first.
pub open spec fn numeral_value(d: Seq<u8>, radix: int) -> int
    decreases d.len(),
{
    if d.len() == 0 {
        0
    } else {
        numeral_value(d.drop_last(), radix) * radix + digit_value(d.last())
    }
}

/// The first fault that a left-to-right scan of the digits meets from
/// position `i` on: a byte that is no digit of the radix, or a prefix
/// whose value already exceeds `u64::MAX`; `None` when the rest scans
/// clean.
pub open spec fn first_fault(d: Seq<u8>, radix: int, i: int) -> Option<NumeralError>
    decreases d.len() - i,
{
    if i < 0 || i >= d.len() {
        None
    } else if !is_digit(d[i], radix) {
        Some(NumeralError::InvalidDigit)
    } else if numeral_value(d.take(i + 1), radix) > u64::MAX {
        Some(NumeralError::TooLarge)
    } else {
        first_fault(d, radix, i + 1)
    }
}

/// The parse of a digit string in a radix: `Empty` without digits, the
/// first fault of the scan when there is one, else the value.
pub open spec fn parse_outcome(d: Seq<u8>, radix: int) -> Result<u64, NumeralError> {
    if d.len() == 0 {
        Err(NumeralError::Empty)
    } else {
        match first_fault(d, radix, 0) {
            Some(e) => Err(e),
            None => Ok(numeral_value(d, radix) as u64),
        }
    }
}

/// The value of one digit byte, as [`digit_value`] gives it.
fn digit_value_of(b: u8) -> (dv: u64)
    ensures
        dv == digit_value(b),
{
    if 48 <= b && b <= 57 {
        (b - 48) as u64
    } else if 97 <= b && b <= 102 {
        (b - 97) as u64 + 10
    } else if 65 <= b && b <= 70 {
        (b - 65) as u64 + 10
    } else {
        99
    }
}

/// Reads the digit bytes `t[off..]` left to right in `radix`, accumulating
/// the value; the result is exactly what [`parse_outcome`] gives for them.
fn parse_digits(t: &Vec<u8>, off: usize, radix: u64) -> (r: Result<u64, NumeralError>)
    requires
        off <= t@.len(),
        2 <= radix <= 16,
    ensures
        r == parse_outcome(t@.skip(off as int), radix as int),
{
    let ghost d = t@.skip(off as int);
    if t.len() == off {
        return Err(NumeralError::Empty);
    }
    let mut acc: u64 = 0;
    let mut j: usize = off;
    while j < t.len()
        invariant
            off <= j <= t@.len() <= usize::MAX,
            2 <= radix <= 16,
            d == t@.skip(off as int),
            acc == numeral_value(d.take(j - off), radix as int),
            first_fault(d, radix as int, 0) == first_fault(d, radix as int, j - off),
        decreases t@.len() - j,
    {
        let ghost k = j - off;
        proof {
            assert(d[k] == t@[j as int]);
            assert(d.take(k + 1).drop_last() =~= d.take(k));
            assert(d.take(k + 1).last() == d[k]);
        }
        let b = t[j];
        let dv = digit_value_of(b);
        if dv >= radix {
            proof {
                assert(!is_digit(d[k], radix as int));
                assert(first_fault(d, radix as int, k) == Some(NumeralError::InvalidDigit));
            }
            return Err(NumeralError::InvalidDigit);
        }
        let next: Option<u64> = match acc.checked_mul(radix) {
            Some(p) => p.checked_add(dv),
            None => None,
        };
        match next {
            None => {
                proof {
                    assert(numeral_value(d.take(k + 1), radix as int) == acc * radix + dv);
                    assert(acc * radix + dv > u64::MAX);
                    assert(first_fault(d, radix as int, k) == Some(NumeralError::TooLarge));
                }
                return Err(NumeralError::TooLarge);
            },
            Some(v) => {
                proof {
                    assert(numeral_value(d.take(k + 1), radix as int) == acc * radix + dv);
                    assert(first_fault(d, radix as int, k) == first_fault(d, radix as int, k + 1));
                }
                acc = v;
            },
        }
        j = j + 1;
    }
    proof {
        assert(d.take(d.len() as int) =~= d);
    }
    Ok(acc)
}

/// Parses an unsigned 64-bit numeral out of the bytes of a literal:
/// separators are stripped, a radix prefix (if any) selects the radix, and
/// the remaining bytes are read as digits, most significant first.
///
/// Returns the value exactly when at least one digit remains, every byte
/// is a digit of the radix, and the value fits in 64 unsigned bits; else
/// the error that a left-to-right scan meets first.
pub fn parse_u64_numeral(s: &[u8]) -> (r: Result<u64, NumeralError>)
    ensures
        r == parse_outcome(digits_of(strip_separators(s@)), radix_of(strip_separators(s@))),
{
    let n: usize = s.len();
    let mut t: Vec<u8> = Vec::new();
    let mut i: usize = 0;
    while i < n
        invariant
            i <= n == s@.len(),
            t@ == strip_separators(s@.take(i as int)),
        decreases n - i,
    {
        proof {
            assert(s@.take(i + 1).drop_last() =~= s@.take(i as int));
            assert(s@.take(i + 1).last() == s@[i as int]);
        }
        let b = s[i];
        if b != 95 {
            t.push(b);
        }
        i = i + 1;
    }
    proof {
        assert(s@.take(s@.len() as int) =~= s@);
    }
    let ghost stripped = strip_separators(s@);
    let prefixed: bool = t.len() >= 2 && t[0] == 48 && (t[1] == 120 || t[1] == 111 || t[1]
        == 98);
    let radix: u64 = if t.len() >= 2 && t[0] == 48 && t[1] == 120 {
        16
    } else if t.len() >= 2 && t[0] == 48 && t[1] == 111 {
        8
    } else if t.len() >= 2 && t[0] == 48 && t[1] == 98 {
        2
    } else {
        10
    };
    let off: usize = if prefixed {
        2
    } else {
        0
    };
    proof {
        assert(radix == radix_of(stripped));
        assert(digits_of(stripped) =~= t@.skip(off as int));
    }
    parse_digits(&t, off, radix)
}

/// The value of a digit string is never negative.
pub proof fn lemma_numeral_value_nonneg(d: Seq<u8>, radix: int)
    requires
        1 <= radix,
    ensures
        numeral_value(d, radix) >= 0,
    decreases d.len(),
{
    if d.len() > 0 {
        lemma_numeral_value_nonneg(d.drop_last(), radix);
        assert(numeral_value(d.drop_last(), radix) * radix >= 0) by (nonlinear_arith)
            requires
                numeral_value(d.drop_last(), radix) >= 0,
                radix >= 1,
        ;
    }
}

/// Reading more digits never shrinks the value: every prefix of a digit
/// string is worth at most the whole string.
pub proof fn lemma_prefix_value_le(d: Seq<u8>, radix: int, i: int)
    requires
        1 <= radix,
        0 <= i <= d.len(),
    ensures
        numeral_value(d.take(i), radix) <= numeral_value(d, radix),
    decreases d.len() - i,
{
    if i == d.len() {
        assert(d.take(i) =~= d);
    } else {
        assert(d.take(i + 1).drop_last() =~= d.take(i));
        assert(d.take(i + 1).last() == d[i]);
        lemma_numeral_value_nonneg(d.take(i), radix);
        assert(numeral_value(d.take(i), radix) * radix >= numeral_value(d.take(i), radix))
            by (nonlinear_arith)
            requires
                numeral_value(d.take(i), radix) >= 0,
                radix >= 1,
        ;
        lemma_prefix_value_le(d, radix, i + 1);
    }
}

/// When a left-to-right scan from position `i` on finds no fault: exactly
/// when every remaining byte is a digit of the radix and (unless nothing
/// remains) the whole string's value fits in 64 unsigned bits.
proof fn lemma_scan_clean_from(d: Seq<u8>, radix: int, i: int)
    requires
        1 <= radix,
        0 <= i <= d.len(),
    ensures
        first_fault(d, radix, i) is None <==> ((forall|j: int|
            i <= j < d.len() ==> is_digit(d[j], radix)) && (i < d.len() ==> numeral_value(d, radix)
            <= u64::MAX)),
    decreases d.len() - i,
{
    if i < d.len() {
        assert(d.take(i + 1).drop_last() =~= d.take(i));
        assert(d.take(i + 1).last() == d[i]);
        lemma_prefix_value_le(d, radix, i + 1);
        lemma_scan_clean_from(d, radix, i + 1);
        if i + 1 == d.len() {
            assert(d.take(i + 1) =~= d);
        }
    }
}

/// A numeral parses successfully exactly when it has at least one digit,
/// every byte is a digit of the radix, and the value fits in 64 unsigned
/// bits — and the parsed value is then exactly the digit string's value.
pub proof fn lemma_parse_ok_characterization(d: Seq<u8>, radix: int)
    requires
        1 <= radix,
    ensures
        parse_outcome(d, radix) is Ok <==> (d.len() > 0 && (forall|j: int|
            0 <= j < d.len() ==> is_digit(d[j], radix)) && numeral_value(d, radix) <= u64::MAX),
        parse_outcome(d, radix) is Ok ==> parse_outcome(d, radix)->Ok_0 == numeral_value(d, radix),
{
    lemma_scan_clean_from(d, radix, 0);
    lemma_numeral_value_nonneg(d, radix);
}

} // verus!
