//! Reading numbers and truth values from text.
//!
//! Numbers are read the way the standard library reads them: an optional
//! sign, then decimal digits and nothing else; the first character that
//! cannot be taken decides the error.

use vstd::prelude::*;
use vstd::string::StrSliceExecFns;

verus! {

/// Why a text is not a number of the wanted type.
#[derive(Clone, Copy, Debug, PartialEq, Eq, Structural)]
pub enum IntError {
    /// The text is empty.
    Empty,
    /// A character is not a digit, or a sign stands alone.
    InvalidDigit,
    /// The number is too large for the type.
    PosOverflow,
    /// The number is too small for the type.
    NegOverflow,
}

impl IntError {
    pub open spec fn text(self) -> Seq<char> {
        match self {
            IntError::Empty => "cannot parse integer from empty string"@,
            IntError::InvalidDigit => "invalid digit found in string"@,
            IntError::PosOverflow => "number too large to fit in target type"@,
            IntError::NegOverflow => "number too small to fit in target type"@,
        }
    }

    /// The description of the error.
    pub fn message(self) -> (s: &'static str)
        ensures
            s@ == self.text(),
    {
        match self {
            IntError::Empty => "cannot parse integer from empty string",
            IntError::InvalidDigit => "invalid digit found in string",
            IntError::PosOverflow => "number too large to fit in target type",
            IntError::NegOverflow => "number too small to fit in target type",
        }
    }
}

/// Whether `c` is one of the ten decimal digits.
pub open spec fn is_digit(c: char) -> bool {
    '0' <= c <= '9'
}

/// The value of a decimal digit.
pub open spec fn digit_value(c: char) -> nat
    recommends
        is_digit(c),
{
    (c as u32 - '0' as u32) as nat
}

/// Whether `s` consists of decimal digits only.
pub open spec fn all_digits(s: Seq<char>) -> bool {
    forall|i: int| 0 <= i < s.len() ==> is_digit(#[trigger] s[i])
}

/// The number that a text of decimal digits denotes.
pub open spec fn digits_value(s: Seq<char>) -> nat
    decreases s.len(),
{
    if s.len() == 0 {
        0
    } else {
        digits_value(s.drop_last()) * 10 + digit_value(s.last())
    }
}

/// Whether reading `digits` from the left comes upon the character at `k`
/// and cannot take it as a digit: everything before it is digits whose value
/// is within `limit`.
pub open spec fn stops_at_invalid(digits: Seq<char>, limit: nat, k: int) -> bool {
    &&& 0 <= k < digits.len()
    &&& !is_digit(digits[k])
    &&& all_digits(digits.take(k))
    &&& digits_value(digits.take(k)) <= limit
}

/// What reading the digits of a number of magnitude at most `limit` gives:
/// the value if all of `digits` are digits and the value is within the limit;
/// otherwise what goes wrong first, a character that is no digit or a value
/// beyond the limit, reported as `overflow`.
pub open spec fn read_digits(digits: Seq<char>, limit: nat, overflow: IntError) -> Result<
    nat,
    IntError,
> {
    if digits.len() == 0 {
        Err(IntError::InvalidDigit)
    } else if exists|k: int| stops_at_invalid(digits, limit, k) {
        Err(IntError::InvalidDigit)
    } else if all_digits(digits) && digits_value(digits) <= limit {
        Ok(digits_value(digits))
    } else {
        Err(overflow)
    }
}

/// What a text denotes as an unsigned number of at most `max`. A leading `+`
/// is accepted, a leading `-` is not.
pub open spec fn unsigned_of(s: Seq<char>, max: nat) -> Result<nat, IntError> {
    if s.len() == 0 {
        Err(IntError::Empty)
    } else if s[0] == '+' {
        read_digits(s.subrange(1, s.len() as int), max, IntError::PosOverflow)
    } else {
        read_digits(s, max, IntError::PosOverflow)
    }
}

/// What a text denotes as a signed number between `-min_magnitude` and `max`.
pub open spec fn signed_of(s: Seq<char>, min_magnitude: nat, max: nat) -> Result<int, IntError> {
    if s.len() == 0 {
        Err(IntError::Empty)
    } else if s[0] == '-' {
        match read_digits(s.subrange(1, s.len() as int), min_magnitude, IntError::NegOverflow) {
            Ok(v) => Ok(-(v as int)),
            Err(e) => Err(e),
        }
    } else if s[0] == '+' {
        match read_digits(s.subrange(1, s.len() as int), max, IntError::PosOverflow) {
            Ok(v) => Ok(v as int),
            Err(e) => Err(e),
        }
    } else {
        match read_digits(s, max, IntError::PosOverflow) {
            Ok(v) => Ok(v as int),
            Err(e) => Err(e),
        }
    }
}

/// The value of the digit `c`, if it is one.
pub fn digit_of(c: char) -> (d: Option<u8>)
    ensures
        d is Some <==> is_digit(c),
        d matches Some(v) ==> v == digit_value(c) && v < 10,
{
    if '0' <= c && c <= '9' {
        Some((c as u32 - '0' as u32) as u8)
    } else {
        None
    }
}

/// Reads the characters of `s` from `start` on as the digits of a number of
/// magnitude at most `limit`.
fn read_magnitude(s: &str, start: usize, limit: u64, overflow: IntError) -> (r: Result<
    u64,
    IntError,
>)
    requires
        start <= s@.len(),
    ensures
        match read_digits(s@.subrange(start as int, s@.len() as int), limit as nat, overflow) {
            Ok(v) => r == Ok::<u64, IntError>(v as u64) && v <= limit,
            Err(e) => r == Err::<u64, IntError>(e),
        },
{
    let len = s.unicode_len();
    let ghost digits = s@.subrange(start as int, len as int);
    if start == len {
        return Err(IntError::InvalidDigit);
    }
    let mut acc: u64 = 0;
    let mut i: usize = start;
    while i < len
        invariant
            start <= i <= len,
            len == s@.len(),
            digits == s@.subrange(start as int, len as int),
            all_digits(digits.take(i - start)),
            acc == digits_value(digits.take(i - start)),
            acc <= limit,
        decreases len - i,
    {
        let c = s.get_char(i);
        let ghost k = i - start;
        assert(digits[k] == c);
        assert(digits.take(k + 1).drop_last() =~= digits.take(k));
        assert(digits.take(k + 1).last() == c);
        match digit_of(c) {
            None => {
                assert(stops_at_invalid(digits, limit as nat, k));
                return Err(IntError::InvalidDigit);
            },
            Some(d) => {
                let next: Option<u64> = match acc.checked_mul(10) {
                    Some(m) => m.checked_add(d as u64),
                    None => None,
                };
                let fits = match next {
                    Some(v) => v <= limit,
                    None => false,
                };
                if !fits {
                    proof {
                        lemma_overflow_is_final(digits, limit as nat, k + 1);
                    }
                    return Err(overflow);
                }
                acc = next.unwrap();
                assert forall|j: int| 0 <= j < k + 1 implies is_digit(
                    #[trigger] digits.take(k + 1)[j],
                ) by {
                    if j < k {
                        assert(digits.take(k)[j] == digits.take(k + 1)[j]);
                    }
                }
            },
        }
        i += 1;
    }
    proof {
        assert(digits.take(len - start) =~= digits);
        assert forall|k: int| !stops_at_invalid(digits, limit as nat, k) by {
            if 0 <= k < digits.len() {
                assert(is_digit(digits[k]));
            }
        }
    }
    Ok(acc)
}

/// The value of a text of digits does not fall when digits are appended.
pub proof fn lemma_digits_value_grows(s: Seq<char>, n: int, m: int)
    requires
        0 <= n <= m <= s.len(),
    ensures
        digits_value(s.take(n)) <= digits_value(s.take(m)),
    decreases m - n,
{
    if n < m {
        lemma_digits_value_grows(s, n, m - 1);
        assert(s.take(m).drop_last() =~= s.take(m - 1));
    }
}

/// Once the digits read so far exceed the limit, the reading has failed for
/// good: no later character is reached, and the whole text is out of range.
proof fn lemma_overflow_is_final(digits: Seq<char>, limit: nat, n: int)
    requires
        0 < n <= digits.len(),
        all_digits(digits.take(n)),
        digits_value(digits.take(n)) > limit,
    ensures
        forall|k: int| !stops_at_invalid(digits, limit, k),
        !(all_digits(digits) && digits_value(digits) <= limit),
{
    assert forall|k: int| !stops_at_invalid(digits, limit, k) by {
        if 0 <= k < digits.len() {
            if k < n {
                assert(digits.take(n)[k] == digits[k]);
            } else {
                lemma_digits_value_grows(digits, n, k);
            }
        }
    }
    lemma_digits_value_grows(digits, n, digits.len() as int);
    assert(digits.take(digits.len() as int) =~= digits);
}

/// Reads `s` as a `usize`.
pub fn parse_usize(s: &str) -> (r: Result<usize, IntError>)
    ensures
        match unsigned_of(s@, usize::MAX as nat) {
            Ok(v) => r == Ok::<usize, IntError>(v as usize),
            Err(e) => r == Err::<usize, IntError>(e),
        },
{
    let len = s.unicode_len();
    if len == 0 {
        return Err(IntError::Empty);
    }
    let start: usize = if s.get_char(0) == '+' {
        1
    } else {
        0
    };
    assert(s@.subrange(0, len as int) =~= s@);
    match read_magnitude(s, start, usize::MAX as u64, IntError::PosOverflow) {
        Ok(v) => Ok(v as usize),
        Err(e) => Err(e),
    }
}

/// Reads `s` as an `i32`.
pub fn parse_i32(s: &str) -> (r: Result<i32, IntError>)
    ensures
        match signed_of(s@, 0x8000_0000, 0x7fff_ffff) {
            Ok(v) => r == Ok::<i32, IntError>(v as i32),
            Err(e) => r == Err::<i32, IntError>(e),
        },
{
    let len = s.unicode_len();
    if len == 0 {
        return Err(IntError::Empty);
    }
    let first = s.get_char(0);
    assert(s@.subrange(0, len as int) =~= s@);
    if first == '-' {
        match read_magnitude(s, 1, 0x8000_0000, IntError::NegOverflow) {
            Ok(v) => Ok((0 - (v as i64)) as i32),
            Err(e) => Err(e),
        }
    } else {
        let start: usize = if first == '+' {
            1
        } else {
            0
        };
        match read_magnitude(s, start, 0x7fff_ffff, IntError::PosOverflow) {
            Ok(v) => Ok(v as i32),
            Err(e) => Err(e),
        }
    }
}

/// What a text denotes as a truth value: `true` and `false` and nothing else.
pub open spec fn bool_of(s: Seq<char>) -> Option<bool> {
    if s == "true"@ {
        Some(true)
    } else if s == "false"@ {
        Some(false)
    } else {
        None
    }
}

/// Whether two texts are the same, character by character.
pub fn same_text(a: &str, b: &str) -> (same: bool)
    ensures
        same == (a@ == b@),
{
    let n = a.unicode_len();
    if n != b.unicode_len() {
        return false;
    }
    let mut i: usize = 0;
    while i < n
        invariant
            i <= n,
            n == a@.len(),
            n == b@.len(),
            forall|j: int| 0 <= j < i ==> a@[j] == b@[j],
        decreases n - i,
    {
        if a.get_char(i) != b.get_char(i) {
            return false;
        }
        i += 1;
    }
    assert(a@ =~= b@);
    true
}

/// Reads `s` as a truth value.
pub fn parse_bool(s: &str) -> (r: Option<bool>)
    ensures
        r == bool_of(s@),
{
    if same_text(s, "true") {
        Some(true)
    } else if same_text(s, "false") {
        Some(false)
    } else {
        None
    }
}

} // verus!
