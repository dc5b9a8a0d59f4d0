//! Validation and decoding of Community Health Index (CHI) numbers.
//!
//! A CHI number is a fixed-format string of exactly ten decimal digits:
//! two digits each for day of month, month, and year of century, three
//! registration digits (the last of which carries the holder's gender as
//! its parity), and a final modulus-11 check digit.  [`Chi::parse`]
//! validates a candidate string once; the resulting value is immutable
//! and the derivation operations on it cannot fail for format reasons.

use vstd::prelude::*;

pub mod date;

verus! {

use crate::date::{Date, valid_ymd};

/// Gender category carried by the parity of the ninth digit.
#[derive(Clone, Copy, PartialEq, Eq, Debug)]
pub enum Gender {
    Male,
    Female,
}

/// Why a candidate string was rejected by [`Chi::parse`].
#[derive(Clone, Copy, PartialEq, Eq, Debug)]
pub enum ParseError {
    /// The input is not exactly ten decimal digits.
    FormatError,
    /// The input is ten digits but the final digit fails the modulus-11
    /// check.
    ChecksumError,
}

/// The six leading digits do not name a real calendar date.
#[derive(Clone, Copy, PartialEq, Eq, Debug)]
pub struct InvalidDateError;

/// Numeric value of a decimal digit character.
pub open spec fn digit_of(c: char) -> int {
    c as int - 48
}

/// The character is an ASCII decimal digit.
pub open spec fn is_digit_char(c: char) -> bool {
    48 <= c as int <= 57
}

/// Every character of the sequence is an ASCII decimal digit.
pub open spec fn all_digit_chars(s: Seq<char>) -> bool {
    forall|i: int| 0 <= i < s.len() ==> is_digit_char(#[trigger] s[i])
}

/// The numeric values of a sequence of digit characters.
pub open spec fn digit_values(s: Seq<char>) -> Seq<int> {
    s.map_values(|c: char| digit_of(c))
}

/// Weighted sum of the first `n` digits, digit `i` weighted by `10 - i`.
pub open spec fn weighted_sum_prefix(d: Seq<int>, n: int) -> int
    decreases n,
{
    if n <= 0 {
        0
    } else {
        weighted_sum_prefix(d, n - 1) + (11 - n) * d[n - 1]
    }
}

/// Modulus-11 weighted sum over the first nine digits: digit 0 has
/// weight 10, digit 8 has weight 2.
pub open spec fn weighted_sum(d: Seq<int>) -> int {
    weighted_sum_prefix(d, 9)
}

/// The check digit demanded by the first nine digits: `11 - (sum % 11)`,
/// with a remainder of zero mapping to a check digit of zero.
pub open spec fn check_digit(d: Seq<int>) -> int {
    if weighted_sum(d) % 11 == 0 {
        0
    } else {
        11 - weighted_sum(d) % 11
    }
}

/// The string is a well-formed CHI number: exactly ten decimal digits
/// whose last digit is the modulus-11 check digit of the first nine.
pub open spec fn valid_chi(s: Seq<char>) -> bool {
    &&& s.len() == 10
    &&& all_digit_chars(s)
    &&& digit_values(s)[9] == check_digit(digit_values(s))
}

/// Day of month encoded by the first two digit values.
pub open spec fn spec_day(d: Seq<int>) -> int {
    10 * d[0] + d[1]
}

/// Month encoded by the third and fourth digit values.
pub open spec fn spec_month(d: Seq<int>) -> int {
    10 * d[2] + d[3]
}

/// Two-digit year of century encoded by the fifth and sixth digit
/// values.
pub open spec fn spec_year_suffix(d: Seq<int>) -> int {
    10 * d[4] + d[5]
}

/// Century disambiguation: a year suffix at or below the cutoff falls
/// in the 2000s, one above it in the 1900s.
pub open spec fn spec_year(year_suffix: int, cutoff: int) -> int {
    if year_suffix > cutoff {
        1900 + year_suffix
    } else {
        2000 + year_suffix
    }
}

/// The date of birth encoded by a digit sequence under the given
/// cutoff, or `InvalidDateError` when the six date digits do not name a
/// real calendar date.
pub open spec fn spec_date_of_birth(d: Seq<int>, cutoff: int) -> Result<Date, InvalidDateError> {
    let y = spec_year(spec_year_suffix(d), cutoff);
    if valid_ymd(y, spec_month(d), spec_day(d)) {
        Ok(Date { year: y as u32, month: spec_month(d) as u32, day: spec_day(d) as u32 })
    } else {
        Err(InvalidDateError)
    }
}

/// Gender encoded by the parity of a digit value: even is Female, odd
/// is Male.
pub open spec fn spec_gender(digit: int) -> Gender {
    if digit % 2 == 0 {
        Gender::Female
    } else {
        Gender::Male
    }
}

/// A validated CHI number: ten decimal digits satisfying the modulus-11
/// check.  Values are only produced by [`Chi::parse`], so the invariant
/// [`Chi::wf`] cannot be bypassed.
#[derive(Debug)]
pub struct Chi {
    digits: Vec<u8>,
}

impl View for Chi {
    type V = Seq<int>;

    closed spec fn view(&self) -> Seq<int> {
        self.digits@.map_values(|x: u8| x as int)
    }
}

impl Chi {
    /// The digit content is ten decimal digit values with a correct
    /// check digit.
    pub open spec fn wf(self) -> bool {
        &&& self@.len() == 10
        &&& forall|i: int| 0 <= i < 10 ==> 0 <= #[trigger] self@[i] <= 9
        &&& self@[9] == check_digit(self@)
    }

    /// Validate a candidate string and construct the identifier.
    ///
    /// Fails with `FormatError` unless the input is exactly ten decimal
    /// digits, and with `ChecksumError` when it is but the last digit is
    /// not the modulus-11 check digit of the first nine.  On success the
    /// identifier holds exactly the digit values of the input.
    pub fn parse(raw: &str) -> (r: Result<Chi, ParseError>)
        ensures
            r is Ok <==> valid_chi(raw@),
            r matches Ok(c) ==> c.wf() && c@ == digit_values(raw@),
            !(raw@.len() == 10 && all_digit_chars(raw@)) ==> r == Err::<Chi, ParseError>(
                ParseError::FormatError,
            ),
            raw@.len() == 10 && all_digit_chars(raw@) && digit_values(raw@)[9] != check_digit(
                digit_values(raw@),
            ) ==> r == Err::<Chi, ParseError>(ParseError::ChecksumError),
    {
        if raw.unicode_len() != 10 {
            return Err(ParseError::FormatError);
        }
        let mut digits: Vec<u8> = Vec::new();
        for i in 0..10
            invariant
                raw@.len() == 10,
                digits@.len() == i,
                forall|j: int| 0 <= j < i ==> is_digit_char(#[trigger] raw@[j]),
                forall|j: int| 0 <= j < i ==> #[trigger] digits@[j] as int == digit_of(raw@[j]),
        {
            let c = raw.get_char(i);
            let v = c as u32;
            if v < 48 || v > 57 {
                return Err(ParseError::FormatError);
            }
            digits.push((v - 48) as u8);
        }
        let ghost dv: Seq<int> = digits@.map_values(|x: u8| x as int);
        proof {
            assert(dv =~= digit_values(raw@));
        }
        let mut sum: u32 = 0;
        for i in 0..9
            invariant
                digits@.len() == 10,
                forall|j: int| 0 <= j < 10 ==> #[trigger] digits@[j] <= 9,
                dv == digits@.map_values(|x: u8| x as int),
                sum as int == weighted_sum_prefix(dv, i as int),
                sum <= 100 * i,
        {
            let w: u32 = 10 - (i as u32);
            let d: u32 = digits[i] as u32;
            proof {
                assert(w * d <= 90) by (nonlinear_arith)
                    requires
                        w <= 10,
                        d <= 9,
                ;
            }
            sum = sum + w * d;
        }
        let remainder: u32 = sum % 11;
        let expected: u32 = if remainder == 0 {
            0
        } else {
            11 - remainder
        };
        if digits[9] as u32 != expected {
            return Err(ParseError::ChecksumError);
        }
        let chi = Chi { digits };
        Ok(chi)
    }

    /// The digit value at the given position.
    pub fn digit(&self, i: usize) -> (r: u8)
        requires
            self.wf(),
            i < 10,
        ensures
            r as int == self@[i as int],
    {
        self.digits[i]
    }

    /// Derive the date of birth from the first six digits.
    ///
    /// The first two digits give the day, the next two the month, and
    /// the next two the year of century; `cutoff_2000` is the highest
    /// year suffix still read as a 21st-century year.  Fails with
    /// `InvalidDateError` exactly when the three numbers do not name a
    /// real calendar date.
    pub fn date_of_birth(&self, cutoff_2000: u32) -> (r: Result<Date, InvalidDateError>)
        requires
            self.wf(),
        ensures
            r == spec_date_of_birth(self@, cutoff_2000 as int),
            r is Ok <==> valid_ymd(
                spec_year(spec_year_suffix(self@), cutoff_2000 as int),
                spec_month(self@),
                spec_day(self@),
            ),
            r matches Ok(d) ==> d.valid(),
    {
        let day: u32 = 10 * (self.digits[0] as u32) + (self.digits[1] as u32);
        let month: u32 = 10 * (self.digits[2] as u32) + (self.digits[3] as u32);
        let year_suffix: u32 = 10 * (self.digits[4] as u32) + (self.digits[5] as u32);
        let year: u32 = if year_suffix > cutoff_2000 {
            1900 + year_suffix
        } else {
            2000 + year_suffix
        };
        match Date::from_ymd(year, month, day) {
            Some(d) => Ok(d),
            None => Err(InvalidDateError),
        }
    }

    /// Derive the gender from the parity of the ninth digit: even is
    /// Female, odd is Male.
    pub fn gender(&self) -> (r: Gender)
        requires
            self.wf(),
        ensures
            r == spec_gender(self@[8]),
    {
        if self.digits[8] % 2 == 0 {
            Gender::Female
        } else {
            Gender::Male
        }
    }
}

/// Deriving a date of birth is deterministic: identifiers with the same
/// digit content, read under the same cutoff, always yield the same
/// result.
pub proof fn lemma_date_of_birth_deterministic(a: Chi, b: Chi, cutoff: int)
    requires
        a@ == b@,
    ensures
        spec_date_of_birth(a@, cutoff) == spec_date_of_birth(b@, cutoff),
{
}

/// Century boundary: a year suffix equal to the cutoff resolves to the
/// 2000s, while a year suffix one past the cutoff falls back to the
/// 1900s.
pub proof fn lemma_century_boundary(year_suffix: int, cutoff: int)
    ensures
        year_suffix == cutoff ==> spec_year(year_suffix, cutoff) == 2000 + year_suffix,
        year_suffix == cutoff + 1 ==> spec_year(year_suffix, cutoff) == 1900 + year_suffix,
{
}

/// Parity law for the ninth digit: an even digit means Female and an
/// odd digit means Male, for every decimal digit.
pub proof fn lemma_gender_parity(digit: int)
    requires
        0 <= digit <= 9,
    ensures
        digit % 2 == 0 ==> spec_gender(digit) == Gender::Female,
        digit % 2 == 1 ==> spec_gender(digit) == Gender::Male,
{
}


} // verus!
