//! Fixed-point decimal amounts: a non-negative count of ten-thousandths of
//! a unit, with parsing from decimal text and the clamped subtraction policy
//! used by the funds state machine.

use vstd::prelude::*;
use vstd::string::StrSliceExecFns;

verus! {

/// A non-negative amount of money, counted in ten-thousandths of a unit
/// (four fractional digits of precision).
#[derive(Debug, PartialEq, Eq, Structural, Clone, Copy, Hash)]
pub struct Amount(pub u64);

/// An amount taken from a record that has already been validated and applied.
#[derive(Debug, PartialEq, Eq, Structural, Clone, Copy, Hash)]
pub struct ProcessedAmount(pub u64);

/// Why a piece of amount text was rejected.
#[derive(Debug, PartialEq, Eq, Structural, Clone, Copy)]
pub enum ParseError {
    /// The fractional part has more than four digits.
    InvalidPrecision,
    /// A part is empty or non-numeric, or the value does not fit in the
    /// underlying 64-bit count of ten-thousandths.
    InvalidFormat,
}

/// The sum of two amounts, as the underlying counts; meaningful when the
/// sum fits in 64 bits, which every caller of the executable `add` proves.
pub open spec fn spec_add(a: Amount, b: Amount) -> Amount {
    Amount((a.0 + b.0) as u64)
}

/// Clamped subtraction: `a - b` when `a >= b`, and `a` unchanged otherwise.
pub open spec fn spec_sub(a: Amount, b: Amount) -> Amount {
    if a.0 >= b.0 {
        Amount((a.0 - b.0) as u64)
    } else {
        a
    }
}

impl Amount {
    /// An amount of `n` ten-thousandths of a unit.
    pub fn new(n: u64) -> (r: Amount)
        ensures
            r.0 == n,
    {
        Amount(n)
    }

    /// The additive identity.
    pub fn zero() -> (r: Amount)
        ensures
            r.0 == 0,
    {
        Amount(0)
    }

    /// Plain addition of the underlying counts; the domain bounds amounts,
    /// so the caller accounts for overflow.
    pub fn add(self, rhs: Amount) -> (r: Amount)
        requires
            self.0 + rhs.0 <= u64::MAX,
        ensures
            r == spec_add(self, rhs),
            r.0 == self.0 + rhs.0,
    {
        Amount(self.0 + rhs.0)
    }

    /// Subtraction with a deliberate no-op policy: when `rhs` exceeds
    /// `self`, the amount is returned unchanged rather than rejected.
    pub fn sub(self, rhs: Amount) -> (r: Amount)
        ensures
            r == spec_sub(self, rhs),
    {
        if self.0 >= rhs.0 {
            Amount(self.0 - rhs.0)
        } else {
            self
        }
    }
}

/// Whether a character is a decimal digit.
pub open spec fn is_digit_char(c: char) -> bool {
    48 <= c as u32 <= 57
}

/// The value of one decimal digit.
pub open spec fn digit_value(c: char) -> int {
    c as u32 - 48
}

/// Whether every character of `s` is a decimal digit.
pub open spec fn all_digits(s: Seq<char>) -> bool {
    forall|i: int| 0 <= i < s.len() ==> is_digit_char(#[trigger] s[i])
}

/// The number denoted by a sequence of decimal digits, most significant
/// first; the empty sequence denotes zero.
pub open spec fn digits_value(s: Seq<char>) -> int
    decreases s.len(),
{
    if s.len() == 0 {
        0
    } else {
        digits_value(s.drop_last()) * 10 + digit_value(s.last())
    }
}

/// Whether `i` is the position of the first decimal point in `s`.
pub open spec fn dot_at(s: Seq<char>, i: int) -> bool {
    &&& 0 <= i < s.len()
    &&& s[i] == '.'
    &&& forall|j: int| 0 <= j < i ==> s[j] != '.'
}

/// Whether `s` contains a decimal point.
pub open spec fn has_dot(s: Seq<char>) -> bool {
    exists|i: int| dot_at(s, i)
}

/// The position of the first decimal point; meaningful when `has_dot(s)`.
pub open spec fn first_dot(s: Seq<char>) -> int {
    choose|i: int| dot_at(s, i)
}

/// The number of characters after the first decimal point.
pub open spec fn frac_len(s: Seq<char>) -> int {
    s.len() - 1 - first_dot(s)
}

/// The characters before the first decimal point.
pub open spec fn int_digits(s: Seq<char>) -> Seq<char> {
    s.subrange(0, first_dot(s))
}

/// The characters after the first decimal point.
pub open spec fn frac_digits(s: Seq<char>) -> Seq<char> {
    s.subrange(first_dot(s) + 1, s.len() as int)
}

/// The weight of the fractional digits: a fraction of `l` digits is
/// right-padded with zeros to four digits.
pub open spec fn pad_scale(l: int) -> int {
    if l <= 0 {
        10000
    } else if l == 1 {
        1000
    } else if l == 2 {
        100
    } else if l == 3 {
        10
    } else {
        1
    }
}

/// Whether `s` is a well-formed amount: a non-empty run of digits,
/// optionally followed by a decimal point and zero to four digits.
pub open spec fn well_formed(s: Seq<char>) -> bool {
    if !has_dot(s) {
        s.len() >= 1 && all_digits(s)
    } else {
        &&& first_dot(s) >= 1
        &&& all_digits(int_digits(s))
        &&& frac_len(s) <= 4
        &&& all_digits(frac_digits(s))
    }
}

/// The number of ten-thousandths of a unit that a well-formed amount text
/// denotes.
pub open spec fn amount_value(s: Seq<char>) -> int {
    if !has_dot(s) {
        digits_value(s) * 10000
    } else {
        digits_value(int_digits(s)) * 10000 + digits_value(frac_digits(s)) * pad_scale(frac_len(s))
    }
}

/// What parsing amount text returns: `InvalidPrecision` for more than four
/// fractional digits, then `Ok` for every well-formed text whose value fits
/// the 64-bit count, and `InvalidFormat` for everything else.
pub open spec fn spec_parse(s: Seq<char>) -> Result<Amount, ParseError> {
    if has_dot(s) && frac_len(s) > 4 {
        Err(ParseError::InvalidPrecision)
    } else if well_formed(s) && amount_value(s) <= u64::MAX {
        Ok(Amount(amount_value(s) as u64))
    } else {
        Err(ParseError::InvalidFormat)
    }
}

/// There is only one first decimal point.
proof fn lemma_first_dot(s: Seq<char>, i: int)
    requires
        dot_at(s, i),
    ensures
        has_dot(s),
        first_dot(s) == i,
{
    let j = first_dot(s);
    assert(dot_at(s, j));
    if j < i {
        assert(s[j] != '.');
    } else if i < j {
        assert(s[i] != '.');
    }
}

/// A sequence of digits denotes a non-negative number.
proof fn lemma_digits_value_nonneg(s: Seq<char>)
    requires
        all_digits(s),
    ensures
        digits_value(s) >= 0,
    decreases s.len(),
{
    if s.len() > 0 {
        assert(all_digits(s.drop_last()));
        lemma_digits_value_nonneg(s.drop_last());
    }
}

/// Dropping trailing digits never increases the denoted number.
proof fn lemma_digits_value_prefix_le(s: Seq<char>, i: int)
    requires
        all_digits(s),
        0 <= i <= s.len(),
    ensures
        digits_value(s.subrange(0, i)) <= digits_value(s),
    decreases s.len() - i,
{
    if i == s.len() {
        assert(s.subrange(0, i) =~= s);
    } else {
        let shorter = s.subrange(0, i);
        let longer = s.subrange(0, i + 1);
        assert(longer.drop_last() =~= shorter);
        assert(all_digits(shorter));
        lemma_digits_value_nonneg(shorter);
        assert(digits_value(longer) == digits_value(shorter) * 10 + digit_value(s[i]));
        lemma_digits_value_prefix_le(s, i + 1);
    }
}

/// Read the digits of `s` between positions `from` and `to` as a number, or
/// report that they are not all digits or denote more than a 64-bit count
/// can hold.
fn parse_digits(s: &str, from: usize, to: usize) -> (r: Option<u64>)
    requires
        from <= to <= s@.len(),
    ensures
        match r {
            Some(v) => all_digits(s@.subrange(from as int, to as int)) && v == digits_value(
                s@.subrange(from as int, to as int),
            ),
            None => !all_digits(s@.subrange(from as int, to as int)) || digits_value(
                s@.subrange(from as int, to as int),
            ) > u64::MAX,
        },
{
    let ghost whole = s@.subrange(from as int, to as int);
    let mut acc: u64 = 0;
    let mut i: usize = from;
    while i < to
        invariant
            from <= i <= to <= s@.len(),
            whole == s@.subrange(from as int, to as int),
            all_digits(s@.subrange(from as int, i as int)),
            acc == digits_value(s@.subrange(from as int, i as int)),
        decreases to - i,
    {
        let c = s.get_char(i);
        let u = c as u32;
        if u < 48 || u > 57 {
            proof {
                assert(whole[i - from] == s@[i as int]);
            }
            return None;
        }
        let d: u64 = (u - 48) as u64;
        proof {
            assert(s@.subrange(from as int, i + 1).drop_last() =~= s@.subrange(
                from as int,
                i as int,
            ));
            assert(s@.subrange(from as int, i + 1).last() == s@[i as int]);
        }
        let next = match acc.checked_mul(10) {
            Some(t) => t.checked_add(d),
            None => None,
        };
        match next {
            Some(v) => {
                acc = v;
                proof {
                    assert(all_digits(s@.subrange(from as int, i + 1))) by {
                        assert(forall|j: int|
                            0 <= j < i + 1 - from ==> #[trigger] s@.subrange(from as int, i + 1)[j]
                                == s@[from + j]);
                        assert(forall|j: int|
                            0 <= j < i - from ==> s@[from + j] == #[trigger] s@.subrange(
                                from as int,
                                i as int,
                            )[j]);
                    }
                }
            },
            None => {
                proof {
                    assert(digits_value(s@.subrange(from as int, i + 1)) > u64::MAX);
                    if all_digits(whole) {
                        assert(whole.subrange(0, i + 1 - from) =~= s@.subrange(
                            from as int,
                            i + 1,
                        ));
                        lemma_digits_value_prefix_le(whole, i + 1 - from);
                    }
                }
                return None;
            },
        }
        i += 1;
    }
    proof {
        assert(s@.subrange(from as int, i as int) =~= whole);
    }
    Some(acc)
}

impl Amount {
    /// Parse a non-negative decimal amount text into a count of
    /// ten-thousandths of a unit. A fraction of one to four digits is
    /// right-padded with zeros to four; a missing or empty fraction counts
    /// as `.0000`. More than four fractional digits is `InvalidPrecision`;
    /// an empty or non-numeric part, and a value beyond what the 64-bit
    /// count can hold, is `InvalidFormat`.
    pub fn parse(s: &str) -> (r: Result<Amount, ParseError>)
        ensures
            r == spec_parse(s@),
    {
        let n = s.unicode_len();
        let mut dot: Option<usize> = None;
        let mut i: usize = 0;
        while i < n
            invariant
                0 <= i <= n == s@.len(),
                dot is None ==> forall|j: int| 0 <= j < i ==> s@[j] != '.',
                dot matches Some(d) ==> dot_at(s@, d as int),
            decreases n - i,
        {
            let c = s.get_char(i);
            if c == '.' && dot.is_none() {
                dot = Some(i);
            }
            i += 1;
        }
        match dot {
            None => {
                proof {
                    if has_dot(s@) {
                        let k = choose|k: int| dot_at(s@, k);
                        assert(s@[k] == '.');
                    }
                }
                if n == 0 {
                    return Err(ParseError::InvalidFormat);
                }
                match parse_digits(s, 0, n) {
                    None => {
                        proof {
                            assert(s@.subrange(0, n as int) =~= s@);
                        }
                        Err(ParseError::InvalidFormat)
                    },
                    Some(v) => {
                        proof {
                            assert(s@.subrange(0, n as int) =~= s@);
                        }
                        match v.checked_mul(10000) {
                            None => Err(ParseError::InvalidFormat),
                            Some(total) => Ok(Amount(total)),
                        }
                    },
                }
            },
            Some(d) => {
                proof {
                    lemma_first_dot(s@, d as int);
                }
                let fl = n - 1 - d;
                if fl > 4 {
                    return Err(ParseError::InvalidPrecision);
                }
                if d == 0 {
                    return Err(ParseError::InvalidFormat);
                }
                match parse_digits(s, 0, d) {
                    None => {
                        proof {
                            assert(s@.subrange(0, d as int) == int_digits(s@));
                            if well_formed(s@) && digits_value(int_digits(s@)) > u64::MAX {
                                lemma_digits_value_nonneg(frac_digits(s@));
                                assert(digits_value(frac_digits(s@)) * pad_scale(frac_len(s@))
                                    >= 0) by (nonlinear_arith)
                                    requires
                                        digits_value(frac_digits(s@)) >= 0,
                                        pad_scale(frac_len(s@)) >= 1,
                                ;
                            }
                        }
                        Err(ParseError::InvalidFormat)
                    },
                    Some(iv) => {
                        match parse_digits(s, d + 1, n) {
                            None => {
                                proof {
                                    assert(s@.subrange(d + 1, n as int) == frac_digits(s@));
                                    if well_formed(s@) && digits_value(frac_digits(s@))
                                        > u64::MAX {
                                        lemma_digits_value_nonneg(int_digits(s@));
                                        assert(digits_value(int_digits(s@)) * 10000 >= 0)
                                            by (nonlinear_arith)
                                            requires
                                                digits_value(int_digits(s@)) >= 0,
                                        ;
                                        assert(digits_value(frac_digits(s@)) * pad_scale(
                                            frac_len(s@),
                                        ) >= digits_value(frac_digits(s@))) by (nonlinear_arith)
                                            requires
                                                digits_value(frac_digits(s@)) >= 0,
                                                pad_scale(frac_len(s@)) >= 1,
                                        ;
                                    }
                                }
                                Err(ParseError::InvalidFormat)
                            },
                            Some(fv) => {
                                proof {
                                    assert(s@.subrange(0, d as int) == int_digits(s@));
                                    assert(s@.subrange(d + 1, n as int) == frac_digits(s@));
                                    assert(well_formed(s@));
                                    lemma_digits_value_nonneg(int_digits(s@));
                                    lemma_digits_value_nonneg(frac_digits(s@));
                                }
                                let scale: u64 = if fl == 0 {
                                    10000
                                } else if fl == 1 {
                                    1000
                                } else if fl == 2 {
                                    100
                                } else if fl == 3 {
                                    10
                                } else {
                                    1
                                };
                                proof {
                                    assert(scale == pad_scale(frac_len(s@)));
                                }
                                match fv.checked_mul(scale) {
                                    None => {
                                        proof {
                                            assert(iv * 10000 >= 0) by (nonlinear_arith)
                                                requires
                                                    iv >= 0,
                                            ;
                                        }
                                        Err(ParseError::InvalidFormat)
                                    },
                                    Some(fscaled) => {
                                        match iv.checked_mul(10000) {
                                            None => Err(ParseError::InvalidFormat),
                                            Some(iscaled) => {
                                                match iscaled.checked_add(fscaled) {
                                                    None => Err(ParseError::InvalidFormat),
                                                    Some(total) => Ok(Amount(total)),
                                                }
                                            },
                                        }
                                    },
                                }
                            },
                        }
                    },
                }
            },
        }
    }
}

/// Addition of amounts is commutative.
pub proof fn lemma_add_commutative(a: Amount, b: Amount)
    ensures
        spec_add(a, b) == spec_add(b, a),
{
}

/// Addition of amounts is associative.
pub proof fn lemma_add_associative(a: Amount, b: Amount, c: Amount)
    ensures
        spec_add(spec_add(a, b), c) == spec_add(a, spec_add(b, c)),
{
    let x = a.0;
    let y = b.0;
    let z = c.0;
    assert((((x + y) as u64) + z) as u64 == (x + ((y + z) as u64)) as u64) by (bit_vector);
}

/// The subtraction policy in both of its cases: a no-op when the subtrahend
/// exceeds the amount, exact subtraction otherwise.
pub proof fn lemma_sub_policy(a: Amount, b: Amount)
    ensures
        a.0 < b.0 ==> spec_sub(a, b) == a,
        a.0 >= b.0 ==> spec_sub(a, b).0 == a.0 - b.0,
{
}

} // verus!
