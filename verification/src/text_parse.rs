//! Reading unsigned integers from decimal text, as `str::parse::<u64>` does.
use vstd::prelude::*;
use crate::text::{owned, decimal, decimal_digits};

verus! {

/// Why decimal text does not denote a `u64`.
#[derive(Debug, Clone, Copy, PartialEq, Eq, Structural)]
pub enum ParseU64Error {
    /// The text is empty.
    Empty,
    /// A character that is not a decimal digit comes first.
    InvalidDigit,
    /// The digits denote a number above `u64::MAX`.
    PosOverflow,
}

/// Whether `c` is a decimal digit.
pub open spec fn is_digit(c: char) -> bool {
    '0' <= c && c <= '9'
}

/// The value of digit `c`.
pub open spec fn digit_of(c: char) -> nat {
    (c as int - '0' as int) as nat
}

/// The value of the digits `s`, read from left to right; the first character
/// that is not a digit, or the first digit that takes the value above
/// `u64::MAX`, decides the error.
pub open spec fn digits_value(s: Seq<char>) -> Result<nat, ParseU64Error>
    decreases s.len(),
{
    if s.len() == 0 {
        Ok(0)
    } else {
        match digits_value(s.drop_last()) {
            Err(e) => Err(e),
            Ok(v) => if !is_digit(s.last()) {
                Err(ParseU64Error::InvalidDigit)
            } else if v * 10 + digit_of(s.last()) > u64::MAX {
                Err(ParseU64Error::PosOverflow)
            } else {
                Ok(v * 10 + digit_of(s.last()))
            },
        }
    }
}

/// What `str::parse::<u64>` gives for text `s`: an optional leading `+`
/// followed by at least one digit.
pub open spec fn spec_parse_u64(s: Seq<char>) -> Result<u64, ParseU64Error> {
    if s.len() == 0 {
        Err(ParseU64Error::Empty)
    } else {
        let digits = if s[0] == '+' { s.drop_first() } else { s };
        if digits.len() == 0 {
            Err(ParseU64Error::InvalidDigit)
        } else {
            match digits_value(digits) {
                Ok(v) => Ok(v as u64),
                Err(e) => Err(e),
            }
        }
    }
}

/// The message of a parse error, as its `Display` writes it.
pub open spec fn parse_error_message(e: ParseU64Error) -> Seq<char> {
    match e {
        ParseU64Error::Empty => "cannot parse integer from empty string"@,
        ParseU64Error::InvalidDigit => "invalid digit found in string"@,
        ParseU64Error::PosOverflow => "number too large to fit in target type"@,
    }
}

/// The message of a parse error.
pub fn parse_error_text(e: ParseU64Error) -> (r: String)
    ensures
        r@ == parse_error_message(e),
{
    match e {
        ParseU64Error::Empty => owned("cannot parse integer from empty string"),
        ParseU64Error::InvalidDigit => owned("invalid digit found in string"),
        ParseU64Error::PosOverflow => owned("number too large to fit in target type"),
    }
}

/// Read a `u64` from decimal text.
pub fn parse_u64(s: &str) -> (r: Result<u64, ParseU64Error>)
    ensures
        r == spec_parse_u64(s@),
{
    let n = s.unicode_len();
    if n == 0 {
        return Err(ParseU64Error::Empty);
    }
    let start: usize = if s.get_char(0) == '+' { 1 } else { 0 };
    let ghost digits = if s@[0] == '+' { s@.drop_first() } else { s@ };
    assert(digits =~= s@.subrange(start as int, n as int));
    if start == n {
        return Err(ParseU64Error::InvalidDigit);
    }
    let mut v: u64 = 0;
    let mut i: usize = start;
    while i < n
        invariant
            n == s@.len(),
            start <= i <= n,
            digits == s@.subrange(start as int, n as int),
            digits == (if s@[0] == '+' { s@.drop_first() } else { s@ }),
            digits.len() > 0,
            digits_value(s@.subrange(start as int, i as int)) == Ok::<nat, ParseU64Error>(v as nat),
        decreases n - i,
    {
        let c = s.get_char(i);
        let ghost pre = s@.subrange(start as int, i as int);
        let ghost post = s@.subrange(start as int, i + 1);
        assert(post.drop_last() =~= pre);
        assert(post.last() == c);
        if c < '0' || c > '9' {
            proof {
                assert(digits.take((i + 1 - start) as int) =~= post);
                assert(!is_digit(post.last()));
                assert(digits_value(post) == Err::<nat, ParseU64Error>(ParseU64Error::InvalidDigit));
                lemma_digits_error_sticks(digits, (i + 1 - start) as int);
            }
            return Err(ParseU64Error::InvalidDigit);
        }
        let d: u64 = (c as u32 - '0' as u32) as u64;
        if v > (u64::MAX - d) / 10 {
            proof {
                assert(v * 10 + d > u64::MAX) by (nonlinear_arith)
                    requires v > (u64::MAX - d) / 10, d <= 9;
                assert(digits.take((i + 1 - start) as int) =~= post);
                assert(digit_of(post.last()) == d);
                assert(digits_value(post) == Err::<nat, ParseU64Error>(ParseU64Error::PosOverflow));
                lemma_digits_error_sticks(digits, (i + 1 - start) as int);
            }
            return Err(ParseU64Error::PosOverflow);
        }
        assert(v * 10 + d <= u64::MAX) by (nonlinear_arith)
            requires v <= (u64::MAX - d) / 10, d <= 9;
        v = v * 10 + d;
        i = i + 1;
    }
    Ok(v)
}

/// Once the digits of a prefix fail, all the digits fail the same way.
proof fn lemma_digits_error_sticks(s: Seq<char>, k: int)
    requires
        0 <= k <= s.len(),
        digits_value(s.take(k)) is Err,
    ensures
        digits_value(s) == digits_value(s.take(k)),
    decreases s.len() - k,
{
    if k < s.len() {
        assert(s.take(k + 1).drop_last() =~= s.take(k));
        lemma_digits_error_sticks(s, k + 1);
    } else {
        assert(s.take(k) =~= s);
    }
}

proof fn lemma_digit_char(d: nat)
    requires
        d < 10,
    ensures
        is_digit(decimal_digits()[d as int]),
        digit_of(decimal_digits()[d as int]) == d,
        decimal_digits()[d as int] != '+',
{
    reveal_strlit("0123456789");
    if d == 0 {} else if d == 1 {} else if d == 2 {} else if d == 3 {} else if d == 4 {}
    else if d == 5 {} else if d == 6 {} else if d == 7 {} else if d == 8 {} else {}
}

proof fn lemma_digits_value_decimal(n: nat)
    requires
        n <= u64::MAX,
    ensures
        digits_value(decimal(n)) == Ok::<nat, ParseU64Error>(n),
        decimal(n).len() > 0,
        decimal(n)[0] != '+',
    decreases n,
{
    lemma_digit_char(n % 10);
    reveal_strlit("0123456789");
    if n < 10 {
        let s = decimal(n);
        assert(s.drop_last() =~= Seq::<char>::empty());
        assert(s.last() == decimal_digits()[n as int]);
        assert(digits_value(s.drop_last()) == Ok::<nat, ParseU64Error>(0));
        assert(digit_of(s.last()) == n);
        assert(digits_value(s) == Ok::<nat, ParseU64Error>(n));
    } else {
        lemma_digits_value_decimal(n / 10);
        let s = decimal(n);
        assert(s.drop_last() =~= decimal(n / 10));
        assert(s.last() == decimal_digits()[(n % 10) as int]);
        assert((n / 10) * 10 + n % 10 == n);
        assert(s[0] == decimal(n / 10)[0]);
        assert(digit_of(s.last()) == n % 10);
        assert(digits_value(s) == Ok::<nat, ParseU64Error>(n));
    }
}

/// Reading the decimal text of a number gives the number back.
pub proof fn law_parse_decimal(n: u64)
    ensures
        spec_parse_u64(decimal(n as nat)) == Ok::<u64, ParseU64Error>(n),
{
    lemma_digits_value_decimal(n as nat);
}

} // verus!
