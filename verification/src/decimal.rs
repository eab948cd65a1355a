//! Decimal text of unsigned integers: formatting a `usize` the way `{}`
//! prints it, and reading one back the way `str::parse::<usize>` does.
use vstd::prelude::*;

verus! {

/// Why a piece of text is not the decimal text of a `usize`; the three
/// kinds `str::parse::<usize>` can report.
#[derive(Debug, Clone, Copy, PartialEq, Eq)]
pub enum IntErrorKind {
    /// The text is empty.
    Empty,
    /// The text holds a character that is not a decimal digit
    /// (after an optional leading `+`), or is a lone sign.
    InvalidDigit,
    /// The digits denote a number larger than `usize::MAX`.
    PosOverflow,
}

/// `c` is one of the ASCII digits `0` to `9`.
pub open spec fn is_ascii_digit(c: char) -> bool {
    '0' <= c && c <= '9'
}

/// The number that the ASCII digit `c` stands for.
pub open spec fn digit_value(c: char) -> int {
    (c as int) - ('0' as int)
}

/// The ASCII digit that stands for `d` (for `d` below ten).
pub open spec fn digit_char(d: nat) -> char {
    ((d as int) + ('0' as int)) as char
}

/// The shortest decimal text of `n`: no sign, no leading zeros
/// (`0` is written as the single digit `0`).
pub open spec fn decimal_digits(n: nat) -> Seq<char>
    decreases n,
{
    if n < 10 {
        seq![digit_char(n)]
    } else {
        decimal_digits(n / 10).push(digit_char(n % 10))
    }
}

/// The number denoted by a sequence of decimal digits, most significant first.
pub open spec fn decimal_value(s: Seq<char>) -> int
    decreases s.len(),
{
    if s.len() == 0 {
        0
    } else {
        decimal_value(s.drop_last()) * 10 + digit_value(s.last())
    }
}

/// The number of decimal digits at the start of `s`.
pub open spec fn digit_prefix_len(s: Seq<char>) -> nat
    decreases s.len(),
{
    if s.len() > 0 && is_ascii_digit(s[0]) {
        1 + digit_prefix_len(s.drop_first())
    } else {
        0
    }
}

/// Reading a run of digits (the text after the sign): overflow is reported
/// when the leading run of digits already denotes more than `usize::MAX`;
/// otherwise any character after that run is an invalid digit.
pub open spec fn parse_digits_spec(d: Seq<char>) -> Result<usize, IntErrorKind> {
    let p = digit_prefix_len(d);
    if decimal_value(d.take(p as int)) > usize::MAX {
        Err(IntErrorKind::PosOverflow)
    } else if p < d.len() {
        Err(IntErrorKind::InvalidDigit)
    } else {
        Ok(decimal_value(d) as usize)
    }
}

/// What `str::parse::<usize>` gives for the text `s`: empty text is an
/// error of its own, one leading `+` is allowed, a lone sign is an invalid
/// digit.
pub open spec fn parse_usize_spec(s: Seq<char>) -> Result<usize, IntErrorKind> {
    if s.len() == 0 {
        Err(IntErrorKind::Empty)
    } else if s[0] == '+' {
        if s.len() == 1 {
            Err(IntErrorKind::InvalidDigit)
        } else {
            parse_digits_spec(s.drop_first())
        }
    } else {
        parse_digits_spec(s)
    }
}

/// The decimal text of `n` is a non-empty run of digits.
pub proof fn lemma_decimal_digits_are_digits(n: nat)
    ensures
        decimal_digits(n).len() > 0,
        forall|i: int| 0 <= i < decimal_digits(n).len() ==> is_ascii_digit(#[trigger] decimal_digits(n)[i]),
    decreases n,
{
    if n >= 10 {
        lemma_decimal_digits_are_digits(n / 10);
    }
}

/// Formatting and then reading the digits gives the number back.
pub proof fn lemma_decimal_value_of_digits(n: nat)
    ensures
        decimal_value(decimal_digits(n)) == n,
    decreases n,
{
    let s = decimal_digits(n);
    let c = digit_char(n % 10);
    assert(digit_value(c) == n % 10);
    if n >= 10 {
        lemma_decimal_value_of_digits(n / 10);
        assert(s.drop_last() =~= decimal_digits(n / 10));
        assert(s.last() == c);
        assert(n == (n / 10) * 10 + n % 10);
        assert(decimal_value(s) == decimal_value(s.drop_last()) * 10 + digit_value(s.last()));
    } else {
        assert(s.drop_last() =~= Seq::<char>::empty());
        assert(s.last() == c);
        assert(decimal_value(s) == decimal_value(s.drop_last()) * 10 + digit_value(s.last()));
    }
}

/// A sequence made only of digits is one whole run of digits.
pub proof fn lemma_digit_prefix_all(s: Seq<char>)
    requires
        forall|i: int| 0 <= i < s.len() ==> is_ascii_digit(#[trigger] s[i]),
    ensures
        digit_prefix_len(s) == s.len(),
    decreases s.len(),
{
    if s.len() > 0 {
        assert forall|i: int| 0 <= i < s.drop_first().len() implies is_ascii_digit(
            #[trigger] s.drop_first()[i],
        ) by {
            assert(s.drop_first()[i] == s[i + 1]);
        }
        lemma_digit_prefix_all(s.drop_first());
    }
}

/// The run of digits ends at the first character that is not a digit.
pub proof fn lemma_digit_prefix_stops(s: Seq<char>, k: int)
    requires
        0 <= k < s.len(),
        forall|i: int| 0 <= i < k ==> is_ascii_digit(#[trigger] s[i]),
        !is_ascii_digit(s[k]),
    ensures
        digit_prefix_len(s) == k,
    decreases s.len(),
{
    if k > 0 {
        assert forall|i: int| 0 <= i < k - 1 implies is_ascii_digit(#[trigger] s.drop_first()[i]) by {
            assert(s.drop_first()[i] == s[i + 1]);
        }
        lemma_digit_prefix_stops(s.drop_first(), k - 1);
    }
}

/// The run of digits is made of digits and is no longer than the text.
pub proof fn lemma_digit_prefix_bounds(s: Seq<char>)
    ensures
        digit_prefix_len(s) <= s.len(),
        forall|i: int| 0 <= i < digit_prefix_len(s) ==> is_ascii_digit(#[trigger] s[i]),
        digit_prefix_len(s) < s.len() ==> !is_ascii_digit(s[digit_prefix_len(s) as int]),
    decreases s.len(),
{
    if s.len() > 0 && is_ascii_digit(s[0]) {
        lemma_digit_prefix_bounds(s.drop_first());
        if digit_prefix_len(s) < s.len() {
            assert(s[digit_prefix_len(s) as int] == s.drop_first()[digit_prefix_len(s) - 1]);
        }
        assert forall|i: int| 0 <= i < digit_prefix_len(s) implies is_ascii_digit(#[trigger] s[i]) by {
            if i > 0 {
                assert(s[i] == s.drop_first()[i - 1]);
            }
        }
    }
}

/// Appending a digit to a run of digits never makes the number smaller.
pub proof fn lemma_decimal_value_monotone(s: Seq<char>, j: int, k: int)
    requires
        0 <= j <= k <= s.len(),
        forall|i: int| 0 <= i < k ==> is_ascii_digit(#[trigger] s[i]),
    ensures
        decimal_value(s.take(j)) <= decimal_value(s.take(k)),
        decimal_value(s.take(j)) >= 0,
    decreases k - j,
{
    lemma_decimal_value_nonneg(s.take(k));
    if j < k {
        lemma_decimal_value_monotone(s, j, k - 1);
        assert(s.take(k).drop_last() =~= s.take(k - 1));
        lemma_decimal_value_nonneg(s.take(k - 1));
        assert(is_ascii_digit(s[k - 1]));
    } else {
        lemma_decimal_value_nonneg(s.take(j));
    }
}

/// The value of a run of digits is never negative.
pub proof fn lemma_decimal_value_nonneg(s: Seq<char>)
    requires
        forall|i: int| 0 <= i < s.len() ==> is_ascii_digit(#[trigger] s[i]),
    ensures
        decimal_value(s) >= 0,
    decreases s.len(),
{
    if s.len() > 0 {
        assert forall|i: int| 0 <= i < s.drop_last().len() implies is_ascii_digit(
            #[trigger] s.drop_last()[i],
        ) by {
            assert(s.drop_last()[i] == s[i]);
        }
        lemma_decimal_value_nonneg(s.drop_last());
        assert(is_ascii_digit(s[s.len() - 1]));
    }
}

/// The decimal text of `n`, as `format!("{}", n)` writes it.
pub fn format_decimal(n: usize) -> (digits: Vec<char>)
    ensures
        digits@ == decimal_digits(n as nat),
        digits@.len() > 0,
        forall|i: int| 0 <= i < digits@.len() ==> '0' <= #[trigger] digits@[i] && digits@[i] <= '9',
        decimal_value(digits@) == n,
        digits@[0] == '0' ==> n == 0 && digits@.len() == 1,
    decreases n,
{
    proof {
        lemma_decimal_digits_canonical(n as nat);
    }
    let last: char = digit_to_char((n % 10) as u8);
    if n < 10 {
        let mut digits: Vec<char> = Vec::new();
        digits.push(last);
        digits
    } else {
        let mut digits = format_decimal(n / 10);
        digits.push(last);
        digits
    }
}

/// The ASCII digit for `d`.
fn digit_to_char(d: u8) -> (c: char)
    requires
        d < 10,
    ensures
        c == digit_char(d as nat),
        is_ascii_digit(c),
        digit_value(c) == d,
{
    let code: u8 = d + 48;
    code as char
}

/// Reads the text `s` as a `usize` exactly as `str::parse::<usize>` does.
pub fn parse_usize(s: &[char]) -> (res: Result<usize, IntErrorKind>)
    ensures
        res == parse_usize_spec(s@),
        s@.len() > 0 && (forall|i: int| 0 <= i < s@.len() ==> '0' <= #[trigger] s@[i] && s@[i] <= '9')
            && decimal_value(s@) <= usize::MAX ==> res == Ok::<usize, IntErrorKind>(
            decimal_value(s@) as usize,
        ),
        s@.len() > 1 && s@[0] == '+' && (forall|i: int|
            1 <= i < s@.len() ==> '0' <= #[trigger] s@[i] && s@[i] <= '9') && decimal_value(
            s@.drop_first(),
        ) <= usize::MAX ==> res == Ok::<usize, IntErrorKind>(decimal_value(s@.drop_first()) as usize),
{
    proof {
        lemma_parse_digit_string(s@);
        if s@.len() > 1 && s@[0] == '+' {
            let t = s@.drop_first();
            if forall|i: int| 1 <= i < s@.len() ==> '0' <= #[trigger] s@[i] && s@[i] <= '9' {
                assert forall|i: int| 0 <= i < t.len() implies '0' <= #[trigger] t[i] && t[i] <= '9' by {
                    assert(t[i] == s@[i + 1]);
                }
            }
            lemma_parse_digit_string(t);
        }
    }
    if s.len() == 0 {
        return Err(IntErrorKind::Empty);
    }
    if s[0] == '+' {
        if s.len() == 1 {
            return Err(IntErrorKind::InvalidDigit);
        }
        let r = parse_digits(s, 1);
        assert(s@.subrange(1, s@.len() as int) =~= s@.drop_first());
        r
    } else {
        let r = parse_digits(s, 0);
        assert(s@.subrange(0, s@.len() as int) =~= s@);
        r
    }
}

/// Reads the characters of `s` from `start` on as a run of digits.
fn parse_digits(s: &[char], start: usize) -> (res: Result<usize, IntErrorKind>)
    requires
        start <= s.len(),
    ensures
        res == parse_digits_spec(s@.subrange(start as int, s@.len() as int)),
{
    let ghost d = s@.subrange(start as int, s@.len() as int);
    let mut value: usize = 0;
    let mut i: usize = start;
    while i < s.len()
        invariant
            start <= i <= s.len(),
            d == s@.subrange(start as int, s@.len() as int),
            forall|k: int| 0 <= k < i - start ==> is_ascii_digit(#[trigger] d[k]),
            value as int == decimal_value(d.take(i - start)),
        decreases s.len() - i,
    {
        let c = s[i];
        assert(c == d[i - start]);
        if !(c >= '0' && c <= '9') {
            proof {
                lemma_digit_prefix_stops(d, i - start);
            }
            return Err(IntErrorKind::InvalidDigit);
        }
        let digit: u32 = (c as u32) - 48;
        assert(d.take(i - start + 1).drop_last() =~= d.take(i - start));
        let m = value.checked_mul(10);
        let next = match m {
            Some(m) => m.checked_add(digit as usize),
            None => None,
        };
        match next {
            Some(v) => {
                value = v;
            },
            None => {
                proof {
                    lemma_digit_prefix_bounds(d);
                    let p = digit_prefix_len(d) as int;
                    if p < i - start + 1 {
                        assert(!is_ascii_digit(d[p]));
                        assert(false);
                    }
                    lemma_decimal_value_monotone(d, i - start + 1, p);
                }
                return Err(IntErrorKind::PosOverflow);
            },
        }
        i = i + 1;
    }
    proof {
        assert(d.take(i - start) =~= d);
        lemma_digit_prefix_all(d);
    }
    Ok(value)
}

/// The decimal text of `n` is the shortest one: digits only, denoting `n`,
/// and no leading zero unless `n` is zero, which is the single digit `0`.
pub proof fn lemma_decimal_digits_canonical(n: nat)
    ensures
        decimal_digits(n).len() > 0,
        forall|i: int|
            0 <= i < decimal_digits(n).len() ==> '0' <= #[trigger] decimal_digits(n)[i]
                && decimal_digits(n)[i] <= '9',
        decimal_value(decimal_digits(n)) == n,
        n > 0 ==> decimal_digits(n)[0] != '0',
        n == 0 ==> decimal_digits(n) == seq!['0'],
    decreases n,
{
    lemma_decimal_digits_are_digits(n);
    lemma_decimal_value_of_digits(n);
    if n >= 10 {
        lemma_decimal_digits_canonical(n / 10);
        assert(decimal_digits(n)[0] == decimal_digits(n / 10)[0]);
    } else {
        assert((n as int) + ('0' as int) == ((n as int) + ('0' as int)) as char as int);
    }
}

/// Any run of decimal digits (leading zeros allowed) whose value fits in a
/// `usize` reads as that value.
pub proof fn lemma_parse_digit_string(s: Seq<char>)
    ensures
        s.len() > 0 && (forall|i: int| 0 <= i < s.len() ==> '0' <= #[trigger] s[i] && s[i] <= '9')
            && decimal_value(s) <= usize::MAX ==> parse_usize_spec(s) == Ok::<usize, IntErrorKind>(
            decimal_value(s) as usize,
        ),
        s.len() > 0 && (forall|i: int| 0 <= i < s.len() ==> '0' <= #[trigger] s[i] && s[i] <= '9')
            && decimal_value(s) <= usize::MAX ==> parse_usize_spec(seq!['+'] + s) == Ok::<
            usize,
            IntErrorKind,
        >(decimal_value(s) as usize),
{
    if s.len() > 0 && (forall|i: int| 0 <= i < s.len() ==> '0' <= #[trigger] s[i] && s[i] <= '9')
        && decimal_value(s) <= usize::MAX {
        assert forall|i: int| 0 <= i < s.len() implies is_ascii_digit(#[trigger] s[i]) by {
            assert('0' <= s[i] && s[i] <= '9');
        }
        lemma_digit_prefix_all(s);
        assert(s.take(s.len() as int) =~= s);
        assert(s[0] != '+') by {
            assert('0' <= s[0]);
        }
        let t = seq!['+'] + s;
        assert(t.drop_first() =~= s);
        assert(t[0] == '+');
    }
}

/// Reading back the decimal text of a `usize` gives the same `usize`.
pub proof fn lemma_parse_format_roundtrip(n: usize)
    ensures
        parse_usize_spec(decimal_digits(n as nat)) == Ok::<usize, IntErrorKind>(n),
{
    let s = decimal_digits(n as nat);
    lemma_decimal_digits_are_digits(n as nat);
    lemma_decimal_value_of_digits(n as nat);
    lemma_digit_prefix_all(s);
    assert(s.take(s.len() as int) =~= s);
    assert(is_ascii_digit(s[0]));
}

} // verus!
