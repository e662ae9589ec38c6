use vstd::prelude::*;

verus! {

/// The character of a decimal digit `0 <= d < 10`.
pub open spec fn digit_char(d: int) -> char {
    if d == 0 { '0' }
    else if d == 1 { '1' }
    else if d == 2 { '2' }
    else if d == 3 { '3' }
    else if d == 4 { '4' }
    else if d == 5 { '5' }
    else if d == 6 { '6' }
    else if d == 7 { '7' }
    else if d == 8 { '8' }
    else { '9' }
}

pub open spec fn is_digit(c: char) -> bool {
    '0' <= c && c <= '9'
}

pub open spec fn digit_value(c: char) -> int {
    c as int - '0' as int
}

/// The decimal digits of a natural number, most significant first, without leading zeros.
pub open spec fn nat_digits(n: nat) -> Seq<char>
    decreases n,
{
    if n < 10 {
        seq![digit_char(n as int)]
    } else {
        nat_digits(n / 10) + seq![digit_char(n as int % 10)]
    }
}

/// The decimal rendering of an integer, with a leading `-` when it is negative.
pub open spec fn decimal(n: int) -> Seq<char> {
    if n < 0 {
        seq!['-'] + nat_digits((-n) as nat)
    } else {
        nat_digits(n as nat)
    }
}

/// The value of a sequence of decimal digits.
pub open spec fn digits_value(s: Seq<char>) -> int
    decreases s.len(),
{
    if s.len() == 0 {
        0
    } else {
        digits_value(s.drop_last()) * 10 + digit_value(s.last())
    }
}

pub open spec fn all_digits(s: Seq<char>) -> bool {
    forall|i: int| 0 <= i < s.len() ==> #[trigger] is_digit(s[i])
}

/// The integer that a string spells in decimal: an optional `-` followed by
/// at least one digit, and nothing else.
pub open spec fn parse_decimal(s: Seq<char>) -> Option<int> {
    if s.len() > 0 && s[0] == '-' {
        let d = s.drop_first();
        if d.len() > 0 && all_digits(d) { Some(-digits_value(d)) } else { None }
    } else {
        if s.len() > 0 && all_digits(s) { Some(digits_value(s)) } else { None }
    }
}

proof fn lemma_digit_char(d: int)
    requires
        0 <= d < 10,
    ensures
        is_digit(digit_char(d)),
        digit_value(digit_char(d)) == d,
{
}

proof fn lemma_nat_digits(n: nat)
    ensures
        nat_digits(n).len() > 0,
        all_digits(nat_digits(n)),
        digits_value(nat_digits(n)) == n,
        nat_digits(n)[0] != '-',
    decreases n,
{
    if n < 10 {
        lemma_digit_char(n as int);
        assert(nat_digits(n).drop_last() =~= Seq::<char>::empty());
        assert(digits_value(Seq::<char>::empty()) == 0);
    } else {
        lemma_nat_digits(n / 10);
        lemma_digit_char(n as int % 10);
        let s = nat_digits(n);
        assert(s.drop_last() =~= nat_digits(n / 10));
        assert forall|i: int| 0 <= i < s.len() implies #[trigger] is_digit(s[i]) by {
            if i < s.len() - 1 {
                assert(s[i] == nat_digits(n / 10)[i]);
            }
        }
        assert(digits_value(s) == (n / 10) as int * 10 + n as int % 10);
    }
}

/// Reading back the decimal rendering of an integer gives that integer.
pub proof fn lemma_decimal_round_trip(n: int)
    ensures
        parse_decimal(decimal(n)) == Some(n),
{
    if n < 0 {
        lemma_nat_digits((-n) as nat);
        assert(decimal(n).drop_first() =~= nat_digits((-n) as nat));
    } else {
        lemma_nat_digits(n as nat);
    }
}

proof fn lemma_digits_value_nonneg(s: Seq<char>)
    requires
        all_digits(s),
    ensures
        digits_value(s) >= 0,
    decreases s.len(),
{
    if s.len() > 0 {
        assert(all_digits(s.drop_last())) by {
            assert forall|i: int| 0 <= i < s.len() - 1 implies #[trigger] is_digit(s.drop_last()[i]) by {
                assert(is_digit(s[i]));
            }
        }
        lemma_digits_value_nonneg(s.drop_last());
        assert(is_digit(s[s.len() - 1]));
    }
}

/// The largest magnitude that any integer format of this library reaches.
pub const MAGNITUDE_CAP: i128 = 18446744073709551616;

/// Why a string is not an acceptable integer.
#[derive(Clone, Copy, Debug, PartialEq, Eq)]
pub enum IntParseError {
    /// The string is empty.
    Empty,
    /// The string is not an optional `-` followed by one or more digits.
    InvalidDigit,
    /// The string spells an integer outside the accepted range.
    OutOfRange,
}

/// Reads `s` as a decimal integer and accepts it when it lies in `lo..=hi`.
pub fn parse_decimal_in(s: &str, lo: i128, hi: i128) -> (r: Result<i128, IntParseError>)
    requires
        -MAGNITUDE_CAP <= lo,
        hi <= MAGNITUDE_CAP,
    ensures
        match r {
            Ok(v) => parse_decimal(s@) == Some(v as int) && lo <= v <= hi,
            Err(IntParseError::Empty) => s@.len() == 0,
            Err(IntParseError::InvalidDigit) => s@.len() > 0 && parse_decimal(s@) is None,
            Err(IntParseError::OutOfRange) => parse_decimal(s@) matches Some(v) && !(lo <= v <= hi),
        },
{
    let n = s.unicode_len();
    if n == 0 {
        return Err(IntParseError::Empty);
    }
    let neg = s.get_char(0) == '-';
    let start: usize = if neg { 1 } else { 0 };
    if start == n {
        return Err(IntParseError::InvalidDigit);
    }
    let ghost digits = s@.subrange(start as int, n as int);
    let mut acc: i128 = 0;
    let mut j: usize = start;
    while j < n
        invariant
            start <= j <= n,
            n == s@.len(),
            start == (if neg { 1usize } else { 0usize }),
            neg == (s@[0] == '-'),
            digits == s@.subrange(start as int, n as int),
            all_digits(s@.subrange(start as int, j as int)),
            0 <= acc <= MAGNITUDE_CAP * 10 + 9,
            acc <= MAGNITUDE_CAP ==> acc == digits_value(s@.subrange(start as int, j as int)),
            acc > MAGNITUDE_CAP ==> digits_value(s@.subrange(start as int, j as int)) > MAGNITUDE_CAP,
        decreases n - j,
    {
        let c = s.get_char(j);
        if !('0' <= c && c <= '9') {
            proof {
                assert(s@[j as int] == digits[j - start]);
                assert(!is_digit(digits[j - start]));
                assert(!all_digits(digits));
                if !neg {
                    assert(start == 0);
                    assert(digits =~= s@);
                } else {
                    assert(digits =~= s@.drop_first());
                }
            }
            return Err(IntParseError::InvalidDigit);
        }
        let ghost prev = s@.subrange(start as int, j as int);
        let ghost next = s@.subrange(start as int, j + 1);
        proof {
            assert(next.drop_last() =~= prev);
            assert(next.last() == c);
            assert forall|i: int| 0 <= i < next.len() implies #[trigger] is_digit(next[i]) by {
                if i < prev.len() {
                    assert(next[i] == prev[i]);
                }
            }
            lemma_digits_value_nonneg(prev);
        }
        if acc <= MAGNITUDE_CAP {
            acc = acc * 10 + (c as u32 - '0' as u32) as i128;
        }
        j = j + 1;
    }
    proof {
        assert(digits =~= s@.subrange(start as int, j as int));
        if neg {
            assert(digits =~= s@.drop_first());
        } else {
            assert(digits =~= s@);
        }
    }
    if acc > MAGNITUDE_CAP {
        return Err(IntParseError::OutOfRange);
    }
    let v: i128 = if neg { -acc } else { acc };
    if lo <= v && v <= hi {
        Ok(v)
    } else {
        Err(IntParseError::OutOfRange)
    }
}

fn digit_str(d: u8) -> (r: &'static str)
    requires
        d < 10,
    ensures
        r@ == seq![digit_char(d as int)],
{
    proof {
        reveal_strlit("0");
        reveal_strlit("1");
        reveal_strlit("2");
        reveal_strlit("3");
        reveal_strlit("4");
        reveal_strlit("5");
        reveal_strlit("6");
        reveal_strlit("7");
        reveal_strlit("8");
        reveal_strlit("9");
    }
    match d {
        0 => "0",
        1 => "1",
        2 => "2",
        3 => "3",
        4 => "4",
        5 => "5",
        6 => "6",
        7 => "7",
        8 => "8",
        _ => "9",
    }
}

fn append_nat_digits(out: &mut String, n: u128)
    ensures
        final(out)@ == old(out)@ + nat_digits(n as nat),
    decreases n,
{
    if n >= 10 {
        append_nat_digits(out, n / 10);
    }
    out.append(digit_str((n % 10) as u8));
    assert(final(out)@ =~= old(out)@ + nat_digits(n as nat));
}

/// Appends the decimal rendering of `n` to `out`.
pub fn append_decimal(out: &mut String, n: i128)
    ensures
        final(out)@ == old(out)@ + decimal(n as int),
{
    if n < 0 {
        proof {
            reveal_strlit("-");
        }
        out.append("-");
        let m: u128 = if n == i128::MIN { 170141183460469231731687303715884105728u128 } else { (-n) as u128 };
        append_nat_digits(out, m);
        assert(final(out)@ =~= old(out)@ + decimal(n as int));
    } else {
        append_nat_digits(out, n as u128);
    }
}

} // verus!
