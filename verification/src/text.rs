//! Decimal text of numbers, for error messages.

use vstd::prelude::*;
use vstd::string::*;

verus! {

/// The character of a decimal digit.
pub open spec fn digit_char(d: nat) -> char {
    (48 + d) as char
}

/// The decimal digits of `n`, without leading zeros.
pub open spec fn decimal(n: nat) -> Seq<char>
    decreases n,
{
    if n < 10 {
        seq![digit_char(n)]
    } else {
        decimal(n / 10).push(digit_char(n % 10))
    }
}

fn digit_text(d: u64) -> (r: &'static str)
    requires
        d < 10,
    ensures
        r@ == seq![digit_char(d as nat)],
{
    proof {
        reveal_strlit("0");
        reveal_strlit("1");
        reveal_strlit("2");
        reveal_strlit("3");
        reveal_strlit("4");
        reveal_strlit("5");
        reveal_strlit("6");
        reveal_strlit("7");
        reveal_strlit("8");
        reveal_strlit("9");
    }
    match d {
        0 => "0",
        1 => "1",
        2 => "2",
        3 => "3",
        4 => "4",
        5 => "5",
        6 => "6",
        7 => "7",
        8 => "8",
        _ => "9",
    }
}

/// Appends the decimal digits of `n` to `s`.
pub fn append_decimal(s: &mut String, n: u64)
    ensures
        final(s)@ == old(s)@ + decimal(n as nat),
    decreases n,
{
    if n >= 10 {
        append_decimal(s, n / 10);
    }
    s.append(digit_text(n % 10));
    assert(s@ =~= old(s)@ + decimal(n as nat));
}

/// The text of a signed number.
pub open spec fn signed_decimal(n: int) -> Seq<char> {
    if n < 0 {
        "-"@ + decimal((-n) as nat)
    } else {
        decimal(n as nat)
    }
}

/// Appends the text of a signed number to `s`.
pub fn append_signed(s: &mut String, n: i32)
    ensures
        final(s)@ == old(s)@ + signed_decimal(n as int),
{
    let wide: i64 = n as i64;
    if wide < 0 {
        s.append("-");
        append_decimal(s, (-wide) as u64);
    } else {
        append_decimal(s, wide as u64);
    }
    assert(s@ =~= old(s)@ + signed_decimal(n as int));
}

/// `prefix` followed by the text of a signed number.
pub fn with_code(prefix: &str, code: i32) -> (r: String)
    ensures
        r@ == prefix@ + signed_decimal(code as int),
{
    let mut r: String = prefix.to_owned();
    append_signed(&mut r, code);
    r
}

/// `prefix` followed by `text`.
pub fn prefixed(prefix: &str, text: &str) -> (r: String)
    ensures
        r@ == prefix@ + text@,
{
    let mut r: String = prefix.to_owned();
    r.append(text);
    r
}

/// The value of a decimal digit.
pub open spec fn digit_value(c: char) -> Option<nat> {
    if 48 <= c as int <= 57 {
        Some((c as int - 48) as nat)
    } else {
        None
    }
}

/// The number that decimal digits stand for; `None` without digits or with
/// anything else among them.
pub open spec fn decimal_value(s: Seq<char>) -> Option<nat>
    decreases s.len(),
{
    if s.len() == 0 {
        None
    } else if s.len() == 1 {
        digit_value(s[0])
    } else {
        match (decimal_value(s.drop_last()), digit_value(s.last())) {
            (Some(high), Some(low)) => Some(high * 10 + low),
            _ => None,
        }
    }
}

/// The value of a decimal digit.
fn parse_digit(c: char) -> (r: Option<u32>)
    ensures
        match r {
            Some(d) => digit_value(c) == Some(d as nat) && d < 10,
            None => digit_value(c) is None,
        },
{
    let code: u32 = c as u32;
    if 48 <= code && code <= 57 {
        Some(code - 48)
    } else {
        None
    }
}

/// The number that the characters of `s` from `from` on stand for, if it is at
/// most `limit`.
pub fn parse_decimal(s: &str, from: usize, limit: u32) -> (r: Option<u32>)
    requires
        from <= s@.len(),
        limit < 0x1000_0000,
    ensures
        match r {
            Some(v) => decimal_value(s@.skip(from as int)) == Some(v as nat) && v <= limit,
            None => decimal_value(s@.skip(from as int)) is None || decimal_value(
                s@.skip(from as int),
            )->0 > limit,
        },
{
    let len: usize = s.unicode_len();
    let ghost digits = s@.skip(from as int);
    if from == len {
        return None;
    }
    let mut v: u32 = match parse_digit(s.get_char(from)) {
        Some(d) => d,
        None => {
            proof {
                lemma_bad_digit(digits, 0);
            }
            return None;
        },
    };
    let mut i: usize = from + 1;
    assert(digits.take(1)[0] == digits[0]);
    if v > limit {
        v = limit + 1;
    }
    while i < len
        invariant
            from < i <= len == s@.len(),
            limit < 0x1000_0000,
            digits == s@.skip(from as int),
            v <= limit + 1,
            decimal_value(digits.take(i - from)) is Some,
            v <= limit ==> decimal_value(digits.take(i - from)) == Some(v as nat),
            v > limit ==> decimal_value(digits.take(i - from))->0 > limit,
        decreases len - i,
    {
        let ghost k = i - from;
        match parse_digit(s.get_char(i)) {
            Some(d) => {
                proof {
                    assert(digits.take(k + 1).drop_last() =~= digits.take(k));
                    assert(digits.take(k + 1).last() == digits[k]);
                }
                if v <= limit {
                    v = v * 10 + d;
                    if v > limit {
                        v = limit + 1;
                    }
                }
            },
            None => {
                proof {
                    lemma_bad_digit(digits, k);
                }
                return None;
            },
        }
        i = i + 1;
    }
    assert(digits.take(i - from) =~= digits);
    if v <= limit {
        Some(v)
    } else {
        None
    }
}

/// A character that is no digit spoils the number.
proof fn lemma_bad_digit(s: Seq<char>, at: int)
    requires
        0 <= at < s.len(),
        digit_value(s[at]) is None,
    ensures
        decimal_value(s) is None,
    decreases s.len(),
{
    if s.len() > 1 && at < s.len() - 1 {
        lemma_bad_digit(s.drop_last(), at);
    }
}

/// The text of a number stands for the number.
pub proof fn law_decimal_reads_back(n: nat)
    ensures
        decimal_value(decimal(n)) == Some(n),
        decimal(n).len() > 0,
    decreases n,
{
    if n >= 10 {
        law_decimal_reads_back(n / 10);
        let d = decimal(n);
        assert(d.drop_last() =~= decimal(n / 10));
        assert(d.last() == digit_char(n % 10));
    }
}

/// Where the last `c` of `s` stands.
pub open spec fn last_of(s: Seq<char>, c: char) -> Option<int>
    decreases s.len(),
{
    if s.len() == 0 {
        None
    } else if s.last() == c {
        Some(s.len() - 1)
    } else {
        last_of(s.drop_last(), c)
    }
}

/// Where the last `c` of `s` stands.
pub fn find_last(s: &str, c: char) -> (r: Option<usize>)
    ensures
        match r {
            Some(i) => last_of(s@, c) == Some(i as int) && i < s@.len() <= usize::MAX,
            None => last_of(s@, c) is None,
        },
{
    let len: usize = s.unicode_len();
    let mut i: usize = len;
    assert(s@.take(len as int) =~= s@);
    while i > 0
        invariant
            i <= len == s@.len(),
            last_of(s@, c) == last_of(s@.take(i as int), c),
        decreases i,
    {
        assert(s@.take(i as int).last() == s@[i - 1]);
        assert(s@.take(i as int).drop_last() =~= s@.take(i - 1));
        i = i - 1;
        if s.get_char(i) == c {
            return Some(i);
        }
    }
    None
}

/// The text of a number has no leading zeros, and each of its characters is a
/// digit.
pub proof fn law_no_leading_zeros(n: nat)
    ensures
        n > 0 ==> decimal(n)[0] != '0',
        n == 0 ==> decimal(n) == seq!['0'],
        forall|i: int| 0 <= i < decimal(n).len() ==> '0' <= #[trigger] decimal(n)[i] <= '9',
    decreases n,
{
    if n >= 10 {
        law_decimal_reads_back(n / 10);
        law_no_leading_zeros(n / 10);
        assert(decimal(n)[0] == decimal(n / 10)[0]);
        assert forall|i: int| 0 <= i < decimal(n).len() implies '0' <= #[trigger] decimal(n)[i]
            <= '9' by {
            if i < decimal(n).len() - 1 {
                assert(decimal(n)[i] == decimal(n / 10)[i]);
            }
        }
    }
}

/// The text of a signed number is that of its size, with a minus sign before it
/// when the number is negative.
pub proof fn law_signed_text(n: int)
    ensures
        n >= 0 ==> decimal_value(signed_decimal(n)) == Some(n as nat),
        n < 0 ==> signed_decimal(n)[0] == '-' && decimal_value(signed_decimal(n).skip(1)) == Some(
            (-n) as nat,
        ),
{
    reveal_strlit("-");
    if n < 0 {
        law_decimal_reads_back((-n) as nat);
        assert(signed_decimal(n).skip(1) =~= decimal((-n) as nat));
    } else {
        law_decimal_reads_back(n as nat);
    }
}

/// The character that is found last is the one that was looked for, and it does not
/// occur behind it. When none is found, it does not occur at all.
pub proof fn law_last_of(s: Seq<char>, c: char)
    ensures
        match last_of(s, c) {
            Some(i) => 0 <= i < s.len() && s[i] == c && forall|j: int|
                i < j < s.len() ==> #[trigger] s[j] != c,
            None => forall|j: int| 0 <= j < s.len() ==> #[trigger] s[j] != c,
        },
    decreases s.len(),
{
    if s.len() > 0 && s.last() != c {
        law_last_of(s.drop_last(), c);
        assert forall|j: int| 0 <= j < s.len() - 1 implies #[trigger] s[j] == s.drop_last()[j] by {}
    }
}

} // verus!
