//! Unsigned decimal numbers as `str::parse` reads them for `u16` and `u64`: an
//! optional `+`, then one or more ASCII digits, with a value that fits the type.

use vstd::prelude::*;
use vstd::string::StrSliceExecFns;

verus! {

pub open spec fn is_digit(c: char) -> bool {
    '0' <= c && c <= '9'
}

pub open spec fn digit_value(c: char) -> nat {
    (c as int - '0' as int) as nat
}

/// The value of a string of decimal digits.
pub open spec fn digits_value(s: Seq<char>) -> nat
    decreases s.len(),
{
    if s.len() == 0 {
        0
    } else {
        digits_value(s.drop_last()) * 10 + digit_value(s.last())
    }
}

/// The digits of `s`, after a leading `+` if there is one.
pub open spec fn unsigned_digits(s: Seq<char>) -> Seq<char> {
    if s.len() > 0 && s[0] == '+' {
        s.drop_first()
    } else {
        s
    }
}

/// The number that `s` spells, if it spells one no greater than `max`.
pub open spec fn spec_parse_unsigned(s: Seq<char>, max: nat) -> Option<nat> {
    let d = unsigned_digits(s);
    if d.len() > 0 && (forall|i: int| 0 <= i < d.len() ==> is_digit(#[trigger] d[i]))
        && digits_value(d) <= max {
        Some(digits_value(d))
    } else {
        None
    }
}

proof fn lemma_digits_value_monotone(s: Seq<char>, i: int)
    requires
        0 <= i <= s.len(),
        forall|k: int| 0 <= k < s.len() ==> is_digit(#[trigger] s[k]),
    ensures
        digits_value(s.subrange(0, i)) <= digits_value(s),
    decreases s.len() - i,
{
    if i < s.len() {
        lemma_digits_value_monotone(s, i + 1);
        assert(s.subrange(0, i + 1).drop_last() =~= s.subrange(0, i));
    } else {
        assert(s.subrange(0, i) =~= s);
    }
}

/// Reads `s` as an unsigned decimal number no greater than `max`.
pub fn parse_unsigned(s: &str, max: u64) -> (r: Option<u64>)
    ensures
        match r {
            Some(x) => spec_parse_unsigned(s@, max as nat) == Some(x as nat),
            None => spec_parse_unsigned(s@, max as nat) is None,
        },
{
    let n = s.unicode_len();
    let ghost d = unsigned_digits(s@);
    let mut i: usize = 0;
    if n > 0 && s.get_char(0) == '+' {
        i = 1;
    }
    let start = i;
    assert(d =~= s@.subrange(start as int, n as int));
    if start == n {
        return None;
    }
    let mut value: u128 = 0;
    while i < n
        invariant
            start <= i <= n,
            n == s@.len(),
            d == s@.subrange(start as int, n as int),
            d == unsigned_digits(s@),
            d.len() > 0,
            value <= max,
            value == digits_value(d.subrange(0, i - start)),
            forall|k: int| 0 <= k < i - start ==> is_digit(#[trigger] d[k]),
        decreases n - i,
    {
        let c = s.get_char(i);
        assert(c == d[i - start]);
        if !('0' <= c && c <= '9') {
            assert(!is_digit(d[i - start]));
            return None;
        }
        let digit = (c as u32 - '0' as u32) as u128;
        let ghost prefix = d.subrange(0, i + 1 - start);
        assert(prefix.drop_last() =~= d.subrange(0, i - start));
        value = value * 10 + digit;
        i = i + 1;
        if value > max as u128 {
            proof {
                lemma_digits_value_monotone_prefix(d, i - start);
            }
            return None;
        }
    }
    assert(d.subrange(0, n - start) =~= d);
    Some(value as u64)
}

proof fn lemma_digits_value_monotone_prefix(d: Seq<char>, i: int)
    requires
        0 <= i <= d.len(),
    ensures
        (forall|k: int| 0 <= k < d.len() ==> is_digit(#[trigger] d[k])) ==> digits_value(
            d.subrange(0, i),
        ) <= digits_value(d),
{
    if forall|k: int| 0 <= k < d.len() ==> is_digit(#[trigger] d[k]) {
        lemma_digits_value_monotone(d, i);
    }
}

/// Reads `s` as `str::parse::<u16>` does.
pub fn parse_u16(s: &str) -> (r: Option<u16>)
    ensures
        match r {
            Some(x) => spec_parse_unsigned(s@, u16::MAX as nat) == Some(x as nat),
            None => spec_parse_unsigned(s@, u16::MAX as nat) is None,
        },
{
    match parse_unsigned(s, u16::MAX as u64) {
        Some(x) => Some(x as u16),
        None => None,
    }
}

/// Reads `s` as `str::parse::<u64>` does.
pub fn parse_u64(s: &str) -> (r: Option<u64>)
    ensures
        match r {
            Some(x) => spec_parse_unsigned(s@, u64::MAX as nat) == Some(x as nat),
            None => spec_parse_unsigned(s@, u64::MAX as nat) is None,
        },
{
    parse_unsigned(s, u64::MAX)
}

/// How a number reads: a lone digit is its value, each further digit
/// multiplies the value so far by ten and adds its own, one leading `+` changes
/// nothing, and an empty string, a lone `+`, a `-` sign or any other character
/// makes no number; a number reads only where it is at most `max`.
pub proof fn lemma_decimal_reading(d: Seq<char>, c: char, max: nat)
    requires
        d.len() > 0,
        forall|i: int| 0 <= i < d.len() ==> is_digit(#[trigger] d[i]),
    ensures
        is_digit(c) ==> digits_value(seq![c]) == c as int - '0' as int,
        is_digit(c) ==> digits_value(d.push(c)) == 10 * digits_value(d) + (c as int - '0' as int),
        !is_digit(c) ==> spec_parse_unsigned(d.push(c), max) is None,
        spec_parse_unsigned(d, max) == (if digits_value(d) <= max {
            Some(digits_value(d))
        } else {
            None::<nat>
        }),
        spec_parse_unsigned(seq!['+'] + d, max) == spec_parse_unsigned(d, max),
        spec_parse_unsigned(seq!['-'] + d, max) is None,
        spec_parse_unsigned(Seq::<char>::empty(), max) is None,
        spec_parse_unsigned(seq!['+'], max) is None,
{
    assert(seq![c].drop_last() =~= Seq::<char>::empty());
    assert(d.push(c).drop_last() =~= d);
    assert(d[0] != '+');
    assert((seq!['+'] + d).drop_first() =~= d);
    assert((seq!['-'] + d)[0] == '-');
    assert(seq!['+'].drop_first() =~= Seq::<char>::empty());
    if !is_digit(c) {
        assert(d.push(c)[d.len() as int] == c);
        assert(d.push(c)[0] == d[0]);
    }
}

} // verus!
