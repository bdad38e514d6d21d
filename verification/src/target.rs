//! The place a breakpoint command names.
//!
//! A command names its place by one token: `*` and a hexadecimal address, a
//! decimal line number, or the name of a function.

use vstd::prelude::*;

verus! {

/// What a breakpoint token asks for.
#[derive(Clone, Copy, Debug, PartialEq, Eq, Structural)]
pub enum BreakTarget {
    /// The instruction at this address.
    Address(usize),
    /// The first instruction of this source line.
    Line(usize),
    /// The first instruction of the function that the token names.
    Function,
    /// Nothing: the token begins with `*` and no address follows.
    Invalid,
}

/// The value of `c` as a digit in base `radix`, for a base up to 16.
pub open spec fn digit_in(c: char, radix: int) -> Option<int> {
    let value = if '0' <= c <= '9' {
        c as int - '0' as int
    } else if 'a' <= c <= 'f' {
        c as int - 'a' as int + 10
    } else if 'A' <= c <= 'F' {
        c as int - 'A' as int + 10
    } else {
        16
    };
    if value < radix {
        Some(value)
    } else {
        None
    }
}

/// Whether every character of `s` is a digit in base `radix`.
pub open spec fn all_digits(s: Seq<char>, radix: int) -> bool {
    forall|i: int| 0 <= i < s.len() ==> digit_in(#[trigger] s[i], radix) is Some
}

/// The number that the digits `s` denote in base `radix`, most significant
/// digit first.
pub open spec fn digits_value(s: Seq<char>, radix: int) -> int
    decreases s.len(),
{
    if s.len() == 0 {
        0
    } else {
        digits_value(s.drop_last(), radix) * radix + digit_in(s.last(), radix).unwrap()
    }
}

/// The number that `s` denotes in base `radix`: an optional `+`, then one
/// digit or more, all of them digits of the base, denoting a number that fits
/// in a `usize`. Any other string denotes none.
pub open spec fn number_of(s: Seq<char>, radix: int) -> Option<usize> {
    let digits = if s.len() > 0 && s[0] == '+' {
        s.skip(1)
    } else {
        s
    };
    if digits.len() > 0 && all_digits(digits, radix) && digits_value(digits, radix) <= usize::MAX {
        Some(digits_value(digits, radix) as usize)
    } else {
        None
    }
}

/// `s` without a leading `0x` or `0X`.
pub open spec fn without_hex_prefix(s: Seq<char>) -> Seq<char> {
    if s.len() >= 2 && s[0] == '0' && (s[1] == 'x' || s[1] == 'X') {
        s.skip(2)
    } else {
        s
    }
}

/// The address that `s` denotes: a hexadecimal number, with or without a
/// leading `0x`.
pub open spec fn address_of(s: Seq<char>) -> Option<usize> {
    number_of(without_hex_prefix(s), 16)
}

/// What the breakpoint token `token` asks for.
///
/// After a `*` the rest is an address, and a token whose rest is none asks
/// for nothing. A token that is a decimal number is a line. Every other token
/// is the name of a function.
pub open spec fn target_of(token: Seq<char>) -> BreakTarget {
    if token.len() > 0 && token[0] == '*' {
        match address_of(token.skip(1)) {
            Some(addr) => BreakTarget::Address(addr),
            None => BreakTarget::Invalid,
        }
    } else {
        match number_of(token, 10) {
            Some(line) => BreakTarget::Line(line),
            None => BreakTarget::Function,
        }
    }
}

/// The digits of a number denote at least what any of their prefixes denotes.
pub proof fn prefix_denotes_no_more(s: Seq<char>, radix: int, len: int)
    requires
        0 <= len <= s.len(),
        1 <= radix <= 16,
        all_digits(s, radix),
    ensures
        0 <= digits_value(s.take(len), radix) <= digits_value(s, radix),
    decreases s.len(),
{
    if s.len() == 0 {
        assert(s.take(len) =~= s);
    } else if len == s.len() {
        assert(s.take(len) =~= s);
        prefix_denotes_no_more(s.drop_last(), radix, len - 1);
        assert(s.drop_last().take(len - 1) =~= s.drop_last());
        assert(digit_in(s.last(), radix) is Some);
        assert(digits_value(s.drop_last(), radix) * radix >= 0) by (nonlinear_arith)
            requires
                digits_value(s.drop_last(), radix) >= 0,
                radix >= 1,
        ;
    } else {
        prefix_denotes_no_more(s.drop_last(), radix, len);
        assert(s.drop_last().take(len) =~= s.take(len));
        assert(digit_in(s.last(), radix) is Some);
        assert(digits_value(s.drop_last(), radix) * radix >= digits_value(s.drop_last(), radix))
            by (nonlinear_arith)
            requires
                digits_value(s.drop_last(), radix) >= 0,
                radix >= 1,
        ;
    }
}

/// The value of `c` as a digit in base `radix`.
pub fn digit(c: char, radix: usize) -> (d: Option<usize>)
    requires
        radix <= 16,
    ensures
        d matches Some(value) ==> digit_in(c, radix as int) == Some(value as int),
        d is None ==> digit_in(c, radix as int) is None,
{
    let code: u32 = c as u32;
    let value: usize = if '0' <= c && c <= '9' {
        (code - 48) as usize
    } else if 'a' <= c && c <= 'f' {
        (code - 97) as usize + 10
    } else if 'A' <= c && c <= 'F' {
        (code - 65) as usize + 10
    } else {
        16
    };
    if value < radix {
        Some(value)
    } else {
        None
    }
}

/// Reads the characters of `s` from position `start` on as a number in base
/// `radix`.
pub fn parse_number(s: &str, start: usize, radix: usize) -> (n: Option<usize>)
    requires
        start <= s@.len(),
        1 <= radix <= 16,
    ensures
        n == number_of(s@.skip(start as int), radix as int),
{
    let len = s.unicode_len();
    let ghost text = s@.skip(start as int);
    let mut at: usize = start;
    if at < len && s.get_char(at) == '+' {
        at += 1;
    }
    let ghost digits = s@.skip(at as int);
    assert(digits == if text.len() > 0 && text[0] == '+' {
        text.skip(1)
    } else {
        text
    }) by {
        if text.len() > 0 && text[0] == '+' {
            assert(text.skip(1) =~= s@.skip(start + 1));
        }
    }
    if at == len {
        return None;
    }
    let first: usize = at;
    let mut value: usize = 0;
    while at < len
        invariant
            first <= at <= len,
            len == s@.len(),
            1 <= radix <= 16,
            text == s@.skip(start as int),
            digits == s@.skip(first as int),
            digits.len() > 0,
            number_of(text, radix as int) == (if all_digits(digits, radix as int) && digits_value(
                digits,
                radix as int,
            ) <= usize::MAX {
                Some(digits_value(digits, radix as int) as usize)
            } else {
                None
            }),
            all_digits(digits.take(at - first), radix as int),
            value == digits_value(digits.take(at - first), radix as int),
        decreases len - at,
    {
        let c = s.get_char(at);
        assert(digits[at - first] == c);
        let ghost seen = digits.take(at - first);
        let ghost more = digits.take(at - first + 1);
        assert(more.drop_last() =~= seen);
        assert(more.last() == c);
        let d = match digit(c, radix) {
            Some(d) => d,
            None => {
                assert(digit_in(digits[at - first], radix as int) is None);
                return None;
            },
        };
        assert(all_digits(more, radix as int)) by {
            assert forall|i: int| 0 <= i < more.len() implies digit_in(
                #[trigger] more[i],
                radix as int,
            ) is Some by {
                if i < seen.len() {
                    assert(more[i] == seen[i]);
                }
            }
        }
        let grown = match value.checked_mul(radix) {
            Some(scaled) => scaled.checked_add(d),
            None => None,
        };
        value = match grown {
            Some(v) => v,
            None => {
                proof {
                    assert(digits_value(more, radix as int) == value * radix + d);
                    assert(value * radix + d > usize::MAX) by (nonlinear_arith)
                        requires
                            value * radix > usize::MAX || value * radix + d > usize::MAX,
                            d >= 0,
                    ;
                    if all_digits(digits, radix as int) {
                        prefix_denotes_no_more(digits, radix as int, at - first + 1);
                    }
                }
                return None;
            },
        };
        at += 1;
    }
    assert(digits.take(at - first) =~= digits);
    Some(value)
}

/// Reads `s` from position `start` on as a hexadecimal address, with or
/// without a leading `0x`.
pub fn parse_address(s: &str, start: usize) -> (addr: Option<usize>)
    requires
        start <= s@.len(),
    ensures
        addr == address_of(s@.skip(start as int)),
{
    let len = s.unicode_len();
    let ghost text = s@.skip(start as int);
    if len - start >= 2 && s.get_char(start) == '0' {
        let second = s.get_char(start + 1);
        if second == 'x' || second == 'X' {
            assert(text.skip(2) =~= s@.skip(start + 2));
            return parse_number(s, start + 2, 16);
        }
    }
    parse_number(s, start, 16)
}

/// Tells what the breakpoint token `token` asks for.
pub fn classify_target(token: &str) -> (target: BreakTarget)
    ensures
        target == target_of(token@),
{
    let len = token.unicode_len();
    assert(token@.skip(0) =~= token@);
    if len > 0 && token.get_char(0) == '*' {
        match parse_address(token, 1) {
            Some(addr) => BreakTarget::Address(addr),
            None => BreakTarget::Invalid,
        }
    } else {
        match parse_number(token, 0, 10) {
            Some(line) => BreakTarget::Line(line),
            None => BreakTarget::Function,
        }
    }
}

} // verus!
