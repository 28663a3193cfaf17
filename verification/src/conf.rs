//! The configuration a server starts with.

use vstd::prelude::*;
use vstd::string::*;
use crate::text::{decimal, push_decimal};

verus! {

/// Default address.
pub const ADDR: &'static str = "localhost";

/// Default port.
pub const PORT: &'static str = "7878";

/// Default directory.
pub const DIR: &'static str = ".";

/// `c` is a decimal digit.
pub open spec fn is_digit(c: char) -> bool {
    '0' <= c && c <= '9'
}

/// The value of the digit `c`.
pub open spec fn digit_value(c: char) -> nat {
    if is_digit(c) {
        (c as u32 - '0' as u32) as nat
    } else {
        0
    }
}

/// Every character of `s` is a decimal digit.
pub open spec fn all_digits(s: Seq<char>) -> bool {
    forall|i: int| 0 <= i < s.len() ==> is_digit(#[trigger] s[i])
}

/// The number that the digits of `s` write in base ten.
pub open spec fn digits_value(s: Seq<char>) -> nat
    decreases s.len(),
{
    if s.len() == 0 {
        0
    } else {
        digits_value(s.drop_last()) * 10 + digit_value(s.last())
    }
}

/// `s` without the plus sign it may start with.
pub open spec fn unsigned_part(s: Seq<char>) -> Seq<char> {
    if s.len() > 0 && s[0] == '+' {
        s.subrange(1, s.len() as int)
    } else {
        s
    }
}

/// The number that `s` writes: an optional plus sign, then one decimal
/// digit or more, for a value that the machine's word can hold.
pub open spec fn spec_parse_usize(s: Seq<char>) -> Option<usize> {
    let digits = unsigned_part(s);
    if digits.len() > 0 && all_digits(digits) && digits_value(digits) <= usize::MAX {
        Some(digits_value(digits) as usize)
    } else {
        None
    }
}

/// More digits never write a smaller number.
pub proof fn lemma_digits_value_grows(s: Seq<char>, k: int)
    requires
        0 <= k <= s.len(),
    ensures
        digits_value(s.subrange(0, k)) <= digits_value(s),
    decreases s.len(),
{
    if k == s.len() {
        assert(s.subrange(0, k) =~= s);
    } else {
        lemma_digits_value_grows(s.drop_last(), k);
        assert(s.drop_last().subrange(0, k) =~= s.subrange(0, k));
    }
}

/// The number that `s` writes, if it writes one.
pub fn parse_usize(s: &str) -> (res: Option<usize>)
    ensures
        res == spec_parse_usize(s@),
{
    let ghost digits = unsigned_part(s@);
    if !s.is_ascii() {
        proof {
            let i = choose|i: int| 0 <= i < s@.len() && !('\0' <= #[trigger] s@[i] <= '\u{7f}');
            if s@[0] == '+' {
                assert(digits[i - 1] == s@[i]);
            } else {
                assert(digits[i] == s@[i]);
            }
        }
        return None;
    }
    let n = s.unicode_len();
    let start: usize = if n > 0 && s.get_ascii(0) == 43u8 {
        1
    } else {
        0
    };
    assert(digits =~= s@.subrange(start as int, n as int));
    if start == n {
        return None;
    }
    let mut value: usize = 0;
    let mut i: usize = start;
    assert(digits.subrange(0, 0) =~= Seq::<char>::empty());
    while i < n
        invariant
            start <= i <= n,
            n == s@.len(),
            is_ascii(s),
            digits == s@.subrange(start as int, n as int),
            digits == unsigned_part(s@),
            all_digits(digits.subrange(0, i - start)),
            value == digits_value(digits.subrange(0, i - start)),
        decreases n - i,
    {
        let b = s.get_ascii(i);
        let ghost c = s@[i as int];
        assert(digits[i - start] == c);
        if b < 48u8 || b > 57u8 {
            assert(!is_digit(c));
            return None;
        }
        assert(is_digit(c));
        let digit: usize = (b - 48u8) as usize;
        proof {
            let front = digits.subrange(0, i - start + 1);
            assert(front.drop_last() =~= digits.subrange(0, i - start));
            assert(front.last() == c);
            assert(digits_value(front) == value * 10 + digit);
            lemma_digits_value_grows(digits, i - start + 1);
            assert forall|k: int| 0 <= k < front.len() implies is_digit(#[trigger] front[k]) by {
                if k < i - start {
                    assert(digits.subrange(0, i - start)[k] == front[k]);
                }
            }
        }
        match value.checked_mul(10) {
            None => {
                return None;
            },
            Some(tens) => match tens.checked_add(digit) {
                None => {
                    return None;
                },
                Some(next) => {
                    value = next;
                },
            },
        }
        i += 1;
    }
    assert(digits.subrange(0, n - start) =~= digits);
    Some(value)
}

/// Accepts the text of a number that the machine's word can hold, and says
/// what it found otherwise.
pub fn usize_validator(s: String) -> (res: Result<(), String>)
    ensures
        spec_parse_usize(s@) is Some ==> res is Ok,
        spec_parse_usize(s@) is None ==> res is Err && res->Err_0@ == "expected integer, found `"@
            + s@ + "`"@,
{
    match parse_usize(s.as_str()) {
        Some(_) => Ok(()),
        None => {
            let mut msg = String::from_str("expected integer, found `");
            msg.append(s.as_str());
            msg.append("`");
            Err(msg)
        },
    }
}

/// The address of a server: the host, a colon, the port.
pub fn socket_address(addr: &str, port: usize) -> (res: String)
    ensures
        res@ == addr@ + ":"@ + decimal(port as nat),
{
    let mut res = String::from_str(addr);
    res.append(":");
    push_decimal(&mut res, port as u64);
    res
}

/// The port on which the clients' sockets are served: the one after the
/// pages' own, if there is one.
pub fn socket_port(port: usize) -> (res: Option<usize>)
    ensures
        port < usize::MAX ==> res == Some((port + 1) as usize),
        port == usize::MAX ==> res is None,
{
    port.checked_add(1)
}

} // verus!
