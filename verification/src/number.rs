//! Decimal numerals: reading unsigned integers from text and writing them.
use vstd::prelude::*;
use vstd::slice::slice_subrange;

verus! {

/// An ASCII decimal digit.
pub open spec fn is_digit(c: char) -> bool {
    '0' <= c && c <= '9'
}

/// The value of a decimal digit.
pub open spec fn digit_value(c: char) -> nat {
    (c as u32 - '0' as u32) as nat
}

/// Every character is a decimal digit.
pub open spec fn all_digits(s: Seq<char>) -> bool {
    forall|i: int| 0 <= i < s.len() ==> is_digit(#[trigger] s[i])
}

/// The number that a sequence of decimal digits writes; an empty one writes 0.
pub open spec fn digits_value(s: Seq<char>) -> nat
    decreases s.len(),
{
    if s.len() == 0 {
        0
    } else {
        digits_value(s.drop_last()) * 10 + digit_value(s.last())
    }
}

/// The number of an unsigned decimal numeral: an optional `+`, then one digit
/// or more and nothing else.
pub open spec fn unsigned_value(s: Seq<char>) -> Option<nat> {
    let body = if s.len() > 0 && s[0] == '+' {
        s.skip(1)
    } else {
        s
    };
    if body.len() > 0 && all_digits(body) {
        Some(digits_value(body))
    } else {
        None
    }
}

/// The unsigned numeral's number where it is at most `max`.
pub open spec fn bounded_value(s: Seq<char>, max: nat) -> Option<nat> {
    match unsigned_value(s) {
        Some(n) if n <= max => Some(n),
        _ => None,
    }
}

/// The decimal digit that writes `d`.
pub open spec fn digit_char(d: nat) -> char {
    if d == 0 {
        '0'
    } else if d == 1 {
        '1'
    } else if d == 2 {
        '2'
    } else if d == 3 {
        '3'
    } else if d == 4 {
        '4'
    } else if d == 5 {
        '5'
    } else if d == 6 {
        '6'
    } else if d == 7 {
        '7'
    } else if d == 8 {
        '8'
    } else {
        '9'
    }
}

/// The decimal numeral of `n`, without leading zeros.
pub open spec fn decimal_text(n: nat) -> Seq<char>
    decreases n,
{
    if n < 10 {
        seq![digit_char(n)]
    } else {
        decimal_text(n / 10).push(digit_char(n % 10))
    }
}

fn digit_of(c: char) -> (r: Option<u8>)
    ensures
        match r {
            Some(d) => is_digit(c) && d == digit_value(c) && d <= 9,
            None => !is_digit(c),
        },
{
    if '0' <= c && c <= '9' {
        Some(((c as u32) - ('0' as u32)) as u8)
    } else {
        None
    }
}

/// Reads an unsigned decimal numeral that fits 128 bits.
pub fn parse_u128_chars(s: &[char]) -> (r: Option<u128>)
    ensures
        match r {
            Some(n) => bounded_value(s@, u128::MAX as nat) == Some(n as nat),
            None => bounded_value(s@, u128::MAX as nat) is None,
        },
{
    let start: usize = if s.len() > 0 && s[0] == '+' {
        1
    } else {
        0
    };
    let body = slice_subrange(s, start, s.len());
    assert(body@ =~= if s@.len() > 0 && s@[0] == '+' {
        s@.skip(1)
    } else {
        s@
    });
    if body.len() == 0 {
        return None;
    }
    let mut acc: u128 = 0;
    let mut overflow = false;
    let mut i: usize = 0;
    assert(body@.take(0) =~= Seq::<char>::empty());
    while i < body.len()
        invariant
            i <= body.len(),
            body@.len() > 0,
            body@ == if s@.len() > 0 && s@[0] == '+' {
                s@.skip(1)
            } else {
                s@
            },
            all_digits(body@.take(i as int)),
            !overflow ==> acc == digits_value(body@.take(i as int)),
            overflow ==> digits_value(body@.take(i as int)) > u128::MAX,
        decreases body.len() - i,
    {
        let c = body[i];
        proof {
            assert(body@.take(i + 1).drop_last() =~= body@.take(i as int));
            assert(body@.take(i + 1).last() == c);
        }
        match digit_of(c) {
            None => {
                assert(!all_digits(body@)) by {
                    assert(!is_digit(body@[i as int]));
                }
                return None;
            },
            Some(d) => {
                assert(all_digits(body@.take(i + 1))) by {
                    assert forall|k: int| 0 <= k < i + 1 implies is_digit(
                        #[trigger] body@.take(i + 1)[k],
                    ) by {
                        if k < i {
                            assert(body@.take(i as int)[k] == body@.take(i + 1)[k]);
                        }
                    }
                }
                if !overflow {
                    if acc > (u128::MAX - d as u128) / 10 {
                        overflow = true;
                        assert(acc * 10 + d > u128::MAX) by (nonlinear_arith)
                            requires
                                acc > (u128::MAX - d as u128) / 10,
                                d <= 9,
                        ;
                    } else {
                        assert(acc * 10 + d <= u128::MAX) by (nonlinear_arith)
                            requires
                                acc <= (u128::MAX - d as u128) / 10,
                                d <= 9,
                        ;
                        acc = acc * 10 + d as u128;
                    }
                }
            },
        }
        i += 1;
    }
    proof {
        assert(body@.take(i as int) =~= body@);
    }
    if overflow {
        None
    } else {
        Some(acc)
    }
}

/// Reads an unsigned decimal numeral that fits 32 bits.
pub fn parse_u32_chars(s: &[char]) -> (r: Option<u32>)
    ensures
        match r {
            Some(n) => bounded_value(s@, u32::MAX as nat) == Some(n as nat),
            None => bounded_value(s@, u32::MAX as nat) is None,
        },
{
    match parse_u128_chars(s) {
        Some(n) => if n <= u32::MAX as u128 {
            Some(n as u32)
        } else {
            None
        },
        None => {
            proof {
                if let Some(n) = unsigned_value(s@) {
                    assert(n > u128::MAX);
                }
            }
            None
        },
    }
}

fn char_of_digit(d: u8) -> (c: char)
    requires
        d <= 9,
    ensures
        c == digit_char(d as nat),
{
    if d == 0 {
        '0'
    } else if d == 1 {
        '1'
    } else if d == 2 {
        '2'
    } else if d == 3 {
        '3'
    } else if d == 4 {
        '4'
    } else if d == 5 {
        '5'
    } else if d == 6 {
        '6'
    } else if d == 7 {
        '7'
    } else if d == 8 {
        '8'
    } else {
        '9'
    }
}

/// The decimal numeral of `n`.
pub fn decimal_chars(n: u128) -> (out: Vec<char>)
    ensures
        out@ == decimal_text(n as nat),
    decreases n,
{
    if n < 10 {
        let mut out: Vec<char> = Vec::new();
        out.push(char_of_digit(n as u8));
        assert(out@ =~= seq![digit_char(n as nat)]);
        out
    } else {
        let mut out = decimal_chars(n / 10);
        out.push(char_of_digit((n % 10) as u8));
        out
    }
}

} // verus!
