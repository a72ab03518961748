//! Numbers written in digits.

use crate::text::{chars_of, dec, hex};
use vstd::prelude::*;

verus! {

/// The value of a digit in a radix of at most 16.
pub open spec fn digit_value(c: char, radix: int) -> Option<int> {
    let v = if '0' <= c && c <= '9' {
        c as int - '0' as int
    } else if 'a' <= c && c <= 'z' {
        c as int - 'a' as int + 10
    } else if 'A' <= c && c <= 'Z' {
        c as int - 'A' as int + 10
    } else {
        radix
    };
    if v < radix {
        Some(v)
    } else {
        None
    }
}

/// The number that digits stand for; an empty text stands for zero here.
pub open spec fn digits_value(s: Seq<char>, radix: int) -> Option<int>
    decreases s.len(),
{
    if s.len() == 0 {
        Some(0)
    } else {
        match (digits_value(s.drop_last(), radix), digit_value(s.last(), radix)) {
            (Some(v), Some(d)) => Some(v * radix + d),
            _ => None,
        }
    }
}

/// The number that a non-empty run of digits stands for.
pub open spec fn magnitude(s: Seq<char>, radix: int) -> Option<int> {
    if s.len() == 0 {
        None
    } else {
        digits_value(s, radix)
    }
}

pub(crate) proof fn lemma_digits_grow(s: Seq<char>, n: int, radix: int)
    requires
        0 <= n <= s.len(),
        2 <= radix,
    ensures
        digits_value(s, radix) matches Some(v) ==> {
            &&& v >= 0
            &&& digits_value(s.subrange(0, n), radix) matches Some(w) && w <= v
        },
    decreases s.len(),
{
    if n == s.len() {
        assert(s.subrange(0, n) =~= s);
        if s.len() > 0 {
            lemma_digits_grow(s.drop_last(), 0, radix);
            if let Some(v) = digits_value(s, radix) {
                let w = digits_value(s.drop_last(), radix)->Some_0;
                assert(w * radix >= 0) by (nonlinear_arith)
                    requires
                        w >= 0,
                        radix >= 2,
                ;
            }
        }
    } else {
        lemma_digits_grow(s.drop_last(), n, radix);
        assert(s.drop_last().subrange(0, n) =~= s.subrange(0, n));
        if let Some(v) = digits_value(s, radix) {
            let w = digits_value(s.drop_last(), radix)->Some_0;
            assert(w * radix >= w) by (nonlinear_arith)
                requires
                    w >= 0,
                    radix >= 2,
            ;
        }
    }
}

fn digit_of(c: char, radix: u64) -> (r: Option<u64>)
    requires
        2 <= radix <= 16,
    ensures
        match r {
            Some(v) => digit_value(c, radix as int) == Some(v as int) && v < radix,
            None => digit_value(c, radix as int) is None,
        },
{
    let v: u64 = if '0' <= c && c <= '9' {
        c as u64 - '0' as u64
    } else if 'a' <= c && c <= 'z' {
        c as u64 - 'a' as u64 + 10
    } else if 'A' <= c && c <= 'Z' {
        c as u64 - 'A' as u64 + 10
    } else {
        radix
    };
    if v < radix {
        Some(v)
    } else {
        None
    }
}

/// The number that the digits from a position on stand for, if a 64-bit integer holds it.
pub(crate) fn read_magnitude(s: &[char], from: usize, radix: u64) -> (r: Option<u64>)
    requires
        from <= s.len(),
        2 <= radix <= 16,
    ensures
        match r {
            Some(v) => magnitude(s@.skip(from as int), radix as int) == Some(v as int),
            None => magnitude(s@.skip(from as int), radix as int) matches Some(v)
                ==> v > u64::MAX,
        },
{
    if from == s.len() {
        return None;
    }
    let ghost all = s@.skip(from as int);
    let mut value: u64 = 0;
    let mut i: usize = from;
    proof {
        assert(all.subrange(0, 0) =~= Seq::<char>::empty());
    }
    while i < s.len()
        invariant
            from <= i <= s.len(),
            2 <= radix <= 16,
            all == s@.skip(from as int),
            all.len() > 0,
            digits_value(all.subrange(0, i - from), radix as int) == Some(value as int),
        decreases s.len() - i,
    {
        proof {
            let next = all.subrange(0, i + 1 - from);
            assert(next.drop_last() =~= all.subrange(0, i - from));
            assert(next.last() == s@[i as int]);
            lemma_digits_grow(all, i + 1 - from, radix as int);
        }
        let d: u64 = match digit_of(s[i], radix) {
            Some(d) => d,
            None => {
                return None;
            },
        };
        if value > (u64::MAX - d) / radix {
            proof {
                assert(value * radix + d > u64::MAX) by (nonlinear_arith)
                    requires
                        value > (u64::MAX - d) / (radix as int),
                        2 <= radix <= 16,
                        0 <= d < radix,
                ;
            }
            return None;
        }
        proof {
            assert(value * radix + d <= u64::MAX) by (nonlinear_arith)
                requires
                    value <= (u64::MAX - d) / (radix as int),
                    2 <= radix <= 16,
                    0 <= d < radix,
            ;
            assert(value * radix >= 0) by (nonlinear_arith)
                requires
                    value >= 0,
                    radix >= 2,
            ;
        }
        value = value * radix + d;
        i += 1;
    }
    proof {
        assert(all.subrange(0, i - from) =~= all);
    }
    Some(value)
}

/// The number that digits behind an optional `+` stand for.
pub open spec fn numeral(s: Seq<char>, radix: int) -> Option<int> {
    if s.len() > 0 && s[0] == '+' {
        magnitude(s.skip(1), radix)
    } else {
        magnitude(s, radix)
    }
}

/// The number that a text stands for, if it is at most the given value.
pub open spec fn numeral_in(s: Seq<char>, radix: int, max: int) -> Option<int> {
    match numeral(s, radix) {
        Some(v) => if v <= max { Some(v) } else { None },
        None => None,
    }
}

/// The number that a text stands for, if it is at most `max`.
pub(crate) fn parse_numeral(text: &str, radix: u64, max: u64) -> (r: Option<u64>)
    requires
        2 <= radix <= 16,
    ensures
        match r {
            Some(v) => numeral_in(text@, radix as int, max as int) == Some(v as int) && v <= max,
            None => numeral_in(text@, radix as int, max as int) is None,
        },
{
    let s = chars_of(text);
    proof {
        assert(s@.skip(0) =~= s@);
    }
    let from: usize = if s.len() > 0 && s[0] == '+' {
        1
    } else {
        0
    };
    match read_magnitude(&s, from, radix) {
        Some(v) => if v <= max {
            Some(v)
        } else {
            None
        },
        None => None,
    }
}

/// Whether a text holds nothing but upper-case hexadecimal digits.
pub open spec fn is_digits(s: Seq<char>) -> bool {
    forall|i: int|
        0 <= i < s.len() ==> ('0' <= #[trigger] s[i] && s[i] <= '9') || ('A' <= s[i] && s[i] <= 'F')
}

/// Whether a text holds nothing but decimal digits.
pub open spec fn is_decimal(s: Seq<char>) -> bool {
    forall|i: int| 0 <= i < s.len() ==> '0' <= #[trigger] s[i] && s[i] <= '9'
}

/// The digits of a number stand for that number.
pub proof fn law_magnitude_of_dec(n: nat)
    ensures
        magnitude(dec(n), 10) == Some(n as int),
        dec(n).len() > 0,
        is_digits(dec(n)),
        is_decimal(dec(n)),
    decreases n,
{
    if n < 10 {
        let s = dec(n);
        assert(s.drop_last() =~= Seq::<char>::empty());
        assert(digits_value(s.drop_last(), 10) == Some(0int));
    } else {
        law_magnitude_of_dec(n / 10);
        let s = dec(n);
        assert(s.drop_last() =~= dec(n / 10));
        assert forall|i: int| 0 <= i < s.len() implies '0' <= #[trigger] s[i] && s[i] <= '9' by {
            if i < dec(n / 10).len() {
                assert(s[i] == dec(n / 10)[i]);
            }
        }
        assert forall|i: int| 0 <= i < s.len() implies ('0' <= #[trigger] s[i] && s[i] <= '9') || (
        'A' <= s[i] && s[i] <= 'F') by {
            if i < dec(n / 10).len() {
                assert(s[i] == dec(n / 10)[i]);
            }
        }
    }
}

/// The hexadecimal digits of a number stand for that number.
pub proof fn law_magnitude_of_hex(n: nat)
    ensures
        magnitude(hex(n), 16) == Some(n as int),
        hex(n).len() > 0,
        is_digits(hex(n)),
    decreases n,
{
    if n < 16 {
        let s = hex(n);
        assert(s.drop_last() =~= Seq::<char>::empty());
        assert(digits_value(s.drop_last(), 16) == Some(0int));
    } else {
        law_magnitude_of_hex(n / 16);
        let s = hex(n);
        assert(s.drop_last() =~= hex(n / 16));
        assert forall|i: int| 0 <= i < s.len() implies ('0' <= #[trigger] s[i] && s[i] <= '9') || (
        'A' <= s[i] && s[i] <= 'F') by {
            if i < hex(n / 16).len() {
                assert(s[i] == hex(n / 16)[i]);
            }
        }
    }
}

/// A number reads back from its digits, in decimal and in hexadecimal.
pub proof fn law_numeral_of_digits(n: nat)
    ensures
        numeral(dec(n), 10) == Some(n as int),
        numeral(hex(n), 16) == Some(n as int),
{
    law_magnitude_of_dec(n);
    law_magnitude_of_hex(n);
    assert(dec(n)[0] != '+');
    assert(hex(n)[0] != '+');
}

} // verus!
