//! What texts are made of.

use crate::asc::line::{space_end, trimmed, trimmed_start};
use crate::text::{
    dec, dec_int, drop_nul, hex, is_space, same_ignore_case, skip_nul, trimmed_end, trimmed_nul,
    upper,
};
use vstd::prelude::*;

verus! {

/// Texts are the same but for the case of letters if they are as long as each other, and at each
/// place have the same character or the same letter from `A` to `Z` in either case.
pub proof fn law_same_but_for_case(a: Seq<char>, b: Seq<char>)
    ensures
        same_ignore_case(a, b) <==> a.len() == b.len() && forall|i: int|
            #![trigger a[i]]
            0 <= i < a.len() ==> {
                ||| a[i] == b[i]
                ||| 'a' <= a[i] && a[i] <= 'z' && b[i] as int == a[i] as int - 32
                ||| 'a' <= b[i] && b[i] <= 'z' && a[i] as int == b[i] as int - 32
            },
{
    reveal(same_ignore_case);
    if a.len() == b.len() {
        assert forall|i: int| #![trigger a[i]] 0 <= i < a.len() implies (upper(a[i]) == upper(b[i])
            <==> {
            ||| a[i] == b[i]
            ||| 'a' <= a[i] && a[i] <= 'z' && b[i] as int == a[i] as int - 32
            ||| 'a' <= b[i] && b[i] <= 'z' && a[i] as int == b[i] as int - 32
        }) by {
            lemma_upper(a[i], b[i]);
        }
    }
}

proof fn lemma_upper(x: char, y: char)
    ensures
        upper(x) == upper(y) <==> {
            ||| x == y
            ||| 'a' <= x && x <= 'z' && y as int == x as int - 32
            ||| 'a' <= y && y <= 'z' && x as int == y as int - 32
        },
{
    assert('a' <= x && x <= 'z' ==> upper(x) as int == x as int - 32);
    assert('a' <= y && y <= 'z' ==> upper(y) as int == y as int - 32);
    assert(upper(x) as int == upper(y) as int ==> upper(x) == upper(y));
}

/// A decimal number is written in the digits from `0` to `9`, and does not start with `0` unless
/// it is zero. A negative one has a minus sign before it.
pub proof fn law_decimal_form(n: nat)
    ensures
        dec(n).len() > 0,
        forall|i: int| 0 <= i < dec(n).len() ==> '0' <= #[trigger] dec(n)[i] && dec(n)[i] <= '9',
        n > 0 ==> dec(n)[0] != '0',
        dec(0) == seq!['0'],
        dec_int(n as int) == dec(n),
        n > 0 ==> dec_int(-n)[0] == '-' && dec_int(-n).skip(1) == dec(n),
    decreases n,
{
    assert(dec(0) =~= seq!['0']);
    if n >= 10 {
        law_decimal_form(n / 10);
        let s = dec(n / 10);
        assert forall|i: int| 0 <= i < dec(n).len() implies '0' <= #[trigger] dec(n)[i] && dec(n)[i]
            <= '9' by {
            if i < s.len() {
                assert(dec(n)[i] == s[i]);
            }
        }
        assert(dec(n)[0] == s[0]);
    }
    if n > 0 {
        assert(dec_int(-n).skip(1) =~= dec(n));
    }
}

/// A hexadecimal number is written in the digits from `0` to `9` and the letters from `A` to `F`,
/// and does not start with `0` unless it is zero.
pub proof fn law_hexadecimal_form(n: nat)
    ensures
        hex(n).len() > 0,
        forall|i: int|
            0 <= i < hex(n).len() ==> ('0' <= #[trigger] hex(n)[i] && hex(n)[i] <= '9') || ('A'
                <= hex(n)[i] && hex(n)[i] <= 'F'),
        n > 0 ==> hex(n)[0] != '0',
        hex(0) == seq!['0'],
    decreases n,
{
    assert(hex(0) =~= seq!['0']);
    if n >= 16 {
        law_hexadecimal_form(n / 16);
        let s = hex(n / 16);
        assert forall|i: int| 0 <= i < hex(n).len() implies ('0' <= #[trigger] hex(n)[i] && hex(
            n,
        )[i] <= '9') || ('A' <= hex(n)[i] && hex(n)[i] <= 'F') by {
            if i < s.len() {
                assert(hex(n)[i] == s[i]);
            }
        }
        assert(hex(n)[0] == s[0]);
    }
}

/// Whitespace is what Unicode says: the blank and the tab, the ends of lines and pages, and the
/// spaces of other scripts and widths.
pub proof fn law_whitespace(c: char)
    ensures
        is_space(c) <==> {
            let n = c as int;
            ||| n == 9 || n == 10 || n == 11 || n == 12 || n == 13 || n == 32
            ||| n == 0x85 || n == 0xA0 || n == 0x1680 || 0x2000 <= n <= 0x200A
            ||| n == 0x2028 || n == 0x2029 || n == 0x202F || n == 0x205F || n == 0x3000
        },
{
}

/// Trimming the end of a text takes the whitespace there, and nothing else.
pub proof fn law_end_trimmed(s: Seq<char>)
    ensures
        trimmed_end(s).len() <= s.len(),
        trimmed_end(s) == s.subrange(0, trimmed_end(s).len() as int),
        trimmed_end(s).len() > 0 ==> !is_space(trimmed_end(s).last()),
        forall|i: int| trimmed_end(s).len() <= i < s.len() ==> is_space(#[trigger] s[i]),
    decreases s.len(),
{
    if s.len() > 0 && is_space(s.last()) {
        let t = s.drop_last();
        law_end_trimmed(t);
        let n = trimmed_end(s).len() as int;
        assert(t.subrange(0, n) =~= s.subrange(0, n));
        assert forall|i: int| n <= i < s.len() implies is_space(#[trigger] s[i]) by {
            if i < t.len() {
                assert(t[i] == s[i]);
            }
        }
    } else {
        assert(s.subrange(0, s.len() as int) =~= s);
    }
}

proof fn lemma_space_end(s: Seq<char>, i: int)
    requires
        0 <= i <= s.len(),
    ensures
        i <= space_end(s, i) <= s.len(),
        forall|k: int| i <= k < space_end(s, i) ==> is_space(#[trigger] s[k]),
        space_end(s, i) < s.len() ==> !is_space(s[space_end(s, i)]),
    decreases s.len() - i,
{
    if i < s.len() && is_space(s[i]) {
        lemma_space_end(s, i + 1);
    }
}

/// Trimming a text takes the whitespace at its start and at its end, and nothing else.
pub proof fn law_trimmed(s: Seq<char>)
    ensures
        exists|from: int, to: int| {
            &&& 0 <= from <= to <= s.len()
            &&& trimmed(s) == #[trigger] s.subrange(from, to)
            &&& forall|i: int| 0 <= i < from ==> is_space(#[trigger] s[i])
            &&& forall|i: int| to <= i < s.len() ==> is_space(#[trigger] s[i])
        },
        trimmed(s).len() > 0 ==> !is_space(trimmed(s)[0]) && !is_space(trimmed(s).last()),
{
    lemma_space_end(s, 0);
    let from = space_end(s, 0);
    let t = trimmed_start(s);
    law_end_trimmed(t);
    let n = trimmed_end(t).len() as int;
    assert(trimmed(s) =~= s.subrange(from, from + n));
    assert forall|i: int| from + n <= i < s.len() implies is_space(#[trigger] s[i]) by {
        assert(t[i - from] == s[i]);
    }
    if n > 0 {
        assert(trimmed(s)[0] == s[from]);
    }
}

proof fn lemma_skip_nul(s: Seq<char>, i: int)
    requires
        0 <= i <= s.len(),
    ensures
        i <= skip_nul(s, i) <= s.len(),
        forall|k: int| i <= k < skip_nul(s, i) ==> #[trigger] s[k] == '\0',
        skip_nul(s, i) < s.len() ==> s[skip_nul(s, i)] != '\0',
    decreases s.len() - i,
{
    if i < s.len() && s[i] == '\0' {
        lemma_skip_nul(s, i + 1);
    }
}

proof fn lemma_drop_nul(s: Seq<char>, from: int, to: int)
    requires
        0 <= from <= to <= s.len(),
    ensures
        from <= drop_nul(s, from, to) <= to,
        forall|k: int| drop_nul(s, from, to) <= k < to ==> #[trigger] s[k] == '\0',
        drop_nul(s, from, to) > from ==> s[drop_nul(s, from, to) - 1] != '\0',
    decreases to - from,
{
    if from < to && s[to - 1] == '\0' {
        lemma_drop_nul(s, from, to - 1);
    }
}

/// The text of a field is its characters without the NUL characters at its start and at its end.
pub proof fn law_nul_trimmed(s: Seq<char>)
    ensures
        exists|from: int, to: int| {
            &&& 0 <= from <= to <= s.len()
            &&& trimmed_nul(s) == #[trigger] s.subrange(from, to)
            &&& forall|i: int| 0 <= i < from ==> #[trigger] s[i] == '\0'
            &&& forall|i: int| to <= i < s.len() ==> #[trigger] s[i] == '\0'
        },
        trimmed_nul(s).len() > 0 ==> trimmed_nul(s)[0] != '\0' && trimmed_nul(s).last() != '\0',
{
    lemma_skip_nul(s, 0);
    let from = skip_nul(s, 0);
    lemma_drop_nul(s, from, s.len() as int);
    let to = drop_nul(s, from, s.len() as int);
    assert(trimmed_nul(s) == s.subrange(from, to));
}

} // verus!
