//! Text building blocks: numbers in decimal and hexadecimal, characters of a
//! string, and the few conversions of std that the readers and writers use.

use vstd::prelude::*;

verus! {

/// `String::push`: the character is put behind the text.
pub assume_specification[ std::string::String::push ](s: &mut std::string::String, c: char)
    ensures
        final(s)@ == old(s)@.push(c),
;

/// What `format!("{:?}", text)` writes for a text: the text in quotes, with the
/// characters that Rust's `Debug` for `str` escapes written as escapes.
pub uninterp spec fn debug_of(text: Seq<char>) -> Seq<char>;

/// `format!` with `{:?}` on a `str`: the result is a function of the text alone.
#[verifier::external_body]
pub(crate) fn debug_text(text: &str) -> (r: String)
    ensures
        r@ == debug_of(text@),
{
    format!("{:?}", text)
}

/// What `String::from_utf8_lossy` makes of bytes that are not valid UTF-8.
pub uninterp spec fn lossy_text(bytes: Seq<u8>) -> Seq<char>;

/// The text that bytes stand for: UTF-8 where they are valid UTF-8, and otherwise the
/// text with replacement characters that std makes of them.
pub open spec fn decoded_text(bytes: Seq<u8>) -> Seq<char> {
    if vstd::utf8::valid_utf8(bytes) {
        vstd::utf8::decode_utf8(bytes)
    } else {
        lossy_text(bytes)
    }
}

/// `String::from_utf8_lossy`: bytes that are valid UTF-8 are decoded as they stand, and
/// of other bytes the result is a function of the bytes alone.
#[verifier::external_body]
pub(crate) fn utf8_lossy(bytes: &[u8]) -> (r: String)
    ensures
        vstd::utf8::valid_utf8(bytes@) ==> r@ == vstd::utf8::decode_utf8(bytes@),
        !vstd::utf8::valid_utf8(bytes@) ==> r@ == lossy_text(bytes@),
{
    String::from_utf8_lossy(bytes).into_owned()
}

/// The upper-case form of an ASCII letter; any other character is left as it is.
pub open spec fn upper(c: char) -> char {
    if 'a' <= c && c <= 'z' {
        (c as u8 - 32) as u8 as char
    } else {
        c
    }
}

/// Whether two texts differ at most in the case of ASCII letters.
#[verifier::opaque]
pub open spec fn same_ignore_case(a: Seq<char>, b: Seq<char>) -> bool {
    &&& a.len() == b.len()
    &&& forall|i: int| 0 <= i < a.len() ==> upper(#[trigger] a[i]) == upper(b[i])
}

/// The upper-case form of an ASCII letter; any other character is left as it is.
fn upper_of(c: char) -> (r: char)
    ensures
        r == upper(c),
{
    if 'a' <= c && c <= 'z' {
        (c as u8 - 32) as char
    } else {
        c
    }
}

/// Whether two texts differ at most in the case of ASCII letters.
pub(crate) fn eq_ignore_case(a: &str, b: &str) -> (r: bool)
    ensures
        r == same_ignore_case(a@, b@),
{
    proof {
        reveal(same_ignore_case);
    }
    if a.unicode_len() != b.unicode_len() {
        return false;
    }
    let s = chars_of(a);
    let t = chars_of(b);
    let mut i: usize = 0;
    while i < s.len()
        invariant
            i <= s@.len(),
            s@ == a@,
            t@ == b@,
            s@.len() == t@.len(),
            forall|j: int| 0 <= j < i ==> upper(#[trigger] a@[j]) == upper(b@[j]),
        decreases s@.len() - i,
    {
        if upper_of(s[i]) != upper_of(t[i]) {
            proof {
                lemma_differ(a@, b@, i as int);
            }
            return false;
        }
        i += 1;
    }
    true
}

/// A text is the same as itself.
pub(crate) proof fn lemma_same(a: Seq<char>)
    ensures
        same_ignore_case(a, a),
{
    reveal(same_ignore_case);
}

/// Texts of other lengths, or with another letter at an index, are not the same.
pub(crate) proof fn lemma_differ(a: Seq<char>, b: Seq<char>, i: int)
    requires
        a.len() != b.len() || (0 <= i < a.len() && upper(a[i]) != upper(b[i])),
    ensures
        !same_ignore_case(a, b),
{
    reveal(same_ignore_case);
}

/// Whether two texts are the same.
pub(crate) fn same_text(a: &str, b: &str) -> (r: bool)
    ensures
        r == (a@ == b@),
{
    if a.unicode_len() != b.unicode_len() {
        return false;
    }
    let s = chars_of(a);
    let t = chars_of(b);
    let mut i: usize = 0;
    while i < s.len()
        invariant
            i <= s@.len(),
            s@ == a@,
            t@ == b@,
            s@.len() == t@.len(),
            forall|j: int| 0 <= j < i ==> #[trigger] a@[j] == b@[j],
        decreases s@.len() - i,
    {
        if s[i] != t[i] {
            return false;
        }
        i += 1;
    }
    proof {
        assert(a@ =~= b@);
    }
    true
}

/// The character that stands for a digit below 16 in upper-case hexadecimal.
pub open spec fn digit_char(d: nat) -> char
    recommends
        d < 16,
{
    if d < 10 {
        (48 + d) as u8 as char
    } else {
        (55 + d) as u8 as char
    }
}

/// The decimal digits of a number, without leading zeros.
pub open spec fn dec(n: nat) -> Seq<char>
    decreases n,
{
    if n < 10 {
        seq![digit_char(n)]
    } else {
        dec(n / 10).push(digit_char(n % 10))
    }
}

/// The decimal form of an integer, with a sign in front of a negative one.
pub open spec fn dec_int(n: int) -> Seq<char> {
    if n < 0 {
        seq!['-'] + dec((-n) as nat)
    } else {
        dec(n as nat)
    }
}

/// The upper-case hexadecimal digits of a number, without leading zeros.
pub open spec fn hex(n: nat) -> Seq<char>
    decreases n,
{
    if n < 16 {
        seq![digit_char(n)]
    } else {
        hex(n / 16).push(digit_char(n % 16))
    }
}

pub(crate) fn digit(d: u64) -> (c: char)
    requires
        d < 16,
    ensures
        c == digit_char(d as nat),
{
    if d < 10 {
        (48 + d) as u8 as char
    } else {
        (55 + d) as u8 as char
    }
}

/// Puts the decimal digits of `n` behind the text.
pub fn push_dec(out: &mut String, n: u64)
    ensures
        final(out)@ == old(out)@ + dec(n as nat),
    decreases n,
{
    if n >= 10 {
        push_dec(out, n / 10);
    }
    out.push(digit(n % 10));
    proof {
        assert(out@ =~= old(out)@ + dec(n as nat));
    }
}

/// Puts the decimal form of `n` behind the text.
pub fn push_dec_int(out: &mut String, n: i64)
    ensures
        final(out)@ == old(out)@ + dec_int(n as int),
{
    if n < 0 {
        out.push('-');
        push_dec(out, (-(n as i128)) as u64);
        proof {
            assert(out@ =~= old(out)@ + dec_int(n as int));
        }
    } else {
        push_dec(out, n as u64);
    }
}

/// Puts the upper-case hexadecimal digits of `n` behind the text.
pub fn push_hex(out: &mut String, n: u64)
    ensures
        final(out)@ == old(out)@ + hex(n as nat),
    decreases n,
{
    if n >= 16 {
        push_hex(out, n / 16);
    }
    out.push(digit(n % 16));
    proof {
        assert(out@ =~= old(out)@ + hex(n as nat));
    }
}

/// A number in decimal.
pub fn dec_text(n: u64) -> (r: String)
    ensures
        r@ == dec(n as nat),
{
    let mut out = String::new();
    push_dec(&mut out, n);
    proof {
        assert(out@ =~= dec(n as nat));
    }
    out
}

/// A wide number in decimal.
pub fn dec_wide_text(n: u128) -> (r: String)
    ensures
        r@ == dec(n as nat),
    decreases n,
{
    if n >= 10 {
        let mut out = dec_wide_text(n / 10);
        out.push(digit((n % 10) as u64));
        proof {
            assert(out@ =~= dec(n as nat));
        }
        out
    } else {
        dec_text(n as u64)
    }
}

/// A signed number in decimal.
pub fn dec_int_text(n: i64) -> (r: String)
    ensures
        r@ == dec_int(n as int),
{
    let mut out = String::new();
    push_dec_int(&mut out, n);
    proof {
        assert(out@ =~= dec_int(n as int));
    }
    out
}

/// A number in upper-case hexadecimal.
pub fn hex_text(n: u64) -> (r: String)
    ensures
        r@ == hex(n as nat),
{
    let mut out = String::new();
    push_hex(&mut out, n);
    proof {
        assert(out@ =~= hex(n as nat));
    }
    out
}

/// The characters of a text, one by one.
pub fn chars_of(s: &str) -> (r: Vec<char>)
    ensures
        r@ == s@,
{
    let mut r: Vec<char> = Vec::new();
    for c in it: s.chars()
        invariant
            it.seq() == s@,
            r@ == s@.subrange(0, it.index() as int),
    {
        r.push(c);
        proof {
            assert(r@ =~= s@.subrange(0, it.index() + 1));
        }
    }
    proof {
        assert(s@.subrange(0, s@.len() as int) =~= s@);
    }
    r
}

/// The text made of the characters from `from` up to `to`.
pub fn text_of(chars: &[char], from: usize, to: usize) -> (r: String)
    requires
        from <= to <= chars.len(),
    ensures
        r@ == chars@.subrange(from as int, to as int),
{
    let mut r = String::new();
    let mut i: usize = from;
    while i < to
        invariant
            from <= i <= to <= chars.len(),
            r@ == chars@.subrange(from as int, i as int),
        decreases to - i,
    {
        r.push(chars[i]);
        i += 1;
        proof {
            assert(r@ =~= chars@.subrange(from as int, i as int));
        }
    }
    r
}

/// Where the line that holds the position ends.
pub open spec fn line_end(s: Seq<char>, i: int) -> int
    decreases s.len() - i,
{
    if i >= s.len() || s[i] == '\n' {
        i
    } else {
        line_end(s, i + 1)
    }
}

/// Where the line that holds a position ends.
pub(crate) fn find_line_end(s: &[char], from: usize) -> (r: usize)
    requires
        from < s.len(),
    ensures
        from <= r <= s.len(),
        s@[from as int] != '\n' ==> from < r,
        r == line_end(s@, from as int),
{
    let mut i: usize = from;
    while i < s.len() && s[i] != '\n'
        invariant
            from <= i <= s.len(),
            line_end(s@, from as int) == line_end(s@, i as int),
        decreases s.len() - i,
    {
        i += 1;
    }
    i
}

/// Whitespace as Unicode defines it.
pub open spec fn is_space(c: char) -> bool {
    let n = c as u32;
    ||| 9 <= n <= 13
    ||| n == 0x20
    ||| n == 0x85
    ||| n == 0xA0
    ||| n == 0x1680
    ||| 0x2000 <= n <= 0x200A
    ||| n == 0x2028
    ||| n == 0x2029
    ||| n == 0x202F
    ||| n == 0x205F
    ||| n == 0x3000
}

/// A text without the whitespace at its end.
pub open spec fn trimmed_end(s: Seq<char>) -> Seq<char>
    decreases s.len(),
{
    if s.len() > 0 && is_space(s.last()) {
        trimmed_end(s.drop_last())
    } else {
        s
    }
}

/// Whether a character is whitespace as Unicode defines it.
pub(crate) fn space(c: char) -> (r: bool)
    ensures
        r == is_space(c),
{
    let n: u32 = c as u32;
    (9 <= n && n <= 13) || n == 0x20 || n == 0x85 || n == 0xA0 || n == 0x1680 || (0x2000 <= n && n
        <= 0x200A) || n == 0x2028 || n == 0x2029 || n == 0x202F || n == 0x205F || n == 0x3000
}

/// A copy of a text without the whitespace at its end.
pub(crate) fn trim_end(text: &str) -> (r: String)
    ensures
        r@ == trimmed_end(text@),
{
    let s = chars_of(text);
    let mut end: usize = s.len();
    proof {
        assert(s@.subrange(0, end as int) =~= s@);
    }
    while end > 0 && space(s[end - 1])
        invariant
            end <= s.len(),
            trimmed_end(s@) == trimmed_end(s@.subrange(0, end as int)),
        decreases end,
    {
        proof {
            let now = s@.subrange(0, end as int);
            assert(now.drop_last() =~= s@.subrange(0, end - 1));
            assert(now.last() == s@[end - 1]);
        }
        end -= 1;
    }
    proof {
        let now = s@.subrange(0, end as int);
        if end > 0 {
            assert(now.last() == s@[end - 1]);
        }
    }
    text_of(&s, 0, end)
}

/// The first index at or behind `from` at which the text does not hold NUL.
pub open spec fn skip_nul(s: Seq<char>, from: int) -> int
    decreases s.len() - from,
{
    if 0 <= from < s.len() && s[from] == '\0' {
        skip_nul(s, from + 1)
    } else {
        from
    }
}

/// The end of the text before `to` without the NUL characters that stand there.
pub open spec fn drop_nul(s: Seq<char>, from: int, to: int) -> int
    decreases to - from,
{
    if 0 <= from < to <= s.len() && s[to - 1] == '\0' {
        drop_nul(s, from, to - 1)
    } else {
        to
    }
}

/// The text without the NUL characters at its start and at its end.
pub open spec fn trimmed_nul(s: Seq<char>) -> Seq<char> {
    let from = skip_nul(s, 0);
    s.subrange(from, drop_nul(s, from, s.len() as int))
}

/// The text without the NUL characters at its start and at its end.
pub fn trim_nul(s: &str) -> (r: String)
    ensures
        r@ == trimmed_nul(s@),
{
    let chars = chars_of(s);
    let mut from: usize = 0;
    while from < chars.len() && chars[from] == '\0'
        invariant
            from <= chars.len(),
            skip_nul(chars@, from as int) == skip_nul(chars@, 0),
        decreases chars.len() - from,
    {
        from += 1;
    }
    let mut to: usize = chars.len();
    while from < to && chars[to - 1] == '\0'
        invariant
            from <= to <= chars.len(),
            drop_nul(chars@, from as int, to as int) == drop_nul(
                chars@,
                from as int,
                chars.len() as int,
            ),
        decreases to - from,
    {
        to -= 1;
    }
    text_of(&chars, from, to)
}

/// A text that neither starts nor ends with NUL is left as it is.
pub proof fn lemma_trimmed_nul_same(s: Seq<char>)
    requires
        s.len() > 0 ==> s[0] != '\0' && s[s.len() - 1] != '\0',
    ensures
        trimmed_nul(s) == s,
{
    assert(s.subrange(0, s.len() as int) =~= s);
}

} // verus!
