//! How a text spells words: what is written word by word is found again word by word.

use crate::asc::line::{space_end, word_end, words_from, words_of};
use crate::asc::write::{blanks, bytes_text, byte_text, words_text};
use crate::asc::record::NumberBase;
use crate::text::is_space;
use vstd::prelude::*;

verus! {

/// Whether a text is a word.
#[verifier::opaque]
pub open spec fn is_word(w: Seq<char>) -> bool {
    w.len() > 0 && forall|i: int| 0 <= i < w.len() ==> !is_space(#[trigger] w[i])
}

/// Whether a text is made of whitespace.
#[verifier::opaque]
pub open spec fn is_gap(g: Seq<char>) -> bool {
    forall|i: int| 0 <= i < g.len() ==> is_space(#[trigger] g[i])
}

proof fn lemma_space_end_shift(s: Seq<char>, i: int, k: int)
    requires
        0 <= k <= i,
        k <= s.len(),
    ensures
        space_end(s, i) == k + space_end(s.skip(k), i - k),
    decreases s.len() - i,
{
    if i < s.len() {
        assert(s.skip(k)[i - k] == s[i]);
        if is_space(s[i]) {
            lemma_space_end_shift(s, i + 1, k);
        }
    }
}

proof fn lemma_word_end_shift(s: Seq<char>, i: int, k: int)
    requires
        0 <= k <= i,
        k <= s.len(),
    ensures
        word_end(s, i) == k + word_end(s.skip(k), i - k),
    decreases s.len() - i,
{
    if i < s.len() {
        assert(s.skip(k)[i - k] == s[i]);
        if !is_space(s[i]) {
            lemma_word_end_shift(s, i + 1, k);
        }
    }
}

pub(crate) proof fn lemma_space_end(s: Seq<char>, i: int)
    requires
        0 <= i <= s.len(),
    ensures
        i <= space_end(s, i) <= s.len(),
        space_end(s, i) < s.len() ==> !is_space(s[space_end(s, i)]),
    decreases s.len() - i,
{
    if i < s.len() && is_space(s[i]) {
        lemma_space_end(s, i + 1);
    }
}

pub(crate) proof fn lemma_word_end(s: Seq<char>, i: int)
    requires
        0 <= i <= s.len(),
    ensures
        i <= word_end(s, i) <= s.len(),
        i < s.len() && !is_space(s[i]) ==> i < word_end(s, i),
    decreases s.len() - i,
{
    if i < s.len() && !is_space(s[i]) {
        lemma_word_end(s, i + 1);
    }
}

/// The words from a position on depend on nothing before it.
proof fn lemma_words_shift(s: Seq<char>, i: int, k: int)
    requires
        0 <= k <= i <= s.len(),
    ensures
        words_from(s, i) == words_from(s.skip(k), i - k),
    decreases s.len() - i,
{
    let t = s.skip(k);
    lemma_space_end_shift(s, i, k);
    lemma_space_end(s, i);
    let start = space_end(s, i);
    if start < s.len() {
        lemma_word_end_shift(s, start, k);
        lemma_word_end(s, start);
        let end = word_end(s, start);
        assert(s.subrange(start, end) =~= t.subrange(start - k, end - k));
        lemma_words_shift(s, end, k);
    }
}

proof fn lemma_space_end_at(g: Seq<char>, s: Seq<char>, i: int)
    requires
        0 <= i <= g.len(),
        is_gap(g),
    ensures
        space_end(g + s, i) == g.len() + space_end(s, 0),
    decreases g.len() - i,
{
    reveal(is_gap);
    let t = g + s;
    if i < g.len() {
        assert(t[i] == g[i]);
        lemma_space_end_at(g, s, i + 1);
    } else {
        assert(t.skip(g.len() as int) =~= s);
        lemma_space_end_shift(t, i, g.len() as int);
    }
}

/// Whitespace before a text changes nothing.
pub(crate) proof fn lemma_words_gap(g: Seq<char>, s: Seq<char>)
    requires
        is_gap(g),
    ensures
        words_of(g + s) == words_of(s),
{
    let t = g + s;
    let n = g.len() as int;
    lemma_space_end_at(g, s, 0);
    lemma_space_end(s, 0);
    assert(t.skip(n) =~= s);
    lemma_words_shift(t, n, n);
    lemma_space_end_shift(t, n, n);
    assert(space_end(t, 0) == space_end(t, n));
}

proof fn lemma_word_end_at(w: Seq<char>, s: Seq<char>, i: int)
    requires
        0 <= i <= w.len(),
        is_word(w),
        s.len() == 0 || is_space(s[0]),
    ensures
        word_end(w + s, i) == w.len(),
    decreases w.len() - i,
{
    reveal(is_word);
    let t = w + s;
    if i < w.len() {
        assert(t[i] == w[i]);
        lemma_word_end_at(w, s, i + 1);
    } else if s.len() > 0 {
        assert(t[i] == s[0]);
    }
}

/// A word before the end of a text or whitespace is the first word.
pub(crate) proof fn lemma_words_word(w: Seq<char>, s: Seq<char>)
    requires
        is_word(w),
        s.len() == 0 || is_space(s[0]),
    ensures
        words_of(w + s) == seq![w] + words_of(s),
{
    reveal(is_word);
    let t = w + s;
    let n = w.len() as int;
    assert(t[0] == w[0]);
    assert(!is_space(w[0]));
    lemma_word_end_at(w, s, 0);
    assert(t.subrange(0, n) =~= w);
    assert(t.skip(n) =~= s);
    lemma_words_shift(t, n, n);
}

/// Whether a text spells words wherever whitespace or the end follows it.
#[verifier::opaque]
pub open spec fn word_spells(a: Seq<char>, x: Seq<Seq<char>>) -> bool {
    forall|rest: Seq<char>|
        #![trigger words_of(a + rest)]
        rest.len() == 0 || is_space(rest[0]) ==> words_of(a + rest) == x + words_of(rest)
}

/// The words of a text are those that it spells.
pub(crate) proof fn lemma_words_spelled(a: Seq<char>, x: Seq<Seq<char>>)
    requires
        word_spells(a, x),
    ensures
        words_of(a) == x,
{
    reveal(word_spells);
    let none = Seq::<char>::empty();
    assert(a + none =~= a);
    assert(words_of(a + none) == x + words_of(none));
    assert(words_of(none) =~= Seq::<Seq<char>>::empty());
    assert(x + Seq::<Seq<char>>::empty() =~= x);
}

/// A word spells itself.
pub(crate) proof fn lemma_word_spelled(w: Seq<char>)
    requires
        is_word(w),
    ensures
        word_spells(w, seq![w]),
{
    reveal(word_spells);
    assert forall|rest: Seq<char>|
        #![trigger words_of(w + rest)]
        rest.len() == 0 || is_space(rest[0]) implies words_of(w + rest) == seq![w] + words_of(
        rest,
    ) by {
        lemma_words_word(w, rest);
    }
}

/// Texts with whitespace between them spell the words of both.
pub(crate) proof fn lemma_join_spelled(
    a: Seq<char>,
    x: Seq<Seq<char>>,
    g: Seq<char>,
    b: Seq<char>,
    y: Seq<Seq<char>>,
)
    requires
        word_spells(a, x),
        word_spells(b, y),
        is_gap(g),
        g.len() > 0,
    ensures
        word_spells(a + g + b, x + y),
{
    reveal(word_spells);
    reveal(is_gap);
    let t = a + g + b;
    assert forall|rest: Seq<char>|
        #![trigger words_of(t + rest)]
        rest.len() == 0 || is_space(rest[0]) implies words_of(t + rest) == (x + y) + words_of(
        rest,
    ) by {
        let tail = g + (b + rest);
        assert(t + rest =~= a + tail);
        assert(tail[0] == g[0]);
        assert(words_of(a + tail) == x + words_of(tail));
        lemma_words_gap(g, b + rest);
        assert(words_of(b + rest) == y + words_of(rest));
        assert(x + (y + words_of(rest)) =~= (x + y) + words_of(rest));
    }
}

/// Blanks are whitespace.
pub(crate) proof fn lemma_blanks_gap(n: int)
    ensures
        is_gap(blanks(n)),
    decreases n,
{
    reveal(is_gap);
    if n > 0 {
        lemma_blanks_gap(n - 1);
    }
}

/// One blank and two blanks are whitespace.
pub(crate) proof fn lemma_blank_gap()
    ensures
        is_gap(" "@),
        is_gap("  "@),
        " "@.len() == 1,
        "  "@.len() == 2,
{
    reveal(is_gap);
    reveal_strlit(" ");
    reveal_strlit("  ");
}

/// Whitespace behind whitespace is whitespace.
pub(crate) proof fn lemma_gap_join(a: Seq<char>, b: Seq<char>)
    requires
        is_gap(a),
        is_gap(b),
    ensures
        is_gap(a + b),
{
    reveal(is_gap);
    assert forall|i: int| 0 <= i < (a + b).len() implies is_space(#[trigger] (a + b)[i]) by {
        if i < a.len() {
            assert((a + b)[i] == a[i]);
        } else {
            assert((a + b)[i] == b[i - a.len()]);
        }
    }
}

/// Words behind a text, each behind a blank.
pub(crate) proof fn lemma_words_behind(a: Seq<char>, x: Seq<Seq<char>>, s: Seq<Seq<char>>, n: int)
    requires
        0 <= n <= s.len(),
        word_spells(a, x),
        forall|i: int| 0 <= i < s.len() ==> is_word(#[trigger] s[i]),
    ensures
        word_spells(a + words_text(s, n), x + s.subrange(0, n)),
    decreases n,
{
    if n == 0 {
        assert(a + words_text(s, 0) =~= a);
        assert(x + s.subrange(0, 0) =~= x);
    } else {
        lemma_blank_gap();
        lemma_words_behind(a, x, s, n - 1);
        assert(is_word(s[n - 1]));
        lemma_word_spelled(s[n - 1]);
        lemma_join_spelled(
            a + words_text(s, n - 1),
            x + s.subrange(0, n - 1),
            " "@,
            s[n - 1],
            seq![s[n - 1]],
        );
        assert(a + words_text(s, n) =~= a + words_text(s, n - 1) + " "@ + s[n - 1]);
        assert(x + s.subrange(0, n) =~= x + s.subrange(0, n - 1) + seq![s[n - 1]]);
    }
}

/// Bytes as words.
pub open spec fn byte_words(data: Seq<u8>, base: NumberBase) -> Seq<Seq<char>> {
    Seq::new(data.len(), |i: int| byte_text(data[i], base))
}

/// Bytes are written as their words.
pub(crate) proof fn lemma_bytes_as_words(data: Seq<u8>, n: int, base: NumberBase)
    requires
        0 <= n <= data.len(),
    ensures
        bytes_text(data, n, base) == words_text(byte_words(data, base), n),
    decreases n,
{
    if n > 0 {
        lemma_bytes_as_words(data, n - 1, base);
    }
}

} // verus!
