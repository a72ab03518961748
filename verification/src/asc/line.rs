//! Lines and words of a text.

use crate::views::{append, none_yet, views};
use crate::text::{
    chars_of, find_line_end, is_space, line_end, same_ignore_case, eq_ignore_case, space, text_of,
    trim_end, trimmed_end,
};
use vstd::prelude::*;

verus! {

/// The lines from a position on. The last line need not have an end.
pub open spec fn lines_from(s: Seq<char>, i: int) -> Seq<Seq<char>>
    decreases s.len() - i,
{
    if i < 0 || i >= s.len() {
        Seq::empty()
    } else {
        let end = line_end(s, i);
        if i <= end < s.len() {
            seq![s.subrange(i, end)] + lines_from(s, end + 1)
        } else {
            seq![s.skip(i)]
        }
    }
}

/// The lines of a text.
pub open spec fn lines_of(s: Seq<char>) -> Seq<Seq<char>> {
    lines_from(s, 0)
}

/// The first position from the given one on that holds no whitespace.
pub open spec fn space_end(s: Seq<char>, i: int) -> int
    decreases s.len() - i,
{
    if 0 <= i < s.len() && is_space(s[i]) {
        space_end(s, i + 1)
    } else {
        i
    }
}

/// The first position from the given one on that holds whitespace.
pub open spec fn word_end(s: Seq<char>, i: int) -> int
    decreases s.len() - i,
{
    if 0 <= i < s.len() && !is_space(s[i]) {
        word_end(s, i + 1)
    } else {
        i
    }
}

/// The words from a position on, which whitespace separates.
pub open spec fn words_from(s: Seq<char>, i: int) -> Seq<Seq<char>>
    decreases s.len() - i,
{
    let start = space_end(s, i);
    if i < 0 || start >= s.len() {
        Seq::empty()
    } else {
        let end = word_end(s, start);
        if i <= start < end <= s.len() {
            seq![s.subrange(start, end)] + words_from(s, end)
        } else {
            arbitrary()
        }
    }
}

/// The words of a text.
pub open spec fn words_of(s: Seq<char>) -> Seq<Seq<char>> {
    words_from(s, 0)
}

/// A text without the whitespace at its start.
pub open spec fn trimmed_start(s: Seq<char>) -> Seq<char> {
    s.skip(space_end(s, 0))
}

/// A text without the whitespace at its start and at its end.
pub open spec fn trimmed(s: Seq<char>) -> Seq<char> {
    trimmed_end(trimmed_start(s))
}

/// Whether a text starts with a prefix, but for the case of letters.
pub open spec fn starts(s: Seq<char>, prefix: Seq<char>) -> bool {
    s.len() >= prefix.len() && same_ignore_case(s.subrange(0, prefix.len() as int), prefix)
}

/// What stands before the first whitespace, and what stands behind the whitespace there; a
/// text without whitespace is not split.
pub open spec fn split_first_of(s: Seq<char>) -> Option<(Seq<char>, Seq<char>)> {
    let i = word_end(s, 0);
    if i < s.len() {
        Some((s.subrange(0, i), trimmed_start(s.skip(i))))
    } else {
        None
    }
}

proof fn lemma_space_end(s: Seq<char>, i: int)
    requires
        0 <= i <= s.len(),
    ensures
        i <= space_end(s, i) <= s.len(),
        forall|j: int| i <= j < space_end(s, i) ==> is_space(s[j]),
        space_end(s, i) < s.len() ==> !is_space(s[space_end(s, i)]),
    decreases s.len() - i,
{
    if i < s.len() && is_space(s[i]) {
        lemma_space_end(s, i + 1);
    }
}

proof fn lemma_word_end(s: Seq<char>, i: int)
    requires
        0 <= i <= s.len(),
    ensures
        i <= word_end(s, i) <= s.len(),
        forall|j: int| i <= j < word_end(s, i) ==> !is_space(s[j]),
        word_end(s, i) < s.len() ==> is_space(s[word_end(s, i)]),
    decreases s.len() - i,
{
    if i < s.len() && !is_space(s[i]) {
        lemma_word_end(s, i + 1);
    }
}

fn find_space_end(s: &[char], from: usize) -> (r: usize)
    requires
        from <= s.len(),
    ensures
        from <= r <= s.len(),
        r == space_end(s@, from as int),
{
    let mut i: usize = from;
    while i < s.len() && space(s[i])
        invariant
            from <= i <= s.len(),
            space_end(s@, from as int) == space_end(s@, i as int),
        decreases s.len() - i,
    {
        i += 1;
    }
    i
}

fn find_word_end(s: &[char], from: usize) -> (r: usize)
    requires
        from <= s.len(),
    ensures
        from <= r <= s.len(),
        r == word_end(s@, from as int),
        from < s.len() && !is_space(s@[from as int]) ==> from < r,
{
    let mut i: usize = from;
    while i < s.len() && !space(s[i])
        invariant
            from <= i <= s.len(),
            word_end(s@, from as int) == word_end(s@, i as int),
            from < s.len() && !is_space(s@[from as int]) && i == from ==> i < s.len(),
        decreases s.len() - i,
    {
        i += 1;
    }
    i
}

/// The lines of a text.
pub(crate) fn lines(text: &str) -> (r: Vec<String>)
    ensures
        views(r@) == lines_of(text@),
{
    let s = chars_of(text);
    let mut out: Vec<String> = none_yet();
    let mut i: usize = 0;
    proof {
        assert(Seq::<Seq<char>>::empty() + lines_of(s@) =~= lines_of(s@));
    }
    while i < s.len()
        invariant
            i <= s.len(),
            s@ == text@,
            lines_of(s@) == views(out@) + lines_from(s@, i as int),
        decreases s.len() - i,
    {
        let end: usize = find_line_end(&s, i);
        let line = text_of(&s, i, end);
        let ghost before = views(out@);
        append(&mut out, line);
        proof {
            let rest = lines_from(s@, end + 1);
            assert(before + (seq![line@] + rest) =~= before.push(line@) + rest);
            if end == s@.len() {
                assert(line@ =~= s@.skip(i as int));
                assert(before + seq![line@] =~= before.push(line@) + Seq::<Seq<char>>::empty());
            }
        }
        if end < s.len() {
            i = end + 1;
        } else {
            i = end;
        }
    }
    proof {
        assert(views(out@) + Seq::<Seq<char>>::empty() =~= views(out@));
    }
    out
}

/// The words of a text.
pub(crate) fn words(text: &str) -> (r: Vec<String>)
    ensures
        views(r@) == words_of(text@),
{
    let s = chars_of(text);
    let mut out: Vec<String> = none_yet();
    let mut i: usize = 0;
    proof {
        assert(Seq::<Seq<char>>::empty() + words_of(s@) =~= words_of(s@));
    }
    loop
        invariant
            i <= s.len(),
            s@ == text@,
            words_of(s@) == views(out@) + words_from(s@, i as int),
        ensures
            words_of(s@) == views(out@),
        decreases s.len() - i,
    {
        let start: usize = find_space_end(&s, i);
        proof {
            lemma_space_end(s@, i as int);
        }
        if start == s.len() {
            proof {
                assert(views(out@) + Seq::<Seq<char>>::empty() =~= views(out@));
            }
            break;
        }
        let end: usize = find_word_end(&s, start);
        let word = text_of(&s, start, end);
        let ghost before = views(out@);
        append(&mut out, word);
        proof {
            let rest = words_from(s@, end as int);
            assert(before + (seq![word@] + rest) =~= before.push(word@) + rest);
        }
        i = end;
    }
    out
}

/// A text without the whitespace at its start and at its end.
pub(crate) fn trim(text: &str) -> (r: String)
    ensures
        r@ == trimmed(text@),
{
    let s = chars_of(text);
    let start: usize = find_space_end(&s, 0);
    let rest = text_of(&s, start, s.len());
    proof {
        assert(s@.subrange(start as int, s@.len() as int) =~= s@.skip(start as int));
    }
    trim_end(rest.as_str())
}

/// Whether a text starts with a prefix, but for the case of letters.
pub(crate) fn starts_ascii(text: &str, prefix: &str) -> (r: bool)
    ensures
        r == starts(text@, prefix@),
{
    let s = chars_of(text);
    let n: usize = prefix.unicode_len();
    if s.len() < n {
        return false;
    }
    eq_ignore_case(text_of(&s, 0, n).as_str(), prefix)
}

/// What stands behind a prefix, if the text starts with it, but for the case of letters.
pub(crate) fn strip_ascii_prefix(text: &str, prefix: &str) -> (r: Option<String>)
    ensures
        match r {
            Some(v) => starts(text@, prefix@) && v@ == text@.skip(prefix@.len() as int),
            None => !starts(text@, prefix@),
        },
{
    if !starts_ascii(text, prefix) {
        return None;
    }
    let s = chars_of(text);
    let n: usize = prefix.unicode_len();
    proof {
        assert(s@.subrange(n as int, s@.len() as int) =~= s@.skip(n as int));
    }
    Some(text_of(&s, n, s.len()))
}

/// Splits a text at its first whitespace.
pub(crate) fn split_first(text: &str) -> (r: Option<(String, String)>)
    ensures
        match r {
            Some((a, b)) => split_first_of(text@) == Some((a@, b@)),
            None => split_first_of(text@) is None,
        },
{
    let s = chars_of(text);
    let i: usize = find_word_end(&s, 0);
    if i == s.len() {
        return None;
    }
    let rest = text_of(&s, i, s.len());
    let t = chars_of(rest.as_str());
    let start: usize = find_space_end(&t, 0);
    proof {
        assert(s@.subrange(i as int, s@.len() as int) =~= s@.skip(i as int));
        assert(t@.subrange(start as int, t@.len() as int) =~= t@.skip(start as int));
    }
    Some((text_of(&s, 0, i), text_of(&t, start, t.len())))
}

} // verus!
