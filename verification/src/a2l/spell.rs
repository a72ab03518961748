//! How a text spells tokens: what is written token by token is found again token by token.

use crate::a2l::error::Failure;
use crate::a2l::token::{
    bare, comment_end, ends_word, is_blank, lex, lexed_after, string_end, tokens_of, word_end,
    Lexed, Tok,
};
use crate::a2l::writer::{escaped, escaped_char, quoted, repeated, unescaped, unescaped_from, Page};
use crate::text::line_end;
use vstd::prelude::*;

verus! {

/// Tokens by their texts alone.
pub open spec fn bares(s: Seq<Tok>) -> Seq<Tok> {
    Seq::new(s.len(), |i: int| bare(s[i]))
}

/// A word as a token.
pub open spec fn plain(text: Seq<char>) -> Tok {
    Tok { text, line: 0, quoted: false, number: None, joint: None }
}

/// The content of a string as a token.
pub open spec fn string(text: Seq<char>) -> Tok {
    Tok { text, line: 0, quoted: true, number: None, joint: None }
}

/// The tokens of a text by their texts alone, if it has tokens.
pub open spec fn marks(s: Seq<char>) -> Option<Seq<Tok>> {
    match lex(s, 0, 1) {
        Ok(t) => Some(bares(t)),
        Err(_) => None,
    }
}

/// Tokens behind others.
pub open spec fn put_before(x: Seq<Tok>, m: Option<Seq<Tok>>) -> Option<Seq<Tok>> {
    match m {
        Some(y) => Some(x + y),
        None => None,
    }
}

/// Whether a text is a word: it has characters, none of them ends a word, and it does not
/// start a comment.
pub open spec fn is_word_text(w: Seq<char>) -> bool {
    &&& w.len() > 0
    &&& forall|i: int| 0 <= i < w.len() ==> !ends_word(#[trigger] w[i])
    &&& !(w.len() > 1 && w[0] == '/' && (w[1] == '/' || w[1] == '*'))
}

/// Whether a text can stand between quotes as it is.
pub open spec fn is_content(c: Seq<char>) -> bool {
    string_end(c + seq!['"'], 0, 0) matches Some((end, _)) && end == c.len()
}

proof fn lemma_line_end_shift(s: Seq<char>, i: int, k: int)
    requires
        0 <= k <= i,
        k <= s.len(),
    ensures
        line_end(s, i) == k + line_end(s.skip(k), i - k),
    decreases s.len() - i,
{
    if i < s.len() {
        assert(s.skip(k)[i - k] == s[i]);
        if s[i] != '\n' {
            lemma_line_end_shift(s, i + 1, k);
        }
    }
}

proof fn lemma_word_end_shift(s: Seq<char>, i: int, k: int)
    requires
        0 <= k <= i,
        k <= s.len(),
    ensures
        word_end(s, i) == k + word_end(s.skip(k), i - k),
    decreases s.len() - i,
{
    if i < s.len() {
        assert(s.skip(k)[i - k] == s[i]);
        if !ends_word(s[i]) {
            lemma_word_end_shift(s, i + 1, k);
        }
    }
}

/// A place that is found in the rest of a text.
spec fn shifted(m: Option<(int, int)>, k: int) -> Option<(int, int)> {
    match m {
        Some((e, l)) => Some((e + k, l)),
        None => None,
    }
}

proof fn lemma_comment_end_shift(s: Seq<char>, i: int, line: int, k: int)
    requires
        0 <= k <= i,
        k <= s.len(),
    ensures
        comment_end(s, i, line) == shifted(comment_end(s.skip(k), i - k, line), k),
    decreases s.len() - i,
{
    if i < s.len() {
        let t = s.skip(k);
        assert(t[i - k] == s[i]);
        if i + 1 < s.len() {
            assert(t[i + 1 - k] == s[i + 1]);
        }
        if !(s[i] == '*' && i + 1 < s.len() && s[i + 1] == '/') {
            lemma_comment_end_shift(s, i + 1, if s[i] == '\n' { line + 1 } else { line }, k);
        }
    }
}

proof fn lemma_string_end_shift(s: Seq<char>, i: int, line: int, k: int)
    requires
        0 <= k <= i,
        k <= s.len(),
    ensures
        string_end(s, i, line) == shifted(string_end(s.skip(k), i - k, line), k),
    decreases s.len() - i,
{
    if i < s.len() {
        let t = s.skip(k);
        assert(t[i - k] == s[i]);
        if s[i] == '\\' {
            if i + 2 <= s.len() {
                lemma_string_end_shift(s, i + 2, line, k);
            }
        } else if s[i] != '"' {
            lemma_string_end_shift(s, i + 1, if s[i] == '\n' { line + 1 } else { line }, k);
        }
    }
}

/// What is found from a position on depends on nothing before it.
proof fn lemma_lex_shift(s: Seq<char>, i: int, line: int, k: int)
    requires
        0 <= k <= i,
        k <= s.len(),
    ensures
        lex(s, i, line) == lex(s.skip(k), i - k, line),
    decreases s.len() - i,
{
    let t = s.skip(k);
    if i < s.len() {
        assert(t[i - k] == s[i]);
        if i + 1 < s.len() {
            assert(t[i + 1 - k] == s[i + 1]);
        }
        if s[i] == '\n' {
            lemma_lex_shift(s, i + 1, line + 1, k);
        } else if is_blank(s[i]) {
            lemma_lex_shift(s, i + 1, line, k);
        } else if s[i] == '/' && i + 1 < s.len() && s[i + 1] == '/' {
            lemma_line_end_shift(s, i, k);
            lemma_line_end(s, i);
            lemma_lex_shift(s, line_end(s, i), line, k);
        } else if s[i] == '/' && i + 1 < s.len() && s[i + 1] == '*' {
            lemma_comment_end_shift(s, i + 2, line, k);
            lemma_comment_end(s, i + 2, line);
            if let Some((end, l)) = comment_end(s, i + 2, line) {
                lemma_lex_shift(s, end, l, k);
            }
        } else if s[i] == '"' {
            lemma_string_end_shift(s, i + 1, line, k);
            lemma_string_end(s, i + 1, line);
            if let Some((end, l)) = string_end(s, i + 1, line) {
                lemma_lex_shift(s, end + 1, l, k);
                assert(s.subrange(i + 1, end) =~= t.subrange(i + 1 - k, end - k));
            }
        } else {
            lemma_word_end_shift(s, i, k);
            lemma_word_end(s, i);
            let end = word_end(s, i);
            lemma_lex_shift(s, end, line, k);
            assert(s.subrange(i, end) =~= t.subrange(i - k, end - k));
        }
    }
}

proof fn lemma_line_end(s: Seq<char>, i: int)
    requires
        0 <= i <= s.len(),
    ensures
        i <= line_end(s, i) <= s.len(),
        i < s.len() && s[i] != '\n' ==> i < line_end(s, i),
    decreases s.len() - i,
{
    if i < s.len() && s[i] != '\n' {
        lemma_line_end(s, i + 1);
    }
}

proof fn lemma_word_end(s: Seq<char>, i: int)
    requires
        0 <= i <= s.len(),
    ensures
        i <= word_end(s, i) <= s.len(),
        i < s.len() && !ends_word(s[i]) ==> i < word_end(s, i),
    decreases s.len() - i,
{
    if i < s.len() && !ends_word(s[i]) {
        lemma_word_end(s, i + 1);
    }
}

proof fn lemma_comment_end(s: Seq<char>, i: int, line: int)
    requires
        0 <= i <= s.len(),
    ensures
        comment_end(s, i, line) matches Some((end, _)) ==> i < end <= s.len(),
    decreases s.len() - i,
{
    if i < s.len() && !(s[i] == '*' && i + 1 < s.len() && s[i + 1] == '/') {
        lemma_comment_end(s, i + 1, if s[i] == '\n' { line + 1 } else { line });
    }
}

proof fn lemma_string_end(s: Seq<char>, i: int, line: int)
    requires
        0 <= i <= s.len(),
    ensures
        string_end(s, i, line) matches Some((end, _)) ==> i <= end < s.len() && s[end] == '"',
    decreases s.len() - i,
{
    if i < s.len() {
        if s[i] == '\\' {
            if i + 2 <= s.len() {
                lemma_string_end(s, i + 2, line);
            }
        } else if s[i] != '"' {
            lemma_string_end(s, i + 1, if s[i] == '\n' { line + 1 } else { line });
        }
    }
}

/// Whether two places are the same but for their lines.
spec fn same_place(a: Option<(int, int)>, b: Option<(int, int)>) -> bool {
    match (a, b) {
        (Some((x, _)), Some((y, _))) => x == y,
        (None, None) => true,
        _ => false,
    }
}

proof fn lemma_comment_end_lines(s: Seq<char>, i: int, l: int, m: int)
    ensures
        same_place(comment_end(s, i, l), comment_end(s, i, m)),
    decreases s.len() - i,
{
    if i < s.len() && !(s[i] == '*' && i + 1 < s.len() && s[i + 1] == '/') {
        lemma_comment_end_lines(
            s,
            i + 1,
            if s[i] == '\n' { l + 1 } else { l },
            if s[i] == '\n' { m + 1 } else { m },
        );
    }
}

proof fn lemma_string_end_lines(s: Seq<char>, i: int, l: int, m: int)
    ensures
        same_place(string_end(s, i, l), string_end(s, i, m)),
    decreases s.len() - i,
{
    if i < s.len() {
        if s[i] == '\\' {
            if i + 2 <= s.len() {
                lemma_string_end_lines(s, i + 2, l, m);
            }
        } else if s[i] != '"' {
            lemma_string_end_lines(
                s,
                i + 1,
                if s[i] == '\n' { l + 1 } else { l },
                if s[i] == '\n' { m + 1 } else { m },
            );
        }
    }
}

/// Whether two lists of tokens are the same but for their lines.
spec fn same_lexed(a: Lexed, b: Lexed) -> bool {
    match (a, b) {
        (Ok(x), Ok(y)) => bares(x) == bares(y),
        (Err(_), Err(_)) => true,
        _ => false,
    }
}

/// Which tokens are found does not depend on the line that the text starts in.
proof fn lemma_lex_lines(s: Seq<char>, i: int, l: int, m: int)
    ensures
        same_lexed(lex(s, i, l), lex(s, i, m)),
    decreases s.len() - i,
{
    if 0 <= i < s.len() {
        if s[i] == '\n' {
            lemma_lex_lines(s, i + 1, l + 1, m + 1);
        } else if is_blank(s[i]) {
            lemma_lex_lines(s, i + 1, l, m);
        } else if s[i] == '/' && i + 1 < s.len() && s[i + 1] == '/' {
            lemma_line_end(s, i);
            lemma_lex_lines(s, line_end(s, i), l, m);
        } else if s[i] == '/' && i + 1 < s.len() && s[i + 1] == '*' {
            lemma_comment_end_lines(s, i + 2, l, m);
            lemma_comment_end(s, i + 2, l);
            if let Some((end, l2)) = comment_end(s, i + 2, l) {
                let m2 = comment_end(s, i + 2, m)->Some_0.1;
                lemma_lex_lines(s, end, l2, m2);
            }
        } else if s[i] == '"' {
            lemma_string_end_lines(s, i + 1, l, m);
            lemma_string_end(s, i + 1, l);
            if let Some((end, l2)) = string_end(s, i + 1, l) {
                let m2 = string_end(s, i + 1, m)->Some_0.1;
                lemma_lex_lines(s, end + 1, l2, m2);
                lemma_same_after(
                    Tok { text: s.subrange(i + 1, end), line: l, quoted: true, number: None, joint: None },
                    Tok { text: s.subrange(i + 1, end), line: m, quoted: true, number: None, joint: None },
                    lex(s, end + 1, l2),
                    lex(s, end + 1, m2),
                );
            }
        } else {
            lemma_word_end(s, i);
            let end = word_end(s, i);
            lemma_lex_lines(s, end, l, m);
            lemma_same_after(
                Tok { text: s.subrange(i, end), line: l, quoted: false, number: None, joint: None },
                Tok { text: s.subrange(i, end), line: m, quoted: false, number: None, joint: None },
                lex(s, end, l),
                lex(s, end, m),
            );
        }
    } else {
        assert(bares(Seq::<Tok>::empty()) =~= bares(Seq::<Tok>::empty()));
    }
}

proof fn lemma_same_after(t: Tok, u: Tok, a: Lexed, b: Lexed)
    requires
        bare(t) == bare(u),
        same_lexed(a, b),
    ensures
        same_lexed(lexed_after(t, a), lexed_after(u, b)),
{
    if let (Ok(x), Ok(y)) = (a, b) {
        assert(bares(seq![t] + x) =~= seq![bare(t)] + bares(x));
        assert(bares(seq![u] + y) =~= seq![bare(u)] + bares(y));
    }
}

/// The tokens behind a position are those of the rest of the text.
proof fn lemma_marks_from(s: Seq<char>, i: int, line: int)
    requires
        0 <= i <= s.len(),
    ensures
        match lex(s, i, line) {
            Ok(t) => marks(s.skip(i)) == Some(bares(t)),
            Err(_) => marks(s.skip(i)) is None,
        },
{
    lemma_lex_shift(s, i, line, i);
    lemma_lex_lines(s.skip(i), 0, line, 1);
}

/// A blank before a text changes nothing.
pub(crate) proof fn lemma_marks_blank(b: char, s: Seq<char>)
    requires
        is_blank(b) || b == '\n',
    ensures
        marks(seq![b] + s) == marks(s),
{
    let t = seq![b] + s;
    assert(t.skip(1) =~= s);
    lemma_marks_from(t, 1, if b == '\n' { 2 } else { 1 });
}

/// Blanks before a text change nothing.
pub(crate) proof fn lemma_marks_blanks(b: Seq<char>, s: Seq<char>)
    requires
        forall|i: int| 0 <= i < b.len() ==> is_blank(#[trigger] b[i]),
    ensures
        marks(b + s) == marks(s),
    decreases b.len(),
{
    if b.len() == 0 {
        assert(b + s =~= s);
    } else {
        let c = b.drop_first();
        assert forall|i: int| 0 <= i < c.len() implies is_blank(#[trigger] c[i]) by {
            assert(c[i] == b[i + 1]);
        }
        lemma_marks_blanks(c, s);
        assert(is_blank(b[0]));
        lemma_marks_blank(b[0], c + s);
        assert(b + s =~= seq![b[0]] + (c + s));
    }
}

proof fn lemma_word_end_at(w: Seq<char>, s: Seq<char>, i: int)
    requires
        0 <= i <= w.len(),
        forall|j: int| 0 <= j < w.len() ==> !ends_word(#[trigger] w[j]),
        s.len() > 0,
        ends_word(s[0]),
    ensures
        word_end(w + s, i) == w.len(),
    decreases w.len() - i,
{
    if i < w.len() {
        assert((w + s)[i] == w[i]);
        lemma_word_end_at(w, s, i + 1);
    } else {
        assert((w + s)[i] == s[0]);
    }
}

/// A word before a text that ends it is a token before those of the text.
pub(crate) proof fn lemma_marks_word(w: Seq<char>, s: Seq<char>)
    requires
        is_word_text(w),
        s.len() > 0,
        ends_word(s[0]),
    ensures
        marks(w + s) == put_before(seq![plain(w)], marks(s)),
{
    let t = w + s;
    assert(!ends_word(w[0]));
    assert(t[0] == w[0]);
    if t.len() > 1 {
        if w.len() > 1 {
            assert(t[1] == w[1]);
        } else {
            assert(t[1] == s[0]);
        }
    }
    lemma_word_end_at(w, s, 0);
    assert(t.subrange(0, w.len() as int) =~= w);
    assert(t.skip(w.len() as int) =~= s);
    lemma_marks_from(t, w.len() as int, 1);
    if let Ok(rest) = lex(t, w.len() as int, 1) {
        let first = Tok { text: w, line: 1, quoted: false, number: None, joint: None };
        assert(bares(seq![first] + rest) =~= seq![plain(w)] + bares(rest));
    }
}

proof fn lemma_string_end_more(a: Seq<char>, b: Seq<char>, i: int, line: int)
    requires
        0 <= i,
        string_end(a, i, line) is Some,
    ensures
        string_end(a + b, i, line) == string_end(a, i, line),
    decreases a.len() - i,
{
    assert((a + b)[i] == a[i]);
    if a[i] == '\\' {
        lemma_string_end_more(a, b, i + 2, line);
    } else if a[i] != '"' {
        lemma_string_end_more(a, b, i + 1, if a[i] == '\n' { line + 1 } else { line });
    }
}

/// A string before a text is a token before those of the text.
proof fn lemma_marks_string(c: Seq<char>, s: Seq<char>)
    requires
        is_content(c),
    ensures
        marks(seq!['"'] + c + seq!['"'] + s) == put_before(seq![string(c)], marks(s)),
{
    let t = seq!['"'] + c + seq!['"'] + s;
    let inner = c + seq!['"'];
    lemma_string_end_lines(inner, 0, 0, 1);
    lemma_string_end_more(inner, s, 0, 1);
    assert(t.skip(1) =~= inner + s);
    lemma_string_end_shift(t, 1, 1, 1);
    let (end, l) = string_end(t, 1, 1)->Some_0;
    assert(end == c.len() + 1);
    assert(t.subrange(1, end) =~= c);
    assert(t.skip(end + 1) =~= s);
    lemma_marks_from(t, end + 1, l);
    if let Ok(rest) = lex(t, end + 1, l) {
        let first = Tok { text: c, line: 1, quoted: true, number: None, joint: None };
        assert(bares(seq![first] + rest) =~= seq![string(c)] + bares(rest));
    }
}

/// What stands for a text starts with what stands for its first character.
proof fn lemma_escaped_first(s: Seq<char>)
    requires
        s.len() > 0,
    ensures
        escaped(s) == escaped_char(s[0]) + escaped(s.drop_first()),
    decreases s.len(),
{
    if s.len() == 1 {
        assert(s.drop_last() =~= Seq::<char>::empty());
        assert(s.drop_first() =~= Seq::<char>::empty());
        assert(Seq::<char>::empty() + escaped_char(s[0]) =~= escaped_char(s[0])
            + Seq::<char>::empty());
    } else {
        lemma_escaped_first(s.drop_last());
        assert(s.drop_last().drop_first() =~= s.drop_first().drop_last());
        assert(s.drop_first().last() == s.last());
        assert(escaped_char(s[0]) + escaped(s.drop_first().drop_last()) + escaped_char(s.last())
            =~= escaped_char(s[0]) + (escaped(s.drop_first().drop_last()) + escaped_char(
            s.last(),
        )));
    }
}

proof fn lemma_unescaped_from(p: Seq<char>, s: Seq<char>)
    ensures
        unescaped_from(p + escaped(s), p.len() as int) == s,
    decreases s.len(),
{
    let t = p + escaped(s);
    if s.len() == 0 {
        assert(s =~= Seq::<char>::empty());
    } else {
        lemma_escaped_first(s);
        let e = escaped_char(s[0]);
        let rest = s.drop_first();
        lemma_unescaped_from(p + e, rest);
        assert(p + e + escaped(rest) =~= t);
        assert(t[p.len() as int] == e[0]);
        if e.len() == 2 {
            assert(t[p.len() as int + 1] == e[1]);
        }
        assert(seq![s[0]] + rest =~= s);
    }
}

/// A text that is escaped and then unescaped is the text that it was.
pub proof fn law_unescaped_of_escaped(s: Seq<char>)
    ensures
        unescaped(escaped(s)) == s,
{
    lemma_unescaped_from(Seq::empty(), s);
    assert(Seq::<char>::empty() + escaped(s) =~= escaped(s));
}

proof fn lemma_escaped_content(p: Seq<char>, s: Seq<char>, line: int)
    ensures
        string_end(p + escaped(s) + seq!['"'], p.len() as int, line) == Some(
            ((p.len() + escaped(s).len()) as int, line),
        ),
    decreases s.len(),
{
    let t = p + escaped(s) + seq!['"'];
    if s.len() == 0 {
        assert(t[p.len() as int] == '"');
    } else {
        lemma_escaped_first(s);
        let e = escaped_char(s[0]);
        let rest = s.drop_first();
        lemma_escaped_content(p + e, rest, line);
        assert(p + e + escaped(rest) + seq!['"'] =~= t);
        assert(t[p.len() as int] == e[0]);
    }
}

/// A text that is escaped can stand between quotes.
pub proof fn law_escaped_is_content(s: Seq<char>)
    ensures
        is_content(escaped(s)),
{
    lemma_escaped_content(Seq::empty(), s, 0);
    assert(Seq::<char>::empty() + escaped(s) + seq!['"'] =~= escaped(s) + seq!['"']);
}

/// A quoted text is one token: a string that holds the text with its escapes.
pub proof fn law_quoted_is_one_token(s: Seq<char>)
    ensures
        tokens_of(quoted(s)) == Ok::<Seq<Tok>, Failure>(
            seq![Tok { text: escaped(s), line: 1, quoted: true, number: None, joint: None }],
        ),
{
    let c = escaped(s);
    let q = quoted(s);
    reveal_strlit("\"");
    law_escaped_is_content(s);
    assert(q =~= seq!['"'] + (c + seq!['"']));
    lemma_string_end_shift(q, 1, 1, 1);
    assert(q.skip(1) =~= c + seq!['"']);
    lemma_string_end_lines(c + seq!['"'], 0, 0, 1);
    let end = string_end(q, 1, 1)->Some_0;
    assert(end.0 == q.len() - 1);
    assert(q.subrange(1, end.0) =~= c);
    assert(lex(q, end.0 + 1, end.1) == Ok::<Seq<Tok>, Failure>(Seq::empty()));
    let t = Tok { text: c, line: 1, quoted: true, number: None, joint: None };
    assert(seq![t] + Seq::<Tok>::empty() =~= seq![t]);
}

/// Whether a character stands for itself in a string.
pub open spec fn stands_for_itself(c: char) -> bool {
    c != '\n' && c != '\r' && c != '\t' && c != '\\' && c != '"'
}

/// An escaped text holds no line ends and no tabs, and it is the text itself just where every
/// character of the text stands for itself.
pub proof fn law_escaped_same(s: Seq<char>)
    ensures
        forall|i: int|
            0 <= i < escaped(s).len() ==> #[trigger] escaped(s)[i] != '\n' && escaped(s)[i] != '\r'
                && escaped(s)[i] != '\t',
        escaped(s).len() >= s.len(),
        escaped(s).len() == s.len() <==> escaped(s) == s,
        escaped(s) == s <==> forall|i: int| 0 <= i < s.len() ==> stands_for_itself(#[trigger] s[i]),
    decreases s.len(),
{
    if s.len() > 0 {
        let t = s.drop_last();
        law_escaped_same(t);
        let e = escaped(s);
        assert forall|i: int| 0 <= i < e.len() implies #[trigger] e[i] != '\n' && e[i] != '\r'
            && e[i] != '\t' by {
            if i < escaped(t).len() {
                assert(e[i] == escaped(t)[i]);
            } else {
                assert(e[i] == escaped_char(s.last())[i - escaped(t).len()]);
            }
        }
        if e.len() == s.len() {
            assert(escaped(t) == t);
            assert(e =~= s);
        }
        if forall|i: int| 0 <= i < s.len() ==> stands_for_itself(#[trigger] s[i]) {
            assert forall|i: int| 0 <= i < t.len() implies stands_for_itself(#[trigger] t[i]) by {
                assert(stands_for_itself(s[i]));
            }
            assert(stands_for_itself(s[s.len() - 1]));
        }
        if e == s {
            assert(escaped(t).len() == t.len());
            assert forall|i: int| 0 <= i < s.len() implies stands_for_itself(#[trigger] s[i]) by {
                if i < t.len() {
                    assert(stands_for_itself(t[i]));
                }
            }
        }
    } else {
        assert(escaped(s) =~= s);
    }
}

/// Whether a text spells tokens wherever a blank or the end of a line follows it.
#[verifier::opaque]
pub open spec fn spells(a: Seq<char>, x: Seq<Tok>) -> bool {
    forall|rest: Seq<char>|
        #![trigger marks(a + rest)]
        rest.len() > 0 && (rest[0] == ' ' || rest[0] == '\n') ==> marks(a + rest) == put_before(
            x,
            marks(rest),
        )
}

/// A word spells itself.
pub proof fn lemma_spells_word(w: Seq<char>)
    requires
        is_word_text(w),
    ensures
        spells(w, seq![plain(w)]),
{
    reveal(spells);
    assert forall|rest: Seq<char>|
        #![trigger marks(w + rest)]
        rest.len() > 0 && (rest[0] == ' ' || rest[0] == '\n') implies marks(w + rest)
        == put_before(seq![plain(w)], marks(rest)) by {
        lemma_marks_word(w, rest);
    }
}

/// What can stand between quotes spells a string there.
pub proof fn lemma_spells_content(c: Seq<char>)
    requires
        is_content(c),
    ensures
        spells("\""@ + c + "\""@, seq![string(c)]),
{
    reveal(spells);
    reveal_strlit("\"");
    assert("\""@ =~= seq!['"']);
    assert forall|rest: Seq<char>|
        #![trigger marks("\""@ + c + "\""@ + rest)]
        rest.len() > 0 && (rest[0] == ' ' || rest[0] == '\n') implies marks(
        "\""@ + c + "\""@ + rest,
    ) == put_before(seq![string(c)], marks(rest)) by {
        lemma_marks_string(c, rest);
    }
}

/// A quoted text spells the text with its escapes.
pub proof fn lemma_spells_quoted(s: Seq<char>)
    ensures
        spells(quoted(s), seq![string(escaped(s))]),
{
    law_escaped_is_content(s);
    lemma_spells_content(escaped(s));
}

/// Texts with a blank between them spell the tokens of both.
pub proof fn lemma_spells_join(a: Seq<char>, x: Seq<Tok>, b: Seq<char>, y: Seq<Tok>)
    requires
        spells(a, x),
        spells(b, y),
    ensures
        spells(a + " "@ + b, x + y),
{
    reveal(spells);
    reveal_strlit(" ");
    assert(" "@ =~= seq![' ']);
    let t = a + " "@ + b;
    assert forall|rest: Seq<char>|
        #![trigger marks(t + rest)]
        rest.len() > 0 && (rest[0] == ' ' || rest[0] == '\n') implies marks(t + rest)
        == put_before(x + y, marks(rest)) by {
        let tail = seq![' '] + (b + rest);
        assert(t + rest =~= a + tail);
        assert(marks(a + tail) == put_before(x, marks(tail)));
        lemma_marks_blank(' ', b + rest);
        assert(marks(b + rest) == put_before(y, marks(rest)));
        if let Some(z) = marks(rest) {
            assert(x + (y + z) =~= (x + y) + z);
        }
    }
}

/// Whether a text adds tokens before those of whatever follows it.
#[verifier::opaque]
pub open spec fn adds(d: Seq<char>, x: Seq<Tok>) -> bool {
    forall|rest: Seq<char>| #![trigger marks(d + rest)] marks(d + rest) == put_before(x, marks(rest))
}

/// Whether a page is another one with tokens behind it.
pub open spec fn shows(p: Page, q: Page, x: Seq<Tok>) -> bool {
    &&& p.text.len() <= q.text.len()
    &&& q.text.subrange(0, p.text.len() as int) == p.text
    &&& adds(q.text.skip(p.text.len() as int), x)
    &&& q.style == p.style
}

/// Whether lines are indented by blanks.
pub open spec fn indents_by_blanks(p: Page) -> bool {
    forall|i: int| 0 <= i < p.style.indent.len() ==> is_blank(#[trigger] p.style.indent[i])
}

/// A page shows nothing more than itself.
pub proof fn lemma_shows_nothing(p: Page)
    ensures
        shows(p, p, Seq::empty()),
{
    reveal(adds);
    let d = p.text.skip(p.text.len() as int);
    assert(p.text.subrange(0, p.text.len() as int) =~= p.text);
    assert forall|rest: Seq<char>| #![trigger marks(d + rest)] marks(d + rest) == put_before(
        Seq::empty(),
        marks(rest),
    ) by {
        assert(d + rest =~= rest);
        if let Some(z) = marks(rest) {
            assert(Seq::<Tok>::empty() + z =~= z);
        }
    }
}

/// What is shown one after the other is shown together.
pub proof fn lemma_shows_join(p: Page, q: Page, r: Page, x: Seq<Tok>, y: Seq<Tok>)
    requires
        shows(p, q, x),
        shows(q, r, y),
    ensures
        shows(p, r, x + y),
{
    reveal(adds);
    let d = q.text.skip(p.text.len() as int);
    let e = r.text.skip(q.text.len() as int);
    let f = r.text.skip(p.text.len() as int);
    assert forall|i: int| 0 <= i < q.text.len() implies q.text[i] == r.text[i] by {
        assert(r.text.subrange(0, q.text.len() as int)[i] == q.text[i]);
    }
    assert(f =~= d + e);
    assert forall|i: int| 0 <= i < p.text.len() implies p.text[i] == q.text[i] by {
        assert(q.text.subrange(0, p.text.len() as int)[i] == p.text[i]);
    }
    assert(r.text.subrange(0, p.text.len() as int) =~= p.text);
    assert forall|rest: Seq<char>| #![trigger marks(f + rest)] marks(f + rest) == put_before(
        x + y,
        marks(rest),
    ) by {
        assert(f + rest =~= d + (e + rest));
        assert(marks(d + (e + rest)) == put_before(x, marks(e + rest)));
        assert(marks(e + rest) == put_before(y, marks(rest)));
        if let Some(z) = marks(rest) {
            assert(x + (y + z) =~= (x + y) + z);
        }
    }
}

pub(crate) proof fn lemma_repeated_blank(s: Seq<char>, n: nat)
    requires
        forall|i: int| 0 <= i < s.len() ==> is_blank(#[trigger] s[i]),
    ensures
        forall|i: int| 0 <= i < repeated(s, n).len() ==> is_blank(#[trigger] repeated(s, n)[i]),
    decreases n,
{
    if n > 0 {
        let before = repeated(s, (n - 1) as nat);
        lemma_repeated_blank(s, (n - 1) as nat);
        assert forall|i: int| 0 <= i < repeated(s, n).len() implies is_blank(
            #[trigger] repeated(s, n)[i],
        ) by {
            if i < before.len() {
                assert(repeated(s, n)[i] == before[i]);
            } else {
                assert(repeated(s, n)[i] == s[i - before.len()]);
            }
        }
    }
}

/// A line shows the tokens that it spells.
pub proof fn lemma_shows_line(p: Page, s: Seq<char>, x: Seq<Tok>)
    requires
        spells(s, x),
        indents_by_blanks(p),
    ensures
        shows(p, p.line(s), x),
        p.line(s).depth == p.depth,
        p.line(s).style == p.style,
{
    reveal(Page::line);
    reveal(adds);
    reveal(spells);
    reveal_strlit("\n");
    assert("\n"@ =~= seq!['\n']);
    let q = p.line(s);
    let m = p.margin();
    let d = q.text.skip(p.text.len() as int);
    assert(d =~= m + s + seq!['\n']);
    assert(q.text.subrange(0, p.text.len() as int) =~= p.text);
    lemma_repeated_blank(p.style.indent, p.depth);
    assert forall|rest: Seq<char>| #![trigger marks(d + rest)] marks(d + rest) == put_before(
        x,
        marks(rest),
    ) by {
        let tail = seq!['\n'] + rest;
        assert(d + rest =~= m + (s + tail));
        lemma_marks_blanks(m, s + tail);
        assert(marks(s + tail) == put_before(x, marks(tail)));
        lemma_marks_blank('\n', rest);
    }
}

/// An empty line shows nothing.
pub proof fn lemma_shows_blank(p: Page)
    ensures
        shows(p, p.blank(), Seq::empty()),
{
    reveal(adds);
    reveal_strlit("\n");
    assert("\n"@ =~= seq!['\n']);
    let q = p.blank();
    let d = q.text.skip(p.text.len() as int);
    assert(d =~= seq!['\n']);
    assert(q.text.subrange(0, p.text.len() as int) =~= p.text);
    assert forall|rest: Seq<char>| #![trigger marks(d + rest)] marks(d + rest) == put_before(
        Seq::empty(),
        marks(rest),
    ) by {
        lemma_marks_blank('\n', rest);
        if let Some(z) = marks(rest) {
            assert(Seq::<Tok>::empty() + z =~= z);
        }
    }
}

/// The tokens of a text that shows tokens on an empty page.
pub proof fn lemma_marks_of_shown(p: Page, q: Page, x: Seq<Tok>)
    requires
        p.text.len() == 0,
        shows(p, q, x),
    ensures
        marks(q.text) == Some(x),
{
    reveal(adds);
    let d = q.text.skip(0);
    let none = Seq::<char>::empty();
    assert(d + none =~= q.text);
    assert(marks(d + none) == put_before(x, marks(none)));
    assert(bares(Seq::<Tok>::empty()) =~= Seq::<Tok>::empty());
    assert(x + Seq::<Tok>::empty() =~= x);
}

} // verus!
