//! What the texts, tokens and blocks of A2L stand for.

use crate::a2l::block::{all_named, children_of, first_named, params_of, Tree, TreeItem};
use crate::a2l::error::Failure;
use crate::a2l::model::annotation::joined;
use crate::a2l::params::{
    int_in, integer, read_float, read_ident, read_int, read_string, read_token, read_uint, read_word,
    uint_in, Cur,
};
use crate::a2l::token::{comment_end, lex, line_ends, string_end, word_end, Tok};
use crate::a2l::writer::{
    escaped, escaped_char, in_columns, repeated, tag_value_on, unescaped, unescaped_from, Page,
};
use crate::numeral::{digit_value, digits_value, magnitude};
use crate::text::{line_end, same_ignore_case};
use vstd::prelude::*;

verus! {

/// Blanks, tabs and carriage returns are passed over; the end of a line starts the next one.
pub proof fn law_space_passed(s: Seq<char>, i: int, line: int)
    requires
        0 <= i < s.len(),
    ensures
        s[i] == ' ' || s[i] == '\t' || s[i] == '\r' ==> lex(s, i, line) == lex(s, i + 1, line),
        s[i] == '\n' ==> lex(s, i, line) == lex(s, i + 1, line + 1),
        lex(s, s.len() as int, line) == Ok::<Seq<Tok>, Failure>(Seq::empty()),
{
}

proof fn lemma_line_end_is(s: Seq<char>, i: int, end: int)
    requires
        0 <= i <= end <= s.len(),
        forall|k: int| i <= k < end ==> #[trigger] s[k] != '\n',
        end == s.len() || s[end] == '\n',
    ensures
        line_end(s, i) == end,
    decreases end - i,
{
    if i < end {
        lemma_line_end_is(s, i + 1, end);
    }
}

/// A comment behind two slashes is passed over up to the end of its line.
pub proof fn law_line_comment_passed(s: Seq<char>, i: int, line: int, end: int)
    requires
        0 <= i,
        i + 2 <= end <= s.len(),
        s[i] == '/',
        s[i + 1] == '/',
        forall|k: int| i <= k < end ==> #[trigger] s[k] != '\n',
        end == s.len() || s[end] == '\n',
    ensures
        lex(s, i, line) == lex(s, end, line),
{
    lemma_line_end_is(s, i, end);
}

proof fn lemma_comment_end_is(s: Seq<char>, i: int, line: int, end: int)
    requires
        0 <= i <= end,
        end + 2 <= s.len(),
        s[end] == '*',
        s[end + 1] == '/',
        forall|k: int| i <= k < end ==> !(#[trigger] s[k] == '*' && s[k + 1] == '/'),
    ensures
        comment_end(s, i, line) == Some((end + 2, line + line_ends(s, i) - line_ends(s, end + 2))),
    decreases end - i,
{
    if i < end {
        assert(!(s[i] == '*' && s[i + 1] == '/'));
        lemma_comment_end_is(s, i + 1, if s[i] == '\n' { line + 1 } else { line }, end);
    } else {
        assert(line_ends(s, end) == line_ends(s, end + 1));
        assert(line_ends(s, end + 1) == line_ends(s, end + 2));
    }
}

proof fn lemma_comment_open(s: Seq<char>, i: int, line: int)
    requires
        0 <= i,
        forall|k: int| i <= k < s.len() - 1 ==> !(#[trigger] s[k] == '*' && s[k + 1] == '/'),
    ensures
        comment_end(s, i, line) is None,
    decreases s.len() - i,
{
    if i < s.len() {
        lemma_comment_open(s, i + 1, if s[i] == '\n' { line + 1 } else { line });
    }
}

/// A comment between `/*` and the next `*/` is passed over, and the ends of lines within it
/// count. One that does not end is refused with the line in which it starts.
pub proof fn law_block_comment_passed(s: Seq<char>, i: int, line: int, end: int)
    requires
        0 <= i,
        i + 2 <= s.len(),
        s[i] == '/',
        s[i + 1] == '*',
    ensures
        i + 2 <= end && end + 2 <= s.len() && s[end] == '*' && s[end + 1] == '/' && (forall|k: int|
            i + 2 <= k < end ==> !(#[trigger] s[k] == '*' && s[k + 1] == '/')) ==> lex(s, i, line)
            == lex(s, end + 2, line + line_ends(s, i + 2) - line_ends(s, end + 2)),
        (forall|k: int|
            i + 2 <= k < s.len() - 1 ==> !(#[trigger] s[k] == '*' && s[k + 1] == '/')) ==> (lex(
            s,
            i,
            line,
        ) matches Err(Failure::Parse(l, _)) && l == line),
{
    if i + 2 <= end && end + 2 <= s.len() && s[end] == '*' && s[end + 1] == '/' && (forall|k: int|
        i + 2 <= k < end ==> !(#[trigger] s[k] == '*' && s[k + 1] == '/')) {
        lemma_comment_end_is(s, i + 2, line, end);
    }
    if forall|k: int|
        i + 2 <= k < s.len() - 1 ==> !(#[trigger] s[k] == '*' && s[k + 1] == '/') {
        lemma_comment_open(s, i + 2, line);
    }
}

proof fn lemma_word_end_is(s: Seq<char>, i: int, end: int)
    requires
        0 <= i <= end <= s.len(),
        forall|k: int|
            i <= k < end ==> #[trigger] s[k] != ' ' && s[k] != '\t' && s[k] != '\r' && s[k] != '\n'
                && s[k] != '"',
        end == s.len() || s[end] == ' ' || s[end] == '\t' || s[end] == '\r' || s[end] == '\n'
            || s[end] == '"',
    ensures
        word_end(s, i) == end,
    decreases end - i,
{
    if i < end {
        lemma_word_end_is(s, i + 1, end);
    }
}

/// What stands up to the next space or quote, and starts no comment, is a word in its line.
pub proof fn law_word_found(s: Seq<char>, i: int, line: int, end: int)
    requires
        0 <= i < end <= s.len(),
        !(s[i] == '/' && i + 1 < s.len() && (s[i + 1] == '/' || s[i + 1] == '*')),
        forall|k: int|
            i <= k < end ==> #[trigger] s[k] != ' ' && s[k] != '\t' && s[k] != '\r' && s[k] != '\n'
                && s[k] != '"',
        end == s.len() || s[end] == ' ' || s[end] == '\t' || s[end] == '\r' || s[end] == '\n'
            || s[end] == '"',
    ensures
        match lex(s, end, line) {
            Ok(rest) => lex(s, i, line) matches Ok(all) && {
                &&& all.len() == rest.len() + 1
                &&& all.drop_first() == rest
                &&& all[0].text == s.subrange(i, end)
                &&& all[0].line == line
                &&& !all[0].quoted
            },
            Err(f) => lex(s, i, line) == Err::<Seq<Tok>, Failure>(f),
        },
{
    lemma_word_end_is(s, i, end);
    assert(s[i] != ' ');
    if let Ok(rest) = lex(s, end, line) {
        let all = lex(s, i, line)->Ok_0;
        assert(all.drop_first() =~= rest);
    }
}

proof fn lemma_string_end_is(s: Seq<char>, i: int, line: int, end: int)
    requires
        0 <= i <= end < s.len(),
        forall|k: int| i <= k < end ==> #[trigger] s[k] != '"' && s[k] != '\\',
        s[end] == '"',
    ensures
        string_end(s, i, line) == Some((end, line + line_ends(s, i) - line_ends(s, end))),
    decreases end - i,
{
    if i < end {
        lemma_string_end_is(s, i + 1, if s[i] == '\n' { line + 1 } else { line }, end);
    }
}

proof fn lemma_string_open(s: Seq<char>, i: int, line: int)
    requires
        0 <= i,
        forall|k: int| i <= k < s.len() ==> #[trigger] s[k] != '"',
    ensures
        string_end(s, i, line) is None,
    decreases s.len() - i,
{
    if i < s.len() {
        if s[i] == '\\' {
            if i + 2 <= s.len() {
                lemma_string_open(s, i + 2, line);
            }
        } else {
            lemma_string_open(s, i + 1, if s[i] == '\n' { line + 1 } else { line });
        }
    }
}

/// What stands between two quotes, with no other quote and no backslash between them, is a string
/// in the line in which it starts. A string that does not end is refused with that line.
pub proof fn law_string_found(s: Seq<char>, i: int, line: int, end: int)
    requires
        0 <= i < s.len(),
        s[i] == '"',
    ensures
        i < end < s.len() && s[end] == '"' && (forall|k: int|
            i + 1 <= k < end ==> #[trigger] s[k] != '"' && s[k] != '\\') ==> match lex(
            s,
            end + 1,
            line + line_ends(s, i + 1) - line_ends(s, end),
        ) {
            Ok(rest) => lex(s, i, line) matches Ok(all) && {
                &&& all.len() == rest.len() + 1
                &&& all.drop_first() == rest
                &&& all[0].text == s.subrange(i + 1, end)
                &&& all[0].line == line
                &&& all[0].quoted
            },
            Err(f) => lex(s, i, line) == Err::<Seq<Tok>, Failure>(f),
        },
        (forall|k: int| i + 1 <= k < s.len() ==> #[trigger] s[k] != '"') ==> (lex(
            s,
            i,
            line,
        ) matches Err(Failure::Parse(l, _)) && l == line),
{
    if i < end < s.len() && s[end] == '"' && (forall|k: int|
        i + 1 <= k < end ==> #[trigger] s[k] != '"' && s[k] != '\\') {
        lemma_string_end_is(s, i + 1, line, end);
        if let Ok(rest) = lex(s, end + 1, line + line_ends(s, i + 1) - line_ends(s, end)) {
            let all = lex(s, i, line)->Ok_0;
            assert(all.drop_first() =~= rest);
        }
    }
    if forall|k: int| i + 1 <= k < s.len() ==> #[trigger] s[k] != '"' {
        lemma_string_open(s, i + 1, line);
    }
}

/// Line ends are counted from a position on.
pub proof fn law_line_ends(s: Seq<char>, i: int)
    requires
        0 <= i < s.len(),
    ensures
        line_ends(s, i) == line_ends(s, i + 1) + if s[i] == '\n' { 1int } else { 0 },
        line_ends(s, s.len() as int) == 0,
{
}

/// The digits of decimal and hexadecimal numbers: those of hexadecimal ones may be of either
/// case. A number is ten or sixteen times that of its digits but the last, and that digit.
pub proof fn law_digits(s: Seq<char>, c: char)
    ensures
        digit_value(c, 10) == if '0' <= c && c <= '9' { Some(c as int - 48) } else { None },
        digit_value(c, 16) == if '0' <= c && c <= '9' {
            Some(c as int - 48)
        } else if 'a' <= c && c <= 'f' {
            Some(c as int - 87)
        } else if 'A' <= c && c <= 'F' {
            Some(c as int - 55)
        } else {
            None
        },
        forall|radix: int|
            #![trigger digits_value(s.push(c), radix)]
            digits_value(s.push(c), radix) == match (digits_value(s, radix), digit_value(c, radix)) {
                (Some(v), Some(d)) => Some(v * radix + d),
                _ => None,
            },
        forall|radix: int| #[trigger] digits_value(Seq::empty(), radix) == Some(0int),
{
    assert(s.push(c).drop_last() =~= s);
}

/// An integer is decimal, or hexadecimal behind `0x`. It may have a plus sign and, where a sign
/// is allowed, a minus sign, which makes it negative; both stand behind the `0x`.
pub proof fn law_integer(s: Seq<char>, signed: bool)
    ensures
        s.len() >= 2 && s[0] == '0' && (s[1] == 'x' || s[1] == 'X') ==> {
            let b = s.skip(2);
            &&& b.len() > 0 && b[0] == '+' ==> integer(s, signed) == magnitude(b.skip(1), 16)
            &&& b.len() > 0 && b[0] == '-' && signed ==> integer(s, signed) == match magnitude(
                b.skip(1),
                16,
            ) {
                Some(v) => Some(-v),
                None => None,
            }
            &&& !(b.len() > 0 && (b[0] == '+' || b[0] == '-')) ==> integer(s, signed) == magnitude(
                b,
                16,
            )
        },
        !(s.len() >= 2 && s[0] == '0' && (s[1] == 'x' || s[1] == 'X')) ==> {
            &&& s.len() > 0 && s[0] == '+' ==> integer(s, signed) == magnitude(s.skip(1), 10)
            &&& s.len() > 0 && s[0] == '-' && signed ==> integer(s, signed) == match magnitude(
                s.skip(1),
                10,
            ) {
                Some(v) => Some(-v),
                None => None,
            }
            &&& !(s.len() > 0 && (s[0] == '+' || s[0] == '-')) ==> integer(s, signed) == magnitude(
                s,
                10,
            )
        },
        s.len() == 0 ==> integer(s, signed) is None,
{
}

/// An integer that a parameter holds is read if it is within the limits of its type, and refused
/// otherwise.
pub proof fn law_integer_within(s: Seq<char>, min: int, max: int)
    ensures
        uint_in(s, max) matches Some(v) ==> integer(s, false) == Some(v) && v <= max,
        uint_in(s, max) is None ==> (integer(s, false) matches Some(v) ==> v > max),
        int_in(s, min, max) matches Some(v) ==> integer(s, true) == Some(v) && min <= v <= max,
        int_in(s, min, max) is None ==> (integer(s, true) matches Some(v) ==> v < min || v > max),
{
}

/// Parameters are read one by one: each reading takes the next one, and fails with its line if it
/// is not what is expected, or if there is none. A string has its escapes replaced; a name is
/// taken as it stands; a keyword is one in either case that is not quoted.
pub proof fn law_parameter_read(c: Cur, tag: Seq<char>, min: int, max: int)
    requires
        0 <= c.pos,
    ensures
        c.pos < c.toks.len() ==> {
            let t = c.toks[c.pos];
            let n = Cur { pos: c.pos + 1, ..c };
            &&& read_token(c) == Ok::<(Tok, Cur), Failure>((t, n))
            &&& read_ident(c) == Ok::<(Seq<char>, Cur), Failure>((t.text, n))
            &&& read_string(c) == Ok::<(Seq<char>, Cur), Failure>((unescaped(t.text), n))
            &&& match read_uint(c, max) {
                Ok((v, m)) => m == n && integer(t.text, false) == Some(v) && v <= max,
                Err(Failure::Parse(line, _)) => line == t.line && (integer(
                    t.text,
                    false,
                ) matches Some(v) ==> v > max),
                Err(_) => false,
            }
            &&& match read_int(c, min, max) {
                Ok((v, m)) => m == n && integer(t.text, true) == Some(v) && min <= v <= max,
                Err(Failure::Parse(line, _)) => line == t.line && (integer(
                    t.text,
                    true,
                ) matches Some(v) ==> v < min || v > max),
                Err(_) => false,
            }
            &&& match read_float(c) {
                Ok((x, m)) => m == n && t.number == Some(x),
                Err(Failure::Parse(line, _)) => line == t.line && t.number is None,
                Err(_) => false,
            }
            &&& match read_word(c, tag) {
                Ok((_, m)) => m == n && !t.quoted && same_ignore_case(t.text, tag),
                Err(Failure::Parse(line, _)) => line == t.line && (t.quoted || !same_ignore_case(
                    t.text,
                    tag,
                )),
                Err(_) => false,
            }
            &&& c.at(tag) <==> !t.quoted && same_ignore_case(t.text, tag)
        },
        c.pos >= c.toks.len() ==> {
            &&& read_token(c) is Err
            &&& read_ident(c) is Err
            &&& read_string(c) is Err
            &&& read_uint(c, max) is Err
            &&& read_int(c, min, max) is Err
            &&& read_float(c) is Err
            &&& read_word(c, tag) is Err
            &&& !c.at(tag)
        },
{
}

/// The blocks and the parameters of items are those of the first and then those of the others.
pub proof fn law_items_parted(a: Seq<TreeItem>, b: Seq<TreeItem>, t: Tok, child: Tree)
    ensures
        children_of(a + b) == children_of(a) + children_of(b),
        params_of(a + b) == params_of(a) + params_of(b),
        children_of(seq![TreeItem::Child(child)]) == seq![child],
        children_of(seq![TreeItem::Param(t)]).len() == 0,
        params_of(seq![TreeItem::Param(t)]) == seq![t],
        params_of(seq![TreeItem::Child(child)]).len() == 0,
    decreases b.len(),
{
    let x = seq![TreeItem::Child(child)];
    let y = seq![TreeItem::Param(t)];
    assert(x.drop_last() =~= Seq::<TreeItem>::empty());
    assert(y.drop_last() =~= Seq::<TreeItem>::empty());
    assert(children_of(x.drop_last()) =~= Seq::<Tree>::empty());
    assert(params_of(y.drop_last()) =~= Seq::<Tok>::empty());
    assert(params_of(x.drop_last()) =~= Seq::<Tok>::empty());
    assert(children_of(y.drop_last()) =~= Seq::<Tree>::empty());
    assert(x.last() == TreeItem::Child(child));
    assert(y.last() == TreeItem::Param(t));
    assert(children_of(x) =~= seq![child]);
    assert(params_of(y) =~= seq![t]);
    if b.len() == 0 {
        assert(a + b =~= a);
        assert(children_of(a) + children_of(b) =~= children_of(a));
        assert(params_of(a) + params_of(b) =~= params_of(a));
    } else {
        law_items_parted(a, b.drop_last(), t, child);
        assert((a + b).drop_last() =~= a + b.drop_last());
        assert((a + b).last() == b.last());
        assert(children_of(a + b) =~= children_of(a) + children_of(b));
        assert(params_of(a + b) =~= params_of(a) + params_of(b));
    }
}

/// The blocks with a keyword are those among the first and then those among the others.
pub proof fn law_blocks_named(a: Seq<Tree>, b: Seq<Tree>, child: Tree, keyword: Seq<char>)
    ensures
        all_named(a + b, keyword) == all_named(a, keyword) + all_named(b, keyword),
        all_named(seq![child], keyword) == if child.keyword == keyword {
            seq![child]
        } else {
            Seq::empty()
        },
    decreases b.len(),
{
    let x = seq![child];
    assert(x.drop_last() =~= Seq::<Tree>::empty());
    assert(all_named(x.drop_last(), keyword) =~= Seq::<Tree>::empty());
    assert(x.last() == child);
    assert(Seq::<Tree>::empty().push(child) =~= x);
    if b.len() == 0 {
        assert(a + b =~= a);
        assert(all_named(a, keyword) + all_named(b, keyword) =~= all_named(a, keyword));
    } else {
        law_blocks_named(a, b.drop_last(), child, keyword);
        assert((a + b).drop_last() =~= a + b.drop_last());
        assert((a + b).last() == b.last());
        assert(all_named(a + b, keyword) =~= all_named(a, keyword) + all_named(b, keyword));
    }
}

/// The block that is found by its keyword is the first of the blocks that have it.
pub proof fn law_first_block_named(blocks: Seq<Tree>, keyword: Seq<char>)
    ensures
        match first_named(blocks, keyword) {
            Some(t) => exists|i: int|
                0 <= i < blocks.len() && #[trigger] blocks[i] == t && t.keyword == keyword && (
                forall|j: int| 0 <= j < i ==> (#[trigger] blocks[j]).keyword != keyword),
            None => forall|j: int|
                0 <= j < blocks.len() ==> (#[trigger] blocks[j]).keyword != keyword,
        },
    decreases blocks.len(),
{
    if blocks.len() > 0 && blocks[0].keyword != keyword {
        let rest = blocks.drop_first();
        law_first_block_named(rest, keyword);
        match first_named(rest, keyword) {
            Some(t) => {
                let i = choose|i: int|
                    0 <= i < rest.len() && #[trigger] rest[i] == t && t.keyword == keyword && (
                    forall|j: int| 0 <= j < i ==> (#[trigger] rest[j]).keyword != keyword);
                assert(blocks[i + 1] == t);
                assert forall|j: int| 0 <= j < i + 1 implies (#[trigger] blocks[j]).keyword
                    != keyword by {
                    if j > 0 {
                        assert(rest[j - 1] == blocks[j]);
                    }
                }
            },
            None => {
                assert forall|j: int| 0 <= j < blocks.len() implies (#[trigger] blocks[j]).keyword
                    != keyword by {
                    if j > 0 {
                        assert(rest[j - 1] == blocks[j]);
                    }
                }
            },
        }
    } else if blocks.len() > 0 {
        assert(blocks[0] == blocks[0]);
    }
}

/// A text is escaped character by character: the end of a line, the carriage return, the tab,
/// the backslash and the quote are written behind a backslash, and no others.
pub proof fn law_escaped_by_character(a: Seq<char>, b: Seq<char>, c: char)
    ensures
        escaped(a + b) == escaped(a) + escaped(b),
        escaped(seq![c]) == if c == '\n' {
            seq!['\\', 'n']
        } else if c == '\r' {
            seq!['\\', 'r']
        } else if c == '\t' {
            seq!['\\', 't']
        } else if c == '\\' || c == '"' {
            seq!['\\', c]
        } else {
            seq![c]
        },
        escaped(Seq::empty()).len() == 0,
    decreases b.len(),
{
    let x = seq![c];
    assert(x.drop_last() =~= Seq::<char>::empty());
    assert(escaped(x.drop_last()) =~= Seq::<char>::empty());
    assert(x.last() == c);
    assert(escaped(x) =~= escaped_char(c));
    if b.len() == 0 {
        assert(a + b =~= a);
        assert(escaped(a) + escaped(b) =~= escaped(a));
    } else {
        law_escaped_by_character(a, b.drop_last(), c);
        assert((a + b).drop_last() =~= a + b.drop_last());
        assert((a + b).last() == b.last());
        assert(escaped(a + b) =~= escaped(a) + escaped(b));
    }
}

/// A line is written behind what is there: the indentation once for each block around it, the text
/// and the end of the line. The contents of a block are written one level deeper than its ends.
pub proof fn law_line_written(p: Page, text: Seq<char>, keyword: Seq<char>)
    ensures
        ({
            let q = p.line(text);
            let n = p.text.len() as int;
            let m = p.depth * p.style.indent.len();
            &&& q.text.len() == n + m + text.len() + 1
            &&& q.text.subrange(0, n) == p.text
            &&& q.text.subrange(n + m, n + m + text.len()) == text
            &&& q.text.last() == '\n'
            &&& forall|i: int|
                0 <= i < m ==> #[trigger] q.text[n + i] == p.style.indent[i % (
                p.style.indent.len() as int)]
            &&& q.depth == p.depth
            &&& q.style == p.style
        }),
        p.begin(keyword).text == p.line("/begin "@ + keyword).text,
        p.begin(keyword).depth == p.depth + 1,
        p.begin(keyword).end(keyword).depth == p.depth,
        p.begin(keyword).end(keyword).text == (Page { text: p.begin(keyword).text, ..p }).line(
            "/end "@ + keyword,
        ).text,
        p.word(keyword, text) == p.line(keyword + " "@ + text),
        p.quote(keyword, text) == p.line(keyword + " \""@ + escaped(text) + "\""@),
        p.quote_line(text) == p.line("\""@ + escaped(text) + "\""@),
        p.blank().text == p.text + "\n"@,
{
    reveal(Page::line);
    reveal_strlit("\n");
    reveal_strlit(" ");
    reveal_strlit("\"");
    reveal_strlit(" \"");
    lemma_repeated(p.style.indent, p.depth);
    let q = p.line(text);
    let n = p.text.len() as int;
    let m = p.depth * p.style.indent.len();
    assert(q.text.subrange(0, n) =~= p.text);
    assert(q.text.subrange(n + m, n + m + text.len()) =~= text);
    let margin = repeated(p.style.indent, p.depth);
    assert forall|i: int| 0 <= i < m implies #[trigger] q.text[n + i] == p.style.indent[i % (
    p.style.indent.len() as int)] by {
        assert(q.text[n + i] == margin[i]);
    }
    assert(keyword + " "@ + ("\""@ + escaped(text) + "\""@) =~= keyword + " \""@ + escaped(text)
        + "\""@);
}

proof fn lemma_repeated(s: Seq<char>, n: nat)
    ensures
        repeated(s, n).len() == n * s.len(),
        forall|i: int|
            0 <= i < n * s.len() ==> #[trigger] repeated(s, n)[i] == s[i % (s.len() as int)],
    decreases n,
{
    if n > 0 {
        lemma_repeated(s, (n - 1) as nat);
        let k = s.len() as int;
        let before = (n - 1) * k;
        assert(n * k == before + k) by (nonlinear_arith)
            requires
                before == (n - 1) * k,
        ;
        assert forall|i: int| 0 <= i < n * k implies #[trigger] repeated(s, n)[i] == s[i % k] by {
            if i >= before {
                assert(repeated(s, n)[i] == s[i - before]);
                vstd::arithmetic::div_mod::lemma_mod_multiples_vanish(n - 1, i - before, k);
                assert(k * (n - 1) + (i - before) == i) by (nonlinear_arith)
                    requires
                        before == (n - 1) * k,
                ;
                vstd::arithmetic::div_mod::lemma_small_mod((i - before) as nat, k as nat);
            }
        }
    } else {
        assert(n * s.len() == 0) by (nonlinear_arith)
            requires
                n == 0,
        ;
    }
}

/// A value is written behind its tag if it has one, and in quotes if they are asked for; without a
/// value nothing is written but an empty string in quotes.
pub proof fn law_value_written(p: Page, tag: Seq<char>, value: Seq<char>)
    ensures
        tag_value_on(p, Some(tag), Some(value), false) == p.line(tag + " "@ + value),
        tag_value_on(p, Some(tag), Some(value), true) == p.line(
            tag + " "@ + ("\""@ + escaped(value) + "\""@),
        ),
        tag_value_on(p, None, Some(value), false) == p.line(value),
        tag_value_on(p, None, Some(value), true) == p.line("\""@ + escaped(value) + "\""@),
        tag_value_on(p, Some(tag), None, false) == p,
        tag_value_on(p, None, None, false) == p,
        tag_value_on(p, Some(tag), None, true) == tag_value_on(
            p,
            Some(tag),
            Some(Seq::empty()),
            true,
        ),
        tag_value_on(p, None, None, true) == tag_value_on(p, None, Some(Seq::empty()), true),
{
}

/// The text of an annotation is its parameters with their escapes replaced, and with a blank
/// between two of them.
pub proof fn law_annotation_joined(c: Cur, text: Seq<char>)
    requires
        0 <= c.pos,
    ensures
        c.pos >= c.toks.len() ==> joined(text, c, false) == text,
        c.pos < c.toks.len() ==> joined(Seq::empty(), c, true) == joined(
            unescaped(c.toks[c.pos].text),
            c.step(),
            false,
        ) && joined(text, c, false) == joined(
            text + " "@ + unescaped(c.toks[c.pos].text),
            c.step(),
            false,
        ),
{
}

/// References are written one after the other, with a blank between two in a line; a line ends
/// behind as many of them as there are columns.
pub proof fn law_references_in_columns(
    refs: Seq<Seq<char>>,
    n: int,
    columns: int,
    margin: Seq<char>,
)
    requires
        0 < n <= refs.len(),
        columns > 0,
    ensures
        in_columns(refs, 0, columns, margin) == margin,
        n % columns == 0 ==> in_columns(refs, n, columns, margin) == in_columns(
            refs,
            n - 1,
            columns,
            margin,
        ) + refs[n - 1] + "\n"@ + margin,
        n % columns != 0 ==> in_columns(refs, n, columns, margin) == in_columns(
            refs,
            n - 1,
            columns,
            margin,
        ) + refs[n - 1] + " "@,
{
    if columns == 1 {
        assert(n % 1 == 0);
    }
}

/// Behind a backslash an `n`, an `r` and a `t` stand for the end of a line, the carriage return
/// and the tab, and any other character for itself; elsewhere every character does.
pub proof fn law_unescaped_by_character(s: Seq<char>, i: int)
    requires
        0 <= i < s.len(),
    ensures
        s[i] == '\\' && i + 1 < s.len() ==> unescaped_from(s, i) == seq![
            if s[i + 1] == 'n' {
                '\n'
            } else if s[i + 1] == 'r' {
                '\r'
            } else if s[i + 1] == 't' {
                '\t'
            } else {
                s[i + 1]
            },
        ] + unescaped_from(s, i + 2),
        s[i] != '\\' || i + 1 == s.len() ==> unescaped_from(s, i) == seq![s[i]] + unescaped_from(
            s,
            i + 1,
        ),
        unescaped(s) == unescaped_from(s, 0),
        unescaped_from(s, s.len() as int).len() == 0,
{
}

} // verus!
