//! The tokens of an A2L text.

use crate::a2l::error::{Error, Failure, Result};
use crate::a2l::number::{Joint, JointNum, Num, Number};
use crate::text::{
    chars_of, eq_ignore_case, find_line_end, line_end, same_ignore_case, same_text, text_of,
};
use vstd::prelude::*;

verus! {

/// A word or a quoted string.
#[derive(Debug)]
pub struct Token {
    /// The text; that of a string without the quotes, with its escapes as they stand.
    pub text: String,
    pub line: u32,
    pub quoted: bool,
    /// The floating-point number that the text stands for, where it does.
    pub number: Option<Number>,
    /// What this number and that of the next parameter of the block give together, where both
    /// are numbers.
    pub joint: Option<Joint>,
}

/// A [`Token`] as a mathematical value.
pub struct Tok {
    pub text: Seq<char>,
    pub line: int,
    pub quoted: bool,
    pub number: Option<Num>,
    pub joint: Option<JointNum>,
}

impl View for Token {
    type V = Tok;

    open spec fn view(&self) -> Tok {
        Tok {
            text: self.text@,
            line: self.line as int,
            quoted: self.quoted,
            number: match self.number {
                Some(n) => Some(n@),
                None => None,
            },
            joint: match self.joint {
                Some(n) => Some(n@),
                None => None,
            },
        }
    }
}

/// Two tokens are equal if they have the same text and both or neither is quoted, wherever
/// they stand.
impl PartialEq for Token {
    fn eq(&self, other: &Self) -> (r: bool) {
        self.quoted == other.quoted && same_text(self.text.as_str(), other.text.as_str())
    }
}

impl vstd::std_specs::cmp::PartialEqSpecImpl for Token {
    open spec fn obeys_eq_spec() -> bool {
        true
    }

    open spec fn eq_spec(&self, other: &Self) -> bool {
        self.quoted == other.quoted && self.text@ == other.text@
    }
}

impl Eq for Token {

}

impl Clone for Token {
    fn clone(&self) -> (r: Self)
        ensures
            r@ == self@,
    {
        Token {
            text: self.text.clone(),
            line: self.line,
            quoted: self.quoted,
            number: match &self.number {
                Some(n) => Some(n.clone()),
                None => None,
            },
            joint: match &self.joint {
                Some(n) => Some(n.clone()),
                None => None,
            },
        }
    }
}

impl Tok {
    /// Whether the token is the given keyword, in either case and not quoted.
    pub open spec fn is_word(self, word: Seq<char>) -> bool {
        !self.quoted && same_ignore_case(self.text, word)
    }
}

/// A token by its text alone: wherever it stands, and whatever number it is.
pub open spec fn bare(t: Tok) -> Tok {
    Tok { line: 0, number: None, joint: None, ..t }
}

impl Token {
    pub fn is_begin(&self) -> (r: bool)
        ensures
            r == self@.is_word("/begin"@),
    {
        !self.quoted && eq_ignore_case(self.text.as_str(), "/begin")
    }

    pub fn is_end(&self) -> (r: bool)
        ensures
            r == self@.is_word("/end"@),
    {
        !self.quoted && eq_ignore_case(self.text.as_str(), "/end")
    }
}

/// Whether a character separates words without being a token itself.
pub open spec fn is_blank(c: char) -> bool {
    c == ' ' || c == '\t' || c == '\r'
}

/// Whether a character ends a word.
pub open spec fn ends_word(c: char) -> bool {
    is_blank(c) || c == '\n' || c == '"'
}

/// Where the word that holds the position ends.
pub open spec fn word_end(s: Seq<char>, i: int) -> int
    decreases s.len() - i,
{
    if i >= s.len() || ends_word(s[i]) {
        i
    } else {
        word_end(s, i + 1)
    }
}

/// The end of a comment, and the line in which it ends, from a position within it.
pub open spec fn comment_end(s: Seq<char>, i: int, line: int) -> Option<(int, int)>
    decreases s.len() - i,
{
    if i >= s.len() {
        None
    } else if s[i] == '*' && i + 1 < s.len() && s[i + 1] == '/' {
        Some((i + 2, line))
    } else {
        comment_end(s, i + 1, if s[i] == '\n' { line + 1 } else { line })
    }
}

/// The closing quote of a string, and the line that it is in, from a position within the
/// string. A character behind a backslash does not count.
pub open spec fn string_end(s: Seq<char>, i: int, line: int) -> Option<(int, int)>
    decreases s.len() - i,
{
    if i >= s.len() {
        None
    } else if s[i] == '\\' {
        if i + 2 <= s.len() {
            string_end(s, i + 2, line)
        } else {
            None
        }
    } else if s[i] == '"' {
        Some((i, line))
    } else {
        string_end(s, i + 1, if s[i] == '\n' { line + 1 } else { line })
    }
}

/// Tokens, or how finding them fails.
pub type Lexed = std::result::Result<Seq<Tok>, Failure>;

/// What is found after a token.
pub open spec fn lexed_after(t: Tok, rest: Lexed) -> Lexed {
    match rest {
        Ok(toks) => Ok(seq![t] + toks),
        Err(f) => Err(f),
    }
}

/// The tokens of a text from a position on, which stands in the given line.
pub open spec fn lex(s: Seq<char>, i: int, line: int) -> Lexed
    decreases s.len() - i,
{
    if i < 0 || i >= s.len() {
        Ok(Seq::empty())
    } else if s[i] == '\n' {
        lex(s, i + 1, line + 1)
    } else if is_blank(s[i]) {
        lex(s, i + 1, line)
    } else if s[i] == '/' && i + 1 < s.len() && s[i + 1] == '/' {
        if i < line_end(s, i) <= s.len() {
            lex(s, line_end(s, i), line)
        } else {
            arbitrary()
        }
    } else if s[i] == '/' && i + 1 < s.len() && s[i + 1] == '*' {
        match comment_end(s, i + 2, line) {
            Some((end, l)) => if i < end <= s.len() {
                lex(s, end, l)
            } else {
                arbitrary()
            },
            None => Err(Failure::Parse(line, "unterminated block comment"@)),
        }
    } else if s[i] == '"' {
        match string_end(s, i + 1, line) {
            Some((end, l)) => if i < end < s.len() {
                lexed_after(
                    Tok { text: s.subrange(i + 1, end), line, quoted: true, number: None, joint: None },
                    lex(s, end + 1, l),
                )
            } else {
                arbitrary()
            },
            None => Err(Failure::Parse(line, "unterminated string"@)),
        }
    } else {
        let end = word_end(s, i);
        if i < end <= s.len() {
            lexed_after(
                Tok { text: s.subrange(i, end), line, quoted: false, number: None, joint: None },
                lex(s, end, line),
            )
        } else {
            arbitrary()
        }
    }
}

/// The tokens of a text.
pub open spec fn tokens_of(s: Seq<char>) -> Lexed {
    lex(s, 0, 1)
}

/// The views of tokens.
pub open spec fn toks(tokens: Seq<Token>) -> Seq<Tok> {
    Seq::new(tokens.len(), |i: int| tokens[i]@)
}

/// What is found after a number of tokens.
pub open spec fn lexed_behind(done: Seq<Tok>, rest: Lexed) -> Lexed {
    match rest {
        Ok(toks) => Ok(done + toks),
        Err(f) => Err(f),
    }
}

proof fn lemma_lexed_step(done: Seq<Tok>, t: Tok, rest: Lexed)
    ensures
        lexed_behind(done, lexed_after(t, rest)) == lexed_behind(done.push(t), rest),
{
    if let Ok(more) = rest {
        assert(done + (seq![t] + more) =~= done.push(t) + more);
    }
}

/// The number of line ends from a position on.
pub open spec fn line_ends(s: Seq<char>, i: int) -> int
    decreases s.len() - i,
{
    if i < 0 || i >= s.len() {
        0
    } else if s[i] == '\n' {
        1 + line_ends(s, i + 1)
    } else {
        line_ends(s, i + 1)
    }
}

proof fn lemma_line_ends(s: Seq<char>, i: int, j: int)
    requires
        0 <= i <= j <= s.len(),
    ensures
        0 <= line_ends(s, j) <= line_ends(s, i),
    decreases s.len() - i,
{
    if i < j {
        lemma_line_ends(s, i + 1, j);
    } else if i < s.len() {
        lemma_line_ends(s, i + 1, i + 1);
    }
}

fn find_word_end(s: &[char], from: usize) -> (r: usize)
    requires
        from < s.len(),
        !ends_word(s@[from as int]),
    ensures
        from < r <= s.len(),
        r == word_end(s@, from as int),
{
    let mut i: usize = from + 1;
    while i < s.len() && !(s[i] == ' ' || s[i] == '\t' || s[i] == '\r' || s[i] == '\n' || s[i]
        == '"')
        invariant
            from < i <= s.len(),
            word_end(s@, from as int) == word_end(s@, i as int),
        decreases s.len() - i,
    {
        i += 1;
    }
    i
}

fn find_comment_end(s: &[char], from: usize, line: u32) -> (r: Option<(usize, u32)>)
    requires
        from <= s.len(),
        line + line_ends(s@, from as int) <= u32::MAX,
    ensures
        match r {
            Some((end, l)) => {
                &&& comment_end(s@, from as int, line as int) == Some((end as int, l as int))
                &&& from < end <= s.len()
                &&& line <= l
                &&& l + line_ends(s@, end as int) <= line + line_ends(s@, from as int)
            },
            None => comment_end(s@, from as int, line as int) is None,
        },
{
    let mut i: usize = from;
    let mut l: u32 = line;
    while i < s.len()
        invariant
            from <= i <= s.len(),
            line <= l,
            l + line_ends(s@, i as int) <= line + line_ends(s@, from as int),
            line + line_ends(s@, from as int) <= u32::MAX,
            comment_end(s@, from as int, line as int) == comment_end(s@, i as int, l as int),
        decreases s.len() - i,
    {
        proof {
            lemma_line_ends(s@, i as int + 1, s@.len() as int);
        }
        if s[i] == '*' && i + 1 < s.len() && s[i + 1] == '/' {
            proof {
                lemma_line_ends(s@, i as int, i + 2);
            }
            return Some((i + 2, l));
        }
        if s[i] == '\n' {
            l += 1;
        }
        i += 1;
    }
    None
}

fn find_string_end(s: &[char], from: usize, line: u32) -> (r: Option<(usize, u32)>)
    requires
        from <= s.len(),
        line + line_ends(s@, from as int) <= u32::MAX,
    ensures
        match r {
            Some((end, l)) => {
                &&& string_end(s@, from as int, line as int) == Some((end as int, l as int))
                &&& from <= end < s.len()
                &&& line <= l
                &&& l + line_ends(s@, end as int) <= line + line_ends(s@, from as int)
            },
            None => string_end(s@, from as int, line as int) is None,
        },
{
    let mut i: usize = from;
    let mut l: u32 = line;
    while i < s.len()
        invariant
            from <= i <= s.len(),
            line <= l,
            l + line_ends(s@, i as int) <= line + line_ends(s@, from as int),
            line + line_ends(s@, from as int) <= u32::MAX,
            string_end(s@, from as int, line as int) == string_end(s@, i as int, l as int),
        decreases s.len() - i,
    {
        proof {
            lemma_line_ends(s@, i as int + 1, s@.len() as int);
        }
        if s[i] == '\\' {
            if i + 1 >= s.len() {
                return None;
            }
            proof {
                lemma_line_ends(s@, i as int, i + 2);
            }
            i += 2;
        } else if s[i] == '"' {
            return Some((i, l));
        } else {
            if s[i] == '\n' {
                l += 1;
            }
            i += 1;
        }
    }
    None
}

/// Splits a text into words and strings. Blanks and comments separate them.
pub fn tokenize(src: &str) -> (r: Result<Vec<Token>>)
    requires
        line_ends(src@, 0) < u32::MAX,
    ensures
        match r {
            Ok(v) => tokens_of(src@) == Ok::<Seq<Tok>, Failure>(toks(v@)),
            Err(e) => tokens_of(src@) == Err::<Seq<Tok>, Failure>(e@),
        },
{
    let s = chars_of(src);
    let mut tokens: Vec<Token> = Vec::new();
    let mut i: usize = 0;
    let mut line: u32 = 1;
    proof {
        assert(toks(tokens@) =~= Seq::<Tok>::empty());
        if let Ok(all) = tokens_of(s@) {
            assert(Seq::<Tok>::empty() + all =~= all);
        }
    }
    while i < s.len()
        invariant
            i <= s.len(),
            1 <= line,
            line + line_ends(s@, i as int) <= u32::MAX,
            s@ == src@,
            tokens_of(s@) == lexed_behind(toks(tokens@), lex(s@, i as int, line as int)),
        decreases s.len() - i,
    {
        let c: char = s[i];
        proof {
            lemma_line_ends(s@, i as int + 1, s@.len() as int);
        }
        let ghost start = i as int;
        if c == '\n' {
            line += 1;
            i += 1;
        } else if c == ' ' || c == '\t' || c == '\r' {
            i += 1;
        } else if c == '/' && i + 1 < s.len() && s[i + 1] == '/' {
            i = find_line_end(&s, i);
            proof {
                lemma_line_ends(s@, start, i as int);
            }
        } else if c == '/' && i + 1 < s.len() && s[i + 1] == '*' {
            proof {
                lemma_line_ends(s@, start, i + 2);
            }
            match find_comment_end(&s, i + 2, line) {
                Some((end, l)) => {
                    i = end;
                    line = l;
                },
                None => {
                    return Err(Error::parse(line, "unterminated block comment".to_string()));
                },
            }
        } else {
            let quoted = c == '"';
            let ghost before = toks(tokens@);
            let ghost rest = lex(s@, i as int, line as int);
            let token: Token;
            if quoted {
                match find_string_end(&s, i + 1, line) {
                    Some((end, l)) => {
                        token = Token {
                            text: text_of(&s, i + 1, end),
                            line,
                            quoted,
                            number: None,
                            joint: None,
                        };
                        proof {
                            lemma_line_ends(s@, end as int, end + 1);
                        }
                        i = end + 1;
                        line = l;
                    },
                    None => {
                        return Err(Error::parse(line, "unterminated string".to_string()));
                    },
                }
            } else {
                let end: usize = find_word_end(&s, i);
                proof {
                    lemma_line_ends(s@, start, end as int);
                }
                token = Token { text: text_of(&s, i, end), line, quoted, number: None, joint: None };
                i = end;
            }
            proof {
                lemma_lexed_step(before, token@, lex(s@, i as int, line as int));
            }
            tokens.push(token);
            proof {
                assert(toks(tokens@) =~= before.push(token@));
            }
        }
    }
    proof {
        assert(toks(tokens@) + Seq::<Tok>::empty() =~= toks(tokens@));
    }
    Ok(tokens)
}

} // verus!
