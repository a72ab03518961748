//! Canonical A2L text emission and string escaping.
//! [`WriterOptions`] controls indentation, column alignment, and A2ML output.

use crate::a2l::error::{Failure, Result};
use crate::a2l::node::Node;
use crate::views::views;
use crate::text::{chars_of, trim_end, trimmed_end};
use vstd::prelude::*;

verus! {

/// How text is laid out.
#[derive(Debug)]
pub struct WriterOptions {
    /// How many references stand in one line; zero counts as one.
    pub columns: usize,
    /// Whether `A2ML` blocks of modules are written.
    pub write_a2ml: bool,
    /// What each level of nesting is indented by.
    pub indent: String,
}

/// [`WriterOptions`] as mathematical values.
pub struct Style {
    pub columns: int,
    pub write_a2ml: bool,
    pub indent: Seq<char>,
}

impl View for WriterOptions {
    type V = Style;

    open spec fn view(&self) -> Style {
        Style {
            columns: self.columns as int,
            write_a2ml: self.write_a2ml,
            indent: self.indent@,
        }
    }
}

impl Clone for WriterOptions {
    fn clone(&self) -> (r: Self)
        ensures
            r@ == self@,
    {
        WriterOptions {
            columns: self.columns,
            write_a2ml: self.write_a2ml,
            indent: self.indent.clone(),
        }
    }
}

impl Default for WriterOptions {
    fn default() -> (r: Self)
        ensures
            r@ == (Style { columns: 3, write_a2ml: true, indent: "  "@ }),
    {
        WriterOptions { columns: 3, write_a2ml: true, indent: "  ".to_string() }
    }
}

/// What stands for a character in a quoted string.
pub open spec fn escaped_char(c: char) -> Seq<char> {
    if c == '\n' {
        seq!['\\', 'n']
    } else if c == '\r' {
        seq!['\\', 'r']
    } else if c == '\t' {
        seq!['\\', 't']
    } else if c == '\\' {
        seq!['\\', '\\']
    } else if c == '"' {
        seq!['\\', '"']
    } else {
        seq![c]
    }
}

/// What stands for a text in a quoted string.
pub open spec fn escaped(s: Seq<char>) -> Seq<char>
    decreases s.len(),
{
    if s.len() == 0 {
        Seq::empty()
    } else {
        escaped(s.drop_last()) + escaped_char(s.last())
    }
}

/// The character that a letter behind a backslash stands for.
pub open spec fn escape_meaning(c: char) -> char {
    if c == 'n' {
        '\n'
    } else if c == 'r' {
        '\r'
    } else if c == 't' {
        '\t'
    } else {
        c
    }
}

/// The text that the content of a quoted string stands for, from a position on.
pub open spec fn unescaped_from(s: Seq<char>, i: int) -> Seq<char>
    decreases s.len() - i,
{
    if i < 0 || i >= s.len() {
        Seq::empty()
    } else if s[i] == '\\' && i + 1 < s.len() {
        seq![escape_meaning(s[i + 1])] + unescaped_from(s, i + 2)
    } else {
        seq![s[i]] + unescaped_from(s, i + 1)
    }
}

/// The text that the content of a quoted string stands for. A backslash at the end stands
/// for itself.
pub open spec fn unescaped(s: Seq<char>) -> Seq<char> {
    unescaped_from(s, 0)
}

/// Escapes a text for a quoted string.
pub fn escape_str(input: &str) -> (r: String)
    ensures
        r@ == escaped(input@),
{
    let s = chars_of(input);
    let mut out = String::new();
    let mut i: usize = 0;
    proof {
        assert(out@ =~= escaped(s@.subrange(0, 0)));
    }
    while i < s.len()
        invariant
            i <= s.len(),
            out@ == escaped(s@.subrange(0, i as int)),
        decreases s.len() - i,
    {
        let c: char = s[i];
        let ghost before = out@;
        proof {
            let next = s@.subrange(0, i + 1);
            assert(next.drop_last() =~= s@.subrange(0, i as int));
            assert(next.last() == c);
        }
        if c == '\n' {
            out.push('\\');
            out.push('n');
        } else if c == '\r' {
            out.push('\\');
            out.push('r');
        } else if c == '\t' {
            out.push('\\');
            out.push('t');
        } else if c == '\\' {
            out.push('\\');
            out.push('\\');
        } else if c == '"' {
            out.push('\\');
            out.push('"');
        } else {
            out.push(c);
        }
        proof {
            assert(out@ =~= before + escaped_char(c));
        }
        i += 1;
    }
    proof {
        assert(s@.subrange(0, i as int) =~= s@);
    }
    out
}

/// Replaces the escapes in the content of a quoted string.
pub fn unescape_str(input: &str) -> (r: String)
    ensures
        r@ == unescaped(input@),
{
    let s = chars_of(input);
    let mut out = String::new();
    let mut i: usize = 0;
    proof {
        assert(unescaped(s@) =~= out@ + unescaped_from(s@, 0));
    }
    while i < s.len()
        invariant
            i <= s.len(),
            unescaped(s@) == out@ + unescaped_from(s@, i as int),
        decreases s.len() - i,
    {
        let c: char = s[i];
        let ghost before = out@;
        if c == '\\' && i + 1 < s.len() {
            let e: char = s[i + 1];
            let meant: char = if e == 'n' {
                '\n'
            } else if e == 'r' {
                '\r'
            } else if e == 't' {
                '\t'
            } else {
                e
            };
            out.push(meant);
            proof {
                assert(before + (seq![meant] + unescaped_from(s@, i + 2)) =~= out@
                    + unescaped_from(s@, i + 2));
            }
            i += 2;
        } else {
            out.push(c);
            proof {
                assert(before + (seq![c] + unescaped_from(s@, i + 1)) =~= out@ + unescaped_from(
                    s@,
                    i + 1,
                ));
            }
            i += 1;
        }
    }
    proof {
        assert(out@ + Seq::<char>::empty() =~= out@);
    }
    out
}

/// Text that is being written: what is there, and the depth of nesting.
pub struct Page {
    pub text: Seq<char>,
    pub depth: nat,
    pub style: Style,
}

/// Writing that failed: how, and what was written before.
pub struct Stopped {
    pub failure: Failure,
    pub page: Page,
}

/// What is written, or how writing fails.
pub type Written = std::result::Result<Page, Stopped>;

/// A text a number of times.
pub open spec fn repeated(s: Seq<char>, n: nat) -> Seq<char>
    decreases n,
{
    if n == 0 {
        Seq::empty()
    } else {
        repeated(s, (n - 1) as nat) + s
    }
}

impl Page {
    /// Writing that fails when this is written.
    pub open spec fn stopped(self, failure: Failure) -> Stopped {
        Stopped { failure, page: self }
    }

    /// What a line starts with.
    pub open spec fn margin(self) -> Seq<char> {
        repeated(self.style.indent, self.depth)
    }

    /// With the text behind it.
    pub open spec fn with(self, s: Seq<char>) -> Page {
        Page { text: self.text + s, ..self }
    }

    /// With a line behind it.
    #[verifier::opaque]
    pub open spec fn line(self, s: Seq<char>) -> Page {
        self.with(self.margin() + s + "\n"@)
    }

    /// With an empty line behind it.
    pub open spec fn blank(self) -> Page {
        self.with("\n"@)
    }

    /// With a word behind its tag.
    pub open spec fn word(self, tag: Seq<char>, value: Seq<char>) -> Page {
        self.line(tag + " "@ + value)
    }

    /// With a quoted string behind its tag.
    pub open spec fn quote(self, tag: Seq<char>, value: Seq<char>) -> Page {
        self.line(tag + " "@ + quoted(value))
    }

    /// With a quoted string in its own line.
    pub open spec fn quote_line(self, value: Seq<char>) -> Page {
        self.line(quoted(value))
    }

    /// With references behind it, so many in a line as the style says.
    pub open spec fn references(self, refs: Seq<Seq<char>>) -> Page {
        if refs.len() == 0 {
            self
        } else {
            self.with(
                trimmed_end(in_columns(refs, refs.len() as int, self.style.columns, self.margin()))
                    + "\n"@,
            )
        }
    }

    /// With the start of a block behind it, and within that block.
    pub open spec fn begin(self, keyword: Seq<char>) -> Page {
        let p = self.line("/begin "@ + keyword);
        Page { depth: p.depth + 1, ..p }
    }

    /// With the end of the block behind it, and outside that block.
    pub open spec fn end(self, keyword: Seq<char>) -> Page {
        let p = Page { depth: if self.depth > 0 { (self.depth - 1) as nat } else { 0 }, ..self };
        p.line("/end "@ + keyword)
    }
}

/// A text as a quoted string.
pub open spec fn quoted(s: Seq<char>) -> Seq<char> {
    "\""@ + escaped(s) + "\""@
}

/// The first references, each followed by a blank or by the start of the next line.
pub open spec fn in_columns(
    refs: Seq<Seq<char>>,
    n: int,
    columns: int,
    margin: Seq<char>,
) -> Seq<char>
    decreases n,
{
    if n <= 0 {
        margin
    } else if n % (if columns > 1 { columns } else { 1 }) == 0 {
        in_columns(refs, n - 1, columns, margin) + refs[n - 1] + "\n"@ + margin
    } else {
        in_columns(refs, n - 1, columns, margin) + refs[n - 1] + " "@
    }
}

/// What a tag, a value and the wish for quotes make of a line.
pub open spec fn tag_value_on(
    p: Page,
    tag: Option<Seq<char>>,
    value: Option<Seq<char>>,
    quotes: bool,
) -> Page {
    if value is None && !quotes {
        p
    } else {
        let v = match value {
            Some(v) => v,
            None => Seq::empty(),
        };
        match tag {
            Some(t) => if quotes { p.quote(t, v) } else { p.word(t, v) },
            None => if quotes { p.quote_line(v) } else { p.line(v) },
        }
    }
}

/// An optional text by its characters.
pub open spec fn opt_str(s: Option<&str>) -> Option<Seq<char>> {
    match s {
        Some(s) => Some(s@),
        None => None,
    }
}

/// Writes canonical A2L text.
#[derive(Debug)]
pub struct Writer {
    buf: String,
    /// One element for each level of nesting.
    levels: Vec<()>,
    pub opts: WriterOptions,
}

impl View for Writer {
    type V = Page;

    closed spec fn view(&self) -> Page {
        Page { text: self.buf@, depth: self.levels@.len(), style: self.opts@ }
    }
}

impl Writer {
    pub fn new(opts: WriterOptions) -> (r: Self)
        ensures
            r@ == (Page { text: Seq::empty(), depth: 0, style: opts@ }),
    {
        let buf = String::new();
        proof {
            assert(buf@ =~= Seq::<char>::empty());
        }
        Writer { buf, levels: Vec::new(), opts }
    }

    pub fn into_string(self) -> (r: String)
        ensures
            r@ == self@.text,
    {
        self.buf
    }

    /// Whether A2ML blocks are written.
    pub(crate) fn writes_a2ml(&self) -> (r: bool)
        ensures
            r == self@.style.write_a2ml,
    {
        self.opts.write_a2ml
    }

    fn indent(&self) -> (r: String)
        ensures
            r@ == self@.margin(),
    {
        let mut out = String::new();
        let mut i: usize = 0;
        proof {
            assert(out@ =~= repeated(self.opts.indent@, 0));
        }
        while i < self.levels.len()
            invariant
                i <= self.levels@.len(),
                out@ == repeated(self.opts.indent@, i as nat),
            decreases self.levels@.len() - i,
        {
            out.append(self.opts.indent.as_str());
            i += 1;
        }
        out
    }

    pub fn blank_line(&mut self)
        ensures
            final(self)@ == old(self)@.blank(),
    {
        self.buf.append("\n");
    }

    /// Writes a line.
    pub(crate) fn line(&mut self, s: &str)
        ensures
            final(self)@ == old(self)@.line(s@),
    {
        let margin = self.indent();
        self.buf.append(margin.as_str());
        self.buf.append(s);
        self.buf.append("\n");
        proof {
            reveal(Page::line);
            assert(self.buf@ =~= old(self).buf@ + (margin@ + s@ + "\n"@));
        }
    }

    /// Writes a word behind its tag.
    pub(crate) fn word(&mut self, tag: &str, value: &str)
        ensures
            final(self)@ == old(self)@.word(tag@, value@),
    {
        let mut s = tag.to_string();
        s.append(" ");
        s.append(value);
        self.line(s.as_str());
    }

    /// Writes a quoted string in its own line.
    pub(crate) fn quote_line(&mut self, value: &str)
        ensures
            final(self)@ == old(self)@.quote_line(value@),
    {
        let s = quote(value);
        self.line(s.as_str());
    }

    /// Writes a quoted string behind its tag.
    pub(crate) fn quote(&mut self, tag: &str, value: &str)
        ensures
            final(self)@ == old(self)@.quote(tag@, value@),
    {
        let mut s = tag.to_string();
        s.append(" ");
        s.append(quote(value).as_str());
        self.line(s.as_str());
    }

    /// Writes a value behind its tag. Without a value an empty string is written, or, if no
    /// quotes are wanted, nothing.
    pub fn tag_value(&mut self, tag: Option<&str>, value: Option<&str>, quotes: bool)
        ensures
            final(self)@ == tag_value_on(old(self)@, opt_str(tag), opt_str(value), quotes),
    {
        let v = match value {
            Some(v) => v,
            None => {
                if !quotes {
                    return;
                }
                ""
            },
        };
        proof {
            if value is None {
                reveal_strlit("");
                assert(v@ =~= Seq::<char>::empty());
            }
        }
        match tag {
            Some(t) => if quotes {
                self.quote(t, v)
            } else {
                self.word(t, v)
            },
            None => if quotes {
                self.quote_line(v)
            } else {
                self.line(v)
            },
        }
    }

    /// Writes a line as it is, behind its tag.
    pub fn value_line(&mut self, tag: Option<&str>, value: &str)
        ensures
            final(self)@ == tag_value_on(old(self)@, opt_str(tag), Some(value@), false),
    {
        match tag {
            Some(t) => self.word(t, value),
            None => self.line(value),
        }
    }

    /// Writes references in lines of so many as the options say.
    pub fn references(&mut self, refs: &Vec<String>)
        ensures
            final(self)@ == old(self)@.references(views(refs@)),
    {
        if refs.len() == 0 {
            return;
        }
        let margin = self.indent();
        let columns: usize = if self.opts.columns > 1 {
            self.opts.columns
        } else {
            1
        };
        let ghost page = self@;
        let mut line = margin.clone();
        let mut i: usize = 0;
        while i < refs.len()
            invariant
                i <= refs@.len(),
                columns == if page.style.columns > 1 { page.style.columns } else { 1 },
                margin@ == page.margin(),
                line@ == in_columns(views(refs@), i as int, page.style.columns, margin@),
            decreases refs@.len() - i,
        {
            line.append(refs[i].as_str());
            i += 1;
            if i % columns == 0 {
                line.append("\n");
                line.append(margin.as_str());
            } else {
                line.append(" ");
            }
        }
        let kept = trim_end(line.as_str());
        self.buf.append(kept.as_str());
        self.buf.append("\n");
        proof {
            assert(self.buf@ =~= old(self).buf@ + (kept@ + "\n"@));
        }
    }

    pub fn begin_block(&mut self, keyword: &str)
        ensures
            final(self)@ == old(self)@.begin(keyword@),
    {
        let mut s = "/begin ".to_string();
        s.append(keyword);
        self.line(s.as_str());
        proof {
            lemma_line_frame(old(self)@, s@);
        }
        self.levels.push(());
    }

    pub fn end_block(&mut self, keyword: &str)
        ensures
            final(self)@ == old(self)@.end(keyword@),
    {
        let _ = self.levels.pop();
        let mut s = "/end ".to_string();
        s.append(keyword);
        self.line(s.as_str());
    }

    /// Writes a node as a block.
    pub fn block<T: Node>(&mut self, node: &T) -> (r: Result<()>)
        ensures
            match r {
                Ok(()) => T::body(node@, old(self)@.begin(T::keyword_text())) matches Ok(p)
                    && final(self)@ == p.end(T::keyword_text()),
                Err(e) => T::body(node@, old(self)@.begin(T::keyword_text())) == Err::<
                    Page,
                    Stopped,
                >(final(self)@.stopped(e@)),
            },
    {
        self.begin_block(T::keyword());
        node.write_body(self)?;
        self.end_block(T::keyword());
        Ok(())
    }
}

/// A line changes nothing but the text.
proof fn lemma_line_frame(p: Page, s: Seq<char>)
    ensures
        p.line(s).depth == p.depth,
        p.line(s).style == p.style,
{
    reveal(Page::line);
}

/// A text as a quoted string.
pub(crate) fn quote(value: &str) -> (r: String)
    ensures
        r@ == quoted(value@),
{
    let mut s = "\"".to_string();
    s.append(escape_str(value).as_str());
    s.append("\"");
    s
}

} // verus!
