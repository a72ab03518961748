//! The optional label and origin fields of an A2L `ANNOTATION` block.

use crate::a2l::block::{Block, Tree};
use crate::a2l::error::{Error, Failure, Result};
use crate::a2l::node::{Node, enclosed};
use crate::a2l::params::{Cur, Got, ParamCursor, read_string, read_token};
use crate::a2l::writer::{Page, Writer, Written, quote, unescaped};
use crate::text::{debug_of, debug_text};
use crate::views::{append, no_text, opt};
use vstd::prelude::*;

verus! {

/// `ANNOTATION`: the label and the origin of a remark.
#[derive(Debug, Clone, PartialEq, Eq)]
pub struct Annotation {
    /// `ANNOTATION_LABEL "..."`.
    pub label: Option<String>,
    /// `ANNOTATION_ORIGIN "..."`.
    pub origin: Option<String>,
}

/// [`Annotation`] as a mathematical value.
pub struct AnnotationView {
    pub label: Option<Seq<char>>,
    pub origin: Option<Seq<char>>,
}

impl View for Annotation {
    type V = AnnotationView;

    open spec fn view(&self) -> AnnotationView {
        AnnotationView {
            label: opt(self.label),
            origin: opt(self.origin),
        }
    }
}

impl Annotation {
    /// The node before anything is read.
    pub open spec fn blank() -> AnnotationView {
        AnnotationView {
            label: None,
            origin: None,
        }
    }
}

impl Default for Annotation {
    fn default() -> (r: Self)
        ensures
            r@ == Annotation::blank(),
    {
        Annotation {
            label: None,
            origin: None,
        }
    }
}

impl Annotation {
    /// What the parameters at the cursor set, and where the next ones start.
    pub open spec fn option(v: AnnotationView, c: Cur) -> Got<AnnotationView> {
        if c.at("ANNOTATION_LABEL"@) {
            match read_string(c.step()) {
                Err(f) => Err(f),
                Ok((x, c0)) => {
                    Ok((AnnotationView { label: Some(x), ..v }, c0))
                },
            }
        } else if c.at("ANNOTATION_ORIGIN"@) {
            match read_string(c.step()) {
                Err(f) => Err(f),
                Ok((x, c0)) => {
                    Ok((AnnotationView { origin: Some(x), ..v }, c0))
                },
            }
        } else {
            match read_token(c) {
                Err(f) => Err(f),
                Ok((t, c0)) => {
                    Err(Failure::Parse(t.line, "ANNOTATION: unexpected parameter "@ + debug_of(t.text)))
                },
            }
        }
    }

    /// What all the parameters from the cursor on set, and where reading them ends.
    pub open spec fn options(v: AnnotationView, c: Cur) -> Got<AnnotationView>
        decreases c.left(),
    {
        if !c.more() {
            Ok((v, c))
        } else {
            match Annotation::option(v, c) {
                Err(f) => Err(f),
                Ok((w, n)) => if 0 <= n.left() < c.left() {
                    Annotation::options(w, n)
                } else {
                    arbitrary()
                },
            }
        }
    }

    fn read_option(&mut self, cur: &mut ParamCursor) -> (r: Result<()>)
        requires
            old(cur)@.more(),
        ensures
            match r {
                Ok(()) => {
                    &&& Annotation::option(old(self)@, old(cur)@) == Ok::<_, Failure>(
                        (final(self)@, final(cur)@),
                    )
                    &&& 0 <= final(cur)@.left() < old(cur)@.left()
                },
                Err(e) => Annotation::option(old(self)@, old(cur)@) == Err::<(AnnotationView, Cur), _>(e@),
            },
    {
        if cur.take_if("ANNOTATION_LABEL") {
            let x = cur.string()?;
            self.label = Some(x);
            return Ok(());
        }
        if cur.take_if("ANNOTATION_ORIGIN") {
            let x = cur.string()?;
            self.origin = Some(x);
            return Ok(());
        }
        let t = cur.next_token()?;
        let mut m = "ANNOTATION: unexpected parameter ".to_string();
        m.append(debug_text(t.text.as_str()).as_str());
        Err(Error::parse(t.line, m))
    }

    fn read_options(&mut self, cur: &mut ParamCursor) -> (r: Result<()>)
        ensures
            match r {
                Ok(()) => {
                    &&& Annotation::options(old(self)@, old(cur)@) == Ok::<_, Failure>(
                        (final(self)@, final(cur)@),
                    )
                    &&& final(cur)@.left() <= old(cur)@.left()
                    &&& final(cur)@ == old(cur)@ || final(cur)@.left() >= 0
                },
                Err(e) => Annotation::options(old(self)@, old(cur)@) == Err::<(AnnotationView, Cur), _>(e@),
            },
    {
        let ghost whole = Annotation::options(self@, cur@);
        while !cur.is_empty()
            invariant
                whole == Annotation::options(self@, cur@),
                whole == Annotation::options(old(self)@, old(cur)@),
                cur@.left() <= old(cur)@.left(),
                cur@ == old(cur)@ || cur@.left() >= 0,
            decreases cur@.left(),
        {
            self.read_option(cur)?;
        }
        Ok(())
    }
}

impl Node for Annotation {
    open spec fn keyword_text() -> Seq<char> {
        "ANNOTATION"@
    }

    open spec fn parsed(tree: Tree) -> std::result::Result<AnnotationView, Failure> {
        match Annotation::options(Annotation::blank(), Cur::start(tree)) {
            Err(f) => Err(f),
            Ok((v, _)) => Ok(v),
        }
    }

    open spec fn body(v: AnnotationView, p: Page) -> Written {
        let p = match v.origin { Some(x) => p.quote("ANNOTATION_ORIGIN"@, x), None => p };
        let p = match v.label { Some(x) => p.quote("ANNOTATION_LABEL"@, x), None => p };
        Ok(p)
    }

    open spec fn block(v: AnnotationView, p: Page) -> Written {
        enclosed("ANNOTATION"@, Self::body(v, p.begin("ANNOTATION"@)))
    }

    fn keyword() -> (r: &'static str) {
        "ANNOTATION"
    }

    fn parse(block: &Block) -> (r: Result<Self>) {
        let mut cur = ParamCursor::new(block);
        let mut node = Annotation::default();
        node.read_options(&mut cur)?;
        Ok(node)
    }

    fn write_body(&self, w: &mut Writer) -> (r: Result<()>) {
        if let Some(x) = &self.origin {
            w.quote("ANNOTATION_ORIGIN", x.as_str());
        }
        if let Some(x) = &self.label {
            w.quote("ANNOTATION_LABEL", x.as_str());
        }
        Ok(())
    }

    fn write_block(&self, w: &mut Writer) -> (r: Result<()>) {
        w.begin_block("ANNOTATION");
        self.write_body(w)?;
        w.end_block("ANNOTATION");
        Ok(())
    }
}

/// `ANNOTATION_TEXT`: the text of a remark.
#[derive(Debug, Clone, PartialEq, Eq)]
pub struct AnnotationText {
    pub text: String,
}

/// [`AnnotationText`] as a mathematical value.
pub struct AnnotationTextView {
    pub text: Seq<char>,
}

impl View for AnnotationText {
    type V = AnnotationTextView;

    open spec fn view(&self) -> AnnotationTextView {
        AnnotationTextView {
            text: self.text@,
        }
    }
}

impl AnnotationText {
    /// The node before anything is read.
    pub open spec fn blank() -> AnnotationTextView {
        AnnotationTextView {
            text: Seq::empty(),
        }
    }
}

impl Default for AnnotationText {
    fn default() -> (r: Self)
        ensures
            r@ == AnnotationText::blank(),
    {
        AnnotationText {
            text: no_text(),
        }
    }
}

/// All parameters from the cursor on, with their escapes replaced, and with blanks between
/// them and behind what is there; the first one starts the text.
pub open spec fn joined(text: Seq<char>, c: Cur, first: bool) -> Seq<char>
    decreases c.left(),
{
    if !c.more() {
        text
    } else if first {
        joined(unescaped(c.here().text), c.step(), false)
    } else {
        joined(text + " "@ + unescaped(c.here().text), c.step(), false)
    }
}

impl Node for AnnotationText {
    open spec fn keyword_text() -> Seq<char> {
        "ANNOTATION_TEXT"@
    }

    open spec fn parsed(tree: Tree) -> std::result::Result<AnnotationTextView, Failure> {
        Ok(AnnotationTextView { text: joined(Seq::empty(), Cur::start(tree), true) })
    }

    open spec fn body(v: AnnotationTextView, p: Page) -> Written {
        let p = if v.text.len() > 0 { p.quote_line(v.text) } else { p };
        Ok(p)
    }

    open spec fn block(v: AnnotationTextView, p: Page) -> Written {
        enclosed("ANNOTATION_TEXT"@, Self::body(v, p.begin("ANNOTATION_TEXT"@)))
    }

    fn keyword() -> (r: &'static str) {
        "ANNOTATION_TEXT"
    }

    fn parse(block: &Block) -> (r: Result<Self>) {
        let mut cur = ParamCursor::new(block);
        let mut text = no_text();
        let mut first = true;
        while !cur.is_empty()
            invariant
                joined(Seq::empty(), Cur::start(block@), true) == joined(text@, cur@, first),
                first ==> text@ == Seq::<char>::empty(),
            decreases cur@.left(),
        {
            let part = cur.string()?;
            if first {
                text = part;
                first = false;
            } else {
                text.append(" ");
                text.append(part.as_str());
            }
        }
        Ok(AnnotationText { text })
    }

    fn write_body(&self, w: &mut Writer) -> (r: Result<()>) {
        if self.text.as_str().unicode_len() > 0 {
            w.quote_line(self.text.as_str());
        }
        Ok(())
    }

    fn write_block(&self, w: &mut Writer) -> (r: Result<()>) {
        w.begin_block("ANNOTATION_TEXT");
        self.write_body(w)?;
        w.end_block("ANNOTATION_TEXT");
        Ok(())
    }
}

} // verus!
