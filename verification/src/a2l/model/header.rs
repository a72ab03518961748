//! The project comment, version, and project number in an A2L `HEADER` block.

use crate::a2l::block::{Block, Tree};
use crate::a2l::error::{Failure, Result};
use crate::a2l::node::{Node, enclosed};
use crate::a2l::params::{Cur, Got, ParamCursor, read_string, read_token};
use crate::a2l::writer::{Page, Writer, Written, quote};
use crate::views::{no_text, opt};
use vstd::prelude::*;

verus! {

/// `HEADER`: what is said of a project.
#[derive(Debug, Clone, PartialEq, Eq)]
pub struct Header {
    pub comment: String,
    pub version: Option<String>,
    pub project_no: Option<String>,
}

/// [`Header`] as a mathematical value.
pub struct HeaderView {
    pub comment: Seq<char>,
    pub version: Option<Seq<char>>,
    pub project_no: Option<Seq<char>>,
}

impl View for Header {
    type V = HeaderView;

    open spec fn view(&self) -> HeaderView {
        HeaderView {
            comment: self.comment@,
            version: opt(self.version),
            project_no: opt(self.project_no),
        }
    }
}

impl Header {
    /// The node before anything is read.
    pub open spec fn blank() -> HeaderView {
        HeaderView {
            comment: Seq::empty(),
            version: None,
            project_no: None,
        }
    }
}

impl Default for Header {
    fn default() -> (r: Self)
        ensures
            r@ == Header::blank(),
    {
        Header {
            comment: no_text(),
            version: None,
            project_no: None,
        }
    }
}

impl Header {
    /// What the parameters at the cursor set, and where the next ones start.
    pub open spec fn option(v: HeaderView, c: Cur) -> Got<HeaderView> {
        if c.at("VERSION"@) {
            match read_string(c.step()) {
                Err(f) => Err(f),
                Ok((x, c0)) => {
                    Ok((HeaderView { version: Some(x), ..v }, c0))
                },
            }
        } else if c.at("PROJECT_NO"@) {
            match read_string(c.step()) {
                Err(f) => Err(f),
                Ok((x, c0)) => {
                    Ok((HeaderView { project_no: Some(x), ..v }, c0))
                },
            }
        } else {
            match read_token(c) {
                Err(f) => Err(f),
                Ok((_t, c0)) => {
                    Ok((v, c0))
                },
            }
        }
    }

    /// What all the parameters from the cursor on set, and where reading them ends.
    pub open spec fn options(v: HeaderView, c: Cur) -> Got<HeaderView>
        decreases c.left(),
    {
        if c.left() < 2 {
            Ok((v, c))
        } else {
            match Header::option(v, c) {
                Err(f) => Err(f),
                Ok((w, n)) => if 0 <= n.left() < c.left() {
                    Header::options(w, n)
                } else {
                    arbitrary()
                },
            }
        }
    }

    fn read_option(&mut self, cur: &mut ParamCursor) -> (r: Result<()>)
        requires
            old(cur)@.more(),
        ensures
            match r {
                Ok(()) => {
                    &&& Header::option(old(self)@, old(cur)@) == Ok::<_, Failure>(
                        (final(self)@, final(cur)@),
                    )
                    &&& 0 <= final(cur)@.left() < old(cur)@.left()
                },
                Err(e) => Header::option(old(self)@, old(cur)@) == Err::<(HeaderView, Cur), _>(e@),
            },
    {
        if cur.take_if("VERSION") {
            let x = cur.string()?;
            self.version = Some(x);
            return Ok(());
        }
        if cur.take_if("PROJECT_NO") {
            let x = cur.string()?;
            self.project_no = Some(x);
            return Ok(());
        }
        let _t = cur.next_token()?;
        Ok(())
    }

    fn read_options(&mut self, cur: &mut ParamCursor) -> (r: Result<()>)
        ensures
            match r {
                Ok(()) => {
                    &&& Header::options(old(self)@, old(cur)@) == Ok::<_, Failure>(
                        (final(self)@, final(cur)@),
                    )
                    &&& final(cur)@.left() <= old(cur)@.left()
                    &&& final(cur)@ == old(cur)@ || final(cur)@.left() >= 0
                },
                Err(e) => Header::options(old(self)@, old(cur)@) == Err::<(HeaderView, Cur), _>(e@),
            },
    {
        let ghost whole = Header::options(self@, cur@);
        while cur.remaining() >= 2
            invariant
                whole == Header::options(self@, cur@),
                whole == Header::options(old(self)@, old(cur)@),
                cur@.left() <= old(cur)@.left(),
                cur@ == old(cur)@ || cur@.left() >= 0,
            decreases cur@.left(),
        {
            self.read_option(cur)?;
        }
        Ok(())
    }
}

impl Header {
    /// What the first parameter says, if there is one, and where the next ones start.
    pub open spec fn head(c: Cur) -> Got<HeaderView> {
        let v = Header::blank();
        if c.more() {
            match read_string(c) {
                Err(f) => Err(f),
                Ok((x, c0)) => {
                    Ok((HeaderView { comment: x, ..v }, c0))
                },
            }
        } else {
            Ok((v, c))
        }
    }

    fn read_head(cur: &mut ParamCursor) -> (r: Result<Self>)
        ensures
            match r {
                Ok(v) => Header::head(old(cur)@) == Ok::<_, Failure>((v@, final(cur)@)),
                Err(e) => Header::head(old(cur)@) == Err::<(HeaderView, Cur), _>(e@),
            },
    {
        let mut node = Header::default();
        if !cur.is_empty() {
            let x = cur.string()?;
            node.comment = x;
        }
        Ok(node)
    }
}

impl Node for Header {
    open spec fn keyword_text() -> Seq<char> {
        "HEADER"@
    }

    open spec fn parsed(tree: Tree) -> std::result::Result<HeaderView, Failure> {
        match Header::head(Cur::start(tree)) {
            Err(f) => Err(f),
            Ok((v, c)) => match Header::options(v, c) {
                Err(f) => Err(f),
                Ok((v, _)) => Ok(v),
            },
        }
    }

    open spec fn body(v: HeaderView, p: Page) -> Written {
        let p = p.quote_line(v.comment);
        let p = match v.version { Some(x) if x.len() > 0 => p.quote("VERSION"@, x), _ => p };
        let p = match v.project_no { Some(x) if x.len() > 0 => p.word("PROJECT_NO"@, x), _ => p };
        Ok(p)
    }

    open spec fn block(v: HeaderView, p: Page) -> Written {
        enclosed("HEADER"@, Self::body(v, p.begin("HEADER"@)))
    }

    fn keyword() -> (r: &'static str) {
        "HEADER"
    }

    fn parse(block: &Block) -> (r: Result<Self>) {
        let mut cur = ParamCursor::new(block);
        let mut node = Header::read_head(&mut cur)?;
        node.read_options(&mut cur)?;
        Ok(node)
    }

    fn write_body(&self, w: &mut Writer) -> (r: Result<()>) {
        w.quote_line(self.comment.as_str());
        if let Some(x) = &self.version {
            if x.as_str().unicode_len() > 0 {
                w.quote("VERSION", x.as_str());
            }
        }
        if let Some(x) = &self.project_no {
            if x.as_str().unicode_len() > 0 {
                w.word("PROJECT_NO", x.as_str());
            }
        }
        Ok(())
    }

    fn write_block(&self, w: &mut Writer) -> (r: Result<()>) {
        w.begin_block("HEADER");
        self.write_body(w)?;
        w.end_block("HEADER");
        Ok(())
    }
}

} // verus!
