//! `TRANSFORMER`, `TRANSFORMER_IN_OBJECTS` and `TRANSFORMER_OUT_OBJECTS`.

use crate::a2l::block::{Block, Tree};
use crate::a2l::error::{Failure, Result};
use crate::a2l::model::base::ReferenceFields;
use crate::a2l::model::enums::{A2lKeyword, TriggerType};
use crate::a2l::model::parts::{enum_or, read_enum_or};
use crate::a2l::node::{Node, enclosed};
use crate::a2l::params::{Cur, ParamCursor, read_ident, read_string, read_uint};
use crate::views::{append, none_yet, opt, views};
use crate::a2l::writer::{Page, Writer, Written};
use crate::text::{dec, dec_text};
use vstd::prelude::*;

verus! {

/// `TRANSFORMER`: code that transforms objects.
#[derive(Debug, Clone, PartialEq, Eq)]
pub struct Transformer {
    pub name: String,
    pub version: String,
    pub executable32: String,
    pub executable64: String,
    pub timeout: u32,
    pub trigger: TriggerType,
    pub inverse_transformer: Option<String>,
}

/// [`Transformer`] as a mathematical value.
pub struct TransformerView {
    pub name: Seq<char>,
    pub version: Seq<char>,
    pub executable32: Seq<char>,
    pub executable64: Seq<char>,
    pub timeout: u32,
    pub trigger: TriggerType,
    pub inverse_transformer: Option<Seq<char>>,
}

impl View for Transformer {
    type V = TransformerView;

    open spec fn view(&self) -> TransformerView {
        TransformerView {
            name: self.name@,
            version: self.version@,
            executable32: self.executable32@,
            executable64: self.executable64@,
            timeout: self.timeout,
            trigger: self.trigger,
            inverse_transformer: opt(self.inverse_transformer),
        }
    }
}

impl Node for Transformer {
    open spec fn keyword_text() -> Seq<char> {
        "TRANSFORMER"@
    }

    open spec fn parsed(tree: Tree) -> std::result::Result<TransformerView, Failure> {
        match read_ident(Cur::start(tree)) {
            Err(f) => Err(f),
            Ok((name, c0)) => {
                match read_string(c0) {
                    Err(f) => Err(f),
                    Ok((version, c1)) => {
                        match read_string(c1) {
                            Err(f) => Err(f),
                            Ok((executable32, c2)) => {
                                match read_string(c2) {
                                    Err(f) => Err(f),
                                    Ok((executable64, c3)) => {
                                        match read_uint(c3, u32::MAX as int) {
                                            Err(f) => Err(f),
                                            Ok((timeout, c4)) => {
                                                match read_enum_or(c4, TriggerType::ON_CHANGE) {
                                                    Err(f) => Err(f),
                                                    Ok((trigger, c5)) => {
                                                        match read_ident(c5) {
                                                            Err(f) => Err(f),
                                                            Ok((inverse, c6)) => {
                                                                Ok(
                                                                    TransformerView {
                                                                        name,
                                                                        version,
                                                                        executable32,
                                                                        executable64,
                                                                        timeout: timeout as u32,
                                                                        trigger,
                                                                        inverse_transformer: Some(inverse)
                                                                    }
                                                                )
                                                            },
                                                        }
                                                    },
                                                }
                                            },
                                        }
                                    },
                                }
                            },
                        }
                    },
                }
            },
        }
    }

    open spec fn body(v: TransformerView, p: Page) -> Written {
        let p = p.quote_line(v.version);
        let p = p.quote_line(v.executable32);
        let p = p.quote_line(v.executable64);
        let p = p.line(dec(v.timeout as nat));
        let p = match v.trigger.word() { Some(kw) => p.line(kw), None => p };
        let p = match v.inverse_transformer {
            Some(x) if x.len() > 0 => p.line(x),
            _ => p.line("NO_INVERSE_TRANSFORMER"@)
        };
        Ok(p)
    }

    open spec fn block(v: TransformerView, p: Page) -> Written {
        enclosed("TRANSFORMER"@, Self::body(v, p.begin("TRANSFORMER "@ + v.name)))
    }

    fn keyword() -> (r: &'static str) {
        "TRANSFORMER"
    }

    fn parse(block: &Block) -> (r: Result<Self>) {
        let mut cursor = ParamCursor::new(block);
        let cur = &mut cursor;
        let name = cur.ident()?;
        let version = cur.string()?;
        let executable32 = cur.string()?;
        let executable64 = cur.string()?;
        let timeout = cur.uint::<u32>()?;
        let trigger = enum_or(cur, TriggerType::ON_CHANGE)?;
        let inverse = cur.ident()?;
        Ok(
            Transformer {
                name,
                version,
                executable32,
                executable64,
                timeout,
                trigger,
                inverse_transformer: Some(inverse),
            },
        )
    }

    fn write_body(&self, w: &mut Writer) -> (r: Result<()>) {
        w.quote_line(self.version.as_str());
        w.quote_line(self.executable32.as_str());
        w.quote_line(self.executable64.as_str());
        w.line(dec_text(self.timeout as u64).as_str());
        if let Some(kw) = self.trigger.as_keyword() {
            w.line(kw);
        }
        match &self.inverse_transformer {
            Some(x) => if x.as_str().unicode_len() > 0 {
                w.line(x.as_str())
            } else {
                w.line("NO_INVERSE_TRANSFORMER")
            },
            None => w.line("NO_INVERSE_TRANSFORMER"),
        }
        Ok(())
    }

    fn write_block(&self, w: &mut Writer) -> (r: Result<()>) {
        let mut s = "TRANSFORMER ".to_string();
        s.append(self.name.as_str());
        w.begin_block(s.as_str());
        self.write_body(w)?;
        w.end_block("TRANSFORMER");
        Ok(())
    }
}

/// `TRANSFORMER_IN_OBJECTS`: names of other objects.
#[derive(Debug, Clone, PartialEq, Eq)]
pub struct TransformerInObjects {
    pub references: Vec<String>,
}

/// [`TransformerInObjects`] as a mathematical value.
pub struct TransformerInObjectsView {
    pub references: Seq<Seq<char>>,
}

impl View for TransformerInObjects {
    type V = TransformerInObjectsView;

    open spec fn view(&self) -> TransformerInObjectsView {
        TransformerInObjectsView {
            references: views(self.references@),
        }
    }
}

impl TransformerInObjects {
    /// The node before anything is read.
    pub open spec fn blank() -> TransformerInObjectsView {
        TransformerInObjectsView {
            references: Seq::empty(),
        }
    }
}

impl Default for TransformerInObjects {
    fn default() -> (r: Self)
        ensures
            r@ == TransformerInObjects::blank(),
    {
        TransformerInObjects {
            references: none_yet(),
        }
    }
}

impl Node for TransformerInObjects {
    open spec fn keyword_text() -> Seq<char> {
        "TRANSFORMER_IN_OBJECTS"@
    }

    open spec fn parsed(tree: Tree) -> std::result::Result<TransformerInObjectsView, Failure> {
        Ok(
            TransformerInObjectsView {
                references: ReferenceFields::rest(
                    ReferenceFields::blank(),
                    Cur::start(tree)
                ).references
            }
        )
    }

    open spec fn body(v: TransformerInObjectsView, p: Page) -> Written {
        let p = p.references(v.references);
        Ok(p)
    }

    open spec fn block(v: TransformerInObjectsView, p: Page) -> Written {
        enclosed("TRANSFORMER_IN_OBJECTS"@, Self::body(v, p.begin("TRANSFORMER_IN_OBJECTS"@)))
    }

    fn keyword() -> (r: &'static str) {
        "TRANSFORMER_IN_OBJECTS"
    }

    fn parse(block: &Block) -> (r: Result<Self>) {
        let mut cur = ParamCursor::new(block);
        let fields = ReferenceFields::take_rest(&mut cur);
        Ok(TransformerInObjects { references: fields.references })
    }

    fn write_body(&self, w: &mut Writer) -> (r: Result<()>) {
        w.references(&self.references);
        Ok(())
    }

    fn write_block(&self, w: &mut Writer) -> (r: Result<()>) {
        w.begin_block("TRANSFORMER_IN_OBJECTS");
        self.write_body(w)?;
        w.end_block("TRANSFORMER_IN_OBJECTS");
        Ok(())
    }
}

/// `TRANSFORMER_OUT_OBJECTS`: names of other objects.
#[derive(Debug, Clone, PartialEq, Eq)]
pub struct TransformerOutObjects {
    pub references: Vec<String>,
}

/// [`TransformerOutObjects`] as a mathematical value.
pub struct TransformerOutObjectsView {
    pub references: Seq<Seq<char>>,
}

impl View for TransformerOutObjects {
    type V = TransformerOutObjectsView;

    open spec fn view(&self) -> TransformerOutObjectsView {
        TransformerOutObjectsView {
            references: views(self.references@),
        }
    }
}

impl TransformerOutObjects {
    /// The node before anything is read.
    pub open spec fn blank() -> TransformerOutObjectsView {
        TransformerOutObjectsView {
            references: Seq::empty(),
        }
    }
}

impl Default for TransformerOutObjects {
    fn default() -> (r: Self)
        ensures
            r@ == TransformerOutObjects::blank(),
    {
        TransformerOutObjects {
            references: none_yet(),
        }
    }
}

impl Node for TransformerOutObjects {
    open spec fn keyword_text() -> Seq<char> {
        "TRANSFORMER_OUT_OBJECTS"@
    }

    open spec fn parsed(tree: Tree) -> std::result::Result<TransformerOutObjectsView, Failure> {
        Ok(
            TransformerOutObjectsView {
                references: ReferenceFields::rest(
                    ReferenceFields::blank(),
                    Cur::start(tree)
                ).references
            }
        )
    }

    open spec fn body(v: TransformerOutObjectsView, p: Page) -> Written {
        let p = p.references(v.references);
        Ok(p)
    }

    open spec fn block(v: TransformerOutObjectsView, p: Page) -> Written {
        enclosed("TRANSFORMER_OUT_OBJECTS"@, Self::body(v, p.begin("TRANSFORMER_OUT_OBJECTS"@)))
    }

    fn keyword() -> (r: &'static str) {
        "TRANSFORMER_OUT_OBJECTS"
    }

    fn parse(block: &Block) -> (r: Result<Self>) {
        let mut cur = ParamCursor::new(block);
        let fields = ReferenceFields::take_rest(&mut cur);
        Ok(TransformerOutObjects { references: fields.references })
    }

    fn write_body(&self, w: &mut Writer) -> (r: Result<()>) {
        w.references(&self.references);
        Ok(())
    }

    fn write_block(&self, w: &mut Writer) -> (r: Result<()>) {
        w.begin_block("TRANSFORMER_OUT_OBJECTS");
        self.write_body(w)?;
        w.end_block("TRANSFORMER_OUT_OBJECTS");
        Ok(())
    }
}

} // verus!
