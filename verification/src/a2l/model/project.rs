//! `PROJECT`: reading a project from the tokens of a text, and writing it.

use crate::a2l::block::{Block, Tree, build_block_tree, children_of, first_named, tree_of};
use crate::a2l::error::{Error, Failure, Result};
use crate::a2l::model::base::{NamedFields, NamedFieldsView};
use crate::a2l::model::header::{Header, HeaderView};
use crate::a2l::model::module::{Module, ModuleView};
use crate::a2l::model::parts::{all_kept, 
    Child, children_parsed, children_written, node_parsed, node_written, parse_node, read_children,
    write_children, write_node,
};
use crate::a2l::model::unsupported::{UnsupportedNode, UnsupportedNodeView};
use crate::a2l::node::{Node, enclosed};
use crate::a2l::params::{Cur, Got, ParamCursor, read_ident, read_string};
use crate::a2l::token::{Tok, Token, toks};
use crate::views::{none_yet, opt, opts, views};
use crate::a2l::writer::{Page, Style, Writer, WriterOptions, Written, Stopped};
use crate::text::same_text;
use vstd::prelude::*;

verus! {

/// `PROJECT`: the root of an A2L file.
#[derive(Debug, Clone, PartialEq, Eq)]
pub struct Project {
    pub named: NamedFields,
    pub children: Vec<ProjectChild>,
}

/// [`Project`] as a mathematical value.
pub struct ProjectView {
    pub named: NamedFieldsView,
    pub children: Seq<ProjectChildView>,
}

impl View for Project {
    type V = ProjectView;

    open spec fn view(&self) -> ProjectView {
        ProjectView {
            named: self.named@,
            children: views(self.children@),
        }
    }
}

impl Project {
    /// The node before anything is read.
    pub open spec fn blank() -> ProjectView {
        ProjectView {
            named: NamedFields::blank(),
            children: Seq::empty(),
        }
    }
}

impl Default for Project {
    fn default() -> (r: Self)
        ensures
            r@ == Project::blank(),
    {
        Project {
            named: NamedFields::default(),
            children: none_yet(),
        }
    }
}

impl Project {
    /// A name, and a description if one follows.
    pub open spec fn head(c: Cur) -> Got<(Seq<char>, Option<Seq<char>>)> {
        match read_ident(c) {
            Err(f) => Err(f),
            Ok((name, m)) => if m.more() {
                match read_string(m) {
                    Err(f) => Err(f),
                    Ok((text, n)) => Ok(((name, Some(text)), n)),
                }
            } else {
                Ok(((name, None), m))
            },
        }
    }

    fn read_head(cur: &mut ParamCursor) -> (r: Result<(String, Option<String>)>)
        ensures
            match r {
                Ok((n, d)) => Project::head(old(cur)@) == Ok::<_, Failure>(
                    ((n@, opt(d)), final(cur)@),
                ),
                Err(e) => Project::head(old(cur)@) == Err::<
                    ((Seq<char>, Option<Seq<char>>), Cur),
                    _,
                >(e@),
            },
    {
        let name = cur.ident()?;
        if cur.is_empty() {
            return Ok((name, None));
        }
        let description = cur.string()?;
        Ok((name, Some(description)))
    }
}

/// A block within the node.
#[derive(Debug, Clone, PartialEq, Eq)]
pub enum ProjectChild {
    /// `/begin HEADER`.
    Header(Header),
    /// `/begin MODULE`.
    Module(Module),
    Unsupported(UnsupportedNode),
}

/// [`ProjectChild`] as a mathematical value.
pub enum ProjectChildView {
    Header(HeaderView),
    Module(ModuleView),
    Unsupported(UnsupportedNodeView),
}

impl View for ProjectChild {
    type V = ProjectChildView;

    open spec fn view(&self) -> ProjectChildView {
        match self {
            ProjectChild::Header(n) => ProjectChildView::Header(n@),
            ProjectChild::Module(n) => ProjectChildView::Module(n@),
            ProjectChild::Unsupported(n) => ProjectChildView::Unsupported(n@),
        }
    }
}

impl Child for ProjectChild {
    open spec fn parsed(tree: Tree) -> std::result::Result<ProjectChildView, Failure> {
        if tree.keyword == "HEADER"@ {
            match node_parsed::<Header>(tree) {
                Ok(n) => Ok(ProjectChildView::Header(n)),
                Err(f) => Err(f),
            }
        } else if tree.keyword == "MODULE"@ {
            match node_parsed::<Module>(tree) {
                Ok(n) => Ok(ProjectChildView::Module(n)),
                Err(f) => Err(f),
            }
        } else {
            Ok(ProjectChildView::Unsupported(UnsupportedNode::of(tree)))
        }
    }

    open spec fn kept(&self, tree: Tree) -> bool {
        match self {
            ProjectChild::Header(n) => n.keeps(tree),
            ProjectChild::Module(n) => n.keeps(tree),
            ProjectChild::Unsupported(n) => n.kept(tree),
        }
    }

    open spec fn written(v: ProjectChildView, p: Page) -> Written {
        match v {
            ProjectChildView::Header(n) => node_written::<Header>(n, p),
            ProjectChildView::Module(n) => node_written::<Module>(n, p),
            ProjectChildView::Unsupported(n) => UnsupportedNode::written(n, p),
        }
    }

    fn read(block: &Block) -> (r: Result<Self>) {
        if same_text(block.keyword.as_str(), "HEADER") {
            return Ok(ProjectChild::Header(parse_node::<Header>(block)?));
        }
        if same_text(block.keyword.as_str(), "MODULE") {
            return Ok(ProjectChild::Module(parse_node::<Module>(block)?));
        }
        Ok(ProjectChild::Unsupported(UnsupportedNode::from_block(block)))
    }

    fn write(&self, w: &mut Writer) -> (r: Result<()>) {
        self.write_block(w)
    }
}

impl ProjectChild {
    pub fn write_block(&self, w: &mut Writer) -> (r: Result<()>)
        ensures
            match r {
                Ok(()) => ProjectChild::written(self@, old(w)@) == Ok::<Page, Stopped>(final(w)@),
                Err(e) => ProjectChild::written(self@, old(w)@) == Err::<Page, Stopped>(final(w)@.stopped(e@)),
            },
    {
        match self {
            ProjectChild::Header(n) => write_node(n, w),
            ProjectChild::Module(n) => write_node(n, w),
            ProjectChild::Unsupported(n) => n.write_block(w),
        }
    }
}

impl Node for Project {
    open spec fn keyword_text() -> Seq<char> {
        "PROJECT"@
    }

    open spec fn parsed(tree: Tree) -> std::result::Result<ProjectView, Failure> {
        match Project::head(Cur::start(tree)) {
            Err(f) => Err(f),
            Ok(((name, description), _)) => match children_parsed::<ProjectChild>(
                children_of(tree.items),
                0,
            ) {
                Err(f) => Err(f),
                Ok(children) => Ok(
                    ProjectView { named: NamedFieldsView { name, description }, children },
                ),
            },
        }
    }

    open spec fn keeps(&self, tree: Tree) -> bool {
        all_kept(self.children@, tree)
    }

    open spec fn body(v: ProjectView, p: Page) -> Written {
        let p = match v.named.description { Some(x) => p.quote_line(x), None => p.quote_line(""@) };
        children_written::<ProjectChild>(v.children, 0, true, p)
    }

    open spec fn block(v: ProjectView, p: Page) -> Written {
        enclosed("PROJECT"@, Self::body(v, p.begin("PROJECT"@).line(v.named.name)))
    }

    fn keyword() -> (r: &'static str) {
        "PROJECT"
    }

    fn parse(block: &Block) -> (r: Result<Self>) {
        let mut cur = ParamCursor::new(block);
        let (name, description) = Project::read_head(&mut cur)?;
        let children = read_children::<ProjectChild>(block)?;
        Ok(Project { named: NamedFields { name, description }, children })
    }

    fn write_body(&self, w: &mut Writer) -> (r: Result<()>) {
        match &self.named.description {
            Some(x) => w.quote_line(x.as_str()),
            None => w.quote_line(""),
        }
        write_children(&self.children, true, w)
    }

    fn write_block(&self, w: &mut Writer) -> (r: Result<()>) {
        w.begin_block("PROJECT");
        w.line(self.named.name.as_str());
        self.write_body(w)?;
        w.end_block("PROJECT");
        Ok(())
    }
}

/// The project that tokens stand for, or how reading it fails.
pub open spec fn project_of(s: Seq<Tok>) -> std::result::Result<ProjectView, Failure> {
    match tree_of(s) {
        Err(f) => Err(f),
        Ok(root) => match first_named(children_of(root.items), "PROJECT"@) {
            Some(tree) => Project::parsed(tree),
            None => Err(Failure::Parse(0, "no /begin PROJECT block found"@)),
        },
    }
}

/// The headers among children, in order.
pub open spec fn headers_of(s: Seq<ProjectChildView>) -> Seq<HeaderView>
    decreases s.len(),
{
    if s.len() == 0 {
        Seq::empty()
    } else {
        match s.last() {
            ProjectChildView::Header(h) => headers_of(s.drop_last()).push(h),
            _ => headers_of(s.drop_last()),
        }
    }
}

/// The modules among children, in order.
pub open spec fn modules_of(s: Seq<ProjectChildView>) -> Seq<ModuleView>
    decreases s.len(),
{
    if s.len() == 0 {
        Seq::empty()
    } else {
        match s.last() {
            ProjectChildView::Module(m) => modules_of(s.drop_last()).push(m),
            _ => modules_of(s.drop_last()),
        }
    }
}

/// The views of borrowed modules.
pub open spec fn module_views(s: Seq<&Module>) -> Seq<ModuleView> {
    Seq::new(s.len(), |i: int| s[i]@)
}

impl Project {
    /// The project that the tokens of a text stand for. The tokens come from
    /// [`tokenize`](crate::a2l::token::tokenize), with the numbers filled in, and what each
    /// gives together with the next parameter of its block.
    pub fn parse_tokens(tokens: &[Token]) -> (r: Result<Self>)
        ensures
            match r {
                Ok(v) => {
                    &&& project_of(toks(tokens@)) == Ok::<ProjectView, Failure>(v@)
                    &&& tree_of(toks(tokens@)) matches Ok(root) && first_named(
                        children_of(root.items),
                        "PROJECT"@,
                    ) matches Some(tree) && v.keeps(tree)
                },
                Err(e) => project_of(toks(tokens@)) == Err::<ProjectView, Failure>(e@),
            },
    {
        let root = build_block_tree(tokens)?;
        match root.child("PROJECT") {
            Some(block) => Project::parse(block),
            None => Err(Error::parse(0, "no /begin PROJECT block found".to_string())),
        }
    }

    pub fn write_string(&self) -> (r: Result<String>)
        ensures
            match r {
                Ok(s) => Project::block(
                    self@,
                    Page {
                        text: Seq::empty(),
                        depth: 0,
                        style: Style { columns: 3, write_a2ml: true, indent: "  "@ },
                    },
                ) matches Ok(p) && s@ == p.text,
                Err(e) => Project::block(
                    self@,
                    Page {
                        text: Seq::empty(),
                        depth: 0,
                        style: Style { columns: 3, write_a2ml: true, indent: "  "@ },
                    },
                ) matches Err(s) && s.failure == e@,
            },
    {
        self.write_string_with(&WriterOptions::default())
    }

    pub fn write_string_with(&self, opts: &WriterOptions) -> (r: Result<String>)
        ensures
            match r {
                Ok(s) => Project::block(
                    self@,
                    Page { text: Seq::empty(), depth: 0, style: opts@ },
                ) matches Ok(p) && s@ == p.text,
                Err(e) => Project::block(
                    self@,
                    Page { text: Seq::empty(), depth: 0, style: opts@ },
                ) matches Err(s) && s.failure == e@,
            },
    {
        let mut w = Writer::new(opts.clone());
        self.write_block(&mut w)?;
        Ok(w.into_string())
    }

    /// The first header.
    pub fn header(&self) -> (r: Option<&Header>)
        ensures
            match r {
                Some(h) => headers_of(self@.children).len() > 0 && h@ == headers_of(
                    self@.children,
                )[0],
                None => headers_of(self@.children).len() == 0,
            },
    {
        let ghost all = self@.children;
        let mut i: usize = 0;
        proof {
            assert(all.subrange(0, 0) =~= Seq::<ProjectChildView>::empty());
        }
        while i < self.children.len()
            invariant
                i <= self.children@.len(),
                all == views(self.children@),
                all == self@.children,
                headers_of(all.subrange(0, i as int)).len() == 0,
            decreases self.children@.len() - i,
        {
            proof {
                let next = all.subrange(0, i + 1);
                assert(next.drop_last() =~= all.subrange(0, i as int));
                assert(next.last() == self.children@[i as int]@);
            }
            match &self.children[i] {
                ProjectChild::Header(h) => {
                    proof {
                        lemma_headers_prefix(all, i + 1);
                    }
                    return Some(h);
                },
                _ => {},
            }
            i += 1;
        }
        proof {
            assert(all.subrange(0, i as int) =~= all);
        }
        None
    }

    /// The modules, in order.
    pub fn modules(&self) -> (r: Vec<&Module>)
        ensures
            module_views(r@) == modules_of(self@.children),
    {
        let ghost all = self@.children;
        let mut out: Vec<&Module> = Vec::new();
        let mut i: usize = 0;
        proof {
            assert(all.subrange(0, 0) =~= Seq::<ProjectChildView>::empty());
            assert(module_views(out@) =~= modules_of(all.subrange(0, 0)));
        }
        while i < self.children.len()
            invariant
                i <= self.children@.len(),
                all == views(self.children@),
                module_views(out@) == modules_of(all.subrange(0, i as int)),
            decreases self.children@.len() - i,
        {
            let ghost before = module_views(out@);
            proof {
                let next = all.subrange(0, i + 1);
                assert(next.drop_last() =~= all.subrange(0, i as int));
                assert(next.last() == self.children@[i as int]@);
            }
            match &self.children[i] {
                ProjectChild::Module(m) => {
                    out.push(m);
                    proof {
                        assert(module_views(out@) =~= before.push(m@));
                    }
                },
                _ => {},
            }
            i += 1;
        }
        proof {
            assert(all.subrange(0, i as int) =~= all);
        }
        out
    }
}

/// The headers of the first children are the first headers.
proof fn lemma_headers_prefix(s: Seq<ProjectChildView>, n: int)
    requires
        0 <= n <= s.len(),
    ensures
        headers_of(s.subrange(0, n)).len() <= headers_of(s).len(),
        forall|i: int|
            0 <= i < headers_of(s.subrange(0, n)).len() ==> headers_of(s)[i] == headers_of(
                s.subrange(0, n),
            )[i],
    decreases s.len(),
{
    if n == s.len() {
        assert(s.subrange(0, n) =~= s);
    } else {
        lemma_headers_prefix(s.drop_last(), n);
        assert(s.drop_last().subrange(0, n) =~= s.subrange(0, n));
    }
}

} // verus!
