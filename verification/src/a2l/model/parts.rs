//! What the nodes of the model have in common: values that several of them read and write,
//! and the blocks within them.

use crate::a2l::block::{block_views, children_of, Block, Tree};
use crate::a2l::error::{Error, Failure, Result};
use crate::a2l::model::enums::A2lKeyword;
use crate::a2l::node::Node;
use crate::a2l::number::{in_order, num_max, num_min, Num, Number};
use crate::a2l::params::{int_in, read_float, read_int, read_token, A2lInt, Cur, Got, ParamCursor};
use crate::views::{append, none_yet, views};
use crate::a2l::writer::{Page, Writer, Written, Stopped};
use crate::text::{debug_of, debug_text, dec_int, dec_int_text, hex, hex_text};
use vstd::prelude::*;

verus! {

/// A keyword of an enumeration; any other text fails with the message given and the text.
pub open spec fn read_enum<T: A2lKeyword>(c: Cur, message: Seq<char>) -> Got<T> {
    match read_token(c) {
        Err(f) => Err(f),
        Ok((t, n)) => match T::named(t.text) {
            Some(e) => Ok((e, n)),
            None => Err(Failure::Parse(t.line, message + debug_of(t.text))),
        },
    }
}

/// A keyword of an enumeration; any other text stands for the given value.
pub open spec fn read_enum_or<T: A2lKeyword>(c: Cur, other: T) -> Got<T> {
    match read_token(c) {
        Err(f) => Err(f),
        Ok((t, n)) => match T::named(t.text) {
            Some(e) => Ok((e, n)),
            None => Ok((other, n)),
        },
    }
}

/// Two floating-point numbers.
pub open spec fn read_pair(c: Cur) -> Got<(Num, Num)> {
    match read_float(c) {
        Err(f) => Err(f),
        Ok((a, m)) => match read_float(m) {
            Err(f) => Err(f),
            Ok((b, n)) => Ok(((a, b), n)),
        },
    }
}

/// Two floating-point numbers, the lesser one first.
pub open spec fn read_limits(c: Cur) -> Got<(Num, Num)> {
    match read_pair(c) {
        Err(f) => Err(f),
        Ok(((a, b), n)) => Ok(((num_min(a, b), num_max(a, b)), n)),
    }
}

/// A number of 32-bit integers.
pub open spec fn read_ints(c: Cur, n: nat) -> Got<Seq<i32>>
    decreases n,
{
    if n == 0 {
        Ok((Seq::empty(), c))
    } else {
        match read_ints(c, (n - 1) as nat) {
            Err(f) => Err(f),
            Ok((s, m)) => match read_int(m, i32::MIN as int, i32::MAX as int) {
                Err(f) => Err(f),
                Ok((v, k)) => Ok((s.push(v as i32), k)),
            },
        }
    }
}

/// The integer at the cursor, if one is there.
pub open spec fn dim_at(c: Cur) -> Option<int> {
    if c.more() {
        int_in(c.here().text, i32::MIN as int, i32::MAX as int)
    } else {
        None
    }
}

/// The integers at the cursor behind those that are there, at most five in all.
pub open spec fn dims_after(c: Cur, done: Seq<i32>) -> (Seq<i32>, Cur)
    decreases 5 - done.len(),
{
    if done.len() >= 5 {
        (done, c)
    } else {
        match dim_at(c) {
            Some(v) => dims_after(c.step(), done.push(v as i32)),
            None => (done, c),
        }
    }
}

/// The integers at the cursor, at most five. There may be none.
pub open spec fn read_dims(c: Cur) -> Got<Seq<i32>> {
    Ok(dims_after(c, Seq::empty()))
}

pub(crate) fn enum_value<T: A2lKeyword>(cur: &mut ParamCursor, message: &str) -> (r: Result<T>)
    ensures
        match r {
            Ok(v) => {
                &&& read_enum::<T>(old(cur)@, message@) == Ok::<_, Failure>((v, final(cur)@))
                &&& 0 <= final(cur)@.left() < old(cur)@.left()
            },
            Err(e) => read_enum::<T>(old(cur)@, message@) == Err::<(T, Cur), _>(e@),
        },
{
    let t = cur.next_token()?;
    match T::from_keyword(t.text.as_str()) {
        Some(v) => Ok(v),
        None => {
            let mut m = message.to_string();
            m.append(debug_text(t.text.as_str()).as_str());
            Err(Error::parse(t.line, m))
        },
    }
}

pub(crate) fn enum_or<T: A2lKeyword>(cur: &mut ParamCursor, other: T) -> (r: Result<T>)
    ensures
        match r {
            Ok(v) => {
                &&& read_enum_or(old(cur)@, other) == Ok::<_, Failure>((v, final(cur)@))
                &&& 0 <= final(cur)@.left() < old(cur)@.left()
            },
            Err(e) => read_enum_or(old(cur)@, other) == Err::<(T, Cur), _>(e@),
        },
{
    let t = cur.next_token()?;
    match T::from_keyword(t.text.as_str()) {
        Some(v) => Ok(v),
        None => Ok(other),
    }
}

pub(crate) fn float_pair(cur: &mut ParamCursor) -> (r: Result<(Number, Number)>)
    ensures
        match r {
            Ok((a, b)) => {
                &&& read_pair(old(cur)@) == Ok::<_, Failure>(((a@, b@), final(cur)@))
                &&& 0 <= final(cur)@.left() < old(cur)@.left()
            },
            Err(e) => read_pair(old(cur)@) == Err::<((Num, Num), Cur), _>(e@),
        },
{
    let a = cur.float()?;
    let b = cur.float()?;
    Ok((a, b))
}

pub(crate) fn limits(cur: &mut ParamCursor) -> (r: Result<(Number, Number)>)
    ensures
        match r {
            Ok((a, b)) => {
                &&& read_limits(old(cur)@) == Ok::<_, Failure>(((a@, b@), final(cur)@))
                &&& 0 <= final(cur)@.left() < old(cur)@.left()
            },
            Err(e) => read_limits(old(cur)@) == Err::<((Num, Num), Cur), _>(e@),
        },
{
    let (a, b) = float_pair(cur)?;
    Ok(in_order(&a, &b))
}

pub(crate) fn int_array<const N: usize>(cur: &mut ParamCursor) -> (r: Result<[i32; N]>)
    requires
        old(cur)@.left() >= 0,
    ensures
        match r {
            Ok(v) => {
                &&& read_ints(old(cur)@, N as nat) == Ok::<_, Failure>((v@, final(cur)@))
                &&& 0 <= final(cur)@.left() <= old(cur)@.left()
            },
            Err(e) => read_ints(old(cur)@, N as nat) == Err::<(Seq<i32>, Cur), _>(e@),
        },
{
    let mut out: [i32; N] = [0; N];
    let mut i: usize = 0;
    proof {
        assert(out@.subrange(0, 0) =~= Seq::<i32>::empty());
    }
    while i < N
        invariant
            i <= N,
            0 <= cur@.left() <= old(cur)@.left(),
            read_ints(old(cur)@, i as nat) == Ok::<_, Failure>(
                (out@.subrange(0, i as int), cur@),
            ),
        decreases N - i,
    {
        let ghost before = out@.subrange(0, i as int);
        let v: i32 = match cur.sint::<i32>() {
            Ok(v) => v,
            Err(e) => {
                proof {
                    lemma_ints_fail(old(cur)@, (i + 1) as nat, N as nat);
                }
                return Err(e);
            },
        };
        out[i] = v;
        i += 1;
        proof {
            assert(out@.subrange(0, i as int) =~= before.push(v));
        }
    }
    proof {
        assert(out@.subrange(0, i as int) =~= out@);
    }
    Ok(out)
}

/// A failure on the way is the failure of the whole.
proof fn lemma_ints_fail(c: Cur, m: nat, n: nat)
    requires
        m <= n,
        read_ints(c, m) is Err,
    ensures
        read_ints(c, n) == read_ints(c, m),
    decreases n,
{
    if m < n {
        lemma_ints_fail(c, m, (n - 1) as nat);
    }
}

pub(crate) fn matrix_dim(cur: &mut ParamCursor) -> (r: Vec<i32>)
    requires
        old(cur)@.left() >= 0,
    ensures
        read_dims(old(cur)@) == Ok::<_, Failure>((r@, final(cur)@)),
        0 <= final(cur)@.left() <= old(cur)@.left(),
{
    let mut dims: Vec<i32> = Vec::new();
    while dims.len() < 5
        invariant
            dims@.len() <= 5,
            0 <= cur@.left() <= old(cur)@.left(),
            dims_after(old(cur)@, Seq::empty()) == dims_after(cur@, dims@),
        decreases 5 - dims@.len(),
    {
        let found: Option<i32> = match cur.peek() {
            Some(t) => <i32 as A2lInt>::parse_a2l(t.text.as_str()),
            None => None,
        };
        match found {
            Some(v) => {
                let _ = cur.next_token();
                dims.push(v);
            },
            None => {
                return dims;
            },
        }
    }
    dims
}

/// Integers in decimal, with blanks between them.
pub open spec fn listed(v: Seq<i32>) -> Seq<char>
    decreases v.len(),
{
    if v.len() == 0 {
        Seq::empty()
    } else if v.len() == 1 {
        dec_int(v[0] as int)
    } else {
        listed(v.drop_last()) + " "@ + dec_int(v.last() as int)
    }
}

/// Integers in decimal, with blanks between them.
pub(crate) fn dims_text(v: &[i32]) -> (r: String)
    ensures
        r@ == listed(v@),
{
    let mut out = String::new();
    let mut i: usize = 0;
    proof {
        assert(out@ =~= listed(v@.subrange(0, 0)));
    }
    while i < v.len()
        invariant
            i <= v@.len(),
            out@ == listed(v@.subrange(0, i as int)),
        decreases v@.len() - i,
    {
        proof {
            let next = v@.subrange(0, i + 1);
            assert(next.drop_last() =~= v@.subrange(0, i as int));
            assert(next.last() == v@[i as int]);
        }
        let ghost before = out@;
        if i > 0 {
            out.append(" ");
        }
        out.append(dec_int_text(v[i] as i64).as_str());
        i += 1;
        proof {
            let now = v@.subrange(0, i as int);
            if i == 1 {
                assert(before =~= Seq::<char>::empty());
                assert(out@ =~= dec_int(now[0] as int));
            }
            assert(out@ == listed(now));
        }
    }
    proof {
        assert(v@.subrange(0, i as int) =~= v@);
    }
    out
}

/// A number in hexadecimal, with its mark.
pub open spec fn hex_form(n: nat) -> Seq<char> {
    "0x"@ + hex(n)
}

/// A number in hexadecimal, with its mark.
pub(crate) fn to_hex(n: u64) -> (r: String)
    ensures
        r@ == hex_form(n as nat),
{
    let mut s = "0x".to_string();
    s.append(hex_text(n).as_str());
    s
}

/// The keyword, or what is written where there is none.
pub open spec fn word_or(w: Option<Seq<char>>, other: Seq<char>) -> Seq<char> {
    match w {
        Some(w) => w,
        None => other,
    }
}

/// The keyword of a value, or what is written where it has none.
pub(crate) fn keyword_or<T: A2lKeyword>(v: T, other: &'static str) -> (r: &'static str)
    ensures
        r@ == word_or(v.word(), other@),
{
    match v.as_keyword() {
        Some(w) => w,
        None => other,
    }
}

/// The node that a block stands for, or how reading it fails.
#[verifier::opaque]
pub open spec fn node_parsed<T: Node>(tree: Tree) -> std::result::Result<T::V, Failure> {
    T::parsed(tree)
}

/// What is written for a node.
#[verifier::opaque]
pub open spec fn node_written<T: Node>(v: T::V, p: Page) -> Written {
    T::block(v, p)
}

pub(crate) fn parse_node<T: Node>(block: &Block) -> (r: Result<T>)
    ensures
        match r {
            Ok(v) => {
                &&& node_parsed::<T>(block@) == Ok::<T::V, Failure>(v@)
                &&& v.keeps(block@)
            },
            Err(e) => node_parsed::<T>(block@) == Err::<T::V, Failure>(e@),
        },
{
    proof {
        reveal(node_parsed);
    }
    T::parse(block)
}

pub(crate) fn write_node<T: Node>(node: &T, w: &mut Writer) -> (r: Result<()>)
    ensures
        match r {
            Ok(()) => node_written::<T>(node@, old(w)@) == Ok::<Page, Stopped>(final(w)@),
            Err(e) => node_written::<T>(node@, old(w)@) == Err::<Page, Stopped>(final(w)@.stopped(e@)),
        },
{
    proof {
        reveal(node_written);
    }
    node.write_block(w)
}

/// What stands within a node as a block.
pub trait Child: Sized + View {
    /// What a block stands for, or how reading it fails.
    spec fn parsed(tree: Tree) -> std::result::Result<Self::V, Failure>;

    /// Whether the blocks within that have no type of their own stand in it as they stand in
    /// a block, down to the lines and the numbers of their tokens.
    spec fn kept(&self, tree: Tree) -> bool;

    /// What is written for it.
    spec fn written(v: Self::V, p: Page) -> Written;

    fn read(block: &Block) -> (r: Result<Self>)
        ensures
            match r {
                Ok(v) => {
                    &&& Self::parsed(block@) == Ok::<Self::V, Failure>(v@)
                    &&& v.kept(block@)
                },
                Err(e) => Self::parsed(block@) == Err::<Self::V, Failure>(e@),
            },
    ;

    fn write(&self, w: &mut Writer) -> (r: Result<()>)
        ensures
            match r {
                Ok(()) => Self::written(self@, old(w)@) == Ok::<Page, Stopped>(final(w)@),
                Err(e) => Self::written(self@, old(w)@) == Err::<Page, Stopped>(final(w)@.stopped(e@)),
            },
    ;
}

/// What the blocks from an index on stand for, or how reading the first bad one fails.
pub open spec fn children_parsed<T: Child>(blocks: Seq<Tree>, i: int) -> std::result::Result<
    Seq<T::V>,
    Failure,
>
    decreases blocks.len() - i,
{
    if i < 0 || i >= blocks.len() {
        Ok(Seq::empty())
    } else {
        match T::parsed(blocks[i]) {
            Err(f) => Err(f),
            Ok(v) => match children_parsed::<T>(blocks, i + 1) {
                Err(f) => Err(f),
                Ok(rest) => Ok(seq![v] + rest),
            },
        }
    }
}

/// Whether the children are those of a block, with what has no type of its own as it stands
/// there.
#[verifier::opaque]
pub open spec fn all_kept<T: Child>(children: Seq<T>, tree: Tree) -> bool {
    &&& children.len() == children_of(tree.items).len()
    &&& forall|i: int|
        0 <= i < children.len() ==> (#[trigger] children[i]).kept(children_of(tree.items)[i])
}

/// What is written for the children from an index on, with an empty line before each if
/// they are spaced.
pub open spec fn children_written<T: Child>(s: Seq<T::V>, i: int, spaced: bool, p: Page) -> Written
    decreases s.len() - i,
{
    if i < 0 || i >= s.len() {
        Ok(p)
    } else {
        match T::written(s[i], if spaced { p.blank() } else { p }) {
            Err(f) => Err(f),
            Ok(q) => children_written::<T>(s, i + 1, spaced, q),
        }
    }
}

/// What stands behind what is done.
spec fn behind<T>(done: Seq<T>, rest: std::result::Result<Seq<T>, Failure>) -> std::result::Result<
    Seq<T>,
    Failure,
> {
    match rest {
        Err(f) => Err(f),
        Ok(s) => Ok(done + s),
    }
}

pub(crate) fn read_children<T: Child>(block: &Block) -> (r: Result<Vec<T>>)
    ensures
        match r {
            Ok(v) => {
                &&& children_parsed::<T>(children_of(block@.items), 0) == Ok::<_, Failure>(views(v@))
                &&& all_kept(v@, block@)
            },
            Err(e) => children_parsed::<T>(children_of(block@.items), 0) == Err::<Seq<T::V>, _>(
                e@,
            ),
        },
{
    let blocks = block.children();
    let ghost all = children_of(block@.items);
    let mut out: Vec<T> = none_yet();
    let mut i: usize = 0;
    proof {
        if let Ok(s) = children_parsed::<T>(all, 0) {
            assert(Seq::<T::V>::empty() + s =~= s);
        }
    }
    while i < blocks.len()
        invariant
            i <= blocks@.len(),
            all == block_views(blocks@),
            all == children_of(block@.items),
            out@.len() == i,
            forall|k: int| 0 <= k < i ==> (#[trigger] out@[k]).kept(all[k]),
            children_parsed::<T>(all, 0) == behind(
                views(out@),
                children_parsed::<T>(all, i as int),
            ),
        decreases blocks@.len() - i,
    {
        let ghost before = views(out@);
        let b = blocks[i];
        proof {
            assert(all[i as int] == b@);
        }
        let v = T::read(b)?;
        append(&mut out, v);
        proof {
            if let Ok(s) = children_parsed::<T>(all, i + 1) {
                assert(before + (seq![v@] + s) =~= before.push(v@) + s);
            }
        }
        i += 1;
    }
    proof {
        reveal(all_kept);
        assert(views(out@) + Seq::<T::V>::empty() =~= views(out@));
    }
    Ok(out)
}

pub(crate) fn write_children<T: Child>(children: &Vec<T>, spaced: bool, w: &mut Writer) -> (r:
    Result<()>)
    ensures
        match r {
            Ok(()) => children_written::<T>(
                views(children@),
                0,
                spaced,
                old(w)@
            ) == Ok::<Page, Stopped>(final(w)@),
            Err(e) => children_written::<T>(
                views(children@),
                0,
                spaced,
                old(w)@
            ) == Err::<Page, Stopped>(final(w)@.stopped(e@)),
        },
{
    let mut i: usize = 0;
    while i < children.len()
        invariant
            i <= children@.len(),
            children_written::<T>(views(children@), 0, spaced, old(w)@) == children_written::<T>(
                views(children@),
                i as int,
                spaced,
                w@,
            ),
        decreases children@.len() - i,
    {
        if spaced {
            w.blank_line();
        }
        children[i].write(w)?;
        i += 1;
    }
    Ok(())
}

} // verus!
