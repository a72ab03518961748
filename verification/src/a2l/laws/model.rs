//! What the values of the model have to do with what they are read from.

use crate::a2l::block::{grow, Tree, TreeItem};
use crate::a2l::error::Failure;
use crate::a2l::maps::{place, with_entry};
use crate::a2l::model::base::{is_refresh_unit, read_refresh_unit};
use crate::a2l::model::compu::{
    range_total, same_single, with_pair, with_range, with_text, RationalCoeffs, RationalCoeffsView,
};
use crate::a2l::model::enums::{DataSize, DataType};
use crate::a2l::model::header::HeaderView;
use crate::a2l::model::measurement::Measurement;
use crate::a2l::model::module::{Module, ModuleChildView, ModuleView};
use crate::a2l::model::parts::{read_limits, read_pair};
use crate::a2l::model::project::{headers_of, modules_of, ProjectChildView};
use crate::a2l::model::record_layout::{aligned, axis_of, size_of_type, type_for_size};
use crate::a2l::number::{Num, Sng};
use crate::a2l::params::{integer, uint_in, Cur};
use crate::a2l::token::Tok;
use crate::text::same_ignore_case;
use vstd::prelude::*;

verus! {

/// Two limits are the two numbers that are given, the lesser one first. One that is not a number
/// gives way to the other.
pub proof fn law_limits_read(c: Cur)
    ensures
        match read_pair(c) {
            Err(f) => read_limits(c) == Err::<((Num, Num), Cur), Failure>(f),
            Ok(((x, y), n)) => read_limits(c) matches Ok(((a, b), m)) && {
                &&& m == n
                &&& !x.nan && !y.nan ==> a.key <= b.key && ((a == x && b == y) || (a == y && b == x)
                    || (x.key == y.key && (a == x || a == y) && (b == x || b == y)))
                &&& x.nan ==> a == y && b == y
                &&& y.nan && !x.nan ==> a == x && b == x
            },
        },
{
}

/// A pair is added to a table behind the others, unless the table has its first number.
pub proof fn law_first_pair_counts(s: Seq<(Sng, Num)>, key: Sng, value: Num)
    ensures
        (exists|i: int|
            0 <= i < s.len() && !(#[trigger] s[i]).0.nan && !key.nan && s[i].0.key == key.key)
            ==> with_pair(s, key, value) == s,
        (forall|i: int|
            0 <= i < s.len() ==> (#[trigger] s[i]).0.nan || key.nan || s[i].0.key != key.key)
            ==> with_pair(s, key, value) == s.push((key, value)),
{
    if exists|i: int|
        0 <= i < s.len() && !(#[trigger] s[i]).0.nan && !key.nan && s[i].0.key == key.key {
        let i = choose|i: int|
            0 <= i < s.len() && !(#[trigger] s[i]).0.nan && !key.nan && s[i].0.key == key.key;
        assert(same_single(s[i].0, key));
    }
}

/// A text is added to a table for its number, unless the table has one for it; the others are
/// left.
pub proof fn law_first_text_counts(m: Map<i64, Seq<char>>, key: i64, text: Seq<char>, other: i64)
    ensures
        with_text(m, key, text).dom().contains(key),
        with_text(m, key, text)[key] == if m.dom().contains(key) { m[key] } else { text },
        other != key ==> (with_text(m, key, text).dom().contains(other) <==> m.dom().contains(
            other,
        )),
        other != key && m.dom().contains(other) ==> with_text(m, key, text)[other] == m[other],
{
}

proof fn lemma_place<V>(s: Seq<(Seq<char>, V)>, key: Seq<char>)
    ensures
        0 <= place(s, key) <= s.len(),
        place(s, key) < s.len() ==> s[place(s, key)].0 == key,
        forall|i: int| 0 <= i < place(s, key) ==> (#[trigger] s[i]).0 != key,
    decreases s.len(),
{
    if s.len() > 0 && s[0].0 != key {
        let rest = s.drop_first();
        lemma_place(rest, key);
        assert forall|i: int| 0 <= i < place(s, key) implies (#[trigger] s[i]).0 != key by {
            if i > 0 {
                assert(rest[i - 1] == s[i]);
            }
        }
        if place(rest, key) < rest.len() {
            assert(rest[place(rest, key)] == s[place(s, key)]);
        }
    }
}

/// A value for a key stands where the key first was, or behind the others if it is new; the
/// others are left where they are.
pub proof fn law_entry_put<V>(s: Seq<(Seq<char>, V)>, key: Seq<char>, value: V)
    ensures
        ({
            let t = with_entry(s, key, value);
            let known = exists|i: int| 0 <= i < s.len() && (#[trigger] s[i]).0 == key;
            &&& t.len() == s.len() + if known { 0int } else { 1 }
            &&& !known ==> t.last() == (key, value) && t.drop_last() == s
            &&& known ==> exists|k: int| {
                &&& 0 <= k < s.len()
                &&& #[trigger] s[k].0 == key
                &&& forall|i: int| 0 <= i < k ==> (#[trigger] s[i]).0 != key
                &&& t[k] == (key, value)
                &&& forall|i: int| 0 <= i < s.len() && i != k ==> #[trigger] t[i] == s[i]
            }
        }),
{
    lemma_place(s, key);
    let k = place(s, key);
    let t = with_entry(s, key, value);
    if k < s.len() {
        assert(s[k].0 == key);
        assert(t[k] == (key, value));
    } else {
        assert(t.drop_last() =~= s);
    }
}

/// A range of numbers is added behind those of its text, and none is lost.
pub proof fn law_range_put(
    s: Seq<(Seq<char>, Seq<(Num, Num)>)>,
    text: Seq<char>,
    min: Num,
    max: Num,
)
    ensures
        ({
            let t = with_range(s, text, min, max);
            let k = place(s, text);
            &&& t.len() == s.len() + if k < s.len() { 0int } else { 1 }
            &&& t[k].0 == text
            &&& t[k].1.last() == (min, max)
            &&& t[k].1.drop_last() == if k < s.len() { s[k].1 } else { Seq::empty() }
            &&& forall|i: int| 0 <= i < s.len() && i != k ==> #[trigger] t[i] == s[i]
            &&& range_total(t, t.len() as int) == range_total(s, s.len() as int) + 1
        }),
{
    lemma_place(s, text);
    let t = with_range(s, text, min, max);
    let k = place(s, text);
    assert(t[k].1.drop_last() =~= if k < s.len() {
        s[k].1
    } else {
        Seq::empty()
    });
    if k < s.len() {
        lemma_range_total(s, t, k, s.len() as int);
    } else {
        lemma_range_total_same(s, t, s.len() as int);
    }
}

proof fn lemma_range_total_same(
    s: Seq<(Seq<char>, Seq<(Num, Num)>)>,
    t: Seq<(Seq<char>, Seq<(Num, Num)>)>,
    n: int,
)
    requires
        0 <= n <= s.len(),
        n <= t.len(),
        forall|i: int| 0 <= i < n ==> #[trigger] t[i] == s[i],
    ensures
        range_total(t, n) == range_total(s, n),
    decreases n,
{
    if n > 0 {
        lemma_range_total_same(s, t, n - 1);
        assert(t[n - 1] == s[n - 1]);
    }
}

proof fn lemma_range_total(
    s: Seq<(Seq<char>, Seq<(Num, Num)>)>,
    t: Seq<(Seq<char>, Seq<(Num, Num)>)>,
    k: int,
    n: int,
)
    requires
        0 <= k < n <= s.len(),
        n <= t.len(),
        t[k].1.len() == s[k].1.len() + 1,
        forall|i: int| 0 <= i < n && i != k ==> #[trigger] t[i] == s[i],
    ensures
        range_total(t, n) == range_total(s, n) + 1,
    decreases n,
{
    if n - 1 == k {
        lemma_range_total_same(s, t, n - 1);
    } else {
        lemma_range_total(s, t, k, n - 1);
        assert(t[n - 1] == s[n - 1]);
    }
}

/// Integers of one, two and four bytes, and single-precision numbers, have a size; a size stands
/// for the unsigned integer that has it.
pub proof fn law_data_sizes(d: DataType)
    ensures
        size_of_type(d) == Some(DataSize::BYTE) <==> d == DataType::UByte || d == DataType::SByte,
        size_of_type(d) == Some(DataSize::WORD) <==> d == DataType::UWord || d == DataType::SWord,
        size_of_type(d) == Some(DataSize::LONG) <==> d == DataType::ULong || d == DataType::SLong
            || d == DataType::Float32Ieee,
        type_for_size(DataSize::BYTE) == DataType::UByte,
        type_for_size(DataSize::WORD) == DataType::UWord,
        type_for_size(DataSize::LONG) == DataType::ULong,
{
}

/// An alignment that is given takes the place of the one that holds otherwise: one, two, four,
/// four, four, eight and two bytes.
pub proof fn law_alignments(given: Option<Seq<i32>>, i: int, x: i32, k: int)
    requires
        0 <= i < 7,
        0 <= k < 7,
        given matches Some(s) ==> s.len() == 7,
    ensures
        aligned(given, i, x) matches Some(t) && {
            &&& t.len() == 7
            &&& t[i] == x
            &&& k != i ==> t[k] == match given {
                Some(s) => s[k],
                None => seq![1i32, 2, 4, 4, 4, 8, 2][k],
            }
        },
{
}

/// The last letter of a keyword names the axis.
pub proof fn law_axis_of_letter(text: Seq<char>)
    ensures
        axis_of(text) == Some(0int) <==> text.len() > 0 && text.last() == 'X',
        axis_of(text) == Some(1int) <==> text.len() > 0 && text.last() == 'Y',
        axis_of(text) == Some(2int) <==> text.len() > 0 && text.last() == 'Z',
        axis_of(text) == Some(3int) <==> text.len() > 0 && text.last() == '4',
        axis_of(text) == Some(4int) <==> text.len() > 0 && text.last() == '5',
        axis_of(text) matches Some(i) ==> 0 <= i < 5,
{
}

/// A measurement has the dimensions that are given; without any, an array of several elements has
/// its size as the first, and one in each other direction.
pub proof fn law_dimensions(given: Option<Seq<i32>>, array_size: i32)
    ensures
        given is Some ==> Measurement::dimensions(given, array_size) == given,
        given is None && array_size <= 1 ==> Measurement::dimensions(given, array_size) is None,
        given is None && array_size > 1 ==> (Measurement::dimensions(given, array_size) matches Some(
            d,
        ) && d.len() == 3 && d[0] == array_size && d[1] == 1 && d[2] == 1),
{
}

/// The number of the refresh unit names the unit; the greatest integer names none.
pub proof fn law_refresh_unit_read(c: Cur)
    ensures
        read_refresh_unit(c) matches Ok((unit, n)) ==> {
            &&& n == c.step()
            &&& unit matches Some(u) ==> integer(c.here().text, false) == Some(
                u.number() as int,
            )
            &&& unit is None ==> integer(c.here().text, false) == Some(
                2147483647int,
            )
        },
{
    if let Ok((unit, n)) = read_refresh_unit(c) {
        let v = uint_in(c.here().text, u32::MAX as int)->Some_0;
        assert(is_refresh_unit(v, unit));
    }
}

/// The headers and the modules of a project are those among its first blocks and then those among
/// the others.
pub proof fn law_parts_of_project(
    a: Seq<ProjectChildView>,
    b: Seq<ProjectChildView>,
    x: ProjectChildView,
)
    ensures
        headers_of(a + b) == headers_of(a) + headers_of(b),
        modules_of(a + b) == modules_of(a) + modules_of(b),
        headers_of(seq![x]) == match x {
            ProjectChildView::Header(h) => seq![h],
            _ => Seq::empty(),
        },
        modules_of(seq![x]) == match x {
            ProjectChildView::Module(m) => seq![m],
            _ => Seq::empty(),
        },
    decreases b.len(),
{
    let one = seq![x];
    assert(one.drop_last() =~= Seq::<ProjectChildView>::empty());
    assert(headers_of(one.drop_last()) =~= Seq::<HeaderView>::empty());
    assert(modules_of(one.drop_last()) =~= Seq::<ModuleView>::empty());
    assert(one.last() == x);
    if let ProjectChildView::Header(h) = x {
        assert(headers_of(one) =~= seq![h]);
    }
    if let ProjectChildView::Module(m) = x {
        assert(modules_of(one) =~= seq![m]);
    }
    if b.len() == 0 {
        assert(a + b =~= a);
        assert(headers_of(a) + headers_of(b) =~= headers_of(a));
        assert(modules_of(a) + modules_of(b) =~= modules_of(a));
    } else {
        law_parts_of_project(a, b.drop_last(), x);
        assert((a + b).drop_last() =~= a + b.drop_last());
        assert((a + b).last() == b.last());
        assert(headers_of(a + b) =~= headers_of(a) + headers_of(b));
        assert(modules_of(a + b) =~= modules_of(a) + modules_of(b));
    }
}

/// Without A2ML the blocks of a module are written that are none of A2ML; with it all are.
pub proof fn law_blocks_written(
    a: Seq<ModuleChildView>,
    b: Seq<ModuleChildView>,
    x: ModuleChildView,
)
    ensures
        Module::kept(a + b, false) == Module::kept(a, false) + Module::kept(b, false),
        Module::kept(seq![x], false) == if x matches ModuleChildView::Unsupported(n)
            && same_ignore_case(n.keyword, "A2ML"@) {
            Seq::empty()
        } else {
            seq![x]
        },
        Module::kept(a, true) == a,
    decreases b.len(),
{
    let one = seq![x];
    assert(one.drop_last() =~= Seq::<ModuleChildView>::empty());
    assert(Module::kept(one.drop_last(), false) =~= Seq::<ModuleChildView>::empty());
    assert(one.last() == x);
    assert(Seq::<ModuleChildView>::empty().push(x) =~= one);
    if b.len() == 0 {
        assert(a + b =~= a);
        assert(Module::kept(a, false) + Module::kept(b, false) =~= Module::kept(a, false));
    } else {
        law_blocks_written(a, b.drop_last(), x);
        assert((a + b).drop_last() =~= a + b.drop_last());
        assert((a + b).last() == b.last());
        assert(Module::kept(a + b, false) =~= Module::kept(a, false) + Module::kept(b, false));
    }
}

/// Six coefficients are kept as they are given, and have the factor that is one divided by the
/// second and the offset that goes with it. A factor and an offset that are given set the second
/// and the third coefficient and leave the others, unless the factor is zero: then nothing is set.
pub proof fn law_coefficients(v: RationalCoeffsView, c: Cur)
    requires
        v.coeffs.len() == 6,
    ensures
        RationalCoeffs::read_rational(c) matches Ok((w, n)) ==> {
            &&& n.pos == c.pos + 6
            &&& w.coeffs.len() == 6
            &&& forall|i: int|
                0 <= i < 6 ==> c.toks[c.pos + i].number == Some(#[trigger] w.coeffs[i])
            &&& c.toks[c.pos + 1].joint matches Some(q) && w.factor == q.inverse && w.offset
                == q.offset
        },
        RationalCoeffs::read_linear(v, c) matches Ok((w, n)) ==> {
            &&& n.pos == c.pos + 2
            &&& c.toks[c.pos].number matches Some(x) && if !x.nan && x.key == 0 {
                w == v
            } else {
                c.toks[c.pos].joint matches Some(q) && {
                    &&& w.coeffs[1] == q.inverse
                    &&& w.coeffs[2] == q.quotient
                    &&& w.factor == q.slope
                    &&& w.offset == q.start
                    &&& w.coeffs.len() == 6
                    &&& w.coeffs[0] == v.coeffs[0]
                    &&& forall|i: int| 3 <= i < 6 ==> #[trigger] w.coeffs[i] == v.coeffs[i]
                }
            }
        },
{
}

/// How a token is taken up into blocks: `/begin` and a keyword open a block at the line of
/// `/begin`; `/end` and the keyword of the innermost open block, in either case, close it, and
/// any other is refused; every other token is a parameter of the innermost open block. A block
/// that is not closed is refused with the line in which it is opened.
pub proof fn law_token_taken(s: Seq<Tok>, pos: int, open: Option<(Seq<char>, int)>)
    requires
        0 <= pos <= s.len(),
    ensures
        pos == s.len() && open is None ==> grow(s, pos, open) == Ok::<
            (Seq<TreeItem>, int),
            Failure,
        >((Seq::empty(), pos)),
        pos == s.len() && open is Some ==> (grow(s, pos, open) matches Err(Failure::Parse(line, _))
            && line == open->Some_0.1),
        pos < s.len() && !s[pos].is_word("/begin"@) && !s[pos].is_word("/end"@) ==> match grow(
            s,
            pos + 1,
            open,
        ) {
            Ok((rest, next)) => grow(s, pos, open) matches Ok((items, n)) && n == next && items
                == seq![TreeItem::Param(s[pos])] + rest,
            Err(f) => grow(s, pos, open) == Err::<(Seq<TreeItem>, int), Failure>(f),
        },
        pos + 1 < s.len() && !s[pos].is_word("/begin"@) && s[pos].is_word("/end"@) ==> match open {
            Some((keyword, _)) => if same_ignore_case(s[pos + 1].text, keyword) {
                grow(s, pos, open) matches Ok((items, n)) && items.len() == 0 && n == pos + 2
            } else {
                grow(s, pos, open) matches Err(Failure::Parse(line, _)) && line == s[pos].line
            },
            None => grow(s, pos, open) matches Err(Failure::Parse(line, _)) && line == s[pos].line,
        },
        pos + 1 < s.len() && s[pos].is_word("/begin"@) ==> match grow(
            s,
            pos + 2,
            Some((s[pos + 1].text, s[pos].line)),
        ) {
            Ok((inner, next)) => pos < next <= s.len() ==> match grow(s, next, open) {
                Ok((rest, last)) => grow(s, pos, open) matches Ok((items, n)) && n == last && items
                    == seq![
                    TreeItem::Child(
                        Tree { keyword: s[pos + 1].text, line: s[pos].line, items: inner },
                    ),
                ] + rest,
                Err(f) => grow(s, pos, open) == Err::<(Seq<TreeItem>, int), Failure>(f),
            },
            Err(f) => grow(s, pos, open) == Err::<(Seq<TreeItem>, int), Failure>(f),
        },
        pos + 1 == s.len() && (s[pos].is_word("/begin"@) || s[pos].is_word("/end"@)) ==> grow(
            s,
            pos,
            open,
        ) is Err,
{
}

} // verus!
