//! Conversion tables read back from what is written for them.

use crate::a2l::block::Tree;
use crate::a2l::error::Failure;
use crate::a2l::faithful::{
    Faithful, KeywordText, Setting, all_params, blocks_tokens, lemma_all_params_join,
    lemma_dec_param, lemma_keyword_param, lemma_keyword_word, lemma_shape_found,
    lemma_shape_tokens, lemma_shows_block, lemma_shows_quote, lemma_shows_quote_line,
    lemma_shows_word, lemma_shows_word_line, lemma_sound_shape, lemma_spells_pair,
    lemma_string_param, num_fits, shape_of, toks_numbered,
};
use crate::a2l::maps::place;
use crate::a2l::model::compu::{
    CompuTab, CompuTabBase, CompuTabBaseView, CompuTabView, CompuVtab, CompuVtabRange,
    CompuVtabRangeView, CompuVtabView, after_single, ascending, keys_in_order, keys_of,
    pairs_sorted, range_total, same_single, with_range,
};
use crate::a2l::model::enums::A2lKeyword;
use crate::a2l::node::Node;
use crate::a2l::number::{Num, Sng};
use crate::a2l::params::{Cur, law_integer_of_dec};
use crate::a2l::spell::{
    indents_by_blanks, law_unescaped_of_escaped, lemma_shows_join, lemma_shows_line,
    lemma_shows_nothing, lemma_spells_join, lemma_spells_quoted, lemma_spells_word, plain, shows,
    string,
};
use crate::a2l::token::{Tok, bare};
use crate::a2l::tree_laws::{is_param, lemma_shows_begin, lemma_tokens_at_split, tokens_at};
use crate::a2l::writer::{Page, escaped, quoted, Stopped};
use crate::numeral::law_magnitude_of_dec;
use crate::text::{dec, dec_int, lemma_differ, lemma_same, same_ignore_case};
use vstd::prelude::*;

verus! {

/// The parameters that all conversion tables start with, behind the name.
pub open spec fn base_tokens(b: CompuTabBaseView, with_type: bool, count: nat) -> Seq<Tok> {
    if with_type {
        seq![
            string(escaped(b.description->Some_0)),
            plain(b.conversion_type.word()->Some_0),
            plain(dec(count)),
        ]
    } else {
        seq![string(escaped(b.description->Some_0)), plain(dec(count))]
    }
}

/// Whether these parameters can be written and read back.
pub open spec fn base_fits(b: CompuTabBaseView, with_type: bool, count: nat) -> bool {
    &&& b.description is Some
    &&& if with_type {
        b.conversion_type.word() is Some
    } else {
        b.conversion_type == CompuTabBase::blank().conversion_type
    }
    &&& count <= u64::MAX
}

proof fn lemma_base_shown(b: CompuTabBaseView, with_type: bool, count: nat, p: Page)
    requires
        base_fits(b, with_type, count),
        indents_by_blanks(p),
    ensures
        ({
            let q = CompuTabBase::written(b, with_type, p).line(dec(count));
            &&& shows(p, q, base_tokens(b, with_type, count))
            &&& q.depth == p.depth
            &&& q.style == p.style
        }),
        all_params(base_tokens(b, with_type, count)),
{
    let d = b.description->Some_0;
    let p1 = p.quote_line(d);
    lemma_shows_quote_line(p, d);
    lemma_string_param(d);
    lemma_dec_param(count as int);
    let x1 = seq![string(escaped(d))];
    if with_type {
        let kw = b.conversion_type.word()->Some_0;
        b.conversion_type.lemma_word();
        let p2 = p1.line(kw);
        lemma_shows_word_line(p1, kw);
        lemma_shows_join(p, p1, p2, x1, seq![plain(kw)]);
        lemma_shows_word_line(p2, dec(count));
        lemma_shows_join(p, p2, p2.line(dec(count)), x1 + seq![plain(kw)], seq![plain(dec(count))]);
        assert(x1 + seq![plain(kw)] + seq![plain(dec(count))] =~= base_tokens(b, with_type, count));
    } else {
        lemma_shows_word_line(p1, dec(count));
        lemma_shows_join(p, p1, p1.line(dec(count)), x1, seq![plain(dec(count))]);
        assert(x1 + seq![plain(dec(count))] =~= base_tokens(b, with_type, count));
    }
}

/// The parameters of a default text.
pub open spec fn default_tokens(b: CompuTabBaseView) -> Seq<Tok> {
    match b.default_value {
        Some(x) => seq![plain("DEFAULT_VALUE"@), string(escaped(x))],
        None => Seq::empty(),
    }
}

proof fn lemma_default_shown(b: CompuTabBaseView, p: Page)
    requires
        b.default_value matches Some(x) ==> x.len() > 0,
        indents_by_blanks(p),
    ensures
        shows(p, CompuTabBase::default_written(b, p), default_tokens(b)),
        CompuTabBase::default_written(b, p).depth == p.depth,
        CompuTabBase::default_written(b, p).style == p.style,
        all_params(default_tokens(b)),
{
    match b.default_value {
        Some(x) => {
            reveal_strlit("DEFAULT_VALUE");
            lemma_keyword_param("DEFAULT_VALUE"@);
            lemma_string_param(x);
            lemma_shows_quote(p, "DEFAULT_VALUE"@, x);
        },
        None => {
            lemma_shows_nothing(p);
        },
    }
}

/// Whether a text is not one of the keywords of a table.
pub open spec fn no_default(text: Seq<char>) -> bool {
    &&& !same_ignore_case(text, "DEFAULT_VALUE"@)
    &&& !same_ignore_case(text, "DEFAULT_VALUE_NUMERIC"@)
}

proof fn lemma_dec_no_default(n: int)
    ensures
        no_default(dec_int(n)),
{
    reveal_strlit("DEFAULT_VALUE");
    reveal_strlit("DEFAULT_VALUE_NUMERIC");
    let w = dec_int(n);
    if n < 0 {
        assert(w[0] == '-');
    } else {
        law_magnitude_of_dec(n as nat);
        assert('0' <= w[0] && w[0] <= '9');
    }
    lemma_differ(w, "DEFAULT_VALUE"@, 0);
    lemma_differ(w, "DEFAULT_VALUE_NUMERIC"@, 0);
}

/// Pairs of a single and a number as tokens.
pub open spec fn tab_tokens(s: Seq<(Sng, Num)>) -> Seq<Tok> {
    Seq::new(
        (2 * s.len()) as nat,
        |i: int|
            if i % 2 == 0 {
                plain(s[i / 2].0.text)
            } else {
                plain(s[i / 2].1.text)
            },
    )
}

/// Whether pairs can be written and read back.
pub open spec fn rows_fit(s: Seq<(Sng, Num)>, f: Setting) -> bool {
    forall|i: int|
        0 <= i < s.len() ==> {
            &&& is_param(plain((#[trigger] s[i]).0.text))
            &&& (f.numbers)(s[i].0.text) matches Some(n) && n.single() == s[i].0
            &&& no_default(s[i].0.text)
            &&& num_fits(s[i].1, f)
        }
}

/// Whether no single occurs twice, and none comes after the one behind it.
pub open spec fn rows_in_order(s: Seq<(Sng, Num)>) -> bool {
    &&& forall|i: int, j: int|
        0 <= i < j < s.len() ==> !same_single(#[trigger] s[i].0, #[trigger] s[j].0)
    &&& forall|i: int| 0 < i < s.len() ==> !after_single(s[i - 1].0, (#[trigger] s[i]).0)
}

proof fn lemma_rows_shown(s: Seq<(Sng, Num)>, n: int, p: Page, f: Setting)
    requires
        0 <= n <= s.len(),
        indents_by_blanks(p),
        rows_fit(s, f),
    ensures
        shows(p, CompuTab::lines(s, n, p), tab_tokens(s.subrange(0, n))),
        CompuTab::lines(s, n, p).depth == p.depth,
        CompuTab::lines(s, n, p).style == p.style,
        all_params(tab_tokens(s.subrange(0, n))),
    decreases n,
{
    if n == 0 {
        lemma_shows_nothing(p);
        assert(tab_tokens(s.subrange(0, 0)) =~= Seq::<Tok>::empty());
    } else {
        lemma_rows_shown(s, n - 1, p, f);
        let q = CompuTab::lines(s, n - 1, p);
        let k = s[n - 1].0.text;
        let v = s[n - 1].1.text;
        assert(num_fits(s[n - 1].1, f));
        lemma_shows_word(q, k, v);
        let x = tab_tokens(s.subrange(0, n - 1));
        lemma_shows_join(p, q, q.word(k, v), x, seq![plain(k), plain(v)]);
        lemma_all_params_join(x, seq![plain(k), plain(v)]);
        assert(x + seq![plain(k), plain(v)] =~= tab_tokens(s.subrange(0, n)));
    }
}

proof fn lemma_rows_sorted(s: Seq<(Sng, Num)>)
    requires
        rows_in_order(s),
    ensures
        pairs_sorted(s) == s,
    decreases s.len(),
{
    if s.len() > 0 {
        let t = s.drop_last();
        assert forall|i: int, j: int| 0 <= i < j < t.len() implies !same_single(
            #[trigger] t[i].0,
            #[trigger] t[j].0,
        ) by {
            assert(!same_single(s[i].0, s[j].0));
        }
        assert forall|i: int| 0 < i < t.len() implies !after_single(
            t[i - 1].0,
            (#[trigger] t[i]).0,
        ) by {
            assert(!after_single(s[i - 1].0, s[i].0));
        }
        lemma_rows_sorted(t);
        if t.len() > 0 {
            assert(!after_single(s[s.len() - 2].0, s[s.len() - 1].0));
        }
        assert(t.push(s.last()) =~= s);
    }
}

proof fn lemma_tab_next(w: CompuTabView, c: Cur, w2: CompuTabView, c2: Cur)
    requires
        c.more(),
        0 <= c2.left() < c.left(),
        CompuTab::option(w, c) == Ok::<(CompuTabView, Cur), Failure>((w2, c2)),
    ensures
        CompuTab::options(w, c) == CompuTab::options(w2, c2),
{
}

proof fn lemma_rows_read(w: CompuTabView, c: Cur, s: Seq<(Sng, Num)>, k: int, f: Setting)
    requires
        0 <= k <= s.len(),
        rows_fit(s, f),
        rows_in_order(s),
        toks_numbered(c.toks, f),
        w.values == s.subrange(0, k),
        tokens_at(c.toks, c.pos - 2 * k, tab_tokens(s)),
    ensures
        CompuTab::options(w, c) == CompuTab::options(
            CompuTabView { values: s, ..w },
            Cur { pos: c.pos + 2 * (s.len() - k), ..c },
        ),
    decreases s.len() - k,
{
    if k == s.len() {
        assert(s.subrange(0, k) =~= s);
    } else {
        let b = c.pos - 2 * k;
        assert(bare(c.toks[b + 2 * k]) == tab_tokens(s)[2 * k]);
        assert(bare(c.toks[b + (2 * k + 1)]) == tab_tokens(s)[2 * k + 1]);
        assert(num_fits(s[k].1, f));
        let c1 = c.step();
        let c2 = c1.step();
        let w2 = CompuTabView { values: s.subrange(0, k + 1), ..w };
        assert(c.here().text == s[k].0.text);
        assert(c1.here().text == s[k].1.text);
        assert forall|i: int| 0 <= i < w.values.len() implies !same_single(
            #[trigger] w.values[i].0,
            s[k].0,
        ) by {
            assert(!same_single(s[i].0, s[k].0));
        }
        assert(w.values.push((s[k].0, s[k].1)) =~= w2.values);
        assert(CompuTab::option(w, c) == Ok::<(CompuTabView, Cur), Failure>((w2, c2)));
        lemma_tab_next(w, c, w2, c2);
        lemma_rows_read(w2, c2, s, k + 1, f);
    }
}

/// The parameters of a default number.
pub open spec fn numeric_tokens(v: CompuTabView) -> Seq<Tok> {
    match v.default_value_numeric {
        Some(x) => seq![plain("DEFAULT_VALUE_NUMERIC"@), plain(x.text)],
        None => Seq::empty(),
    }
}

proof fn lemma_tab_shown(v: CompuTabView, p: Page, f: Setting)
    requires
        base_fits(v.base, true, v.values.len()),
        rows_fit(v.values, f),
        v.default_value_numeric matches Some(x) ==> num_fits(x, f),
        indents_by_blanks(p),
    ensures
        ({
            let x = base_tokens(v.base, true, v.values.len()) + tab_tokens(v.values)
                + numeric_tokens(v);
            &&& CompuTab::body(v, p) matches Ok(q) && shows(p, q, x) && q.depth == p.depth
                && q.style == p.style
            &&& all_params(x)
        }),
{
    let n = v.values.len();
    let y0 = base_tokens(v.base, true, n);
    let y1 = tab_tokens(v.values);
    let y2 = numeric_tokens(v);
    let p1 = CompuTabBase::written(v.base, true, p).line(dec(n));
    let p2 = CompuTab::lines(v.values, n as int, p1);
    let q = match v.default_value_numeric {
        Some(x) => p2.word("DEFAULT_VALUE_NUMERIC"@, x.text),
        None => p2,
    };
    lemma_base_shown(v.base, true, n, p);
    lemma_rows_shown(v.values, n as int, p1, f);
    assert(v.values.subrange(0, n as int) =~= v.values);
    lemma_shows_join(p, p1, p2, y0, y1);
    reveal_strlit("DEFAULT_VALUE_NUMERIC");
    lemma_keyword_param("DEFAULT_VALUE_NUMERIC"@);
    match v.default_value_numeric {
        Some(x) => {
            lemma_shows_word(p2, "DEFAULT_VALUE_NUMERIC"@, x.text);
        },
        None => {
            lemma_shows_nothing(p2);
        },
    }
    lemma_shows_join(p, p2, q, y0 + y1, y2);
    lemma_all_params_join(y0, y1);
    lemma_all_params_join(y0 + y1, y2);
}

/// The parameters of the block.
pub open spec fn compu_tab_params(v: CompuTabView) -> Seq<Tok> {
    seq![plain(v.base.name)] + (
        base_tokens(v.base, true, v.values.len()) + tab_tokens(v.values) + numeric_tokens(v)
    )
}

impl Faithful for CompuTab {
    open spec fn fits(v: CompuTabView, f: Setting) -> bool {
        &&& is_param(plain(v.base.name))
        &&& base_fits(v.base, true, v.values.len())
        &&& v.base.default_value is None
        &&& rows_fit(v.values, f)
        &&& rows_in_order(v.values)
        &&& (v.default_value_numeric matches Some(x) ==> num_fits(x, f))
    }

    open spec fn shape(v: CompuTabView) -> Tree {
        shape_of("COMPU_TAB"@, compu_tab_params(v), Seq::empty())
    }

    proof fn law_shown(v: CompuTabView, p: Page, f: Setting) {
        reveal_strlit("COMPU_TAB");
        lemma_keyword_word("COMPU_TAB"@);
        let h = seq![plain(v.base.name)];
        let x = base_tokens(v.base, true, v.values.len()) + tab_tokens(v.values) + numeric_tokens(v);
        reveal_strlit("COMPU_TAB ");
        reveal_strlit(" ");
        assert("COMPU_TAB "@ + v.base.name =~= "COMPU_TAB"@ + " "@ + v.base.name);
        lemma_spells_word("COMPU_TAB"@);
        lemma_spells_word(v.base.name);
        lemma_spells_join("COMPU_TAB"@, seq![plain("COMPU_TAB"@)], v.base.name, seq![plain(v.base.name)]);
        crate::a2l::tree_laws::lemma_shows_begin(p, "COMPU_TAB "@ + v.base.name, seq![plain("COMPU_TAB"@)] + h);
        let p0 = p.begin("COMPU_TAB "@ + v.base.name);
        lemma_tab_shown(v, p0, f);
        let q0 = CompuTab::body(v, p0)->Ok_0;
        assert(shows(p0, q0, x));
        let q = q0;
        let kids = Seq::<Tree>::empty();
        let y = Seq::<Tok>::empty();
        assert(blocks_tokens(kids, 0) =~= y);
        assert(x + y =~= x);
        assert(all_params(h));
        lemma_all_params_join(h, x);
        lemma_shape_tokens(h + x, kids);
        lemma_sound_shape("COMPU_TAB"@, h + x, kids);
        assert(h + (x + y) =~= h + x + y);
        assert(Self::body(v, p0) == Ok::<Page, Stopped>(q));
        lemma_shows_block(p, "COMPU_TAB "@ + v.base.name, h, "COMPU_TAB"@, q, x + y, Self::shape(v));
    }

    proof fn law_parsed(v: CompuTabView, tree: Tree, f: Setting) {
        let h = seq![plain(v.base.name)];
        let x = base_tokens(v.base, true, v.values.len()) + tab_tokens(v.values) + numeric_tokens(v);
        let kids = Seq::<Tree>::empty();
        lemma_shape_found(tree, "COMPU_TAB"@, h + x, kids, f);
        let c = Cur::start(tree);
        lemma_tokens_at_split(c.toks, 0, h, x);
        let y0 = base_tokens(v.base, true, v.values.len());
        let y1 = tab_tokens(v.values);
        let y2 = numeric_tokens(v);
        lemma_tokens_at_split(c.toks, 1, y0 + y1, y2);
        lemma_tokens_at_split(c.toks, 1, y0, y1);
        assert(bare(c.toks[0int + 0]) == h[0]);
        assert(bare(c.toks[1int + 0]) == y0[0]);
        assert(bare(c.toks[1int + 1]) == y0[1]);
        assert(bare(c.toks[1int + 2]) == y0[2]);
        law_unescaped_of_escaped(v.base.description->Some_0);
        v.base.conversion_type.law_named_of_word();
        law_integer_of_dec(v.values.len() as int);
        let w0 = CompuTabView { base: v.base, ..CompuTab::blank() };
        let c0 = Cur { pos: 4, ..c };
        assert(CompuTab::head(c) == Ok::<(CompuTabView, Cur), Failure>((w0, c0)));
        assert(v.values.subrange(0, 0) =~= w0.values);
        lemma_rows_read(w0, c0, v.values, 0, f);
        let w1 = CompuTabView { values: v.values, ..w0 };
        let c1 = Cur { pos: 4 + 2 * (v.values.len() as int), ..c };
        lemma_rows_sorted(v.values);
        if v.default_value_numeric is Some {
            assert(bare(c1.toks[c1.pos + 0]) == y2[0]);
            assert(bare(c1.toks[c1.pos + 1]) == y2[1]);
            lemma_same("DEFAULT_VALUE_NUMERIC"@);
            lemma_tab_next(w1, c1, v, c1.step().step());
        }
    }
}

/// A sequence of integers with another one in its place.
pub open spec fn ascending_with(s: Seq<i64>, a: i64) -> Seq<i64>
    decreases s.len(),
{
    if s.len() > 0 && s.last() > a {
        ascending_with(s.drop_last(), a).push(s.last())
    } else {
        s.push(a)
    }
}

proof fn lemma_ascending_with(s: Seq<i64>, a: i64)
    requires
        ascending(s),
        !s.contains(a),
    ensures
        ascending(ascending_with(s, a)),
        ascending_with(s, a).to_set() == s.to_set().insert(a),
    decreases s.len(),
{
    let r = ascending_with(s, a);
    if s.len() > 0 && s.last() > a {
        let t = s.drop_last();
        assert forall|i: int| 0 <= i < t.len() implies t[i] != a by {
            assert(s[i] == t[i]);
            assert(s.contains(s[i]));
        }
        lemma_ascending_with(t, a);
        let u = ascending_with(t, a);
        assert forall|i: int| 0 <= i < u.len() implies u[i] < s.last() by {
            assert(u.to_set().contains(u[i]));
            assert(u[i] == a || t.to_set().contains(u[i]));
            if t.contains(u[i]) {
                let j = choose|j: int| 0 <= j < t.len() && t[j] == u[i];
                assert(s[j] < s[s.len() - 1]);
            }
        }
        assert forall|x: i64| r.to_set().contains(x) == s.to_set().insert(a).contains(x) by {
            assert(s =~= t.push(s.last()));
            if r.contains(x) {
                let j = choose|j: int| 0 <= j < r.len() && r[j] == x;
                if j < u.len() {
                    assert(u.to_set().contains(u[j]));
                    if t.contains(x) {
                        let k = choose|k: int| 0 <= k < t.len() && t[k] == x;
                        assert(s[k] == x);
                    }
                } else {
                    assert(s[s.len() - 1] == x);
                }
            }
            if s.contains(x) {
                let j = choose|j: int| 0 <= j < s.len() && s[j] == x;
                if j < t.len() {
                    assert(t[j] == x);
                    assert(t.to_set().contains(x));
                    assert(u.to_set().contains(x));
                    let k = choose|k: int| 0 <= k < u.len() && u[k] == x;
                    assert(r[k] == x);
                } else {
                    assert(r[u.len() as int] == x);
                }
            }
            if x == a {
                assert(u.to_set().contains(a));
                let k = choose|k: int| 0 <= k < u.len() && u[k] == a;
                assert(r[k] == a);
            }
        }
        assert(r.to_set() =~= s.to_set().insert(a));
    } else {
        assert forall|i: int| 0 <= i < s.len() implies s[i] < a by {
            assert(s.contains(s[i]));
            if i < s.len() - 1 {
                assert(s[i] < s[s.len() - 1]);
            }
            assert(s.contains(s[s.len() - 1]));
        }
        assert forall|x: i64| r.to_set().contains(x) == s.to_set().insert(a).contains(x) by {
            if r.contains(x) {
                let j = choose|j: int| 0 <= j < r.len() && r[j] == x;
                if j < s.len() {
                    assert(s[j] == x);
                }
            }
            if s.contains(x) {
                let j = choose|j: int| 0 <= j < s.len() && s[j] == x;
                assert(r[j] == x);
            }
            if x == a {
                assert(r[s.len() as int] == a);
            }
        }
        assert(r.to_set() =~= s.to_set().insert(a));
    }
}

/// A finite set of integers can be put in ascending order.
proof fn lemma_ascending_exists(d: Set<i64>) -> (s: Seq<i64>)
    requires
        d.finite(),
    ensures
        ascending(s),
        s.to_set() == d,
    decreases d.len(),
{
    if d.len() == 0 {
        let s = Seq::<i64>::empty();
        assert(s.to_set() =~= d);
        s
    } else {
        let a = d.choose();
        let s = lemma_ascending_exists(d.remove(a));
        assert(!s.to_set().contains(a));
        assert(!s.contains(a));
        lemma_ascending_with(s, a);
        assert(d.remove(a).insert(a) =~= d);
        ascending_with(s, a)
    }
}

proof fn lemma_keys_of(m: Map<i64, Seq<char>>)
    requires
        m.dom().finite(),
    ensures
        keys_in_order(keys_of(m), m),
{
    let s = lemma_ascending_exists(m.dom());
    assert(keys_in_order(s, m));
}

/// Texts for integers as tokens.
pub open spec fn vtab_tokens(m: Map<i64, Seq<char>>, keys: Seq<i64>) -> Seq<Tok> {
    Seq::new(
        (2 * keys.len()) as nat,
        |i: int|
            if i % 2 == 0 {
                plain(dec_int(keys[i / 2] as int))
            } else {
                string(escaped(m[keys[i / 2]]))
            },
    )
}

/// Whether integers can be written and read back: the application reads the digits of each as
/// a number whose nearest integer it is.
pub open spec fn integers_fit(d: Set<i64>, f: Setting) -> bool {
    forall|k: i64| #[trigger]
        d.contains(k) ==> ((f.numbers)(dec_int(k as int)) matches Some(n) && n.rounded == k)
}

proof fn lemma_verbs_shown(m: Map<i64, Seq<char>>, keys: Seq<i64>, n: int, p: Page)
    requires
        0 <= n <= keys.len(),
        indents_by_blanks(p),
    ensures
        shows(p, CompuVtab::lines(m, keys, n, p), vtab_tokens(m, keys.subrange(0, n))),
        CompuVtab::lines(m, keys, n, p).depth == p.depth,
        CompuVtab::lines(m, keys, n, p).style == p.style,
        all_params(vtab_tokens(m, keys.subrange(0, n))),
    decreases n,
{
    if n == 0 {
        lemma_shows_nothing(p);
        assert(vtab_tokens(m, keys.subrange(0, 0)) =~= Seq::<Tok>::empty());
    } else {
        lemma_verbs_shown(m, keys, n - 1, p);
        let q = CompuVtab::lines(m, keys, n - 1, p);
        let k = dec_int(keys[n - 1] as int);
        let v = m[keys[n - 1]];
        lemma_dec_param(keys[n - 1] as int);
        lemma_string_param(v);
        lemma_shows_quote(q, k, v);
        let x = vtab_tokens(m, keys.subrange(0, n - 1));
        let y = seq![plain(k), string(escaped(v))];
        lemma_shows_join(p, q, q.quote(k, v), x, y);
        lemma_all_params_join(x, y);
        assert(x + y =~= vtab_tokens(m, keys.subrange(0, n)));
    }
}

proof fn lemma_vtab_next(w: CompuVtabView, c: Cur, w2: CompuVtabView, c2: Cur)
    requires
        c.more(),
        0 <= c2.left() < c.left(),
        CompuVtab::option(w, c) == Ok::<(CompuVtabView, Cur), Failure>((w2, c2)),
    ensures
        CompuVtab::options(w, c) == CompuVtab::options(w2, c2),
{
}

proof fn lemma_verbs_read(
    w: CompuVtabView,
    c: Cur,
    m: Map<i64, Seq<char>>,
    keys: Seq<i64>,
    k: int,
    f: Setting,
)
    requires
        0 <= k <= keys.len(),
        keys_in_order(keys, m),
        integers_fit(m.dom(), f),
        toks_numbered(c.toks, f),
        w.verbs == m.restrict(keys.subrange(0, k).to_set()),
        tokens_at(c.toks, c.pos - 2 * k, vtab_tokens(m, keys)),
    ensures
        CompuVtab::options(w, c) == CompuVtab::options(
            CompuVtabView { verbs: m, ..w },
            Cur { pos: c.pos + 2 * (keys.len() - k), ..c },
        ),
    decreases keys.len() - k,
{
    if k == keys.len() {
        assert(keys.subrange(0, k) =~= keys);
        assert(m.restrict(keys.to_set()) =~= m);
    } else {
        let b = c.pos - 2 * k;
        assert(bare(c.toks[b + 2 * k]) == vtab_tokens(m, keys)[2 * k]);
        assert(bare(c.toks[b + (2 * k + 1)]) == vtab_tokens(m, keys)[2 * k + 1]);
        let key = keys[k];
        assert(keys.to_set().contains(key));
        assert(m.dom().contains(key));
        let c1 = c.step();
        let c2 = c1.step();
        assert(c.here().text == dec_int(key as int));
        assert(c1.here().text == escaped(m[key]));
        law_unescaped_of_escaped(m[key]);
        lemma_dec_no_default(key as int);
        let before = keys.subrange(0, k);
        let after = keys.subrange(0, k + 1);
        assert(!before.to_set().contains(key)) by {
            if before.contains(key) {
                let i = choose|i: int| 0 <= i < before.len() && before[i] == key;
                assert(keys[i] < keys[k]);
            }
        }
        assert(after =~= before.push(key));
        assert forall|x: i64| after.to_set().contains(x) == (before.to_set().contains(x) || x
            == key) by {
            if before.contains(x) {
                let i = choose|i: int| 0 <= i < before.len() && before[i] == x;
                assert(after[i] == x);
            }
            if after.contains(x) {
                let i = choose|i: int| 0 <= i < after.len() && after[i] == x;
                if i < k {
                    assert(before[i] == x);
                }
            }
            assert(after[k] == key);
        }
        let w2 = CompuVtabView { verbs: m.restrict(after.to_set()), ..w };
        assert(w.verbs.insert(key, m[key]) =~= w2.verbs);
        assert(CompuVtab::option(w, c) == Ok::<(CompuVtabView, Cur), Failure>((w2, c2)));
        lemma_vtab_next(w, c, w2, c2);
        lemma_verbs_read(w2, c2, m, keys, k + 1, f);
    }
}

/// The parameters of the block.
pub open spec fn compu_vtab_params(v: CompuVtabView) -> Seq<Tok> {
    seq![plain(v.base.name)] + (
        base_tokens(v.base, true, v.verbs.len()) + vtab_tokens(v.verbs, keys_of(v.verbs)) + default_tokens(v.base)
    )
}

impl Faithful for CompuVtab {
    open spec fn fits(v: CompuVtabView, f: Setting) -> bool {
        &&& is_param(plain(v.base.name))
        &&& base_fits(v.base, true, v.verbs.len())
        &&& (v.base.default_value matches Some(x) ==> x.len() > 0)
        &&& v.verbs.dom().finite()
        &&& integers_fit(v.verbs.dom(), f)
    }

    open spec fn shape(v: CompuVtabView) -> Tree {
        shape_of("COMPU_VTAB"@, compu_vtab_params(v), Seq::empty())
    }

    proof fn law_shown(v: CompuVtabView, p: Page, f: Setting) {
        reveal_strlit("COMPU_VTAB");
        lemma_keyword_word("COMPU_VTAB"@);
        let h = seq![plain(v.base.name)];
        let x = base_tokens(v.base, true, v.verbs.len()) + vtab_tokens(v.verbs, keys_of(v.verbs)) + default_tokens(v.base);
        reveal_strlit("COMPU_VTAB ");
        reveal_strlit(" ");
        assert("COMPU_VTAB "@ + v.base.name =~= "COMPU_VTAB"@ + " "@ + v.base.name);
        lemma_spells_word("COMPU_VTAB"@);
        lemma_spells_word(v.base.name);
        lemma_spells_join("COMPU_VTAB"@, seq![plain("COMPU_VTAB"@)], v.base.name, seq![plain(v.base.name)]);
        crate::a2l::tree_laws::lemma_shows_begin(p, "COMPU_VTAB "@ + v.base.name, seq![plain("COMPU_VTAB"@)] + h);
        let p0 = p.begin("COMPU_VTAB "@ + v.base.name);
        let n = v.verbs.len();
        let keys = keys_of(v.verbs);
        let y0 = base_tokens(v.base, true, n);
        let y1 = vtab_tokens(v.verbs, keys);
        let y2 = default_tokens(v.base);
        let p1 = CompuTabBase::written(v.base, true, p0).line(dec(n));
        let p2 = CompuVtab::lines(v.verbs, keys, keys.len() as int, p1);
        let q0 = CompuTabBase::default_written(v.base, p2);
        lemma_base_shown(v.base, true, n, p0);
        lemma_verbs_shown(v.verbs, keys, keys.len() as int, p1);
        assert(keys.subrange(0, keys.len() as int) =~= keys);
        lemma_shows_join(p0, p1, p2, y0, y1);
        lemma_default_shown(v.base, p2);
        lemma_shows_join(p0, p2, q0, y0 + y1, y2);
        assert(shows(p0, q0, x));
        let q = q0;
        let kids = Seq::<Tree>::empty();
        let y = Seq::<Tok>::empty();
        assert(blocks_tokens(kids, 0) =~= y);
        assert(x + y =~= x);
        lemma_all_params_join(y0, y1);
        lemma_all_params_join(y0 + y1, y2);
        assert(all_params(h));
        lemma_all_params_join(h, x);
        lemma_shape_tokens(h + x, kids);
        lemma_sound_shape("COMPU_VTAB"@, h + x, kids);
        assert(h + (x + y) =~= h + x + y);
        assert(Self::body(v, p0) == Ok::<Page, Stopped>(q));
        lemma_shows_block(p, "COMPU_VTAB "@ + v.base.name, h, "COMPU_VTAB"@, q, x + y, Self::shape(v));
    }

    proof fn law_parsed(v: CompuVtabView, tree: Tree, f: Setting) {
        let h = seq![plain(v.base.name)];
        let x = base_tokens(v.base, true, v.verbs.len()) + vtab_tokens(v.verbs, keys_of(v.verbs)) + default_tokens(v.base);
        let kids = Seq::<Tree>::empty();
        lemma_shape_found(tree, "COMPU_VTAB"@, h + x, kids, f);
        let c = Cur::start(tree);
        lemma_tokens_at_split(c.toks, 0, h, x);
        let keys = keys_of(v.verbs);
        lemma_keys_of(v.verbs);
        let y0 = base_tokens(v.base, true, v.verbs.len());
        let y1 = vtab_tokens(v.verbs, keys);
        let y2 = default_tokens(v.base);
        lemma_tokens_at_split(c.toks, 1, y0 + y1, y2);
        lemma_tokens_at_split(c.toks, 1, y0, y1);
        assert(bare(c.toks[0int + 0]) == h[0]);
        assert(bare(c.toks[1int + 0]) == y0[0]);
        assert(bare(c.toks[1int + 1]) == y0[1]);
        assert(bare(c.toks[1int + 2]) == y0[2]);
        law_unescaped_of_escaped(v.base.description->Some_0);
        v.base.conversion_type.law_named_of_word();
        law_integer_of_dec(v.verbs.len() as int);
        let w0 = CompuVtabView { base: CompuTabBaseView { default_value: None, ..v.base }, ..CompuVtab::blank() };
        let c0 = Cur { pos: 4, ..c };
        assert(CompuVtab::head(c) == Ok::<(CompuVtabView, Cur), Failure>((w0, c0)));
        assert(v.verbs.restrict(keys.subrange(0, 0).to_set()) =~= w0.verbs);
        lemma_verbs_read(w0, c0, v.verbs, keys, 0, f);
        let w1 = CompuVtabView { verbs: v.verbs, ..w0 };
        let c1 = Cur { pos: 4 + 2 * (keys.len() as int), ..c };
        if v.base.default_value is Some {
            assert(bare(c1.toks[c1.pos + 0]) == y2[0]);
            assert(bare(c1.toks[c1.pos + 1]) == y2[1]);
            law_unescaped_of_escaped(v.base.default_value->Some_0);
            lemma_same("DEFAULT_VALUE"@);
            lemma_vtab_next(w1, c1, v, c1.step().step());
        }
    }
}

/// The ranges of a text as tokens.
pub open spec fn range_tokens(text: Seq<char>, s: Seq<(Num, Num)>) -> Seq<Tok> {
    Seq::new(
        (3 * s.len()) as nat,
        |i: int|
            if i % 3 == 0 {
                plain(s[i / 3].0.text)
            } else if i % 3 == 1 {
                plain(s[i / 3].1.text)
            } else {
                string(escaped(text))
            },
    )
}

/// The ranges of the first texts as tokens.
pub open spec fn verb_tokens(s: Seq<(Seq<char>, Seq<(Num, Num)>)>, n: int) -> Seq<Tok>
    decreases n,
{
    if n <= 0 {
        Seq::empty()
    } else {
        verb_tokens(s, n - 1) + range_tokens(s[n - 1].0, s[n - 1].1)
    }
}

/// Whether ranges can be written and read back.
pub open spec fn ranges_fit(s: Seq<(Num, Num)>, f: Setting) -> bool {
    &&& s.len() > 0
    &&& forall|i: int|
        0 <= i < s.len() ==> num_fits((#[trigger] s[i]).0, f) && num_fits(s[i].1, f) && no_default(
            s[i].0.text,
        )
}

/// Whether the ranges of all texts can be written and read back, and no text occurs twice.
pub open spec fn verbs_fit(s: Seq<(Seq<char>, Seq<(Num, Num)>)>, f: Setting) -> bool {
    &&& forall|i: int| 0 <= i < s.len() ==> ranges_fit((#[trigger] s[i]).1, f)
    &&& forall|i: int, j: int| 0 <= i < j < s.len() ==> #[trigger] s[i].0 != #[trigger] s[j].0
}

proof fn lemma_ranges_shown(text: Seq<char>, s: Seq<(Num, Num)>, n: int, p: Page, f: Setting)
    requires
        0 <= n <= s.len(),
        indents_by_blanks(p),
        ranges_fit(s, f),
    ensures
        shows(p, CompuVtabRange::range_lines(text, s, n, p), range_tokens(text, s.subrange(0, n))),
        CompuVtabRange::range_lines(text, s, n, p).depth == p.depth,
        CompuVtabRange::range_lines(text, s, n, p).style == p.style,
        all_params(range_tokens(text, s.subrange(0, n))),
    decreases n,
{
    if n == 0 {
        lemma_shows_nothing(p);
        assert(range_tokens(text, s.subrange(0, 0)) =~= Seq::<Tok>::empty());
    } else {
        lemma_ranges_shown(text, s, n - 1, p, f);
        let q = CompuVtabRange::range_lines(text, s, n - 1, p);
        let a = s[n - 1].0.text;
        let b = s[n - 1].1.text;
        assert(num_fits(s[n - 1].0, f) && num_fits(s[n - 1].1, f));
        let line = a + " "@ + b + " \""@ + escaped(text) + "\""@;
        reveal_strlit(" \"");
        reveal_strlit("\"");
        reveal_strlit(" ");
        lemma_spells_pair(a, b);
        lemma_spells_quoted(text);
        lemma_spells_join(
            a + " "@ + b,
            seq![plain(a), plain(b)],
            quoted(text),
            seq![string(escaped(text))],
        );
        assert(line =~= (a + " "@ + b) + " "@ + quoted(text));
        let y = seq![plain(a), plain(b), string(escaped(text))];
        assert(seq![plain(a), plain(b)] + seq![string(escaped(text))] =~= y);
        lemma_shows_line(q, line, y);
        lemma_string_param(text);
        let x = range_tokens(text, s.subrange(0, n - 1));
        lemma_shows_join(p, q, q.line(line), x, y);
        lemma_all_params_join(x, y);
        assert(x + y =~= range_tokens(text, s.subrange(0, n)));
    }
}

proof fn lemma_range_verbs_shown(
    s: Seq<(Seq<char>, Seq<(Num, Num)>)>,
    n: int,
    p: Page,
    f: Setting,
)
    requires
        0 <= n <= s.len(),
        indents_by_blanks(p),
        verbs_fit(s, f),
    ensures
        shows(p, CompuVtabRange::lines(s, n, p), verb_tokens(s, n)),
        CompuVtabRange::lines(s, n, p).depth == p.depth,
        CompuVtabRange::lines(s, n, p).style == p.style,
        all_params(verb_tokens(s, n)),
    decreases n,
{
    if n == 0 {
        lemma_shows_nothing(p);
    } else {
        lemma_range_verbs_shown(s, n - 1, p, f);
        let q = CompuVtabRange::lines(s, n - 1, p);
        let (text, r) = s[n - 1];
        assert(ranges_fit(s[n - 1].1, f));
        lemma_ranges_shown(text, r, r.len() as int, q, f);
        assert(r.subrange(0, r.len() as int) =~= r);
        lemma_shows_join(
            p,
            q,
            CompuVtabRange::lines(s, n, p),
            verb_tokens(s, n - 1),
            range_tokens(text, r),
        );
        lemma_all_params_join(verb_tokens(s, n - 1), range_tokens(text, r));
    }
}

proof fn lemma_place_new<V>(s: Seq<(Seq<char>, V)>, key: Seq<char>, value: V)
    requires
        forall|i: int| 0 <= i < s.len() ==> (#[trigger] s[i]).0 != key,
    ensures
        place(s, key) == s.len(),
        place(s.push((key, value)), key) == s.len(),
    decreases s.len(),
{
    let t = s.push((key, value));
    if s.len() == 0 {
        assert(t[0].0 == key);
    } else {
        assert(t[0] == s[0]);
        assert forall|i: int| 0 <= i < s.drop_first().len() implies (
        #[trigger] s.drop_first()[i]).0 != key by {
            assert(s.drop_first()[i] == s[i + 1]);
        }
        lemma_place_new(s.drop_first(), key, value);
        assert(t.drop_first() =~= s.drop_first().push((key, value)));
    }
}

proof fn lemma_vtab_range_next(w: CompuVtabRangeView, c: Cur, w2: CompuVtabRangeView, c2: Cur)
    requires
        c.more(),
        0 <= c2.left() < c.left(),
        CompuVtabRange::option(w, c) == Ok::<(CompuVtabRangeView, Cur), Failure>((w2, c2)),
    ensures
        CompuVtabRange::options(w, c) == CompuVtabRange::options(w2, c2),
{
}

proof fn lemma_ranges_read(
    w: CompuVtabRangeView,
    c: Cur,
    done: Seq<(Seq<char>, Seq<(Num, Num)>)>,
    text: Seq<char>,
    s: Seq<(Num, Num)>,
    k: int,
    f: Setting,
)
    requires
        0 <= k <= s.len(),
        ranges_fit(s, f),
        forall|i: int| 0 <= i < done.len() ==> (#[trigger] done[i]).0 != text,
        toks_numbered(c.toks, f),
        w.verbs == (if k == 0 {
            done
        } else {
            done.push((text, s.subrange(0, k)))
        }),
        tokens_at(c.toks, c.pos - 3 * k, range_tokens(text, s)),
    ensures
        CompuVtabRange::options(w, c) == CompuVtabRange::options(
            CompuVtabRangeView { verbs: done.push((text, s)), ..w },
            Cur { pos: c.pos + 3 * (s.len() - k), ..c },
        ),
    decreases s.len() - k,
{
    if k == s.len() {
        assert(s.subrange(0, k) =~= s);
    } else {
        let b = c.pos - 3 * k;
        assert(bare(c.toks[b + 3 * k]) == range_tokens(text, s)[3 * k]);
        assert(bare(c.toks[b + (3 * k + 1)]) == range_tokens(text, s)[3 * k + 1]);
        assert(bare(c.toks[b + (3 * k + 2)]) == range_tokens(text, s)[3 * k + 2]);
        assert(num_fits(s[k].0, f));
        let c1 = c.step();
        let c2 = c1.step();
        let c3 = c2.step();
        assert(c.here().text == s[k].0.text);
        assert(c1.here().text == s[k].1.text);
        assert(c2.here().text == escaped(text));
        law_unescaped_of_escaped(text);
        let w2 = CompuVtabRangeView { verbs: done.push((text, s.subrange(0, k + 1))), ..w };
        lemma_place_new(done, text, s.subrange(0, k));
        assert(s.subrange(0, k).push(s[k]) =~= s.subrange(0, k + 1));
        if k == 0 {
            assert(s.subrange(0, 0) =~= Seq::<(Num, Num)>::empty());
        }
        assert(with_range(w.verbs, text, s[k].0, s[k].1) =~= w2.verbs);
        assert(CompuVtabRange::option(w, c) == Ok::<(CompuVtabRangeView, Cur), Failure>((w2, c3)));
        lemma_vtab_range_next(w, c, w2, c3);
        lemma_ranges_read(w2, c3, done, text, s, k + 1, f);
    }
}

proof fn lemma_range_verbs_read(
    w: CompuVtabRangeView,
    c: Cur,
    s: Seq<(Seq<char>, Seq<(Num, Num)>)>,
    n: int,
    f: Setting,
)
    requires
        0 <= n <= s.len(),
        verbs_fit(s, f),
        toks_numbered(c.toks, f),
        w.verbs == Seq::<(Seq<char>, Seq<(Num, Num)>)>::empty(),
        tokens_at(c.toks, c.pos, verb_tokens(s, n)),
    ensures
        CompuVtabRange::options(w, c) == CompuVtabRange::options(
            CompuVtabRangeView { verbs: s.subrange(0, n), ..w },
            Cur { pos: c.pos + verb_tokens(s, n).len(), ..c },
        ),
    decreases n,
{
    if n == 0 {
        assert(s.subrange(0, 0) =~= w.verbs);
    } else {
        let (text, r) = s[n - 1];
        let before = verb_tokens(s, n - 1);
        lemma_tokens_at_split(c.toks, c.pos, before, range_tokens(text, r));
        lemma_range_verbs_read(w, c, s, n - 1, f);
        let done = s.subrange(0, n - 1);
        assert(ranges_fit(s[n - 1].1, f));
        assert forall|i: int| 0 <= i < done.len() implies (#[trigger] done[i]).0 != text by {
            assert(s[i].0 != s[n - 1].0);
        }
        let w1 = CompuVtabRangeView { verbs: done, ..w };
        let c1 = Cur { pos: c.pos + before.len(), ..c };
        lemma_ranges_read(w1, c1, done, text, r, 0, f);
        assert(done.push((text, r)) =~= s.subrange(0, n));
        assert(c1.pos + 3 * r.len() == c.pos + verb_tokens(s, n).len());
    }
}

/// The parameters of the block.
pub open spec fn compu_vtab_range_params(v: CompuVtabRangeView) -> Seq<Tok> {
    seq![plain(v.base.name)] + (
        base_tokens(
            v.base,
            false,
            range_total(v.verbs, v.verbs.len() as int)
        ) + verb_tokens(v.verbs, v.verbs.len() as int) + default_tokens(v.base)
    )
}

impl Faithful for CompuVtabRange {
    open spec fn fits(v: CompuVtabRangeView, f: Setting) -> bool {
        &&& is_param(plain(v.base.name))
        &&& base_fits(v.base, false, range_total(v.verbs, v.verbs.len() as int))
        &&& (v.base.default_value matches Some(x) ==> x.len() > 0)
        &&& verbs_fit(v.verbs, f)
    }

    open spec fn shape(v: CompuVtabRangeView) -> Tree {
        shape_of("COMPU_VTAB_RANGE"@, compu_vtab_range_params(v), Seq::empty())
    }

    proof fn law_shown(v: CompuVtabRangeView, p: Page, f: Setting) {
        reveal_strlit("COMPU_VTAB_RANGE");
        lemma_keyword_word("COMPU_VTAB_RANGE"@);
        let h = seq![plain(v.base.name)];
        let x = base_tokens(
            v.base,
            false,
            range_total(v.verbs, v.verbs.len() as int)
        ) + verb_tokens(v.verbs, v.verbs.len() as int) + default_tokens(v.base);
        reveal_strlit("COMPU_VTAB_RANGE ");
        reveal_strlit(" ");
        assert("COMPU_VTAB_RANGE "@ + v.base.name =~= "COMPU_VTAB_RANGE"@ + " "@ + v.base.name);
        lemma_spells_word("COMPU_VTAB_RANGE"@);
        lemma_spells_word(v.base.name);
        lemma_spells_join(
            "COMPU_VTAB_RANGE"@,
            seq![plain("COMPU_VTAB_RANGE"@)],
            v.base.name,
            seq![plain(v.base.name)]
        );
        crate::a2l::tree_laws::lemma_shows_begin(
            p,
            "COMPU_VTAB_RANGE "@ + v.base.name,
            seq![plain("COMPU_VTAB_RANGE"@)] + h
        );
        let p0 = p.begin("COMPU_VTAB_RANGE "@ + v.base.name);
        let m = v.verbs.len() as int;
        let n = range_total(v.verbs, m);
        let y0 = base_tokens(v.base, false, n);
        let y1 = verb_tokens(v.verbs, m);
        let y2 = default_tokens(v.base);
        let p1 = CompuTabBase::written(v.base, false, p0).line(dec(n));
        let p2 = CompuVtabRange::lines(v.verbs, m, p1);
        let q0 = CompuTabBase::default_written(v.base, p2);
        lemma_base_shown(v.base, false, n, p0);
        lemma_range_verbs_shown(v.verbs, m, p1, f);
        lemma_shows_join(p0, p1, p2, y0, y1);
        lemma_default_shown(v.base, p2);
        lemma_shows_join(p0, p2, q0, y0 + y1, y2);
        assert(shows(p0, q0, x));
        let q = q0;
        let kids = Seq::<Tree>::empty();
        let y = Seq::<Tok>::empty();
        assert(blocks_tokens(kids, 0) =~= y);
        assert(x + y =~= x);
        lemma_all_params_join(y0, y1);
        lemma_all_params_join(y0 + y1, y2);
        assert(all_params(h));
        lemma_all_params_join(h, x);
        lemma_shape_tokens(h + x, kids);
        lemma_sound_shape("COMPU_VTAB_RANGE"@, h + x, kids);
        assert(h + (x + y) =~= h + x + y);
        assert(Self::body(v, p0) == Ok::<Page, Stopped>(q));
        lemma_shows_block(p, "COMPU_VTAB_RANGE "@ + v.base.name, h, "COMPU_VTAB_RANGE"@, q, x + y, Self::shape(v));
    }

    proof fn law_parsed(v: CompuVtabRangeView, tree: Tree, f: Setting) {
        let h = seq![plain(v.base.name)];
        let x = base_tokens(
            v.base,
            false,
            range_total(v.verbs, v.verbs.len() as int)
        ) + verb_tokens(v.verbs, v.verbs.len() as int) + default_tokens(v.base);
        let kids = Seq::<Tree>::empty();
        lemma_shape_found(tree, "COMPU_VTAB_RANGE"@, h + x, kids, f);
        let c = Cur::start(tree);
        lemma_tokens_at_split(c.toks, 0, h, x);
        let m = v.verbs.len() as int;
        let n = range_total(v.verbs, m);
        let y0 = base_tokens(v.base, false, n);
        let y1 = verb_tokens(v.verbs, m);
        let y2 = default_tokens(v.base);
        lemma_tokens_at_split(c.toks, 1, y0 + y1, y2);
        lemma_tokens_at_split(c.toks, 1, y0, y1);
        assert(bare(c.toks[0int + 0]) == h[0]);
        assert(bare(c.toks[1int + 0]) == y0[0]);
        assert(bare(c.toks[1int + 1]) == y0[1]);
        law_unescaped_of_escaped(v.base.description->Some_0);
        law_integer_of_dec(n as int);
        let w0 = CompuVtabRangeView {
            base: CompuTabBaseView { default_value: None, ..v.base },
            ..CompuVtabRange::blank()
        };
        let c0 = Cur { pos: 3, ..c };
        assert(CompuVtabRange::head(c) == Ok::<(CompuVtabRangeView, Cur), Failure>((w0, c0)));
        lemma_range_verbs_read(w0, c0, v.verbs, m, f);
        assert(v.verbs.subrange(0, m) =~= v.verbs);
        let w1 = CompuVtabRangeView { verbs: v.verbs, ..w0 };
        let c1 = Cur { pos: 3 + y1.len() as int, ..c };
        if v.base.default_value is Some {
            assert(bare(c1.toks[c1.pos + 0]) == y2[0]);
            assert(bare(c1.toks[c1.pos + 1]) == y2[1]);
            law_unescaped_of_escaped(v.base.default_value->Some_0);
            lemma_same("DEFAULT_VALUE"@);
            lemma_vtab_range_next(w1, c1, v, c1.step().step());
        }
    }
}

} // verus!
