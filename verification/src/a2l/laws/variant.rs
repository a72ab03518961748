//! Variants read back from what is written for them.

use crate::a2l::block::{Tree, bare_tree, children_of};
use crate::a2l::error::Failure;
use crate::a2l::faithful::{
    Faithful, FaithfulChild, KeywordText, Setting, all_fit, all_params, blocks_tokens, is_keyword,
    lemma_all_params_join, lemma_children_read, lemma_children_shown, lemma_hex_param,
    lemma_keyword_param, lemma_keyword_word, lemma_node_read, lemma_node_shown, lemma_ref_params,
    lemma_refs_shown, lemma_shape_found, lemma_shape_tokens, lemma_shapes_sound, lemma_shows_block,
    lemma_shows_quote, lemma_shows_quote_line, lemma_shows_word, lemma_shows_word_line,
    lemma_sound_shape, lemma_string_param, ref_tokens, refs_fit, shape_of, shapes, toks_numbered,
};
use crate::a2l::maps::place;
use crate::a2l::model::enums::{A2lKeyword, VarNamingType};
use crate::a2l::model::parts::{children_written, hex_form};
use crate::a2l::model::unsupported::UnsupportedNode;
use crate::a2l::model::variant::{
    VarAddress, VarAddressView, VarCharacteristic, VarCharacteristicView, VarCriterion,
    VarCriterionChild, VarCriterionChildView, VarCriterionView, VarForbiddenComb,
    VarForbiddenCombView, VariantCoding, VariantCodingChild, VariantCodingChildView,
    VariantCodingView, address_lines, combined, entry_lines, text_lines,
};
use crate::a2l::node::Node;
use crate::a2l::params::{Cur, law_integer_of_hex};
use crate::a2l::spell::{
    indents_by_blanks, law_unescaped_of_escaped, lemma_shows_join, lemma_shows_nothing,
    lemma_spells_join, lemma_spells_word, plain, shows, string,
};
use crate::a2l::token::{Tok, bare};
use crate::a2l::tree_laws::{is_param, lemma_shows_begin, lemma_tokens_at_split, tokens_at};
use crate::a2l::writer::{Page, escaped, Stopped};
use crate::text::{lemma_differ, lemma_same, same_ignore_case};
use vstd::prelude::*;

verus! {

/// Addresses as tokens.
pub open spec fn hex_tokens(s: Seq<u32>) -> Seq<Tok> {
    Seq::new(s.len(), |i: int| plain(hex_form(s[i] as nat)))
}

proof fn lemma_addresses_shown(s: Seq<u32>, n: int, p: Page)
    requires
        0 <= n <= s.len(),
        indents_by_blanks(p),
    ensures
        shows(p, address_lines(s, n, p), hex_tokens(s.subrange(0, n))),
        address_lines(s, n, p).depth == p.depth,
        address_lines(s, n, p).style == p.style,
        all_params(hex_tokens(s.subrange(0, n))),
    decreases n,
{
    if n == 0 {
        lemma_shows_nothing(p);
        assert(hex_tokens(s.subrange(0, 0)) =~= Seq::<Tok>::empty());
    } else {
        lemma_addresses_shown(s, n - 1, p);
        let q = address_lines(s, n - 1, p);
        let w = hex_form(s[n - 1] as nat);
        lemma_hex_param(s[n - 1] as nat);
        lemma_shows_word_line(q, w);
        lemma_shows_join(p, q, q.line(w), hex_tokens(s.subrange(0, n - 1)), seq![plain(w)]);
        lemma_all_params_join(hex_tokens(s.subrange(0, n - 1)), seq![plain(w)]);
        assert(hex_tokens(s.subrange(0, n - 1)) + seq![plain(w)] =~= hex_tokens(s.subrange(0, n)));
    }
}

proof fn lemma_texts_shown(s: Seq<Seq<char>>, n: int, p: Page)
    requires
        0 <= n <= s.len(),
        indents_by_blanks(p),
        all_params(ref_tokens(s)),
    ensures
        shows(p, text_lines(s, n, p), ref_tokens(s.subrange(0, n))),
        text_lines(s, n, p).depth == p.depth,
        text_lines(s, n, p).style == p.style,
    decreases n,
{
    if n == 0 {
        lemma_shows_nothing(p);
        assert(ref_tokens(s.subrange(0, 0)) =~= Seq::<Tok>::empty());
    } else {
        lemma_texts_shown(s, n - 1, p);
        let q = text_lines(s, n - 1, p);
        let w = s[n - 1];
        assert(ref_tokens(s)[n - 1] == plain(w));
        lemma_shows_word_line(q, w);
        lemma_shows_join(p, q, q.line(w), ref_tokens(s.subrange(0, n - 1)), seq![plain(w)]);
        assert(ref_tokens(s.subrange(0, n - 1)) + seq![plain(w)] =~= ref_tokens(s.subrange(0, n)));
    }
}

/// The parameters at the start of the block.
pub open spec fn var_address_head(v: VarAddressView) -> Seq<Tok> {
    Seq::<Tok>::empty()
}

/// The parameters behind the last keyword.
pub open spec fn var_address_from_0(v: VarAddressView) -> Seq<Tok> {
    hex_tokens(v.addresses)
}

/// What is written behind the last keyword.
pub open spec fn var_address_pages_0(v: VarAddressView, p: Page) -> Page {
    address_lines(v.addresses, v.addresses.len() as int, p)
}

proof fn lemma_var_address_values(v: VarAddressView, c: Cur, i: int, f: Setting)
    requires
        VarAddress::fits(v, f),
        0 <= i <= v.addresses.len(),
        tokens_at(c.toks, c.pos, hex_tokens(v.addresses).skip(i)),
        c.pos + (v.addresses.len() - i) == c.toks.len(),
        toks_numbered(c.toks, f),
    ensures
        VarAddress::options(
            VarAddressView { addresses: v.addresses.subrange(0, i) },
            c
        ) matches Ok((w, _)) && w == (v),
    decreases v.addresses.len() - i,
{
    let n = v.addresses.len() as int;
    if i < n {
        let t = hex_tokens(v.addresses);
        assert(bare(c.toks[c.pos + 0]) == t.skip(i)[0]);
        law_integer_of_hex(v.addresses[i] as nat);
        assert(v.addresses.subrange(0, i).push(v.addresses[i]) =~= v.addresses.subrange(0, i + 1));
        assert forall|k: int| 0 <= k < t.skip(i + 1).len() implies bare(
            #[trigger] c.step().toks[c.step().pos + k],
        ) == t.skip(i + 1)[k] by {
            assert(bare(c.toks[c.pos + (k + 1)]) == t.skip(i)[k + 1]);
        }
        lemma_var_address_values(v, c.step(), i + 1, f);
    } else {
        assert(v.addresses.subrange(0, n) =~= v.addresses);
    }
}

proof fn lemma_var_address_shown_0(v: VarAddressView, p: Page, f: Setting)
    requires
        VarAddress::fits(v, f),
        indents_by_blanks(p),
    ensures
        shows(p, var_address_pages_0(v, p), var_address_from_0(v)),
        var_address_pages_0(v, p).depth == p.depth,
        var_address_pages_0(v, p).style == p.style,
        all_params(var_address_from_0(v)),
{
    lemma_addresses_shown(v.addresses, v.addresses.len() as int, p);
    assert(v.addresses.subrange(0, v.addresses.len() as int) =~= v.addresses);
}

/// What is written for the parameters at the start.
#[verifier::opaque]
pub open spec fn var_address_opening(v: VarAddressView, p0: Page) -> Page {
    p0
}

proof fn lemma_var_address_opening(v: VarAddressView, p0: Page, f: Setting)
    requires
        VarAddress::fits(v, f),
        indents_by_blanks(p0),
    ensures
        shows(p0, var_address_opening(v, p0), Seq::<Tok>::empty()),
        var_address_opening(v, p0).depth == p0.depth,
        var_address_opening(v, p0).style == p0.style,
        all_params(var_address_head(v)),
{
    reveal(var_address_opening);
    lemma_shows_nothing(p0);
    let x0 = Seq::<Tok>::empty();
    assert(x0 =~= Seq::<Tok>::empty());
}

proof fn lemma_var_address_body(v: VarAddressView, p: Page, f: Setting)
    requires
        VarAddress::fits(v, f),
    ensures
        VarAddress::body(v, p) == Ok::<Page, Stopped>(var_address_pages_0(v, var_address_opening(v, p))),
{
    reveal(var_address_opening);
    let q0 = var_address_opening(v, p);
}

proof fn lemma_var_address_read_0(v: VarAddressView, c: Cur, f: Setting)
    requires
        VarAddress::fits(v, f),
        tokens_at(c.toks, c.pos, var_address_from_0(v)),
        c.pos + var_address_from_0(v).len() == c.toks.len(),
        toks_numbered(c.toks, f),
    ensures
        VarAddress::options(VarAddressView { addresses: Seq::empty() }, c) matches Ok((w, _)) && w == (v),
{
    assert(hex_tokens(v.addresses).skip(0) =~= hex_tokens(v.addresses));
    assert(v.addresses.subrange(0, 0) =~= Seq::empty());
    lemma_var_address_values(v, c, 0, f);
}

impl Faithful for VarAddress {
    open spec fn fits(v: VarAddressView, f: Setting) -> bool {
        &&& true
    }

    open spec fn shape(v: VarAddressView) -> Tree {
        shape_of("VAR_ADDRESS"@, var_address_head(v) + var_address_from_0(v), Seq::empty())
    }

    proof fn law_shown(v: VarAddressView, p: Page, f: Setting) {
        reveal_strlit("VAR_ADDRESS");
        lemma_keyword_word("VAR_ADDRESS"@);
        lemma_spells_word("VAR_ADDRESS"@);
        let h = Seq::<Tok>::empty();
        assert(seq![plain("VAR_ADDRESS"@)] + h =~= seq![plain("VAR_ADDRESS"@)]);
        crate::a2l::tree_laws::lemma_shows_begin(p, "VAR_ADDRESS"@, seq![plain("VAR_ADDRESS"@)] + h);
        let p0 = p.begin("VAR_ADDRESS"@);
        lemma_var_address_body(v, p0, f);
        lemma_var_address_opening(v, p0, f);
        let p1 = var_address_opening(v, p0);
        lemma_var_address_shown_0(v, p1, f);
        let p2 = var_address_pages_0(v, p1);
        let hx = Seq::<Tok>::empty();
        let from = var_address_from_0(v);
        lemma_shows_join(p0, p1, p2, hx, from);
        let q = p2;
        let kids = Seq::<Tree>::empty();
        let y = Seq::<Tok>::empty();
        assert(blocks_tokens(kids, 0) =~= y);
        assert(hx + from + y =~= hx + from);
        let x = var_address_head(v) + from;
        lemma_shape_tokens(x, kids);
        lemma_all_params_join(var_address_head(v), from);
        lemma_sound_shape("VAR_ADDRESS"@, x, kids);
        assert(var_address_head(v) =~= h + hx);
        assert(h + (hx + from + y) =~= x + y);
        lemma_shows_block(p, "VAR_ADDRESS"@, h, "VAR_ADDRESS"@, q, hx + from + y, Self::shape(v));
    }

    proof fn law_parsed(v: VarAddressView, tree: Tree, f: Setting) {
        let x = var_address_head(v) + var_address_from_0(v);
        let kids = Seq::<Tree>::empty();
        lemma_shape_found(tree, "VAR_ADDRESS"@, x, kids, f);
        let c = Cur::start(tree);
        lemma_tokens_at_split(c.toks, 0, var_address_head(v), var_address_from_0(v));
        let c1 = c;
        lemma_var_address_read_0(v, c1, f);
    }
}

/// The parameters at the start of the block.
pub open spec fn var_characteristic_head(v: VarCharacteristicView) -> Seq<Tok> {
    seq![plain(v.name)]
}

/// The parameters behind the last keyword.
pub open spec fn var_characteristic_from_0(v: VarCharacteristicView) -> Seq<Tok> {
    ref_tokens(v.criterion_values)
}

/// What is written behind the last keyword.
pub open spec fn var_characteristic_pages_0(v: VarCharacteristicView, p: Page) -> Page {
    text_lines(v.criterion_values, v.criterion_values.len() as int, p)
}

proof fn lemma_var_characteristic_values(v: VarCharacteristicView, c: Cur, i: int, f: Setting)
    requires
        VarCharacteristic::fits(v, f),
        0 <= i <= v.criterion_values.len(),
        tokens_at(c.toks, c.pos, ref_tokens(v.criterion_values).skip(i)),
        c.pos + (v.criterion_values.len() - i) == c.toks.len(),
        toks_numbered(c.toks, f),
    ensures
        VarCharacteristic::options(
            VarCharacteristicView { criterion_values: v.criterion_values.subrange(0, i), ..v },
            c
        ) matches Ok((w, _)) && w == (v),
    decreases v.criterion_values.len() - i,
{
    let n = v.criterion_values.len() as int;
    if i < n {
        let t = ref_tokens(v.criterion_values);
        assert(bare(c.toks[c.pos + 0]) == t.skip(i)[0]);
        assert(
            v.criterion_values.subrange(0, i).push(v.criterion_values[i]) =~= v.criterion_values.subrange(0, i + 1)
        );
        assert forall|k: int| 0 <= k < t.skip(i + 1).len() implies bare(
            #[trigger] c.step().toks[c.step().pos + k],
        ) == t.skip(i + 1)[k] by {
            assert(bare(c.toks[c.pos + (k + 1)]) == t.skip(i)[k + 1]);
        }
        lemma_var_characteristic_values(v, c.step(), i + 1, f);
    } else {
        assert(v.criterion_values.subrange(0, n) =~= v.criterion_values);
    }
}

proof fn lemma_var_characteristic_shown_0(v: VarCharacteristicView, p: Page, f: Setting)
    requires
        VarCharacteristic::fits(v, f),
        indents_by_blanks(p),
    ensures
        shows(p, var_characteristic_pages_0(v, p), var_characteristic_from_0(v)),
        var_characteristic_pages_0(v, p).depth == p.depth,
        var_characteristic_pages_0(v, p).style == p.style,
        all_params(var_characteristic_from_0(v)),
{
    lemma_texts_shown(v.criterion_values, v.criterion_values.len() as int, p);
    assert(v.criterion_values.subrange(0, v.criterion_values.len() as int) =~= v.criterion_values);
}

/// What is written for the parameters at the start.
#[verifier::opaque]
pub open spec fn var_characteristic_opening(v: VarCharacteristicView, p0: Page) -> Page {
    p0
}

proof fn lemma_var_characteristic_opening(v: VarCharacteristicView, p0: Page, f: Setting)
    requires
        VarCharacteristic::fits(v, f),
        indents_by_blanks(p0),
    ensures
        shows(p0, var_characteristic_opening(v, p0), Seq::<Tok>::empty()),
        var_characteristic_opening(v, p0).depth == p0.depth,
        var_characteristic_opening(v, p0).style == p0.style,
        all_params(var_characteristic_head(v)),
{
    reveal(var_characteristic_opening);
    lemma_shows_nothing(p0);
    let x0 = Seq::<Tok>::empty();
    assert(x0 =~= Seq::<Tok>::empty());
}

proof fn lemma_var_characteristic_body(v: VarCharacteristicView, p: Page, f: Setting)
    requires
        VarCharacteristic::fits(v, f),
    ensures
        VarCharacteristic::body(v, p) == Ok::<Page, Stopped>(
            var_characteristic_pages_0(v, var_characteristic_opening(v, p))
        ),
{
    reveal(var_characteristic_opening);
    let q0 = var_characteristic_opening(v, p);
}

proof fn lemma_var_characteristic_head(v: VarCharacteristicView, c: Cur, f: Setting)
    requires
        VarCharacteristic::fits(v, f),
        tokens_at(c.toks, c.pos, var_characteristic_head(v)),
        toks_numbered(c.toks, f),
    ensures
        VarCharacteristic::head(c) == Ok::<(VarCharacteristicView, Cur), Failure>(
            (VarCharacteristicView { criterion_values: Seq::empty(), ..v }, Cur { pos: c.pos + 1, ..c }),
        ),
{
    assert(bare(c.toks[c.pos + 0]) == var_characteristic_head(v)[0]);
}

proof fn lemma_var_characteristic_read_0(v: VarCharacteristicView, c: Cur, f: Setting)
    requires
        VarCharacteristic::fits(v, f),
        tokens_at(c.toks, c.pos, var_characteristic_from_0(v)),
        c.pos + var_characteristic_from_0(v).len() == c.toks.len(),
        toks_numbered(c.toks, f),
    ensures
        VarCharacteristic::options(
            VarCharacteristicView { criterion_values: Seq::empty(), ..v },
            c
        ) matches Ok((w, _)) && w == (v),
{
    assert(ref_tokens(v.criterion_values).skip(0) =~= ref_tokens(v.criterion_values));
    assert(v.criterion_values.subrange(0, 0) =~= Seq::empty());
    lemma_var_characteristic_values(v, c, 0, f);
}

impl Faithful for VarCharacteristic {
    open spec fn fits(v: VarCharacteristicView, f: Setting) -> bool {
        &&& is_param(plain(v.name))
        &&& all_params(ref_tokens(v.criterion_values))
    }

    open spec fn shape(v: VarCharacteristicView) -> Tree {
        shape_of("VAR_CHARACTERISTIC"@, var_characteristic_head(v) + var_characteristic_from_0(v), Seq::empty())
    }

    proof fn law_shown(v: VarCharacteristicView, p: Page, f: Setting) {
        reveal_strlit("VAR_CHARACTERISTIC");
        lemma_keyword_word("VAR_CHARACTERISTIC"@);
        reveal_strlit("VAR_CHARACTERISTIC ");
        reveal_strlit(" ");
        assert("VAR_CHARACTERISTIC "@ + v.name =~= "VAR_CHARACTERISTIC"@ + " "@ + v.name);
        lemma_spells_word("VAR_CHARACTERISTIC"@);
        lemma_spells_word(v.name);
        lemma_spells_join("VAR_CHARACTERISTIC"@, seq![plain("VAR_CHARACTERISTIC"@)], v.name, seq![plain(v.name)]);
        let h = seq![plain(v.name)];
        crate::a2l::tree_laws::lemma_shows_begin(
            p,
            "VAR_CHARACTERISTIC "@ + v.name,
            seq![plain("VAR_CHARACTERISTIC"@)] + h
        );
        let p0 = p.begin("VAR_CHARACTERISTIC "@ + v.name);
        lemma_var_characteristic_body(v, p0, f);
        lemma_var_characteristic_opening(v, p0, f);
        let p1 = var_characteristic_opening(v, p0);
        lemma_var_characteristic_shown_0(v, p1, f);
        let p2 = var_characteristic_pages_0(v, p1);
        let hx = Seq::<Tok>::empty();
        let from = var_characteristic_from_0(v);
        lemma_shows_join(p0, p1, p2, hx, from);
        let q = p2;
        let kids = Seq::<Tree>::empty();
        let y = Seq::<Tok>::empty();
        assert(blocks_tokens(kids, 0) =~= y);
        assert(hx + from + y =~= hx + from);
        let x = var_characteristic_head(v) + from;
        lemma_shape_tokens(x, kids);
        lemma_all_params_join(var_characteristic_head(v), from);
        lemma_sound_shape("VAR_CHARACTERISTIC"@, x, kids);
        assert(var_characteristic_head(v) =~= h + hx);
        assert(h + (hx + from + y) =~= x + y);
        lemma_shows_block(
            p,
            "VAR_CHARACTERISTIC "@ + v.name,
            h,
            "VAR_CHARACTERISTIC"@,
            q,
            hx + from + y,
            Self::shape(v)
        );
    }

    proof fn law_parsed(v: VarCharacteristicView, tree: Tree, f: Setting) {
        let x = var_characteristic_head(v) + var_characteristic_from_0(v);
        let kids = Seq::<Tree>::empty();
        lemma_shape_found(tree, "VAR_CHARACTERISTIC"@, x, kids, f);
        let c = Cur::start(tree);
        lemma_tokens_at_split(c.toks, 0, var_characteristic_head(v), var_characteristic_from_0(v));
        lemma_var_characteristic_head(v, c, f);
        let c1 = Cur { pos: 1, ..c };
        lemma_var_characteristic_read_0(v, c1, f);
    }
}

impl FaithfulChild for VarCriterionChild {
    open spec fn fits(v: VarCriterionChildView, f: Setting) -> bool {
        match v {
            VarCriterionChildView::VarAddress(n) => <VarAddress as Faithful>::fits(n, f),
            VarCriterionChildView::Unsupported(n) => <UnsupportedNode as FaithfulChild>::fits(n, f) && n.keyword != "VAR_ADDRESS"@,
        }
    }

    open spec fn shape(v: VarCriterionChildView) -> Tree {
        match v {
            VarCriterionChildView::VarAddress(n) => <VarAddress as Faithful>::shape(n),
            VarCriterionChildView::Unsupported(n) => <UnsupportedNode as FaithfulChild>::shape(n),
        }
    }

    proof fn law_shown(v: VarCriterionChildView, p: Page, f: Setting) {
        match v {
            VarCriterionChildView::VarAddress(n) => {
                lemma_node_shown::<VarAddress>(n, p, f);
            },
            VarCriterionChildView::Unsupported(n) => {
                <UnsupportedNode as FaithfulChild>::law_shown(n, p, f);
            },
        }
    }

    proof fn law_parsed(v: VarCriterionChildView, tree: Tree, f: Setting) {
        match v {
            VarCriterionChildView::VarAddress(n) => {
                reveal_strlit("VAR_ADDRESS");
                assert(bare_tree(tree).keyword == "VAR_ADDRESS"@);
                lemma_node_read::<VarAddress>(n, tree, f);
            },
            VarCriterionChildView::Unsupported(n) => {
                <UnsupportedNode as FaithfulChild>::law_parsed(n, tree, f);
            },
        }
    }
}

/// Whether a value of a criterion is no keyword of the block.
pub open spec fn is_value(w: Seq<char>) -> bool {
    !same_ignore_case(w, "VAR_MEASUREMENT"@) && !same_ignore_case(
        w,
        "VAR_SELECTION_CHARACTERISTIC"@,
    )
}

/// The parameters at the start of the block.
pub open spec fn var_criterion_head(v: VarCriterionView) -> Seq<Tok> {
    seq![plain(v.name), string(escaped(v.description))]
}

/// The parameters of `VAR_MEASUREMENT`.
#[verifier::opaque]
pub open spec fn var_criterion_part_0(v: VarCriterionView) -> Seq<Tok> {
    if v.var_measurement is Some {
        seq![plain("VAR_MEASUREMENT"@), plain(v.var_measurement->Some_0)]
    } else { Seq::<Tok>::empty() }
}

/// The parameters from `VAR_MEASUREMENT` on.
pub open spec fn var_criterion_from_0(v: VarCriterionView) -> Seq<Tok> {
    var_criterion_part_0(v) + var_criterion_from_1(v)
}

/// What is written for `VAR_MEASUREMENT`.
#[verifier::opaque]
pub open spec fn var_criterion_page_0(v: VarCriterionView, p: Page) -> Page {
    match v.var_measurement { Some(x) if x.len() > 0 => p.word("VAR_MEASUREMENT"@, x), _ => p }
}

/// What is written from `VAR_MEASUREMENT` on.
pub open spec fn var_criterion_pages_0(v: VarCriterionView, p: Page) -> Page {
    var_criterion_pages_1(v, var_criterion_page_0(v, p))
}

/// The parameters of `VAR_SELECTION_CHARACTERISTIC`.
#[verifier::opaque]
pub open spec fn var_criterion_part_1(v: VarCriterionView) -> Seq<Tok> {
    if v.var_selection_characteristic is Some {
        seq![plain("VAR_SELECTION_CHARACTERISTIC"@), plain(v.var_selection_characteristic->Some_0)]
    } else { Seq::<Tok>::empty() }
}

/// The parameters from `VAR_SELECTION_CHARACTERISTIC` on.
pub open spec fn var_criterion_from_1(v: VarCriterionView) -> Seq<Tok> {
    var_criterion_part_1(v) + var_criterion_from_2(v)
}

/// What is written for `VAR_SELECTION_CHARACTERISTIC`.
#[verifier::opaque]
pub open spec fn var_criterion_page_1(v: VarCriterionView, p: Page) -> Page {
    match v.var_selection_characteristic {
        Some(x) if x.len() > 0 => p.word("VAR_SELECTION_CHARACTERISTIC"@, x),
        _ => p
    }
}

/// What is written from `VAR_SELECTION_CHARACTERISTIC` on.
pub open spec fn var_criterion_pages_1(v: VarCriterionView, p: Page) -> Page {
    var_criterion_pages_2(v, var_criterion_page_1(v, p))
}

/// The parameters behind the last keyword.
pub open spec fn var_criterion_from_2(v: VarCriterionView) -> Seq<Tok> {
    ref_tokens(v.criterion_values)
}

/// What is written behind the last keyword.
pub open spec fn var_criterion_pages_2(v: VarCriterionView, p: Page) -> Page {
    p.references(v.criterion_values)
}

proof fn lemma_var_criterion_values(v: VarCriterionView, c: Cur, i: int, f: Setting)
    requires
        VarCriterion::fits(v, f),
        0 <= i <= v.criterion_values.len(),
        tokens_at(c.toks, c.pos, ref_tokens(v.criterion_values).skip(i)),
        c.pos + (v.criterion_values.len() - i) == c.toks.len(),
        toks_numbered(c.toks, f),
    ensures
        VarCriterion::options(
            VarCriterionView {
                criterion_values: v.criterion_values.subrange(0, i),
                children: Seq::empty(),
                ..v
            },
            c
        ) matches Ok((w, _)) && w == (VarCriterionView { children: Seq::empty(), ..v }),
    decreases v.criterion_values.len() - i,
{
    let n = v.criterion_values.len() as int;
    if i < n {
        let t = ref_tokens(v.criterion_values);
        assert(bare(c.toks[c.pos + 0]) == t.skip(i)[0]);
        assert(is_value(v.criterion_values[i]));
        assert(
            v.criterion_values.subrange(0, i).push(v.criterion_values[i]) =~= v.criterion_values.subrange(0, i + 1)
        );
        assert forall|k: int| 0 <= k < t.skip(i + 1).len() implies bare(
            #[trigger] c.step().toks[c.step().pos + k],
        ) == t.skip(i + 1)[k] by {
            assert(bare(c.toks[c.pos + (k + 1)]) == t.skip(i)[k + 1]);
        }
        lemma_var_criterion_values(v, c.step(), i + 1, f);
    } else {
        assert(v.criterion_values.subrange(0, n) =~= v.criterion_values);
    }
}

proof fn lemma_var_criterion_part_1(v: VarCriterionView, p: Page, f: Setting)
    requires
        VarCriterion::fits(v, f),
        indents_by_blanks(p),
    ensures
        shows(p, var_criterion_page_1(v, p), var_criterion_part_1(v)),
        var_criterion_page_1(v, p).depth == p.depth,
        var_criterion_page_1(v, p).style == p.style,
        all_params(var_criterion_part_1(v)),
{
    reveal(var_criterion_page_1);
    reveal(var_criterion_part_1);
    if v.var_selection_characteristic is Some {
        reveal_strlit("VAR_SELECTION_CHARACTERISTIC");
        assert(is_keyword("VAR_SELECTION_CHARACTERISTIC"@));
        lemma_keyword_param("VAR_SELECTION_CHARACTERISTIC"@);
        lemma_shows_word(p, "VAR_SELECTION_CHARACTERISTIC"@, v.var_selection_characteristic->Some_0);
        reveal_strlit("VAR_SELECTION_CHARACTERISTIC");
        assert(is_keyword("VAR_SELECTION_CHARACTERISTIC"@));
        lemma_keyword_param("VAR_SELECTION_CHARACTERISTIC"@);
        assert(
            all_params(
                seq![
                    plain("VAR_SELECTION_CHARACTERISTIC"@),
                    plain(v.var_selection_characteristic->Some_0)
                ]
            )
        );
        
    } else {
        lemma_shows_nothing(p);
    }
}

proof fn lemma_var_criterion_part_0(v: VarCriterionView, p: Page, f: Setting)
    requires
        VarCriterion::fits(v, f),
        indents_by_blanks(p),
    ensures
        shows(p, var_criterion_page_0(v, p), var_criterion_part_0(v)),
        var_criterion_page_0(v, p).depth == p.depth,
        var_criterion_page_0(v, p).style == p.style,
        all_params(var_criterion_part_0(v)),
{
    reveal(var_criterion_page_0);
    reveal(var_criterion_part_0);
    if v.var_measurement is Some {
        reveal_strlit("VAR_MEASUREMENT");
        assert(is_keyword("VAR_MEASUREMENT"@));
        lemma_keyword_param("VAR_MEASUREMENT"@);
        lemma_shows_word(p, "VAR_MEASUREMENT"@, v.var_measurement->Some_0);
        reveal_strlit("VAR_MEASUREMENT");
        assert(is_keyword("VAR_MEASUREMENT"@));
        lemma_keyword_param("VAR_MEASUREMENT"@);
        assert(all_params(seq![plain("VAR_MEASUREMENT"@), plain(v.var_measurement->Some_0)]));
        
    } else {
        lemma_shows_nothing(p);
    }
}

proof fn lemma_var_criterion_shown_2(v: VarCriterionView, p: Page, f: Setting)
    requires
        VarCriterion::fits(v, f),
        indents_by_blanks(p),
    ensures
        shows(p, var_criterion_pages_2(v, p), var_criterion_from_2(v)),
        var_criterion_pages_2(v, p).depth == p.depth,
        var_criterion_pages_2(v, p).style == p.style,
        all_params(var_criterion_from_2(v)),
{
    lemma_refs_shown(p, v.criterion_values);
    lemma_ref_params(v.criterion_values);
}

proof fn lemma_var_criterion_shown_1(v: VarCriterionView, p: Page, f: Setting)
    requires
        VarCriterion::fits(v, f),
        indents_by_blanks(p),
    ensures
        shows(p, var_criterion_pages_1(v, p), var_criterion_from_1(v)),
        var_criterion_pages_1(v, p).depth == p.depth,
        var_criterion_pages_1(v, p).style == p.style,
        all_params(var_criterion_from_1(v)),
{
    lemma_var_criterion_part_1(v, p, f);
    let q = var_criterion_page_1(v, p);
    lemma_var_criterion_shown_2(v, q, f);
    lemma_shows_join(p, q, var_criterion_pages_2(v, q), var_criterion_part_1(v), var_criterion_from_2(v));
    lemma_all_params_join(var_criterion_part_1(v), var_criterion_from_2(v));
}

proof fn lemma_var_criterion_shown_0(v: VarCriterionView, p: Page, f: Setting)
    requires
        VarCriterion::fits(v, f),
        indents_by_blanks(p),
    ensures
        shows(p, var_criterion_pages_0(v, p), var_criterion_from_0(v)),
        var_criterion_pages_0(v, p).depth == p.depth,
        var_criterion_pages_0(v, p).style == p.style,
        all_params(var_criterion_from_0(v)),
{
    lemma_var_criterion_part_0(v, p, f);
    let q = var_criterion_page_0(v, p);
    lemma_var_criterion_shown_1(v, q, f);
    lemma_shows_join(p, q, var_criterion_pages_1(v, q), var_criterion_part_0(v), var_criterion_from_1(v));
    lemma_all_params_join(var_criterion_part_0(v), var_criterion_from_1(v));
}

/// What is written for the parameters at the start.
#[verifier::opaque]
pub open spec fn var_criterion_opening(v: VarCriterionView, p0: Page) -> Page {
    let p1 = p0.quote_line(v.description);
    p1
}

proof fn lemma_var_criterion_opening(v: VarCriterionView, p0: Page, f: Setting)
    requires
        VarCriterion::fits(v, f),
        indents_by_blanks(p0),
    ensures
        shows(p0, var_criterion_opening(v, p0), seq![string(escaped(v.description))]),
        var_criterion_opening(v, p0).depth == p0.depth,
        var_criterion_opening(v, p0).style == p0.style,
        all_params(var_criterion_head(v)),
{
    reveal(var_criterion_opening);
    lemma_shows_nothing(p0);
    let x0 = Seq::<Tok>::empty();
    let p1 = p0.quote_line(v.description);
    assert(
        shows(
            p0,
            p1,
            seq![string(escaped(v.description))]
        ) && p1.depth == p0.depth && p1.style == p0.style
    ) by {
        let p = p0;
        lemma_shows_quote_line(p, v.description);
    }
    lemma_shows_join(p0, p0, p1, x0, seq![string(escaped(v.description))]);
    let x1 = x0 + seq![string(escaped(v.description))];
    assert(x1 =~= seq![string(escaped(v.description))]);
    lemma_string_param(v.description);
}

proof fn lemma_var_criterion_body(v: VarCriterionView, p: Page, f: Setting)
    requires
        VarCriterion::fits(v, f),
    ensures
        VarCriterion::body(v, p) == children_written::<VarCriterionChild>(
            v.children,
            0,
            false,
            var_criterion_pages_0(v, var_criterion_opening(v, p))
        ),
{
    reveal(var_criterion_opening);
    let q0 = var_criterion_opening(v, p);
    let q1 = match v.var_measurement { Some(x) if x.len() > 0 => q0.word("VAR_MEASUREMENT"@, x), _ => q0 };
    assert(q1 == var_criterion_page_0(v, q0)) by {
        reveal(var_criterion_page_0);
    }
    let q2 = match v.var_selection_characteristic {
        Some(x) if x.len() > 0 => q1.word("VAR_SELECTION_CHARACTERISTIC"@, x),
        _ => q1
    };
    assert(q2 == var_criterion_page_1(v, q1)) by {
        reveal(var_criterion_page_1);
    }
}

proof fn lemma_var_criterion_head(v: VarCriterionView, c: Cur, f: Setting)
    requires
        VarCriterion::fits(v, f),
        tokens_at(c.toks, c.pos, var_criterion_head(v)),
        toks_numbered(c.toks, f),
    ensures
        VarCriterion::head(c) == Ok::<(VarCriterionView, Cur), Failure>(
            (
                VarCriterionView {
                    var_measurement: None,
                    var_selection_characteristic: None,
                    children: Seq::empty(),
                    criterion_values: Seq::empty(),
                    ..v
                },
                Cur { pos: c.pos + 2, ..c }
            ),
        ),
{
    law_unescaped_of_escaped(v.description);
    assert(bare(c.toks[c.pos + 0]) == var_criterion_head(v)[0]);
    assert(bare(c.toks[c.pos + 1]) == var_criterion_head(v)[1]);
}

proof fn lemma_var_criterion_step_0(w: VarCriterionView, v: VarCriterionView, c: Cur, f: Setting)
    requires
        VarCriterion::fits(v, f),
        v.var_measurement is Some,
        tokens_at(c.toks, c.pos, seq![plain("VAR_MEASUREMENT"@), plain(v.var_measurement->Some_0)]),
        toks_numbered(c.toks, f),
    ensures
        VarCriterion::option(w, c) == Ok::<(VarCriterionView, Cur), Failure>(
            (VarCriterionView { var_measurement: v.var_measurement, ..w }, Cur { pos: c.pos + 2, ..c }),
        ),
{
    reveal_strlit("VAR_MEASUREMENT");
    lemma_same("VAR_MEASUREMENT"@);
    assert(bare(c.toks[c.pos + 0]) == (seq![plain("VAR_MEASUREMENT"@), plain(v.var_measurement->Some_0)])[0]);
    assert(bare(c.toks[c.pos + 1]) == (seq![plain("VAR_MEASUREMENT"@), plain(v.var_measurement->Some_0)])[1]);
    
}

proof fn lemma_var_criterion_step_1(w: VarCriterionView, v: VarCriterionView, c: Cur, f: Setting)
    requires
        VarCriterion::fits(v, f),
        v.var_selection_characteristic is Some,
        tokens_at(
            c.toks,
            c.pos,
            seq![
                plain("VAR_SELECTION_CHARACTERISTIC"@),
                plain(v.var_selection_characteristic->Some_0)
            ]
        ),
        toks_numbered(c.toks, f),
    ensures
        VarCriterion::option(w, c) == Ok::<(VarCriterionView, Cur), Failure>(
            (
                VarCriterionView {
                    var_selection_characteristic: v.var_selection_characteristic,
                    ..w
                },
                Cur { pos: c.pos + 2, ..c }
            ),
        ),
{
    reveal_strlit("VAR_SELECTION_CHARACTERISTIC");
    reveal_strlit("VAR_MEASUREMENT");
    lemma_differ("VAR_SELECTION_CHARACTERISTIC"@, "VAR_MEASUREMENT"@, 0);
    lemma_same("VAR_SELECTION_CHARACTERISTIC"@);
    assert(
        bare(c.toks[c.pos + 0]) == (
            seq![
                plain("VAR_SELECTION_CHARACTERISTIC"@),
                plain(v.var_selection_characteristic->Some_0)
            ]
        )[0]
    );
    assert(
        bare(c.toks[c.pos + 1]) == (
            seq![
                plain("VAR_SELECTION_CHARACTERISTIC"@),
                plain(v.var_selection_characteristic->Some_0)
            ]
        )[1]
    );
    
}

proof fn lemma_var_criterion_read_2(v: VarCriterionView, c: Cur, f: Setting)
    requires
        VarCriterion::fits(v, f),
        tokens_at(c.toks, c.pos, var_criterion_from_2(v)),
        c.pos + var_criterion_from_2(v).len() == c.toks.len(),
        toks_numbered(c.toks, f),
    ensures
        VarCriterion::options(
            VarCriterionView { children: Seq::empty(), criterion_values: Seq::empty(), ..v },
            c
        ) matches Ok((w, _)) && w == (VarCriterionView { children: Seq::empty(), ..v }),
{
    assert(ref_tokens(v.criterion_values).skip(0) =~= ref_tokens(v.criterion_values));
    assert(v.criterion_values.subrange(0, 0) =~= Seq::empty());
    lemma_var_criterion_values(v, c, 0, f);
}

proof fn lemma_var_criterion_read_1(v: VarCriterionView, c: Cur, f: Setting)
    requires
        VarCriterion::fits(v, f),
        tokens_at(c.toks, c.pos, var_criterion_from_1(v)),
        c.pos + var_criterion_from_1(v).len() == c.toks.len(),
        toks_numbered(c.toks, f),
    ensures
        VarCriterion::options(
            VarCriterionView {
                var_selection_characteristic: None,
                children: Seq::empty(),
                criterion_values: Seq::empty(),
                ..v
            },
            c
        ) matches Ok((w, _)) && w == (VarCriterionView { children: Seq::empty(), ..v }),
{
    reveal(var_criterion_part_1);
    let t = var_criterion_part_1(v);
    if v.var_selection_characteristic is Some {
        lemma_tokens_at_split(c.toks, c.pos, t, var_criterion_from_2(v));
        let c2 = Cur { pos: c.pos + 2, ..c };
        lemma_var_criterion_step_1(
            VarCriterionView {
                var_selection_characteristic: None,
                children: Seq::empty(),
                criterion_values: Seq::empty(),
                ..v
            },
            v,
            c,
            f
        );
        lemma_var_criterion_read_2(v, c2, f);
    } else {
        assert(t + var_criterion_from_2(v) =~= var_criterion_from_2(v));
        lemma_var_criterion_read_2(v, c, f);
    }
}

proof fn lemma_var_criterion_read_0(v: VarCriterionView, c: Cur, f: Setting)
    requires
        VarCriterion::fits(v, f),
        tokens_at(c.toks, c.pos, var_criterion_from_0(v)),
        c.pos + var_criterion_from_0(v).len() == c.toks.len(),
        toks_numbered(c.toks, f),
    ensures
        VarCriterion::options(
            VarCriterionView {
                var_measurement: None,
                var_selection_characteristic: None,
                children: Seq::empty(),
                criterion_values: Seq::empty(),
                ..v
            },
            c
        ) matches Ok((w, _)) && w == (VarCriterionView { children: Seq::empty(), ..v }),
{
    reveal(var_criterion_part_0);
    let t = var_criterion_part_0(v);
    if v.var_measurement is Some {
        lemma_tokens_at_split(c.toks, c.pos, t, var_criterion_from_1(v));
        let c2 = Cur { pos: c.pos + 2, ..c };
        lemma_var_criterion_step_0(
            VarCriterionView {
                var_measurement: None,
                var_selection_characteristic: None,
                children: Seq::empty(),
                criterion_values: Seq::empty(),
                ..v
            },
            v,
            c,
            f
        );
        lemma_var_criterion_read_1(v, c2, f);
    } else {
        assert(t + var_criterion_from_1(v) =~= var_criterion_from_1(v));
        lemma_var_criterion_read_1(v, c, f);
    }
}

impl Faithful for VarCriterion {
    open spec fn fits(v: VarCriterionView, f: Setting) -> bool {
        &&& is_param(plain(v.name))
        &&& (v.var_measurement matches Some(x) ==> is_param(plain(x)))
        &&& (v.var_selection_characteristic matches Some(x) ==> is_param(plain(x)))
        &&& refs_fit(v.criterion_values) && (
            forall|i: int| 0 <= i < v.criterion_values.len() ==> is_value(
                #[trigger] v.criterion_values[i]
            )
        )
        &&& all_fit::<VarCriterionChild>(v.children, f)
    }

    open spec fn shape(v: VarCriterionView) -> Tree {
        shape_of(
            "VAR_CRITERION"@,
            var_criterion_head(v) + var_criterion_from_0(v),
            shapes::<VarCriterionChild>(v.children)
        )
    }

    proof fn law_shown(v: VarCriterionView, p: Page, f: Setting) {
        reveal_strlit("VAR_CRITERION");
        lemma_keyword_word("VAR_CRITERION"@);
        reveal_strlit("VAR_CRITERION ");
        reveal_strlit(" ");
        assert("VAR_CRITERION "@ + v.name =~= "VAR_CRITERION"@ + " "@ + v.name);
        lemma_spells_word("VAR_CRITERION"@);
        lemma_spells_word(v.name);
        lemma_spells_join("VAR_CRITERION"@, seq![plain("VAR_CRITERION"@)], v.name, seq![plain(v.name)]);
        let h = seq![plain(v.name)];
        crate::a2l::tree_laws::lemma_shows_begin(p, "VAR_CRITERION "@ + v.name, seq![plain("VAR_CRITERION"@)] + h);
        let p0 = p.begin("VAR_CRITERION "@ + v.name);
        lemma_var_criterion_body(v, p0, f);
        lemma_var_criterion_opening(v, p0, f);
        let p1 = var_criterion_opening(v, p0);
        lemma_var_criterion_shown_0(v, p1, f);
        let p2 = var_criterion_pages_0(v, p1);
        let hx = seq![string(escaped(v.description))];
        let from = var_criterion_from_0(v);
        lemma_shows_join(p0, p1, p2, hx, from);
        lemma_children_shown::<VarCriterionChild>(v.children, false, p2, f);
        lemma_shapes_sound::<VarCriterionChild>(v.children, p, f);
        let q = children_written::<VarCriterionChild>(v.children, 0, false, p2)->Ok_0;
        let kids = shapes::<VarCriterionChild>(v.children);
        let y = blocks_tokens(kids, 0);
        lemma_shows_join(p0, p2, q, hx + from, y);
        let x = var_criterion_head(v) + from;
        lemma_shape_tokens(x, kids);
        lemma_all_params_join(var_criterion_head(v), from);
        lemma_sound_shape("VAR_CRITERION"@, x, kids);
        assert(var_criterion_head(v) =~= h + hx);
        assert(h + (hx + from + y) =~= x + y);
        lemma_shows_block(p, "VAR_CRITERION "@ + v.name, h, "VAR_CRITERION"@, q, hx + from + y, Self::shape(v));
    }

    proof fn law_parsed(v: VarCriterionView, tree: Tree, f: Setting) {
        let x = var_criterion_head(v) + var_criterion_from_0(v);
        let kids = shapes::<VarCriterionChild>(v.children);
        lemma_shape_found(tree, "VAR_CRITERION"@, x, kids, f);
        let c = Cur::start(tree);
        lemma_tokens_at_split(c.toks, 0, var_criterion_head(v), var_criterion_from_0(v));
        lemma_var_criterion_head(v, c, f);
        let c1 = Cur { pos: 2, ..c };
        lemma_var_criterion_read_0(v, c1, f);
        lemma_children_read::<VarCriterionChild>(v.children, children_of(tree.items), f);
    }
}

/// Entries as tokens.
pub open spec fn entry_tokens(s: Seq<(Seq<char>, Seq<char>)>) -> Seq<Tok> {
    Seq::new(2 * s.len(), |i: int| plain(if i % 2 == 0 { s[i / 2].0 } else { s[i / 2].1 }))
}

/// Whether no key occurs twice.
pub open spec fn keys_differ<V>(s: Seq<(Seq<char>, V)>) -> bool {
    forall|i: int, j: int| 0 <= i < j < s.len() ==> (#[trigger] s[i]).0 != (#[trigger] s[j]).0
}

pub(crate) proof fn lemma_place_new<V>(s: Seq<(Seq<char>, V)>, key: Seq<char>)
    requires
        forall|i: int| 0 <= i < s.len() ==> (#[trigger] s[i]).0 != key,
    ensures
        place(s, key) == s.len(),
    decreases s.len(),
{
    if s.len() > 0 {
        let t = s.drop_first();
        assert(s[0].0 != key);
        assert forall|i: int| 0 <= i < t.len() implies (#[trigger] t[i]).0 != key by {
            assert(t[i] == s[i + 1]);
        }
        lemma_place_new(t, key);
    }
}

proof fn lemma_entries_shown(s: Seq<(Seq<char>, Seq<char>)>, n: int, p: Page)
    requires
        0 <= n <= s.len(),
        indents_by_blanks(p),
        all_params(entry_tokens(s)),
    ensures
        shows(p, entry_lines(s, n, p), entry_tokens(s.subrange(0, n))),
        entry_lines(s, n, p).depth == p.depth,
        entry_lines(s, n, p).style == p.style,
    decreases n,
{
    if n == 0 {
        lemma_shows_nothing(p);
        assert(entry_tokens(s.subrange(0, 0)) =~= Seq::<Tok>::empty());
    } else {
        lemma_entries_shown(s, n - 1, p);
        let q = entry_lines(s, n - 1, p);
        let (k, v) = s[n - 1];
        assert(entry_tokens(s)[2 * n - 2] == plain(k));
        assert(entry_tokens(s)[2 * n - 1] == plain(v));
        lemma_shows_word(q, k, v);
        let x = entry_tokens(s.subrange(0, n - 1));
        lemma_shows_join(p, q, q.word(k, v), x, seq![plain(k), plain(v)]);
        assert(x + seq![plain(k), plain(v)] =~= entry_tokens(s.subrange(0, n)));
    }
}

proof fn lemma_combined(toks: Seq<Tok>, s: Seq<(Seq<char>, Seq<char>)>, n: int)
    requires
        0 <= n <= s.len(),
        keys_differ(s),
        tokens_at(toks, 0, entry_tokens(s)),
    ensures
        combined(toks, n) == s.subrange(0, n),
    decreases n,
{
    if n == 0 {
        assert(s.subrange(0, 0) =~= Seq::<(Seq<char>, Seq<char>)>::empty());
    } else {
        lemma_combined(toks, s, n - 1);
        assert(bare(toks[0 + (2 * n - 2)]) == entry_tokens(s)[2 * n - 2]);
        assert(bare(toks[0 + (2 * n - 1)]) == entry_tokens(s)[2 * n - 1]);
        let before = s.subrange(0, n - 1);
        assert forall|i: int| 0 <= i < before.len() implies (#[trigger] before[i]).0 != s[n - 1].0 by {
            assert(before[i] == s[i]);
        }
        lemma_place_new(before, s[n - 1].0);
        assert(before.push(s[n - 1]) =~= s.subrange(0, n));
    }
}

/// The parameters of the block.
pub open spec fn var_forbidden_comb_params(v: VarForbiddenCombView) -> Seq<Tok> {
    Seq::<Tok>::empty() + (entry_tokens(v.forbidden))
}

impl Faithful for VarForbiddenComb {
    open spec fn fits(v: VarForbiddenCombView, f: Setting) -> bool {
        &&& all_params(entry_tokens(v.forbidden))
        &&& keys_differ(v.forbidden)
    }

    open spec fn shape(v: VarForbiddenCombView) -> Tree {
        shape_of("VAR_FORBIDDEN_COMB"@, var_forbidden_comb_params(v), Seq::empty())
    }

    proof fn law_shown(v: VarForbiddenCombView, p: Page, f: Setting) {
        reveal_strlit("VAR_FORBIDDEN_COMB");
        lemma_keyword_word("VAR_FORBIDDEN_COMB"@);
        let h = Seq::<Tok>::empty();
        let x = entry_tokens(v.forbidden);
        lemma_spells_word("VAR_FORBIDDEN_COMB"@);
        assert(seq![plain("VAR_FORBIDDEN_COMB"@)] + h =~= seq![plain("VAR_FORBIDDEN_COMB"@)]);
        crate::a2l::tree_laws::lemma_shows_begin(p, "VAR_FORBIDDEN_COMB"@, seq![plain("VAR_FORBIDDEN_COMB"@)] + h);
        let p0 = p.begin("VAR_FORBIDDEN_COMB"@);
        let n = v.forbidden.len() as int;
        lemma_entries_shown(v.forbidden, n, p0);
        assert(v.forbidden.subrange(0, n) =~= v.forbidden);
        let q0 = entry_lines(v.forbidden, n, p0);
        assert(shows(p0, q0, x));
        let q = q0;
        let kids = Seq::<Tree>::empty();
        let y = Seq::<Tok>::empty();
        assert(blocks_tokens(kids, 0) =~= y);
        assert(x + y =~= x);
        assert(all_params(h));
        lemma_all_params_join(h, x);
        lemma_shape_tokens(h + x, kids);
        lemma_sound_shape("VAR_FORBIDDEN_COMB"@, h + x, kids);
        assert(h + (x + y) =~= h + x + y);
        assert(Self::body(v, p0) == Ok::<Page, Stopped>(q));
        lemma_shows_block(p, "VAR_FORBIDDEN_COMB"@, h, "VAR_FORBIDDEN_COMB"@, q, x + y, Self::shape(v));
    }

    proof fn law_parsed(v: VarForbiddenCombView, tree: Tree, f: Setting) {
        let h = Seq::<Tok>::empty();
        let x = entry_tokens(v.forbidden);
        let kids = Seq::<Tree>::empty();
        lemma_shape_found(tree, "VAR_FORBIDDEN_COMB"@, h + x, kids, f);
        let c = Cur::start(tree);
        lemma_tokens_at_split(c.toks, 0, h, x);
        let n = v.forbidden.len() as int;
        assert(h + x =~= x);
        assert(c.toks.len() == 2 * n);
        lemma_combined(c.toks, v.forbidden, n);
        assert(v.forbidden.subrange(0, n) =~= v.forbidden);
    }
}

impl FaithfulChild for VariantCodingChild {
    open spec fn fits(v: VariantCodingChildView, f: Setting) -> bool {
        match v {
            VariantCodingChildView::VarCriterion(n) => <VarCriterion as Faithful>::fits(n, f),
            VariantCodingChildView::VarCharacteristic(n) => <VarCharacteristic as Faithful>::fits(n, f),
            VariantCodingChildView::VarForbiddenComb(n) => <VarForbiddenComb as Faithful>::fits(n, f),
            VariantCodingChildView::Unsupported(n) => <UnsupportedNode as FaithfulChild>::fits(n, f) && n.keyword != "VAR_CRITERION"@ && n.keyword != "VAR_CHARACTERISTIC"@ && n.keyword != "VAR_FORBIDDEN_COMB"@,
        }
    }

    open spec fn shape(v: VariantCodingChildView) -> Tree {
        match v {
            VariantCodingChildView::VarCriterion(n) => <VarCriterion as Faithful>::shape(n),
            VariantCodingChildView::VarCharacteristic(n) => <VarCharacteristic as Faithful>::shape(n),
            VariantCodingChildView::VarForbiddenComb(n) => <VarForbiddenComb as Faithful>::shape(n),
            VariantCodingChildView::Unsupported(n) => <UnsupportedNode as FaithfulChild>::shape(n),
        }
    }

    proof fn law_shown(v: VariantCodingChildView, p: Page, f: Setting) {
        match v {
            VariantCodingChildView::VarCriterion(n) => {
                lemma_node_shown::<VarCriterion>(n, p, f);
            },
            VariantCodingChildView::VarCharacteristic(n) => {
                lemma_node_shown::<VarCharacteristic>(n, p, f);
            },
            VariantCodingChildView::VarForbiddenComb(n) => {
                lemma_node_shown::<VarForbiddenComb>(n, p, f);
            },
            VariantCodingChildView::Unsupported(n) => {
                <UnsupportedNode as FaithfulChild>::law_shown(n, p, f);
            },
        }
    }

    proof fn law_parsed(v: VariantCodingChildView, tree: Tree, f: Setting) {
        match v {
            VariantCodingChildView::VarCriterion(n) => {
                reveal_strlit("VAR_CRITERION");
                assert(bare_tree(tree).keyword == "VAR_CRITERION"@);
                lemma_node_read::<VarCriterion>(n, tree, f);
            },
            VariantCodingChildView::VarCharacteristic(n) => {
                reveal_strlit("VAR_CHARACTERISTIC");
                reveal_strlit("VAR_CRITERION");
                assert("VAR_CHARACTERISTIC"@.len() != "VAR_CRITERION"@.len());
                assert(bare_tree(tree).keyword == "VAR_CHARACTERISTIC"@);
                lemma_node_read::<VarCharacteristic>(n, tree, f);
            },
            VariantCodingChildView::VarForbiddenComb(n) => {
                reveal_strlit("VAR_FORBIDDEN_COMB");
                reveal_strlit("VAR_CRITERION");
                assert("VAR_FORBIDDEN_COMB"@.len() != "VAR_CRITERION"@.len());
                reveal_strlit("VAR_CHARACTERISTIC");
                assert("VAR_FORBIDDEN_COMB"@[4] != "VAR_CHARACTERISTIC"@[4]);
                assert(bare_tree(tree).keyword == "VAR_FORBIDDEN_COMB"@);
                lemma_node_read::<VarForbiddenComb>(n, tree, f);
            },
            VariantCodingChildView::Unsupported(n) => {
                <UnsupportedNode as FaithfulChild>::law_parsed(n, tree, f);
            },
        }
    }
}

/// The parameters at the start of the block.
pub open spec fn variant_coding_head(v: VariantCodingView) -> Seq<Tok> {
    Seq::<Tok>::empty()
}

/// The parameters of `VAR_SEPARATOR`.
#[verifier::opaque]
pub open spec fn variant_coding_part_0(v: VariantCodingView) -> Seq<Tok> {
    if v.var_separator is Some {
        seq![plain("VAR_SEPARATOR"@), string(escaped(v.var_separator->Some_0))]
    } else { Seq::<Tok>::empty() }
}

/// The parameters from `VAR_SEPARATOR` on.
pub open spec fn variant_coding_from_0(v: VariantCodingView) -> Seq<Tok> {
    variant_coding_part_0(v) + variant_coding_from_1(v)
}

/// What is written for `VAR_SEPARATOR`.
#[verifier::opaque]
pub open spec fn variant_coding_page_0(v: VariantCodingView, p: Page) -> Page {
    match v.var_separator { Some(x) if x.len() > 0 => p.quote("VAR_SEPARATOR"@, x), _ => p }
}

/// What is written from `VAR_SEPARATOR` on.
pub open spec fn variant_coding_pages_0(v: VariantCodingView, p: Page) -> Page {
    variant_coding_pages_1(v, variant_coding_page_0(v, p))
}

/// The parameters of `VAR_NAMING`.
#[verifier::opaque]
pub open spec fn variant_coding_part_1(v: VariantCodingView) -> Seq<Tok> {
    if v.var_naming.word() is Some {
        seq![plain("VAR_NAMING"@), plain(v.var_naming.word()->Some_0)]
    } else { Seq::<Tok>::empty() }
}

/// The parameters from `VAR_NAMING` on.
pub open spec fn variant_coding_from_1(v: VariantCodingView) -> Seq<Tok> {
    variant_coding_part_1(v) + variant_coding_from_2(v)
}

/// What is written for `VAR_NAMING`.
#[verifier::opaque]
pub open spec fn variant_coding_page_1(v: VariantCodingView, p: Page) -> Page {
    match v.var_naming.word() { Some(kw) => p.word("VAR_NAMING"@, kw), None => p }
}

/// What is written from `VAR_NAMING` on.
pub open spec fn variant_coding_pages_1(v: VariantCodingView, p: Page) -> Page {
    variant_coding_pages_2(v, variant_coding_page_1(v, p))
}

/// The parameters behind the last keyword.
pub open spec fn variant_coding_from_2(v: VariantCodingView) -> Seq<Tok> {
    Seq::empty()
}

/// What is written behind the last keyword.
pub open spec fn variant_coding_pages_2(v: VariantCodingView, p: Page) -> Page {
    p
}

proof fn lemma_variant_coding_part_1(v: VariantCodingView, p: Page, f: Setting)
    requires
        VariantCoding::fits(v, f),
        indents_by_blanks(p),
    ensures
        shows(p, variant_coding_page_1(v, p), variant_coding_part_1(v)),
        variant_coding_page_1(v, p).depth == p.depth,
        variant_coding_page_1(v, p).style == p.style,
        all_params(variant_coding_part_1(v)),
{
    reveal(variant_coding_page_1);
    reveal(variant_coding_part_1);
    if v.var_naming.word() is Some {
        reveal_strlit("VAR_NAMING");
        assert(is_keyword("VAR_NAMING"@));
        lemma_keyword_param("VAR_NAMING"@);
        v.var_naming.lemma_word();
        lemma_shows_word(p, "VAR_NAMING"@, v.var_naming.word()->Some_0);
        reveal_strlit("VAR_NAMING");
        assert(is_keyword("VAR_NAMING"@));
        lemma_keyword_param("VAR_NAMING"@);
        v.var_naming.lemma_word();
        assert(all_params(seq![plain("VAR_NAMING"@), plain(v.var_naming.word()->Some_0)]));
        
    } else {
        lemma_shows_nothing(p);
    }
}

proof fn lemma_variant_coding_part_0(v: VariantCodingView, p: Page, f: Setting)
    requires
        VariantCoding::fits(v, f),
        indents_by_blanks(p),
    ensures
        shows(p, variant_coding_page_0(v, p), variant_coding_part_0(v)),
        variant_coding_page_0(v, p).depth == p.depth,
        variant_coding_page_0(v, p).style == p.style,
        all_params(variant_coding_part_0(v)),
{
    reveal(variant_coding_page_0);
    reveal(variant_coding_part_0);
    if v.var_separator is Some {
        reveal_strlit("VAR_SEPARATOR");
        assert(is_keyword("VAR_SEPARATOR"@));
        lemma_keyword_param("VAR_SEPARATOR"@);
        lemma_shows_quote(p, "VAR_SEPARATOR"@, v.var_separator->Some_0);
        reveal_strlit("VAR_SEPARATOR");
        assert(is_keyword("VAR_SEPARATOR"@));
        lemma_keyword_param("VAR_SEPARATOR"@);
        lemma_string_param(v.var_separator->Some_0);
        assert(all_params(seq![plain("VAR_SEPARATOR"@), string(escaped(v.var_separator->Some_0))]));
        
    } else {
        lemma_shows_nothing(p);
    }
}

proof fn lemma_variant_coding_shown_2(v: VariantCodingView, p: Page, f: Setting)
    requires
        VariantCoding::fits(v, f),
        indents_by_blanks(p),
    ensures
        shows(p, variant_coding_pages_2(v, p), variant_coding_from_2(v)),
        variant_coding_pages_2(v, p).depth == p.depth,
        variant_coding_pages_2(v, p).style == p.style,
        all_params(variant_coding_from_2(v)),
{
    lemma_shows_nothing(p);
}

proof fn lemma_variant_coding_shown_1(v: VariantCodingView, p: Page, f: Setting)
    requires
        VariantCoding::fits(v, f),
        indents_by_blanks(p),
    ensures
        shows(p, variant_coding_pages_1(v, p), variant_coding_from_1(v)),
        variant_coding_pages_1(v, p).depth == p.depth,
        variant_coding_pages_1(v, p).style == p.style,
        all_params(variant_coding_from_1(v)),
{
    lemma_variant_coding_part_1(v, p, f);
    let q = variant_coding_page_1(v, p);
    lemma_variant_coding_shown_2(v, q, f);
    lemma_shows_join(p, q, variant_coding_pages_2(v, q), variant_coding_part_1(v), variant_coding_from_2(v));
    lemma_all_params_join(variant_coding_part_1(v), variant_coding_from_2(v));
}

proof fn lemma_variant_coding_shown_0(v: VariantCodingView, p: Page, f: Setting)
    requires
        VariantCoding::fits(v, f),
        indents_by_blanks(p),
    ensures
        shows(p, variant_coding_pages_0(v, p), variant_coding_from_0(v)),
        variant_coding_pages_0(v, p).depth == p.depth,
        variant_coding_pages_0(v, p).style == p.style,
        all_params(variant_coding_from_0(v)),
{
    lemma_variant_coding_part_0(v, p, f);
    let q = variant_coding_page_0(v, p);
    lemma_variant_coding_shown_1(v, q, f);
    lemma_shows_join(p, q, variant_coding_pages_1(v, q), variant_coding_part_0(v), variant_coding_from_1(v));
    lemma_all_params_join(variant_coding_part_0(v), variant_coding_from_1(v));
}

/// What is written for the parameters at the start.
#[verifier::opaque]
pub open spec fn variant_coding_opening(v: VariantCodingView, p0: Page) -> Page {
    p0
}

proof fn lemma_variant_coding_opening(v: VariantCodingView, p0: Page, f: Setting)
    requires
        VariantCoding::fits(v, f),
        indents_by_blanks(p0),
    ensures
        shows(p0, variant_coding_opening(v, p0), Seq::<Tok>::empty()),
        variant_coding_opening(v, p0).depth == p0.depth,
        variant_coding_opening(v, p0).style == p0.style,
        all_params(variant_coding_head(v)),
{
    reveal(variant_coding_opening);
    lemma_shows_nothing(p0);
    let x0 = Seq::<Tok>::empty();
    assert(x0 =~= Seq::<Tok>::empty());
}

proof fn lemma_variant_coding_body(v: VariantCodingView, p: Page, f: Setting)
    requires
        VariantCoding::fits(v, f),
    ensures
        VariantCoding::body(v, p) == children_written::<VariantCodingChild>(
            v.children,
            0,
            false,
            variant_coding_pages_0(v, variant_coding_opening(v, p))
        ),
{
    reveal(variant_coding_opening);
    let q0 = variant_coding_opening(v, p);
    let q1 = match v.var_separator { Some(x) if x.len() > 0 => q0.quote("VAR_SEPARATOR"@, x), _ => q0 };
    assert(q1 == variant_coding_page_0(v, q0)) by {
        reveal(variant_coding_page_0);
    }
    let q2 = match v.var_naming.word() { Some(kw) => q1.word("VAR_NAMING"@, kw), None => q1 };
    assert(q2 == variant_coding_page_1(v, q1)) by {
        reveal(variant_coding_page_1);
    }
}

proof fn lemma_variant_coding_step_0(w: VariantCodingView, v: VariantCodingView, c: Cur, f: Setting)
    requires
        VariantCoding::fits(v, f),
        v.var_separator is Some,
        tokens_at(c.toks, c.pos, seq![plain("VAR_SEPARATOR"@), string(escaped(v.var_separator->Some_0))]),
        toks_numbered(c.toks, f),
    ensures
        VariantCoding::option(w, c) == Ok::<(VariantCodingView, Cur), Failure>(
            (VariantCodingView { var_separator: v.var_separator, ..w }, Cur { pos: c.pos + 2, ..c }),
        ),
{
    reveal_strlit("VAR_SEPARATOR");
    lemma_same("VAR_SEPARATOR"@);
    assert(
        bare(c.toks[c.pos + 0]) == (
            seq![plain("VAR_SEPARATOR"@), string(escaped(v.var_separator->Some_0))]
        )[0]
    );
    assert(
        bare(c.toks[c.pos + 1]) == (
            seq![plain("VAR_SEPARATOR"@), string(escaped(v.var_separator->Some_0))]
        )[1]
    );
    law_unescaped_of_escaped(v.var_separator->Some_0);
}

proof fn lemma_variant_coding_step_1(w: VariantCodingView, v: VariantCodingView, c: Cur, f: Setting)
    requires
        VariantCoding::fits(v, f),
        v.var_naming.word() is Some,
        tokens_at(c.toks, c.pos, seq![plain("VAR_NAMING"@), plain(v.var_naming.word()->Some_0)]),
        toks_numbered(c.toks, f),
    ensures
        VariantCoding::option(w, c) == Ok::<(VariantCodingView, Cur), Failure>(
            (VariantCodingView { var_naming: v.var_naming, ..w }, Cur { pos: c.pos + 2, ..c }),
        ),
{
    reveal_strlit("VAR_NAMING");
    reveal_strlit("VAR_SEPARATOR");
    lemma_differ("VAR_NAMING"@, "VAR_SEPARATOR"@, 0);
    lemma_same("VAR_NAMING"@);
    assert(bare(c.toks[c.pos + 0]) == (seq![plain("VAR_NAMING"@), plain(v.var_naming.word()->Some_0)])[0]);
    assert(bare(c.toks[c.pos + 1]) == (seq![plain("VAR_NAMING"@), plain(v.var_naming.word()->Some_0)])[1]);
    v.var_naming.law_named_of_word();
    v.var_naming.lemma_word();
}

proof fn lemma_variant_coding_read_2(v: VariantCodingView, c: Cur, f: Setting)
    requires
        VariantCoding::fits(v, f),
        tokens_at(c.toks, c.pos, variant_coding_from_2(v)),
        c.pos + variant_coding_from_2(v).len() == c.toks.len(),
        toks_numbered(c.toks, f),
    ensures
        VariantCoding::options(
            VariantCodingView { children: Seq::empty(), ..v },
            c
        ) matches Ok((w, _)) && w == (VariantCodingView { children: Seq::empty(), ..v }),
{
}

proof fn lemma_variant_coding_read_1(v: VariantCodingView, c: Cur, f: Setting)
    requires
        VariantCoding::fits(v, f),
        tokens_at(c.toks, c.pos, variant_coding_from_1(v)),
        c.pos + variant_coding_from_1(v).len() == c.toks.len(),
        toks_numbered(c.toks, f),
    ensures
        VariantCoding::options(
            VariantCodingView { var_naming: VarNamingType::NotSet, children: Seq::empty(), ..v },
            c
        ) matches Ok((w, _)) && w == (VariantCodingView { children: Seq::empty(), ..v }),
{
    reveal(variant_coding_part_1);
    let t = variant_coding_part_1(v);
    if v.var_naming.word() is Some {
        lemma_tokens_at_split(c.toks, c.pos, t, variant_coding_from_2(v));
        let c2 = Cur { pos: c.pos + 2, ..c };
        lemma_variant_coding_step_1(
            VariantCodingView { var_naming: VarNamingType::NotSet, children: Seq::empty(), ..v },
            v,
            c,
            f
        );
        lemma_variant_coding_read_2(v, c2, f);
    } else {
        assert(t + variant_coding_from_2(v) =~= variant_coding_from_2(v));
        lemma_variant_coding_read_2(v, c, f);
    }
}

proof fn lemma_variant_coding_read_0(v: VariantCodingView, c: Cur, f: Setting)
    requires
        VariantCoding::fits(v, f),
        tokens_at(c.toks, c.pos, variant_coding_from_0(v)),
        c.pos + variant_coding_from_0(v).len() == c.toks.len(),
        toks_numbered(c.toks, f),
    ensures
        VariantCoding::options(
            VariantCodingView {
                var_separator: None,
                var_naming: VarNamingType::NotSet,
                children: Seq::empty()
            },
            c
        ) matches Ok((w, _)) && w == (VariantCodingView { children: Seq::empty(), ..v }),
{
    reveal(variant_coding_part_0);
    let t = variant_coding_part_0(v);
    if v.var_separator is Some {
        lemma_tokens_at_split(c.toks, c.pos, t, variant_coding_from_1(v));
        let c2 = Cur { pos: c.pos + 2, ..c };
        lemma_variant_coding_step_0(
            VariantCodingView {
                var_separator: None,
                var_naming: VarNamingType::NotSet,
                children: Seq::empty()
            },
            v,
            c,
            f
        );
        lemma_variant_coding_read_1(v, c2, f);
    } else {
        assert(t + variant_coding_from_1(v) =~= variant_coding_from_1(v));
        lemma_variant_coding_read_1(v, c, f);
    }
}

impl Faithful for VariantCoding {
    open spec fn fits(v: VariantCodingView, f: Setting) -> bool {
        &&& (v.var_separator matches Some(x) ==> x.len() > 0)
        &&& all_fit::<VariantCodingChild>(v.children, f)
    }

    open spec fn shape(v: VariantCodingView) -> Tree {
        shape_of(
            "VARIANT_CODING"@,
            variant_coding_head(v) + variant_coding_from_0(v),
            shapes::<VariantCodingChild>(v.children)
        )
    }

    proof fn law_shown(v: VariantCodingView, p: Page, f: Setting) {
        reveal_strlit("VARIANT_CODING");
        lemma_keyword_word("VARIANT_CODING"@);
        lemma_spells_word("VARIANT_CODING"@);
        let h = Seq::<Tok>::empty();
        assert(seq![plain("VARIANT_CODING"@)] + h =~= seq![plain("VARIANT_CODING"@)]);
        crate::a2l::tree_laws::lemma_shows_begin(p, "VARIANT_CODING"@, seq![plain("VARIANT_CODING"@)] + h);
        let p0 = p.begin("VARIANT_CODING"@);
        lemma_variant_coding_body(v, p0, f);
        lemma_variant_coding_opening(v, p0, f);
        let p1 = variant_coding_opening(v, p0);
        lemma_variant_coding_shown_0(v, p1, f);
        let p2 = variant_coding_pages_0(v, p1);
        let hx = Seq::<Tok>::empty();
        let from = variant_coding_from_0(v);
        lemma_shows_join(p0, p1, p2, hx, from);
        lemma_children_shown::<VariantCodingChild>(v.children, false, p2, f);
        lemma_shapes_sound::<VariantCodingChild>(v.children, p, f);
        let q = children_written::<VariantCodingChild>(v.children, 0, false, p2)->Ok_0;
        let kids = shapes::<VariantCodingChild>(v.children);
        let y = blocks_tokens(kids, 0);
        lemma_shows_join(p0, p2, q, hx + from, y);
        let x = variant_coding_head(v) + from;
        lemma_shape_tokens(x, kids);
        lemma_all_params_join(variant_coding_head(v), from);
        lemma_sound_shape("VARIANT_CODING"@, x, kids);
        assert(variant_coding_head(v) =~= h + hx);
        assert(h + (hx + from + y) =~= x + y);
        lemma_shows_block(p, "VARIANT_CODING"@, h, "VARIANT_CODING"@, q, hx + from + y, Self::shape(v));
    }

    proof fn law_parsed(v: VariantCodingView, tree: Tree, f: Setting) {
        let x = variant_coding_head(v) + variant_coding_from_0(v);
        let kids = shapes::<VariantCodingChild>(v.children);
        lemma_shape_found(tree, "VARIANT_CODING"@, x, kids, f);
        let c = Cur::start(tree);
        lemma_tokens_at_split(c.toks, 0, variant_coding_head(v), variant_coding_from_0(v));
        let c1 = c;
        lemma_variant_coding_read_0(v, c1, f);
        lemma_children_read::<VariantCodingChild>(v.children, children_of(tree.items), f);
    }
}

} // verus!
