//! What a module says of its device reads back from what is written for it.

use crate::a2l::block::{Tree, bare_tree, children_of};
use crate::a2l::error::Failure;
use crate::a2l::faithful::{
    Faithful, FaithfulChild, KeywordText, Setting, all_fit, all_params, blocks_tokens, int_tokens,
    is_keyword, lemma_all_params_join, lemma_children_read, lemma_children_shown, lemma_dec_param,
    lemma_hex_param, lemma_int_params, lemma_keyword_param, lemma_keyword_word, lemma_node_read,
    lemma_node_shown, lemma_ref_params, lemma_refs_read, lemma_refs_shown, lemma_shape_found,
    lemma_shape_tokens, lemma_shapes_sound, lemma_shows_block, lemma_shows_quote,
    lemma_shows_quote_line, lemma_shows_tagged, lemma_shows_word, lemma_shows_word_line,
    lemma_sound_shape, lemma_spells_ints, lemma_spells_pair, lemma_string_param, num_fits,
    ref_tokens, refs_fit, shape_of, shapes, toks_numbered,
};
use crate::a2l::laws::variant::{hex_tokens, keys_differ, lemma_place_new};
use crate::a2l::maps::with_entry;
use crate::a2l::model::base::ByteOrder;
use crate::a2l::model::enums::{A2lKeyword, DepositType};
use crate::a2l::model::module::{
    CalibrationHandle, CalibrationHandleView, CalibrationMethod, CalibrationMethodView,
    MemoryLayout, MemoryLayoutView, MemorySegment, MemorySegmentView, ModCommon, ModCommonView,
    ModPar, ModParChild, ModParChildView, ModParView, RefGroup, RefGroupView, Unit, UnitView,
    UserRights, UserRightsChild, UserRightsChildView, UserRightsView, constant_lines, hexes,
};
use crate::a2l::model::parts::{children_written, hex_form, listed, read_ints};
use crate::a2l::model::unsupported::UnsupportedNode;
use crate::a2l::node::Node;
use crate::a2l::params::{Cur, law_integer_of_dec, law_integer_of_hex};
use crate::a2l::spell::{
    indents_by_blanks, law_unescaped_of_escaped, lemma_shows_join, lemma_shows_line,
    lemma_shows_nothing, lemma_spells_join, lemma_spells_quoted, lemma_spells_word, plain, shows,
    spells, string,
};
use crate::a2l::token::{Tok, bare};
use crate::a2l::tree_laws::{is_param, lemma_shows_begin, lemma_tokens_at_split, tokens_at};
use crate::a2l::writer::{Page, escaped, quoted, Stopped};
use crate::text::{dec, dec_int, lemma_differ, lemma_same, same_ignore_case};
use vstd::prelude::*;

verus! {

proof fn lemma_ints_read(c: Cur, d: Seq<i32>, n: int)
    requires
        0 <= n <= d.len(),
        c.pos >= 0,
        tokens_at(c.toks, c.pos, int_tokens(d)),
    ensures
        read_ints(c, n as nat) == Ok::<(Seq<i32>, Cur), Failure>(
            (d.subrange(0, n), Cur { pos: c.pos + n, ..c }),
        ),
    decreases n,
{
    if n == 0 {
        assert(d.subrange(0, 0) =~= Seq::<i32>::empty());
    } else {
        lemma_ints_read(c, d, n - 1);
        assert(bare(c.toks[c.pos + (n - 1)]) == int_tokens(d)[n - 1]);
        law_integer_of_dec(d[n - 1] as int);
        assert(d.subrange(0, n - 1).push(d[n - 1]) =~= d.subrange(0, n));
    }
}

/// The parameters of the block.
pub open spec fn memory_layout_params(v: MemoryLayoutView) -> Seq<Tok> {
    Seq::<Tok>::empty() + (
        seq![
            plain(v.prg_type.word()->Some_0),
            plain(hex_form(v.address as nat)),
            plain(hex_form(v.size as nat))
        ] + int_tokens(v.offsets)
    )
}

impl Faithful for MemoryLayout {
    open spec fn fits(v: MemoryLayoutView, f: Setting) -> bool {
        &&& v.offsets.len() == 5
    }

    open spec fn shape(v: MemoryLayoutView) -> Tree {
        shape_of("MEMORY_LAYOUT"@, memory_layout_params(v), Seq::empty())
    }

    proof fn law_shown(v: MemoryLayoutView, p: Page, f: Setting) {
        reveal_strlit("MEMORY_LAYOUT");
        lemma_keyword_word("MEMORY_LAYOUT"@);
        let h = Seq::<Tok>::empty();
        let x = seq![
            plain(v.prg_type.word()->Some_0),
            plain(hex_form(v.address as nat)),
            plain(hex_form(v.size as nat))
        ] + int_tokens(v.offsets);
        lemma_spells_word("MEMORY_LAYOUT"@);
        assert(seq![plain("MEMORY_LAYOUT"@)] + h =~= seq![plain("MEMORY_LAYOUT"@)]);
        crate::a2l::tree_laws::lemma_shows_begin(p, "MEMORY_LAYOUT"@, seq![plain("MEMORY_LAYOUT"@)] + h);
        let p0 = p.begin("MEMORY_LAYOUT"@);
        let p1 = p0;
        lemma_shows_nothing(p0);
        assert(indents_by_blanks(p1));
        v.prg_type.lemma_word();
        lemma_spells_word(v.prg_type.word()->Some_0);
        lemma_hex_param(v.address as nat);
        lemma_spells_word(hex_form(v.address as nat));
        lemma_spells_join(
            v.prg_type.word()->Some_0,
            seq![plain(v.prg_type.word()->Some_0)],
            hex_form(v.address as nat),
            seq![plain(hex_form(v.address as nat))]
        );
        lemma_hex_param(v.size as nat);
        lemma_spells_word(hex_form(v.size as nat));
        lemma_spells_join(
            v.prg_type.word()->Some_0 + " "@ + hex_form(v.address as nat),
            seq![plain(v.prg_type.word()->Some_0)] + seq![plain(hex_form(v.address as nat))],
            hex_form(v.size as nat),
            seq![plain(hex_form(v.size as nat))]
        );
        lemma_spells_ints(v.offsets);
        lemma_spells_join(
            v.prg_type.word()->Some_0 + " "@ + hex_form(v.address as nat) + " "@ + hex_form(v.size as nat),
            seq![plain(v.prg_type.word()->Some_0)] + seq![
                plain(hex_form(v.address as nat))
            ] + seq![plain(hex_form(v.size as nat))],
            listed(v.offsets),
            int_tokens(v.offsets)
        );
        lemma_shows_line(
            p1,
            v.prg_type.word()->Some_0 + " "@ + hex_form(v.address as nat) + " "@ + hex_form(v.size as nat) + " "@ + listed(v.offsets),
            seq![plain(v.prg_type.word()->Some_0)] + seq![
                plain(hex_form(v.address as nat))
            ] + seq![plain(hex_form(v.size as nat))] + int_tokens(v.offsets)
        );
        let q0 = p1.line(
            v.prg_type.word()->Some_0 + " "@ + hex_form(v.address as nat) + " "@ + hex_form(v.size as nat) + " "@ + listed(v.offsets)
        );
        lemma_shows_join(
            p0,
            p1,
            q0,
            Seq::<Tok>::empty(),
            seq![plain(v.prg_type.word()->Some_0)] + seq![
                plain(hex_form(v.address as nat))
            ] + seq![plain(hex_form(v.size as nat))] + int_tokens(v.offsets)
        );
        assert(
            Seq::<Tok>::empty() + (
                seq![plain(v.prg_type.word()->Some_0)] + seq![
                    plain(hex_form(v.address as nat))
                ] + seq![plain(hex_form(v.size as nat))] + int_tokens(v.offsets)
            ) =~= x
        );
        assert(shows(p0, q0, x));
        let q = q0;
        let kids = Seq::<Tree>::empty();
        let y = Seq::<Tok>::empty();
        assert(blocks_tokens(kids, 0) =~= y);
        assert(x + y =~= x);
        assert(
            all_params(
                seq![
                    plain(v.prg_type.word()->Some_0),
                    plain(hex_form(v.address as nat)),
                    plain(hex_form(v.size as nat))
                ]
            )
        );
        lemma_int_params(v.offsets);
        lemma_all_params_join(
            seq![
                plain(v.prg_type.word()->Some_0),
                plain(hex_form(v.address as nat)),
                plain(hex_form(v.size as nat))
            ],
            int_tokens(v.offsets)
        );
        assert(all_params(h));
        lemma_all_params_join(h, x);
        lemma_shape_tokens(h + x, kids);
        lemma_sound_shape("MEMORY_LAYOUT"@, h + x, kids);
        assert(h + (x + y) =~= h + x + y);
        assert(Self::body(v, p0) == Ok::<Page, Stopped>(q));
        lemma_shows_block(p, "MEMORY_LAYOUT"@, h, "MEMORY_LAYOUT"@, q, x + y, Self::shape(v));
    }

    proof fn law_parsed(v: MemoryLayoutView, tree: Tree, f: Setting) {
        let h = Seq::<Tok>::empty();
        let x = seq![
            plain(v.prg_type.word()->Some_0),
            plain(hex_form(v.address as nat)),
            plain(hex_form(v.size as nat))
        ] + int_tokens(v.offsets);
        let kids = Seq::<Tree>::empty();
        lemma_shape_found(tree, "MEMORY_LAYOUT"@, h + x, kids, f);
        let c = Cur::start(tree);
        lemma_tokens_at_split(c.toks, 0, h, x);
        v.prg_type.law_named_of_word();
        law_integer_of_hex(v.address as nat);
        law_integer_of_hex(v.size as nat);
        let lit = seq![
            plain(v.prg_type.word()->Some_0),
            plain(hex_form(v.address as nat)),
            plain(hex_form(v.size as nat))
        ];
        lemma_tokens_at_split(c.toks, 0, lit, int_tokens(v.offsets));
        assert(bare(c.toks[0int + 0]) == lit[0]);
        assert(bare(c.toks[0int + 1]) == lit[1]);
        assert(bare(c.toks[0int + 2]) == lit[2]);
        lemma_ints_read(Cur { pos: 3, ..c }, v.offsets, 5);
        assert(v.offsets.subrange(0, 5) =~= v.offsets);
    }
}

/// The parameters of the block.
pub open spec fn memory_segment_params(v: MemorySegmentView) -> Seq<Tok> {
    seq![plain(v.name)] + (
        seq![
            string(escaped(v.description->Some_0)),
            plain(v.prg_type.word()->Some_0),
            plain(v.memory_type.word()->Some_0),
            plain(v.memory_attribute.word()->Some_0),
            plain(hex_form(v.address as nat)),
            plain(hex_form(v.size as nat))
        ] + int_tokens(v.offsets)
    )
}

impl Faithful for MemorySegment {
    open spec fn fits(v: MemorySegmentView, f: Setting) -> bool {
        &&& is_param(plain(v.name))
        &&& v.description is Some
        &&& v.offsets.len() == 5
    }

    open spec fn shape(v: MemorySegmentView) -> Tree {
        shape_of("MEMORY_SEGMENT"@, memory_segment_params(v), Seq::empty())
    }

    proof fn law_shown(v: MemorySegmentView, p: Page, f: Setting) {
        reveal_strlit("MEMORY_SEGMENT");
        lemma_keyword_word("MEMORY_SEGMENT"@);
        let h = seq![plain(v.name)];
        let x = seq![
            string(escaped(v.description->Some_0)),
            plain(v.prg_type.word()->Some_0),
            plain(v.memory_type.word()->Some_0),
            plain(v.memory_attribute.word()->Some_0),
            plain(hex_form(v.address as nat)),
            plain(hex_form(v.size as nat))
        ] + int_tokens(v.offsets);
        reveal_strlit("MEMORY_SEGMENT ");
        reveal_strlit(" ");
        assert("MEMORY_SEGMENT "@ + v.name =~= "MEMORY_SEGMENT"@ + " "@ + v.name);
        lemma_spells_word("MEMORY_SEGMENT"@);
        lemma_spells_word(v.name);
        lemma_spells_join("MEMORY_SEGMENT"@, seq![plain("MEMORY_SEGMENT"@)], v.name, seq![plain(v.name)]);
        crate::a2l::tree_laws::lemma_shows_begin(
            p,
            "MEMORY_SEGMENT "@ + v.name,
            seq![plain("MEMORY_SEGMENT"@)] + h
        );
        let p0 = p.begin("MEMORY_SEGMENT "@ + v.name);
        lemma_shows_quote_line(p0, v.description->Some_0);
        let p1 = p0.quote_line(v.description->Some_0);
        assert(indents_by_blanks(p1));
        v.prg_type.lemma_word();
        lemma_spells_word(v.prg_type.word()->Some_0);
        v.memory_type.lemma_word();
        lemma_spells_word(v.memory_type.word()->Some_0);
        lemma_spells_join(
            v.prg_type.word()->Some_0,
            seq![plain(v.prg_type.word()->Some_0)],
            v.memory_type.word()->Some_0,
            seq![plain(v.memory_type.word()->Some_0)]
        );
        v.memory_attribute.lemma_word();
        lemma_spells_word(v.memory_attribute.word()->Some_0);
        lemma_spells_join(
            v.prg_type.word()->Some_0 + " "@ + v.memory_type.word()->Some_0,
            seq![plain(v.prg_type.word()->Some_0)] + seq![plain(v.memory_type.word()->Some_0)],
            v.memory_attribute.word()->Some_0,
            seq![plain(v.memory_attribute.word()->Some_0)]
        );
        lemma_hex_param(v.address as nat);
        lemma_spells_word(hex_form(v.address as nat));
        lemma_spells_join(
            v.prg_type.word()->Some_0 + " "@ + v.memory_type.word()->Some_0 + " "@ + v.memory_attribute.word()->Some_0,
            seq![plain(v.prg_type.word()->Some_0)] + seq![
                plain(v.memory_type.word()->Some_0)
            ] + seq![
                plain(v.memory_attribute.word()->Some_0)
            ],
            hex_form(v.address as nat),
            seq![plain(hex_form(v.address as nat))]
        );
        lemma_hex_param(v.size as nat);
        lemma_spells_word(hex_form(v.size as nat));
        lemma_spells_join(
            v.prg_type.word()->Some_0 + " "@ + v.memory_type.word()->Some_0 + " "@ + v.memory_attribute.word()->Some_0 + " "@ + hex_form(v.address as nat),
            seq![plain(v.prg_type.word()->Some_0)] + seq![
                plain(v.memory_type.word()->Some_0)
            ] + seq![
                plain(v.memory_attribute.word()->Some_0)
            ] + seq![plain(hex_form(v.address as nat))],
            hex_form(v.size as nat),
            seq![plain(hex_form(v.size as nat))]
        );
        lemma_spells_ints(v.offsets);
        lemma_spells_join(
            v.prg_type.word()->Some_0 + " "@ + v.memory_type.word()->Some_0 + " "@ + v.memory_attribute.word()->Some_0 + " "@ + hex_form(v.address as nat) + " "@ + hex_form(v.size as nat),
            seq![plain(v.prg_type.word()->Some_0)] + seq![
                plain(v.memory_type.word()->Some_0)
            ] + seq![
                plain(v.memory_attribute.word()->Some_0)
            ] + seq![plain(hex_form(v.address as nat))] + seq![plain(hex_form(v.size as nat))],
            listed(v.offsets),
            int_tokens(v.offsets)
        );
        lemma_shows_line(
            p1,
            v.prg_type.word()->Some_0 + " "@ + v.memory_type.word()->Some_0 + " "@ + v.memory_attribute.word()->Some_0 + " "@ + hex_form(v.address as nat) + " "@ + hex_form(v.size as nat) + " "@ + listed(v.offsets),
            seq![plain(v.prg_type.word()->Some_0)] + seq![
                plain(v.memory_type.word()->Some_0)
            ] + seq![
                plain(v.memory_attribute.word()->Some_0)
            ] + seq![plain(hex_form(v.address as nat))] + seq![plain(hex_form(v.size as nat))] + int_tokens(v.offsets)
        );
        let q0 = p1.line(
            v.prg_type.word()->Some_0 + " "@ + v.memory_type.word()->Some_0 + " "@ + v.memory_attribute.word()->Some_0 + " "@ + hex_form(v.address as nat) + " "@ + hex_form(v.size as nat) + " "@ + listed(v.offsets)
        );
        lemma_shows_join(
            p0,
            p1,
            q0,
            seq![string(escaped(v.description->Some_0))],
            seq![plain(v.prg_type.word()->Some_0)] + seq![
                plain(v.memory_type.word()->Some_0)
            ] + seq![
                plain(v.memory_attribute.word()->Some_0)
            ] + seq![plain(hex_form(v.address as nat))] + seq![plain(hex_form(v.size as nat))] + int_tokens(v.offsets)
        );
        assert(
            seq![string(escaped(v.description->Some_0))] + (
                seq![plain(v.prg_type.word()->Some_0)] + seq![
                    plain(v.memory_type.word()->Some_0)
                ] + seq![
                    plain(v.memory_attribute.word()->Some_0)
                ] + seq![plain(hex_form(v.address as nat))] + seq![plain(hex_form(v.size as nat))] + int_tokens(v.offsets)
            ) =~= x
        );
        assert(shows(p0, q0, x));
        let q = q0;
        let kids = Seq::<Tree>::empty();
        let y = Seq::<Tok>::empty();
        assert(blocks_tokens(kids, 0) =~= y);
        assert(x + y =~= x);
        lemma_string_param(v.description->Some_0);
        assert(
            all_params(
                seq![
                    string(escaped(v.description->Some_0)),
                    plain(v.prg_type.word()->Some_0),
                    plain(v.memory_type.word()->Some_0),
                    plain(v.memory_attribute.word()->Some_0),
                    plain(hex_form(v.address as nat)),
                    plain(hex_form(v.size as nat))
                ]
            )
        );
        lemma_int_params(v.offsets);
        lemma_all_params_join(
            seq![
                string(escaped(v.description->Some_0)),
                plain(v.prg_type.word()->Some_0),
                plain(v.memory_type.word()->Some_0),
                plain(v.memory_attribute.word()->Some_0),
                plain(hex_form(v.address as nat)),
                plain(hex_form(v.size as nat))
            ],
            int_tokens(v.offsets)
        );
        assert(all_params(h));
        lemma_all_params_join(h, x);
        lemma_shape_tokens(h + x, kids);
        lemma_sound_shape("MEMORY_SEGMENT"@, h + x, kids);
        assert(h + (x + y) =~= h + x + y);
        assert(Self::body(v, p0) == Ok::<Page, Stopped>(q));
        lemma_shows_block(p, "MEMORY_SEGMENT "@ + v.name, h, "MEMORY_SEGMENT"@, q, x + y, Self::shape(v));
    }

    proof fn law_parsed(v: MemorySegmentView, tree: Tree, f: Setting) {
        let h = seq![plain(v.name)];
        let x = seq![
            string(escaped(v.description->Some_0)),
            plain(v.prg_type.word()->Some_0),
            plain(v.memory_type.word()->Some_0),
            plain(v.memory_attribute.word()->Some_0),
            plain(hex_form(v.address as nat)),
            plain(hex_form(v.size as nat))
        ] + int_tokens(v.offsets);
        let kids = Seq::<Tree>::empty();
        lemma_shape_found(tree, "MEMORY_SEGMENT"@, h + x, kids, f);
        let c = Cur::start(tree);
        lemma_tokens_at_split(c.toks, 0, h, x);
        law_unescaped_of_escaped(v.description->Some_0);
        v.prg_type.law_named_of_word();
        v.memory_type.law_named_of_word();
        v.memory_attribute.law_named_of_word();
        law_integer_of_hex(v.address as nat);
        law_integer_of_hex(v.size as nat);
        let lit = seq![
            string(escaped(v.description->Some_0)),
            plain(v.prg_type.word()->Some_0),
            plain(v.memory_type.word()->Some_0),
            plain(v.memory_attribute.word()->Some_0),
            plain(hex_form(v.address as nat)),
            plain(hex_form(v.size as nat))
        ];
        lemma_tokens_at_split(c.toks, 1, lit, int_tokens(v.offsets));
        assert(bare(c.toks[0int + 0]) == h[0]);
        assert(bare(c.toks[1int + 0]) == lit[0]);
        assert(bare(c.toks[1int + 1]) == lit[1]);
        assert(bare(c.toks[1int + 2]) == lit[2]);
        assert(bare(c.toks[1int + 3]) == lit[3]);
        assert(bare(c.toks[1int + 4]) == lit[4]);
        assert(bare(c.toks[1int + 5]) == lit[5]);
        lemma_ints_read(Cur { pos: 7, ..c }, v.offsets, 5);
        assert(v.offsets.subrange(0, 5) =~= v.offsets);
    }
}

/// The parameters at the start of the block.
pub open spec fn calibration_method_head(v: CalibrationMethodView) -> Seq<Tok> {
    seq![string(escaped(v.method)), plain(dec_int(v.version as int))]
}

/// The parameters behind the last keyword.
pub open spec fn calibration_method_from_0(v: CalibrationMethodView) -> Seq<Tok> {
    Seq::empty()
}

/// What is written behind the last keyword.
pub open spec fn calibration_method_pages_0(v: CalibrationMethodView, p: Page) -> Page {
    p
}

proof fn lemma_calibration_method_shown_0(v: CalibrationMethodView, p: Page, f: Setting)
    requires
        CalibrationMethod::fits(v, f),
        indents_by_blanks(p),
    ensures
        shows(p, calibration_method_pages_0(v, p), calibration_method_from_0(v)),
        calibration_method_pages_0(v, p).depth == p.depth,
        calibration_method_pages_0(v, p).style == p.style,
        all_params(calibration_method_from_0(v)),
{
    lemma_shows_nothing(p);
}

/// What is written for the parameters at the start.
#[verifier::opaque]
pub open spec fn calibration_method_opening(v: CalibrationMethodView, p0: Page) -> Page {
    let p1 = p0.quote_line(v.method);
    let p2 = p1.line(dec_int(v.version as int));
    p2
}

proof fn lemma_calibration_method_opening(v: CalibrationMethodView, p0: Page, f: Setting)
    requires
        CalibrationMethod::fits(v, f),
        indents_by_blanks(p0),
    ensures
        shows(
            p0,
            calibration_method_opening(v, p0),
            seq![string(escaped(v.method)), plain(dec_int(v.version as int))]
        ),
        calibration_method_opening(v, p0).depth == p0.depth,
        calibration_method_opening(v, p0).style == p0.style,
        all_params(calibration_method_head(v)),
{
    reveal(calibration_method_opening);
    lemma_shows_nothing(p0);
    let x0 = Seq::<Tok>::empty();
    let p1 = p0.quote_line(v.method);
    assert(shows(p0, p1, seq![string(escaped(v.method))]) && p1.depth == p0.depth && p1.style == p0.style) by {
        let p = p0;
        lemma_shows_quote_line(p, v.method);
    }
    lemma_shows_join(p0, p0, p1, x0, seq![string(escaped(v.method))]);
    let x1 = x0 + seq![string(escaped(v.method))];
    let p2 = p1.line(dec_int(v.version as int));
    assert(
        shows(
            p1,
            p2,
            seq![plain(dec_int(v.version as int))]
        ) && p2.depth == p1.depth && p2.style == p1.style
    ) by {
        let p = p1;
        lemma_dec_param(v.version as int);
        lemma_shows_word_line(p, dec_int(v.version as int));
    }
    lemma_shows_join(p0, p1, p2, x1, seq![plain(dec_int(v.version as int))]);
    let x2 = x1 + seq![plain(dec_int(v.version as int))];
    assert(x2 =~= seq![string(escaped(v.method)), plain(dec_int(v.version as int))]);
    lemma_string_param(v.method);
    lemma_dec_param(v.version as int);
}

proof fn lemma_calibration_method_body(v: CalibrationMethodView, p: Page, f: Setting)
    requires
        CalibrationMethod::fits(v, f),
    ensures
        CalibrationMethod::body(v, p) == Ok::<Page, Stopped>(
            calibration_method_pages_0(v, calibration_method_opening(v, p))
        ),
{
    reveal(calibration_method_opening);
    let q0 = calibration_method_opening(v, p);
}

proof fn lemma_calibration_method_head(v: CalibrationMethodView, c: Cur, f: Setting)
    requires
        CalibrationMethod::fits(v, f),
        tokens_at(c.toks, c.pos, calibration_method_head(v)),
        toks_numbered(c.toks, f),
    ensures
        CalibrationMethod::head(c) == Ok::<(CalibrationMethodView, Cur), Failure>(
            (v, Cur { pos: c.pos + 2, ..c }),
        ),
{
    law_unescaped_of_escaped(v.method);
    law_integer_of_dec(v.version as int);
    assert(bare(c.toks[c.pos + 0]) == calibration_method_head(v)[0]);
    assert(bare(c.toks[c.pos + 1]) == calibration_method_head(v)[1]);
}

impl Faithful for CalibrationMethod {
    open spec fn fits(v: CalibrationMethodView, f: Setting) -> bool {
        true
    }

    open spec fn shape(v: CalibrationMethodView) -> Tree {
        shape_of("CALIBRATION_METHOD"@, calibration_method_head(v) + calibration_method_from_0(v), Seq::empty())
    }

    proof fn law_shown(v: CalibrationMethodView, p: Page, f: Setting) {
        reveal_strlit("CALIBRATION_METHOD");
        lemma_keyword_word("CALIBRATION_METHOD"@);
        lemma_spells_word("CALIBRATION_METHOD"@);
        let h = Seq::<Tok>::empty();
        assert(seq![plain("CALIBRATION_METHOD"@)] + h =~= seq![plain("CALIBRATION_METHOD"@)]);
        crate::a2l::tree_laws::lemma_shows_begin(p, "CALIBRATION_METHOD"@, seq![plain("CALIBRATION_METHOD"@)] + h);
        let p0 = p.begin("CALIBRATION_METHOD"@);
        lemma_calibration_method_body(v, p0, f);
        lemma_calibration_method_opening(v, p0, f);
        let p1 = calibration_method_opening(v, p0);
        lemma_calibration_method_shown_0(v, p1, f);
        let p2 = calibration_method_pages_0(v, p1);
        let hx = seq![string(escaped(v.method)), plain(dec_int(v.version as int))];
        let from = calibration_method_from_0(v);
        lemma_shows_join(p0, p1, p2, hx, from);
        let q = p2;
        let kids = Seq::<Tree>::empty();
        let y = Seq::<Tok>::empty();
        assert(blocks_tokens(kids, 0) =~= y);
        assert(hx + from + y =~= hx + from);
        let x = calibration_method_head(v) + from;
        lemma_shape_tokens(x, kids);
        lemma_all_params_join(calibration_method_head(v), from);
        lemma_sound_shape("CALIBRATION_METHOD"@, x, kids);
        assert(calibration_method_head(v) =~= h + hx);
        assert(h + (hx + from + y) =~= x + y);
        lemma_shows_block(p, "CALIBRATION_METHOD"@, h, "CALIBRATION_METHOD"@, q, hx + from + y, Self::shape(v));
    }

    proof fn law_parsed(v: CalibrationMethodView, tree: Tree, f: Setting) {
        let x = calibration_method_head(v) + calibration_method_from_0(v);
        let kids = Seq::<Tree>::empty();
        lemma_shape_found(tree, "CALIBRATION_METHOD"@, x, kids, f);
        let c = Cur::start(tree);
        lemma_tokens_at_split(c.toks, 0, calibration_method_head(v), calibration_method_from_0(v));
        lemma_calibration_method_head(v, c, f);
        let c1 = Cur { pos: 2, ..c };
    }
}

proof fn lemma_spells_hexes(s: Seq<u32>)
    requires
        s.len() > 0,
    ensures
        spells(hexes(s), hex_tokens(s)),
    decreases s.len(),
{
    let last = hex_form(s.last() as nat);
    lemma_hex_param(s.last() as nat);
    lemma_spells_word(last);
    if s.len() == 1 {
        assert(hex_tokens(s) =~= seq![plain(last)]);
    } else {
        lemma_spells_hexes(s.drop_last());
        lemma_spells_join(hexes(s.drop_last()), hex_tokens(s.drop_last()), last, seq![plain(last)]);
        assert(hex_tokens(s.drop_last()) + seq![plain(last)] =~= hex_tokens(s));
    }
}

proof fn lemma_hex_params(s: Seq<u32>)
    ensures
        all_params(hex_tokens(s)),
{
    assert forall|i: int| 0 <= i < s.len() implies is_param(#[trigger] hex_tokens(s)[i]) by {
        lemma_hex_param(s[i] as nat);
    }
}

/// The parameters at the start of the block.
pub open spec fn calibration_handle_head(v: CalibrationHandleView) -> Seq<Tok> {
    Seq::<Tok>::empty()
}

/// The parameters of `CALIBRATION_HANDLE_TEXT`.
#[verifier::opaque]
pub open spec fn calibration_handle_part_0(v: CalibrationHandleView) -> Seq<Tok> {
    if v.text is Some {
        seq![plain("CALIBRATION_HANDLE_TEXT"@), string(escaped(v.text->Some_0))]
    } else { Seq::<Tok>::empty() }
}

/// The parameters from `CALIBRATION_HANDLE_TEXT` on.
pub open spec fn calibration_handle_from_0(v: CalibrationHandleView) -> Seq<Tok> {
    calibration_handle_part_0(v) + calibration_handle_from_1(v)
}

/// What is written for `CALIBRATION_HANDLE_TEXT`.
#[verifier::opaque]
pub open spec fn calibration_handle_page_0(v: CalibrationHandleView, p: Page) -> Page {
    match v.text { Some(x) if x.len() > 0 => p.quote("CALIBRATION_HANDLE_TEXT"@, x), _ => p }
}

/// What is written from `CALIBRATION_HANDLE_TEXT` on.
pub open spec fn calibration_handle_pages_0(v: CalibrationHandleView, p: Page) -> Page {
    calibration_handle_pages_1(v, calibration_handle_page_0(v, p))
}

/// The parameters behind the last keyword.
pub open spec fn calibration_handle_from_1(v: CalibrationHandleView) -> Seq<Tok> {
    hex_tokens(v.handles)
}

/// What is written behind the last keyword.
pub open spec fn calibration_handle_pages_1(v: CalibrationHandleView, p: Page) -> Page {
    if v.handles.len() > 0 { p.line(hexes(v.handles)) } else { p }
}

proof fn lemma_calibration_handle_values(v: CalibrationHandleView, c: Cur, i: int, f: Setting)
    requires
        CalibrationHandle::fits(v, f),
        0 <= i <= v.handles.len(),
        tokens_at(c.toks, c.pos, hex_tokens(v.handles).skip(i)),
        c.pos + (v.handles.len() - i) == c.toks.len(),
        toks_numbered(c.toks, f),
    ensures
        CalibrationHandle::options(
            CalibrationHandleView { handles: v.handles.subrange(0, i), ..v },
            c
        ) matches Ok((w, _)) && w == (v),
    decreases v.handles.len() - i,
{
    let n = v.handles.len() as int;
    if i < n {
        let t = hex_tokens(v.handles);
        assert(bare(c.toks[c.pos + 0]) == t.skip(i)[0]);
        law_integer_of_hex(v.handles[i] as nat);
        reveal_strlit("0x");
        reveal_strlit("CALIBRATION_HANDLE_TEXT");
        lemma_differ(hex_form(v.handles[i] as nat), "CALIBRATION_HANDLE_TEXT"@, 0);
        assert(v.handles.subrange(0, i).push(v.handles[i]) =~= v.handles.subrange(0, i + 1));
        assert forall|k: int| 0 <= k < t.skip(i + 1).len() implies bare(
            #[trigger] c.step().toks[c.step().pos + k],
        ) == t.skip(i + 1)[k] by {
            assert(bare(c.toks[c.pos + (k + 1)]) == t.skip(i)[k + 1]);
        }
        lemma_calibration_handle_values(v, c.step(), i + 1, f);
    } else {
        assert(v.handles.subrange(0, n) =~= v.handles);
    }
}

proof fn lemma_calibration_handle_part_0(v: CalibrationHandleView, p: Page, f: Setting)
    requires
        CalibrationHandle::fits(v, f),
        indents_by_blanks(p),
    ensures
        shows(p, calibration_handle_page_0(v, p), calibration_handle_part_0(v)),
        calibration_handle_page_0(v, p).depth == p.depth,
        calibration_handle_page_0(v, p).style == p.style,
        all_params(calibration_handle_part_0(v)),
{
    reveal(calibration_handle_page_0);
    reveal(calibration_handle_part_0);
    if v.text is Some {
        reveal_strlit("CALIBRATION_HANDLE_TEXT");
        assert(is_keyword("CALIBRATION_HANDLE_TEXT"@));
        lemma_keyword_param("CALIBRATION_HANDLE_TEXT"@);
        lemma_shows_quote(p, "CALIBRATION_HANDLE_TEXT"@, v.text->Some_0);
        reveal_strlit("CALIBRATION_HANDLE_TEXT");
        assert(is_keyword("CALIBRATION_HANDLE_TEXT"@));
        lemma_keyword_param("CALIBRATION_HANDLE_TEXT"@);
        lemma_string_param(v.text->Some_0);
        assert(all_params(seq![plain("CALIBRATION_HANDLE_TEXT"@), string(escaped(v.text->Some_0))]));
        
    } else {
        lemma_shows_nothing(p);
    }
}

proof fn lemma_calibration_handle_shown_1(v: CalibrationHandleView, p: Page, f: Setting)
    requires
        CalibrationHandle::fits(v, f),
        indents_by_blanks(p),
    ensures
        shows(p, calibration_handle_pages_1(v, p), calibration_handle_from_1(v)),
        calibration_handle_pages_1(v, p).depth == p.depth,
        calibration_handle_pages_1(v, p).style == p.style,
        all_params(calibration_handle_from_1(v)),
{
    lemma_hex_params(v.handles);
    if v.handles.len() > 0 {
        lemma_spells_hexes(v.handles);
        lemma_shows_line(p, hexes(v.handles), hex_tokens(v.handles));
    } else {
        lemma_shows_nothing(p);
        assert(hex_tokens(v.handles) =~= Seq::<Tok>::empty());
    }
}

proof fn lemma_calibration_handle_shown_0(v: CalibrationHandleView, p: Page, f: Setting)
    requires
        CalibrationHandle::fits(v, f),
        indents_by_blanks(p),
    ensures
        shows(p, calibration_handle_pages_0(v, p), calibration_handle_from_0(v)),
        calibration_handle_pages_0(v, p).depth == p.depth,
        calibration_handle_pages_0(v, p).style == p.style,
        all_params(calibration_handle_from_0(v)),
{
    lemma_calibration_handle_part_0(v, p, f);
    let q = calibration_handle_page_0(v, p);
    lemma_calibration_handle_shown_1(v, q, f);
    lemma_shows_join(
        p,
        q,
        calibration_handle_pages_1(v, q),
        calibration_handle_part_0(v),
        calibration_handle_from_1(v)
    );
    lemma_all_params_join(calibration_handle_part_0(v), calibration_handle_from_1(v));
}

/// What is written for the parameters at the start.
#[verifier::opaque]
pub open spec fn calibration_handle_opening(v: CalibrationHandleView, p0: Page) -> Page {
    p0
}

proof fn lemma_calibration_handle_opening(v: CalibrationHandleView, p0: Page, f: Setting)
    requires
        CalibrationHandle::fits(v, f),
        indents_by_blanks(p0),
    ensures
        shows(p0, calibration_handle_opening(v, p0), Seq::<Tok>::empty()),
        calibration_handle_opening(v, p0).depth == p0.depth,
        calibration_handle_opening(v, p0).style == p0.style,
        all_params(calibration_handle_head(v)),
{
    reveal(calibration_handle_opening);
    lemma_shows_nothing(p0);
    let x0 = Seq::<Tok>::empty();
    assert(x0 =~= Seq::<Tok>::empty());
}

proof fn lemma_calibration_handle_body(v: CalibrationHandleView, p: Page, f: Setting)
    requires
        CalibrationHandle::fits(v, f),
    ensures
        CalibrationHandle::body(v, p) == Ok::<Page, Stopped>(
            calibration_handle_pages_0(v, calibration_handle_opening(v, p))
        ),
{
    reveal(calibration_handle_opening);
    let q0 = calibration_handle_opening(v, p);
    let q1 = match v.text { Some(x) if x.len() > 0 => q0.quote("CALIBRATION_HANDLE_TEXT"@, x), _ => q0 };
    assert(q1 == calibration_handle_page_0(v, q0)) by {
        reveal(calibration_handle_page_0);
    }
}

proof fn lemma_calibration_handle_step_0(w: CalibrationHandleView, v: CalibrationHandleView, c: Cur, f: Setting)
    requires
        CalibrationHandle::fits(v, f),
        v.text is Some,
        tokens_at(c.toks, c.pos, seq![plain("CALIBRATION_HANDLE_TEXT"@), string(escaped(v.text->Some_0))]),
        toks_numbered(c.toks, f),
    ensures
        CalibrationHandle::option(w, c) == Ok::<(CalibrationHandleView, Cur), Failure>(
            (CalibrationHandleView { text: v.text, ..w }, Cur { pos: c.pos + 2, ..c }),
        ),
{
    reveal_strlit("CALIBRATION_HANDLE_TEXT");
    lemma_same("CALIBRATION_HANDLE_TEXT"@);
    assert(
        bare(c.toks[c.pos + 0]) == (
            seq![plain("CALIBRATION_HANDLE_TEXT"@), string(escaped(v.text->Some_0))]
        )[0]
    );
    assert(
        bare(c.toks[c.pos + 1]) == (
            seq![plain("CALIBRATION_HANDLE_TEXT"@), string(escaped(v.text->Some_0))]
        )[1]
    );
    law_unescaped_of_escaped(v.text->Some_0);
}

proof fn lemma_calibration_handle_read_1(v: CalibrationHandleView, c: Cur, f: Setting)
    requires
        CalibrationHandle::fits(v, f),
        tokens_at(c.toks, c.pos, calibration_handle_from_1(v)),
        c.pos + calibration_handle_from_1(v).len() == c.toks.len(),
        toks_numbered(c.toks, f),
    ensures
        CalibrationHandle::options(
            CalibrationHandleView { handles: Seq::empty(), ..v },
            c
        ) matches Ok((w, _)) && w == (v),
{
    assert(hex_tokens(v.handles).skip(0) =~= hex_tokens(v.handles));
    assert(v.handles.subrange(0, 0) =~= Seq::empty());
    lemma_calibration_handle_values(v, c, 0, f);
}

proof fn lemma_calibration_handle_read_0(v: CalibrationHandleView, c: Cur, f: Setting)
    requires
        CalibrationHandle::fits(v, f),
        tokens_at(c.toks, c.pos, calibration_handle_from_0(v)),
        c.pos + calibration_handle_from_0(v).len() == c.toks.len(),
        toks_numbered(c.toks, f),
    ensures
        CalibrationHandle::options(
            CalibrationHandleView { text: None, handles: Seq::empty() },
            c
        ) matches Ok((w, _)) && w == (v),
{
    reveal(calibration_handle_part_0);
    let t = calibration_handle_part_0(v);
    if v.text is Some {
        lemma_tokens_at_split(c.toks, c.pos, t, calibration_handle_from_1(v));
        let c2 = Cur { pos: c.pos + 2, ..c };
        lemma_calibration_handle_step_0(CalibrationHandleView { text: None, handles: Seq::empty() }, v, c, f);
        lemma_calibration_handle_read_1(v, c2, f);
    } else {
        assert(t + calibration_handle_from_1(v) =~= calibration_handle_from_1(v));
        lemma_calibration_handle_read_1(v, c, f);
    }
}

impl Faithful for CalibrationHandle {
    open spec fn fits(v: CalibrationHandleView, f: Setting) -> bool {
        &&& (v.text matches Some(x) ==> x.len() > 0)
        &&& true
    }

    open spec fn shape(v: CalibrationHandleView) -> Tree {
        shape_of("CALIBRATION_HANDLE"@, calibration_handle_head(v) + calibration_handle_from_0(v), Seq::empty())
    }

    proof fn law_shown(v: CalibrationHandleView, p: Page, f: Setting) {
        reveal_strlit("CALIBRATION_HANDLE");
        lemma_keyword_word("CALIBRATION_HANDLE"@);
        lemma_spells_word("CALIBRATION_HANDLE"@);
        let h = Seq::<Tok>::empty();
        assert(seq![plain("CALIBRATION_HANDLE"@)] + h =~= seq![plain("CALIBRATION_HANDLE"@)]);
        crate::a2l::tree_laws::lemma_shows_begin(p, "CALIBRATION_HANDLE"@, seq![plain("CALIBRATION_HANDLE"@)] + h);
        let p0 = p.begin("CALIBRATION_HANDLE"@);
        lemma_calibration_handle_body(v, p0, f);
        lemma_calibration_handle_opening(v, p0, f);
        let p1 = calibration_handle_opening(v, p0);
        lemma_calibration_handle_shown_0(v, p1, f);
        let p2 = calibration_handle_pages_0(v, p1);
        let hx = Seq::<Tok>::empty();
        let from = calibration_handle_from_0(v);
        lemma_shows_join(p0, p1, p2, hx, from);
        let q = p2;
        let kids = Seq::<Tree>::empty();
        let y = Seq::<Tok>::empty();
        assert(blocks_tokens(kids, 0) =~= y);
        assert(hx + from + y =~= hx + from);
        let x = calibration_handle_head(v) + from;
        lemma_shape_tokens(x, kids);
        lemma_all_params_join(calibration_handle_head(v), from);
        lemma_sound_shape("CALIBRATION_HANDLE"@, x, kids);
        assert(calibration_handle_head(v) =~= h + hx);
        assert(h + (hx + from + y) =~= x + y);
        lemma_shows_block(p, "CALIBRATION_HANDLE"@, h, "CALIBRATION_HANDLE"@, q, hx + from + y, Self::shape(v));
    }

    proof fn law_parsed(v: CalibrationHandleView, tree: Tree, f: Setting) {
        let x = calibration_handle_head(v) + calibration_handle_from_0(v);
        let kids = Seq::<Tree>::empty();
        lemma_shape_found(tree, "CALIBRATION_HANDLE"@, x, kids, f);
        let c = Cur::start(tree);
        lemma_tokens_at_split(c.toks, 0, calibration_handle_head(v), calibration_handle_from_0(v));
        let c1 = c;
        lemma_calibration_handle_read_0(v, c1, f);
    }
}

/// The parameters at the start of the block.
pub open spec fn unit_head(v: UnitView) -> Seq<Tok> {
    seq![
        plain(v.name),
        string(escaped(v.description->Some_0)),
        string(escaped(v.display->Some_0)),
        plain(v.unit_type.word()->Some_0)
    ]
}

/// The parameters of `REF_UNIT`.
#[verifier::opaque]
pub open spec fn unit_part_0(v: UnitView) -> Seq<Tok> {
    if v.ref_unit is Some { seq![plain("REF_UNIT"@), plain(v.ref_unit->Some_0)] } else { Seq::<Tok>::empty() }
}

/// The parameters from `REF_UNIT` on.
pub open spec fn unit_from_0(v: UnitView) -> Seq<Tok> {
    unit_part_0(v) + unit_from_1(v)
}

/// What is written for `REF_UNIT`.
#[verifier::opaque]
pub open spec fn unit_page_0(v: UnitView, p: Page) -> Page {
    match v.ref_unit { Some(x) if x.len() > 0 => p.word("REF_UNIT"@, x), _ => p }
}

/// What is written from `REF_UNIT` on.
pub open spec fn unit_pages_0(v: UnitView, p: Page) -> Page {
    unit_pages_1(v, unit_page_0(v, p))
}

/// The parameters of `UNIT_CONVERSION`.
#[verifier::opaque]
pub open spec fn unit_part_1(v: UnitView) -> Seq<Tok> {
    if v.unit_conversion is Some {
        seq![
            plain("UNIT_CONVERSION"@),
            plain(v.unit_conversion->Some_0[0].text),
            plain(v.unit_conversion->Some_0[1].text)
        ]
    } else { Seq::<Tok>::empty() }
}

/// The parameters from `UNIT_CONVERSION` on.
pub open spec fn unit_from_1(v: UnitView) -> Seq<Tok> {
    unit_part_1(v) + unit_from_2(v)
}

/// What is written for `UNIT_CONVERSION`.
#[verifier::opaque]
pub open spec fn unit_page_1(v: UnitView, p: Page) -> Page {
    match v.unit_conversion { Some(x) => p.word("UNIT_CONVERSION"@, x[0].text + " "@ + x[1].text), None => p }
}

/// What is written from `UNIT_CONVERSION` on.
pub open spec fn unit_pages_1(v: UnitView, p: Page) -> Page {
    unit_pages_2(v, unit_page_1(v, p))
}

/// The parameters of `SI_EXPONENTS`.
#[verifier::opaque]
pub open spec fn unit_part_2(v: UnitView) -> Seq<Tok> {
    if v.si_exponents is Some {
        seq![plain("SI_EXPONENTS"@)] + int_tokens(v.si_exponents->Some_0)
    } else { Seq::<Tok>::empty() }
}

/// The parameters from `SI_EXPONENTS` on.
pub open spec fn unit_from_2(v: UnitView) -> Seq<Tok> {
    unit_part_2(v) + unit_from_3(v)
}

/// What is written for `SI_EXPONENTS`.
#[verifier::opaque]
pub open spec fn unit_page_2(v: UnitView, p: Page) -> Page {
    match v.si_exponents { Some(x) => p.word("SI_EXPONENTS"@, listed(x)), None => p }
}

/// What is written from `SI_EXPONENTS` on.
pub open spec fn unit_pages_2(v: UnitView, p: Page) -> Page {
    unit_pages_3(v, unit_page_2(v, p))
}

/// The parameters behind the last keyword.
pub open spec fn unit_from_3(v: UnitView) -> Seq<Tok> {
    Seq::empty()
}

/// What is written behind the last keyword.
pub open spec fn unit_pages_3(v: UnitView, p: Page) -> Page {
    p
}

proof fn lemma_unit_part_2(v: UnitView, p: Page, f: Setting)
    requires
        Unit::fits(v, f),
        indents_by_blanks(p),
    ensures
        shows(p, unit_page_2(v, p), unit_part_2(v)),
        unit_page_2(v, p).depth == p.depth,
        unit_page_2(v, p).style == p.style,
        all_params(unit_part_2(v)),
{
    reveal(unit_page_2);
    reveal(unit_part_2);
    if v.si_exponents is Some {
        reveal_strlit("SI_EXPONENTS");
        assert(is_keyword("SI_EXPONENTS"@));
        lemma_keyword_param("SI_EXPONENTS"@);
        lemma_spells_ints(v.si_exponents->Some_0);
        lemma_shows_tagged(p, "SI_EXPONENTS"@, listed(v.si_exponents->Some_0), int_tokens(v.si_exponents->Some_0));
        reveal_strlit("SI_EXPONENTS");
        assert(is_keyword("SI_EXPONENTS"@));
        lemma_keyword_param("SI_EXPONENTS"@);
        assert(all_params(seq![plain("SI_EXPONENTS"@)]));
        lemma_int_params(v.si_exponents->Some_0);
        lemma_all_params_join(seq![plain("SI_EXPONENTS"@)], int_tokens(v.si_exponents->Some_0));
    } else {
        lemma_shows_nothing(p);
    }
}

proof fn lemma_unit_part_1(v: UnitView, p: Page, f: Setting)
    requires
        Unit::fits(v, f),
        indents_by_blanks(p),
    ensures
        shows(p, unit_page_1(v, p), unit_part_1(v)),
        unit_page_1(v, p).depth == p.depth,
        unit_page_1(v, p).style == p.style,
        all_params(unit_part_1(v)),
{
    reveal(unit_page_1);
    reveal(unit_part_1);
    if v.unit_conversion is Some {
        reveal_strlit("UNIT_CONVERSION");
        assert(is_keyword("UNIT_CONVERSION"@));
        lemma_keyword_param("UNIT_CONVERSION"@);
        let a = v.unit_conversion->Some_0[0].text;
        let b = v.unit_conversion->Some_0[1].text;
        lemma_spells_pair(a, b);
        lemma_shows_tagged(p, "UNIT_CONVERSION"@, a + " "@ + b, seq![plain(a), plain(b)]);
        assert(
            seq![plain("UNIT_CONVERSION"@)] + seq![plain(a), plain(b)] =~= seq![
                plain("UNIT_CONVERSION"@),
                plain(a),
                plain(b)
            ]
        );
        reveal_strlit("UNIT_CONVERSION");
        assert(is_keyword("UNIT_CONVERSION"@));
        lemma_keyword_param("UNIT_CONVERSION"@);
        assert(
            all_params(
                seq![
                    plain("UNIT_CONVERSION"@),
                    plain(v.unit_conversion->Some_0[0].text),
                    plain(v.unit_conversion->Some_0[1].text)
                ]
            )
        );
        
    } else {
        lemma_shows_nothing(p);
    }
}

proof fn lemma_unit_part_0(v: UnitView, p: Page, f: Setting)
    requires
        Unit::fits(v, f),
        indents_by_blanks(p),
    ensures
        shows(p, unit_page_0(v, p), unit_part_0(v)),
        unit_page_0(v, p).depth == p.depth,
        unit_page_0(v, p).style == p.style,
        all_params(unit_part_0(v)),
{
    reveal(unit_page_0);
    reveal(unit_part_0);
    if v.ref_unit is Some {
        reveal_strlit("REF_UNIT");
        assert(is_keyword("REF_UNIT"@));
        lemma_keyword_param("REF_UNIT"@);
        lemma_shows_word(p, "REF_UNIT"@, v.ref_unit->Some_0);
        reveal_strlit("REF_UNIT");
        assert(is_keyword("REF_UNIT"@));
        lemma_keyword_param("REF_UNIT"@);
        assert(all_params(seq![plain("REF_UNIT"@), plain(v.ref_unit->Some_0)]));
        
    } else {
        lemma_shows_nothing(p);
    }
}

proof fn lemma_unit_shown_3(v: UnitView, p: Page, f: Setting)
    requires
        Unit::fits(v, f),
        indents_by_blanks(p),
    ensures
        shows(p, unit_pages_3(v, p), unit_from_3(v)),
        unit_pages_3(v, p).depth == p.depth,
        unit_pages_3(v, p).style == p.style,
        all_params(unit_from_3(v)),
{
    lemma_shows_nothing(p);
}

proof fn lemma_unit_shown_2(v: UnitView, p: Page, f: Setting)
    requires
        Unit::fits(v, f),
        indents_by_blanks(p),
    ensures
        shows(p, unit_pages_2(v, p), unit_from_2(v)),
        unit_pages_2(v, p).depth == p.depth,
        unit_pages_2(v, p).style == p.style,
        all_params(unit_from_2(v)),
{
    lemma_unit_part_2(v, p, f);
    let q = unit_page_2(v, p);
    lemma_unit_shown_3(v, q, f);
    lemma_shows_join(p, q, unit_pages_3(v, q), unit_part_2(v), unit_from_3(v));
    lemma_all_params_join(unit_part_2(v), unit_from_3(v));
}

proof fn lemma_unit_shown_1(v: UnitView, p: Page, f: Setting)
    requires
        Unit::fits(v, f),
        indents_by_blanks(p),
    ensures
        shows(p, unit_pages_1(v, p), unit_from_1(v)),
        unit_pages_1(v, p).depth == p.depth,
        unit_pages_1(v, p).style == p.style,
        all_params(unit_from_1(v)),
{
    lemma_unit_part_1(v, p, f);
    let q = unit_page_1(v, p);
    lemma_unit_shown_2(v, q, f);
    lemma_shows_join(p, q, unit_pages_2(v, q), unit_part_1(v), unit_from_2(v));
    lemma_all_params_join(unit_part_1(v), unit_from_2(v));
}

proof fn lemma_unit_shown_0(v: UnitView, p: Page, f: Setting)
    requires
        Unit::fits(v, f),
        indents_by_blanks(p),
    ensures
        shows(p, unit_pages_0(v, p), unit_from_0(v)),
        unit_pages_0(v, p).depth == p.depth,
        unit_pages_0(v, p).style == p.style,
        all_params(unit_from_0(v)),
{
    lemma_unit_part_0(v, p, f);
    let q = unit_page_0(v, p);
    lemma_unit_shown_1(v, q, f);
    lemma_shows_join(p, q, unit_pages_1(v, q), unit_part_0(v), unit_from_1(v));
    lemma_all_params_join(unit_part_0(v), unit_from_1(v));
}

/// What is written for the parameters at the start.
#[verifier::opaque]
pub open spec fn unit_opening(v: UnitView, p0: Page) -> Page {
    let p1 = match v.description { Some(x) => p0.quote_line(x), None => p0.quote_line(""@) };
    let p2 = match v.display { Some(x) => p1.quote_line(x), None => p1.quote_line(""@) };
    let p3 = match v.unit_type.word() { Some(kw) => p2.line(kw), None => p2 };
    p3
}

proof fn lemma_unit_opening(v: UnitView, p0: Page, f: Setting)
    requires
        Unit::fits(v, f),
        indents_by_blanks(p0),
    ensures
        shows(
            p0,
            unit_opening(v, p0),
            seq![
                string(escaped(v.description->Some_0)),
                string(escaped(v.display->Some_0)),
                plain(v.unit_type.word()->Some_0)
            ]
        ),
        unit_opening(v, p0).depth == p0.depth,
        unit_opening(v, p0).style == p0.style,
        all_params(unit_head(v)),
{
    reveal(unit_opening);
    lemma_shows_nothing(p0);
    let x0 = Seq::<Tok>::empty();
    let p1 = match v.description { Some(x) => p0.quote_line(x), None => p0.quote_line(""@) };
    assert(
        shows(
            p0,
            p1,
            seq![string(escaped(v.description->Some_0))]
        ) && p1.depth == p0.depth && p1.style == p0.style
    ) by {
        let p = p0;
        lemma_shows_quote_line(p, v.description->Some_0);
    }
    lemma_shows_join(p0, p0, p1, x0, seq![string(escaped(v.description->Some_0))]);
    let x1 = x0 + seq![string(escaped(v.description->Some_0))];
    let p2 = match v.display { Some(x) => p1.quote_line(x), None => p1.quote_line(""@) };
    assert(
        shows(
            p1,
            p2,
            seq![string(escaped(v.display->Some_0))]
        ) && p2.depth == p1.depth && p2.style == p1.style
    ) by {
        let p = p1;
        lemma_shows_quote_line(p, v.display->Some_0);
    }
    lemma_shows_join(p0, p1, p2, x1, seq![string(escaped(v.display->Some_0))]);
    let x2 = x1 + seq![string(escaped(v.display->Some_0))];
    let p3 = match v.unit_type.word() { Some(kw) => p2.line(kw), None => p2 };
    assert(
        shows(
            p2,
            p3,
            seq![plain(v.unit_type.word()->Some_0)]
        ) && p3.depth == p2.depth && p3.style == p2.style
    ) by {
        let p = p2;
        v.unit_type.lemma_word();
        lemma_shows_word_line(p, v.unit_type.word()->Some_0);
    }
    lemma_shows_join(p0, p2, p3, x2, seq![plain(v.unit_type.word()->Some_0)]);
    let x3 = x2 + seq![plain(v.unit_type.word()->Some_0)];
    assert(
        x3 =~= seq![
            string(escaped(v.description->Some_0)),
            string(escaped(v.display->Some_0)),
            plain(v.unit_type.word()->Some_0)
        ]
    );
    lemma_string_param(v.description->Some_0);
    lemma_string_param(v.display->Some_0);
    v.unit_type.lemma_word();
}

proof fn lemma_unit_body(v: UnitView, p: Page, f: Setting)
    requires
        Unit::fits(v, f),
    ensures
        Unit::body(v, p) == Ok::<Page, Stopped>(unit_pages_0(v, unit_opening(v, p))),
{
    reveal(unit_opening);
    let q0 = unit_opening(v, p);
    let q1 = match v.ref_unit { Some(x) if x.len() > 0 => q0.word("REF_UNIT"@, x), _ => q0 };
    assert(q1 == unit_page_0(v, q0)) by {
        reveal(unit_page_0);
    }
    let q2 = match v.unit_conversion {
        Some(x) => q1.word("UNIT_CONVERSION"@, x[0].text + " "@ + x[1].text),
        None => q1
    };
    assert(q2 == unit_page_1(v, q1)) by {
        reveal(unit_page_1);
    }
    let q3 = match v.si_exponents { Some(x) => q2.word("SI_EXPONENTS"@, listed(x)), None => q2 };
    assert(q3 == unit_page_2(v, q2)) by {
        reveal(unit_page_2);
    }
}

proof fn lemma_unit_head(v: UnitView, c: Cur, f: Setting)
    requires
        Unit::fits(v, f),
        tokens_at(c.toks, c.pos, unit_head(v)),
        toks_numbered(c.toks, f),
    ensures
        Unit::head(c) == Ok::<(UnitView, Cur), Failure>(
            (
                UnitView { ref_unit: None, unit_conversion: None, si_exponents: None, ..v },
                Cur { pos: c.pos + 4, ..c }
            ),
        ),
{
    law_unescaped_of_escaped(v.description->Some_0);
    law_unescaped_of_escaped(v.display->Some_0);
    v.unit_type.law_named_of_word();
    assert(bare(c.toks[c.pos + 0]) == unit_head(v)[0]);
    assert(bare(c.toks[c.pos + 1]) == unit_head(v)[1]);
    assert(bare(c.toks[c.pos + 2]) == unit_head(v)[2]);
    assert(bare(c.toks[c.pos + 3]) == unit_head(v)[3]);
}

proof fn lemma_unit_step_0(w: UnitView, v: UnitView, c: Cur, f: Setting)
    requires
        Unit::fits(v, f),
        v.ref_unit is Some,
        tokens_at(c.toks, c.pos, seq![plain("REF_UNIT"@), plain(v.ref_unit->Some_0)]),
        toks_numbered(c.toks, f),
    ensures
        Unit::option(w, c) == Ok::<(UnitView, Cur), Failure>(
            (UnitView { ref_unit: v.ref_unit, ..w }, Cur { pos: c.pos + 2, ..c }),
        ),
{
    reveal_strlit("REF_UNIT");
    lemma_same("REF_UNIT"@);
    assert(bare(c.toks[c.pos + 0]) == (seq![plain("REF_UNIT"@), plain(v.ref_unit->Some_0)])[0]);
    assert(bare(c.toks[c.pos + 1]) == (seq![plain("REF_UNIT"@), plain(v.ref_unit->Some_0)])[1]);
    
}

proof fn lemma_unit_step_1(w: UnitView, v: UnitView, c: Cur, f: Setting)
    requires
        Unit::fits(v, f),
        v.unit_conversion is Some,
        tokens_at(
            c.toks,
            c.pos,
            seq![
                plain("UNIT_CONVERSION"@),
                plain(v.unit_conversion->Some_0[0].text),
                plain(v.unit_conversion->Some_0[1].text)
            ]
        ),
        toks_numbered(c.toks, f),
    ensures
        Unit::option(w, c) == Ok::<(UnitView, Cur), Failure>(
            (UnitView { unit_conversion: v.unit_conversion, ..w }, Cur { pos: c.pos + 3, ..c }),
        ),
{
    reveal_strlit("UNIT_CONVERSION");
    reveal_strlit("REF_UNIT");
    lemma_differ("UNIT_CONVERSION"@, "REF_UNIT"@, 0);
    lemma_same("UNIT_CONVERSION"@);
    assert(
        bare(c.toks[c.pos + 0]) == (
            seq![
                plain("UNIT_CONVERSION"@),
                plain(v.unit_conversion->Some_0[0].text),
                plain(v.unit_conversion->Some_0[1].text)
            ]
        )[0]
    );
    assert(
        bare(c.toks[c.pos + 1]) == (
            seq![
                plain("UNIT_CONVERSION"@),
                plain(v.unit_conversion->Some_0[0].text),
                plain(v.unit_conversion->Some_0[1].text)
            ]
        )[1]
    );
    assert(
        bare(c.toks[c.pos + 2]) == (
            seq![
                plain("UNIT_CONVERSION"@),
                plain(v.unit_conversion->Some_0[0].text),
                plain(v.unit_conversion->Some_0[1].text)
            ]
        )[2]
    );
    assert(seq![v.unit_conversion->Some_0[0], v.unit_conversion->Some_0[1]] =~= v.unit_conversion->Some_0);
}

proof fn lemma_unit_step_2(w: UnitView, v: UnitView, c: Cur, f: Setting)
    requires
        Unit::fits(v, f),
        v.si_exponents is Some,
        tokens_at(c.toks, c.pos, seq![plain("SI_EXPONENTS"@)] + int_tokens(v.si_exponents->Some_0)),
        toks_numbered(c.toks, f),
    ensures
        Unit::option(w, c) == Ok::<(UnitView, Cur), Failure>(
            (
                UnitView { si_exponents: v.si_exponents, ..w },
                Cur { pos: c.pos + 1 + int_tokens(v.si_exponents->Some_0).len(), ..c }
            ),
        ),
{
    reveal_strlit("SI_EXPONENTS");
    reveal_strlit("REF_UNIT");
    lemma_differ("SI_EXPONENTS"@, "REF_UNIT"@, 0);
    reveal_strlit("UNIT_CONVERSION");
    lemma_differ("SI_EXPONENTS"@, "UNIT_CONVERSION"@, 0);
    lemma_same("SI_EXPONENTS"@);
    assert(bare(c.toks[c.pos + 0]) == (seq![plain("SI_EXPONENTS"@)] + int_tokens(v.si_exponents->Some_0))[0]);
    lemma_tokens_at_split(c.toks, c.pos, seq![plain("SI_EXPONENTS"@)], int_tokens(v.si_exponents->Some_0));
    lemma_ints_read(c.step(), v.si_exponents->Some_0, 7);
    assert(v.si_exponents->Some_0.subrange(0, 7) =~= v.si_exponents->Some_0);
}

proof fn lemma_unit_read_3(v: UnitView, c: Cur, f: Setting)
    requires
        Unit::fits(v, f),
        tokens_at(c.toks, c.pos, unit_from_3(v)),
        c.pos + unit_from_3(v).len() == c.toks.len(),
        toks_numbered(c.toks, f),
    ensures
        Unit::options(v, c) matches Ok((w, _)) && w == (v),
{
}

proof fn lemma_unit_read_2(v: UnitView, c: Cur, f: Setting)
    requires
        Unit::fits(v, f),
        tokens_at(c.toks, c.pos, unit_from_2(v)),
        c.pos + unit_from_2(v).len() == c.toks.len(),
        toks_numbered(c.toks, f),
    ensures
        Unit::options(UnitView { si_exponents: None, ..v }, c) matches Ok((w, _)) && w == (v),
{
    reveal(unit_part_2);
    let t = unit_part_2(v);
    if v.si_exponents is Some {
        lemma_tokens_at_split(c.toks, c.pos, t, unit_from_3(v));
        let c2 = Cur { pos: c.pos + 1 + int_tokens(v.si_exponents->Some_0).len(), ..c };
        lemma_unit_step_2(UnitView { si_exponents: None, ..v }, v, c, f);
        lemma_unit_read_3(v, c2, f);
    } else {
        assert(t + unit_from_3(v) =~= unit_from_3(v));
        lemma_unit_read_3(v, c, f);
    }
}

proof fn lemma_unit_read_1(v: UnitView, c: Cur, f: Setting)
    requires
        Unit::fits(v, f),
        tokens_at(c.toks, c.pos, unit_from_1(v)),
        c.pos + unit_from_1(v).len() == c.toks.len(),
        toks_numbered(c.toks, f),
    ensures
        Unit::options(
            UnitView { unit_conversion: None, si_exponents: None, ..v },
            c
        ) matches Ok((w, _)) && w == (v),
{
    reveal(unit_part_1);
    let t = unit_part_1(v);
    if v.unit_conversion is Some {
        lemma_tokens_at_split(c.toks, c.pos, t, unit_from_2(v));
        let c2 = Cur { pos: c.pos + 3, ..c };
        lemma_unit_step_1(UnitView { unit_conversion: None, si_exponents: None, ..v }, v, c, f);
        lemma_unit_read_2(v, c2, f);
    } else {
        assert(t + unit_from_2(v) =~= unit_from_2(v));
        lemma_unit_read_2(v, c, f);
    }
}

proof fn lemma_unit_read_0(v: UnitView, c: Cur, f: Setting)
    requires
        Unit::fits(v, f),
        tokens_at(c.toks, c.pos, unit_from_0(v)),
        c.pos + unit_from_0(v).len() == c.toks.len(),
        toks_numbered(c.toks, f),
    ensures
        Unit::options(
            UnitView { ref_unit: None, unit_conversion: None, si_exponents: None, ..v },
            c
        ) matches Ok((w, _)) && w == (v),
{
    reveal(unit_part_0);
    let t = unit_part_0(v);
    if v.ref_unit is Some {
        lemma_tokens_at_split(c.toks, c.pos, t, unit_from_1(v));
        let c2 = Cur { pos: c.pos + 2, ..c };
        lemma_unit_step_0(UnitView { ref_unit: None, unit_conversion: None, si_exponents: None, ..v }, v, c, f);
        lemma_unit_read_1(v, c2, f);
    } else {
        assert(t + unit_from_1(v) =~= unit_from_1(v));
        lemma_unit_read_1(v, c, f);
    }
}

impl Faithful for Unit {
    open spec fn fits(v: UnitView, f: Setting) -> bool {
        &&& is_param(plain(v.name))
        &&& v.description is Some
        &&& v.display is Some
        &&& v.unit_type.word() is Some
        &&& (v.ref_unit matches Some(x) ==> is_param(plain(x)))
        &&& (v.unit_conversion matches Some(x) ==> x.len() == 2 && num_fits(x[0], f) && num_fits(x[1], f))
        &&& (v.si_exponents matches Some(x) ==> x.len() == 7)
    }

    open spec fn shape(v: UnitView) -> Tree {
        shape_of("UNIT"@, unit_head(v) + unit_from_0(v), Seq::empty())
    }

    proof fn law_shown(v: UnitView, p: Page, f: Setting) {
        reveal_strlit("UNIT");
        lemma_keyword_word("UNIT"@);
        reveal_strlit("UNIT ");
        reveal_strlit(" ");
        assert("UNIT "@ + v.name =~= "UNIT"@ + " "@ + v.name);
        lemma_spells_word("UNIT"@);
        lemma_spells_word(v.name);
        lemma_spells_join("UNIT"@, seq![plain("UNIT"@)], v.name, seq![plain(v.name)]);
        let h = seq![plain(v.name)];
        crate::a2l::tree_laws::lemma_shows_begin(p, "UNIT "@ + v.name, seq![plain("UNIT"@)] + h);
        let p0 = p.begin("UNIT "@ + v.name);
        lemma_unit_body(v, p0, f);
        lemma_unit_opening(v, p0, f);
        let p1 = unit_opening(v, p0);
        lemma_unit_shown_0(v, p1, f);
        let p2 = unit_pages_0(v, p1);
        let hx = seq![
            string(escaped(v.description->Some_0)),
            string(escaped(v.display->Some_0)),
            plain(v.unit_type.word()->Some_0)
        ];
        let from = unit_from_0(v);
        lemma_shows_join(p0, p1, p2, hx, from);
        let q = p2;
        let kids = Seq::<Tree>::empty();
        let y = Seq::<Tok>::empty();
        assert(blocks_tokens(kids, 0) =~= y);
        assert(hx + from + y =~= hx + from);
        let x = unit_head(v) + from;
        lemma_shape_tokens(x, kids);
        lemma_all_params_join(unit_head(v), from);
        lemma_sound_shape("UNIT"@, x, kids);
        assert(unit_head(v) =~= h + hx);
        assert(h + (hx + from + y) =~= x + y);
        lemma_shows_block(p, "UNIT "@ + v.name, h, "UNIT"@, q, hx + from + y, Self::shape(v));
    }

    proof fn law_parsed(v: UnitView, tree: Tree, f: Setting) {
        let x = unit_head(v) + unit_from_0(v);
        let kids = Seq::<Tree>::empty();
        lemma_shape_found(tree, "UNIT"@, x, kids, f);
        let c = Cur::start(tree);
        lemma_tokens_at_split(c.toks, 0, unit_head(v), unit_from_0(v));
        lemma_unit_head(v, c, f);
        let c1 = Cur { pos: 4, ..c };
        lemma_unit_read_0(v, c1, f);
    }
}

/// The parameters of the block.
pub open spec fn ref_group_params(v: RefGroupView) -> Seq<Tok> {
    Seq::<Tok>::empty() + (ref_tokens(v.references))
}

impl Faithful for RefGroup {
    open spec fn fits(v: RefGroupView, f: Setting) -> bool {
        &&& refs_fit(v.references)
    }

    open spec fn shape(v: RefGroupView) -> Tree {
        shape_of("REF_GROUP"@, ref_group_params(v), Seq::empty())
    }

    proof fn law_shown(v: RefGroupView, p: Page, f: Setting) {
        reveal_strlit("REF_GROUP");
        lemma_keyword_word("REF_GROUP"@);
        let h = Seq::<Tok>::empty();
        let x = ref_tokens(v.references);
        lemma_spells_word("REF_GROUP"@);
        assert(seq![plain("REF_GROUP"@)] + h =~= seq![plain("REF_GROUP"@)]);
        crate::a2l::tree_laws::lemma_shows_begin(p, "REF_GROUP"@, seq![plain("REF_GROUP"@)] + h);
        let p0 = p.begin("REF_GROUP"@);
        lemma_refs_shown(p0, v.references);
        let q0 = p0.references(v.references);
        assert(shows(p0, q0, x));
        let q = q0;
        let kids = Seq::<Tree>::empty();
        let y = Seq::<Tok>::empty();
        assert(blocks_tokens(kids, 0) =~= y);
        assert(x + y =~= x);
        lemma_ref_params(v.references);
        assert(all_params(h));
        lemma_all_params_join(h, x);
        lemma_shape_tokens(h + x, kids);
        lemma_sound_shape("REF_GROUP"@, h + x, kids);
        assert(h + (x + y) =~= h + x + y);
        assert(Self::body(v, p0) == Ok::<Page, Stopped>(q));
        lemma_shows_block(p, "REF_GROUP"@, h, "REF_GROUP"@, q, x + y, Self::shape(v));
    }

    proof fn law_parsed(v: RefGroupView, tree: Tree, f: Setting) {
        let h = Seq::<Tok>::empty();
        let x = ref_tokens(v.references);
        let kids = Seq::<Tree>::empty();
        lemma_shape_found(tree, "REF_GROUP"@, h + x, kids, f);
        let c = Cur::start(tree);
        lemma_tokens_at_split(c.toks, 0, h, x);
        lemma_refs_read(c, v.references);
    }
}

impl FaithfulChild for UserRightsChild {
    open spec fn fits(v: UserRightsChildView, f: Setting) -> bool {
        match v {
            UserRightsChildView::RefGroup(n) => <RefGroup as Faithful>::fits(n, f),
            UserRightsChildView::Unsupported(n) => <UnsupportedNode as FaithfulChild>::fits(n, f) && !same_ignore_case(n.keyword, "REF_GROUP"@),
        }
    }

    open spec fn shape(v: UserRightsChildView) -> Tree {
        match v {
            UserRightsChildView::RefGroup(n) => <RefGroup as Faithful>::shape(n),
            UserRightsChildView::Unsupported(n) => <UnsupportedNode as FaithfulChild>::shape(n),
        }
    }

    proof fn law_shown(v: UserRightsChildView, p: Page, f: Setting) {
        match v {
            UserRightsChildView::RefGroup(n) => {
                lemma_node_shown::<RefGroup>(n, p, f);
            },
            UserRightsChildView::Unsupported(n) => {
                <UnsupportedNode as FaithfulChild>::law_shown(n, p, f);
            },
        }
    }

    proof fn law_parsed(v: UserRightsChildView, tree: Tree, f: Setting) {
        match v {
            UserRightsChildView::RefGroup(n) => {
                reveal_strlit("REF_GROUP");
                lemma_same("REF_GROUP"@);
                assert(bare_tree(tree).keyword == "REF_GROUP"@);
                lemma_node_read::<RefGroup>(n, tree, f);
            },
            UserRightsChildView::Unsupported(n) => {
                <UnsupportedNode as FaithfulChild>::law_parsed(n, tree, f);
            },
        }
    }
}

/// The parameters at the start of the block.
pub open spec fn user_rights_head(v: UserRightsView) -> Seq<Tok> {
    seq![plain(v.name)]
}

/// The parameters of `READ_ONLY`.
#[verifier::opaque]
pub open spec fn user_rights_part_0(v: UserRightsView) -> Seq<Tok> {
    if v.read_only { seq![plain("READ_ONLY"@)] } else { Seq::<Tok>::empty() }
}

/// The parameters from `READ_ONLY` on.
pub open spec fn user_rights_from_0(v: UserRightsView) -> Seq<Tok> {
    user_rights_part_0(v) + user_rights_from_1(v)
}

/// What is written for `READ_ONLY`.
#[verifier::opaque]
pub open spec fn user_rights_page_0(v: UserRightsView, p: Page) -> Page {
    if v.read_only { p.line("READ_ONLY"@) } else { p }
}

/// What is written from `READ_ONLY` on.
pub open spec fn user_rights_pages_0(v: UserRightsView, p: Page) -> Page {
    user_rights_pages_1(v, user_rights_page_0(v, p))
}

/// The parameters behind the last keyword.
pub open spec fn user_rights_from_1(v: UserRightsView) -> Seq<Tok> {
    Seq::empty()
}

/// What is written behind the last keyword.
pub open spec fn user_rights_pages_1(v: UserRightsView, p: Page) -> Page {
    p
}

proof fn lemma_user_rights_part_0(v: UserRightsView, p: Page, f: Setting)
    requires
        UserRights::fits(v, f),
        indents_by_blanks(p),
    ensures
        shows(p, user_rights_page_0(v, p), user_rights_part_0(v)),
        user_rights_page_0(v, p).depth == p.depth,
        user_rights_page_0(v, p).style == p.style,
        all_params(user_rights_part_0(v)),
{
    reveal(user_rights_page_0);
    reveal(user_rights_part_0);
    if v.read_only {
        reveal_strlit("READ_ONLY");
        assert(is_keyword("READ_ONLY"@));
        lemma_keyword_param("READ_ONLY"@);
        lemma_shows_word_line(p, "READ_ONLY"@);
        reveal_strlit("READ_ONLY");
        assert(is_keyword("READ_ONLY"@));
        lemma_keyword_param("READ_ONLY"@);
        assert(all_params(seq![plain("READ_ONLY"@)]));
        
    } else {
        lemma_shows_nothing(p);
    }
}

proof fn lemma_user_rights_shown_1(v: UserRightsView, p: Page, f: Setting)
    requires
        UserRights::fits(v, f),
        indents_by_blanks(p),
    ensures
        shows(p, user_rights_pages_1(v, p), user_rights_from_1(v)),
        user_rights_pages_1(v, p).depth == p.depth,
        user_rights_pages_1(v, p).style == p.style,
        all_params(user_rights_from_1(v)),
{
    lemma_shows_nothing(p);
}

proof fn lemma_user_rights_shown_0(v: UserRightsView, p: Page, f: Setting)
    requires
        UserRights::fits(v, f),
        indents_by_blanks(p),
    ensures
        shows(p, user_rights_pages_0(v, p), user_rights_from_0(v)),
        user_rights_pages_0(v, p).depth == p.depth,
        user_rights_pages_0(v, p).style == p.style,
        all_params(user_rights_from_0(v)),
{
    lemma_user_rights_part_0(v, p, f);
    let q = user_rights_page_0(v, p);
    lemma_user_rights_shown_1(v, q, f);
    lemma_shows_join(p, q, user_rights_pages_1(v, q), user_rights_part_0(v), user_rights_from_1(v));
    lemma_all_params_join(user_rights_part_0(v), user_rights_from_1(v));
}

/// What is written for the parameters at the start.
#[verifier::opaque]
pub open spec fn user_rights_opening(v: UserRightsView, p0: Page) -> Page {
    p0
}

proof fn lemma_user_rights_opening(v: UserRightsView, p0: Page, f: Setting)
    requires
        UserRights::fits(v, f),
        indents_by_blanks(p0),
    ensures
        shows(p0, user_rights_opening(v, p0), Seq::<Tok>::empty()),
        user_rights_opening(v, p0).depth == p0.depth,
        user_rights_opening(v, p0).style == p0.style,
        all_params(user_rights_head(v)),
{
    reveal(user_rights_opening);
    lemma_shows_nothing(p0);
    let x0 = Seq::<Tok>::empty();
    assert(x0 =~= Seq::<Tok>::empty());
}

proof fn lemma_user_rights_body(v: UserRightsView, p: Page, f: Setting)
    requires
        UserRights::fits(v, f),
    ensures
        UserRights::body(v, p) == children_written::<UserRightsChild>(
            v.children,
            0,
            false,
            user_rights_pages_0(v, user_rights_opening(v, p))
        ),
{
    reveal(user_rights_opening);
    let q0 = user_rights_opening(v, p);
    let q1 = if v.read_only { q0.line("READ_ONLY"@) } else { q0 };
    assert(q1 == user_rights_page_0(v, q0)) by {
        reveal(user_rights_page_0);
    }
}

proof fn lemma_user_rights_head(v: UserRightsView, c: Cur, f: Setting)
    requires
        UserRights::fits(v, f),
        tokens_at(c.toks, c.pos, user_rights_head(v)),
        toks_numbered(c.toks, f),
    ensures
        UserRights::head(c) == Ok::<(UserRightsView, Cur), Failure>(
            (UserRightsView { read_only: false, children: Seq::empty(), ..v }, Cur { pos: c.pos + 1, ..c }),
        ),
{
    assert(bare(c.toks[c.pos + 0]) == user_rights_head(v)[0]);
}

proof fn lemma_user_rights_step_0(w: UserRightsView, v: UserRightsView, c: Cur, f: Setting)
    requires
        UserRights::fits(v, f),
        v.read_only,
        tokens_at(c.toks, c.pos, seq![plain("READ_ONLY"@)]),
        toks_numbered(c.toks, f),
    ensures
        UserRights::option(w, c) == Ok::<(UserRightsView, Cur), Failure>(
            (UserRightsView { read_only: v.read_only, ..w }, Cur { pos: c.pos + 1, ..c }),
        ),
{
    reveal_strlit("READ_ONLY");
    lemma_same("READ_ONLY"@);
    assert(bare(c.toks[c.pos + 0]) == (seq![plain("READ_ONLY"@)])[0]);
    
}

proof fn lemma_user_rights_read_1(v: UserRightsView, c: Cur, f: Setting)
    requires
        UserRights::fits(v, f),
        tokens_at(c.toks, c.pos, user_rights_from_1(v)),
        c.pos + user_rights_from_1(v).len() == c.toks.len(),
        toks_numbered(c.toks, f),
    ensures
        UserRights::options(
            UserRightsView { children: Seq::empty(), ..v },
            c
        ) matches Ok((w, _)) && w == (UserRightsView { children: Seq::empty(), ..v }),
{
}

proof fn lemma_user_rights_read_0(v: UserRightsView, c: Cur, f: Setting)
    requires
        UserRights::fits(v, f),
        tokens_at(c.toks, c.pos, user_rights_from_0(v)),
        c.pos + user_rights_from_0(v).len() == c.toks.len(),
        toks_numbered(c.toks, f),
    ensures
        UserRights::options(
            UserRightsView { read_only: false, children: Seq::empty(), ..v },
            c
        ) matches Ok((w, _)) && w == (UserRightsView { children: Seq::empty(), ..v }),
{
    reveal(user_rights_part_0);
    let t = user_rights_part_0(v);
    if v.read_only {
        lemma_tokens_at_split(c.toks, c.pos, t, user_rights_from_1(v));
        let c2 = Cur { pos: c.pos + 1, ..c };
        lemma_user_rights_step_0(UserRightsView { read_only: false, children: Seq::empty(), ..v }, v, c, f);
        lemma_user_rights_read_1(v, c2, f);
    } else {
        assert(t + user_rights_from_1(v) =~= user_rights_from_1(v));
        lemma_user_rights_read_1(v, c, f);
    }
}

impl Faithful for UserRights {
    open spec fn fits(v: UserRightsView, f: Setting) -> bool {
        &&& is_param(plain(v.name))
        &&& all_fit::<UserRightsChild>(v.children, f)
    }

    open spec fn shape(v: UserRightsView) -> Tree {
        shape_of(
            "USER_RIGHTS"@,
            user_rights_head(v) + user_rights_from_0(v),
            shapes::<UserRightsChild>(v.children)
        )
    }

    proof fn law_shown(v: UserRightsView, p: Page, f: Setting) {
        reveal_strlit("USER_RIGHTS");
        lemma_keyword_word("USER_RIGHTS"@);
        reveal_strlit("USER_RIGHTS ");
        reveal_strlit(" ");
        assert("USER_RIGHTS "@ + v.name =~= "USER_RIGHTS"@ + " "@ + v.name);
        lemma_spells_word("USER_RIGHTS"@);
        lemma_spells_word(v.name);
        lemma_spells_join("USER_RIGHTS"@, seq![plain("USER_RIGHTS"@)], v.name, seq![plain(v.name)]);
        let h = seq![plain(v.name)];
        crate::a2l::tree_laws::lemma_shows_begin(p, "USER_RIGHTS "@ + v.name, seq![plain("USER_RIGHTS"@)] + h);
        let p0 = p.begin("USER_RIGHTS "@ + v.name);
        lemma_user_rights_body(v, p0, f);
        lemma_user_rights_opening(v, p0, f);
        let p1 = user_rights_opening(v, p0);
        lemma_user_rights_shown_0(v, p1, f);
        let p2 = user_rights_pages_0(v, p1);
        let hx = Seq::<Tok>::empty();
        let from = user_rights_from_0(v);
        lemma_shows_join(p0, p1, p2, hx, from);
        lemma_children_shown::<UserRightsChild>(v.children, false, p2, f);
        lemma_shapes_sound::<UserRightsChild>(v.children, p, f);
        let q = children_written::<UserRightsChild>(v.children, 0, false, p2)->Ok_0;
        let kids = shapes::<UserRightsChild>(v.children);
        let y = blocks_tokens(kids, 0);
        lemma_shows_join(p0, p2, q, hx + from, y);
        let x = user_rights_head(v) + from;
        lemma_shape_tokens(x, kids);
        lemma_all_params_join(user_rights_head(v), from);
        lemma_sound_shape("USER_RIGHTS"@, x, kids);
        assert(user_rights_head(v) =~= h + hx);
        assert(h + (hx + from + y) =~= x + y);
        lemma_shows_block(p, "USER_RIGHTS "@ + v.name, h, "USER_RIGHTS"@, q, hx + from + y, Self::shape(v));
    }

    proof fn law_parsed(v: UserRightsView, tree: Tree, f: Setting) {
        let x = user_rights_head(v) + user_rights_from_0(v);
        let kids = shapes::<UserRightsChild>(v.children);
        lemma_shape_found(tree, "USER_RIGHTS"@, x, kids, f);
        let c = Cur::start(tree);
        lemma_tokens_at_split(c.toks, 0, user_rights_head(v), user_rights_from_0(v));
        lemma_user_rights_head(v, c, f);
        let c1 = Cur { pos: 1, ..c };
        lemma_user_rights_read_0(v, c1, f);
        lemma_children_read::<UserRightsChild>(v.children, children_of(tree.items), f);
    }
}

proof fn lemma_mod_common_next(w: ModCommonView, c: Cur, w2: ModCommonView, c2: Cur)
    requires
        c.left() >= 2,
        0 <= c2.left() < c.left(),
        ModCommon::option(w, c) == Ok::<(ModCommonView, Cur), Failure>((w2, c2)),
    ensures
        ModCommon::options(w, c) == ModCommon::options(w2, c2),
{
}

proof fn lemma_alignment_0(w: ModCommonView, c: Cur, x: i32)
    requires
        0 <= c.pos,
        c.pos + 1 < c.toks.len(),
        bare(c.toks[c.pos]) == plain("ALIGNMENT_BYTE"@),
        bare(c.toks[c.pos + 1]) == plain(dec_int(x as int)),
    ensures
        ModCommon::option(w, c) == Ok::<(ModCommonView, Cur), Failure>(
            (
                ModCommonView { alignments: w.alignments.update(0, x), ..w },
                Cur { pos: c.pos + 2, ..c },
            ),
        ),
{
    reveal_strlit("ALIGNMENT_BYTE");
    reveal_strlit("BYTE_ORDER");
    lemma_differ("ALIGNMENT_BYTE"@, "BYTE_ORDER"@, 0);
    reveal_strlit("DEPOSIT");
    lemma_differ("ALIGNMENT_BYTE"@, "DEPOSIT"@, 0);
    reveal_strlit("DATA_SIZE");
    lemma_differ("ALIGNMENT_BYTE"@, "DATA_SIZE"@, 0);
    lemma_same("ALIGNMENT_BYTE"@);
    law_integer_of_dec(x as int);
}

proof fn lemma_alignment_1(w: ModCommonView, c: Cur, x: i32)
    requires
        0 <= c.pos,
        c.pos + 1 < c.toks.len(),
        bare(c.toks[c.pos]) == plain("ALIGNMENT_WORD"@),
        bare(c.toks[c.pos + 1]) == plain(dec_int(x as int)),
    ensures
        ModCommon::option(w, c) == Ok::<(ModCommonView, Cur), Failure>(
            (
                ModCommonView { alignments: w.alignments.update(1, x), ..w },
                Cur { pos: c.pos + 2, ..c },
            ),
        ),
{
    reveal_strlit("ALIGNMENT_WORD");
    reveal_strlit("BYTE_ORDER");
    lemma_differ("ALIGNMENT_WORD"@, "BYTE_ORDER"@, 0);
    reveal_strlit("DEPOSIT");
    lemma_differ("ALIGNMENT_WORD"@, "DEPOSIT"@, 0);
    reveal_strlit("DATA_SIZE");
    lemma_differ("ALIGNMENT_WORD"@, "DATA_SIZE"@, 0);
    reveal_strlit("ALIGNMENT_BYTE");
    lemma_differ("ALIGNMENT_WORD"@, "ALIGNMENT_BYTE"@, 10);
    lemma_same("ALIGNMENT_WORD"@);
    law_integer_of_dec(x as int);
}

proof fn lemma_alignment_2(w: ModCommonView, c: Cur, x: i32)
    requires
        0 <= c.pos,
        c.pos + 1 < c.toks.len(),
        bare(c.toks[c.pos]) == plain("ALIGNMENT_LONG"@),
        bare(c.toks[c.pos + 1]) == plain(dec_int(x as int)),
    ensures
        ModCommon::option(w, c) == Ok::<(ModCommonView, Cur), Failure>(
            (
                ModCommonView { alignments: w.alignments.update(2, x), ..w },
                Cur { pos: c.pos + 2, ..c },
            ),
        ),
{
    reveal_strlit("ALIGNMENT_LONG");
    reveal_strlit("BYTE_ORDER");
    lemma_differ("ALIGNMENT_LONG"@, "BYTE_ORDER"@, 0);
    reveal_strlit("DEPOSIT");
    lemma_differ("ALIGNMENT_LONG"@, "DEPOSIT"@, 0);
    reveal_strlit("DATA_SIZE");
    lemma_differ("ALIGNMENT_LONG"@, "DATA_SIZE"@, 0);
    reveal_strlit("ALIGNMENT_BYTE");
    lemma_differ("ALIGNMENT_LONG"@, "ALIGNMENT_BYTE"@, 10);
    reveal_strlit("ALIGNMENT_WORD");
    lemma_differ("ALIGNMENT_LONG"@, "ALIGNMENT_WORD"@, 10);
    lemma_same("ALIGNMENT_LONG"@);
    law_integer_of_dec(x as int);
}

proof fn lemma_alignment_3(w: ModCommonView, c: Cur, x: i32)
    requires
        0 <= c.pos,
        c.pos + 1 < c.toks.len(),
        bare(c.toks[c.pos]) == plain("ALIGNMENT_FLOAT32_IEEE"@),
        bare(c.toks[c.pos + 1]) == plain(dec_int(x as int)),
    ensures
        ModCommon::option(w, c) == Ok::<(ModCommonView, Cur), Failure>(
            (
                ModCommonView { alignments: w.alignments.update(3, x), ..w },
                Cur { pos: c.pos + 2, ..c },
            ),
        ),
{
    reveal_strlit("ALIGNMENT_FLOAT32_IEEE");
    reveal_strlit("BYTE_ORDER");
    lemma_differ("ALIGNMENT_FLOAT32_IEEE"@, "BYTE_ORDER"@, 0);
    reveal_strlit("DEPOSIT");
    lemma_differ("ALIGNMENT_FLOAT32_IEEE"@, "DEPOSIT"@, 0);
    reveal_strlit("DATA_SIZE");
    lemma_differ("ALIGNMENT_FLOAT32_IEEE"@, "DATA_SIZE"@, 0);
    reveal_strlit("ALIGNMENT_BYTE");
    lemma_differ("ALIGNMENT_FLOAT32_IEEE"@, "ALIGNMENT_BYTE"@, 0);
    reveal_strlit("ALIGNMENT_WORD");
    lemma_differ("ALIGNMENT_FLOAT32_IEEE"@, "ALIGNMENT_WORD"@, 0);
    reveal_strlit("ALIGNMENT_LONG");
    lemma_differ("ALIGNMENT_FLOAT32_IEEE"@, "ALIGNMENT_LONG"@, 0);
    lemma_same("ALIGNMENT_FLOAT32_IEEE"@);
    law_integer_of_dec(x as int);
}

proof fn lemma_alignment_4(w: ModCommonView, c: Cur, x: i32)
    requires
        0 <= c.pos,
        c.pos + 1 < c.toks.len(),
        bare(c.toks[c.pos]) == plain("ALIGNMENT_FLOAT64_IEEE"@),
        bare(c.toks[c.pos + 1]) == plain(dec_int(x as int)),
    ensures
        ModCommon::option(w, c) == Ok::<(ModCommonView, Cur), Failure>(
            (
                ModCommonView { alignments: w.alignments.update(4, x), ..w },
                Cur { pos: c.pos + 2, ..c },
            ),
        ),
{
    reveal_strlit("ALIGNMENT_FLOAT64_IEEE");
    reveal_strlit("BYTE_ORDER");
    lemma_differ("ALIGNMENT_FLOAT64_IEEE"@, "BYTE_ORDER"@, 0);
    reveal_strlit("DEPOSIT");
    lemma_differ("ALIGNMENT_FLOAT64_IEEE"@, "DEPOSIT"@, 0);
    reveal_strlit("DATA_SIZE");
    lemma_differ("ALIGNMENT_FLOAT64_IEEE"@, "DATA_SIZE"@, 0);
    reveal_strlit("ALIGNMENT_BYTE");
    lemma_differ("ALIGNMENT_FLOAT64_IEEE"@, "ALIGNMENT_BYTE"@, 0);
    reveal_strlit("ALIGNMENT_WORD");
    lemma_differ("ALIGNMENT_FLOAT64_IEEE"@, "ALIGNMENT_WORD"@, 0);
    reveal_strlit("ALIGNMENT_LONG");
    lemma_differ("ALIGNMENT_FLOAT64_IEEE"@, "ALIGNMENT_LONG"@, 0);
    reveal_strlit("ALIGNMENT_FLOAT32_IEEE");
    lemma_differ("ALIGNMENT_FLOAT64_IEEE"@, "ALIGNMENT_FLOAT32_IEEE"@, 15);
    lemma_same("ALIGNMENT_FLOAT64_IEEE"@);
    law_integer_of_dec(x as int);
}

proof fn lemma_alignment_5(w: ModCommonView, c: Cur, x: i32)
    requires
        0 <= c.pos,
        c.pos + 1 < c.toks.len(),
        bare(c.toks[c.pos]) == plain("ALIGNMENT_INT64"@),
        bare(c.toks[c.pos + 1]) == plain(dec_int(x as int)),
    ensures
        ModCommon::option(w, c) == Ok::<(ModCommonView, Cur), Failure>(
            (
                ModCommonView { alignments: w.alignments.update(5, x), ..w },
                Cur { pos: c.pos + 2, ..c },
            ),
        ),
{
    reveal_strlit("ALIGNMENT_INT64");
    reveal_strlit("BYTE_ORDER");
    lemma_differ("ALIGNMENT_INT64"@, "BYTE_ORDER"@, 0);
    reveal_strlit("DEPOSIT");
    lemma_differ("ALIGNMENT_INT64"@, "DEPOSIT"@, 0);
    reveal_strlit("DATA_SIZE");
    lemma_differ("ALIGNMENT_INT64"@, "DATA_SIZE"@, 0);
    reveal_strlit("ALIGNMENT_BYTE");
    lemma_differ("ALIGNMENT_INT64"@, "ALIGNMENT_BYTE"@, 0);
    reveal_strlit("ALIGNMENT_WORD");
    lemma_differ("ALIGNMENT_INT64"@, "ALIGNMENT_WORD"@, 0);
    reveal_strlit("ALIGNMENT_LONG");
    lemma_differ("ALIGNMENT_INT64"@, "ALIGNMENT_LONG"@, 0);
    reveal_strlit("ALIGNMENT_FLOAT32_IEEE");
    lemma_differ("ALIGNMENT_INT64"@, "ALIGNMENT_FLOAT32_IEEE"@, 0);
    reveal_strlit("ALIGNMENT_FLOAT64_IEEE");
    lemma_differ("ALIGNMENT_INT64"@, "ALIGNMENT_FLOAT64_IEEE"@, 0);
    lemma_same("ALIGNMENT_INT64"@);
    law_integer_of_dec(x as int);
}

proof fn lemma_alignment_6(w: ModCommonView, c: Cur, x: i32)
    requires
        0 <= c.pos,
        c.pos + 1 < c.toks.len(),
        bare(c.toks[c.pos]) == plain("ALIGNMENT_FLOAT16_IEEE"@),
        bare(c.toks[c.pos + 1]) == plain(dec_int(x as int)),
    ensures
        ModCommon::option(w, c) == Ok::<(ModCommonView, Cur), Failure>(
            (
                ModCommonView { alignments: w.alignments.update(6, x), ..w },
                Cur { pos: c.pos + 2, ..c },
            ),
        ),
{
    reveal_strlit("ALIGNMENT_FLOAT16_IEEE");
    reveal_strlit("BYTE_ORDER");
    lemma_differ("ALIGNMENT_FLOAT16_IEEE"@, "BYTE_ORDER"@, 0);
    reveal_strlit("DEPOSIT");
    lemma_differ("ALIGNMENT_FLOAT16_IEEE"@, "DEPOSIT"@, 0);
    reveal_strlit("DATA_SIZE");
    lemma_differ("ALIGNMENT_FLOAT16_IEEE"@, "DATA_SIZE"@, 0);
    reveal_strlit("ALIGNMENT_BYTE");
    lemma_differ("ALIGNMENT_FLOAT16_IEEE"@, "ALIGNMENT_BYTE"@, 0);
    reveal_strlit("ALIGNMENT_WORD");
    lemma_differ("ALIGNMENT_FLOAT16_IEEE"@, "ALIGNMENT_WORD"@, 0);
    reveal_strlit("ALIGNMENT_LONG");
    lemma_differ("ALIGNMENT_FLOAT16_IEEE"@, "ALIGNMENT_LONG"@, 0);
    reveal_strlit("ALIGNMENT_FLOAT32_IEEE");
    lemma_differ("ALIGNMENT_FLOAT16_IEEE"@, "ALIGNMENT_FLOAT32_IEEE"@, 15);
    reveal_strlit("ALIGNMENT_FLOAT64_IEEE");
    lemma_differ("ALIGNMENT_FLOAT16_IEEE"@, "ALIGNMENT_FLOAT64_IEEE"@, 15);
    reveal_strlit("ALIGNMENT_INT64");
    lemma_differ("ALIGNMENT_FLOAT16_IEEE"@, "ALIGNMENT_INT64"@, 0);
    lemma_same("ALIGNMENT_FLOAT16_IEEE"@);
    law_integer_of_dec(x as int);
}

/// The parameters at the start of the block.
pub open spec fn mod_common_head(v: ModCommonView) -> Seq<Tok> {
    seq![string(escaped(v.comment->Some_0))]
}

/// The parameters of `BYTE_ORDER`.
#[verifier::opaque]
pub open spec fn mod_common_part_0(v: ModCommonView) -> Seq<Tok> {
    if v.byte_order.word() is Some {
        seq![plain("BYTE_ORDER"@), plain(v.byte_order.word()->Some_0)]
    } else { Seq::<Tok>::empty() }
}

/// The parameters from `BYTE_ORDER` on.
pub open spec fn mod_common_from_0(v: ModCommonView) -> Seq<Tok> {
    mod_common_part_0(v) + mod_common_from_1(v)
}

/// What is written for `BYTE_ORDER`.
#[verifier::opaque]
pub open spec fn mod_common_page_0(v: ModCommonView, p: Page) -> Page {
    match v.byte_order.word() { Some(kw) => p.word("BYTE_ORDER"@, kw), None => p }
}

/// What is written from `BYTE_ORDER` on.
pub open spec fn mod_common_pages_0(v: ModCommonView, p: Page) -> Page {
    mod_common_pages_1(v, mod_common_page_0(v, p))
}

/// The parameters of `DEPOSIT`.
#[verifier::opaque]
pub open spec fn mod_common_part_1(v: ModCommonView) -> Seq<Tok> {
    if v.deposit.word() is Some {
        seq![plain("DEPOSIT"@), plain(v.deposit.word()->Some_0)]
    } else { Seq::<Tok>::empty() }
}

/// The parameters from `DEPOSIT` on.
pub open spec fn mod_common_from_1(v: ModCommonView) -> Seq<Tok> {
    mod_common_part_1(v) + mod_common_from_2(v)
}

/// What is written for `DEPOSIT`.
#[verifier::opaque]
pub open spec fn mod_common_page_1(v: ModCommonView, p: Page) -> Page {
    match v.deposit.word() { Some(kw) => p.word("DEPOSIT"@, kw), None => p }
}

/// What is written from `DEPOSIT` on.
pub open spec fn mod_common_pages_1(v: ModCommonView, p: Page) -> Page {
    mod_common_pages_2(v, mod_common_page_1(v, p))
}

/// The parameters of `DATA_SIZE`.
#[verifier::opaque]
pub open spec fn mod_common_part_2(v: ModCommonView) -> Seq<Tok> {
    if v.data_size is Some {
        seq![plain("DATA_SIZE"@), plain(dec_int(v.data_size->Some_0 as int))]
    } else { Seq::<Tok>::empty() }
}

/// The parameters from `DATA_SIZE` on.
pub open spec fn mod_common_from_2(v: ModCommonView) -> Seq<Tok> {
    mod_common_part_2(v) + mod_common_from_3(v)
}

/// What is written for `DATA_SIZE`.
#[verifier::opaque]
pub open spec fn mod_common_page_2(v: ModCommonView, p: Page) -> Page {
    match v.data_size { Some(x) if x > 0 => p.word("DATA_SIZE"@, dec_int(x as int)), _ => p }
}

/// What is written from `DATA_SIZE` on.
pub open spec fn mod_common_pages_2(v: ModCommonView, p: Page) -> Page {
    mod_common_pages_3(v, mod_common_page_2(v, p))
}

/// The parameters behind the last keyword.
pub open spec fn mod_common_from_3(v: ModCommonView) -> Seq<Tok> {
    seq![
        plain("ALIGNMENT_BYTE"@),
        plain(dec_int(v.alignments[0] as int)),
        plain("ALIGNMENT_WORD"@),
        plain(dec_int(v.alignments[1] as int)),
        plain("ALIGNMENT_LONG"@),
        plain(dec_int(v.alignments[2] as int)),
        plain("ALIGNMENT_FLOAT32_IEEE"@),
        plain(dec_int(v.alignments[3] as int)),
        plain("ALIGNMENT_FLOAT64_IEEE"@),
        plain(dec_int(v.alignments[4] as int)),
        plain("ALIGNMENT_INT64"@),
        plain(dec_int(v.alignments[5] as int)),
        plain("ALIGNMENT_FLOAT16_IEEE"@),
        plain(dec_int(v.alignments[6] as int))
    ]
}

/// What is written behind the last keyword.
pub open spec fn mod_common_pages_3(v: ModCommonView, p: Page) -> Page {
    {
        let p = p.word("ALIGNMENT_BYTE"@, dec_int(v.alignments[0] as int));
        let p = p.word("ALIGNMENT_WORD"@, dec_int(v.alignments[1] as int));
        let p = p.word("ALIGNMENT_LONG"@, dec_int(v.alignments[2] as int));
        let p = p.word("ALIGNMENT_FLOAT32_IEEE"@, dec_int(v.alignments[3] as int));
        let p = p.word("ALIGNMENT_FLOAT64_IEEE"@, dec_int(v.alignments[4] as int));
        let p = p.word("ALIGNMENT_INT64"@, dec_int(v.alignments[5] as int));
        let p = p.word("ALIGNMENT_FLOAT16_IEEE"@, dec_int(v.alignments[6] as int));
        p
    }
}

proof fn lemma_mod_common_part_2(v: ModCommonView, p: Page, f: Setting)
    requires
        ModCommon::fits(v, f),
        indents_by_blanks(p),
    ensures
        shows(p, mod_common_page_2(v, p), mod_common_part_2(v)),
        mod_common_page_2(v, p).depth == p.depth,
        mod_common_page_2(v, p).style == p.style,
        all_params(mod_common_part_2(v)),
{
    reveal(mod_common_page_2);
    reveal(mod_common_part_2);
    if v.data_size is Some {
        reveal_strlit("DATA_SIZE");
        assert(is_keyword("DATA_SIZE"@));
        lemma_keyword_param("DATA_SIZE"@);
        lemma_dec_param(v.data_size->Some_0 as int);
        lemma_shows_word(p, "DATA_SIZE"@, dec_int(v.data_size->Some_0 as int));
        reveal_strlit("DATA_SIZE");
        assert(is_keyword("DATA_SIZE"@));
        lemma_keyword_param("DATA_SIZE"@);
        lemma_dec_param(v.data_size->Some_0 as int);
        assert(all_params(seq![plain("DATA_SIZE"@), plain(dec_int(v.data_size->Some_0 as int))]));
        
    } else {
        lemma_shows_nothing(p);
    }
}

proof fn lemma_mod_common_part_1(v: ModCommonView, p: Page, f: Setting)
    requires
        ModCommon::fits(v, f),
        indents_by_blanks(p),
    ensures
        shows(p, mod_common_page_1(v, p), mod_common_part_1(v)),
        mod_common_page_1(v, p).depth == p.depth,
        mod_common_page_1(v, p).style == p.style,
        all_params(mod_common_part_1(v)),
{
    reveal(mod_common_page_1);
    reveal(mod_common_part_1);
    if v.deposit.word() is Some {
        reveal_strlit("DEPOSIT");
        assert(is_keyword("DEPOSIT"@));
        lemma_keyword_param("DEPOSIT"@);
        v.deposit.lemma_word();
        lemma_shows_word(p, "DEPOSIT"@, v.deposit.word()->Some_0);
        reveal_strlit("DEPOSIT");
        assert(is_keyword("DEPOSIT"@));
        lemma_keyword_param("DEPOSIT"@);
        v.deposit.lemma_word();
        assert(all_params(seq![plain("DEPOSIT"@), plain(v.deposit.word()->Some_0)]));
        
    } else {
        lemma_shows_nothing(p);
    }
}

proof fn lemma_mod_common_part_0(v: ModCommonView, p: Page, f: Setting)
    requires
        ModCommon::fits(v, f),
        indents_by_blanks(p),
    ensures
        shows(p, mod_common_page_0(v, p), mod_common_part_0(v)),
        mod_common_page_0(v, p).depth == p.depth,
        mod_common_page_0(v, p).style == p.style,
        all_params(mod_common_part_0(v)),
{
    reveal(mod_common_page_0);
    reveal(mod_common_part_0);
    if v.byte_order.word() is Some {
        reveal_strlit("BYTE_ORDER");
        assert(is_keyword("BYTE_ORDER"@));
        lemma_keyword_param("BYTE_ORDER"@);
        v.byte_order.lemma_word();
        lemma_shows_word(p, "BYTE_ORDER"@, v.byte_order.word()->Some_0);
        reveal_strlit("BYTE_ORDER");
        assert(is_keyword("BYTE_ORDER"@));
        lemma_keyword_param("BYTE_ORDER"@);
        v.byte_order.lemma_word();
        assert(all_params(seq![plain("BYTE_ORDER"@), plain(v.byte_order.word()->Some_0)]));
        
    } else {
        lemma_shows_nothing(p);
    }
}

proof fn lemma_mod_common_shown_3(v: ModCommonView, p: Page, f: Setting)
    requires
        ModCommon::fits(v, f),
        indents_by_blanks(p),
    ensures
        shows(p, mod_common_pages_3(v, p), mod_common_from_3(v)),
        mod_common_pages_3(v, p).depth == p.depth,
        mod_common_pages_3(v, p).style == p.style,
        all_params(mod_common_from_3(v)),
{
    let p0 = p;
    lemma_shows_nothing(p0);
    let x0 = Seq::<Tok>::empty();
    reveal_strlit("ALIGNMENT_BYTE");
    assert(is_keyword("ALIGNMENT_BYTE"@));
    lemma_keyword_param("ALIGNMENT_BYTE"@);
    lemma_dec_param(v.alignments[0] as int);
    lemma_shows_word(p0, "ALIGNMENT_BYTE"@, dec_int(v.alignments[0] as int));
    let p1 = p0.word("ALIGNMENT_BYTE"@, dec_int(v.alignments[0] as int));
    let y0 = seq![plain("ALIGNMENT_BYTE"@), plain(dec_int(v.alignments[0] as int))];
    lemma_shows_join(p0, p0, p1, x0, y0);
    let x1 = x0 + y0;
    reveal_strlit("ALIGNMENT_WORD");
    assert(is_keyword("ALIGNMENT_WORD"@));
    lemma_keyword_param("ALIGNMENT_WORD"@);
    lemma_dec_param(v.alignments[1] as int);
    lemma_shows_word(p1, "ALIGNMENT_WORD"@, dec_int(v.alignments[1] as int));
    let p2 = p1.word("ALIGNMENT_WORD"@, dec_int(v.alignments[1] as int));
    let y1 = seq![plain("ALIGNMENT_WORD"@), plain(dec_int(v.alignments[1] as int))];
    lemma_shows_join(p0, p1, p2, x1, y1);
    let x2 = x1 + y1;
    reveal_strlit("ALIGNMENT_LONG");
    assert(is_keyword("ALIGNMENT_LONG"@));
    lemma_keyword_param("ALIGNMENT_LONG"@);
    lemma_dec_param(v.alignments[2] as int);
    lemma_shows_word(p2, "ALIGNMENT_LONG"@, dec_int(v.alignments[2] as int));
    let p3 = p2.word("ALIGNMENT_LONG"@, dec_int(v.alignments[2] as int));
    let y2 = seq![plain("ALIGNMENT_LONG"@), plain(dec_int(v.alignments[2] as int))];
    lemma_shows_join(p0, p2, p3, x2, y2);
    let x3 = x2 + y2;
    reveal_strlit("ALIGNMENT_FLOAT32_IEEE");
    assert(is_keyword("ALIGNMENT_FLOAT32_IEEE"@));
    lemma_keyword_param("ALIGNMENT_FLOAT32_IEEE"@);
    lemma_dec_param(v.alignments[3] as int);
    lemma_shows_word(p3, "ALIGNMENT_FLOAT32_IEEE"@, dec_int(v.alignments[3] as int));
    let p4 = p3.word("ALIGNMENT_FLOAT32_IEEE"@, dec_int(v.alignments[3] as int));
    let y3 = seq![plain("ALIGNMENT_FLOAT32_IEEE"@), plain(dec_int(v.alignments[3] as int))];
    lemma_shows_join(p0, p3, p4, x3, y3);
    let x4 = x3 + y3;
    reveal_strlit("ALIGNMENT_FLOAT64_IEEE");
    assert(is_keyword("ALIGNMENT_FLOAT64_IEEE"@));
    lemma_keyword_param("ALIGNMENT_FLOAT64_IEEE"@);
    lemma_dec_param(v.alignments[4] as int);
    lemma_shows_word(p4, "ALIGNMENT_FLOAT64_IEEE"@, dec_int(v.alignments[4] as int));
    let p5 = p4.word("ALIGNMENT_FLOAT64_IEEE"@, dec_int(v.alignments[4] as int));
    let y4 = seq![plain("ALIGNMENT_FLOAT64_IEEE"@), plain(dec_int(v.alignments[4] as int))];
    lemma_shows_join(p0, p4, p5, x4, y4);
    let x5 = x4 + y4;
    reveal_strlit("ALIGNMENT_INT64");
    assert(is_keyword("ALIGNMENT_INT64"@));
    lemma_keyword_param("ALIGNMENT_INT64"@);
    lemma_dec_param(v.alignments[5] as int);
    lemma_shows_word(p5, "ALIGNMENT_INT64"@, dec_int(v.alignments[5] as int));
    let p6 = p5.word("ALIGNMENT_INT64"@, dec_int(v.alignments[5] as int));
    let y5 = seq![plain("ALIGNMENT_INT64"@), plain(dec_int(v.alignments[5] as int))];
    lemma_shows_join(p0, p5, p6, x5, y5);
    let x6 = x5 + y5;
    reveal_strlit("ALIGNMENT_FLOAT16_IEEE");
    assert(is_keyword("ALIGNMENT_FLOAT16_IEEE"@));
    lemma_keyword_param("ALIGNMENT_FLOAT16_IEEE"@);
    lemma_dec_param(v.alignments[6] as int);
    lemma_shows_word(p6, "ALIGNMENT_FLOAT16_IEEE"@, dec_int(v.alignments[6] as int));
    let p7 = p6.word("ALIGNMENT_FLOAT16_IEEE"@, dec_int(v.alignments[6] as int));
    let y6 = seq![plain("ALIGNMENT_FLOAT16_IEEE"@), plain(dec_int(v.alignments[6] as int))];
    lemma_shows_join(p0, p6, p7, x6, y6);
    let x7 = x6 + y6;
    assert(x7 =~= mod_common_from_3(v));
}

proof fn lemma_mod_common_shown_2(v: ModCommonView, p: Page, f: Setting)
    requires
        ModCommon::fits(v, f),
        indents_by_blanks(p),
    ensures
        shows(p, mod_common_pages_2(v, p), mod_common_from_2(v)),
        mod_common_pages_2(v, p).depth == p.depth,
        mod_common_pages_2(v, p).style == p.style,
        all_params(mod_common_from_2(v)),
{
    lemma_mod_common_part_2(v, p, f);
    let q = mod_common_page_2(v, p);
    lemma_mod_common_shown_3(v, q, f);
    lemma_shows_join(p, q, mod_common_pages_3(v, q), mod_common_part_2(v), mod_common_from_3(v));
    lemma_all_params_join(mod_common_part_2(v), mod_common_from_3(v));
}

proof fn lemma_mod_common_shown_1(v: ModCommonView, p: Page, f: Setting)
    requires
        ModCommon::fits(v, f),
        indents_by_blanks(p),
    ensures
        shows(p, mod_common_pages_1(v, p), mod_common_from_1(v)),
        mod_common_pages_1(v, p).depth == p.depth,
        mod_common_pages_1(v, p).style == p.style,
        all_params(mod_common_from_1(v)),
{
    lemma_mod_common_part_1(v, p, f);
    let q = mod_common_page_1(v, p);
    lemma_mod_common_shown_2(v, q, f);
    lemma_shows_join(p, q, mod_common_pages_2(v, q), mod_common_part_1(v), mod_common_from_2(v));
    lemma_all_params_join(mod_common_part_1(v), mod_common_from_2(v));
}

proof fn lemma_mod_common_shown_0(v: ModCommonView, p: Page, f: Setting)
    requires
        ModCommon::fits(v, f),
        indents_by_blanks(p),
    ensures
        shows(p, mod_common_pages_0(v, p), mod_common_from_0(v)),
        mod_common_pages_0(v, p).depth == p.depth,
        mod_common_pages_0(v, p).style == p.style,
        all_params(mod_common_from_0(v)),
{
    lemma_mod_common_part_0(v, p, f);
    let q = mod_common_page_0(v, p);
    lemma_mod_common_shown_1(v, q, f);
    lemma_shows_join(p, q, mod_common_pages_1(v, q), mod_common_part_0(v), mod_common_from_1(v));
    lemma_all_params_join(mod_common_part_0(v), mod_common_from_1(v));
}

/// What is written for the parameters at the start.
#[verifier::opaque]
pub open spec fn mod_common_opening(v: ModCommonView, p0: Page) -> Page {
    let p1 = match v.comment { Some(x) => p0.quote_line(x), None => p0.quote_line(""@) };
    p1
}

proof fn lemma_mod_common_opening(v: ModCommonView, p0: Page, f: Setting)
    requires
        ModCommon::fits(v, f),
        indents_by_blanks(p0),
    ensures
        shows(p0, mod_common_opening(v, p0), seq![string(escaped(v.comment->Some_0))]),
        mod_common_opening(v, p0).depth == p0.depth,
        mod_common_opening(v, p0).style == p0.style,
        all_params(mod_common_head(v)),
{
    reveal(mod_common_opening);
    lemma_shows_nothing(p0);
    let x0 = Seq::<Tok>::empty();
    let p1 = match v.comment { Some(x) => p0.quote_line(x), None => p0.quote_line(""@) };
    assert(
        shows(
            p0,
            p1,
            seq![string(escaped(v.comment->Some_0))]
        ) && p1.depth == p0.depth && p1.style == p0.style
    ) by {
        let p = p0;
        lemma_shows_quote_line(p, v.comment->Some_0);
    }
    lemma_shows_join(p0, p0, p1, x0, seq![string(escaped(v.comment->Some_0))]);
    let x1 = x0 + seq![string(escaped(v.comment->Some_0))];
    assert(x1 =~= seq![string(escaped(v.comment->Some_0))]);
    lemma_string_param(v.comment->Some_0);
}

proof fn lemma_mod_common_body(v: ModCommonView, p: Page, f: Setting)
    requires
        ModCommon::fits(v, f),
    ensures
        ModCommon::body(v, p) == Ok::<Page, Stopped>(mod_common_pages_0(v, mod_common_opening(v, p))),
{
    reveal(mod_common_opening);
    let q0 = mod_common_opening(v, p);
    let q1 = match v.byte_order.word() { Some(kw) => q0.word("BYTE_ORDER"@, kw), None => q0 };
    assert(q1 == mod_common_page_0(v, q0)) by {
        reveal(mod_common_page_0);
    }
    let q2 = match v.deposit.word() { Some(kw) => q1.word("DEPOSIT"@, kw), None => q1 };
    assert(q2 == mod_common_page_1(v, q1)) by {
        reveal(mod_common_page_1);
    }
    let q3 = match v.data_size { Some(x) if x > 0 => q2.word("DATA_SIZE"@, dec_int(x as int)), _ => q2 };
    assert(q3 == mod_common_page_2(v, q2)) by {
        reveal(mod_common_page_2);
    }
}

proof fn lemma_mod_common_head(v: ModCommonView, c: Cur, f: Setting)
    requires
        ModCommon::fits(v, f),
        tokens_at(c.toks, c.pos, mod_common_head(v)),
        toks_numbered(c.toks, f),
    ensures
        ModCommon::head(c) == Ok::<(ModCommonView, Cur), Failure>(
            (
                ModCommonView {
                    byte_order: ByteOrder::MSB_LAST,
                    deposit: DepositType::ABSOLUTE,
                    data_size: None,
                    alignments: seq![1i32, 2i32, 4i32, 4i32, 4i32, 8i32, 2i32],
                    ..v
                },
                Cur { pos: c.pos + 1, ..c }
            ),
        ),
{
    law_unescaped_of_escaped(v.comment->Some_0);
    assert(bare(c.toks[c.pos + 0]) == mod_common_head(v)[0]);
}

proof fn lemma_mod_common_step_0(w: ModCommonView, v: ModCommonView, c: Cur, f: Setting)
    requires
        ModCommon::fits(v, f),
        v.byte_order.word() is Some,
        tokens_at(c.toks, c.pos, seq![plain("BYTE_ORDER"@), plain(v.byte_order.word()->Some_0)]),
        toks_numbered(c.toks, f),
    ensures
        ModCommon::option(w, c) == Ok::<(ModCommonView, Cur), Failure>(
            (ModCommonView { byte_order: v.byte_order, ..w }, Cur { pos: c.pos + 2, ..c }),
        ),
{
    reveal_strlit("BYTE_ORDER");
    lemma_same("BYTE_ORDER"@);
    assert(bare(c.toks[c.pos + 0]) == (seq![plain("BYTE_ORDER"@), plain(v.byte_order.word()->Some_0)])[0]);
    assert(bare(c.toks[c.pos + 1]) == (seq![plain("BYTE_ORDER"@), plain(v.byte_order.word()->Some_0)])[1]);
    v.byte_order.law_named_of_word();
    v.byte_order.lemma_word();
}

proof fn lemma_mod_common_step_1(w: ModCommonView, v: ModCommonView, c: Cur, f: Setting)
    requires
        ModCommon::fits(v, f),
        v.deposit.word() is Some,
        tokens_at(c.toks, c.pos, seq![plain("DEPOSIT"@), plain(v.deposit.word()->Some_0)]),
        toks_numbered(c.toks, f),
    ensures
        ModCommon::option(w, c) == Ok::<(ModCommonView, Cur), Failure>(
            (ModCommonView { deposit: v.deposit, ..w }, Cur { pos: c.pos + 2, ..c }),
        ),
{
    reveal_strlit("DEPOSIT");
    reveal_strlit("BYTE_ORDER");
    lemma_differ("DEPOSIT"@, "BYTE_ORDER"@, 0);
    lemma_same("DEPOSIT"@);
    assert(bare(c.toks[c.pos + 0]) == (seq![plain("DEPOSIT"@), plain(v.deposit.word()->Some_0)])[0]);
    assert(bare(c.toks[c.pos + 1]) == (seq![plain("DEPOSIT"@), plain(v.deposit.word()->Some_0)])[1]);
    v.deposit.law_named_of_word();
    v.deposit.lemma_word();
}

proof fn lemma_mod_common_step_2(w: ModCommonView, v: ModCommonView, c: Cur, f: Setting)
    requires
        ModCommon::fits(v, f),
        v.data_size is Some,
        tokens_at(c.toks, c.pos, seq![plain("DATA_SIZE"@), plain(dec_int(v.data_size->Some_0 as int))]),
        toks_numbered(c.toks, f),
    ensures
        ModCommon::option(w, c) == Ok::<(ModCommonView, Cur), Failure>(
            (ModCommonView { data_size: v.data_size, ..w }, Cur { pos: c.pos + 2, ..c }),
        ),
{
    reveal_strlit("DATA_SIZE");
    reveal_strlit("BYTE_ORDER");
    lemma_differ("DATA_SIZE"@, "BYTE_ORDER"@, 0);
    reveal_strlit("DEPOSIT");
    lemma_differ("DATA_SIZE"@, "DEPOSIT"@, 0);
    lemma_same("DATA_SIZE"@);
    assert(bare(c.toks[c.pos + 0]) == (seq![plain("DATA_SIZE"@), plain(dec_int(v.data_size->Some_0 as int))])[0]);
    assert(bare(c.toks[c.pos + 1]) == (seq![plain("DATA_SIZE"@), plain(dec_int(v.data_size->Some_0 as int))])[1]);
    law_integer_of_dec(v.data_size->Some_0 as int);
}

proof fn lemma_mod_common_read_3(v: ModCommonView, c: Cur, f: Setting)
    requires
        ModCommon::fits(v, f),
        tokens_at(c.toks, c.pos, mod_common_from_3(v)),
        c.pos + mod_common_from_3(v).len() == c.toks.len(),
        toks_numbered(c.toks, f),
    ensures
        ModCommon::options(
            ModCommonView { alignments: seq![1i32, 2i32, 4i32, 4i32, 4i32, 8i32, 2i32], ..v },
            c
        ) matches Ok((w, _)) && w == (v),
{
    let c0 = Cur { pos: c.pos + 0, ..c };
    assert(bare(c.toks[c.pos + 0]) == mod_common_from_3(v)[0]);
    assert(bare(c.toks[c.pos + 1]) == mod_common_from_3(v)[1]);
    let a0 = seq![1i32, 2i32, 4i32, 4i32, 4i32, 8i32, 2i32];
    lemma_alignment_0(ModCommonView { alignments: a0, ..v }, c0, v.alignments[0]);
    let c1 = Cur { pos: c.pos + 2, ..c };
    assert(bare(c.toks[c.pos + 2]) == mod_common_from_3(v)[2]);
    assert(bare(c.toks[c.pos + 3]) == mod_common_from_3(v)[3]);
    let a1 = a0.update(0, v.alignments[0]);
    lemma_alignment_1(ModCommonView { alignments: a1, ..v }, c1, v.alignments[1]);
    let c2 = Cur { pos: c.pos + 4, ..c };
    assert(bare(c.toks[c.pos + 4]) == mod_common_from_3(v)[4]);
    assert(bare(c.toks[c.pos + 5]) == mod_common_from_3(v)[5]);
    let a2 = a1.update(1, v.alignments[1]);
    lemma_alignment_2(ModCommonView { alignments: a2, ..v }, c2, v.alignments[2]);
    let c3 = Cur { pos: c.pos + 6, ..c };
    assert(bare(c.toks[c.pos + 6]) == mod_common_from_3(v)[6]);
    assert(bare(c.toks[c.pos + 7]) == mod_common_from_3(v)[7]);
    let a3 = a2.update(2, v.alignments[2]);
    lemma_alignment_3(ModCommonView { alignments: a3, ..v }, c3, v.alignments[3]);
    let c4 = Cur { pos: c.pos + 8, ..c };
    assert(bare(c.toks[c.pos + 8]) == mod_common_from_3(v)[8]);
    assert(bare(c.toks[c.pos + 9]) == mod_common_from_3(v)[9]);
    let a4 = a3.update(3, v.alignments[3]);
    lemma_alignment_4(ModCommonView { alignments: a4, ..v }, c4, v.alignments[4]);
    let c5 = Cur { pos: c.pos + 10, ..c };
    assert(bare(c.toks[c.pos + 10]) == mod_common_from_3(v)[10]);
    assert(bare(c.toks[c.pos + 11]) == mod_common_from_3(v)[11]);
    let a5 = a4.update(4, v.alignments[4]);
    lemma_alignment_5(ModCommonView { alignments: a5, ..v }, c5, v.alignments[5]);
    let c6 = Cur { pos: c.pos + 12, ..c };
    assert(bare(c.toks[c.pos + 12]) == mod_common_from_3(v)[12]);
    assert(bare(c.toks[c.pos + 13]) == mod_common_from_3(v)[13]);
    let a6 = a5.update(5, v.alignments[5]);
    lemma_alignment_6(ModCommonView { alignments: a6, ..v }, c6, v.alignments[6]);
    assert(a6.update(6, v.alignments[6]) =~= v.alignments);
    let c7 = Cur { pos: c.pos + 14, ..c };
    lemma_mod_common_next(ModCommonView { alignments: a0, ..v }, c0, ModCommonView { alignments: a1, ..v }, c1);
    lemma_mod_common_next(ModCommonView { alignments: a1, ..v }, c1, ModCommonView { alignments: a2, ..v }, c2);
    lemma_mod_common_next(ModCommonView { alignments: a2, ..v }, c2, ModCommonView { alignments: a3, ..v }, c3);
    lemma_mod_common_next(ModCommonView { alignments: a3, ..v }, c3, ModCommonView { alignments: a4, ..v }, c4);
    lemma_mod_common_next(ModCommonView { alignments: a4, ..v }, c4, ModCommonView { alignments: a5, ..v }, c5);
    lemma_mod_common_next(ModCommonView { alignments: a5, ..v }, c5, ModCommonView { alignments: a6, ..v }, c6);
    lemma_mod_common_next(
        ModCommonView { alignments: a6, ..v },
        c6,
        ModCommonView { alignments: v.alignments, ..v },
        c7
    );
}

proof fn lemma_mod_common_read_2(v: ModCommonView, c: Cur, f: Setting)
    requires
        ModCommon::fits(v, f),
        tokens_at(c.toks, c.pos, mod_common_from_2(v)),
        c.pos + mod_common_from_2(v).len() == c.toks.len(),
        toks_numbered(c.toks, f),
    ensures
        ModCommon::options(
            ModCommonView {
                data_size: None,
                alignments: seq![1i32, 2i32, 4i32, 4i32, 4i32, 8i32, 2i32],
                ..v
            },
            c
        ) matches Ok((w, _)) && w == (v),
{
    reveal(mod_common_part_2);
    let t = mod_common_part_2(v);
    if v.data_size is Some {
        lemma_tokens_at_split(c.toks, c.pos, t, mod_common_from_3(v));
        let c2 = Cur { pos: c.pos + 2, ..c };
        lemma_mod_common_step_2(
            ModCommonView {
                data_size: None,
                alignments: seq![1i32, 2i32, 4i32, 4i32, 4i32, 8i32, 2i32],
                ..v
            },
            v,
            c,
            f
        );
        lemma_mod_common_read_3(v, c2, f);
    } else {
        assert(t + mod_common_from_3(v) =~= mod_common_from_3(v));
        lemma_mod_common_read_3(v, c, f);
    }
}

proof fn lemma_mod_common_read_1(v: ModCommonView, c: Cur, f: Setting)
    requires
        ModCommon::fits(v, f),
        tokens_at(c.toks, c.pos, mod_common_from_1(v)),
        c.pos + mod_common_from_1(v).len() == c.toks.len(),
        toks_numbered(c.toks, f),
    ensures
        ModCommon::options(
            ModCommonView {
                deposit: DepositType::ABSOLUTE,
                data_size: None,
                alignments: seq![1i32, 2i32, 4i32, 4i32, 4i32, 8i32, 2i32],
                ..v
            },
            c
        ) matches Ok((w, _)) && w == (v),
{
    reveal(mod_common_part_1);
    let t = mod_common_part_1(v);
    if v.deposit.word() is Some {
        lemma_tokens_at_split(c.toks, c.pos, t, mod_common_from_2(v));
        let c2 = Cur { pos: c.pos + 2, ..c };
        lemma_mod_common_step_1(
            ModCommonView {
                deposit: DepositType::ABSOLUTE,
                data_size: None,
                alignments: seq![1i32, 2i32, 4i32, 4i32, 4i32, 8i32, 2i32],
                ..v
            },
            v,
            c,
            f
        );
        lemma_mod_common_read_2(v, c2, f);
    } else {
        assert(t + mod_common_from_2(v) =~= mod_common_from_2(v));
        lemma_mod_common_read_2(v, c, f);
    }
}

proof fn lemma_mod_common_read_0(v: ModCommonView, c: Cur, f: Setting)
    requires
        ModCommon::fits(v, f),
        tokens_at(c.toks, c.pos, mod_common_from_0(v)),
        c.pos + mod_common_from_0(v).len() == c.toks.len(),
        toks_numbered(c.toks, f),
    ensures
        ModCommon::options(
            ModCommonView {
                byte_order: ByteOrder::MSB_LAST,
                deposit: DepositType::ABSOLUTE,
                data_size: None,
                alignments: seq![1i32, 2i32, 4i32, 4i32, 4i32, 8i32, 2i32],
                ..v
            },
            c
        ) matches Ok((w, _)) && w == (v),
{
    reveal(mod_common_part_0);
    let t = mod_common_part_0(v);
    if v.byte_order.word() is Some {
        lemma_tokens_at_split(c.toks, c.pos, t, mod_common_from_1(v));
        let c2 = Cur { pos: c.pos + 2, ..c };
        lemma_mod_common_step_0(
            ModCommonView {
                byte_order: ByteOrder::MSB_LAST,
                deposit: DepositType::ABSOLUTE,
                data_size: None,
                alignments: seq![1i32, 2i32, 4i32, 4i32, 4i32, 8i32, 2i32],
                ..v
            },
            v,
            c,
            f
        );
        lemma_mod_common_read_1(v, c2, f);
    } else {
        assert(t + mod_common_from_1(v) =~= mod_common_from_1(v));
        lemma_mod_common_read_1(v, c, f);
    }
}

impl Faithful for ModCommon {
    open spec fn fits(v: ModCommonView, f: Setting) -> bool {
        &&& v.comment is Some
        &&& v.byte_order.word() is Some
        &&& v.deposit.word() is Some
        &&& (v.data_size matches Some(x) ==> x > 0)
        &&& v.alignments.len() == 7
    }

    open spec fn shape(v: ModCommonView) -> Tree {
        shape_of("MOD_COMMON"@, mod_common_head(v) + mod_common_from_0(v), Seq::empty())
    }

    proof fn law_shown(v: ModCommonView, p: Page, f: Setting) {
        reveal_strlit("MOD_COMMON");
        lemma_keyword_word("MOD_COMMON"@);
        lemma_spells_word("MOD_COMMON"@);
        let h = Seq::<Tok>::empty();
        assert(seq![plain("MOD_COMMON"@)] + h =~= seq![plain("MOD_COMMON"@)]);
        crate::a2l::tree_laws::lemma_shows_begin(p, "MOD_COMMON"@, seq![plain("MOD_COMMON"@)] + h);
        let p0 = p.begin("MOD_COMMON"@);
        lemma_mod_common_body(v, p0, f);
        lemma_mod_common_opening(v, p0, f);
        let p1 = mod_common_opening(v, p0);
        lemma_mod_common_shown_0(v, p1, f);
        let p2 = mod_common_pages_0(v, p1);
        let hx = seq![string(escaped(v.comment->Some_0))];
        let from = mod_common_from_0(v);
        lemma_shows_join(p0, p1, p2, hx, from);
        let q = p2;
        let kids = Seq::<Tree>::empty();
        let y = Seq::<Tok>::empty();
        assert(blocks_tokens(kids, 0) =~= y);
        assert(hx + from + y =~= hx + from);
        let x = mod_common_head(v) + from;
        lemma_shape_tokens(x, kids);
        lemma_all_params_join(mod_common_head(v), from);
        lemma_sound_shape("MOD_COMMON"@, x, kids);
        assert(mod_common_head(v) =~= h + hx);
        assert(h + (hx + from + y) =~= x + y);
        lemma_shows_block(p, "MOD_COMMON"@, h, "MOD_COMMON"@, q, hx + from + y, Self::shape(v));
    }

    proof fn law_parsed(v: ModCommonView, tree: Tree, f: Setting) {
        let x = mod_common_head(v) + mod_common_from_0(v);
        let kids = Seq::<Tree>::empty();
        lemma_shape_found(tree, "MOD_COMMON"@, x, kids, f);
        let c = Cur::start(tree);
        lemma_tokens_at_split(c.toks, 0, mod_common_head(v), mod_common_from_0(v));
        lemma_mod_common_head(v, c, f);
        let c1 = Cur { pos: 1, ..c };
        lemma_mod_common_read_0(v, c1, f);
    }
}

impl FaithfulChild for ModParChild {
    open spec fn fits(v: ModParChildView, f: Setting) -> bool {
        match v {
            ModParChildView::CalibrationHandle(n) => <CalibrationHandle as Faithful>::fits(n, f),
            ModParChildView::CalibrationMethod(n) => <CalibrationMethod as Faithful>::fits(n, f),
            ModParChildView::MemoryLayout(n) => <MemoryLayout as Faithful>::fits(n, f),
            ModParChildView::MemorySegment(n) => <MemorySegment as Faithful>::fits(n, f),
            ModParChildView::Unsupported(n) => <UnsupportedNode as FaithfulChild>::fits(n, f) && !same_ignore_case(
                n.keyword,
                "CALIBRATION_HANDLE"@
            ) && !same_ignore_case(n.keyword, "CALIBRATION_METHOD"@) && !same_ignore_case(n.keyword, "MEMORY_LAYOUT"@) && !same_ignore_case(n.keyword, "MEMORY_SEGMENT"@),
        }
    }

    open spec fn shape(v: ModParChildView) -> Tree {
        match v {
            ModParChildView::CalibrationHandle(n) => <CalibrationHandle as Faithful>::shape(n),
            ModParChildView::CalibrationMethod(n) => <CalibrationMethod as Faithful>::shape(n),
            ModParChildView::MemoryLayout(n) => <MemoryLayout as Faithful>::shape(n),
            ModParChildView::MemorySegment(n) => <MemorySegment as Faithful>::shape(n),
            ModParChildView::Unsupported(n) => <UnsupportedNode as FaithfulChild>::shape(n),
        }
    }

    proof fn law_shown(v: ModParChildView, p: Page, f: Setting) {
        match v {
            ModParChildView::CalibrationHandle(n) => {
                lemma_node_shown::<CalibrationHandle>(n, p, f);
            },
            ModParChildView::CalibrationMethod(n) => {
                lemma_node_shown::<CalibrationMethod>(n, p, f);
            },
            ModParChildView::MemoryLayout(n) => {
                lemma_node_shown::<MemoryLayout>(n, p, f);
            },
            ModParChildView::MemorySegment(n) => {
                lemma_node_shown::<MemorySegment>(n, p, f);
            },
            ModParChildView::Unsupported(n) => {
                <UnsupportedNode as FaithfulChild>::law_shown(n, p, f);
            },
        }
    }

    proof fn law_parsed(v: ModParChildView, tree: Tree, f: Setting) {
        match v {
            ModParChildView::CalibrationHandle(n) => {
                reveal_strlit("CALIBRATION_HANDLE");
                lemma_same("CALIBRATION_HANDLE"@);
                assert(bare_tree(tree).keyword == "CALIBRATION_HANDLE"@);
                lemma_node_read::<CalibrationHandle>(n, tree, f);
            },
            ModParChildView::CalibrationMethod(n) => {
                reveal_strlit("CALIBRATION_METHOD");
                reveal_strlit("CALIBRATION_HANDLE");
                lemma_differ("CALIBRATION_METHOD"@, "CALIBRATION_HANDLE"@, 12);
                lemma_same("CALIBRATION_METHOD"@);
                assert(bare_tree(tree).keyword == "CALIBRATION_METHOD"@);
                lemma_node_read::<CalibrationMethod>(n, tree, f);
            },
            ModParChildView::MemoryLayout(n) => {
                reveal_strlit("MEMORY_LAYOUT");
                reveal_strlit("CALIBRATION_HANDLE");
                lemma_differ("MEMORY_LAYOUT"@, "CALIBRATION_HANDLE"@, 0);
                reveal_strlit("CALIBRATION_METHOD");
                lemma_differ("MEMORY_LAYOUT"@, "CALIBRATION_METHOD"@, 0);
                lemma_same("MEMORY_LAYOUT"@);
                assert(bare_tree(tree).keyword == "MEMORY_LAYOUT"@);
                lemma_node_read::<MemoryLayout>(n, tree, f);
            },
            ModParChildView::MemorySegment(n) => {
                reveal_strlit("MEMORY_SEGMENT");
                reveal_strlit("CALIBRATION_HANDLE");
                lemma_differ("MEMORY_SEGMENT"@, "CALIBRATION_HANDLE"@, 0);
                reveal_strlit("CALIBRATION_METHOD");
                lemma_differ("MEMORY_SEGMENT"@, "CALIBRATION_METHOD"@, 0);
                reveal_strlit("MEMORY_LAYOUT");
                lemma_differ("MEMORY_SEGMENT"@, "MEMORY_LAYOUT"@, 0);
                lemma_same("MEMORY_SEGMENT"@);
                assert(bare_tree(tree).keyword == "MEMORY_SEGMENT"@);
                lemma_node_read::<MemorySegment>(n, tree, f);
            },
            ModParChildView::Unsupported(n) => {
                <UnsupportedNode as FaithfulChild>::law_parsed(n, tree, f);
            },
        }
    }
}

/// The parameters at the start of the block.
pub open spec fn mod_par_head(v: ModParView) -> Seq<Tok> {
    seq![string(escaped(v.description->Some_0))]
}

/// The parameters of `VERSION`.
#[verifier::opaque]
pub open spec fn mod_par_part_0(v: ModParView) -> Seq<Tok> {
    if v.version is Some {
        seq![plain("VERSION"@), string(escaped(v.version->Some_0))]
    } else { Seq::<Tok>::empty() }
}

/// The parameters from `VERSION` on.
pub open spec fn mod_par_from_0(v: ModParView) -> Seq<Tok> {
    mod_par_part_0(v) + mod_par_from_1(v)
}

/// What is written for `VERSION`.
#[verifier::opaque]
pub open spec fn mod_par_page_0(v: ModParView, p: Page) -> Page {
    match v.version { Some(x) if x.len() > 0 => p.quote("VERSION"@, x), _ => p }
}

/// What is written from `VERSION` on.
pub open spec fn mod_par_pages_0(v: ModParView, p: Page) -> Page {
    mod_par_pages_1(v, mod_par_page_0(v, p))
}

/// The parameters of `SUPPLIER`.
#[verifier::opaque]
pub open spec fn mod_par_part_1(v: ModParView) -> Seq<Tok> {
    if v.supplier is Some {
        seq![plain("SUPPLIER"@), string(escaped(v.supplier->Some_0))]
    } else { Seq::<Tok>::empty() }
}

/// The parameters from `SUPPLIER` on.
pub open spec fn mod_par_from_1(v: ModParView) -> Seq<Tok> {
    mod_par_part_1(v) + mod_par_from_2(v)
}

/// What is written for `SUPPLIER`.
#[verifier::opaque]
pub open spec fn mod_par_page_1(v: ModParView, p: Page) -> Page {
    match v.supplier { Some(x) if x.len() > 0 => p.quote("SUPPLIER"@, x), _ => p }
}

/// What is written from `SUPPLIER` on.
pub open spec fn mod_par_pages_1(v: ModParView, p: Page) -> Page {
    mod_par_pages_2(v, mod_par_page_1(v, p))
}

/// The parameters of `CUSTOMER`.
#[verifier::opaque]
pub open spec fn mod_par_part_2(v: ModParView) -> Seq<Tok> {
    if v.customer is Some {
        seq![plain("CUSTOMER"@), string(escaped(v.customer->Some_0))]
    } else { Seq::<Tok>::empty() }
}

/// The parameters from `CUSTOMER` on.
pub open spec fn mod_par_from_2(v: ModParView) -> Seq<Tok> {
    mod_par_part_2(v) + mod_par_from_3(v)
}

/// What is written for `CUSTOMER`.
#[verifier::opaque]
pub open spec fn mod_par_page_2(v: ModParView, p: Page) -> Page {
    match v.customer { Some(x) if x.len() > 0 => p.quote("CUSTOMER"@, x), _ => p }
}

/// What is written from `CUSTOMER` on.
pub open spec fn mod_par_pages_2(v: ModParView, p: Page) -> Page {
    mod_par_pages_3(v, mod_par_page_2(v, p))
}

/// The parameters of `CUSTOMER_NO`.
#[verifier::opaque]
pub open spec fn mod_par_part_3(v: ModParView) -> Seq<Tok> {
    if v.customer_no is Some {
        seq![plain("CUSTOMER_NO"@), string(escaped(v.customer_no->Some_0))]
    } else { Seq::<Tok>::empty() }
}

/// The parameters from `CUSTOMER_NO` on.
pub open spec fn mod_par_from_3(v: ModParView) -> Seq<Tok> {
    mod_par_part_3(v) + mod_par_from_4(v)
}

/// What is written for `CUSTOMER_NO`.
#[verifier::opaque]
pub open spec fn mod_par_page_3(v: ModParView, p: Page) -> Page {
    match v.customer_no { Some(x) if x.len() > 0 => p.quote("CUSTOMER_NO"@, x), _ => p }
}

/// What is written from `CUSTOMER_NO` on.
pub open spec fn mod_par_pages_3(v: ModParView, p: Page) -> Page {
    mod_par_pages_4(v, mod_par_page_3(v, p))
}

/// The parameters of `USER`.
#[verifier::opaque]
pub open spec fn mod_par_part_4(v: ModParView) -> Seq<Tok> {
    if v.user is Some { seq![plain("USER"@), string(escaped(v.user->Some_0))] } else { Seq::<Tok>::empty() }
}

/// The parameters from `USER` on.
pub open spec fn mod_par_from_4(v: ModParView) -> Seq<Tok> {
    mod_par_part_4(v) + mod_par_from_5(v)
}

/// What is written for `USER`.
#[verifier::opaque]
pub open spec fn mod_par_page_4(v: ModParView, p: Page) -> Page {
    match v.user { Some(x) if x.len() > 0 => p.quote("USER"@, x), _ => p }
}

/// What is written from `USER` on.
pub open spec fn mod_par_pages_4(v: ModParView, p: Page) -> Page {
    mod_par_pages_5(v, mod_par_page_4(v, p))
}

/// The parameters of `PHONE_NO`.
#[verifier::opaque]
pub open spec fn mod_par_part_5(v: ModParView) -> Seq<Tok> {
    if v.phone_no is Some {
        seq![plain("PHONE_NO"@), string(escaped(v.phone_no->Some_0))]
    } else { Seq::<Tok>::empty() }
}

/// The parameters from `PHONE_NO` on.
pub open spec fn mod_par_from_5(v: ModParView) -> Seq<Tok> {
    mod_par_part_5(v) + mod_par_from_6(v)
}

/// What is written for `PHONE_NO`.
#[verifier::opaque]
pub open spec fn mod_par_page_5(v: ModParView, p: Page) -> Page {
    match v.phone_no { Some(x) if x.len() > 0 => p.quote("PHONE_NO"@, x), _ => p }
}

/// What is written from `PHONE_NO` on.
pub open spec fn mod_par_pages_5(v: ModParView, p: Page) -> Page {
    mod_par_pages_6(v, mod_par_page_5(v, p))
}

/// The parameters of `ECU`.
#[verifier::opaque]
pub open spec fn mod_par_part_6(v: ModParView) -> Seq<Tok> {
    if v.ecu is Some { seq![plain("ECU"@), string(escaped(v.ecu->Some_0))] } else { Seq::<Tok>::empty() }
}

/// The parameters from `ECU` on.
pub open spec fn mod_par_from_6(v: ModParView) -> Seq<Tok> {
    mod_par_part_6(v) + mod_par_from_7(v)
}

/// What is written for `ECU`.
#[verifier::opaque]
pub open spec fn mod_par_page_6(v: ModParView, p: Page) -> Page {
    match v.ecu { Some(x) if x.len() > 0 => p.quote("ECU"@, x), _ => p }
}

/// What is written from `ECU` on.
pub open spec fn mod_par_pages_6(v: ModParView, p: Page) -> Page {
    mod_par_pages_7(v, mod_par_page_6(v, p))
}

/// The parameters of `CPU`.
#[verifier::opaque]
pub open spec fn mod_par_part_7(v: ModParView) -> Seq<Tok> {
    if v.cpu is Some { seq![plain("CPU"@), string(escaped(v.cpu->Some_0))] } else { Seq::<Tok>::empty() }
}

/// The parameters from `CPU` on.
pub open spec fn mod_par_from_7(v: ModParView) -> Seq<Tok> {
    mod_par_part_7(v) + mod_par_from_8(v)
}

/// What is written for `CPU`.
#[verifier::opaque]
pub open spec fn mod_par_page_7(v: ModParView, p: Page) -> Page {
    match v.cpu { Some(x) if x.len() > 0 => p.quote("CPU"@, x), _ => p }
}

/// What is written from `CPU` on.
pub open spec fn mod_par_pages_7(v: ModParView, p: Page) -> Page {
    mod_par_pages_8(v, mod_par_page_7(v, p))
}

/// The parameters of `EPK`.
#[verifier::opaque]
pub open spec fn mod_par_part_8(v: ModParView) -> Seq<Tok> {
    if v.epk is Some { seq![plain("EPK"@), string(escaped(v.epk->Some_0))] } else { Seq::<Tok>::empty() }
}

/// The parameters from `EPK` on.
pub open spec fn mod_par_from_8(v: ModParView) -> Seq<Tok> {
    mod_par_part_8(v) + mod_par_from_9(v)
}

/// What is written for `EPK`.
#[verifier::opaque]
pub open spec fn mod_par_page_8(v: ModParView, p: Page) -> Page {
    match v.epk { Some(x) if x.len() > 0 => p.quote("EPK"@, x), _ => p }
}

/// What is written from `EPK` on.
pub open spec fn mod_par_pages_8(v: ModParView, p: Page) -> Page {
    mod_par_pages_9(v, mod_par_page_8(v, p))
}

/// The parameters of `ADDR_EPK`.
#[verifier::opaque]
pub open spec fn mod_par_part_9(v: ModParView) -> Seq<Tok> {
    if v.epk_address is Some {
        seq![plain("ADDR_EPK"@), plain(hex_form(v.epk_address->Some_0 as nat))]
    } else { Seq::<Tok>::empty() }
}

/// The parameters from `ADDR_EPK` on.
pub open spec fn mod_par_from_9(v: ModParView) -> Seq<Tok> {
    mod_par_part_9(v) + mod_par_from_10(v)
}

/// What is written for `ADDR_EPK`.
#[verifier::opaque]
pub open spec fn mod_par_page_9(v: ModParView, p: Page) -> Page {
    match v.epk_address { Some(x) => p.word("ADDR_EPK"@, hex_form(x as nat)), None => p }
}

/// What is written from `ADDR_EPK` on.
pub open spec fn mod_par_pages_9(v: ModParView, p: Page) -> Page {
    mod_par_pages_10(v, mod_par_page_9(v, p))
}

/// The parameters of `NO_OF_INTERFACES`.
#[verifier::opaque]
pub open spec fn mod_par_part_10(v: ModParView) -> Seq<Tok> {
    if v.no_of_interfaces is Some {
        seq![plain("NO_OF_INTERFACES"@), plain(dec_int(v.no_of_interfaces->Some_0 as int))]
    } else { Seq::<Tok>::empty() }
}

/// The parameters from `NO_OF_INTERFACES` on.
pub open spec fn mod_par_from_10(v: ModParView) -> Seq<Tok> {
    mod_par_part_10(v) + mod_par_from_11(v)
}

/// What is written for `NO_OF_INTERFACES`.
#[verifier::opaque]
pub open spec fn mod_par_page_10(v: ModParView, p: Page) -> Page {
    match v.no_of_interfaces { Some(x) if x > -1 => p.word("NO_OF_INTERFACES"@, dec_int(x as int)), _ => p }
}

/// What is written from `NO_OF_INTERFACES` on.
pub open spec fn mod_par_pages_10(v: ModParView, p: Page) -> Page {
    mod_par_pages_11(v, mod_par_page_10(v, p))
}

/// The parameters of `ECU_CALIBRATION_OFFSET`.
#[verifier::opaque]
pub open spec fn mod_par_part_11(v: ModParView) -> Seq<Tok> {
    if v.ecu_calibration_offset is Some {
        seq![plain("ECU_CALIBRATION_OFFSET"@), plain(dec(v.ecu_calibration_offset->Some_0 as nat))]
    } else { Seq::<Tok>::empty() }
}

/// The parameters from `ECU_CALIBRATION_OFFSET` on.
pub open spec fn mod_par_from_11(v: ModParView) -> Seq<Tok> {
    mod_par_part_11(v) + mod_par_from_12(v)
}

/// What is written for `ECU_CALIBRATION_OFFSET`.
#[verifier::opaque]
pub open spec fn mod_par_page_11(v: ModParView, p: Page) -> Page {
    match v.ecu_calibration_offset {
        Some(x) if x != 0 => p.word("ECU_CALIBRATION_OFFSET"@, dec(x as nat)),
        _ => p
    }
}

/// What is written from `ECU_CALIBRATION_OFFSET` on.
pub open spec fn mod_par_pages_11(v: ModParView, p: Page) -> Page {
    mod_par_pages_12(v, mod_par_page_11(v, p))
}

/// The parameters behind the last keyword.
pub open spec fn mod_par_from_12(v: ModParView) -> Seq<Tok> {
    constant_tokens(v.system_constants)
}

/// What is written behind the last keyword.
pub open spec fn mod_par_pages_12(v: ModParView, p: Page) -> Page {
    constant_lines(v.system_constants, v.system_constants.len() as int, p)
}

/// System constants as tokens.
pub open spec fn constant_tokens(s: Seq<(Seq<char>, Seq<char>)>) -> Seq<Tok> {
    Seq::new(
        3 * s.len(),
        |i: int|
            if i % 3 == 0 {
                plain("SYSTEM_CONSTANT"@)
            } else if i % 3 == 1 {
                string(escaped(s[i / 3].0))
            } else {
                string(escaped(s[i / 3].1))
            },
    )
}

proof fn lemma_constants_shown(s: Seq<(Seq<char>, Seq<char>)>, n: int, p: Page)
    requires
        0 <= n <= s.len(),
        indents_by_blanks(p),
    ensures
        shows(p, constant_lines(s, n, p), constant_tokens(s.subrange(0, n))),
        constant_lines(s, n, p).depth == p.depth,
        constant_lines(s, n, p).style == p.style,
        all_params(constant_tokens(s.subrange(0, n))),
    decreases n,
{
    if n == 0 {
        lemma_shows_nothing(p);
        assert(constant_tokens(s.subrange(0, 0)) =~= Seq::<Tok>::empty());
    } else {
        lemma_constants_shown(s, n - 1, p);
        let q = constant_lines(s, n - 1, p);
        let (k, v) = s[n - 1];
        reveal_strlit("SYSTEM_CONSTANT \"");
        reveal_strlit("SYSTEM_CONSTANT");
        reveal_strlit("\" \"");
        reveal_strlit("\"");
        reveal_strlit(" ");
        lemma_keyword_param("SYSTEM_CONSTANT"@);
        let line = "SYSTEM_CONSTANT \""@ + escaped(k) + "\" \""@ + escaped(v) + "\""@;
        assert(line =~= "SYSTEM_CONSTANT"@ + " "@ + (quoted(k) + " "@ + quoted(v)));
        lemma_spells_quoted(k);
        lemma_spells_quoted(v);
        let a = seq![string(escaped(k))];
        let b = seq![string(escaped(v))];
        lemma_spells_join(quoted(k), a, quoted(v), b);
        lemma_shows_tagged(q, "SYSTEM_CONSTANT"@, quoted(k) + " "@ + quoted(v), a + b);
        let x = constant_tokens(s.subrange(0, n - 1));
        let y = seq![plain("SYSTEM_CONSTANT"@)] + (a + b);
        lemma_shows_join(p, q, q.line(line), x, y);
        lemma_string_param(k);
        lemma_string_param(v);
        assert(all_params(y));
        lemma_all_params_join(x, y);
        assert(x + y =~= constant_tokens(s.subrange(0, n)));
    }
}

proof fn lemma_constant_read(w: ModParView, c: Cur, k: Seq<char>, v: Seq<char>)
    requires
        0 <= c.pos,
        c.pos + 2 < c.toks.len(),
        bare(c.toks[c.pos]) == plain("SYSTEM_CONSTANT"@),
        bare(c.toks[c.pos + 1]) == string(escaped(k)),
        bare(c.toks[c.pos + 2]) == string(escaped(v)),
    ensures
        ModPar::option(w, c) == Ok::<(ModParView, Cur), Failure>(
            (
                ModParView { system_constants: with_entry(w.system_constants, k, v), ..w },
                Cur { pos: c.pos + 3, ..c },
            ),
        ),
{
    reveal_strlit("SYSTEM_CONSTANT");
    reveal_strlit("VERSION");
    lemma_differ("SYSTEM_CONSTANT"@, "VERSION"@, 0);
    reveal_strlit("SUPPLIER");
    lemma_differ("SYSTEM_CONSTANT"@, "SUPPLIER"@, 0);
    reveal_strlit("CUSTOMER");
    lemma_differ("SYSTEM_CONSTANT"@, "CUSTOMER"@, 0);
    reveal_strlit("CUSTOMER_NO");
    lemma_differ("SYSTEM_CONSTANT"@, "CUSTOMER_NO"@, 0);
    reveal_strlit("USER");
    lemma_differ("SYSTEM_CONSTANT"@, "USER"@, 0);
    reveal_strlit("PHONE_NO");
    lemma_differ("SYSTEM_CONSTANT"@, "PHONE_NO"@, 0);
    reveal_strlit("ECU");
    lemma_differ("SYSTEM_CONSTANT"@, "ECU"@, 0);
    reveal_strlit("CPU");
    lemma_differ("SYSTEM_CONSTANT"@, "CPU"@, 0);
    reveal_strlit("EPK");
    lemma_differ("SYSTEM_CONSTANT"@, "EPK"@, 0);
    reveal_strlit("ADDR_EPK");
    lemma_differ("SYSTEM_CONSTANT"@, "ADDR_EPK"@, 0);
    reveal_strlit("NO_OF_INTERFACES");
    lemma_differ("SYSTEM_CONSTANT"@, "NO_OF_INTERFACES"@, 0);
    reveal_strlit("ECU_CALIBRATION_OFFSET");
    lemma_differ("SYSTEM_CONSTANT"@, "ECU_CALIBRATION_OFFSET"@, 0);
    lemma_same("SYSTEM_CONSTANT"@);
    law_unescaped_of_escaped(k);
    law_unescaped_of_escaped(v);
}

proof fn lemma_constants_read(v: ModParView, c: Cur, i: int, f: Setting)
    requires
        ModPar::fits(v, f),
        0 <= i <= v.system_constants.len(),
        tokens_at(c.toks, c.pos, constant_tokens(v.system_constants).skip(3 * i)),
        c.pos + 3 * (v.system_constants.len() - i) == c.toks.len(),
    ensures
        ModPar::options(
            ModParView {
                system_constants: v.system_constants.subrange(0, i),
                children: Seq::empty(),
                ..v
            },
            c,
        ) matches Ok((w, _)) && w == (ModParView { children: Seq::empty(), ..v }),
    decreases v.system_constants.len() - i,
{
    let s = v.system_constants;
    let n = s.len() as int;
    if i < n {
        let t = constant_tokens(s);
        let (k, x) = s[i];
        assert(bare(c.toks[c.pos + 0]) == t.skip(3 * i)[0]);
        assert(bare(c.toks[c.pos + 1]) == t.skip(3 * i)[1]);
        assert(bare(c.toks[c.pos + 2]) == t.skip(3 * i)[2]);
        let w = ModParView { system_constants: s.subrange(0, i), children: Seq::empty(), ..v };
        lemma_constant_read(w, c, k, x);
        let before = s.subrange(0, i);
        assert forall|j: int| 0 <= j < before.len() implies (#[trigger] before[j]).0 != k by {
            assert(before[j] == s[j]);
        }
        lemma_place_new(before, k);
        assert(before.push(s[i]) =~= s.subrange(0, i + 1));
        let c2 = Cur { pos: c.pos + 3, ..c };
        assert forall|j: int| 0 <= j < t.skip(3 * (i + 1)).len() implies bare(
            #[trigger] c2.toks[c2.pos + j],
        ) == t.skip(3 * (i + 1))[j] by {
            assert(bare(c.toks[c.pos + (j + 3)]) == t.skip(3 * i)[j + 3]);
        }
        lemma_constants_read(v, c2, i + 1, f);
    } else {
        assert(s.subrange(0, n) =~= s);
    }
}

proof fn lemma_mod_par_part_11(v: ModParView, p: Page, f: Setting)
    requires
        ModPar::fits(v, f),
        indents_by_blanks(p),
    ensures
        shows(p, mod_par_page_11(v, p), mod_par_part_11(v)),
        mod_par_page_11(v, p).depth == p.depth,
        mod_par_page_11(v, p).style == p.style,
        all_params(mod_par_part_11(v)),
{
    reveal(mod_par_page_11);
    reveal(mod_par_part_11);
    if v.ecu_calibration_offset is Some {
        reveal_strlit("ECU_CALIBRATION_OFFSET");
        assert(is_keyword("ECU_CALIBRATION_OFFSET"@));
        lemma_keyword_param("ECU_CALIBRATION_OFFSET"@);
        lemma_dec_param(v.ecu_calibration_offset->Some_0 as int);
        lemma_shows_word(p, "ECU_CALIBRATION_OFFSET"@, dec(v.ecu_calibration_offset->Some_0 as nat));
        reveal_strlit("ECU_CALIBRATION_OFFSET");
        assert(is_keyword("ECU_CALIBRATION_OFFSET"@));
        lemma_keyword_param("ECU_CALIBRATION_OFFSET"@);
        lemma_dec_param(v.ecu_calibration_offset->Some_0 as int);
        assert(
            all_params(
                seq![
                    plain("ECU_CALIBRATION_OFFSET"@),
                    plain(dec(v.ecu_calibration_offset->Some_0 as nat))
                ]
            )
        );
        
    } else {
        lemma_shows_nothing(p);
    }
}

proof fn lemma_mod_par_part_10(v: ModParView, p: Page, f: Setting)
    requires
        ModPar::fits(v, f),
        indents_by_blanks(p),
    ensures
        shows(p, mod_par_page_10(v, p), mod_par_part_10(v)),
        mod_par_page_10(v, p).depth == p.depth,
        mod_par_page_10(v, p).style == p.style,
        all_params(mod_par_part_10(v)),
{
    reveal(mod_par_page_10);
    reveal(mod_par_part_10);
    if v.no_of_interfaces is Some {
        reveal_strlit("NO_OF_INTERFACES");
        assert(is_keyword("NO_OF_INTERFACES"@));
        lemma_keyword_param("NO_OF_INTERFACES"@);
        lemma_dec_param(v.no_of_interfaces->Some_0 as int);
        lemma_shows_word(p, "NO_OF_INTERFACES"@, dec_int(v.no_of_interfaces->Some_0 as int));
        reveal_strlit("NO_OF_INTERFACES");
        assert(is_keyword("NO_OF_INTERFACES"@));
        lemma_keyword_param("NO_OF_INTERFACES"@);
        lemma_dec_param(v.no_of_interfaces->Some_0 as int);
        assert(all_params(seq![plain("NO_OF_INTERFACES"@), plain(dec_int(v.no_of_interfaces->Some_0 as int))]));
        
    } else {
        lemma_shows_nothing(p);
    }
}

proof fn lemma_mod_par_part_9(v: ModParView, p: Page, f: Setting)
    requires
        ModPar::fits(v, f),
        indents_by_blanks(p),
    ensures
        shows(p, mod_par_page_9(v, p), mod_par_part_9(v)),
        mod_par_page_9(v, p).depth == p.depth,
        mod_par_page_9(v, p).style == p.style,
        all_params(mod_par_part_9(v)),
{
    reveal(mod_par_page_9);
    reveal(mod_par_part_9);
    if v.epk_address is Some {
        reveal_strlit("ADDR_EPK");
        assert(is_keyword("ADDR_EPK"@));
        lemma_keyword_param("ADDR_EPK"@);
        lemma_hex_param(v.epk_address->Some_0 as nat);
        lemma_shows_word(p, "ADDR_EPK"@, hex_form(v.epk_address->Some_0 as nat));
        reveal_strlit("ADDR_EPK");
        assert(is_keyword("ADDR_EPK"@));
        lemma_keyword_param("ADDR_EPK"@);
        lemma_hex_param(v.epk_address->Some_0 as nat);
        assert(all_params(seq![plain("ADDR_EPK"@), plain(hex_form(v.epk_address->Some_0 as nat))]));
        
    } else {
        lemma_shows_nothing(p);
    }
}

proof fn lemma_mod_par_part_8(v: ModParView, p: Page, f: Setting)
    requires
        ModPar::fits(v, f),
        indents_by_blanks(p),
    ensures
        shows(p, mod_par_page_8(v, p), mod_par_part_8(v)),
        mod_par_page_8(v, p).depth == p.depth,
        mod_par_page_8(v, p).style == p.style,
        all_params(mod_par_part_8(v)),
{
    reveal(mod_par_page_8);
    reveal(mod_par_part_8);
    if v.epk is Some {
        reveal_strlit("EPK");
        assert(is_keyword("EPK"@));
        lemma_keyword_param("EPK"@);
        lemma_shows_quote(p, "EPK"@, v.epk->Some_0);
        reveal_strlit("EPK");
        assert(is_keyword("EPK"@));
        lemma_keyword_param("EPK"@);
        lemma_string_param(v.epk->Some_0);
        assert(all_params(seq![plain("EPK"@), string(escaped(v.epk->Some_0))]));
        
    } else {
        lemma_shows_nothing(p);
    }
}

proof fn lemma_mod_par_part_7(v: ModParView, p: Page, f: Setting)
    requires
        ModPar::fits(v, f),
        indents_by_blanks(p),
    ensures
        shows(p, mod_par_page_7(v, p), mod_par_part_7(v)),
        mod_par_page_7(v, p).depth == p.depth,
        mod_par_page_7(v, p).style == p.style,
        all_params(mod_par_part_7(v)),
{
    reveal(mod_par_page_7);
    reveal(mod_par_part_7);
    if v.cpu is Some {
        reveal_strlit("CPU");
        assert(is_keyword("CPU"@));
        lemma_keyword_param("CPU"@);
        lemma_shows_quote(p, "CPU"@, v.cpu->Some_0);
        reveal_strlit("CPU");
        assert(is_keyword("CPU"@));
        lemma_keyword_param("CPU"@);
        lemma_string_param(v.cpu->Some_0);
        assert(all_params(seq![plain("CPU"@), string(escaped(v.cpu->Some_0))]));
        
    } else {
        lemma_shows_nothing(p);
    }
}

proof fn lemma_mod_par_part_6(v: ModParView, p: Page, f: Setting)
    requires
        ModPar::fits(v, f),
        indents_by_blanks(p),
    ensures
        shows(p, mod_par_page_6(v, p), mod_par_part_6(v)),
        mod_par_page_6(v, p).depth == p.depth,
        mod_par_page_6(v, p).style == p.style,
        all_params(mod_par_part_6(v)),
{
    reveal(mod_par_page_6);
    reveal(mod_par_part_6);
    if v.ecu is Some {
        reveal_strlit("ECU");
        assert(is_keyword("ECU"@));
        lemma_keyword_param("ECU"@);
        lemma_shows_quote(p, "ECU"@, v.ecu->Some_0);
        reveal_strlit("ECU");
        assert(is_keyword("ECU"@));
        lemma_keyword_param("ECU"@);
        lemma_string_param(v.ecu->Some_0);
        assert(all_params(seq![plain("ECU"@), string(escaped(v.ecu->Some_0))]));
        
    } else {
        lemma_shows_nothing(p);
    }
}

proof fn lemma_mod_par_part_5(v: ModParView, p: Page, f: Setting)
    requires
        ModPar::fits(v, f),
        indents_by_blanks(p),
    ensures
        shows(p, mod_par_page_5(v, p), mod_par_part_5(v)),
        mod_par_page_5(v, p).depth == p.depth,
        mod_par_page_5(v, p).style == p.style,
        all_params(mod_par_part_5(v)),
{
    reveal(mod_par_page_5);
    reveal(mod_par_part_5);
    if v.phone_no is Some {
        reveal_strlit("PHONE_NO");
        assert(is_keyword("PHONE_NO"@));
        lemma_keyword_param("PHONE_NO"@);
        lemma_shows_quote(p, "PHONE_NO"@, v.phone_no->Some_0);
        reveal_strlit("PHONE_NO");
        assert(is_keyword("PHONE_NO"@));
        lemma_keyword_param("PHONE_NO"@);
        lemma_string_param(v.phone_no->Some_0);
        assert(all_params(seq![plain("PHONE_NO"@), string(escaped(v.phone_no->Some_0))]));
        
    } else {
        lemma_shows_nothing(p);
    }
}

proof fn lemma_mod_par_part_4(v: ModParView, p: Page, f: Setting)
    requires
        ModPar::fits(v, f),
        indents_by_blanks(p),
    ensures
        shows(p, mod_par_page_4(v, p), mod_par_part_4(v)),
        mod_par_page_4(v, p).depth == p.depth,
        mod_par_page_4(v, p).style == p.style,
        all_params(mod_par_part_4(v)),
{
    reveal(mod_par_page_4);
    reveal(mod_par_part_4);
    if v.user is Some {
        reveal_strlit("USER");
        assert(is_keyword("USER"@));
        lemma_keyword_param("USER"@);
        lemma_shows_quote(p, "USER"@, v.user->Some_0);
        reveal_strlit("USER");
        assert(is_keyword("USER"@));
        lemma_keyword_param("USER"@);
        lemma_string_param(v.user->Some_0);
        assert(all_params(seq![plain("USER"@), string(escaped(v.user->Some_0))]));
        
    } else {
        lemma_shows_nothing(p);
    }
}

proof fn lemma_mod_par_part_3(v: ModParView, p: Page, f: Setting)
    requires
        ModPar::fits(v, f),
        indents_by_blanks(p),
    ensures
        shows(p, mod_par_page_3(v, p), mod_par_part_3(v)),
        mod_par_page_3(v, p).depth == p.depth,
        mod_par_page_3(v, p).style == p.style,
        all_params(mod_par_part_3(v)),
{
    reveal(mod_par_page_3);
    reveal(mod_par_part_3);
    if v.customer_no is Some {
        reveal_strlit("CUSTOMER_NO");
        assert(is_keyword("CUSTOMER_NO"@));
        lemma_keyword_param("CUSTOMER_NO"@);
        lemma_shows_quote(p, "CUSTOMER_NO"@, v.customer_no->Some_0);
        reveal_strlit("CUSTOMER_NO");
        assert(is_keyword("CUSTOMER_NO"@));
        lemma_keyword_param("CUSTOMER_NO"@);
        lemma_string_param(v.customer_no->Some_0);
        assert(all_params(seq![plain("CUSTOMER_NO"@), string(escaped(v.customer_no->Some_0))]));
        
    } else {
        lemma_shows_nothing(p);
    }
}

proof fn lemma_mod_par_part_2(v: ModParView, p: Page, f: Setting)
    requires
        ModPar::fits(v, f),
        indents_by_blanks(p),
    ensures
        shows(p, mod_par_page_2(v, p), mod_par_part_2(v)),
        mod_par_page_2(v, p).depth == p.depth,
        mod_par_page_2(v, p).style == p.style,
        all_params(mod_par_part_2(v)),
{
    reveal(mod_par_page_2);
    reveal(mod_par_part_2);
    if v.customer is Some {
        reveal_strlit("CUSTOMER");
        assert(is_keyword("CUSTOMER"@));
        lemma_keyword_param("CUSTOMER"@);
        lemma_shows_quote(p, "CUSTOMER"@, v.customer->Some_0);
        reveal_strlit("CUSTOMER");
        assert(is_keyword("CUSTOMER"@));
        lemma_keyword_param("CUSTOMER"@);
        lemma_string_param(v.customer->Some_0);
        assert(all_params(seq![plain("CUSTOMER"@), string(escaped(v.customer->Some_0))]));
        
    } else {
        lemma_shows_nothing(p);
    }
}

proof fn lemma_mod_par_part_1(v: ModParView, p: Page, f: Setting)
    requires
        ModPar::fits(v, f),
        indents_by_blanks(p),
    ensures
        shows(p, mod_par_page_1(v, p), mod_par_part_1(v)),
        mod_par_page_1(v, p).depth == p.depth,
        mod_par_page_1(v, p).style == p.style,
        all_params(mod_par_part_1(v)),
{
    reveal(mod_par_page_1);
    reveal(mod_par_part_1);
    if v.supplier is Some {
        reveal_strlit("SUPPLIER");
        assert(is_keyword("SUPPLIER"@));
        lemma_keyword_param("SUPPLIER"@);
        lemma_shows_quote(p, "SUPPLIER"@, v.supplier->Some_0);
        reveal_strlit("SUPPLIER");
        assert(is_keyword("SUPPLIER"@));
        lemma_keyword_param("SUPPLIER"@);
        lemma_string_param(v.supplier->Some_0);
        assert(all_params(seq![plain("SUPPLIER"@), string(escaped(v.supplier->Some_0))]));
        
    } else {
        lemma_shows_nothing(p);
    }
}

proof fn lemma_mod_par_part_0(v: ModParView, p: Page, f: Setting)
    requires
        ModPar::fits(v, f),
        indents_by_blanks(p),
    ensures
        shows(p, mod_par_page_0(v, p), mod_par_part_0(v)),
        mod_par_page_0(v, p).depth == p.depth,
        mod_par_page_0(v, p).style == p.style,
        all_params(mod_par_part_0(v)),
{
    reveal(mod_par_page_0);
    reveal(mod_par_part_0);
    if v.version is Some {
        reveal_strlit("VERSION");
        assert(is_keyword("VERSION"@));
        lemma_keyword_param("VERSION"@);
        lemma_shows_quote(p, "VERSION"@, v.version->Some_0);
        reveal_strlit("VERSION");
        assert(is_keyword("VERSION"@));
        lemma_keyword_param("VERSION"@);
        lemma_string_param(v.version->Some_0);
        assert(all_params(seq![plain("VERSION"@), string(escaped(v.version->Some_0))]));
        
    } else {
        lemma_shows_nothing(p);
    }
}

proof fn lemma_mod_par_shown_12(v: ModParView, p: Page, f: Setting)
    requires
        ModPar::fits(v, f),
        indents_by_blanks(p),
    ensures
        shows(p, mod_par_pages_12(v, p), mod_par_from_12(v)),
        mod_par_pages_12(v, p).depth == p.depth,
        mod_par_pages_12(v, p).style == p.style,
        all_params(mod_par_from_12(v)),
{
    lemma_constants_shown(v.system_constants, v.system_constants.len() as int, p);
    assert(v.system_constants.subrange(0, v.system_constants.len() as int) =~= v.system_constants);
}

proof fn lemma_mod_par_shown_11(v: ModParView, p: Page, f: Setting)
    requires
        ModPar::fits(v, f),
        indents_by_blanks(p),
    ensures
        shows(p, mod_par_pages_11(v, p), mod_par_from_11(v)),
        mod_par_pages_11(v, p).depth == p.depth,
        mod_par_pages_11(v, p).style == p.style,
        all_params(mod_par_from_11(v)),
{
    lemma_mod_par_part_11(v, p, f);
    let q = mod_par_page_11(v, p);
    lemma_mod_par_shown_12(v, q, f);
    lemma_shows_join(p, q, mod_par_pages_12(v, q), mod_par_part_11(v), mod_par_from_12(v));
    lemma_all_params_join(mod_par_part_11(v), mod_par_from_12(v));
}

proof fn lemma_mod_par_shown_10(v: ModParView, p: Page, f: Setting)
    requires
        ModPar::fits(v, f),
        indents_by_blanks(p),
    ensures
        shows(p, mod_par_pages_10(v, p), mod_par_from_10(v)),
        mod_par_pages_10(v, p).depth == p.depth,
        mod_par_pages_10(v, p).style == p.style,
        all_params(mod_par_from_10(v)),
{
    lemma_mod_par_part_10(v, p, f);
    let q = mod_par_page_10(v, p);
    lemma_mod_par_shown_11(v, q, f);
    lemma_shows_join(p, q, mod_par_pages_11(v, q), mod_par_part_10(v), mod_par_from_11(v));
    lemma_all_params_join(mod_par_part_10(v), mod_par_from_11(v));
}

proof fn lemma_mod_par_shown_9(v: ModParView, p: Page, f: Setting)
    requires
        ModPar::fits(v, f),
        indents_by_blanks(p),
    ensures
        shows(p, mod_par_pages_9(v, p), mod_par_from_9(v)),
        mod_par_pages_9(v, p).depth == p.depth,
        mod_par_pages_9(v, p).style == p.style,
        all_params(mod_par_from_9(v)),
{
    lemma_mod_par_part_9(v, p, f);
    let q = mod_par_page_9(v, p);
    lemma_mod_par_shown_10(v, q, f);
    lemma_shows_join(p, q, mod_par_pages_10(v, q), mod_par_part_9(v), mod_par_from_10(v));
    lemma_all_params_join(mod_par_part_9(v), mod_par_from_10(v));
}

proof fn lemma_mod_par_shown_8(v: ModParView, p: Page, f: Setting)
    requires
        ModPar::fits(v, f),
        indents_by_blanks(p),
    ensures
        shows(p, mod_par_pages_8(v, p), mod_par_from_8(v)),
        mod_par_pages_8(v, p).depth == p.depth,
        mod_par_pages_8(v, p).style == p.style,
        all_params(mod_par_from_8(v)),
{
    lemma_mod_par_part_8(v, p, f);
    let q = mod_par_page_8(v, p);
    lemma_mod_par_shown_9(v, q, f);
    lemma_shows_join(p, q, mod_par_pages_9(v, q), mod_par_part_8(v), mod_par_from_9(v));
    lemma_all_params_join(mod_par_part_8(v), mod_par_from_9(v));
}

proof fn lemma_mod_par_shown_7(v: ModParView, p: Page, f: Setting)
    requires
        ModPar::fits(v, f),
        indents_by_blanks(p),
    ensures
        shows(p, mod_par_pages_7(v, p), mod_par_from_7(v)),
        mod_par_pages_7(v, p).depth == p.depth,
        mod_par_pages_7(v, p).style == p.style,
        all_params(mod_par_from_7(v)),
{
    lemma_mod_par_part_7(v, p, f);
    let q = mod_par_page_7(v, p);
    lemma_mod_par_shown_8(v, q, f);
    lemma_shows_join(p, q, mod_par_pages_8(v, q), mod_par_part_7(v), mod_par_from_8(v));
    lemma_all_params_join(mod_par_part_7(v), mod_par_from_8(v));
}

proof fn lemma_mod_par_shown_6(v: ModParView, p: Page, f: Setting)
    requires
        ModPar::fits(v, f),
        indents_by_blanks(p),
    ensures
        shows(p, mod_par_pages_6(v, p), mod_par_from_6(v)),
        mod_par_pages_6(v, p).depth == p.depth,
        mod_par_pages_6(v, p).style == p.style,
        all_params(mod_par_from_6(v)),
{
    lemma_mod_par_part_6(v, p, f);
    let q = mod_par_page_6(v, p);
    lemma_mod_par_shown_7(v, q, f);
    lemma_shows_join(p, q, mod_par_pages_7(v, q), mod_par_part_6(v), mod_par_from_7(v));
    lemma_all_params_join(mod_par_part_6(v), mod_par_from_7(v));
}

proof fn lemma_mod_par_shown_5(v: ModParView, p: Page, f: Setting)
    requires
        ModPar::fits(v, f),
        indents_by_blanks(p),
    ensures
        shows(p, mod_par_pages_5(v, p), mod_par_from_5(v)),
        mod_par_pages_5(v, p).depth == p.depth,
        mod_par_pages_5(v, p).style == p.style,
        all_params(mod_par_from_5(v)),
{
    lemma_mod_par_part_5(v, p, f);
    let q = mod_par_page_5(v, p);
    lemma_mod_par_shown_6(v, q, f);
    lemma_shows_join(p, q, mod_par_pages_6(v, q), mod_par_part_5(v), mod_par_from_6(v));
    lemma_all_params_join(mod_par_part_5(v), mod_par_from_6(v));
}

proof fn lemma_mod_par_shown_4(v: ModParView, p: Page, f: Setting)
    requires
        ModPar::fits(v, f),
        indents_by_blanks(p),
    ensures
        shows(p, mod_par_pages_4(v, p), mod_par_from_4(v)),
        mod_par_pages_4(v, p).depth == p.depth,
        mod_par_pages_4(v, p).style == p.style,
        all_params(mod_par_from_4(v)),
{
    lemma_mod_par_part_4(v, p, f);
    let q = mod_par_page_4(v, p);
    lemma_mod_par_shown_5(v, q, f);
    lemma_shows_join(p, q, mod_par_pages_5(v, q), mod_par_part_4(v), mod_par_from_5(v));
    lemma_all_params_join(mod_par_part_4(v), mod_par_from_5(v));
}

proof fn lemma_mod_par_shown_3(v: ModParView, p: Page, f: Setting)
    requires
        ModPar::fits(v, f),
        indents_by_blanks(p),
    ensures
        shows(p, mod_par_pages_3(v, p), mod_par_from_3(v)),
        mod_par_pages_3(v, p).depth == p.depth,
        mod_par_pages_3(v, p).style == p.style,
        all_params(mod_par_from_3(v)),
{
    lemma_mod_par_part_3(v, p, f);
    let q = mod_par_page_3(v, p);
    lemma_mod_par_shown_4(v, q, f);
    lemma_shows_join(p, q, mod_par_pages_4(v, q), mod_par_part_3(v), mod_par_from_4(v));
    lemma_all_params_join(mod_par_part_3(v), mod_par_from_4(v));
}

proof fn lemma_mod_par_shown_2(v: ModParView, p: Page, f: Setting)
    requires
        ModPar::fits(v, f),
        indents_by_blanks(p),
    ensures
        shows(p, mod_par_pages_2(v, p), mod_par_from_2(v)),
        mod_par_pages_2(v, p).depth == p.depth,
        mod_par_pages_2(v, p).style == p.style,
        all_params(mod_par_from_2(v)),
{
    lemma_mod_par_part_2(v, p, f);
    let q = mod_par_page_2(v, p);
    lemma_mod_par_shown_3(v, q, f);
    lemma_shows_join(p, q, mod_par_pages_3(v, q), mod_par_part_2(v), mod_par_from_3(v));
    lemma_all_params_join(mod_par_part_2(v), mod_par_from_3(v));
}

proof fn lemma_mod_par_shown_1(v: ModParView, p: Page, f: Setting)
    requires
        ModPar::fits(v, f),
        indents_by_blanks(p),
    ensures
        shows(p, mod_par_pages_1(v, p), mod_par_from_1(v)),
        mod_par_pages_1(v, p).depth == p.depth,
        mod_par_pages_1(v, p).style == p.style,
        all_params(mod_par_from_1(v)),
{
    lemma_mod_par_part_1(v, p, f);
    let q = mod_par_page_1(v, p);
    lemma_mod_par_shown_2(v, q, f);
    lemma_shows_join(p, q, mod_par_pages_2(v, q), mod_par_part_1(v), mod_par_from_2(v));
    lemma_all_params_join(mod_par_part_1(v), mod_par_from_2(v));
}

proof fn lemma_mod_par_shown_0(v: ModParView, p: Page, f: Setting)
    requires
        ModPar::fits(v, f),
        indents_by_blanks(p),
    ensures
        shows(p, mod_par_pages_0(v, p), mod_par_from_0(v)),
        mod_par_pages_0(v, p).depth == p.depth,
        mod_par_pages_0(v, p).style == p.style,
        all_params(mod_par_from_0(v)),
{
    lemma_mod_par_part_0(v, p, f);
    let q = mod_par_page_0(v, p);
    lemma_mod_par_shown_1(v, q, f);
    lemma_shows_join(p, q, mod_par_pages_1(v, q), mod_par_part_0(v), mod_par_from_1(v));
    lemma_all_params_join(mod_par_part_0(v), mod_par_from_1(v));
}

/// What is written for the parameters at the start.
#[verifier::opaque]
pub open spec fn mod_par_opening(v: ModParView, p0: Page) -> Page {
    let p1 = match v.description { Some(x) => p0.quote_line(x), None => p0.quote_line(""@) };
    p1
}

proof fn lemma_mod_par_opening(v: ModParView, p0: Page, f: Setting)
    requires
        ModPar::fits(v, f),
        indents_by_blanks(p0),
    ensures
        shows(p0, mod_par_opening(v, p0), seq![string(escaped(v.description->Some_0))]),
        mod_par_opening(v, p0).depth == p0.depth,
        mod_par_opening(v, p0).style == p0.style,
        all_params(mod_par_head(v)),
{
    reveal(mod_par_opening);
    lemma_shows_nothing(p0);
    let x0 = Seq::<Tok>::empty();
    let p1 = match v.description { Some(x) => p0.quote_line(x), None => p0.quote_line(""@) };
    assert(
        shows(
            p0,
            p1,
            seq![string(escaped(v.description->Some_0))]
        ) && p1.depth == p0.depth && p1.style == p0.style
    ) by {
        let p = p0;
        lemma_shows_quote_line(p, v.description->Some_0);
    }
    lemma_shows_join(p0, p0, p1, x0, seq![string(escaped(v.description->Some_0))]);
    let x1 = x0 + seq![string(escaped(v.description->Some_0))];
    assert(x1 =~= seq![string(escaped(v.description->Some_0))]);
    lemma_string_param(v.description->Some_0);
}

proof fn lemma_mod_par_body(v: ModParView, p: Page, f: Setting)
    requires
        ModPar::fits(v, f),
    ensures
        ModPar::body(v, p) == children_written::<ModParChild>(
            v.children,
            0,
            true,
            mod_par_pages_0(v, mod_par_opening(v, p))
        ),
{
    reveal(mod_par_opening);
    let q0 = mod_par_opening(v, p);
    let q1 = match v.version { Some(x) if x.len() > 0 => q0.quote("VERSION"@, x), _ => q0 };
    assert(q1 == mod_par_page_0(v, q0)) by {
        reveal(mod_par_page_0);
    }
    let q2 = match v.supplier { Some(x) if x.len() > 0 => q1.quote("SUPPLIER"@, x), _ => q1 };
    assert(q2 == mod_par_page_1(v, q1)) by {
        reveal(mod_par_page_1);
    }
    let q3 = match v.customer { Some(x) if x.len() > 0 => q2.quote("CUSTOMER"@, x), _ => q2 };
    assert(q3 == mod_par_page_2(v, q2)) by {
        reveal(mod_par_page_2);
    }
    let q4 = match v.customer_no { Some(x) if x.len() > 0 => q3.quote("CUSTOMER_NO"@, x), _ => q3 };
    assert(q4 == mod_par_page_3(v, q3)) by {
        reveal(mod_par_page_3);
    }
    let q5 = match v.user { Some(x) if x.len() > 0 => q4.quote("USER"@, x), _ => q4 };
    assert(q5 == mod_par_page_4(v, q4)) by {
        reveal(mod_par_page_4);
    }
    let q6 = match v.phone_no { Some(x) if x.len() > 0 => q5.quote("PHONE_NO"@, x), _ => q5 };
    assert(q6 == mod_par_page_5(v, q5)) by {
        reveal(mod_par_page_5);
    }
    let q7 = match v.ecu { Some(x) if x.len() > 0 => q6.quote("ECU"@, x), _ => q6 };
    assert(q7 == mod_par_page_6(v, q6)) by {
        reveal(mod_par_page_6);
    }
    let q8 = match v.cpu { Some(x) if x.len() > 0 => q7.quote("CPU"@, x), _ => q7 };
    assert(q8 == mod_par_page_7(v, q7)) by {
        reveal(mod_par_page_7);
    }
    let q9 = match v.epk { Some(x) if x.len() > 0 => q8.quote("EPK"@, x), _ => q8 };
    assert(q9 == mod_par_page_8(v, q8)) by {
        reveal(mod_par_page_8);
    }
    let q10 = match v.epk_address { Some(x) => q9.word("ADDR_EPK"@, hex_form(x as nat)), None => q9 };
    assert(q10 == mod_par_page_9(v, q9)) by {
        reveal(mod_par_page_9);
    }
    let q11 = match v.no_of_interfaces {
        Some(x) if x > -1 => q10.word("NO_OF_INTERFACES"@, dec_int(x as int)),
        _ => q10
    };
    assert(q11 == mod_par_page_10(v, q10)) by {
        reveal(mod_par_page_10);
    }
    let q12 = match v.ecu_calibration_offset {
        Some(x) if x != 0 => q11.word("ECU_CALIBRATION_OFFSET"@, dec(x as nat)),
        _ => q11
    };
    assert(q12 == mod_par_page_11(v, q11)) by {
        reveal(mod_par_page_11);
    }
}

proof fn lemma_mod_par_head(v: ModParView, c: Cur, f: Setting)
    requires
        ModPar::fits(v, f),
        tokens_at(c.toks, c.pos, mod_par_head(v)),
        toks_numbered(c.toks, f),
    ensures
        ModPar::head(c) == Ok::<(ModParView, Cur), Failure>(
            (
                ModParView {
                    version: None,
                    supplier: None,
                    customer: None,
                    customer_no: None,
                    user: None,
                    phone_no: None,
                    ecu: None,
                    cpu: None,
                    epk: None,
                    epk_address: None,
                    no_of_interfaces: None,
                    ecu_calibration_offset: None,
                    children: Seq::empty(),
                    system_constants: Seq::empty(),
                    ..v
                },
                Cur { pos: c.pos + 1, ..c }
            ),
        ),
{
    law_unescaped_of_escaped(v.description->Some_0);
    assert(bare(c.toks[c.pos + 0]) == mod_par_head(v)[0]);
}

proof fn lemma_mod_par_step_0(w: ModParView, v: ModParView, c: Cur, f: Setting)
    requires
        ModPar::fits(v, f),
        v.version is Some,
        tokens_at(c.toks, c.pos, seq![plain("VERSION"@), string(escaped(v.version->Some_0))]),
        toks_numbered(c.toks, f),
    ensures
        ModPar::option(w, c) == Ok::<(ModParView, Cur), Failure>(
            (ModParView { version: v.version, ..w }, Cur { pos: c.pos + 2, ..c }),
        ),
{
    reveal_strlit("VERSION");
    lemma_same("VERSION"@);
    assert(bare(c.toks[c.pos + 0]) == (seq![plain("VERSION"@), string(escaped(v.version->Some_0))])[0]);
    assert(bare(c.toks[c.pos + 1]) == (seq![plain("VERSION"@), string(escaped(v.version->Some_0))])[1]);
    law_unescaped_of_escaped(v.version->Some_0);
}

proof fn lemma_mod_par_step_1(w: ModParView, v: ModParView, c: Cur, f: Setting)
    requires
        ModPar::fits(v, f),
        v.supplier is Some,
        tokens_at(c.toks, c.pos, seq![plain("SUPPLIER"@), string(escaped(v.supplier->Some_0))]),
        toks_numbered(c.toks, f),
    ensures
        ModPar::option(w, c) == Ok::<(ModParView, Cur), Failure>(
            (ModParView { supplier: v.supplier, ..w }, Cur { pos: c.pos + 2, ..c }),
        ),
{
    reveal_strlit("SUPPLIER");
    reveal_strlit("VERSION");
    lemma_differ("SUPPLIER"@, "VERSION"@, 0);
    lemma_same("SUPPLIER"@);
    assert(bare(c.toks[c.pos + 0]) == (seq![plain("SUPPLIER"@), string(escaped(v.supplier->Some_0))])[0]);
    assert(bare(c.toks[c.pos + 1]) == (seq![plain("SUPPLIER"@), string(escaped(v.supplier->Some_0))])[1]);
    law_unescaped_of_escaped(v.supplier->Some_0);
}

proof fn lemma_mod_par_step_2(w: ModParView, v: ModParView, c: Cur, f: Setting)
    requires
        ModPar::fits(v, f),
        v.customer is Some,
        tokens_at(c.toks, c.pos, seq![plain("CUSTOMER"@), string(escaped(v.customer->Some_0))]),
        toks_numbered(c.toks, f),
    ensures
        ModPar::option(w, c) == Ok::<(ModParView, Cur), Failure>(
            (ModParView { customer: v.customer, ..w }, Cur { pos: c.pos + 2, ..c }),
        ),
{
    reveal_strlit("CUSTOMER");
    reveal_strlit("VERSION");
    lemma_differ("CUSTOMER"@, "VERSION"@, 0);
    reveal_strlit("SUPPLIER");
    lemma_differ("CUSTOMER"@, "SUPPLIER"@, 0);
    lemma_same("CUSTOMER"@);
    assert(bare(c.toks[c.pos + 0]) == (seq![plain("CUSTOMER"@), string(escaped(v.customer->Some_0))])[0]);
    assert(bare(c.toks[c.pos + 1]) == (seq![plain("CUSTOMER"@), string(escaped(v.customer->Some_0))])[1]);
    law_unescaped_of_escaped(v.customer->Some_0);
}

proof fn lemma_mod_par_step_3(w: ModParView, v: ModParView, c: Cur, f: Setting)
    requires
        ModPar::fits(v, f),
        v.customer_no is Some,
        tokens_at(c.toks, c.pos, seq![plain("CUSTOMER_NO"@), string(escaped(v.customer_no->Some_0))]),
        toks_numbered(c.toks, f),
    ensures
        ModPar::option(w, c) == Ok::<(ModParView, Cur), Failure>(
            (ModParView { customer_no: v.customer_no, ..w }, Cur { pos: c.pos + 2, ..c }),
        ),
{
    reveal_strlit("CUSTOMER_NO");
    reveal_strlit("VERSION");
    lemma_differ("CUSTOMER_NO"@, "VERSION"@, 0);
    reveal_strlit("SUPPLIER");
    lemma_differ("CUSTOMER_NO"@, "SUPPLIER"@, 0);
    reveal_strlit("CUSTOMER");
    lemma_differ("CUSTOMER_NO"@, "CUSTOMER"@, 0);
    lemma_same("CUSTOMER_NO"@);
    assert(bare(c.toks[c.pos + 0]) == (seq![plain("CUSTOMER_NO"@), string(escaped(v.customer_no->Some_0))])[0]);
    assert(bare(c.toks[c.pos + 1]) == (seq![plain("CUSTOMER_NO"@), string(escaped(v.customer_no->Some_0))])[1]);
    law_unescaped_of_escaped(v.customer_no->Some_0);
}

proof fn lemma_mod_par_step_4(w: ModParView, v: ModParView, c: Cur, f: Setting)
    requires
        ModPar::fits(v, f),
        v.user is Some,
        tokens_at(c.toks, c.pos, seq![plain("USER"@), string(escaped(v.user->Some_0))]),
        toks_numbered(c.toks, f),
    ensures
        ModPar::option(w, c) == Ok::<(ModParView, Cur), Failure>(
            (ModParView { user: v.user, ..w }, Cur { pos: c.pos + 2, ..c }),
        ),
{
    reveal_strlit("USER");
    reveal_strlit("VERSION");
    lemma_differ("USER"@, "VERSION"@, 0);
    reveal_strlit("SUPPLIER");
    lemma_differ("USER"@, "SUPPLIER"@, 0);
    reveal_strlit("CUSTOMER");
    lemma_differ("USER"@, "CUSTOMER"@, 0);
    reveal_strlit("CUSTOMER_NO");
    lemma_differ("USER"@, "CUSTOMER_NO"@, 0);
    lemma_same("USER"@);
    assert(bare(c.toks[c.pos + 0]) == (seq![plain("USER"@), string(escaped(v.user->Some_0))])[0]);
    assert(bare(c.toks[c.pos + 1]) == (seq![plain("USER"@), string(escaped(v.user->Some_0))])[1]);
    law_unescaped_of_escaped(v.user->Some_0);
}

proof fn lemma_mod_par_step_5(w: ModParView, v: ModParView, c: Cur, f: Setting)
    requires
        ModPar::fits(v, f),
        v.phone_no is Some,
        tokens_at(c.toks, c.pos, seq![plain("PHONE_NO"@), string(escaped(v.phone_no->Some_0))]),
        toks_numbered(c.toks, f),
    ensures
        ModPar::option(w, c) == Ok::<(ModParView, Cur), Failure>(
            (ModParView { phone_no: v.phone_no, ..w }, Cur { pos: c.pos + 2, ..c }),
        ),
{
    reveal_strlit("PHONE_NO");
    reveal_strlit("VERSION");
    lemma_differ("PHONE_NO"@, "VERSION"@, 0);
    reveal_strlit("SUPPLIER");
    lemma_differ("PHONE_NO"@, "SUPPLIER"@, 0);
    reveal_strlit("CUSTOMER");
    lemma_differ("PHONE_NO"@, "CUSTOMER"@, 0);
    reveal_strlit("CUSTOMER_NO");
    lemma_differ("PHONE_NO"@, "CUSTOMER_NO"@, 0);
    reveal_strlit("USER");
    lemma_differ("PHONE_NO"@, "USER"@, 0);
    lemma_same("PHONE_NO"@);
    assert(bare(c.toks[c.pos + 0]) == (seq![plain("PHONE_NO"@), string(escaped(v.phone_no->Some_0))])[0]);
    assert(bare(c.toks[c.pos + 1]) == (seq![plain("PHONE_NO"@), string(escaped(v.phone_no->Some_0))])[1]);
    law_unescaped_of_escaped(v.phone_no->Some_0);
}

proof fn lemma_mod_par_step_6(w: ModParView, v: ModParView, c: Cur, f: Setting)
    requires
        ModPar::fits(v, f),
        v.ecu is Some,
        tokens_at(c.toks, c.pos, seq![plain("ECU"@), string(escaped(v.ecu->Some_0))]),
        toks_numbered(c.toks, f),
    ensures
        ModPar::option(w, c) == Ok::<(ModParView, Cur), Failure>(
            (ModParView { ecu: v.ecu, ..w }, Cur { pos: c.pos + 2, ..c }),
        ),
{
    reveal_strlit("ECU");
    reveal_strlit("VERSION");
    lemma_differ("ECU"@, "VERSION"@, 0);
    reveal_strlit("SUPPLIER");
    lemma_differ("ECU"@, "SUPPLIER"@, 0);
    reveal_strlit("CUSTOMER");
    lemma_differ("ECU"@, "CUSTOMER"@, 0);
    reveal_strlit("CUSTOMER_NO");
    lemma_differ("ECU"@, "CUSTOMER_NO"@, 0);
    reveal_strlit("USER");
    lemma_differ("ECU"@, "USER"@, 0);
    reveal_strlit("PHONE_NO");
    lemma_differ("ECU"@, "PHONE_NO"@, 0);
    lemma_same("ECU"@);
    assert(bare(c.toks[c.pos + 0]) == (seq![plain("ECU"@), string(escaped(v.ecu->Some_0))])[0]);
    assert(bare(c.toks[c.pos + 1]) == (seq![plain("ECU"@), string(escaped(v.ecu->Some_0))])[1]);
    law_unescaped_of_escaped(v.ecu->Some_0);
}

proof fn lemma_mod_par_step_7(w: ModParView, v: ModParView, c: Cur, f: Setting)
    requires
        ModPar::fits(v, f),
        v.cpu is Some,
        tokens_at(c.toks, c.pos, seq![plain("CPU"@), string(escaped(v.cpu->Some_0))]),
        toks_numbered(c.toks, f),
    ensures
        ModPar::option(w, c) == Ok::<(ModParView, Cur), Failure>(
            (ModParView { cpu: v.cpu, ..w }, Cur { pos: c.pos + 2, ..c }),
        ),
{
    reveal_strlit("CPU");
    reveal_strlit("VERSION");
    lemma_differ("CPU"@, "VERSION"@, 0);
    reveal_strlit("SUPPLIER");
    lemma_differ("CPU"@, "SUPPLIER"@, 0);
    reveal_strlit("CUSTOMER");
    lemma_differ("CPU"@, "CUSTOMER"@, 0);
    reveal_strlit("CUSTOMER_NO");
    lemma_differ("CPU"@, "CUSTOMER_NO"@, 0);
    reveal_strlit("USER");
    lemma_differ("CPU"@, "USER"@, 0);
    reveal_strlit("PHONE_NO");
    lemma_differ("CPU"@, "PHONE_NO"@, 0);
    reveal_strlit("ECU");
    lemma_differ("CPU"@, "ECU"@, 0);
    lemma_same("CPU"@);
    assert(bare(c.toks[c.pos + 0]) == (seq![plain("CPU"@), string(escaped(v.cpu->Some_0))])[0]);
    assert(bare(c.toks[c.pos + 1]) == (seq![plain("CPU"@), string(escaped(v.cpu->Some_0))])[1]);
    law_unescaped_of_escaped(v.cpu->Some_0);
}

proof fn lemma_mod_par_step_8(w: ModParView, v: ModParView, c: Cur, f: Setting)
    requires
        ModPar::fits(v, f),
        v.epk is Some,
        tokens_at(c.toks, c.pos, seq![plain("EPK"@), string(escaped(v.epk->Some_0))]),
        toks_numbered(c.toks, f),
    ensures
        ModPar::option(w, c) == Ok::<(ModParView, Cur), Failure>(
            (ModParView { epk: v.epk, ..w }, Cur { pos: c.pos + 2, ..c }),
        ),
{
    reveal_strlit("EPK");
    reveal_strlit("VERSION");
    lemma_differ("EPK"@, "VERSION"@, 0);
    reveal_strlit("SUPPLIER");
    lemma_differ("EPK"@, "SUPPLIER"@, 0);
    reveal_strlit("CUSTOMER");
    lemma_differ("EPK"@, "CUSTOMER"@, 0);
    reveal_strlit("CUSTOMER_NO");
    lemma_differ("EPK"@, "CUSTOMER_NO"@, 0);
    reveal_strlit("USER");
    lemma_differ("EPK"@, "USER"@, 0);
    reveal_strlit("PHONE_NO");
    lemma_differ("EPK"@, "PHONE_NO"@, 0);
    reveal_strlit("ECU");
    lemma_differ("EPK"@, "ECU"@, 1);
    reveal_strlit("CPU");
    lemma_differ("EPK"@, "CPU"@, 0);
    lemma_same("EPK"@);
    assert(bare(c.toks[c.pos + 0]) == (seq![plain("EPK"@), string(escaped(v.epk->Some_0))])[0]);
    assert(bare(c.toks[c.pos + 1]) == (seq![plain("EPK"@), string(escaped(v.epk->Some_0))])[1]);
    law_unescaped_of_escaped(v.epk->Some_0);
}

proof fn lemma_mod_par_step_9(w: ModParView, v: ModParView, c: Cur, f: Setting)
    requires
        ModPar::fits(v, f),
        v.epk_address is Some,
        tokens_at(c.toks, c.pos, seq![plain("ADDR_EPK"@), plain(hex_form(v.epk_address->Some_0 as nat))]),
        toks_numbered(c.toks, f),
    ensures
        ModPar::option(w, c) == Ok::<(ModParView, Cur), Failure>(
            (ModParView { epk_address: v.epk_address, ..w }, Cur { pos: c.pos + 2, ..c }),
        ),
{
    reveal_strlit("ADDR_EPK");
    reveal_strlit("VERSION");
    lemma_differ("ADDR_EPK"@, "VERSION"@, 0);
    reveal_strlit("SUPPLIER");
    lemma_differ("ADDR_EPK"@, "SUPPLIER"@, 0);
    reveal_strlit("CUSTOMER");
    lemma_differ("ADDR_EPK"@, "CUSTOMER"@, 0);
    reveal_strlit("CUSTOMER_NO");
    lemma_differ("ADDR_EPK"@, "CUSTOMER_NO"@, 0);
    reveal_strlit("USER");
    lemma_differ("ADDR_EPK"@, "USER"@, 0);
    reveal_strlit("PHONE_NO");
    lemma_differ("ADDR_EPK"@, "PHONE_NO"@, 0);
    reveal_strlit("ECU");
    lemma_differ("ADDR_EPK"@, "ECU"@, 0);
    reveal_strlit("CPU");
    lemma_differ("ADDR_EPK"@, "CPU"@, 0);
    reveal_strlit("EPK");
    lemma_differ("ADDR_EPK"@, "EPK"@, 0);
    lemma_same("ADDR_EPK"@);
    assert(
        bare(c.toks[c.pos + 0]) == (
            seq![plain("ADDR_EPK"@), plain(hex_form(v.epk_address->Some_0 as nat))]
        )[0]
    );
    assert(
        bare(c.toks[c.pos + 1]) == (
            seq![plain("ADDR_EPK"@), plain(hex_form(v.epk_address->Some_0 as nat))]
        )[1]
    );
    law_integer_of_hex(v.epk_address->Some_0 as nat);
}

proof fn lemma_mod_par_step_10(w: ModParView, v: ModParView, c: Cur, f: Setting)
    requires
        ModPar::fits(v, f),
        v.no_of_interfaces is Some,
        tokens_at(
            c.toks,
            c.pos,
            seq![plain("NO_OF_INTERFACES"@), plain(dec_int(v.no_of_interfaces->Some_0 as int))]
        ),
        toks_numbered(c.toks, f),
    ensures
        ModPar::option(w, c) == Ok::<(ModParView, Cur), Failure>(
            (ModParView { no_of_interfaces: v.no_of_interfaces, ..w }, Cur { pos: c.pos + 2, ..c }),
        ),
{
    reveal_strlit("NO_OF_INTERFACES");
    reveal_strlit("VERSION");
    lemma_differ("NO_OF_INTERFACES"@, "VERSION"@, 0);
    reveal_strlit("SUPPLIER");
    lemma_differ("NO_OF_INTERFACES"@, "SUPPLIER"@, 0);
    reveal_strlit("CUSTOMER");
    lemma_differ("NO_OF_INTERFACES"@, "CUSTOMER"@, 0);
    reveal_strlit("CUSTOMER_NO");
    lemma_differ("NO_OF_INTERFACES"@, "CUSTOMER_NO"@, 0);
    reveal_strlit("USER");
    lemma_differ("NO_OF_INTERFACES"@, "USER"@, 0);
    reveal_strlit("PHONE_NO");
    lemma_differ("NO_OF_INTERFACES"@, "PHONE_NO"@, 0);
    reveal_strlit("ECU");
    lemma_differ("NO_OF_INTERFACES"@, "ECU"@, 0);
    reveal_strlit("CPU");
    lemma_differ("NO_OF_INTERFACES"@, "CPU"@, 0);
    reveal_strlit("EPK");
    lemma_differ("NO_OF_INTERFACES"@, "EPK"@, 0);
    reveal_strlit("ADDR_EPK");
    lemma_differ("NO_OF_INTERFACES"@, "ADDR_EPK"@, 0);
    lemma_same("NO_OF_INTERFACES"@);
    assert(
        bare(c.toks[c.pos + 0]) == (
            seq![plain("NO_OF_INTERFACES"@), plain(dec_int(v.no_of_interfaces->Some_0 as int))]
        )[0]
    );
    assert(
        bare(c.toks[c.pos + 1]) == (
            seq![plain("NO_OF_INTERFACES"@), plain(dec_int(v.no_of_interfaces->Some_0 as int))]
        )[1]
    );
    law_integer_of_dec(v.no_of_interfaces->Some_0 as int);
}

proof fn lemma_mod_par_step_11(w: ModParView, v: ModParView, c: Cur, f: Setting)
    requires
        ModPar::fits(v, f),
        v.ecu_calibration_offset is Some,
        tokens_at(
            c.toks,
            c.pos,
            seq![
                plain("ECU_CALIBRATION_OFFSET"@),
                plain(dec(v.ecu_calibration_offset->Some_0 as nat))
            ]
        ),
        toks_numbered(c.toks, f),
    ensures
        ModPar::option(w, c) == Ok::<(ModParView, Cur), Failure>(
            (ModParView { ecu_calibration_offset: v.ecu_calibration_offset, ..w }, Cur { pos: c.pos + 2, ..c }),
        ),
{
    reveal_strlit("ECU_CALIBRATION_OFFSET");
    reveal_strlit("VERSION");
    lemma_differ("ECU_CALIBRATION_OFFSET"@, "VERSION"@, 0);
    reveal_strlit("SUPPLIER");
    lemma_differ("ECU_CALIBRATION_OFFSET"@, "SUPPLIER"@, 0);
    reveal_strlit("CUSTOMER");
    lemma_differ("ECU_CALIBRATION_OFFSET"@, "CUSTOMER"@, 0);
    reveal_strlit("CUSTOMER_NO");
    lemma_differ("ECU_CALIBRATION_OFFSET"@, "CUSTOMER_NO"@, 0);
    reveal_strlit("USER");
    lemma_differ("ECU_CALIBRATION_OFFSET"@, "USER"@, 0);
    reveal_strlit("PHONE_NO");
    lemma_differ("ECU_CALIBRATION_OFFSET"@, "PHONE_NO"@, 0);
    reveal_strlit("ECU");
    lemma_differ("ECU_CALIBRATION_OFFSET"@, "ECU"@, 0);
    reveal_strlit("CPU");
    lemma_differ("ECU_CALIBRATION_OFFSET"@, "CPU"@, 0);
    reveal_strlit("EPK");
    lemma_differ("ECU_CALIBRATION_OFFSET"@, "EPK"@, 0);
    reveal_strlit("ADDR_EPK");
    lemma_differ("ECU_CALIBRATION_OFFSET"@, "ADDR_EPK"@, 0);
    reveal_strlit("NO_OF_INTERFACES");
    lemma_differ("ECU_CALIBRATION_OFFSET"@, "NO_OF_INTERFACES"@, 0);
    lemma_same("ECU_CALIBRATION_OFFSET"@);
    assert(
        bare(c.toks[c.pos + 0]) == (
            seq![
                plain("ECU_CALIBRATION_OFFSET"@),
                plain(dec(v.ecu_calibration_offset->Some_0 as nat))
            ]
        )[0]
    );
    assert(
        bare(c.toks[c.pos + 1]) == (
            seq![
                plain("ECU_CALIBRATION_OFFSET"@),
                plain(dec(v.ecu_calibration_offset->Some_0 as nat))
            ]
        )[1]
    );
    law_integer_of_dec(v.ecu_calibration_offset->Some_0 as int);
}

proof fn lemma_mod_par_read_12(v: ModParView, c: Cur, f: Setting)
    requires
        ModPar::fits(v, f),
        tokens_at(c.toks, c.pos, mod_par_from_12(v)),
        c.pos + mod_par_from_12(v).len() == c.toks.len(),
        toks_numbered(c.toks, f),
    ensures
        ModPar::options(
            ModParView { children: Seq::empty(), system_constants: Seq::empty(), ..v },
            c
        ) matches Ok((w, _)) && w == (ModParView { children: Seq::empty(), ..v }),
{
    assert(constant_tokens(v.system_constants).skip(0) =~= constant_tokens(v.system_constants));
    assert(v.system_constants.subrange(0, 0) =~= Seq::empty());
    lemma_constants_read(v, c, 0, f);
}

proof fn lemma_mod_par_read_11(v: ModParView, c: Cur, f: Setting)
    requires
        ModPar::fits(v, f),
        tokens_at(c.toks, c.pos, mod_par_from_11(v)),
        c.pos + mod_par_from_11(v).len() == c.toks.len(),
        toks_numbered(c.toks, f),
    ensures
        ModPar::options(
            ModParView {
                ecu_calibration_offset: None,
                children: Seq::empty(),
                system_constants: Seq::empty(),
                ..v
            },
            c
        ) matches Ok((w, _)) && w == (ModParView { children: Seq::empty(), ..v }),
{
    reveal(mod_par_part_11);
    let t = mod_par_part_11(v);
    if v.ecu_calibration_offset is Some {
        lemma_tokens_at_split(c.toks, c.pos, t, mod_par_from_12(v));
        let c2 = Cur { pos: c.pos + 2, ..c };
        lemma_mod_par_step_11(
            ModParView {
                ecu_calibration_offset: None,
                children: Seq::empty(),
                system_constants: Seq::empty(),
                ..v
            },
            v,
            c,
            f
        );
        lemma_mod_par_read_12(v, c2, f);
    } else {
        assert(t + mod_par_from_12(v) =~= mod_par_from_12(v));
        lemma_mod_par_read_12(v, c, f);
    }
}

proof fn lemma_mod_par_read_10(v: ModParView, c: Cur, f: Setting)
    requires
        ModPar::fits(v, f),
        tokens_at(c.toks, c.pos, mod_par_from_10(v)),
        c.pos + mod_par_from_10(v).len() == c.toks.len(),
        toks_numbered(c.toks, f),
    ensures
        ModPar::options(
            ModParView {
                no_of_interfaces: None,
                ecu_calibration_offset: None,
                children: Seq::empty(),
                system_constants: Seq::empty(),
                ..v
            },
            c
        ) matches Ok((w, _)) && w == (ModParView { children: Seq::empty(), ..v }),
{
    reveal(mod_par_part_10);
    let t = mod_par_part_10(v);
    if v.no_of_interfaces is Some {
        lemma_tokens_at_split(c.toks, c.pos, t, mod_par_from_11(v));
        let c2 = Cur { pos: c.pos + 2, ..c };
        lemma_mod_par_step_10(
            ModParView {
                no_of_interfaces: None,
                ecu_calibration_offset: None,
                children: Seq::empty(),
                system_constants: Seq::empty(),
                ..v
            },
            v,
            c,
            f
        );
        lemma_mod_par_read_11(v, c2, f);
    } else {
        assert(t + mod_par_from_11(v) =~= mod_par_from_11(v));
        lemma_mod_par_read_11(v, c, f);
    }
}

proof fn lemma_mod_par_read_9(v: ModParView, c: Cur, f: Setting)
    requires
        ModPar::fits(v, f),
        tokens_at(c.toks, c.pos, mod_par_from_9(v)),
        c.pos + mod_par_from_9(v).len() == c.toks.len(),
        toks_numbered(c.toks, f),
    ensures
        ModPar::options(
            ModParView {
                epk_address: None,
                no_of_interfaces: None,
                ecu_calibration_offset: None,
                children: Seq::empty(),
                system_constants: Seq::empty(),
                ..v
            },
            c
        ) matches Ok((w, _)) && w == (ModParView { children: Seq::empty(), ..v }),
{
    reveal(mod_par_part_9);
    let t = mod_par_part_9(v);
    if v.epk_address is Some {
        lemma_tokens_at_split(c.toks, c.pos, t, mod_par_from_10(v));
        let c2 = Cur { pos: c.pos + 2, ..c };
        lemma_mod_par_step_9(
            ModParView {
                epk_address: None,
                no_of_interfaces: None,
                ecu_calibration_offset: None,
                children: Seq::empty(),
                system_constants: Seq::empty(),
                ..v
            },
            v,
            c,
            f
        );
        lemma_mod_par_read_10(v, c2, f);
    } else {
        assert(t + mod_par_from_10(v) =~= mod_par_from_10(v));
        lemma_mod_par_read_10(v, c, f);
    }
}

proof fn lemma_mod_par_read_8(v: ModParView, c: Cur, f: Setting)
    requires
        ModPar::fits(v, f),
        tokens_at(c.toks, c.pos, mod_par_from_8(v)),
        c.pos + mod_par_from_8(v).len() == c.toks.len(),
        toks_numbered(c.toks, f),
    ensures
        ModPar::options(
            ModParView {
                epk: None,
                epk_address: None,
                no_of_interfaces: None,
                ecu_calibration_offset: None,
                children: Seq::empty(),
                system_constants: Seq::empty(),
                ..v
            },
            c
        ) matches Ok((w, _)) && w == (ModParView { children: Seq::empty(), ..v }),
{
    reveal(mod_par_part_8);
    let t = mod_par_part_8(v);
    if v.epk is Some {
        lemma_tokens_at_split(c.toks, c.pos, t, mod_par_from_9(v));
        let c2 = Cur { pos: c.pos + 2, ..c };
        lemma_mod_par_step_8(
            ModParView {
                epk: None,
                epk_address: None,
                no_of_interfaces: None,
                ecu_calibration_offset: None,
                children: Seq::empty(),
                system_constants: Seq::empty(),
                ..v
            },
            v,
            c,
            f
        );
        lemma_mod_par_read_9(v, c2, f);
    } else {
        assert(t + mod_par_from_9(v) =~= mod_par_from_9(v));
        lemma_mod_par_read_9(v, c, f);
    }
}

proof fn lemma_mod_par_read_7(v: ModParView, c: Cur, f: Setting)
    requires
        ModPar::fits(v, f),
        tokens_at(c.toks, c.pos, mod_par_from_7(v)),
        c.pos + mod_par_from_7(v).len() == c.toks.len(),
        toks_numbered(c.toks, f),
    ensures
        ModPar::options(
            ModParView {
                cpu: None,
                epk: None,
                epk_address: None,
                no_of_interfaces: None,
                ecu_calibration_offset: None,
                children: Seq::empty(),
                system_constants: Seq::empty(),
                ..v
            },
            c
        ) matches Ok((w, _)) && w == (ModParView { children: Seq::empty(), ..v }),
{
    reveal(mod_par_part_7);
    let t = mod_par_part_7(v);
    if v.cpu is Some {
        lemma_tokens_at_split(c.toks, c.pos, t, mod_par_from_8(v));
        let c2 = Cur { pos: c.pos + 2, ..c };
        lemma_mod_par_step_7(
            ModParView {
                cpu: None,
                epk: None,
                epk_address: None,
                no_of_interfaces: None,
                ecu_calibration_offset: None,
                children: Seq::empty(),
                system_constants: Seq::empty(),
                ..v
            },
            v,
            c,
            f
        );
        lemma_mod_par_read_8(v, c2, f);
    } else {
        assert(t + mod_par_from_8(v) =~= mod_par_from_8(v));
        lemma_mod_par_read_8(v, c, f);
    }
}

proof fn lemma_mod_par_read_6(v: ModParView, c: Cur, f: Setting)
    requires
        ModPar::fits(v, f),
        tokens_at(c.toks, c.pos, mod_par_from_6(v)),
        c.pos + mod_par_from_6(v).len() == c.toks.len(),
        toks_numbered(c.toks, f),
    ensures
        ModPar::options(
            ModParView {
                ecu: None,
                cpu: None,
                epk: None,
                epk_address: None,
                no_of_interfaces: None,
                ecu_calibration_offset: None,
                children: Seq::empty(),
                system_constants: Seq::empty(),
                ..v
            },
            c
        ) matches Ok((w, _)) && w == (ModParView { children: Seq::empty(), ..v }),
{
    reveal(mod_par_part_6);
    let t = mod_par_part_6(v);
    if v.ecu is Some {
        lemma_tokens_at_split(c.toks, c.pos, t, mod_par_from_7(v));
        let c2 = Cur { pos: c.pos + 2, ..c };
        lemma_mod_par_step_6(
            ModParView {
                ecu: None,
                cpu: None,
                epk: None,
                epk_address: None,
                no_of_interfaces: None,
                ecu_calibration_offset: None,
                children: Seq::empty(),
                system_constants: Seq::empty(),
                ..v
            },
            v,
            c,
            f
        );
        lemma_mod_par_read_7(v, c2, f);
    } else {
        assert(t + mod_par_from_7(v) =~= mod_par_from_7(v));
        lemma_mod_par_read_7(v, c, f);
    }
}

proof fn lemma_mod_par_read_5(v: ModParView, c: Cur, f: Setting)
    requires
        ModPar::fits(v, f),
        tokens_at(c.toks, c.pos, mod_par_from_5(v)),
        c.pos + mod_par_from_5(v).len() == c.toks.len(),
        toks_numbered(c.toks, f),
    ensures
        ModPar::options(
            ModParView {
                phone_no: None,
                ecu: None,
                cpu: None,
                epk: None,
                epk_address: None,
                no_of_interfaces: None,
                ecu_calibration_offset: None,
                children: Seq::empty(),
                system_constants: Seq::empty(),
                ..v
            },
            c
        ) matches Ok((w, _)) && w == (ModParView { children: Seq::empty(), ..v }),
{
    reveal(mod_par_part_5);
    let t = mod_par_part_5(v);
    if v.phone_no is Some {
        lemma_tokens_at_split(c.toks, c.pos, t, mod_par_from_6(v));
        let c2 = Cur { pos: c.pos + 2, ..c };
        lemma_mod_par_step_5(
            ModParView {
                phone_no: None,
                ecu: None,
                cpu: None,
                epk: None,
                epk_address: None,
                no_of_interfaces: None,
                ecu_calibration_offset: None,
                children: Seq::empty(),
                system_constants: Seq::empty(),
                ..v
            },
            v,
            c,
            f
        );
        lemma_mod_par_read_6(v, c2, f);
    } else {
        assert(t + mod_par_from_6(v) =~= mod_par_from_6(v));
        lemma_mod_par_read_6(v, c, f);
    }
}

proof fn lemma_mod_par_read_4(v: ModParView, c: Cur, f: Setting)
    requires
        ModPar::fits(v, f),
        tokens_at(c.toks, c.pos, mod_par_from_4(v)),
        c.pos + mod_par_from_4(v).len() == c.toks.len(),
        toks_numbered(c.toks, f),
    ensures
        ModPar::options(
            ModParView {
                user: None,
                phone_no: None,
                ecu: None,
                cpu: None,
                epk: None,
                epk_address: None,
                no_of_interfaces: None,
                ecu_calibration_offset: None,
                children: Seq::empty(),
                system_constants: Seq::empty(),
                ..v
            },
            c
        ) matches Ok((w, _)) && w == (ModParView { children: Seq::empty(), ..v }),
{
    reveal(mod_par_part_4);
    let t = mod_par_part_4(v);
    if v.user is Some {
        lemma_tokens_at_split(c.toks, c.pos, t, mod_par_from_5(v));
        let c2 = Cur { pos: c.pos + 2, ..c };
        lemma_mod_par_step_4(
            ModParView {
                user: None,
                phone_no: None,
                ecu: None,
                cpu: None,
                epk: None,
                epk_address: None,
                no_of_interfaces: None,
                ecu_calibration_offset: None,
                children: Seq::empty(),
                system_constants: Seq::empty(),
                ..v
            },
            v,
            c,
            f
        );
        lemma_mod_par_read_5(v, c2, f);
    } else {
        assert(t + mod_par_from_5(v) =~= mod_par_from_5(v));
        lemma_mod_par_read_5(v, c, f);
    }
}

proof fn lemma_mod_par_read_3(v: ModParView, c: Cur, f: Setting)
    requires
        ModPar::fits(v, f),
        tokens_at(c.toks, c.pos, mod_par_from_3(v)),
        c.pos + mod_par_from_3(v).len() == c.toks.len(),
        toks_numbered(c.toks, f),
    ensures
        ModPar::options(
            ModParView {
                customer_no: None,
                user: None,
                phone_no: None,
                ecu: None,
                cpu: None,
                epk: None,
                epk_address: None,
                no_of_interfaces: None,
                ecu_calibration_offset: None,
                children: Seq::empty(),
                system_constants: Seq::empty(),
                ..v
            },
            c
        ) matches Ok((w, _)) && w == (ModParView { children: Seq::empty(), ..v }),
{
    reveal(mod_par_part_3);
    let t = mod_par_part_3(v);
    if v.customer_no is Some {
        lemma_tokens_at_split(c.toks, c.pos, t, mod_par_from_4(v));
        let c2 = Cur { pos: c.pos + 2, ..c };
        lemma_mod_par_step_3(
            ModParView {
                customer_no: None,
                user: None,
                phone_no: None,
                ecu: None,
                cpu: None,
                epk: None,
                epk_address: None,
                no_of_interfaces: None,
                ecu_calibration_offset: None,
                children: Seq::empty(),
                system_constants: Seq::empty(),
                ..v
            },
            v,
            c,
            f
        );
        lemma_mod_par_read_4(v, c2, f);
    } else {
        assert(t + mod_par_from_4(v) =~= mod_par_from_4(v));
        lemma_mod_par_read_4(v, c, f);
    }
}

proof fn lemma_mod_par_read_2(v: ModParView, c: Cur, f: Setting)
    requires
        ModPar::fits(v, f),
        tokens_at(c.toks, c.pos, mod_par_from_2(v)),
        c.pos + mod_par_from_2(v).len() == c.toks.len(),
        toks_numbered(c.toks, f),
    ensures
        ModPar::options(
            ModParView {
                customer: None,
                customer_no: None,
                user: None,
                phone_no: None,
                ecu: None,
                cpu: None,
                epk: None,
                epk_address: None,
                no_of_interfaces: None,
                ecu_calibration_offset: None,
                children: Seq::empty(),
                system_constants: Seq::empty(),
                ..v
            },
            c
        ) matches Ok((w, _)) && w == (ModParView { children: Seq::empty(), ..v }),
{
    reveal(mod_par_part_2);
    let t = mod_par_part_2(v);
    if v.customer is Some {
        lemma_tokens_at_split(c.toks, c.pos, t, mod_par_from_3(v));
        let c2 = Cur { pos: c.pos + 2, ..c };
        lemma_mod_par_step_2(
            ModParView {
                customer: None,
                customer_no: None,
                user: None,
                phone_no: None,
                ecu: None,
                cpu: None,
                epk: None,
                epk_address: None,
                no_of_interfaces: None,
                ecu_calibration_offset: None,
                children: Seq::empty(),
                system_constants: Seq::empty(),
                ..v
            },
            v,
            c,
            f
        );
        lemma_mod_par_read_3(v, c2, f);
    } else {
        assert(t + mod_par_from_3(v) =~= mod_par_from_3(v));
        lemma_mod_par_read_3(v, c, f);
    }
}

proof fn lemma_mod_par_read_1(v: ModParView, c: Cur, f: Setting)
    requires
        ModPar::fits(v, f),
        tokens_at(c.toks, c.pos, mod_par_from_1(v)),
        c.pos + mod_par_from_1(v).len() == c.toks.len(),
        toks_numbered(c.toks, f),
    ensures
        ModPar::options(
            ModParView {
                supplier: None,
                customer: None,
                customer_no: None,
                user: None,
                phone_no: None,
                ecu: None,
                cpu: None,
                epk: None,
                epk_address: None,
                no_of_interfaces: None,
                ecu_calibration_offset: None,
                children: Seq::empty(),
                system_constants: Seq::empty(),
                ..v
            },
            c
        ) matches Ok((w, _)) && w == (ModParView { children: Seq::empty(), ..v }),
{
    reveal(mod_par_part_1);
    let t = mod_par_part_1(v);
    if v.supplier is Some {
        lemma_tokens_at_split(c.toks, c.pos, t, mod_par_from_2(v));
        let c2 = Cur { pos: c.pos + 2, ..c };
        lemma_mod_par_step_1(
            ModParView {
                supplier: None,
                customer: None,
                customer_no: None,
                user: None,
                phone_no: None,
                ecu: None,
                cpu: None,
                epk: None,
                epk_address: None,
                no_of_interfaces: None,
                ecu_calibration_offset: None,
                children: Seq::empty(),
                system_constants: Seq::empty(),
                ..v
            },
            v,
            c,
            f
        );
        lemma_mod_par_read_2(v, c2, f);
    } else {
        assert(t + mod_par_from_2(v) =~= mod_par_from_2(v));
        lemma_mod_par_read_2(v, c, f);
    }
}

proof fn lemma_mod_par_read_0(v: ModParView, c: Cur, f: Setting)
    requires
        ModPar::fits(v, f),
        tokens_at(c.toks, c.pos, mod_par_from_0(v)),
        c.pos + mod_par_from_0(v).len() == c.toks.len(),
        toks_numbered(c.toks, f),
    ensures
        ModPar::options(
            ModParView {
                version: None,
                supplier: None,
                customer: None,
                customer_no: None,
                user: None,
                phone_no: None,
                ecu: None,
                cpu: None,
                epk: None,
                epk_address: None,
                no_of_interfaces: None,
                ecu_calibration_offset: None,
                children: Seq::empty(),
                system_constants: Seq::empty(),
                ..v
            },
            c
        ) matches Ok((w, _)) && w == (ModParView { children: Seq::empty(), ..v }),
{
    reveal(mod_par_part_0);
    let t = mod_par_part_0(v);
    if v.version is Some {
        lemma_tokens_at_split(c.toks, c.pos, t, mod_par_from_1(v));
        let c2 = Cur { pos: c.pos + 2, ..c };
        lemma_mod_par_step_0(
            ModParView {
                version: None,
                supplier: None,
                customer: None,
                customer_no: None,
                user: None,
                phone_no: None,
                ecu: None,
                cpu: None,
                epk: None,
                epk_address: None,
                no_of_interfaces: None,
                ecu_calibration_offset: None,
                children: Seq::empty(),
                system_constants: Seq::empty(),
                ..v
            },
            v,
            c,
            f
        );
        lemma_mod_par_read_1(v, c2, f);
    } else {
        assert(t + mod_par_from_1(v) =~= mod_par_from_1(v));
        lemma_mod_par_read_1(v, c, f);
    }
}

impl Faithful for ModPar {
    open spec fn fits(v: ModParView, f: Setting) -> bool {
        &&& v.description is Some
        &&& (v.version matches Some(x) ==> x.len() > 0)
        &&& (v.supplier matches Some(x) ==> x.len() > 0)
        &&& (v.customer matches Some(x) ==> x.len() > 0)
        &&& (v.customer_no matches Some(x) ==> x.len() > 0)
        &&& (v.user matches Some(x) ==> x.len() > 0)
        &&& (v.phone_no matches Some(x) ==> x.len() > 0)
        &&& (v.ecu matches Some(x) ==> x.len() > 0)
        &&& (v.cpu matches Some(x) ==> x.len() > 0)
        &&& (v.epk matches Some(x) ==> x.len() > 0)
        &&& (v.no_of_interfaces matches Some(x) ==> x > -1)
        &&& (v.ecu_calibration_offset matches Some(x) ==> x != 0)
        &&& keys_differ(v.system_constants)
        &&& all_fit::<ModParChild>(v.children, f)
    }

    open spec fn shape(v: ModParView) -> Tree {
        shape_of("MOD_PAR"@, mod_par_head(v) + mod_par_from_0(v), shapes::<ModParChild>(v.children))
    }

    proof fn law_shown(v: ModParView, p: Page, f: Setting) {
        reveal_strlit("MOD_PAR");
        lemma_keyword_word("MOD_PAR"@);
        lemma_spells_word("MOD_PAR"@);
        let h = Seq::<Tok>::empty();
        assert(seq![plain("MOD_PAR"@)] + h =~= seq![plain("MOD_PAR"@)]);
        crate::a2l::tree_laws::lemma_shows_begin(p, "MOD_PAR"@, seq![plain("MOD_PAR"@)] + h);
        let p0 = p.begin("MOD_PAR"@);
        lemma_mod_par_body(v, p0, f);
        lemma_mod_par_opening(v, p0, f);
        let p1 = mod_par_opening(v, p0);
        lemma_mod_par_shown_0(v, p1, f);
        let p2 = mod_par_pages_0(v, p1);
        let hx = seq![string(escaped(v.description->Some_0))];
        let from = mod_par_from_0(v);
        lemma_shows_join(p0, p1, p2, hx, from);
        lemma_children_shown::<ModParChild>(v.children, true, p2, f);
        lemma_shapes_sound::<ModParChild>(v.children, p, f);
        let q = children_written::<ModParChild>(v.children, 0, true, p2)->Ok_0;
        let kids = shapes::<ModParChild>(v.children);
        let y = blocks_tokens(kids, 0);
        lemma_shows_join(p0, p2, q, hx + from, y);
        let x = mod_par_head(v) + from;
        lemma_shape_tokens(x, kids);
        lemma_all_params_join(mod_par_head(v), from);
        lemma_sound_shape("MOD_PAR"@, x, kids);
        assert(mod_par_head(v) =~= h + hx);
        assert(h + (hx + from + y) =~= x + y);
        lemma_shows_block(p, "MOD_PAR"@, h, "MOD_PAR"@, q, hx + from + y, Self::shape(v));
    }

    proof fn law_parsed(v: ModParView, tree: Tree, f: Setting) {
        let x = mod_par_head(v) + mod_par_from_0(v);
        let kids = shapes::<ModParChild>(v.children);
        lemma_shape_found(tree, "MOD_PAR"@, x, kids, f);
        let c = Cur::start(tree);
        lemma_tokens_at_split(c.toks, 0, mod_par_head(v), mod_par_from_0(v));
        lemma_mod_par_head(v, c, f);
        let c1 = Cur { pos: 1, ..c };
        lemma_mod_par_read_0(v, c1, f);
        lemma_children_read::<ModParChild>(v.children, children_of(tree.items), f);
    }
}

} // verus!
