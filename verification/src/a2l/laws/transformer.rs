//! Transformers read back from what is written for them.

use crate::a2l::block::Tree;
use crate::a2l::faithful::{
    Faithful, KeywordText, Setting, all_params, blocks_tokens, lemma_all_params_join,
    lemma_dec_param, lemma_keyword_word, lemma_ref_params, lemma_refs_read, lemma_refs_shown,
    lemma_shape_found, lemma_shape_tokens, lemma_shows_block, lemma_shows_quote_line,
    lemma_shows_word_line, lemma_sound_shape, lemma_string_param, ref_tokens, refs_fit, shape_of,
};
use crate::a2l::model::enums::A2lKeyword;
use crate::a2l::model::transformer::{
    Transformer, TransformerInObjects, TransformerInObjectsView, TransformerOutObjects,
    TransformerOutObjectsView, TransformerView,
};
use crate::a2l::node::Node;
use crate::a2l::params::{Cur, law_integer_of_dec};
use crate::a2l::spell::{
    law_unescaped_of_escaped, lemma_shows_join, lemma_spells_join, lemma_spells_word, plain, shows,
    string,
};
use crate::a2l::token::{Tok, bare};
use crate::a2l::tree_laws::{is_param, lemma_shows_begin, lemma_tokens_at_split};
use crate::a2l::writer::{Page, escaped, Stopped};
use crate::text::dec;
use vstd::prelude::*;

verus! {

/// The parameters of the block.
pub open spec fn transformer_params(v: TransformerView) -> Seq<Tok> {
    seq![plain(v.name)] + (
        seq![
            string(escaped(v.version)),
            string(escaped(v.executable32)),
            string(escaped(v.executable64)),
            plain(dec(v.timeout as nat)),
            plain(v.trigger.word()->Some_0),
            plain(v.inverse_transformer->Some_0)
        ]
    )
}

impl Faithful for Transformer {
    open spec fn fits(v: TransformerView, f: Setting) -> bool {
        &&& is_param(plain(v.name))
        &&& v.inverse_transformer is Some
        &&& is_param(plain(v.inverse_transformer->Some_0))
    }

    open spec fn shape(v: TransformerView) -> Tree {
        shape_of("TRANSFORMER"@, transformer_params(v), Seq::empty())
    }

    proof fn law_shown(v: TransformerView, p: Page, f: Setting) {
        reveal_strlit("TRANSFORMER");
        lemma_keyword_word("TRANSFORMER"@);
        let h = seq![plain(v.name)];
        let x = seq![
            string(escaped(v.version)),
            string(escaped(v.executable32)),
            string(escaped(v.executable64)),
            plain(dec(v.timeout as nat)),
            plain(v.trigger.word()->Some_0),
            plain(v.inverse_transformer->Some_0)
        ];
        reveal_strlit("TRANSFORMER ");
        reveal_strlit(" ");
        assert("TRANSFORMER "@ + v.name =~= "TRANSFORMER"@ + " "@ + v.name);
        lemma_spells_word("TRANSFORMER"@);
        lemma_spells_word(v.name);
        lemma_spells_join("TRANSFORMER"@, seq![plain("TRANSFORMER"@)], v.name, seq![plain(v.name)]);
        crate::a2l::tree_laws::lemma_shows_begin(p, "TRANSFORMER "@ + v.name, seq![plain("TRANSFORMER"@)] + h);
        let p0 = p.begin("TRANSFORMER "@ + v.name);
        lemma_shows_quote_line(p0, v.version);
        let p1 = p0.quote_line(v.version);
        lemma_shows_quote_line(p1, v.executable32);
        let p2 = p1.quote_line(v.executable32);
        lemma_shows_quote_line(p2, v.executable64);
        let p3 = p2.quote_line(v.executable64);
        lemma_dec_param(v.timeout as int);
        lemma_shows_word_line(p3, dec(v.timeout as nat));
        let p4 = p3.line(dec(v.timeout as nat));
        v.trigger.lemma_word();
        lemma_shows_word_line(p4, v.trigger.word()->Some_0);
        let p5 = p4.line(v.trigger.word()->Some_0);
        lemma_shows_word_line(p5, v.inverse_transformer->Some_0);
        let q0 = p5.line(v.inverse_transformer->Some_0);
        let a = seq![string(escaped(v.version))];
        let b = seq![string(escaped(v.executable32))];
        let d = seq![string(escaped(v.executable64))];
        let e = seq![plain(dec(v.timeout as nat))];
        let g = seq![plain(v.trigger.word()->Some_0)];
        let i = seq![plain(v.inverse_transformer->Some_0)];
        lemma_shows_join(p0, p1, p2, a, b);
        lemma_shows_join(p0, p2, p3, a + b, d);
        lemma_shows_join(p0, p3, p4, a + b + d, e);
        lemma_shows_join(p0, p4, p5, a + b + d + e, g);
        lemma_shows_join(p0, p5, q0, a + b + d + e + g, i);
        assert(a + b + d + e + g + i =~= x);
        assert(shows(p0, q0, x));
        let q = q0;
        let kids = Seq::<Tree>::empty();
        let y = Seq::<Tok>::empty();
        assert(blocks_tokens(kids, 0) =~= y);
        assert(x + y =~= x);
        lemma_string_param(v.version);
        lemma_string_param(v.executable32);
        lemma_string_param(v.executable64);
        assert(all_params(h));
        lemma_all_params_join(h, x);
        lemma_shape_tokens(h + x, kids);
        lemma_sound_shape("TRANSFORMER"@, h + x, kids);
        assert(h + (x + y) =~= h + x + y);
        assert(Self::body(v, p0) == Ok::<Page, Stopped>(q));
        lemma_shows_block(p, "TRANSFORMER "@ + v.name, h, "TRANSFORMER"@, q, x + y, Self::shape(v));
    }

    proof fn law_parsed(v: TransformerView, tree: Tree, f: Setting) {
        let h = seq![plain(v.name)];
        let x = seq![
            string(escaped(v.version)),
            string(escaped(v.executable32)),
            string(escaped(v.executable64)),
            plain(dec(v.timeout as nat)),
            plain(v.trigger.word()->Some_0),
            plain(v.inverse_transformer->Some_0)
        ];
        let kids = Seq::<Tree>::empty();
        lemma_shape_found(tree, "TRANSFORMER"@, h + x, kids, f);
        let c = Cur::start(tree);
        lemma_tokens_at_split(c.toks, 0, h, x);
        law_unescaped_of_escaped(v.version);
        law_unescaped_of_escaped(v.executable32);
        law_unescaped_of_escaped(v.executable64);
        law_integer_of_dec(v.timeout as int);
        v.trigger.law_named_of_word();
        assert(bare(c.toks[0int + 0]) == h[0]);
        assert(bare(c.toks[1int + 0]) == x[0]);
        assert(bare(c.toks[1int + 1]) == x[1]);
        assert(bare(c.toks[1int + 2]) == x[2]);
        assert(bare(c.toks[1int + 3]) == x[3]);
        assert(bare(c.toks[1int + 4]) == x[4]);
        assert(bare(c.toks[1int + 5]) == x[5]);
    }
}

/// The parameters of the block.
pub open spec fn transformer_in_objects_params(v: TransformerInObjectsView) -> Seq<Tok> {
    Seq::<Tok>::empty() + (ref_tokens(v.references))
}

impl Faithful for TransformerInObjects {
    open spec fn fits(v: TransformerInObjectsView, f: Setting) -> bool {
        &&& refs_fit(v.references)
    }

    open spec fn shape(v: TransformerInObjectsView) -> Tree {
        shape_of("TRANSFORMER_IN_OBJECTS"@, transformer_in_objects_params(v), Seq::empty())
    }

    proof fn law_shown(v: TransformerInObjectsView, p: Page, f: Setting) {
        reveal_strlit("TRANSFORMER_IN_OBJECTS");
        lemma_keyword_word("TRANSFORMER_IN_OBJECTS"@);
        let h = Seq::<Tok>::empty();
        let x = ref_tokens(v.references);
        lemma_spells_word("TRANSFORMER_IN_OBJECTS"@);
        assert(seq![plain("TRANSFORMER_IN_OBJECTS"@)] + h =~= seq![plain("TRANSFORMER_IN_OBJECTS"@)]);
        crate::a2l::tree_laws::lemma_shows_begin(
            p,
            "TRANSFORMER_IN_OBJECTS"@,
            seq![plain("TRANSFORMER_IN_OBJECTS"@)] + h
        );
        let p0 = p.begin("TRANSFORMER_IN_OBJECTS"@);
        lemma_refs_shown(p0, v.references);
        let q0 = p0.references(v.references);
        assert(shows(p0, q0, x));
        let q = q0;
        let kids = Seq::<Tree>::empty();
        let y = Seq::<Tok>::empty();
        assert(blocks_tokens(kids, 0) =~= y);
        assert(x + y =~= x);
        lemma_ref_params(v.references);
        assert(all_params(h));
        lemma_all_params_join(h, x);
        lemma_shape_tokens(h + x, kids);
        lemma_sound_shape("TRANSFORMER_IN_OBJECTS"@, h + x, kids);
        assert(h + (x + y) =~= h + x + y);
        assert(Self::body(v, p0) == Ok::<Page, Stopped>(q));
        lemma_shows_block(p, "TRANSFORMER_IN_OBJECTS"@, h, "TRANSFORMER_IN_OBJECTS"@, q, x + y, Self::shape(v));
    }

    proof fn law_parsed(v: TransformerInObjectsView, tree: Tree, f: Setting) {
        let h = Seq::<Tok>::empty();
        let x = ref_tokens(v.references);
        let kids = Seq::<Tree>::empty();
        lemma_shape_found(tree, "TRANSFORMER_IN_OBJECTS"@, h + x, kids, f);
        let c = Cur::start(tree);
        lemma_tokens_at_split(c.toks, 0, h, x);
        lemma_refs_read(c, v.references);
    }
}

/// The parameters of the block.
pub open spec fn transformer_out_objects_params(v: TransformerOutObjectsView) -> Seq<Tok> {
    Seq::<Tok>::empty() + (ref_tokens(v.references))
}

impl Faithful for TransformerOutObjects {
    open spec fn fits(v: TransformerOutObjectsView, f: Setting) -> bool {
        &&& refs_fit(v.references)
    }

    open spec fn shape(v: TransformerOutObjectsView) -> Tree {
        shape_of("TRANSFORMER_OUT_OBJECTS"@, transformer_out_objects_params(v), Seq::empty())
    }

    proof fn law_shown(v: TransformerOutObjectsView, p: Page, f: Setting) {
        reveal_strlit("TRANSFORMER_OUT_OBJECTS");
        lemma_keyword_word("TRANSFORMER_OUT_OBJECTS"@);
        let h = Seq::<Tok>::empty();
        let x = ref_tokens(v.references);
        lemma_spells_word("TRANSFORMER_OUT_OBJECTS"@);
        assert(seq![plain("TRANSFORMER_OUT_OBJECTS"@)] + h =~= seq![plain("TRANSFORMER_OUT_OBJECTS"@)]);
        crate::a2l::tree_laws::lemma_shows_begin(
            p,
            "TRANSFORMER_OUT_OBJECTS"@,
            seq![plain("TRANSFORMER_OUT_OBJECTS"@)] + h
        );
        let p0 = p.begin("TRANSFORMER_OUT_OBJECTS"@);
        lemma_refs_shown(p0, v.references);
        let q0 = p0.references(v.references);
        assert(shows(p0, q0, x));
        let q = q0;
        let kids = Seq::<Tree>::empty();
        let y = Seq::<Tok>::empty();
        assert(blocks_tokens(kids, 0) =~= y);
        assert(x + y =~= x);
        lemma_ref_params(v.references);
        assert(all_params(h));
        lemma_all_params_join(h, x);
        lemma_shape_tokens(h + x, kids);
        lemma_sound_shape("TRANSFORMER_OUT_OBJECTS"@, h + x, kids);
        assert(h + (x + y) =~= h + x + y);
        assert(Self::body(v, p0) == Ok::<Page, Stopped>(q));
        lemma_shows_block(p, "TRANSFORMER_OUT_OBJECTS"@, h, "TRANSFORMER_OUT_OBJECTS"@, q, x + y, Self::shape(v));
    }

    proof fn law_parsed(v: TransformerOutObjectsView, tree: Tree, f: Setting) {
        let h = Seq::<Tok>::empty();
        let x = ref_tokens(v.references);
        let kids = Seq::<Tree>::empty();
        lemma_shape_found(tree, "TRANSFORMER_OUT_OBJECTS"@, h + x, kids, f);
        let c = Cur::start(tree);
        lemma_tokens_at_split(c.toks, 0, h, x);
        lemma_refs_read(c, v.references);
    }
}

} // verus!
