//! Texts of annotations read back from what is written for them.

use crate::a2l::block::Tree;
use crate::a2l::faithful::{
    Faithful, Setting, all_params, blocks_tokens, lemma_all_params_join, lemma_keyword_word,
    lemma_shape_found, lemma_shape_tokens, lemma_shows_block, lemma_shows_quote_line,
    lemma_sound_shape, lemma_string_param, shape_of,
};
use crate::a2l::model::annotation::{AnnotationText, AnnotationTextView, joined};
use crate::a2l::node::Node;
use crate::a2l::params::Cur;
use crate::a2l::spell::{
    law_unescaped_of_escaped, lemma_shows_nothing, lemma_spells_word, plain, shows, string,
};
use crate::a2l::token::{Tok, bare};
use crate::a2l::tree_laws::{lemma_shows_begin, lemma_tokens_at_split};
use crate::a2l::writer::{Page, escaped, Stopped};
use vstd::prelude::*;

verus! {

/// The parameters of the block.
pub open spec fn annotation_text_params(v: AnnotationTextView) -> Seq<Tok> {
    Seq::<Tok>::empty() + (if v.text.len() > 0 { seq![string(escaped(v.text))] } else { Seq::<Tok>::empty() })
}

impl Faithful for AnnotationText {
    open spec fn fits(v: AnnotationTextView, f: Setting) -> bool {
        true
    }

    open spec fn shape(v: AnnotationTextView) -> Tree {
        shape_of("ANNOTATION_TEXT"@, annotation_text_params(v), Seq::empty())
    }

    proof fn law_shown(v: AnnotationTextView, p: Page, f: Setting) {
        reveal_strlit("ANNOTATION_TEXT");
        lemma_keyword_word("ANNOTATION_TEXT"@);
        let h = Seq::<Tok>::empty();
        let x = if v.text.len() > 0 { seq![string(escaped(v.text))] } else { Seq::<Tok>::empty() };
        lemma_spells_word("ANNOTATION_TEXT"@);
        assert(seq![plain("ANNOTATION_TEXT"@)] + h =~= seq![plain("ANNOTATION_TEXT"@)]);
        crate::a2l::tree_laws::lemma_shows_begin(p, "ANNOTATION_TEXT"@, seq![plain("ANNOTATION_TEXT"@)] + h);
        let p0 = p.begin("ANNOTATION_TEXT"@);
        let q0 = if v.text.len() > 0 { p0.quote_line(v.text) } else { p0 };
        if v.text.len() > 0 {
            lemma_shows_quote_line(p0, v.text);
        } else {
            lemma_shows_nothing(p0);
        }
        assert(shows(p0, q0, x));
        let q = q0;
        let kids = Seq::<Tree>::empty();
        let y = Seq::<Tok>::empty();
        assert(blocks_tokens(kids, 0) =~= y);
        assert(x + y =~= x);
        if v.text.len() > 0 {
            lemma_string_param(v.text);
        }
        assert(all_params(h));
        lemma_all_params_join(h, x);
        lemma_shape_tokens(h + x, kids);
        lemma_sound_shape("ANNOTATION_TEXT"@, h + x, kids);
        assert(h + (x + y) =~= h + x + y);
        assert(Self::body(v, p0) == Ok::<Page, Stopped>(q));
        lemma_shows_block(p, "ANNOTATION_TEXT"@, h, "ANNOTATION_TEXT"@, q, x + y, Self::shape(v));
    }

    proof fn law_parsed(v: AnnotationTextView, tree: Tree, f: Setting) {
        let h = Seq::<Tok>::empty();
        let x = if v.text.len() > 0 { seq![string(escaped(v.text))] } else { Seq::<Tok>::empty() };
        let kids = Seq::<Tree>::empty();
        lemma_shape_found(tree, "ANNOTATION_TEXT"@, h + x, kids, f);
        let c = Cur::start(tree);
        lemma_tokens_at_split(c.toks, 0, h, x);
        assert(h + x =~= x);
        law_unescaped_of_escaped(v.text);
        reveal_with_fuel(joined, 3);
        if v.text.len() > 0 {
            assert(bare(c.toks[0int + 0]) == x[0]);
        } else {
            assert(v.text =~= Seq::<char>::empty());
        }
    }
}

} // verus!
