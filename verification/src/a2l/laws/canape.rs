//! Blocks of CANape read back from what is written for them.

use crate::a2l::block::{bare_tree, children_of, Tree};
use crate::a2l::error::Failure;
use crate::a2l::faithful::{
    all_fit, all_params, block_tokens, blocks_tokens, is_keyword, lemma_all_params_join,
    lemma_children_read, lemma_children_shown, lemma_dec_param, lemma_hex_param,
    lemma_keyword_param, lemma_node_read, lemma_node_shown, lemma_shape_found, lemma_shape_tokens,
    lemma_shapes_sound, lemma_shows_block, lemma_sound_shape, lemma_string_param, num_fits,
    shape_of, shapes, sound_tree, toks_numbered, Faithful, FaithfulChild, Setting,
};
use crate::a2l::model::canape::{
    mapping_lines, range_text, symbol_text, AdrMapView, CalibrationMethod, CalibrationMethodView,
    CanapeAddressUpdate, CanapeAddressUpdateChild, CanapeAddressUpdateChildView,
    CanapeAddressUpdateView, CanapeExt, CanapeExtView, DisplayView, ExSymbol, ExSymbolView,
    FirstLast, FirstLastView, LinkMap, LinkMapView, MapSymbol, MapSymbolView, MemorySegment,
    MemorySegmentView, Symbol, SymbolView,
};
use crate::a2l::model::parts::{children_written, hex_form};
use crate::a2l::model::unsupported::UnsupportedNode;
use crate::a2l::node::Node;
use crate::a2l::params::{
    law_integer_of_dec, law_integer_of_hex, read_int, read_string, read_uint, Cur,
};
use crate::a2l::spell::{
    indents_by_blanks, is_word_text, law_unescaped_of_escaped, lemma_marks_blank, lemma_shows_join,
    lemma_shows_line, lemma_spells_join, lemma_spells_quoted, lemma_spells_word, marks, plain,
    put_before, shows, spells, string,
};
use crate::a2l::token::{bare, Tok};
use crate::a2l::tree_laws::{is_param, lemma_shows_begin, lemma_tokens_at_split, tokens_at};
use crate::a2l::writer::{escaped, quoted, Page};
use crate::text::{dec, dec_int, lemma_differ, lemma_same, same_ignore_case};
use vstd::prelude::*;

verus! {

/// The end of a line behind a text spells nothing more.
proof fn lemma_spells_line_end(a: Seq<char>, x: Seq<Tok>)
    requires
        spells(a, x),
    ensures
        spells(a + "\n"@, x),
{
    reveal(spells);
    reveal_strlit("\n");
    assert("\n"@ =~= seq!['\n']);
    let t = a + "\n"@;
    assert forall|rest: Seq<char>|
        #![trigger marks(t + rest)]
        rest.len() > 0 && (rest[0] == ' ' || rest[0] == '\n') implies marks(t + rest)
        == put_before(x, marks(rest)) by {
        let tail = seq!['\n'] + rest;
        assert(t + rest =~= a + tail);
        assert(marks(a + tail) == put_before(x, marks(tail)));
        lemma_marks_blank('\n', rest);
    }
}

/// Texts in lines of their own spell the tokens of both.
proof fn lemma_spells_lines(a: Seq<char>, x: Seq<Tok>, b: Seq<char>, y: Seq<Tok>)
    requires
        spells(a, x),
        spells(b, y),
    ensures
        spells(a + "\n"@ + b, x + y),
{
    reveal(spells);
    reveal_strlit("\n");
    assert("\n"@ =~= seq!['\n']);
    let t = a + "\n"@ + b;
    assert forall|rest: Seq<char>|
        #![trigger marks(t + rest)]
        rest.len() > 0 && (rest[0] == ' ' || rest[0] == '\n') implies marks(t + rest)
        == put_before(x + y, marks(rest)) by {
        let tail = seq!['\n'] + (b + rest);
        assert(t + rest =~= a + tail);
        assert(marks(a + tail) == put_before(x, marks(tail)));
        lemma_marks_blank('\n', b + rest);
        assert(marks(b + rest) == put_before(y, marks(rest)));
        if let Some(z) = marks(rest) {
            assert(x + (y + z) =~= (x + y) + z);
        }
    }
}

/// A keyword and a word behind a text.
proof fn lemma_word_spelled(a: Seq<char>, x: Seq<Tok>, w: Seq<char>)
    requires
        spells(a, x),
        is_word_text(w),
    ensures
        spells(a + " "@ + w, x.push(plain(w))),
{
    lemma_spells_word(w);
    lemma_spells_join(a, x, w, seq![plain(w)]);
    assert(x + seq![plain(w)] =~= x.push(plain(w)));
}

/// A keyword and a string behind a text.
proof fn lemma_quote_spelled(a: Seq<char>, x: Seq<Tok>, tag: Seq<char>, s: Seq<char>)
    requires
        spells(a, x),
        is_keyword(tag),
    ensures
        spells(
            a + " "@ + tag + " "@ + quoted(s),
            x.push(plain(tag)).push(string(escaped(s))),
        ),
        is_param(plain(tag)),
        is_param(string(escaped(s))),
{
    lemma_keyword_param(tag);
    lemma_string_param(s);
    lemma_word_spelled(a, x, tag);
    lemma_spells_quoted(s);
    let y = x.push(plain(tag));
    lemma_spells_join(a + " "@ + tag, y, quoted(s), seq![string(escaped(s))]);
    assert(y + seq![string(escaped(s))] =~= y.push(string(escaped(s))));
}

/// A keyword with the name and the offset of a symbol.
pub open spec fn symbol_tokens(tag: Seq<char>, s: SymbolView) -> Seq<Tok> {
    seq![plain(tag), string(escaped(s.name)), plain(hex_form(s.offset as nat))]
}

proof fn lemma_symbol_spelled(a: Seq<char>, x: Seq<Tok>, tag: Seq<char>, s: SymbolView)
    requires
        spells(a, x),
        is_keyword(tag),
    ensures
        spells(a + (" "@ + tag) + symbol_text(s.name, s.offset), x + symbol_tokens(tag, s)),
        all_params(symbol_tokens(tag, s)),
{
    reveal_strlit(" \"");
    reveal_strlit("\" ");
    reveal_strlit("\"");
    reveal_strlit(" ");
    let h = hex_form(s.offset as nat);
    lemma_hex_param(s.offset as nat);
    lemma_quote_spelled(a, x, tag, s.name);
    let b = a + " "@ + tag + " "@ + quoted(s.name);
    let y = x.push(plain(tag)).push(string(escaped(s.name)));
    lemma_word_spelled(b, y, h);
    assert(a + (" "@ + tag) + symbol_text(s.name, s.offset) =~= b + " "@ + h);
    assert(y.push(plain(h)) =~= x + symbol_tokens(tag, s));
}

proof fn lemma_symbol_read(c: Cur, tag: Seq<char>, s: SymbolView)
    requires
        tokens_at(c.toks, c.pos, symbol_tokens(tag, s)),
    ensures
        c.more(),
        c.here().text == tag,
        !c.here().quoted,
        Symbol::reads(c.step()) == Ok::<(SymbolView, Cur), Failure>(
            (s, Cur { pos: c.pos + 3, ..c }),
        ),
{
    let y = symbol_tokens(tag, s);
    assert(bare(c.toks[c.pos + 0]) == y[0]);
    assert(bare(c.toks[c.pos + 1]) == y[1]);
    assert(bare(c.toks[c.pos + 2]) == y[2]);
    law_unescaped_of_escaped(s.name);
    law_integer_of_hex(s.offset as nat);
}

/// A symbol behind a keyword, if there is one.
pub open spec fn maybe_symbol(tag: Seq<char>, s: Option<SymbolView>) -> Seq<Tok> {
    match s {
        Some(s) => symbol_tokens(tag, s),
        None => Seq::empty(),
    }
}

/// A block in lines of its own: how it starts, with its parameters, and how it ends.
proof fn lemma_block_lines(p: Page, head: Seq<char>, keyword: Seq<char>, x: Seq<Tok>)
    requires
        indents_by_blanks(p),
        is_keyword(keyword),
        spells(head, seq![plain("/begin"@), plain(keyword)] + x),
        all_params(x),
    ensures
        ({
            let q = p.line(head).line("/end "@ + keyword);
            let t = shape_of(keyword, x, Seq::empty());
            &&& shows(p, q, block_tokens(t))
            &&& q.depth == p.depth
            &&& q.style == p.style
            &&& sound_tree(t)
        }),
{
    let none = Seq::<Tree>::empty();
    let t = shape_of(keyword, x, none);
    lemma_keyword_param(keyword);
    reveal_strlit("/end ");
    reveal_strlit("/end");
    reveal_strlit(" ");
    let open = seq![plain("/begin"@), plain(keyword)] + x;
    let close = seq![plain("/end"@), plain(keyword)];
    lemma_shows_line(p, head, open);
    let q = p.line(head);
    lemma_spells_word("/end"@);
    lemma_word_spelled("/end"@, seq![plain("/end"@)], keyword);
    assert("/end "@ + keyword =~= "/end"@ + " "@ + keyword);
    assert(seq![plain("/end"@)].push(plain(keyword)) =~= close);
    lemma_shows_line(q, "/end "@ + keyword, close);
    lemma_shows_join(p, q, q.line("/end "@ + keyword), open, close);
    lemma_shape_tokens(x, none);
    lemma_sound_shape(keyword, x, none);
    assert(x + blocks_tokens(none, 0) =~= x);
    assert(open + close =~= block_tokens(t));
}

/// The start of a block.
proof fn lemma_begin_spelled(keyword: Seq<char>)
    requires
        is_keyword(keyword),
    ensures
        spells("/begin "@ + keyword, seq![plain("/begin"@), plain(keyword)]),
{
    reveal_strlit("/begin ");
    reveal_strlit("/begin");
    reveal_strlit(" ");
    lemma_keyword_param(keyword);
    lemma_spells_word("/begin"@);
    lemma_word_spelled("/begin"@, seq![plain("/begin"@)], keyword);
    assert("/begin "@ + keyword =~= "/begin"@ + " "@ + keyword);
    assert(seq![plain("/begin"@)].push(plain(keyword)) =~= seq![plain("/begin"@), plain(keyword)]);
}

// ---------------------------------------------------------------------------
// Ranges of symbols
// ---------------------------------------------------------------------------

/// A mapping as tokens.
pub open spec fn mapping_tokens(m: AdrMapView) -> Seq<Tok> {
    seq![plain("ADDRESS_MAPPING_XCP"@), string(escaped(m.src)), string(escaped(m.dst))]
}

/// The first mappings as tokens.
pub open spec fn mappings_tokens(s: Seq<AdrMapView>, n: int) -> Seq<Tok>
    decreases n,
{
    if n <= 0 {
        Seq::empty()
    } else {
        mappings_tokens(s, n - 1) + mapping_tokens(s[n - 1])
    }
}

/// A mapping as it stands in a line.
pub open spec fn mapping_line(m: AdrMapView) -> Seq<char> {
    "ADDRESS_MAPPING_XCP"@ + " "@ + quoted(m.src) + " "@ + quoted(m.dst)
}

/// The first mappings in lines behind a text.
pub open spec fn mapped(s: Seq<AdrMapView>, n: int, text: Seq<char>) -> Seq<char>
    decreases n,
{
    if n <= 0 {
        text
    } else {
        mapped(s, n - 1, text) + "\n"@ + mapping_line(s[n - 1])
    }
}

proof fn lemma_mapping_spelled(m: AdrMapView)
    ensures
        spells(mapping_line(m), mapping_tokens(m)),
        all_params(mapping_tokens(m)),
{
    let tag = "ADDRESS_MAPPING_XCP"@;
    reveal_strlit("ADDRESS_MAPPING_XCP");
    lemma_keyword_param(tag);
    lemma_string_param(m.src);
    lemma_string_param(m.dst);
    lemma_spells_word(tag);
    lemma_spells_quoted(m.src);
    lemma_spells_quoted(m.dst);
    let x1 = seq![plain(tag)] + seq![string(escaped(m.src))];
    lemma_spells_join(tag, seq![plain(tag)], quoted(m.src), seq![string(escaped(m.src))]);
    lemma_spells_join(
        tag + " "@ + quoted(m.src),
        x1,
        quoted(m.dst),
        seq![string(escaped(m.dst))],
    );
    assert(x1 + seq![string(escaped(m.dst))] =~= mapping_tokens(m));
}

proof fn lemma_mapped(s: Seq<AdrMapView>, n: int, text: Seq<char>, x: Seq<Tok>)
    requires
        0 <= n <= s.len(),
        spells(text, x),
    ensures
        mapping_lines(s, n, text + "\n"@) == mapped(s, n, text) + "\n"@,
        spells(mapped(s, n, text), x + mappings_tokens(s, n)),
        all_params(mappings_tokens(s, n)),
    decreases n,
{
    if n == 0 {
        assert(x + mappings_tokens(s, 0) =~= x);
    } else {
        lemma_mapped(s, n - 1, text, x);
        let m = s[n - 1];
        let u = mapped(s, n - 1, text);
        let y = x + mappings_tokens(s, n - 1);
        lemma_mapping_spelled(m);
        lemma_spells_lines(u, y, mapping_line(m), mapping_tokens(m));
        lemma_all_params_join(mappings_tokens(s, n - 1), mapping_tokens(m));
        assert(y + mapping_tokens(m) =~= x + mappings_tokens(s, n));
        reveal_strlit("ADDRESS_MAPPING_XCP \"");
        reveal_strlit("ADDRESS_MAPPING_XCP");
        reveal_strlit("\" \"");
        reveal_strlit("\"\n");
        reveal_strlit("\"");
        reveal_strlit("\n");
        reveal_strlit(" ");
        assert("ADDRESS_MAPPING_XCP \""@ =~= "ADDRESS_MAPPING_XCP"@ + " "@ + "\""@);
        assert("\" \""@ =~= "\""@ + " "@ + "\""@);
        assert("\"\n"@ =~= "\""@ + "\n"@);
        assert(mapping_lines(s, n, text + "\n"@) =~= mapped(s, n, text) + "\n"@);
    }
}

/// The parameters of a range.
pub open spec fn range_params(v: FirstLastView) -> Seq<Tok> {
    maybe_symbol("FIRST"@, v.first) + maybe_symbol("LAST"@, v.last) + mappings_tokens(
        v.address_mapping_xcp,
        v.address_mapping_xcp.len() as int,
    )
}

/// Whether a range can be written and read back: without a symbol, its keyword would run into
/// the mappings.
pub open spec fn range_fits(v: FirstLastView) -> bool {
    v.address_mapping_xcp.len() > 0 ==> v.first is Some || v.last is Some
}

proof fn lemma_range_spelled(v: FirstLastView, keyword: Seq<char>)
    requires
        range_fits(v),
        is_keyword(keyword),
    ensures
        spells(range_text(v, keyword), seq![plain("/begin"@), plain(keyword)] + range_params(v)),
        all_params(range_params(v)),
{
    let x0 = seq![plain("/begin"@), plain(keyword)];
    let y1 = maybe_symbol("FIRST"@, v.first);
    let y2 = maybe_symbol("LAST"@, v.last);
    let n = v.address_mapping_xcp.len() as int;
    let y3 = mappings_tokens(v.address_mapping_xcp, n);
    lemma_begin_spelled(keyword);
    reveal_strlit(" FIRST");
    reveal_strlit("FIRST");
    reveal_strlit(" LAST");
    reveal_strlit("LAST");
    reveal_strlit(" ");
    assert(" FIRST"@ =~= " "@ + "FIRST"@);
    assert(" LAST"@ =~= " "@ + "LAST"@);
    let s0 = "/begin "@ + keyword;
    let s1 = match v.first {
        Some(x) => s0 + " FIRST"@ + symbol_text(x.name, x.offset),
        None => s0,
    };
    let s2 = match v.last {
        Some(x) => s1 + " LAST"@ + symbol_text(x.name, x.offset),
        None => s1,
    };
    match v.first {
        Some(x) => lemma_symbol_spelled(s0, x0, "FIRST"@, x),
        None => {
            assert(x0 + y1 =~= x0);
        },
    }
    match v.last {
        Some(x) => lemma_symbol_spelled(s1, x0 + y1, "LAST"@, x),
        None => {
            assert(x0 + y1 + y2 =~= x0 + y1);
        },
    }
    lemma_mapped(v.address_mapping_xcp, n, s2, x0 + y1 + y2);
    assert(x0 + y1 + y2 + y3 =~= x0 + range_params(v));
    lemma_all_params_join(y1, y2);
    lemma_all_params_join(y1 + y2, y3);
    if n > 0 {
        lemma_spells_line_end(
            mapped(v.address_mapping_xcp, n, s2),
            x0 + range_params(v),
        );
    }
}

proof fn lemma_range_next(w: FirstLastView, c: Cur, w2: FirstLastView, c2: Cur)
    requires
        c.more(),
        0 <= c2.left() < c.left(),
        FirstLast::option(w, c) == Ok::<(FirstLastView, Cur), Failure>((w2, c2)),
    ensures
        FirstLast::options(w, c) == FirstLast::options(w2, c2),
{
}

proof fn lemma_range_words()
    ensures
        same_ignore_case("FIRST"@, "FIRST"@),
        same_ignore_case("LAST"@, "LAST"@),
        same_ignore_case("ADDRESS_MAPPING_XCP"@, "ADDRESS_MAPPING_XCP"@),
        !same_ignore_case("LAST"@, "FIRST"@),
        !same_ignore_case("ADDRESS_MAPPING_XCP"@, "FIRST"@),
        !same_ignore_case("ADDRESS_MAPPING_XCP"@, "LAST"@),
{
    reveal_strlit("FIRST");
    reveal_strlit("LAST");
    reveal_strlit("ADDRESS_MAPPING_XCP");
    lemma_same("FIRST"@);
    lemma_same("LAST"@);
    lemma_same("ADDRESS_MAPPING_XCP"@);
    lemma_differ("LAST"@, "FIRST"@, 0);
    lemma_differ("ADDRESS_MAPPING_XCP"@, "FIRST"@, 0);
    lemma_differ("ADDRESS_MAPPING_XCP"@, "LAST"@, 0);
}

proof fn lemma_mappings_read(w: FirstLastView, c: Cur, s: Seq<AdrMapView>, n: int)
    requires
        0 <= n <= s.len(),
        w.address_mapping_xcp == Seq::<AdrMapView>::empty(),
        tokens_at(c.toks, c.pos, mappings_tokens(s, n)),
    ensures
        FirstLast::options(w, c) == FirstLast::options(
            FirstLastView { address_mapping_xcp: s.subrange(0, n), ..w },
            Cur { pos: c.pos + mappings_tokens(s, n).len(), ..c },
        ),
    decreases n,
{
    if n == 0 {
        assert(s.subrange(0, 0) =~= w.address_mapping_xcp);
    } else {
        let before = mappings_tokens(s, n - 1);
        let m = s[n - 1];
        let y = mapping_tokens(m);
        lemma_tokens_at_split(c.toks, c.pos, before, y);
        lemma_mappings_read(w, c, s, n - 1);
        let c1 = Cur { pos: c.pos + before.len(), ..c };
        let c2 = Cur { pos: c1.pos + 3, ..c };
        let w1 = FirstLastView { address_mapping_xcp: s.subrange(0, n - 1), ..w };
        let w2 = FirstLastView { address_mapping_xcp: s.subrange(0, n), ..w };
        assert(bare(c1.toks[c1.pos + 0]) == y[0]);
        assert(bare(c1.toks[c1.pos + 1]) == y[1]);
        assert(bare(c1.toks[c1.pos + 2]) == y[2]);
        law_unescaped_of_escaped(m.src);
        law_unescaped_of_escaped(m.dst);
        lemma_range_words();
        assert(s.subrange(0, n - 1).push(m) =~= s.subrange(0, n));
        lemma_range_next(w1, c1, w2, c2);
        assert(c2.pos == c.pos + mappings_tokens(s, n).len());
    }
}

proof fn lemma_range_read(v: FirstLastView, c: Cur)
    requires
        c.pos == 0,
        tokens_at(c.toks, 0, range_params(v)),
        c.toks.len() == range_params(v).len(),
    ensures
        FirstLast::options(FirstLast::blank(), c) matches Ok((r, _)) && r == v,
{
    let y1 = maybe_symbol("FIRST"@, v.first);
    let y2 = maybe_symbol("LAST"@, v.last);
    let s = v.address_mapping_xcp;
    let n = s.len() as int;
    let y3 = mappings_tokens(s, n);
    lemma_tokens_at_split(c.toks, 0, y1 + y2, y3);
    lemma_tokens_at_split(c.toks, 0, y1, y2);
    let w0 = FirstLast::blank();
    let w1 = FirstLastView { first: v.first, ..w0 };
    let w2 = FirstLastView { last: v.last, ..w1 };
    let c1 = Cur { pos: y1.len() as int, ..c };
    let c2 = Cur { pos: c1.pos + y2.len(), ..c };
    lemma_range_words();
    if let Some(x) = v.first {
        lemma_symbol_read(c, "FIRST"@, x);
        lemma_range_next(w0, c, w1, c1);
    }
    if let Some(x) = v.last {
        lemma_symbol_read(c1, "LAST"@, x);
        lemma_range_next(w1, c1, w2, c2);
    }
    lemma_mappings_read(w2, c2, s, n);
    assert(s.subrange(0, n) =~= s);
}

/// The range of a block for symbols of the linker map.
pub open spec fn map_range(v: MapSymbolView) -> FirstLastView {
    FirstLastView { first: v.first, last: v.last, address_mapping_xcp: v.address_mapping_xcp }
}

impl Faithful for MapSymbol {
    open spec fn fits(v: MapSymbolView, f: Setting) -> bool {
        range_fits(map_range(v))
    }

    open spec fn shape(v: MapSymbolView) -> Tree {
        shape_of("MAP_SYMBOL"@, range_params(map_range(v)), Seq::empty())
    }

    proof fn law_shown(v: MapSymbolView, p: Page, f: Setting) {
        reveal_strlit("MAP_SYMBOL");
        let r = map_range(v);
        lemma_range_spelled(r, "MAP_SYMBOL"@);
        lemma_block_lines(p, range_text(r, "MAP_SYMBOL"@), "MAP_SYMBOL"@, range_params(r));
    }

    proof fn law_parsed(v: MapSymbolView, tree: Tree, f: Setting) {
        let r = map_range(v);
        lemma_shape_found(tree, "MAP_SYMBOL"@, range_params(r), Seq::empty(), f);
        lemma_range_read(r, Cur::start(tree));
    }
}

/// The range of a block for symbols of a memory segment.
pub open spec fn segment_range(v: MemorySegmentView) -> FirstLastView {
    FirstLastView { first: v.first, last: v.last, address_mapping_xcp: v.address_mapping_xcp }
}

impl Faithful for MemorySegment {
    open spec fn fits(v: MemorySegmentView, f: Setting) -> bool {
        range_fits(segment_range(v))
    }

    open spec fn shape(v: MemorySegmentView) -> Tree {
        shape_of("MEMORY_SEGMENT"@, range_params(segment_range(v)), Seq::empty())
    }

    proof fn law_shown(v: MemorySegmentView, p: Page, f: Setting) {
        reveal_strlit("MEMORY_SEGMENT");
        let r = segment_range(v);
        lemma_range_spelled(r, "MEMORY_SEGMENT"@);
        lemma_block_lines(p, range_text(r, "MEMORY_SEGMENT"@), "MEMORY_SEGMENT"@, range_params(r));
    }

    proof fn law_parsed(v: MemorySegmentView, tree: Tree, f: Setting) {
        let r = segment_range(v);
        lemma_shape_found(tree, "MEMORY_SEGMENT"@, range_params(r), Seq::empty(), f);
        lemma_range_read(r, Cur::start(tree));
    }
}

// ---------------------------------------------------------------------------
// Calibration methods
// ---------------------------------------------------------------------------

/// A symbol of its name and offset.
pub open spec fn symbol_of(x: ExSymbolView) -> SymbolView {
    SymbolView { name: x.name, offset: x.offset }
}

/// The parameters of the single-pointered method.
pub open spec fn pointered_tokens(x: Option<ExSymbolView>) -> Seq<Tok> {
    match x {
        Some(x) => symbol_tokens("AUTOSAR_SINGLE_POINTERED"@, symbol_of(x)) + maybe_symbol(
            "ORIGINAL_POINTER_TABLE"@,
            x.original_ptr_table,
        ),
        None => Seq::empty(),
    }
}

/// The parameters of a flash section.
pub open spec fn flash_tokens(x: ExSymbolView) -> Seq<Tok> {
    match x.flash_section {
        Some(s) => seq![
            plain("FLASH_SECTION"@),
            plain(hex_form(s.address as nat)),
            plain(hex_form(s.length as nat)),
        ],
        None => Seq::empty(),
    }
}

/// The parameters of the in-circuit method.
pub open spec fn circuit_tokens(x: Option<ExSymbolView>) -> Seq<Tok> {
    match x {
        Some(x) => symbol_tokens("InCircuit2"@, symbol_of(x)) + flash_tokens(x),
        None => Seq::empty(),
    }
}

proof fn lemma_method_words()
    ensures
        is_keyword("AUTOSAR_SINGLE_POINTERED"@),
        is_keyword("InCircuit2"@),
        is_keyword("ORIGINAL_POINTER_TABLE"@),
        is_keyword("FLASH_SECTION"@),
        same_ignore_case("AUTOSAR_SINGLE_POINTERED"@, "AUTOSAR_SINGLE_POINTERED"@),
        same_ignore_case("InCircuit2"@, "InCircuit2"@),
        same_ignore_case("ORIGINAL_POINTER_TABLE"@, "ORIGINAL_POINTER_TABLE"@),
        same_ignore_case("FLASH_SECTION"@, "FLASH_SECTION"@),
        !same_ignore_case("InCircuit2"@, "AUTOSAR_SINGLE_POINTERED"@),
        !same_ignore_case("InCircuit2"@, "ORIGINAL_POINTER_TABLE"@),
        !same_ignore_case("FLASH_SECTION"@, "ORIGINAL_POINTER_TABLE"@),
{
    reveal_strlit("AUTOSAR_SINGLE_POINTERED");
    reveal_strlit("InCircuit2");
    reveal_strlit("ORIGINAL_POINTER_TABLE");
    reveal_strlit("FLASH_SECTION");
    lemma_same("AUTOSAR_SINGLE_POINTERED"@);
    lemma_same("InCircuit2"@);
    lemma_same("ORIGINAL_POINTER_TABLE"@);
    lemma_same("FLASH_SECTION"@);
    lemma_differ("InCircuit2"@, "AUTOSAR_SINGLE_POINTERED"@, 0);
    lemma_differ("InCircuit2"@, "ORIGINAL_POINTER_TABLE"@, 0);
    lemma_differ("FLASH_SECTION"@, "ORIGINAL_POINTER_TABLE"@, 0);
}

proof fn lemma_pointered_spelled(x: ExSymbolView, s: Seq<char>, y: Seq<Tok>)
    requires
        spells(s, y),
    ensures
        ({
            let t = s + " AUTOSAR_SINGLE_POINTERED"@ + symbol_text(x.name, x.offset);
            let t = match x.original_ptr_table {
                Some(o) => t + " ORIGINAL_POINTER_TABLE"@ + symbol_text(o.name, o.offset),
                None => t,
            };
            spells(t, y + pointered_tokens(Some(x)))
        }),
        all_params(pointered_tokens(Some(x))),
{
    lemma_method_words();
    reveal_strlit(" AUTOSAR_SINGLE_POINTERED");
    reveal_strlit("AUTOSAR_SINGLE_POINTERED");
    reveal_strlit(" ORIGINAL_POINTER_TABLE");
    reveal_strlit("ORIGINAL_POINTER_TABLE");
    reveal_strlit(" ");
    assert(" AUTOSAR_SINGLE_POINTERED"@ =~= " "@ + "AUTOSAR_SINGLE_POINTERED"@);
    assert(" ORIGINAL_POINTER_TABLE"@ =~= " "@ + "ORIGINAL_POINTER_TABLE"@);
    let a = symbol_tokens("AUTOSAR_SINGLE_POINTERED"@, symbol_of(x));
    let b = maybe_symbol("ORIGINAL_POINTER_TABLE"@, x.original_ptr_table);
    lemma_symbol_spelled(s, y, "AUTOSAR_SINGLE_POINTERED"@, symbol_of(x));
    let t = s + " AUTOSAR_SINGLE_POINTERED"@ + symbol_text(x.name, x.offset);
    match x.original_ptr_table {
        Some(o) => lemma_symbol_spelled(t, y + a, "ORIGINAL_POINTER_TABLE"@, o),
        None => {},
    }
    lemma_all_params_join(a, b);
    assert(y + a + b =~= y + (a + b));
    assert(a + b =~= pointered_tokens(Some(x)));
    if x.original_ptr_table is None {
        assert(y + a + b =~= y + a);
    }
}

proof fn lemma_circuit_spelled(x: ExSymbolView, s: Seq<char>, y: Seq<Tok>)
    requires
        spells(s, y),
    ensures
        ({
            let t = s + " InCircuit2"@ + symbol_text(x.name, x.offset);
            let t = match x.flash_section {
                Some(o) => t + " FLASH_SECTION "@ + hex_form(o.address as nat) + " "@ + hex_form(
                    o.length as nat,
                ),
                None => t,
            };
            spells(t, y + circuit_tokens(Some(x)))
        }),
        all_params(circuit_tokens(Some(x))),
{
    lemma_method_words();
    reveal_strlit(" InCircuit2");
    reveal_strlit("InCircuit2");
    reveal_strlit(" FLASH_SECTION ");
    reveal_strlit("FLASH_SECTION");
    reveal_strlit(" ");
    assert(" InCircuit2"@ =~= " "@ + "InCircuit2"@);
    let a = symbol_tokens("InCircuit2"@, symbol_of(x));
    let b = flash_tokens(x);
    lemma_symbol_spelled(s, y, "InCircuit2"@, symbol_of(x));
    let t = s + " InCircuit2"@ + symbol_text(x.name, x.offset);
    match x.flash_section {
        Some(o) => {
            let tag = "FLASH_SECTION"@;
            let h1 = hex_form(o.address as nat);
            let h2 = hex_form(o.length as nat);
            lemma_keyword_param(tag);
            lemma_hex_param(o.address as nat);
            lemma_hex_param(o.length as nat);
            lemma_word_spelled(t, y + a, tag);
            lemma_word_spelled(t + " "@ + tag, (y + a).push(plain(tag)), h1);
            lemma_word_spelled(
                t + " "@ + tag + " "@ + h1,
                (y + a).push(plain(tag)).push(plain(h1)),
                h2,
            );
            assert(t + " FLASH_SECTION "@ + h1 + " "@ + h2 =~= t + " "@ + tag + " "@ + h1 + " "@
                + h2);
            assert((y + a).push(plain(tag)).push(plain(h1)).push(plain(h2)) =~= y + (a + b));
        },
        None => {
            assert(y + (a + b) =~= y + a);
        },
    }
    lemma_all_params_join(a, b);
}

/// The parameters of a calibration method.
pub open spec fn method_params(v: CalibrationMethodView) -> Seq<Tok> {
    pointered_tokens(v.auto_sar_single_pointered) + circuit_tokens(v.in_circuit2)
}

proof fn lemma_method_spelled(v: CalibrationMethodView)
    requires
        v.in_circuit2 matches Some(x) ==> x.original_ptr_table is None,
    ensures
        spells(
            CalibrationMethod::text(v),
            seq![plain("/begin"@), plain("CALIBRATION_METHOD"@)] + method_params(v),
        ),
        all_params(method_params(v)),
{
    let keyword = "CALIBRATION_METHOD"@;
    reveal_strlit("/begin CALIBRATION_METHOD");
    reveal_strlit("/begin ");
    reveal_strlit("CALIBRATION_METHOD");
    assert("/begin CALIBRATION_METHOD"@ =~= "/begin "@ + keyword);
    lemma_begin_spelled(keyword);
    let x0 = seq![plain("/begin"@), plain(keyword)];
    let y1 = pointered_tokens(v.auto_sar_single_pointered);
    let y2 = circuit_tokens(v.in_circuit2);
    let s0 = "/begin CALIBRATION_METHOD"@;
    let s1 = match v.auto_sar_single_pointered {
        Some(x) => {
            let s = s0 + " AUTOSAR_SINGLE_POINTERED"@ + symbol_text(x.name, x.offset);
            match x.original_ptr_table {
                Some(t) => s + " ORIGINAL_POINTER_TABLE"@ + symbol_text(t.name, t.offset),
                None => s,
            }
        },
        None => s0,
    };
    match v.auto_sar_single_pointered {
        Some(x) => lemma_pointered_spelled(x, s0, x0),
        None => {
            assert(x0 + y1 =~= x0);
        },
    }
    assert(spells(s1, x0 + y1));
    match v.in_circuit2 {
        Some(x) => {
            lemma_spells_line_end(s1, x0 + y1);
            let s2 = if v.auto_sar_single_pointered is Some {
                s1 + "\n"@
            } else {
                s1
            };
            lemma_circuit_spelled(x, s2, x0 + y1);
        },
        None => {
            assert(x0 + y1 + y2 =~= x0 + y1);
        },
    }
    assert(x0 + y1 + y2 =~= x0 + method_params(v));
    lemma_all_params_join(y1, y2);
}

proof fn lemma_method_next(
    w: CalibrationMethodView,
    c: Cur,
    w2: CalibrationMethodView,
    c2: Cur,
)
    requires
        c.more(),
        0 <= c2.left() < c.left(),
        CalibrationMethod::option(w, c) == Ok::<(CalibrationMethodView, Cur), Failure>((w2, c2)),
    ensures
        CalibrationMethod::options(w, c) == CalibrationMethod::options(w2, c2),
{
}

proof fn lemma_pointered_read(c: Cur, x: ExSymbolView, y: Seq<Tok>)
    requires
        x.flash_section is None,
        tokens_at(c.toks, c.pos, pointered_tokens(Some(x)) + y),
        c.pos + pointered_tokens(Some(x)).len() + y.len() == c.toks.len(),
        y.len() > 0 ==> y[0] == plain("InCircuit2"@),
    ensures
        c.more(),
        c.here().text == "AUTOSAR_SINGLE_POINTERED"@,
        !c.here().quoted,
        ExSymbol::pointered(c.step()) == Ok::<(ExSymbolView, Cur), Failure>(
            (x, Cur { pos: c.pos + pointered_tokens(Some(x)).len(), ..c }),
        ),
{
    let a = symbol_tokens("AUTOSAR_SINGLE_POINTERED"@, symbol_of(x));
    let b = maybe_symbol("ORIGINAL_POINTER_TABLE"@, x.original_ptr_table);
    lemma_tokens_at_split(c.toks, c.pos, a + b, y);
    lemma_tokens_at_split(c.toks, c.pos, a, b);
    lemma_symbol_read(c, "AUTOSAR_SINGLE_POINTERED"@, symbol_of(x));
    lemma_method_words();
    let c1 = Cur { pos: c.pos + 3, ..c };
    match x.original_ptr_table {
        Some(o) => {
            lemma_symbol_read(c1, "ORIGINAL_POINTER_TABLE"@, o);
        },
        None => {
            if y.len() > 0 {
                assert(bare(c1.toks[c1.pos + 0]) == y[0]);
            }
        },
    }
}

proof fn lemma_circuit_read(c: Cur, x: ExSymbolView)
    requires
        x.original_ptr_table is None,
        tokens_at(c.toks, c.pos, circuit_tokens(Some(x))),
        c.pos + circuit_tokens(Some(x)).len() == c.toks.len(),
    ensures
        c.more(),
        c.here().text == "InCircuit2"@,
        !c.here().quoted,
        ExSymbol::in_circuit(c.step()) == Ok::<(ExSymbolView, Cur), Failure>(
            (x, Cur { pos: c.pos + circuit_tokens(Some(x)).len(), ..c }),
        ),
{
    let a = symbol_tokens("InCircuit2"@, symbol_of(x));
    let b = flash_tokens(x);
    lemma_tokens_at_split(c.toks, c.pos, a, b);
    lemma_symbol_read(c, "InCircuit2"@, symbol_of(x));
    lemma_method_words();
    let c1 = Cur { pos: c.pos + 3, ..c };
    let w = ExSymbolView { name: x.name, offset: x.offset, ..ExSymbol::blank() };
    if let Some(o) = x.flash_section {
        assert(bare(c1.toks[c1.pos + 0]) == b[0]);
        assert(bare(c1.toks[c1.pos + 1]) == b[1]);
        assert(bare(c1.toks[c1.pos + 2]) == b[2]);
        law_integer_of_hex(o.address as nat);
        law_integer_of_hex(o.length as nat);
        let c2 = Cur { pos: c1.pos + 3, ..c };
        assert(ExSymbol::option(w, c1) == Ok::<(ExSymbolView, Cur), Failure>((x, c2)));
        assert(ExSymbol::options(x, c2) == Ok::<(ExSymbolView, Cur), Failure>((x, c2)));
    } else {
        assert(ExSymbol::options(w, c1) == Ok::<(ExSymbolView, Cur), Failure>((w, c1)));
    }
}

impl Faithful for CalibrationMethod {
    open spec fn fits(v: CalibrationMethodView, f: Setting) -> bool {
        &&& (v.auto_sar_single_pointered matches Some(x) ==> x.flash_section is None)
        &&& (v.in_circuit2 matches Some(x) ==> x.original_ptr_table is None)
    }

    open spec fn shape(v: CalibrationMethodView) -> Tree {
        shape_of("CALIBRATION_METHOD"@, method_params(v), Seq::empty())
    }

    proof fn law_shown(v: CalibrationMethodView, p: Page, f: Setting) {
        let keyword = "CALIBRATION_METHOD"@;
        reveal_strlit("CALIBRATION_METHOD");
        reveal_strlit("/end CALIBRATION_METHOD");
        reveal_strlit("/end ");
        assert("/end CALIBRATION_METHOD"@ =~= "/end "@ + keyword);
        lemma_method_spelled(v);
        lemma_block_lines(p, CalibrationMethod::text(v), keyword, method_params(v));
    }

    proof fn law_parsed(v: CalibrationMethodView, tree: Tree, f: Setting) {
        lemma_shape_found(tree, "CALIBRATION_METHOD"@, method_params(v), Seq::empty(), f);
        let c = Cur::start(tree);
        let y1 = pointered_tokens(v.auto_sar_single_pointered);
        let y2 = circuit_tokens(v.in_circuit2);
        lemma_tokens_at_split(c.toks, 0, y1, y2);
        lemma_method_words();
        let w0 = CalibrationMethod::blank();
        let w1 = CalibrationMethodView {
            auto_sar_single_pointered: v.auto_sar_single_pointered,
            ..w0
        };
        let c1 = Cur { pos: y1.len() as int, ..c };
        let c2 = Cur { pos: c1.pos + y2.len(), ..c };
        if let Some(x) = v.auto_sar_single_pointered {
            lemma_pointered_read(c, x, y2);
            lemma_method_next(w0, c, w1, c1);
        }
        if let Some(x) = v.in_circuit2 {
            lemma_circuit_read(c1, x);
            lemma_method_next(w1, c1, v, c2);
        }
    }
}

// ---------------------------------------------------------------------------
// Address updates
// ---------------------------------------------------------------------------

impl FaithfulChild for CanapeAddressUpdateChild {
    open spec fn fits(v: CanapeAddressUpdateChildView, f: Setting) -> bool {
        match v {
            CanapeAddressUpdateChildView::MapSymbol(n) => <MapSymbol as Faithful>::fits(n, f),
            CanapeAddressUpdateChildView::MemorySegment(n) => <MemorySegment as Faithful>::fits(
                n,
                f,
            ),
            CanapeAddressUpdateChildView::CalibrationMethod(n) =>
            <CalibrationMethod as Faithful>::fits(n, f),
            CanapeAddressUpdateChildView::Unsupported(n) => {
                &&& <UnsupportedNode as FaithfulChild>::fits(n, f)
                &&& !same_ignore_case(n.keyword, "MAP_SYMBOL"@)
                &&& !same_ignore_case(n.keyword, "MEMORY_SEGMENT"@)
                &&& !same_ignore_case(n.keyword, "CALIBRATION_METHOD"@)
            },
        }
    }

    open spec fn shape(v: CanapeAddressUpdateChildView) -> Tree {
        match v {
            CanapeAddressUpdateChildView::MapSymbol(n) => <MapSymbol as Faithful>::shape(n),
            CanapeAddressUpdateChildView::MemorySegment(n) => <MemorySegment as Faithful>::shape(n),
            CanapeAddressUpdateChildView::CalibrationMethod(n) =>
            <CalibrationMethod as Faithful>::shape(n),
            CanapeAddressUpdateChildView::Unsupported(n) =>
            <UnsupportedNode as FaithfulChild>::shape(n),
        }
    }

    proof fn law_shown(v: CanapeAddressUpdateChildView, p: Page, f: Setting) {
        match v {
            CanapeAddressUpdateChildView::MapSymbol(n) => {
                lemma_node_shown::<MapSymbol>(n, p, f);
            },
            CanapeAddressUpdateChildView::MemorySegment(n) => {
                lemma_node_shown::<MemorySegment>(n, p, f);
            },
            CanapeAddressUpdateChildView::CalibrationMethod(n) => {
                lemma_node_shown::<CalibrationMethod>(n, p, f);
            },
            CanapeAddressUpdateChildView::Unsupported(n) => {
                <UnsupportedNode as FaithfulChild>::law_shown(n, p, f);
            },
        }
    }

    proof fn law_parsed(v: CanapeAddressUpdateChildView, tree: Tree, f: Setting) {
        reveal_strlit("MAP_SYMBOL");
        reveal_strlit("MEMORY_SEGMENT");
        reveal_strlit("CALIBRATION_METHOD");
        match v {
            CanapeAddressUpdateChildView::MapSymbol(n) => {
                assert(bare_tree(tree).keyword == "MAP_SYMBOL"@);
                lemma_same("MAP_SYMBOL"@);
                lemma_node_read::<MapSymbol>(n, tree, f);
            },
            CanapeAddressUpdateChildView::MemorySegment(n) => {
                assert(bare_tree(tree).keyword == "MEMORY_SEGMENT"@);
                lemma_same("MEMORY_SEGMENT"@);
                lemma_differ("MEMORY_SEGMENT"@, "MAP_SYMBOL"@, 1);
                lemma_node_read::<MemorySegment>(n, tree, f);
            },
            CanapeAddressUpdateChildView::CalibrationMethod(n) => {
                assert(bare_tree(tree).keyword == "CALIBRATION_METHOD"@);
                lemma_same("CALIBRATION_METHOD"@);
                lemma_differ("CALIBRATION_METHOD"@, "MAP_SYMBOL"@, 0);
                lemma_differ("CALIBRATION_METHOD"@, "MEMORY_SEGMENT"@, 0);
                lemma_node_read::<CalibrationMethod>(n, tree, f);
            },
            CanapeAddressUpdateChildView::Unsupported(n) => {
                assert(bare_tree(tree).keyword == n.keyword);
                <UnsupportedNode as FaithfulChild>::law_parsed(n, tree, f);
            },
        }
    }
}

/// The first identification addresses as tokens.
pub open spec fn epk_tokens(s: Seq<SymbolView>, n: int) -> Seq<Tok>
    decreases n,
{
    if n <= 0 {
        Seq::empty()
    } else {
        epk_tokens(s, n - 1) + symbol_tokens("EPK_ADDRESS"@, s[n - 1])
    }
}

proof fn lemma_update_words()
    ensures
        is_keyword("EPK_ADDRESS"@),
        is_keyword("ECU_CALIBRATION_OFFSET"@),
        is_keyword("IF_DATA"@),
        same_ignore_case("EPK_ADDRESS"@, "EPK_ADDRESS"@),
        same_ignore_case("ECU_CALIBRATION_OFFSET"@, "ECU_CALIBRATION_OFFSET"@),
        !same_ignore_case("ECU_CALIBRATION_OFFSET"@, "EPK_ADDRESS"@),
{
    reveal_strlit("EPK_ADDRESS");
    reveal_strlit("ECU_CALIBRATION_OFFSET");
    reveal_strlit("IF_DATA");
    lemma_same("EPK_ADDRESS"@);
    lemma_same("ECU_CALIBRATION_OFFSET"@);
    lemma_differ("ECU_CALIBRATION_OFFSET"@, "EPK_ADDRESS"@, 1);
}

proof fn lemma_epk_spelled(s: Seq<SymbolView>, n: int, text: Seq<char>, x: Seq<Tok>)
    requires
        0 <= n <= s.len(),
        spells(text, x),
    ensures
        spells(CanapeAddressUpdate::epk_text(s, n, text), x + epk_tokens(s, n)),
        all_params(epk_tokens(s, n)),
    decreases n,
{
    if n == 0 {
        assert(x + epk_tokens(s, 0) =~= x);
    } else {
        lemma_epk_spelled(s, n - 1, text, x);
        lemma_update_words();
        reveal_strlit(" EPK_ADDRESS");
        reveal_strlit("EPK_ADDRESS");
        reveal_strlit(" ");
        assert(" EPK_ADDRESS"@ =~= " "@ + "EPK_ADDRESS"@);
        let t = CanapeAddressUpdate::epk_text(s, n - 1, text);
        let y = symbol_tokens("EPK_ADDRESS"@, s[n - 1]);
        lemma_symbol_spelled(t, x + epk_tokens(s, n - 1), "EPK_ADDRESS"@, s[n - 1]);
        assert(x + epk_tokens(s, n - 1) + y =~= x + epk_tokens(s, n));
        lemma_all_params_join(epk_tokens(s, n - 1), y);
    }
}

/// The parameters of the offset for calibration.
pub open spec fn offset_tokens(v: CanapeAddressUpdateView) -> Seq<Tok> {
    match v.ecu_calibration_offset {
        Some(x) => seq![
            plain("ECU_CALIBRATION_OFFSET"@),
            string(escaped(x.name)),
            plain(dec(x.offset as nat)),
        ],
        None => Seq::empty(),
    }
}

/// The parameters of an address update.
pub open spec fn update_params(v: CanapeAddressUpdateView) -> Seq<Tok> {
    seq![plain(v.name)] + epk_tokens(v.epk_address, v.epk_address.len() as int) + offset_tokens(v)
}

proof fn lemma_update_spelled(v: CanapeAddressUpdateView)
    requires
        is_param(plain(v.name)),
    ensures
        spells(CanapeAddressUpdate::text(v), seq![plain("IF_DATA"@)] + update_params(v)),
        all_params(update_params(v)),
{
    reveal_strlit("IF_DATA ");
    reveal_strlit("IF_DATA");
    reveal_strlit(" ECU_CALIBRATION_OFFSET \"");
    reveal_strlit("ECU_CALIBRATION_OFFSET");
    reveal_strlit("\" ");
    reveal_strlit("\"");
    reveal_strlit(" ");
    lemma_update_words();
    lemma_keyword_param("IF_DATA"@);
    let x0 = seq![plain("IF_DATA"@)];
    let h = seq![plain(v.name)];
    let n = v.epk_address.len() as int;
    let y1 = epk_tokens(v.epk_address, n);
    let y2 = offset_tokens(v);
    lemma_spells_word("IF_DATA"@);
    lemma_word_spelled("IF_DATA"@, x0, v.name);
    assert("IF_DATA "@ + v.name =~= "IF_DATA"@ + " "@ + v.name);
    assert(x0.push(plain(v.name)) =~= x0 + h);
    let s0 = "IF_DATA "@ + v.name;
    lemma_epk_spelled(v.epk_address, n, s0, x0 + h);
    let s1 = CanapeAddressUpdate::epk_text(v.epk_address, n, s0);
    let x1 = x0 + h + y1;
    match v.ecu_calibration_offset {
        Some(x) => {
            let tag = "ECU_CALIBRATION_OFFSET"@;
            let d = dec(x.offset as nat);
            lemma_dec_param(x.offset as int);
            lemma_quote_spelled(s1, x1, tag, x.name);
            let s2 = s1 + " "@ + tag + " "@ + quoted(x.name);
            let x2 = x1.push(plain(tag)).push(string(escaped(x.name)));
            lemma_word_spelled(s2, x2, d);
            assert(" ECU_CALIBRATION_OFFSET \""@ =~= " "@ + tag + " "@ + "\""@);
            assert(s1 + " ECU_CALIBRATION_OFFSET \""@ + escaped(x.name) + "\" "@ + d =~= s2 + " "@
                + d);
            assert(x2.push(plain(d)) =~= x1 + y2);
        },
        None => {
            assert(x1 + y2 =~= x1);
        },
    }
    assert(x1 + y2 =~= x0 + update_params(v));
    lemma_all_params_join(h, y1);
    lemma_all_params_join(h + y1, y2);
}

proof fn lemma_update_next(
    w: CanapeAddressUpdateView,
    c: Cur,
    w2: CanapeAddressUpdateView,
    c2: Cur,
)
    requires
        c.more(),
        0 <= c2.left() < c.left(),
        CanapeAddressUpdate::option(w, c) == Ok::<(CanapeAddressUpdateView, Cur), Failure>(
            (w2, c2),
        ),
    ensures
        CanapeAddressUpdate::options(w, c) == CanapeAddressUpdate::options(w2, c2),
{
}

proof fn lemma_epk_read(w: CanapeAddressUpdateView, c: Cur, s: Seq<SymbolView>, n: int)
    requires
        0 <= n <= s.len(),
        w.epk_address == Seq::<SymbolView>::empty(),
        tokens_at(c.toks, c.pos, epk_tokens(s, n)),
    ensures
        CanapeAddressUpdate::options(w, c) == CanapeAddressUpdate::options(
            CanapeAddressUpdateView { epk_address: s.subrange(0, n), ..w },
            Cur { pos: c.pos + epk_tokens(s, n).len(), ..c },
        ),
    decreases n,
{
    if n == 0 {
        assert(s.subrange(0, 0) =~= w.epk_address);
    } else {
        let before = epk_tokens(s, n - 1);
        let y = symbol_tokens("EPK_ADDRESS"@, s[n - 1]);
        lemma_tokens_at_split(c.toks, c.pos, before, y);
        lemma_epk_read(w, c, s, n - 1);
        let c1 = Cur { pos: c.pos + before.len(), ..c };
        let c2 = Cur { pos: c1.pos + 3, ..c };
        let w1 = CanapeAddressUpdateView { epk_address: s.subrange(0, n - 1), ..w };
        let w2 = CanapeAddressUpdateView { epk_address: s.subrange(0, n), ..w };
        lemma_symbol_read(c1, "EPK_ADDRESS"@, s[n - 1]);
        lemma_update_words();
        assert(s.subrange(0, n - 1).push(s[n - 1]) =~= s.subrange(0, n));
        lemma_update_next(w1, c1, w2, c2);
        assert(c2.pos == c.pos + epk_tokens(s, n).len());
    }
}

impl Faithful for CanapeAddressUpdate {
    open spec fn fits(v: CanapeAddressUpdateView, f: Setting) -> bool {
        &&& is_param(plain(v.name))
        &&& all_fit::<CanapeAddressUpdateChild>(v.children, f)
    }

    open spec fn shape(v: CanapeAddressUpdateView) -> Tree {
        shape_of("IF_DATA"@, update_params(v), shapes::<CanapeAddressUpdateChild>(v.children))
    }

    proof fn law_shown(v: CanapeAddressUpdateView, p: Page, f: Setting) {
        let keyword = "IF_DATA"@;
        let head = CanapeAddressUpdate::text(v);
        let h = update_params(v);
        lemma_update_words();
        lemma_keyword_param(keyword);
        lemma_update_spelled(v);
        lemma_shows_begin(p, head, seq![plain(keyword)] + h);
        let p0 = p.begin(head);
        let kids = shapes::<CanapeAddressUpdateChild>(v.children);
        lemma_children_shown::<CanapeAddressUpdateChild>(v.children, false, p0, f);
        lemma_shapes_sound::<CanapeAddressUpdateChild>(v.children, p, f);
        let q = children_written::<CanapeAddressUpdateChild>(v.children, 0, false, p0)->Ok_0;
        lemma_shape_tokens(h, kids);
        lemma_sound_shape(keyword, h, kids);
        lemma_shows_block(p, head, h, keyword, q, blocks_tokens(kids, 0), Self::shape(v));
    }

    proof fn law_parsed(v: CanapeAddressUpdateView, tree: Tree, f: Setting) {
        let kids = shapes::<CanapeAddressUpdateChild>(v.children);
        lemma_shape_found(tree, "IF_DATA"@, update_params(v), kids, f);
        let c = Cur::start(tree);
        let h = seq![plain(v.name)];
        let s = v.epk_address;
        let n = s.len() as int;
        let y1 = epk_tokens(s, n);
        let y2 = offset_tokens(v);
        lemma_tokens_at_split(c.toks, 0, h + y1, y2);
        lemma_tokens_at_split(c.toks, 0, h, y1);
        assert(bare(c.toks[0int + 0]) == h[0]);
        let w0 = CanapeAddressUpdateView { name: v.name, ..CanapeAddressUpdate::blank() };
        let c0 = Cur { pos: 1, ..c };
        assert(CanapeAddressUpdate::head(c) == Ok::<(CanapeAddressUpdateView, Cur), Failure>(
            (w0, c0),
        ));
        lemma_epk_read(w0, c0, s, n);
        assert(s.subrange(0, n) =~= s);
        let w1 = CanapeAddressUpdateView { epk_address: s, ..w0 };
        let w2 = CanapeAddressUpdateView {
            ecu_calibration_offset: v.ecu_calibration_offset,
            ..w1
        };
        let c1 = Cur { pos: c0.pos + y1.len(), ..c };
        let c2 = Cur { pos: c1.pos + y2.len(), ..c };
        if let Some(x) = v.ecu_calibration_offset {
            assert(bare(c1.toks[c1.pos + 0]) == y2[0]);
            assert(bare(c1.toks[c1.pos + 1]) == y2[1]);
            assert(bare(c1.toks[c1.pos + 2]) == y2[2]);
            law_unescaped_of_escaped(x.name);
            law_integer_of_dec(x.offset as int);
            lemma_update_words();
            lemma_update_next(w1, c1, w2, c2);
        }
        lemma_children_read::<CanapeAddressUpdateChild>(v.children, children_of(tree.items), f);
    }
}

// ---------------------------------------------------------------------------
// Extensions
// ---------------------------------------------------------------------------

/// The parameters of `LINK_MAP`.
pub open spec fn link_tokens(v: CanapeExtView) -> Seq<Tok> {
    match v.link_map {
        Some(x) => seq![
            plain("LINK_MAP"@),
            string(escaped(x.name)),
            plain(hex_form(x.base_address as nat)),
            plain(hex_form(x.base_address_ext as nat)),
            plain(dec(x.is_address_relative_to_ds as nat)),
            plain(hex_form(x.offset_segment as nat)),
            plain(dec(x.is_data_type_valid as nat)),
            plain(hex_form(x.data_typ_enum as nat)),
            plain(hex_form(x.bit_offset as nat)),
        ],
        None => Seq::empty(),
    }
}

/// The parameters of `DISPLAY`.
pub open spec fn display_tokens(v: CanapeExtView) -> Seq<Tok> {
    match v.display {
        Some(x) => seq![
            plain("DISPLAY"@),
            plain(dec_int(x.color as int)),
            plain(x.min.text),
            plain(x.max.text),
        ],
        None => Seq::empty(),
    }
}

/// The parameters of `VIRTUAL_CONVERSION`.
pub open spec fn conversion_tokens(v: CanapeExtView) -> Seq<Tok> {
    match v.virtual_conversion {
        Some(x) => seq![plain("VIRTUAL_CONVERSION"@), string(escaped(x))],
        None => Seq::empty(),
    }
}

/// The parameters at the start of an extension.
pub open spec fn ext_head(v: CanapeExtView) -> Seq<Tok> {
    seq![plain("CANAPE_EXT"@), plain(dec(v.version as nat))]
}

/// The parameters of an extension.
pub open spec fn ext_params(v: CanapeExtView) -> Seq<Tok> {
    ext_head(v) + link_tokens(v) + display_tokens(v) + conversion_tokens(v)
}

proof fn lemma_ext_words()
    ensures
        is_keyword("IF_DATA"@),
        is_keyword("CANAPE_EXT"@),
        is_keyword("LINK_MAP"@),
        is_keyword("DISPLAY"@),
        is_keyword("VIRTUAL_CONVERSION"@),
        same_ignore_case("CANAPE_EXT"@, "CANAPE_EXT"@),
        same_ignore_case("LINK_MAP"@, "LINK_MAP"@),
        same_ignore_case("DISPLAY"@, "DISPLAY"@),
        same_ignore_case("VIRTUAL_CONVERSION"@, "VIRTUAL_CONVERSION"@),
        !same_ignore_case("DISPLAY"@, "LINK_MAP"@),
        !same_ignore_case("VIRTUAL_CONVERSION"@, "LINK_MAP"@),
        !same_ignore_case("VIRTUAL_CONVERSION"@, "DISPLAY"@),
{
    reveal_strlit("IF_DATA");
    reveal_strlit("CANAPE_EXT");
    reveal_strlit("LINK_MAP");
    reveal_strlit("DISPLAY");
    reveal_strlit("VIRTUAL_CONVERSION");
    lemma_same("CANAPE_EXT"@);
    lemma_same("LINK_MAP"@);
    lemma_same("DISPLAY"@);
    lemma_same("VIRTUAL_CONVERSION"@);
    lemma_differ("DISPLAY"@, "LINK_MAP"@, 0);
    lemma_differ("VIRTUAL_CONVERSION"@, "LINK_MAP"@, 0);
    lemma_differ("VIRTUAL_CONVERSION"@, "DISPLAY"@, 0);
}

proof fn lemma_ext_head_spelled(v: CanapeExtView)
    ensures
        spells(
            "/begin IF_DATA CANAPE_EXT "@ + dec(v.version as nat),
            seq![plain("/begin"@), plain("IF_DATA"@)] + ext_head(v),
        ),
        all_params(ext_head(v)),
{
    lemma_ext_words();
    let d = dec(v.version as nat);
    let x0 = seq![plain("/begin"@), plain("IF_DATA"@)];
    lemma_keyword_param("CANAPE_EXT"@);
    lemma_dec_param(v.version as int);
    lemma_begin_spelled("IF_DATA"@);
    lemma_word_spelled("/begin "@ + "IF_DATA"@, x0, "CANAPE_EXT"@);
    lemma_word_spelled(
        "/begin "@ + "IF_DATA"@ + " "@ + "CANAPE_EXT"@,
        x0.push(plain("CANAPE_EXT"@)),
        d,
    );
    reveal_strlit("/begin IF_DATA CANAPE_EXT ");
    reveal_strlit("/begin ");
    reveal_strlit("IF_DATA");
    reveal_strlit("CANAPE_EXT");
    reveal_strlit(" ");
    assert("/begin IF_DATA CANAPE_EXT "@ =~= "/begin "@ + "IF_DATA"@ + " "@ + "CANAPE_EXT"@ + " "@);
    assert(x0.push(plain("CANAPE_EXT"@)).push(plain(d)) =~= x0 + ext_head(v));
}

/// What is written for `LINK_MAP` behind a text.
pub open spec fn link_text(s: Seq<char>, x: LinkMapView) -> Seq<char> {
    s + " LINK_MAP \""@ + escaped(x.name) + "\" "@ + hex_form(x.base_address as nat) + " "@
        + hex_form(x.base_address_ext as nat) + " "@ + dec(x.is_address_relative_to_ds as nat)
        + " "@ + hex_form(x.offset_segment as u32 as nat) + " "@ + dec(x.is_data_type_valid as nat)
        + " "@ + hex_form(x.data_typ_enum as nat) + " "@ + hex_form(x.bit_offset as nat)
}

proof fn lemma_link_spelled(v: CanapeExtView, s: Seq<char>, y: Seq<Tok>, x: LinkMapView)
    requires
        spells(s, y),
        v.link_map == Some(x),
        x.offset_segment >= 0,
    ensures
        spells(link_text(s, x), y + link_tokens(v)),
        all_params(link_tokens(v)),
{
    lemma_ext_words();
    let tag = "LINK_MAP"@;
    let a1 = hex_form(x.base_address as nat);
    let a2 = hex_form(x.base_address_ext as nat);
    let a3 = dec(x.is_address_relative_to_ds as nat);
    let a4 = hex_form(x.offset_segment as nat);
    let a5 = dec(x.is_data_type_valid as nat);
    let a6 = hex_form(x.data_typ_enum as nat);
    let a7 = hex_form(x.bit_offset as nat);
    lemma_hex_param(x.base_address as nat);
    lemma_hex_param(x.base_address_ext as nat);
    lemma_dec_param(x.is_address_relative_to_ds as int);
    lemma_hex_param(x.offset_segment as nat);
    lemma_dec_param(x.is_data_type_valid as int);
    lemma_hex_param(x.data_typ_enum as nat);
    lemma_hex_param(x.bit_offset as nat);
    lemma_quote_spelled(s, y, tag, x.name);
    let s0 = s + " "@ + tag + " "@ + quoted(x.name);
    let y0 = y.push(plain(tag)).push(string(escaped(x.name)));
    lemma_word_spelled(s0, y0, a1);
    let s1 = s0 + " "@ + a1;
    let y1 = y0.push(plain(a1));
    lemma_word_spelled(s1, y1, a2);
    let s2 = s1 + " "@ + a2;
    let y2 = y1.push(plain(a2));
    lemma_word_spelled(s2, y2, a3);
    let s3 = s2 + " "@ + a3;
    let y3 = y2.push(plain(a3));
    lemma_word_spelled(s3, y3, a4);
    let s4 = s3 + " "@ + a4;
    let y4 = y3.push(plain(a4));
    lemma_word_spelled(s4, y4, a5);
    let s5 = s4 + " "@ + a5;
    let y5 = y4.push(plain(a5));
    lemma_word_spelled(s5, y5, a6);
    let s6 = s5 + " "@ + a6;
    let y6 = y5.push(plain(a6));
    lemma_word_spelled(s6, y6, a7);
    reveal_strlit(" LINK_MAP \"");
    reveal_strlit("LINK_MAP");
    reveal_strlit("\" ");
    reveal_strlit("\"");
    reveal_strlit(" ");
    assert(x.offset_segment as u32 as nat == x.offset_segment as nat);
    assert(s + " LINK_MAP \""@ + escaped(x.name) + "\" "@ + a1 =~= s1);
    assert(link_text(s, x) == s6 + " "@ + a7);
    assert(y6.push(plain(a7)) =~= y + link_tokens(v));
}

/// What is written for `DISPLAY` behind a text.
pub open spec fn display_text(s: Seq<char>, x: DisplayView) -> Seq<char> {
    s + " DISPLAY "@ + dec_int(x.color as int) + " "@ + x.min.text + " "@ + x.max.text
}

proof fn lemma_display_spelled(
    v: CanapeExtView,
    s: Seq<char>,
    y: Seq<Tok>,
    x: DisplayView,
    f: Setting,
)
    requires
        spells(s, y),
        v.display == Some(x),
        num_fits(x.min, f),
        num_fits(x.max, f),
    ensures
        spells(display_text(s, x), y + display_tokens(v)),
        all_params(display_tokens(v)),
{
    lemma_ext_words();
    let tag = "DISPLAY"@;
    let d = dec_int(x.color as int);
    lemma_keyword_param(tag);
    lemma_dec_param(x.color as int);
    lemma_word_spelled(s, y, tag);
    let s0 = s + " "@ + tag;
    let y0 = y.push(plain(tag));
    lemma_word_spelled(s0, y0, d);
    let s1 = s0 + " "@ + d;
    let y1 = y0.push(plain(d));
    lemma_word_spelled(s1, y1, x.min.text);
    let s2 = s1 + " "@ + x.min.text;
    let y2 = y1.push(plain(x.min.text));
    lemma_word_spelled(s2, y2, x.max.text);
    reveal_strlit(" DISPLAY ");
    reveal_strlit("DISPLAY");
    reveal_strlit(" ");
    assert(s + " DISPLAY "@ + d =~= s1);
    assert(y2.push(plain(x.max.text)) =~= y + display_tokens(v));
}

/// Whether an extension can be written and read back. A segment offset that is negative is
/// written as a number that no segment offset has.
pub open spec fn ext_fits(v: CanapeExtView, f: Setting) -> bool {
    &&& (v.link_map matches Some(x) ==> x.offset_segment >= 0)
    &&& (v.display matches Some(x) ==> num_fits(x.min, f) && num_fits(x.max, f))
}

proof fn lemma_ext_spelled(v: CanapeExtView, f: Setting)
    requires
        ext_fits(v, f),
    ensures
        spells(
            CanapeExt::text(v),
            seq![plain("/begin"@), plain("IF_DATA"@)] + ext_params(v) + seq![
                plain("/end"@),
                plain("IF_DATA"@),
            ],
        ),
        all_params(ext_params(v)),
{
    let x0 = seq![plain("/begin"@), plain("IF_DATA"@)];
    let h = ext_head(v);
    let y1 = link_tokens(v);
    let y2 = display_tokens(v);
    let y3 = conversion_tokens(v);
    let close = seq![plain("/end"@), plain("IF_DATA"@)];
    lemma_ext_words();
    lemma_ext_head_spelled(v);
    let s0 = "/begin IF_DATA CANAPE_EXT "@ + dec(v.version as nat);
    let s1 = match v.link_map {
        Some(x) => link_text(s0, x),
        None => s0,
    };
    let s2 = match v.display {
        Some(x) => display_text(s1, x),
        None => s1,
    };
    let s3 = match v.virtual_conversion {
        Some(x) => s2 + " VIRTUAL_CONVERSION \""@ + escaped(x) + "\""@,
        None => s2,
    };
    match v.link_map {
        Some(x) => lemma_link_spelled(v, s0, x0 + h, x),
        None => {
            assert(x0 + h + y1 =~= x0 + h);
        },
    }
    match v.display {
        Some(x) => lemma_display_spelled(v, s1, x0 + h + y1, x, f),
        None => {
            assert(x0 + h + y1 + y2 =~= x0 + h + y1);
        },
    }
    let z = x0 + h + y1 + y2;
    match v.virtual_conversion {
        Some(x) => {
            let tag = "VIRTUAL_CONVERSION"@;
            lemma_quote_spelled(s2, z, tag, x);
            reveal_strlit(" VIRTUAL_CONVERSION \"");
            reveal_strlit("VIRTUAL_CONVERSION");
            reveal_strlit("\"");
            reveal_strlit(" ");
            assert(s3 =~= s2 + " "@ + tag + " "@ + quoted(x));
            assert(z.push(plain(tag)).push(string(escaped(x))) =~= z + y3);
        },
        None => {
            assert(z + y3 =~= z);
        },
    }
    lemma_all_params_join(h, y1);
    lemma_all_params_join(h + y1, y2);
    lemma_all_params_join(h + y1 + y2, y3);
    lemma_ext_end_spelled(s3, z + y3);
    assert(z + y3 + close =~= x0 + ext_params(v) + close);
}

proof fn lemma_ext_end_spelled(s: Seq<char>, x: Seq<Tok>)
    requires
        spells(s, x),
    ensures
        spells(s + " /end IF_DATA"@, x + seq![plain("/end"@), plain("IF_DATA"@)]),
{
    lemma_ext_words();
    lemma_keyword_param("IF_DATA"@);
    reveal_strlit("/end");
    lemma_word_spelled(s, x, "/end"@);
    lemma_word_spelled(s + " "@ + "/end"@, x.push(plain("/end"@)), "IF_DATA"@);
    reveal_strlit(" /end IF_DATA");
    reveal_strlit("IF_DATA");
    reveal_strlit(" ");
    assert(" /end IF_DATA"@ =~= " "@ + "/end"@ + " "@ + "IF_DATA"@);
    assert(s + " /end IF_DATA"@ =~= s + " "@ + "/end"@ + " "@ + "IF_DATA"@);
    assert(x.push(plain("/end"@)).push(plain("IF_DATA"@)) =~= x + seq![
        plain("/end"@),
        plain("IF_DATA"@),
    ]);
}

proof fn lemma_ext_next(w: CanapeExtView, c: Cur, w2: CanapeExtView, c2: Cur)
    requires
        c.more(),
        0 <= c2.left() < c.left(),
        CanapeExt::option(w, c) == Ok::<(CanapeExtView, Cur), Failure>((w2, c2)),
    ensures
        CanapeExt::options(w, c) == CanapeExt::options(w2, c2),
{
}

proof fn lemma_hex_read(c: Cur, n: nat, max: int)
    requires
        c.more(),
        c.here().text == hex_form(n),
        n <= max,
    ensures
        read_uint(c, max) == Ok::<(int, Cur), Failure>((n as int, c.step())),
{
    law_integer_of_hex(n);
}

proof fn lemma_dec_read(c: Cur, n: nat, max: int)
    requires
        c.more(),
        c.here().text == dec(n),
        n <= max,
    ensures
        read_uint(c, max) == Ok::<(int, Cur), Failure>((n as int, c.step())),
{
    law_integer_of_dec(n as int);
}

/// The texts of the parameters of `LINK_MAP`.
proof fn lemma_link_texts(v: CanapeExtView, c: Cur, x: LinkMapView)
    requires
        v.link_map == Some(x),
        tokens_at(c.toks, c.pos, link_tokens(v)),
    ensures
        c.pos + 9 <= c.toks.len(),
        c.toks[c.pos].text == "LINK_MAP"@,
        !c.toks[c.pos].quoted,
        c.toks[c.pos + 1].text == escaped(x.name),
        c.toks[c.pos + 2].text == hex_form(x.base_address as nat),
        c.toks[c.pos + 3].text == hex_form(x.base_address_ext as nat),
        c.toks[c.pos + 4].text == dec(x.is_address_relative_to_ds as nat),
        c.toks[c.pos + 5].text == hex_form(x.offset_segment as nat),
        c.toks[c.pos + 6].text == dec(x.is_data_type_valid as nat),
        c.toks[c.pos + 7].text == hex_form(x.data_typ_enum as nat),
        c.toks[c.pos + 8].text == hex_form(x.bit_offset as nat),
{
    let y = link_tokens(v);
    assert(bare(c.toks[c.pos + 0]) == y[0]);
    assert(bare(c.toks[c.pos + 1]) == y[1]);
    assert(bare(c.toks[c.pos + 2]) == y[2]);
    assert(bare(c.toks[c.pos + 3]) == y[3]);
    assert(bare(c.toks[c.pos + 4]) == y[4]);
    assert(bare(c.toks[c.pos + 5]) == y[5]);
    assert(bare(c.toks[c.pos + 6]) == y[6]);
    assert(bare(c.toks[c.pos + 7]) == y[7]);
    assert(bare(c.toks[c.pos + 8]) == y[8]);
}

proof fn lemma_link_read(v: CanapeExtView, c: Cur, x: LinkMapView)
    requires
        v.link_map == Some(x),
        x.offset_segment >= 0,
        tokens_at(c.toks, c.pos, link_tokens(v)),
    ensures
        c.more(),
        c.here().text == "LINK_MAP"@,
        !c.here().quoted,
        LinkMap::reads(c.step()) == Ok::<(LinkMapView, Cur), Failure>(
            (x, Cur { pos: c.pos + 9, ..c }),
        ),
{
    lemma_link_texts(v, c, x);
    law_unescaped_of_escaped(x.name);
    let c2 = Cur { pos: c.pos + 2, ..c };
    let c3 = Cur { pos: c.pos + 3, ..c };
    let c4 = Cur { pos: c.pos + 4, ..c };
    let c5 = Cur { pos: c.pos + 5, ..c };
    let c6 = Cur { pos: c.pos + 6, ..c };
    let c7 = Cur { pos: c.pos + 7, ..c };
    let c8 = Cur { pos: c.pos + 8, ..c };
    assert(read_string(c.step()) == Ok::<(Seq<char>, Cur), Failure>((x.name, c2)));
    lemma_hex_read(c2, x.base_address as nat, u32::MAX as int);
    lemma_hex_read(c3, x.base_address_ext as nat, u16::MAX as int);
    lemma_dec_read(c4, x.is_address_relative_to_ds as nat, u16::MAX as int);
    law_integer_of_hex(x.offset_segment as nat);
    assert(read_int(c5, i32::MIN as int, i32::MAX as int) == Ok::<(int, Cur), Failure>(
        (x.offset_segment as int, c6),
    ));
    lemma_dec_read(c6, x.is_data_type_valid as nat, u16::MAX as int);
    lemma_hex_read(c7, x.data_typ_enum as nat, u16::MAX as int);
    lemma_hex_read(c8, x.bit_offset as nat, u16::MAX as int);
}

proof fn lemma_ext_link_step(v: CanapeExtView, w: CanapeExtView, c: Cur)
    requires
        v.link_map matches Some(x) ==> x.offset_segment >= 0,
        w.link_map is None,
        tokens_at(c.toks, c.pos, link_tokens(v)),
    ensures
        CanapeExt::options(w, c) == CanapeExt::options(
            CanapeExtView { link_map: v.link_map, ..w },
            Cur { pos: c.pos + link_tokens(v).len(), ..c },
        ),
{
    if let Some(x) = v.link_map {
        lemma_ext_words();
        lemma_link_read(v, c, x);
        let w2 = CanapeExtView { link_map: v.link_map, ..w };
        let c2 = Cur { pos: c.pos + 9, ..c };
        assert(link_tokens(v).len() == 9);
        lemma_ext_next(w, c, w2, c2);
    }
}

proof fn lemma_ext_display_step(v: CanapeExtView, w: CanapeExtView, c: Cur, f: Setting)
    requires
        v.display matches Some(x) ==> num_fits(x.min, f) && num_fits(x.max, f),
        toks_numbered(c.toks, f),
        w.display is None,
        tokens_at(c.toks, c.pos, display_tokens(v)),
    ensures
        CanapeExt::options(w, c) == CanapeExt::options(
            CanapeExtView { display: v.display, ..w },
            Cur { pos: c.pos + display_tokens(v).len(), ..c },
        ),
{
    if let Some(x) = v.display {
        lemma_ext_words();
        let y = display_tokens(v);
        assert(bare(c.toks[c.pos + 0]) == y[0]);
        assert(bare(c.toks[c.pos + 1]) == y[1]);
        assert(bare(c.toks[c.pos + 2]) == y[2]);
        assert(bare(c.toks[c.pos + 3]) == y[3]);
        law_integer_of_dec(x.color as int);
        let w2 = CanapeExtView { display: v.display, ..w };
        lemma_ext_next(w, c, w2, Cur { pos: c.pos + 4, ..c });
    }
}

proof fn lemma_ext_conversion_step(v: CanapeExtView, w: CanapeExtView, c: Cur)
    requires
        w.virtual_conversion is None,
        tokens_at(c.toks, c.pos, conversion_tokens(v)),
    ensures
        CanapeExt::options(w, c) == CanapeExt::options(
            CanapeExtView { virtual_conversion: v.virtual_conversion, ..w },
            Cur { pos: c.pos + conversion_tokens(v).len(), ..c },
        ),
{
    if let Some(x) = v.virtual_conversion {
        lemma_ext_words();
        let y = conversion_tokens(v);
        assert(bare(c.toks[c.pos + 0]) == y[0]);
        assert(bare(c.toks[c.pos + 1]) == y[1]);
        law_unescaped_of_escaped(x);
        let w2 = CanapeExtView { virtual_conversion: v.virtual_conversion, ..w };
        lemma_ext_next(w, c, w2, Cur { pos: c.pos + 2, ..c });
    }
}

proof fn lemma_ext_head_read(v: CanapeExtView, c: Cur)
    requires
        c.pos == 0,
        tokens_at(c.toks, 0, ext_head(v)),
    ensures
        CanapeExt::head(c) == Ok::<(CanapeExtView, Cur), Failure>(
            (CanapeExtView { version: v.version, ..CanapeExt::blank() }, Cur { pos: 2, ..c }),
        ),
{
    let h = ext_head(v);
    lemma_ext_words();
    assert(bare(c.toks[0int + 0]) == h[0]);
    assert(bare(c.toks[0int + 1]) == h[1]);
    law_integer_of_dec(v.version as int);
}

proof fn lemma_ext_read(v: CanapeExtView, c: Cur, f: Setting)
    requires
        ext_fits(v, f),
        toks_numbered(c.toks, f),
        c.pos == 0,
        tokens_at(c.toks, 0, ext_params(v)),
        c.toks.len() == ext_params(v).len(),
    ensures
        CanapeExt::head(c) matches Ok((w, n)) && CanapeExt::options(w, n) matches Ok((r, _)) && r
            == v,
{
    let h = ext_head(v);
    let y1 = link_tokens(v);
    let y2 = display_tokens(v);
    let y3 = conversion_tokens(v);
    lemma_tokens_at_split(c.toks, 0, h + y1 + y2, y3);
    lemma_tokens_at_split(c.toks, 0, h + y1, y2);
    lemma_tokens_at_split(c.toks, 0, h, y1);
    lemma_ext_head_read(v, c);
    let w0 = CanapeExtView { version: v.version, ..CanapeExt::blank() };
    let w1 = CanapeExtView { link_map: v.link_map, ..w0 };
    let w2 = CanapeExtView { display: v.display, ..w1 };
    let c0 = Cur { pos: 2, ..c };
    let c1 = Cur { pos: c0.pos + y1.len(), ..c };
    let c2 = Cur { pos: c1.pos + y2.len(), ..c };
    lemma_ext_link_step(v, w0, c0);
    lemma_ext_display_step(v, w1, c1, f);
    lemma_ext_conversion_step(v, w2, c2);
}

impl Faithful for CanapeExt {
    open spec fn fits(v: CanapeExtView, f: Setting) -> bool {
        ext_fits(v, f)
    }

    open spec fn shape(v: CanapeExtView) -> Tree {
        shape_of("IF_DATA"@, ext_params(v), Seq::empty())
    }

    proof fn law_shown(v: CanapeExtView, p: Page, f: Setting) {
        let x = ext_params(v);
        let none = Seq::<Tree>::empty();
        lemma_ext_words();
        lemma_keyword_param("IF_DATA"@);
        lemma_ext_spelled(v, f);
        lemma_shape_tokens(x, none);
        lemma_sound_shape("IF_DATA"@, x, none);
        assert(x + blocks_tokens(none, 0) =~= x);
        lemma_shows_line(p, CanapeExt::text(v), block_tokens(Self::shape(v)));
    }

    proof fn law_parsed(v: CanapeExtView, tree: Tree, f: Setting) {
        lemma_shape_found(tree, "IF_DATA"@, ext_params(v), Seq::empty(), f);
        lemma_ext_read(v, Cur::start(tree), f);
    }
}

} // verus!
