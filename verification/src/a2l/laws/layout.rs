//! Record layouts read back from what is written for them.

use crate::a2l::block::Tree;
use crate::a2l::error::Failure;
use crate::a2l::faithful::{
    Faithful, KeywordText, Setting, all_params, blocks_tokens, is_keyword, lemma_all_params_join,
    lemma_dec_param, lemma_keyword_param, lemma_keyword_word, lemma_shape_found,
    lemma_shape_tokens, lemma_shows_block, lemma_shows_word, lemma_shows_word_line,
    lemma_sound_shape, shape_of,
};
use crate::a2l::model::enums::{A2lKeyword, DataSize, DataType, IndexMode};
use crate::a2l::model::parts::word_or;
use crate::a2l::model::record_layout::{
    AxisPtsLayoutDescView, AxisRescaleLayoutDescView, EntryView, FncValuesLayoutDescView,
    NoAxisPtsLayoutDescView, RecordLayout, RecordLayoutView, aligned, alignment_of, axes, axis_of,
    by_position, entries_of, entry_inserted, maybe, prefix_of, read_data_type, read_single,
    reserved_entries, single_entry, singles, size_of_type, type_for_size, usual_alignments,
};
use crate::a2l::node::Node;
use crate::a2l::params::{Cur, law_integer_of_dec};
use crate::a2l::spell::{
    indents_by_blanks, lemma_shows_join, lemma_shows_line, lemma_shows_nothing, lemma_spells_join,
    lemma_spells_word, plain, shows,
};
use crate::a2l::token::{Tok, bare};
use crate::a2l::tree_laws::{is_param, lemma_shows_begin, lemma_tokens_at_split, tokens_at};
use crate::a2l::writer::{Page, quoted, Stopped};
use crate::text::{dec_int, same_ignore_case};
use vstd::prelude::*;

verus! {

/// What an entry is for. It goes by the type of the entry and by how its name starts.
pub open spec fn kind_of(e: EntryView) -> int {
    match e {
        EntryView::NoAxisPts(x) => {
            let k = prefix_of(plain(x.name));
            if k == "NO_AXI"@ {
                0
            } else if k == "SRC_AD"@ {
                2
            } else if k == "OFFSET"@ {
                3
            } else if k == "DIST_O"@ {
                4
            } else if k == "SHIFT_"@ {
                6
            } else if k == "RESERV"@ {
                7
            } else if k == "NO_RES"@ {
                9
            } else if k == "IDENTI"@ {
                10
            } else if k == "RIP_AD"@ {
                if x.name.last() == 'W' {
                    11
                } else {
                    5
                }
            } else {
                -1
            }
        },
        EntryView::AxisPts(_) => 1,
        EntryView::AxisRescale(_) => 8,
        EntryView::FncValues(_) => 12,
    }
}

/// The axis that an entry is for.
pub open spec fn axis_at(e: EntryView) -> int {
    match e {
        EntryView::NoAxisPts(x) => x.axis_idx as int,
        EntryView::AxisPts(x) => x.axis_idx as int,
        EntryView::AxisRescale(x) => x.axis_idx as int,
        EntryView::FncValues(_) => 0,
    }
}

/// Whether an entry can be written and read back.
pub open spec fn entry_fits(e: EntryView) -> bool {
    match e {
        EntryView::NoAxisPts(x) => {
            &&& is_param(plain(x.name))
            &&& kind_of(e) != -1
            &&& if kind_of(e) == 7 {
                &&& x.name == "RESERVED"@
                &&& x.axis_idx == -1
                &&& size_of_type(x.data_type) matches Some(size) && type_for_size(size)
                    == x.data_type
            } else if kind_of(e) == 10 {
                x.name == "IDENTIFICATION"@ && x.axis_idx == -1
            } else if kind_of(e) == 11 {
                x.axis_idx == -1
            } else {
                axis_of(x.name) == Some(x.axis_idx as int)
            }
        },
        EntryView::AxisPts(x) => {
            &&& is_param(plain(x.name))
            &&& prefix_of(plain(x.name)) == "AXIS_P"@
            &&& axis_of(x.name) == Some(x.axis_idx as int)
        },
        EntryView::AxisRescale(x) => x.name == "AXIS_RESCALE_X"@ && x.axis_idx == 0,
        EntryView::FncValues(x) => x.name == "FNC_VALUES"@,
    }
}

/// A data type as a token.
pub open spec fn type_token(d: DataType) -> Tok {
    plain(word_or(d.word(), "Unsupported"@))
}

/// What an entry is written as.
pub open spec fn entry_tokens(e: EntryView) -> Seq<Tok> {
    match e {
        EntryView::NoAxisPts(x) => seq![
            plain(x.name),
            plain(dec_int(x.position as int)),
            if x.name == "RESERVED"@ {
                plain(size_of_type(x.data_type)->Some_0.word()->Some_0)
            } else {
                type_token(x.data_type)
            },
        ],
        EntryView::AxisPts(x) => seq![
            plain(x.name),
            plain(dec_int(x.position as int)),
            type_token(x.data_type),
            plain(x.index_order.word()->Some_0),
            plain(x.address_type.word()->Some_0),
        ],
        EntryView::AxisRescale(x) => seq![
            plain(x.name),
            plain(dec_int(x.position as int)),
            type_token(x.data_type),
            plain(dec_int(x.max_no_rescale_pairs as int)),
            plain(x.index_order.word()->Some_0),
            plain(x.address_type.word()->Some_0),
        ],
        EntryView::FncValues(x) => seq![
            plain(x.name),
            plain(dec_int(x.position as int)),
            type_token(x.data_type),
            plain(word_or(x.index_mode.word(), "NotSet"@)),
            plain(x.address_type.word()->Some_0),
        ],
    }
}

proof fn lemma_type_param(d: DataType)
    ensures
        is_param(type_token(d)),
{
    d.lemma_word();
    reveal_strlit("Unsupported");
    lemma_keyword_param("Unsupported"@);
}

proof fn lemma_type_read(c: Cur, d: DataType)
    requires
        c.more(),
        bare(c.here()) == type_token(d),
    ensures
        read_data_type(c) == Ok::<(DataType, Cur), Failure>((d, c.step())),
{
    d.law_named_of_word();
    if d.word() is None {
        let w = "Unsupported"@;
        DataType::law_word_of_named(w);
        DataSize::law_word_of_named(w);
        reveal_strlit("Unsupported");
        reveal(same_ignore_case);
        reveal_strlit("UBYTE");
        assert("UBYTE"@.len() != w.len());
        reveal_strlit("SBYTE");
        assert("SBYTE"@.len() != w.len());
        reveal_strlit("UWORD");
        assert("UWORD"@.len() != w.len());
        reveal_strlit("SWORD");
        assert("SWORD"@.len() != w.len());
        reveal_strlit("ULONG");
        assert("ULONG"@.len() != w.len());
        reveal_strlit("SLONG");
        assert("SLONG"@.len() != w.len());
        reveal_strlit("A_UINT64");
        assert("A_UINT64"@.len() != w.len());
        reveal_strlit("A_INT64");
        assert("A_INT64"@.len() != w.len());
        reveal_strlit("FLOAT16_IEEE");
        assert("FLOAT16_IEEE"@.len() != w.len());
        reveal_strlit("FLOAT32_IEEE");
        assert("FLOAT32_IEEE"@.len() != w.len());
        reveal_strlit("FLOAT64_IEEE");
        assert("FLOAT64_IEEE"@.len() != w.len());
        reveal_strlit("BYTE");
        assert("BYTE"@.len() != w.len());
        reveal_strlit("WORD");
        assert("WORD"@.len() != w.len());
        reveal_strlit("LONG");
        assert("LONG"@.len() != w.len());
    }
}

proof fn lemma_single_shown(x: NoAxisPtsLayoutDescView, p: Page)
    requires
        entry_fits(EntryView::NoAxisPts(x)),
        indents_by_blanks(p),
    ensures
        ({
            let e = EntryView::NoAxisPts(x);
            &&& e.text() matches Ok(t) && shows(p, p.line(t), entry_tokens(e)) && p.line(t).depth
                == p.depth && p.line(t).style == p.style
            &&& all_params(entry_tokens(e))
        }),
{
    let e = EntryView::NoAxisPts(x);
    let t = e.text()->Ok_0;
    lemma_dec_param(x.position as int);
    lemma_type_param(x.data_type);
    let last = if x.name == "RESERVED"@ {
        size_of_type(x.data_type)->Some_0.word()->Some_0
    } else {
        word_or(x.data_type.word(), "Unsupported"@)
    };
    if x.name == "RESERVED"@ {
        reveal_strlit("RESERVED");
        reveal_strlit("RESERV");
        assert("RESERVED"@.subrange(0, 6) =~= "RESERV"@);
        reveal_strlit("RESERV");
        reveal_strlit("FIX_NO");
        assert("RESERV"@[0] != "FIX_NO"@[0]);
        reveal_strlit("FNC_VA");
        assert("RESERV"@[0] != "FNC_VA"@[0]);
        reveal_strlit("DIST_O");
        assert("RESERV"@[0] != "DIST_O"@[0]);
        reveal_strlit("SRC_AD");
        assert("RESERV"@[0] != "SRC_AD"@[0]);
        reveal_strlit("NO_AXI");
        assert("RESERV"@[0] != "NO_AXI"@[0]);
        reveal_strlit("OFFSET");
        assert("RESERV"@[0] != "OFFSET"@[0]);
        reveal_strlit("SHIFT_");
        assert("RESERV"@[0] != "SHIFT_"@[0]);
        reveal_strlit("AXIS_P");
        assert("RESERV"@[0] != "AXIS_P"@[0]);
        reveal_strlit("IDENTI");
        assert("RESERV"@[0] != "IDENTI"@[0]);
        reveal_strlit("AXIS_R");
        assert("RESERV"@[0] != "AXIS_R"@[0]);
        reveal_strlit("NO_RES");
        assert("RESERV"@[0] != "NO_RES"@[0]);
        assert(kind_of(e) == 7);
        size_of_type(x.data_type)->Some_0.lemma_word();
    }
    lemma_spells_word(x.name);
    lemma_spells_word(dec_int(x.position as int));
    lemma_spells_join(
        x.name,
        seq![plain(x.name)],
        dec_int(x.position as int),
        seq![plain(dec_int(x.position as int))]
    );
    lemma_spells_word(last);
    lemma_spells_join(
        x.name + " "@ + dec_int(x.position as int),
        seq![plain(x.name)] + seq![plain(dec_int(x.position as int))],
        last,
        seq![plain(last)]
    );
    assert(seq![plain(x.name)] + seq![plain(dec_int(x.position as int))] + seq![plain(last)] =~= entry_tokens(e));
    lemma_shows_line(p, t, entry_tokens(e));
}

proof fn lemma_axis_shown(x: AxisPtsLayoutDescView, p: Page)
    requires
        entry_fits(EntryView::AxisPts(x)),
        indents_by_blanks(p),
    ensures
        ({
            let e = EntryView::AxisPts(x);
            &&& e.text() matches Ok(t) && shows(p, p.line(t), entry_tokens(e)) && p.line(t).depth
                == p.depth && p.line(t).style == p.style
            &&& all_params(entry_tokens(e))
        }),
{
    let e = EntryView::AxisPts(x);
    let t = e.text()->Ok_0;
    x.address_type.lemma_word();
    lemma_type_param(x.data_type);
    lemma_dec_param(x.position as int);
    x.index_order.lemma_word();
    lemma_spells_word(x.name);
    lemma_spells_word(dec_int(x.position as int));
    lemma_spells_join(
        x.name,
        seq![plain(x.name)],
        dec_int(x.position as int),
        seq![plain(dec_int(x.position as int))]
    );
    lemma_spells_word(word_or(x.data_type.word(), "Unsupported"@));
    lemma_spells_join(
        x.name + " "@ + dec_int(x.position as int),
        seq![plain(x.name)] + seq![plain(dec_int(x.position as int))],
        word_or(x.data_type.word(), "Unsupported"@),
        seq![plain(word_or(x.data_type.word(), "Unsupported"@))]
    );
    lemma_spells_word(word_or(x.index_order.word(), ""@));
    lemma_spells_join(
        x.name + " "@ + dec_int(x.position as int) + " "@ + word_or(
            x.data_type.word(),
            "Unsupported"@
        ),
        seq![plain(x.name)] + seq![plain(dec_int(x.position as int))] + seq![
            plain(word_or(x.data_type.word(), "Unsupported"@))
        ],
        word_or(x.index_order.word(), ""@),
        seq![plain(word_or(x.index_order.word(), ""@))]
    );
    lemma_spells_word(word_or(x.address_type.word(), ""@));
    lemma_spells_join(
        x.name + " "@ + dec_int(x.position as int) + " "@ + word_or(
            x.data_type.word(),
            "Unsupported"@
        ) + " "@ + word_or(x.index_order.word(), ""@),
        seq![plain(x.name)] + seq![plain(dec_int(x.position as int))] + seq![
            plain(word_or(x.data_type.word(), "Unsupported"@))
        ] + seq![plain(word_or(x.index_order.word(), ""@))],
        word_or(x.address_type.word(), ""@),
        seq![plain(word_or(x.address_type.word(), ""@))]
    );
    assert(
        seq![plain(x.name)] + seq![plain(dec_int(x.position as int))] + seq![
            plain(word_or(x.data_type.word(), "Unsupported"@))
        ] + seq![plain(word_or(x.index_order.word(), ""@))] + seq![plain(word_or(x.address_type.word(), ""@))] =~= entry_tokens(e)
    );
    lemma_shows_line(p, t, entry_tokens(e));
}

proof fn lemma_rescale_shown(x: AxisRescaleLayoutDescView, p: Page)
    requires
        entry_fits(EntryView::AxisRescale(x)),
        indents_by_blanks(p),
    ensures
        ({
            let e = EntryView::AxisRescale(x);
            &&& e.text() matches Ok(t) && shows(p, p.line(t), entry_tokens(e)) && p.line(t).depth
                == p.depth && p.line(t).style == p.style
            &&& all_params(entry_tokens(e))
        }),
{
    let e = EntryView::AxisRescale(x);
    let t = e.text()->Ok_0;
    x.address_type.lemma_word();
    lemma_type_param(x.data_type);
    lemma_dec_param(x.position as int);
    x.index_order.lemma_word();
    lemma_dec_param(x.max_no_rescale_pairs as int);
    reveal_strlit("AXIS_RESCALE_X");
    lemma_keyword_param("AXIS_RESCALE_X"@);
    lemma_spells_word(x.name);
    lemma_spells_word(dec_int(x.position as int));
    lemma_spells_join(
        x.name,
        seq![plain(x.name)],
        dec_int(x.position as int),
        seq![plain(dec_int(x.position as int))]
    );
    lemma_spells_word(word_or(x.data_type.word(), "Unsupported"@));
    lemma_spells_join(
        x.name + " "@ + dec_int(x.position as int),
        seq![plain(x.name)] + seq![plain(dec_int(x.position as int))],
        word_or(x.data_type.word(), "Unsupported"@),
        seq![plain(word_or(x.data_type.word(), "Unsupported"@))]
    );
    lemma_spells_word(dec_int(x.max_no_rescale_pairs as int));
    lemma_spells_join(
        x.name + " "@ + dec_int(x.position as int) + " "@ + word_or(
            x.data_type.word(),
            "Unsupported"@
        ),
        seq![plain(x.name)] + seq![plain(dec_int(x.position as int))] + seq![
            plain(word_or(x.data_type.word(), "Unsupported"@))
        ],
        dec_int(x.max_no_rescale_pairs as int),
        seq![plain(dec_int(x.max_no_rescale_pairs as int))]
    );
    lemma_spells_word(word_or(x.index_order.word(), ""@));
    lemma_spells_join(
        x.name + " "@ + dec_int(x.position as int) + " "@ + word_or(
            x.data_type.word(),
            "Unsupported"@
        ) + " "@ + dec_int(x.max_no_rescale_pairs as int),
        seq![plain(x.name)] + seq![plain(dec_int(x.position as int))] + seq![
            plain(word_or(x.data_type.word(), "Unsupported"@))
        ] + seq![plain(dec_int(x.max_no_rescale_pairs as int))],
        word_or(x.index_order.word(), ""@),
        seq![plain(word_or(x.index_order.word(), ""@))]
    );
    lemma_spells_word(word_or(x.address_type.word(), ""@));
    lemma_spells_join(
        x.name + " "@ + dec_int(x.position as int) + " "@ + word_or(
            x.data_type.word(),
            "Unsupported"@
        ) + " "@ + dec_int(x.max_no_rescale_pairs as int) + " "@ + word_or(x.index_order.word(), ""@),
        seq![plain(x.name)] + seq![plain(dec_int(x.position as int))] + seq![
            plain(word_or(x.data_type.word(), "Unsupported"@))
        ] + seq![plain(dec_int(x.max_no_rescale_pairs as int))] + seq![plain(word_or(x.index_order.word(), ""@))],
        word_or(x.address_type.word(), ""@),
        seq![plain(word_or(x.address_type.word(), ""@))]
    );
    assert(
        seq![plain(x.name)] + seq![plain(dec_int(x.position as int))] + seq![
            plain(word_or(x.data_type.word(), "Unsupported"@))
        ] + seq![plain(dec_int(x.max_no_rescale_pairs as int))] + seq![plain(word_or(x.index_order.word(), ""@))] + seq![plain(word_or(x.address_type.word(), ""@))] =~= entry_tokens(e)
    );
    lemma_shows_line(p, t, entry_tokens(e));
}

proof fn lemma_values_shown(x: FncValuesLayoutDescView, p: Page)
    requires
        entry_fits(EntryView::FncValues(x)),
        indents_by_blanks(p),
    ensures
        ({
            let e = EntryView::FncValues(x);
            &&& e.text() matches Ok(t) && shows(p, p.line(t), entry_tokens(e)) && p.line(t).depth
                == p.depth && p.line(t).style == p.style
            &&& all_params(entry_tokens(e))
        }),
{
    let e = EntryView::FncValues(x);
    let t = e.text()->Ok_0;
    x.address_type.lemma_word();
    lemma_type_param(x.data_type);
    lemma_dec_param(x.position as int);
    x.index_mode.lemma_word();
    reveal_strlit("NotSet");
    lemma_keyword_param("NotSet"@);
    reveal_strlit("FNC_VALUES");
    lemma_keyword_param("FNC_VALUES"@);
    lemma_spells_word(x.name);
    lemma_spells_word(dec_int(x.position as int));
    lemma_spells_join(
        x.name,
        seq![plain(x.name)],
        dec_int(x.position as int),
        seq![plain(dec_int(x.position as int))]
    );
    lemma_spells_word(word_or(x.data_type.word(), "Unsupported"@));
    lemma_spells_join(
        x.name + " "@ + dec_int(x.position as int),
        seq![plain(x.name)] + seq![plain(dec_int(x.position as int))],
        word_or(x.data_type.word(), "Unsupported"@),
        seq![plain(word_or(x.data_type.word(), "Unsupported"@))]
    );
    lemma_spells_word(word_or(x.index_mode.word(), "NotSet"@));
    lemma_spells_join(
        x.name + " "@ + dec_int(x.position as int) + " "@ + word_or(
            x.data_type.word(),
            "Unsupported"@
        ),
        seq![plain(x.name)] + seq![plain(dec_int(x.position as int))] + seq![
            plain(word_or(x.data_type.word(), "Unsupported"@))
        ],
        word_or(x.index_mode.word(), "NotSet"@),
        seq![plain(word_or(x.index_mode.word(), "NotSet"@))]
    );
    lemma_spells_word(word_or(x.address_type.word(), ""@));
    lemma_spells_join(
        x.name + " "@ + dec_int(x.position as int) + " "@ + word_or(
            x.data_type.word(),
            "Unsupported"@
        ) + " "@ + word_or(x.index_mode.word(), "NotSet"@),
        seq![plain(x.name)] + seq![plain(dec_int(x.position as int))] + seq![
            plain(word_or(x.data_type.word(), "Unsupported"@))
        ] + seq![plain(word_or(x.index_mode.word(), "NotSet"@))],
        word_or(x.address_type.word(), ""@),
        seq![plain(word_or(x.address_type.word(), ""@))]
    );
    assert(
        seq![plain(x.name)] + seq![plain(dec_int(x.position as int))] + seq![
            plain(word_or(x.data_type.word(), "Unsupported"@))
        ] + seq![plain(word_or(x.index_mode.word(), "NotSet"@))] + seq![plain(word_or(x.address_type.word(), ""@))] =~= entry_tokens(e)
    );
    lemma_shows_line(p, t, entry_tokens(e));
}

/// What the entries from an index on are written as.
pub open spec fn layout_tokens(s: Seq<EntryView>, i: int) -> Seq<Tok>
    decreases s.len() - i,
{
    if i < 0 || i >= s.len() {
        Seq::empty()
    } else {
        entry_tokens(s[i]) + layout_tokens(s, i + 1)
    }
}

/// Whether all entries can be written and read back.
pub open spec fn entries_fit(s: Seq<EntryView>) -> bool {
    forall|i: int| 0 <= i < s.len() ==> entry_fits(#[trigger] s[i])
}

proof fn lemma_entries_shown(s: Seq<EntryView>, i: int, p: Page)
    requires
        0 <= i <= s.len(),
        entries_fit(s),
        indents_by_blanks(p),
    ensures
        RecordLayout::entry_lines(s, i, p) matches Ok(q) && shows(p, q, layout_tokens(s, i))
            && q.depth == p.depth && q.style == p.style,
        all_params(layout_tokens(s, i)),
    decreases s.len() - i,
{
    if i == s.len() {
        lemma_shows_nothing(p);
    } else {
        let e = s[i];
        assert(entry_fits(s[i]));
        match e {
            EntryView::NoAxisPts(x) => lemma_single_shown(x, p),
            EntryView::AxisPts(x) => lemma_axis_shown(x, p),
            EntryView::AxisRescale(x) => lemma_rescale_shown(x, p),
            EntryView::FncValues(x) => lemma_values_shown(x, p),
        }
        let q = p.line(e.text()->Ok_0);
        lemma_entries_shown(s, i + 1, q);
        lemma_shows_join(
            p,
            q,
            RecordLayout::entry_lines(s, i, p)->Ok_0,
            entry_tokens(e),
            layout_tokens(s, i + 1),
        );
        lemma_all_params_join(entry_tokens(e), layout_tokens(s, i + 1));
    }
}

/// Single values with that of an entry, if it is one of them.
pub open spec fn single_put(
    s: Seq<Option<NoAxisPtsLayoutDescView>>,
    here: bool,
    e: EntryView,
) -> Seq<Option<NoAxisPtsLayoutDescView>> {
    if here {
        s.update(axis_at(e), Some(e->NoAxisPts_0))
    } else {
        s
    }
}

/// A layout with another entry.
pub open spec fn put(w: RecordLayoutView, e: EntryView) -> RecordLayoutView {
    let k = kind_of(e);
    RecordLayoutView {
        no_axis_pts: single_put(w.no_axis_pts, k == 0, e),
        axis_pts: if k == 1 {
            w.axis_pts.update(axis_at(e), Some(e->AxisPts_0))
        } else {
            w.axis_pts
        },
        src_address: single_put(w.src_address, k == 2, e),
        offset: single_put(w.offset, k == 3, e),
        dist_op: single_put(w.dist_op, k == 4, e),
        rip_addr: single_put(w.rip_addr, k == 5, e),
        shift_op: single_put(w.shift_op, k == 6, e),
        reserved: if k == 7 {
            w.reserved.push(e->NoAxisPts_0)
        } else {
            w.reserved
        },
        axis_rescale_x: if k == 8 {
            Some(e->AxisRescale_0)
        } else {
            w.axis_rescale_x
        },
        no_rescale_x: if k == 9 {
            Some(e->NoAxisPts_0)
        } else {
            w.no_rescale_x
        },
        identification: if k == 10 {
            Some(e->NoAxisPts_0)
        } else {
            w.identification
        },
        rip_addr_w: if k == 11 {
            Some(e->NoAxisPts_0)
        } else {
            w.rip_addr_w
        },
        fnc_values: if k == 12 {
            Some(e->FncValues_0)
        } else {
            w.fnc_values
        },
        ..w
    }
}

/// Whether there is a place for each axis.
pub open spec fn five(w: RecordLayoutView) -> bool {
    &&& w.no_axis_pts.len() == 5
    &&& w.axis_pts.len() == 5
    &&& w.src_address.len() == 5
    &&& w.offset.len() == 5
    &&& w.dist_op.len() == 5
    &&& w.rip_addr.len() == 5
    &&& w.shift_op.len() == 5
}

/// A layout with more entries.
pub open spec fn put_all(w: RecordLayoutView, s: Seq<EntryView>) -> RecordLayoutView
    decreases s.len(),
{
    if s.len() == 0 {
        w
    } else {
        put(put_all(w, s.drop_last()), s.last())
    }
}

proof fn lemma_put_five(w: RecordLayoutView, e: EntryView)
    requires
        five(w),
        entry_fits(e),
    ensures
        five(put(w, e)),
        kind_of(e) <= 6 ==> 0 <= axis_at(e) < 5,
{
}

proof fn lemma_put_all_five(w: RecordLayoutView, s: Seq<EntryView>)
    requires
        five(w),
        entries_fit(s),
    ensures
        five(put_all(w, s)),
    decreases s.len(),
{
    if s.len() > 0 {
        let t = s.drop_last();
        assert forall|i: int| 0 <= i < t.len() implies entry_fits(#[trigger] t[i]) by {
            assert(entry_fits(s[i]));
        }
        lemma_put_all_five(w, t);
        assert(entry_fits(s[s.len() - 1]));
        lemma_put_five(put_all(w, t), s.last());
    }
}

/// Which place of a layout an entry has.
pub open spec fn rank(e: EntryView) -> int {
    kind_of(e) * 8 + if kind_of(e) <= 6 {
        axis_at(e)
    } else {
        0
    }
}

/// Whether an entry may come behind another one when they are arranged by position.
pub open spec fn may_follow(a: EntryView, b: EntryView) -> bool {
    rank(a) != rank(b) || a.position() <= b.position()
}

proof fn lemma_put_commutes(w: RecordLayoutView, a: EntryView, b: EntryView)
    requires
        five(w),
        entry_fits(a),
        entry_fits(b),
        rank(a) != rank(b),
    ensures
        put(put(w, a), b) == put(put(w, b), a),
{
    lemma_put_five(w, a);
    lemma_put_five(w, b);
    let l = put(put(w, a), b);
    let r = put(put(w, b), a);
    assert(l.no_axis_pts =~= r.no_axis_pts);
    assert(l.axis_pts =~= r.axis_pts);
    assert(l.src_address =~= r.src_address);
    assert(l.offset =~= r.offset);
    assert(l.dist_op =~= r.dist_op);
    assert(l.rip_addr =~= r.rip_addr);
    assert(l.shift_op =~= r.shift_op);
}

/// Whether an entry may follow all the others.
pub open spec fn may_follow_all(s: Seq<EntryView>, x: EntryView) -> bool {
    forall|i: int| 0 <= i < s.len() ==> may_follow(#[trigger] s[i], x)
}

proof fn lemma_put_inserted(w: RecordLayoutView, s: Seq<EntryView>, x: EntryView)
    requires
        five(w),
        entries_fit(s),
        entry_fits(x),
        may_follow_all(s, x),
    ensures
        put_all(w, entry_inserted(s, x)) == put(put_all(w, s), x),
        entries_fit(entry_inserted(s, x)),
    decreases s.len(),
{
    if s.len() > 0 && s.last().position() > x.position() {
        let t = s.drop_last();
        assert forall|i: int| 0 <= i < t.len() implies entry_fits(#[trigger] t[i]) && may_follow(
            t[i],
            x,
        ) by {
            assert(entry_fits(s[i]) && may_follow(s[i], x));
        }
        lemma_put_inserted(w, t, x);
        lemma_put_all_five(w, t);
        assert(entry_fits(s[s.len() - 1]) && may_follow(s[s.len() - 1], x));
        let u = entry_inserted(t, x);
        assert(entry_inserted(s, x).drop_last() =~= u);
        lemma_put_commutes(put_all(w, t), x, s.last());
        assert forall|i: int| 0 <= i < entry_inserted(s, x).len() implies entry_fits(
            #[trigger] entry_inserted(s, x)[i],
        ) by {
            if i < u.len() {
                assert(entry_fits(u[i]));
            }
        }
    } else {
        assert(s.push(x).drop_last() =~= s);
        assert forall|i: int| 0 <= i < s.push(x).len() implies entry_fits(
            #[trigger] s.push(x)[i],
        ) by {
            if i < s.len() {
                assert(entry_fits(s[i]));
            }
        }
    }
}

proof fn lemma_inserted_follows(s: Seq<EntryView>, x: EntryView, y: EntryView)
    requires
        may_follow_all(s, y),
        may_follow(x, y),
    ensures
        may_follow_all(entry_inserted(s, x), y),
    decreases s.len(),
{
    let r = entry_inserted(s, x);
    if s.len() > 0 && s.last().position() > x.position() {
        let t = s.drop_last();
        assert forall|i: int| 0 <= i < t.len() implies may_follow(#[trigger] t[i], y) by {
            assert(may_follow(s[i], y));
        }
        lemma_inserted_follows(t, x, y);
        let u = entry_inserted(t, x);
        assert forall|i: int| 0 <= i < r.len() implies may_follow(#[trigger] r[i], y) by {
            if i < u.len() {
                assert(may_follow(u[i], y));
            } else {
                assert(may_follow(s[s.len() - 1], y));
            }
        }
    } else {
        assert forall|i: int| 0 <= i < r.len() implies may_follow(#[trigger] r[i], y) by {
            if i < s.len() {
                assert(may_follow(s[i], y));
            }
        }
    }
}

proof fn lemma_sorted_follows(s: Seq<EntryView>, y: EntryView)
    requires
        may_follow_all(s, y),
    ensures
        may_follow_all(by_position(s), y),
    decreases s.len(),
{
    if s.len() > 0 {
        let t = s.drop_last();
        assert forall|i: int| 0 <= i < t.len() implies may_follow(#[trigger] t[i], y) by {
            assert(may_follow(s[i], y));
        }
        lemma_sorted_follows(t, y);
        assert(may_follow(s[s.len() - 1], y));
        lemma_inserted_follows(by_position(t), s.last(), y);
    }
}

/// Whether each entry may follow those before it.
pub open spec fn may_be_sorted(s: Seq<EntryView>) -> bool {
    forall|i: int, j: int| 0 <= i < j < s.len() ==> may_follow(#[trigger] s[i], #[trigger] s[j])
}

proof fn lemma_put_sorted(w: RecordLayoutView, s: Seq<EntryView>)
    requires
        five(w),
        entries_fit(s),
        may_be_sorted(s),
    ensures
        put_all(w, by_position(s)) == put_all(w, s),
        entries_fit(by_position(s)),
    decreases s.len(),
{
    if s.len() > 0 {
        let t = s.drop_last();
        let x = s.last();
        assert forall|i: int| 0 <= i < t.len() implies entry_fits(#[trigger] t[i]) by {
            assert(entry_fits(s[i]));
        }
        assert forall|i: int, j: int| 0 <= i < j < t.len() implies may_follow(
            #[trigger] t[i],
            #[trigger] t[j],
        ) by {
            assert(may_follow(s[i], s[j]));
        }
        lemma_put_sorted(w, t);
        assert forall|i: int| 0 <= i < t.len() implies may_follow(#[trigger] t[i], x) by {
            assert(may_follow(s[i], s[s.len() - 1]));
        }
        assert(entry_fits(s[s.len() - 1]));
        lemma_sorted_follows(t, x);
        lemma_put_inserted(w, by_position(t), x);
    }
}

proof fn lemma_put_all_join(w: RecordLayoutView, a: Seq<EntryView>, b: Seq<EntryView>)
    ensures
        put_all(w, a + b) == put_all(put_all(w, a), b),
    decreases b.len(),
{
    if b.len() == 0 {
        assert(a + b =~= a);
    } else {
        lemma_put_all_join(w, a, b.drop_last());
        assert((a + b).drop_last() =~= a + b.drop_last());
    }
}

/// Whether entries can be written and read back, may be arranged by position, and have places
/// from one on and before another.
pub open spec fn ranked(s: Seq<EntryView>, lo: int, hi: int) -> bool {
    &&& entries_fit(s)
    &&& may_be_sorted(s)
    &&& forall|i: int| 0 <= i < s.len() ==> lo <= rank(#[trigger] s[i]) < hi
}

proof fn lemma_ranked_join(a: Seq<EntryView>, b: Seq<EntryView>, lo: int, mid: int, hi: int)
    requires
        ranked(a, lo, mid),
        ranked(b, mid, hi),
        lo <= mid <= hi,
    ensures
        ranked(a + b, lo, hi),
{
    let s = a + b;
    assert forall|i: int| 0 <= i < s.len() implies entry_fits(#[trigger] s[i]) && lo <= rank(
        s[i],
    ) < hi by {
        if i < a.len() {
            assert(s[i] == a[i]);
            assert(entry_fits(a[i]) && lo <= rank(a[i]) < mid);
        } else {
            assert(s[i] == b[i - a.len()]);
            assert(entry_fits(b[i - a.len()]) && mid <= rank(b[i - a.len()]) < hi);
        }
    }
    assert forall|i: int, j: int| 0 <= i < j < s.len() implies may_follow(
        #[trigger] s[i],
        #[trigger] s[j],
    ) by {
        if j < a.len() {
            assert(may_follow(a[i], a[j]));
        } else if i >= a.len() {
            assert(may_follow(b[i - a.len()], b[j - a.len()]));
        } else {
            assert(rank(a[i]) < mid);
            assert(rank(b[j - a.len()]) >= mid);
        }
    }
}

/// Whether the single values of each axis can be written and read back.
pub open spec fn singles_fit(s: Seq<Option<NoAxisPtsLayoutDescView>>, kind: int) -> bool {
    &&& s.len() == 5
    &&& forall|i: int|
        0 <= i < 5 ==> ((#[trigger] s[i]) matches Some(x) ==> {
            &&& entry_fits(EntryView::NoAxisPts(x))
            &&& kind_of(EntryView::NoAxisPts(x)) == kind
            &&& x.axis_idx == i
        })
}

/// Whether the axis points of each axis can be written and read back.
pub open spec fn axes_fit(s: Seq<Option<AxisPtsLayoutDescView>>) -> bool {
    &&& s.len() == 5
    &&& forall|i: int|
        0 <= i < 5 ==> ((#[trigger] s[i]) matches Some(x) ==> {
            &&& entry_fits(EntryView::AxisPts(x))
            &&& x.axis_idx == i
        })
}

/// Values with the first of others put over them.
pub open spec fn merged<T>(old_values: Seq<Option<T>>, s: Seq<Option<T>>, n: int) -> Seq<Option<T>> {
    Seq::new(
        5,
        |i: int|
            if i < n && s[i] is Some {
                s[i]
            } else {
                old_values[i]
            },
    )
}

/// The single values of a kind.
pub open spec fn singles_of(w: RecordLayoutView, kind: int) -> Seq<
    Option<NoAxisPtsLayoutDescView>,
> {
    if kind == 0 {
        w.no_axis_pts
    } else if kind == 2 {
        w.src_address
    } else if kind == 3 {
        w.offset
    } else if kind == 4 {
        w.dist_op
    } else if kind == 5 {
        w.rip_addr
    } else {
        w.shift_op
    }
}

/// A layout with the single values of a kind.
pub open spec fn with_singles(
    w: RecordLayoutView,
    kind: int,
    s: Seq<Option<NoAxisPtsLayoutDescView>>,
) -> RecordLayoutView {
    if kind == 0 {
        RecordLayoutView { no_axis_pts: s, ..w }
    } else if kind == 2 {
        RecordLayoutView { src_address: s, ..w }
    } else if kind == 3 {
        RecordLayoutView { offset: s, ..w }
    } else if kind == 4 {
        RecordLayoutView { dist_op: s, ..w }
    } else if kind == 5 {
        RecordLayoutView { rip_addr: s, ..w }
    } else {
        RecordLayoutView { shift_op: s, ..w }
    }
}

proof fn lemma_singles_put(
    w: RecordLayoutView,
    s: Seq<Option<NoAxisPtsLayoutDescView>>,
    kind: int,
    n: int,
)
    requires
        five(w),
        singles_fit(s, kind),
        kind == 0 || 2 <= kind <= 6,
        0 <= n <= 5,
    ensures
        put_all(w, singles(s.subrange(0, n))) == with_singles(
            w,
            kind,
            merged(singles_of(w, kind), s, n),
        ),
        ranked(singles(s.subrange(0, n)), kind * 8, kind * 8 + n),
    decreases n,
{
    let t = s.subrange(0, n);
    let all = singles(t);
    let r = with_singles(w, kind, merged(singles_of(w, kind), s, n));
    if n == 0 {
        assert(merged(singles_of(w, kind), s, n) =~= singles_of(w, kind));
    } else {
        lemma_singles_put(w, s, kind, n - 1);
        assert(t.drop_last() =~= s.subrange(0, n - 1));
        let before = singles(s.subrange(0, n - 1));
        let m = merged(singles_of(w, kind), s, n - 1);
        match s[n - 1] {
            Some(x) => {
                let e = EntryView::NoAxisPts(x);
                assert(all.drop_last() =~= before);
                assert(m.update(n - 1, Some(x)) =~= merged(singles_of(w, kind), s, n));
                let one = seq![e];
                assert(ranked(one, kind * 8 + n - 1, kind * 8 + n));
                lemma_ranked_join(before, one, kind * 8, kind * 8 + n - 1, kind * 8 + n);
                assert(before + one =~= all);
            },
            None => {
                assert(m =~= merged(singles_of(w, kind), s, n));
                assert forall|i: int| 0 <= i < all.len() implies kind * 8 <= rank(
                    #[trigger] all[i],
                ) < kind * 8 + n by {
                    assert(rank(before[i]) < kind * 8 + n - 1);
                }
            },
        }
    }
}

proof fn lemma_axes_put(w: RecordLayoutView, s: Seq<Option<AxisPtsLayoutDescView>>, n: int)
    requires
        five(w),
        axes_fit(s),
        0 <= n <= 5,
    ensures
        put_all(w, axes(s.subrange(0, n))) == (RecordLayoutView {
            axis_pts: merged(w.axis_pts, s, n),
            ..w
        }),
        ranked(axes(s.subrange(0, n)), 8, 8 + n),
    decreases n,
{
    let t = s.subrange(0, n);
    let all = axes(t);
    if n == 0 {
        assert(merged(w.axis_pts, s, n) =~= w.axis_pts);
    } else {
        lemma_axes_put(w, s, n - 1);
        assert(t.drop_last() =~= s.subrange(0, n - 1));
        let before = axes(s.subrange(0, n - 1));
        let m = merged(w.axis_pts, s, n - 1);
        match s[n - 1] {
            Some(x) => {
                let e = EntryView::AxisPts(x);
                assert(all.drop_last() =~= before);
                assert(m.update(n - 1, Some(x)) =~= merged(w.axis_pts, s, n));
                let one = seq![e];
                assert(ranked(one, 8 + n - 1, 8 + n));
                lemma_ranked_join(before, one, 8, 8 + n - 1, 8 + n);
                assert(before + one =~= all);
            },
            None => {
                assert(m =~= merged(w.axis_pts, s, n));
                assert forall|i: int| 0 <= i < all.len() implies 8 <= rank(#[trigger] all[i]) < 8
                    + n by {
                    assert(rank(before[i]) < 8 + n - 1);
                }
            },
        }
    }
}

/// Whether reserved memory can be written and read back: it is in the order of its positions.
pub open spec fn reserved_fits(s: Seq<NoAxisPtsLayoutDescView>) -> bool {
    &&& forall|i: int|
        0 <= i < s.len() ==> entry_fits(EntryView::NoAxisPts(#[trigger] s[i])) && kind_of(
            EntryView::NoAxisPts(s[i]),
        ) == 7
    &&& forall|i: int, j: int|
        0 <= i < j < s.len() ==> (#[trigger] s[i]).position <= (#[trigger] s[j]).position
}

proof fn lemma_reserved_put(w: RecordLayoutView, s: Seq<NoAxisPtsLayoutDescView>)
    requires
        reserved_fits(s),
    ensures
        put_all(w, reserved_entries(s)) == (RecordLayoutView { reserved: w.reserved + s, ..w }),
        ranked(reserved_entries(s), 56, 57),
    decreases s.len(),
{
    let all = reserved_entries(s);
    if s.len() == 0 {
        assert(w.reserved + s =~= w.reserved);
    } else {
        let t = s.drop_last();
        assert forall|i: int| 0 <= i < t.len() implies entry_fits(
            EntryView::NoAxisPts(#[trigger] t[i]),
        ) && kind_of(EntryView::NoAxisPts(t[i])) == 7 by {
            assert(entry_fits(EntryView::NoAxisPts(s[i])));
        }
        assert forall|i: int, j: int| 0 <= i < j < t.len() implies (#[trigger] t[i]).position <= (
        #[trigger] t[j]).position by {
            assert(s[i].position <= s[j].position);
        }
        lemma_reserved_put(w, t);
        assert(all.drop_last() =~= reserved_entries(t));
        assert(entry_fits(EntryView::NoAxisPts(s[s.len() - 1])));
        assert((w.reserved + t).push(s.last()) =~= w.reserved + s);
    }
    assert forall|i: int, j: int| 0 <= i < j < all.len() implies may_follow(
        #[trigger] all[i],
        #[trigger] all[j],
    ) by {
        assert(s[i].position <= s[j].position);
    }
}

proof fn lemma_one_put(w: RecordLayoutView, e: Option<EntryView>, kind: int)
    requires
        kind >= 8,
        e matches Some(x) ==> entry_fits(x) && kind_of(x) == kind,
    ensures
        put_all(w, maybe(e)) == match e {
            Some(x) => put(w, x),
            None => w,
        },
        ranked(maybe(e), kind * 8, kind * 8 + 1),
{
    if let Some(x) = e {
        assert(maybe(e).drop_last() =~= Seq::<EntryView>::empty());
        assert(put_all(w, Seq::<EntryView>::empty()) == w);
    }
}

/// An entry for rescaling, if there is one.
pub open spec fn rescale_entry(v: RecordLayoutView) -> Option<EntryView> {
    match v.axis_rescale_x {
        Some(e) => Some(EntryView::AxisRescale(e)),
        None => None,
    }
}

/// An entry for the function values, if there is one.
pub open spec fn values_entry(v: RecordLayoutView) -> Option<EntryView> {
    match v.fnc_values {
        Some(e) => Some(EntryView::FncValues(e)),
        None => None,
    }
}

/// Whether an optional entry can be written and read back.
pub open spec fn maybe_fits(e: Option<EntryView>, kind: int) -> bool {
    e matches Some(x) ==> entry_fits(x) && kind_of(x) == kind
}

/// Whether all entries of a layout can be written and read back.
pub open spec fn layout_fits(v: RecordLayoutView) -> bool {
    &&& singles_fit(v.no_axis_pts, 0)
    &&& axes_fit(v.axis_pts)
    &&& singles_fit(v.src_address, 2)
    &&& singles_fit(v.offset, 3)
    &&& singles_fit(v.dist_op, 4)
    &&& singles_fit(v.rip_addr, 5)
    &&& singles_fit(v.shift_op, 6)
    &&& reserved_fits(v.reserved)
    &&& maybe_fits(rescale_entry(v), 8)
    &&& maybe_fits(single_entry(v.no_rescale_x), 9)
    &&& maybe_fits(single_entry(v.identification), 10)
    &&& maybe_fits(single_entry(v.rip_addr_w), 11)
    &&& maybe_fits(values_entry(v), 12)
}

/// A layout without its entries.
pub open spec fn without_entries(v: RecordLayoutView) -> RecordLayoutView {
    RecordLayoutView {
        name: v.name,
        alignments: v.alignments,
        fix_no_axis_pts: v.fix_no_axis_pts,
        static_record_layout: v.static_record_layout,
        static_address_offsets: v.static_address_offsets,
        ..RecordLayout::blank()
    }
}

proof fn lemma_piece(
    w: RecordLayoutView,
    a: Seq<EntryView>,
    b: Seq<EntryView>,
    w1: RecordLayoutView,
    w2: RecordLayoutView,
    mid: int,
    hi: int,
)
    requires
        0 <= mid <= hi,
        put_all(w, a) == w1,
        ranked(a, 0, mid),
        put_all(w1, b) == w2,
        ranked(b, mid, hi),
    ensures
        put_all(w, a + b) == w2,
        ranked(a + b, 0, hi),
{
    lemma_put_all_join(w, a, b);
    lemma_ranked_join(a, b, 0, mid, hi);
}

proof fn lemma_widened(s: Seq<EntryView>, lo: int, hi: int, low: int, high: int)
    requires
        ranked(s, lo, hi),
        low <= lo,
        hi <= high,
    ensures
        ranked(s, low, high),
{
    assert forall|i: int| 0 <= i < s.len() implies low <= rank(#[trigger] s[i]) < high by {
        assert(lo <= rank(s[i]) < hi);
    }
}

/// The entries of the first kinds.
pub open spec fn entries_1(v: RecordLayoutView) -> Seq<EntryView> {
    singles(v.no_axis_pts)
}

/// The entries of the first kinds.
pub open spec fn entries_2(v: RecordLayoutView) -> Seq<EntryView> {
    entries_1(v) + axes(v.axis_pts)
}

/// The entries of the first kinds.
pub open spec fn entries_3(v: RecordLayoutView) -> Seq<EntryView> {
    entries_2(v) + singles(v.src_address)
}

/// The entries of the first kinds.
pub open spec fn entries_4(v: RecordLayoutView) -> Seq<EntryView> {
    entries_3(v) + singles(v.offset)
}

/// The entries of the first kinds.
pub open spec fn entries_5(v: RecordLayoutView) -> Seq<EntryView> {
    entries_4(v) + singles(v.dist_op)
}

/// The entries of the first kinds.
pub open spec fn entries_6(v: RecordLayoutView) -> Seq<EntryView> {
    entries_5(v) + singles(v.rip_addr)
}

/// The entries of the first kinds.
pub open spec fn entries_7(v: RecordLayoutView) -> Seq<EntryView> {
    entries_6(v) + singles(v.shift_op)
}

/// The entries of the first kinds.
pub open spec fn entries_8(v: RecordLayoutView) -> Seq<EntryView> {
    entries_7(v) + reserved_entries(v.reserved)
}

/// The entries of the first kinds.
pub open spec fn entries_9(v: RecordLayoutView) -> Seq<EntryView> {
    entries_8(v) + maybe(rescale_entry(v))
}

/// The entries of the first kinds.
pub open spec fn entries_10(v: RecordLayoutView) -> Seq<EntryView> {
    entries_9(v) + maybe(single_entry(v.no_rescale_x))
}

/// The entries of the first kinds.
pub open spec fn entries_11(v: RecordLayoutView) -> Seq<EntryView> {
    entries_10(v) + maybe(single_entry(v.identification))
}

/// The entries of the first kinds.
pub open spec fn entries_12(v: RecordLayoutView) -> Seq<EntryView> {
    entries_11(v) + maybe(single_entry(v.rip_addr_w))
}

/// The entries of the first kinds.
pub open spec fn entries_13(v: RecordLayoutView) -> Seq<EntryView> {
    entries_12(v) + maybe(values_entry(v))
}

proof fn lemma_stage_1(v: RecordLayoutView)
    requires
        layout_fits(v),
    ensures
        put_all(without_entries(v), entries_1(v)) == (
            RecordLayoutView { no_axis_pts: v.no_axis_pts, ..without_entries(v) }
        ),
        ranked(entries_1(v), 0, 8),
{
    let w = RecordLayoutView { ..without_entries(v) };
    assert(five(w));
    lemma_singles_put(w, v.no_axis_pts, 0, 5);
    assert(v.no_axis_pts.subrange(0, 5) =~= v.no_axis_pts);
    assert(merged(singles_of(w, 0), v.no_axis_pts, 5) =~= v.no_axis_pts);
    lemma_widened(singles(v.no_axis_pts), 0, 5, 0, 8);
}

proof fn lemma_stage_2(v: RecordLayoutView)
    requires
        layout_fits(v),
    ensures
        put_all(without_entries(v), entries_2(v)) == (
            RecordLayoutView {
                no_axis_pts: v.no_axis_pts,
                axis_pts: v.axis_pts,
                ..without_entries(v)
            }
        ),
        ranked(entries_2(v), 0, 16),
{
    lemma_stage_1(v);
    let w = RecordLayoutView { no_axis_pts: v.no_axis_pts, ..without_entries(v) };
    assert(five(w));
    lemma_axes_put(w, v.axis_pts, 5);
    assert(v.axis_pts.subrange(0, 5) =~= v.axis_pts);
    assert(merged(w.axis_pts, v.axis_pts, 5) =~= v.axis_pts);
    lemma_widened(axes(v.axis_pts), 8, 13, 8, 16);
    lemma_piece(
        without_entries(v),
        entries_1(v),
        axes(v.axis_pts),
        w,
        RecordLayoutView { no_axis_pts: v.no_axis_pts, axis_pts: v.axis_pts, ..without_entries(v) },
        8,
        16
    );
}

proof fn lemma_stage_3(v: RecordLayoutView)
    requires
        layout_fits(v),
    ensures
        put_all(without_entries(v), entries_3(v)) == (
            RecordLayoutView {
                no_axis_pts: v.no_axis_pts,
                axis_pts: v.axis_pts,
                src_address: v.src_address,
                ..without_entries(v)
            }
        ),
        ranked(entries_3(v), 0, 24),
{
    lemma_stage_2(v);
    let w = RecordLayoutView { no_axis_pts: v.no_axis_pts, axis_pts: v.axis_pts, ..without_entries(v) };
    assert(five(w));
    lemma_singles_put(w, v.src_address, 2, 5);
    assert(v.src_address.subrange(0, 5) =~= v.src_address);
    assert(merged(singles_of(w, 2), v.src_address, 5) =~= v.src_address);
    lemma_widened(singles(v.src_address), 16, 21, 16, 24);
    lemma_piece(
        without_entries(v),
        entries_2(v),
        singles(v.src_address),
        w,
        RecordLayoutView {
            no_axis_pts: v.no_axis_pts,
            axis_pts: v.axis_pts,
            src_address: v.src_address,
            ..without_entries(v)
        },
        16,
        24
    );
}

proof fn lemma_stage_4(v: RecordLayoutView)
    requires
        layout_fits(v),
    ensures
        put_all(without_entries(v), entries_4(v)) == (
            RecordLayoutView {
                no_axis_pts: v.no_axis_pts,
                axis_pts: v.axis_pts,
                src_address: v.src_address,
                offset: v.offset,
                ..without_entries(v)
            }
        ),
        ranked(entries_4(v), 0, 32),
{
    lemma_stage_3(v);
    let w = RecordLayoutView {
        no_axis_pts: v.no_axis_pts,
        axis_pts: v.axis_pts,
        src_address: v.src_address,
        ..without_entries(v)
    };
    assert(five(w));
    lemma_singles_put(w, v.offset, 3, 5);
    assert(v.offset.subrange(0, 5) =~= v.offset);
    assert(merged(singles_of(w, 3), v.offset, 5) =~= v.offset);
    lemma_widened(singles(v.offset), 24, 29, 24, 32);
    lemma_piece(
        without_entries(v),
        entries_3(v),
        singles(v.offset),
        w,
        RecordLayoutView {
            no_axis_pts: v.no_axis_pts,
            axis_pts: v.axis_pts,
            src_address: v.src_address,
            offset: v.offset,
            ..without_entries(v)
        },
        24,
        32
    );
}

proof fn lemma_stage_5(v: RecordLayoutView)
    requires
        layout_fits(v),
    ensures
        put_all(without_entries(v), entries_5(v)) == (
            RecordLayoutView {
                no_axis_pts: v.no_axis_pts,
                axis_pts: v.axis_pts,
                src_address: v.src_address,
                offset: v.offset,
                dist_op: v.dist_op,
                ..without_entries(v)
            }
        ),
        ranked(entries_5(v), 0, 40),
{
    lemma_stage_4(v);
    let w = RecordLayoutView {
        no_axis_pts: v.no_axis_pts,
        axis_pts: v.axis_pts,
        src_address: v.src_address,
        offset: v.offset,
        ..without_entries(v)
    };
    assert(five(w));
    lemma_singles_put(w, v.dist_op, 4, 5);
    assert(v.dist_op.subrange(0, 5) =~= v.dist_op);
    assert(merged(singles_of(w, 4), v.dist_op, 5) =~= v.dist_op);
    lemma_widened(singles(v.dist_op), 32, 37, 32, 40);
    lemma_piece(
        without_entries(v),
        entries_4(v),
        singles(v.dist_op),
        w,
        RecordLayoutView {
            no_axis_pts: v.no_axis_pts,
            axis_pts: v.axis_pts,
            src_address: v.src_address,
            offset: v.offset,
            dist_op: v.dist_op,
            ..without_entries(v)
        },
        32,
        40
    );
}

proof fn lemma_stage_6(v: RecordLayoutView)
    requires
        layout_fits(v),
    ensures
        put_all(without_entries(v), entries_6(v)) == (
            RecordLayoutView {
                no_axis_pts: v.no_axis_pts,
                axis_pts: v.axis_pts,
                src_address: v.src_address,
                offset: v.offset,
                dist_op: v.dist_op,
                rip_addr: v.rip_addr,
                ..without_entries(v)
            }
        ),
        ranked(entries_6(v), 0, 48),
{
    lemma_stage_5(v);
    let w = RecordLayoutView {
        no_axis_pts: v.no_axis_pts,
        axis_pts: v.axis_pts,
        src_address: v.src_address,
        offset: v.offset,
        dist_op: v.dist_op,
        ..without_entries(v)
    };
    assert(five(w));
    lemma_singles_put(w, v.rip_addr, 5, 5);
    assert(v.rip_addr.subrange(0, 5) =~= v.rip_addr);
    assert(merged(singles_of(w, 5), v.rip_addr, 5) =~= v.rip_addr);
    lemma_widened(singles(v.rip_addr), 40, 45, 40, 48);
    lemma_piece(
        without_entries(v),
        entries_5(v),
        singles(v.rip_addr),
        w,
        RecordLayoutView {
            no_axis_pts: v.no_axis_pts,
            axis_pts: v.axis_pts,
            src_address: v.src_address,
            offset: v.offset,
            dist_op: v.dist_op,
            rip_addr: v.rip_addr,
            ..without_entries(v)
        },
        40,
        48
    );
}

proof fn lemma_stage_7(v: RecordLayoutView)
    requires
        layout_fits(v),
    ensures
        put_all(without_entries(v), entries_7(v)) == (
            RecordLayoutView {
                no_axis_pts: v.no_axis_pts,
                axis_pts: v.axis_pts,
                src_address: v.src_address,
                offset: v.offset,
                dist_op: v.dist_op,
                rip_addr: v.rip_addr,
                shift_op: v.shift_op,
                ..without_entries(v)
            }
        ),
        ranked(entries_7(v), 0, 56),
{
    lemma_stage_6(v);
    let w = RecordLayoutView {
        no_axis_pts: v.no_axis_pts,
        axis_pts: v.axis_pts,
        src_address: v.src_address,
        offset: v.offset,
        dist_op: v.dist_op,
        rip_addr: v.rip_addr,
        ..without_entries(v)
    };
    assert(five(w));
    lemma_singles_put(w, v.shift_op, 6, 5);
    assert(v.shift_op.subrange(0, 5) =~= v.shift_op);
    assert(merged(singles_of(w, 6), v.shift_op, 5) =~= v.shift_op);
    lemma_widened(singles(v.shift_op), 48, 53, 48, 56);
    lemma_piece(
        without_entries(v),
        entries_6(v),
        singles(v.shift_op),
        w,
        RecordLayoutView {
            no_axis_pts: v.no_axis_pts,
            axis_pts: v.axis_pts,
            src_address: v.src_address,
            offset: v.offset,
            dist_op: v.dist_op,
            rip_addr: v.rip_addr,
            shift_op: v.shift_op,
            ..without_entries(v)
        },
        48,
        56
    );
}

proof fn lemma_stage_8(v: RecordLayoutView)
    requires
        layout_fits(v),
    ensures
        put_all(without_entries(v), entries_8(v)) == (
            RecordLayoutView {
                no_axis_pts: v.no_axis_pts,
                axis_pts: v.axis_pts,
                src_address: v.src_address,
                offset: v.offset,
                dist_op: v.dist_op,
                rip_addr: v.rip_addr,
                shift_op: v.shift_op,
                reserved: v.reserved,
                ..without_entries(v)
            }
        ),
        ranked(entries_8(v), 0, 64),
{
    lemma_stage_7(v);
    let w = RecordLayoutView {
        no_axis_pts: v.no_axis_pts,
        axis_pts: v.axis_pts,
        src_address: v.src_address,
        offset: v.offset,
        dist_op: v.dist_op,
        rip_addr: v.rip_addr,
        shift_op: v.shift_op,
        ..without_entries(v)
    };
    assert(five(w));
    lemma_reserved_put(w, v.reserved);
    assert(w.reserved + v.reserved =~= v.reserved);
    lemma_widened(reserved_entries(v.reserved), 56, 57, 56, 64);
    lemma_piece(
        without_entries(v),
        entries_7(v),
        reserved_entries(v.reserved),
        w,
        RecordLayoutView {
            no_axis_pts: v.no_axis_pts,
            axis_pts: v.axis_pts,
            src_address: v.src_address,
            offset: v.offset,
            dist_op: v.dist_op,
            rip_addr: v.rip_addr,
            shift_op: v.shift_op,
            reserved: v.reserved,
            ..without_entries(v)
        },
        56,
        64
    );
}

proof fn lemma_stage_9(v: RecordLayoutView)
    requires
        layout_fits(v),
    ensures
        put_all(without_entries(v), entries_9(v)) == (
            RecordLayoutView {
                no_axis_pts: v.no_axis_pts,
                axis_pts: v.axis_pts,
                src_address: v.src_address,
                offset: v.offset,
                dist_op: v.dist_op,
                rip_addr: v.rip_addr,
                shift_op: v.shift_op,
                reserved: v.reserved,
                axis_rescale_x: v.axis_rescale_x,
                ..without_entries(v)
            }
        ),
        ranked(entries_9(v), 0, 72),
{
    lemma_stage_8(v);
    let w = RecordLayoutView {
        no_axis_pts: v.no_axis_pts,
        axis_pts: v.axis_pts,
        src_address: v.src_address,
        offset: v.offset,
        dist_op: v.dist_op,
        rip_addr: v.rip_addr,
        shift_op: v.shift_op,
        reserved: v.reserved,
        ..without_entries(v)
    };
    assert(five(w));
    lemma_one_put(w, rescale_entry(v), 8);
    lemma_widened(maybe(rescale_entry(v)), 64, 65, 64, 72);
    lemma_piece(
        without_entries(v),
        entries_8(v),
        maybe(rescale_entry(v)),
        w,
        RecordLayoutView {
            no_axis_pts: v.no_axis_pts,
            axis_pts: v.axis_pts,
            src_address: v.src_address,
            offset: v.offset,
            dist_op: v.dist_op,
            rip_addr: v.rip_addr,
            shift_op: v.shift_op,
            reserved: v.reserved,
            axis_rescale_x: v.axis_rescale_x,
            ..without_entries(v)
        },
        64,
        72
    );
}

proof fn lemma_stage_10(v: RecordLayoutView)
    requires
        layout_fits(v),
    ensures
        put_all(without_entries(v), entries_10(v)) == (
            RecordLayoutView {
                no_axis_pts: v.no_axis_pts,
                axis_pts: v.axis_pts,
                src_address: v.src_address,
                offset: v.offset,
                dist_op: v.dist_op,
                rip_addr: v.rip_addr,
                shift_op: v.shift_op,
                reserved: v.reserved,
                axis_rescale_x: v.axis_rescale_x,
                no_rescale_x: v.no_rescale_x,
                ..without_entries(v)
            }
        ),
        ranked(entries_10(v), 0, 80),
{
    lemma_stage_9(v);
    let w = RecordLayoutView {
        no_axis_pts: v.no_axis_pts,
        axis_pts: v.axis_pts,
        src_address: v.src_address,
        offset: v.offset,
        dist_op: v.dist_op,
        rip_addr: v.rip_addr,
        shift_op: v.shift_op,
        reserved: v.reserved,
        axis_rescale_x: v.axis_rescale_x,
        ..without_entries(v)
    };
    assert(five(w));
    lemma_one_put(w, single_entry(v.no_rescale_x), 9);
    lemma_widened(maybe(single_entry(v.no_rescale_x)), 72, 73, 72, 80);
    lemma_piece(
        without_entries(v),
        entries_9(v),
        maybe(single_entry(v.no_rescale_x)),
        w,
        RecordLayoutView {
            no_axis_pts: v.no_axis_pts,
            axis_pts: v.axis_pts,
            src_address: v.src_address,
            offset: v.offset,
            dist_op: v.dist_op,
            rip_addr: v.rip_addr,
            shift_op: v.shift_op,
            reserved: v.reserved,
            axis_rescale_x: v.axis_rescale_x,
            no_rescale_x: v.no_rescale_x,
            ..without_entries(v)
        },
        72,
        80
    );
}

proof fn lemma_stage_11(v: RecordLayoutView)
    requires
        layout_fits(v),
    ensures
        put_all(without_entries(v), entries_11(v)) == (
            RecordLayoutView {
                no_axis_pts: v.no_axis_pts,
                axis_pts: v.axis_pts,
                src_address: v.src_address,
                offset: v.offset,
                dist_op: v.dist_op,
                rip_addr: v.rip_addr,
                shift_op: v.shift_op,
                reserved: v.reserved,
                axis_rescale_x: v.axis_rescale_x,
                no_rescale_x: v.no_rescale_x,
                identification: v.identification,
                ..without_entries(v)
            }
        ),
        ranked(entries_11(v), 0, 88),
{
    lemma_stage_10(v);
    let w = RecordLayoutView {
        no_axis_pts: v.no_axis_pts,
        axis_pts: v.axis_pts,
        src_address: v.src_address,
        offset: v.offset,
        dist_op: v.dist_op,
        rip_addr: v.rip_addr,
        shift_op: v.shift_op,
        reserved: v.reserved,
        axis_rescale_x: v.axis_rescale_x,
        no_rescale_x: v.no_rescale_x,
        ..without_entries(v)
    };
    assert(five(w));
    lemma_one_put(w, single_entry(v.identification), 10);
    lemma_widened(maybe(single_entry(v.identification)), 80, 81, 80, 88);
    lemma_piece(
        without_entries(v),
        entries_10(v),
        maybe(single_entry(v.identification)),
        w,
        RecordLayoutView {
            no_axis_pts: v.no_axis_pts,
            axis_pts: v.axis_pts,
            src_address: v.src_address,
            offset: v.offset,
            dist_op: v.dist_op,
            rip_addr: v.rip_addr,
            shift_op: v.shift_op,
            reserved: v.reserved,
            axis_rescale_x: v.axis_rescale_x,
            no_rescale_x: v.no_rescale_x,
            identification: v.identification,
            ..without_entries(v)
        },
        80,
        88
    );
}

proof fn lemma_stage_12(v: RecordLayoutView)
    requires
        layout_fits(v),
    ensures
        put_all(without_entries(v), entries_12(v)) == (
            RecordLayoutView {
                no_axis_pts: v.no_axis_pts,
                axis_pts: v.axis_pts,
                src_address: v.src_address,
                offset: v.offset,
                dist_op: v.dist_op,
                rip_addr: v.rip_addr,
                shift_op: v.shift_op,
                reserved: v.reserved,
                axis_rescale_x: v.axis_rescale_x,
                no_rescale_x: v.no_rescale_x,
                identification: v.identification,
                rip_addr_w: v.rip_addr_w,
                ..without_entries(v)
            }
        ),
        ranked(entries_12(v), 0, 96),
{
    lemma_stage_11(v);
    let w = RecordLayoutView {
        no_axis_pts: v.no_axis_pts,
        axis_pts: v.axis_pts,
        src_address: v.src_address,
        offset: v.offset,
        dist_op: v.dist_op,
        rip_addr: v.rip_addr,
        shift_op: v.shift_op,
        reserved: v.reserved,
        axis_rescale_x: v.axis_rescale_x,
        no_rescale_x: v.no_rescale_x,
        identification: v.identification,
        ..without_entries(v)
    };
    assert(five(w));
    lemma_one_put(w, single_entry(v.rip_addr_w), 11);
    lemma_widened(maybe(single_entry(v.rip_addr_w)), 88, 89, 88, 96);
    lemma_piece(
        without_entries(v),
        entries_11(v),
        maybe(single_entry(v.rip_addr_w)),
        w,
        RecordLayoutView {
            no_axis_pts: v.no_axis_pts,
            axis_pts: v.axis_pts,
            src_address: v.src_address,
            offset: v.offset,
            dist_op: v.dist_op,
            rip_addr: v.rip_addr,
            shift_op: v.shift_op,
            reserved: v.reserved,
            axis_rescale_x: v.axis_rescale_x,
            no_rescale_x: v.no_rescale_x,
            identification: v.identification,
            rip_addr_w: v.rip_addr_w,
            ..without_entries(v)
        },
        88,
        96
    );
}

proof fn lemma_stage_13(v: RecordLayoutView)
    requires
        layout_fits(v),
    ensures
        put_all(without_entries(v), entries_13(v)) == (
            RecordLayoutView {
                no_axis_pts: v.no_axis_pts,
                axis_pts: v.axis_pts,
                src_address: v.src_address,
                offset: v.offset,
                dist_op: v.dist_op,
                rip_addr: v.rip_addr,
                shift_op: v.shift_op,
                reserved: v.reserved,
                axis_rescale_x: v.axis_rescale_x,
                no_rescale_x: v.no_rescale_x,
                identification: v.identification,
                rip_addr_w: v.rip_addr_w,
                fnc_values: v.fnc_values,
                ..without_entries(v)
            }
        ),
        ranked(entries_13(v), 0, 104),
{
    lemma_stage_12(v);
    let w = RecordLayoutView {
        no_axis_pts: v.no_axis_pts,
        axis_pts: v.axis_pts,
        src_address: v.src_address,
        offset: v.offset,
        dist_op: v.dist_op,
        rip_addr: v.rip_addr,
        shift_op: v.shift_op,
        reserved: v.reserved,
        axis_rescale_x: v.axis_rescale_x,
        no_rescale_x: v.no_rescale_x,
        identification: v.identification,
        rip_addr_w: v.rip_addr_w,
        ..without_entries(v)
    };
    assert(five(w));
    lemma_one_put(w, values_entry(v), 12);
    lemma_widened(maybe(values_entry(v)), 96, 97, 96, 104);
    lemma_piece(
        without_entries(v),
        entries_12(v),
        maybe(values_entry(v)),
        w,
        RecordLayoutView {
            no_axis_pts: v.no_axis_pts,
            axis_pts: v.axis_pts,
            src_address: v.src_address,
            offset: v.offset,
            dist_op: v.dist_op,
            rip_addr: v.rip_addr,
            shift_op: v.shift_op,
            reserved: v.reserved,
            axis_rescale_x: v.axis_rescale_x,
            no_rescale_x: v.no_rescale_x,
            identification: v.identification,
            rip_addr_w: v.rip_addr_w,
            fnc_values: v.fnc_values,
            ..without_entries(v)
        },
        96,
        104
    );
}

/// A layout is what its entries make of it.
proof fn lemma_entries_put(v: RecordLayoutView)
    requires
        layout_fits(v),
    ensures
        put_all(without_entries(v), entries_of(v)) == v,
        entries_fit(entries_of(v)),
        may_be_sorted(entries_of(v)),
{
    lemma_stage_13(v);
    assert(entries_13(v) == entries_of(v));
}

proof fn lemma_layout_next(w: RecordLayoutView, c: Cur, w2: RecordLayoutView, c2: Cur)
    requires
        c.more(),
        0 <= c2.left() < c.left(),
        RecordLayout::option(w, c) == Ok::<(RecordLayoutView, Cur), Failure>((w2, c2)),
    ensures
        RecordLayout::options(w, c) == RecordLayout::options(w2, c2),
{
}

/// Whether an entry is read at a place.
pub open spec fn reads_entry(w: RecordLayoutView, c: Cur, e: EntryView) -> bool {
    RecordLayout::option(w, c) == Ok::<(RecordLayoutView, Cur), Failure>(
        (put(w, e), Cur { pos: c.pos + entry_tokens(e).len(), ..c }),
    )
}

proof fn lemma_single_read(c: Cur, x: NoAxisPtsLayoutDescView)
    requires
        tokens_at(c.toks, c.pos, entry_tokens(EntryView::NoAxisPts(x))),
        x.name != "RESERVED"@,
    ensures
        read_single(c.step(), x.name, x.axis_idx) == Ok::<(NoAxisPtsLayoutDescView, Cur), Failure>(
            (x, Cur { pos: c.pos + 3, ..c }),
        ),
        c.more(),
        c.here().text == x.name,
        !c.here().quoted,
{
    let y = entry_tokens(EntryView::NoAxisPts(x));
    assert(bare(c.toks[c.pos + 0]) == y[0]);
    assert(bare(c.toks[c.pos + 1]) == y[1]);
    assert(bare(c.toks[c.pos + 2]) == y[2]);
    law_integer_of_dec(x.position as int);
    lemma_type_read(c.step().step(), x.data_type);
}

proof fn lemma_read_4(w: RecordLayoutView, c: Cur, x: NoAxisPtsLayoutDescView)
    requires
        entry_fits(EntryView::NoAxisPts(x)),
        kind_of(EntryView::NoAxisPts(x)) == 4,
        tokens_at(c.toks, c.pos, entry_tokens(EntryView::NoAxisPts(x))),
    ensures
        reads_entry(w, c, EntryView::NoAxisPts(x)),
{
    let k = prefix_of(plain(x.name));
    assert(k == "DIST_O"@);
    reveal_strlit("DIST_O");
    reveal_strlit("FIX_NO");
    assert("DIST_O"@[0] != "FIX_NO"@[0]);
    reveal_strlit("FNC_VA");
    assert("DIST_O"@[0] != "FNC_VA"@[0]);
    reveal_strlit("RESERVED");
    assert(x.name != "RESERVED"@) by {
        assert("RESERVED"@.subrange(0, 6)[0] == 'R' && "RESERVED"@.subrange(0, 6)[1] == 'E');
    }
    lemma_single_read(c, x);
    assert(prefix_of(c.here()) == k);
}

proof fn lemma_read_2(w: RecordLayoutView, c: Cur, x: NoAxisPtsLayoutDescView)
    requires
        entry_fits(EntryView::NoAxisPts(x)),
        kind_of(EntryView::NoAxisPts(x)) == 2,
        tokens_at(c.toks, c.pos, entry_tokens(EntryView::NoAxisPts(x))),
    ensures
        reads_entry(w, c, EntryView::NoAxisPts(x)),
{
    let k = prefix_of(plain(x.name));
    assert(k == "SRC_AD"@);
    reveal_strlit("SRC_AD");
    reveal_strlit("FIX_NO");
    assert("SRC_AD"@[0] != "FIX_NO"@[0]);
    reveal_strlit("FNC_VA");
    assert("SRC_AD"@[0] != "FNC_VA"@[0]);
    reveal_strlit("DIST_O");
    assert("SRC_AD"@[0] != "DIST_O"@[0]);
    reveal_strlit("RESERVED");
    assert(x.name != "RESERVED"@) by {
        assert("RESERVED"@.subrange(0, 6)[0] == 'R' && "RESERVED"@.subrange(0, 6)[1] == 'E');
    }
    lemma_single_read(c, x);
    assert(prefix_of(c.here()) == k);
}

proof fn lemma_read_0(w: RecordLayoutView, c: Cur, x: NoAxisPtsLayoutDescView)
    requires
        entry_fits(EntryView::NoAxisPts(x)),
        kind_of(EntryView::NoAxisPts(x)) == 0,
        tokens_at(c.toks, c.pos, entry_tokens(EntryView::NoAxisPts(x))),
    ensures
        reads_entry(w, c, EntryView::NoAxisPts(x)),
{
    let k = prefix_of(plain(x.name));
    assert(k == "NO_AXI"@);
    reveal_strlit("NO_AXI");
    reveal_strlit("FIX_NO");
    assert("NO_AXI"@[0] != "FIX_NO"@[0]);
    reveal_strlit("FNC_VA");
    assert("NO_AXI"@[0] != "FNC_VA"@[0]);
    reveal_strlit("DIST_O");
    assert("NO_AXI"@[0] != "DIST_O"@[0]);
    reveal_strlit("SRC_AD");
    assert("NO_AXI"@[0] != "SRC_AD"@[0]);
    reveal_strlit("RESERVED");
    assert(x.name != "RESERVED"@) by {
        assert("RESERVED"@.subrange(0, 6)[0] == 'R' && "RESERVED"@.subrange(0, 6)[1] == 'E');
    }
    lemma_single_read(c, x);
    assert(prefix_of(c.here()) == k);
}

proof fn lemma_read_3(w: RecordLayoutView, c: Cur, x: NoAxisPtsLayoutDescView)
    requires
        entry_fits(EntryView::NoAxisPts(x)),
        kind_of(EntryView::NoAxisPts(x)) == 3,
        tokens_at(c.toks, c.pos, entry_tokens(EntryView::NoAxisPts(x))),
    ensures
        reads_entry(w, c, EntryView::NoAxisPts(x)),
{
    let k = prefix_of(plain(x.name));
    assert(k == "OFFSET"@);
    reveal_strlit("OFFSET");
    reveal_strlit("FIX_NO");
    assert("OFFSET"@[0] != "FIX_NO"@[0]);
    reveal_strlit("FNC_VA");
    assert("OFFSET"@[0] != "FNC_VA"@[0]);
    reveal_strlit("DIST_O");
    assert("OFFSET"@[0] != "DIST_O"@[0]);
    reveal_strlit("SRC_AD");
    assert("OFFSET"@[0] != "SRC_AD"@[0]);
    reveal_strlit("NO_AXI");
    assert("OFFSET"@[0] != "NO_AXI"@[0]);
    reveal_strlit("RESERVED");
    assert(x.name != "RESERVED"@) by {
        assert("RESERVED"@.subrange(0, 6)[0] == 'R' && "RESERVED"@.subrange(0, 6)[1] == 'E');
    }
    lemma_single_read(c, x);
    assert(prefix_of(c.here()) == k);
}

proof fn lemma_read_6(w: RecordLayoutView, c: Cur, x: NoAxisPtsLayoutDescView)
    requires
        entry_fits(EntryView::NoAxisPts(x)),
        kind_of(EntryView::NoAxisPts(x)) == 6,
        tokens_at(c.toks, c.pos, entry_tokens(EntryView::NoAxisPts(x))),
    ensures
        reads_entry(w, c, EntryView::NoAxisPts(x)),
{
    let k = prefix_of(plain(x.name));
    assert(k == "SHIFT_"@);
    reveal_strlit("SHIFT_");
    reveal_strlit("FIX_NO");
    assert("SHIFT_"@[0] != "FIX_NO"@[0]);
    reveal_strlit("FNC_VA");
    assert("SHIFT_"@[0] != "FNC_VA"@[0]);
    reveal_strlit("DIST_O");
    assert("SHIFT_"@[0] != "DIST_O"@[0]);
    reveal_strlit("SRC_AD");
    assert("SHIFT_"@[1] != "SRC_AD"@[1]);
    reveal_strlit("NO_AXI");
    assert("SHIFT_"@[0] != "NO_AXI"@[0]);
    reveal_strlit("OFFSET");
    assert("SHIFT_"@[0] != "OFFSET"@[0]);
    reveal_strlit("RESERVED");
    assert(x.name != "RESERVED"@) by {
        assert("RESERVED"@.subrange(0, 6)[0] == 'R' && "RESERVED"@.subrange(0, 6)[1] == 'E');
    }
    lemma_single_read(c, x);
    assert(prefix_of(c.here()) == k);
}

proof fn lemma_read_10(w: RecordLayoutView, c: Cur, x: NoAxisPtsLayoutDescView)
    requires
        entry_fits(EntryView::NoAxisPts(x)),
        kind_of(EntryView::NoAxisPts(x)) == 10,
        tokens_at(c.toks, c.pos, entry_tokens(EntryView::NoAxisPts(x))),
    ensures
        reads_entry(w, c, EntryView::NoAxisPts(x)),
{
    let k = prefix_of(plain(x.name));
    assert(k == "IDENTI"@);
    reveal_strlit("IDENTI");
    reveal_strlit("FIX_NO");
    assert("IDENTI"@[0] != "FIX_NO"@[0]);
    reveal_strlit("FNC_VA");
    assert("IDENTI"@[0] != "FNC_VA"@[0]);
    reveal_strlit("DIST_O");
    assert("IDENTI"@[0] != "DIST_O"@[0]);
    reveal_strlit("SRC_AD");
    assert("IDENTI"@[0] != "SRC_AD"@[0]);
    reveal_strlit("NO_AXI");
    assert("IDENTI"@[0] != "NO_AXI"@[0]);
    reveal_strlit("OFFSET");
    assert("IDENTI"@[0] != "OFFSET"@[0]);
    reveal_strlit("SHIFT_");
    assert("IDENTI"@[0] != "SHIFT_"@[0]);
    reveal_strlit("AXIS_P");
    assert("IDENTI"@[0] != "AXIS_P"@[0]);
    reveal_strlit("RESERVED");
    assert(x.name != "RESERVED"@) by {
        assert("RESERVED"@.subrange(0, 6)[0] == 'R' && "RESERVED"@.subrange(0, 6)[1] == 'E');
    }
    lemma_single_read(c, x);
    assert(prefix_of(c.here()) == k);
}

proof fn lemma_read_9(w: RecordLayoutView, c: Cur, x: NoAxisPtsLayoutDescView)
    requires
        entry_fits(EntryView::NoAxisPts(x)),
        kind_of(EntryView::NoAxisPts(x)) == 9,
        tokens_at(c.toks, c.pos, entry_tokens(EntryView::NoAxisPts(x))),
    ensures
        reads_entry(w, c, EntryView::NoAxisPts(x)),
{
    let k = prefix_of(plain(x.name));
    assert(k == "NO_RES"@);
    reveal_strlit("NO_RES");
    reveal_strlit("FIX_NO");
    assert("NO_RES"@[0] != "FIX_NO"@[0]);
    reveal_strlit("FNC_VA");
    assert("NO_RES"@[0] != "FNC_VA"@[0]);
    reveal_strlit("DIST_O");
    assert("NO_RES"@[0] != "DIST_O"@[0]);
    reveal_strlit("SRC_AD");
    assert("NO_RES"@[0] != "SRC_AD"@[0]);
    reveal_strlit("NO_AXI");
    assert("NO_RES"@[3] != "NO_AXI"@[3]);
    reveal_strlit("OFFSET");
    assert("NO_RES"@[0] != "OFFSET"@[0]);
    reveal_strlit("SHIFT_");
    assert("NO_RES"@[0] != "SHIFT_"@[0]);
    reveal_strlit("AXIS_P");
    assert("NO_RES"@[0] != "AXIS_P"@[0]);
    reveal_strlit("IDENTI");
    assert("NO_RES"@[0] != "IDENTI"@[0]);
    reveal_strlit("AXIS_R");
    assert("NO_RES"@[0] != "AXIS_R"@[0]);
    reveal_strlit("RESERVED");
    assert(x.name != "RESERVED"@) by {
        assert("RESERVED"@.subrange(0, 6)[0] == 'R' && "RESERVED"@.subrange(0, 6)[1] == 'E');
    }
    lemma_single_read(c, x);
    assert(prefix_of(c.here()) == k);
}

proof fn lemma_read_5(w: RecordLayoutView, c: Cur, x: NoAxisPtsLayoutDescView)
    requires
        entry_fits(EntryView::NoAxisPts(x)),
        kind_of(EntryView::NoAxisPts(x)) == 5,
        tokens_at(c.toks, c.pos, entry_tokens(EntryView::NoAxisPts(x))),
    ensures
        reads_entry(w, c, EntryView::NoAxisPts(x)),
{
    let k = prefix_of(plain(x.name));
    assert(k == "RIP_AD"@);
    reveal_strlit("RIP_AD");
    reveal_strlit("FIX_NO");
    assert("RIP_AD"@[0] != "FIX_NO"@[0]);
    reveal_strlit("FNC_VA");
    assert("RIP_AD"@[0] != "FNC_VA"@[0]);
    reveal_strlit("DIST_O");
    assert("RIP_AD"@[0] != "DIST_O"@[0]);
    reveal_strlit("SRC_AD");
    assert("RIP_AD"@[0] != "SRC_AD"@[0]);
    reveal_strlit("NO_AXI");
    assert("RIP_AD"@[0] != "NO_AXI"@[0]);
    reveal_strlit("OFFSET");
    assert("RIP_AD"@[0] != "OFFSET"@[0]);
    reveal_strlit("SHIFT_");
    assert("RIP_AD"@[0] != "SHIFT_"@[0]);
    reveal_strlit("AXIS_P");
    assert("RIP_AD"@[0] != "AXIS_P"@[0]);
    reveal_strlit("IDENTI");
    assert("RIP_AD"@[0] != "IDENTI"@[0]);
    reveal_strlit("AXIS_R");
    assert("RIP_AD"@[0] != "AXIS_R"@[0]);
    reveal_strlit("NO_RES");
    assert("RIP_AD"@[0] != "NO_RES"@[0]);
    reveal_strlit("RESERV");
    assert("RIP_AD"@[1] != "RESERV"@[1]);
    reveal_strlit("ALIGNM");
    assert("RIP_AD"@[0] != "ALIGNM"@[0]);
    reveal_strlit("RESERVED");
    assert(x.name != "RESERVED"@) by {
        assert("RESERVED"@.subrange(0, 6)[0] == 'R' && "RESERVED"@.subrange(0, 6)[1] == 'E');
    }
    lemma_single_read(c, x);
    assert(prefix_of(c.here()) == k);
}

proof fn lemma_read_11(w: RecordLayoutView, c: Cur, x: NoAxisPtsLayoutDescView)
    requires
        entry_fits(EntryView::NoAxisPts(x)),
        kind_of(EntryView::NoAxisPts(x)) == 11,
        tokens_at(c.toks, c.pos, entry_tokens(EntryView::NoAxisPts(x))),
    ensures
        reads_entry(w, c, EntryView::NoAxisPts(x)),
{
    let k = prefix_of(plain(x.name));
    assert(k == "RIP_AD"@);
    reveal_strlit("RIP_AD");
    reveal_strlit("FIX_NO");
    assert("RIP_AD"@[0] != "FIX_NO"@[0]);
    reveal_strlit("FNC_VA");
    assert("RIP_AD"@[0] != "FNC_VA"@[0]);
    reveal_strlit("DIST_O");
    assert("RIP_AD"@[0] != "DIST_O"@[0]);
    reveal_strlit("SRC_AD");
    assert("RIP_AD"@[0] != "SRC_AD"@[0]);
    reveal_strlit("NO_AXI");
    assert("RIP_AD"@[0] != "NO_AXI"@[0]);
    reveal_strlit("OFFSET");
    assert("RIP_AD"@[0] != "OFFSET"@[0]);
    reveal_strlit("SHIFT_");
    assert("RIP_AD"@[0] != "SHIFT_"@[0]);
    reveal_strlit("AXIS_P");
    assert("RIP_AD"@[0] != "AXIS_P"@[0]);
    reveal_strlit("IDENTI");
    assert("RIP_AD"@[0] != "IDENTI"@[0]);
    reveal_strlit("AXIS_R");
    assert("RIP_AD"@[0] != "AXIS_R"@[0]);
    reveal_strlit("NO_RES");
    assert("RIP_AD"@[0] != "NO_RES"@[0]);
    reveal_strlit("RESERV");
    assert("RIP_AD"@[1] != "RESERV"@[1]);
    reveal_strlit("ALIGNM");
    assert("RIP_AD"@[0] != "ALIGNM"@[0]);
    reveal_strlit("RESERVED");
    assert(x.name != "RESERVED"@) by {
        assert("RESERVED"@.subrange(0, 6)[0] == 'R' && "RESERVED"@.subrange(0, 6)[1] == 'E');
    }
    lemma_single_read(c, x);
    assert(prefix_of(c.here()) == k);
}

proof fn lemma_read_7(w: RecordLayoutView, c: Cur, x: NoAxisPtsLayoutDescView)
    requires
        entry_fits(EntryView::NoAxisPts(x)),
        kind_of(EntryView::NoAxisPts(x)) == 7,
        tokens_at(c.toks, c.pos, entry_tokens(EntryView::NoAxisPts(x))),
    ensures
        reads_entry(w, c, EntryView::NoAxisPts(x)),
{
    let y = entry_tokens(EntryView::NoAxisPts(x));
    assert(prefix_of(plain(x.name)) == "RESERV"@);
    reveal_strlit("RESERV");
    reveal_strlit("FIX_NO");
    assert("RESERV"@[0] != "FIX_NO"@[0]);
    reveal_strlit("FNC_VA");
    assert("RESERV"@[0] != "FNC_VA"@[0]);
    reveal_strlit("DIST_O");
    assert("RESERV"@[0] != "DIST_O"@[0]);
    reveal_strlit("SRC_AD");
    assert("RESERV"@[0] != "SRC_AD"@[0]);
    reveal_strlit("NO_AXI");
    assert("RESERV"@[0] != "NO_AXI"@[0]);
    reveal_strlit("OFFSET");
    assert("RESERV"@[0] != "OFFSET"@[0]);
    reveal_strlit("SHIFT_");
    assert("RESERV"@[0] != "SHIFT_"@[0]);
    reveal_strlit("AXIS_P");
    assert("RESERV"@[0] != "AXIS_P"@[0]);
    reveal_strlit("IDENTI");
    assert("RESERV"@[0] != "IDENTI"@[0]);
    reveal_strlit("AXIS_R");
    assert("RESERV"@[0] != "AXIS_R"@[0]);
    reveal_strlit("NO_RES");
    assert("RESERV"@[0] != "NO_RES"@[0]);
    assert(bare(c.toks[c.pos + 0]) == y[0]);
    assert(bare(c.toks[c.pos + 1]) == y[1]);
    assert(bare(c.toks[c.pos + 2]) == y[2]);
    assert(prefix_of(c.here()) == "RESERV"@);
    law_integer_of_dec(x.position as int);
    let size = size_of_type(x.data_type)->Some_0;
    size.law_named_of_word();
}

proof fn lemma_read_1(w: RecordLayoutView, c: Cur, x: AxisPtsLayoutDescView)
    requires
        entry_fits(EntryView::AxisPts(x)),
        tokens_at(c.toks, c.pos, entry_tokens(EntryView::AxisPts(x))),
    ensures
        reads_entry(w, c, EntryView::AxisPts(x)),
{
    let y = entry_tokens(EntryView::AxisPts(x));
    reveal_strlit("AXIS_P");
    reveal_strlit("FIX_NO");
    assert("AXIS_P"@[0] != "FIX_NO"@[0]);
    reveal_strlit("FNC_VA");
    assert("AXIS_P"@[0] != "FNC_VA"@[0]);
    reveal_strlit("DIST_O");
    assert("AXIS_P"@[0] != "DIST_O"@[0]);
    reveal_strlit("SRC_AD");
    assert("AXIS_P"@[0] != "SRC_AD"@[0]);
    reveal_strlit("NO_AXI");
    assert("AXIS_P"@[0] != "NO_AXI"@[0]);
    reveal_strlit("OFFSET");
    assert("AXIS_P"@[0] != "OFFSET"@[0]);
    reveal_strlit("SHIFT_");
    assert("AXIS_P"@[0] != "SHIFT_"@[0]);
    assert(bare(c.toks[c.pos + 0]) == y[0]);
    assert(bare(c.toks[c.pos + 1]) == y[1]);
    assert(bare(c.toks[c.pos + 2]) == y[2]);
    assert(bare(c.toks[c.pos + 3]) == y[3]);
    assert(bare(c.toks[c.pos + 4]) == y[4]);
    assert(prefix_of(c.here()) == "AXIS_P"@);
    law_integer_of_dec(x.position as int);
    lemma_type_read(c.step().step(), x.data_type);
    x.index_order.law_named_of_word();
    x.address_type.law_named_of_word();
}

proof fn lemma_read_8(w: RecordLayoutView, c: Cur, x: AxisRescaleLayoutDescView)
    requires
        entry_fits(EntryView::AxisRescale(x)),
        tokens_at(c.toks, c.pos, entry_tokens(EntryView::AxisRescale(x))),
    ensures
        reads_entry(w, c, EntryView::AxisRescale(x)),
{
    let y = entry_tokens(EntryView::AxisRescale(x));
    reveal_strlit("AXIS_R");
    reveal_strlit("FIX_NO");
    assert("AXIS_R"@[0] != "FIX_NO"@[0]);
    reveal_strlit("FNC_VA");
    assert("AXIS_R"@[0] != "FNC_VA"@[0]);
    reveal_strlit("DIST_O");
    assert("AXIS_R"@[0] != "DIST_O"@[0]);
    reveal_strlit("SRC_AD");
    assert("AXIS_R"@[0] != "SRC_AD"@[0]);
    reveal_strlit("NO_AXI");
    assert("AXIS_R"@[0] != "NO_AXI"@[0]);
    reveal_strlit("OFFSET");
    assert("AXIS_R"@[0] != "OFFSET"@[0]);
    reveal_strlit("SHIFT_");
    assert("AXIS_R"@[0] != "SHIFT_"@[0]);
    reveal_strlit("AXIS_P");
    assert("AXIS_R"@[5] != "AXIS_P"@[5]);
    reveal_strlit("IDENTI");
    assert("AXIS_R"@[0] != "IDENTI"@[0]);
    reveal_strlit("AXIS_RESCALE_X");
    assert("AXIS_RESCALE_X"@.subrange(0, 6) =~= "AXIS_R"@);
    assert(bare(c.toks[c.pos + 0]) == y[0]);
    assert(bare(c.toks[c.pos + 1]) == y[1]);
    assert(bare(c.toks[c.pos + 2]) == y[2]);
    assert(bare(c.toks[c.pos + 3]) == y[3]);
    assert(bare(c.toks[c.pos + 4]) == y[4]);
    assert(bare(c.toks[c.pos + 5]) == y[5]);
    assert(prefix_of(c.here()) == "AXIS_R"@);
    law_integer_of_dec(x.position as int);
    law_integer_of_dec(x.max_no_rescale_pairs as int);
    lemma_type_read(c.step().step(), x.data_type);
    x.index_order.law_named_of_word();
    x.address_type.law_named_of_word();
}

proof fn lemma_read_12(w: RecordLayoutView, c: Cur, x: FncValuesLayoutDescView)
    requires
        entry_fits(EntryView::FncValues(x)),
        tokens_at(c.toks, c.pos, entry_tokens(EntryView::FncValues(x))),
    ensures
        reads_entry(w, c, EntryView::FncValues(x)),
{
    let y = entry_tokens(EntryView::FncValues(x));
    reveal_strlit("FNC_VA");
    reveal_strlit("FIX_NO");
    assert("FNC_VA"@[1] != "FIX_NO"@[1]);
    reveal_strlit("FNC_VALUES");
    assert("FNC_VALUES"@.subrange(0, 6) =~= "FNC_VA"@);
    assert(bare(c.toks[c.pos + 0]) == y[0]);
    assert(bare(c.toks[c.pos + 1]) == y[1]);
    assert(bare(c.toks[c.pos + 2]) == y[2]);
    assert(bare(c.toks[c.pos + 3]) == y[3]);
    assert(bare(c.toks[c.pos + 4]) == y[4]);
    assert(prefix_of(c.here()) == "FNC_VA"@);
    law_integer_of_dec(x.position as int);
    lemma_type_read(c.step().step(), x.data_type);
    x.address_type.law_named_of_word();
    x.index_mode.law_named_of_word();
    if x.index_mode.word() is None {
        let w = "NotSet"@;
        IndexMode::law_word_of_named(w);
        reveal_strlit("NotSet");
        reveal(same_ignore_case);
        reveal_strlit("ROW_DIR");
        assert("ROW_DIR"@.len() != w.len());
        reveal_strlit("COLUMN_DIR");
        assert("COLUMN_DIR"@.len() != w.len());
        reveal_strlit("ALTERNATE_WITH_X");
        assert("ALTERNATE_WITH_X"@.len() != w.len());
        reveal_strlit("ALTERNATE_WITH_Y");
        assert("ALTERNATE_WITH_Y"@.len() != w.len());
        reveal_strlit("ALTERNATE_CURVES");
        assert("ALTERNATE_CURVES"@.len() != w.len());
    }
}

proof fn lemma_entry_read(w: RecordLayoutView, c: Cur, e: EntryView)
    requires
        entry_fits(e),
        tokens_at(c.toks, c.pos, entry_tokens(e)),
    ensures
        reads_entry(w, c, e),
        entry_tokens(e).len() > 0,
{
    match e {
        EntryView::NoAxisPts(x) => {
            let k = kind_of(e);
            if k == 0 {
                lemma_read_0(w, c, x);
            } else if k == 2 {
                lemma_read_2(w, c, x);
            } else if k == 3 {
                lemma_read_3(w, c, x);
            } else if k == 4 {
                lemma_read_4(w, c, x);
            } else if k == 5 {
                lemma_read_5(w, c, x);
            } else if k == 6 {
                lemma_read_6(w, c, x);
            } else if k == 7 {
                lemma_read_7(w, c, x);
            } else if k == 9 {
                lemma_read_9(w, c, x);
            } else if k == 10 {
                lemma_read_10(w, c, x);
            } else if k == 11 {
                lemma_read_11(w, c, x);
            }
        },
        EntryView::AxisPts(x) => lemma_read_1(w, c, x),
        EntryView::AxisRescale(x) => lemma_read_8(w, c, x),
        EntryView::FncValues(x) => lemma_read_12(w, c, x),
    }
}

proof fn lemma_entries_read(w: RecordLayoutView, c: Cur, s: Seq<EntryView>, i: int)
    requires
        0 <= i <= s.len(),
        entries_fit(s),
        tokens_at(c.toks, c.pos, layout_tokens(s, i)),
    ensures
        RecordLayout::options(put_all(w, s.subrange(0, i)), c) == RecordLayout::options(
            put_all(w, s),
            Cur { pos: c.pos + layout_tokens(s, i).len(), ..c },
        ),
    decreases s.len() - i,
{
    if i == s.len() {
        assert(s.subrange(0, i) =~= s);
    } else {
        let e = s[i];
        let rest = layout_tokens(s, i + 1);
        let w1 = put_all(w, s.subrange(0, i));
        lemma_tokens_at_split(c.toks, c.pos, entry_tokens(e), rest);
        assert(entry_fits(s[i]));
        lemma_entry_read(w1, c, e);
        let c1 = Cur { pos: c.pos + entry_tokens(e).len(), ..c };
        lemma_layout_next(w1, c, put(w1, e), c1);
        assert(s.subrange(0, i + 1).drop_last() =~= s.subrange(0, i));
        lemma_entries_read(w, c1, s, i + 1);
    }
}

/// A keyword and an integer.
pub open spec fn tagged(tag: Seq<char>, x: i32) -> Seq<Tok> {
    seq![plain(tag), plain(dec_int(x as int))]
}

proof fn lemma_tagged_shown(p: Page, tag: Seq<char>, x: i32)
    requires
        is_keyword(tag),
        indents_by_blanks(p),
    ensures
        shows(p, p.word(tag, dec_int(x as int)), tagged(tag, x)),
        p.word(tag, dec_int(x as int)).depth == p.depth,
        p.word(tag, dec_int(x as int)).style == p.style,
        all_params(tagged(tag, x)),
{
    lemma_keyword_param(tag);
    lemma_dec_param(x as int);
    lemma_shows_word(p, tag, dec_int(x as int));
}

/// The keyword of an alignment.
pub open spec fn alignment_tag(i: int) -> Seq<char> {
    if i == 0 {
        "ALIGNMENT_BYTE"@
    } else if i == 1 {
        "ALIGNMENT_WORD"@
    } else if i == 2 {
        "ALIGNMENT_LONG"@
    } else if i == 3 {
        "ALIGNMENT_FLOAT32_IEEE"@
    } else if i == 4 {
        "ALIGNMENT_FLOAT64_IEEE"@
    } else if i == 5 {
        "ALIGNMENT_INT64"@
    } else {
        "ALIGNMENT_FLOAT16_IEEE"@
    }
}

proof fn lemma_alignment_0()
    ensures
        is_keyword("ALIGNMENT_BYTE"@),
        alignment_of("ALIGNMENT_BYTE"@) == Some(0int),
        prefix_of(plain("ALIGNMENT_BYTE"@)) == "ALIGNM"@,
{
    reveal_strlit("ALIGNMENT_BYTE");
    reveal_strlit("ALIGNM");
    assert("ALIGNMENT_BYTE"@.subrange(0, 6) =~= "ALIGNM"@);
}

proof fn lemma_alignment_1()
    ensures
        is_keyword("ALIGNMENT_WORD"@),
        alignment_of("ALIGNMENT_WORD"@) == Some(1int),
        prefix_of(plain("ALIGNMENT_WORD"@)) == "ALIGNM"@,
{
    reveal_strlit("ALIGNMENT_WORD");
    reveal_strlit("ALIGNM");
    reveal_strlit("ALIGNMENT_BYTE");
    assert("ALIGNMENT_WORD"@[10] != "ALIGNMENT_BYTE"@[10]);
    assert("ALIGNMENT_WORD"@.subrange(0, 6) =~= "ALIGNM"@);
}

proof fn lemma_alignment_2()
    ensures
        is_keyword("ALIGNMENT_LONG"@),
        alignment_of("ALIGNMENT_LONG"@) == Some(2int),
        prefix_of(plain("ALIGNMENT_LONG"@)) == "ALIGNM"@,
{
    reveal_strlit("ALIGNMENT_LONG");
    reveal_strlit("ALIGNM");
    reveal_strlit("ALIGNMENT_BYTE");
    assert("ALIGNMENT_LONG"@[10] != "ALIGNMENT_BYTE"@[10]);
    reveal_strlit("ALIGNMENT_WORD");
    assert("ALIGNMENT_LONG"@[10] != "ALIGNMENT_WORD"@[10]);
    assert("ALIGNMENT_LONG"@.subrange(0, 6) =~= "ALIGNM"@);
}

proof fn lemma_alignment_3()
    ensures
        is_keyword("ALIGNMENT_FLOAT32_IEEE"@),
        alignment_of("ALIGNMENT_FLOAT32_IEEE"@) == Some(3int),
        prefix_of(plain("ALIGNMENT_FLOAT32_IEEE"@)) == "ALIGNM"@,
{
    reveal_strlit("ALIGNMENT_FLOAT32_IEEE");
    reveal_strlit("ALIGNM");
    reveal_strlit("ALIGNMENT_BYTE");
    assert("ALIGNMENT_FLOAT32_IEEE"@.len() != "ALIGNMENT_BYTE"@.len());
    reveal_strlit("ALIGNMENT_WORD");
    assert("ALIGNMENT_FLOAT32_IEEE"@.len() != "ALIGNMENT_WORD"@.len());
    reveal_strlit("ALIGNMENT_LONG");
    assert("ALIGNMENT_FLOAT32_IEEE"@.len() != "ALIGNMENT_LONG"@.len());
    assert("ALIGNMENT_FLOAT32_IEEE"@.subrange(0, 6) =~= "ALIGNM"@);
}

proof fn lemma_alignment_4()
    ensures
        is_keyword("ALIGNMENT_FLOAT64_IEEE"@),
        alignment_of("ALIGNMENT_FLOAT64_IEEE"@) == Some(4int),
        prefix_of(plain("ALIGNMENT_FLOAT64_IEEE"@)) == "ALIGNM"@,
{
    reveal_strlit("ALIGNMENT_FLOAT64_IEEE");
    reveal_strlit("ALIGNM");
    reveal_strlit("ALIGNMENT_BYTE");
    assert("ALIGNMENT_FLOAT64_IEEE"@.len() != "ALIGNMENT_BYTE"@.len());
    reveal_strlit("ALIGNMENT_WORD");
    assert("ALIGNMENT_FLOAT64_IEEE"@.len() != "ALIGNMENT_WORD"@.len());
    reveal_strlit("ALIGNMENT_LONG");
    assert("ALIGNMENT_FLOAT64_IEEE"@.len() != "ALIGNMENT_LONG"@.len());
    reveal_strlit("ALIGNMENT_FLOAT32_IEEE");
    assert("ALIGNMENT_FLOAT64_IEEE"@[15] != "ALIGNMENT_FLOAT32_IEEE"@[15]);
    assert("ALIGNMENT_FLOAT64_IEEE"@.subrange(0, 6) =~= "ALIGNM"@);
}

proof fn lemma_alignment_5()
    ensures
        is_keyword("ALIGNMENT_INT64"@),
        alignment_of("ALIGNMENT_INT64"@) == Some(5int),
        prefix_of(plain("ALIGNMENT_INT64"@)) == "ALIGNM"@,
{
    reveal_strlit("ALIGNMENT_INT64");
    reveal_strlit("ALIGNM");
    reveal_strlit("ALIGNMENT_BYTE");
    assert("ALIGNMENT_INT64"@.len() != "ALIGNMENT_BYTE"@.len());
    reveal_strlit("ALIGNMENT_WORD");
    assert("ALIGNMENT_INT64"@.len() != "ALIGNMENT_WORD"@.len());
    reveal_strlit("ALIGNMENT_LONG");
    assert("ALIGNMENT_INT64"@.len() != "ALIGNMENT_LONG"@.len());
    reveal_strlit("ALIGNMENT_FLOAT32_IEEE");
    assert("ALIGNMENT_INT64"@.len() != "ALIGNMENT_FLOAT32_IEEE"@.len());
    reveal_strlit("ALIGNMENT_FLOAT64_IEEE");
    assert("ALIGNMENT_INT64"@.len() != "ALIGNMENT_FLOAT64_IEEE"@.len());
    assert("ALIGNMENT_INT64"@.subrange(0, 6) =~= "ALIGNM"@);
}

proof fn lemma_alignment_6()
    ensures
        is_keyword("ALIGNMENT_FLOAT16_IEEE"@),
        alignment_of("ALIGNMENT_FLOAT16_IEEE"@) == Some(6int),
        prefix_of(plain("ALIGNMENT_FLOAT16_IEEE"@)) == "ALIGNM"@,
{
    reveal_strlit("ALIGNMENT_FLOAT16_IEEE");
    reveal_strlit("ALIGNM");
    reveal_strlit("ALIGNMENT_BYTE");
    assert("ALIGNMENT_FLOAT16_IEEE"@.len() != "ALIGNMENT_BYTE"@.len());
    reveal_strlit("ALIGNMENT_WORD");
    assert("ALIGNMENT_FLOAT16_IEEE"@.len() != "ALIGNMENT_WORD"@.len());
    reveal_strlit("ALIGNMENT_LONG");
    assert("ALIGNMENT_FLOAT16_IEEE"@.len() != "ALIGNMENT_LONG"@.len());
    reveal_strlit("ALIGNMENT_FLOAT32_IEEE");
    assert("ALIGNMENT_FLOAT16_IEEE"@[15] != "ALIGNMENT_FLOAT32_IEEE"@[15]);
    reveal_strlit("ALIGNMENT_FLOAT64_IEEE");
    assert("ALIGNMENT_FLOAT16_IEEE"@[15] != "ALIGNMENT_FLOAT64_IEEE"@[15]);
    reveal_strlit("ALIGNMENT_INT64");
    assert("ALIGNMENT_FLOAT16_IEEE"@.len() != "ALIGNMENT_INT64"@.len());
    assert("ALIGNMENT_FLOAT16_IEEE"@.subrange(0, 6) =~= "ALIGNM"@);
}

proof fn lemma_alignment_tag(i: int)
    requires
        0 <= i < 7,
    ensures
        is_keyword(alignment_tag(i)),
        alignment_of(alignment_tag(i)) == Some(i),
        prefix_of(plain(alignment_tag(i))) == "ALIGNM"@,
{
    if i == 0 {
        lemma_alignment_0();
    } else if i == 1 {
        lemma_alignment_1();
    } else if i == 2 {
        lemma_alignment_2();
    } else if i == 3 {
        lemma_alignment_3();
    } else if i == 4 {
        lemma_alignment_4();
    } else if i == 5 {
        lemma_alignment_5();
    } else {
        lemma_alignment_6();
    }
}

proof fn lemma_alignment_read(w: RecordLayoutView, c: Cur, i: int, x: i32)
    requires
        0 <= i < 7,
        tokens_at(c.toks, c.pos, tagged(alignment_tag(i), x)),
    ensures
        RecordLayout::option(w, c) == Ok::<(RecordLayoutView, Cur), Failure>(
            (
                RecordLayoutView { alignments: aligned(w.alignments, i, x), ..w },
                Cur { pos: c.pos + 2, ..c },
            ),
        ),
{
    let y = tagged(alignment_tag(i), x);
    lemma_alignment_tag(i);
    reveal_strlit("ALIGNM");
    reveal_strlit("FIX_NO");
    assert("ALIGNM"@[0] != "FIX_NO"@[0]);
    reveal_strlit("FNC_VA");
    assert("ALIGNM"@[0] != "FNC_VA"@[0]);
    reveal_strlit("DIST_O");
    assert("ALIGNM"@[0] != "DIST_O"@[0]);
    reveal_strlit("SRC_AD");
    assert("ALIGNM"@[0] != "SRC_AD"@[0]);
    reveal_strlit("NO_AXI");
    assert("ALIGNM"@[0] != "NO_AXI"@[0]);
    reveal_strlit("OFFSET");
    assert("ALIGNM"@[0] != "OFFSET"@[0]);
    reveal_strlit("SHIFT_");
    assert("ALIGNM"@[0] != "SHIFT_"@[0]);
    reveal_strlit("AXIS_P");
    assert("ALIGNM"@[1] != "AXIS_P"@[1]);
    reveal_strlit("IDENTI");
    assert("ALIGNM"@[0] != "IDENTI"@[0]);
    reveal_strlit("AXIS_R");
    assert("ALIGNM"@[1] != "AXIS_R"@[1]);
    reveal_strlit("NO_RES");
    assert("ALIGNM"@[0] != "NO_RES"@[0]);
    reveal_strlit("RESERV");
    assert("ALIGNM"@[0] != "RESERV"@[0]);
    assert(bare(c.toks[c.pos + 0]) == y[0]);
    assert(bare(c.toks[c.pos + 1]) == y[1]);
    assert(prefix_of(c.here()) == "ALIGNM"@);
    law_integer_of_dec(x as int);
}

/// The parameters of the first alignments.
pub open spec fn alignment_tokens(a: Seq<i32>, n: int) -> Seq<Tok>
    decreases n,
{
    if n <= 0 {
        Seq::empty()
    } else {
        alignment_tokens(a, n - 1) + tagged(alignment_tag(n - 1), a[n - 1])
    }
}

/// The lines of the first alignments.
pub open spec fn alignment_page(a: Seq<i32>, n: int, p: Page) -> Page
    decreases n,
{
    if n <= 0 {
        p
    } else {
        alignment_page(a, n - 1, p).word(alignment_tag(n - 1), dec_int(a[n - 1] as int))
    }
}

proof fn lemma_alignments_shown(a: Seq<i32>, n: int, p: Page)
    requires
        0 <= n <= 7,
        a.len() == 7,
        indents_by_blanks(p),
    ensures
        shows(p, alignment_page(a, n, p), alignment_tokens(a, n)),
        alignment_page(a, n, p).depth == p.depth,
        alignment_page(a, n, p).style == p.style,
        all_params(alignment_tokens(a, n)),
    decreases n,
{
    if n == 0 {
        lemma_shows_nothing(p);
    } else {
        lemma_alignments_shown(a, n - 1, p);
        let q = alignment_page(a, n - 1, p);
        let tag = alignment_tag(n - 1);
        lemma_alignment_tag(n - 1);
        lemma_tagged_shown(q, tag, a[n - 1]);
        lemma_shows_join(
            p,
            q,
            alignment_page(a, n, p),
            alignment_tokens(a, n - 1),
            tagged(tag, a[n - 1]),
        );
        lemma_all_params_join(alignment_tokens(a, n - 1), tagged(tag, a[n - 1]));
    }
}

/// The alignments when the first of others are given.
pub open spec fn first_alignments(a: Seq<i32>, n: int) -> Option<Seq<i32>> {
    if n <= 0 {
        None
    } else {
        Some(a.subrange(0, n) + usual_alignments().skip(n))
    }
}

proof fn lemma_alignments_read(w: RecordLayoutView, c: Cur, a: Seq<i32>, n: int)
    requires
        0 <= n <= 7,
        a.len() == 7,
        w.alignments is None,
        tokens_at(c.toks, c.pos, alignment_tokens(a, n)),
    ensures
        RecordLayout::options(w, c) == RecordLayout::options(
            RecordLayoutView { alignments: first_alignments(a, n), ..w },
            Cur { pos: c.pos + alignment_tokens(a, n).len(), ..c },
        ),
    decreases n,
{
    if n > 0 {
        let before = alignment_tokens(a, n - 1);
        let y = tagged(alignment_tag(n - 1), a[n - 1]);
        lemma_tokens_at_split(c.toks, c.pos, before, y);
        lemma_alignments_read(w, c, a, n - 1);
        let w1 = RecordLayoutView { alignments: first_alignments(a, n - 1), ..w };
        let w2 = RecordLayoutView { alignments: first_alignments(a, n), ..w };
        let c1 = Cur { pos: c.pos + before.len(), ..c };
        let c2 = Cur { pos: c1.pos + 2, ..c };
        lemma_alignment_read(w1, c1, n - 1, a[n - 1]);
        assert(aligned(w1.alignments, n - 1, a[n - 1])->Some_0 =~= w2.alignments->Some_0);
        lemma_layout_next(w1, c1, w2, c2);
        assert(c.pos + alignment_tokens(a, n).len() == c2.pos);
    }
}

/// The keyword of a fixed number of points.
pub open spec fn fixed_tag(i: int) -> Seq<char> {
    if i == 0 {
        "FIX_NO_AXIS_PTS_X"@
    } else if i == 1 {
        "FIX_NO_AXIS_PTS_Y"@
    } else if i == 2 {
        "FIX_NO_AXIS_PTS_Z"@
    } else if i == 3 {
        "FIX_NO_AXIS_PTS_4"@
    } else {
        "FIX_NO_AXIS_PTS_5"@
    }
}

proof fn lemma_fixed_tag(i: int)
    requires
        0 <= i < 5,
    ensures
        is_keyword(fixed_tag(i)),
        axis_of(fixed_tag(i)) == Some(i),
        prefix_of(plain(fixed_tag(i))) == "FIX_NO"@,
{
    reveal_strlit("FIX_NO");
    reveal_strlit("FIX_NO_AXIS_PTS_X");
    reveal_strlit("FIX_NO_AXIS_PTS_Y");
    reveal_strlit("FIX_NO_AXIS_PTS_Z");
    reveal_strlit("FIX_NO_AXIS_PTS_4");
    reveal_strlit("FIX_NO_AXIS_PTS_5");
    assert(fixed_tag(i).subrange(0, 6) =~= "FIX_NO"@);
}

proof fn lemma_fixed_read(w: RecordLayoutView, c: Cur, i: int, x: i32)
    requires
        0 <= i < 5,
        tokens_at(c.toks, c.pos, tagged(fixed_tag(i), x)),
    ensures
        RecordLayout::option(w, c) == Ok::<(RecordLayoutView, Cur), Failure>(
            (
                RecordLayoutView { fix_no_axis_pts: w.fix_no_axis_pts.update(i, x), ..w },
                Cur { pos: c.pos + 2, ..c },
            ),
        ),
{
    let y = tagged(fixed_tag(i), x);
    lemma_fixed_tag(i);
    assert(bare(c.toks[c.pos + 0]) == y[0]);
    assert(bare(c.toks[c.pos + 1]) == y[1]);
    assert(prefix_of(c.here()) == "FIX_NO"@);
    law_integer_of_dec(x as int);
}

/// The parameters of the first fixed numbers of points.
pub open spec fn fixed_tokens(s: Seq<i32>, n: int) -> Seq<Tok>
    decreases n,
{
    if n <= 0 {
        Seq::empty()
    } else if s[n - 1] != -1 {
        fixed_tokens(s, n - 1) + tagged(fixed_tag(n - 1), s[n - 1])
    } else {
        fixed_tokens(s, n - 1)
    }
}

/// The lines of the first fixed numbers of points.
pub open spec fn fixed_page(s: Seq<i32>, n: int, p: Page) -> Page
    decreases n,
{
    if n <= 0 {
        p
    } else if s[n - 1] != -1 {
        fixed_page(s, n - 1, p).word(fixed_tag(n - 1), dec_int(s[n - 1] as int))
    } else {
        fixed_page(s, n - 1, p)
    }
}

proof fn lemma_fixed_shown(s: Seq<i32>, n: int, p: Page)
    requires
        0 <= n <= 5,
        s.len() == 5,
        indents_by_blanks(p),
    ensures
        shows(p, fixed_page(s, n, p), fixed_tokens(s, n)),
        fixed_page(s, n, p).depth == p.depth,
        fixed_page(s, n, p).style == p.style,
        all_params(fixed_tokens(s, n)),
    decreases n,
{
    if n == 0 {
        lemma_shows_nothing(p);
    } else {
        lemma_fixed_shown(s, n - 1, p);
        if s[n - 1] != -1 {
            let q = fixed_page(s, n - 1, p);
            let tag = fixed_tag(n - 1);
            lemma_fixed_tag(n - 1);
            lemma_tagged_shown(q, tag, s[n - 1]);
            let x = fixed_tokens(s, n - 1);
            lemma_shows_join(p, q, fixed_page(s, n, p), x, tagged(tag, s[n - 1]));
            lemma_all_params_join(x, tagged(tag, s[n - 1]));
        }
    }
}

/// The fixed numbers of points when the first of others are given.
pub open spec fn first_fixed(s: Seq<i32>, n: int) -> Seq<i32> {
    Seq::new(
        5,
        |i: int|
            if i < n {
                s[i]
            } else {
                -1i32
            },
    )
}

proof fn lemma_fixed_all_read(w: RecordLayoutView, c: Cur, s: Seq<i32>, n: int)
    requires
        0 <= n <= 5,
        s.len() == 5,
        w.fix_no_axis_pts == first_fixed(s, 0),
        tokens_at(c.toks, c.pos, fixed_tokens(s, n)),
    ensures
        RecordLayout::options(w, c) == RecordLayout::options(
            RecordLayoutView { fix_no_axis_pts: first_fixed(s, n), ..w },
            Cur { pos: c.pos + fixed_tokens(s, n).len(), ..c },
        ),
    decreases n,
{
    if n > 0 {
        let before = fixed_tokens(s, n - 1);
        let w1 = RecordLayoutView { fix_no_axis_pts: first_fixed(s, n - 1), ..w };
        let w2 = RecordLayoutView { fix_no_axis_pts: first_fixed(s, n), ..w };
        let c1 = Cur { pos: c.pos + before.len(), ..c };
        if s[n - 1] != -1 {
            let y = tagged(fixed_tag(n - 1), s[n - 1]);
            lemma_tokens_at_split(c.toks, c.pos, before, y);
            lemma_fixed_all_read(w, c, s, n - 1);
            let c2 = Cur { pos: c1.pos + 2, ..c };
            lemma_fixed_read(w1, c1, n - 1, s[n - 1]);
            assert(w1.fix_no_axis_pts.update(n - 1, s[n - 1]) =~= w2.fix_no_axis_pts);
            lemma_layout_next(w1, c1, w2, c2);
            assert(c.pos + fixed_tokens(s, n).len() == c2.pos);
        } else {
            lemma_fixed_all_read(w, c, s, n - 1);
            assert(w1.fix_no_axis_pts =~= w2.fix_no_axis_pts);
        }
    }
}

/// The parameters behind the entries.
pub open spec fn closing_tokens(v: RecordLayoutView) -> Seq<Tok> {
    (match v.identification {
        Some(x) => entry_tokens(EntryView::NoAxisPts(x)),
        None => Seq::empty(),
    }) + (if v.static_record_layout {
        seq![plain("STATIC_RECORD_LAYOUT"@)]
    } else {
        Seq::<Tok>::empty()
    }) + (if v.static_address_offsets {
        seq![plain("STATIC_ADDRESS_OFFSETS"@)]
    } else {
        Seq::<Tok>::empty()
    })
}

proof fn lemma_closing_shown(v: RecordLayoutView, p: Page)
    requires
        maybe_fits(single_entry(v.identification), 10),
        indents_by_blanks(p),
    ensures
        shows(p, RecordLayout::closing(v, p), closing_tokens(v)),
        RecordLayout::closing(v, p).depth == p.depth,
        RecordLayout::closing(v, p).style == p.style,
        all_params(closing_tokens(v)),
{
    let y0 = match v.identification {
        Some(x) => entry_tokens(EntryView::NoAxisPts(x)),
        None => Seq::empty(),
    };
    let y1 = if v.static_record_layout {
        seq![plain("STATIC_RECORD_LAYOUT"@)]
    } else {
        Seq::<Tok>::empty()
    };
    let y2 = if v.static_address_offsets {
        seq![plain("STATIC_ADDRESS_OFFSETS"@)]
    } else {
        Seq::<Tok>::empty()
    };
    let p1 = match v.identification {
        Some(x) => p.word(
            "IDENTIFICATION"@,
            dec_int(x.position as int) + " "@ + word_or(x.data_type.word(), "Unsupported"@),
        ),
        None => p,
    };
    let p2 = if v.static_record_layout {
        p1.line("STATIC_RECORD_LAYOUT"@)
    } else {
        p1
    };
    let p3 = RecordLayout::closing(v, p);
    reveal_strlit("STATIC_RECORD_LAYOUT");
    reveal_strlit("STATIC_ADDRESS_OFFSETS");
    lemma_keyword_param("STATIC_RECORD_LAYOUT"@);
    lemma_keyword_param("STATIC_ADDRESS_OFFSETS"@);
    match v.identification {
        Some(x) => {
            lemma_single_shown(x, p);
            reveal_strlit("RESERVED");
            reveal_strlit("IDENTIFICATION");
            assert("RESERVED"@.len() != "IDENTIFICATION"@.len());
            let d = dec_int(x.position as int);
            let t = word_or(x.data_type.word(), "Unsupported"@);
            assert(x.name + " "@ + d + " "@ + t =~= x.name + " "@ + (d + " "@ + t));
        },
        None => {
            lemma_shows_nothing(p);
        },
    }
    lemma_shows_nothing(p1);
    if v.static_record_layout {
        lemma_shows_word_line(p1, "STATIC_RECORD_LAYOUT"@);
    }
    lemma_shows_nothing(p2);
    if v.static_address_offsets {
        lemma_shows_word_line(p2, "STATIC_ADDRESS_OFFSETS"@);
    }
    lemma_shows_join(p, p1, p2, y0, y1);
    lemma_shows_join(p, p2, p3, y0 + y1, y2);
    lemma_all_params_join(y0, y1);
    lemma_all_params_join(y0 + y1, y2);
}

proof fn lemma_static_read(w: RecordLayoutView, c: Cur, record: bool)
    requires
        tokens_at(
            c.toks,
            c.pos,
            seq![plain(if record { "STATIC_RECORD_LAYOUT"@ } else { "STATIC_ADDRESS_OFFSETS"@ })],
        ),
    ensures
        RecordLayout::option(w, c) == Ok::<(RecordLayoutView, Cur), Failure>(
            (
                if record {
                    RecordLayoutView { static_record_layout: true, ..w }
                } else {
                    RecordLayoutView { static_address_offsets: true, ..w }
                },
                c.step(),
            ),
        ),
{
    let t = if record {
        "STATIC_RECORD_LAYOUT"@
    } else {
        "STATIC_ADDRESS_OFFSETS"@
    };
    reveal_strlit("STATIC_RECORD_LAYOUT");
    reveal_strlit("STATIC_ADDRESS_OFFSETS");
    assert("STATIC_RECORD_LAYOUT"@.len() != "STATIC_ADDRESS_OFFSETS"@.len());
    reveal_strlit("STATIC");
    reveal_strlit("FIX_NO");
    assert("STATIC"@[0] != "FIX_NO"@[0]);
    reveal_strlit("FNC_VA");
    assert("STATIC"@[0] != "FNC_VA"@[0]);
    reveal_strlit("DIST_O");
    assert("STATIC"@[0] != "DIST_O"@[0]);
    reveal_strlit("SRC_AD");
    assert("STATIC"@[1] != "SRC_AD"@[1]);
    reveal_strlit("NO_AXI");
    assert("STATIC"@[0] != "NO_AXI"@[0]);
    reveal_strlit("OFFSET");
    assert("STATIC"@[0] != "OFFSET"@[0]);
    reveal_strlit("SHIFT_");
    assert("STATIC"@[1] != "SHIFT_"@[1]);
    reveal_strlit("AXIS_P");
    assert("STATIC"@[0] != "AXIS_P"@[0]);
    reveal_strlit("IDENTI");
    assert("STATIC"@[0] != "IDENTI"@[0]);
    reveal_strlit("AXIS_R");
    assert("STATIC"@[0] != "AXIS_R"@[0]);
    reveal_strlit("NO_RES");
    assert("STATIC"@[0] != "NO_RES"@[0]);
    reveal_strlit("RESERV");
    assert("STATIC"@[0] != "RESERV"@[0]);
    reveal_strlit("ALIGNM");
    assert("STATIC"@[0] != "ALIGNM"@[0]);
    reveal_strlit("RIP_AD");
    assert("STATIC"@[0] != "RIP_AD"@[0]);
    assert(t.subrange(0, 6) =~= "STATIC"@);
    assert(bare(c.toks[c.pos + 0]) == seq![plain(t)][0]);
    assert(prefix_of(c.here()) == "STATIC"@);
}

proof fn lemma_closing_read(w: RecordLayoutView, v: RecordLayoutView, c: Cur)
    requires
        maybe_fits(single_entry(v.identification), 10),
        w == (RecordLayoutView {
            static_record_layout: false,
            static_address_offsets: false,
            ..v
        }),
        tokens_at(c.toks, c.pos, closing_tokens(v)),
        c.pos + closing_tokens(v).len() == c.toks.len(),
    ensures
        RecordLayout::options(w, c) matches Ok((r, _)) && r == v,
{
    let y0 = match v.identification {
        Some(x) => entry_tokens(EntryView::NoAxisPts(x)),
        None => Seq::empty(),
    };
    let y1 = if v.static_record_layout {
        seq![plain("STATIC_RECORD_LAYOUT"@)]
    } else {
        Seq::<Tok>::empty()
    };
    let y2 = if v.static_address_offsets {
        seq![plain("STATIC_ADDRESS_OFFSETS"@)]
    } else {
        Seq::<Tok>::empty()
    };
    lemma_tokens_at_split(c.toks, c.pos, y0 + y1, y2);
    lemma_tokens_at_split(c.toks, c.pos, y0, y1);
    let c1 = Cur { pos: c.pos + y0.len(), ..c };
    let c2 = Cur { pos: c1.pos + y1.len(), ..c };
    let w2 = RecordLayoutView { static_address_offsets: false, ..v };
    if let Some(x) = v.identification {
        let e = EntryView::NoAxisPts(x);
        lemma_entry_read(w, c, e);
        assert(put(w, e) == w);
        lemma_layout_next(w, c, w, c1);
    }
    if v.static_record_layout {
        lemma_static_read(w, c1, true);
        lemma_layout_next(w, c1, w2, c2);
    }
    if v.static_address_offsets {
        lemma_static_read(w2, c2, false);
        lemma_layout_next(w2, c2, v, c2.step());
    }
}

/// The parameters of the alignments, if there are any.
pub open spec fn alignments_tokens(v: RecordLayoutView) -> Seq<Tok> {
    match v.alignments {
        Some(a) => alignment_tokens(a, 7),
        None => Seq::empty(),
    }
}

/// The lines of the alignments, if there are any.
pub open spec fn alignments_page(v: RecordLayoutView, p: Page) -> Page {
    match v.alignments {
        Some(a) => alignment_page(a, 7, p),
        None => p,
    }
}

proof fn lemma_body_pages(v: RecordLayoutView, p: Page)
    ensures
        RecordLayout::body(v, p) == match RecordLayout::entry_lines(
            by_position(entries_of(v)),
            0,
            fixed_page(v.fix_no_axis_pts, 5, alignments_page(v, p.line(v.name))),
        ) {
            Err(f) => Err(f),
            Ok(q) => Ok::<Page, Stopped>(RecordLayout::closing(v, q)),
        },
{
    reveal_with_fuel(alignment_page, 8);
    reveal_with_fuel(fixed_page, 6);
}

proof fn lemma_opening_read(v: RecordLayoutView, c: Cur)
    requires
        v.alignments matches Some(a) ==> a.len() == 7,
        v.fix_no_axis_pts.len() == 5,
        tokens_at(c.toks, c.pos, alignments_tokens(v) + fixed_tokens(v.fix_no_axis_pts, 5)),
    ensures
        RecordLayout::options(RecordLayoutView { name: v.name, ..RecordLayout::blank() }, c)
            == RecordLayout::options(
            RecordLayoutView {
                name: v.name,
                alignments: v.alignments,
                fix_no_axis_pts: v.fix_no_axis_pts,
                ..RecordLayout::blank()
            },
            Cur {
                pos: c.pos + alignments_tokens(v).len() + fixed_tokens(v.fix_no_axis_pts, 5).len(),
                ..c
            },
        ),
{
    let y1 = alignments_tokens(v);
    let y2 = fixed_tokens(v.fix_no_axis_pts, 5);
    lemma_tokens_at_split(c.toks, c.pos, y1, y2);
    let w0 = RecordLayoutView { name: v.name, ..RecordLayout::blank() };
    let w1 = RecordLayoutView { alignments: v.alignments, ..w0 };
    let c1 = Cur { pos: c.pos + y1.len(), ..c };
    if let Some(a) = v.alignments {
        lemma_alignments_read(w0, c, a, 7);
        assert(first_alignments(a, 7)->Some_0 =~= a);
    }
    assert(w1.fix_no_axis_pts =~= first_fixed(v.fix_no_axis_pts, 0));
    lemma_fixed_all_read(w1, c1, v.fix_no_axis_pts, 5);
    assert(first_fixed(v.fix_no_axis_pts, 5) =~= v.fix_no_axis_pts);
}

proof fn lemma_sorted_read(v: RecordLayoutView, c: Cur)
    requires
        layout_fits(v),
        tokens_at(c.toks, c.pos, layout_tokens(by_position(entries_of(v)), 0)),
    ensures
        RecordLayout::options(without_entries(v), c) == RecordLayout::options(
            v,
            Cur { pos: c.pos + layout_tokens(by_position(entries_of(v)), 0).len(), ..c },
        ),
{
    let s = by_position(entries_of(v));
    let w = without_entries(v);
    lemma_entries_put(v);
    assert(five(w));
    lemma_put_sorted(w, entries_of(v));
    lemma_entries_read(w, c, s, 0);
    assert(s.subrange(0, 0) =~= Seq::<EntryView>::empty());
    assert(put_all(w, Seq::<EntryView>::empty()) == w);
}

proof fn lemma_unmarked(v: RecordLayoutView, w: RecordLayoutView)
    requires
        layout_fits(v),
        w == (RecordLayoutView {
            static_record_layout: false,
            static_address_offsets: false,
            ..v
        }),
    ensures
        layout_fits(w),
        entries_of(w) == entries_of(v),
{
}

/// The parameters of a layout.
#[verifier::opaque]
pub open spec fn layout_params(v: RecordLayoutView) -> Seq<Tok> {
    seq![plain(v.name)] + alignments_tokens(v) + fixed_tokens(v.fix_no_axis_pts, 5)
        + layout_tokens(by_position(entries_of(v)), 0) + closing_tokens(v)
}

proof fn lemma_layout_read(v: RecordLayoutView, c: Cur)
    requires
        v.alignments matches Some(a) ==> a.len() == 7,
        v.fix_no_axis_pts.len() == 5,
        layout_fits(v),
        c.pos == 0,
        tokens_at(c.toks, 0, layout_params(v)),
        c.toks.len() == layout_params(v).len(),
    ensures
        RecordLayout::head(c) matches Ok((w, n)) && RecordLayout::options(w, n) matches Ok((r, _))
            && r == v,
{
    reveal(layout_params);
    let s = by_position(entries_of(v));
    let y0 = seq![plain(v.name)];
    let y1 = alignments_tokens(v);
    let y2 = fixed_tokens(v.fix_no_axis_pts, 5);
    let y3 = layout_tokens(s, 0);
    let y4 = closing_tokens(v);
    assert(y0 + y1 + y2 =~= y0 + (y1 + y2));
    lemma_tokens_at_split(c.toks, 0, y0 + y1 + y2 + y3, y4);
    lemma_tokens_at_split(c.toks, 0, y0 + y1 + y2, y3);
    lemma_tokens_at_split(c.toks, 0, y0, y1 + y2);
    assert(bare(c.toks[0int + 0]) == y0[0]);
    let w0 = RecordLayoutView { name: v.name, ..RecordLayout::blank() };
    let w3 = RecordLayoutView { static_record_layout: false, static_address_offsets: false, ..v };
    let c0 = Cur { pos: 1, ..c };
    let c2 = Cur { pos: c0.pos + y1.len() + y2.len(), ..c };
    let c3 = Cur { pos: c2.pos + y3.len(), ..c };
    assert(RecordLayout::head(c) == Ok::<(RecordLayoutView, Cur), Failure>((w0, c0)));
    lemma_opening_read(v, c0);
    lemma_unmarked(v, w3);
    lemma_sorted_read(w3, c2);
    lemma_closing_read(w3, v, c3);
}

proof fn lemma_layout_shown(v: RecordLayoutView, p: Page)
    requires
        is_param(plain(v.name)),
        v.alignments matches Some(a) ==> a.len() == 7,
        v.fix_no_axis_pts.len() == 5,
        layout_fits(v),
        indents_by_blanks(p),
    ensures
        RecordLayout::body(v, p) matches Ok(q) && shows(p, q, layout_params(v)) && q.depth
            == p.depth && q.style == p.style,
        all_params(layout_params(v)),
{
    reveal(layout_params);
    let s = by_position(entries_of(v));
    let y0 = seq![plain(v.name)];
    let y1 = alignments_tokens(v);
    let y2 = fixed_tokens(v.fix_no_axis_pts, 5);
    let y3 = layout_tokens(s, 0);
    let y4 = closing_tokens(v);
    let p1 = p.line(v.name);
    let p2 = alignments_page(v, p1);
    let p3 = fixed_page(v.fix_no_axis_pts, 5, p2);
    let p4 = RecordLayout::entry_lines(s, 0, p3)->Ok_0;
    let q = RecordLayout::closing(v, p4);
    lemma_body_pages(v, p);
    lemma_entries_put(v);
    lemma_put_sorted(without_entries(v), entries_of(v));
    lemma_shows_word_line(p, v.name);
    match v.alignments {
        Some(a) => lemma_alignments_shown(a, 7, p1),
        None => lemma_shows_nothing(p1),
    }
    lemma_fixed_shown(v.fix_no_axis_pts, 5, p2);
    lemma_entries_shown(s, 0, p3);
    lemma_closing_shown(v, p4);
    lemma_shows_join(p, p1, p2, y0, y1);
    lemma_shows_join(p, p2, p3, y0 + y1, y2);
    lemma_shows_join(p, p3, p4, y0 + y1 + y2, y3);
    lemma_shows_join(p, p4, q, y0 + y1 + y2 + y3, y4);
    lemma_all_params_join(y0, y1);
    lemma_all_params_join(y0 + y1, y2);
    lemma_all_params_join(y0 + y1 + y2, y3);
    lemma_all_params_join(y0 + y1 + y2 + y3, y4);
}

/// The parameters of the block.
pub open spec fn record_layout_params(v: RecordLayoutView) -> Seq<Tok> {
    Seq::<Tok>::empty() + (layout_params(v))
}

impl Faithful for RecordLayout {
    open spec fn fits(v: RecordLayoutView, f: Setting) -> bool {
        &&& is_param(plain(v.name))
        &&& (v.alignments matches Some(a) ==> a.len() == 7)
        &&& v.fix_no_axis_pts.len() == 5
        &&& layout_fits(v)
    }

    open spec fn shape(v: RecordLayoutView) -> Tree {
        shape_of("RECORD_LAYOUT"@, record_layout_params(v), Seq::empty())
    }

    proof fn law_shown(v: RecordLayoutView, p: Page, f: Setting) {
        reveal_strlit("RECORD_LAYOUT");
        lemma_keyword_word("RECORD_LAYOUT"@);
        let h = Seq::<Tok>::empty();
        let x = layout_params(v);
        lemma_spells_word("RECORD_LAYOUT"@);
        assert(seq![plain("RECORD_LAYOUT"@)] + h =~= seq![plain("RECORD_LAYOUT"@)]);
        crate::a2l::tree_laws::lemma_shows_begin(p, "RECORD_LAYOUT"@, seq![plain("RECORD_LAYOUT"@)] + h);
        let p0 = p.begin("RECORD_LAYOUT"@);
        lemma_layout_shown(v, p0);
        let q0 = RecordLayout::body(v, p0)->Ok_0;
        assert(shows(p0, q0, x));
        let q = q0;
        let kids = Seq::<Tree>::empty();
        let y = Seq::<Tok>::empty();
        assert(blocks_tokens(kids, 0) =~= y);
        assert(x + y =~= x);
        assert(all_params(h));
        lemma_all_params_join(h, x);
        lemma_shape_tokens(h + x, kids);
        lemma_sound_shape("RECORD_LAYOUT"@, h + x, kids);
        assert(h + (x + y) =~= h + x + y);
        assert(Self::body(v, p0) == Ok::<Page, Stopped>(q));
        lemma_shows_block(p, "RECORD_LAYOUT"@, h, "RECORD_LAYOUT"@, q, x + y, Self::shape(v));
    }

    proof fn law_parsed(v: RecordLayoutView, tree: Tree, f: Setting) {
        let h = Seq::<Tok>::empty();
        let x = layout_params(v);
        let kids = Seq::<Tree>::empty();
        lemma_shape_found(tree, "RECORD_LAYOUT"@, h + x, kids, f);
        let c = Cur::start(tree);
        lemma_tokens_at_split(c.toks, 0, h, x);
        assert(h + x =~= x);
        lemma_layout_read(v, c);
    }
}

} // verus!
