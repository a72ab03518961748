//! Parameters that are read, but not written.

use crate::a2l::error::Failure;
use crate::a2l::model::characteristic::{Characteristic, CharacteristicView};
use crate::a2l::model::compu::{CompuMethod, CompuMethodView};
use crate::a2l::model::measurement::{MeasurementParts, MeasurementPartsView};
use crate::a2l::model::typedef::{TypedefStructure, TypedefStructureView};
use crate::a2l::params::{integer, Cur};
use crate::text::{same_ignore_case, upper};
use vstd::prelude::*;

verus! {

/// A parameter that is one keyword is not another.
proof fn lemma_other(c: Cur, keyword: Seq<char>, other: Seq<char>, i: int)
    requires
        c.at(keyword),
        keyword.len() != other.len() || (0 <= i < keyword.len() && upper(keyword[i]) != upper(
            other[i],
        )),
    ensures
        !c.at(other),
{
    reveal(same_ignore_case);
    let t = c.here().text;
    if c.at(other) && keyword.len() == other.len() {
        assert(upper(t[i]) == upper(keyword[i]));
        assert(upper(t[i]) == upper(other[i]));
    }
}

/// The size of an array is the integer behind `ARRAY_SIZE`.
pub proof fn law_array_size_read(v: MeasurementPartsView, c: Cur)
    requires
        c.at("ARRAY_SIZE"@),
    ensures
        match MeasurementParts::option(v, c) {
            Ok((w, n)) => {
                &&& integer(c.step().here().text, true) == Some(w.array_size as int)
                &&& w.node == v.node
                &&& n == c.step().step()
            },
            Err(f) => c.step().more() ==> (integer(c.step().here().text, true) matches Some(x) ==> x
                < i32::MIN || x > i32::MAX),
        },
{
    reveal_strlit("ARRAY_SIZE");
    reveal_strlit("ECU_ADDRESS");
    lemma_other(c, "ARRAY_SIZE"@, "ECU_ADDRESS"@, 0);
    reveal_strlit("LAYOUT");
    lemma_other(c, "ARRAY_SIZE"@, "LAYOUT"@, 0);
    reveal_strlit("BIT_MASK");
    lemma_other(c, "ARRAY_SIZE"@, "BIT_MASK"@, 0);
    reveal_strlit("ERROR_MASK");
    lemma_other(c, "ARRAY_SIZE"@, "ERROR_MASK"@, 0);
    reveal_strlit("DISCRETE");
    lemma_other(c, "ARRAY_SIZE"@, "DISCRETE"@, 0);
    reveal_strlit("READ_WRITE");
    lemma_other(c, "ARRAY_SIZE"@, "READ_WRITE"@, 0);
}

/// The quantity that a characteristic is compared with is named behind `COMPARISON_QUANTITY`.
pub proof fn law_comparison_quantity_read(v: CharacteristicView, c: Cur)
    requires
        c.at("COMPARISON_QUANTITY"@),
    ensures
        c.step().more() ==> Characteristic::option(v, c) == Ok::<(CharacteristicView, Cur), Failure>(
            (
                CharacteristicView { comparison_quantity: Some(c.step().here().text), ..v },
                c.step().step(),
            ),
        ),
        !c.step().more() ==> Characteristic::option(v, c) is Err,
{
    reveal_strlit("COMPARISON_QUANTITY");
    reveal_strlit("ECU_ADDRESS_EXTENSION");
    lemma_other(c, "COMPARISON_QUANTITY"@, "ECU_ADDRESS_EXTENSION"@, 0);
    reveal_strlit("DISPLAY_IDENTIFIER");
    lemma_other(c, "COMPARISON_QUANTITY"@, "DISPLAY_IDENTIFIER"@, 0);
    reveal_strlit("CALIBRATION_ACCESS");
    lemma_other(c, "COMPARISON_QUANTITY"@, "CALIBRATION_ACCESS"@, 0);
    reveal_strlit("MAX_REFRESH");
    lemma_other(c, "COMPARISON_QUANTITY"@, "MAX_REFRESH"@, 0);
    reveal_strlit("SYMBOL_LINK");
    lemma_other(c, "COMPARISON_QUANTITY"@, "SYMBOL_LINK"@, 0);
    reveal_strlit("MODEL_LINK");
    lemma_other(c, "COMPARISON_QUANTITY"@, "MODEL_LINK"@, 0);
    reveal_strlit("FORMAT");
    lemma_other(c, "COMPARISON_QUANTITY"@, "FORMAT"@, 0);
    reveal_strlit("PHYS_UNIT");
    lemma_other(c, "COMPARISON_QUANTITY"@, "PHYS_UNIT"@, 0);
    reveal_strlit("BYTE_ORDER");
    lemma_other(c, "COMPARISON_QUANTITY"@, "BYTE_ORDER"@, 0);
    reveal_strlit("REF_MEMORY_SEGMENT");
    lemma_other(c, "COMPARISON_QUANTITY"@, "REF_MEMORY_SEGMENT"@, 0);
    reveal_strlit("READ_ONLY");
    lemma_other(c, "COMPARISON_QUANTITY"@, "READ_ONLY"@, 0);
    reveal_strlit("EXTENDED_LIMITS");
    lemma_other(c, "COMPARISON_QUANTITY"@, "EXTENDED_LIMITS"@, 0);
    reveal_strlit("STEP_SIZE");
    lemma_other(c, "COMPARISON_QUANTITY"@, "STEP_SIZE"@, 0);
    reveal_strlit("GUARD_RAILS");
    lemma_other(c, "COMPARISON_QUANTITY"@, "GUARD_RAILS"@, 0);
    reveal_strlit("BIT_MASK");
    lemma_other(c, "COMPARISON_QUANTITY"@, "BIT_MASK"@, 0);
    reveal_strlit("NUMBER");
    lemma_other(c, "COMPARISON_QUANTITY"@, "NUMBER"@, 0);
    reveal_strlit("MATRIX_DIM");
    lemma_other(c, "COMPARISON_QUANTITY"@, "MATRIX_DIM"@, 0);
}

/// `CONSISTENT_EXCHANGE` says that the components of a structure are exchanged together.
pub proof fn law_consistent_exchange_read(v: TypedefStructureView, c: Cur)
    requires
        c.at("CONSISTENT_EXCHANGE"@),
    ensures
        TypedefStructure::option(v, c) == Ok::<(TypedefStructureView, Cur), Failure>(
            (TypedefStructureView { consistent_exchange: true, ..v }, c.step()),
        ),
{
    reveal_strlit("CONSISTENT_EXCHANGE");
}

/// A formula may stand behind `FORMULA` among the parameters of a conversion.
pub proof fn law_inline_formula_read(v: CompuMethodView, c: Cur)
    requires
        c.at("FORMULA"@),
    ensures
        c.step().more() ==> (CompuMethod::option(v, c) matches Ok((w, n)) && {
            &&& w.inline_formula matches Some(f) && f.formula == c.step().here().text
                && f.formula_inv is None
            &&& w.coeffs == v.coeffs
            &&& w.name == v.name
            &&& w.conversion_type == v.conversion_type
            &&& n == c.step().step()
        }),
{
    reveal_strlit("FORMULA");
    reveal_strlit("COEFFS");
    lemma_other(c, "FORMULA"@, "COEFFS"@, 0);
    reveal_strlit("COEFFS_LINEAR");
    lemma_other(c, "FORMULA"@, "COEFFS_LINEAR"@, 0);
    reveal_strlit("COMPU_TAB_REF");
    lemma_other(c, "FORMULA"@, "COMPU_TAB_REF"@, 0);
    reveal_strlit("STATUS_STRING_REF");
    lemma_other(c, "FORMULA"@, "STATUS_STRING_REF"@, 0);
    reveal_strlit("REF_UNIT");
    lemma_other(c, "FORMULA"@, "REF_UNIT"@, 0);
}

} // verus!
