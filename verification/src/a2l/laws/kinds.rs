//! Which blocks have a kind of their own.

use crate::a2l::block::Tree;
use crate::a2l::model::canape::{CanapeAddressUpdateChild};
use crate::a2l::model::characteristic::{AxisPtsChild, CharacteristicChild};
use crate::a2l::model::function::{FunctionChild, GroupChild};
use crate::a2l::model::measurement::{AxisDescrChild, BlobChild, InstanceChild, MeasurementChild};
use crate::a2l::model::module::{ModParChild, ModuleChild, UserRightsChild};
use crate::a2l::model::project::{ProjectChild};
use crate::a2l::model::typedef::{StructureComponentChild, TypedefStructureChild};
use crate::a2l::model::variant::{VarCriterionChild, VariantCodingChild};
use crate::a2l::model::parts::Child;
use crate::text::same_ignore_case;
use vstd::prelude::*;

verus! {

/// Which blocks within a node are read as [`CanapeAddressUpdateChild`] of a kind of its own, by their keywords; every
/// other block is kept as it is.
pub proof fn law_canape_address_update_blocks(tree: Tree)
    ensures
        CanapeAddressUpdateChild::parsed(tree) matches Ok(v) ==> {
            &&& v is MapSymbol ==> same_ignore_case(tree.keyword, "MAP_SYMBOL"@)
            &&& v is MemorySegment ==> same_ignore_case(tree.keyword, "MEMORY_SEGMENT"@)
            &&& v is CalibrationMethod ==> same_ignore_case(tree.keyword, "CALIBRATION_METHOD"@)
            &&& v is Unsupported <==> !(
                same_ignore_case(tree.keyword, "MAP_SYMBOL"@) || same_ignore_case(
                    tree.keyword,
                    "MEMORY_SEGMENT"@
                ) || same_ignore_case(
                    tree.keyword,
                    "CALIBRATION_METHOD"@
                )
            )
        },
{
}

/// Which blocks within a node are read as [`CharacteristicChild`] of a kind of its own, by their keywords; every
/// other block is kept as it is.
pub proof fn law_characteristic_blocks(tree: Tree)
    ensures
        CharacteristicChild::parsed(tree) matches Ok(v) ==> {
            &&& v is Annotation ==> same_ignore_case(tree.keyword, "ANNOTATION"@)
            &&& v is AxisDescr ==> same_ignore_case(tree.keyword, "AXIS_DESCR"@)
            &&& v is DependentCharacteristic ==> same_ignore_case(tree.keyword, "DEPENDENT_CHARACTERISTIC"@)
            &&& v is VirtualCharacteristic ==> same_ignore_case(tree.keyword, "VIRTUAL_CHARACTERISTIC"@)
            &&& v is Unsupported <==> !(
                same_ignore_case(tree.keyword, "ANNOTATION"@) || same_ignore_case(tree.keyword, "AXIS_DESCR"@) || same_ignore_case(
                    tree.keyword,
                    "DEPENDENT_CHARACTERISTIC"@
                ) || same_ignore_case(tree.keyword, "VIRTUAL_CHARACTERISTIC"@)
            )
        },
{
}

/// Which blocks within a node are read as [`AxisPtsChild`] of a kind of its own, by their keywords; every
/// other block is kept as it is.
pub proof fn law_axis_pts_blocks(tree: Tree)
    ensures
        AxisPtsChild::parsed(tree) matches Ok(v) ==> {
            &&& v is Annotation ==> same_ignore_case(tree.keyword, "ANNOTATION"@)
            &&& v is Unsupported <==> !(same_ignore_case(tree.keyword, "ANNOTATION"@))
        },
{
}

/// Which blocks within a node are read as [`FunctionChild`] of a kind of its own, by their keywords; every
/// other block is kept as it is.
pub proof fn law_function_blocks(tree: Tree)
    ensures
        FunctionChild::parsed(tree) matches Ok(v) ==> {
            &&& v is Annotation ==> same_ignore_case(tree.keyword, "ANNOTATION"@)
            &&& v is DefCharacteristic ==> same_ignore_case(tree.keyword, "DEF_CHARACTERISTIC"@)
            &&& v is RefCharacteristic ==> same_ignore_case(tree.keyword, "REF_CHARACTERISTIC"@)
            &&& v is InMeasurement ==> same_ignore_case(tree.keyword, "IN_MEASUREMENT"@)
            &&& v is LocMeasurement ==> same_ignore_case(tree.keyword, "LOC_MEASUREMENT"@)
            &&& v is OutMeasurement ==> same_ignore_case(tree.keyword, "OUT_MEASUREMENT"@)
            &&& v is VirtualCharacteristic ==> same_ignore_case(tree.keyword, "VIRTUAL_CHARACTERISTIC"@)
            &&& v is SubFunction ==> same_ignore_case(tree.keyword, "SUB_FUNCTION"@)
            &&& v is Unsupported <==> !(
                same_ignore_case(tree.keyword, "ANNOTATION"@) || same_ignore_case(
                    tree.keyword,
                    "DEF_CHARACTERISTIC"@
                ) || same_ignore_case(tree.keyword, "REF_CHARACTERISTIC"@) || same_ignore_case(tree.keyword, "IN_MEASUREMENT"@) || same_ignore_case(tree.keyword, "LOC_MEASUREMENT"@) || same_ignore_case(tree.keyword, "OUT_MEASUREMENT"@) || same_ignore_case(
                    tree.keyword,
                    "VIRTUAL_CHARACTERISTIC"@
                ) || same_ignore_case(tree.keyword, "SUB_FUNCTION"@)
            )
        },
{
}

/// Which blocks within a node are read as [`GroupChild`] of a kind of its own, by their keywords; every
/// other block is kept as it is.
pub proof fn law_group_blocks(tree: Tree)
    ensures
        GroupChild::parsed(tree) matches Ok(v) ==> {
            &&& v is Annotation ==> same_ignore_case(tree.keyword, "ANNOTATION"@)
            &&& v is RefMeasurement ==> same_ignore_case(tree.keyword, "REF_MEASUREMENT"@)
            &&& v is RefCharacteristic ==> same_ignore_case(tree.keyword, "REF_CHARACTERISTIC"@)
            &&& v is FunctionList ==> same_ignore_case(tree.keyword, "FUNCTION_LIST"@)
            &&& v is SubGroup ==> same_ignore_case(tree.keyword, "SUB_GROUP"@)
            &&& v is Unsupported <==> !(
                same_ignore_case(tree.keyword, "ANNOTATION"@) || same_ignore_case(
                    tree.keyword,
                    "REF_MEASUREMENT"@
                ) || same_ignore_case(
                    tree.keyword,
                    "REF_CHARACTERISTIC"@
                ) || same_ignore_case(tree.keyword, "FUNCTION_LIST"@) || same_ignore_case(tree.keyword, "SUB_GROUP"@)
            )
        },
{
}

/// Which blocks within a node are read as [`MeasurementChild`] of a kind of its own, by their keywords; every
/// other block is kept as it is.
pub proof fn law_measurement_blocks(tree: Tree)
    ensures
        MeasurementChild::parsed(tree) matches Ok(v) ==> {
            &&& v is Annotation ==> same_ignore_case(tree.keyword, "ANNOTATION"@)
            &&& v is Unsupported <==> !(same_ignore_case(tree.keyword, "ANNOTATION"@))
        },
{
}

/// Which blocks within a node are read as [`AxisDescrChild`] of a kind of its own, by their keywords; every
/// other block is kept as it is.
pub proof fn law_axis_descr_blocks(tree: Tree)
    ensures
        AxisDescrChild::parsed(tree) matches Ok(v) ==> {
            &&& v is Annotation ==> same_ignore_case(tree.keyword, "ANNOTATION"@)
            &&& v is Unsupported <==> !(same_ignore_case(tree.keyword, "ANNOTATION"@))
        },
{
}

/// Which blocks within a node are read as [`BlobChild`] of a kind of its own, by their keywords; every
/// other block is kept as it is.
pub proof fn law_blob_blocks(tree: Tree)
    ensures
        BlobChild::parsed(tree) matches Ok(v) ==> {
            &&& v is Annotation ==> same_ignore_case(tree.keyword, "ANNOTATION"@)
            &&& v is Unsupported <==> !(same_ignore_case(tree.keyword, "ANNOTATION"@))
        },
{
}

/// Which blocks within a node are read as [`InstanceChild`] of a kind of its own, by their keywords; every
/// other block is kept as it is.
pub proof fn law_instance_blocks(tree: Tree)
    ensures
        InstanceChild::parsed(tree) matches Ok(v) ==> {
            &&& v is Annotation ==> same_ignore_case(tree.keyword, "ANNOTATION"@)
            &&& v is Unsupported <==> !(same_ignore_case(tree.keyword, "ANNOTATION"@))
        },
{
}

/// Which blocks within a node are read as [`ModuleChild`] of a kind of its own, by their keywords; every
/// other block is kept as it is.
pub proof fn law_module_blocks(tree: Tree)
    ensures
        ModuleChild::parsed(tree) matches Ok(v) ==> {
            &&& v is CompuTab ==> tree.keyword == "COMPU_TAB"@
            &&& v is CompuVtab ==> tree.keyword == "COMPU_VTAB"@
            &&& v is CompuVtabRange ==> tree.keyword == "COMPU_VTAB_RANGE"@
            &&& v is Formula ==> tree.keyword == "FORMULA"@
            &&& v is RecordLayout ==> tree.keyword == "RECORD_LAYOUT"@
            &&& v is Function ==> tree.keyword == "FUNCTION"@
            &&& v is Group ==> tree.keyword == "GROUP"@
            &&& v is Frame ==> tree.keyword == "FRAME"@
            &&& v is Unit ==> tree.keyword == "UNIT"@
            &&& v is UserRights ==> tree.keyword == "USER_RIGHTS"@
            &&& v is VariantCoding ==> tree.keyword == "VARIANT_CODING"@
            &&& v is TypedefAxis ==> tree.keyword == "TYPEDEF_AXIS"@
            &&& v is TypedefBlob ==> tree.keyword == "TYPEDEF_BLOB"@
            &&& v is TypedefCharacteristic ==> tree.keyword == "TYPEDEF_CHARACTERISTIC"@
            &&& v is TypedefMeasurement ==> tree.keyword == "TYPEDEF_MEASUREMENT"@
            &&& v is TypedefStructure ==> tree.keyword == "TYPEDEF_STRUCTURE"@
            &&& v is ModPar ==> tree.keyword == "MOD_PAR"@
            &&& v is ModCommon ==> tree.keyword == "MOD_COMMON"@
            &&& v is Measurement ==> tree.keyword == "MEASUREMENT"@
            &&& v is Characteristic ==> tree.keyword == "CHARACTERISTIC"@
            &&& v is AxisPts ==> tree.keyword == "AXIS_PTS"@
            &&& v is Blob ==> tree.keyword == "BLOB"@
            &&& v is Instance ==> tree.keyword == "INSTANCE"@
            &&& v is CompuMethod ==> tree.keyword == "COMPU_METHOD"@
            &&& v is Unsupported <==> !(
                tree.keyword == "COMPU_TAB"@ || tree.keyword == "COMPU_VTAB"@ || tree.keyword == "COMPU_VTAB_RANGE"@ || tree.keyword == "FORMULA"@ || tree.keyword == "RECORD_LAYOUT"@ || tree.keyword == "FUNCTION"@ || tree.keyword == "GROUP"@ || tree.keyword == "FRAME"@ || tree.keyword == "UNIT"@ || tree.keyword == "USER_RIGHTS"@ || tree.keyword == "VARIANT_CODING"@ || tree.keyword == "TYPEDEF_AXIS"@ || tree.keyword == "TYPEDEF_BLOB"@ || tree.keyword == "TYPEDEF_CHARACTERISTIC"@ || tree.keyword == "TYPEDEF_MEASUREMENT"@ || tree.keyword == "TYPEDEF_STRUCTURE"@ || tree.keyword == "MOD_PAR"@ || tree.keyword == "MOD_COMMON"@ || tree.keyword == "MEASUREMENT"@ || tree.keyword == "CHARACTERISTIC"@ || tree.keyword == "AXIS_PTS"@ || tree.keyword == "BLOB"@ || tree.keyword == "INSTANCE"@ || tree.keyword == "COMPU_METHOD"@
            )
        },
{
}

/// Which blocks within a node are read as [`ModParChild`] of a kind of its own, by their keywords; every
/// other block is kept as it is.
pub proof fn law_mod_par_blocks(tree: Tree)
    ensures
        ModParChild::parsed(tree) matches Ok(v) ==> {
            &&& v is CalibrationHandle ==> same_ignore_case(tree.keyword, "CALIBRATION_HANDLE"@)
            &&& v is CalibrationMethod ==> same_ignore_case(tree.keyword, "CALIBRATION_METHOD"@)
            &&& v is MemoryLayout ==> same_ignore_case(tree.keyword, "MEMORY_LAYOUT"@)
            &&& v is MemorySegment ==> same_ignore_case(tree.keyword, "MEMORY_SEGMENT"@)
            &&& v is Unsupported <==> !(
                same_ignore_case(
                    tree.keyword,
                    "CALIBRATION_HANDLE"@
                ) || same_ignore_case(tree.keyword, "CALIBRATION_METHOD"@) || same_ignore_case(tree.keyword, "MEMORY_LAYOUT"@) || same_ignore_case(tree.keyword, "MEMORY_SEGMENT"@)
            )
        },
{
}

/// Which blocks within a node are read as [`UserRightsChild`] of a kind of its own, by their keywords; every
/// other block is kept as it is.
pub proof fn law_user_rights_blocks(tree: Tree)
    ensures
        UserRightsChild::parsed(tree) matches Ok(v) ==> {
            &&& v is RefGroup ==> same_ignore_case(tree.keyword, "REF_GROUP"@)
            &&& v is Unsupported <==> !(same_ignore_case(tree.keyword, "REF_GROUP"@))
        },
{
}

/// Which blocks within a node are read as [`ProjectChild`] of a kind of its own, by their keywords; every
/// other block is kept as it is.
pub proof fn law_project_blocks(tree: Tree)
    ensures
        ProjectChild::parsed(tree) matches Ok(v) ==> {
            &&& v is Header ==> tree.keyword == "HEADER"@
            &&& v is Module ==> tree.keyword == "MODULE"@
            &&& v is Unsupported <==> !(tree.keyword == "HEADER"@ || tree.keyword == "MODULE"@)
        },
{
}

/// Which blocks within a node are read as [`TypedefStructureChild`] of a kind of its own, by their keywords; every
/// other block is kept as it is.
pub proof fn law_typedef_structure_blocks(tree: Tree)
    ensures
        TypedefStructureChild::parsed(tree) matches Ok(v) ==> {
            &&& v is Component ==> same_ignore_case(tree.keyword, "STRUCTURE_COMPONENT"@)
            &&& v is Unsupported <==> !(same_ignore_case(tree.keyword, "STRUCTURE_COMPONENT"@))
        },
{
}

/// Which blocks within a node are read as [`StructureComponentChild`] of a kind of its own, by their keywords; every
/// other block is kept as it is.
pub proof fn law_structure_component_blocks(tree: Tree)
    ensures
        StructureComponentChild::parsed(tree) matches Ok(v) ==> {
            &&& v is ArComponent ==> same_ignore_case(tree.keyword, "AR_COMPONENT"@)
            &&& v is Unsupported <==> !(same_ignore_case(tree.keyword, "AR_COMPONENT"@))
        },
{
}

/// Which blocks within a node are read as [`VariantCodingChild`] of a kind of its own, by their keywords; every
/// other block is kept as it is.
pub proof fn law_variant_coding_blocks(tree: Tree)
    ensures
        VariantCodingChild::parsed(tree) matches Ok(v) ==> {
            &&& v is VarCriterion ==> tree.keyword == "VAR_CRITERION"@
            &&& v is VarCharacteristic ==> tree.keyword == "VAR_CHARACTERISTIC"@
            &&& v is VarForbiddenComb ==> tree.keyword == "VAR_FORBIDDEN_COMB"@
            &&& v is Unsupported <==> !(
                tree.keyword == "VAR_CRITERION"@ || tree.keyword == "VAR_CHARACTERISTIC"@ || tree.keyword == "VAR_FORBIDDEN_COMB"@
            )
        },
{
}

/// Which blocks within a node are read as [`VarCriterionChild`] of a kind of its own, by their keywords; every
/// other block is kept as it is.
pub proof fn law_var_criterion_blocks(tree: Tree)
    ensures
        VarCriterionChild::parsed(tree) matches Ok(v) ==> {
            &&& v is VarAddress ==> tree.keyword == "VAR_ADDRESS"@
            &&& v is Unsupported <==> !(tree.keyword == "VAR_ADDRESS"@)
        },
{
}

} // verus!
