//! Default values for the configuration's optional parts.

use vstd::prelude::*;
use crate::model::{
    InstructionItemVariant0Targets, InstructionItemVariant1Targets, InstructionItemVariant2Targets,
    InstruxConfigurationLanguage, InstruxConfigurationTargetsValueOutputMode,
};

verus! {

/// An inline instruction with no selector applies to all targets.
pub fn instruction_item_variant0_targets() -> (r: InstructionItemVariant0Targets)
    ensures
        r is Variant1 && r->Variant1_0@ == "all"@,
{
    InstructionItemVariant0Targets::Variant1("all".to_owned())
}

/// A file-reference instruction with no selector applies to all targets.
pub fn instruction_item_variant1_targets() -> (r: InstructionItemVariant1Targets)
    ensures
        r is Variant1 && r->Variant1_0@ == "all"@,
{
    InstructionItemVariant1Targets::Variant1("all".to_owned())
}

/// A group with no selector applies to all targets.
pub fn instruction_item_variant2_targets() -> (r: InstructionItemVariant2Targets)
    ensures
        r is Variant1 && r->Variant1_0@ == "all"@,
{
    InstructionItemVariant2Targets::Variant1("all".to_owned())
}

/// The default document language.
pub fn instrux_configuration_language() -> (r: InstruxConfigurationLanguage)
    ensures
        r is English,
{
    InstruxConfigurationLanguage::English
}

/// The default output mode of a declared target.
pub fn instrux_configuration_targets_value_output_mode() -> (r:
    InstruxConfigurationTargetsValueOutputMode)
    ensures
        r is Single,
{
    InstruxConfigurationTargetsValueOutputMode::Single
}

} // verus!
