//! The target filter: one membership predicate shared by every node variant
//! and every adapter.

use vstd::prelude::*;
use crate::model::{
    InstructionItemVariant0Targets, InstructionItemVariant1Targets, InstructionItemVariant2Targets,
    Targets,
};
use crate::text::str_equal;

verus! {

broadcast use vstd::string::group_string_axioms;

/// Decides membership of `target` in an explicit selector list.
pub fn contains_target(list: &Vec<Targets>, target: Targets) -> (r: bool)
    ensures
        r == list@.contains(target),
{
    let mut i: usize = 0;
    while i < list.len()
        invariant
            i <= list@.len(),
            forall|j: int| 0 <= j < i ==> list@[j] != target,
        decreases list@.len() - i,
    {
        if list[i] == target {
            return true;
        }
        i += 1;
    }
    false
}

/// Whether a selector makes its instruction apply to a given target.
pub trait TargetsChecker {
    /// The meaning of the selector: the targets it matches.
    spec fn spec_is_for_target(&self, target: Targets) -> bool;

    /// Decides whether the selector matches `target`.
    fn is_for_target(&self, target: Targets) -> (r: bool)
        ensures
            r == self.spec_is_for_target(target),
    ;
}

impl TargetsChecker for InstructionItemVariant0Targets {
    open spec fn spec_is_for_target(&self, target: Targets) -> bool {
        match self {
            InstructionItemVariant0Targets::Variant0(list) => list@.contains(target),
            InstructionItemVariant0Targets::Variant1(s) => s@ == "all"@,
        }
    }

    fn is_for_target(&self, target: Targets) -> (r: bool) {
        match self {
            InstructionItemVariant0Targets::Variant0(list) => contains_target(list, target),
            InstructionItemVariant0Targets::Variant1(s) => str_equal(s.as_str(), "all"),
        }
    }
}

impl TargetsChecker for InstructionItemVariant1Targets {
    open spec fn spec_is_for_target(&self, target: Targets) -> bool {
        match self {
            InstructionItemVariant1Targets::Variant0(list) => list@.contains(target),
            InstructionItemVariant1Targets::Variant1(s) => s@ == "all"@,
        }
    }

    fn is_for_target(&self, target: Targets) -> (r: bool) {
        match self {
            InstructionItemVariant1Targets::Variant0(list) => contains_target(list, target),
            InstructionItemVariant1Targets::Variant1(s) => str_equal(s.as_str(), "all"),
        }
    }
}

impl TargetsChecker for InstructionItemVariant2Targets {
    open spec fn spec_is_for_target(&self, target: Targets) -> bool {
        match self {
            InstructionItemVariant2Targets::Variant0(list) => list@.contains(target),
            InstructionItemVariant2Targets::Variant1(s) => s@ == "all"@,
        }
    }

    fn is_for_target(&self, target: Targets) -> (r: bool) {
        match self {
            InstructionItemVariant2Targets::Variant0(list) => contains_target(list, target),
            InstructionItemVariant2Targets::Variant1(s) => str_equal(s.as_str(), "all"),
        }
    }
}

/// The selector law: an explicit list applies exactly to its members, and the
/// `"all"` sentinel applies to every target.
pub proof fn lemma_selector_semantics(list: Vec<Targets>, all_text: String, x: Targets)
    requires
        all_text@ == "all"@,
    ensures
        InstructionItemVariant0Targets::Variant0(list).spec_is_for_target(x) <==> list@.contains(
            x,
        ),
        InstructionItemVariant0Targets::Variant1(all_text).spec_is_for_target(x),
{
}

} // verus!
