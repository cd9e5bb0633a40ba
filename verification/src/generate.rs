//! One generation pass over every declared target: validate, resolve each
//! adapter, render. What comes back is ready for reconciliation or diffing;
//! reading and writing the disk stays with the caller.

use vstd::prelude::*;
use crate::formats::{spec_converter_for, get_converter, Converter, FormatResult};
use crate::model::{InstruxConfiguration, InstruxConfigurationTargetsValue, Targets};
use crate::render::{spec_items_height, BodyFiles};

verus! {

broadcast use vstd::string::group_string_axioms;

/// Whether a configuration still declares the retired target.
pub open spec fn spec_has_retired_target(
    targets: Seq<(Targets, InstruxConfigurationTargetsValue)>,
) -> bool {
    exists|i: int| 0 <= i < targets.len() && (#[trigger] targets[i]).0 is Codex
}

/// Rejects a configuration that declares the retired target, before any
/// rendering can see it. Everything else about the document's shape is the
/// loader's to guarantee.
#[verifier::loop_isolation(false)]
pub fn validate_config(config: &InstruxConfiguration) -> (r: Result<(), String>)
    ensures
        r is Ok <==> !spec_has_retired_target(config.targets@),
        r is Err ==> r->Err_0@ == "Codex is deprecated. Use agentsmd (AGENTS.md) instead."@,
{
    let mut i: usize = 0;
    while i < config.targets.len()
        invariant
            i <= config.targets@.len(),
            forall|j: int| 0 <= j < i ==> !((#[trigger] config.targets@[j]).0 is Codex),
        decreases config.targets@.len() - i,
    {
        match config.targets[i].0 {
            Targets::Codex => {
                return Err("Codex is deprecated. Use agentsmd (AGENTS.md) instead.".to_owned());
            },
            _ => {},
        }
        i += 1;
    }
    Ok(())
}

/// One target's rendered output, ready to reconcile: the artifact, its
/// resolved location, and whether that location is a base directory.
pub struct RenderedTarget {
    pub target: Targets,
    pub artifact: FormatResult,
    pub location: String,
    pub multiple: bool,
}

/// Renders every declared target in declaration order. Succeeds exactly when
/// every (target, output mode) pair resolves to an adapter; the first pair
/// that does not aborts the pass.
#[verifier::loop_isolation(false)]
pub fn render_all_targets(config: &InstruxConfiguration, bodies: &BodyFiles) -> (r: Result<
    Vec<RenderedTarget>,
    String,
>)
    requires
        !spec_has_retired_target(config.targets@),
        spec_items_height(config.instructions@) + 2 <= usize::MAX,
    ensures
        match r {
            Ok(list) => {
                &&& forall|i: int|
                    0 <= i < config.targets@.len() ==> spec_converter_for(
                        (#[trigger] config.targets@[i]).0,
                        config.targets@[i].1.output_mode,
                    ) is Some
                &&& list@.len() == config.targets@.len()
                &&& forall|i: int|
                    0 <= i < list@.len() ==> {
                        let c = spec_converter_for(
                            config.targets@[i].0,
                            config.targets@[i].1.output_mode,
                        )->Some_0;
                        (#[trigger] list@[i]).target == config.targets@[i].0
                            && list@[i].artifact@ == c.spec_format(*config, bodies.entries@)
                            && list@[i].location@ == c.spec_default_path() && list@[i].multiple
                            == c.spec_is_multiple()
                    }
            },
            Err(e) => (exists|i: int|
                0 <= i < config.targets@.len() && spec_converter_for(
                    (#[trigger] config.targets@[i]).0,
                    config.targets@[i].1.output_mode,
                ) is None) && e@ == "multiple output mode is not supported for this target"@,
        },
{
    let mut list: Vec<RenderedTarget> = Vec::new();
    let mut i: usize = 0;
    while i < config.targets.len()
        invariant
            i <= config.targets@.len(),
            list@.len() == i,
            forall|j: int|
                0 <= j < i ==> spec_converter_for(
                    (#[trigger] config.targets@[j]).0,
                    config.targets@[j].1.output_mode,
                ) is Some,
            forall|j: int|
                0 <= j < i ==> {
                    let c = spec_converter_for(
                        config.targets@[j].0,
                        config.targets@[j].1.output_mode,
                    )->Some_0;
                    (#[trigger] list@[j]).target == config.targets@[j].0 && list@[j].artifact@
                        == c.spec_format(*config, bodies.entries@) && list@[j].location@
                        == c.spec_default_path() && list@[j].multiple == c.spec_is_multiple()
                },
        decreases config.targets@.len() - i,
    {
        let target = config.targets[i].0;
        proof {
            assert(config.targets@[i as int].0 == target);
        }
        let converter = match get_converter(&target, &config.targets[i].1) {
            Ok(c) => c,
            Err(e) => {
                return Err(e);
            },
        };
        let artifact = match converter.to_format(config, bodies) {
            Ok(a) => a,
            Err(e) => {
                return Err(e);
            },
        };
        let location = converter.get_default_path();
        let multiple = match &converter {
            Converter::ClineMultiple(_) => true,
            Converter::CopilotMultiple(_) => true,
            _ => false,
        };
        list.push(RenderedTarget { target, artifact, location, multiple });
        i += 1;
    }
    Ok(list)
}

} // verus!
