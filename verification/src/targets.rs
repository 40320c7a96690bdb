//! The profiles that an installation can be aimed at.

use vstd::prelude::*;
use vstd::string::*;
use crate::text::joined;
use crate::profile_name::ProfileName;
use crate::registry::BridleConfig;
use crate::capture::is_active;

verus! {

/// One profile of one harness.
#[derive(Debug)]
pub struct InstallTarget {
    pub harness: String,
    pub profile: ProfileName,
}

/// How a target is shown for selection.
pub open spec fn label_of(harness_id: Seq<char>, profile: Seq<char>) -> Seq<char> {
    harness_id + "/"@ + profile
}

/// The label under which a target is offered: harness, slash, profile.
pub fn target_label(target: &InstallTarget) -> (r: String)
    ensures
        r@ == label_of(target.harness@, target.profile@),
{
    let head = joined(target.harness.as_str(), "/");
    joined(head.as_str(), target.profile.as_str())
}

/// Tells whether the target is the active profile of its harness; such
/// targets are selected from the start.
pub fn is_active_target(config: &BridleConfig, target: &InstallTarget) -> (b: bool)
    ensures
        b == is_active(config@, target.harness@, target.profile@),
{
    let wanted = String::from_str(target.profile.as_str());
    match config.active_profile_for(target.harness.as_str()) {
        Some(p) => String::from_str(p) == wanted,
        None => false,
    }
}

/// For each target, in order, whether it is selected from the start.
pub fn default_selection(config: &BridleConfig, targets: &Vec<InstallTarget>) -> (r: Vec<bool>)
    ensures
        r@.len() == targets@.len(),
        forall|i: int|
            0 <= i < targets@.len() ==> r@[i] == is_active(
                config@,
                targets@[i].harness@,
                targets@[i].profile@,
            ),
{
    let mut out: Vec<bool> = Vec::new();
    let mut i: usize = 0;
    while i < targets.len()
        invariant
            i <= targets.len(),
            out@.len() == i,
            forall|j: int|
                0 <= j < i ==> out@[j] == is_active(
                    config@,
                    targets@[j].harness@,
                    targets@[j].profile@,
                ),
        decreases targets.len() - i,
    {
        out.push(is_active_target(config, &targets[i]));
        i += 1;
    }
    out
}

} // verus!
