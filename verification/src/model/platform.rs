//! The on-device model bridge as it stands on a host without the native
//! shim: nothing is available and nothing is summarised, and detection reports
//! exactly that.
use vstd::prelude::*;
use crate::model::CapabilityState;

verus! {

/// Whether the native bridge reports the on-device model ready. This
/// library holds the bridge as a host without the native shim has it, where
/// the model is never ready.
pub open spec fn bridge_ready() -> bool {
    false
}

/// Whether the on-device model is ready. Without the native bridge it never
/// is.
pub fn available() -> (r: bool)
    ensures
        r == bridge_ready(),
{
    false
}

/// One prompt run through the on-device model. Without the native bridge
/// there is no model, so there is never an answer.
pub fn summarize(_prompt: &str) -> (r: Option<String>)
    ensures
        r is None,
{
    None
}

/// The capability state detection reports for a measured readiness: a ready
/// model is implemented but unverified until the calibration battery scores
/// it; an unready one is unavailable. Availability alone never makes it
/// `Verified`.
pub open spec fn detected_state_spec(ready: bool) -> CapabilityState {
    if ready {
        CapabilityState::ImplementedUnverified
    } else {
        CapabilityState::Unavailable
    }
}

pub fn detected_state(ready: bool) -> (r: CapabilityState)
    ensures
        r == detected_state_spec(ready),
        ready ==> r == CapabilityState::ImplementedUnverified,
        !ready ==> r == CapabilityState::Unavailable,
{
    if ready {
        CapabilityState::ImplementedUnverified
    } else {
        CapabilityState::Unavailable
    }
}

/// The capability state of the on-device partner on this host.
pub fn detect_state() -> (r: CapabilityState)
    ensures
        r == detected_state_spec(bridge_ready()),
        r == CapabilityState::Unavailable,
{
    detected_state(available())
}

} // verus!
