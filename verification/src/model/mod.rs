//! The model partner side: capability states, what a host without an
//! on-device model reports, how calibration output is checked, and what a
//! pass of the semantic lane did.
pub mod calibration;
pub mod lane;
pub mod platform;

use vstd::prelude::*;

verus! {

/// The measured state of a native capability or a model partner. A capability
/// that has not run on a platform is never `Verified`.
#[derive(Clone, Copy, Debug, PartialEq, Eq, Hash, Structural)]
pub enum CapabilityState {
    Verified,
    ImplementedUnverified,
    Unavailable,
}

} // verus!
