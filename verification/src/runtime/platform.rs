//! The capability matrix of a platform: every native capability reports its
//! true state, and none reports `Verified` without having run there.
use vstd::prelude::*;
use crate::model::CapabilityState;
use crate::text::str_eq;

verus! {

/// The native capabilities of one platform.
#[derive(Clone, Debug, PartialEq)]
pub struct PlatformCapabilities {
    /// The operating system, as `std::env::consts::OS` names it.
    pub os: String,
    /// Projecting Green state onto native file metadata.
    pub metadata: CapabilityState,
    /// Watching the filesystem for changes.
    pub watcher: CapabilityState,
    /// Registering the resident daemon with the OS supervisor.
    pub supervisor: CapabilityState,
}

/// The watcher capability on `os`: the portable watcher is implemented for
/// Windows but has not been run there; elsewhere this build reports it
/// unavailable.
pub fn watcher_capability(os: &str) -> (r: CapabilityState)
    ensures
        os@ == "windows"@ ==> r == CapabilityState::ImplementedUnverified,
        os@ != "windows"@ ==> r == CapabilityState::Unavailable,
{
    if str_eq(os, "windows") {
        CapabilityState::ImplementedUnverified
    } else {
        CapabilityState::Unavailable
    }
}

/// The capabilities of the platform `os`. Metadata projection has no adapter
/// that has run anywhere this build reports; the watcher and the supervisor
/// are implemented for Windows but unverified there, and unavailable
/// elsewhere. No capability is ever reported `Verified`.
pub fn capabilities(os: &str) -> (r: PlatformCapabilities)
    ensures
        r.os@ == os@,
        r.metadata == CapabilityState::Unavailable,
        r.watcher == (if os@ == "windows"@ {
            CapabilityState::ImplementedUnverified
        } else {
            CapabilityState::Unavailable
        }),
        r.supervisor == r.watcher,
        r.metadata != CapabilityState::Verified && r.watcher != CapabilityState::Verified
            && r.supervisor != CapabilityState::Verified,
{
    let supervisor = crate::runtime::daemon::capability(os);
    PlatformCapabilities {
        os: String::from_str(os),
        metadata: crate::runtime::metadata::capability(),
        watcher: watcher_capability(os),
        supervisor,
    }
}

} // verus!
