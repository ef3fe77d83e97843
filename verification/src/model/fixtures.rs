//! Profiles of the known kinds of forwarder.

use vstd::prelude::*;

use crate::model::{AttachMode, CapabilitySet, ForwarderKind, ForwarderProfile, PlatformKind};
use crate::model::FeatureState;

verus! {

pub fn browser_engine_profile() -> (r: ForwarderProfile)
    ensures
        r.is(
            ForwarderKind::BrowserEngine,
            "sandbox"@,
            "tab://engine"@,
            AttachMode::BrowserEngine,
            CapabilitySet::sandboxed(),
        ),
{
    ForwarderProfile {
        kind: ForwarderKind::BrowserEngine,
        version: "sandbox".to_string(),
        endpoint: "tab://engine".to_string(),
        attach_mode: AttachMode::BrowserEngine,
        capabilities: CapabilitySet::browser_engine(),
    }
}

/// The native forwarder as it is reached from a platform.
pub open spec fn is_ndnrs_profile(profile: ForwarderProfile, platform: PlatformKind) -> bool {
    profile.is(
        ForwarderKind::NdnRs,
        "0.1-next"@,
        match platform {
            PlatformKind::Browser => "wss://forwarder.example/ndn"@,
            PlatformKind::Desktop => "unix:///run/ndn-fwd/mgmt.sock"@,
        },
        match platform {
            PlatformKind::Browser => AttachMode::RemoteWeb,
            PlatformKind::Desktop => AttachMode::LocalDesktop,
        },
        CapabilitySet::uniform(FeatureState::Enabled),
    )
}

pub fn ndnrs_profile(platform: PlatformKind) -> (r: ForwarderProfile)
    ensures
        is_ndnrs_profile(r, platform),
{
    ForwarderProfile {
        kind: ForwarderKind::NdnRs,
        version: "0.1-next".to_string(),
        endpoint: match platform {
            PlatformKind::Browser => "wss://forwarder.example/ndn".to_string(),
            PlatformKind::Desktop => "unix:///run/ndn-fwd/mgmt.sock".to_string(),
        },
        attach_mode: match platform {
            PlatformKind::Browser => AttachMode::RemoteWeb,
            PlatformKind::Desktop => AttachMode::LocalDesktop,
        },
        capabilities: CapabilitySet::ndnrs_native(),
    }
}

pub fn nfd_profile() -> (r: ForwarderProfile)
    ensures
        r.is(
            ForwarderKind::Nfd,
            "24.x"@,
            "unix:///run/nfd/nfd.sock"@,
            AttachMode::LocalDesktop,
            CapabilitySet::read_only(),
        ),
{
    ForwarderProfile {
        kind: ForwarderKind::Nfd,
        version: "24.x".to_string(),
        endpoint: "unix:///run/nfd/nfd.sock".to_string(),
        attach_mode: AttachMode::LocalDesktop,
        capabilities: CapabilitySet::nfd_read_only(),
    }
}

pub fn yanfd_profile() -> (r: ForwarderProfile)
    ensures
        r.is(
            ForwarderKind::YaNfd,
            "compat"@,
            "tcp://127.0.0.1:6363"@,
            AttachMode::Relay,
            CapabilitySet::read_only(),
        ),
{
    ForwarderProfile {
        kind: ForwarderKind::YaNfd,
        version: "compat".to_string(),
        endpoint: "tcp://127.0.0.1:6363".to_string(),
        attach_mode: AttachMode::Relay,
        capabilities: CapabilitySet::yanfd_read_only(),
    }
}

/// The profile that stands for no forwarder.
pub open spec fn is_unsupported_profile(profile: ForwarderProfile) -> bool {
    profile.is(
        ForwarderKind::Unknown,
        "unknown"@,
        "detached"@,
        AttachMode::Relay,
        CapabilitySet::uniform(FeatureState::Unsupported),
    )
}

pub fn unsupported_profile() -> (r: ForwarderProfile)
    ensures
        is_unsupported_profile(r),
{
    ForwarderProfile {
        kind: ForwarderKind::Unknown,
        version: "unknown".to_string(),
        endpoint: "detached".to_string(),
        attach_mode: AttachMode::Relay,
        capabilities: CapabilitySet::unsupported(),
    }
}

} // verus!
