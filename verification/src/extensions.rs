//! The registry of advanced forwarder extensions.

use vstd::prelude::*;

use crate::model::{FeatureState, ForwarderKind, ForwarderProfile};

verus! {

#[derive(Debug, PartialEq, Eq)]
pub struct CodingPolicySurface {
    pub prefix: String,
    pub role: &'static str,
    pub generation: &'static str,
    pub state: FeatureState,
}

impl Clone for CodingPolicySurface {
    fn clone(&self) -> (r: Self)
        ensures
            r == *self,
    {
        CodingPolicySurface {
            prefix: self.prefix.clone(),
            role: self.role,
            generation: self.generation,
            state: self.state,
        }
    }
}

#[derive(Debug, PartialEq, Eq)]
pub struct RateLimitCellSurface {
    pub scope: String,
    pub limit: &'static str,
    pub state: FeatureState,
}

impl Clone for RateLimitCellSurface {
    fn clone(&self) -> (r: Self)
        ensures
            r == *self,
    {
        RateLimitCellSurface {
            scope: self.scope.clone(),
            limit: self.limit,
            state: self.state,
        }
    }
}

impl RateLimitCellSurface {
    /// The cell with these parts.
    pub open spec fn is(self, scope: Seq<char>, limit: Seq<char>, state: FeatureState) -> bool {
        self.scope@ == scope && self.limit@ == limit && self.state == state
    }
}

#[derive(Debug, PartialEq, Eq)]
pub struct ComputeServiceSurface {
    pub service: String,
    pub status: FeatureState,
    pub diagnostics: &'static str,
}

impl Clone for ComputeServiceSurface {
    fn clone(&self) -> (r: Self)
        ensures
            r == *self,
    {
        ComputeServiceSurface {
            service: self.service.clone(),
            status: self.status,
            diagnostics: self.diagnostics,
        }
    }
}

#[derive(Clone, Copy, Debug, PartialEq, Eq)]
pub struct ExtensionSurface {
    pub id: &'static str,
    pub title: &'static str,
    pub capability: FeatureState,
    pub docs: &'static str,
}

impl ExtensionSurface {
    /// The surface with these parts.
    pub open spec fn is(
        self,
        id: Seq<char>,
        title: Seq<char>,
        capability: FeatureState,
        docs: Seq<char>,
    ) -> bool {
        &&& self.id@ == id
        &&& self.title@ == title
        &&& self.capability == capability
        &&& self.docs@ == docs
    }
}

#[derive(Debug, PartialEq, Eq)]
pub struct ExtensionRegistry {
    pub coding: Vec<CodingPolicySurface>,
    pub rate_limits: Vec<RateLimitCellSurface>,
    pub compute: Vec<ComputeServiceSurface>,
    pub surfaces: Vec<ExtensionSurface>,
}

impl Clone for ExtensionRegistry {
    fn clone(&self) -> (r: Self)
        ensures
            r.coding@ == self.coding@,
            r.rate_limits@ == self.rate_limits@,
            r.compute@ == self.compute@,
            r.surfaces@ == self.surfaces@,
    {
        let r = ExtensionRegistry {
            coding: self.coding.clone(),
            rate_limits: self.rate_limits.clone(),
            compute: self.compute.clone(),
            surfaces: self.surfaces.clone(),
        };
        assert(r.coding@ =~= self.coding@);
        assert(r.rate_limits@ =~= self.rate_limits@);
        assert(r.compute@ =~= self.compute@);
        assert(r.surfaces@ =~= self.surfaces@);
        r
    }
}

/// The state of an extension that only a native forwarder has.
pub open spec fn native_state(profile: ForwarderProfile) -> FeatureState {
    if profile.kind is NdnRs {
        FeatureState::Enabled
    } else {
        FeatureState::Unsupported
    }
}

/// The state of an extension that other forwarders can at least show.
pub open spec fn compatible_state(profile: ForwarderProfile) -> FeatureState {
    if profile.kind is NdnRs {
        FeatureState::Enabled
    } else {
        FeatureState::ReadOnly
    }
}

impl ExtensionRegistry {
    /// The registry of a profile.
    pub open spec fn is_for(self, profile: ForwarderProfile) -> bool {
        &&& self.coding@.len() == 1
        &&& self.coding@[0].prefix@ == "/ndn/edge/video"@
        &&& self.coding@[0].role@ == "producer"@
        &&& self.coding@[0].generation@ == "k=8 n=12"@
        &&& self.coding@[0].state == native_state(profile)
        &&& self.rate_limits@.len() == 2
        &&& self.rate_limits@[0].is("mgmt commands"@, "120/min"@, compatible_state(profile))
        &&& self.rate_limits@[1].is("face 7"@, "20k pps"@, native_state(profile))
        &&& self.compute@.len() == 1
        &&& self.compute@[0].service@ == "/ndn/compute/filter"@
        &&& self.compute@[0].status == native_state(profile)
        &&& self.compute@[0].diagnostics@ == (if profile.kind is NdnRs {
            "ready"@
        } else {
            "unsupported"@
        })
        &&& self.surfaces@.len() == 3
        &&& self.surfaces@[0].is(
            "coding"@,
            "Network coding"@,
            native_state(profile),
            "docs/wiki/src/reference/extensions/coding.md"@,
        )
        &&& self.surfaces@[1].is(
            "rate-limit"@,
            "Rate limit"@,
            compatible_state(profile),
            "docs/wiki/src/reference/extensions/rate-limit.md"@,
        )
        &&& self.surfaces@[2].is(
            "compute"@,
            "Compute"@,
            native_state(profile),
            "docs/wiki/src/reference/extensions/compute.md"@,
        )
    }

    pub fn for_profile(profile: &ForwarderProfile) -> (r: Self)
        ensures
            r.is_for(*profile),
    {
        let native = profile.kind == ForwarderKind::NdnRs;
        let native_state = if native {
            FeatureState::Enabled
        } else {
            FeatureState::Unsupported
        };
        let compat_state = if native {
            FeatureState::Enabled
        } else {
            FeatureState::ReadOnly
        };
        ExtensionRegistry {
            coding: vec![
                CodingPolicySurface {
                    prefix: "/ndn/edge/video".to_string(),
                    role: "producer",
                    generation: "k=8 n=12",
                    state: native_state,
                },
            ],
            rate_limits: vec![
                RateLimitCellSurface {
                    scope: "mgmt commands".to_string(),
                    limit: "120/min",
                    state: compat_state,
                },
                RateLimitCellSurface {
                    scope: "face 7".to_string(),
                    limit: "20k pps",
                    state: native_state,
                },
            ],
            compute: vec![
                ComputeServiceSurface {
                    service: "/ndn/compute/filter".to_string(),
                    status: native_state,
                    diagnostics: if native {
                        "ready"
                    } else {
                        "unsupported"
                    },
                },
            ],
            surfaces: vec![
                ExtensionSurface {
                    id: "coding",
                    title: "Network coding",
                    capability: native_state,
                    docs: "docs/wiki/src/reference/extensions/coding.md",
                },
                ExtensionSurface {
                    id: "rate-limit",
                    title: "Rate limit",
                    capability: compat_state,
                    docs: "docs/wiki/src/reference/extensions/rate-limit.md",
                },
                ExtensionSurface {
                    id: "compute",
                    title: "Compute",
                    capability: native_state,
                    docs: "docs/wiki/src/reference/extensions/compute.md",
                },
            ],
        }
    }
}

/// Every extension surface is enabled for a native forwarder and none is for
/// another one.
pub proof fn extensions_follow_the_forwarder(registry: ExtensionRegistry, profile: ForwarderProfile)
    requires
        registry.is_for(profile),
    ensures
        forall|i: int|
            0 <= i < registry.surfaces@.len() ==> ((
            #[trigger] registry.surfaces@[i]).capability is Enabled <==> profile.kind is NdnRs),
{
}

/// What only a native forwarder has is unsupported elsewhere; what others can
/// show is read-only there.
pub proof fn extensions_elsewhere_are_reduced(registry: ExtensionRegistry, profile: ForwarderProfile)
    requires
        registry.is_for(profile),
    ensures
        profile.kind is NdnRs ==> registry.coding@[0].state is Enabled
            && registry.rate_limits@[0].state is Enabled && registry.rate_limits@[1].state is Enabled
            && registry.compute@[0].status is Enabled && registry.compute@[0].diagnostics@
            == "ready"@,
        !(profile.kind is NdnRs) ==> registry.coding@[0].state is Unsupported
            && registry.rate_limits@[0].state is ReadOnly
            && registry.rate_limits@[1].state is Unsupported
            && registry.compute@[0].status is Unsupported && registry.compute@[0].diagnostics@
            == "unsupported"@,
        !(profile.kind is NdnRs) ==> registry.surfaces@[0].capability is Unsupported
            && registry.surfaces@[1].capability is ReadOnly
            && registry.surfaces@[2].capability is Unsupported,
        registry.surfaces@[0].id@ == "coding"@ && registry.surfaces@[1].id@ == "rate-limit"@
            && registry.surfaces@[2].id@ == "compute"@,
{
}

} // verus!
