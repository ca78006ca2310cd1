use vstd::prelude::*;

verus! {

/// Describes where a capability value came from.
#[derive(Clone, Copy, Debug, PartialEq, Eq, Structural, PartialOrd, Ord)]
pub enum CapabilitySource {
    Discovered,
    Measured,
    Configured,
    ConservativeDefault,
}

/// A value paired with evidence provenance.
#[derive(Clone, Copy, Debug, PartialEq, Eq, PartialOrd, Ord)]
pub struct Sourced<T> {
    pub value: T,
    pub source: CapabilitySource,
}

impl<T> Sourced<T> {
    pub fn new(value: T, source: CapabilitySource) -> (sourced: Self)
        ensures
            sourced.value == value,
            sourced.source == source,
    {
        Sourced { value, source }
    }
}

/// Linux networking implementation available on a node.
#[derive(Clone, Debug, PartialEq, Eq, PartialOrd, Ord)]
pub enum NetworkBackend {
    NetworkManager,
    SystemdNetworkd,
    DirectNetlink,
    Other(String),
}

/// Optional topology-quality information exposed by a platform.
#[derive(Clone, Copy, Debug, PartialEq, Eq, Structural, PartialOrd, Ord)]
pub struct LinkQuality {
    /// Normalized 0-100 score. Interpretation is backend-specific.
    pub score: u8,
}

impl LinkQuality {
    pub fn new(score: u8) -> (quality: Self)
        ensures
            quality.score == score,
    {
        LinkQuality { score }
    }
}

/// Coarse power information that may influence future topology policy.
#[derive(Clone, Copy, Debug, PartialEq, Eq, Structural, PartialOrd, Ord)]
pub enum PowerState {
    AcPowered,
    Battery { percent: u8 },
}

/// Capabilities are optional because unknown must remain distinguishable from false.
#[derive(Clone, Debug, PartialEq, Eq)]
pub struct NodeCapabilities {
    pub adapter_usable: Option<Sourced<bool>>,
    pub panu: Option<Sourced<bool>>,
    pub nap: Option<Sourced<bool>>,
    pub routing: Option<Sourced<bool>>,
    pub network_backend: Option<Sourced<NetworkBackend>>,
    pub connection_policy_ceiling: Option<Sourced<u16>>,
    pub link_quality: Option<Sourced<LinkQuality>>,
    pub power_state: Option<Sourced<PowerState>>,
    pub has_internet: Option<Sourced<bool>>,
    pub willing_to_share_internet: Option<Sourced<bool>>,
}

/// The known value of an optional capability, or `None` when it is unknown.
pub open spec fn known_value(capability: Option<Sourced<bool>>) -> Option<bool> {
    match capability {
        Some(sourced) => Some(sourced.value),
        None => None,
    }
}

fn known(capability: &Option<Sourced<bool>>) -> (value: Option<bool>)
    ensures
        value == known_value(*capability),
{
    match capability {
        Some(sourced) => Some(sourced.value),
        None => None,
    }
}

impl NodeCapabilities {
    /// Every capability unknown.
    pub fn unknown() -> (capabilities: Self)
        ensures
            capabilities.adapter_usable is None,
            capabilities.panu is None,
            capabilities.nap is None,
            capabilities.routing is None,
            capabilities.network_backend is None,
            capabilities.connection_policy_ceiling is None,
            capabilities.link_quality is None,
            capabilities.power_state is None,
            capabilities.has_internet is None,
            capabilities.willing_to_share_internet is None,
    {
        NodeCapabilities {
            adapter_usable: None,
            panu: None,
            nap: None,
            routing: None,
            network_backend: None,
            connection_policy_ceiling: None,
            link_quality: None,
            power_state: None,
            has_internet: None,
            willing_to_share_internet: None,
        }
    }

    pub fn can_join_pan(&self) -> (value: Option<bool>)
        ensures
            value == known_value(self.panu),
    {
        known(&self.panu)
    }

    pub fn can_host_pan(&self) -> (value: Option<bool>)
        ensures
            value == known_value(self.nap),
    {
        known(&self.nap)
    }

    pub fn can_route(&self) -> (value: Option<bool>)
        ensures
            value == known_value(self.routing),
    {
        known(&self.routing)
    }
}

impl Default for NodeCapabilities {
    fn default() -> (capabilities: Self)
        ensures
            capabilities.adapter_usable is None,
            capabilities.panu is None,
            capabilities.nap is None,
            capabilities.routing is None,
            capabilities.network_backend is None,
            capabilities.connection_policy_ceiling is None,
            capabilities.link_quality is None,
            capabilities.power_state is None,
            capabilities.has_internet is None,
            capabilities.willing_to_share_internet is None,
    {
        NodeCapabilities::unknown()
    }
}

} // verus!
