use vstd::prelude::*;

use crate::daemon::single_star::{current_network, member_networks};
use crate::domain::error::{CoreError, ErrorKind};
use crate::domain::id::{NetworkId, NodeId};
use crate::domain::membership::MembershipRegistry;
use crate::linux::membership_store::registry_networks;
use crate::linux::stores::NetworkMembershipStore;

verus! {

/// Peer approval kept in the durable membership file.
pub struct DurablePeerTrustOperations {
    store: NetworkMembershipStore,
}

impl DurablePeerTrustOperations {
    pub closed spec fn spec_store(&self) -> NetworkMembershipStore {
        self.store
    }

    pub fn new(store: NetworkMembershipStore) -> (operations: Self)
        ensures
            operations.spec_store() == store,
    {
        DurablePeerTrustOperations { store }
    }

    pub fn store(&self) -> (store: &NetworkMembershipStore)
        ensures
            *store == self.spec_store(),
    {
        &self.store
    }
}

/// The network the local node currently belongs to, when there is exactly one.
pub open spec fn current_of(registry: MembershipRegistry) -> Option<NetworkId> {
    let members = member_networks(registry_networks(registry));
    if members.len() == 1 {
        Some(members[0])
    } else {
        None
    }
}

/// The identifier bytes of the current network, when there is one.
pub open spec fn current_key(registry: MembershipRegistry) -> Seq<u8> {
    match current_of(registry) {
        Some(id) => id.0@,
        None => Seq::empty(),
    }
}

/// Why a peer is not approved for `network`, as (kind, message), or none when it is.
pub open spec fn approval_refusal(registry: MembershipRegistry, network: NetworkId, node: NodeId) -> Option<(ErrorKind, Seq<char>)> {
    let members = member_networks(registry_networks(registry));
    if members.len() > 1 {
        Some((ErrorKind::InvalidState, "durable state contains more than one active BlueRoute network"@))
    } else if members.len() == 0 {
        Some((ErrorKind::InvalidState, "this daemon does not currently belong to a BlueRoute network"@))
    } else if members[0] != network {
        Some((ErrorKind::InvalidState, "refusing peer authorization for a network other than the current network"@))
    } else if !registry.network_map().contains_key(network.0@) {
        Some((ErrorKind::InvalidState, "current BlueRoute network is missing from durable membership state"@))
    } else if !(registry.network_map()[network.0@].peer_status().contains_key(node.0@)
        && registry.network_map()[network.0@].peer_status()[node.0@].1) {
        Some((ErrorKind::AuthenticationFailed, "BlueRoute peer has not been explicitly approved for this network"@))
    } else {
        None
    }
}

/// A peer may take part in `network` only when `network` is the current network and the
/// peer has been explicitly approved in it.
pub fn peer_approval(registry: &MembershipRegistry, network: NetworkId, node: NodeId) -> (result: Result<(), CoreError>)
    ensures
        match (approval_refusal(*registry, network, node), result) {
            (None, Ok(())) => true,
            (Some((kind, message)), Err(error)) => error.spec_kind() == kind && error.spec_message() == message,
            _ => false,
        },
{
    let current = match current_network(registry) {
        Err(error) => return Err(error),
        Ok(None) => return Err(no_current_network()),
        Ok(Some(current)) => current,
    };
    proof {
        if current.0@ == network.0@ {
            assert(current.0 =~= network.0);
        }
    }
    if current != network {
        return Err(
            CoreError::new(
                ErrorKind::InvalidState,
                "refusing peer authorization for a network other than the current network",
            ),
        );
    }
    let membership = match registry.network(&network) {
        Some(membership) => membership,
        None => {
            return Err(
                CoreError::new(
                    ErrorKind::InvalidState,
                    "current BlueRoute network is missing from durable membership state",
                ),
            );
        },
    };
    if membership.is_peer_trusted(&node) {
        Ok(())
    } else {
        Err(
            CoreError::new(
                ErrorKind::AuthenticationFailed,
                "BlueRoute peer has not been explicitly approved for this network",
            ),
        )
    }
}

fn no_current_network() -> (error: CoreError)
    ensures
        error.spec_kind() == ErrorKind::InvalidState,
        error.spec_message() == "this daemon does not currently belong to a BlueRoute network"@,
{
    CoreError::new(
        ErrorKind::InvalidState,
        "this daemon does not currently belong to a BlueRoute network",
    )
}

/// The current network's key, or why there is none, as (kind, message).
pub open spec fn current_refusal(registry: MembershipRegistry) -> Option<(ErrorKind, Seq<char>)> {
    let members = member_networks(registry_networks(registry));
    if members.len() > 1 {
        Some((ErrorKind::InvalidState, "durable state contains more than one active BlueRoute network"@))
    } else if members.len() == 0 {
        Some((ErrorKind::InvalidState, "this daemon does not currently belong to a BlueRoute network"@))
    } else if !registry.network_map().contains_key(members[0].0@) {
        Some((ErrorKind::InvalidState, "current BlueRoute network is missing from durable membership state"@))
    } else {
        None
    }
}

/// Approves `node` in the current network; returns whether that changed anything to save.
/// Approval does not make the peer a member.
pub fn trust_in_current_network(registry: &mut MembershipRegistry, node: NodeId) -> (result: Result<bool, CoreError>)
    ensures
        match (current_refusal(*old(registry)), result) {
            (None, Ok(changed)) => {
                let key = current_key(*old(registry));
                let before = old(registry).network_map()[key];
                let after = final(registry).network_map()[key];
                &&& final(registry).network_map() == old(registry).network_map().insert(key, after)
                &&& changed == !(before.peer_status().contains_key(node.0@) && before.peer_status()[node.0@].1)
                &&& after.peer_status() == before.peer_status().insert(
                    node.0@,
                    (before.peer_status().contains_key(node.0@) && before.peer_status()[node.0@].0, true),
                )
                &&& after.spec_state() == before.spec_state()
                &&& after.spec_network_id() == before.spec_network_id()
            },
            (Some((kind, message)), Err(error)) => error.spec_kind() == kind && error.spec_message()
                == message,
            _ => false,
        },
{
    let network = match current_network(registry) {
        Err(error) => return Err(error),
        Ok(None) => return Err(no_current_network()),
        Ok(Some(current)) => current,
    };
    match registry.network_mut(&network) {
        Some(membership) => Ok(membership.trust_peer(node)),
        None => Err(
            CoreError::new(
                ErrorKind::InvalidState,
                "current BlueRoute network is missing from durable membership state",
            ),
        ),
    }
}

/// Forgets `node` in the current network, approval included; returns whether that changed
/// anything to save.
pub fn forget_in_current_network(registry: &mut MembershipRegistry, node: NodeId) -> (result: Result<bool, CoreError>)
    ensures
        match (current_refusal(*old(registry)), result) {
            (None, Ok(changed)) => {
                let key = current_key(*old(registry));
                let before = old(registry).network_map()[key];
                let after = final(registry).network_map()[key];
                &&& final(registry).network_map() == old(registry).network_map().insert(key, after)
                &&& changed == before.peer_status().contains_key(node.0@)
                &&& after.peer_status() == before.peer_status().remove(node.0@)
                &&& after.spec_state() == before.spec_state()
                &&& after.spec_network_id() == before.spec_network_id()
            },
            (Some((kind, message)), Err(error)) => error.spec_kind() == kind && error.spec_message()
                == message,
            _ => false,
        },
{
    let network = match current_network(registry) {
        Err(error) => return Err(error),
        Ok(None) => return Err(no_current_network()),
        Ok(Some(current)) => current,
    };
    match registry.network_mut(&network) {
        Some(membership) => Ok(membership.forget_peer(&node)),
        None => Err(
            CoreError::new(
                ErrorKind::InvalidState,
                "current BlueRoute network is missing from durable membership state",
            ),
        ),
    }
}

} // verus!
