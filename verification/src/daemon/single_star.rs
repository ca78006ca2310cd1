use vstd::prelude::*;

use crate::domain::capability::{known_value, NodeCapabilities};
use crate::domain::addressing::{star_segment_base, star_segment_base_of, v4_prefix};
use crate::domain::config::DaemonConfig;
use crate::domain::error::{CoreError, ErrorKind};
use crate::domain::hex::hex_encode;
use crate::domain::id::{DisplayName, NetworkId};
use crate::domain::membership::{MembershipRegistry, MembershipState, NetworkMembership, PeerMembership};
use crate::domain::table::{find_key, sorted_keys, table_put, table_view, Keyed};
use crate::protocol::NetworkSummary;
use crate::linux::membership_store::registry_networks;
use crate::text::push_str;

verus! {

/// The networks the local node is a member of, in increasing identifier order.
pub open spec fn member_networks(networks: Seq<NetworkMembership>) -> Seq<NetworkId>
    decreases networks.len(),
{
    if networks.len() == 0 {
        Seq::empty()
    } else {
        member_networks(networks.drop_last()) + if networks.last().spec_state()
            == MembershipState::Member {
            seq![networks.last().spec_network_id()]
        } else {
            Seq::empty()
        }
    }
}

/// The network the local node currently belongs to: none, or the only one it is a member
/// of; belonging to more than one is refused.
pub fn current_network(registry: &MembershipRegistry) -> (result: Result<Option<NetworkId>, CoreError>)
    ensures
        match result {
            Ok(None) => member_networks(registry_networks(*registry)).len() == 0,
            Ok(Some(id)) => member_networks(registry_networks(*registry)) == seq![id],
            Err(error) => member_networks(registry_networks(*registry)).len() > 1
                && error.spec_kind() == ErrorKind::InvalidState && error.spec_message()
                == "durable state contains more than one active BlueRoute network"@
                && error.spec_diagnostic() is None,
        },
{
    let networks = registry.networks();
    let ghost all = registry_networks(*registry);
    let mut found: Option<NetworkId> = None;
    let mut i: usize = 0;
    while i < networks.len()
        invariant
            i <= networks@.len(),
            all == registry_networks(*registry),
            networks@.len() == all.len(),
            forall|k: int| 0 <= k < networks@.len() ==> *networks@[k] == #[trigger] all[k],
            match found {
                None => member_networks(all.take(i as int)).len() == 0,
                Some(id) => member_networks(all.take(i as int)) == seq![id],
            },
        decreases networks@.len() - i,
    {
        let membership = networks[i];
        proof {
            assert(all.take(i + 1).drop_last() =~= all.take(i as int));
            assert(all.take(i + 1).last() == all[i as int]);
        }
        if membership.membership_state() == MembershipState::Member {
            if found.is_some() {
                proof {
                    assert(*membership == all[i as int]);
                    assert(member_networks(all.take(i + 1)) == member_networks(all.take(i as int))
                        + seq![all[i as int].spec_network_id()]);
                    assert(member_networks(all.take(i + 1)).len() == 2);
                    lemma_member_networks_grow(all, i as int + 1);
                }
                return Err(
                    CoreError::new(
                        ErrorKind::InvalidState,
                        "durable state contains more than one active BlueRoute network",
                    ),
                );
            }
            found = Some(membership.id());
        }
        i += 1;
    }
    assert(all.take(all.len() as int) =~= all);
    Ok(found)
}

/// Members found in a prefix stay found in the whole.
proof fn lemma_member_networks_grow(all: Seq<NetworkMembership>, n: int)
    requires
        0 <= n <= all.len(),
    ensures
        member_networks(all).len() >= member_networks(all.take(n)).len(),
    decreases all.len() - n,
{
    if n < all.len() {
        assert(all.take(n + 1).drop_last() =~= all.take(n));
        lemma_member_networks_grow(all, n + 1);
    } else {
        assert(all.take(n) =~= all);
    }
}

pub open spec fn nap_refusal(capabilities: NodeCapabilities) -> Option<Seq<char>> {
    match known_value(capabilities.nap) {
        Some(true) => None,
        Some(false) => Some("this Linux node does not expose BlueZ NAP capability"@),
        None => Some("BlueZ NAP capability is unknown; refusing to create a hosted network"@),
    }
}

/// Hosting a network needs a node known to offer the NAP role.
pub fn ensure_nap_capability(capabilities: &NodeCapabilities) -> (result: Result<(), CoreError>)
    ensures
        match (nap_refusal(*capabilities), result) {
            (None, Ok(())) => true,
            (Some(message), Err(error)) => error.spec_kind() == ErrorKind::CapabilityUnavailable
                && error.spec_message() == message,
            _ => false,
        },
{
    match capabilities.can_host_pan() {
        Some(true) => Ok(()),
        Some(false) => Err(
            CoreError::new(
                ErrorKind::CapabilityUnavailable,
                "this Linux node does not expose BlueZ NAP capability",
            ),
        ),
        None => Err(
            CoreError::new(
                ErrorKind::CapabilityUnavailable,
                "BlueZ NAP capability is unknown; refusing to create a hosted network",
            ),
        ),
    }
}

/// `prefix` followed by the first eight hexadecimal characters of a network identifier.
pub open spec fn tagged_id(prefix: Seq<char>, network: NetworkId) -> Seq<char> {
    prefix + hex_encode(network.0@).take(8)
}

fn push_short_id(text: &mut String, network: NetworkId)
    ensures
        final(text)@ == old(text)@ + hex_encode(network.0@).take(8),
{
    let short = crate::linux::networkmanager::short_owner(network);
    push_str(text, short.as_str());
}

/// The name shown for a network known only by its identifier: "BlueRoute " and the
/// identifier's first eight hexadecimal characters.
pub fn discovered_network_name(network: NetworkId) -> (result: Result<DisplayName, CoreError>)
    ensures
        match result {
            Ok(name) => name@ == tagged_id("BlueRoute "@, network),
            Err(_) => false,
        },
{
    let mut text = String::from_str("BlueRoute ");
    push_short_id(&mut text, network);
    proof {
        reveal_strlit("BlueRoute ");
        let t = text@;
        crate::domain::hex::lemma_hex_encode_is_ascii(network.0@);
        assert(crate::text::trim_chars(t) == t) by {
            lemma_tagged_trimmed(network);
        }
    }
    DisplayName::new(text.as_str())
}

proof fn lemma_tagged_trimmed(network: NetworkId)
    ensures
        crate::text::trim_chars(tagged_id("BlueRoute "@, network)) == tagged_id("BlueRoute "@, network),
        1 <= crate::text::trim_chars(tagged_id("BlueRoute "@, network)).len() <= 64,
{
    reveal_strlit("BlueRoute ");
    let t = tagged_id("BlueRoute "@, network);
    let hex = hex_encode(network.0@);
    assert(t.len() == 18);
    assert(!crate::text::is_white_space(t[0]));
    assert(t[17] == hex[7]);
    let b = network.0@[3];
    assert(b % 16 < 16);
    assert(!crate::text::is_white_space(t[17]));
    assert(crate::text::leading_ws(t) == 0);
    assert(t.skip(0) =~= t);
    assert(t.last() == t[17]);
    assert(crate::text::trailing_ws(t) == 0);
    assert(t.take(t.len() as int) =~= t);
}

/// The bridge interface that hosts a network: "brb-" and the identifier's first eight
/// hexadecimal characters.
pub fn bridge_name(network: NetworkId) -> (result: Result<crate::linux::handles::NetworkInterfaceHandle, CoreError>)
    ensures
        match result {
            Ok(bridge) => bridge@ == tagged_id("brb-"@, network),
            Err(_) => false,
        },
{
    let mut text = String::from_str("brb-");
    push_short_id(&mut text, network);
    proof {
        reveal_strlit("brb-");
        assert(!crate::text::is_white_space(text@[0]));
        crate::text::lemma_trim_nonblank(text@, 0);
    }
    crate::linux::handles::NetworkInterfaceHandle::new(text.as_str())
}

/// The address the hosting node takes on its bridge: the first host of the segment the
/// network selects in the configured pool.
pub fn local_star_address(network: NetworkId, config: &DaemonConfig) -> (result: Result<crate::linux::handles::InterfaceAddress, CoreError>)
    ensures
        result is Ok <==> config.validation_failure() is None && star_segment_base(
            network,
            config.ipv4_address_pool,
        ) + 1 <= u32::MAX,
        match result {
            Ok(address) => {
                &&& address.interface@ == tagged_id("brb-"@, network)
                &&& address.prefix == v4_prefix(
                    star_segment_base(network, config.ipv4_address_pool) + 1,
                    config.ipv4_address_pool.segment_prefix_len,
                )
                &&& address.owner == network
            },
            Err(error) => error.spec_kind() == ErrorKind::InvalidInput || config.validation_failure()
                == Some(error.spec_kind()),
        },
{
    match config.validate() {
        Ok(()) => {},
        Err(error) => return Err(error),
    }
    let pool = config.ipv4_address_pool;
    proof {
        assert(pool.is_valid());
    }
    let base = match star_segment_base_of(network, pool) {
        Some(base) => base,
        None => return Err(CoreError::new(ErrorKind::InvalidInput, "IPv4 pool overflow")),
    };
    let local = match base.checked_add(1) {
        Some(value) => value,
        None => return Err(CoreError::new(ErrorKind::InvalidInput, "IPv4 host address overflow")),
    };
    let bridge = match bridge_name(network) {
        Ok(bridge) => bridge,
        Err(error) => return Err(error),
    };
    Ok(
        crate::linux::handles::InterfaceAddress {
            interface: bridge,
            prefix: crate::domain::route::IpPrefix {
                address: crate::domain::route::IpAddress::V4(crate::domain::route::Ipv4Address(local)),
                prefix_len: pool.segment_prefix_len,
            },
            owner: network,
        },
    )
}

impl Keyed for NetworkSummary {
    open spec fn key(&self) -> Seq<u8> {
        self.id.0@
    }

    proof fn lemma_key_len(&self) {
    }

    fn key_bytes(&self) -> (key: [u8; 16]) {
        self.id.0
    }
}

/// A summary as (name, member count); in a table of summaries its identifier is the key.
pub open spec fn summary_view(summary: NetworkSummary) -> (Seq<char>, u32) {
    (summary.name@, summary.member_count)
}

/// How many peers are members.
pub open spec fn member_peers(peers: Seq<PeerMembership>) -> nat
    decreases peers.len(),
{
    if peers.len() == 0 {
        0
    } else {
        member_peers(peers.drop_last()) + if peers.last().spec_is_member() {
            1nat
        } else {
            0nat
        }
    }
}

proof fn lemma_member_peers_bound(peers: Seq<PeerMembership>)
    ensures
        member_peers(peers) <= peers.len(),
    decreases peers.len(),
{
    if peers.len() > 0 {
        lemma_member_peers_bound(peers.drop_last());
    }
}

/// The member count a network's summary shows: the local node when it is a member, and each
/// member peer.
pub open spec fn member_count(membership: NetworkMembership) -> nat {
    (if membership.spec_state() == MembershipState::Member {
        1nat
    } else {
        0nat
    }) + member_peers(membership.peer_entries())
}

/// The summaries of remembered networks by identifier; a later network with the same
/// identifier replaces an earlier one.
pub open spec fn summaries_of(networks: Seq<NetworkMembership>) -> Map<Seq<u8>, (Seq<char>, u32)>
    decreases networks.len(),
{
    if networks.len() == 0 {
        Map::empty()
    } else {
        summaries_of(networks.drop_last()).insert(
            networks.last().spec_network_id().0@,
            (networks.last().spec_network_name()@, member_count(networks.last()) as u32),
        )
    }
}

fn summary_of(membership: &NetworkMembership) -> (summary: NetworkSummary)
    requires
        member_count(*membership) <= u32::MAX,
    ensures
        summary.id == membership.spec_network_id(),
        summary_view(summary) == (membership.spec_network_name()@, member_count(*membership) as u32),
{
    let peers = membership.peers();
    let mut count: u32 = if membership.membership_state() == MembershipState::Member {
        1
    } else {
        0
    };
    let ghost local = count as nat;
    let mut i: usize = 0;
    while i < peers.len()
        invariant
            i <= peers@.len(),
            peers@ == membership.peer_entries(),
            local <= 1,
            local + member_peers(peers@) <= u32::MAX,
            count == local + member_peers(peers@.take(i as int)),
        decreases peers@.len() - i,
    {
        proof {
            assert(peers@.take(i + 1).drop_last() =~= peers@.take(i as int));
            assert(peers@.take(i + 1).last() == peers@[i as int]);
            lemma_member_peers_prefix(peers@, i as int + 1);
        }
        if peers[i].is_member() {
            count = count + 1;
        }
        i += 1;
    }
    assert(peers@.take(peers@.len() as int) =~= peers@);
    NetworkSummary { id: membership.id(), name: membership.name().duplicate(), member_count: count }
}

proof fn lemma_member_peers_prefix(peers: Seq<PeerMembership>, n: int)
    requires
        0 <= n <= peers.len(),
    ensures
        member_peers(peers.take(n)) <= member_peers(peers),
    decreases peers.len() - n,
{
    if n < peers.len() {
        assert(peers.take(n + 1).drop_last() =~= peers.take(n));
        lemma_member_peers_prefix(peers, n + 1);
    } else {
        assert(peers.take(n) =~= peers);
    }
}

/// The summaries of the remembered networks in increasing identifier order.
pub fn network_summaries(registry: &MembershipRegistry) -> (summaries: Vec<NetworkSummary>)
    requires
        forall|i: int|
            0 <= i < registry_networks(*registry).len() ==> member_count(
                #[trigger] registry_networks(*registry)[i],
            ) <= u32::MAX,
    ensures
        sorted_keys(summaries@),
        table_view(summaries@).map_values(|summary: NetworkSummary| summary_view(summary))
            == summaries_of(registry_networks(*registry)),
{
    let networks = registry.networks();
    let ghost all = registry_networks(*registry);
    let mut summaries: Vec<NetworkSummary> = Vec::new();
    let mut i: usize = 0;
    assert(table_view(summaries@).map_values(|summary: NetworkSummary| summary_view(summary)) =~= summaries_of(all.take(0)));
    while i < networks.len()
        invariant
            i <= networks@.len(),
            networks@.len() == all.len(),
            all == registry_networks(*registry),
            forall|k: int| 0 <= k < networks@.len() ==> *networks@[k] == #[trigger] all[k],
            forall|k: int| 0 <= k < all.len() ==> member_count(#[trigger] all[k]) <= u32::MAX,
            sorted_keys(summaries@),
            table_view(summaries@).map_values(|summary: NetworkSummary| summary_view(summary)) == summaries_of(all.take(i as int)),
        decreases networks@.len() - i,
    {
        let membership = networks[i];
        assert(*membership == all[i as int]);
        let summary = summary_of(membership);
        let ghost before = table_view(summaries@);
        table_put(&mut summaries, summary);
        proof {
            assert(all.take(i + 1).drop_last() =~= all.take(i as int));
            assert(all.take(i + 1).last() == all[i as int]);
            assert(table_view(summaries@).map_values(|summary: NetworkSummary| summary_view(summary)) =~= summaries_of(all.take(i + 1)));
        }
        i += 1;
    }
    assert(all.take(all.len() as int) =~= all);
    summaries
}

/// The summary shown for a network known only from discovery: its short name, no members.
pub fn discovered_network_summary(network: NetworkId) -> (result: Result<NetworkSummary, CoreError>)
    ensures
        match result {
            Ok(summary) => summary.id == network && summary_view(summary) == (
                tagged_id("BlueRoute "@, network),
                0u32,
            ),
            Err(_) => false,
        },
{
    match discovered_network_name(network) {
        Ok(name) => Ok(NetworkSummary { id: network, name, member_count: 0 }),
        Err(error) => Err(error),
    }
}

/// Adds a discovered network's summary unless the network is already listed.
pub fn merge_discovered_networks(networks: &mut Vec<NetworkSummary>, discovered: &Vec<NetworkId>) -> (result: Result<(), CoreError>)
    requires
        sorted_keys(old(networks)@),
    ensures
        result is Ok,
        sorted_keys(final(networks)@),
        forall|key: Seq<u8>|
            #[trigger] table_view(final(networks)@).contains_key(key) <==> table_view(old(networks)@).contains_key(key)
                || exists|i: int| 0 <= i < discovered@.len() && (#[trigger] discovered@[i]).0@ == key,
        forall|key: Seq<u8>|
            #[trigger] table_view(old(networks)@).contains_key(key) ==> table_view(final(networks)@)[key]
                == table_view(old(networks)@)[key],
        forall|key: Seq<u8>|
            table_view(final(networks)@).contains_key(key) && !table_view(old(networks)@).contains_key(key)
                ==> #[trigger] summary_view(table_view(final(networks)@)[key]) == (tagged_id(
                "BlueRoute "@,
                table_view(final(networks)@)[key].id,
            ), 0u32) && table_view(final(networks)@)[key].id.0@ == key,
{
    let mut i: usize = 0;
    let ghost start = table_view(networks@);
    while i < discovered.len()
        invariant
            i <= discovered@.len(),
            sorted_keys(networks@),
            start == table_view(old(networks)@),
            forall|key: Seq<u8>|
                #[trigger] table_view(networks@).contains_key(key) <==> start.contains_key(key)
                    || exists|j: int| 0 <= j < i && (#[trigger] discovered@[j]).0@ == key,
            forall|key: Seq<u8>|
                #[trigger] start.contains_key(key) ==> table_view(networks@)[key] == start[key],
            forall|key: Seq<u8>|
                table_view(networks@).contains_key(key) && !start.contains_key(key)
                    ==> #[trigger] summary_view(table_view(networks@)[key]) == (tagged_id(
                    "BlueRoute "@,
                    table_view(networks@)[key].id,
                ), 0u32) && table_view(networks@)[key].id.0@ == key,
        decreases discovered@.len() - i,
    {
        let network = discovered[i];
        match find_key(networks, &network.0) {
            Ok(_) => {},
            Err(_) => {
                let summary = match discovered_network_summary(network) {
                    Ok(summary) => summary,
                    Err(_) => vstd::pervasive::unreached(),
                };
                table_put(networks, summary);
            },
        }
        proof {
            assert forall|key: Seq<u8>|
                #[trigger] table_view(networks@).contains_key(key) <==> start.contains_key(key)
                    || exists|j: int| 0 <= j < i + 1 && (#[trigger] discovered@[j]).0@ == key by {
                if key == network.0@ {
                    assert(discovered@[i as int].0@ == key);
                }
                if exists|j: int| 0 <= j < i + 1 && (#[trigger] discovered@[j]).0@ == key {
                    let j = choose|j: int| 0 <= j < i + 1 && (#[trigger] discovered@[j]).0@ == key;
                    if j < i {
                    }
                }
            }
        }
        i += 1;
    }
    Ok(())
}

/// Makes fresh network identities; implementations draw them at random.
pub trait NetworkIdGenerator {
    fn generate(&self) -> Result<NetworkId, CoreError>;
}

/// How many identities a creation draws before it gives up on finding one not remembered yet.
pub const NETWORK_ID_ATTEMPTS: u8 = 16;

/// Where the creation of a hosted network stands.
#[derive(Debug)]
pub enum CreateStage {
    /// Read the durable membership.
    Load,
    /// Draw a fresh network identity; `attempts` drawn identities were remembered already.
    Generate { registry: MembershipRegistry, attempts: u8 },
    /// Start hosting the chosen network.
    StartHost {
        network: NetworkId,
        bridge: crate::linux::handles::NetworkInterfaceHandle,
        address: crate::linux::handles::InterfaceAddress,
        registry: MembershipRegistry,
    },
    /// Save the membership that records the new network.
    Save {
        network: NetworkId,
        bridge: crate::linux::handles::NetworkInterfaceHandle,
        address: crate::linux::handles::InterfaceAddress,
        registry: MembershipRegistry,
    },
    /// Saving failed: stop hosting, then report the failure.
    StopHost {
        network: NetworkId,
        bridge: crate::linux::handles::NetworkInterfaceHandle,
        address: crate::linux::handles::InterfaceAddress,
        error: CoreError,
    },
    /// Done, with the new network or the failure.
    Finished(Result<NetworkId, CoreError>),
}

#[derive(Clone, Copy, Debug, PartialEq, Eq, Structural)]
pub enum CreateAction {
    LoadRegistry,
    GenerateId,
    StartHost,
    SaveRegistry,
    StopHost,
    Finish,
}

#[derive(Debug)]
pub enum CreateOutcome {
    Registry(Result<MembershipRegistry, CoreError>),
    Generated(Result<NetworkId, CoreError>),
    Done(Result<(), CoreError>),
}

/// Creating a network named `name`.
#[derive(Debug)]
pub struct CreateSaga {
    pub name: DisplayName,
    pub stage: CreateStage,
}

pub open spec fn create_action(stage: CreateStage) -> CreateAction {
    match stage {
        CreateStage::Load => CreateAction::LoadRegistry,
        CreateStage::Generate { .. } => CreateAction::GenerateId,
        CreateStage::StartHost { .. } => CreateAction::StartHost,
        CreateStage::Save { .. } => CreateAction::SaveRegistry,
        CreateStage::StopHost { .. } => CreateAction::StopHost,
        CreateStage::Finished(_) => CreateAction::Finish,
    }
}

/// The address a created network's host takes on its bridge, when the configuration places one.
pub open spec fn star_address_placed(network: NetworkId, config: DaemonConfig) -> bool {
    config.validation_failure() is None && star_segment_base(network, config.ipv4_address_pool) + 1
        <= u32::MAX
}

/// How a creation moves on with the outcome of its stage's action; `config` places the hosted
/// segment.
pub open spec fn create_step(name: DisplayName, config: DaemonConfig, stage: CreateStage, outcome: CreateOutcome, next: CreateStage) -> bool {
    match (stage, outcome) {
        (CreateStage::Finished(result), _) => next == CreateStage::Finished(result),
        (CreateStage::Load, CreateOutcome::Registry(loaded)) => match loaded {
            Err(error) => next == CreateStage::Finished(Err(error)),
            Ok(registry) => {
                let members = member_networks(registry_networks(registry));
                if members.len() == 0 {
                    next == CreateStage::Generate { registry, attempts: 0 }
                } else {
                    match next {
                        CreateStage::Finished(Err(error)) => error.spec_kind() == ErrorKind::InvalidState
                            && error.spec_diagnostic() is None && error.spec_message() == if members.len()
                            == 1 {
                            "this daemon already belongs to a BlueRoute network"@
                        } else {
                            "durable state contains more than one active BlueRoute network"@
                        },
                        _ => false,
                    }
                }
            },
        },
        (CreateStage::Generate { registry, attempts }, CreateOutcome::Generated(drawn)) => match drawn {
            Err(error) => next == CreateStage::Finished(Err(error)),
            Ok(network) => if registry.network_map().contains_key(network.0@) {
                if attempts + 1 >= NETWORK_ID_ATTEMPTS {
                    match next {
                        CreateStage::Finished(Err(error)) => error.spec_kind() == ErrorKind::Internal
                            && error.spec_message() == "failed to generate a unique BlueRoute network identity"@
                            && error.spec_diagnostic() is None,
                        _ => false,
                    }
                } else {
                    next == CreateStage::Generate { registry, attempts: (attempts + 1) as u8 }
                }
            } else {
                match next {
                    CreateStage::StartHost { network: n, bridge, address, registry: kept } => {
                        &&& star_address_placed(network, config)
                        &&& n == network && kept == registry
                        &&& bridge@ == tagged_id("brb-"@, network)
                        &&& address.interface@ == tagged_id("brb-"@, network)
                        &&& address.prefix == v4_prefix(
                            star_segment_base(network, config.ipv4_address_pool) + 1,
                            config.ipv4_address_pool.segment_prefix_len,
                        )
                        &&& address.owner == network
                    },
                    CreateStage::Finished(Err(error)) => !star_address_placed(network, config) && (
                    error.spec_kind() == ErrorKind::InvalidInput || config.validation_failure() == Some(
                        error.spec_kind(),
                    )),
                    _ => false,
                }
            },
        },
        (CreateStage::StartHost { network, bridge, address, registry }, CreateOutcome::Done(started)) => match started {
            Err(error) => next == CreateStage::Finished(Err(error)),
            Ok(()) => match next {
                CreateStage::Save { network: n, bridge: b, address: a, registry: saved } => {
                    &&& n == network && b == bridge && a == address
                    &&& saved.network_map().contains_key(network.0@)
                    &&& saved.network_map()[network.0@].spec_state() == MembershipState::Member
                    &&& saved.network_map()[network.0@].spec_network_name()@ == name@
                    &&& saved.network_map() == registry.network_map().insert(network.0@, saved.network_map()[network.0@])
                },
                _ => false,
            },
        },
        (CreateStage::Save { network, bridge, address, registry: _ }, CreateOutcome::Done(saved)) => match saved {
            Err(error) => next == CreateStage::StopHost { network, bridge, address, error },
            Ok(()) => next == CreateStage::Finished(Ok(network)),
        },
        (CreateStage::StopHost { network: _, bridge: _, address: _, error }, CreateOutcome::Done(stopped)) => match stopped {
            Ok(()) => next == CreateStage::Finished(Err(error)),
            Err(cleanup) => match next {
                CreateStage::Finished(Err(combined)) => combined.spec_kind() == ErrorKind::PersistenceError
                    && combined.spec_message() == error.spec_message() && combined.spec_diagnostic() == Some(
                    "durable membership commit failed and runtime rollback also failed: "@
                        + cleanup.spec_message() + "; rollback diagnostic="@
                        + crate::linux::networkmanager::option_debug(cleanup.spec_diagnostic()),
                ),
                _ => false,
            },
        },
        _ => match next {
            CreateStage::Finished(Err(error)) => error.spec_kind() == ErrorKind::Internal,
            _ => false,
        },
    }
}

impl CreateSaga {
    /// Starts creating a network named `name`; refused at once when the node cannot host.
    pub fn start(name: DisplayName, capabilities: &NodeCapabilities) -> (saga: Self)
        ensures
            saga.name == name,
            match (nap_refusal(*capabilities), saga.stage) {
                (None, CreateStage::Load) => true,
                (Some(message), CreateStage::Finished(Err(error))) => error.spec_kind()
                    == ErrorKind::CapabilityUnavailable && error.spec_message() == message,
                _ => false,
            },
    {
        let stage = match ensure_nap_capability(capabilities) {
            Ok(()) => CreateStage::Load,
            Err(error) => CreateStage::Finished(Err(error)),
        };
        CreateSaga { name, stage }
    }

    /// The outside work the current stage asks for.
    pub fn action(&self) -> (action: CreateAction)
        ensures
            action == create_action(self.stage),
    {
        match &self.stage {
            CreateStage::Load => CreateAction::LoadRegistry,
            CreateStage::Generate { .. } => CreateAction::GenerateId,
            CreateStage::StartHost { .. } => CreateAction::StartHost,
            CreateStage::Save { .. } => CreateAction::SaveRegistry,
            CreateStage::StopHost { .. } => CreateAction::StopHost,
            CreateStage::Finished(_) => CreateAction::Finish,
        }
    }

    /// Moves on with the outcome of the current action; the configuration places the hosted
    /// segment.
    pub fn advance(self, outcome: CreateOutcome, config: &DaemonConfig) -> (next: Self)
        ensures
            next.name == self.name,
            create_step(self.name, *config, self.stage, outcome, next.stage),
    {
        let name = self.name;
        let stage = match (self.stage, outcome) {
            (CreateStage::Finished(result), _) => CreateStage::Finished(result),
            (CreateStage::Load, CreateOutcome::Registry(loaded)) => match loaded {
                Err(error) => CreateStage::Finished(Err(error)),
                Ok(registry) => match current_network(&registry) {
                    Err(error) => CreateStage::Finished(Err(error)),
                    Ok(Some(_)) => CreateStage::Finished(Err(CoreError::new(
                        ErrorKind::InvalidState,
                        "this daemon already belongs to a BlueRoute network",
                    ))),
                    Ok(None) => CreateStage::Generate { registry, attempts: 0 },
                },
            },
            (CreateStage::Generate { registry, attempts }, CreateOutcome::Generated(drawn)) => match drawn {
                Err(error) => CreateStage::Finished(Err(error)),
                Ok(network) => if registry.network(&network).is_some() {
                    if attempts >= NETWORK_ID_ATTEMPTS - 1 {
                        CreateStage::Finished(Err(CoreError::new(
                            ErrorKind::Internal,
                            "failed to generate a unique BlueRoute network identity",
                        )))
                    } else {
                        CreateStage::Generate { registry, attempts: attempts + 1 }
                    }
                } else {
                    match bridge_name(network) {
                        Err(error) => CreateStage::Finished(Err(error)),
                        Ok(bridge) => match local_star_address(network, config) {
                            Err(error) => CreateStage::Finished(Err(error)),
                            Ok(address) => CreateStage::StartHost { network, bridge, address, registry },
                        },
                    }
                },
            },
            (CreateStage::StartHost { network, bridge, address, mut registry }, CreateOutcome::Done(started)) => match started {
                Err(error) => CreateStage::Finished(Err(error)),
                Ok(()) => {
                    let ghost before = registry.network_map();
                    let mut membership = NetworkMembership::new(network, name.duplicate());
                    membership.set_state(MembershipState::Member);
                    let ghost added = membership;
                    registry.remember_network(membership);
                    assert(registry.network_map().contains_key(network.0@));
                    assert(registry.network_map()[network.0@] == added);
                    assert(registry.network_map() == before.insert(network.0@, added));
                    CreateStage::Save { network, bridge, address, registry }
                },
            },
            (CreateStage::Save { network, bridge, address, registry: _ }, CreateOutcome::Done(saved)) => match saved {
                Err(error) => CreateStage::StopHost { network, bridge, address, error },
                Ok(()) => CreateStage::Finished(Ok(network)),
            },
            (CreateStage::StopHost { network: _, bridge: _, address: _, error }, CreateOutcome::Done(stopped)) => match stopped {
                Ok(()) => CreateStage::Finished(Err(error)),
                Err(cleanup) => {
                    let ghost expected = "durable membership commit failed and runtime rollback also failed: "@
                        + cleanup.spec_message() + "; rollback diagnostic="@
                        + crate::linux::networkmanager::option_debug(cleanup.spec_diagnostic());
                    let mut diagnostic = String::from_str(
                        "durable membership commit failed and runtime rollback also failed: ",
                    );
                    push_str(&mut diagnostic, cleanup.message());
                    push_str(&mut diagnostic, "; rollback diagnostic=");
                    match cleanup.diagnostic() {
                        None => push_str(&mut diagnostic, "None"),
                        Some(text) => {
                            push_str(&mut diagnostic, "Some(");
                            let quoted = crate::text::debug_quoted(text);
                            push_str(&mut diagnostic, quoted.as_str());
                            push_str(&mut diagnostic, ")");
                        },
                    }
                    assert(diagnostic@ =~= expected);
                    CreateStage::Finished(Err(CoreError::from_parts(
                        ErrorKind::PersistenceError,
                        String::from_str(error.message()),
                        Some(diagnostic),
                    )))
                },
            },
            _ => CreateStage::Finished(Err(CoreError::new(
                ErrorKind::Internal,
                "network creation step received the outcome of a different action",
            ))),
        };
        CreateSaga { name, stage }
    }
}

/// A hosted network is created only by saving its membership after the host runtime started,
/// and a failed save stops the host again: creation never reports success otherwise, and
/// membership is never written before the runtime is up.
pub proof fn lemma_create_commits_after_runtime(name: DisplayName, config: DaemonConfig, stage: CreateStage, outcome: CreateOutcome, next: CreateStage)
    requires
        create_step(name, config, stage, outcome, next),
        !(stage is Finished),
    ensures
        next matches CreateStage::Finished(Ok(_)) ==> stage is Save && outcome matches CreateOutcome::Done(Ok(_)),
        next is Save ==> stage is StartHost && outcome matches CreateOutcome::Done(Ok(_)),
        (stage is Save && outcome matches CreateOutcome::Done(Err(_))) ==> next is StopHost,
{
}

/// A network's member count is the local node when its state is `Member`, plus each peer
/// whose member flag is set; a peer that is only trusted is not counted.
pub proof fn lemma_member_count_counts_member_peers(membership: NetworkMembership)
    ensures
        member_count(membership) == (if membership.spec_state() == MembershipState::Member {
            1int
        } else {
            0int
        }) + membership.peer_entries().filter(|peer: PeerMembership| peer.spec_is_member()).len(),
{
    lemma_member_peers_filter(membership.peer_entries());
}

proof fn lemma_member_peers_filter(peers: Seq<PeerMembership>)
    ensures
        member_peers(peers) == peers.filter(|peer: PeerMembership| peer.spec_is_member()).len(),
    decreases peers.len(),
{
    if peers.len() > 0 {
        lemma_member_peers_filter(peers.drop_last());
        let pred = |peer: PeerMembership| peer.spec_is_member();
        assert(peers =~= peers.drop_last().push(peers.last()));
        peers.drop_last().lemma_filter_push(peers.last(), pred);
    } else {
        let pred = |peer: PeerMembership| peer.spec_is_member();
        assert(peers.filter(pred) =~= Seq::<PeerMembership>::empty());
    }
}

} // verus!
