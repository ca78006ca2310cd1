use std::cell::RefCell;
use std::collections::VecDeque;

use blueroute::daemon::join_network::{
    JoinAction, JoinControlSession, JoinIpLease, JoinOutcome, JoinPanLink, JoinSaga,
};
use blueroute::daemon::peer_trust::{
    forget_in_current_network, peer_approval, trust_in_current_network,
};
use blueroute::daemon::service::LinuxJoinRuntime;
use blueroute::daemon::single_star::{
    bridge_name, local_star_address, network_summaries, CreateAction, CreateOutcome, CreateSaga,
    CreateStage, NetworkIdGenerator,
};
use blueroute::linux::membership_store::{parse_registry, serialize_registry};
use blueroute::{
    CapabilitySource, CoreError, DaemonConfig, DisplayName, ErrorKind, IpAddress,
    MembershipRegistry, MembershipState, NetworkId, NetworkInterfaceHandle, NetworkMembership,
    NodeCapabilities, NodeId, PanAttachment, PanRole, PeerHandle, Sourced,
};

/// Durable membership kept as the text the file store would hold.
/// A registry that the text format cannot hold (one with a transient state) is kept as is.
#[derive(Default)]
struct Store {
    text: Option<String>,
    unsaved: Option<MembershipRegistry>,
}

impl Store {
    fn load(&self) -> Result<MembershipRegistry, CoreError> {
        if let Some(registry) = &self.unsaved {
            return Ok(registry.clone());
        }
        match &self.text {
            None => Ok(MembershipRegistry::default()),
            Some(text) => parse_registry(text),
        }
    }

    fn save(&mut self, registry: &MembershipRegistry) -> Result<(), CoreError> {
        self.text = Some(serialize_registry(registry)?);
        self.unsaved = None;
        Ok(())
    }
}

fn seeded(network: NetworkId, name: &str, state: MembershipState) -> Store {
    let mut membership = NetworkMembership::new(network, DisplayName::new(name).unwrap());
    membership.set_state(state);
    let mut registry = MembershipRegistry::default();
    registry.remember_network(membership);
    let mut store = Store::default();
    if state == MembershipState::Leaving || state == MembershipState::Joining {
        assert!(serialize_registry(&registry).is_err());
        store.unsaved = Some(registry);
    } else {
        store.save(&registry).unwrap();
    }
    store
}

// ---- creating a hosted network ----

struct SequenceGenerator {
    values: RefCell<VecDeque<NetworkId>>,
}

impl SequenceGenerator {
    fn new(values: Vec<NetworkId>) -> Self {
        SequenceGenerator { values: RefCell::new(values.into_iter().collect()) }
    }
}

impl NetworkIdGenerator for SequenceGenerator {
    fn generate(&self) -> Result<NetworkId, CoreError> {
        self.values
            .borrow_mut()
            .pop_front()
            .ok_or_else(|| CoreError::new(ErrorKind::Internal, "fake IDs exhausted"))
    }
}

struct Host {
    store: Store,
    starts: usize,
    stops: usize,
    fail_start: bool,
    capabilities: NodeCapabilities,
    generator: SequenceGenerator,
}

impl Host {
    fn new(nap: Option<bool>, ids: Vec<NetworkId>) -> Self {
        let mut capabilities = NodeCapabilities::default();
        capabilities.nap = nap.map(|value| Sourced::new(value, CapabilitySource::Measured));
        Host {
            store: Store::default(),
            starts: 0,
            stops: 0,
            fail_start: false,
            capabilities,
            generator: SequenceGenerator::new(ids),
        }
    }

    fn create_network(&mut self, name: &str) -> Result<NetworkId, CoreError> {
        let config = DaemonConfig::default();
        let mut saga = CreateSaga::start(DisplayName::new(name).unwrap(), &self.capabilities);
        loop {
            let outcome = match saga.action() {
                CreateAction::Finish => match saga.stage {
                    CreateStage::Finished(result) => return result,
                    _ => unreachable!(),
                },
                CreateAction::LoadRegistry => CreateOutcome::Registry(self.store.load()),
                CreateAction::GenerateId => CreateOutcome::Generated(self.generator.generate()),
                CreateAction::StartHost => {
                    self.starts += 1;
                    if self.fail_start {
                        CreateOutcome::Done(Err(CoreError::new(
                            ErrorKind::PanFailure,
                            "fake NAP failure",
                        )))
                    } else {
                        CreateOutcome::Done(Ok(()))
                    }
                }
                CreateAction::SaveRegistry => match &saga.stage {
                    CreateStage::Save { registry, .. } => {
                        CreateOutcome::Done(self.store.save(registry))
                    }
                    _ => unreachable!(),
                },
                CreateAction::StopHost => {
                    self.stops += 1;
                    CreateOutcome::Done(Ok(()))
                }
            };
            saga = saga.advance(outcome, &config);
        }
    }
}

#[test]
fn create_network_commits_membership_only_after_runtime_setup() {
    let network = NetworkId::from_bytes([7; 16]);
    let mut host = Host::new(Some(true), vec![network]);
    let created = host.create_network("Workshop").unwrap();
    assert_eq!(created, network);
    assert_eq!(host.starts, 1);
    let networks = network_summaries(&host.store.load().unwrap());
    assert_eq!(networks.len(), 1);
    assert_eq!(networks[0].id, network);
    assert_eq!(networks[0].name.as_str(), "Workshop");
    assert_eq!(networks[0].member_count, 1);
}

#[test]
fn unavailable_nap_fails_before_runtime_mutation() {
    let mut host = Host::new(Some(false), vec![NetworkId::from_bytes([8; 16])]);
    let error = host.create_network("Unsupported").unwrap_err();
    assert_eq!(error.kind(), ErrorKind::CapabilityUnavailable);
    assert_eq!(host.starts, 0);

    let mut unknown = Host::new(None, vec![NetworkId::from_bytes([8; 16])]);
    let error = unknown.create_network("Unknown").unwrap_err();
    assert_eq!(
        error.message(),
        "BlueZ NAP capability is unknown; refusing to create a hosted network"
    );
    assert_eq!(unknown.starts, 0);
}

#[test]
fn runtime_failure_does_not_persist_membership() {
    let mut host = Host::new(Some(true), vec![NetworkId::from_bytes([9; 16])]);
    host.fail_start = true;
    let error = host.create_network("Failure").unwrap_err();
    assert_eq!(error.kind(), ErrorKind::PanFailure);
    assert_eq!(host.starts, 1);
    assert!(network_summaries(&host.store.load().unwrap()).is_empty());
}

#[test]
fn second_create_is_rejected_without_a_second_runtime_start() {
    let mut host = Host::new(
        Some(true),
        vec![NetworkId::from_bytes([10; 16]), NetworkId::from_bytes([11; 16])],
    );
    host.create_network("First").unwrap();
    let error = host.create_network("Second").unwrap_err();
    assert_eq!(error.kind(), ErrorKind::InvalidState);
    assert_eq!(host.starts, 1);
    assert_eq!(host.stops, 0);
}

#[test]
fn remembered_identity_is_drawn_again() {
    let taken = NetworkId::from_bytes([12; 16]);
    let fresh = NetworkId::from_bytes([13; 16]);
    let mut host = Host::new(Some(true), vec![taken, fresh]);
    host.store = seeded(taken, "Old", MembershipState::NotMember);
    assert_eq!(host.create_network("New").unwrap(), fresh);
}

#[test]
fn identities_that_keep_colliding_give_up_after_sixteen_draws() {
    let taken = NetworkId::from_bytes([14; 16]);
    let mut host = Host::new(Some(true), vec![taken; 17]);
    host.store = seeded(taken, "Old", MembershipState::NotMember);
    let error = host.create_network("New").unwrap_err();
    assert_eq!(error.kind(), ErrorKind::Internal);
    assert_eq!(error.message(), "failed to generate a unique BlueRoute network identity");
    assert_eq!(host.generator.values.borrow().len(), 1);
    assert_eq!(host.starts, 0);
}

#[test]
fn generator_failure_is_reported_without_runtime_mutation() {
    let mut host = Host::new(Some(true), vec![]);
    let error = host.create_network("New").unwrap_err();
    assert_eq!(error.message(), "fake IDs exhausted");
    assert_eq!(host.starts, 0);
}

#[test]
fn network_identity_drives_stable_bridge_and_subnet() {
    let network =
        NetworkId::from_bytes([0x12, 0x34, 0x56, 0x78, 0, 0, 0, 0, 0, 0, 0, 0, 0, 0, 0, 0]);
    let bridge = bridge_name(network).unwrap();
    assert_eq!(bridge.as_str(), "brb-12345678");
    assert!(bridge.as_str().len() <= 15);

    let address = local_star_address(network, &DaemonConfig::default()).unwrap();
    assert_eq!(address.interface, bridge);
    assert_eq!(address.owner, network);
    assert_eq!(address.prefix.prefix_len, 24);
    let ipv4 = match address.prefix.address {
        IpAddress::V4(ipv4) => ipv4,
        IpAddress::V6(_) => panic!("the star segment must be IPv4"),
    };
    assert_eq!(ipv4.octets()[0..2], [10, 201]);
    assert_eq!(ipv4.octets()[3], 1);
}

// ---- joining a network ----

#[derive(Clone, Copy, Debug, Eq, PartialEq)]
enum Step {
    Preflight,
    Panu,
    Address,
    Control,
    StopControl,
    RemoveAddress,
    DisconnectPanu,
}

struct Joiner {
    store: Store,
    steps: Vec<Step>,
    fail_address: bool,
    fail_control: bool,
}

impl Joiner {
    fn new(store: Store) -> Self {
        Joiner { store, steps: Vec::new(), fail_address: false, fail_control: false }
    }

    fn link() -> JoinPanLink {
        let peer = PeerHandle::new("/org/bluez/hci0/dev_FA_KE").unwrap();
        JoinPanLink::new(
            peer.duplicate(),
            PanAttachment {
                role: PanRole::Panu,
                interface: NetworkInterfaceHandle::new("bnep-test").unwrap(),
                peer: Some(peer),
            },
        )
        .unwrap()
    }

    fn join(&mut self, network: NetworkId) -> Result<(), CoreError> {
        let mut saga = JoinSaga::start(network);
        loop {
            let outcome = match saga.action() {
                JoinAction::Finish => return saga.result().unwrap(),
                JoinAction::LoadRegistry => JoinOutcome::Registry(self.store.load()),
                JoinAction::Preflight => {
                    self.steps.push(Step::Preflight);
                    JoinOutcome::Done(Ok(()))
                }
                JoinAction::EstablishPanu => {
                    self.steps.push(Step::Panu);
                    JoinOutcome::Link(Ok(Self::link()))
                }
                JoinAction::ConfigureIp => {
                    self.steps.push(Step::Address);
                    if self.fail_address {
                        JoinOutcome::Lease(Err(CoreError::new(
                            ErrorKind::AddressConflict,
                            "injected address failure",
                        )))
                    } else {
                        let interface = saga.link().unwrap().interface().duplicate();
                        JoinOutcome::Lease(Ok(JoinIpLease::new(interface)))
                    }
                }
                JoinAction::StartControl => {
                    self.steps.push(Step::Control);
                    if self.fail_control {
                        JoinOutcome::Session(Err(CoreError::new(
                            ErrorKind::AuthenticationFailed,
                            "injected control authentication failure",
                        )))
                    } else {
                        JoinOutcome::Session(Ok(JoinControlSession::new(network)))
                    }
                }
                JoinAction::SaveRegistry => {
                    let registry = saga.registry().unwrap();
                    JoinOutcome::Done(self.store.save(registry))
                }
                JoinAction::StopControl => {
                    self.steps.push(Step::StopControl);
                    JoinOutcome::Done(Ok(()))
                }
                JoinAction::RemoveIp => {
                    self.steps.push(Step::RemoveAddress);
                    JoinOutcome::Done(Ok(()))
                }
                JoinAction::DisconnectPanu => {
                    self.steps.push(Step::DisconnectPanu);
                    JoinOutcome::Done(Ok(()))
                }
            };
            saga = saga.advance(outcome);
        }
    }
}

#[test]
fn membership_is_committed_only_after_all_runtime_steps_succeed() {
    let network = NetworkId::from_bytes([0x44; 16]);
    let mut joiner = Joiner::new(Store::default());
    joiner.join(network).unwrap();
    assert_eq!(joiner.steps, vec![Step::Preflight, Step::Panu, Step::Address, Step::Control]);
    let registry = joiner.store.load().unwrap();
    assert_eq!(
        registry.network(&network).unwrap().membership_state(),
        MembershipState::Member
    );
}

#[test]
fn join_keeps_every_other_remembered_network() {
    let other = NetworkId::from_bytes([0x40; 16]);
    let network = NetworkId::from_bytes([0x46; 16]);
    let mut joiner = Joiner::new(seeded(other, "Old Workshop", MembershipState::NotMember));
    joiner.join(network).unwrap();
    let registry = joiner.store.load().unwrap();
    assert_eq!(registry.len(), 2);
    let kept = registry.network(&other).unwrap();
    assert_eq!(kept.name().as_str(), "Old Workshop");
    assert_eq!(kept.membership_state(), MembershipState::NotMember);
    let joined = registry.network(&network).unwrap();
    assert_eq!(joined.name().as_str(), "BlueRoute 46464646");
    assert_eq!(joined.membership_state(), MembershipState::Member);
}

#[test]
fn address_failure_disconnects_panu_and_does_not_persist_membership() {
    let network = NetworkId::from_bytes([0x45; 16]);
    let mut joiner = Joiner::new(Store::default());
    joiner.fail_address = true;
    let error = joiner.join(network).unwrap_err();
    assert_eq!(error.kind(), ErrorKind::AddressConflict);
    assert_eq!(
        joiner.steps,
        vec![Step::Preflight, Step::Panu, Step::Address, Step::DisconnectPanu]
    );
    assert!(joiner.store.load().unwrap().is_empty());
}

#[test]
fn control_failure_removes_ip_then_disconnects_panu() {
    let network = NetworkId::from_bytes([0x46; 16]);
    let mut joiner = Joiner::new(Store::default());
    joiner.fail_control = true;
    let error = joiner.join(network).unwrap_err();
    assert_eq!(error.kind(), ErrorKind::AuthenticationFailed);
    assert_eq!(
        joiner.steps,
        vec![
            Step::Preflight,
            Step::Panu,
            Step::Address,
            Step::Control,
            Step::RemoveAddress,
            Step::DisconnectPanu,
        ]
    );
    assert!(joiner.store.load().unwrap().is_empty());
}

#[test]
fn production_preflight_blocks_before_unsafe_partial_join() {
    let runtime = LinuxJoinRuntime;
    let store = Store::default();
    let mut saga = JoinSaga::start(NetworkId::from_bytes([0x47; 16]));
    assert_eq!(saga.action(), JoinAction::LoadRegistry);
    saga = saga.advance(JoinOutcome::Registry(store.load()));
    assert_eq!(saga.action(), JoinAction::Preflight);
    let preflight = runtime.preflight(saga.network);
    saga = saga.advance(JoinOutcome::Done(preflight));
    assert_eq!(saga.action(), JoinAction::Finish);
    let error = saga.result().unwrap().unwrap_err();
    assert_eq!(error.kind(), ErrorKind::CapabilityUnavailable);
    assert!(error.message().contains("requires P6-005"));
    assert!(store.load().unwrap().is_empty());
}

#[test]
fn invalid_durable_state_after_runtime_setup_rolls_everything_back() {
    let network = NetworkId::from_bytes([0x49; 16]);
    let mut joiner = Joiner::new(seeded(network, "Interrupted leave", MembershipState::Leaving));
    let error = joiner.join(network).unwrap_err();
    assert_eq!(error.kind(), ErrorKind::InvalidState);
    assert_eq!(
        joiner.steps,
        vec![
            Step::Preflight,
            Step::Panu,
            Step::Address,
            Step::Control,
            Step::StopControl,
            Step::RemoveAddress,
            Step::DisconnectPanu,
        ]
    );
    let registry = joiner.store.load().unwrap();
    assert_eq!(
        registry.network(&network).unwrap().membership_state(),
        MembershipState::Leaving
    );
}

#[test]
fn durable_member_without_runtime_does_not_fake_join_success() {
    let network = NetworkId::from_bytes([0x48; 16]);
    let mut joiner = Joiner::new(seeded(network, "Already joined", MembershipState::Member));
    let error = joiner.join(network).unwrap_err();
    assert_eq!(error.kind(), ErrorKind::InvalidState);
    assert!(error.message().contains("P6-009"));
    assert!(joiner.steps.is_empty());

    let other = NetworkId::from_bytes([0x50; 16]);
    let error = joiner.join(other).unwrap_err();
    assert_eq!(
        error.message(),
        "this daemon already belongs to a different BlueRoute network"
    );
}

// ---- approving peers ----

fn approve(store: &mut Store, node: NodeId) {
    let mut registry = store.load().unwrap();
    if trust_in_current_network(&mut registry, node).unwrap() {
        store.save(&registry).unwrap();
    }
}

fn forget(store: &mut Store, node: NodeId) {
    let mut registry = store.load().unwrap();
    if forget_in_current_network(&mut registry, node).unwrap() {
        store.save(&registry).unwrap();
    }
}

#[test]
fn approval_persists_without_marking_peer_member() {
    let network = NetworkId::from_bytes([0x31; 16]);
    let peer = NodeId::from_bytes([0x42; 16]);
    let mut store = seeded(network, "Approval test", MembershipState::Member);

    approve(&mut store, peer);
    peer_approval(&store.load().unwrap(), network, peer).unwrap();

    let registry = store.load().unwrap();
    let membership = registry.network(&network).unwrap();
    assert!(membership.is_peer_trusted(&peer));
    assert!(!membership.is_peer_member(&peer));
}

#[test]
fn unapproved_peer_fails_closed_and_forget_revokes_approval() {
    let network = NetworkId::from_bytes([0x51; 16]);
    let peer = NodeId::from_bytes([0x62; 16]);
    let mut store = seeded(network, "Approval test", MembershipState::Member);

    let error = peer_approval(&store.load().unwrap(), network, peer).unwrap_err();
    assert_eq!(error.kind(), ErrorKind::AuthenticationFailed);

    approve(&mut store, peer);
    forget(&mut store, peer);
    let error = peer_approval(&store.load().unwrap(), network, peer).unwrap_err();
    assert_eq!(error.kind(), ErrorKind::AuthenticationFailed);
}

#[test]
fn approval_for_wrong_network_is_rejected() {
    let network = NetworkId::from_bytes([0x71; 16]);
    let store = seeded(network, "Approval test", MembershipState::Member);
    let error = peer_approval(
        &store.load().unwrap(),
        NetworkId::from_bytes([0x72; 16]),
        NodeId::from_bytes([0x73; 16]),
    )
    .unwrap_err();
    assert_eq!(error.kind(), ErrorKind::InvalidState);
}

#[test]
fn approval_without_a_current_network_is_refused() {
    let mut registry = MembershipRegistry::default();
    let error = trust_in_current_network(&mut registry, NodeId::from_bytes([1; 16])).unwrap_err();
    assert_eq!(
        error.message(),
        "this daemon does not currently belong to a BlueRoute network"
    );
}
