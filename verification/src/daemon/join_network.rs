use vstd::prelude::*;

use crate::daemon::single_star::{current_network, discovered_network_name, member_networks, tagged_id};
use crate::domain::error::{CoreError, ErrorKind};
use crate::domain::id::NetworkId;
use crate::domain::membership::{
    state_name, transition_error_message, MembershipRegistry, MembershipState, NetworkMembership,
};
use crate::linux::handles::{NetworkInterfaceHandle, PanAttachment, PanRole, PeerHandle};
use crate::linux::membership_store::registry_networks;
use crate::text::push_str;

verus! {

/// A PANU link established for a join: the peer and the attachment to it.
#[derive(Clone, Debug, PartialEq, Eq)]
pub struct JoinPanLink {
    peer: PeerHandle,
    attachment: PanAttachment,
}

impl JoinPanLink {
    pub closed spec fn spec_peer(&self) -> PeerHandle {
        self.peer
    }

    pub closed spec fn spec_attachment(&self) -> PanAttachment {
        self.attachment
    }

    /// Accepts only a PANU attachment to `peer`.
    pub fn new(peer: PeerHandle, attachment: PanAttachment) -> (result: Result<Self, CoreError>)
        ensures
            result is Ok <==> attachment.role == PanRole::Panu && match attachment.peer {
                Some(attached) => attached@ == peer@,
                None => false,
            },
            match result {
                Ok(link) => link.spec_peer() == peer && link.spec_attachment() == attachment,
                Err(error) => error.spec_kind() == ErrorKind::InvalidState && error.spec_message()
                    == "PANU join runtime returned an attachment for the wrong peer or role"@,
            },
    {
        let matches = match &attachment.peer {
            Some(attached) => *attached == peer,
            None => false,
        };
        if attachment.role != PanRole::Panu || !matches {
            return Err(
                CoreError::new(
                    ErrorKind::InvalidState,
                    "PANU join runtime returned an attachment for the wrong peer or role",
                ),
            );
        }
        Ok(JoinPanLink { peer, attachment })
    }

    pub fn interface(&self) -> (interface: &NetworkInterfaceHandle)
        ensures
            *interface == self.spec_attachment().interface,
    {
        &self.attachment.interface
    }

    pub fn peer(&self) -> (peer: &PeerHandle)
        ensures
            *peer == self.spec_peer(),
    {
        &self.peer
    }
}

/// The IP configuration made on a join's PANU interface.
#[derive(Clone, Debug, PartialEq, Eq)]
pub struct JoinIpLease {
    interface: NetworkInterfaceHandle,
}

impl JoinIpLease {
    pub closed spec fn spec_interface(&self) -> NetworkInterfaceHandle {
        self.interface
    }

    pub fn new(interface: NetworkInterfaceHandle) -> (lease: Self)
        ensures
            lease.spec_interface() == interface,
    {
        JoinIpLease { interface }
    }

    pub fn interface(&self) -> (interface: &NetworkInterfaceHandle)
        ensures
            *interface == self.spec_interface(),
    {
        &self.interface
    }
}

/// The control session opened with the joined network.
#[derive(Clone, Debug, PartialEq, Eq)]
pub struct JoinControlSession {
    network: NetworkId,
}

impl JoinControlSession {
    pub closed spec fn spec_network(&self) -> NetworkId {
        self.network
    }

    pub fn new(network: NetworkId) -> (session: Self)
        ensures
            session.spec_network() == network,
    {
        JoinControlSession { network }
    }

    pub fn network(&self) -> (network: NetworkId)
        ensures
            network == self.spec_network(),
    {
        self.network
    }
}

/// The failure text of each rollback step that failed, in order: control session, address,
/// PANU link.
pub open spec fn rollback_failures(
    control: Result<(), CoreError>,
    address: Result<(), CoreError>,
    panu: Result<(), CoreError>,
) -> Seq<Seq<char>> {
    (match control {
        Err(error) => seq!["control rollback: "@ + error.spec_message()],
        Ok(()) => Seq::empty(),
    }) + (match address {
        Err(error) => seq!["address rollback: "@ + error.spec_message()],
        Ok(()) => Seq::empty(),
    }) + (match panu {
        Err(error) => seq!["PANU rollback: "@ + error.spec_message()],
        Ok(()) => Seq::empty(),
    })
}

/// Texts joined with "; ".
pub open spec fn joined(texts: Seq<Seq<char>>) -> Seq<char>
    decreases texts.len(),
{
    if texts.len() == 0 {
        Seq::empty()
    } else if texts.len() == 1 {
        texts[0]
    } else {
        joined(texts.drop_last()) + "; "@ + texts.last()
    }
}

/// The error a failed join reports: the primary failure, with the failed rollback steps
/// added to its diagnostic so none is silently lost.
pub open spec fn reports_rollback(
    error: CoreError,
    primary: CoreError,
    control: Result<(), CoreError>,
    address: Result<(), CoreError>,
    panu: Result<(), CoreError>,
) -> bool {
    let failures = rollback_failures(control, address, panu);
    if failures.len() == 0 {
        error == primary
    } else {
        &&& error.spec_kind() == primary.spec_kind()
        &&& error.spec_message() == primary.spec_message()
        &&& error.spec_diagnostic() == Some(
            match primary.spec_diagnostic() {
                Some(text) => text,
                None => "no primary diagnostic"@,
            } + "; rollback failures: "@ + joined(failures),
        )
    }
}

fn push_failure(failures: &mut Vec<String>, label: &str, result: &Result<(), CoreError>)
    ensures
        final(failures)@.map_values(|text: String| text@) == old(failures)@.map_values(
            |text: String| text@,
        ) + match result {
            Err(error) => seq![label@ + error.spec_message()],
            Ok(()) => Seq::<Seq<char>>::empty(),
        },
{
    match result {
        Err(error) => {
            let mut text = String::from_str(label);
            push_str(&mut text, error.message());
            let ghost before = failures@;
            failures.push(text);
            assert(failures@.map_values(|text: String| text@) =~= before.map_values(
                |text: String| text@,
            ) + seq![label@ + error.spec_message()]);
        },
        Ok(()) => {
            assert(failures@.map_values(|text: String| text@) =~= failures@.map_values(
                |text: String| text@,
            ) + Seq::<Seq<char>>::empty());
        },
    }
}

/// Combines a join failure with the results of its rollback steps.
pub fn combine_rollback(
    primary: CoreError,
    control: Result<(), CoreError>,
    address: Result<(), CoreError>,
    panu: Result<(), CoreError>,
) -> (error: CoreError)
    ensures
        reports_rollback(error, primary, control, address, panu),
{
    let mut failures: Vec<String> = Vec::new();
    push_failure(&mut failures, "control rollback: ", &control);
    push_failure(&mut failures, "address rollback: ", &address);
    push_failure(&mut failures, "PANU rollback: ", &panu);
    let ghost views = failures@.map_values(|text: String| text@);
    assert(views =~= rollback_failures(control, address, panu));
    if failures.len() == 0 {
        return primary;
    }
    let mut diagnostic = match primary.diagnostic() {
        Some(text) => String::from_str(text),
        None => String::from_str("no primary diagnostic"),
    };
    push_str(&mut diagnostic, "; rollback failures: ");
    let ghost head = diagnostic@;
    let mut i: usize = 0;
    while i < failures.len()
        invariant
            i <= failures@.len(),
            views == failures@.map_values(|text: String| text@),
            diagnostic@ == head + joined(views.take(i as int)),
        decreases failures@.len() - i,
    {
        if i > 0 {
            push_str(&mut diagnostic, "; ");
        }
        push_str(&mut diagnostic, failures[i].as_str());
        proof {
            assert(views.take(i + 1).drop_last() =~= views.take(i as int));
            assert(views.take(i + 1).last() == views[i as int]);
            if i == 0 {
                assert(views.take(1) =~= seq![views[0]]);
            }
            assert(diagnostic@ =~= head + joined(views.take(i + 1)));
        }
        i += 1;
    }
    assert(views.take(views.len() as int) =~= views);
    CoreError::from_parts(primary.kind(), String::from_str(primary.message()), Some(diagnostic))
}

/// Where a network's membership goes when the local node joins it: through `Joining` to
/// `Member`, or the refused step.
pub open spec fn join_transition(state: MembershipState) -> Option<Seq<char>> {
    match state {
        MembershipState::NotMember | MembershipState::Joining => None,
        _ => Some(transition_error_message(state, MembershipState::Joining)),
    }
}

/// Records that the local node joined `network`: an existing membership moves to `Member`,
/// an unknown network is remembered under its short name as a member.
pub fn mark_local_membership_joined(registry: &mut MembershipRegistry, network: NetworkId) -> (result: Result<(), CoreError>)
    ensures
        match (old(registry).network_map().contains_key(network.0@), result) {
            (true, Ok(())) => {
                let before = old(registry).network_map()[network.0@];
                let after = final(registry).network_map()[network.0@];
                &&& join_transition(before.spec_state()) is None
                &&& final(registry).network_map() == old(registry).network_map().insert(network.0@, after)
                &&& after.spec_state() == MembershipState::Member
                &&& after.spec_network_id() == before.spec_network_id()
                &&& after.spec_network_name() == before.spec_network_name()
                &&& after.peer_entries() == before.peer_entries()
            },
            (true, Err(error)) => {
                &&& join_transition(old(registry).network_map()[network.0@].spec_state()) == Some(error.spec_message())
                &&& error.spec_kind() == ErrorKind::InvalidState
                &&& error.spec_diagnostic() is None
                &&& final(registry).network_map() == old(registry).network_map()
            },
            (false, Ok(())) => {
                let after = final(registry).network_map()[network.0@];
                &&& final(registry).network_map() == old(registry).network_map().insert(network.0@, after)
                &&& after.spec_state() == MembershipState::Member
                &&& after.spec_network_id() == network
                &&& after.spec_network_name()@ == tagged_id("BlueRoute "@, network)
                &&& after.peer_entries().len() == 0
            },
            (false, Err(_)) => false,
        },
{
    match registry.network_mut(&network) {
        Some(membership) => {
            let joining = match membership.membership_state().transition(MembershipState::Joining) {
                Ok(state) => state,
                Err(error) => return Err(error),
            };
            let member = match joining.transition(MembershipState::Member) {
                Ok(state) => state,
                Err(error) => return Err(error),
            };
            membership.set_state(member);
            Ok(())
        },
        None => {
            let name = match discovered_network_name(network) {
                Ok(name) => name,
                Err(error) => return Err(error),
            };
            let mut membership = NetworkMembership::new(network, name);
            membership.set_state(MembershipState::Member);
            registry.remember_network(membership);
            Ok(())
        },
    }
}

/// Where a join stands.
#[derive(Debug)]
pub enum JoinStage {
    /// Read the durable membership to check that the node belongs to no network yet.
    CheckMembership,
    /// Check the runtime prerequisites.
    Preflight,
    /// Connect as PANU to the network's host.
    EstablishPanu,
    /// Configure IP on the PANU link.
    ConfigureIp { link: JoinPanLink },
    /// Open the control session.
    StartControl { link: JoinPanLink, lease: JoinIpLease },
    /// Read the durable membership again before committing.
    Reload { link: JoinPanLink, lease: JoinIpLease, session: JoinControlSession },
    /// Save the membership that records the join.
    Save {
        link: JoinPanLink,
        lease: JoinIpLease,
        session: JoinControlSession,
        registry: MembershipRegistry,
    },
    /// Roll back: stop the control session.
    StopControl {
        primary: CoreError,
        link: JoinPanLink,
        lease: JoinIpLease,
        session: JoinControlSession,
    },
    /// Roll back: remove the IP configuration.
    RemoveIp {
        primary: CoreError,
        control: Result<(), CoreError>,
        link: JoinPanLink,
        lease: JoinIpLease,
    },
    /// Roll back: disconnect the PANU link.
    DisconnectPanu {
        primary: CoreError,
        control: Result<(), CoreError>,
        address: Result<(), CoreError>,
        link: JoinPanLink,
    },
    /// Done, with the join's result.
    Finished(Result<(), CoreError>),
}

/// The outside work the current stage asks for.
#[derive(Clone, Copy, Debug, PartialEq, Eq, Structural)]
pub enum JoinAction {
    LoadRegistry,
    Preflight,
    EstablishPanu,
    ConfigureIp,
    StartControl,
    SaveRegistry,
    StopControl,
    RemoveIp,
    DisconnectPanu,
    Finish,
}

/// What the outside work gave back.
#[derive(Debug)]
pub enum JoinOutcome {
    Registry(Result<MembershipRegistry, CoreError>),
    Done(Result<(), CoreError>),
    Link(Result<JoinPanLink, CoreError>),
    Lease(Result<JoinIpLease, CoreError>),
    Session(Result<JoinControlSession, CoreError>),
}

/// A join of `network` in progress.
#[derive(Debug)]
pub struct JoinSaga {
    pub network: NetworkId,
    pub stage: JoinStage,
}

pub open spec fn join_action(stage: JoinStage) -> JoinAction {
    match stage {
        JoinStage::CheckMembership => JoinAction::LoadRegistry,
        JoinStage::Preflight => JoinAction::Preflight,
        JoinStage::EstablishPanu => JoinAction::EstablishPanu,
        JoinStage::ConfigureIp { .. } => JoinAction::ConfigureIp,
        JoinStage::StartControl { .. } => JoinAction::StartControl,
        JoinStage::Reload { .. } => JoinAction::LoadRegistry,
        JoinStage::Save { .. } => JoinAction::SaveRegistry,
        JoinStage::StopControl { .. } => JoinAction::StopControl,
        JoinStage::RemoveIp { .. } => JoinAction::RemoveIp,
        JoinStage::DisconnectPanu { .. } => JoinAction::DisconnectPanu,
        JoinStage::Finished(_) => JoinAction::Finish,
    }
}

/// The refusal when durable membership already names a network.
pub open spec fn already_member_message(current: NetworkId, network: NetworkId) -> Seq<char> {
    if current == network {
        "durable membership already claims this network; P6-009 runtime reconciliation is required before JoinNetwork can report success"@
    } else {
        "this daemon already belongs to a different BlueRoute network"@
    }
}

/// `next` is a finished stage with an error of this kind and message.
pub open spec fn join_fails_with(next: JoinStage, kind: ErrorKind, message: Seq<char>) -> bool {
    match next {
        JoinStage::Finished(Err(error)) => error.spec_kind() == kind && error.spec_message() == message,
        _ => false,
    }
}

/// `next` starts rolling back everything set up so far, with a primary failure of this
/// kind and message and no diagnostic.
pub open spec fn rolls_back_with(
    next: JoinStage,
    link: JoinPanLink,
    lease: JoinIpLease,
    session: JoinControlSession,
    kind: ErrorKind,
    message: Seq<char>,
) -> bool {
    match next {
        JoinStage::StopControl { primary, link: l, lease: e, session: c } => l == link && e == lease
            && c == session && primary.spec_kind() == kind && primary.spec_message() == message
            && primary.spec_diagnostic() is None,
        _ => false,
    }
}

/// `joined` is the membership of `network` as the join records it over `registry`: a
/// remembered one moved to `Member` with its name and peers kept, or an unknown network
/// remembered under its short name as a member without peers.
pub open spec fn joined_membership(registry: MembershipRegistry, network: NetworkId, joined: NetworkMembership) -> bool {
    &&& joined.spec_state() == MembershipState::Member
    &&& if registry.network_map().contains_key(network.0@) {
        let before = registry.network_map()[network.0@];
        &&& joined.spec_network_id() == before.spec_network_id()
        &&& joined.spec_network_name() == before.spec_network_name()
        &&& joined.peer_entries() == before.peer_entries()
    } else {
        &&& joined.spec_network_id() == network
        &&& joined.spec_network_name()@ == tagged_id("BlueRoute "@, network)
        &&& joined.peer_entries().len() == 0
    }
}

/// How a join moves on with the outcome of its stage's action.
pub open spec fn join_step(network: NetworkId, stage: JoinStage, outcome: JoinOutcome, next: JoinStage) -> bool {
    match (stage, outcome) {
        (JoinStage::Finished(result), _) => next == JoinStage::Finished(result),
        (JoinStage::CheckMembership, JoinOutcome::Registry(loaded)) => match loaded {
            Err(error) => next == JoinStage::Finished(Err(error)),
            Ok(registry) => {
                let members = member_networks(registry_networks(registry));
                if members.len() > 1 {
                    join_fails_with(next, ErrorKind::InvalidState, "durable state contains more than one active BlueRoute network"@)
                } else if members.len() == 1 {
                    join_fails_with(next, ErrorKind::InvalidState, already_member_message(members[0], network))
                } else {
                    next == JoinStage::Preflight
                }
            },
        },
        (JoinStage::Preflight, JoinOutcome::Done(done)) => match done {
            Err(error) => next == JoinStage::Finished(Err(error)),
            Ok(()) => next == JoinStage::EstablishPanu,
        },
        (JoinStage::EstablishPanu, JoinOutcome::Link(linked)) => match linked {
            Err(error) => next == JoinStage::Finished(Err(error)),
            Ok(link) => next == JoinStage::ConfigureIp { link },
        },
        (JoinStage::ConfigureIp { link }, JoinOutcome::Lease(leased)) => match leased {
            Err(error) => next == JoinStage::DisconnectPanu { primary: error, control: Ok(()), address: Ok(()), link },
            Ok(lease) => next == JoinStage::StartControl { link, lease },
        },
        (JoinStage::StartControl { link, lease }, JoinOutcome::Session(started)) => match started {
            Err(error) => next == JoinStage::RemoveIp { primary: error, control: Ok(()), link, lease },
            Ok(session) => next == JoinStage::Reload { link, lease, session },
        },
        (JoinStage::Reload { link, lease, session }, JoinOutcome::Registry(loaded)) => match loaded {
            Err(error) => next == JoinStage::StopControl { primary: error, link, lease, session },
            Ok(registry) => {
                let members = member_networks(registry_networks(registry));
                if members.len() > 1 {
                    rolls_back_with(next, link, lease, session, ErrorKind::InvalidState,
                        "durable state contains more than one active BlueRoute network"@)
                } else if members.len() == 1 {
                    rolls_back_with(next, link, lease, session, ErrorKind::InvalidState,
                        "BlueRoute membership changed while join networking was being established"@)
                } else if registry.network_map().contains_key(network.0@) && join_transition(
                    registry.network_map()[network.0@].spec_state(),
                ) is Some {
                    rolls_back_with(next, link, lease, session, ErrorKind::InvalidState,
                        join_transition(registry.network_map()[network.0@].spec_state())->0)
                } else {
                    match next {
                        JoinStage::Save { link: l, lease: e, session: c, registry: saved } => {
                            &&& l == link && e == lease && c == session
                            &&& saved.network_map().contains_key(network.0@)
                            &&& joined_membership(registry, network, saved.network_map()[network.0@])
                            &&& saved.network_map() == registry.network_map().insert(
                                network.0@,
                                saved.network_map()[network.0@],
                            )
                        },
                        _ => false,
                    }
                }
            },
        },
        (JoinStage::Save { link, lease, session, registry: _ }, JoinOutcome::Done(saved)) => match saved {
            Err(error) => next == JoinStage::StopControl { primary: error, link, lease, session },
            Ok(()) => next == JoinStage::Finished(Ok(())),
        },
        (JoinStage::StopControl { primary, link, lease, session: _ }, JoinOutcome::Done(control)) => next
            == JoinStage::RemoveIp { primary, control, link, lease },
        (JoinStage::RemoveIp { primary, control, link, lease: _ }, JoinOutcome::Done(address)) => next
            == JoinStage::DisconnectPanu { primary, control, address, link },
        (JoinStage::DisconnectPanu { primary, control, address, link: _ }, JoinOutcome::Done(panu)) => match next {
            JoinStage::Finished(Err(error)) => reports_rollback(error, primary, control, address, panu),
            _ => false,
        },
        _ => join_fails_with(next, ErrorKind::Internal, "join step received the outcome of a different action"@),
    }
}

impl JoinSaga {
    /// A join of `network`, about to check durable membership.
    pub fn start(network: NetworkId) -> (saga: Self)
        ensures
            saga.network == network,
            saga.stage == JoinStage::CheckMembership,
    {
        JoinSaga { network, stage: JoinStage::CheckMembership }
    }

    /// The outside work the current stage asks for. Saving is only asked for with the PANU
    /// link, the IP configuration and the control session all in place.
    pub fn action(&self) -> (action: JoinAction)
        ensures
            action == join_action(self.stage),
            action == JoinAction::SaveRegistry ==> self.stage is Save,
    {
        match &self.stage {
            JoinStage::CheckMembership => JoinAction::LoadRegistry,
            JoinStage::Preflight => JoinAction::Preflight,
            JoinStage::EstablishPanu => JoinAction::EstablishPanu,
            JoinStage::ConfigureIp { .. } => JoinAction::ConfigureIp,
            JoinStage::StartControl { .. } => JoinAction::StartControl,
            JoinStage::Reload { .. } => JoinAction::LoadRegistry,
            JoinStage::Save { .. } => JoinAction::SaveRegistry,
            JoinStage::StopControl { .. } => JoinAction::StopControl,
            JoinStage::RemoveIp { .. } => JoinAction::RemoveIp,
            JoinStage::DisconnectPanu { .. } => JoinAction::DisconnectPanu,
            JoinStage::Finished(_) => JoinAction::Finish,
        }
    }

    /// Moves on with the outcome of the current action.
    pub fn advance(self, outcome: JoinOutcome) -> (next: Self)
        ensures
            next.network == self.network,
            join_step(self.network, self.stage, outcome, next.stage),
    {
        let network = self.network;
        let stage = match (self.stage, outcome) {
            (JoinStage::Finished(result), _) => JoinStage::Finished(result),
            (JoinStage::CheckMembership, JoinOutcome::Registry(loaded)) => match loaded {
                Err(error) => JoinStage::Finished(Err(error)),
                Ok(registry) => match current_network(&registry) {
                    Err(error) => JoinStage::Finished(Err(error)),
                    Ok(Some(current)) => {
                        proof {
                            if current.0@ == network.0@ {
                                assert(current.0 =~= network.0);
                            }
                        }
                        let message = if current == network {
                            "durable membership already claims this network; P6-009 runtime reconciliation is required before JoinNetwork can report success"
                        } else {
                            "this daemon already belongs to a different BlueRoute network"
                        };
                        JoinStage::Finished(Err(CoreError::new(ErrorKind::InvalidState, message)))
                    },
                    Ok(None) => JoinStage::Preflight,
                },
            },
            (JoinStage::Preflight, JoinOutcome::Done(done)) => match done {
                Err(error) => JoinStage::Finished(Err(error)),
                Ok(()) => JoinStage::EstablishPanu,
            },
            (JoinStage::EstablishPanu, JoinOutcome::Link(linked)) => match linked {
                Err(error) => JoinStage::Finished(Err(error)),
                Ok(link) => JoinStage::ConfigureIp { link },
            },
            (JoinStage::ConfigureIp { link }, JoinOutcome::Lease(leased)) => match leased {
                Err(error) => JoinStage::DisconnectPanu { primary: error, control: Ok(()), address: Ok(()), link },
                Ok(lease) => JoinStage::StartControl { link, lease },
            },
            (JoinStage::StartControl { link, lease }, JoinOutcome::Session(started)) => match started {
                Err(error) => JoinStage::RemoveIp { primary: error, control: Ok(()), link, lease },
                Ok(session) => JoinStage::Reload { link, lease, session },
            },
            (JoinStage::Reload { link, lease, session }, JoinOutcome::Registry(loaded)) => match loaded {
                Err(error) => JoinStage::StopControl { primary: error, link, lease, session },
                Ok(mut registry) => match current_network(&registry) {
                    Err(error) => JoinStage::StopControl { primary: error, link, lease, session },
                    Ok(Some(_)) => JoinStage::StopControl {
                        primary: CoreError::new(
                            ErrorKind::InvalidState,
                            "BlueRoute membership changed while join networking was being established",
                        ),
                        link,
                        lease,
                        session,
                    },
                    Ok(None) => match mark_local_membership_joined(&mut registry, network) {
                        Err(error) => JoinStage::StopControl { primary: error, link, lease, session },
                        Ok(()) => JoinStage::Save { link, lease, session, registry },
                    },
                },
            },
            (JoinStage::Save { link, lease, session, registry: _ }, JoinOutcome::Done(saved)) => match saved {
                Err(error) => JoinStage::StopControl { primary: error, link, lease, session },
                Ok(()) => JoinStage::Finished(Ok(())),
            },
            (JoinStage::StopControl { primary, link, lease, session: _ }, JoinOutcome::Done(control)) => {
                JoinStage::RemoveIp { primary, control, link, lease }
            },
            (JoinStage::RemoveIp { primary, control, link, lease: _ }, JoinOutcome::Done(address)) => {
                JoinStage::DisconnectPanu { primary, control, address, link }
            },
            (JoinStage::DisconnectPanu { primary, control, address, link: _ }, JoinOutcome::Done(panu)) => {
                JoinStage::Finished(Err(combine_rollback(primary, control, address, panu)))
            },
            _ => JoinStage::Finished(Err(CoreError::new(
                ErrorKind::Internal,
                "join step received the outcome of a different action",
            ))),
        };
        JoinSaga { network, stage }
    }

    /// The PANU link the current stage holds, if any.
    pub fn link(&self) -> (link: Option<&JoinPanLink>)
        ensures
            match self.stage {
                JoinStage::ConfigureIp { link: held } | JoinStage::StartControl { link: held, .. } | JoinStage::Reload { link: held, .. }
                | JoinStage::Save { link: held, .. } | JoinStage::StopControl { link: held, .. } | JoinStage::RemoveIp { link: held, .. }
                | JoinStage::DisconnectPanu { link: held, .. } => link == Some(&held),
                _ => link is None,
            },
    {
        match &self.stage {
            JoinStage::ConfigureIp { link } => Some(link),
            JoinStage::StartControl { link, .. } => Some(link),
            JoinStage::Reload { link, .. } => Some(link),
            JoinStage::Save { link, .. } => Some(link),
            JoinStage::StopControl { link, .. } => Some(link),
            JoinStage::RemoveIp { link, .. } => Some(link),
            JoinStage::DisconnectPanu { link, .. } => Some(link),
            _ => None,
        }
    }

    /// The IP configuration the current stage holds, if any.
    pub fn lease(&self) -> (lease: Option<&JoinIpLease>)
        ensures
            match self.stage {
                JoinStage::StartControl { lease: held, .. } | JoinStage::Reload { lease: held, .. } | JoinStage::Save { lease: held, .. }
                | JoinStage::StopControl { lease: held, .. } | JoinStage::RemoveIp { lease: held, .. } => lease == Some(&held),
                _ => lease is None,
            },
    {
        match &self.stage {
            JoinStage::StartControl { lease, .. } => Some(lease),
            JoinStage::Reload { lease, .. } => Some(lease),
            JoinStage::Save { lease, .. } => Some(lease),
            JoinStage::StopControl { lease, .. } => Some(lease),
            JoinStage::RemoveIp { lease, .. } => Some(lease),
            _ => None,
        }
    }

    /// The control session the current stage holds, if any.
    pub fn session(&self) -> (session: Option<&JoinControlSession>)
        ensures
            match self.stage {
                JoinStage::Reload { session: held, .. } | JoinStage::Save { session: held, .. }
                | JoinStage::StopControl { session: held, .. } => session == Some(&held),
                _ => session is None,
            },
    {
        match &self.stage {
            JoinStage::Reload { session, .. } => Some(session),
            JoinStage::Save { session, .. } => Some(session),
            JoinStage::StopControl { session, .. } => Some(session),
            _ => None,
        }
    }

    /// The membership to save, while saving.
    pub fn registry(&self) -> (registry: Option<&MembershipRegistry>)
        ensures
            match self.stage {
                JoinStage::Save { registry: held, .. } => registry == Some(&held),
                _ => registry is None,
            },
    {
        match &self.stage {
            JoinStage::Save { registry, .. } => Some(registry),
            _ => None,
        }
    }

    /// The join's result once finished.
    pub fn result(self) -> (result: Option<Result<(), CoreError>>)
        ensures
            match self.stage {
                JoinStage::Finished(done) => result == Some(done),
                _ => result is None,
            },
    {
        match self.stage {
            JoinStage::Finished(done) => Some(done),
            _ => None,
        }
    }
}

/// A join succeeds only by saving durable membership, and saving happens only with the PANU
/// link, the IP configuration and the control session in place.
pub proof fn lemma_join_commits_last(network: NetworkId, stage: JoinStage, outcome: JoinOutcome, next: JoinStage)
    requires
        join_step(network, stage, outcome, next),
        !(stage is Finished),
        next == JoinStage::Finished(Ok(())),
    ensures
        stage is Save,
        outcome == JoinOutcome::Done(Ok(())),
{
    match outcome {
        JoinOutcome::Done(result) => match result {
            Ok(unit) => {
                assert(unit == ());
            },
            Err(_) => {},
        },
        _ => {},
    }
}

/// Once any step after the PANU link fails, the join ends only after the link is
/// disconnected: every failure from that point leads to a rollback stage, never straight to
/// a finished join.
pub proof fn lemma_failures_roll_back(network: NetworkId, stage: JoinStage, outcome: JoinOutcome, next: JoinStage)
    requires
        join_step(network, stage, outcome, next),
        stage is ConfigureIp || stage is StartControl || stage is Reload || stage is Save
            || stage is StopControl || stage is RemoveIp,
    ensures
        next is DisconnectPanu || next is RemoveIp || next is StopControl || next is StartControl
            || next is Reload || next is Save || next == JoinStage::Finished(Ok(()))
            || join_fails_with(next, ErrorKind::Internal, "join step received the outcome of a different action"@),
{
}

} // verus!
