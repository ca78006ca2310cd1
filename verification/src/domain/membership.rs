use vstd::prelude::*;

use crate::domain::error::{CoreError, ErrorKind};
use crate::domain::id::{lex_lt, DisplayName, NetworkId, NodeId};
use crate::domain::table::{
    find_key, insertion_point, lemma_insertion_point_absent, lemma_sorted_index_unique, lemma_table_insert, lemma_table_len, lemma_table_remove,
    lemma_table_update, sorted_keys, table_view, Keyed,
};
use crate::text::push_str;

verus! {

/// Where the local node stands in a network's join/leave life cycle.
#[derive(Clone, Copy, Debug, PartialEq, Eq, Structural)]
pub enum MembershipState {
    NotMember,
    Joining,
    Member,
    Leaving,
}

/// The life-cycle steps that are allowed; staying in the same state is always allowed.
pub open spec fn transition_allowed(from: MembershipState, next: MembershipState) -> bool {
    ||| from == next
    ||| (from == MembershipState::NotMember && next == MembershipState::Joining)
    ||| (from == MembershipState::Joining && next == MembershipState::Member)
    ||| (from == MembershipState::Joining && next == MembershipState::NotMember)
    ||| (from == MembershipState::Member && next == MembershipState::Leaving)
    ||| (from == MembershipState::Leaving && next == MembershipState::NotMember)
    ||| (from == MembershipState::Leaving && next == MembershipState::Member)
}

pub open spec fn state_name(state: MembershipState) -> Seq<char> {
    match state {
        MembershipState::NotMember => "NotMember"@,
        MembershipState::Joining => "Joining"@,
        MembershipState::Member => "Member"@,
        MembershipState::Leaving => "Leaving"@,
    }
}

/// The message given for a refused transition.
pub open spec fn transition_error_message(from: MembershipState, next: MembershipState) -> Seq<
    char,
> {
    "invalid membership transition from "@ + state_name(from) + " to "@ + state_name(next)
}

impl MembershipState {
    /// The variant's name.
    pub fn name(self) -> (name: &'static str)
        ensures
            name@ == state_name(self),
    {
        match self {
            MembershipState::NotMember => "NotMember",
            MembershipState::Joining => "Joining",
            MembershipState::Member => "Member",
            MembershipState::Leaving => "Leaving",
        }
    }

    /// Moves to `next` when the life cycle allows that step.
    pub fn transition(self, next: Self) -> (result: Result<Self, CoreError>)
        ensures
            result is Ok <==> transition_allowed(self, next),
            match result {
                Ok(state) => state == next,
                Err(error) => error.spec_kind() == ErrorKind::InvalidState
                    && error.spec_message() == transition_error_message(self, next)
                    && error.spec_diagnostic() is None,
            },
    {
        let allowed = match (self, next) {
            (MembershipState::NotMember, MembershipState::Joining) => true,
            (MembershipState::Joining, MembershipState::Member) => true,
            (MembershipState::Joining, MembershipState::NotMember) => true,
            (MembershipState::Member, MembershipState::Leaving) => true,
            (MembershipState::Leaving, MembershipState::NotMember) => true,
            (MembershipState::Leaving, MembershipState::Member) => true,
            _ => false,
        };
        if allowed || self == next {
            Ok(next)
        } else {
            let mut message = String::new();
            push_str(&mut message, "invalid membership transition from ");
            push_str(&mut message, self.name());
            push_str(&mut message, " to ");
            push_str(&mut message, next.name());
            Err(CoreError::from_parts(ErrorKind::InvalidState, message, None))
        }
    }
}

/// Durable membership and trust facts remembered for one peer of a network.
#[derive(Clone, Copy, Debug, PartialEq, Eq)]
pub struct PeerMembership {
    pub node_id: NodeId,
    member: bool,
    trusted: bool,
}

impl PeerMembership {
    pub closed spec fn spec_node_id(&self) -> NodeId {
        self.node_id
    }

    pub closed spec fn spec_is_member(&self) -> bool {
        self.member
    }

    pub closed spec fn spec_is_trusted(&self) -> bool {
        self.trusted
    }

    /// A peer that is remembered but neither a member nor trusted.
    pub fn new(node_id: NodeId) -> (peer: Self)
        ensures
            peer.spec_node_id() == node_id,
            !peer.spec_is_member(),
            !peer.spec_is_trusted(),
    {
        PeerMembership { node_id, member: false, trusted: false }
    }

    /// The peer's identifier.
    pub fn node(&self) -> (node: NodeId)
        ensures
            node == self.spec_node_id(),
    {
        self.node_id
    }

    #[verifier::when_used_as_spec(spec_is_member)]
    pub fn is_member(&self) -> (member: bool)
        ensures
            member == self.spec_is_member(),
    {
        self.member
    }

    #[verifier::when_used_as_spec(spec_is_trusted)]
    pub fn is_trusted(&self) -> (trusted: bool)
        ensures
            trusted == self.spec_is_trusted(),
    {
        self.trusted
    }
}

impl Keyed for PeerMembership {
    open spec fn key(&self) -> Seq<u8> {
        self.spec_node_id().0@
    }

    proof fn lemma_key_len(&self) {
    }

    fn key_bytes(&self) -> (key: [u8; 16]) {
        self.node_id.0
    }
}

/// The (member, trusted) flags of a remembered peer.
pub open spec fn peer_flags(peer: PeerMembership) -> (bool, bool) {
    (peer.spec_is_member(), peer.spec_is_trusted())
}

/// The peer's identifier when it is trusted.
pub open spec fn trusted_id(peer: PeerMembership) -> Option<NodeId> {
    if peer.spec_is_trusted() {
        Some(peer.spec_node_id())
    } else {
        None
    }
}

/// Peers kept in strictly increasing identifier order.
#[derive(Debug)]
struct PeerTable {
    entries: Vec<PeerMembership>,
}

impl Clone for PeerTable {
    fn clone(&self) -> Self {
        proof {
            use_type_invariant(self);
        }
        PeerTable { entries: self.entries.clone() }
    }
}

impl PeerTable {
    #[verifier::type_invariant]
    closed spec fn sorted(&self) -> bool {
        sorted_keys(self.entries@)
    }
}

/// Local durable and working membership state for one network.
#[derive(Clone, Debug)]
pub struct NetworkMembership {
    pub network_id: NetworkId,
    pub network_name: DisplayName,
    pub state: MembershipState,
    peers: PeerTable,
}

impl NetworkMembership {
    pub closed spec fn spec_network_id(&self) -> NetworkId {
        self.network_id
    }

    pub closed spec fn spec_network_name(&self) -> DisplayName {
        self.network_name
    }

    pub closed spec fn spec_state(&self) -> MembershipState {
        self.state
    }

    /// The remembered peers in increasing identifier order.
    pub closed spec fn peer_entries(&self) -> Seq<PeerMembership> {
        self.peers.entries@
    }

    /// Each remembered peer's identifier bytes mapped to its (member, trusted) flags.
    pub open spec fn peer_status(&self) -> Map<Seq<u8>, (bool, bool)> {
        table_view(self.peer_entries()).map_values(|peer: PeerMembership| peer_flags(peer))
    }

    /// The other fields are the same in `a` and `b`.
    pub open spec fn same_identity(a: &Self, b: &Self) -> bool {
        &&& a.spec_network_id() == b.spec_network_id()
        &&& a.spec_network_name() == b.spec_network_name()
        &&& a.spec_state() == b.spec_state()
    }

    pub fn new(network_id: NetworkId, network_name: DisplayName) -> (membership: Self)
        ensures
            membership.spec_network_id() == network_id,
            membership.spec_network_name() == network_name,
            membership.spec_state() == MembershipState::NotMember,
            membership.peer_entries() == Seq::<PeerMembership>::empty(),
            membership.peer_status() == Map::<Seq<u8>, (bool, bool)>::empty(),
    {
        let membership = NetworkMembership {
            network_id,
            network_name,
            state: MembershipState::NotMember,
            peers: PeerTable { entries: Vec::new() },
        };
        assert(membership.peer_status() =~= Map::<Seq<u8>, (bool, bool)>::empty());
        membership
    }

    /// The network's identifier.
    pub fn id(&self) -> (id: NetworkId)
        ensures
            id == self.spec_network_id(),
    {
        self.network_id
    }

    /// The network's display name.
    pub fn name(&self) -> (name: &DisplayName)
        ensures
            *name == self.spec_network_name(),
    {
        &self.network_name
    }

    /// Where the local node stands in this network's life cycle.
    pub fn membership_state(&self) -> (state: MembershipState)
        ensures
            state == self.spec_state(),
    {
        self.state
    }

    /// Sets where the local node stands in this network's life cycle.
    pub fn set_state(&mut self, state: MembershipState)
        ensures
            final(self).spec_state() == state,
            final(self).spec_network_id() == old(self).spec_network_id(),
            final(self).spec_network_name() == old(self).spec_network_name(),
            final(self).peer_entries() == old(self).peer_entries(),
    {
        self.state = state;
    }

    /// Inserts or replaces the entry of `peer.node_id`.
    fn put_peer(&mut self, peer: PeerMembership)
        ensures
            Self::same_identity(&*final(self), &*old(self)),
            table_view(final(self).peer_entries()) == table_view(old(self).peer_entries()).insert(
                peer.key(),
                peer,
            ),
    {
        proof {
            use_type_invariant(&self.peers);
        }
        let key = peer.node_id.0;
        let mut entries = self.take_entries();
        match find_key(&entries, &key) {
            Ok(i) => {
                proof {
                    lemma_table_update(entries@, i as int, peer);
                }
                entries.set(i, peer);
            },
            Err(p) => {
                proof {
                    lemma_table_insert(entries@, p as int, peer);
                }
                entries.insert(p, peer);
            },
        }
        self.peers = PeerTable { entries };
    }

    /// Moves the peer entries out, leaving an empty table behind.
    fn take_entries(&mut self) -> (entries: Vec<PeerMembership>)
        ensures
            Self::same_identity(&*final(self), &*old(self)),
            entries@ == old(self).peer_entries(),
            sorted_keys(entries@),
    {
        let mut table = PeerTable { entries: Vec::new() };
        std::mem::swap(&mut self.peers, &mut table);
        proof {
            use_type_invariant(&table);
        }
        let PeerTable { entries } = table;
        entries
    }

    /// Remembers `peer`; returns whether it was not known before.
    pub fn remember_peer(&mut self, peer: NodeId) -> (added: bool)
        ensures
            Self::same_identity(&*final(self), &*old(self)),
            added == !old(self).peer_status().contains_key(peer.0@),
            final(self).peer_status() == if added {
                old(self).peer_status().insert(peer.0@, (false, false))
            } else {
                old(self).peer_status()
            },
    {
        proof {
            use_type_invariant(&self.peers);
        }
        match find_key(&self.peers.entries, &peer.0) {
            Ok(_) => false,
            Err(_) => {
                let entry = PeerMembership::new(peer);
                self.put_peer(entry);
                assert(final(self).peer_status() =~= old(self).peer_status().insert(
                    peer.0@,
                    (false, false),
                ));
                true
            },
        }
    }

    /// Looks the peer up: its position when it is known.
    fn position(&self, peer: &NodeId) -> (found: Option<usize>)
        ensures
            match found {
                Some(i) => i < self.peer_entries().len() && self.peer_entries()[i as int].key()
                    == peer.0@ && table_view(self.peer_entries())[peer.0@] == self.peer_entries()[i as int],
                None => !table_view(self.peer_entries()).contains_key(peer.0@),
            },
            found is Some <==> self.peer_status().contains_key(peer.0@),
    {
        proof {
            use_type_invariant(&self.peers);
        }
        match find_key(&self.peers.entries, &peer.0) {
            Ok(i) => {
                proof {
                    lemma_sorted_index_unique(self.peers.entries@, i as int);
                }
                Some(i)
            },
            Err(_) => None,
        }
    }

    /// Sets whether the peer is a member, remembering it if needed; returns whether that changed.
    pub fn set_peer_member(&mut self, peer: NodeId, member: bool) -> (changed: bool)
        ensures
            Self::same_identity(&*final(self), &*old(self)),
            changed == ((old(self).peer_status().contains_key(peer.0@) && old(
                self,
            ).peer_status()[peer.0@].0) != member),
            final(self).peer_status() == old(self).peer_status().insert(
                peer.0@,
                (
                    member,
                    old(self).peer_status().contains_key(peer.0@) && old(
                        self,
                    ).peer_status()[peer.0@].1,
                ),
            ),
    {
        let current = match self.position(&peer) {
            Some(i) => {
                assert(self.peer_status()[peer.0@] == peer_flags(self.peer_entries()[i as int]));
                self.peers.entries[i]
            },
            None => PeerMembership::new(peer),
        };
        let changed = current.member != member;
        let updated = PeerMembership { node_id: peer, member, trusted: current.trusted };
        self.put_peer(updated);
        assert(final(self).peer_status() =~= old(self).peer_status().insert(
            peer.0@,
            (
                member,
                old(self).peer_status().contains_key(peer.0@) && old(self).peer_status()[peer.0@].1,
            ),
        ));
        changed
    }

    /// Trusts the peer, remembering it if needed; returns whether it was not trusted before.
    pub fn trust_peer(&mut self, peer: NodeId) -> (changed: bool)
        ensures
            Self::same_identity(&*final(self), &*old(self)),
            changed == !(old(self).peer_status().contains_key(peer.0@) && old(
                self,
            ).peer_status()[peer.0@].1),
            final(self).peer_status() == old(self).peer_status().insert(
                peer.0@,
                (
                    old(self).peer_status().contains_key(peer.0@) && old(
                        self,
                    ).peer_status()[peer.0@].0,
                    true,
                ),
            ),
    {
        let current = match self.position(&peer) {
            Some(i) => {
                assert(self.peer_status()[peer.0@] == peer_flags(self.peer_entries()[i as int]));
                self.peers.entries[i]
            },
            None => PeerMembership::new(peer),
        };
        let changed = !current.trusted;
        let updated = PeerMembership { node_id: peer, member: current.member, trusted: true };
        self.put_peer(updated);
        assert(final(self).peer_status() =~= old(self).peer_status().insert(
            peer.0@,
            (
                old(self).peer_status().contains_key(peer.0@) && old(self).peer_status()[peer.0@].0,
                true,
            ),
        ));
        changed
    }

    /// Revokes trust in a known peer; returns whether it was trusted.
    pub fn untrust_peer(&mut self, peer: &NodeId) -> (changed: bool)
        ensures
            Self::same_identity(&*final(self), &*old(self)),
            changed == (old(self).peer_status().contains_key(peer.0@) && old(
                self,
            ).peer_status()[peer.0@].1),
            final(self).peer_status() == if old(self).peer_status().contains_key(peer.0@) {
                old(self).peer_status().insert(
                    peer.0@,
                    (old(self).peer_status()[peer.0@].0, false),
                )
            } else {
                old(self).peer_status()
            },
    {
        match self.position(peer) {
            None => false,
            Some(i) => {
                let current = self.peers.entries[i];
                let changed = current.trusted;
                let updated = PeerMembership {
                    node_id: current.node_id,
                    member: current.member,
                    trusted: false,
                };
                self.put_peer(updated);
                assert(final(self).peer_status() =~= old(self).peer_status().insert(
                    peer.0@,
                    (old(self).peer_status()[peer.0@].0, false),
                ));
                changed
            },
        }
    }

    /// Forgets everything about the peer; returns whether it was known.
    pub fn forget_peer(&mut self, peer: &NodeId) -> (removed: bool)
        ensures
            Self::same_identity(&*final(self), &*old(self)),
            removed == old(self).peer_status().contains_key(peer.0@),
            final(self).peer_status() == old(self).peer_status().remove(peer.0@),
    {
        proof {
            use_type_invariant(&self.peers);
        }
        let mut entries = self.take_entries();
        match find_key(&entries, &peer.0) {
            Ok(i) => {
                proof {
                    lemma_table_remove(entries@, i as int);
                }
                entries.remove(i);
                self.peers = PeerTable { entries };
                assert(final(self).peer_status() =~= old(self).peer_status().remove(peer.0@));
                true
            },
            Err(_) => {
                self.peers = PeerTable { entries };
                assert(old(self).peer_status().remove(peer.0@) =~= old(self).peer_status());
                false
            },
        }
    }

    pub fn is_peer_known(&self, peer: &NodeId) -> (known: bool)
        ensures
            known == self.peer_status().contains_key(peer.0@),
    {
        self.position(peer).is_some()
    }

    pub fn is_peer_member(&self, peer: &NodeId) -> (member: bool)
        ensures
            member == (self.peer_status().contains_key(peer.0@)
                && self.peer_status()[peer.0@].0),
    {
        match self.position(peer) {
            Some(i) => self.peers.entries[i].member,
            None => false,
        }
    }

    pub fn is_peer_trusted(&self, peer: &NodeId) -> (trusted: bool)
        ensures
            trusted == (self.peer_status().contains_key(peer.0@)
                && self.peer_status()[peer.0@].1),
    {
        match self.position(peer) {
            Some(i) => self.peers.entries[i].trusted,
            None => false,
        }
    }

    /// The remembered peers in increasing identifier order.
    pub fn peers(&self) -> (peers: Vec<PeerMembership>)
        ensures
            peers@ == self.peer_entries(),
            sorted_keys(peers@),
    {
        proof {
            use_type_invariant(&self.peers);
        }
        self.peers.entries.clone()
    }

    /// The identifiers of the trusted peers in increasing order.
    pub fn trusted_peers(&self) -> (ids: Vec<NodeId>)
        ensures
            ids@ == self.peer_entries().filter_map(|peer: PeerMembership| trusted_id(peer)),
    {
        let entries = &self.peers.entries;
        let mut ids: Vec<NodeId> = Vec::new();
        let mut i: usize = 0;
        while i < entries.len()
            invariant
                i <= entries@.len(),
                entries@ == self.peer_entries(),
                ids@ == entries@.take(i as int).filter_map(|peer: PeerMembership| trusted_id(peer)),
            decreases entries@.len() - i,
        {
            proof {
                entries@.lemma_filter_map_take_succ(|peer: PeerMembership| trusted_id(peer), i as int);
            }
            if entries[i].trusted {
                ids.push(entries[i].node_id);
            }
            i += 1;
        }
        assert(entries@.take(entries@.len() as int) =~= entries@);
        ids
    }
}

/// A remembered network under the identifier it was remembered by.
impl Keyed for (NetworkId, NetworkMembership) {
    open spec fn key(&self) -> Seq<u8> {
        self.0.0@
    }

    proof fn lemma_key_len(&self) {
    }

    fn key_bytes(&self) -> (key: [u8; 16]) {
        self.0.0
    }
}

/// Identifiers paired position by position with memberships.
pub open spec fn zip_entries(ids: Seq<NetworkId>, memberships: Seq<NetworkMembership>) -> Seq<
    (NetworkId, NetworkMembership),
> {
    Seq::new(ids.len(), |i: int| (ids[i], memberships[i]))
}

proof fn lemma_zip_sorted(ids: Seq<NetworkId>, memberships: Seq<NetworkMembership>)
    requires
        ids.len() == memberships.len(),
    ensures
        sorted_keys(zip_entries(ids, memberships)) == sorted_keys(ids),
{
    let z = zip_entries(ids, memberships);
    if sorted_keys(ids) {
        assert forall|i: int, j: int| 0 <= i < j < z.len() implies lex_lt(
            #[trigger] z[i].key(),
            #[trigger] z[j].key(),
        ) by {
            assert(ids[i].key() == z[i].key() && ids[j].key() == z[j].key());
        }
    }
    if sorted_keys(z) {
        assert forall|i: int, j: int| 0 <= i < j < ids.len() implies lex_lt(
            #[trigger] ids[i].key(),
            #[trigger] ids[j].key(),
        ) by {
            assert(ids[i].key() == z[i].key() && ids[j].key() == z[j].key());
        }
    }
}

/// Where an identifier would go among sorted identifiers, it would go among their pairs too.
proof fn lemma_zip_insertion_point(
    ids: Seq<NetworkId>,
    memberships: Seq<NetworkMembership>,
    key: Seq<u8>,
    p: int,
)
    requires
        ids.len() == memberships.len(),
        insertion_point(ids, key, p),
    ensures
        insertion_point(zip_entries(ids, memberships), key, p),
{
    let z = zip_entries(ids, memberships);
    assert forall|i: int| 0 <= i < p implies lex_lt(#[trigger] z[i].key(), key) by {
        assert(ids[i].key() == z[i].key());
    }
    assert forall|i: int| p <= i < z.len() implies lex_lt(key, #[trigger] z[i].key()) by {
        assert(ids[i].key() == z[i].key());
    }
}

/// Deterministic collection of remembered networks, in increasing identifier order.
#[derive(Debug)]
pub struct MembershipRegistry {
    ids: Vec<NetworkId>,
    memberships: Vec<NetworkMembership>,
}

impl MembershipRegistry {
    #[verifier::type_invariant]
    closed spec fn sorted(&self) -> bool {
        &&& self.ids@.len() == self.memberships@.len()
        &&& sorted_keys(self.ids@)
    }

    /// The remembered networks with the identifiers they are kept under, in increasing order.
    pub closed spec fn network_entries(&self) -> Seq<(NetworkId, NetworkMembership)> {
        zip_entries(self.ids@, self.memberships@)
    }

    /// Each remembered network's identifier bytes mapped to its membership.
    pub open spec fn network_map(&self) -> Map<Seq<u8>, NetworkMembership> {
        table_view(self.network_entries()).map_values(
            |entry: (NetworkId, NetworkMembership)| entry.1,
        )
    }

    pub fn new() -> (registry: Self)
        ensures
            registry.network_entries() == Seq::<(NetworkId, NetworkMembership)>::empty(),
            registry.network_map() == Map::<Seq<u8>, NetworkMembership>::empty(),
    {
        let registry = MembershipRegistry { ids: Vec::new(), memberships: Vec::new() };
        assert(registry.network_entries() =~= Seq::<(NetworkId, NetworkMembership)>::empty());
        assert(registry.network_map() =~= Map::<Seq<u8>, NetworkMembership>::empty());
        registry
    }

    /// Moves the entries out, leaving an empty registry behind.
    fn take_entries(&mut self) -> (entries: (Vec<NetworkId>, Vec<NetworkMembership>))
        ensures
            zip_entries(entries.0@, entries.1@) == old(self).network_entries(),
            entries.0@.len() == entries.1@.len(),
            sorted_keys(entries.0@),
            sorted_keys(zip_entries(entries.0@, entries.1@)),
    {
        let mut empty = MembershipRegistry { ids: Vec::new(), memberships: Vec::new() };
        std::mem::swap(self, &mut empty);
        proof {
            use_type_invariant(&empty);
            lemma_zip_sorted(empty.ids@, empty.memberships@);
        }
        let MembershipRegistry { ids, memberships } = empty;
        (ids, memberships)
    }

    /// Remembers `membership` under its network identifier, returning what it replaced.
    pub fn remember_network(&mut self, membership: NetworkMembership) -> (previous: Option<
        NetworkMembership,
    >)
        ensures
            previous == (if old(self).network_map().contains_key(
                membership.spec_network_id().0@,
            ) {
                Some(old(self).network_map()[membership.spec_network_id().0@])
            } else {
                None
            }),
            final(self).network_map() == old(self).network_map().insert(
                membership.spec_network_id().0@,
                membership,
            ),
    {
        let key = membership.network_id;
        let ghost entry = (key, membership);
        let ghost remembered = membership;
        let (mut ids, mut memberships) = self.take_entries();
        let ghost before = zip_entries(ids@, memberships@);
        let previous = match find_key(&ids, &key.0) {
            Ok(i) => {
                let ghost kept = (ids@[i as int], remembered);
                proof {
                    assert(before[i as int].key() == key.0@);
                    lemma_sorted_index_unique(before, i as int);
                    lemma_table_update(before, i as int, kept);
                }
                let mut replaced = membership;
                std::mem::swap(&mut memberships[i], &mut replaced);
                assert(zip_entries(ids@, memberships@) =~= before.update(i as int, kept));
                Some(replaced)
            },
            Err(p) => {
                proof {
                    lemma_zip_insertion_point(ids@, memberships@, key.0@, p as int);
                    lemma_table_insert(before, p as int, entry);
                }
                ids.insert(p, key);
                memberships.insert(p, membership);
                assert(zip_entries(ids@, memberships@) =~= before.insert(p as int, entry));
                None
            },
        };
        proof {
            lemma_zip_sorted(ids@, memberships@);
        }
        *self = MembershipRegistry { ids, memberships };
        assert(final(self).network_map() =~= old(self).network_map().insert(
            remembered.spec_network_id().0@,
            remembered,
        ));
        previous
    }

    /// The position of `network_id` among the remembered networks.
    fn position(&self, network_id: &NetworkId) -> (found: Option<usize>)
        ensures
            match found {
                Some(i) => i < self.network_entries().len() && self.network_map().contains_key(
                    network_id.0@,
                ) && self.network_map()[network_id.0@] == self.network_entries()[i as int].1
                    && self.network_entries()[i as int].0 == *network_id,
                None => !self.network_map().contains_key(network_id.0@),
            },
    {
        proof {
            use_type_invariant(self);
            lemma_zip_sorted(self.ids@, self.memberships@);
        }
        let ghost z = self.network_entries();
        match find_key(&self.ids, &network_id.0) {
            Ok(i) => {
                proof {
                    assert(z[i as int].key() == network_id.0@);
                    lemma_sorted_index_unique(z, i as int);
                    assert(self.ids@[i as int].0 =~= network_id.0);
                }
                Some(i)
            },
            Err(p) => {
                proof {
                    lemma_zip_insertion_point(self.ids@, self.memberships@, network_id.0@, p as int);
                    lemma_insertion_point_absent(z, network_id.0@, p as int);
                }
                None
            },
        }
    }

    pub fn network(&self, network_id: &NetworkId) -> (found: Option<&NetworkMembership>)
        ensures
            found == (if self.network_map().contains_key(network_id.0@) {
                Some(&self.network_map()[network_id.0@])
            } else {
                None
            }),
    {
        proof {
            use_type_invariant(self);
        }
        match self.position(network_id) {
            Some(i) => Some(&self.memberships[i]),
            None => None,
        }
    }

    /// Gives mutable access to a remembered network's membership.
    pub fn network_mut(&mut self, network_id: &NetworkId) -> (found: Option<&mut NetworkMembership>)
        ensures
            match found {
                Some(membership) => old(self).network_map().contains_key(network_id.0@)
                    && *membership == old(self).network_map()[network_id.0@]
                    && final(self).network_map() == old(self).network_map().insert(
                    network_id.0@,
                    *final(membership),
                ),
                None => !old(self).network_map().contains_key(network_id.0@)
                    && final(self).network_map() == old(self).network_map(),
            },
    {
        match self.position(network_id) {
            Some(i) => {
                proof {
                    use_type_invariant(&*self);
                    lemma_zip_sorted(self.ids@, self.memberships@);
                }
                let ghost z = self.network_entries();
                let membership = &mut self.memberships[i];
                proof {
                    let entry = (z[i as int].0, *final(membership));
                    lemma_table_update(z, i as int, entry);
                    assert(zip_entries(self.ids@, after_borrow(self.memberships)@) =~= z.update(i as int, entry));
                }
                Some(membership)
            },
            None => None,
        }
    }

    /// Removes the network, returning its membership when it was remembered.
    pub fn forget_network(&mut self, network_id: &NetworkId) -> (removed: Option<
        NetworkMembership,
    >)
        ensures
            removed == (if old(self).network_map().contains_key(network_id.0@) {
                Some(old(self).network_map()[network_id.0@])
            } else {
                None
            }),
            final(self).network_map() == old(self).network_map().remove(network_id.0@),
    {
        match self.position(network_id) {
            Some(i) => {
                let (mut ids, mut memberships) = self.take_entries();
                let ghost before = zip_entries(ids@, memberships@);
                proof {
                    lemma_table_remove(before, i as int);
                }
                ids.remove(i);
                let membership = memberships.remove(i);
                assert(zip_entries(ids@, memberships@) =~= before.remove(i as int));
                proof {
                    lemma_zip_sorted(ids@, memberships@);
                }
                *self = MembershipRegistry { ids, memberships };
                assert(final(self).network_map() =~= old(self).network_map().remove(network_id.0@));
                Some(membership)
            },
            None => {
                assert(old(self).network_map().remove(network_id.0@) =~= old(self).network_map());
                None
            },
        }
    }

    /// The remembered networks in increasing identifier order.
    pub fn networks(&self) -> (networks: Vec<&NetworkMembership>)
        ensures
            networks@.len() == self.network_entries().len(),
            forall|i: int| 0 <= i < networks@.len() ==> *networks@[i] == self.network_entries()[i].1,
            sorted_keys(self.network_entries()),
    {
        proof {
            use_type_invariant(self);
            lemma_zip_sorted(self.ids@, self.memberships@);
        }
        let mut networks: Vec<&NetworkMembership> = Vec::new();
        let mut i: usize = 0;
        while i < self.memberships.len()
            invariant
                i <= self.memberships@.len(),
                networks@.len() == i,
                forall|k: int| 0 <= k < i ==> *networks@[k] == self.memberships@[k],
            decreases self.memberships@.len() - i,
        {
            networks.push(&self.memberships[i]);
            i += 1;
        }
        networks
    }

    /// How many networks are remembered; the remembered networks are kept in increasing
    /// identifier order.
    pub fn len(&self) -> (count: usize)
        ensures
            count == self.network_map().len(),
            sorted_keys(self.network_entries()),
    {
        proof {
            use_type_invariant(self);
            lemma_zip_sorted(self.ids@, self.memberships@);
            lemma_table_len(self.network_entries());
            assert(self.network_map().dom() =~= table_view(self.network_entries()).dom());
        }
        self.ids.len()
    }

    pub fn is_empty(&self) -> (empty: bool)
        ensures
            empty == (self.network_map().len() == 0),
    {
        self.len() == 0
    }
}

impl Clone for MembershipRegistry {
    fn clone(&self) -> Self {
        proof {
            use_type_invariant(self);
        }
        MembershipRegistry { ids: self.ids.clone(), memberships: self.memberships.clone() }
    }
}

impl Default for MembershipRegistry {
    fn default() -> (registry: Self)
        ensures
            registry.network_entries() == Seq::<(NetworkId, NetworkMembership)>::empty(),
            registry.network_map() == Map::<Seq<u8>, NetworkMembership>::empty(),
    {
        MembershipRegistry::new()
    }
}

/// The membership life cycle, as a table: a state may stay as it is; a node not a member may
/// start joining; a join may complete or be abandoned; a member may start leaving; a leave
/// may complete or be cancelled. No other step is allowed.
pub proof fn lemma_membership_life_cycle(from: MembershipState, next: MembershipState)
    ensures
        transition_allowed(from, next) == match (from, next) {
            (MembershipState::NotMember, MembershipState::NotMember) => true,
            (MembershipState::NotMember, MembershipState::Joining) => true,
            (MembershipState::NotMember, MembershipState::Member) => false,
            (MembershipState::NotMember, MembershipState::Leaving) => false,
            (MembershipState::Joining, MembershipState::NotMember) => true,
            (MembershipState::Joining, MembershipState::Joining) => true,
            (MembershipState::Joining, MembershipState::Member) => true,
            (MembershipState::Joining, MembershipState::Leaving) => false,
            (MembershipState::Member, MembershipState::NotMember) => false,
            (MembershipState::Member, MembershipState::Joining) => false,
            (MembershipState::Member, MembershipState::Member) => true,
            (MembershipState::Member, MembershipState::Leaving) => true,
            (MembershipState::Leaving, MembershipState::NotMember) => true,
            (MembershipState::Leaving, MembershipState::Joining) => false,
            (MembershipState::Leaving, MembershipState::Member) => true,
            (MembershipState::Leaving, MembershipState::Leaving) => true,
        },
{
}

} // verus!
