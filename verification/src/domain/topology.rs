use vstd::prelude::*;

use crate::domain::capability::NodeCapabilities;
use crate::domain::error::{CoreError, ErrorKind};
use crate::domain::id::{bytes_equal, bytes_less, lemma_lex_lt_asymmetric, lemma_lex_lt_total, lemma_lex_lt_transitive, lex_lt, LinkId, NodeId, SegmentId};
use crate::domain::walks::{
    adjacent, count_filled, endpoints_present, far_key, lemma_count_filled_bound,
    lemma_count_filled_grows, lemma_count_filled_missing, lemma_reach_fixpoint, lemma_reach_monotone, lemma_reach_step,
    least_distance, reach_within, walk_before, walk_between, is_walk, lemma_least_unique,
    lemma_reach_first_step, lemma_shortest_walk_distances, lemma_walk_reaches, node_keys,
};
use crate::domain::table::{
    find_key, key_index, lemma_sorted_index_unique, lemma_filter_entry, lemma_filter_sorted, lemma_filter_take_step,
    lemma_same_keys_sorted, lemma_table_equal_entries, lemma_table_update,
    sorted_keys, table_put, table_take, table_view, Keyed,
};

verus! {

#[derive(Clone, Copy, Debug, PartialEq, Eq, Structural)]
pub enum LinkState {
    Planned,
    Connecting,
    Active,
    Disconnected,
    Failed,
}

#[derive(Clone, Copy, Debug, PartialEq, Eq, Structural)]
pub enum LinkHealth {
    Unknown,
    Healthy,
    Degraded,
    Failed,
}

/// How a node can be reached from the local node.
#[derive(Clone, Copy, Debug, PartialEq, Eq, Structural)]
pub enum Reachability {
    Unreachable,
    DirectLink,
    Routed,
}

/// One BNEP/PAN relationship, with the NAP and PANU roles explicit.
#[derive(Clone, Copy, Debug, PartialEq, Eq)]
pub struct PanLink {
    pub id: LinkId,
    pub segment_id: SegmentId,
    pub nap: NodeId,
    pub panu: NodeId,
    pub state: LinkState,
    pub health: LinkHealth,
    pub cost: u32,
}

/// An active link that has not failed can carry traffic.
pub open spec fn forwarding(link: PanLink) -> bool {
    link.state == LinkState::Active && link.health != LinkHealth::Failed
}

/// The endpoint across `link` from the node with identifier bytes `node`.
pub open spec fn far_end(link: PanLink, node: Seq<u8>) -> Option<NodeId> {
    if node == link.nap.0@ {
        Some(link.panu)
    } else if node == link.panu.0@ {
        Some(link.nap)
    } else {
        None
    }
}

/// The link has the node with identifier bytes `node` at one of its ends.
pub open spec fn incident(link: PanLink, node: Seq<u8>) -> bool {
    link.nap.0@ == node || link.panu.0@ == node
}

impl PanLink {
    pub fn is_forwarding_candidate(&self) -> (candidate: bool)
        ensures
            candidate == forwarding(*self),
    {
        self.state == LinkState::Active && self.health != LinkHealth::Failed
    }

    pub fn other_endpoint(&self, node: NodeId) -> (other: Option<NodeId>)
        ensures
            other == far_end(*self, node.0@),
    {
        if bytes_equal(&node.0, &self.nap.0) {
            Some(self.panu)
        } else if bytes_equal(&node.0, &self.panu.0) {
            Some(self.nap)
        } else {
            None
        }
    }
}

impl Keyed for PanLink {
    open spec fn key(&self) -> Seq<u8> {
        self.id.0@
    }

    proof fn lemma_key_len(&self) {
    }

    fn key_bytes(&self) -> (key: [u8; 16]) {
        self.id.0
    }
}

/// Node identifiers kept in strictly increasing order.
#[derive(Debug)]
struct MemberSet {
    ids: Vec<NodeId>,
}

impl MemberSet {
    #[verifier::type_invariant]
    closed spec fn sorted(&self) -> bool {
        sorted_keys(self.ids@)
    }

    fn take(&mut self) -> (ids: Vec<NodeId>)
        ensures
            ids@ == old(self).ids@,
            sorted_keys(ids@),
    {
        let mut empty = MemberSet { ids: Vec::new() };
        std::mem::swap(self, &mut empty);
        proof {
            use_type_invariant(&empty);
        }
        let MemberSet { ids } = empty;
        ids
    }
}

impl Clone for MemberSet {
    fn clone(&self) -> Self {
        proof {
            use_type_invariant(self);
        }
        MemberSet { ids: self.ids.clone() }
    }
}

/// One NAP-centred PAN segment and the nodes attached to it.
#[derive(Clone, Debug)]
pub struct PanSegment {
    pub id: SegmentId,
    pub nap: NodeId,
    members: MemberSet,
}

impl PanSegment {
    pub closed spec fn spec_id(&self) -> SegmentId {
        self.id
    }

    pub closed spec fn spec_nap(&self) -> NodeId {
        self.nap
    }

    /// The members in increasing identifier order.
    pub closed spec fn spec_members(&self) -> Seq<NodeId> {
        self.members.ids@
    }

    /// The identifier bytes of the members.
    pub open spec fn member_keys(&self) -> Set<Seq<u8>> {
        table_view(self.spec_members()).dom()
    }

    /// A segment whose only member is its NAP.
    pub fn new(id: SegmentId, nap: NodeId) -> (segment: Self)
        ensures
            segment.spec_id() == id,
            segment.spec_nap() == nap,
            segment.spec_members() == seq![nap],
            segment.member_keys() == set![nap.0@],
    {
        let mut ids: Vec<NodeId> = Vec::new();
        ids.push(nap);
        let segment = PanSegment { id, nap, members: MemberSet { ids } };
        proof {
            lemma_sorted_index_unique(segment.spec_members(), 0);
            assert(segment.member_keys() =~= set![nap.0@]);
        }
        segment
    }

    /// Adds `node` as a member; returns whether it was not a member before.
    pub fn add_member(&mut self, node: NodeId) -> (inserted: bool)
        ensures
            final(self).spec_id() == old(self).spec_id(),
            final(self).spec_nap() == old(self).spec_nap(),
            inserted == !old(self).member_keys().contains(node.0@),
            final(self).member_keys() == old(self).member_keys().insert(node.0@),
    {
        let mut ids = self.members.take();
        let previous = table_put(&mut ids, node);
        self.members = MemberSet { ids };
        proof {
            assert(final(self).member_keys() =~= old(self).member_keys().insert(node.0@));
        }
        previous.is_none()
    }

    /// Removes `node` from the members; returns whether it was a member.
    fn remove_member(&mut self, node: &NodeId) -> (removed: bool)
        ensures
            final(self).spec_id() == old(self).spec_id(),
            final(self).spec_nap() == old(self).spec_nap(),
            removed == old(self).member_keys().contains(node.0@),
            final(self).member_keys() == old(self).member_keys().remove(node.0@),
    {
        let mut ids = self.members.take();
        let taken = table_take(&mut ids, &node.0);
        self.members = MemberSet { ids };
        proof {
            assert(final(self).member_keys() =~= old(self).member_keys().remove(node.0@));
        }
        taken.is_some()
    }

    /// The members in increasing identifier order.
    pub fn members(&self) -> (members: &[NodeId])
        ensures
            members@ == self.spec_members(),
            sorted_keys(members@),
    {
        proof {
            use_type_invariant(&self.members);
        }
        self.members.ids.as_slice()
    }
}

impl Keyed for PanSegment {
    open spec fn key(&self) -> Seq<u8> {
        self.spec_id().0@
    }

    proof fn lemma_key_len(&self) {
    }

    fn key_bytes(&self) -> (key: [u8; 16]) {
        self.id.0
    }
}

impl Keyed for (NodeId, NodeCapabilities) {
    open spec fn key(&self) -> Seq<u8> {
        self.0.0@
    }

    proof fn lemma_key_len(&self) {
    }

    fn key_bytes(&self) -> (key: [u8; 16]) {
        self.0.0
    }
}

/// The three tables are sorted by identifier, every link joins two different known nodes,
/// and every segment's NAP is a known node.
pub open spec fn graph_parts_wf(
    nodes: Seq<(NodeId, NodeCapabilities)>,
    links: Seq<PanLink>,
    segments: Seq<PanSegment>,
) -> bool {
    &&& sorted_keys(nodes)
    &&& sorted_keys(links)
    &&& sorted_keys(segments)
    &&& forall|i: int|
        0 <= i < links.len() ==> {
            &&& (#[trigger] links[i]).nap.0@ != links[i].panu.0@
            &&& table_view(nodes).contains_key(links[i].nap.0@)
            &&& table_view(nodes).contains_key(links[i].panu.0@)
        }
    &&& forall|i: int|
        0 <= i < segments.len() ==> table_view(nodes).contains_key(
            (#[trigger] segments[i]).spec_nap().0@,
        )
}

/// The segment `after` is `before` with the member set changed to `members`.
pub open spec fn segment_with_members(
    before: PanSegment,
    after: PanSegment,
    members: Set<Seq<u8>>,
) -> bool {
    &&& after.spec_id() == before.spec_id()
    &&& after.spec_nap() == before.spec_nap()
    &&& after.member_keys() == members
}

/// Keeps the links that do not end at the node with identifier bytes `node`.
pub open spec fn away_from(node: Seq<u8>) -> spec_fn(PanLink) -> bool {
    |link: PanLink| !incident(link, node)
}

/// Keeps the segments whose NAP is not the node with identifier bytes `node`.
pub open spec fn not_hosted_by(node: Seq<u8>) -> spec_fn(PanSegment) -> bool {
    |segment: PanSegment| segment.spec_nap().0@ != node
}

/// Some link attaches the PANU of `link` to the segment of `link`.
pub open spec fn attached(links: Seq<PanLink>, link: PanLink) -> bool {
    exists|j: int|
        0 <= j < links.len() && (#[trigger] links[j]).segment_id.0@ == link.segment_id.0@
            && links[j].panu.0@ == link.panu.0@
}

fn attached_in(links: &Vec<PanLink>, link: &PanLink) -> (found: bool)
    ensures
        found == attached(links@, *link),
{
    let mut j: usize = 0;
    while j < links.len()
        invariant
            j <= links@.len(),
            forall|m: int|
                0 <= m < j ==> !((#[trigger] links@[m]).segment_id.0@ == link.segment_id.0@
                    && links@[m].panu.0@ == link.panu.0@),
        decreases links@.len() - j,
    {
        if bytes_equal(&links[j].segment_id.0, &link.segment_id.0) && bytes_equal(
            &links[j].panu.0,
            &link.panu.0,
        ) {
            return true;
        }
        j += 1;
    }
    false
}

/// The nodes, PAN links and segments that make up a BlueRoute topology.
#[derive(Debug)]
pub struct TopologyGraph {
    nodes: Vec<(NodeId, NodeCapabilities)>,
    links: Vec<PanLink>,
    segments: Vec<PanSegment>,
}

impl TopologyGraph {
    #[verifier::type_invariant]
    closed spec fn well_formed(&self) -> bool {
        graph_parts_wf(self.nodes@, self.links@, self.segments@)
    }

    /// The nodes with their capabilities, in increasing identifier order.
    pub closed spec fn node_entries(&self) -> Seq<(NodeId, NodeCapabilities)> {
        self.nodes@
    }

    /// The links in increasing identifier order.
    pub closed spec fn link_entries(&self) -> Seq<PanLink> {
        self.links@
    }

    /// The segments in increasing identifier order.
    pub closed spec fn segment_entries(&self) -> Seq<PanSegment> {
        self.segments@
    }

    /// Node identifier bytes mapped to the node's capabilities.
    pub open spec fn node_map(&self) -> Map<Seq<u8>, NodeCapabilities> {
        table_view(self.node_entries()).map_values(|entry: (NodeId, NodeCapabilities)| entry.1)
    }

    /// Link identifier bytes mapped to the link.
    pub open spec fn link_map(&self) -> Map<Seq<u8>, PanLink> {
        table_view(self.link_entries())
    }

    /// Segment identifier bytes mapped to the segment.
    pub open spec fn segment_map(&self) -> Map<Seq<u8>, PanSegment> {
        table_view(self.segment_entries())
    }

    /// Every link joins two different nodes of the graph.
    pub open spec fn links_join_known_nodes(&self) -> bool {
        forall|i: int|
            0 <= i < self.link_entries().len() ==> {
                &&& (#[trigger] self.link_entries()[i]).nap.0@ != self.link_entries()[i].panu.0@
                &&& self.node_map().contains_key(self.link_entries()[i].nap.0@)
                &&& self.node_map().contains_key(self.link_entries()[i].panu.0@)
            }
    }

    pub open spec fn unchanged_links(a: &Self, b: &Self) -> bool {
        a.link_entries() == b.link_entries()
    }

    pub open spec fn unchanged_segments(a: &Self, b: &Self) -> bool {
        a.segment_entries() == b.segment_entries()
    }

    pub open spec fn unchanged_nodes(a: &Self, b: &Self) -> bool {
        a.node_entries() == b.node_entries()
    }

    /// The graph's own invariant, as facts about its views.
    fn well_formed_facts(&self)
        ensures
            sorted_keys(self.node_entries()),
            sorted_keys(self.link_entries()),
            sorted_keys(self.segment_entries()),
            self.links_join_known_nodes(),
    {
        proof {
            use_type_invariant(self);
        }
        let ghost nodes = self.node_entries();
        assert forall|i: int| 0 <= i < self.link_entries().len() implies {
            &&& (#[trigger] self.link_entries()[i]).nap.0@ != self.link_entries()[i].panu.0@
            &&& self.node_map().contains_key(self.link_entries()[i].nap.0@)
            &&& self.node_map().contains_key(self.link_entries()[i].panu.0@)
        } by {
            assert(table_view(nodes).contains_key(self.links@[i].nap.0@));
        }
    }

    /// An empty graph.
    pub fn new() -> (graph: Self)
        ensures
            graph.node_entries().len() == 0,
            graph.link_entries().len() == 0,
            graph.segment_entries().len() == 0,
    {
        TopologyGraph { nodes: Vec::new(), links: Vec::new(), segments: Vec::new() }
    }

    /// Moves the tables out, leaving an empty graph behind.
    fn take_parts(&mut self) -> (parts: (
        Vec<(NodeId, NodeCapabilities)>,
        Vec<PanLink>,
        Vec<PanSegment>,
    ))
        ensures
            parts.0@ == old(self).node_entries(),
            parts.1@ == old(self).link_entries(),
            parts.2@ == old(self).segment_entries(),
            graph_parts_wf(parts.0@, parts.1@, parts.2@),
    {
        let mut empty = TopologyGraph::new();
        std::mem::swap(self, &mut empty);
        proof {
            use_type_invariant(&empty);
        }
        let TopologyGraph { nodes, links, segments } = empty;
        (nodes, links, segments)
    }

    /// Adds a node or replaces its capabilities; returns whether it was new.
    pub fn add_node(&mut self, id: NodeId, capabilities: NodeCapabilities) -> (added: bool)
        ensures
            added == !old(self).node_map().contains_key(id.0@),
            final(self).node_map() == old(self).node_map().insert(id.0@, capabilities),
            Self::unchanged_links(&*final(self), &*old(self)),
            Self::unchanged_segments(&*final(self), &*old(self)),
    {
        let ghost caps = capabilities;
        let (mut nodes, links, segments) = self.take_parts();
        let ghost before = nodes@;
        let previous = table_put(&mut nodes, (id, capabilities));
        proof {
            assert forall|k: Seq<u8>| table_view(before).contains_key(k) implies table_view(
                nodes@,
            ).contains_key(k) by {}
        }
        *self = TopologyGraph { nodes, links, segments };
        assert(final(self).node_map() =~= old(self).node_map().insert(id.0@, caps));
        previous.is_none()
    }

    pub fn node(&self, id: &NodeId) -> (found: Option<&NodeCapabilities>)
        ensures
            found == (if self.node_map().contains_key(id.0@) {
                Some(&self.node_map()[id.0@])
            } else {
                None
            }),
    {
        proof {
            use_type_invariant(self);
        }
        match find_key(&self.nodes, &id.0) {
            Ok(i) => {
                proof {
                    lemma_sorted_index_unique(self.nodes@, i as int);
                }
                Some(&self.nodes[i].1)
            },
            Err(_) => None,
        }
    }

    fn has_node(&self, id: &NodeId) -> (present: bool)
        ensures
            present == self.node_map().contains_key(id.0@),
    {
        proof {
            use_type_invariant(self);
        }
        find_key(&self.nodes, &id.0).is_ok()
    }

    /// Adds or replaces a segment; refused when its NAP is not a node of the graph.
    pub fn add_segment(&mut self, segment: PanSegment) -> (result: Result<bool, CoreError>)
        ensures
            result is Ok <==> old(self).node_map().contains_key(segment.spec_nap().0@),
            Self::unchanged_nodes(&*final(self), &*old(self)),
            Self::unchanged_links(&*final(self), &*old(self)),
            match result {
                Ok(added) => added == !old(self).segment_map().contains_key(segment.spec_id().0@)
                    && final(self).segment_map() == old(self).segment_map().insert(
                    segment.spec_id().0@,
                    segment,
                ),
                Err(error) => error.spec_kind() == ErrorKind::TopologyFailure
                    && error.spec_message() == "PAN segment NAP is not present in the topology"@
                    && Self::unchanged_segments(&*final(self), &*old(self)),
            },
    {
        if !self.has_node(&segment.nap) {
            return Err(
                CoreError::new(
                    ErrorKind::TopologyFailure,
                    "PAN segment NAP is not present in the topology",
                ),
            );
        }
        let ghost added = segment;
        let (nodes, links, mut segments) = self.take_parts();
        let ghost before = segments@;
        let previous = table_put(&mut segments, segment);
        proof {
            assert forall|i: int| 0 <= i < segments@.len() implies table_view(nodes@).contains_key(
                (#[trigger] segments@[i]).spec_nap().0@,
            ) by {
                lemma_sorted_index_unique(segments@, i);
                let k = segments@[i].key();
                if k != added.key() {
                    let j = key_index(before, k);
                    assert(before[j] == segments@[i]);
                }
            }
        }
        *self = TopologyGraph { nodes, links, segments };
        Ok(previous.is_none())
    }

    /// A link can be added: its ends differ and are nodes, and its segment has its NAP.
    pub open spec fn link_fits(&self, link: PanLink) -> bool {
        &&& link.nap.0@ != link.panu.0@
        &&& self.node_map().contains_key(link.nap.0@)
        &&& self.node_map().contains_key(link.panu.0@)
        &&& self.segment_map().contains_key(link.segment_id.0@)
        &&& self.segment_map()[link.segment_id.0@].spec_nap().0@ == link.nap.0@
    }

    /// Why a link that does not fit is refused.
    pub open spec fn link_refusal(&self, link: PanLink) -> Seq<char> {
        if link.nap.0@ == link.panu.0@ {
            "PAN link endpoints must be different nodes"@
        } else if !self.node_map().contains_key(link.nap.0@) || !self.node_map().contains_key(
            link.panu.0@,
        ) {
            "PAN link endpoint is not present in the topology"@
        } else if !self.segment_map().contains_key(link.segment_id.0@) {
            "PAN link references an unknown segment"@
        } else {
            "PAN link NAP does not match the segment NAP"@
        }
    }

    /// Adds or replaces a link and records its PANU as a member of the link's segment.
    pub fn add_link(&mut self, link: PanLink) -> (result: Result<bool, CoreError>)
        ensures
            result is Ok <==> old(self).link_fits(link),
            Self::unchanged_nodes(&*final(self), &*old(self)),
            match result {
                Ok(added) => {
                    &&& added == !old(self).link_map().contains_key(link.id.0@)
                    &&& final(self).link_map() == old(self).link_map().insert(link.id.0@, link)
                    &&& final(self).segment_map() == old(self).segment_map().insert(
                        link.segment_id.0@,
                        final(self).segment_map()[link.segment_id.0@],
                    )
                    &&& segment_with_members(
                        old(self).segment_map()[link.segment_id.0@],
                        final(self).segment_map()[link.segment_id.0@],
                        old(self).segment_map()[link.segment_id.0@].member_keys().insert(
                            link.panu.0@,
                        ),
                    )
                },
                Err(error) => {
                    &&& error.spec_kind() == ErrorKind::TopologyFailure
                    &&& error.spec_message() == old(self).link_refusal(link)
                    &&& Self::unchanged_links(&*final(self), &*old(self))
                    &&& Self::unchanged_segments(&*final(self), &*old(self))
                },
            },
    {
        if bytes_equal(&link.nap.0, &link.panu.0) {
            return Err(
                CoreError::new(
                    ErrorKind::TopologyFailure,
                    "PAN link endpoints must be different nodes",
                ),
            );
        }
        if !self.has_node(&link.nap) || !self.has_node(&link.panu) {
            return Err(
                CoreError::new(
                    ErrorKind::TopologyFailure,
                    "PAN link endpoint is not present in the topology",
                ),
            );
        }
        proof {
            use_type_invariant(&*self);
        }
        let i = match find_key(&self.segments, &link.segment_id.0) {
            Ok(i) => i,
            Err(_) => {
                return Err(
                    CoreError::new(
                        ErrorKind::TopologyFailure,
                        "PAN link references an unknown segment",
                    ),
                );
            },
        };
        proof {
            lemma_sorted_index_unique(self.segments@, i as int);
        }
        if !bytes_equal(&self.segments[i].nap.0, &link.nap.0) {
            return Err(
                CoreError::new(
                    ErrorKind::TopologyFailure,
                    "PAN link NAP does not match the segment NAP",
                ),
            );
        }
        let ghost added = link;
        let (nodes, mut links, mut segments) = self.take_parts();
        let ghost links_before = links@;
        let ghost segments_before = segments@;
        segments[i].add_member(link.panu);
        let previous = table_put(&mut links, link);
        proof {
            let updated = segments@[i as int];
            assert(segments@ == segments_before.update(i as int, updated));
            lemma_table_update(segments_before, i as int, updated);
            assert forall|j: int| 0 <= j < segments@.len() implies table_view(nodes@).contains_key(
                (#[trigger] segments@[j]).spec_nap().0@,
            ) by {
                assert(segments@[j].spec_nap() == segments_before[j].spec_nap());
            }
            assert forall|j: int| 0 <= j < links@.len() implies {
                &&& (#[trigger] links@[j]).nap.0@ != links@[j].panu.0@
                &&& table_view(nodes@).contains_key(links@[j].nap.0@)
                &&& table_view(nodes@).contains_key(links@[j].panu.0@)
            } by {
                lemma_sorted_index_unique(links@, j);
                let k = links@[j].key();
                if k != added.key() {
                    let m = key_index(links_before, k);
                    assert(links_before[m] == links@[j]);
                }
            }
        }
        *self = TopologyGraph { nodes, links, segments };
        Ok(previous.is_none())
    }

    /// Removes a link; when no remaining link attaches its PANU to its segment, the PANU
    /// leaves that segment's members.
    pub fn remove_link(&mut self, id: &LinkId) -> (removed: Option<PanLink>)
        ensures
            removed == (if old(self).link_map().contains_key(id.0@) {
                Some(old(self).link_map()[id.0@])
            } else {
                None
            }),
            final(self).link_map() == old(self).link_map().remove(id.0@),
            Self::unchanged_nodes(&*final(self), &*old(self)),
            match removed {
                Some(link) => if old(self).segment_map().contains_key(link.segment_id.0@)
                    && !attached(final(self).link_entries(), link) {
                    &&& final(self).segment_map() == old(self).segment_map().insert(
                        link.segment_id.0@,
                        final(self).segment_map()[link.segment_id.0@],
                    )
                    &&& segment_with_members(
                        old(self).segment_map()[link.segment_id.0@],
                        final(self).segment_map()[link.segment_id.0@],
                        old(self).segment_map()[link.segment_id.0@].member_keys().remove(
                            link.panu.0@,
                        ),
                    )
                } else {
                    Self::unchanged_segments(&*final(self), &*old(self))
                },
                None => Self::unchanged_links(&*final(self), &*old(self))
                    && Self::unchanged_segments(&*final(self), &*old(self)),
            },
    {
        let (nodes, mut links, mut segments) = self.take_parts();
        let ghost links_before = links@;
        let ghost segments_before = segments@;
        let removed = table_take(&mut links, &id.0);
        proof {
            assert forall|j: int| 0 <= j < links@.len() implies {
                &&& (#[trigger] links@[j]).nap.0@ != links@[j].panu.0@
                &&& table_view(nodes@).contains_key(links@[j].nap.0@)
                &&& table_view(nodes@).contains_key(links@[j].panu.0@)
            } by {
                lemma_sorted_index_unique(links@, j);
                let m = key_index(links_before, links@[j].key());
                assert(links_before[m] == links@[j]);
            }
        }
        match removed {
            None => {
                proof {
                    assert(links@ =~= links_before) by {
                        assert(table_view(links@) == table_view(links_before));
                        lemma_table_equal_entries(links@, links_before);
                    }
                }
                *self = TopologyGraph { nodes, links, segments };
                None
            },
            Some(link) => {
                if let Ok(i) = find_key(&segments, &link.segment_id.0) {
                    proof {
                        lemma_sorted_index_unique(segments@, i as int);
                    }
                    if !attached_in(&links, &link) {
                        segments[i].remove_member(&link.panu);
                        proof {
                            let updated = segments@[i as int];
                            assert(segments@ == segments_before.update(i as int, updated));
                            lemma_table_update(segments_before, i as int, updated);
                            assert forall|j: int| 0 <= j < segments@.len() implies table_view(
                                nodes@,
                            ).contains_key((#[trigger] segments@[j]).spec_nap().0@) by {
                                assert(segments@[j].spec_nap() == segments_before[j].spec_nap());
                            }
                        }
                    }
                }
                *self = TopologyGraph { nodes, links, segments };
                Some(link)
            },
        }
    }

    /// Removes a node, every link at it, every segment it is the NAP of, and its
    /// membership in the remaining segments; returns its capabilities.
    pub fn remove_node(&mut self, id: NodeId) -> (removed: Option<NodeCapabilities>)
        ensures
            removed == (if old(self).node_map().contains_key(id.0@) {
                Some(old(self).node_map()[id.0@])
            } else {
                None
            }),
            final(self).node_map() == old(self).node_map().remove(id.0@),
            forall|i: int|
                0 <= i < final(self).link_entries().len() ==> !incident(
                    #[trigger] final(self).link_entries()[i],
                    id.0@,
                ),
            match removed {
                Some(_) => {
                    &&& final(self).link_entries() == old(self).link_entries().filter(
                        away_from(id.0@),
                    )
                    &&& final(self).segment_entries().len() == old(
                        self,
                    ).segment_entries().filter(not_hosted_by(id.0@)).len()
                    &&& forall|i: int|
                        0 <= i < final(self).segment_entries().len() ==> segment_with_members(
                            old(self).segment_entries().filter(not_hosted_by(id.0@))[i],
                            #[trigger] final(self).segment_entries()[i],
                            old(self).segment_entries().filter(not_hosted_by(id.0@))[i].member_keys().remove(
                                id.0@,
                            ),
                        )
                },
                None => Self::unchanged_nodes(&*final(self), &*old(self)) && Self::unchanged_links(
                    &*final(self),
                    &*old(self),
                ) && Self::unchanged_segments(&*final(self), &*old(self)),
            },
    {
        proof {
            use_type_invariant(&*self);
        }
        if !self.has_node(&id) {
            proof {
                assert forall|i: int| 0 <= i < self.links@.len() implies !incident(
                    #[trigger] self.links@[i],
                    id.0@,
                ) by {}
            }
            return None;
        }
        let ghost key = id.0@;
        let (mut nodes, links, segments) = self.take_parts();
        let ghost nodes_before = nodes@;
        let taken = table_take(&mut nodes, &id.0);
        let capabilities = match taken {
            Some(entry) => entry.1,
            None => {
                proof {
                    assert(false);
                }
                return None;
            },
        };
        let mut kept_links: Vec<PanLink> = Vec::new();
        let mut i: usize = 0;
        while i < links.len()
            invariant
                i <= links@.len(),
                kept_links@ == links@.take(i as int).filter(away_from(key)),
                key == id.0@,
            decreases links@.len() - i,
        {
            proof {
                lemma_filter_take_step(links@, away_from(key), i as int);
            }
            let link = links[i];
            if !bytes_equal(&link.nap.0, &id.0) && !bytes_equal(&link.panu.0, &id.0) {
                kept_links.push(link);
            }
            i += 1;
        }
        proof {
            assert(links@.take(links@.len() as int) =~= links@);
            lemma_filter_sorted(links@, away_from(key));
            assert forall|j: int| 0 <= j < kept_links@.len() implies {
                &&& (#[trigger] kept_links@[j]).nap.0@ != kept_links@[j].panu.0@
                &&& table_view(nodes@).contains_key(kept_links@[j].nap.0@)
                &&& table_view(nodes@).contains_key(kept_links@[j].panu.0@)
                &&& !incident(kept_links@[j], key)
            } by {
                lemma_filter_entry(links@, away_from(key), j);
            }
        }
        let ghost segments_before = segments@;
        let ghost kept = segments_before.filter(not_hosted_by(key));
        let count = segments.len();
        let mut rest = segments;
        let mut kept_segments: Vec<PanSegment> = Vec::new();
        let mut n: usize = 0;
        while n < count
            invariant
                n <= count == segments_before.len(),
                rest@ == segments_before.skip(n as int),
                kept_segments@.len() == segments_before.take(n as int).filter(
                    not_hosted_by(key),
                ).len(),
                forall|a: int|
                    0 <= a < kept_segments@.len() ==> segment_with_members(
                        segments_before.take(n as int).filter(not_hosted_by(key))[a],
                        #[trigger] kept_segments@[a],
                        segments_before.take(n as int).filter(not_hosted_by(key))[a].member_keys().remove(
                            key,
                        ),
                    ),
                key == id.0@,
            decreases count - n,
        {
            proof {
                lemma_filter_take_step(segments_before, not_hosted_by(key), n as int);
            }
            let mut segment = rest.remove(0);
            assert(segment == segments_before[n as int]);
            if !bytes_equal(&segment.nap.0, &id.0) {
                segment.remove_member(&id);
                kept_segments.push(segment);
            }
            n += 1;
            assert(rest@ =~= segments_before.skip(n as int));
        }
        proof {
            assert(segments_before.take(n as int) =~= segments_before);
            lemma_filter_sorted(segments_before, not_hosted_by(key));
            lemma_same_keys_sorted(kept, kept_segments@);
            assert forall|j: int| 0 <= j < kept_segments@.len() implies table_view(
                nodes@,
            ).contains_key((#[trigger] kept_segments@[j]).spec_nap().0@) by {
                lemma_filter_entry(segments_before, not_hosted_by(key), j);
            }
        }
        *self = TopologyGraph { nodes, links: kept_links, segments: kept_segments };
        proof {
            assert(final(self).node_map() =~= old(self).node_map().remove(key));
        }
        Some(capabilities)
    }

    /// The nodes with their capabilities, in increasing identifier order.
    pub fn nodes(&self) -> (nodes: &[(NodeId, NodeCapabilities)])
        ensures
            nodes@ == self.node_entries(),
            sorted_keys(nodes@),
    {
        proof {
            use_type_invariant(self);
        }
        self.nodes.as_slice()
    }

    /// The links in increasing identifier order.
    pub fn links(&self) -> (links: &[PanLink])
        ensures
            links@ == self.link_entries(),
            sorted_keys(links@),
            self.links_join_known_nodes(),
    {
        self.well_formed_facts();
        self.links.as_slice()
    }

    /// The segments in increasing identifier order.
    pub fn segments(&self) -> (segments: &[PanSegment])
        ensures
            segments@ == self.segment_entries(),
            sorted_keys(segments@),
    {
        proof {
            use_type_invariant(self);
        }
        self.segments.as_slice()
    }
}

impl TopologyGraph {
    /// The identifier bytes of the graph's nodes.
    pub open spec fn present(&self) -> Set<Seq<u8>> {
        self.node_map().dom()
    }

    /// Some walk over forwarding links leads from `a` to `b`.
    pub open spec fn connected(&self, a: Seq<u8>, b: Seq<u8>) -> bool {
        exists|w: Seq<Seq<u8>>| #[trigger] walk_between(self.present(), self.link_entries(), w, a, b)
    }

    /// `path` is a walk from `a` to `b` with the fewest links, and among those the first
    /// when compared node by node.
    pub open spec fn first_fewest_walk(&self, path: Seq<Seq<u8>>, a: Seq<u8>, b: Seq<u8>) -> bool {
        &&& walk_between(self.present(), self.link_entries(), path, a, b)
        &&& forall|w: Seq<Seq<u8>>| #[trigger]
            walk_between(self.present(), self.link_entries(), w, a, b) ==> path.len() <= w.len()
                && (w.len() == path.len() ==> !walk_before(w, path))
    }

    /// Where the node with identifier bytes `id` sits in the node table.
    fn node_position(&self, id: &NodeId) -> (found: Option<usize>)
        ensures
            match found {
                Some(j) => j < self.node_entries().len() && self.node_entries()[j as int].0.0@
                    == id.0@,
                None => !self.present().contains(id.0@),
            },
            found is Some <==> self.present().contains(id.0@),
    {
        proof {
            use_type_invariant(self);
        }
        match find_key(&self.nodes, &id.0) {
            Ok(j) => {
                proof {
                    lemma_sorted_index_unique(self.nodes@, j as int);
                }
                Some(j)
            },
            Err(_) => None,
        }
    }

    /// The nodes one forwarding link away from `node`, in increasing identifier order.
    pub fn direct_neighbors(&self, node: NodeId) -> (neighbors: Vec<NodeId>)
        ensures
            sorted_keys(neighbors@),
            forall|k: Seq<u8>|
                table_view(neighbors@).contains_key(k) <==> adjacent(
                    self.link_entries(),
                    node.0@,
                    k,
                ),
    {
        let mut neighbors: Vec<NodeId> = Vec::new();
        let mut m: usize = 0;
        while m < self.links.len()
            invariant
                m <= self.links@.len(),
                sorted_keys(neighbors@),
                forall|k: Seq<u8>|
                    table_view(neighbors@).contains_key(k) <==> exists|i: int|
                        #![trigger self.links@[i]]
                        0 <= i < m && forwarding(self.links@[i]) && far_key(self.links@[i], node.0@)
                            == Some(k),
            decreases self.links@.len() - m,
        {
            let link = self.links[m];
            if link.is_forwarding_candidate() {
                match link.other_endpoint(node) {
                    Some(other) => {
                        table_put(&mut neighbors, other);
                    },
                    None => {},
                }
            }
            m += 1;
            proof {
                assert forall|k: Seq<u8>|
                    (exists|i: int|
                        #![trigger self.links@[i]]
                        0 <= i < m && forwarding(self.links@[i]) && far_key(self.links@[i], node.0@)
                            == Some(k)) implies table_view(neighbors@).contains_key(k) by {
                    {
                        let i = choose|i: int|
                            #![trigger self.links@[i]]
                            0 <= i < m && forwarding(self.links@[i]) && far_key(
                                self.links@[i],
                                node.0@,
                            ) == Some(k);
                        if i < m - 1 {
                            assert(0 <= i < m - 1 && forwarding(self.links@[i]) && far_key(
                                self.links@[i],
                                node.0@,
                            ) == Some(k));
                        }
                    }
                }
            }
        }
        neighbors
    }

    /// Some forwarding link joins `start` to `end`.
    pub fn is_directly_reachable(&self, start: NodeId, end: NodeId) -> (direct: bool)
        ensures
            direct == adjacent(self.link_entries(), start.0@, end.0@),
    {
        let mut m: usize = 0;
        while m < self.links.len()
            invariant
                m <= self.links@.len(),
                forall|i: int|
                    #![trigger self.links@[i]]
                    0 <= i < m ==> !(forwarding(self.links@[i]) && far_key(self.links@[i], start.0@)
                        == Some(end.0@)),
            decreases self.links@.len() - m,
        {
            let link = self.links[m];
            if link.is_forwarding_candidate() {
                match link.other_endpoint(start) {
                    Some(other) => {
                        if bytes_equal(&other.0, &end.0) {
                            return true;
                        }
                    },
                    None => {},
                }
            }
            m += 1;
        }
        false
    }
}

/// What a table of fewest-links counts towards `end` records, round `k` of filling it in.
pub open spec fn distances_so_far(
    nodes: Seq<(NodeId, NodeCapabilities)>,
    links: Seq<PanLink>,
    end: Seq<u8>,
    dist: Seq<Option<usize>>,
    k: nat,
) -> bool {
    &&& dist.len() == nodes.len()
    &&& forall|j: int|
        0 <= j < dist.len() && (#[trigger] dist[j]) is Some ==> dist[j].unwrap() <= k
            && least_distance(links, nodes[j].0.0@, end, dist[j].unwrap() as nat)
    &&& forall|j: int|
        0 <= j < dist.len() && (#[trigger] dist[j]) is None ==> !reach_within(
            links,
            nodes[j].0.0@,
            end,
            k,
        )
}

/// The finished table: each node's fewest-links count towards `end`, or none when the node
/// never reaches `end`.
pub open spec fn distances_done(
    nodes: Seq<(NodeId, NodeCapabilities)>,
    links: Seq<PanLink>,
    end: Seq<u8>,
    dist: Seq<Option<usize>>,
) -> bool {
    &&& dist.len() == nodes.len()
    &&& forall|j: int|
        0 <= j < dist.len() && (#[trigger] dist[j]) is Some ==> least_distance(
            links,
            nodes[j].0.0@,
            end,
            dist[j].unwrap() as nat,
        )
    &&& forall|j: int, m: nat|
        0 <= j < dist.len() && (#[trigger] dist[j]) is None ==> !#[trigger] reach_within(
            links,
            nodes[j].0.0@,
            end,
            m,
        )
}

impl TopologyGraph {
    /// One round: nodes one link away from a node counted in `dist` get count `k + 1`.
    fn relax(&self, end: &NodeId, dist: &Vec<Option<usize>>, k: usize) -> (result: (
        Vec<Option<usize>>,
        bool,
    ))
        requires
            distances_so_far(self.node_entries(), self.link_entries(), end.0@, dist@, k as nat),
            k <= count_filled(dist@),
        ensures
            distances_so_far(
                self.node_entries(),
                self.link_entries(),
                end.0@,
                result.0@,
                (k + 1) as nat,
            ),
            result.0@.len() == dist@.len(),
            forall|j: int|
                0 <= j < dist@.len() && (#[trigger] dist@[j]) is Some ==> result.0@[j] == dist@[j],
            result.1 ==> exists|j: int|
                0 <= j < dist@.len() && (#[trigger] dist@[j]) is None && result.0@[j] is Some,
            !result.1 ==> result.0@ == dist@,
    {
        proof {
            use_type_invariant(self);
        }
        let ghost nodes = self.nodes@;
        let ghost links = self.links@;
        let ghost e = end.0@;
        let total = dist.len();
        let mut next: Vec<Option<usize>> = dist.clone();
        assert(next@ =~= dist@);
        let mut changed = false;
        let mut m: usize = 0;
        while m < self.links.len()
            invariant
                nodes == self.nodes@,
                links == self.links@,
                e == end.0@,
                graph_parts_wf(self.nodes@, self.links@, self.segments@),
                distances_so_far(nodes, links, e, dist@, k as nat),
                k <= count_filled(dist@),
                total == dist@.len(),
                m <= links.len(),
                next@.len() == dist@.len(),
                forall|j: int|
                    0 <= j < dist@.len() && (#[trigger] dist@[j]) is Some ==> next@[j] == dist@[j],
                forall|j: int|
                    0 <= j < dist@.len() && (#[trigger] dist@[j]) is None && next@[j] is Some
                        ==> next@[j].unwrap() == k + 1 && least_distance(
                        links,
                        nodes[j].0.0@,
                        e,
                        (k + 1) as nat,
                    ),
                forall|j: int, i: int|
                    0 <= j < next@.len() && (#[trigger] next@[j]) is None && 0 <= i < m
                        && forwarding(#[trigger] links[i]) && far_key(links[i], nodes[j].0.0@) is Some
                        ==> !reach_within(
                        links,
                        far_key(links[i], nodes[j].0.0@).unwrap(),
                        e,
                        k as nat,
                    ),
                changed ==> exists|j: int|
                    0 <= j < dist@.len() && (#[trigger] dist@[j]) is None && next@[j] is Some,
                !changed ==> next@ == dist@,
            decreases links.len() - m,
        {
            let link = self.links[m];
            if link.is_forwarding_candidate() {
                let a = self.node_position(&link.nap);
                let b = self.node_position(&link.panu);
                proof {
                    assert(table_view(nodes).contains_key(links[m as int].nap.0@));
                    assert(table_view(nodes).contains_key(links[m as int].panu.0@));
                }
                let (a, b) = match (a, b) {
                    (Some(a), Some(b)) => (a, b),
                    _ => {
                        proof {
                            assert(false);
                        }
                        return (next, changed);
                    },
                };
                proof {
                    assert(far_key(link, nodes[b as int].0.0@) == Some(nodes[a as int].0.0@));
                    assert(far_key(link, nodes[a as int].0.0@) == Some(nodes[b as int].0.0@));
                    assert(adjacent(links, nodes[b as int].0.0@, nodes[a as int].0.0@));
                    assert(adjacent(links, nodes[a as int].0.0@, nodes[b as int].0.0@));
                }
                if dist[a].is_some() && next[b].is_none() {
                    proof {
                        lemma_count_filled_missing(dist@, b as int);
                        let d = dist@[a as int].unwrap() as nat;
                        lemma_reach_monotone(links, nodes[a as int].0.0@, e, d, k as nat);
                        lemma_reach_step(links, nodes[b as int].0.0@, nodes[a as int].0.0@, e, k as nat);
                    }
                    next.set(b, Some(k + 1));
                    changed = true;
                }
                if dist[b].is_some() && next[a].is_none() {
                    proof {
                        lemma_count_filled_missing(dist@, a as int);
                        let d = dist@[b as int].unwrap() as nat;
                        lemma_reach_monotone(links, nodes[b as int].0.0@, e, d, k as nat);
                        lemma_reach_step(links, nodes[a as int].0.0@, nodes[b as int].0.0@, e, k as nat);
                    }
                    next.set(a, Some(k + 1));
                    changed = true;
                }
                proof {
                    assert forall|j: int, i: int|
                        0 <= j < next@.len() && (#[trigger] next@[j]) is None && 0 <= i < m + 1
                            && forwarding(#[trigger] links[i]) && far_key(links[i], nodes[j].0.0@) is Some
                            implies !reach_within(
                            links,
                            far_key(links[i], nodes[j].0.0@).unwrap(),
                            e,
                            k as nat,
                        ) by {
                        if i == m {
                            let kj = nodes[j].0.0@;
                            if kj == link.nap.0@ {
                                lemma_sorted_index_unique(nodes, j);
                                lemma_sorted_index_unique(nodes, a as int);
                            } else {
                                lemma_sorted_index_unique(nodes, j);
                                lemma_sorted_index_unique(nodes, b as int);
                            }
                        }
                    }
                }
            }
            m += 1;
        }
        proof {
            assert forall|j: int|
                0 <= j < next@.len() && (#[trigger] next@[j]) is Some implies next@[j].unwrap() <= k
                    + 1 && least_distance(links, nodes[j].0.0@, e, next@[j].unwrap() as nat) by {
                if dist@[j] is Some {
                    assert(next@[j] == dist@[j]);
                }
            }
            assert forall|j: int|
                0 <= j < next@.len() && (#[trigger] next@[j]) is None implies !reach_within(
                    links,
                    nodes[j].0.0@,
                    e,
                    (k + 1) as nat,
                ) by {
                if reach_within(links, nodes[j].0.0@, e, (k + 1) as nat) {
                    assert(dist@[j] is None);
                    let i = choose|i: int|
                        #![trigger links[i]]
                        0 <= i < links.len() && forwarding(links[i]) && match far_key(
                            links[i],
                            nodes[j].0.0@,
                        ) {
                            Some(u) => reach_within(links, u, e, k as nat),
                            None => false,
                        };
                }
            }
        }
        (next, changed)
    }

    /// Each node's fewest-links count towards `end`.
    fn distances(&self, end: &NodeId) -> (dist: Vec<Option<usize>>)
        ensures
            distances_done(self.node_entries(), self.link_entries(), end.0@, dist@),
    {
        proof {
            use_type_invariant(self);
        }
        let ghost nodes = self.nodes@;
        let ghost links = self.links@;
        let ghost e = end.0@;
        let mut dist: Vec<Option<usize>> = Vec::new();
        let mut j: usize = 0;
        while j < self.nodes.len()
            invariant
                nodes == self.nodes@,
                e == end.0@,
                j <= nodes.len(),
                distances_so_far(nodes.take(j as int), links, e, dist@, 0),
            decreases nodes.len() - j,
        {
            if bytes_equal(&self.nodes[j].0.0, &end.0) {
                dist.push(Some(0));
            } else {
                dist.push(None);
            }
            j += 1;
            assert(forall|i: int| 0 <= i < j - 1 ==> nodes.take(j as int)[i] == nodes.take(j - 1)[i]);
        }
        assert(nodes.take(nodes.len() as int) =~= nodes);
        let count = self.nodes.len();
        let mut k: usize = 0;
        loop
            invariant
                count == nodes.len(),
                nodes == self.nodes@,
                links == self.links@,
                e == end.0@,
                graph_parts_wf(self.nodes@, self.links@, self.segments@),
                distances_so_far(nodes, links, e, dist@, k as nat),
                k <= count_filled(dist@),
            decreases nodes.len() - count_filled(dist@),
        {
            proof {
                lemma_count_filled_bound(dist@);
            }
            let (next, changed) = self.relax(end, &dist, k);
            if !changed {
                proof {
                    let present = table_view(nodes).dom();
                    assert forall|v: Seq<u8>| present.contains(v) implies (reach_within(
                        links,
                        v,
                        e,
                        (k + 1) as nat,
                    ) == reach_within(links, v, e, k as nat)) by {
                        let jv = key_index(nodes, v);
                        assert(nodes[jv].0.0@ == v);
                        if reach_within(links, v, e, k as nat) {
                            lemma_reach_monotone(links, v, e, k as nat, (k + 1) as nat);
                        }
                        if dist@[jv] is Some {
                            lemma_reach_monotone(
                                links,
                                v,
                                e,
                                dist@[jv].unwrap() as nat,
                                k as nat,
                            );
                        }
                    }
                    assert(endpoints_present(present, links)) by {
                        assert forall|i: int| 0 <= i < links.len() implies present.contains(
                            (#[trigger] links[i]).nap.0@,
                        ) && present.contains(links[i].panu.0@) by {}
                    }
                    assert forall|jj: int, m: nat|
                        0 <= jj < dist@.len() && (#[trigger] dist@[jj]) is None implies !#[trigger] reach_within(
                            links,
                            nodes[jj].0.0@,
                            e,
                            m,
                        ) by {
                        let v = nodes[jj].0.0@;
                        lemma_sorted_index_unique(nodes, jj);
                        if m >= k {
                            lemma_reach_fixpoint(present, links, e, k as nat, m);
                        } else if reach_within(links, v, e, m) {
                            lemma_reach_monotone(links, v, e, m, k as nat);
                        }
                    }
                }
                return dist;
            }
            proof {
                let j = choose|j: int|
                    0 <= j < dist@.len() && (#[trigger] dist@[j]) is None && next@[j] is Some;
                lemma_count_filled_grows(dist@, next@, j);
                lemma_count_filled_bound(next@);
                assert(k < count);
            }
            dist = next;
            k += 1;
        }
    }
}

impl TopologyGraph {
    /// Among the neighbours of `cur` whose fewest-links count towards `end` is `d - 1`, the one
    /// with the smallest identifier.
    fn closest_neighbor(&self, end: &NodeId, dist: &Vec<Option<usize>>, cur: &NodeId, d: usize) -> (next: NodeId)
        requires
            distances_done(self.node_entries(), self.link_entries(), end.0@, dist@),
            d > 0,
            least_distance(self.link_entries(), cur.0@, end.0@, d as nat),
        ensures
            adjacent(self.link_entries(), cur.0@, next.0@),
            least_distance(self.link_entries(), next.0@, end.0@, (d - 1) as nat),
            forall|i: int|
                #![trigger self.link_entries()[i]]
                0 <= i < self.link_entries().len() && forwarding(self.link_entries()[i]) && far_key(
                    self.link_entries()[i],
                    cur.0@,
                ) is Some && least_distance(
                    self.link_entries(),
                    far_key(self.link_entries()[i], cur.0@).unwrap(),
                    end.0@,
                    (d - 1) as nat,
                ) ==> !lex_lt(far_key(self.link_entries()[i], cur.0@).unwrap(), next.0@),
    {
        proof {
            use_type_invariant(self);
        }
        let ghost nodes = self.nodes@;
        let ghost links = self.links@;
        let ghost e = end.0@;
        let ghost c = cur.0@;
        let ghost target = (d - 1) as nat;
        let mut best: Option<NodeId> = None;
        let mut m: usize = 0;
        while m < self.links.len()
            invariant
                nodes == self.nodes@,
                links == self.links@,
                e == end.0@,
                c == cur.0@,
                target == d - 1,
                graph_parts_wf(self.nodes@, self.links@, self.segments@),
                distances_done(nodes, links, e, dist@),
                m <= links.len(),
                match best {
                    Some(b) => adjacent(links, c, b.0@) && least_distance(links, b.0@, e, target),
                    None => true,
                },
                forall|i: int|
                    #![trigger links[i]]
                    0 <= i < m && forwarding(links[i]) && far_key(links[i], c) is Some
                        && least_distance(links, far_key(links[i], c).unwrap(), e, target)
                        ==> best is Some && !lex_lt(far_key(links[i], c).unwrap(), best.unwrap().0@),
            decreases links.len() - m,
        {
            let link = self.links[m];
            if link.is_forwarding_candidate() {
                if let Some(other) = link.other_endpoint(*cur) {
                    proof {
                        assert(table_view(nodes).contains_key(links[m as int].nap.0@));
                        assert(table_view(nodes).contains_key(links[m as int].panu.0@));
                        assert(adjacent(links, c, other.0@));
                    }
                    if let Some(j) = self.node_position(&other) {
                        let candidate = match dist[j] {
                            Some(dj) => dj == d - 1,
                            None => false,
                        };
                        proof {
                            if dist@[j as int] is Some {
                                if least_distance(links, other.0@, e, target) {
                                    lemma_least_unique(
                                        links,
                                        other.0@,
                                        e,
                                        target,
                                        dist@[j as int].unwrap() as nat,
                                    );
                                }
                            } else {
                                assert(!reach_within(links, nodes[j as int].0.0@, e, target));
                            }
                        }
                        if candidate {
                            let replace = match best {
                                Some(b) => bytes_less(&other.0, &b.0),
                                None => true,
                            };
                            proof {
                                if let Some(b) = best {
                                    other.lemma_key_len();
                                    b.lemma_key_len();
                                    if !replace {
                                    } else {
                                        assert forall|i: int|
                                            #![trigger links[i]]
                                            0 <= i < m && forwarding(links[i]) && far_key(links[i], c) is Some
                                                && least_distance(links, far_key(links[i], c).unwrap(), e, target)
                                                implies !lex_lt(far_key(links[i], c).unwrap(), other.0@) by {
                                            let u = far_key(links[i], c).unwrap();
                                            if lex_lt(u, other.0@) {
                                                lemma_lex_lt_transitive(u, other.0@, b.0@);
                                            }
                                        }
                                    }
                                }
                            }
                            if replace {
                                best = Some(other);
                            }
                        }
                    }
                }
            }
            m += 1;
        }
        proof {
            lemma_reach_first_step(links, c, e, d as nat);
        }
        match best {
            Some(b) => b,
            None => {
                proof {
                    assert(false);
                }
                *cur
            },
        }
    }

    /// A walk from `start` to `end` over forwarding links with the fewest links, the first
    /// such walk when compared node by node by identifier; `None` when either node is not in
    /// the graph or no walk joins them.
    #[verifier::rlimit(90)]
    pub fn shortest_path(&self, start: NodeId, end: NodeId) -> (path: Option<Vec<NodeId>>)
        ensures
            path is Some <==> self.present().contains(start.0@) && self.present().contains(end.0@)
                && self.connected(start.0@, end.0@),
            match path {
                Some(p) => self.first_fewest_walk(node_keys(p@), start.0@, end.0@),
                None => true,
            },
    {
        proof {
            use_type_invariant(self);
        }
        let ghost nodes = self.nodes@;
        let ghost links = self.links@;
        let ghost present = self.present();
        let ghost s = start.0@;
        let ghost e = end.0@;
        let found = self.node_position(&start);
        if found.is_none() || !self.has_node(&end) {
            proof {
                assert forall|w: Seq<Seq<u8>>| !#[trigger] walk_between(present, links, w, s, e) by {
                    if walk_between(present, links, w, s, e) {
                        assert(present.contains(w[0]));
                        assert(present.contains(w[w.len() - 1]));
                    }
                }
            }
            return None;
        }
        let position = match found {
            Some(j) => j,
            None => {
                return None;
            },
        };
        if bytes_equal(&start.0, &end.0) {
            let mut path: Vec<NodeId> = Vec::new();
            path.push(start);
            proof {
                let keys = node_keys(path@);
                assert(keys =~= seq![s]);
                assert(walk_between(self.present(), self.link_entries(), keys, s, e));
                assert(self.connected(s, e));
                assert forall|w: Seq<Seq<u8>>| #[trigger]
                    walk_between(present, links, w, s, e) implies keys.len() <= w.len() && (
                    w.len() == keys.len() ==> !walk_before(w, keys)) by {
                    if w.len() == keys.len() && walk_before(w, keys) {
                        let k = choose|k: int|
                            0 <= k < w.len() && k < keys.len() && w.take(k) == keys.take(k)
                                && #[trigger] lex_lt(w[k], keys[k]);
                        lemma_lex_lt_asymmetric(w[0], keys[0]);
                    }
                }
            }
            return Some(path);
        }
        let dist = self.distances(&end);
        let total = match dist[position] {
            Some(total) => total,
            None => {
                proof {
                    assert forall|w: Seq<Seq<u8>>| !#[trigger] walk_between(present, links, w, s, e) by {
                        if walk_between(present, links, w, s, e) {
                            lemma_walk_reaches(present, links, w, e);
                            assert(!reach_within(links, nodes[position as int].0.0@, e, (w.len() - 1) as nat));
                        }
                    }
                }
                return None;
            },
        };
        let mut path: Vec<NodeId> = Vec::new();
        path.push(start);
        let mut cur = start;
        let mut remaining = total;
        proof {
            assert(node_keys(path@) =~= seq![s]);
            assert forall|i: int| 0 <= i < links.len() implies present.contains((#[trigger] links[i]).nap.0@)
                && present.contains(links[i].panu.0@) by {
                assert(table_view(nodes).contains_key(links[i].nap.0@));
                assert(table_view(nodes).contains_key(links[i].panu.0@));
            }
        }
        while remaining > 0
            invariant
                nodes == self.nodes@,
                links == self.links@,
                present == self.present(),
                s == start.0@,
                e == end.0@,
                graph_parts_wf(self.nodes@, self.links@, self.segments@),
                distances_done(nodes, links, e, dist@),
                least_distance(links, s, e, total as nat),
                path@.len() >= 1,
                path@.len() - 1 + remaining == total,
                node_keys(path@)[0] == s,
                path@.last() == cur,
                least_distance(links, cur.0@, e, remaining as nat),
                is_walk(present, links, node_keys(path@)),
                endpoints_present(present, links),
                greedy_path(links, path@, e, total as int),
            decreases remaining,
        {
            let next = self.closest_neighbor(&end, &dist, &cur, remaining);
            let ghost before = path@;
            path.push(next);
            proof {
                lemma_extend_path(present, links, before, cur, next, e, total as int);
            }
            cur = next;
            remaining = remaining - 1;
        }
        proof {
            let keys = node_keys(path@);
            assert(cur.0@ == e);
            assert(walk_between(self.present(), self.link_entries(), keys, s, e));
            assert(self.connected(s, e));
            assert forall|w: Seq<Seq<u8>>| #[trigger]
                walk_between(present, links, w, s, e) implies keys.len() <= w.len() && (
                w.len() == keys.len() ==> !walk_before(w, keys)) by {
                lemma_walk_reaches(present, links, w, e);
                if w.len() < keys.len() {
                    lemma_reach_monotone(links, s, e, (w.len() - 1) as nat, (total - 1) as nat);
                }
                if w.len() == keys.len() && walk_before(w, keys) {
                    let k = choose|k: int|
                        0 <= k < w.len() && k < keys.len() && w.take(k) == keys.take(k)
                            && #[trigger] lex_lt(w[k], keys[k]);
                    if k == 0 {
                        lemma_lex_lt_asymmetric(w[0], keys[0]);
                    } else {
                        assert(w.take(k)[k - 1] == keys.take(k)[k - 1]);
                        lemma_shortest_walk_distances(present, links, w, e, k);
                        assert(adjacent(links, w[k - 1], w[k]));
                        let i = choose|i: int|
                            #![trigger links[i]]
                            0 <= i < links.len() && forwarding(links[i]) && far_key(links[i], w[k - 1]) == Some(w[k]);
                        assert(path@[k - 1].0@ == keys[k - 1]);
                        assert(path@[k].0@ == keys[k]);
                    }
                }
            }
        }
        Some(path)
    }
}

impl TopologyGraph {
    /// `end` can be reached from `start`, but only through at least one other node.
    pub fn is_routed_reachable(&self, start: NodeId, end: NodeId) -> (routed: bool)
        ensures
            routed <==> self.present().contains(start.0@) && self.present().contains(end.0@)
                && self.connected(start.0@, end.0@) && forall|w: Seq<Seq<u8>>| #[trigger]
                walk_between(self.present(), self.link_entries(), w, start.0@, end.0@) ==> w.len()
                > 2,
    {
        match self.shortest_path(start, end) {
            Some(path) => {
                proof {
                    assert(walk_between(self.present(), self.link_entries(), node_keys(path@), start.0@, end.0@));
                }
                path.len() > 2
            },
            None => false,
        }
    }
}

impl Default for TopologyGraph {
    fn default() -> (graph: Self)
        ensures
            graph.node_entries().len() == 0,
            graph.link_entries().len() == 0,
            graph.segment_entries().len() == 0,
    {
        TopologyGraph::new()
    }
}

/// Two different walks of the same length differ first at some position.
proof fn lemma_first_difference(p: Seq<Seq<u8>>, q: Seq<Seq<u8>>, n: int)
    requires
        p.len() == q.len(),
        0 <= n <= p.len(),
    ensures
        p.take(n) == q.take(n) || exists|k: int|
            0 <= k < n && p.take(k) == q.take(k) && #[trigger] p[k] != q[k],
    decreases n,
{
    if n > 0 {
        lemma_first_difference(p, q, n - 1);
        if p.take(n - 1) == q.take(n - 1) {
            if p[n - 1] == q[n - 1] {
                assert(p.take(n) =~= p.take(n - 1).push(p[n - 1]));
                assert(q.take(n) =~= q.take(n - 1).push(q[n - 1]));
            }
        }
    }
}

/// Determinism of `shortest_path`: between two nodes, at most one walk is first among the
/// walks with the fewest links.
pub proof fn lemma_first_fewest_walk_unique(
    graph: &TopologyGraph,
    p: Seq<Seq<u8>>,
    q: Seq<Seq<u8>>,
    a: Seq<u8>,
    b: Seq<u8>,
)
    requires
        graph.first_fewest_walk(p, a, b),
        graph.first_fewest_walk(q, a, b),
    ensures
        p == q,
{
    assert(walk_between(graph.present(), graph.link_entries(), q, a, b));
    assert(walk_between(graph.present(), graph.link_entries(), p, a, b));
    lemma_first_difference(p, q, p.len() as int);
    if p.take(p.len() as int) == q.take(p.len() as int) {
        assert(p =~= p.take(p.len() as int));
        assert(q =~= q.take(q.len() as int));
    } else {
        let k = choose|k: int| 0 <= k < p.len() && p.take(k) == q.take(k) && #[trigger] p[k] != q[k];
        let entries = graph.node_entries();
        assert(graph.present().contains(p[k]));
        assert(graph.present().contains(q[k]));
        let i = key_index(entries, p[k]);
        let j = key_index(entries, q[k]);
        assert(entries[i].key() == p[k]);
        assert(entries[j].key() == q[k]);
        lemma_lex_lt_total(p[k], q[k]);
        if lex_lt(p[k], q[k]) {
            assert(walk_before(p, q));
        } else {
            assert(walk_before(q, p));
        }
    }
}

/// Each step of `path` went to the neighbour with the smallest identifier among those one
/// link closer to `end`, the path starting `total` links away.
pub open spec fn greedy_path(links: Seq<PanLink>, path: Seq<NodeId>, end: Seq<u8>, total: int) -> bool {
    forall|k: int|
        0 <= k < path.len() - 1 ==> forall|i: int|
            #![trigger links[i]]
            0 <= i < links.len() && forwarding(links[i]) && far_key(links[i], (#[trigger] path[k]).0@) is Some
                && least_distance(links, far_key(links[i], path[k].0@).unwrap(), end, (total - k - 1) as nat)
                ==> !lex_lt(far_key(links[i], path[k].0@).unwrap(), path[k + 1].0@)
}

proof fn lemma_extend_path(
    present: Set<Seq<u8>>,
    links: Seq<PanLink>,
    before: Seq<NodeId>,
    cur: NodeId,
    next: NodeId,
    end: Seq<u8>,
    total: int,
)
    requires
        before.len() >= 1,
        before.last() == cur,
        is_walk(present, links, node_keys(before)),
        endpoints_present(present, links),
        greedy_path(links, before, end, total),
        adjacent(links, cur.0@, next.0@),
        forall|i: int|
            #![trigger links[i]]
            0 <= i < links.len() && forwarding(links[i]) && far_key(links[i], cur.0@) is Some
                && least_distance(links, far_key(links[i], cur.0@).unwrap(), end, (total - before.len()) as nat)
                ==> !lex_lt(far_key(links[i], cur.0@).unwrap(), next.0@),
    ensures
        is_walk(present, links, node_keys(before.push(next))),
        greedy_path(links, before.push(next), end, total),
{
    let path = before.push(next);
    let keys = node_keys(path);
    assert(keys.drop_last() =~= node_keys(before));
    assert forall|k: int| 0 <= k < keys.len() implies present.contains(#[trigger] keys[k]) by {
        if k == keys.len() - 1 {
            let i = choose|i: int|
                #![trigger links[i]]
                0 <= i < links.len() && forwarding(links[i]) && far_key(links[i], cur.0@) == Some(next.0@);
            assert(present.contains(links[i].nap.0@) && present.contains(links[i].panu.0@));
        } else {
            assert(keys[k] == node_keys(before)[k]);
        }
    }
    assert forall|k: int| 0 <= k < keys.len() - 1 implies adjacent(links, #[trigger] keys[k], keys[k + 1]) by {
        if k < keys.len() - 2 {
            assert(keys[k] == node_keys(before)[k] && keys[k + 1] == node_keys(before)[k + 1]);
        } else {
            assert(keys[k] == cur.0@);
        }
    }
    assert forall|k: int|
        0 <= k < path.len() - 1 implies forall|i: int|
            #![trigger links[i]]
            0 <= i < links.len() && forwarding(links[i]) && far_key(links[i], (#[trigger] path[k]).0@) is Some
                && least_distance(links, far_key(links[i], path[k].0@).unwrap(), end, (total - k - 1) as nat)
                ==> !lex_lt(far_key(links[i], path[k].0@).unwrap(), path[k + 1].0@) by {
        if k < path.len() - 2 {
            assert(path[k] == before[k] && path[k + 1] == before[k + 1]);
        } else {
            assert(path[k] == cur && path[k + 1] == next);
        }
    }
}

/// An active link that has not failed carries traffic, whatever its health otherwise
/// (healthy, degraded or unknown): its two ends, when both are known nodes, are directly
/// reachable from each other, connected, and the shortest path between them is the two of
/// them alone.
pub proof fn lemma_active_unfailed_link_joins_its_ends(graph: &TopologyGraph, i: int)
    requires
        0 <= i < graph.link_entries().len(),
        graph.link_entries()[i].state == LinkState::Active,
        graph.link_entries()[i].health == LinkHealth::Healthy || graph.link_entries()[i].health
            == LinkHealth::Degraded || graph.link_entries()[i].health == LinkHealth::Unknown,
        graph.link_entries()[i].nap.0@ != graph.link_entries()[i].panu.0@,
        graph.present().contains(graph.link_entries()[i].nap.0@),
        graph.present().contains(graph.link_entries()[i].panu.0@),
    ensures
        ({
            let a = graph.link_entries()[i].nap.0@;
            let b = graph.link_entries()[i].panu.0@;
            &&& adjacent(graph.link_entries(), a, b)
            &&& adjacent(graph.link_entries(), b, a)
            &&& graph.connected(a, b)
            &&& forall|p: Seq<Seq<u8>>| #[trigger] graph.first_fewest_walk(p, a, b) ==> p == seq![a, b]
        }),
{
    let links = graph.link_entries();
    let link = links[i];
    let a = link.nap.0@;
    let b = link.panu.0@;
    assert(far_key(link, a) == Some(b));
    assert(far_key(link, b) == Some(a));
    assert(adjacent(links, a, b));
    assert(adjacent(links, b, a));
    let w = seq![a, b];
    assert(walk_between(graph.present(), links, w, a, b));
    assert forall|p: Seq<Seq<u8>>| #[trigger] graph.first_fewest_walk(p, a, b) implies p == seq![a, b] by {
        assert(p.len() <= w.len());
        assert(p.len() != 1);
        assert(p =~= seq![a, b]);
    }
}

} // verus!
