use vstd::prelude::*;

use crate::domain::hex::{
    ascii_bytes, hex_decode, hex_encode, hex_text_error, lemma_hex_encode_is_ascii,
    lemma_hex_id_round_trip, lemma_hex_round_trip,
};
use crate::domain::id::{lemma_lex_lt_asymmetric, lex_lt, valid_display_name, NetworkId};
use crate::domain::membership::{
    peer_flags, MembershipRegistry, MembershipState, NetworkMembership, PeerMembership,
};
use crate::domain::table::{
    insertion_point, key_index, lemma_insertion_point_absent, lemma_sorted_index_unique,
    lemma_table_equal_entries, lemma_table_insert, sorted_keys, table_view, Keyed,
};
use crate::linux::membership_store::{
    apply_line, apply_lines, declared_version, flag_code, header, id_of, migration,
    network_block, network_blocks, network_fields, network_line, network_record, peer_fields,
    peer_line, peer_lines, read_registry, registry_consistent, registry_networks, registry_record,
    registry_text, persistable, state_code, v1_rewritten, Failure, NetworkRecord, RegistryRecord,
};
use crate::text::{
    all_digits, digits_value, has_prefix, joined_lines, lemma_joined_lines_append,
    lemma_split_first, lemma_split_none, lemma_text_lines_first, lemma_text_lines_joined, plain_line, split_char,
    text_lines, trim_chars,
};
use vstd::utf8::{decode_utf8, encode_utf8, encode_utf8_decode_utf8, encode_utf8_valid_utf8, valid_utf8};

verus! {

/// No line feed, carriage return or tab.
pub open spec fn clean(s: Seq<char>) -> bool {
    forall|j: int| 0 <= j < s.len() ==> s[j] != '\n' && s[j] != '\r' && s[j] != '\t'
}

/// No line feed or carriage return.
pub open spec fn no_breaks(s: Seq<char>) -> bool {
    forall|j: int| 0 <= j < s.len() ==> s[j] != '\n' && s[j] != '\r'
}

proof fn lemma_no_breaks_concat(a: Seq<char>, b: Seq<char>)
    requires
        no_breaks(a),
        no_breaks(b),
    ensures
        no_breaks(a + b),
{
    assert forall|j: int| 0 <= j < (a + b).len() implies (a + b)[j] != '\n' && (a + b)[j] != '\r' by {
        if j < a.len() {
            assert((a + b)[j] == a[j]);
        } else {
            assert((a + b)[j] == b[j - a.len()]);
        }
    }
}

proof fn lemma_no_breaks_fields(fields: Seq<Seq<char>>)
    requires
        forall|i: int| 0 <= i < fields.len() ==> clean(#[trigger] fields[i]),
    ensures
        forall|i: int| 0 <= i < fields.len() ==> no_breaks(#[trigger] fields[i]),
        no_breaks("\t"@),
{
    reveal_strlit("\t");
    assert forall|i: int| 0 <= i < fields.len() implies no_breaks(#[trigger] fields[i]) by {
        assert(clean(fields[i]));
    }
}

proof fn lemma_clean_hex(bytes: Seq<u8>)
    ensures
        clean(hex_encode(bytes)),
{
    let text = hex_encode(bytes);
    assert forall|j: int| 0 <= j < text.len() implies text[j] != '\n' && text[j] != '\r'
        && text[j] != '\t' by {
        let b = bytes[j / 2];
        assert(b / 16 < 16 && b % 16 < 16);
    }
}

proof fn lemma_clean_code(state: MembershipState, value: bool)
    requires
        state == MembershipState::NotMember || state == MembershipState::Member,
    ensures
        clean(state_code(state)),
        clean(flag_code(value)),
        state_code(state).len() > 0,
{
    reveal_strlit("not-member");
    reveal_strlit("member");
    reveal_strlit("0");
    reveal_strlit("1");
}

proof fn lemma_split_four(a: Seq<char>, b: Seq<char>, c: Seq<char>, d: Seq<char>)
    requires
        clean(a),
        clean(b),
        clean(c),
        clean(d),
    ensures
        split_char(a + "\t"@ + b + "\t"@ + c + "\t"@ + d, '\t') == seq![a, b, c, d],
{
    reveal_strlit("\t");
    let tab = seq!['\t'];
    assert(a + "\t"@ + b + "\t"@ + c + "\t"@ + d =~= a + tab + (b + tab + (c + tab + d)));
    lemma_split_first(a, '\t', b + tab + (c + tab + d));
    lemma_split_first(b, '\t', c + tab + d);
    lemma_split_first(c, '\t', d);
    lemma_split_none(d, '\t');
    assert(seq![a] + (seq![b] + (seq![c] + seq![d])) =~= seq![a, b, c, d]);
}

proof fn lemma_split_five(a: Seq<char>, b: Seq<char>, c: Seq<char>, d: Seq<char>, e: Seq<char>)
    requires
        clean(a),
        clean(b),
        clean(c),
        clean(d),
        clean(e),
    ensures
        split_char(a + "\t"@ + b + "\t"@ + c + "\t"@ + d + "\t"@ + e, '\t') == seq![a, b, c, d, e],
{
    reveal_strlit("\t");
    let tab = seq!['\t'];
    assert(a + "\t"@ + b + "\t"@ + c + "\t"@ + d + "\t"@ + e =~= a + tab + (b + tab + (c + tab + (d
        + tab + e))));
    lemma_split_first(a, '\t', b + tab + (c + tab + (d + tab + e)));
    lemma_split_first(b, '\t', c + tab + (d + tab + e));
    lemma_split_first(c, '\t', d + tab + e);
    lemma_split_first(d, '\t', e);
    lemma_split_none(e, '\t');
    assert(seq![a] + (seq![b] + (seq![c] + (seq![d] + seq![e]))) =~= seq![a, b, c, d, e]);
}

proof fn lemma_id_text(bytes: Seq<u8>)
    requires
        bytes.len() == 16,
    ensures
        id_of(hex_encode(bytes)) == Some(bytes),
        clean(hex_encode(bytes)),
{
    lemma_hex_encode_is_ascii(bytes);
    lemma_hex_id_round_trip(bytes);
    lemma_clean_hex(bytes);
}

/// A network's record line, read into a record that does not hold the network yet, adds
/// it with its name and state and no peers.
proof fn lemma_read_network_line(record: RegistryRecord, membership: NetworkMembership, number: nat)
    requires
        !record.contains_key(membership.spec_network_id().0@),
        valid_display_name(membership.spec_network_name()@),
        trim_chars(membership.spec_network_name()@) == membership.spec_network_name()@,
        membership.spec_state() == MembershipState::NotMember || membership.spec_state()
            == MembershipState::Member,
    ensures
        apply_line(record, network_fields(membership), number) == Ok::<RegistryRecord, Failure>(
            record.insert(
                membership.spec_network_id().0@,
                (
                    membership.spec_network_name()@,
                    membership.spec_state(),
                    Map::<Seq<u8>, (bool, bool)>::empty(),
                ),
            ),
        ),
{
    reveal_strlit("network");
    reveal_strlit("peer");
    reveal_strlit("not-member");
    reveal_strlit("member");
    let id = membership.spec_network_id().0@;
    let name = membership.spec_network_name()@;
    let code = state_code(membership.spec_state());
    let name_hex = hex_encode(encode_utf8(name));
    lemma_id_text(id);
    lemma_clean_hex(encode_utf8(name));
    lemma_clean_code(membership.spec_state(), true);
    lemma_split_four("network"@, hex_encode(id), code, name_hex);
    let fields = split_char(network_fields(membership), '\t');
    assert(fields == seq!["network"@, hex_encode(id), code, name_hex]);
    assert(network_fields(membership).len() > 0);
    lemma_hex_encode_is_ascii(encode_utf8(name));
    lemma_hex_round_trip(encode_utf8(name));
    let bytes = encode_utf8(name_hex);
    assert(bytes == ascii_bytes(name_hex));
    assert(hex_text_error(bytes) is None) by {
        assert(bytes.len() % 2 == 0);
    }
    encode_utf8_valid_utf8(name);
    encode_utf8_decode_utf8(name);
    assert(hex_decode(bytes) == encode_utf8(name));
}

/// A peer's record line, read into a record that holds its network but not the peer, adds
/// the peer's flags to that network.
proof fn lemma_read_peer_line(record: RegistryRecord, network: NetworkId, peer: PeerMembership, number: nat)
    requires
        record.contains_key(network.0@),
        !record[network.0@].2.contains_key(peer.spec_node_id().0@),
    ensures
        apply_line(record, peer_fields(network, peer), number) == Ok::<RegistryRecord, Failure>(
            record.insert(
                network.0@,
                (
                    record[network.0@].0,
                    record[network.0@].1,
                    record[network.0@].2.insert(peer.spec_node_id().0@, peer_flags(peer)),
                ),
            ),
        ),
{
    reveal_strlit("network");
    reveal_strlit("peer");
    reveal_strlit("0");
    reveal_strlit("1");
    lemma_id_text(network.0@);
    lemma_id_text(peer.spec_node_id().0@);
    lemma_clean_code(MembershipState::Member, peer.spec_is_member());
    lemma_clean_code(MembershipState::Member, peer.spec_is_trusted());
    lemma_split_five(
        "peer"@,
        hex_encode(network.0@),
        hex_encode(peer.spec_node_id().0@),
        flag_code(peer.spec_is_member()),
        flag_code(peer.spec_is_trusted()),
    );
    assert(peer_fields(network, peer).len() > 0);
}

/// The record lines applied from the front, the first numbered `number`.
pub open spec fn apply_all(lines: Seq<Seq<char>>, number: nat, record: RegistryRecord) -> Result<
    RegistryRecord,
    Failure,
>
    decreases lines.len(),
{
    if lines.len() == 0 {
        Ok(record)
    } else {
        match apply_line(record, lines[0], number) {
            Ok(next) => apply_all(lines.drop_first(), number + 1, next),
            Err(failure) => Err(failure),
        }
    }
}

proof fn lemma_apply_lines_all(lines: Seq<Seq<char>>, k: int, record: RegistryRecord)
    requires
        0 <= k <= lines.len(),
    ensures
        apply_lines(lines, k, record) == apply_all(lines.skip(k), (k + 1) as nat, record),
    decreases lines.len() - k,
{
    if k < lines.len() {
        assert(lines.skip(k)[0] == lines[k]);
        assert(lines.skip(k).drop_first() =~= lines.skip(k + 1));
        match apply_line(record, lines[k], (k + 1) as nat) {
            Ok(next) => lemma_apply_lines_all(lines, k + 1, next),
            Err(_) => {},
        }
    } else {
        assert(lines.skip(k).len() == 0);
    }
}

proof fn lemma_apply_all_append(a: Seq<Seq<char>>, b: Seq<Seq<char>>, number: nat, record: RegistryRecord)
    ensures
        apply_all(a + b, number, record) == match apply_all(a, number, record) {
            Ok(next) => apply_all(b, number + a.len(), next),
            Err(failure) => Err(failure),
        },
    decreases a.len(),
{
    if a.len() == 0 {
        assert(a + b =~= b);
    } else {
        assert((a + b)[0] == a[0]);
        assert((a + b).drop_first() =~= a.drop_first() + b);
        match apply_line(record, a[0], number) {
            Ok(next) => lemma_apply_all_append(a.drop_first(), b, number + 1, next),
            Err(_) => {},
        }
    }
}

proof fn lemma_apply_all_one(line: Seq<char>, number: nat, record: RegistryRecord)
    ensures
        apply_all(seq![line], number, record) == apply_line(record, line, number),
{
    let empty = Seq::<Seq<char>>::empty();
    assert(seq![line].drop_first() =~= empty);
    assert(seq![line][0] == line);
    match apply_line(record, line, number) {
        Ok(next) => {
            assert(apply_all(empty, number + 1, next) == Ok::<RegistryRecord, Failure>(next));
        },
        Err(_) => {},
    }
}

/// The peers' record lines, without their line feeds.
pub open spec fn peer_field_lines(network: NetworkId, peers: Seq<PeerMembership>) -> Seq<Seq<char>> {
    peers.map_values(|peer: PeerMembership| peer_fields(network, peer))
}

/// A network's record lines, without their line feeds.
pub open spec fn block_lines(membership: NetworkMembership) -> Seq<Seq<char>> {
    seq![network_fields(membership)] + peer_field_lines(
        membership.spec_network_id(),
        membership.peer_entries(),
    )
}

pub open spec fn all_lines(memberships: Seq<NetworkMembership>) -> Seq<Seq<char>>
    decreases memberships.len(),
{
    if memberships.len() == 0 {
        Seq::empty()
    } else {
        all_lines(memberships.drop_last()) + block_lines(memberships.last())
    }
}

proof fn lemma_joined_one(line: Seq<char>)
    ensures
        joined_lines(seq![line]) == line + "\n"@,
{
    assert(seq![line].drop_last() =~= Seq::<Seq<char>>::empty());
    assert(joined_lines(Seq::<Seq<char>>::empty()) =~= Seq::<char>::empty());
    assert(joined_lines(seq![line]) =~= line + "\n"@);
}

proof fn lemma_peer_lines_joined(network: NetworkId, peers: Seq<PeerMembership>)
    ensures
        peer_lines(network, peers) == joined_lines(peer_field_lines(network, peers)),
    decreases peers.len(),
{
    if peers.len() == 0 {
        assert(peer_field_lines(network, peers) =~= Seq::<Seq<char>>::empty());
    } else {
        lemma_peer_lines_joined(network, peers.drop_last());
        assert(peer_field_lines(network, peers) =~= peer_field_lines(network, peers.drop_last())
            + seq![peer_fields(network, peers.last())]);
        lemma_joined_lines_append(
            peer_field_lines(network, peers.drop_last()),
            seq![peer_fields(network, peers.last())],
        );
        lemma_joined_one(peer_fields(network, peers.last()));
    }
}

proof fn lemma_blocks_joined(memberships: Seq<NetworkMembership>)
    ensures
        network_blocks(memberships) == joined_lines(all_lines(memberships)),
    decreases memberships.len(),
{
    if memberships.len() == 0 {
        assert(joined_lines(Seq::<Seq<char>>::empty()) =~= Seq::<char>::empty());
    } else {
        let last = memberships.last();
        lemma_blocks_joined(memberships.drop_last());
        lemma_peer_lines_joined(last.spec_network_id(), last.peer_entries());
        lemma_joined_lines_append(
            seq![network_fields(last)],
            peer_field_lines(last.spec_network_id(), last.peer_entries()),
        );
        lemma_joined_one(network_fields(last));
        lemma_joined_lines_append(all_lines(memberships.drop_last()), block_lines(last));
        assert(network_block(last) =~= joined_lines(block_lines(last)));
    }
}

/// The networks can be written and read back: stable states, valid trimmed names, and
/// peers in increasing identifier order.
pub open spec fn writable_networks(memberships: Seq<NetworkMembership>) -> bool {
    forall|i: int|
        0 <= i < memberships.len() ==> {
            let m = #[trigger] memberships[i];
            &&& m.spec_state() == MembershipState::NotMember || m.spec_state()
                == MembershipState::Member
            &&& valid_display_name(m.spec_network_name()@)
            &&& trim_chars(m.spec_network_name()@) == m.spec_network_name()@
            &&& sorted_keys(m.peer_entries())
        }
}

/// The networks' identifiers strictly increase.
pub open spec fn increasing_ids(memberships: Seq<NetworkMembership>) -> bool {
    forall|i: int, j: int|
        0 <= i < j < memberships.len() ==> lex_lt(
            (#[trigger] memberships[i]).spec_network_id().0@,
            (#[trigger] memberships[j]).spec_network_id().0@,
        )
}

proof fn lemma_lines_plain(memberships: Seq<NetworkMembership>)
    requires
        writable_networks(memberships),
    ensures
        forall|i: int|
            0 <= i < all_lines(memberships).len() ==> plain_line(#[trigger] all_lines(memberships)[i]),
    decreases memberships.len(),
{
    if memberships.len() > 0 {
        let rest = memberships.drop_last();
        let last = memberships.last();
        assert(writable_networks(rest)) by {
            assert forall|i: int| 0 <= i < rest.len() implies #[trigger] rest[i] == memberships[i] by {}
        }
        lemma_lines_plain(rest);
        reveal_strlit("network");
        reveal_strlit("peer");
        reveal_strlit("\t");
        let block = block_lines(last);
        lemma_clean_hex(last.spec_network_id().0@);
        lemma_clean_hex(encode_utf8(last.spec_network_name()@));
        assert(last == memberships[memberships.len() - 1]);
        lemma_clean_code(last.spec_state(), true);
        assert forall|i: int| 0 <= i < block.len() implies plain_line(#[trigger] block[i]) by {
            let tab = "\t"@;
            if i == 0 {
                let a = "network"@;
                let b = hex_encode(last.spec_network_id().0@);
                let c = state_code(last.spec_state());
                let d = hex_encode(encode_utf8(last.spec_network_name()@));
                lemma_no_breaks_fields(seq![a, b, c, d]);
                assert(no_breaks(a) && no_breaks(b) && no_breaks(c) && no_breaks(d)) by {
                    assert(seq![a, b, c, d][0] == a && seq![a, b, c, d][1] == b);
                    assert(seq![a, b, c, d][2] == c && seq![a, b, c, d][3] == d);
                }
                lemma_no_breaks_concat(a, tab);
                lemma_no_breaks_concat(a + tab, b);
                lemma_no_breaks_concat(a + tab + b, tab);
                lemma_no_breaks_concat(a + tab + b + tab, c);
                lemma_no_breaks_concat(a + tab + b + tab + c, tab);
                lemma_no_breaks_concat(a + tab + b + tab + c + tab, d);
                assert(block[0] == network_fields(last));
                assert(network_fields(last).len() > 0);
            } else {
                let peer = last.peer_entries()[i - 1];
                lemma_clean_hex(peer.spec_node_id().0@);
                lemma_clean_code(MembershipState::Member, peer.spec_is_member());
                lemma_clean_code(MembershipState::Member, peer.spec_is_trusted());
                let a = "peer"@;
                let b = hex_encode(last.spec_network_id().0@);
                let c = hex_encode(peer.spec_node_id().0@);
                let d = flag_code(peer.spec_is_member());
                let e = flag_code(peer.spec_is_trusted());
                lemma_no_breaks_fields(seq![a, b, c, d, e]);
                assert(no_breaks(a) && no_breaks(b) && no_breaks(c) && no_breaks(d) && no_breaks(e)) by {
                    assert(seq![a, b, c, d, e][0] == a && seq![a, b, c, d, e][1] == b);
                    assert(seq![a, b, c, d, e][2] == c && seq![a, b, c, d, e][3] == d);
                    assert(seq![a, b, c, d, e][4] == e);
                }
                lemma_no_breaks_concat(a, tab);
                lemma_no_breaks_concat(a + tab, b);
                lemma_no_breaks_concat(a + tab + b, tab);
                lemma_no_breaks_concat(a + tab + b + tab, c);
                lemma_no_breaks_concat(a + tab + b + tab + c, tab);
                lemma_no_breaks_concat(a + tab + b + tab + c + tab, d);
                lemma_no_breaks_concat(a + tab + b + tab + c + tab + d, tab);
                lemma_no_breaks_concat(a + tab + b + tab + c + tab + d + tab, e);
                let line = peer_fields(last.spec_network_id(), peer);
                assert(block[i] == line);
                assert(line.len() > 0);
            }
        }
        let all = all_lines(memberships);
        assert forall|i: int| 0 <= i < all.len() implies plain_line(#[trigger] all[i]) by {
            if i < all_lines(rest).len() {
                assert(all[i] == all_lines(rest)[i]);
            } else {
                assert(all[i] == block[i - all_lines(rest).len()]);
            }
        }
    }
}

/// The record read from networks written in order, each with its peers.
pub open spec fn written_record(memberships: Seq<NetworkMembership>) -> RegistryRecord
    decreases memberships.len(),
{
    if memberships.len() == 0 {
        Map::empty()
    } else {
        written_record(memberships.drop_last()).insert(
            memberships.last().spec_network_id().0@,
            network_record(memberships.last()),
        )
    }
}

proof fn lemma_written_record_keys(memberships: Seq<NetworkMembership>, key: Seq<u8>)
    requires
        written_record(memberships).contains_key(key),
    ensures
        exists|i: int|
            0 <= i < memberships.len() && (#[trigger] memberships[i]).spec_network_id().0@ == key,
    decreases memberships.len(),
{
    let rest = memberships.drop_last();
    if key == memberships.last().spec_network_id().0@ {
        assert(memberships[memberships.len() - 1].spec_network_id().0@ == key);
    } else {
        lemma_written_record_keys(rest, key);
        let i = choose|i: int| 0 <= i < rest.len() && (#[trigger] rest[i]).spec_network_id().0@ == key;
        assert(memberships[i] == rest[i]);
    }
}

/// Reading a peer's lines adds the peers, in order, to the network's record.
proof fn lemma_read_peer_lines(
    record: RegistryRecord,
    network: NetworkId,
    name: Seq<char>,
    state: MembershipState,
    peers: Seq<PeerMembership>,
    number: nat,
)
    requires
        sorted_keys(peers),
    ensures
        apply_all(
            peer_field_lines(network, peers),
            number,
            record.insert(network.0@, (name, state, Map::<Seq<u8>, (bool, bool)>::empty())),
        ) == Ok::<RegistryRecord, Failure>(
            record.insert(
                network.0@,
                (name, state, table_view(peers).map_values(|peer: PeerMembership| peer_flags(peer))),
            ),
        ),
    decreases peers.len(),
{
    let start = record.insert(network.0@, (name, state, Map::<Seq<u8>, (bool, bool)>::empty()));
    if peers.len() == 0 {
        assert(peer_field_lines(network, peers) =~= Seq::<Seq<char>>::empty());
        assert(table_view(peers).map_values(|peer: PeerMembership| peer_flags(peer)) =~= Map::<
            Seq<u8>,
            (bool, bool),
        >::empty());
    } else {
        let rest = peers.drop_last();
        let last = peers.last();
        assert(sorted_keys(rest)) by {
            assert forall|a: int, b: int| 0 <= a < b < rest.len() implies lex_lt(
                #[trigger] rest[a].key(),
                #[trigger] rest[b].key(),
            ) by {
                assert(rest[a] == peers[a] && rest[b] == peers[b]);
            }
        }
        lemma_read_peer_lines(record, network, name, state, rest, number);
        assert(peer_field_lines(network, peers) =~= peer_field_lines(network, rest) + seq![
            peer_fields(network, last),
        ]);
        lemma_apply_all_append(peer_field_lines(network, rest), seq![peer_fields(network, last)], number, start);
        let before_map = table_view(rest).map_values(|peer: PeerMembership| peer_flags(peer));
        let middle = record.insert(network.0@, (name, state, before_map));
        lemma_apply_all_one(peer_fields(network, last), number + rest.len(), middle);
        assert(insertion_point(rest, last.key(), rest.len() as int)) by {
            assert forall|i: int| 0 <= i < rest.len() implies lex_lt(#[trigger] rest[i].key(), last.key()) by {
                assert(rest[i] == peers[i]);
                assert(last == peers[peers.len() - 1]);
            }
        }
        lemma_insertion_point_absent(rest, last.key(), rest.len() as int);
        assert(last.key() == last.spec_node_id().0@);
        lemma_read_peer_line(middle, network, last, number + rest.len());
        lemma_table_insert(rest, rest.len() as int, last);
        assert(rest.insert(rest.len() as int, last) =~= peers);
        assert(before_map.insert(last.spec_node_id().0@, peer_flags(last)) =~= table_view(peers).map_values(
            |peer: PeerMembership| peer_flags(peer),
        ));
        assert(middle.insert(network.0@, (name, state, before_map.insert(last.spec_node_id().0@, peer_flags(last))))
            =~= record.insert(
            network.0@,
            (name, state, table_view(peers).map_values(|peer: PeerMembership| peer_flags(peer))),
        ));
    }
}

/// Reading one network's lines adds that network with its peers.
proof fn lemma_read_block(record: RegistryRecord, membership: NetworkMembership, number: nat)
    requires
        !record.contains_key(membership.spec_network_id().0@),
        writable_networks(seq![membership]),
    ensures
        apply_all(block_lines(membership), number, record) == Ok::<RegistryRecord, Failure>(
            record.insert(membership.spec_network_id().0@, network_record(membership)),
        ),
{
    assert(seq![membership][0] == membership);
    lemma_apply_all_append(
        seq![network_fields(membership)],
        peer_field_lines(membership.spec_network_id(), membership.peer_entries()),
        number,
        record,
    );
    lemma_apply_all_one(network_fields(membership), number, record);
    lemma_read_network_line(record, membership, number);
    lemma_read_peer_lines(
        record,
        membership.spec_network_id(),
        membership.spec_network_name()@,
        membership.spec_state(),
        membership.peer_entries(),
        number + 1,
    );
}

/// Reading networks' lines written in increasing identifier order gives their record.
proof fn lemma_read_blocks(memberships: Seq<NetworkMembership>, number: nat)
    requires
        writable_networks(memberships),
        increasing_ids(memberships),
    ensures
        apply_all(all_lines(memberships), number, Map::empty()) == Ok::<RegistryRecord, Failure>(
            written_record(memberships),
        ),
    decreases memberships.len(),
{
    if memberships.len() == 0 {
        assert(all_lines(memberships) =~= Seq::<Seq<char>>::empty());
    } else {
        let rest = memberships.drop_last();
        let last = memberships.last();
        assert(last == memberships[memberships.len() - 1]);
        assert(writable_networks(rest)) by {
            assert forall|i: int| 0 <= i < rest.len() implies #[trigger] rest[i] == memberships[i] by {}
        }
        assert(increasing_ids(rest)) by {
            assert forall|i: int, j: int| 0 <= i < j < rest.len() implies lex_lt(
                (#[trigger] rest[i]).spec_network_id().0@,
                (#[trigger] rest[j]).spec_network_id().0@,
            ) by {
                assert(rest[i] == memberships[i] && rest[j] == memberships[j]);
            }
        }
        lemma_read_blocks(rest, number);
        lemma_apply_all_append(all_lines(rest), block_lines(last), number, Map::empty());
        let key = last.spec_network_id().0@;
        if written_record(rest).contains_key(key) {
            lemma_written_record_keys(rest, key);
            let i = choose|i: int| 0 <= i < rest.len() && (#[trigger] rest[i]).spec_network_id().0@ == key;
            assert(rest[i] == memberships[i]);
            lemma_lex_lt_asymmetric(memberships[i].spec_network_id().0@, key);
        }
        assert(writable_networks(seq![last])) by {
            assert(seq![last][0] == last);
        }
        lemma_read_block(written_record(rest), last, number + all_lines(rest).len());
    }
}

/// The registry's record is the record of its networks written in order.
proof fn lemma_written_registry(entries: Seq<(NetworkId, NetworkMembership)>)
    requires
        sorted_keys(entries),
        forall|i: int| 0 <= i < entries.len() ==> (#[trigger] entries[i]).1.spec_network_id()
            == entries[i].0,
    ensures
        written_record(entries.map_values(|entry: (NetworkId, NetworkMembership)| entry.1))
            == table_view(entries).map_values(|entry: (NetworkId, NetworkMembership)| entry.1).map_values(
            |membership: NetworkMembership| network_record(membership),
        ),
    decreases entries.len(),
{
    let ms = entries.map_values(|entry: (NetworkId, NetworkMembership)| entry.1);
    if entries.len() == 0 {
        assert(written_record(ms) =~= table_view(entries).map_values(
            |entry: (NetworkId, NetworkMembership)| entry.1,
        ).map_values(|membership: NetworkMembership| network_record(membership)));
    } else {
        let rest = entries.drop_last();
        let last = entries.last();
        assert(last == entries[entries.len() - 1]);
        assert(sorted_keys(rest)) by {
            assert forall|a: int, b: int| 0 <= a < b < rest.len() implies lex_lt(
                #[trigger] rest[a].key(),
                #[trigger] rest[b].key(),
            ) by {
                assert(rest[a] == entries[a] && rest[b] == entries[b]);
            }
        }
        assert forall|i: int| 0 <= i < rest.len() implies (#[trigger] rest[i]).1.spec_network_id()
            == rest[i].0 by {
            assert(rest[i] == entries[i]);
        }
        lemma_written_registry(rest);
        assert(ms.drop_last() =~= rest.map_values(|entry: (NetworkId, NetworkMembership)| entry.1));
        assert(ms.last() == last.1);
        assert(insertion_point(rest, last.key(), rest.len() as int)) by {
            assert forall|i: int| 0 <= i < rest.len() implies lex_lt(#[trigger] rest[i].key(), last.key()) by {
                assert(rest[i] == entries[i]);
            }
        }
        lemma_table_insert(rest, rest.len() as int, last);
        assert(rest.insert(rest.len() as int, last) =~= entries);
        assert(written_record(ms) =~= table_view(entries).map_values(
            |entry: (NetworkId, NetworkMembership)| entry.1,
        ).map_values(|membership: NetworkMembership| network_record(membership)));
    }
}

/// A file whose first line is the current header declares the current version.
proof fn lemma_current_header_version(text: Seq<char>)
    requires
        text_lines(text).len() > 0,
        text_lines(text)[0] == header(),
    ensures
        declared_version(text) == Ok::<nat, Failure>(2),
{
    reveal_strlit("BLUEROUTE_MEMBERSHIP_V2");
    reveal_strlit("BLUEROUTE_MEMBERSHIP_V");
    let digits = header().skip(22);
    assert(header().take(22) =~= "BLUEROUTE_MEMBERSHIP_V"@);
    assert(has_prefix(header(), "BLUEROUTE_MEMBERSHIP_V"@));
    assert(digits =~= seq!['2']);
    assert(all_digits(digits));
    reveal_with_fuel(digits_value, 2);
    assert(digits.drop_last() =~= Seq::<char>::empty());
    assert(digits_value(digits) == 2);
}

/// What a save writes, a load reads back: the text written for a registry of stable
/// memberships needs no migration and reads as the same networks, names, states and peer
/// flags.
pub proof fn lemma_saved_registry_reads_back(registry: MembershipRegistry)
    requires
        registry_consistent(registry),
        persistable(registry),
        sorted_keys(registry.network_entries()),
        forall|i: int|
            0 <= i < registry_networks(registry).len() ==> {
                let m = #[trigger] registry_networks(registry)[i];
                &&& valid_display_name(m.spec_network_name()@)
                &&& trim_chars(m.spec_network_name()@) == m.spec_network_name()@
                &&& sorted_keys(m.peer_entries())
            },
    ensures
        read_registry(registry_text(registry)) == Ok::<RegistryRecord, Failure>(
            registry_record(registry),
        ),
        migration(registry_text(registry)) == Ok::<(Seq<char>, bool), Failure>(
            (registry_text(registry), false),
        ),
{
    let entries = registry.network_entries();
    let ms = registry_networks(registry);
    assert forall|i: int| 0 <= i < entries.len() implies (#[trigger] entries[i]).1.spec_network_id()
        == entries[i].0 by {
        lemma_sorted_index_unique(entries, i);
        assert(registry.network_map().contains_key(entries[i].0.0@));
        assert(registry.network_map()[entries[i].0.0@] == entries[i].1);
        assert(entries[i].1.spec_network_id().0 =~= entries[i].0.0);
    }
    assert(writable_networks(ms));
    assert(increasing_ids(ms)) by {
        assert forall|i: int, j: int| 0 <= i < j < ms.len() implies lex_lt(
            (#[trigger] ms[i]).spec_network_id().0@,
            (#[trigger] ms[j]).spec_network_id().0@,
        ) by {
            assert(ms[i] == entries[i].1 && ms[j] == entries[j].1);
            assert(entries[i].key() == entries[i].0.0@);
            assert(entries[j].key() == entries[j].0.0@);
        }
    }
    lemma_blocks_joined(ms);
    lemma_joined_lines_append(seq![header()], all_lines(ms));
    lemma_joined_one(header());
    let lines = seq![header()] + all_lines(ms);
    assert(registry_text(registry) == joined_lines(lines));
    reveal_strlit("BLUEROUTE_MEMBERSHIP_V2");
    lemma_lines_plain(ms);
    assert forall|i: int| 0 <= i < lines.len() implies plain_line(#[trigger] lines[i]) by {
        if i > 0 {
            assert(lines[i] == all_lines(ms)[i - 1]);
        }
    }
    lemma_text_lines_joined(lines);
    lemma_apply_lines_all(lines, 1, Map::empty());
    assert(lines.skip(1) =~= all_lines(ms));
    lemma_read_blocks(ms, 2);
    lemma_written_registry(entries);
    assert(registry_record(registry) =~= written_record(ms));
    lemma_current_header_version(registry_text(registry));
    assert(declared_version(registry_text(registry)) == Ok::<nat, Failure>(2));
}

/// Saving is deterministic: two registries that remember the same networks with the same
/// memberships are written as the same text, whatever order the networks were remembered in.
pub proof fn lemma_saved_text_is_deterministic(a: MembershipRegistry, b: MembershipRegistry)
    requires
        sorted_keys(a.network_entries()),
        sorted_keys(b.network_entries()),
        a.network_map() == b.network_map(),
    ensures
        registry_text(a) == registry_text(b),
{
    let ea = a.network_entries();
    let eb = b.network_entries();
    assert forall|k: Seq<u8>| #[trigger] table_view(ea).contains_key(k) implies table_view(eb).contains_key(k)
        && table_view(ea)[k] == table_view(eb)[k] by {
        assert(a.network_map().contains_key(k));
        assert(b.network_map().contains_key(k));
        let x = table_view(ea)[k];
        let y = table_view(eb)[k];
        assert(x.1 == a.network_map()[k]);
        assert(y.1 == b.network_map()[k]);
        lemma_sorted_key_entry(ea, k);
        lemma_sorted_key_entry(eb, k);
        assert(x.0.0 =~= y.0.0);
    }
    assert forall|k: Seq<u8>| #[trigger] table_view(eb).contains_key(k) implies table_view(ea).contains_key(k) by {
        assert(b.network_map().contains_key(k));
        assert(a.network_map().contains_key(k));
    }
    assert(table_view(ea) =~= table_view(eb));
    lemma_table_equal_entries(ea, eb);
}

/// The entry a sorted table holds under a key has that key.
proof fn lemma_sorted_key_entry(entries: Seq<(NetworkId, NetworkMembership)>, key: Seq<u8>)
    requires
        sorted_keys(entries),
        table_view(entries).contains_key(key),
    ensures
        table_view(entries)[key].0.0@ == key,
{
    lemma_sorted_index_unique(entries, key_index(entries, key));
}

/// Migrating a version 1 file changes only its header: every record line after it is kept,
/// in order.
pub proof fn lemma_migration_keeps_records(text: Seq<char>)
    requires
        text_lines(text).len() > 0,
        forall|i: int| 0 <= i < text_lines(text).len() ==> plain_line(#[trigger] text_lines(text)[i]),
    ensures
        text_lines(v1_rewritten(text)) == seq![header()] + text_lines(text).skip(1),
{
    let rest = text_lines(text).skip(1);
    assert forall|i: int| 0 <= i < rest.len() implies plain_line(#[trigger] rest[i]) by {
        assert(rest[i] == text_lines(text)[i + 1]);
    }
    lemma_text_lines_joined(rest);
    lemma_current_header_plain();
    lemma_text_lines_first(header(), joined_lines(rest));
}

proof fn lemma_current_header_plain()
    ensures
        plain_line(header()),
{
    reveal_strlit("BLUEROUTE_MEMBERSHIP_V2");
    assert forall|i: int| 0 <= i < header().len() implies header()[i] != '\n' by {}
}

} // verus!
