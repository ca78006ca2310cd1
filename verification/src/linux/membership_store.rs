use vstd::prelude::*;

use crate::domain::error::{CoreError, ErrorKind};
use crate::domain::hex::{
    decode_hex_bytes, encode_hex, hex_decode, hex_encode, hex_id_error, hex_text_error, parse_hex_id,
};
use crate::domain::id::{display_name_error, valid_display_name, DisplayName, NetworkId, NodeId};
use crate::domain::membership::{MembershipRegistry, MembershipState, NetworkMembership, PeerMembership};
use crate::text::{
    all_digits, chars_match, chars_of, decimal, joined_lines, digits_value, has_prefix, int_error_text,
    is_all_digits, lines_of, parse_u32_digits, push_decimal, push_str, split_char, split_on,
    starts_with, string_from_chars, string_from_utf8, text_lines, trim_chars, utf8_error_text,
};
use vstd::string::StringSliceAdditionalSpecFns;
use vstd::utf8::{decode_utf8, encode_utf8, valid_utf8};

verus! {

/// What the file keeps of one network: its name, its stable membership state, and each
/// peer's (member, trusted) flags by identifier bytes.
pub type NetworkRecord = (Seq<char>, MembershipState, Map<Seq<u8>, (bool, bool)>);

/// What the file keeps of a registry, by network identifier bytes.
pub type RegistryRecord = Map<Seq<u8>, NetworkRecord>;

/// A refusal: the error's message and diagnostic.
pub type Failure = (Seq<char>, Option<Seq<char>>);

pub open spec fn network_record(membership: NetworkMembership) -> NetworkRecord {
    (membership.spec_network_name()@, membership.spec_state(), membership.peer_status())
}

pub open spec fn registry_record(registry: MembershipRegistry) -> RegistryRecord {
    registry.network_map().map_values(|membership: NetworkMembership| network_record(membership))
}

/// Every network is kept under its own identifier.
pub open spec fn registry_consistent(registry: MembershipRegistry) -> bool {
    forall|key: Seq<u8>|
        #[trigger] registry.network_map().contains_key(key) ==> registry.network_map()[key].spec_network_id().0@
            == key
}

pub open spec fn header() -> Seq<char> {
    "BLUEROUTE_MEMBERSHIP_V2"@
}

pub open spec fn malformed_message(detail: Seq<char>) -> Seq<char> {
    "network membership state is malformed: "@ + detail
}

pub open spec fn line_prefix(number: nat) -> Seq<char> {
    "line "@ + decimal(number) + ": "@
}

pub open spec fn line_failure(number: nat, message: Seq<char>) -> Failure {
    (malformed_message(line_prefix(number) + message), None)
}

pub open spec fn value_failure(number: nat, message: Seq<char>, detail: Seq<char>) -> Failure {
    (malformed_message(line_prefix(number) + message), Some(detail))
}

/// The error reports this failure.
pub open spec fn reports(error: CoreError, failure: Failure) -> bool {
    &&& error.spec_kind() == ErrorKind::PersistenceError
    &&& error.spec_message() == failure.0
    &&& error.spec_diagnostic() == failure.1
}

pub open spec fn field(fields: Seq<Seq<char>>, i: int) -> Option<Seq<char>> {
    if 0 <= i < fields.len() {
        Some(fields[i])
    } else {
        None
    }
}

/// The identifier bytes that identifier text gives.
pub open spec fn id_of(text: Seq<char>) -> Option<Seq<u8>> {
    parse_hex_id(encode_utf8(text))
}

pub open spec fn durable_state(text: Seq<char>) -> Option<MembershipState> {
    if text == "not-member"@ {
        Some(MembershipState::NotMember)
    } else if text == "member"@ {
        Some(MembershipState::Member)
    } else {
        None
    }
}

pub open spec fn flag(text: Seq<char>) -> Option<bool> {
    if text == "0"@ {
        Some(false)
    } else if text == "1"@ {
        Some(true)
    } else {
        None
    }
}

/// A network record line's fields applied to what was read so far.
pub open spec fn apply_network(record: RegistryRecord, fields: Seq<Seq<char>>, number: nat) -> Result<
    RegistryRecord,
    Failure,
> {
    match field(fields, 1) {
        None => Err(line_failure(number, "missing network id"@)),
        Some(id_text) => match id_of(id_text) {
            None => Err(
                value_failure(number, "invalid network id"@, hex_id_error(encode_utf8(id_text))),
            ),
            Some(id) => if record.contains_key(id) {
                Err(line_failure(number, "duplicate network record"@))
            } else {
                match field(fields, 2) {
                    None => Err(line_failure(number, "missing membership state"@)),
                    Some(state_text) => match durable_state(state_text) {
                        None => Err(line_failure(number, "invalid membership state"@)),
                        Some(state) => match field(fields, 3) {
                            None => Err(line_failure(number, "missing network name"@)),
                            Some(hex) => {
                                let bytes = encode_utf8(hex);
                                if hex_text_error(bytes) == Some(true) {
                                    Err(line_failure(number, "hex field has an odd length"@))
                                } else if hex_text_error(bytes) == Some(false) {
                                    Err(line_failure(number, "hex field contains invalid data"@))
                                } else {
                                    let raw = hex_decode(bytes);
                                    if !valid_utf8(raw) {
                                        Err(
                                            value_failure(
                                                number,
                                                "network name is not valid UTF-8"@,
                                                utf8_error_text(raw),
                                            ),
                                        )
                                    } else if !valid_display_name(decode_utf8(raw)) {
                                        Err(
                                            value_failure(
                                                number,
                                                "invalid network name"@,
                                                display_name_error(decode_utf8(raw)),
                                            ),
                                        )
                                    } else if fields.len() > 4 {
                                        Err(line_failure(number, "record has too many fields"@))
                                    } else {
                                        Ok(
                                            record.insert(
                                                id,
                                                (
                                                    trim_chars(decode_utf8(raw)),
                                                    state,
                                                    Map::empty(),
                                                ),
                                            ),
                                        )
                                    }
                                }
                            },
                        },
                    },
                }
            },
        },
    }
}

/// A peer record line's fields applied to what was read so far.
pub open spec fn apply_peer(record: RegistryRecord, fields: Seq<Seq<char>>, number: nat) -> Result<
    RegistryRecord,
    Failure,
> {
    match field(fields, 1) {
        None => Err(line_failure(number, "missing network id"@)),
        Some(network_text) => match id_of(network_text) {
            None => Err(
                value_failure(
                    number,
                    "invalid network id"@,
                    hex_id_error(encode_utf8(network_text)),
                ),
            ),
            Some(network) => match field(fields, 2) {
                None => Err(line_failure(number, "missing peer node id"@)),
                Some(node_text) => match id_of(node_text) {
                    None => Err(
                        value_failure(
                            number,
                            "invalid peer node id"@,
                            hex_id_error(encode_utf8(node_text)),
                        ),
                    ),
                    Some(node) => match field(fields, 3) {
                        None => Err(line_failure(number, "missing peer member flag"@)),
                        Some(member_text) => match flag(member_text) {
                            None => Err(line_failure(number, "invalid boolean flag"@)),
                            Some(member) => match field(fields, 4) {
                                None => Err(line_failure(number, "missing peer trust flag"@)),
                                Some(trust_text) => match flag(trust_text) {
                                    None => Err(line_failure(number, "invalid boolean flag"@)),
                                    Some(trusted) => if !record.contains_key(network) {
                                        Err(
                                            line_failure(
                                                number,
                                                "peer record refers to a network that has not been declared"@,
                                            ),
                                        )
                                    } else if record[network].2.contains_key(node) {
                                        Err(line_failure(number, "duplicate peer record"@))
                                    } else if fields.len() > 5 {
                                        Err(line_failure(number, "record has too many fields"@))
                                    } else {
                                        Ok(
                                            record.insert(
                                                network,
                                                (
                                                    record[network].0,
                                                    record[network].1,
                                                    record[network].2.insert(
                                                        node,
                                                        (member, trusted),
                                                    ),
                                                ),
                                            ),
                                        )
                                    },
                                },
                            },
                        },
                    },
                },
            },
        },
    }
}

/// One record line, numbered `number` in the file, applied to what was read so far.
pub open spec fn apply_line(record: RegistryRecord, line: Seq<char>, number: nat) -> Result<
    RegistryRecord,
    Failure,
> {
    if line.len() == 0 {
        Err(line_failure(number, "blank records are not allowed"@))
    } else {
        let fields = split_char(line, '\t');
        if fields[0] == "network"@ {
            apply_network(record, fields, number)
        } else if fields[0] == "peer"@ {
            apply_peer(record, fields, number)
        } else {
            Err(line_failure(number, "unknown record type"@))
        }
    }
}

/// The records from line index `k` on, applied in order.
pub open spec fn apply_lines(lines: Seq<Seq<char>>, k: int, record: RegistryRecord) -> Result<
    RegistryRecord,
    Failure,
>
    decreases lines.len() - k,
{
    if k >= lines.len() || k < 0 {
        Ok(record)
    } else {
        match apply_line(record, lines[k], (k + 1) as nat) {
            Ok(next) => apply_lines(lines, k + 1, next),
            Err(failure) => Err(failure),
        }
    }
}

/// What a current-format membership file holds, or why it is refused.
pub open spec fn read_registry(text: Seq<char>) -> Result<RegistryRecord, Failure> {
    let lines = text_lines(text);
    if lines.len() == 0 || lines[0] != header() {
        Err((malformed_message("unsupported or missing current membership format header"@), None))
    } else {
        apply_lines(lines, 1, Map::empty())
    }
}

fn line_error(number: usize, message: &str) -> (error: CoreError)
    ensures
        reports(error, line_failure(number as nat, message@)),
{
    let mut text = String::from_str("network membership state is malformed: ");
    push_str(&mut text, "line ");
    push_decimal(&mut text, number as u64);
    push_str(&mut text, ": ");
    push_str(&mut text, message);
    assert(text@ =~= malformed_message(line_prefix(number as nat) + message@));
    CoreError::from_parts(ErrorKind::PersistenceError, text, None)
}

fn value_error(number: usize, message: &str, detail: String) -> (error: CoreError)
    ensures
        reports(error, value_failure(number as nat, message@, detail@)),
{
    let mut text = String::from_str("network membership state is malformed: ");
    push_str(&mut text, "line ");
    push_decimal(&mut text, number as u64);
    push_str(&mut text, ": ");
    push_str(&mut text, message);
    assert(text@ =~= malformed_message(line_prefix(number as nat) + message@));
    CoreError::from_parts(ErrorKind::PersistenceError, text, Some(detail))
}

fn field_text(fields: &Vec<Vec<char>>, i: usize) -> (text: String)
    requires
        i < fields@.len(),
    ensures
        text@ == fields@[i as int]@,
{
    let piece = &fields[i];
    let text = string_from_chars(piece, 0, piece.len());
    assert(piece@.subrange(0, piece@.len() as int) =~= piece@);
    text
}

fn parse_state(text: &Vec<char>) -> (state: Option<MembershipState>)
    ensures
        state == durable_state(text@),
{
    if chars_match(text, "not-member") {
        Some(MembershipState::NotMember)
    } else if chars_match(text, "member") {
        Some(MembershipState::Member)
    } else {
        None
    }
}

fn parse_flag(text: &Vec<char>) -> (value: Option<bool>)
    ensures
        value == flag(text@),
{
    if chars_match(text, "0") {
        Some(false)
    } else if chars_match(text, "1") {
        Some(true)
    } else {
        None
    }
}

pub open spec fn fields_view(fields: Seq<Vec<char>>) -> Seq<Seq<char>> {
    fields.map_values(|piece: Vec<char>| piece@)
}

fn read_network_record(registry: &mut MembershipRegistry, fields: &Vec<Vec<char>>, number: usize) -> (result: Result<(), CoreError>)
    requires
        registry_consistent(*old(registry)),
    ensures
        match apply_network(registry_record(*old(registry)), fields_view(fields@), number as nat) {
            Ok(next) => result is Ok && registry_record(*final(registry)) == next
                && registry_consistent(*final(registry)),
            Err(failure) => match result {
                Err(error) => reports(error, failure),
                Ok(_) => false,
            },
        },
{
    let ghost view = fields_view(fields@);
    let ghost before = registry_record(*registry);
    if fields.len() < 2 {
        return Err(line_error(number, "missing network id"));
    }
    let id_text = field_text(fields, 1);
    let id = match NetworkId::parse(id_text.as_str()) {
        Ok(id) => id,
        Err(error) => return Err(value_error(number, "invalid network id", error.to_string())),
    };
    assert(id_of(view[1]) == Some(id.0@));
    if registry.network(&id).is_some() {
        return Err(line_error(number, "duplicate network record"));
    }
    if fields.len() < 3 {
        return Err(line_error(number, "missing membership state"));
    }
    let state = match parse_state(&fields[2]) {
        Some(state) => state,
        None => return Err(line_error(number, "invalid membership state")),
    };
    if fields.len() < 4 {
        return Err(line_error(number, "missing network name"));
    }
    let hex_text = field_text(fields, 3);
    let raw = match decode_hex_bytes(hex_text.as_str().as_bytes()) {
        Ok(raw) => raw,
        Err(odd) => {
            if odd {
                return Err(line_error(number, "hex field has an odd length"));
            } else {
                return Err(line_error(number, "hex field contains invalid data"));
            }
        },
    };
    let name = match string_from_utf8(raw) {
        Ok(name) => name,
        Err(error) => return Err(value_error(number, "network name is not valid UTF-8", error)),
    };
    let display_name = match DisplayName::new(name.as_str()) {
        Ok(display_name) => display_name,
        Err(error) => return Err(value_error(number, "invalid network name", error.to_string())),
    };
    if fields.len() > 4 {
        return Err(line_error(number, "record has too many fields"));
    }
    let mut membership = NetworkMembership::new(id, display_name);
    membership.set_state(state);
    let ghost added = membership;
    registry.remember_network(membership);
    proof {
        assert(network_record(added) =~= (trim_chars(name@), state, Map::<Seq<u8>, (bool, bool)>::empty()));
        assert(registry_record(*registry) =~= before.insert(id.0@, network_record(added)));
        assert forall|key: Seq<u8>| #[trigger] registry.network_map().contains_key(key) implies registry.network_map()[key].spec_network_id().0@
            == key by {
            if key != id.0@ {
                assert(old(registry).network_map().contains_key(key));
            }
        }
    }
    Ok(())
}

fn read_peer_record(registry: &mut MembershipRegistry, fields: &Vec<Vec<char>>, number: usize) -> (result: Result<(), CoreError>)
    requires
        registry_consistent(*old(registry)),
    ensures
        match apply_peer(registry_record(*old(registry)), fields_view(fields@), number as nat) {
            Ok(next) => result is Ok && registry_record(*final(registry)) == next
                && registry_consistent(*final(registry)),
            Err(failure) => match result {
                Err(error) => reports(error, failure),
                Ok(_) => false,
            },
        },
{
    let ghost view = fields_view(fields@);
    let ghost before = registry_record(*registry);
    if fields.len() < 2 {
        return Err(line_error(number, "missing network id"));
    }
    let network_text = field_text(fields, 1);
    let network_id = match NetworkId::parse(network_text.as_str()) {
        Ok(id) => id,
        Err(error) => return Err(value_error(number, "invalid network id", error.to_string())),
    };
    if fields.len() < 3 {
        return Err(line_error(number, "missing peer node id"));
    }
    let node_text = field_text(fields, 2);
    let node_id = match NodeId::parse(node_text.as_str()) {
        Ok(id) => id,
        Err(error) => return Err(value_error(number, "invalid peer node id", error.to_string())),
    };
    if fields.len() < 4 {
        return Err(line_error(number, "missing peer member flag"));
    }
    let member = match parse_flag(&fields[3]) {
        Some(value) => value,
        None => return Err(line_error(number, "invalid boolean flag")),
    };
    if fields.len() < 5 {
        return Err(line_error(number, "missing peer trust flag"));
    }
    let trusted = match parse_flag(&fields[4]) {
        Some(value) => value,
        None => return Err(line_error(number, "invalid boolean flag")),
    };
    let ghost old_map = registry.network_map();
    let membership = match registry.network_mut(&network_id) {
        Some(membership) => membership,
        None => {
            return Err(
                line_error(number, "peer record refers to a network that has not been declared"),
            );
        },
    };
    if membership.is_peer_known(&node_id) {
        return Err(line_error(number, "duplicate peer record"));
    }
    if fields.len() > 5 {
        return Err(line_error(number, "record has too many fields"));
    }
    let ghost start = *membership;
    membership.remember_peer(node_id);
    membership.set_peer_member(node_id, member);
    if trusted {
        membership.trust_peer(node_id);
    }
    proof {
        assert(membership.peer_status() =~= start.peer_status().insert(node_id.0@, (member, trusted)));
    }
    let ghost updated = *membership;
    proof {
        assert(registry_record(*registry) =~= before.insert(network_id.0@, network_record(updated)));
        assert forall|key: Seq<u8>| #[trigger] registry.network_map().contains_key(key) implies registry.network_map()[key].spec_network_id().0@
            == key by {
            assert(old_map.contains_key(key));
        }
    }
    Ok(())
}

fn read_record_line(registry: &mut MembershipRegistry, line: &Vec<char>, number: usize) -> (result: Result<(), CoreError>)
    requires
        registry_consistent(*old(registry)),
    ensures
        match apply_line(registry_record(*old(registry)), line@, number as nat) {
            Ok(next) => result is Ok && registry_record(*final(registry)) == next
                && registry_consistent(*final(registry)),
            Err(failure) => match result {
                Err(error) => reports(error, failure),
                Ok(_) => false,
            },
        },
{
    if line.len() == 0 {
        return Err(line_error(number, "blank records are not allowed"));
    }
    let fields = split_on(line, '\t');
    proof {
        assert(fields@[0]@ == split_char(line@, '\t')[0]);
    }
    if chars_match(&fields[0], "network") {
        read_network_record(registry, &fields, number)
    } else if chars_match(&fields[0], "peer") {
        read_peer_record(registry, &fields, number)
    } else {
        Err(line_error(number, "unknown record type"))
    }
}

/// Reads a current-format membership file: a header line, then one record per line.
pub fn parse_registry(serialized: &str) -> (result: Result<MembershipRegistry, CoreError>)
    ensures
        match read_registry(serialized@) {
            Ok(record) => match result {
                Ok(registry) => registry_record(registry) == record && registry_consistent(registry),
                Err(_) => false,
            },
            Err(failure) => match result {
                Err(error) => reports(error, failure),
                Ok(_) => false,
            },
        },
{
    let lines = lines_of(serialized);
    let ghost view = text_lines(serialized@);
    proof {
        assert(lines@.len() == view.len());
        assert(forall|k: int| 0 <= k < lines@.len() ==> #[trigger] lines@[k]@ == view[k]);
    }
    if lines.len() == 0 || !chars_match(&lines[0], "BLUEROUTE_MEMBERSHIP_V2") {
        let mut message = String::from_str("network membership state is malformed: ");
        push_str(&mut message, "unsupported or missing current membership format header");
        return Err(CoreError::from_parts(ErrorKind::PersistenceError, message, None));
    }
    let mut registry = MembershipRegistry::new();
    proof {
        assert(registry_record(registry) =~= Map::<Seq<u8>, NetworkRecord>::empty());
        assert(lines@[0]@ == view[0]);
        assert(view[0] == header());
        assert(read_registry(serialized@) == apply_lines(view, 1, Map::empty()));
    }
    let mut k: usize = 1;
    while k < lines.len()
        invariant
            1 <= k <= lines@.len(),
            lines@.len() == view.len(),
            forall|j: int| 0 <= j < lines@.len() ==> #[trigger] lines@[j]@ == view[j],
            registry_consistent(registry),
            read_registry(serialized@) == apply_lines(view, 1, Map::empty()),
            apply_lines(view, 1, Map::empty()) == apply_lines(view, k as int, registry_record(registry)),
        decreases lines@.len() - k,
    {
        let ghost before = registry_record(registry);
        proof {
            assert(lines@[k as int]@ == view[k as int]);
        }
        let outcome = read_record_line(&mut registry, &lines[k], k + 1);
        proof {
            assert(apply_lines(view, k as int, before) == match apply_line(before, view[k as int], (k + 1) as nat) {
                Ok(next) => apply_lines(view, k + 1, next),
                Err(failure) => Err(failure),
            });
        }
        match outcome {
            Ok(()) => {},
            Err(error) => {
                proof {
                    let failure = apply_line(before, view[k as int], (k + 1) as nat)->Err_0;
                    assert(reports(error, failure));
                    assert(apply_lines(view, 1, Map::empty()) == Err::<RegistryRecord, Failure>(failure));
                    assert(read_registry(serialized@) == Err::<RegistryRecord, Failure>(failure));
                }
                return Err(error);
            },
        }
        k += 1;
    }
    Ok(registry)
}

pub open spec fn state_code(state: MembershipState) -> Seq<char> {
    match state {
        MembershipState::NotMember => "not-member"@,
        MembershipState::Member => "member"@,
        _ => Seq::empty(),
    }
}

pub open spec fn flag_code(value: bool) -> Seq<char> {
    if value {
        "1"@
    } else {
        "0"@
    }
}

/// The fields of a network's record line, tab-separated.
pub open spec fn network_fields(membership: NetworkMembership) -> Seq<char> {
    "network"@ + "\t"@ + hex_encode(membership.spec_network_id().0@) + "\t"@ + state_code(
        membership.spec_state(),
    ) + "\t"@ + hex_encode(encode_utf8(membership.spec_network_name()@))
}

/// The record line of a network.
pub open spec fn network_line(membership: NetworkMembership) -> Seq<char> {
    network_fields(membership) + "\n"@
}

/// The fields of the record line of a peer of `network`, tab-separated.
pub open spec fn peer_fields(network: NetworkId, peer: PeerMembership) -> Seq<char> {
    "peer"@ + "\t"@ + hex_encode(network.0@) + "\t"@ + hex_encode(peer.spec_node_id().0@) + "\t"@
        + flag_code(peer.spec_is_member()) + "\t"@ + flag_code(peer.spec_is_trusted())
}

/// The record line of a peer of `network`.
pub open spec fn peer_line(network: NetworkId, peer: PeerMembership) -> Seq<char> {
    peer_fields(network, peer) + "\n"@
}

pub open spec fn peer_lines(network: NetworkId, peers: Seq<PeerMembership>) -> Seq<char>
    decreases peers.len(),
{
    if peers.len() == 0 {
        Seq::empty()
    } else {
        peer_lines(network, peers.drop_last()) + peer_line(network, peers.last())
    }
}

/// A network's line followed by its peers' lines.
pub open spec fn network_block(membership: NetworkMembership) -> Seq<char> {
    network_line(membership) + peer_lines(membership.spec_network_id(), membership.peer_entries())
}

pub open spec fn network_blocks(memberships: Seq<NetworkMembership>) -> Seq<char>
    decreases memberships.len(),
{
    if memberships.len() == 0 {
        Seq::empty()
    } else {
        network_blocks(memberships.drop_last()) + network_block(memberships.last())
    }
}

pub open spec fn registry_networks(registry: MembershipRegistry) -> Seq<NetworkMembership> {
    registry.network_entries().map_values(|entry: (NetworkId, NetworkMembership)| entry.1)
}

/// The text `serialize_registry` writes for a registry.
pub open spec fn registry_text(registry: MembershipRegistry) -> Seq<char> {
    header() + "\n"@ + network_blocks(registry_networks(registry))
}

/// Only stable membership states can be written.
pub open spec fn persistable(registry: MembershipRegistry) -> bool {
    forall|i: int|
        0 <= i < registry_networks(registry).len() ==> {
            let state = (#[trigger] registry_networks(registry)[i]).spec_state();
            state == MembershipState::NotMember || state == MembershipState::Member
        }
}

fn push_flag(text: &mut String, value: bool)
    ensures
        final(text)@ == old(text)@ + flag_code(value),
{
    if value {
        push_str(text, "1");
    } else {
        push_str(text, "0");
    }
}

fn push_peer_lines(output: &mut String, network: NetworkId, membership: &NetworkMembership)
    ensures
        final(output)@ == old(output)@ + peer_lines(network, membership.peer_entries()),
{
    let peers = membership.peers();
    let network_text = network.to_string();
    let mut j: usize = 0;
    while j < peers.len()
        invariant
            j <= peers@.len(),
            peers@ == membership.peer_entries(),
            network_text@ == hex_encode(network.0@),
            output@ == old(output)@ + peer_lines(network, peers@.take(j as int)),
        decreases peers@.len() - j,
    {
        let peer = peers[j];
        let ghost before = output@;
        push_str(output, "peer");
        push_str(output, "\t");
        push_str(output, network_text.as_str());
        push_str(output, "\t");
        let node_text = peer.node().to_string();
        push_str(output, node_text.as_str());
        push_str(output, "\t");
        push_flag(output, peer.is_member());
        push_str(output, "\t");
        push_flag(output, peer.is_trusted());
        push_str(output, "\n");
        proof {
            assert(peers@.take(j + 1).drop_last() =~= peers@.take(j as int));
            assert(output@ =~= before + peer_line(network, peer));
        }
        j += 1;
    }
    assert(peers@.take(peers@.len() as int) =~= peers@);
}

fn push_network_line(output: &mut String, membership: &NetworkMembership, code: &str)
    requires
        code@ == state_code(membership.spec_state()),
    ensures
        final(output)@ == old(output)@ + network_line(*membership),
{
    push_str(output, "network");
    push_str(output, "\t");
    let id_text = membership.id().to_string();
    push_str(output, id_text.as_str());
    push_str(output, "\t");
    push_str(output, code);
    push_str(output, "\t");
    let name_hex = encode_hex(membership.name().as_str().as_bytes());
    push_str(output, name_hex.as_str());
    push_str(output, "\n");
    assert(final(output)@ =~= old(output)@ + network_line(*membership));
}

/// Writes the registry in the current format: the header line, then each network's line
/// followed by its peers' lines, networks and peers in increasing identifier order.
pub fn serialize_registry(registry: &MembershipRegistry) -> (result: Result<String, CoreError>)
    ensures
        result is Ok <==> persistable(*registry),
        match result {
            Ok(text) => text@ == registry_text(*registry),
            Err(error) => error.spec_kind() == ErrorKind::PersistenceError && error.spec_message()
                == "cannot persist a transient network membership state"@
                && error.spec_diagnostic() is None,
        },
{
    let mut output = String::from_str("BLUEROUTE_MEMBERSHIP_V2");
    push_str(&mut output, "\n");
    let networks = registry.networks();
    let ghost all = registry_networks(*registry);
    let mut i: usize = 0;
    while i < networks.len()
        invariant
            i <= networks@.len(),
            networks@.len() == all.len(),
            all == registry_networks(*registry),
            forall|k: int| 0 <= k < networks@.len() ==> *networks@[k] == #[trigger] all[k],
            forall|k: int| 0 <= k < i ==> {
                let state = (#[trigger] all[k]).spec_state();
                state == MembershipState::NotMember || state == MembershipState::Member
            },
            output@ == header() + "\n"@ + network_blocks(all.take(i as int)),
        decreases networks@.len() - i,
    {
        let membership = networks[i];
        let code = match membership.membership_state() {
            MembershipState::NotMember => "not-member",
            MembershipState::Member => "member",
            _ => {
                proof {
                    assert(*networks@[i as int] == all[i as int]);
                    assert(!persistable(*registry));
                }
                return Err(
                    CoreError::new(
                        ErrorKind::PersistenceError,
                        "cannot persist a transient network membership state",
                    ),
                );
            },
        };
        let id = membership.id();
        push_network_line(&mut output, membership, code);
        push_peer_lines(&mut output, id, membership);
        proof {
            assert(all.take(i + 1).drop_last() =~= all.take(i as int));
            assert(output@ =~= header() + "\n"@ + network_blocks(all.take(i + 1)));
        }
        i += 1;
    }
    assert(all.take(all.len() as int) =~= all);
    Ok(output)
}

/// The format version a membership file declares in its first line, or why it has none.
pub open spec fn declared_version(text: Seq<char>) -> Result<nat, Failure> {
    let lines = text_lines(text);
    let prefix = "BLUEROUTE_MEMBERSHIP_V"@;
    if lines.len() == 0 {
        Err((malformed_message("missing membership format header"@), None))
    } else if !has_prefix(lines[0], prefix) {
        Err((malformed_message("unsupported or missing membership format header"@), None))
    } else {
        let digits = lines[0].skip(prefix.len() as int);
        if digits.len() == 0 || !all_digits(digits) {
            Err((malformed_message("membership format version is invalid"@), None))
        } else if digits_value(digits) > u32::MAX {
            Err(value_failure(1, "invalid membership format version"@, int_error_text(digits)))
        } else {
            Ok(digits_value(digits))
        }
    }
}

/// A version 1 file rewritten under the current header.
pub open spec fn v1_rewritten(text: Seq<char>) -> Seq<char> {
    header() + "\n"@ + joined_lines(text_lines(text).skip(1))
}

/// What migrating a membership file to the current format gives: the current text and
/// whether it changed, or why it is refused.
pub open spec fn migration(text: Seq<char>) -> Result<(Seq<char>, bool), Failure> {
    match declared_version(text) {
        Err(failure) => Err(failure),
        Ok(version) => if version > 2 {
            Err(
                (
                    "network membership state uses unsupported future schema version "@
                        + decimal(version) + "; current version is "@ + decimal(2),
                    None,
                ),
            )
        } else if version == 2 {
            Ok((text, false))
        } else if version == 1 {
            if text_lines(text)[0] != "BLUEROUTE_MEMBERSHIP_V1"@ {
                Err(("network membership v1 migration received the wrong source schema"@, None))
            } else {
                match read_registry(v1_rewritten(text)) {
                    Err(failure) => Err(failure),
                    Ok(_) => Ok((v1_rewritten(text), true)),
                }
            }
        } else {
            Err(
                (
                    "no network membership migration path exists from schema version "@
                        + decimal(version),
                    None,
                ),
            )
        }
    }
}

/// The format version declared by the first line of a membership file.
pub fn detect_format_version(serialized: &str) -> (result: Result<u32, CoreError>)
    ensures
        match declared_version(serialized@) {
            Ok(version) => result == Ok::<u32, CoreError>(version as u32),
            Err(failure) => match result {
                Err(error) => reports(error, failure),
                Ok(_) => false,
            },
        },
{
    let lines = lines_of(serialized);
    proof {
        assert(lines@.len() == text_lines(serialized@).len());
        if lines@.len() > 0 {
            assert(lines@[0]@ == text_lines(serialized@)[0]);
        }
    }
    if lines.len() == 0 {
        let mut message = String::from_str("network membership state is malformed: ");
        push_str(&mut message, "missing membership format header");
        return Err(CoreError::from_parts(ErrorKind::PersistenceError, message, None));
    }
    let first = &lines[0];
    if !starts_with(first, "BLUEROUTE_MEMBERSHIP_V") {
        let mut message = String::from_str("network membership state is malformed: ");
        push_str(&mut message, "unsupported or missing membership format header");
        return Err(CoreError::from_parts(ErrorKind::PersistenceError, message, None));
    }
    let prefix_len: usize = 22;
    proof {
        reveal_strlit("BLUEROUTE_MEMBERSHIP_V");
    }
    let digits = string_from_chars(first, prefix_len, first.len());
    let digit_chars = chars_of(digits.as_str());
    assert(digit_chars@ =~= first@.skip(22));
    if digit_chars.len() == 0 || !is_all_digits(&digit_chars) {
        let mut message = String::from_str("network membership state is malformed: ");
        push_str(&mut message, "membership format version is invalid");
        return Err(CoreError::from_parts(ErrorKind::PersistenceError, message, None));
    }
    match parse_u32_digits(digits.as_str()) {
        Ok(version) => Ok(version),
        Err(error) => Err(value_error(1, "invalid membership format version", error)),
    }
}

/// Rewrites a version 1 file under the current header, refusing it unless the result reads.
pub fn migrate_v1_to_v2(serialized: &str) -> (result: Result<String, CoreError>)
    ensures
        match result {
            Ok(text) => text_lines(serialized@).len() > 0 && text_lines(serialized@)[0]
                == "BLUEROUTE_MEMBERSHIP_V1"@ && text@ == v1_rewritten(serialized@) && read_registry(
                text@,
            ) is Ok,
            Err(error) => if text_lines(serialized@).len() > 0 && text_lines(serialized@)[0]
                == "BLUEROUTE_MEMBERSHIP_V1"@ {
                match read_registry(v1_rewritten(serialized@)) {
                    Err(failure) => reports(error, failure),
                    Ok(_) => false,
                }
            } else {
                error.spec_kind() == ErrorKind::PersistenceError && error.spec_message()
                    == "network membership v1 migration received the wrong source schema"@
                    && error.spec_diagnostic() is None
            },
        },
{
    let lines = lines_of(serialized);
    let ghost view = text_lines(serialized@);
    proof {
        assert(lines@.len() == view.len());
        assert(forall|k: int| 0 <= k < lines@.len() ==> #[trigger] lines@[k]@ == view[k]);
    }
    if lines.len() == 0 || !chars_match(&lines[0], "BLUEROUTE_MEMBERSHIP_V1") {
        return Err(
            CoreError::new(
                ErrorKind::PersistenceError,
                "network membership v1 migration received the wrong source schema",
            ),
        );
    }
    let mut migrated = String::from_str("BLUEROUTE_MEMBERSHIP_V2");
    push_str(&mut migrated, "\n");
    let ghost rest = view.skip(1);
    let mut k: usize = 1;
    while k < lines.len()
        invariant
            1 <= k <= lines@.len(),
            lines@.len() == view.len(),
            rest == view.skip(1),
            forall|j: int| 0 <= j < lines@.len() ==> #[trigger] lines@[j]@ == view[j],
            migrated@ == header() + "\n"@ + joined_lines(rest.take(k - 1)),
        decreases lines@.len() - k,
    {
        let line = &lines[k];
        let text = string_from_chars(line, 0, line.len());
        assert(line@.subrange(0, line@.len() as int) =~= line@);
        let ghost before = migrated@;
        push_str(&mut migrated, text.as_str());
        push_str(&mut migrated, "\n");
        proof {
            assert(rest.take(k as int).drop_last() =~= rest.take(k - 1));
            assert(rest.take(k as int).last() == view[k as int]);
            assert(migrated@ =~= header() + "\n"@ + joined_lines(rest.take(k as int)));
        }
        k += 1;
    }
    assert(rest.take(rest.len() as int) =~= rest);
    match parse_registry(migrated.as_str()) {
        Ok(_) => Ok(migrated),
        Err(error) => Err(error),
    }
}

/// A membership file's text in the current format, and whether it had to be migrated.
#[derive(Debug, PartialEq, Eq)]
pub struct MigrationResult {
    pub serialized: String,
    pub migrated: bool,
}

/// Brings a membership file of any supported version to the current format.
pub fn migrate_to_current(serialized: &str) -> (result: Result<MigrationResult, CoreError>)
    ensures
        match migration(serialized@) {
            Ok((text, migrated)) => match result {
                Ok(done) => done.serialized@ == text && done.migrated == migrated,
                Err(_) => false,
            },
            Err(failure) => match result {
                Err(error) => reports(error, failure),
                Ok(_) => false,
            },
        },
{
    let version = match detect_format_version(serialized) {
        Ok(version) => version,
        Err(error) => return Err(error),
    };
    if version > 2 {
        let mut message = String::from_str(
            "network membership state uses unsupported future schema version ",
        );
        push_decimal(&mut message, version as u64);
        push_str(&mut message, "; current version is ");
        push_decimal(&mut message, 2);
        return Err(CoreError::from_parts(ErrorKind::PersistenceError, message, None));
    }
    if version == 2 {
        return Ok(MigrationResult { serialized: String::from_str(serialized), migrated: false });
    }
    if version == 1 {
        return match migrate_v1_to_v2(serialized) {
            Ok(text) => Ok(MigrationResult { serialized: text, migrated: true }),
            Err(error) => Err(error),
        };
    }
    let mut message = String::from_str(
        "no network membership migration path exists from schema version ",
    );
    push_decimal(&mut message, version as u64);
    Err(CoreError::from_parts(ErrorKind::PersistenceError, message, None))
}

} // verus!
