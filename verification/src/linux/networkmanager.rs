use vstd::prelude::*;

use crate::domain::error::{CoreError, ErrorKind};
use crate::domain::hex::{encode_hex, hex_digit, hex_encode};
use crate::domain::id::NetworkId;
use crate::linux::handles::{NetworkConnection, NetworkDevice, NetworkInterfaceHandle, NetworkStateEvent};
use crate::text::{chars_of, push_char, push_str};
use vstd::string::StringSliceAdditionalSpecFns;

verus! {

/// The ownership kind of a bridge profile.
pub const KIND_BRIDGE: &'static str = "bridge";

/// The ownership kind of an interface profile.
pub const KIND_INTERFACE: &'static str = "interface";

/// A Linux interface name is at most 15 bytes, without `/` or NUL.
pub open spec fn interface_name_error(name: Seq<char>) -> Option<Seq<char>> {
    if vstd::utf8::encode_utf8(name).len() > 15 {
        Some("Linux network interface names cannot exceed 15 bytes"@)
    } else if exists|i: int| 0 <= i < name.len() && (name[i] == '/' || name[i] == '\0') {
        Some("network interface name contains invalid characters"@)
    } else {
        None
    }
}

/// Refuses interface names that Linux does not accept, before any request is made.
pub fn validate_interface_name(interface: &NetworkInterfaceHandle) -> (result: Result<(), CoreError>)
    ensures
        match (interface_name_error(interface@), result) {
            (None, Ok(())) => true,
            (Some(message), Err(error)) => error.spec_kind() == ErrorKind::InvalidInput
                && error.spec_message() == message && error.spec_diagnostic() == Some(interface@),
            _ => false,
        },
{
    let name = interface.as_str();
    if name.as_bytes().len() > 15 {
        return Err(
            CoreError::with_diagnostic(
                ErrorKind::InvalidInput,
                "Linux network interface names cannot exceed 15 bytes",
                name,
            ),
        );
    }
    let chars = chars_of(name);
    let mut i: usize = 0;
    while i < chars.len()
        invariant
            i <= chars@.len(),
            chars@ == name@,
            name@ == interface@,
            vstd::utf8::encode_utf8(name@).len() <= 15,
            forall|j: int| 0 <= j < i ==> chars@[j] != '/' && chars@[j] != '\0',
        decreases chars@.len() - i,
    {
        if chars[i] == '/' || chars[i] == '\0' {
            assert(0 <= i < name@.len() && (name@[i as int] == '/' || name@[i as int] == '\0'));
            return Err(
                CoreError::with_diagnostic(
                    ErrorKind::InvalidInput,
                    "network interface name contains invalid characters",
                    name,
                ),
            );
        }
        i += 1;
    }
    Ok(())
}

/// The first eight hexadecimal characters of an owner's identifier.
pub fn short_owner(owner: NetworkId) -> (text: String)
    ensures
        text@ == hex_encode(owner.0@).take(8),
{
    let full = owner.to_string();
    let chars = chars_of(full.as_str());
    crate::text::string_from_chars(&chars, 0, 8)
}

/// `value` rotated left by `amount` bits (below 8).
pub open spec fn rotl(value: u8, amount: u8) -> u8 {
    if amount == 0 {
        value
    } else {
        ((value << amount) | (value >> ((8 - amount) as u8))) as u8
    }
}

fn rotate_left(value: u8, amount: u8) -> (rotated: u8)
    requires
        amount < 8,
    ensures
        rotated == rotl(value, amount),
{
    if amount == 0 {
        value
    } else {
        (value << amount) | (value >> (8 - amount))
    }
}

/// One mixing step: byte `byte` at input position `index` stirred into the state.
pub open spec fn mix_step(state: Seq<u8>, index: nat, byte: u8) -> Seq<u8> {
    let slot = (index % 16) as int;
    let mixed = rotl(
        ((byte + rotl((index % 256) as u8, (slot % 7) as u8)) % 256) as u8,
        (slot % 5) as u8,
    );
    let stirred = state.update(slot, ((state[slot] * 31 + mixed) % 256) as u8);
    let other = (slot + 7) % 16;
    stirred.update(other, stirred[other] ^ rotl(mixed, 3))
}

/// The state after stirring in every byte of `input`, starting from `state`.
pub open spec fn mix_all(state: Seq<u8>, input: Seq<u8>) -> Seq<u8>
    decreases input.len(),
{
    if input.len() == 0 {
        state
    } else {
        mix_step(mix_all(state, input.drop_last()), (input.len() - 1) as nat, input.last())
    }
}

/// The state with the version-5 and RFC 4122 variant bits set.
pub open spec fn uuid_bits(state: Seq<u8>) -> Seq<u8> {
    state.update(6, (state[6] & 0x0f) | 0x50).update(8, (state[8] & 0x3f) | 0x80)
}

/// `8-4-4-4-12` hexadecimal text of 16 bytes.
pub open spec fn uuid_text(bytes: Seq<u8>) -> Seq<char> {
    hex_encode(bytes.subrange(0, 4)) + seq!['-'] + hex_encode(bytes.subrange(4, 6)) + seq!['-']
        + hex_encode(bytes.subrange(6, 8)) + seq!['-'] + hex_encode(bytes.subrange(8, 10)) + seq![
        '-',
    ] + hex_encode(bytes.subrange(10, 16))
}

/// The bytes a profile identifier is derived from: the interface name, a 0xff separator, and
/// the profile kind.
pub open spec fn uuid_input(interface: Seq<char>, kind: Seq<char>) -> Seq<u8> {
    vstd::utf8::encode_utf8(interface) + seq![0xffu8] + vstd::utf8::encode_utf8(kind)
}

fn push_hex_range(text: &mut String, bytes: &[u8; 16], start: usize, end: usize)
    requires
        start <= end <= 16,
    ensures
        final(text)@ == old(text)@ + hex_encode(bytes@.subrange(start as int, end as int)),
{
    let mut part: Vec<u8> = Vec::new();
    let mut i = start;
    while i < end
        invariant
            start <= i <= end <= 16,
            part@ == bytes@.subrange(start as int, i as int),
        decreases end - i,
    {
        part.push(bytes[i]);
        i += 1;
        assert(part@ =~= bytes@.subrange(start as int, i as int));
    }
    let hex = encode_hex(part.as_slice());
    push_str(text, hex.as_str());
}

/// A stable UUID-shaped identifier for the profile of `kind` on `interface`, owned by
/// `owner`. It is an identity key, not a cryptographic digest.
pub fn profile_uuid(owner: NetworkId, interface: &NetworkInterfaceHandle, kind: &str) -> (uuid: String)
    ensures
        uuid@ == uuid_text(uuid_bits(mix_all(owner.0@, uuid_input(interface@, kind@)))),
{
    let ghost input = uuid_input(interface@, kind@);
    let mut data: Vec<u8> = Vec::new();
    let name_bytes = interface.as_str().as_bytes();
    let mut k: usize = 0;
    while k < name_bytes.len()
        invariant
            k <= name_bytes@.len(),
            data@ == name_bytes@.take(k as int),
        decreases name_bytes@.len() - k,
    {
        data.push(name_bytes[k]);
        k += 1;
        assert(data@ =~= name_bytes@.take(k as int));
    }
    data.push(0xff);
    let kind_bytes = kind.as_bytes();
    let ghost head = data@;
    let mut k: usize = 0;
    while k < kind_bytes.len()
        invariant
            k <= kind_bytes@.len(),
            data@ == head + kind_bytes@.take(k as int),
        decreases kind_bytes@.len() - k,
    {
        data.push(kind_bytes[k]);
        k += 1;
        assert(data@ =~= head + kind_bytes@.take(k as int));
    }
    assert(name_bytes@.take(name_bytes@.len() as int) =~= name_bytes@);
    assert(kind_bytes@.take(kind_bytes@.len() as int) =~= kind_bytes@);
    assert(data@ =~= input);
    let mut bytes = owner.0;
    let mut index: usize = 0;
    while index < data.len()
        invariant
            index <= data@.len(),
            data@ == input,
            bytes@ == mix_all(owner.0@, input.take(index as int)),
            bytes@.len() == 16,
        decreases data@.len() - index,
    {
        let byte = data[index];
        let slot = index % 16;
        let shifted = rotate_left((index % 256) as u8, (slot % 7) as u8);
        let mixed = rotate_left(((byte as u16 + shifted as u16) % 256) as u8, (slot % 5) as u8);
        let stirred = ((bytes[slot] as u16 * 31 + mixed as u16) % 256) as u8;
        bytes[slot] = stirred;
        let other = (slot + 7) % 16;
        bytes[other] = bytes[other] ^ rotate_left(mixed, 3);
        proof {
            assert(input.take(index + 1).drop_last() =~= input.take(index as int));
            assert(input.take(index + 1).last() == byte);
        }
        index += 1;
    }
    assert(input.take(input.len() as int) =~= input);
    let ghost mixed_state = bytes@;
    bytes[6] = (bytes[6] & 0x0f) | 0x50;
    bytes[8] = (bytes[8] & 0x3f) | 0x80;
    assert(bytes@ =~= uuid_bits(mixed_state));
    let mut text = String::new();
    push_hex_range(&mut text, &bytes, 0, 4);
    push_char(&mut text, '-');
    push_hex_range(&mut text, &bytes, 4, 6);
    push_char(&mut text, '-');
    push_hex_range(&mut text, &bytes, 6, 8);
    push_char(&mut text, '-');
    push_hex_range(&mut text, &bytes, 8, 10);
    push_char(&mut text, '-');
    push_hex_range(&mut text, &bytes, 10, 16);
    text
}

/// Profile identifiers have the shape of a version 5 RFC 4122 UUID: 36 characters, version
/// digit `5` and a variant digit of `8`, `9`, `a` or `b`.
pub proof fn lemma_profile_uuid_shape(state: Seq<u8>)
    requires
        state.len() == 16,
    ensures
        uuid_text(uuid_bits(state)).len() == 36,
        uuid_text(uuid_bits(state))[14] == '5',
        uuid_text(uuid_bits(state))[19] == '8' || uuid_text(uuid_bits(state))[19] == '9'
            || uuid_text(uuid_bits(state))[19] == 'a' || uuid_text(uuid_bits(state))[19] == 'b',
{
    let b = uuid_bits(state);
    let text = uuid_text(b);
    let b6 = state[6];
    let b8 = state[8];
    assert(((b6 & 0x0f) | 0x50) / 16 == 5) by (bit_vector);
    assert(8 <= ((b8 & 0x3f) | 0x80) / 16 <= 11) by (bit_vector);
    assert(text[14] == hex_encode(b.subrange(6, 8))[0]);
    assert(text[19] == hex_encode(b.subrange(8, 10))[0]);
    assert(b.subrange(6, 8)[0] == b[6]);
    assert(b.subrange(8, 10)[0] == b[8]);
}

/// The value stored under `key` in key/value pairs with distinct keys.
pub open spec fn lookup(pairs: Seq<(String, String)>, key: Seq<char>) -> Option<Seq<char>>
    decreases pairs.len(),
{
    if pairs.len() == 0 {
        None
    } else if pairs[0].0@ == key {
        Some(pairs[0].1@)
    } else {
        lookup(pairs.drop_first(), key)
    }
}

fn find_value(pairs: &Vec<(String, String)>, key: &str) -> (value: Option<String>)
    ensures
        match value {
            Some(text) => lookup(pairs@, key@) == Some(text@),
            None => lookup(pairs@, key@) is None,
        },
{
    let mut i: usize = 0;
    assert(pairs@.skip(0) =~= pairs@);
    while i < pairs.len()
        invariant
            i <= pairs@.len(),
            lookup(pairs@, key@) == lookup(pairs@.skip(i as int), key@),
        decreases pairs@.len() - i,
    {
        assert(pairs@.skip(i as int).drop_first() =~= pairs@.skip(i + 1));
        assert(pairs@.skip(i as int)[0] == pairs@[i as int]);
        if crate::text::same_text(pairs[i].0.as_str(), key) {
            return Some(pairs[i].1.clone());
        }
        i += 1;
    }
    assert(pairs@.skip(i as int) =~= Seq::<(String, String)>::empty());
    None
}

/// `None`, or `Some(` and the quoted text `)`, as `{:?}` prints an optional string.
pub open spec fn option_debug(value: Option<Seq<char>>) -> Seq<char> {
    match value {
        None => "None"@,
        Some(text) => "Some("@ + crate::text::str_debug(text) + ")"@,
    }
}

/// What the ownership metadata of a profile says: its BlueRoute owner, no owner, or why
/// the metadata is refused, as (kind, message, diagnostic).
pub open spec fn owner_of(data: Option<Result<Vec<(String, String)>, String>>) -> Result<Option<Seq<u8>>, (ErrorKind, Seq<char>, Seq<char>)> {
    match data {
        None => Ok(None),
        Some(Err(text)) => Err(
            (
                ErrorKind::ProtocolError,
                "NetworkManager returned malformed user connection metadata"@,
                text@,
            ),
        ),
        Some(Ok(pairs)) => match lookup(pairs@, "org.blueroute.owner"@) {
            None => Ok(None),
            Some(owner) => {
                let schema = lookup(pairs@, "org.blueroute.schema"@);
                if schema != Some("1"@) {
                    Err(
                        (
                            ErrorKind::InvalidState,
                            "NetworkManager profile has an unsupported BlueRoute ownership schema"@,
                            "owner="@ + owner + " schema="@ + option_debug(schema),
                        ),
                    )
                } else {
                    match lookup(pairs@, "org.blueroute.kind"@) {
                        None => Err(
                            (
                                ErrorKind::InvalidState,
                                "NetworkManager profile has incomplete BlueRoute ownership metadata"@,
                                "owner="@ + owner + " missing=org.blueroute.kind"@,
                            ),
                        ),
                        Some(kind) => if kind != "bridge"@ && kind != "interface"@ {
                            Err(
                                (
                                    ErrorKind::InvalidState,
                                    "NetworkManager profile has an unsupported BlueRoute ownership kind"@,
                                    "owner="@ + owner + " kind="@ + kind,
                                ),
                            )
                        } else {
                            match crate::domain::hex::parse_hex_id(vstd::utf8::encode_utf8(owner)) {
                                Some(id) => Ok(Some(id)),
                                None => Err(
                                    (
                                        ErrorKind::InvalidState,
                                        "NetworkManager profile has an invalid BlueRoute owner identifier"@,
                                        crate::domain::hex::hex_id_error(vstd::utf8::encode_utf8(owner)),
                                    ),
                                ),
                            }
                        },
                    }
                }
            },
        },
    }
}

/// The BlueRoute owner recorded in a profile's user metadata: `None` when the profile has no
/// user data (`data` is `None`) or no owner key; the conversion error's text when the data
/// was not a string map.
pub fn profile_owner(data: Option<Result<Vec<(String, String)>, String>>) -> (result: Result<Option<NetworkId>, CoreError>)
    ensures
        match (owner_of(data), result) {
            (Ok(None), Ok(None)) => true,
            (Ok(Some(id)), Ok(Some(owner))) => owner.0@ == id,
            (Err((kind, message, diagnostic)), Err(error)) => error.spec_kind() == kind
                && error.spec_message() == message && error.spec_diagnostic() == Some(diagnostic),
            _ => false,
        },
{
    let pairs = match data {
        None => return Ok(None),
        Some(Err(text)) => return Err(
            CoreError::from_parts(
                ErrorKind::ProtocolError,
                String::from_str("NetworkManager returned malformed user connection metadata"),
                Some(text),
            ),
        ),
        Some(Ok(pairs)) => pairs,
    };
    let owner = match find_value(&pairs, "org.blueroute.owner") {
        None => return Ok(None),
        Some(owner) => owner,
    };
    let schema = find_value(&pairs, "org.blueroute.schema");
    let schema_ok = match &schema {
        Some(text) => crate::text::same_text(text.as_str(), "1"),
        None => false,
    };
    if !schema_ok {
        let mut detail = String::from_str("owner=");
        push_str(&mut detail, owner.as_str());
        push_str(&mut detail, " schema=");
        match &schema {
            None => push_str(&mut detail, "None"),
            Some(text) => {
                push_str(&mut detail, "Some(");
                let quoted = crate::text::debug_quoted(text.as_str());
                push_str(&mut detail, quoted.as_str());
                push_str(&mut detail, ")");
            },
        }
        return Err(
            CoreError::from_parts(
                ErrorKind::InvalidState,
                String::from_str("NetworkManager profile has an unsupported BlueRoute ownership schema"),
                Some(detail),
            ),
        );
    }
    let kind = match find_value(&pairs, "org.blueroute.kind") {
        None => {
            let mut detail = String::from_str("owner=");
            push_str(&mut detail, owner.as_str());
            push_str(&mut detail, " missing=org.blueroute.kind");
            return Err(
                CoreError::from_parts(
                    ErrorKind::InvalidState,
                    String::from_str("NetworkManager profile has incomplete BlueRoute ownership metadata"),
                    Some(detail),
                ),
            );
        },
        Some(kind) => kind,
    };
    if !crate::text::same_text(kind.as_str(), "bridge") && !crate::text::same_text(kind.as_str(), "interface") {
        let mut detail = String::from_str("owner=");
        push_str(&mut detail, owner.as_str());
        push_str(&mut detail, " kind=");
        push_str(&mut detail, kind.as_str());
        return Err(
            CoreError::from_parts(
                ErrorKind::InvalidState,
                String::from_str("NetworkManager profile has an unsupported BlueRoute ownership kind"),
                Some(detail),
            ),
        );
    }
    match NetworkId::parse(owner.as_str()) {
        Ok(id) => Ok(Some(id)),
        Err(error) => Err(
            CoreError::from_parts(
                ErrorKind::InvalidState,
                String::from_str("NetworkManager profile has an invalid BlueRoute owner identifier"),
                Some(error.to_string()),
            ),
        ),
    }
}

/// At most one BlueRoute-owned profile may target an interface: none, the one, or a refusal.
pub fn exactly_one_owned_profile<T>(mut profiles: Vec<T>, owner: NetworkId, interface: &NetworkInterfaceHandle) -> (result: Result<Option<T>, CoreError>)
    ensures
        match result {
            Ok(None) => profiles@.len() == 0,
            Ok(Some(profile)) => profiles@.len() == 1 && profile == profiles@[0],
            Err(error) => profiles@.len() > 1 && error.spec_kind() == ErrorKind::InvalidState
                && error.spec_message()
                == "multiple BlueRoute-owned NetworkManager profiles target the same interface"@
                && error.spec_diagnostic() == Some(
                "owner="@ + hex_encode(owner.0@) + " interface="@ + interface@ + " count="@
                    + crate::text::decimal(profiles@.len()),
            ),
        },
{
    let count = profiles.len();
    if count == 0 {
        return Ok(None);
    }
    if count == 1 {
        return Ok(profiles.pop());
    }
    let mut detail = String::from_str("owner=");
    let owner_text = owner.to_string();
    push_str(&mut detail, owner_text.as_str());
    push_str(&mut detail, " interface=");
    push_str(&mut detail, interface.as_str());
    push_str(&mut detail, " count=");
    crate::text::push_decimal(&mut detail, count as u64);
    Err(
        CoreError::from_parts(
            ErrorKind::InvalidState,
            String::from_str("multiple BlueRoute-owned NetworkManager profiles target the same interface"),
            Some(detail),
        ),
    )
}

/// The most events a change queue holds.
pub const EVENT_QUEUE_CAPACITY: usize = 256;

pub open spec fn opt_handle_view<T: View<V = Seq<char>>>(value: Option<T>) -> Option<Seq<char>> {
    match value {
        Some(handle) => Some(handle@),
        None => None,
    }
}

/// What a change queue holds after pushing `events` onto `pending`, or the overflow it hits.
pub open spec fn queued(pending: Seq<NetworkStateEvent>, events: Seq<NetworkStateEvent>) -> Result<Seq<NetworkStateEvent>, Seq<NetworkStateEvent>> {
    if events.len() > 0 && pending.len() + events.len() > 256 {
        Err(pending + events.take(256 - pending.len()))
    } else {
        Ok(pending + events)
    }
}

/// Pushes one event, refusing when the queue is at capacity.
pub fn push_event(pending: &mut Vec<NetworkStateEvent>, event: NetworkStateEvent) -> (result: Result<(), CoreError>)
    ensures
        result is Ok <==> old(pending)@.len() < 256,
        match result {
            Ok(()) => final(pending)@ == old(pending)@.push(event),
            Err(error) => final(pending)@ == old(pending)@ && error.spec_kind() == ErrorKind::Internal
                && error.spec_message() == "NetworkManager change queue exceeded its bounded capacity"@
                && error.spec_diagnostic() is None,
        },
{
    if pending.len() >= EVENT_QUEUE_CAPACITY {
        return Err(
            CoreError::new(
                ErrorKind::Internal,
                "NetworkManager change queue exceeded its bounded capacity",
            ),
        );
    }
    pending.push(event);
    Ok(())
}

/// Pushes `events` in order, stopping at the first overflow.
fn push_events(pending: &mut Vec<NetworkStateEvent>, events: Vec<NetworkStateEvent>) -> (result: Result<(), CoreError>)
    requires
        old(pending)@.len() <= 256,
    ensures
        match (queued(old(pending)@, events@), result) {
            (Ok(all), Ok(())) => final(pending)@ == all,
            (Err(partial), Err(error)) => final(pending)@ == partial && error.spec_kind()
                == ErrorKind::Internal,
            _ => false,
        },
{
    let ghost start = pending@;
    let ghost all = events@;
    let count = events.len();
    let mut rest = events;
    let mut i: usize = 0;
    while i < count
        invariant
            i <= count == all.len(),
            rest@ == all.skip(i as int),
            start == old(pending)@,
            all == events@,
            start.len() <= 256,
            pending@ == start + all.take(i as int),
            start.len() + i <= 256,
        decreases count - i,
    {
        let event = rest.remove(0);
        assert(event == all[i as int]);
        match push_event(pending, event) {
            Ok(()) => {},
            Err(error) => {
                assert(start.len() + i == 256);
                assert(all.take(256 - start.len()) =~= all.take(i as int));
                assert(queued(start, all) == Err::<Seq<NetworkStateEvent>, Seq<NetworkStateEvent>>(start + all.take(i as int)));
                return Err(error);
            },
        }
        assert(pending@ =~= start + all.take(i + 1));
        i += 1;
        assert(rest@ =~= all.skip(i as int));
    }
    assert(all.take(all.len() as int) =~= all);
    Ok(())
}

/// A device as its comparable parts.
pub open spec fn device_view(value: NetworkDevice) -> (Seq<char>, Seq<char>, bool, u32, u32, Option<Seq<char>>) {
    (value.handle@, value.interface@, value.managed, value.device_type, value.state, opt_handle_view(value.active_connection))
}

fn same_device(a: &NetworkDevice, b: &NetworkDevice) -> (same: bool)
    ensures
        same == (device_view(*a) == device_view(*b)),
{
    crate::text::same_text(a.handle.as_str(), b.handle.as_str()) && crate::text::same_text(a.interface.as_str(), b.interface.as_str())
        && a.managed == b.managed && a.device_type == b.device_type && a.state == b.state && match (&a.active_connection, &b.active_connection) {
        (Some(x), Some(y)) => crate::text::same_text(x.as_str(), y.as_str()),
        (None, None) => true,
        _ => false,
    }
}

/// NetworkDevices listed once each, in increasing handle order.
pub open spec fn devices_by_handle(values: Seq<NetworkDevice>) -> bool {
    forall|i: int, j: int|
        0 <= i < j < values.len() ==> crate::text_order::text_lt(
            (#[trigger] values[i]).handle@,
            (#[trigger] values[j]).handle@,
        )
}

/// The device with handle `handle`, if listed.
pub open spec fn device_named(values: Seq<NetworkDevice>, handle: Seq<char>) -> Option<NetworkDevice> {
    if exists|i: int| 0 <= i < values.len() && (#[trigger] values[i]).handle@ == handle {
        Some(values[choose|i: int| 0 <= i < values.len() && (#[trigger] values[i]).handle@ == handle])
    } else {
        None
    }
}

/// For each earlier device in handle order: removed when gone, changed when it differs now.
pub open spec fn device_changes(previous: Seq<NetworkDevice>, current: Seq<NetworkDevice>) -> Seq<(u8, Seq<char>, Option<(Seq<char>, Seq<char>, bool, u32, u32, Option<Seq<char>>)>)>
    decreases previous.len(),
{
    if previous.len() == 0 {
        Seq::empty()
    } else {
        let old = previous.last();
        device_changes(previous.drop_last(), current) + match device_named(current, old.handle@) {
            None => seq![(0u8, old.handle@, None)],
            Some(new) => if device_view(new) != device_view(old) {
                seq![(1u8, new.handle@, Some(device_view(new)))]
            } else {
                Seq::empty()
            },
        }
    }
}

/// For each current device in handle order that was not there before: added.
pub open spec fn device_additions(current: Seq<NetworkDevice>, previous: Seq<NetworkDevice>) -> Seq<(u8, Seq<char>, Option<(Seq<char>, Seq<char>, bool, u32, u32, Option<Seq<char>>)>)>
    decreases current.len(),
{
    if current.len() == 0 {
        Seq::empty()
    } else {
        let new = current.last();
        device_additions(current.drop_last(), previous) + if device_named(previous, new.handle@) is None {
            seq![(2u8, new.handle@, Some(device_view(new)))]
        } else {
            Seq::empty()
        }
    }
}

/// An event about devices as (kind, handle, device): 0 removed, 1 changed, 2 added.
pub open spec fn device_event_view(event: NetworkStateEvent) -> (u8, Seq<char>, Option<(Seq<char>, Seq<char>, bool, u32, u32, Option<Seq<char>>)>) {
    match event {
        NetworkStateEvent::DeviceRemoved(handle) => (0u8, handle@, None),
        NetworkStateEvent::DeviceChanged(value) => (1u8, value.handle@, Some(device_view(value))),
        NetworkStateEvent::DeviceAdded(value) => (2u8, value.handle@, Some(device_view(value))),
        _ => (3u8, Seq::empty(), None),
    }
}

fn find_device(values: &Vec<NetworkDevice>, handle: &Vec<char>) -> (found: Option<usize>)
    requires
        devices_by_handle(values@),
    ensures
        match found {
            Some(i) => i < values@.len() && values@[i as int].handle@ == handle@
                && device_named(values@, handle@) == Some(values@[i as int]),
            None => device_named(values@, handle@) is None,
        },
{
    let mut i: usize = 0;
    while i < values.len()
        invariant
            i <= values@.len(),
            devices_by_handle(values@),
            forall|j: int| 0 <= j < i ==> (#[trigger] values@[j]).handle@ != handle@,
        decreases values@.len() - i,
    {
        if crate::text::chars_match(handle, values[i].handle.as_str()) {
            proof {
                let k = choose|k: int| 0 <= k < values@.len() && (#[trigger] values@[k]).handle@ == handle@;
                if k < i as int {
                } else if k > i as int {
                    crate::text_order::lemma_text_lt_asymmetric(values@[i as int].handle@, values@[k].handle@);
                }
            }
            return Some(i);
        }
        i += 1;
    }
    None
}

/// Queues the events that turn one device snapshot into the next: for each earlier
/// device in handle order its removal or change, then each new device in handle order;
/// refused once the queue would exceed its capacity.
pub fn queue_device_changes(
    previous: &Vec<NetworkDevice>,
    current: &Vec<NetworkDevice>,
    pending: &mut Vec<NetworkStateEvent>,
) -> (result: Result<(), CoreError>)
    requires
        devices_by_handle(previous@),
        devices_by_handle(current@),
        old(pending)@.len() <= 256,
    ensures
        match result {
            Ok(()) => final(pending)@.len() >= old(pending)@.len() && final(pending)@.subrange(0, old(pending)@.len() as int) == old(pending)@,
            Err(error) => error.spec_kind() == ErrorKind::Internal,
        },
        result is Ok <==> (device_changes(previous@, current@) + device_additions(current@, previous@)).len() == 0
            || old(pending)@.len() + (device_changes(previous@, current@) + device_additions(current@, previous@)).len() <= 256,
        result is Ok ==> final(pending)@.skip(old(pending)@.len() as int).map_values(|e: NetworkStateEvent| device_event_view(e))
            == device_changes(previous@, current@) + device_additions(current@, previous@),
{
    let mut events: Vec<NetworkStateEvent> = Vec::new();
    let mut i: usize = 0;
    while i < previous.len()
        invariant
            i <= previous@.len(),
            devices_by_handle(current@),
            events@.map_values(|e: NetworkStateEvent| device_event_view(e)) == device_changes(previous@.take(i as int), current@),
        decreases previous@.len() - i,
    {
        let old = &previous[i];
        let key = chars_of(old.handle.as_str());
        let ghost before = events@;
        match find_device(current, &key) {
            None => {
                events.push(NetworkStateEvent::DeviceRemoved(old.handle.duplicate()));
            },
            Some(j) => {
                if !same_device(&current[j], old) {
                    let copy = current[j].duplicate();
                    assert(device_view(copy) == device_view(current@[j as int]));
                    events.push(NetworkStateEvent::DeviceChanged(copy));
                }
            },
        }
        proof {
            assert(previous@.take(i + 1).drop_last() =~= previous@.take(i as int));
            assert(previous@.take(i + 1).last() == previous@[i as int]);
            assert(events@.map_values(|e: NetworkStateEvent| device_event_view(e)) =~= device_changes(previous@.take(i + 1), current@));
        }
        i += 1;
    }
    assert(previous@.take(previous@.len() as int) =~= previous@);
    let ghost changes = events@.map_values(|e: NetworkStateEvent| device_event_view(e));
    let mut k: usize = 0;
    assert(device_additions(current@.take(0), previous@) =~= Seq::<(u8, Seq<char>, Option<(Seq<char>, Seq<char>, bool, u32, u32, Option<Seq<char>>)>)>::empty());
    assert(changes + Seq::<(u8, Seq<char>, Option<(Seq<char>, Seq<char>, bool, u32, u32, Option<Seq<char>>)>)>::empty() =~= changes);
    while k < current.len()
        invariant
            k <= current@.len(),
            devices_by_handle(previous@),
            events@.map_values(|e: NetworkStateEvent| device_event_view(e)) == changes + device_additions(current@.take(k as int), previous@),
        decreases current@.len() - k,
    {
        let new = &current[k];
        let key = chars_of(new.handle.as_str());
        let ghost before = events@;
        let found = find_device(previous, &key);
        if found.is_none() {
            let copy = new.duplicate();
            assert(device_view(copy) == device_view(*new));
            let event = NetworkStateEvent::DeviceAdded(copy);
            assert(device_event_view(event) == (2u8, new.handle@, Some(device_view(*new))));
            events.push(event);
            assert(events@.map_values(|e: NetworkStateEvent| device_event_view(e)) =~= before.map_values(|e: NetworkStateEvent| device_event_view(e)).push(device_event_view(event)));
        } else {
            assert(device_named(previous@, new.handle@) is Some);
        }
        proof {
            assert(current@.take(k + 1).drop_last() =~= current@.take(k as int));
            assert(current@.take(k + 1).last() == current@[k as int]);
            assert(events@.map_values(|e: NetworkStateEvent| device_event_view(e)) =~= changes + device_additions(current@.take(k + 1), previous@));
        }
        k += 1;
    }
    assert(current@.take(current@.len() as int) =~= current@);
    let ghost all = events@;
    let ghost start = pending@;
    let outcome = push_events(pending, events);
    proof {
        if outcome is Ok {
            assert(pending@.skip(start.len() as int) =~= all);
            assert(pending@.subrange(0, start.len() as int) =~= start);
        }
    }
    outcome
}

/// A connection as its comparable parts.
pub open spec fn connection_view(value: NetworkConnection) -> (Seq<char>, Seq<char>, Seq<char>, Seq<char>, Option<Seq<char>>, Option<Seq<u8>>) {
    (value.handle@, value.id@, value.uuid@, value.connection_type@, opt_handle_view(value.interface), match value.owner {
        Some(owner) => Some(owner.0@),
        None => None,
    })
}

fn same_connection(a: &NetworkConnection, b: &NetworkConnection) -> (same: bool)
    ensures
        same == (connection_view(*a) == connection_view(*b)),
{
    crate::text::same_text(a.handle.as_str(), b.handle.as_str()) && crate::text::same_text(a.id.as_str(), b.id.as_str())
        && crate::text::same_text(a.uuid.as_str(), b.uuid.as_str()) && crate::text::same_text(a.connection_type.as_str(), b.connection_type.as_str())
        && match (&a.interface, &b.interface) {
        (Some(x), Some(y)) => crate::text::same_text(x.as_str(), y.as_str()),
        (None, None) => true,
        _ => false,
    } && match (&a.owner, &b.owner) {
        (Some(x), Some(y)) => crate::domain::id::bytes_equal(&x.0, &y.0),
        (None, None) => true,
        _ => false,
    }
}

/// NetworkConnections listed once each, in increasing handle order.
pub open spec fn connections_by_handle(values: Seq<NetworkConnection>) -> bool {
    forall|i: int, j: int|
        0 <= i < j < values.len() ==> crate::text_order::text_lt(
            (#[trigger] values[i]).handle@,
            (#[trigger] values[j]).handle@,
        )
}

/// The connection with handle `handle`, if listed.
pub open spec fn connection_named(values: Seq<NetworkConnection>, handle: Seq<char>) -> Option<NetworkConnection> {
    if exists|i: int| 0 <= i < values.len() && (#[trigger] values[i]).handle@ == handle {
        Some(values[choose|i: int| 0 <= i < values.len() && (#[trigger] values[i]).handle@ == handle])
    } else {
        None
    }
}

/// For each earlier connection in handle order: removed when gone, changed when it differs now.
pub open spec fn connection_changes(previous: Seq<NetworkConnection>, current: Seq<NetworkConnection>) -> Seq<(u8, Seq<char>, Option<(Seq<char>, Seq<char>, Seq<char>, Seq<char>, Option<Seq<char>>, Option<Seq<u8>>)>)>
    decreases previous.len(),
{
    if previous.len() == 0 {
        Seq::empty()
    } else {
        let old = previous.last();
        connection_changes(previous.drop_last(), current) + match connection_named(current, old.handle@) {
            None => seq![(0u8, old.handle@, None)],
            Some(new) => if connection_view(new) != connection_view(old) {
                seq![(1u8, new.handle@, Some(connection_view(new)))]
            } else {
                Seq::empty()
            },
        }
    }
}

/// For each current connection in handle order that was not there before: added.
pub open spec fn connection_additions(current: Seq<NetworkConnection>, previous: Seq<NetworkConnection>) -> Seq<(u8, Seq<char>, Option<(Seq<char>, Seq<char>, Seq<char>, Seq<char>, Option<Seq<char>>, Option<Seq<u8>>)>)>
    decreases current.len(),
{
    if current.len() == 0 {
        Seq::empty()
    } else {
        let new = current.last();
        connection_additions(current.drop_last(), previous) + if connection_named(previous, new.handle@) is None {
            seq![(2u8, new.handle@, Some(connection_view(new)))]
        } else {
            Seq::empty()
        }
    }
}

/// An event about connections as (kind, handle, connection): 0 removed, 1 changed, 2 added.
pub open spec fn connection_event_view(event: NetworkStateEvent) -> (u8, Seq<char>, Option<(Seq<char>, Seq<char>, Seq<char>, Seq<char>, Option<Seq<char>>, Option<Seq<u8>>)>) {
    match event {
        NetworkStateEvent::ConnectionRemoved(handle) => (0u8, handle@, None),
        NetworkStateEvent::ConnectionChanged(value) => (1u8, value.handle@, Some(connection_view(value))),
        NetworkStateEvent::ConnectionAdded(value) => (2u8, value.handle@, Some(connection_view(value))),
        _ => (3u8, Seq::empty(), None),
    }
}

fn find_connection(values: &Vec<NetworkConnection>, handle: &Vec<char>) -> (found: Option<usize>)
    requires
        connections_by_handle(values@),
    ensures
        match found {
            Some(i) => i < values@.len() && values@[i as int].handle@ == handle@
                && connection_named(values@, handle@) == Some(values@[i as int]),
            None => connection_named(values@, handle@) is None,
        },
{
    let mut i: usize = 0;
    while i < values.len()
        invariant
            i <= values@.len(),
            connections_by_handle(values@),
            forall|j: int| 0 <= j < i ==> (#[trigger] values@[j]).handle@ != handle@,
        decreases values@.len() - i,
    {
        if crate::text::chars_match(handle, values[i].handle.as_str()) {
            proof {
                let k = choose|k: int| 0 <= k < values@.len() && (#[trigger] values@[k]).handle@ == handle@;
                if k < i as int {
                } else if k > i as int {
                    crate::text_order::lemma_text_lt_asymmetric(values@[i as int].handle@, values@[k].handle@);
                }
            }
            return Some(i);
        }
        i += 1;
    }
    None
}

/// Queues the events that turn one connection snapshot into the next: for each earlier
/// connection in handle order its removal or change, then each new connection in handle order;
/// refused once the queue would exceed its capacity.
pub fn queue_connection_changes(
    previous: &Vec<NetworkConnection>,
    current: &Vec<NetworkConnection>,
    pending: &mut Vec<NetworkStateEvent>,
) -> (result: Result<(), CoreError>)
    requires
        connections_by_handle(previous@),
        connections_by_handle(current@),
        old(pending)@.len() <= 256,
    ensures
        match result {
            Ok(()) => final(pending)@.len() >= old(pending)@.len() && final(pending)@.subrange(0, old(pending)@.len() as int) == old(pending)@,
            Err(error) => error.spec_kind() == ErrorKind::Internal,
        },
        result is Ok <==> (connection_changes(previous@, current@) + connection_additions(current@, previous@)).len() == 0
            || old(pending)@.len() + (connection_changes(previous@, current@) + connection_additions(current@, previous@)).len() <= 256,
        result is Ok ==> final(pending)@.skip(old(pending)@.len() as int).map_values(|e: NetworkStateEvent| connection_event_view(e))
            == connection_changes(previous@, current@) + connection_additions(current@, previous@),
{
    let mut events: Vec<NetworkStateEvent> = Vec::new();
    let mut i: usize = 0;
    while i < previous.len()
        invariant
            i <= previous@.len(),
            connections_by_handle(current@),
            events@.map_values(|e: NetworkStateEvent| connection_event_view(e)) == connection_changes(previous@.take(i as int), current@),
        decreases previous@.len() - i,
    {
        let old = &previous[i];
        let key = chars_of(old.handle.as_str());
        let ghost before = events@;
        match find_connection(current, &key) {
            None => {
                events.push(NetworkStateEvent::ConnectionRemoved(old.handle.duplicate()));
            },
            Some(j) => {
                if !same_connection(&current[j], old) {
                    let copy = current[j].duplicate();
                    assert(connection_view(copy) == connection_view(current@[j as int]));
                    events.push(NetworkStateEvent::ConnectionChanged(copy));
                }
            },
        }
        proof {
            assert(previous@.take(i + 1).drop_last() =~= previous@.take(i as int));
            assert(previous@.take(i + 1).last() == previous@[i as int]);
            assert(events@.map_values(|e: NetworkStateEvent| connection_event_view(e)) =~= connection_changes(previous@.take(i + 1), current@));
        }
        i += 1;
    }
    assert(previous@.take(previous@.len() as int) =~= previous@);
    let ghost changes = events@.map_values(|e: NetworkStateEvent| connection_event_view(e));
    let mut k: usize = 0;
    assert(connection_additions(current@.take(0), previous@) =~= Seq::<(u8, Seq<char>, Option<(Seq<char>, Seq<char>, Seq<char>, Seq<char>, Option<Seq<char>>, Option<Seq<u8>>)>)>::empty());
    assert(changes + Seq::<(u8, Seq<char>, Option<(Seq<char>, Seq<char>, Seq<char>, Seq<char>, Option<Seq<char>>, Option<Seq<u8>>)>)>::empty() =~= changes);
    while k < current.len()
        invariant
            k <= current@.len(),
            connections_by_handle(previous@),
            events@.map_values(|e: NetworkStateEvent| connection_event_view(e)) == changes + connection_additions(current@.take(k as int), previous@),
        decreases current@.len() - k,
    {
        let new = &current[k];
        let key = chars_of(new.handle.as_str());
        let ghost before = events@;
        let found = find_connection(previous, &key);
        if found.is_none() {
            let copy = new.duplicate();
            assert(connection_view(copy) == connection_view(*new));
            let event = NetworkStateEvent::ConnectionAdded(copy);
            assert(connection_event_view(event) == (2u8, new.handle@, Some(connection_view(*new))));
            events.push(event);
            assert(events@.map_values(|e: NetworkStateEvent| connection_event_view(e)) =~= before.map_values(|e: NetworkStateEvent| connection_event_view(e)).push(connection_event_view(event)));
        } else {
            assert(connection_named(previous@, new.handle@) is Some);
        }
        proof {
            assert(current@.take(k + 1).drop_last() =~= current@.take(k as int));
            assert(current@.take(k + 1).last() == current@[k as int]);
            assert(events@.map_values(|e: NetworkStateEvent| connection_event_view(e)) =~= changes + connection_additions(current@.take(k + 1), previous@));
        }
        k += 1;
    }
    assert(current@.take(current@.len() as int) =~= current@);
    let ghost all = events@;
    let ghost start = pending@;
    let outcome = push_events(pending, events);
    proof {
        if outcome is Ok {
            assert(pending@.skip(start.len() as int) =~= all);
            assert(pending@.subrange(0, start.len() as int) =~= start);
        }
    }
    outcome
}

} // verus!
