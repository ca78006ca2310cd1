use vstd::prelude::*;

use rustix::net::AddressFamily;

use crate::domain::error::{CoreError, ErrorKind};
use crate::domain::route::{ipv4_value, IpAddress, IpPrefix, Ipv4Address};
use crate::linux::handles::{InterfaceAddress, NetworkInterfaceHandle};
use crate::domain::addressing::{ipv4_prefix_text, push_ipv4_prefix};
use crate::text::{decimal, push_decimal, push_str};

verus! {

pub const NLMSG_ERROR: u16 = 2;
pub const NLMSG_DONE: u16 = 3;
pub const RTM_NEWADDR: u16 = 20;
pub const RTM_DELADDR: u16 = 21;
pub const RTM_GETADDR: u16 = 22;
pub const NLM_F_REQUEST: u16 = 0x0001;
pub const NLM_F_ACK: u16 = 0x0004;
pub const NLM_F_ROOT: u16 = 0x0100;
pub const NLM_F_MATCH: u16 = 0x0200;
pub const NLM_F_EXCL: u16 = 0x0200;
pub const NLM_F_CREATE: u16 = 0x0400;
pub const NLM_F_DUMP: u16 = 0x0300;
pub const IFA_ADDRESS: u16 = 1;
pub const IFA_LOCAL: u16 = 2;
pub const NLA_TYPE_MASK: u16 = 0x3fff;
pub const NETLINK_HEADER_LEN: usize = 16;
pub const IFADDR_MESSAGE_LEN: usize = 8;
pub const ATTRIBUTE_HEADER_LEN: usize = 4;
pub const REQUEST_SEQUENCE: u32 = 1;

/// rustix's `AddressFamily::INET` as its raw value, which is `AF_INET`, 2 on Linux.
#[verifier::external_body]
fn inet_family() -> (family: u16)
    ensures
        family == 2,
{
    AddressFamily::INET.as_raw()
}

/// The order in which the host stores the bytes of an integer; netlink uses the host's.
#[derive(Clone, Copy, Debug, PartialEq, Eq, Structural)]
pub enum ByteOrder {
    Little,
    Big,
}

pub open spec fn u16_bytes(order: ByteOrder, value: u16) -> Seq<u8> {
    let low = (value % 256) as u8;
    let high = (value / 256) as u8;
    match order {
        ByteOrder::Little => seq![low, high],
        ByteOrder::Big => seq![high, low],
    }
}

pub open spec fn u32_bytes(order: ByteOrder, value: u32) -> Seq<u8> {
    let b0 = (value % 256) as u8;
    let b1 = ((value / 256) % 256) as u8;
    let b2 = ((value / 65536) % 256) as u8;
    let b3 = (value / 16777216) as u8;
    match order {
        ByteOrder::Little => seq![b0, b1, b2, b3],
        ByteOrder::Big => seq![b3, b2, b1, b0],
    }
}

pub open spec fn u16_value(order: ByteOrder, bytes: Seq<u8>) -> u16 {
    match order {
        ByteOrder::Little => (bytes[0] + 256 * bytes[1]) as u16,
        ByteOrder::Big => (bytes[1] + 256 * bytes[0]) as u16,
    }
}

pub open spec fn u32_value(order: ByteOrder, bytes: Seq<u8>) -> u32 {
    match order {
        ByteOrder::Little => (bytes[0] + 256 * bytes[1] + 65536 * bytes[2] + 16777216 * bytes[3]) as u32,
        ByteOrder::Big => (bytes[3] + 256 * bytes[2] + 65536 * bytes[1] + 16777216 * bytes[0]) as u32,
    }
}

pub fn push_u16(buffer: &mut Vec<u8>, order: ByteOrder, value: u16)
    ensures
        final(buffer)@ == old(buffer)@ + u16_bytes(order, value),
{
    let low = (value % 256) as u8;
    let high = (value / 256) as u8;
    match order {
        ByteOrder::Little => {
            buffer.push(low);
            buffer.push(high);
        },
        ByteOrder::Big => {
            buffer.push(high);
            buffer.push(low);
        },
    }
    assert(final(buffer)@ =~= old(buffer)@ + u16_bytes(order, value));
}

pub fn push_u32(buffer: &mut Vec<u8>, order: ByteOrder, value: u32)
    ensures
        final(buffer)@ == old(buffer)@ + u32_bytes(order, value),
{
    let b0 = (value % 256) as u8;
    let b1 = ((value / 256) % 256) as u8;
    let b2 = ((value / 65536) % 256) as u8;
    let b3 = (value / 16777216) as u8;
    match order {
        ByteOrder::Little => {
            buffer.push(b0);
            buffer.push(b1);
            buffer.push(b2);
            buffer.push(b3);
        },
        ByteOrder::Big => {
            buffer.push(b3);
            buffer.push(b2);
            buffer.push(b1);
            buffer.push(b0);
        },
    }
    assert(final(buffer)@ =~= old(buffer)@ + u32_bytes(order, value));
}

pub fn read_u16(order: ByteOrder, bytes: &[u8], at: usize) -> (value: u16)
    requires
        at + 2 <= bytes@.len(),
    ensures
        value == u16_value(order, bytes@.subrange(at as int, at + 2)),
{
    let b0 = bytes[at] as u16;
    let b1 = bytes[at + 1] as u16;
    match order {
        ByteOrder::Little => b0 + 256 * b1,
        ByteOrder::Big => b1 + 256 * b0,
    }
}

pub fn read_u32(order: ByteOrder, bytes: &[u8], at: usize) -> (value: u32)
    requires
        at + 4 <= bytes@.len(),
    ensures
        value == u32_value(order, bytes@.subrange(at as int, at + 4)),
{
    let b0 = bytes[at] as u32;
    let b1 = bytes[at + 1] as u32;
    let b2 = bytes[at + 2] as u32;
    let b3 = bytes[at + 3] as u32;
    match order {
        ByteOrder::Little => b0 + 256 * b1 + 65536 * b2 + 16777216 * b3,
        ByteOrder::Big => b3 + 256 * b2 + 65536 * b1 + 16777216 * b0,
    }
}

/// Reading back the bytes written for a value gives the value.
pub proof fn lemma_u32_round_trip(order: ByteOrder, value: u32)
    ensures
        u32_value(order, u32_bytes(order, value)) == value,
        u32_bytes(order, value).len() == 4,
{
    let b0 = (value % 256) as u8;
    let b1 = ((value / 256) % 256) as u8;
    let b2 = ((value / 65536) % 256) as u8;
    let b3 = (value / 16777216) as u8;
    assert(b0 + 256 * b1 + 65536 * b2 + 16777216 * b3 == value) by (nonlinear_arith)
        requires
            b0 == value % 256,
            b1 == (value / 256) % 256,
            b2 == (value / 65536) % 256,
            b3 == value / 16777216,
            value <= 0xffff_ffff,
    ;
}

pub proof fn lemma_u16_round_trip(order: ByteOrder, value: u16)
    ensures
        u16_value(order, u16_bytes(order, value)) == value,
        u16_bytes(order, value).len() == 2,
{
    let low = (value % 256) as u8;
    let high = (value / 256) as u8;
    assert(low + 256 * high == value) by (nonlinear_arith)
        requires
            low == value % 256,
            high == value / 256,
    ;
}

/// The interface-address part of an address message: IPv4 family, prefix length, no flags
/// or scope, then the interface index.
pub open spec fn ifaddr_bytes(order: ByteOrder, prefix_len: u8, interface_index: u32) -> Seq<u8> {
    seq![2u8, prefix_len, 0u8, 0u8] + u32_bytes(order, interface_index)
}

/// A netlink header: total length, type, flags, sequence 1 and port 0.
pub open spec fn netlink_header_bytes(order: ByteOrder, length: u32, message_type: u16, flags: u16) -> Seq<u8> {
    u32_bytes(order, length) + u16_bytes(order, message_type) + u16_bytes(order, flags) + u32_bytes(
        order,
        1,
    ) + u32_bytes(order, 0)
}

/// A four-byte attribute: length 8, its type, then the value.
pub open spec fn address_attribute_bytes(order: ByteOrder, attribute_type: u16, octets: Seq<u8>) -> Seq<u8> {
    u16_bytes(order, 8) + u16_bytes(order, attribute_type) + octets
}

/// An IPv4 address with its prefix length, as configured on an interface.
#[derive(Clone, Copy, Debug, PartialEq, Eq, Structural)]
pub struct Ipv4InterfacePrefix {
    pub address: Ipv4Address,
    pub prefix_len: u8,
}

/// The four octets of an address, most significant first.
pub open spec fn octets_of(address: Ipv4Address) -> Seq<u8> {
    seq![
        (address.0 / 0x100_0000) as u8,
        ((address.0 / 0x1_0000) % 256) as u8,
        ((address.0 / 0x100) % 256) as u8,
        (address.0 % 256) as u8,
    ]
}

/// The request that adds or removes `prefix` on the interface with index `interface_index`.
pub open spec fn change_request_bytes(
    order: ByteOrder,
    message_type: u16,
    flags: u16,
    interface_index: u32,
    prefix: Ipv4InterfacePrefix,
) -> Seq<u8> {
    netlink_header_bytes(order, 40, message_type, flags) + ifaddr_bytes(
        order,
        prefix.prefix_len,
        interface_index,
    ) + address_attribute_bytes(order, IFA_LOCAL, octets_of(prefix.address))
        + address_attribute_bytes(order, IFA_ADDRESS, octets_of(prefix.address))
}

/// The request that asks for every IPv4 address of every interface.
pub open spec fn dump_request_bytes(order: ByteOrder) -> Seq<u8> {
    netlink_header_bytes(order, 24, RTM_GETADDR, 0x0301) + ifaddr_bytes(order, 0, 0)
}

fn push_header(request: &mut Vec<u8>, order: ByteOrder, length: u32, message_type: u16, flags: u16)
    ensures
        final(request)@ == old(request)@ + netlink_header_bytes(order, length, message_type, flags),
{
    push_u32(request, order, length);
    push_u16(request, order, message_type);
    push_u16(request, order, flags);
    push_u32(request, order, REQUEST_SEQUENCE);
    push_u32(request, order, 0);
    assert(final(request)@ =~= old(request)@ + netlink_header_bytes(order, length, message_type, flags));
}

fn push_ifaddr(request: &mut Vec<u8>, order: ByteOrder, prefix_len: u8, interface_index: u32)
    ensures
        final(request)@ == old(request)@ + ifaddr_bytes(order, prefix_len, interface_index),
{
    let family = inet_family();
    request.push(family as u8);
    request.push(prefix_len);
    request.push(0);
    request.push(0);
    push_u32(request, order, interface_index);
    assert(final(request)@ =~= old(request)@ + ifaddr_bytes(order, prefix_len, interface_index));
}

fn push_address_attribute(request: &mut Vec<u8>, order: ByteOrder, attribute_type: u16, address: Ipv4Address)
    ensures
        final(request)@ == old(request)@ + address_attribute_bytes(order, attribute_type, octets_of(address)),
{
    push_u16(request, order, 8);
    push_u16(request, order, attribute_type);
    let octets = address.octets();
    request.push(octets[0]);
    request.push(octets[1]);
    request.push(octets[2]);
    request.push(octets[3]);
    assert(final(request)@ =~= old(request)@ + address_attribute_bytes(order, attribute_type, octets_of(address)));
}

/// The address dump request.
pub fn address_dump_request(order: ByteOrder) -> (request: Vec<u8>)
    ensures
        request@ == dump_request_bytes(order),
{
    let mut request: Vec<u8> = Vec::new();
    push_header(&mut request, order, 24, RTM_GETADDR, NLM_F_REQUEST | NLM_F_DUMP);
    assert(NLM_F_REQUEST | NLM_F_DUMP == 0x0301u16) by (bit_vector);
    push_ifaddr(&mut request, order, 0, 0);
    assert(request@ =~= dump_request_bytes(order));
    request
}

/// The request that adds (`RTM_NEWADDR`) or removes (`RTM_DELADDR`) `prefix` on an interface.
pub fn address_change_request(
    order: ByteOrder,
    message_type: u16,
    flags: u16,
    interface_index: u32,
    prefix: Ipv4InterfacePrefix,
) -> (request: Vec<u8>)
    ensures
        request@ == change_request_bytes(order, message_type, flags, interface_index, prefix),
        request@.len() == 40,
{
    let mut request: Vec<u8> = Vec::new();
    push_header(&mut request, order, 40, message_type, flags);
    push_ifaddr(&mut request, order, prefix.prefix_len, interface_index);
    push_address_attribute(&mut request, order, IFA_LOCAL, prefix.address);
    push_address_attribute(&mut request, order, IFA_ADDRESS, prefix.address);
    assert(request@ =~= change_request_bytes(order, message_type, flags, interface_index, prefix));
    request
}

/// An error for malformed data from the kernel, with `diagnostic` saying what was wrong.
pub open spec fn is_protocol_error(error: CoreError, diagnostic: Seq<char>) -> bool {
    &&& error.spec_kind() == ErrorKind::ProtocolError
    &&& error.spec_message() == "received malformed rtnetlink data from the kernel"@
    &&& error.spec_diagnostic() == Some(diagnostic)
}

pub fn protocol_error(diagnostic: String) -> (error: CoreError)
    ensures
        is_protocol_error(error, diagnostic@),
{
    CoreError::from_parts(
        ErrorKind::ProtocolError,
        String::from_str("received malformed rtnetlink data from the kernel"),
        Some(diagnostic),
    )
}

/// One netlink message: its declared length, type, sequence number and payload.
#[derive(Clone, Debug, PartialEq, Eq)]
pub struct NetlinkMessage {
    pub length: usize,
    pub message_type: u16,
    pub sequence: u32,
    pub payload: Vec<u8>,
}

/// The text `invalid netlink message length L for N available bytes`.
pub open spec fn invalid_length_text(length: nat, available: nat) -> Seq<char> {
    "invalid netlink message length "@ + decimal(length) + " for "@ + decimal(available)
        + " available bytes"@
}

/// The message at the start of `bytes`: (length, type, sequence, payload), or what is wrong.
pub open spec fn message_at(order: ByteOrder, bytes: Seq<u8>) -> Result<(nat, u16, u32, Seq<u8>), Seq<char>> {
    if bytes.len() < 16 {
        Err("truncated netlink header"@)
    } else {
        let length = u32_value(order, bytes.subrange(0, 4)) as nat;
        if length < 16 || length > bytes.len() {
            Err(invalid_length_text(length, bytes.len()))
        } else {
            Ok(
                (
                    length,
                    u16_value(order, bytes.subrange(4, 6)),
                    u32_value(order, bytes.subrange(8, 12)),
                    bytes.subrange(16, length as int),
                ),
            )
        }
    }
}

fn copy_range(bytes: &[u8], start: usize, end: usize) -> (copy: Vec<u8>)
    requires
        start <= end <= bytes@.len(),
    ensures
        copy@ == bytes@.subrange(start as int, end as int),
{
    let mut copy: Vec<u8> = Vec::new();
    let mut i = start;
    while i < end
        invariant
            start <= i <= end <= bytes@.len(),
            copy@ == bytes@.subrange(start as int, i as int),
        decreases end - i,
    {
        copy.push(bytes[i]);
        i += 1;
        assert(copy@ =~= bytes@.subrange(start as int, i as int));
    }
    copy
}

/// Reads the netlink message at the start of `bytes`.
pub fn netlink_message(order: ByteOrder, bytes: &[u8]) -> (result: Result<NetlinkMessage, CoreError>)
    ensures
        match (message_at(order, bytes@), result) {
            (Ok((length, message_type, sequence, payload)), Ok(message)) => message.length == length
                && message.message_type == message_type && message.sequence == sequence
                && message.payload@ == payload,
            (Err(diagnostic), Err(error)) => is_protocol_error(error, diagnostic),
            _ => false,
        },
{
    if bytes.len() < NETLINK_HEADER_LEN {
        return Err(protocol_error(String::from_str("truncated netlink header")));
    }
    let length = read_u32(order, bytes, 0);
    if length < 16 || length as usize > bytes.len() {
        let mut text = String::from_str("invalid netlink message length ");
        push_decimal(&mut text, length as u64);
        push_str(&mut text, " for ");
        push_decimal(&mut text, bytes.len() as u64);
        push_str(&mut text, " available bytes");
        return Err(protocol_error(text));
    }
    let length = length as usize;
    Ok(
        NetlinkMessage {
            length,
            message_type: read_u16(order, bytes, 4),
            sequence: read_u32(order, bytes, 8),
            payload: copy_range(bytes, NETLINK_HEADER_LEN, length),
        },
    )
}

/// The signed value of a 32-bit two's complement pattern.
pub open spec fn signed(value: u32) -> int {
    if value < 0x8000_0000 {
        value as int
    } else {
        value - 0x1_0000_0000
    }
}

/// The error number an acknowledgement carries: the negated status, saturated at `i32::MAX`.
pub open spec fn ack_errno(status: int) -> int {
    if status == -0x8000_0000 {
        0x7fff_ffff
    } else {
        -status
    }
}

/// Decimal text of an integer, with a minus sign when negative.
pub open spec fn signed_text(value: int) -> Seq<char> {
    if value < 0 {
        seq!['-'] + decimal((-value) as nat)
    } else {
        decimal(value as nat)
    }
}

/// What an acknowledgement's payload says: success, the error number of a refusal, or what
/// is malformed.
pub open spec fn ack_of(order: ByteOrder, payload: Seq<u8>) -> Result<Option<int>, Seq<char>> {
    if payload.len() < 4 {
        Err("truncated netlink acknowledgement"@)
    } else {
        let status = signed(u32_value(order, payload.subrange(0, 4)));
        if status == 0 {
            Ok(None)
        } else {
            Ok(Some(ack_errno(status)))
        }
    }
}

/// The error reported for a refused operation with error number `errno`: `EEXIST` (17)
/// means the state is already there.
pub open spec fn is_refusal(error: CoreError, errno: int) -> bool {
    &&& error.spec_kind() == if errno == 17 {
        ErrorKind::InvalidState
    } else {
        ErrorKind::NetworkBackendUnavailable
    }
    &&& error.spec_message() == "kernel rejected a BlueRoute PANU address operation"@
    &&& error.spec_diagnostic() == Some("errno="@ + signed_text(errno))
}

/// Reads a netlink acknowledgement: success, or the kernel's refusal as an error.
pub fn parse_netlink_ack(order: ByteOrder, payload: &[u8]) -> (result: Result<(), CoreError>)
    ensures
        match (ack_of(order, payload@), result) {
            (Ok(None), Ok(())) => true,
            (Ok(Some(errno)), Err(error)) => is_refusal(error, errno),
            (Err(diagnostic), Err(error)) => is_protocol_error(error, diagnostic),
            _ => false,
        },
{
    if payload.len() < 4 {
        return Err(protocol_error(String::from_str("truncated netlink acknowledgement")));
    }
    let raw = read_u32(order, payload, 0);
    if raw == 0 {
        return Ok(());
    }
    let mut text = String::from_str("errno=");
    let errno_is_eexist: bool;
    if raw < 0x8000_0000 {
        crate::text::push_char(&mut text, '-');
        push_decimal(&mut text, raw as u64);
        errno_is_eexist = false;
    } else if raw == 0x8000_0000 {
        push_decimal(&mut text, 0x7fff_ffff);
        errno_is_eexist = false;
    } else {
        let errno = 0x1_0000_0000u64 - raw as u64;
        push_decimal(&mut text, errno);
        errno_is_eexist = errno == 17;
    }
    assert(text@ =~= "errno="@ + signed_text(ack_errno(signed(raw))));
    let kind = if errno_is_eexist {
        ErrorKind::InvalidState
    } else {
        ErrorKind::NetworkBackendUnavailable
    };
    Err(
        CoreError::from_parts(
            kind,
            String::from_str("kernel rejected a BlueRoute PANU address operation"),
            Some(text),
        ),
    )
}

/// The padding that brings a length up to a multiple of four.
pub open spec fn padding(length: nat) -> nat {
    ((4 - length % 4) % 4) as nat
}

/// The local and peer addresses found in attributes from `offset` on, or what is malformed.
pub open spec fn scan_attributes(
    order: ByteOrder,
    payload: Seq<u8>,
    offset: int,
    local: Option<u32>,
    address: Option<u32>,
) -> Result<(Option<u32>, Option<u32>), Seq<char>>
    decreases payload.len() - offset,
{
    if offset >= payload.len() || offset < 0 {
        Ok((local, address))
    } else if payload.len() - offset < 4 {
        Err("truncated rtnetlink address attribute"@)
    } else {
        let length = u16_value(order, payload.subrange(offset, offset + 2)) as nat;
        let attribute_type = u16_value(order, payload.subrange(offset + 2, offset + 4)) & 0x3fff;
        if length < 4 || offset + length > payload.len() {
            Err("invalid rtnetlink address attribute length"@)
        } else {
            let found = (attribute_type == 2 || attribute_type == 1) && length == 8;
            let value = ipv4_value(
                payload[offset + 4],
                payload[offset + 5],
                payload[offset + 6],
                payload[offset + 7],
            ) as u32;
            let next_local = if found && attribute_type == 2 {
                Some(value)
            } else {
                local
            };
            let next_address = if found && attribute_type == 1 {
                Some(value)
            } else {
                address
            };
            let next = if offset + length + padding(length) > payload.len() {
                payload.len() as int
            } else {
                offset + length + padding(length)
            };
            scan_attributes(order, payload, next, next_local, next_address)
        }
    }
}

/// The IPv4 prefix that an address message gives for interface `expected`: the local
/// address when present, else the peer address; none for other families or interfaces.
pub open spec fn address_of(order: ByteOrder, payload: Seq<u8>, expected: u32) -> Result<
    Option<Ipv4InterfacePrefix>,
    Seq<char>,
> {
    if payload.len() < 8 {
        Err("truncated rtnetlink address message"@)
    } else if payload[0] != 2 {
        Ok(None)
    } else if u32_value(order, payload.subrange(4, 8)) != expected {
        Ok(None)
    } else {
        match scan_attributes(order, payload, 8, None, None) {
            Err(diagnostic) => Err(diagnostic),
            Ok((local, address)) => Ok(
                match (local, address) {
                    (Some(value), _) => Some(
                        Ipv4InterfacePrefix { address: Ipv4Address(value), prefix_len: payload[1] },
                    ),
                    (None, Some(value)) => Some(
                        Ipv4InterfacePrefix { address: Ipv4Address(value), prefix_len: payload[1] },
                    ),
                    (None, None) => None,
                },
            ),
        }
    }
}

/// Reads an address message's payload for interface `expected_index`.
pub fn parse_ipv4_address(order: ByteOrder, payload: &[u8], expected_index: u32) -> (result: Result<
    Option<Ipv4InterfacePrefix>,
    CoreError,
>)
    ensures
        match (address_of(order, payload@, expected_index), result) {
            (Ok(found), Ok(parsed)) => parsed == found,
            (Err(diagnostic), Err(error)) => is_protocol_error(error, diagnostic),
            _ => false,
        },
{
    if payload.len() < IFADDR_MESSAGE_LEN {
        return Err(protocol_error(String::from_str("truncated rtnetlink address message")));
    }
    let family = inet_family();
    if payload[0] as u16 != family {
        return Ok(None);
    }
    let prefix_len = payload[1];
    if read_u32(order, payload, 4) != expected_index {
        return Ok(None);
    }
    let mut local: Option<u32> = None;
    let mut address: Option<u32> = None;
    let mut offset: usize = IFADDR_MESSAGE_LEN;
    while offset < payload.len()
        invariant
            8 <= offset,
            payload@.len() >= 8,
            payload@[0] == 2,
            prefix_len == payload@[1],
            u32_value(order, payload@.subrange(4, 8)) == expected_index,
            scan_attributes(order, payload@, 8, None, None) == scan_attributes(
                order,
                payload@,
                offset as int,
                local,
                address,
            ),
        decreases payload@.len() - offset,
    {
        if payload.len() - offset < ATTRIBUTE_HEADER_LEN {
            assert(scan_attributes(order, payload@, offset as int, local, address) == Err::<
                (Option<u32>, Option<u32>),
                Seq<char>,
            >("truncated rtnetlink address attribute"@));
            return Err(protocol_error(String::from_str("truncated rtnetlink address attribute")));
        }
        let length = read_u16(order, payload, offset) as usize;
        let attribute_type = read_u16(order, payload, offset + 2) & NLA_TYPE_MASK;
        if length < ATTRIBUTE_HEADER_LEN || length > payload.len() - offset {
            return Err(
                protocol_error(String::from_str("invalid rtnetlink address attribute length")),
            );
        }
        if (attribute_type == IFA_LOCAL || attribute_type == IFA_ADDRESS) && length == 8 {
            let parsed = Ipv4Address::new(
                payload[offset + 4],
                payload[offset + 5],
                payload[offset + 6],
                payload[offset + 7],
            );
            if attribute_type == IFA_LOCAL {
                local = Some(parsed.0);
            } else {
                address = Some(parsed.0);
            }
        }
        let next = offset + length;
        let pad = (4 - length % 4) % 4;
        offset = if pad <= payload.len() - next {
            next + pad
        } else {
            payload.len()
        };
    }
    match local {
        Some(value) => Ok(Some(Ipv4InterfacePrefix { address: Ipv4Address(value), prefix_len })),
        None => match address {
            Some(value) => Ok(
                Some(Ipv4InterfacePrefix { address: Ipv4Address(value), prefix_len }),
            ),
            None => Ok(None),
        },
    }
}

proof fn lemma_octets_value(address: Ipv4Address)
    ensures
        ipv4_value(
            octets_of(address)[0],
            octets_of(address)[1],
            octets_of(address)[2],
            octets_of(address)[3],
        ) == address.0,
{
    let v = address.0;
    assert(((v / 0x100_0000) as u8) * 0x100_0000 + (((v / 0x1_0000) % 256) as u8) * 0x1_0000
        + (((v / 0x100) % 256) as u8) * 0x100 + ((v % 256) as u8) == v) by (nonlinear_arith)
        requires
            v <= 0xffff_ffff,
    {
        assert(v / 0x100_0000 < 256);
    }
}

/// An address request reads back: its header gives its length, type and sequence, and its
/// payload gives the prefix for the interface it names, the local attribute first.
pub proof fn lemma_change_request_reads_back(
    order: ByteOrder,
    message_type: u16,
    flags: u16,
    interface_index: u32,
    prefix: Ipv4InterfacePrefix,
)
    ensures
        message_at(order, change_request_bytes(order, message_type, flags, interface_index, prefix))
            == Ok::<(nat, u16, u32, Seq<u8>), Seq<char>>(
            (
                40,
                message_type,
                1,
                change_request_bytes(order, message_type, flags, interface_index, prefix).subrange(
                    16,
                    40,
                ),
            ),
        ),
        address_of(
            order,
            change_request_bytes(order, message_type, flags, interface_index, prefix).subrange(16, 40),
            interface_index,
        ) == Ok::<Option<Ipv4InterfacePrefix>, Seq<char>>(Some(prefix)),
{
    let bytes = change_request_bytes(order, message_type, flags, interface_index, prefix);
    lemma_u32_round_trip(order, 40);
    lemma_u32_round_trip(order, 1);
    lemma_u32_round_trip(order, 0);
    lemma_u32_round_trip(order, interface_index);
    lemma_u16_round_trip(order, message_type);
    lemma_u16_round_trip(order, flags);
    lemma_u16_round_trip(order, 8);
    lemma_u16_round_trip(order, IFA_LOCAL);
    lemma_u16_round_trip(order, IFA_ADDRESS);
    lemma_octets_value(prefix.address);
    assert(bytes.len() == 40);
    assert(bytes.subrange(0, 4) =~= u32_bytes(order, 40));
    assert(bytes.subrange(4, 6) =~= u16_bytes(order, message_type));
    assert(bytes.subrange(8, 12) =~= u32_bytes(order, 1));
    let payload = bytes.subrange(16, 40);
    assert(payload.subrange(4, 8) =~= u32_bytes(order, interface_index));
    assert(payload.subrange(8, 10) =~= u16_bytes(order, 8));
    assert(payload.subrange(10, 12) =~= u16_bytes(order, IFA_LOCAL));
    assert(payload.subrange(16, 18) =~= u16_bytes(order, 8));
    assert(payload.subrange(18, 20) =~= u16_bytes(order, IFA_ADDRESS));
    assert(payload[0] == 2 && payload[1] == prefix.prefix_len);
    assert(2u16 & 0x3fff == 2) by (bit_vector);
    assert(1u16 & 0x3fff == 1) by (bit_vector);
    let octets = octets_of(prefix.address);
    assert(payload[12] == octets[0] && payload[13] == octets[1] && payload[14] == octets[2]
        && payload[15] == octets[3]);
    assert(payload[20] == octets[0] && payload[21] == octets[1] && payload[22] == octets[2]
        && payload[23] == octets[3]);
    assert(padding(8) == 0);
    let v = prefix.address.0;
    assert(scan_attributes(order, payload, 24, Some(v), Some(v)) == Ok::<(Option<u32>, Option<u32>), Seq<char>>((Some(v), Some(v))));
    assert(scan_attributes(order, payload, 16, Some(v), None) == scan_attributes(order, payload, 24, Some(v), Some(v)));
    assert(scan_attributes(order, payload, 8, None, None) == scan_attributes(order, payload, 16, Some(v), None));
}

/// Why a response is refused: malformed data (`Some` diagnostic), or the kernel's refusal
/// with an error number.
pub type ResponseFailure = (Option<Seq<char>>, int);

/// The error reports this failure.
pub open spec fn reports_failure(error: CoreError, failure: ResponseFailure) -> bool {
    match failure.0 {
        Some(diagnostic) => is_protocol_error(error, diagnostic),
        None => is_refusal(error, failure.1),
    }
}

pub open spec fn sequence_text(sequence: u32) -> Seq<char> {
    "unexpected netlink sequence "@ + decimal(sequence as nat) + "; expected 1"@
}

/// Where the message after the one at the start of `bytes` begins.
pub open spec fn next_message(bytes: Seq<u8>, length: nat) -> int {
    if length + padding(length) > bytes.len() {
        bytes.len() as int
    } else {
        (length + padding(length)) as int
    }
}

/// Scanning a chunk of an address dump: whether the dump ended, with the prefixes found so
/// far for interface `index`, or why it is refused.
pub open spec fn dump_scan(
    order: ByteOrder,
    bytes: Seq<u8>,
    index: u32,
    found: Seq<Ipv4InterfacePrefix>,
) -> Result<(bool, Seq<Ipv4InterfacePrefix>), ResponseFailure>
    decreases bytes.len(),
{
    if bytes.len() == 0 {
        Ok((false, found))
    } else {
        match message_at(order, bytes) {
            Err(diagnostic) => Err((Some(diagnostic), 0)),
            Ok((length, message_type, sequence, payload)) => {
                let rest = bytes.skip(next_message(bytes, length));
                if sequence != 1 {
                    Err((Some(sequence_text(sequence)), 0))
                } else if message_type == NLMSG_DONE {
                    Ok((true, found))
                } else if message_type == NLMSG_ERROR {
                    match ack_of(order, payload) {
                        Err(diagnostic) => Err((Some(diagnostic), 0)),
                        Ok(Some(errno)) => Err((None, errno)),
                        Ok(None) => dump_scan(order, rest, index, found),
                    }
                } else if message_type == RTM_NEWADDR {
                    match address_of(order, payload, index) {
                        Err(diagnostic) => Err((Some(diagnostic), 0)),
                        Ok(Some(prefix)) => dump_scan(order, rest, index, found.push(prefix)),
                        Ok(None) => dump_scan(order, rest, index, found),
                    }
                } else {
                    dump_scan(order, rest, index, found)
                }
            },
        }
    }
}

fn sequence_error(sequence: u32) -> (error: CoreError)
    ensures
        is_protocol_error(error, sequence_text(sequence)),
{
    let mut text = String::from_str("unexpected netlink sequence ");
    push_decimal(&mut text, sequence as u64);
    push_str(&mut text, "; expected 1");
    protocol_error(text)
}

/// Scans one received chunk of an address dump, adding the prefixes for interface `index`;
/// returns whether the dump ended.
pub fn scan_address_dump(
    order: ByteOrder,
    buffer: &[u8],
    index: u32,
    found: &mut Vec<Ipv4InterfacePrefix>,
) -> (result: Result<bool, CoreError>)
    ensures
        match (dump_scan(order, buffer@, index, old(found)@), result) {
            (Ok((done, prefixes)), Ok(ended)) => ended == done && final(found)@ == prefixes,
            (Err(failure), Err(error)) => reports_failure(error, failure),
            _ => false,
        },
{
    let mut offset: usize = 0;
    let ghost start = old(found)@;
    assert(buffer@.skip(0) =~= buffer@);
    while offset < buffer.len()
        invariant
            offset <= buffer@.len(),
            start == old(found)@,
            dump_scan(order, buffer@, index, start) == dump_scan(
                order,
                buffer@.skip(offset as int),
                index,
                found@,
            ),
        decreases buffer@.len() - offset,
    {
        let rest = copy_range(buffer, offset, buffer.len());
        assert(rest@ =~= buffer@.skip(offset as int));
        assert(rest@.len() > 0);
        let message = match netlink_message(order, rest.as_slice()) {
            Ok(message) => message,
            Err(error) => {
                assert(message_at(order, rest@) is Err);
                assert(dump_scan(order, rest@, index, found@) == Err::<(bool, Seq<Ipv4InterfacePrefix>), ResponseFailure>((Some(message_at(order, rest@)->Err_0), 0)));
                return Err(error);
            },
        };
        let ghost skip = next_message(rest@, message.length as nat);
        if message.sequence != REQUEST_SEQUENCE {
            return Err(sequence_error(message.sequence));
        }
        if message.message_type == NLMSG_DONE {
            return Ok(true);
        }
        if message.message_type == NLMSG_ERROR {
            match parse_netlink_ack(order, message.payload.as_slice()) {
                Ok(()) => {},
                Err(error) => return Err(error),
            }
        } else if message.message_type == RTM_NEWADDR {
            match parse_ipv4_address(order, message.payload.as_slice(), index) {
                Ok(Some(prefix)) => found.push(prefix),
                Ok(None) => {},
                Err(error) => return Err(error),
            }
        }
        let length = message.length;
        let pad = (4 - length % 4) % 4;
        let step = if pad <= rest.len() - length {
            length + pad
        } else {
            rest.len()
        };
        assert(step == skip);
        assert(rest@.skip(skip) =~= buffer@.skip(offset + step));
        offset = offset + step;
    }
    assert(buffer@.skip(offset as int) =~= Seq::<u8>::empty());
    Ok(false)
}

/// Scanning a chunk of the answer to an address change: `Ok(true)` when acknowledged,
/// `Ok(false)` when the acknowledgement has not arrived yet, or why it is refused.
pub open spec fn ack_scan(order: ByteOrder, bytes: Seq<u8>) -> Result<bool, ResponseFailure>
    decreases bytes.len(),
{
    if bytes.len() == 0 {
        Ok(false)
    } else {
        match message_at(order, bytes) {
            Err(diagnostic) => Err((Some(diagnostic), 0)),
            Ok((length, message_type, sequence, payload)) => {
                if sequence != 1 {
                    Err((Some(sequence_text(sequence)), 0))
                } else if message_type == NLMSG_ERROR {
                    match ack_of(order, payload) {
                        Err(diagnostic) => Err((Some(diagnostic), 0)),
                        Ok(Some(errno)) => Err((None, errno)),
                        Ok(None) => Ok(true),
                    }
                } else {
                    ack_scan(order, bytes.skip(next_message(bytes, length)))
                }
            },
        }
    }
}

/// Scans one received chunk of the answer to an address change.
pub fn scan_change_ack(order: ByteOrder, buffer: &[u8]) -> (result: Result<bool, CoreError>)
    ensures
        match (ack_scan(order, buffer@), result) {
            (Ok(acknowledged), Ok(done)) => done == acknowledged,
            (Err(failure), Err(error)) => reports_failure(error, failure),
            _ => false,
        },
{
    let mut offset: usize = 0;
    assert(buffer@.skip(0) =~= buffer@);
    while offset < buffer.len()
        invariant
            offset <= buffer@.len(),
            ack_scan(order, buffer@) == ack_scan(order, buffer@.skip(offset as int)),
        decreases buffer@.len() - offset,
    {
        let rest = copy_range(buffer, offset, buffer.len());
        assert(rest@ =~= buffer@.skip(offset as int));
        let message = match netlink_message(order, rest.as_slice()) {
            Ok(message) => message,
            Err(error) => return Err(error),
        };
        let ghost skip = next_message(rest@, message.length as nat);
        if message.sequence != REQUEST_SEQUENCE {
            return Err(sequence_error(message.sequence));
        }
        if message.message_type == NLMSG_ERROR {
            return match parse_netlink_ack(order, message.payload.as_slice()) {
                Ok(()) => Ok(true),
                Err(error) => Err(error),
            };
        }
        let length = message.length;
        let pad = (4 - length % 4) % 4;
        let step = if pad <= rest.len() - length {
            length + pad
        } else {
            rest.len()
        };
        assert(step == skip);
        assert(rest@.skip(skip) =~= buffer@.skip(offset + step));
        offset = offset + step;
    }
    assert(buffer@.skip(offset as int) =~= Seq::<u8>::empty());
    Ok(false)
}

/// The IPv4 prefix a general prefix names, when it is one.
pub fn ipv4_prefix(prefix: IpPrefix) -> (result: Result<Ipv4InterfacePrefix, CoreError>)
    ensures
        match (prefix.address, result) {
            (IpAddress::V4(address), Ok(found)) => prefix.prefix_len <= 32 && found.address
                == address && found.prefix_len == prefix.prefix_len,
            (IpAddress::V4(_), Err(error)) => prefix.prefix_len > 32 && error.spec_kind()
                == ErrorKind::InvalidInput,
            (IpAddress::V6(_), Err(error)) => error.spec_kind() == ErrorKind::InvalidInput,
            _ => false,
        },
        match result {
            Err(error) => error.spec_message()
                == "kernel PANU address backend currently accepts only IPv4 prefixes"@
                && error.spec_diagnostic() is None,
            Ok(_) => true,
        },
{
    match prefix.address {
        IpAddress::V4(address) => {
            if prefix.prefix_len <= 32 {
                return Ok(Ipv4InterfacePrefix { address, prefix_len: prefix.prefix_len });
            }
        },
        IpAddress::V6(_) => {},
    }
    Err(
        CoreError::new(
            ErrorKind::InvalidInput,
            "kernel PANU address backend currently accepts only IPv4 prefixes",
        ),
    )
}

/// `a` sorts before `b`: by address, then by prefix length.
pub open spec fn prefix_before(a: Ipv4InterfacePrefix, b: Ipv4InterfacePrefix) -> bool {
    a.address.0 < b.address.0 || (a.address.0 == b.address.0 && a.prefix_len < b.prefix_len)
}

pub open spec fn strictly_sorted(prefixes: Seq<Ipv4InterfacePrefix>) -> bool {
    forall|i: int, j: int|
        0 <= i < j < prefixes.len() ==> prefix_before(#[trigger] prefixes[i], #[trigger] prefixes[j])
}

fn before(a: Ipv4InterfacePrefix, b: Ipv4InterfacePrefix) -> (result: bool)
    ensures
        result == prefix_before(a, b),
{
    a.address.0 < b.address.0 || (a.address.0 == b.address.0 && a.prefix_len < b.prefix_len)
}

/// The prefixes sorted by address then prefix length, each once.
pub fn sorted_unique(prefixes: &Vec<Ipv4InterfacePrefix>) -> (sorted: Vec<Ipv4InterfacePrefix>)
    ensures
        strictly_sorted(sorted@),
        forall|p: Ipv4InterfacePrefix| sorted@.contains(p) <==> prefixes@.contains(p),
{
    let mut sorted: Vec<Ipv4InterfacePrefix> = Vec::new();
    let mut i: usize = 0;
    while i < prefixes.len()
        invariant
            i <= prefixes@.len(),
            strictly_sorted(sorted@),
            forall|p: Ipv4InterfacePrefix| sorted@.contains(p) <==> prefixes@.take(i as int).contains(p),
        decreases prefixes@.len() - i,
    {
        let p = prefixes[i];
        let mut k: usize = 0;
        while k < sorted.len() && before(sorted[k], p)
            invariant
                k <= sorted@.len(),
                forall|j: int| 0 <= j < k ==> prefix_before(#[trigger] sorted@[j], p),
            decreases sorted@.len() - k,
        {
            k += 1;
        }
        let ghost old_sorted = sorted@;
        if k < sorted.len() && sorted[k] == p {
        } else {
            sorted.insert(k, p);
            proof {
                assert forall|a: int, b: int| 0 <= a < b < sorted@.len() implies prefix_before(
                    #[trigger] sorted@[a],
                    #[trigger] sorted@[b],
                ) by {
                    if a < k as int && b == k as int {
                    } else if a == k as int && b > k as int {
                        assert(sorted@[b] == old_sorted[b - 1]);
                        assert(!prefix_before(old_sorted[k as int], p));
                        if b - 1 > k {
                            assert(prefix_before(old_sorted[k as int], old_sorted[b - 1]));
                        }
                    } else if a < k as int && b > k as int {
                        assert(sorted@[b] == old_sorted[b - 1]);
                    } else if a > k as int {
                        assert(sorted@[a] == old_sorted[a - 1] && sorted@[b] == old_sorted[b - 1]);
                    }
                }
            }
        }
        proof {
            assert(prefixes@.take(i + 1) =~= prefixes@.take(i as int).push(p));
            assert forall|q: Ipv4InterfacePrefix| sorted@.contains(q) <==> prefixes@.take(i + 1).contains(q) by {
                if sorted@.contains(q) {
                    let j = choose|j: int| 0 <= j < sorted@.len() && sorted@[j] == q;
                    if q != p {
                        if j < k as int {
                            assert(old_sorted[j] == q);
                        } else if sorted@.len() > old_sorted.len() {
                            assert(old_sorted[j - 1] == q);
                        } else {
                            assert(old_sorted[j] == q);
                        }
                        assert(old_sorted.contains(q));
                    }
                    assert(prefixes@.take(i + 1)[i as int] == p);
                }
                let upto = prefixes@.take(i + 1);
                if upto.contains(q) {
                    let j = choose|j: int| 0 <= j < upto.len() && #[trigger] upto[j] == q;
                    if j < i as int {
                        assert(prefixes@.take(i as int)[j] == q);
                        assert(old_sorted.contains(q));
                        let m = choose|m: int| 0 <= m < old_sorted.len() && old_sorted[m] == q;
                        if sorted@.len() > old_sorted.len() {
                            if m < k as int {
                                assert(sorted@[m] == q);
                            } else {
                                assert(sorted@[m + 1] == q);
                            }
                        } else {
                            assert(sorted@[m] == q);
                        }
                    } else {
                        if sorted@.len() > old_sorted.len() {
                            assert(sorted@[k as int] == p);
                        } else {
                            assert(sorted@[k as int] == p);
                        }
                    }
                }
            }
        }
        i += 1;
    }
    assert(prefixes@.take(prefixes@.len() as int) =~= prefixes@);
    sorted
}

/// `a.b.c.d/len` for each prefix, joined with commas, or `<none>`.
pub open spec fn prefixes_text(prefixes: Seq<Ipv4InterfacePrefix>) -> Seq<char>
    decreases prefixes.len(),
{
    if prefixes.len() == 0 {
        "<none>"@
    } else if prefixes.len() == 1 {
        ipv4_prefix_text(prefixes[0].address.0, prefixes[0].prefix_len)
    } else {
        prefixes_text(prefixes.drop_last()) + seq![','] + ipv4_prefix_text(
            prefixes.last().address.0,
            prefixes.last().prefix_len,
        )
    }
}

pub fn format_prefixes(prefixes: &Vec<Ipv4InterfacePrefix>) -> (text: String)
    ensures
        text@ == prefixes_text(prefixes@),
{
    if prefixes.len() == 0 {
        return String::from_str("<none>");
    }
    let mut text = String::new();
    push_ipv4_prefix(&mut text, prefixes[0].address.0, prefixes[0].prefix_len);
    proof {
        assert(prefixes@.take(1).drop_last() =~= Seq::<Ipv4InterfacePrefix>::empty());
        assert(text@ =~= prefixes_text(prefixes@.take(1)));
    }
    let mut i: usize = 1;
    while i < prefixes.len()
        invariant
            1 <= i <= prefixes@.len(),
            text@ == prefixes_text(prefixes@.take(i as int)),
        decreases prefixes@.len() - i,
    {
        crate::text::push_char(&mut text, ',');
        push_ipv4_prefix(&mut text, prefixes[i].address.0, prefixes[i].prefix_len);
        proof {
            assert(prefixes@.take(i + 1).drop_last() =~= prefixes@.take(i as int));
            assert(text@ =~= prefixes_text(prefixes@.take(i + 1)));
        }
        i += 1;
    }
    assert(prefixes@.take(prefixes@.len() as int) =~= prefixes@);
    text
}

/// An IPv4 address that BlueRoute applied to a PANU interface, with the interface's index
/// at the time.
#[derive(Clone, Debug, PartialEq, Eq)]
pub struct KernelAddressLease {
    address: InterfaceAddress,
    interface_index: u32,
}

impl KernelAddressLease {
    pub closed spec fn spec_address(&self) -> InterfaceAddress {
        self.address
    }

    pub closed spec fn spec_interface_index(&self) -> u32 {
        self.interface_index
    }

    pub fn new(address: InterfaceAddress, interface_index: u32) -> (lease: Self)
        ensures
            lease.spec_address() == address,
            lease.spec_interface_index() == interface_index,
    {
        KernelAddressLease { address, interface_index }
    }

    pub fn address(&self) -> (address: &InterfaceAddress)
        ensures
            *address == self.spec_address(),
    {
        &self.address
    }

    pub fn interface_index(&self) -> (index: u32)
        ensures
            index == self.spec_interface_index(),
    {
        self.interface_index
    }
}

/// Applies and removes PANU addresses directly through the kernel's route socket.
#[derive(Clone, Copy, Debug, Default)]
pub struct KernelAddressBackend;

/// `interface=I ifindex=N` text.
pub open spec fn interface_text(interface: Seq<char>, index: u32) -> Seq<char> {
    "interface="@ + interface + " ifindex="@ + decimal(index as nat)
}

fn push_interface(text: &mut String, interface: &NetworkInterfaceHandle, index: u32)
    ensures
        final(text)@ == old(text)@ + interface_text(interface@, index),
{
    push_str(text, "interface=");
    push_str(text, interface.as_str());
    push_str(text, " ifindex=");
    push_decimal(text, index as u64);
    assert(final(text)@ =~= old(text)@ + interface_text(interface@, index));
}

/// The refusal to configure an interface that already has IPv4 addresses.
pub fn existing_state_error(
    interface: &NetworkInterfaceHandle,
    index: u32,
    existing: &Vec<Ipv4InterfacePrefix>,
) -> (error: CoreError)
    ensures
        error.spec_kind() == ErrorKind::InvalidState,
        error.spec_message() == "refusing to configure a PANU interface that already has IPv4 state"@,
        error.spec_diagnostic() == Some(
            interface_text(interface@, index) + " existing="@ + prefixes_text(existing@),
        ),
{
    let mut text = String::new();
    push_interface(&mut text, interface, index);
    push_str(&mut text, " existing=");
    let listed = format_prefixes(existing);
    push_str(&mut text, listed.as_str());
    assert(text@ =~= interface_text(interface@, index) + " existing="@ + prefixes_text(existing@));
    CoreError::from_parts(
        ErrorKind::InvalidState,
        String::from_str("refusing to configure a PANU interface that already has IPv4 state"),
        Some(text),
    )
}

/// The interface holds exactly the requested address and nothing else.
pub fn address_converged(applied: &Vec<Ipv4InterfacePrefix>, requested: Ipv4InterfacePrefix) -> (converged: bool)
    ensures
        converged == (applied@.len() == 1 && applied@[0] == requested),
{
    applied.len() == 1 && applied[0] == requested
}

/// The text of a cleanup's outcome: `ok`, or the error's message.
pub open spec fn cleanup_text(cleanup: Result<(), CoreError>) -> Seq<char> {
    match cleanup {
        Ok(()) => "ok"@,
        Err(error) => error.spec_message(),
    }
}

/// The error for an address application that did not converge, after its cleanup.
pub fn convergence_error(
    interface: &NetworkInterfaceHandle,
    index: u32,
    requested: Ipv4InterfacePrefix,
    applied: &Vec<Ipv4InterfacePrefix>,
    cleanup: &Result<(), CoreError>,
) -> (error: CoreError)
    ensures
        error.spec_kind() == ErrorKind::NetworkBackendUnavailable,
        error.spec_message()
            == "kernel PANU address application did not converge to the requested state"@,
        error.spec_diagnostic() == Some(
            interface_text(interface@, index) + " requested="@ + ipv4_prefix_text(
                requested.address.0,
                requested.prefix_len,
            ) + " observed="@ + prefixes_text(applied@) + " cleanup="@ + cleanup_text(*cleanup),
        ),
{
    let mut text = String::new();
    push_interface(&mut text, interface, index);
    push_str(&mut text, " requested=");
    push_ipv4_prefix(&mut text, requested.address.0, requested.prefix_len);
    push_str(&mut text, " observed=");
    let listed = format_prefixes(applied);
    push_str(&mut text, listed.as_str());
    push_str(&mut text, " cleanup=");
    match cleanup {
        Ok(()) => push_str(&mut text, "ok"),
        Err(error) => push_str(&mut text, error.message()),
    }
    CoreError::from_parts(
        ErrorKind::NetworkBackendUnavailable,
        String::from_str("kernel PANU address application did not converge to the requested state"),
        Some(text),
    )
}

/// The lease's address is still to be removed: the interface is the same one and still
/// holds it.
pub fn removal_needed(
    current_index: u32,
    lease: &KernelAddressLease,
    existing: &Vec<Ipv4InterfacePrefix>,
    requested: Ipv4InterfacePrefix,
) -> (needed: bool)
    ensures
        needed == (current_index == lease.spec_interface_index() && existing@.contains(requested)),
{
    if current_index != lease.interface_index() {
        return false;
    }
    contains_prefix(existing, requested)
}

pub fn contains_prefix(prefixes: &Vec<Ipv4InterfacePrefix>, wanted: Ipv4InterfacePrefix) -> (found: bool)
    ensures
        found == prefixes@.contains(wanted),
{
    let mut i: usize = 0;
    while i < prefixes.len()
        invariant
            i <= prefixes@.len(),
            forall|j: int| 0 <= j < i ==> prefixes@[j] != wanted,
        decreases prefixes@.len() - i,
    {
        if prefixes[i] == wanted {
            return true;
        }
        i += 1;
    }
    false
}

/// The error for an address removal that did not take effect.
pub fn removal_error(
    interface: &NetworkInterfaceHandle,
    index: u32,
    requested: Ipv4InterfacePrefix,
    remaining: &Vec<Ipv4InterfacePrefix>,
) -> (error: CoreError)
    ensures
        error.spec_kind() == ErrorKind::NetworkBackendUnavailable,
        error.spec_message() == "kernel PANU address removal did not converge"@,
        error.spec_diagnostic() == Some(
            interface_text(interface@, index) + " address="@ + ipv4_prefix_text(
                requested.address.0,
                requested.prefix_len,
            ) + " remaining="@ + prefixes_text(remaining@),
        ),
{
    let mut text = String::new();
    push_interface(&mut text, interface, index);
    push_str(&mut text, " address=");
    push_ipv4_prefix(&mut text, requested.address.0, requested.prefix_len);
    push_str(&mut text, " remaining=");
    let listed = format_prefixes(remaining);
    push_str(&mut text, listed.as_str());
    CoreError::from_parts(
        ErrorKind::NetworkBackendUnavailable,
        String::from_str("kernel PANU address removal did not converge"),
        Some(text),
    )
}

} // verus!
