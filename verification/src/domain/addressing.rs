use vstd::arithmetic::mul::lemma_mul_strict_inequality;
use vstd::arithmetic::power2::{lemma2_to64, lemma_pow2_adds, lemma_pow2_pos, pow2};
use vstd::prelude::*;

use crate::domain::bits::{low_bits, power_of_two, shift_up};
use crate::domain::config::Ipv4AddressPool;
use crate::domain::error::{CoreError, ErrorKind};
use crate::domain::id::NetworkId;
use crate::domain::route::{ipv4_value, IpAddress, IpPrefix, Ipv4Address};
use crate::text::{decimal, push_char, push_decimal_u8, push_str};

verus! {

/// Deterministic IPv4 addresses for the initial single-star topology.
///
/// The subnet is a pure function of `NetworkId` and the configured pool so a joining node can
/// derive the bootstrap address plan from the discovered logical network identity without using
/// Bluetooth metadata as identity or requiring durable allocation state.
#[derive(Clone, Copy, Debug, PartialEq, Eq, Structural)]
pub struct Ipv4StarAddressPlan {
    pub segment: IpPrefix,
    pub host: IpPrefix,
    pub first_client: IpPrefix,
}

/// The first four identifier bytes read as a big-endian number.
pub open spec fn network_selector_value(network: NetworkId) -> int {
    ipv4_value(network.0@[0], network.0@[1], network.0@[2], network.0@[3])
}

/// The base address of the segment that `network` selects inside `pool`: the selector modulo the
/// number of segments, times the segment size, added to the pool address.
pub open spec fn star_segment_base(network: NetworkId, pool: Ipv4AddressPool) -> int {
    pool.network.0 + (network_selector_value(network) % pow2(
        (pool.segment_prefix_len - pool.pool_prefix_len) as nat,
    ) as int) * pow2((32 - pool.segment_prefix_len) as nat)
}

/// An IPv4 prefix value.
pub open spec fn v4_prefix(value: int, prefix_len: u8) -> IpPrefix {
    IpPrefix { address: IpAddress::V4(Ipv4Address(value as u32)), prefix_len }
}

impl Ipv4StarAddressPlan {
    pub fn for_network(network: NetworkId, pool: Ipv4AddressPool) -> (result: Result<
        Self,
        CoreError,
    >)
        ensures
            result is Ok <==> pool.is_valid() && star_segment_base(network, pool) + 2
                <= u32::MAX,
            match result {
                Ok(plan) => {
                    &&& plan.segment == v4_prefix(
                        star_segment_base(network, pool),
                        pool.segment_prefix_len,
                    )
                    &&& plan.host == v4_prefix(
                        star_segment_base(network, pool) + 1,
                        pool.segment_prefix_len,
                    )
                    &&& plan.first_client == v4_prefix(
                        star_segment_base(network, pool) + 2,
                        pool.segment_prefix_len,
                    )
                },
                Err(error) => error.spec_kind() == ErrorKind::InvalidInput,
            },
    {
        match pool.validate() {
            Ok(()) => {},
            Err(error) => return Err(error),
        }
        let segment_network = match star_segment_base_of(network, pool) {
            Some(base) => base,
            None => {
                return Err(CoreError::new(ErrorKind::InvalidInput, "IPv4 pool overflow"));
            },
        };
        let host = match segment_network.checked_add(1) {
            Some(value) => value,
            None => {
                return Err(CoreError::new(ErrorKind::InvalidInput, "IPv4 host address overflow"));
            },
        };
        let first_client = match segment_network.checked_add(2) {
            Some(value) => value,
            None => {
                return Err(
                    CoreError::new(ErrorKind::InvalidInput, "IPv4 client address overflow"),
                );
            },
        };
        let len = pool.segment_prefix_len;
        Ok(Ipv4StarAddressPlan {
            segment: IpPrefix {
                address: IpAddress::V4(Ipv4Address(segment_network)),
                prefix_len: len,
            },
            host: IpPrefix { address: IpAddress::V4(Ipv4Address(host)), prefix_len: len },
            first_client: IpPrefix {
                address: IpAddress::V4(Ipv4Address(first_client)),
                prefix_len: len,
            },
        })
    }
}

/// The segment base that `network` selects in a valid `pool`, when it fits in 32 bits.
pub fn star_segment_base_of(network: NetworkId, pool: Ipv4AddressPool) -> (base: Option<u32>)
    requires
        pool.is_valid(),
    ensures
        match base {
            Some(value) => value == star_segment_base(network, pool),
            None => star_segment_base(network, pool) > u32::MAX,
        },
{
    let segment_bits = (pool.segment_prefix_len - pool.pool_prefix_len) as u32;
    let segment_count = power_of_two(segment_bits);
    let bytes = network.as_bytes();
    let selector_value = Ipv4Address::new(bytes[0], bytes[1], bytes[2], bytes[3]).0;
    let selector = selector_value % segment_count;
    let host_bits = 32u32 - pool.segment_prefix_len as u32;
    proof {
        lemma_pow2_adds(segment_bits as nat, host_bits as nat);
        lemma_pow2_pos(host_bits as nat);
        lemma2_to64();
        lemma_mul_strict_inequality(
            selector as int,
            pow2(segment_bits as nat) as int,
            pow2(host_bits as nat) as int,
        );
        assert(segment_bits + host_bits == 32 - pool.pool_prefix_len);
        assert(pool.pool_prefix_len >= 8);
        assert(pow2((32 - pool.pool_prefix_len) as nat) <= pow2(32)) by {
            vstd::arithmetic::power2::lemma_pow2_strictly_increases(
                (32 - pool.pool_prefix_len) as nat,
                32,
            );
        }
    }
    let offset = shift_up(selector, host_bits);
    pool.network.0.checked_add(offset)
}

/// The base address of a prefix: the address with its host bits cleared.
pub open spec fn prefix_start(value: u32, prefix_len: u8) -> int {
    value - (value as nat) % pow2((32 - prefix_len) as nat)
}

/// The last address of a prefix: the address with its host bits set.
pub open spec fn prefix_end(value: u32, prefix_len: u8) -> int {
    prefix_start(value, prefix_len) + pow2((32 - prefix_len) as nat) - 1
}

/// The IPv4 prefix with its host bits cleared, if `prefix` is IPv4 with a length of at most 32.
pub open spec fn normalized_v4(prefix: IpPrefix) -> Option<IpPrefix> {
    match prefix.address {
        IpAddress::V4(address) => if prefix.prefix_len <= 32 {
            Some(v4_prefix(prefix_start(address.0, prefix.prefix_len), prefix.prefix_len))
        } else {
            None
        },
        IpAddress::V6(_) => None,
    }
}

/// Clears the host bits of an IPv4 prefix.
pub fn normalized_ipv4_prefix(prefix: IpPrefix) -> (result: Result<IpPrefix, CoreError>)
    ensures
        match result {
            Ok(normalized) => normalized_v4(prefix) == Some(normalized),
            Err(error) => normalized_v4(prefix) is None && error.spec_kind()
                == ErrorKind::InvalidInput,
        },
{
    let address = match prefix.address {
        IpAddress::V4(address) => address.0,
        IpAddress::V6(_) => {
            return Err(CoreError::new(ErrorKind::InvalidInput, "expected an IPv4 prefix"));
        },
    };
    if prefix.prefix_len > 32 {
        return Err(
            CoreError::new(ErrorKind::InvalidInput, "IPv4 prefix length cannot exceed 32"),
        );
    }
    let host_bits = 32u32 - prefix.prefix_len as u32;
    let start = address - low_bits(address, host_bits);
    Ok(IpPrefix { address: IpAddress::V4(Ipv4Address(start)), prefix_len: prefix.prefix_len })
}

/// The last address of an IPv4 prefix, computed in 64 bits.
fn prefix_last(value: u32, prefix_len: u8) -> (last: u64)
    requires
        prefix_len <= 32,
    ensures
        last == prefix_end(value, prefix_len),
{
    let host_bits = 32u32 - prefix_len as u32;
    let start = value - low_bits(value, host_bits);
    proof {
        vstd::bits::lemma_u64_pow2_no_overflow(host_bits as nat);
        lemma2_to64();
        lemma_pow2_pos(host_bits as nat);
        vstd::bits::lemma_u64_shl_is_mul(1u64, host_bits as u64);
    }
    let size = 1u64 << (host_bits as u64);
    start as u64 + size - 1
}

/// Two IPv4 prefixes share at least one address.
pub open spec fn ipv4_ranges_overlap(left: u32, left_len: u8, right: u32, right_len: u8) -> bool {
    prefix_start(left, left_len) <= prefix_end(right, right_len) && prefix_start(right, right_len)
        <= prefix_end(left, left_len)
}

fn ipv4_prefixes_overlap(left: u32, left_len: u8, right: u32, right_len: u8) -> (overlap: bool)
    requires
        left_len <= 32,
        right_len <= 32,
    ensures
        overlap == ipv4_ranges_overlap(left, left_len, right, right_len),
{
    let left_start = left - low_bits(left, 32u32 - left_len as u32);
    let right_start = right - low_bits(right, 32u32 - right_len as u32);
    let left_end = prefix_last(left, left_len);
    let right_end = prefix_last(right, right_len);
    (left_start as u64) <= right_end && (right_start as u64) <= left_end
}

/// Dotted-quad text of an IPv4 address value.
pub open spec fn ipv4_text(value: u32) -> Seq<char> {
    decimal((value / 0x100_0000) as nat) + seq!['.'] + decimal(((value / 0x1_0000) % 256) as nat)
        + seq!['.'] + decimal(((value / 0x100) % 256) as nat) + seq!['.'] + decimal(
        (value % 256) as nat,
    )
}

/// `address/len` text of an IPv4 prefix.
pub open spec fn ipv4_prefix_text(value: u32, prefix_len: u8) -> Seq<char> {
    ipv4_text(value) + seq!['/'] + decimal(prefix_len as nat)
}

pub(crate) fn push_ipv4_prefix(text: &mut String, value: u32, prefix_len: u8)
    ensures
        final(text)@ == old(text)@ + ipv4_prefix_text(value, prefix_len),
{
    let o = Ipv4Address(value).octets();
    push_decimal_u8(text, o[0]);
    push_char(text, '.');
    push_decimal_u8(text, o[1]);
    push_char(text, '.');
    push_decimal_u8(text, o[2]);
    push_char(text, '.');
    push_decimal_u8(text, o[3]);
    push_char(text, '/');
    push_decimal_u8(text, prefix_len);
    assert(final(text)@ =~= old(text)@ + ipv4_prefix_text(value, prefix_len));
}

/// Prefixes of `active` that take part in conflict detection: IPv4 prefixes other than a default
/// route.
pub open spec fn considered(prefix: IpPrefix) -> bool {
    prefix.address is V4 && prefix.prefix_len != 0
}

/// The first active prefix, at or after index `from`, that makes the check fail: one that cannot
/// be normalized or whose range overlaps the normalized candidate.
pub open spec fn first_conflict(candidate: IpPrefix, active: Seq<IpPrefix>, from: int) -> Option<int>
    decreases active.len() - from,
{
    if from >= active.len() || from < 0 {
        None
    } else if considered(active[from]) && (normalized_v4(active[from]) is None || ipv4_ranges_overlap(
        normalized_v4(candidate)->0.address->V4_0.0,
        candidate.prefix_len,
        normalized_v4(active[from])->0.address->V4_0.0,
        active[from].prefix_len,
    )) {
        Some(from)
    } else {
        first_conflict(candidate, active, from + 1)
    }
}

/// The error that the check reports: an invalid candidate, or the first failing active prefix,
/// which is either malformed or overlaps the candidate; an overlap names both prefixes.
pub open spec fn conflict_reported(candidate: IpPrefix, active: Seq<IpPrefix>, error: CoreError) -> bool {
    if normalized_v4(candidate) is None {
        error.spec_kind() == ErrorKind::InvalidInput
    } else {
        match first_conflict(candidate, active, 0) {
            None => false,
            Some(index) => if normalized_v4(active[index]) is None {
                error.spec_kind() == ErrorKind::InvalidInput
            } else {
                &&& error.spec_kind() == ErrorKind::AddressConflict
                &&& error.spec_diagnostic() == Some(
                    seq!['c', 'a', 'n', 'd', 'i', 'd', 'a', 't', 'e', '='] + ipv4_prefix_text(
                        normalized_v4(candidate)->0.address->V4_0.0,
                        candidate.prefix_len,
                    ) + seq![' ', 'c', 'o', 'n', 'f', 'l', 'i', 'c', 't', 'i', 'n', 'g', '=']
                        + ipv4_prefix_text(
                        normalized_v4(active[index])->0.address->V4_0.0,
                        active[index].prefix_len,
                    ),
                )
            },
        }
    }
}

/// Rejects an IPv4 segment that overlaps any active non-default IPv4 prefix.
///
/// A default route (`0.0.0.0/0`) is intentionally not a collision: Linux can install a more
/// specific connected BlueRoute route alongside an ordinary default route. IPv6 prefixes are
/// irrelevant to this IPv4-only phase and are ignored.
pub fn ensure_ipv4_segment_available(candidate: IpPrefix, active: &[IpPrefix]) -> (result: Result<
    (),
    CoreError,
>)
    ensures
        match result {
            Ok(()) => normalized_v4(candidate) is Some && first_conflict(candidate, active@, 0) is None,
            Err(error) => conflict_reported(candidate, active@, error),
        },
{
    let candidate_normalized = match normalized_ipv4_prefix(candidate) {
        Ok(prefix) => prefix,
        Err(error) => return Err(error),
    };
    let candidate_start = match candidate_normalized.address {
        IpAddress::V4(address) => address.0,
        IpAddress::V6(_) => vstd::pervasive::unreached(),
    };
    let mut i: usize = 0;
    while i < active.len()
        invariant
            i <= active@.len(),
            normalized_v4(candidate) == Some(candidate_normalized),
            candidate_normalized.address == IpAddress::V4(Ipv4Address(candidate_start)),
            candidate_normalized.prefix_len == candidate.prefix_len <= 32,
            first_conflict(candidate, active@, 0) == first_conflict(candidate, active@, i as int),
        decreases active@.len() - i,
    {
        let prefix = active[i];
        let considered_prefix = match prefix.address {
            IpAddress::V4(_) => prefix.prefix_len != 0,
            IpAddress::V6(_) => false,
        };
        if considered_prefix {
            let normalized = match normalized_ipv4_prefix(prefix) {
                Ok(value) => value,
                Err(error) => return Err(error),
            };
            let start = match normalized.address {
                IpAddress::V4(address) => address.0,
                IpAddress::V6(_) => vstd::pervasive::unreached(),
            };
            if ipv4_prefixes_overlap(
                candidate_start,
                candidate.prefix_len,
                start,
                prefix.prefix_len,
            ) {
                let mut diagnostic = String::new();
                push_str(&mut diagnostic, "candidate=");
                push_ipv4_prefix(&mut diagnostic, candidate_start, candidate.prefix_len);
                push_str(&mut diagnostic, " conflicting=");
                push_ipv4_prefix(&mut diagnostic, start, prefix.prefix_len);
                proof {
                    reveal_strlit("candidate=");
                    reveal_strlit(" conflicting=");
                    assert("candidate="@ =~= seq!['c', 'a', 'n', 'd', 'i', 'd', 'a', 't', 'e', '=']);
                    assert(" conflicting="@ =~= seq![' ', 'c', 'o', 'n', 'f', 'l', 'i', 'c', 't', 'i', 'n', 'g', '=']);
                    assert(first_conflict(candidate, active@, i as int) == Some(i as int));
                }
                return Err(
                    CoreError::from_parts(
                        ErrorKind::AddressConflict,
                        String::from_str(
                            "BlueRoute IPv4 segment overlaps an active local network",
                        ),
                        Some(diagnostic),
                    ),
                );
            }
        }
        i += 1;
    }
    Ok(())
}

} // verus!
