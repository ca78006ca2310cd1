use vstd::arithmetic::power2::pow2;
use vstd::prelude::*;

use crate::domain::bits::low_bits;
use crate::domain::error::{CoreError, ErrorKind};
use crate::domain::id::DisplayName;
use crate::domain::route::{ipv4_value, Ipv4Address};
use crate::text::{chars_of, decimal, push_decimal, push_str, trim_bounds, trim_chars};

verus! {

/// Persistent configuration schema version.
#[derive(Clone, Copy, Debug, PartialEq, Eq, Structural, PartialOrd, Ord)]
pub struct ConfigVersion(pub u32);

/// The schema version this build reads and writes: 1.
pub open spec fn current_config_version() -> ConfigVersion {
    ConfigVersion(1)
}

impl ConfigVersion {
    /// The schema version this build reads and writes: 1.
    pub fn current() -> (version: Self)
        ensures
            version == current_config_version(),
    {
        ConfigVersion(1)
    }

    pub fn new(value: u32) -> (version: Self)
        ensures
            version.0 == value,
    {
        ConfigVersion(value)
    }

    pub fn get(self) -> (value: u32)
        ensures
            value == self.0,
    {
        self.0
    }
}

/// IPv4 pool from which routed PAN-segment prefixes can later be allocated.
#[derive(Clone, Copy, Debug, PartialEq, Eq, Structural)]
pub struct Ipv4AddressPool {
    pub network: Ipv4Address,
    pub pool_prefix_len: u8,
    pub segment_prefix_len: u8,
}

/// `network/prefix_len` lies entirely inside 10.0.0.0/8, 172.16.0.0/12 or 192.168.0.0/16.
pub open spec fn in_private_space(network: u32, prefix_len: int) -> bool {
    ||| (prefix_len >= 8 && network / 0x100_0000 == 10)
    ||| (prefix_len >= 12 && network / 0x10_0000 == 0xac1)
    ||| (prefix_len >= 16 && network / 0x1_0000 == 0xc0a8)
}

impl Ipv4AddressPool {
    /// The conditions that `validate` checks, in order.
    pub open spec fn prefix_lengths_valid(self) -> bool {
        &&& self.pool_prefix_len <= 32
        &&& self.segment_prefix_len <= 30
        &&& self.segment_prefix_len >= self.pool_prefix_len
    }

    pub open spec fn is_aligned(self) -> bool {
        (self.network.0 as nat) % pow2((32 - self.pool_prefix_len) as nat) == 0
    }

    pub open spec fn is_valid(self) -> bool {
        &&& self.prefix_lengths_valid()
        &&& self.is_aligned()
        &&& in_private_space(self.network.0, self.pool_prefix_len as int)
    }

    /// Why `validate` refuses the pool, in the order it checks.
    pub open spec fn refusal(self) -> Option<Seq<char>> {
        if self.pool_prefix_len > 32 {
            Some("IPv4 pool prefix length cannot exceed 32"@)
        } else if self.segment_prefix_len > 30 {
            Some("PAN segment prefix must leave room for host addresses"@)
        } else if self.segment_prefix_len < self.pool_prefix_len {
            Some("PAN segment prefix cannot be broader than the BlueRoute address pool"@)
        } else if !self.is_aligned() {
            Some("IPv4 pool address must be aligned to its prefix"@)
        } else if !in_private_space(self.network.0, self.pool_prefix_len as int) {
            Some("BlueRoute IPv4 address pool must be fully contained in RFC1918 private space"@)
        } else {
            None
        }
    }

    pub fn new(network: Ipv4Address, pool_prefix_len: u8, segment_prefix_len: u8) -> (result:
        Result<Self, CoreError>)
        ensures
            match result {
                Ok(pool) => pool.is_valid() && pool.network == network && pool.pool_prefix_len
                    == pool_prefix_len && pool.segment_prefix_len == segment_prefix_len,
                Err(error) => !(Ipv4AddressPool {
                    network,
                    pool_prefix_len,
                    segment_prefix_len,
                }).is_valid() && error.spec_kind() == ErrorKind::InvalidInput,
            },
    {
        let pool = Ipv4AddressPool { network, pool_prefix_len, segment_prefix_len };
        match pool.validate() {
            Ok(()) => Ok(pool),
            Err(error) => Err(error),
        }
    }

    /// Checks prefix lengths, alignment of the pool address and RFC 1918 containment.
    pub fn validate(&self) -> (result: Result<(), CoreError>)
        ensures
            result is Ok <==> self.is_valid(),
            self.is_valid() <==> self.refusal() is None,
            match result {
                Ok(()) => true,
                Err(error) => error.spec_kind() == ErrorKind::InvalidInput && Some(error.spec_message())
                    == self.refusal() && error.spec_diagnostic() is None,
            },
    {
        if self.pool_prefix_len > 32 {
            return Err(
                CoreError::new(
                    ErrorKind::InvalidInput,
                    "IPv4 pool prefix length cannot exceed 32",
                ),
            );
        }
        if self.segment_prefix_len > 30 {
            return Err(
                CoreError::new(
                    ErrorKind::InvalidInput,
                    "PAN segment prefix must leave room for host addresses",
                ),
            );
        }
        if self.segment_prefix_len < self.pool_prefix_len {
            return Err(
                CoreError::new(
                    ErrorKind::InvalidInput,
                    "PAN segment prefix cannot be broader than the BlueRoute address pool",
                ),
            );
        }
        let address = self.network.0;
        let host_bits = 32u32 - self.pool_prefix_len as u32;
        if low_bits(address, host_bits) != 0 {
            return Err(
                CoreError::new(
                    ErrorKind::InvalidInput,
                    "IPv4 pool address must be aligned to its prefix",
                ),
            );
        }
        if !pool_is_rfc1918(address, self.pool_prefix_len) {
            return Err(
                CoreError::new(
                    ErrorKind::InvalidInput,
                    "BlueRoute IPv4 address pool must be fully contained in RFC1918 private space",
                ),
            );
        }
        Ok(())
    }

    /// The built-in pool 10.201.0.0/16 carved into /24 segments.
    pub fn default_pool() -> (pool: Self)
        ensures
            pool.network.0 == ipv4_value(10, 201, 0, 0),
            pool.pool_prefix_len == 16,
            pool.segment_prefix_len == 24,
            pool.is_valid(),
    {
        let pool = Ipv4AddressPool {
            network: Ipv4Address::new(10, 201, 0, 0),
            pool_prefix_len: 16,
            segment_prefix_len: 24,
        };
        proof {
            vstd::arithmetic::power2::lemma2_to64();
            assert(ipv4_value(10, 201, 0, 0) == 180944896);
            assert(180944896nat % 65536 == 0);
            assert(180944896u32 / 0x100_0000 == 10);
        }
        pool
    }
}

fn pool_is_rfc1918(network: u32, prefix_len: u8) -> (private: bool)
    ensures
        private == in_private_space(network, prefix_len as int),
{
    assert((network & 0xff00_0000 == 0x0a00_0000) == (network / 0x100_0000 == 10)) by (bit_vector);
    assert((network & 0xfff0_0000 == 0xac10_0000) == (network / 0x10_0000 == 0xac1)) by (bit_vector);
    assert((network & 0xffff_0000 == 0xc0a8_0000) == (network / 0x1_0000 == 0xc0a8)) by (bit_vector);
    (prefix_len >= 8 && network & 0xff00_0000 == 0x0a00_0000) || (prefix_len >= 12 && network
        & 0xfff0_0000 == 0xac10_0000) || (prefix_len >= 16 && network & 0xffff_0000 == 0xc0a8_0000)
}

impl Default for Ipv4AddressPool {
    fn default() -> (pool: Self)
        ensures
            pool.network.0 == ipv4_value(10, 201, 0, 0),
            pool.pool_prefix_len == 16,
            pool.segment_prefix_len == 24,
    {
        Ipv4AddressPool::default_pool()
    }
}

/// Preferred Linux network configuration implementation.
#[derive(Clone, Debug, PartialEq, Eq)]
pub enum BackendPreference {
    Auto,
    NetworkManager,
    SystemdNetworkd,
    DirectNetlink,
    Other(String),
}

/// User/policy overrides for future automatic topology planning.
#[derive(Clone, Copy, Debug, PartialEq, Eq, Structural)]
pub struct TopologyPolicy {
    pub automatic_role_selection: bool,
    pub max_active_links: Option<u16>,
    pub prefer_ac_powered_hubs: bool,
}

impl Default for TopologyPolicy {
    fn default() -> (policy: Self)
        ensures
            policy.automatic_role_selection,
            policy.max_active_links is None,
            policy.prefer_ac_powered_hubs,
    {
        TopologyPolicy {
            automatic_role_selection: true,
            max_active_links: None,
            prefer_ac_powered_hubs: true,
        }
    }
}

/// Reserved configuration for the post-core Internet gateway feature.
#[derive(Clone, Copy, Debug, PartialEq, Eq, Structural)]
pub struct GatewayPolicy {
    pub sharing_enabled: bool,
}

impl Default for GatewayPolicy {
    fn default() -> (policy: Self)
        ensures
            !policy.sharing_enabled,
    {
        GatewayPolicy { sharing_enabled: false }
    }
}

/// Durable daemon configuration. Hardware capability observations do not belong here.
#[derive(Clone, Debug, PartialEq, Eq)]
pub struct DaemonConfig {
    pub version: ConfigVersion,
    pub display_name: DisplayName,
    pub ipv4_address_pool: Ipv4AddressPool,
    pub topology: TopologyPolicy,
    pub backend: BackendPreference,
    pub gateway: GatewayPolicy,
}

/// A custom backend name that is blank once trimmed.
pub open spec fn blank_custom_backend(backend: BackendPreference) -> bool {
    match backend {
        BackendPreference::Other(name) => trim_chars(name@).len() == 0,
        _ => false,
    }
}

impl DaemonConfig {
    /// The failure that `validate` reports, with its message, in the order it checks.
    pub open spec fn refusal(self) -> Option<(ErrorKind, Seq<char>)> {
        if self.version != current_config_version() {
            Some(
                (
                    ErrorKind::InvalidInput,
                    "unsupported configuration version "@ + decimal(self.version.0 as nat) + "; expected 1"@,
                ),
            )
        } else if self.ipv4_address_pool.refusal() is Some {
            Some((ErrorKind::InvalidInput, self.ipv4_address_pool.refusal()->0))
        } else if self.topology.max_active_links == Some(0u16) {
            Some((ErrorKind::InvalidInput, "maximum active links must be greater than zero when configured"@))
        } else if blank_custom_backend(self.backend) {
            Some((ErrorKind::InvalidInput, "custom network backend name cannot be empty"@))
        } else if self.gateway.sharing_enabled {
            Some((ErrorKind::CapabilityUnavailable, "Internet sharing is reserved but not implemented in configuration version 1"@))
        } else {
            None
        }
    }

    /// The failure that `validate` reports, if any, in the order it checks.
    pub open spec fn validation_failure(self) -> Option<ErrorKind> {
        if self.version != current_config_version() {
            Some(ErrorKind::InvalidInput)
        } else if !self.ipv4_address_pool.is_valid() {
            Some(ErrorKind::InvalidInput)
        } else if self.topology.max_active_links == Some(0u16) {
            Some(ErrorKind::InvalidInput)
        } else if blank_custom_backend(self.backend) {
            Some(ErrorKind::InvalidInput)
        } else if self.gateway.sharing_enabled {
            Some(ErrorKind::CapabilityUnavailable)
        } else {
            None
        }
    }

    pub fn validate(&self) -> (result: Result<(), CoreError>)
        ensures
            match result {
                Ok(()) => self.validation_failure() is None,
                Err(error) => self.validation_failure() == Some(error.spec_kind()),
            },
            match result {
                Ok(()) => self.refusal() is None,
                Err(error) => self.refusal() == Some((error.spec_kind(), error.spec_message())),
            },
    {
        if self.version.0 != 1 {
            let mut message = String::from_str("unsupported configuration version ");
            push_decimal(&mut message, self.version.0 as u64);
            push_str(&mut message, "; expected 1");
            return Err(CoreError::from_parts(ErrorKind::InvalidInput, message, None));
        }
        match self.ipv4_address_pool.validate() {
            Ok(()) => {},
            Err(error) => return Err(error),
        }
        if self.topology.max_active_links == Some(0u16) {
            return Err(
                CoreError::new(
                    ErrorKind::InvalidInput,
                    "maximum active links must be greater than zero when configured",
                ),
            );
        }
        if let BackendPreference::Other(name) = &self.backend {
            let chars = chars_of(name.as_str());
            let (start, end) = trim_bounds(&chars);
            if start == end {
                return Err(
                    CoreError::new(
                        ErrorKind::InvalidInput,
                        "custom network backend name cannot be empty",
                    ),
                );
            }
        }
        if self.gateway.sharing_enabled {
            return Err(
                CoreError::new(
                    ErrorKind::CapabilityUnavailable,
                    "Internet sharing is reserved but not implemented in configuration version 1",
                ),
            );
        }
        Ok(())
    }

    /// The built-in configuration: version 1, the default pool, automatic backend and no
    /// Internet sharing.
    pub fn default_config() -> (config: Self)
        ensures
            config.version == current_config_version(),
            config.display_name@ == "BlueRoute Device"@,
            config.ipv4_address_pool.is_valid(),
            config.ipv4_address_pool.network.0 == ipv4_value(10, 201, 0, 0),
            config.ipv4_address_pool.pool_prefix_len == 16,
            config.ipv4_address_pool.segment_prefix_len == 24,
            config.topology.max_active_links is None,
            config.topology.automatic_role_selection,
            config.topology.prefer_ac_powered_hubs,
            config.backend == BackendPreference::Auto,
            !config.gateway.sharing_enabled,
            config.validation_failure() is None,
    {
        let name = "BlueRoute Device";
        proof {
            reveal_strlit("BlueRoute Device");
            let s = name@;
            assert(crate::text::leading_ws(s) == 0);
            assert(s.skip(0) =~= s);
            assert(crate::text::trailing_ws(s) == 0);
            assert(s.take(s.len() as int) =~= s);
            assert(trim_chars(s) == s);
        }
        let display_name = match DisplayName::new(name) {
            Ok(display_name) => display_name,
            Err(_) => vstd::pervasive::unreached(),
        };
        DaemonConfig {
            version: ConfigVersion::current(),
            display_name,
            ipv4_address_pool: Ipv4AddressPool::default_pool(),
            topology: TopologyPolicy::default(),
            backend: BackendPreference::Auto,
            gateway: GatewayPolicy::default(),
        }
    }
}

impl Default for DaemonConfig {
    fn default() -> (config: Self)
        ensures
            config.version == current_config_version(),
            config.display_name@ == "BlueRoute Device"@,
            config.ipv4_address_pool.is_valid(),
            config.topology.max_active_links is None,
            config.backend == BackendPreference::Auto,
            !config.gateway.sharing_enabled,
            config.validation_failure() is None,
    {
        DaemonConfig::default_config()
    }
}

/// RFC 1918 containment by octets: the pool `a.b.c.d/prefix_len` lies in private space exactly
/// when it is inside 10.0.0.0/8 (first octet 10, prefix at least 8), 172.16.0.0/12 (first
/// octet 172, second octet 16 to 31, prefix at least 12) or 192.168.0.0/16 (first octets
/// 192.168, prefix at least 16). An aligned pool with valid prefix lengths is accepted
/// exactly then.
pub proof fn lemma_private_space_by_octets(a: u8, b: u8, c: u8, d: u8, pool: Ipv4AddressPool)
    requires
        pool.network.0 == ipv4_value(a, b, c, d),
    ensures
        ({
            let p = pool.pool_prefix_len as int;
            let private = (p >= 8 && a == 10) || (p >= 12 && a == 172 && 16 <= b <= 31) || (p
                >= 16 && a == 192 && b == 168);
            &&& in_private_space(pool.network.0, p) == private
            &&& (pool.prefix_lengths_valid() && pool.is_aligned()) ==> (pool.is_valid() == private)
        }),
{
    let v = pool.network.0 as int;
    assert(v / 0x100_0000 == a) by (nonlinear_arith)
        requires
            v == a * 0x100_0000 + b * 0x1_0000 + c * 0x100 + d,
            0 <= b < 256,
            0 <= c < 256,
            0 <= d < 256,
    ;
    assert(v / 0x10_0000 == a * 16 + b / 16) by (nonlinear_arith)
        requires
            v == a * 0x100_0000 + b * 0x1_0000 + c * 0x100 + d,
            0 <= b < 256,
            0 <= c < 256,
            0 <= d < 256,
    ;
    assert(v / 0x1_0000 == a * 256 + b) by (nonlinear_arith)
        requires
            v == a * 0x100_0000 + b * 0x1_0000 + c * 0x100 + d,
            0 <= c < 256,
            0 <= d < 256,
    ;
    assert((a * 16 + b / 16 == 0xac1) == (a == 172 && 16 <= b <= 31)) by (nonlinear_arith)
        requires
            0 <= a < 256,
            0 <= b < 256,
    ;
    assert((a * 256 + b == 0xc0a8) == (a == 192 && b == 168)) by (nonlinear_arith)
        requires
            0 <= a < 256,
            0 <= b < 256,
    ;
}

} // verus!
