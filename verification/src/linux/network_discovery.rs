use vstd::prelude::*;

use crate::domain::error::{CoreError, ErrorKind};
use crate::domain::id::NetworkId;
use crate::domain::table::{sorted_keys, table_put, table_view};
use crate::linux::handles::{AdapterHandle, BluetoothAdapter};
use crate::text::{chars_of, has_prefix, starts_with};

verus! {

pub const BLUEROUTE_ADVERTISEMENT_PATH: &'static str = "/org/blueroute/NetworkAdvertisement";
pub const BLUEROUTE_MANUFACTURER_ID: u16 = 0xffff;
pub const BLUEROUTE_ADVERTISEMENT_VERSION: u8 = 1;
pub const BLUEROUTE_ADVERTISEMENT_ROLE_NAP: u8 = 0x01;
pub const BLUEROUTE_ADVERTISEMENT_PAYLOAD_LEN: usize = 20;

/// One BlueRoute network advertisement registered on an adapter.
#[derive(Clone, Debug, PartialEq, Eq)]
pub struct NetworkAdvertisement {
    adapter: AdapterHandle,
    network: NetworkId,
}

impl NetworkAdvertisement {
    pub closed spec fn spec_adapter(&self) -> AdapterHandle {
        self.adapter
    }

    pub closed spec fn spec_network(&self) -> NetworkId {
        self.network
    }

    pub fn new(adapter: AdapterHandle, network: NetworkId) -> (advertisement: Self)
        ensures
            advertisement.spec_adapter() == adapter,
            advertisement.spec_network() == network,
    {
        NetworkAdvertisement { adapter, network }
    }

    pub fn adapter(&self) -> (adapter: &AdapterHandle)
        ensures
            *adapter == self.spec_adapter(),
    {
        &self.adapter
    }

    pub fn network(&self) -> (network: NetworkId)
        ensures
            network == self.spec_network(),
    {
        self.network
    }
}

/// The manufacturer-data payload that advertises a hosted network: "BR", version 1, the NAP
/// role bit, then the network identifier.
pub open spec fn advertisement_bytes(network: NetworkId) -> Seq<u8> {
    seq![0x42u8, 0x52u8, 1u8, 1u8] + network.0@
}

/// The network a payload advertises, if it is a version 1 BlueRoute payload with the NAP
/// role.
pub open spec fn advertised_network(payload: Seq<u8>) -> Option<Seq<u8>> {
    if payload.len() != 20 || payload[0] != 0x42 || payload[1] != 0x52 || payload[2] != 1
        || payload[3] & 1 == 0 {
        None
    } else {
        Some(payload.subrange(4, 20))
    }
}

pub fn encode_advertisement(network: NetworkId) -> (payload: Vec<u8>)
    ensures
        payload@ == advertisement_bytes(network),
{
    let mut payload: Vec<u8> = Vec::new();
    payload.push(0x42);
    payload.push(0x52);
    payload.push(BLUEROUTE_ADVERTISEMENT_VERSION);
    payload.push(BLUEROUTE_ADVERTISEMENT_ROLE_NAP);
    let bytes = network.as_bytes();
    let mut i: usize = 0;
    while i < 16
        invariant
            i <= 16,
            *bytes == network.0,
            payload@ == seq![0x42u8, 0x52u8, 1u8, 1u8] + network.0@.take(i as int),
        decreases 16 - i,
    {
        payload.push(bytes[i]);
        i += 1;
        assert(payload@ =~= seq![0x42u8, 0x52u8, 1u8, 1u8] + network.0@.take(i as int));
    }
    assert(network.0@.take(16) =~= network.0@);
    payload
}

pub fn decode_advertisement(payload: &[u8]) -> (network: Option<NetworkId>)
    ensures
        match network {
            Some(id) => advertised_network(payload@) == Some(id.0@),
            None => advertised_network(payload@) is None,
        },
{
    if payload.len() != BLUEROUTE_ADVERTISEMENT_PAYLOAD_LEN || payload[0] != 0x42 || payload[1]
        != 0x52 || payload[2] != BLUEROUTE_ADVERTISEMENT_VERSION || payload[3]
        & BLUEROUTE_ADVERTISEMENT_ROLE_NAP == 0 {
        return None;
    }
    let mut bytes = [0u8; 16];
    let mut i: usize = 0;
    while i < 16
        invariant
            i <= 16,
            payload@.len() == 20,
            forall|j: int| 0 <= j < i ==> bytes@[j] == payload@[4 + j],
        decreases 16 - i,
    {
        bytes[i] = payload[4 + i];
        i += 1;
    }
    assert(bytes@ =~= payload@.subrange(4, 20));
    Some(NetworkId::from_bytes(bytes))
}

/// A network's advertisement decodes back to the same network.
pub proof fn lemma_advertisement_round_trip(network: NetworkId)
    ensures
        advertised_network(advertisement_bytes(network)) == Some(network.0@),
{
    let payload = advertisement_bytes(network);
    assert(1u8 & 1u8 == 1u8) by (bit_vector);
    assert(payload.subrange(4, 20) =~= network.0@);
}

/// `s` without its trailing `c` characters.
pub open spec fn without_trailing(s: Seq<char>, c: char) -> Seq<char>
    decreases s.len(),
{
    if s.len() > 0 && s.last() == c {
        without_trailing(s.drop_last(), c)
    } else {
        s
    }
}

/// `path` names a device object directly under the adapter: the adapter's path (without
/// trailing slashes), "/dev_", then a non-empty name without further slashes.
pub open spec fn device_path_for(path: Seq<char>, adapter: Seq<char>) -> bool {
    let prefix = without_trailing(adapter, '/') + "/dev_"@;
    &&& has_prefix(path, prefix)
    &&& path.len() > prefix.len()
    &&& forall|i: int| prefix.len() <= i < path.len() ==> path[i] != '/'
}

pub fn is_device_object_path_for_adapter(path: &str, adapter: &AdapterHandle) -> (scoped: bool)
    ensures
        scoped == device_path_for(path@, adapter@),
{
    let adapter_chars = chars_of(adapter.as_str());
    let mut end = adapter_chars.len();
    assert(adapter_chars@.take(end as int) =~= adapter_chars@);
    while end > 0 && adapter_chars[end - 1] == '/'
        invariant
            end <= adapter_chars@.len(),
            adapter_chars@ == adapter@,
            without_trailing(adapter@, '/') == without_trailing(adapter_chars@.take(end as int), '/'),
        decreases end,
    {
        assert(adapter_chars@.take(end as int).drop_last() =~= adapter_chars@.take(end - 1));
        end -= 1;
    }
    let ghost trimmed = adapter_chars@.take(end as int);
    assert(without_trailing(trimmed, '/') == trimmed);
    assert(without_trailing(adapter@, '/') == trimmed);
    let mut prefix: Vec<char> = Vec::new();
    let mut i: usize = 0;
    while i < end
        invariant
            i <= end <= adapter_chars@.len(),
            prefix@ == adapter_chars@.take(i as int),
            trimmed == adapter_chars@.take(end as int),
            without_trailing(adapter@, '/') == trimmed,
        decreases end - i,
    {
        prefix.push(adapter_chars[i]);
        i += 1;
        assert(prefix@ =~= adapter_chars@.take(i as int));
    }
    let dev = chars_of("/dev_");
    let mut k: usize = 0;
    let ghost base = prefix@;
    while k < dev.len()
        invariant
            k <= dev@.len(),
            dev@ == "/dev_"@,
            prefix@ == base + dev@.take(k as int),
            base == without_trailing(adapter@, '/'),
        decreases dev@.len() - k,
    {
        prefix.push(dev[k]);
        k += 1;
        assert(prefix@ =~= base + dev@.take(k as int));
    }
    assert(dev@.take(dev@.len() as int) =~= dev@);
    assert(prefix@ == without_trailing(adapter@, '/') + "/dev_"@);
    let path_chars = chars_of(path);
    if path_chars.len() <= prefix.len() {
        return false;
    }
    let mut j: usize = 0;
    while j < prefix.len()
        invariant
            j <= prefix@.len() < path_chars@.len(),
            path_chars@ == path@,
            prefix@ == without_trailing(adapter@, '/') + "/dev_"@,
            forall|m: int| 0 <= m < j ==> path_chars@[m] == prefix@[m],
        decreases prefix@.len() - j,
    {
        if path_chars[j] != prefix[j] {
            assert(path_chars@.take(prefix@.len() as int)[j as int] != prefix@[j as int]);
            return false;
        }
        j += 1;
    }
    assert(path_chars@.take(prefix@.len() as int) =~= prefix@);
    let mut m = prefix.len();
    while m < path_chars.len()
        invariant
            prefix@.len() <= m <= path_chars@.len(),
            path_chars@ == path@,
            prefix@ == without_trailing(adapter@, '/') + "/dev_"@,
            has_prefix(path@, prefix@),
            forall|q: int| prefix@.len() <= q < m ==> path_chars@[q] != '/',
        decreases path_chars@.len() - m,
    {
        if path_chars[m] == '/' {
            return false;
        }
        m += 1;
    }
    true
}

/// The networks advertised under an adapter: from each device object directly under it, the
/// network its payload advertises; sorted, each once.
pub open spec fn advertised_under(adapter: Seq<char>, devices: Seq<(Seq<char>, Option<Seq<u8>>)>, key: Seq<u8>) -> bool {
    exists|i: int|
        0 <= i < devices.len() && device_path_for((#[trigger] devices[i]).0, adapter) && match devices[i].1 {
            Some(payload) => advertised_network(payload) == Some(key),
            None => false,
        }
}

pub open spec fn device_views(devices: Seq<(String, Option<Vec<u8>>)>) -> Seq<(Seq<char>, Option<Seq<u8>>)> {
    devices.map_values(
        |device: (String, Option<Vec<u8>>)|
            (
                device.0@,
                match device.1 {
                    Some(payload) => Some(payload@),
                    None => None,
                },
            ),
    )
}

/// The networks advertised by the devices under `adapter`, given each device object's path and
/// its BlueRoute manufacturer payload, if any. Malformed payloads are ignored.
pub fn discovered_networks(adapter: &AdapterHandle, devices: &Vec<(String, Option<Vec<u8>>)>) -> (networks: Vec<NetworkId>)
    ensures
        sorted_keys(networks@),
        forall|key: Seq<u8>|
            table_view(networks@).contains_key(key) <==> advertised_under(
                adapter@,
                device_views(devices@),
                key,
            ),
{
    let ghost views = device_views(devices@);
    let mut networks: Vec<NetworkId> = Vec::new();
    let mut i: usize = 0;
    while i < devices.len()
        invariant
            i <= devices@.len(),
            views == device_views(devices@),
            sorted_keys(networks@),
            forall|key: Seq<u8>|
                table_view(networks@).contains_key(key) <==> advertised_under(
                    adapter@,
                    views.take(i as int),
                    key,
                ),
        decreases devices@.len() - i,
    {
        let (path, payload) = &devices[i];
        let ghost before = networks@;
        assert(views[i as int] == (path@, match payload {
            Some(p) => Some(p@),
            None => None::<Seq<u8>>,
        }));
        let scoped = is_device_object_path_for_adapter(path.as_str(), adapter);
        let found = if scoped {
            match payload {
                Some(bytes) => decode_advertisement(bytes.as_slice()),
                None => None,
            }
        } else {
            None
        };
        let ghost this_key: Option<Seq<u8>> = if scoped {
            match views[i as int].1 {
                Some(p) => advertised_network(p),
                None => None,
            }
        } else {
            None
        };
        assert(match found {
            Some(network) => this_key == Some(network.0@),
            None => this_key is None,
        });
        match found {
            Some(network) => {
                table_put(&mut networks, network);
            },
            None => {},
        }
        proof {
            let upto = views.take(i + 1);
            assert(upto.take(i as int) =~= views.take(i as int));
            assert(upto[i as int] == views[i as int]);
            assert forall|key: Seq<u8>|
                table_view(networks@).contains_key(key) <==> advertised_under(adapter@, upto, key) by {
                let earlier = advertised_under(adapter@, views.take(i as int), key);
                if earlier {
                    let j = choose|j: int|
                        0 <= j < views.take(i as int).len() && device_path_for((#[trigger] views.take(i as int)[j]).0, adapter@) && match views.take(i as int)[j].1 {
                            Some(payload) => advertised_network(payload) == Some(key),
                            None => false,
                        };
                    assert(upto[j] == views.take(i as int)[j]);
                }
                if this_key == Some(key) {
                    assert(device_path_for(upto[i as int].0, adapter@));
                }
                if advertised_under(adapter@, upto, key) {
                    let j = choose|j: int|
                        0 <= j < upto.len() && device_path_for((#[trigger] upto[j]).0, adapter@) && match upto[j].1 {
                            Some(payload) => advertised_network(payload) == Some(key),
                            None => false,
                        };
                    if j < i as int {
                        assert(views.take(i as int)[j] == upto[j]);
                        assert(earlier);
                    } else {
                        assert(this_key == Some(key));
                    }
                }
                assert(table_view(networks@).contains_key(key) == (table_view(before).contains_key(key) || this_key == Some(key)));
            }
        }
        i += 1;
    }
    assert(views.take(devices@.len() as int) =~= views);
    networks
}

/// The error kind for a failed advertisement registration call, by the D-Bus error name of
/// the reply, if it was a method error.
pub open spec fn advertisement_error_kind(error_name: Option<Seq<char>>) -> ErrorKind {
    match error_name {
        None => ErrorKind::BluezUnavailable,
        Some(name) => if name == "org.bluez.Error.NotReady"@ {
            ErrorKind::AdapterDisabled
        } else if name == "org.bluez.Error.AlreadyExists"@ {
            ErrorKind::InvalidState
        } else if name == "org.bluez.Error.DoesNotExist"@ || name
            == "org.freedesktop.DBus.Error.UnknownObject"@ {
            ErrorKind::MissingAdapter
        } else {
            ErrorKind::CapabilityUnavailable
        },
    }
}

/// The error for a failed call that registers (`register`) or unregisters the
/// advertisement, with the method error's name when it was one, and the error's text.
pub fn advertisement_method_error(register: bool, error_name: Option<&str>, detail: String) -> (error: CoreError)
    ensures
        error.spec_kind() == advertisement_error_kind(match error_name {
            Some(name) => Some(name@),
            None => None,
        }),
        error.spec_message() == if register {
            "failed to register the BlueRoute discovery advertisement"@
        } else {
            "failed to unregister the BlueRoute discovery advertisement"@
        },
        error.spec_diagnostic() == Some(detail@),
{
    let kind = match error_name {
        None => ErrorKind::BluezUnavailable,
        Some(name) => {
            let chars = chars_of(name);
            if crate::text::chars_match(&chars, "org.bluez.Error.NotReady") {
                ErrorKind::AdapterDisabled
            } else if crate::text::chars_match(&chars, "org.bluez.Error.AlreadyExists") {
                ErrorKind::InvalidState
            } else if crate::text::chars_match(&chars, "org.bluez.Error.DoesNotExist")
                || crate::text::chars_match(&chars, "org.freedesktop.DBus.Error.UnknownObject") {
                ErrorKind::MissingAdapter
            } else {
                ErrorKind::CapabilityUnavailable
            }
        },
    };
    let message = if register {
        "failed to register the BlueRoute discovery advertisement"
    } else {
        "failed to unregister the BlueRoute discovery advertisement"
    };
    CoreError::from_parts(kind, String::from_str(message), Some(detail))
}

/// The adapter is among the listed ones, and whether it is powered if so.
pub open spec fn listed_power(adapters: Seq<BluetoothAdapter>, adapter: AdapterHandle) -> Option<bool>
    decreases adapters.len(),
{
    if adapters.len() == 0 {
        None
    } else {
        match listed_power(adapters.drop_last(), adapter) {
            Some(powered) => Some(powered),
            None => if adapters.last().handle@ == adapter@ {
                Some(adapters.last().powered)
            } else {
                None
            },
        }
    }
}

fn find_adapter(adapters: &Vec<BluetoothAdapter>, adapter: &AdapterHandle) -> (powered: Option<bool>)
    ensures
        powered == listed_power(adapters@, *adapter),
{
    let mut i: usize = 0;
    assert(adapters@.take(0) =~= Seq::<BluetoothAdapter>::empty());
    while i < adapters.len()
        invariant
            i <= adapters@.len(),
            listed_power(adapters@.take(i as int), *adapter) is None,
        decreases adapters@.len() - i,
    {
        proof {
            assert(adapters@.take(i + 1).drop_last() =~= adapters@.take(i as int));
        }
        if adapters[i].handle == *adapter {
            proof {
                lemma_listed_power_prefix(adapters@, *adapter, i as int + 1);
            }
            return Some(adapters[i].powered);
        }
        i += 1;
    }
    assert(adapters@.take(adapters@.len() as int) =~= adapters@);
    None
}

proof fn lemma_listed_power_prefix(adapters: Seq<BluetoothAdapter>, adapter: AdapterHandle, n: int)
    requires
        0 < n <= adapters.len(),
        listed_power(adapters.take(n), adapter) is Some,
    ensures
        listed_power(adapters, adapter) == listed_power(adapters.take(n), adapter),
    decreases adapters.len() - n,
{
    if n < adapters.len() {
        assert(adapters.take(n + 1).drop_last() =~= adapters.take(n));
        lemma_listed_power_prefix(adapters, adapter, n + 1);
    } else {
        assert(adapters.take(n) =~= adapters);
    }
}

fn adapter_gone() -> (error: CoreError)
    ensures
        error.spec_kind() == ErrorKind::MissingAdapter,
        error.spec_message() == "Bluetooth adapter is no longer available"@,
{
    CoreError::new(ErrorKind::MissingAdapter, "Bluetooth adapter is no longer available")
}

/// The adapter must still be listed.
pub fn ensure_adapter_present(adapters: &Vec<BluetoothAdapter>, adapter: &AdapterHandle) -> (result: Result<(), CoreError>)
    ensures
        match result {
            Ok(()) => listed_power(adapters@, *adapter) is Some,
            Err(error) => listed_power(adapters@, *adapter) is None && error.spec_kind()
                == ErrorKind::MissingAdapter && error.spec_message()
                == "Bluetooth adapter is no longer available"@,
        },
{
    match find_adapter(adapters, adapter) {
        Some(_) => Ok(()),
        None => Err(adapter_gone()),
    }
}

/// Advertising can start on an adapter that is listed, powered, and whose object offers the
/// LE advertising manager (`offers_manager`: `None` when the object is not among BlueZ's).
pub fn ensure_advertising_manager(
    adapters: &Vec<BluetoothAdapter>,
    adapter: &AdapterHandle,
    offers_manager: Option<bool>,
) -> (result: Result<(), CoreError>)
    ensures
        match (listed_power(adapters@, *adapter), result) {
            (None, Err(error)) => error.spec_kind() == ErrorKind::MissingAdapter && error.spec_message()
                == "Bluetooth adapter is no longer available"@,
            (Some(false), Err(error)) => error.spec_kind() == ErrorKind::AdapterDisabled
                && error.spec_message()
                == "Bluetooth adapter must be powered before BlueRoute discovery advertising can start"@,
            (Some(true), Ok(())) => offers_manager == Some(true),
            (Some(true), Err(error)) => match offers_manager {
                None => error.spec_kind() == ErrorKind::MissingAdapter && error.spec_message()
                    == "Bluetooth adapter is no longer available"@,
                Some(false) => error.spec_kind() == ErrorKind::CapabilityUnavailable
                    && error.spec_message()
                    == "Bluetooth adapter does not expose BlueZ LE advertising capability"@,
                Some(true) => false,
            },
            _ => false,
        },
{
    match find_adapter(adapters, adapter) {
        None => Err(adapter_gone()),
        Some(false) => Err(
            CoreError::new(
                ErrorKind::AdapterDisabled,
                "Bluetooth adapter must be powered before BlueRoute discovery advertising can start",
            ),
        ),
        Some(true) => match offers_manager {
            None => Err(adapter_gone()),
            Some(false) => Err(
                CoreError::new(
                    ErrorKind::CapabilityUnavailable,
                    "Bluetooth adapter does not expose BlueZ LE advertising capability",
                ),
            ),
            Some(true) => Ok(()),
        },
    }
}

} // verus!
