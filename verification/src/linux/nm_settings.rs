use vstd::prelude::*;

use crate::domain::error::{CoreError, ErrorKind};
use crate::domain::hex::hex_encode;
use crate::domain::id::NetworkId;
use crate::domain::route::{max_prefix_len, IpAddress, IpPrefix};
use crate::linux::handles::{has_content, NetworkConnection, NetworkConnectionHandle, NetworkDevice, NetworkInterfaceHandle};
use crate::linux::networkmanager::{
    mix_all, profile_uuid, short_owner, uuid_bits, uuid_input, uuid_text, KIND_BRIDGE,
    KIND_INTERFACE,
};
use crate::text::{push_str, same_text};

verus! {

pub const OWNER_KEY: &'static str = "org.blueroute.owner";
pub const KIND_KEY: &'static str = "org.blueroute.kind";
pub const SCHEMA_KEY: &'static str = "org.blueroute.schema";
pub const OWNERSHIP_SCHEMA: &'static str = "1";

/// One address family's part of a NetworkManager profile, as BlueRoute writes it: the
/// method, the never-default flag, and the address-data entries (absent when `None`).
#[derive(Clone, Debug, PartialEq, Eq)]
pub struct FamilyAddressing {
    pub method: String,
    pub never_default: bool,
    pub address_data: Option<Vec<IpPrefix>>,
}

/// The settings of a profile that BlueRoute creates and owns.
#[derive(Clone, Debug, PartialEq, Eq)]
pub struct OwnedProfileSettings {
    pub id: String,
    pub uuid: String,
    pub connection_type: String,
    pub interface_name: String,
    pub autoconnect: bool,
    /// The user metadata that records BlueRoute's ownership, as (key, value) pairs.
    pub user_data: Vec<(String, String)>,
    pub ipv4: FamilyAddressing,
    pub ipv6: FamilyAddressing,
    /// Whether the profile has a (default) bridge section.
    pub bridge_section: bool,
}

/// The NetworkManager connection type of a BlueRoute profile kind.
pub open spec fn profile_type(kind: Seq<char>) -> Option<Seq<char>> {
    if kind == KIND_BRIDGE@ {
        Some(KIND_BRIDGE@)
    } else if kind == KIND_INTERFACE@ {
        Some("generic"@)
    } else {
        None
    }
}

/// A family with no addresses: disabled and never the default route.
pub open spec fn disabled_family(family: FamilyAddressing) -> bool {
    family.method@ == "disabled"@ && family.never_default && family.address_data is None
}

fn disabled() -> (family: FamilyAddressing)
    ensures
        disabled_family(family),
{
    FamilyAddressing { method: String::from_str("disabled"), never_default: true, address_data: None }
}

/// The settings of a new BlueRoute-owned profile of `kind` ("bridge" or "interface") on
/// `interface`: not autoconnected, with both address families disabled, and with user
/// metadata naming the owner, the kind and the ownership schema.
pub fn base_owned_settings(owner: NetworkId, interface: &NetworkInterfaceHandle, kind: &str) -> (result: Result<OwnedProfileSettings, CoreError>)
    ensures
        match (profile_type(kind@), result) {
            (Some(connection_type), Ok(settings)) => {
                &&& settings.id@ == "blueroute-"@ + kind@ + "-"@ + hex_encode(owner.0@).take(8)
                &&& settings.uuid@ == uuid_text(uuid_bits(mix_all(owner.0@, uuid_input(interface@, kind@))))
                &&& settings.connection_type@ == connection_type
                &&& settings.interface_name@ == interface@
                &&& !settings.autoconnect
                &&& settings.user_data@.len() == 3
                &&& settings.user_data@[0].0@ == OWNER_KEY@ && settings.user_data@[0].1@ == hex_encode(owner.0@)
                &&& settings.user_data@[1].0@ == KIND_KEY@ && settings.user_data@[1].1@ == kind@
                &&& settings.user_data@[2].0@ == SCHEMA_KEY@ && settings.user_data@[2].1@ == OWNERSHIP_SCHEMA@
                &&& disabled_family(settings.ipv4)
                &&& disabled_family(settings.ipv6)
                &&& settings.bridge_section == (kind@ == KIND_BRIDGE@)
            },
            (None, Err(error)) => error.spec_kind() == ErrorKind::Internal && error.spec_message()
                == "invalid internal NetworkManager profile kind"@ && error.spec_diagnostic() == Some(kind@),
            _ => false,
        },
{
    let bridge = same_text(kind, KIND_BRIDGE);
    let generic = same_text(kind, KIND_INTERFACE);
    if !bridge && !generic {
        return Err(
            CoreError::with_diagnostic(
                ErrorKind::Internal,
                "invalid internal NetworkManager profile kind",
                kind,
            ),
        );
    }
    let connection_type = if bridge {
        String::from_str(KIND_BRIDGE)
    } else {
        String::from_str("generic")
    };
    let mut id = String::from_str("blueroute-");
    push_str(&mut id, kind);
    push_str(&mut id, "-");
    let short = short_owner(owner);
    push_str(&mut id, short.as_str());
    let mut user_data: Vec<(String, String)> = Vec::new();
    user_data.push((String::from_str(OWNER_KEY), owner.to_string()));
    user_data.push((String::from_str(KIND_KEY), String::from_str(kind)));
    user_data.push((String::from_str(SCHEMA_KEY), String::from_str(OWNERSHIP_SCHEMA)));
    Ok(
        OwnedProfileSettings {
            id,
            uuid: profile_uuid(owner, interface, kind),
            connection_type,
            interface_name: String::from_str(interface.as_str()),
            autoconnect: false,
            user_data,
            ipv4: disabled(),
            ipv6: disabled(),
            bridge_section: bridge,
        },
    )
}

/// `a` sorts before `b` as IP prefixes do: IPv4 before IPv6, then by address, then by length.
pub open spec fn ip_prefix_before(a: IpPrefix, b: IpPrefix) -> bool {
    match (a.address, b.address) {
        (IpAddress::V4(x), IpAddress::V4(y)) => x.0 < y.0 || (x.0 == y.0 && a.prefix_len < b.prefix_len),
        (IpAddress::V6(x), IpAddress::V6(y)) => x.0 < y.0 || (x.0 == y.0 && a.prefix_len < b.prefix_len),
        (IpAddress::V4(_), IpAddress::V6(_)) => true,
        (IpAddress::V6(_), IpAddress::V4(_)) => false,
    }
}

pub open spec fn strictly_ordered(prefixes: Seq<IpPrefix>) -> bool {
    forall|i: int, j: int|
        0 <= i < j < prefixes.len() ==> ip_prefix_before(#[trigger] prefixes[i], #[trigger] prefixes[j])
}

fn before(a: IpPrefix, b: IpPrefix) -> (result: bool)
    ensures
        result == ip_prefix_before(a, b),
{
    match (a.address, b.address) {
        (IpAddress::V4(x), IpAddress::V4(y)) => x.0 < y.0 || (x.0 == y.0 && a.prefix_len < b.prefix_len),
        (IpAddress::V6(x), IpAddress::V6(y)) => x.0 < y.0 || (x.0 == y.0 && a.prefix_len < b.prefix_len),
        (IpAddress::V4(_), IpAddress::V6(_)) => true,
        (IpAddress::V6(_), IpAddress::V4(_)) => false,
    }
}

proof fn lemma_before_total(a: IpPrefix, b: IpPrefix)
    ensures
        a != b ==> ip_prefix_before(a, b) || ip_prefix_before(b, a),
        !(ip_prefix_before(a, b) && ip_prefix_before(b, a)),
        !ip_prefix_before(a, a),
{
}

proof fn lemma_before_transitive(a: IpPrefix, b: IpPrefix, c: IpPrefix)
    requires
        ip_prefix_before(a, b),
        ip_prefix_before(b, c),
    ensures
        ip_prefix_before(a, c),
{
}

/// Inserts `p` into a strictly ordered list unless it is there already.
fn insert_ordered(sorted: &mut Vec<IpPrefix>, p: IpPrefix)
    requires
        strictly_ordered(old(sorted)@),
    ensures
        strictly_ordered(final(sorted)@),
        forall|q: IpPrefix| final(sorted)@.contains(q) <==> (old(sorted)@.contains(q) || q == p),
{
    let ghost old_sorted = sorted@;
    let mut k: usize = 0;
    while k < sorted.len() && before(sorted[k], p)
        invariant
            sorted@ == old_sorted,
            k <= sorted@.len(),
            forall|j: int| 0 <= j < k ==> ip_prefix_before(#[trigger] sorted@[j], p),
        decreases sorted@.len() - k,
    {
        k += 1;
    }
    if k < sorted.len() && sorted[k] == p {
        return;
    }
    proof {
        if k < old_sorted.len() {
            lemma_before_total(old_sorted[k as int], p);
        }
    }
    sorted.insert(k, p);
    proof {
        assert forall|a: int, b: int| 0 <= a < b < sorted@.len() implies ip_prefix_before(
            #[trigger] sorted@[a],
            #[trigger] sorted@[b],
        ) by {
            if a < k as int && b == k as int {
            } else if a == k as int && b > k as int {
                assert(sorted@[b] == old_sorted[b - 1]);
                if b - 1 > k {
                    assert(ip_prefix_before(old_sorted[k as int], old_sorted[b - 1]));
                    lemma_before_transitive(p, old_sorted[k as int], old_sorted[b - 1]);
                }
            } else if a < k as int && b > k as int {
                assert(sorted@[b] == old_sorted[b - 1]);
            } else if a > k as int {
                assert(sorted@[a] == old_sorted[a - 1] && sorted@[b] == old_sorted[b - 1]);
            }
        }
        assert forall|q: IpPrefix| sorted@.contains(q) <==> (old_sorted.contains(q) || q == p) by {
            if sorted@.contains(q) {
                let j = choose|j: int| 0 <= j < sorted@.len() && sorted@[j] == q;
                if j < k as int {
                    assert(old_sorted[j] == q);
                } else if j > k as int {
                    assert(old_sorted[j - 1] == q);
                }
            }
            if old_sorted.contains(q) {
                let m = choose|m: int| 0 <= m < old_sorted.len() && old_sorted[m] == q;
                if m < k as int {
                    assert(sorted@[m] == q);
                } else {
                    assert(sorted@[m + 1] == q);
                }
            }
            if q == p {
                assert(sorted@[k as int] == p);
            }
        }
    }
}

/// The prefixes in IP order, each once.
pub fn sorted_unique_prefixes(prefixes: &Vec<IpPrefix>) -> (sorted: Vec<IpPrefix>)
    ensures
        strictly_ordered(sorted@),
        forall|p: IpPrefix| sorted@.contains(p) <==> prefixes@.contains(p),
{
    let mut sorted: Vec<IpPrefix> = Vec::new();
    let mut i: usize = 0;
    while i < prefixes.len()
        invariant
            i <= prefixes@.len(),
            strictly_ordered(sorted@),
            forall|p: IpPrefix| sorted@.contains(p) <==> prefixes@.take(i as int).contains(p),
        decreases prefixes@.len() - i,
    {
        let p = prefixes[i];
        insert_ordered(&mut sorted, p);
        proof {
            assert(prefixes@.take(i + 1) =~= prefixes@.take(i as int).push(p));
            assert forall|q: IpPrefix| sorted@.contains(q) <==> prefixes@.take(i + 1).contains(q) by {
                if prefixes@.take(i + 1).contains(q) && q != p {
                    let j = choose|j: int| 0 <= j < i + 1 && #[trigger] prefixes@.take(i + 1)[j] == q;
                    assert(prefixes@.take(i as int)[j] == q);
                }
                if prefixes@.take(i as int).contains(q) {
                    let j = choose|j: int| 0 <= j < i && #[trigger] prefixes@.take(i as int)[j] == q;
                    assert(prefixes@.take(i + 1)[j] == q);
                }
                assert(prefixes@.take(i + 1)[i as int] == p);
            }
        }
        i += 1;
    }
    assert(prefixes@.take(prefixes@.len() as int) =~= prefixes@);
    sorted
}

/// One address-data entry as read from a profile: the address setting (`None` when missing
/// or not a string, `Err` with the parse error's text), and the prefix (`None` when missing,
/// `Err` with the conversion error's text).
#[derive(Clone, Debug, PartialEq, Eq)]
pub struct AddressEntry {
    pub address: Option<Result<IpAddress, String>>,
    pub prefix: Option<Result<u32, String>>,
}

/// The prefix an address-data entry names, or the refusal as (kind, message, diagnostic), in
/// the order the settings are checked: the address setting, the prefix, the address text,
/// the prefix's range, the prefix's fit to the family.
pub open spec fn entry_prefix(entry: AddressEntry) -> Result<IpPrefix, (ErrorKind, Seq<char>, Option<Seq<char>>)> {
    match entry.address {
        None => Err((ErrorKind::ProtocolError, "NetworkManager returned a malformed string setting"@, Some("address"@))),
        Some(parsed) => match entry.prefix {
            None => Err((ErrorKind::ProtocolError, "NetworkManager address-data entry is missing a prefix"@, None)),
            Some(Err(text)) => Err((ErrorKind::ProtocolError, "NetworkManager returned an invalid address prefix"@, Some(text@))),
            Some(Ok(length)) => match parsed {
                Err(text) => Err((ErrorKind::ProtocolError, "NetworkManager returned an invalid IP address"@, Some(text@))),
                Ok(address) => if length > 255 {
                    Err(
                        (
                            ErrorKind::ProtocolError,
                            "NetworkManager returned an out-of-range IP prefix length"@,
                            Some("out of range integral type conversion attempted"@),
                        ),
                    )
                } else if length > max_prefix_len(address) {
                    Err((ErrorKind::InvalidInput, "prefix length is invalid for the address"@, None))
                } else {
                    Ok(IpPrefix { address, prefix_len: length as u8 })
                },
            },
        },
    }
}

/// The error reports this refusal.
pub open spec fn reports(error: CoreError, refusal: (ErrorKind, Seq<char>, Option<Seq<char>>)) -> bool {
    error.spec_kind() == refusal.0 && error.spec_message() == refusal.1 && error.spec_diagnostic() == refusal.2
}

pub fn address_entry_prefix(entry: &AddressEntry) -> (result: Result<IpPrefix, CoreError>)
    ensures
        match (entry_prefix(*entry), result) {
            (Ok(expected), Ok(prefix)) => prefix == expected,
            (Err(refusal), Err(error)) => reports(error, refusal),
            _ => false,
        },
{
    let parsed = match &entry.address {
        None => return Err(
            CoreError::with_diagnostic(
                ErrorKind::ProtocolError,
                "NetworkManager returned a malformed string setting",
                "address",
            ),
        ),
        Some(parsed) => parsed,
    };
    let length = match &entry.prefix {
        None => return Err(
            CoreError::new(ErrorKind::ProtocolError, "NetworkManager address-data entry is missing a prefix"),
        ),
        Some(Err(text)) => return Err(
            CoreError::from_parts(
                ErrorKind::ProtocolError,
                String::from_str("NetworkManager returned an invalid address prefix"),
                Some(text.clone()),
            ),
        ),
        Some(Ok(length)) => *length,
    };
    let address = match parsed {
        Err(text) => return Err(
            CoreError::from_parts(
                ErrorKind::ProtocolError,
                String::from_str("NetworkManager returned an invalid IP address"),
                Some(text.clone()),
            ),
        ),
        Ok(address) => *address,
    };
    if length > 255 {
        return Err(
            CoreError::with_diagnostic(
                ErrorKind::ProtocolError,
                "NetworkManager returned an out-of-range IP prefix length",
                "out of range integral type conversion attempted",
            ),
        );
    }
    IpPrefix::new(address, length as u8)
}

/// The prefixes of the entries of each family in turn, or the first refusal.
pub open spec fn entries_prefixes(entries: Seq<AddressEntry>) -> Result<Seq<IpPrefix>, (ErrorKind, Seq<char>, Option<Seq<char>>)>
    decreases entries.len(),
{
    if entries.len() == 0 {
        Ok(Seq::empty())
    } else {
        match entries_prefixes(entries.drop_last()) {
            Err(refusal) => Err(refusal),
            Ok(found) => match entry_prefix(entries.last()) {
                Err(refusal) => Err(refusal),
                Ok(prefix) => Ok(found.push(prefix)),
            },
        }
    }
}

/// The address-data of one family as read: absent, not a list of dictionaries (with the
/// conversion error's text), or its entries.
pub open spec fn family_entries(data: Option<Result<Vec<AddressEntry>, String>>) -> Result<Seq<AddressEntry>, (ErrorKind, Seq<char>, Option<Seq<char>>)> {
    match data {
        None => Ok(Seq::empty()),
        Some(Err(text)) => Err((ErrorKind::ProtocolError, "NetworkManager returned malformed address-data"@, Some(text@))),
        Some(Ok(entries)) => Ok(entries@),
    }
}

/// All prefixes of a profile's IPv4 then IPv6 address-data, or the first refusal.
pub open spec fn profile_prefixes(
    ipv4: Option<Result<Vec<AddressEntry>, String>>,
    ipv6: Option<Result<Vec<AddressEntry>, String>>,
) -> Result<Seq<IpPrefix>, (ErrorKind, Seq<char>, Option<Seq<char>>)> {
    match family_entries(ipv4) {
        Err(refusal) => Err(refusal),
        Ok(v4) => match entries_prefixes(v4) {
            Err(refusal) => Err(refusal),
            Ok(first) => match family_entries(ipv6) {
                Err(refusal) => Err(refusal),
                Ok(v6) => match entries_prefixes(v6) {
                    Err(refusal) => Err(refusal),
                    Ok(second) => Ok(first + second),
                },
            },
        },
    }
}

fn collect_prefixes(entries: &Vec<AddressEntry>, found: &mut Vec<IpPrefix>) -> (result: Result<(), CoreError>)
    ensures
        match (entries_prefixes(entries@), result) {
            (Ok(prefixes), Ok(())) => final(found)@ == old(found)@ + prefixes,
            (Err(refusal), Err(error)) => reports(error, refusal),
            _ => false,
        },
{
    let ghost start = found@;
    let mut i: usize = 0;
    assert(entries@.take(0) =~= Seq::<AddressEntry>::empty());
    while i < entries.len()
        invariant
            i <= entries@.len(),
            entries_prefixes(entries@.take(i as int)) is Ok,
            found@ == start + entries_prefixes(entries@.take(i as int))->Ok_0,
        decreases entries@.len() - i,
    {
        let prefix = address_entry_prefix(&entries[i]);
        proof {
            assert(entries@.take(i + 1).drop_last() =~= entries@.take(i as int));
            assert(entries@.take(i + 1).last() == entries@[i as int]);
        }
        match prefix {
            Err(error) => {
                proof {
                    lemma_refusal_persists(entries@, i as int + 1);
                }
                return Err(error);
            },
            Ok(prefix) => {
                found.push(prefix);
                assert(found@ =~= start + entries_prefixes(entries@.take(i + 1))->Ok_0);
            },
        }
        i += 1;
    }
    assert(entries@.take(entries@.len() as int) =~= entries@);
    Ok(())
}

proof fn lemma_refusal_persists(entries: Seq<AddressEntry>, n: int)
    requires
        0 <= n <= entries.len(),
        entries_prefixes(entries.take(n)) is Err,
    ensures
        entries_prefixes(entries) == entries_prefixes(entries.take(n)),
    decreases entries.len() - n,
{
    if n < entries.len() {
        assert(entries.take(n + 1).drop_last() =~= entries.take(n));
        lemma_refusal_persists(entries, n + 1);
    } else {
        assert(entries.take(n) =~= entries);
    }
}

fn read_family(data: &Option<Result<Vec<AddressEntry>, String>>, found: &mut Vec<IpPrefix>) -> (result: Result<(), CoreError>)
    ensures
        match family_entries(*data) {
            Err(refusal) => match result {
                Err(error) => reports(error, refusal),
                Ok(()) => false,
            },
            Ok(entries) => match (entries_prefixes(entries), result) {
                (Ok(prefixes), Ok(())) => final(found)@ == old(found)@ + prefixes,
                (Err(refusal), Err(error)) => reports(error, refusal),
                _ => false,
            },
        },
{
    match data {
        None => {
            assert(entries_prefixes(Seq::<AddressEntry>::empty()) == Ok::<Seq<IpPrefix>, (ErrorKind, Seq<char>, Option<Seq<char>>)>(Seq::empty()));
            assert(found@ =~= found@ + Seq::<IpPrefix>::empty());
            Ok(())
        },
        Some(Err(text)) => Err(
            CoreError::from_parts(
                ErrorKind::ProtocolError,
                String::from_str("NetworkManager returned malformed address-data"),
                Some(text.clone()),
            ),
        ),
        Some(Ok(entries)) => collect_prefixes(entries, found),
    }
}

/// The addresses a profile configures, in IP order and each once.
pub fn address_prefixes(
    ipv4: &Option<Result<Vec<AddressEntry>, String>>,
    ipv6: &Option<Result<Vec<AddressEntry>, String>>,
) -> (result: Result<Vec<IpPrefix>, CoreError>)
    ensures
        match (profile_prefixes(*ipv4, *ipv6), result) {
            (Ok(all), Ok(prefixes)) => strictly_ordered(prefixes@) && forall|p: IpPrefix|
                prefixes@.contains(p) <==> all.contains(p),
            (Err(refusal), Err(error)) => reports(error, refusal),
            _ => false,
        },
{
    let mut found: Vec<IpPrefix> = Vec::new();
    match read_family(ipv4, &mut found) {
        Err(error) => return Err(error),
        Ok(()) => {},
    }
    let ghost first = found@;
    match read_family(ipv6, &mut found) {
        Err(error) => return Err(error),
        Ok(()) => {},
    }
    assert(found@ =~= profile_prefixes(*ipv4, *ipv6)->Ok_0);
    Ok(sorted_unique_prefixes(&found))
}

/// The prefixes of one family, in their given order.
pub open spec fn of_family(prefixes: Seq<IpPrefix>, ipv4: bool) -> Seq<IpPrefix> {
    prefixes.filter(|p: IpPrefix| (p.address is V4) == ipv4)
}

/// How a family is written for these prefixes: disabled with no address-data when it has
/// none, manual with exactly its prefixes otherwise; never the default route either way.
pub open spec fn family_written(family: FamilyAddressing, prefixes: Seq<IpPrefix>, ipv4: bool) -> bool {
    let mine = of_family(prefixes, ipv4);
    if mine.len() == 0 {
        disabled_family(family)
    } else {
        &&& family.method@ == "manual"@
        &&& family.never_default
        &&& match family.address_data {
            Some(data) => data@ == mine,
            None => false,
        }
    }
}

/// The addressing of one family for a profile that should hold exactly `prefixes`.
pub fn family_addressing(prefixes: &Vec<IpPrefix>, ipv4: bool) -> (family: FamilyAddressing)
    ensures
        family_written(family, prefixes@, ipv4),
{
    let ghost wanted = |p: IpPrefix| (p.address is V4) == ipv4;
    let mut mine: Vec<IpPrefix> = Vec::new();
    let mut i: usize = 0;
    assert(prefixes@.take(0).filter(wanted) =~= Seq::<IpPrefix>::empty());
    while i < prefixes.len()
        invariant
            i <= prefixes@.len(),
            wanted == (|p: IpPrefix| (p.address is V4) == ipv4),
            mine@ == prefixes@.take(i as int).filter(wanted),
        decreases prefixes@.len() - i,
    {
        let p = prefixes[i];
        proof {
            assert(prefixes@.take(i + 1).drop_last() =~= prefixes@.take(i as int));
            assert(prefixes@.take(i + 1).last() == p);
            prefixes@.take(i as int).lemma_filter_push(p, wanted);
            assert(prefixes@.take(i as int).push(p) =~= prefixes@.take(i + 1));
        }
        if p.address.is_ipv4() == ipv4 {
            mine.push(p);
        }
        i += 1;
    }
    assert(prefixes@.take(prefixes@.len() as int) =~= prefixes@);
    if mine.len() == 0 {
        return disabled();
    }
    FamilyAddressing { method: String::from_str("manual"), never_default: true, address_data: Some(mine) }
}

/// The prefixes with `added` too, in IP order, or `None` when it is there already.
pub fn with_prefix(prefixes: &Vec<IpPrefix>, added: IpPrefix) -> (result: Option<Vec<IpPrefix>>)
    ensures
        match result {
            None => prefixes@.contains(added),
            Some(updated) => !prefixes@.contains(added) && strictly_ordered(updated@) && forall|p: IpPrefix|
                updated@.contains(p) <==> (prefixes@.contains(p) || p == added),
        },
{
    let mut i: usize = 0;
    while i < prefixes.len()
        invariant
            i <= prefixes@.len(),
            forall|j: int| 0 <= j < i ==> prefixes@[j] != added,
        decreases prefixes@.len() - i,
    {
        if prefixes[i] == added {
            return None;
        }
        i += 1;
    }
    let mut all = prefixes.clone();
    assert(all@ == prefixes@);
    all.push(added);
    let sorted = sorted_unique_prefixes(&all);
    proof {
        assert forall|p: IpPrefix| all@.contains(p) <==> (prefixes@.contains(p) || p == added) by {
            if all@.contains(p) && p != added {
                let j = choose|j: int| 0 <= j < all@.len() && all@[j] == p;
                assert(prefixes@[j] == p);
            }
            if prefixes@.contains(p) {
                let j = choose|j: int| 0 <= j < prefixes@.len() && prefixes@[j] == p;
                assert(all@[j] == p);
            }
            if p == added {
                assert(all@[all@.len() - 1] == added);
            }
        }
    }
    Some(sorted)
}

/// The prefixes without `removed`, in their order, or `None` when it is not there.
pub fn without_prefix(prefixes: &Vec<IpPrefix>, removed: IpPrefix) -> (result: Option<Vec<IpPrefix>>)
    ensures
        match result {
            None => !prefixes@.contains(removed),
            Some(kept) => prefixes@.contains(removed) && kept@ == prefixes@.filter(|p: IpPrefix| p != removed),
        },
{
    let ghost keep = |p: IpPrefix| p != removed;
    let mut kept: Vec<IpPrefix> = Vec::new();
    let mut found = false;
    let mut i: usize = 0;
    assert(prefixes@.take(0).filter(keep) =~= Seq::<IpPrefix>::empty());
    while i < prefixes.len()
        invariant
            i <= prefixes@.len(),
            keep == (|p: IpPrefix| p != removed),
            kept@ == prefixes@.take(i as int).filter(keep),
            found == prefixes@.take(i as int).contains(removed),
        decreases prefixes@.len() - i,
    {
        let p = prefixes[i];
        proof {
            prefixes@.take(i as int).lemma_filter_push(p, keep);
            assert(prefixes@.take(i as int).push(p) =~= prefixes@.take(i + 1));
            if prefixes@.take(i + 1).contains(removed) && p != removed {
                let j = choose|j: int| 0 <= j < i + 1 && #[trigger] prefixes@.take(i + 1)[j] == removed;
                assert(prefixes@.take(i as int)[j] == removed);
            }
            if prefixes@.take(i as int).contains(removed) {
                let j = choose|j: int| 0 <= j < i && #[trigger] prefixes@.take(i as int)[j] == removed;
                assert(prefixes@.take(i + 1)[j] == removed);
            }
            assert(prefixes@.take(i + 1)[i as int] == p);
        }
        if p == removed {
            found = true;
        } else {
            kept.push(p);
        }
        i += 1;
    }
    assert(prefixes@.take(prefixes@.len() as int) =~= prefixes@);
    if found {
        Some(kept)
    } else {
        None
    }
}

/// The address-data entry written for a prefix, as it reads back.
pub open spec fn written_entry(prefix: IpPrefix) -> AddressEntry {
    AddressEntry { address: Some(Ok(prefix.address)), prefix: Some(Ok(prefix.prefix_len as u32)) }
}

/// A prefix whose length fits its family, as `IpPrefix::new` makes them.
pub open spec fn valid_prefix(prefix: IpPrefix) -> bool {
    prefix.prefix_len <= max_prefix_len(prefix.address)
}

proof fn lemma_written_entries_read_back(prefixes: Seq<IpPrefix>)
    requires
        forall|i: int| 0 <= i < prefixes.len() ==> valid_prefix(#[trigger] prefixes[i]),
    ensures
        entries_prefixes(prefixes.map_values(|p: IpPrefix| written_entry(p))) == Ok::<
            Seq<IpPrefix>,
            (ErrorKind, Seq<char>, Option<Seq<char>>),
        >(prefixes),
    decreases prefixes.len(),
{
    let entries = prefixes.map_values(|p: IpPrefix| written_entry(p));
    if prefixes.len() > 0 {
        lemma_written_entries_read_back(prefixes.drop_last());
        assert(entries.drop_last() =~= prefixes.drop_last().map_values(|p: IpPrefix| written_entry(p)));
        let last = prefixes.last();
        assert(valid_prefix(prefixes[prefixes.len() - 1]));
        assert(entries.last() == written_entry(last));
        assert((last.prefix_len as u32) as u8 == last.prefix_len);
        assert(entry_prefix(written_entry(last)) == Ok::<IpPrefix, (ErrorKind, Seq<char>, Option<Seq<char>>)>(last));
        assert(prefixes.drop_last().push(last) =~= prefixes);
    } else {
        assert(entries.len() == 0);
        assert(prefixes =~= Seq::<IpPrefix>::empty());
    }
}

/// Writing a profile's addresses and reading them back gives the same addresses: the entries
/// written for the IPv4 family and then the IPv6 family read back as exactly the given
/// prefixes, each family keeping its own.
pub proof fn lemma_address_data_round_trip(prefixes: Seq<IpPrefix>)
    requires
        forall|i: int| 0 <= i < prefixes.len() ==> valid_prefix(#[trigger] prefixes[i]),
    ensures
        entries_prefixes(of_family(prefixes, true).map_values(|p: IpPrefix| written_entry(p)))
            == Ok::<Seq<IpPrefix>, (ErrorKind, Seq<char>, Option<Seq<char>>)>(of_family(prefixes, true)),
        entries_prefixes(of_family(prefixes, false).map_values(|p: IpPrefix| written_entry(p)))
            == Ok::<Seq<IpPrefix>, (ErrorKind, Seq<char>, Option<Seq<char>>)>(of_family(prefixes, false)),
        forall|p: IpPrefix| #[trigger] prefixes.contains(p) <==> (of_family(prefixes, true).contains(p)
            || of_family(prefixes, false).contains(p)),
{
    let v4 = of_family(prefixes, true);
    let v6 = of_family(prefixes, false);
    let in_v4 = |q: IpPrefix| (q.address is V4) == true;
    let in_v6 = |q: IpPrefix| (q.address is V4) == false;
    assert forall|i: int| 0 <= i < v4.len() implies valid_prefix(#[trigger] v4[i]) by {
        assert(v4.contains(v4[i]));
        prefixes.lemma_filter_contains_rev(in_v4, v4[i]);
    }
    assert forall|i: int| 0 <= i < v6.len() implies valid_prefix(#[trigger] v6[i]) by {
        assert(v6.contains(v6[i]));
        prefixes.lemma_filter_contains_rev(in_v6, v6[i]);
    }
    lemma_written_entries_read_back(v4);
    lemma_written_entries_read_back(v6);
    assert forall|p: IpPrefix| #[trigger] prefixes.contains(p) <==> (v4.contains(p) || v6.contains(p)) by {
        if v4.contains(p) {
            prefixes.lemma_filter_contains_rev(in_v4, p);
        }
        if v6.contains(p) {
            prefixes.lemma_filter_contains_rev(in_v6, p);
        }
        if prefixes.contains(p) {
            let i = choose|i: int| 0 <= i < prefixes.len() && prefixes[i] == p;
            if p.address is V4 {
                prefixes.lemma_filter_contains(in_v4, i);
            } else {
                prefixes.lemma_filter_contains(in_v6, i);
            }
        }
    }
}

/// The connection section of a profile, as read: each string setting (`None` when missing or
/// not a string), and the interface name (`None` when missing, `Err` with the conversion
/// error's text when not a string).
#[derive(Clone, Debug, PartialEq, Eq)]
pub struct ConnectionSection {
    pub id: Option<String>,
    pub uuid: Option<String>,
    pub connection_type: Option<String>,
    pub interface_name: Option<Result<String, String>>,
}

/// The error for a required string setting that is missing or not a string.
pub open spec fn malformed_setting(error: CoreError, key: Seq<char>) -> bool {
    error.spec_kind() == ErrorKind::ProtocolError && error.spec_message()
        == "NetworkManager returned a malformed string setting"@ && error.spec_diagnostic() == Some(key)
}

fn required_setting(value: &Option<String>, key: &str) -> (result: Result<String, CoreError>)
    ensures
        match (value, result) {
            (Some(text), Ok(found)) => found@ == text@,
            (None, Err(error)) => malformed_setting(error, key@),
            _ => false,
        },
{
    match value {
        Some(text) => Ok(text.clone()),
        None => Err(
            CoreError::with_diagnostic(
                ErrorKind::ProtocolError,
                "NetworkManager returned a malformed string setting",
                key,
            ),
        ),
    }
}

/// The connection a profile at `path` describes, from its connection section (`None` when the
/// profile has none) and its ownership as `profile_owner` read it. The checks run in order:
/// the section, its id, uuid and type, the interface name, the owner, the path.
pub fn connection_from_settings(
    path: &str,
    section: &Option<ConnectionSection>,
    owner: Result<Option<NetworkId>, CoreError>,
) -> (result: Result<NetworkConnection, CoreError>)
    ensures
        match section {
            None => match result {
                Err(error) => error.spec_kind() == ErrorKind::ProtocolError && error.spec_message()
                    == "NetworkManager returned a connection profile without connection settings"@
                    && error.spec_diagnostic() == Some("profile path: "@ + path@),
                Ok(_) => false,
            },
            Some(found) => match result {
                Ok(connection) => {
                    &&& found.id matches Some(id) && connection.id@ == id@
                    &&& found.uuid matches Some(uuid) && connection.uuid@ == uuid@
                    &&& found.connection_type matches Some(kind) && connection.connection_type@ == kind@
                    &&& match found.interface_name {
                        None => connection.interface is None,
                        Some(Ok(name)) => connection.interface matches Some(handle) && handle@ == name@,
                        Some(Err(_)) => false,
                    }
                    &&& owner matches Ok(expected) && connection.owner == expected
                    &&& connection.handle@ == path@
                },
                Err(error) => if found.id is None {
                    malformed_setting(error, "id"@)
                } else if found.uuid is None {
                    malformed_setting(error, "uuid"@)
                } else if found.connection_type is None {
                    malformed_setting(error, "type"@)
                } else {
                    match found.interface_name {
                        Some(Err(text)) => error.spec_kind() == ErrorKind::ProtocolError
                            && error.spec_message() == "NetworkManager returned a malformed optional string setting"@
                            && error.spec_diagnostic() == Some(text@),
                        _ => if found.interface_name matches Some(Ok(name)) && !has_content(name@) {
                            error.spec_message() == "NetworkInterfaceHandle cannot be empty"@
                        } else {
                            match owner {
                                Err(failure) => error == failure,
                                Ok(_) => !has_content(path@) && error.spec_message()
                                    == "NetworkConnectionHandle cannot be empty"@,
                            }
                        },
                    }
                },
            },
        },
{
    let found = match section {
        None => {
            let mut diagnostic = String::from_str("profile path: ");
            push_str(&mut diagnostic, path);
            return Err(
                CoreError::from_parts(
                    ErrorKind::ProtocolError,
                    String::from_str("NetworkManager returned a connection profile without connection settings"),
                    Some(diagnostic),
                ),
            );
        },
        Some(found) => found,
    };
    let id = match required_setting(&found.id, "id") {
        Ok(id) => id,
        Err(error) => return Err(error),
    };
    let uuid = match required_setting(&found.uuid, "uuid") {
        Ok(uuid) => uuid,
        Err(error) => return Err(error),
    };
    let connection_type = match required_setting(&found.connection_type, "type") {
        Ok(kind) => kind,
        Err(error) => return Err(error),
    };
    let interface = match &found.interface_name {
        None => None,
        Some(Err(text)) => return Err(
            CoreError::from_parts(
                ErrorKind::ProtocolError,
                String::from_str("NetworkManager returned a malformed optional string setting"),
                Some(text.clone()),
            ),
        ),
        Some(Ok(name)) => match NetworkInterfaceHandle::new(name.as_str()) {
            Ok(handle) => Some(handle),
            Err(error) => return Err(error),
        },
    };
    let owner = match owner {
        Ok(owner) => owner,
        Err(error) => return Err(error),
    };
    let handle = match NetworkConnectionHandle::new(path) {
        Ok(handle) => handle,
        Err(error) => return Err(error),
    };
    Ok(NetworkConnection { handle, id, uuid, connection_type, interface, owner })
}

/// The profile kind BlueRoute creates for a device: a bridge profile for a bridge device
/// (NetworkManager device type 13), an interface profile otherwise.
pub fn owned_profile_kind(device_type: u32) -> (kind: &'static str)
    ensures
        kind@ == if device_type == 13 {
            KIND_BRIDGE@
        } else {
            KIND_INTERFACE@
        },
{
    if device_type == 13 {
        KIND_BRIDGE
    } else {
        KIND_INTERFACE
    }
}

/// An owned profile found for a bridge must be a bridge profile.
pub fn check_bridge_profile(profile_type: &str, bridge: &NetworkInterfaceHandle) -> (result: Result<(), CoreError>)
    ensures
        match result {
            Ok(()) => profile_type@ == KIND_BRIDGE@,
            Err(error) => profile_type@ != KIND_BRIDGE@ && error.spec_kind() == ErrorKind::InvalidState
                && error.spec_message()
                == "BlueRoute owns a non-bridge profile for the requested bridge interface"@
                && error.spec_diagnostic() == Some(
                "interface="@ + bridge@ + " profile-type="@ + profile_type@,
            ),
        },
{
    if same_text(profile_type, KIND_BRIDGE) {
        return Ok(());
    }
    let mut diagnostic = String::from_str("interface=");
    push_str(&mut diagnostic, bridge.as_str());
    push_str(&mut diagnostic, " profile-type=");
    push_str(&mut diagnostic, profile_type);
    Err(
        CoreError::from_parts(
            ErrorKind::InvalidState,
            String::from_str("BlueRoute owns a non-bridge profile for the requested bridge interface"),
            Some(diagnostic),
        ),
    )
}

/// Whether the profile at `path` still has to be activated on a known device whose active
/// connection is `active`: not when it is active already; refused when another connection is.
pub fn activation_needed(active: &Option<NetworkConnectionHandle>, path: &str, interface: &NetworkInterfaceHandle) -> (result: Result<bool, CoreError>)
    ensures
        match active {
            None => result == Ok::<bool, CoreError>(true),
            Some(current) => if current@ == path@ {
                result == Ok::<bool, CoreError>(false)
            } else {
                match result {
                    Err(error) => error.spec_kind() == ErrorKind::InvalidState && error.spec_message()
                        == "refusing to replace an active NetworkManager connection while activating BlueRoute state"@
                        && error.spec_diagnostic() == Some("interface="@ + interface@),
                    Ok(_) => false,
                }
            },
        },
{
    match active {
        None => Ok(true),
        Some(current) => {
            if same_text(current.as_str(), path) {
                return Ok(false);
            }
            let mut diagnostic = String::from_str("interface=");
            push_str(&mut diagnostic, interface.as_str());
            Err(
                CoreError::from_parts(
                    ErrorKind::InvalidState,
                    String::from_str(
                        "refusing to replace an active NetworkManager connection while activating BlueRoute state",
                    ),
                    Some(diagnostic),
                ),
            )
        },
    }
}

/// A device's active connection may only be replaced when this network owns it (`owner_found`
/// is what its profile's metadata names).
pub fn check_active_connection_owner(
    device: &NetworkDevice,
    owner_found: Option<NetworkId>,
    owner: NetworkId,
) -> (result: Result<(), CoreError>)
    ensures
        match device.active_connection {
            None => result is Ok,
            Some(active) => match result {
                Ok(()) => owner_found matches Some(found) && found.0@ == owner.0@,
                Err(error) => !(owner_found matches Some(found) && found.0@ == owner.0@)
                    && error.spec_kind() == ErrorKind::InvalidState && error.spec_message()
                    == "refusing to replace an active NetworkManager connection not owned by this BlueRoute network"@
                    && error.spec_diagnostic() == Some(
                    "interface="@ + device.interface@ + " active-profile="@ + active@,
                ),
            },
        },
{
    let active = match &device.active_connection {
        None => return Ok(()),
        Some(active) => active,
    };
    if let Some(found) = owner_found {
        if found == owner {
            return Ok(());
        }
    }
    let mut diagnostic = String::from_str("interface=");
    push_str(&mut diagnostic, device.interface.as_str());
    push_str(&mut diagnostic, " active-profile=");
    push_str(&mut diagnostic, active.as_str());
    Err(
        CoreError::from_parts(
            ErrorKind::InvalidState,
            String::from_str(
                "refusing to replace an active NetworkManager connection not owned by this BlueRoute network",
            ),
            Some(diagnostic),
        ),
    )
}

/// A profile may be changed only when its metadata names the requested network as owner.
pub fn check_profile_owner(found: Option<NetworkId>, owner: NetworkId, removing: bool) -> (result: Result<(), CoreError>)
    ensures
        match result {
            Ok(()) => found matches Some(id) && id.0@ == owner.0@,
            Err(error) => !(found matches Some(id) && id.0@ == owner.0@) && error.spec_kind()
                == ErrorKind::InvalidState && error.spec_message() == if removing {
                "refusing to remove a NetworkManager profile not owned by the requested BlueRoute network"@
            } else {
                "refusing to modify a NetworkManager profile not owned by the requested BlueRoute network"@
            },
        },
{
    if let Some(id) = found {
        if id == owner {
            return Ok(());
        }
    }
    if removing {
        Err(CoreError::new(
            ErrorKind::InvalidState,
            "refusing to remove a NetworkManager profile not owned by the requested BlueRoute network",
        ))
    } else {
        Err(CoreError::new(
            ErrorKind::InvalidState,
            "refusing to modify a NetworkManager profile not owned by the requested BlueRoute network",
        ))
    }
}

} // verus!
