use vstd::prelude::*;

use crate::domain::addressing::{normalized_ipv4_prefix, normalized_v4};
use crate::domain::error::{CoreError, ErrorKind};
use crate::domain::route::{IpAddress, IpPrefix};
use crate::text::push_str;

verus! {

/// One entry of a configuration's address or route data, as read: the address text parsed
/// (`None` when the setting is missing or not a string, `Err` with the parse error's text),
/// and the prefix length (`None` when missing, `Err` with the conversion error's text).
#[derive(Clone, Debug, PartialEq, Eq)]
pub struct ObservedEntry {
    pub address: Option<Result<IpAddress, String>>,
    pub prefix: Option<Result<u32, String>>,
}

/// Why an observed entry is refused: (message, diagnostic).
pub open spec fn entry_failure(entry: ObservedEntry, key: Seq<char>, context: Seq<char>) -> Option<(ErrorKind, Seq<char>, Option<Seq<char>>)> {
    match entry.address {
        None => Some((ErrorKind::ProtocolError, "NetworkManager returned a malformed string setting"@, Some(key))),
        Some(Err(text)) => Some(
            (ErrorKind::ProtocolError, "NetworkManager returned an invalid "@ + context + " address"@, Some(text@)),
        ),
        Some(Ok(address)) => match address {
            IpAddress::V6(_) => Some(
                (ErrorKind::ProtocolError, "NetworkManager returned non-IPv4 data in "@ + context, None),
            ),
            IpAddress::V4(_) => match entry.prefix {
                None => Some(
                    (ErrorKind::ProtocolError, "NetworkManager "@ + context + " entry is missing a prefix"@, None),
                ),
                Some(Err(text)) => Some(
                    (ErrorKind::ProtocolError, "NetworkManager returned an invalid "@ + context + " prefix"@, Some(text@)),
                ),
                Some(Ok(length)) => if length > 255 {
                    Some(
                        (
                            ErrorKind::ProtocolError,
                            "NetworkManager returned an out-of-range "@ + context + " prefix"@,
                            Some("out of range integral type conversion attempted"@),
                        ),
                    )
                } else if length > 32 {
                    Some((ErrorKind::InvalidInput, "prefix length is invalid for the address"@, None))
                } else {
                    None
                },
            },
        },
    }
}

/// The normalized IPv4 prefix an active address or route entry names; `key` is the setting
/// that holds the address and `context` names the entry in messages.
pub fn observed_ipv4_prefix(entry: &ObservedEntry, key: &str, context: &str) -> (result: Result<IpPrefix, CoreError>)
    ensures
        match (entry_failure(*entry, key@, context@), result) {
            (None, Ok(prefix)) => match (entry.address, entry.prefix) {
                (Some(Ok(address)), Some(Ok(length))) => normalized_v4(
                    IpPrefix { address, prefix_len: length as u8 },
                ) == Some(prefix),
                _ => false,
            },
            (Some((kind, message, diagnostic)), Err(error)) => error.spec_kind() == kind
                && error.spec_message() == message && error.spec_diagnostic() == diagnostic,
            _ => false,
        },
{
    let address = match &entry.address {
        None => {
            return Err(
                CoreError::with_diagnostic(
                    ErrorKind::ProtocolError,
                    "NetworkManager returned a malformed string setting",
                    key,
                ),
            );
        },
        Some(Err(text)) => {
            let mut message = String::from_str("NetworkManager returned an invalid ");
            push_str(&mut message, context);
            push_str(&mut message, " address");
            return Err(
                CoreError::from_parts(ErrorKind::ProtocolError, message, Some(text.clone())),
            );
        },
        Some(Ok(address)) => *address,
    };
    if let IpAddress::V6(_) = address {
        let mut message = String::from_str("NetworkManager returned non-IPv4 data in ");
        push_str(&mut message, context);
        return Err(CoreError::from_parts(ErrorKind::ProtocolError, message, None));
    }
    let length = match &entry.prefix {
        None => {
            let mut message = String::from_str("NetworkManager ");
            push_str(&mut message, context);
            push_str(&mut message, " entry is missing a prefix");
            return Err(CoreError::from_parts(ErrorKind::ProtocolError, message, None));
        },
        Some(Err(text)) => {
            let mut message = String::from_str("NetworkManager returned an invalid ");
            push_str(&mut message, context);
            push_str(&mut message, " prefix");
            return Err(
                CoreError::from_parts(ErrorKind::ProtocolError, message, Some(text.clone())),
            );
        },
        Some(Ok(length)) => *length,
    };
    if length > 255 {
        let mut message = String::from_str("NetworkManager returned an out-of-range ");
        push_str(&mut message, context);
        push_str(&mut message, " prefix");
        return Err(
            CoreError::from_parts(
                ErrorKind::ProtocolError,
                message,
                Some(String::from_str("out of range integral type conversion attempted")),
            ),
        );
    }
    let prefix = match IpPrefix::new(address, length as u8) {
        Ok(prefix) => prefix,
        Err(error) => return Err(error),
    };
    normalized_ipv4_prefix(prefix)
}

} // verus!
