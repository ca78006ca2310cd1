use vstd::prelude::*;

use crate::domain::addressing::ipv4_prefix_text;
use crate::domain::error::{CoreError, ErrorKind};
use crate::domain::route::IpAddress;
use crate::linux::handles::InterfaceAddress;
use crate::linux::kernel_address::{
    address_converged, cleanup_text, convergence_error, existing_state_error, interface_text,
    ipv4_prefix, prefixes_text, Ipv4InterfacePrefix, KernelAddressLease,
};

verus! {

/// Where giving a PANU interface its IPv4 address stands. The interface must carry no IPv4
/// address before, and exactly the requested one after; otherwise the address is deleted
/// again and the configuration fails.
#[derive(Debug)]
pub enum AddressStage {
    /// Find the kernel index of the interface.
    ResolveIndex { address: InterfaceAddress, requested: Ipv4InterfacePrefix },
    /// Read the interface's addresses: it must have none yet.
    CheckExisting { address: InterfaceAddress, requested: Ipv4InterfacePrefix, index: u32 },
    /// Add the requested address.
    Create { address: InterfaceAddress, requested: Ipv4InterfacePrefix, index: u32 },
    /// Read the addresses again: exactly the requested one must be there.
    Verify { address: InterfaceAddress, requested: Ipv4InterfacePrefix, index: u32 },
    /// The change did not take as requested: delete the requested address, then fail.
    Cleanup {
        address: InterfaceAddress,
        requested: Ipv4InterfacePrefix,
        index: u32,
        applied: Vec<Ipv4InterfacePrefix>,
    },
    /// Done, with the lease on the configured address or the failure.
    Finished(Result<KernelAddressLease, CoreError>),
}

/// The kernel work the current stage asks for.
#[derive(Clone, Copy, Debug, PartialEq, Eq, Structural)]
pub enum AddressAction {
    ResolveIndex,
    DumpAddresses,
    CreateAddress,
    DeleteAddress,
    Finish,
}

/// What the kernel work gave back.
#[derive(Debug)]
pub enum AddressOutcome {
    Index(Result<u32, CoreError>),
    Addresses(Result<Vec<Ipv4InterfacePrefix>, CoreError>),
    Done(Result<(), CoreError>),
}

pub open spec fn address_action(stage: AddressStage) -> AddressAction {
    match stage {
        AddressStage::ResolveIndex { .. } => AddressAction::ResolveIndex,
        AddressStage::CheckExisting { .. } => AddressAction::DumpAddresses,
        AddressStage::Create { .. } => AddressAction::CreateAddress,
        AddressStage::Verify { .. } => AddressAction::DumpAddresses,
        AddressStage::Cleanup { .. } => AddressAction::DeleteAddress,
        AddressStage::Finished(_) => AddressAction::Finish,
    }
}

/// `next` is a finished stage with an error of this kind, message and diagnostic.
pub open spec fn address_fails_with(
    next: AddressStage,
    kind: ErrorKind,
    message: Seq<char>,
    diagnostic: Option<Seq<char>>,
) -> bool {
    match next {
        AddressStage::Finished(Err(error)) => error.spec_kind() == kind && error.spec_message()
            == message && error.spec_diagnostic() == diagnostic,
        _ => false,
    }
}

/// How the configuration moves on with the outcome of its stage's action.
pub open spec fn address_step_spec(stage: AddressStage, outcome: AddressOutcome, next: AddressStage) -> bool {
    match (stage, outcome) {
        (AddressStage::Finished(result), _) => next == AddressStage::Finished(result),
        (AddressStage::ResolveIndex { address, requested }, AddressOutcome::Index(resolved)) => match resolved {
            Err(error) => next == AddressStage::Finished(Err(error)),
            Ok(index) => next == AddressStage::CheckExisting { address, requested, index },
        },
        (AddressStage::CheckExisting { address, requested, index }, AddressOutcome::Addresses(read)) => match read {
            Err(error) => next == AddressStage::Finished(Err(error)),
            Ok(existing) => if existing@.len() == 0 {
                next == AddressStage::Create { address, requested, index }
            } else {
                address_fails_with(
                    next,
                    ErrorKind::InvalidState,
                    "refusing to configure a PANU interface that already has IPv4 state"@,
                    Some(interface_text(address.interface@, index) + " existing="@ + prefixes_text(existing@)),
                )
            },
        },
        (AddressStage::Create { address, requested, index }, AddressOutcome::Done(created)) => match created {
            Err(error) => next == AddressStage::Finished(Err(error)),
            Ok(()) => next == AddressStage::Verify { address, requested, index },
        },
        (AddressStage::Verify { address, requested, index }, AddressOutcome::Addresses(read)) => match read {
            Err(error) => next == AddressStage::Finished(Err(error)),
            Ok(applied) => if applied@.len() == 1 && applied@[0] == requested {
                match next {
                    AddressStage::Finished(Ok(lease)) => lease.spec_address() == address
                        && lease.spec_interface_index() == index,
                    _ => false,
                }
            } else {
                match next {
                    AddressStage::Cleanup { address: a, requested: r, index: i, applied: kept } => a == address
                        && r == requested && i == index && kept@ == applied@,
                    _ => false,
                }
            },
        },
        (AddressStage::Cleanup { address, requested, index, applied }, AddressOutcome::Done(cleanup)) => address_fails_with(
            next,
            ErrorKind::NetworkBackendUnavailable,
            "kernel PANU address application did not converge to the requested state"@,
            Some(
                interface_text(address.interface@, index) + " requested="@ + ipv4_prefix_text(
                    requested.address.0,
                    requested.prefix_len,
                ) + " observed="@ + prefixes_text(applied@) + " cleanup="@ + cleanup_text(cleanup),
            ),
        ),
        _ => address_fails_with(
            next,
            ErrorKind::Internal,
            "address configuration step received the outcome of a different action"@,
            None,
        ),
    }
}

/// Giving a PANU interface its IPv4 address.
#[derive(Debug)]
pub struct AddressSaga {
    pub stage: AddressStage,
}

impl AddressSaga {
    /// Starts configuring `address`; refused at once unless it is an IPv4 prefix.
    pub fn start(address: InterfaceAddress) -> (saga: Self)
        ensures
            match (address.prefix.address, saga.stage) {
                (IpAddress::V4(v4), AddressStage::ResolveIndex { address: a, requested }) => a == address
                    && address.prefix.prefix_len <= 32 && requested.address == v4
                    && requested.prefix_len == address.prefix.prefix_len,
                (_, AddressStage::Finished(Err(error))) => !(address.prefix.address is V4
                    && address.prefix.prefix_len <= 32) && error.spec_kind() == ErrorKind::InvalidInput
                    && error.spec_message() == "kernel PANU address backend currently accepts only IPv4 prefixes"@
                    && error.spec_diagnostic() is None,
                _ => false,
            },
    {
        let stage = match ipv4_prefix(address.prefix) {
            Ok(requested) => AddressStage::ResolveIndex { address, requested },
            Err(error) => AddressStage::Finished(Err(error)),
        };
        AddressSaga { stage }
    }

    /// The kernel work the current stage asks for.
    pub fn action(&self) -> (action: AddressAction)
        ensures
            action == address_action(self.stage),
    {
        match &self.stage {
            AddressStage::ResolveIndex { .. } => AddressAction::ResolveIndex,
            AddressStage::CheckExisting { .. } => AddressAction::DumpAddresses,
            AddressStage::Create { .. } => AddressAction::CreateAddress,
            AddressStage::Verify { .. } => AddressAction::DumpAddresses,
            AddressStage::Cleanup { .. } => AddressAction::DeleteAddress,
            AddressStage::Finished(_) => AddressAction::Finish,
        }
    }

    /// Moves on with the outcome of the current action.
    pub fn advance(self, outcome: AddressOutcome) -> (next: Self)
        ensures
            address_step_spec(self.stage, outcome, next.stage),
    {
        let stage = match (self.stage, outcome) {
            (AddressStage::Finished(result), _) => AddressStage::Finished(result),
            (AddressStage::ResolveIndex { address, requested }, AddressOutcome::Index(resolved)) => match resolved {
                Err(error) => AddressStage::Finished(Err(error)),
                Ok(index) => AddressStage::CheckExisting { address, requested, index },
            },
            (AddressStage::CheckExisting { address, requested, index }, AddressOutcome::Addresses(read)) => match read {
                Err(error) => AddressStage::Finished(Err(error)),
                Ok(existing) => if existing.len() == 0 {
                    AddressStage::Create { address, requested, index }
                } else {
                    AddressStage::Finished(Err(existing_state_error(&address.interface, index, &existing)))
                },
            },
            (AddressStage::Create { address, requested, index }, AddressOutcome::Done(created)) => match created {
                Err(error) => AddressStage::Finished(Err(error)),
                Ok(()) => AddressStage::Verify { address, requested, index },
            },
            (AddressStage::Verify { address, requested, index }, AddressOutcome::Addresses(read)) => match read {
                Err(error) => AddressStage::Finished(Err(error)),
                Ok(applied) => if address_converged(&applied, requested) {
                    AddressStage::Finished(Ok(KernelAddressLease::new(address, index)))
                } else {
                    AddressStage::Cleanup { address, requested, index, applied }
                },
            },
            (AddressStage::Cleanup { address, requested, index, applied }, AddressOutcome::Done(cleanup)) => {
                AddressStage::Finished(Err(convergence_error(&address.interface, index, requested, &applied, &cleanup)))
            },
            _ => AddressStage::Finished(Err(CoreError::new(
                ErrorKind::Internal,
                "address configuration step received the outcome of a different action",
            ))),
        };
        AddressSaga { stage }
    }

    /// The configuration's result, once finished.
    pub fn result(self) -> (result: Option<Result<KernelAddressLease, CoreError>>)
        ensures
            match self.stage {
                AddressStage::Finished(done) => result == Some(done),
                _ => result is None,
            },
    {
        match self.stage {
            AddressStage::Finished(done) => Some(done),
            _ => None,
        }
    }
}

} // verus!
