use blueroute::linux::address_saga::{AddressAction, AddressOutcome, AddressSaga, AddressStage};
use blueroute::linux::kernel_address::{Ipv4InterfacePrefix, KernelAddressLease};
use blueroute::{
    CoreError, ErrorKind, InterfaceAddress, IpAddress, IpPrefix, Ipv4Address, Ipv6Address,
    NetworkId, NetworkInterfaceHandle,
};

/// One interface as the kernel would hold it.
struct Kernel {
    index: Option<u32>,
    addresses: Vec<Ipv4InterfacePrefix>,
    ignore_create: bool,
    deletes: usize,
}

impl Kernel {
    fn new(addresses: Vec<Ipv4InterfacePrefix>) -> Self {
        Kernel { index: Some(7), addresses, ignore_create: false, deletes: 0 }
    }

    fn configure(&mut self, address: InterfaceAddress) -> Result<KernelAddressLease, CoreError> {
        let mut saga = AddressSaga::start(address);
        loop {
            let outcome = match (saga.action(), &saga.stage) {
                (AddressAction::Finish, _) => return saga.result().unwrap(),
                (AddressAction::ResolveIndex, _) => AddressOutcome::Index(self.index.ok_or_else(|| {
                    CoreError::new(ErrorKind::NetworkBackendUnavailable, "no such interface")
                })),
                (AddressAction::DumpAddresses, _) => AddressOutcome::Addresses(Ok(self.addresses.clone())),
                (AddressAction::CreateAddress, AddressStage::Create { requested, .. }) => {
                    if !self.ignore_create {
                        self.addresses.push(*requested);
                    }
                    AddressOutcome::Done(Ok(()))
                }
                (AddressAction::DeleteAddress, AddressStage::Cleanup { requested, .. }) => {
                    self.deletes += 1;
                    self.addresses.retain(|prefix| prefix != requested);
                    AddressOutcome::Done(Ok(()))
                }
                _ => unreachable!(),
            };
            saga = saga.advance(outcome);
        }
    }
}

fn prefix(d: u8, len: u8) -> Ipv4InterfacePrefix {
    Ipv4InterfacePrefix { address: Ipv4Address::new(10, 201, 86, d), prefix_len: len }
}

fn request(address: IpAddress, len: u8) -> InterfaceAddress {
    InterfaceAddress {
        interface: NetworkInterfaceHandle::new("bnep0").unwrap(),
        prefix: IpPrefix { address, prefix_len: len },
        owner: NetworkId::from_bytes([3; 16]),
    }
}

#[test]
fn clean_interface_gets_exactly_the_requested_address() {
    let mut kernel = Kernel::new(vec![]);
    let wanted = request(IpAddress::V4(Ipv4Address::new(10, 201, 86, 2)), 24);
    let lease = kernel.configure(wanted.clone()).unwrap();
    assert_eq!(lease.address(), &wanted);
    assert_eq!(lease.interface_index(), 7);
    assert_eq!(kernel.addresses, vec![prefix(2, 24)]);
}

#[test]
fn interface_with_ipv4_state_is_refused_untouched() {
    let mut kernel = Kernel::new(vec![prefix(9, 24)]);
    let error = kernel
        .configure(request(IpAddress::V4(Ipv4Address::new(10, 201, 86, 2)), 24))
        .unwrap_err();
    assert_eq!(error.kind(), ErrorKind::InvalidState);
    assert_eq!(error.message(), "refusing to configure a PANU interface that already has IPv4 state");
    assert_eq!(error.diagnostic(), Some("interface=bnep0 ifindex=7 existing=10.201.86.9/24"));
    assert_eq!(kernel.addresses, vec![prefix(9, 24)]);
}

#[test]
fn unconverged_address_is_deleted_and_reported() {
    let mut kernel = Kernel::new(vec![]);
    kernel.ignore_create = true;
    let error = kernel
        .configure(request(IpAddress::V4(Ipv4Address::new(10, 201, 86, 2)), 24))
        .unwrap_err();
    assert_eq!(error.kind(), ErrorKind::NetworkBackendUnavailable);
    assert_eq!(
        error.diagnostic(),
        Some("interface=bnep0 ifindex=7 requested=10.201.86.2/24 observed=<none> cleanup=ok")
    );
    assert_eq!(kernel.deletes, 1);
}

#[test]
fn ipv6_and_missing_interface_fail_before_any_change() {
    let mut kernel = Kernel::new(vec![]);
    let error = kernel.configure(request(IpAddress::V6(Ipv6Address(1)), 64)).unwrap_err();
    assert_eq!(error.kind(), ErrorKind::InvalidInput);
    assert_eq!(error.message(), "kernel PANU address backend currently accepts only IPv4 prefixes");

    kernel.index = None;
    let error = kernel
        .configure(request(IpAddress::V4(Ipv4Address::new(10, 201, 86, 2)), 24))
        .unwrap_err();
    assert_eq!(error.message(), "no such interface");
    assert!(kernel.addresses.is_empty());
}
