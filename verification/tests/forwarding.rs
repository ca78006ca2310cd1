use blueroute::linux::forwarding::{
    lease_rollback_failure, parse_forwarding_value, ForwardingAction, ForwardingLease,
    ForwardingOutcome, ForwardingState,
};
use blueroute::{CoreError, ErrorKind};

const SYSCTL: &str = "/proc/sys/net/ipv4/ip_forward";

/// An in-memory kernel switch and lease file that the forwarding steps run against.
struct Host {
    sysctl: String,
    lease: Option<String>,
    writes: Vec<bool>,
    ignore_writes: bool,
}

impl Host {
    fn new(initial: bool) -> Self {
        Host {
            sysctl: if initial { "1\n" } else { "0\n" }.to_string(),
            lease: None,
            writes: Vec::new(),
            ignore_writes: false,
        }
    }

    fn forwarding(&self) -> bool {
        parse_forwarding_value(&self.sysctl, SYSCTL).unwrap()
    }

    fn read_lease(&self) -> Result<Option<ForwardingLease>, CoreError> {
        match &self.lease {
            Some(text) => ForwardingLease::parse(text).map(Some),
            None => Ok(None),
        }
    }

    fn set(&mut self, enabled: bool) -> Result<(), CoreError> {
        let mut state = ForwardingState::start(enabled);
        loop {
            let outcome = match state.action() {
                ForwardingAction::Finish => return state.result().unwrap(),
                ForwardingAction::ReadForwarding => {
                    ForwardingOutcome::Forwarding(parse_forwarding_value(&self.sysctl, SYSCTL))
                }
                ForwardingAction::ReadLease => ForwardingOutcome::Lease(self.read_lease()),
                ForwardingAction::CreateLease(lease) => {
                    if self.lease.is_none() {
                        self.lease = Some(lease.serialize());
                        ForwardingOutcome::LeaseCreated(Ok(lease))
                    } else {
                        ForwardingOutcome::LeaseCreated(self.read_lease().map(|l| l.unwrap()))
                    }
                }
                ForwardingAction::WriteForwarding(value) => {
                    self.writes.push(value);
                    if !self.ignore_writes {
                        self.sysctl = if value { "1\n" } else { "0\n" }.to_string();
                    }
                    ForwardingOutcome::Written(Ok(()))
                }
                ForwardingAction::RemoveLease => {
                    self.lease = None;
                    ForwardingOutcome::LeaseRemoved(Ok(()))
                }
            };
            state = state.advance(outcome);
        }
    }
}

#[test]
fn enable_and_release_restores_disabled_baseline_idempotently() {
    let mut host = Host::new(false);
    host.set(true).unwrap();
    host.set(true).unwrap();
    assert!(host.forwarding());
    assert_eq!(host.read_lease().unwrap(), Some(ForwardingLease { baseline: false }));

    host.set(false).unwrap();
    host.set(false).unwrap();
    assert!(!host.forwarding());
    assert_eq!(host.read_lease().unwrap(), None);
}

#[test]
fn preexisting_foreign_forwarding_is_preserved_after_release() {
    let mut host = Host::new(true);
    host.set(true).unwrap();
    assert_eq!(host.read_lease().unwrap(), Some(ForwardingLease { baseline: true }));
    host.set(false).unwrap();
    assert!(host.forwarding());
    assert_eq!(host.read_lease().unwrap(), None);
}

#[test]
fn disable_without_blueroute_lease_does_not_touch_foreign_state() {
    let mut host = Host::new(true);
    host.set(false).unwrap();
    assert!(host.forwarding());
    assert!(host.lease.is_none());
    assert!(host.writes.is_empty());
}

#[test]
fn fresh_controller_recovers_runtime_lease() {
    let mut host = Host::new(false);
    host.set(true).unwrap();
    // A second request starts from the same durable state, as a restarted daemon would.
    host.set(true).unwrap();
    assert!(host.forwarding());
    host.set(false).unwrap();
    assert!(!host.forwarding());
    assert!(host.lease.is_none());
}

#[test]
fn release_never_reenables_forwarding_after_external_disable() {
    let mut host = Host::new(true);
    host.set(true).unwrap();
    host.sysctl = "0\n".to_string();

    host.set(false).unwrap();
    assert!(!host.forwarding());
    assert!(host.lease.is_none());
    assert!(!host.writes.contains(&true));
}

#[test]
fn malformed_lease_fails_closed_without_mutating_kernel_state() {
    let mut host = Host::new(false);
    host.lease = Some("schema=99\nbaseline=0\n".to_string());

    let error = host.set(true).unwrap_err();
    assert_eq!(error.kind(), ErrorKind::InvalidState);
    assert!(!host.forwarding());
    assert!(host.writes.is_empty());
}

#[test]
fn invalid_kernel_value_fails_closed() {
    let mut host = Host::new(false);
    host.sysctl = "unexpected\n".to_string();
    let error = host.set(true).unwrap_err();
    assert_eq!(error.kind(), ErrorKind::InvalidState);
    assert_eq!(error.message(), "kernel IPv4 forwarding state is not 0 or 1");
    assert_eq!(
        error.diagnostic(),
        Some("path=/proc/sys/net/ipv4/ip_forward value=\"unexpected\"")
    );
    assert!(host.lease.is_none());
}

#[test]
fn ignored_enable_write_removes_the_new_lease() {
    let mut host = Host::new(false);
    host.ignore_writes = true;
    let error = host.set(true).unwrap_err();
    assert_eq!(error.kind(), ErrorKind::NetworkBackendUnavailable);
    assert_eq!(
        error.message(),
        "kernel IPv4 forwarding did not become enabled after the requested write"
    );
    assert!(host.lease.is_none());
}

#[test]
fn ignored_release_write_keeps_the_lease() {
    let mut host = Host::new(false);
    host.set(true).unwrap();
    host.ignore_writes = true;
    let error = host.set(false).unwrap_err();
    assert_eq!(
        error.message(),
        "kernel IPv4 forwarding remained enabled while releasing the BlueRoute forwarding lease"
    );
    assert_eq!(host.read_lease().unwrap(), Some(ForwardingLease { baseline: false }));
}

#[test]
fn lease_text_round_trips_and_rejects_other_schemas() {
    for baseline in [false, true] {
        let lease = ForwardingLease { baseline };
        let text = lease.serialize();
        assert_eq!(ForwardingLease::parse(&text).unwrap(), lease);
    }
    assert_eq!(ForwardingLease { baseline: true }.serialize(), "schema=1\nbaseline=1\n");
    let error = ForwardingLease::parse("schema=1\nbaseline=2\n").unwrap_err();
    assert_eq!(error.kind(), ErrorKind::InvalidState);
    assert_eq!(
        error.message(),
        "BlueRoute IPv4 forwarding lease has an invalid baseline value"
    );
    let error = ForwardingLease::parse("schema=1\nbaseline=1\nextra\n").unwrap_err();
    assert_eq!(
        error.message(),
        "BlueRoute IPv4 forwarding lease is malformed or uses an unsupported schema"
    );
    assert_eq!(error.diagnostic(), Some("schema=1\nbaseline=1\nextra\n"));
}

#[test]
fn kernel_value_is_trimmed_before_reading() {
    assert_eq!(parse_forwarding_value(" 1 \n", SYSCTL).unwrap(), true);
    assert_eq!(parse_forwarding_value("0", SYSCTL).unwrap(), false);
    assert!(parse_forwarding_value("01", SYSCTL).is_err());
}

#[test]
fn failed_write_and_failed_cleanup_are_both_reported() {
    let write = CoreError::with_diagnostic(ErrorKind::NetworkBackendUnavailable, "w", "denied");
    let cleanup = CoreError::new(ErrorKind::NetworkBackendUnavailable, "cleanup failed");
    let error = lease_rollback_failure(&write, &cleanup);
    assert_eq!(error.kind(), ErrorKind::NetworkBackendUnavailable);
    assert_eq!(
        error.diagnostic(),
        Some("write-error=denied; lease-cleanup-error=cleanup failed")
    );
}

#[test]
fn outcome_of_another_action_is_an_internal_error() {
    let state = ForwardingState::start(true);
    let next = state.advance(ForwardingOutcome::LeaseRemoved(Ok(())));
    let error = next.result().unwrap().unwrap_err();
    assert_eq!(error.kind(), ErrorKind::Internal);
}
