use blueroute::daemon::single_star::{bridge_name, local_star_address};
use blueroute::daemon::star_host::{
    attach_cleanup_failures, cleanup_outcome, discovery_rollback_error,
    rollback_active_host_error, select_powered_adapter, select_powered_discovery_adapter,
    HostedStar, StarAction, StarOutcome, StarSaga,
};
use blueroute::linux::network_discovery::NetworkAdvertisement;
use blueroute::{
    AdapterHandle, BluetoothAdapter, CoreError, DaemonConfig, ErrorKind, NetworkId,
};

fn adapter(path: &str, powered: bool) -> BluetoothAdapter {
    BluetoothAdapter { handle: AdapterHandle::new(path).unwrap(), powered }
}

/// A host whose runtime steps succeed unless told to fail, recording what was asked.
#[derive(Default)]
struct Runtime {
    active: Option<HostedStar>,
    steps: Vec<StarAction>,
    fail: Vec<StarAction>,
    steal_slot: bool,
}

impl Runtime {
    fn result(&self, action: StarAction) -> Result<(), CoreError> {
        if self.fail.contains(&action) {
            Err(CoreError::new(ErrorKind::NetworkBackendUnavailable, &format!("{action:?} failed")))
        } else {
            Ok(())
        }
    }

    fn run(&mut self, mut saga: StarSaga) -> Result<(), CoreError> {
        loop {
            let action = saga.action();
            if action == StarAction::Finish {
                return saga.result().unwrap();
            }
            self.steps.push(action);
            let outcome = match action {
                StarAction::ReadActive => {
                    if self.steal_slot {
                        let network = NetworkId::from_bytes([0xee; 16]);
                        let bridge = bridge_name(network).unwrap();
                        let address = local_star_address(network, &DaemonConfig::default()).unwrap();
                        let adapter = AdapterHandle::new("/org/bluez/hci9").unwrap();
                        StarOutcome::Active(Ok(Some(HostedStar {
                            network,
                            bridge,
                            address,
                            adapter: adapter.duplicate(),
                            advertisement: NetworkAdvertisement::new(adapter, network),
                        })))
                    } else {
                        StarOutcome::Active(Ok(self.active.clone()))
                    }
                }
                StarAction::ListAdapters => StarOutcome::Adapters(Ok(vec![
                    adapter("/org/bluez/hci0", false),
                    adapter("/org/bluez/hci1", true),
                ])),
                StarAction::StartAdvertisement => StarOutcome::Advertised(
                    self.result(action).map(|()| {
                        NetworkAdvertisement::new(
                            AdapterHandle::new("/org/bluez/hci1").unwrap(),
                            saga.network,
                        )
                    }),
                ),
                StarAction::StoreActive => {
                    if let blueroute::daemon::star_host::StarStage::Store { star } = &saga.stage {
                        self.active = Some(star.clone());
                    }
                    StarOutcome::Done(Ok(()))
                }
                StarAction::ClearActive => {
                    self.active = None;
                    StarOutcome::Done(Ok(()))
                }
                other => StarOutcome::Done(self.result(other)),
            };
            saga = saga.advance(outcome);
        }
    }
}

fn star(value: u8) -> (NetworkId, StarSaga, StarSaga) {
    let network = NetworkId::from_bytes([value; 16]);
    let bridge = bridge_name(network).unwrap();
    let address = local_star_address(network, &DaemonConfig::default()).unwrap();
    let start = StarSaga::start(network, bridge.duplicate(), address.clone());
    let stop = StarSaga::stop(network, bridge, address);
    (network, start, stop)
}


#[test]
fn hosting_sets_up_bridge_address_nap_and_advertisement_in_order() {
    let (network, start, _) = star(1);
    let mut runtime = Runtime::default();
    runtime.run(start).unwrap();
    assert_eq!(
        runtime.steps,
        vec![
            StarAction::ReadActive,
            StarAction::Connect,
            StarAction::ListAdapters,
            StarAction::EnsureBridge,
            StarAction::EnsureAddress,
            StarAction::StartNap,
            StarAction::StartAdvertisement,
            StarAction::ReadActive,
            StarAction::StoreActive
        ]
    );
    let active = runtime.active.as_ref().unwrap();
    assert_eq!(active.network, network);
    assert_eq!(active.adapter.as_str(), "/org/bluez/hci1");
}

#[test]
fn hosting_the_same_star_again_changes_nothing() {
    let (_, start, _) = star(2);
    let (_, again, _) = star(2);
    let mut runtime = Runtime::default();
    runtime.run(start).unwrap();
    runtime.steps.clear();
    runtime.run(again).unwrap();
    assert_eq!(runtime.steps, vec![StarAction::ReadActive]);
}

#[test]
fn a_second_star_is_refused() {
    let (_, first, _) = star(3);
    let (_, second, _) = star(4);
    let mut runtime = Runtime::default();
    runtime.run(first).unwrap();
    let error = runtime.run(second).unwrap_err();
    assert_eq!(error.message(), "a different BlueRoute star is already hosted on this daemon");
}

#[test]
fn address_failure_removes_only_the_bridge() {
    let (_, start, _) = star(5);
    let mut runtime = Runtime { fail: vec![StarAction::EnsureAddress, StarAction::RemoveBridge], ..Runtime::default() };
    let error = runtime.run(start).unwrap_err();
    assert_eq!(error.message(), "EnsureAddress failed");
    assert_eq!(&runtime.steps[4..], &[StarAction::EnsureAddress, StarAction::RemoveBridge]);
    assert_eq!(
        error.diagnostic(),
        Some("no original diagnostic; runtime rollback failures: remove bridge: RemoveBridge failed")
    );
}

#[test]
fn nap_failure_stops_nap_then_removes_address_then_bridge() {
    let (_, start, _) = star(6);
    let mut runtime = Runtime { fail: vec![StarAction::StartNap], ..Runtime::default() };
    let error = runtime.run(start).unwrap_err();
    assert_eq!(error.message(), "StartNap failed");
    assert_eq!(error.diagnostic(), None);
    assert_eq!(&runtime.steps[5..], &[StarAction::StartNap, StarAction::StopNap, StarAction::RemoveAddress, StarAction::RemoveBridge]);
    assert!(runtime.active.is_none());
}

#[test]
fn lost_slot_takes_the_new_star_down_completely() {
    let (_, start, _) = star(7);
    let mut runtime = Runtime { steal_slot: false, ..Runtime::default() };
    // The slot is free when checked first, then found taken when recording.
    let mut saga = start;
    saga = saga.advance(StarOutcome::Active(Ok(None)));
    runtime.steal_slot = true;
    runtime.fail = vec![StarAction::StopNap];
    let error = runtime.run(saga).unwrap_err();
    assert_eq!(
        error.message(),
        "BlueRoute host runtime changed unexpectedly while creating a network"
    );
    assert_eq!(
        &runtime.steps[runtime.steps.len() - 4..],
        &[StarAction::StopAdvertisement, StarAction::StopNap, StarAction::RemoveAddress, StarAction::RemoveBridge]
    );
    assert_eq!(
        error.diagnostic(),
        Some("no original diagnostic; runtime rollback also failed: failed to fully clean up BlueRoute host runtime state; cleanup diagnostic=Some(\"stop NAP: StopNap failed\")")
    );
}

#[test]
fn stopping_takes_the_star_down_and_clears_it() {
    let (_, start, stop) = star(8);
    let mut runtime = Runtime::default();
    runtime.run(start).unwrap();
    runtime.steps.clear();
    runtime.run(stop).unwrap();
    assert_eq!(
        runtime.steps,
        vec![
            StarAction::ReadActive,
            StarAction::StopAdvertisement,
            StarAction::StopNap,
            StarAction::RemoveAddress,
            StarAction::RemoveBridge,
            StarAction::ReadActive,
            StarAction::ClearActive
        ]
    );
    assert!(runtime.active.is_none());
}

#[test]
fn stopping_nothing_or_another_star() {
    let (_, _, stop) = star(9);
    let mut runtime = Runtime::default();
    runtime.run(stop).unwrap();
    assert_eq!(runtime.steps, vec![StarAction::ReadActive]);

    let (_, start, _) = star(10);
    let (_, _, other) = star(11);
    runtime.run(start).unwrap();
    let error = runtime.run(other).unwrap_err();
    assert_eq!(error.message(), "refusing to stop a BlueRoute star owned by another network");
    assert!(runtime.active.is_some());
}

#[test]
fn failed_cleanup_keeps_the_star_recorded() {
    let (_, start, stop) = star(12);
    let mut runtime = Runtime::default();
    runtime.run(start).unwrap();
    runtime.fail = vec![StarAction::StopAdvertisement, StarAction::RemoveAddress];
    let error = runtime.run(stop).unwrap_err();
    assert_eq!(error.kind(), ErrorKind::Internal);
    assert_eq!(
        error.diagnostic(),
        Some("stop discovery advertisement: StopAdvertisement failed; remove address: RemoveAddress failed")
    );
    assert!(runtime.active.is_some());
}

#[test]
fn powered_adapter_selection_takes_the_first_powered() {
    let adapters = vec![adapter("/org/bluez/hci0", false), adapter("/org/bluez/hci1", true)];
    assert_eq!(select_powered_adapter(&adapters).unwrap().as_str(), "/org/bluez/hci1");
    let none = vec![adapter("/org/bluez/hci0", false)];
    assert_eq!(
        select_powered_adapter(&none).unwrap_err().message(),
        "no powered Bluetooth adapter is available to host a BlueRoute NAP"
    );
    assert_eq!(
        select_powered_discovery_adapter(&none).unwrap_err().kind(),
        ErrorKind::AdapterDisabled
    );
}

#[test]
fn rollback_errors_keep_the_original_failure() {
    let original = CoreError::with_diagnostic(ErrorKind::PanFailure, "nap failed", "busy");
    let same = attach_cleanup_failures(original.clone(), &Vec::new());
    assert_eq!(same.diagnostic(), Some("busy"));
    let joined = attach_cleanup_failures(
        original.clone(),
        &vec!["stop NAP: a".to_string(), "remove bridge: b".to_string()],
    );
    assert_eq!(joined.kind(), ErrorKind::PanFailure);
    assert_eq!(
        joined.diagnostic(),
        Some("busy; runtime rollback failures: stop NAP: a; remove bridge: b")
    );
    assert!(cleanup_outcome(&Vec::new()).is_ok());
    let kept = rollback_active_host_error(original.clone(), Ok(()));
    assert_eq!(kept.message(), "nap failed");
    let stopped = discovery_rollback_error(
        CoreError::new(ErrorKind::InvalidState, "slot taken"),
        Err(CoreError::new(ErrorKind::BluezUnavailable, "gone")),
    );
    assert_eq!(
        stopped.diagnostic(),
        Some("no discovery diagnostic; discovery rollback also failed: gone")
    );
}
