use vstd::prelude::*;

use crate::daemon::join_network::joined;
use crate::domain::error::{CoreError, ErrorKind};
use crate::domain::id::NetworkId;
use crate::linux::handles::{AdapterHandle, BluetoothAdapter, InterfaceAddress, NetworkInterfaceHandle};
use crate::linux::network_discovery::NetworkAdvertisement;
use crate::linux::networkmanager::option_debug;
use crate::text::{debug_quoted, push_str};

verus! {

/// The texts of a list of failures.
pub open spec fn texts(failures: Seq<String>) -> Seq<Seq<char>> {
    failures.map_values(|text: String| text@)
}

/// Appends `label` and the error's message to `failures` when `result` failed.
pub fn note_failure(failures: &mut Vec<String>, label: &str, result: &Result<(), CoreError>)
    ensures
        texts(final(failures)@) == texts(old(failures)@) + match result {
            Err(error) => seq![label@ + error.spec_message()],
            Ok(()) => Seq::<Seq<char>>::empty(),
        },
{
    match result {
        Err(error) => {
            let mut text = String::from_str(label);
            push_str(&mut text, error.message());
            let ghost before = failures@;
            failures.push(text);
            assert(texts(failures@) =~= texts(before) + seq![label@ + error.spec_message()]);
        },
        Ok(()) => {
            assert(texts(failures@) =~= texts(failures@) + Seq::<Seq<char>>::empty());
        },
    }
}

/// Appends the failures joined with "; ".
pub fn push_joined(text: &mut String, failures: &Vec<String>)
    ensures
        final(text)@ == old(text)@ + joined(texts(failures@)),
{
    let ghost head = text@;
    let ghost views = texts(failures@);
    let mut i: usize = 0;
    assert(views.take(0) =~= Seq::<Seq<char>>::empty());
    while i < failures.len()
        invariant
            i <= failures@.len(),
            views == texts(failures@),
            text@ == head + joined(views.take(i as int)),
        decreases failures@.len() - i,
    {
        if i > 0 {
            push_str(text, "; ");
        }
        push_str(text, failures[i].as_str());
        proof {
            assert(views.take(i + 1).drop_last() =~= views.take(i as int));
            assert(views.take(i + 1).last() == views[i as int]);
            if i == 0 {
                assert(views.take(1) =~= seq![views[0]]);
            }
            assert(text@ =~= head + joined(views.take(i + 1)));
        }
        i += 1;
    }
    assert(views.take(views.len() as int) =~= views);
}

/// The diagnostic of an error, or `fallback` when it has none.
pub open spec fn diagnostic_or(error: CoreError, fallback: Seq<char>) -> Seq<char> {
    match error.spec_diagnostic() {
        Some(text) => text,
        None => fallback,
    }
}

/// A setup failure reported together with the rollback steps that failed too.
pub open spec fn with_rollback_failures(error: CoreError, original: CoreError, failures: Seq<Seq<char>>) -> bool {
    if failures.len() == 0 {
        error == original
    } else {
        &&& error.spec_kind() == original.spec_kind()
        &&& error.spec_message() == original.spec_message()
        &&& error.spec_diagnostic() == Some(
            diagnostic_or(original, "no original diagnostic"@) + "; runtime rollback failures: "@
                + joined(failures),
        )
    }
}

/// Adds the failed rollback steps to a setup failure's diagnostic, so none is lost.
pub fn attach_cleanup_failures(original: CoreError, failures: &Vec<String>) -> (error: CoreError)
    ensures
        with_rollback_failures(error, original, texts(failures@)),
{
    if failures.len() == 0 {
        return original;
    }
    let mut diagnostic = match original.diagnostic() {
        Some(text) => String::from_str(text),
        None => String::from_str("no original diagnostic"),
    };
    push_str(&mut diagnostic, "; runtime rollback failures: ");
    push_joined(&mut diagnostic, failures);
    CoreError::from_parts(original.kind(), String::from_str(original.message()), Some(diagnostic))
}

/// The result of cleaning up a hosted star: failed steps make it an `Internal` error that
/// lists them.
pub open spec fn cleanup_result(result: Result<(), CoreError>, failures: Seq<Seq<char>>) -> bool {
    if failures.len() == 0 {
        result is Ok
    } else {
        match result {
            Err(error) => error.spec_kind() == ErrorKind::Internal && error.spec_message()
                == "failed to fully clean up BlueRoute host runtime state"@ && error.spec_diagnostic()
                == Some(joined(failures)),
            Ok(()) => false,
        }
    }
}

pub fn cleanup_outcome(failures: &Vec<String>) -> (result: Result<(), CoreError>)
    ensures
        cleanup_result(result, texts(failures@)),
{
    if failures.len() == 0 {
        return Ok(());
    }
    let mut diagnostic = String::new();
    push_joined(&mut diagnostic, failures);
    Err(
        CoreError::from_parts(
            ErrorKind::Internal,
            String::from_str("failed to fully clean up BlueRoute host runtime state"),
            Some(diagnostic),
        ),
    )
}

/// A failure to install a started star, reported with the failure of its cleanup, if any.
pub open spec fn with_cleanup_failure(error: CoreError, original: CoreError, cleanup: Result<(), CoreError>) -> bool {
    match cleanup {
        Ok(_) => error == original,
        Err(failed) => {
            &&& error.spec_kind() == original.spec_kind()
            &&& error.spec_message() == original.spec_message()
            &&& error.spec_diagnostic() == Some(
                diagnostic_or(original, "no original diagnostic"@) + "; runtime rollback also failed: "@
                    + failed.spec_message() + "; cleanup diagnostic="@ + option_debug(
                    failed.spec_diagnostic(),
                ),
            )
        },
    }
}

pub fn rollback_active_host_error(original: CoreError, cleanup: Result<(), CoreError>) -> (error: CoreError)
    ensures
        with_cleanup_failure(error, original, cleanup),
{
    match cleanup {
        Ok(()) => original,
        Err(failed) => {
            let mut diagnostic = match original.diagnostic() {
                Some(text) => String::from_str(text),
                None => String::from_str("no original diagnostic"),
            };
            push_str(&mut diagnostic, "; runtime rollback also failed: ");
            push_str(&mut diagnostic, failed.message());
            push_str(&mut diagnostic, "; cleanup diagnostic=");
            match failed.diagnostic() {
                None => push_str(&mut diagnostic, "None"),
                Some(text) => {
                    push_str(&mut diagnostic, "Some(");
                    let quoted = debug_quoted(text);
                    push_str(&mut diagnostic, quoted.as_str());
                    push_str(&mut diagnostic, ")");
                },
            }
            assert(diagnostic@ =~= diagnostic_or(original, "no original diagnostic"@)
                + "; runtime rollback also failed: "@ + failed.spec_message() + "; cleanup diagnostic="@
                + option_debug(failed.spec_diagnostic()));
            CoreError::from_parts(original.kind(), String::from_str(original.message()), Some(diagnostic))
        },
    }
}

/// The index of the first powered adapter, if any.
pub open spec fn first_powered_index(adapters: Seq<BluetoothAdapter>) -> Option<int>
    decreases adapters.len(),
{
    if adapters.len() == 0 {
        None
    } else {
        match first_powered_index(adapters.drop_last()) {
            Some(i) => Some(i),
            None => if adapters.last().powered {
                Some(adapters.len() - 1)
            } else {
                None
            },
        }
    }
}

proof fn lemma_first_powered_step(adapters: Seq<BluetoothAdapter>, i: int)
    requires
        0 <= i < adapters.len(),
        first_powered_index(adapters.take(i)) is None,
    ensures
        first_powered_index(adapters.take(i + 1)) == if adapters[i].powered {
            Some(i)
        } else {
            None::<int>
        },
{
    assert(adapters.take(i + 1).drop_last() =~= adapters.take(i));
}

proof fn lemma_first_powered_prefix(adapters: Seq<BluetoothAdapter>, i: int, n: int)
    requires
        0 <= i < n <= adapters.len(),
        first_powered_index(adapters.take(i + 1)) == Some(i),
    ensures
        first_powered_index(adapters.take(n)) == Some(i),
    decreases n - i,
{
    if n > i + 1 {
        lemma_first_powered_prefix(adapters, i, n - 1);
        assert(adapters.take(n).drop_last() =~= adapters.take(n - 1));
    }
}

/// The first powered adapter's handle.
fn first_powered(adapters: &Vec<BluetoothAdapter>) -> (found: Option<AdapterHandle>)
    ensures
        match (first_powered_index(adapters@), found) {
            (Some(i), Some(handle)) => handle@ == adapters@[i].handle@,
            (None, None) => true,
            _ => false,
        },
{
    let mut i: usize = 0;
    assert(adapters@.take(0) =~= Seq::<BluetoothAdapter>::empty());
    while i < adapters.len()
        invariant
            i <= adapters@.len(),
            first_powered_index(adapters@.take(i as int)) is None,
        decreases adapters@.len() - i,
    {
        proof {
            lemma_first_powered_step(adapters@, i as int);
        }
        if adapters[i].powered {
            proof {
                lemma_first_powered_prefix(adapters@, i as int, adapters@.len() as int);
                assert(adapters@.take(adapters@.len() as int) =~= adapters@);
            }
            return Some(adapters[i].handle.duplicate());
        }
        i += 1;
    }
    assert(adapters@.take(adapters@.len() as int) =~= adapters@);
    None
}

/// The adapter to host a NAP on: the first powered one.
pub fn select_powered_adapter(adapters: &Vec<BluetoothAdapter>) -> (result: Result<AdapterHandle, CoreError>)
    ensures
        match (first_powered_index(adapters@), result) {
            (Some(i), Ok(handle)) => handle@ == adapters@[i].handle@,
            (None, Err(error)) => error.spec_kind() == ErrorKind::AdapterDisabled && error.spec_message()
                == "no powered Bluetooth adapter is available to host a BlueRoute NAP"@,
            _ => false,
        },
{
    match first_powered(adapters) {
        Some(handle) => Ok(handle),
        None => Err(
            CoreError::new(
                ErrorKind::AdapterDisabled,
                "no powered Bluetooth adapter is available to host a BlueRoute NAP",
            ),
        ),
    }
}

/// The adapter to discover networks with: the first powered one.
pub fn select_powered_discovery_adapter(adapters: &Vec<BluetoothAdapter>) -> (result: Result<AdapterHandle, CoreError>)
    ensures
        match (first_powered_index(adapters@), result) {
            (Some(i), Ok(handle)) => handle@ == adapters@[i].handle@,
            (None, Err(error)) => error.spec_kind() == ErrorKind::AdapterDisabled && error.spec_message()
                == "no powered Bluetooth adapter is available for BlueRoute discovery"@,
            _ => false,
        },
{
    match first_powered(adapters) {
        Some(handle) => Ok(handle),
        None => Err(
            CoreError::new(
                ErrorKind::AdapterDisabled,
                "no powered Bluetooth adapter is available for BlueRoute discovery",
            ),
        ),
    }
}

/// A failure to install a started discovery, reported with the failure of stopping it, if any.
pub open spec fn with_discovery_rollback(error: CoreError, original: CoreError, stopped: Result<(), CoreError>) -> bool {
    match stopped {
        Ok(()) => error == original,
        Err(failed) => {
            &&& error.spec_kind() == original.spec_kind()
            &&& error.spec_message() == original.spec_message()
            &&& error.spec_diagnostic() == Some(
                diagnostic_or(original, "no discovery diagnostic"@) + "; discovery rollback also failed: "@
                    + failed.spec_message(),
            )
        },
    }
}

pub fn discovery_rollback_error(original: CoreError, stopped: Result<(), CoreError>) -> (error: CoreError)
    ensures
        with_discovery_rollback(error, original, stopped),
{
    match stopped {
        Ok(()) => original,
        Err(failed) => {
            let mut diagnostic = match original.diagnostic() {
                Some(text) => String::from_str(text),
                None => String::from_str("no discovery diagnostic"),
            };
            push_str(&mut diagnostic, "; discovery rollback also failed: ");
            push_str(&mut diagnostic, failed.message());
            CoreError::from_parts(original.kind(), String::from_str(original.message()), Some(diagnostic))
        },
    }
}


/// A hosted star: its network, bridge and address, the adapter that serves its NAP and its
/// discovery advertisement.
#[derive(Clone, Debug)]
pub struct HostedStar {
    pub network: NetworkId,
    pub bridge: NetworkInterfaceHandle,
    pub address: InterfaceAddress,
    pub adapter: AdapterHandle,
    pub advertisement: NetworkAdvertisement,
}

/// The two addresses name the same interface, prefix and owner.
pub open spec fn same_address(a: InterfaceAddress, b: InterfaceAddress) -> bool {
    a.interface@ == b.interface@ && a.prefix == b.prefix && a.owner.0@ == b.owner.0@
}

fn addresses_match(a: &InterfaceAddress, b: &InterfaceAddress) -> (equal: bool)
    ensures
        equal == same_address(*a, *b),
{
    a.interface == b.interface && a.prefix == b.prefix && a.owner == b.owner
}

/// The outside work a hosting step asks for.
#[derive(Clone, Copy, Debug, PartialEq, Eq, Structural)]
pub enum StarAction {
    /// Read which star is hosted now.
    ReadActive,
    /// Connect to BlueZ and NetworkManager.
    Connect,
    ListAdapters,
    EnsureBridge,
    EnsureAddress,
    StartNap,
    StartAdvertisement,
    /// Record the star as hosted.
    StoreActive,
    StopAdvertisement,
    StopNap,
    RemoveAddress,
    RemoveBridge,
    /// Record that no star is hosted.
    ClearActive,
    Finish,
}

/// What the outside work gave back.
#[derive(Debug)]
pub enum StarOutcome {
    Active(Result<Option<HostedStar>, CoreError>),
    Done(Result<(), CoreError>),
    Adapters(Result<Vec<BluetoothAdapter>, CoreError>),
    Advertised(Result<NetworkAdvertisement, CoreError>),
}

/// The next step of taking a whole hosted star down.
#[derive(Clone, Copy, Debug, PartialEq, Eq, Structural)]
pub enum CleanupStep {
    Advertisement,
    Nap,
    Address,
    Bridge,
}

/// Where starting or stopping a hosted star stands.
#[derive(Debug)]
pub enum StarStage {
    /// Starting: is a star hosted already?
    CheckActive,
    Connect,
    SelectAdapter,
    EnsureBridge { adapter: AdapterHandle },
    EnsureAddress { adapter: AdapterHandle },
    StartNap { adapter: AdapterHandle },
    Advertise { adapter: AdapterHandle },
    /// Starting: is the slot still free to record the new star?
    Install { adapter: AdapterHandle, advertisement: NetworkAdvertisement },
    Store { star: HostedStar },
    /// A setup step failed: stop the NAP on `adapter`, then remove the address, then the
    /// bridge.
    UndoNap { primary: CoreError, adapter: AdapterHandle },
    UndoAddress { primary: CoreError, failures: Vec<String> },
    UndoBridge { primary: CoreError, failures: Vec<String> },
    /// Taking a whole star down, after a failed install (with its failure) or when stopping.
    Cleanup { star: HostedStar, step: CleanupStep, failures: Vec<String>, primary: Option<CoreError> },
    /// Stopping: which star is hosted?
    StopCheckActive,
    /// Stopping: is the star still recorded after its cleanup?
    Release,
    Clear,
    Finished(Result<(), CoreError>),
}

/// Starting or stopping the star of `network` on `bridge` with `address`.
#[derive(Debug)]
pub struct StarSaga {
    pub network: NetworkId,
    pub bridge: NetworkInterfaceHandle,
    pub address: InterfaceAddress,
    pub stage: StarStage,
}

pub open spec fn star_action(stage: StarStage) -> StarAction {
    match stage {
        StarStage::CheckActive => StarAction::ReadActive,
        StarStage::Connect => StarAction::Connect,
        StarStage::SelectAdapter => StarAction::ListAdapters,
        StarStage::EnsureBridge { .. } => StarAction::EnsureBridge,
        StarStage::EnsureAddress { .. } => StarAction::EnsureAddress,
        StarStage::StartNap { .. } => StarAction::StartNap,
        StarStage::Advertise { .. } => StarAction::StartAdvertisement,
        StarStage::Install { .. } => StarAction::ReadActive,
        StarStage::Store { .. } => StarAction::StoreActive,
        StarStage::UndoNap { .. } => StarAction::StopNap,
        StarStage::UndoAddress { .. } => StarAction::RemoveAddress,
        StarStage::UndoBridge { .. } => StarAction::RemoveBridge,
        StarStage::Cleanup { step, .. } => match step {
            CleanupStep::Advertisement => StarAction::StopAdvertisement,
            CleanupStep::Nap => StarAction::StopNap,
            CleanupStep::Address => StarAction::RemoveAddress,
            CleanupStep::Bridge => StarAction::RemoveBridge,
        },
        StarStage::StopCheckActive => StarAction::ReadActive,
        StarStage::Release => StarAction::ReadActive,
        StarStage::Clear => StarAction::ClearActive,
        StarStage::Finished(_) => StarAction::Finish,
    }
}

/// A failure text list after one more step: its label and message when it failed.
pub open spec fn noted(failures: Seq<Seq<char>>, label: Seq<char>, result: Result<(), CoreError>) -> Seq<Seq<char>> {
    failures + match result {
        Err(error) => seq![label + error.spec_message()],
        Ok(_) => Seq::<Seq<char>>::empty(),
    }
}

/// `next` is a finished stage with an error of this kind and message.
pub open spec fn star_fails_with(next: StarStage, kind: ErrorKind, message: Seq<char>) -> bool {
    match next {
        StarStage::Finished(Err(error)) => error.spec_kind() == kind && error.spec_message() == message,
        _ => false,
    }
}

/// `star` records the star of `network` on `bridge` with `address`, served by `adapter` and
/// advertised by `advertisement`.
pub open spec fn star_holds(
    star: HostedStar,
    network: NetworkId,
    bridge: NetworkInterfaceHandle,
    address: InterfaceAddress,
    adapter: AdapterHandle,
    advertisement: NetworkAdvertisement,
) -> bool {
    &&& star.network == network
    &&& star.bridge@ == bridge@
    &&& same_address(star.address, address)
    &&& star.adapter == adapter
    &&& star.advertisement == advertisement
}

/// `next` starts taking `star` down, with the failure `primary` to report.
pub open spec fn cleans_up(next: StarStage, star: HostedStar, primary: Option<CoreError>) -> bool {
    match next {
        StarStage::Cleanup { star: s, step, failures, primary: p } => s == star && step
            == CleanupStep::Advertisement && failures@.len() == 0 && p == primary,
        _ => false,
    }
}

pub open spec fn next_cleanup_step(step: CleanupStep) -> CleanupStep {
    match step {
        CleanupStep::Advertisement => CleanupStep::Nap,
        CleanupStep::Nap => CleanupStep::Address,
        _ => CleanupStep::Bridge,
    }
}

pub open spec fn cleanup_label(step: CleanupStep) -> Seq<char> {
    match step {
        CleanupStep::Advertisement => "stop discovery advertisement: "@,
        CleanupStep::Nap => "stop NAP: "@,
        CleanupStep::Address => "remove address: "@,
        CleanupStep::Bridge => "remove bridge: "@,
    }
}

/// How the last cleanup step ends: with the install failure (and the cleanup's, if any), with
/// the cleanup's failure when stopping, or by releasing the recorded star.
pub open spec fn cleanup_finish(next: StarStage, primary: Option<CoreError>, failures: Seq<Seq<char>>) -> bool {
    match primary {
        Some(original) => match next {
            StarStage::Finished(Err(error)) => exists|cleanup: Result<(), CoreError>|
                cleanup_result(cleanup, failures) && with_cleanup_failure(error, original, cleanup),
            _ => false,
        },
        None => if failures.len() == 0 {
            next == StarStage::Release
        } else {
            match next {
                StarStage::Finished(result) => cleanup_result(result, failures),
                _ => false,
            }
        },
    }
}

/// How a hosting step moves on with the outcome of its action.
pub open spec fn star_step(network: NetworkId, bridge: NetworkInterfaceHandle, address: InterfaceAddress, stage: StarStage, outcome: StarOutcome, next: StarStage) -> bool {
    match (stage, outcome) {
        (StarStage::Finished(result), _) => next == StarStage::Finished(result),
        (StarStage::CheckActive, StarOutcome::Active(read)) => match read {
            Err(error) => next == StarStage::Finished(Err(error)),
            Ok(None) => next == StarStage::Connect,
            Ok(Some(star)) => if star.network.0@ == network.0@ {
                next == StarStage::Finished(Ok(()))
            } else {
                star_fails_with(next, ErrorKind::InvalidState, "a different BlueRoute star is already hosted on this daemon"@)
            },
        },
        (StarStage::Connect, StarOutcome::Done(done)) => match done {
            Err(error) => next == StarStage::Finished(Err(error)),
            Ok(_) => next == StarStage::SelectAdapter,
        },
        (StarStage::SelectAdapter, StarOutcome::Adapters(listed)) => match listed {
            Err(error) => next == StarStage::Finished(Err(error)),
            Ok(adapters) => match first_powered_index(adapters@) {
                None => star_fails_with(next, ErrorKind::AdapterDisabled, "no powered Bluetooth adapter is available to host a BlueRoute NAP"@),
                Some(i) => match next {
                    StarStage::EnsureBridge { adapter } => adapter@ == adapters@[i].handle@,
                    _ => false,
                },
            },
        },
        (StarStage::EnsureBridge { adapter }, StarOutcome::Done(done)) => match done {
            Err(error) => next == StarStage::Finished(Err(error)),
            Ok(_) => next == StarStage::EnsureAddress { adapter },
        },
        (StarStage::EnsureAddress { adapter }, StarOutcome::Done(done)) => match done {
            Err(error) => match next {
                StarStage::UndoBridge { primary, failures } => primary == error && failures@.len() == 0,
                _ => false,
            },
            Ok(_) => next == StarStage::StartNap { adapter },
        },
        (StarStage::StartNap { adapter }, StarOutcome::Done(done)) => match done {
            Err(error) => next == StarStage::UndoNap { primary: error, adapter },
            Ok(_) => next == StarStage::Advertise { adapter },
        },
        (StarStage::Advertise { adapter }, StarOutcome::Advertised(advertised)) => match advertised {
            Err(error) => next == StarStage::UndoNap { primary: error, adapter },
            Ok(advertisement) => next == StarStage::Install { adapter, advertisement },
        },
        (StarStage::Install { adapter, advertisement }, StarOutcome::Active(read)) => match read {
            Ok(None) => match next {
                StarStage::Store { star } => star_holds(star, network, bridge, address, adapter, advertisement),
                _ => false,
            },
            _ => match next {
                StarStage::Cleanup { star, step, failures, primary: Some(error) } => {
                    &&& star_holds(star, network, bridge, address, adapter, advertisement)
                    &&& step == CleanupStep::Advertisement
                    &&& failures@.len() == 0
                    &&& match read {
                        Err(failure) => error == failure,
                        _ => error.spec_kind() == ErrorKind::InvalidState && error.spec_message()
                            == "BlueRoute host runtime changed unexpectedly while creating a network"@,
                    }
                },
                _ => false,
            },
        },
        (StarStage::Store { star }, StarOutcome::Done(done)) => match done {
            Ok(_) => next == StarStage::Finished(Ok(())),
            Err(error) => cleans_up(next, star, Some(error)),
        },
        (StarStage::UndoNap { primary, adapter: _ }, StarOutcome::Done(done)) => match next {
            StarStage::UndoAddress { primary: p, failures } => p == primary && texts(failures@)
                == noted(Seq::empty(), "stop NAP: "@, done),
            _ => false,
        },
        (StarStage::UndoAddress { primary, failures }, StarOutcome::Done(done)) => match next {
            StarStage::UndoBridge { primary: p, failures: f } => p == primary && texts(f@) == noted(
                texts(failures@),
                "remove address: "@,
                done,
            ),
            _ => false,
        },
        (StarStage::UndoBridge { primary, failures }, StarOutcome::Done(done)) => match next {
            StarStage::Finished(Err(error)) => with_rollback_failures(
                error,
                primary,
                noted(texts(failures@), "remove bridge: "@, done),
            ),
            _ => false,
        },
        (StarStage::Cleanup { star, step, failures, primary }, StarOutcome::Done(done)) => {
            let after = noted(texts(failures@), cleanup_label(step), done);
            if step == CleanupStep::Bridge {
                cleanup_finish(next, primary, after)
            } else {
                match next {
                    StarStage::Cleanup { star: s, step: n, failures: f, primary: p } => s == star && n
                        == next_cleanup_step(step) && texts(f@) == after && p == primary,
                    _ => false,
                }
            }
        },
        (StarStage::StopCheckActive, StarOutcome::Active(read)) => match read {
            Err(error) => next == StarStage::Finished(Err(error)),
            Ok(None) => next == StarStage::Finished(Ok(())),
            Ok(Some(star)) => if star.network.0@ != network.0@ {
                star_fails_with(next, ErrorKind::InvalidState, "refusing to stop a BlueRoute star owned by another network"@)
            } else if star.bridge@ != bridge@ || !same_address(star.address, address) {
                star_fails_with(next, ErrorKind::InvalidState, "refusing to stop a BlueRoute star with mismatched owned runtime state"@)
            } else {
                cleans_up(next, star, None)
            },
        },
        (StarStage::Release, StarOutcome::Active(read)) => match read {
            Err(error) => next == StarStage::Finished(Err(error)),
            Ok(Some(star)) => if star.network.0@ == network.0@ {
                next == StarStage::Clear
            } else {
                star_fails_with(next, ErrorKind::InvalidState, "BlueRoute host runtime changed unexpectedly during cleanup"@)
            },
            Ok(None) => star_fails_with(next, ErrorKind::InvalidState, "BlueRoute host runtime changed unexpectedly during cleanup"@),
        },
        (StarStage::Clear, StarOutcome::Done(done)) => next == StarStage::Finished(done),
        _ => star_fails_with(next, ErrorKind::Internal, "hosted star step received the outcome of a different action"@),
    }
}

fn changed_during_cleanup() -> (error: CoreError)
    ensures
        error.spec_kind() == ErrorKind::InvalidState,
        error.spec_message() == "BlueRoute host runtime changed unexpectedly during cleanup"@,
{
    CoreError::new(ErrorKind::InvalidState, "BlueRoute host runtime changed unexpectedly during cleanup")
}

fn fresh_cleanup(star: HostedStar, primary: Option<CoreError>) -> (stage: StarStage)
    ensures
        cleans_up(stage, star, primary),
{
    StarStage::Cleanup { star, step: CleanupStep::Advertisement, failures: Vec::new(), primary }
}

impl StarSaga {
    /// Starting to host the star of `network` on `bridge` with `address`.
    pub fn start(network: NetworkId, bridge: NetworkInterfaceHandle, address: InterfaceAddress) -> (saga: Self)
        ensures
            saga.network == network && saga.bridge == bridge && saga.address == address,
            saga.stage == StarStage::CheckActive,
    {
        StarSaga { network, bridge, address, stage: StarStage::CheckActive }
    }

    /// Stopping the star of `network` on `bridge` with `address`.
    pub fn stop(network: NetworkId, bridge: NetworkInterfaceHandle, address: InterfaceAddress) -> (saga: Self)
        ensures
            saga.network == network && saga.bridge == bridge && saga.address == address,
            saga.stage == StarStage::StopCheckActive,
    {
        StarSaga { network, bridge, address, stage: StarStage::StopCheckActive }
    }

    /// The outside work the current stage asks for.
    pub fn action(&self) -> (action: StarAction)
        ensures
            action == star_action(self.stage),
    {
        match &self.stage {
            StarStage::CheckActive => StarAction::ReadActive,
            StarStage::Connect => StarAction::Connect,
            StarStage::SelectAdapter => StarAction::ListAdapters,
            StarStage::EnsureBridge { .. } => StarAction::EnsureBridge,
            StarStage::EnsureAddress { .. } => StarAction::EnsureAddress,
            StarStage::StartNap { .. } => StarAction::StartNap,
            StarStage::Advertise { .. } => StarAction::StartAdvertisement,
            StarStage::Install { .. } => StarAction::ReadActive,
            StarStage::Store { .. } => StarAction::StoreActive,
            StarStage::UndoNap { .. } => StarAction::StopNap,
            StarStage::UndoAddress { .. } => StarAction::RemoveAddress,
            StarStage::UndoBridge { .. } => StarAction::RemoveBridge,
            StarStage::Cleanup { step, .. } => match step {
                CleanupStep::Advertisement => StarAction::StopAdvertisement,
                CleanupStep::Nap => StarAction::StopNap,
                CleanupStep::Address => StarAction::RemoveAddress,
                CleanupStep::Bridge => StarAction::RemoveBridge,
            },
            StarStage::StopCheckActive => StarAction::ReadActive,
            StarStage::Release => StarAction::ReadActive,
            StarStage::Clear => StarAction::ClearActive,
            StarStage::Finished(_) => StarAction::Finish,
        }
    }

    /// Moves on with the outcome of the current action.
    pub fn advance(self, outcome: StarOutcome) -> (next: Self)
        ensures
            next.network == self.network && next.bridge == self.bridge && next.address == self.address,
            star_step(self.network, self.bridge, self.address, self.stage, outcome, next.stage),
    {
        let StarSaga { network, bridge, address, stage } = self;
        let next = match (stage, outcome) {
            (StarStage::Finished(result), _) => StarStage::Finished(result),
            (StarStage::CheckActive, StarOutcome::Active(read)) => match read {
                Err(error) => StarStage::Finished(Err(error)),
                Ok(None) => StarStage::Connect,
                Ok(Some(star)) => if star.network == network {
                    StarStage::Finished(Ok(()))
                } else {
                    StarStage::Finished(Err(CoreError::new(
                        ErrorKind::InvalidState,
                        "a different BlueRoute star is already hosted on this daemon",
                    )))
                },
            },
            (StarStage::Connect, StarOutcome::Done(done)) => match done {
                Err(error) => StarStage::Finished(Err(error)),
                Ok(()) => StarStage::SelectAdapter,
            },
            (StarStage::SelectAdapter, StarOutcome::Adapters(listed)) => match listed {
                Err(error) => StarStage::Finished(Err(error)),
                Ok(adapters) => match select_powered_adapter(&adapters) {
                    Err(error) => StarStage::Finished(Err(error)),
                    Ok(adapter) => StarStage::EnsureBridge { adapter },
                },
            },
            (StarStage::EnsureBridge { adapter }, StarOutcome::Done(done)) => match done {
                Err(error) => StarStage::Finished(Err(error)),
                Ok(()) => StarStage::EnsureAddress { adapter },
            },
            (StarStage::EnsureAddress { adapter }, StarOutcome::Done(done)) => match done {
                Err(error) => StarStage::UndoBridge { primary: error, failures: Vec::new() },
                Ok(()) => StarStage::StartNap { adapter },
            },
            (StarStage::StartNap { adapter }, StarOutcome::Done(done)) => match done {
                Err(error) => StarStage::UndoNap { primary: error, adapter },
                Ok(()) => StarStage::Advertise { adapter },
            },
            (StarStage::Advertise { adapter }, StarOutcome::Advertised(advertised)) => match advertised {
                Err(error) => StarStage::UndoNap { primary: error, adapter },
                Ok(advertisement) => StarStage::Install { adapter, advertisement },
            },
            (StarStage::Install { adapter, advertisement }, StarOutcome::Active(read)) => {
                let star = HostedStar {
                    network,
                    bridge: bridge.duplicate(),
                    address: InterfaceAddress {
                        interface: address.interface.duplicate(),
                        prefix: address.prefix,
                        owner: address.owner,
                    },
                    adapter,
                    advertisement,
                };
                match read {
                    Ok(None) => StarStage::Store { star },
                    Ok(Some(_)) => fresh_cleanup(star, Some(CoreError::new(
                        ErrorKind::InvalidState,
                        "BlueRoute host runtime changed unexpectedly while creating a network",
                    ))),
                    Err(error) => fresh_cleanup(star, Some(error)),
                }
            },
            (StarStage::Store { star }, StarOutcome::Done(done)) => match done {
                Ok(()) => StarStage::Finished(Ok(())),
                Err(error) => fresh_cleanup(star, Some(error)),
            },
            (StarStage::UndoNap { primary, adapter: _ }, StarOutcome::Done(done)) => {
                let mut failures: Vec<String> = Vec::new();
                note_failure(&mut failures, "stop NAP: ", &done);
                StarStage::UndoAddress { primary, failures }
            },
            (StarStage::UndoAddress { primary, mut failures }, StarOutcome::Done(done)) => {
                note_failure(&mut failures, "remove address: ", &done);
                StarStage::UndoBridge { primary, failures }
            },
            (StarStage::UndoBridge { primary, mut failures }, StarOutcome::Done(done)) => {
                note_failure(&mut failures, "remove bridge: ", &done);
                StarStage::Finished(Err(attach_cleanup_failures(primary, &failures)))
            },
            (StarStage::Cleanup { star, step, mut failures, primary }, StarOutcome::Done(done)) => {
                let label = match step {
                    CleanupStep::Advertisement => "stop discovery advertisement: ",
                    CleanupStep::Nap => "stop NAP: ",
                    CleanupStep::Address => "remove address: ",
                    CleanupStep::Bridge => "remove bridge: ",
                };
                proof {
                    reveal_strlit("stop discovery advertisement: ");
                    reveal_strlit("stop NAP: ");
                    reveal_strlit("remove address: ");
                    reveal_strlit("remove bridge: ");
                }
                note_failure(&mut failures, label, &done);
                match step {
                    CleanupStep::Advertisement => StarStage::Cleanup { star, step: CleanupStep::Nap, failures, primary },
                    CleanupStep::Nap => StarStage::Cleanup { star, step: CleanupStep::Address, failures, primary },
                    CleanupStep::Address => StarStage::Cleanup { star, step: CleanupStep::Bridge, failures, primary },
                    CleanupStep::Bridge => {
                        let result = cleanup_outcome(&failures);
                        match primary {
                            Some(original) => StarStage::Finished(Err(rollback_active_host_error(original, result))),
                            None => match result {
                                Ok(()) => StarStage::Release,
                                Err(error) => StarStage::Finished(Err(error)),
                            },
                        }
                    },
                }
            },
            (StarStage::StopCheckActive, StarOutcome::Active(read)) => match read {
                Err(error) => StarStage::Finished(Err(error)),
                Ok(None) => StarStage::Finished(Ok(())),
                Ok(Some(star)) => if star.network != network {
                    StarStage::Finished(Err(CoreError::new(
                        ErrorKind::InvalidState,
                        "refusing to stop a BlueRoute star owned by another network",
                    )))
                } else if star.bridge != bridge || !addresses_match(&star.address, &address) {
                    StarStage::Finished(Err(CoreError::new(
                        ErrorKind::InvalidState,
                        "refusing to stop a BlueRoute star with mismatched owned runtime state",
                    )))
                } else {
                    fresh_cleanup(star, None)
                },
            },
            (StarStage::Release, StarOutcome::Active(read)) => match read {
                Err(error) => StarStage::Finished(Err(error)),
                Ok(Some(star)) => if star.network == network {
                    StarStage::Clear
                } else {
                    StarStage::Finished(Err(changed_during_cleanup()))
                },
                Ok(None) => StarStage::Finished(Err(changed_during_cleanup())),
            },
            (StarStage::Clear, StarOutcome::Done(done)) => StarStage::Finished(done),
            _ => StarStage::Finished(Err(CoreError::new(
                ErrorKind::Internal,
                "hosted star step received the outcome of a different action",
            ))),
        };
        StarSaga { network, bridge, address, stage: next }
    }

    /// The saga's result once finished.
    pub fn result(self) -> (result: Option<Result<(), CoreError>>)
        ensures
            match self.stage {
                StarStage::Finished(done) => result == Some(done),
                _ => result is None,
            },
    {
        match self.stage {
            StarStage::Finished(done) => Some(done),
            _ => None,
        }
    }
}

/// A start or stop succeeds only by recording the new star, by finding the same star hosted
/// already, by finding nothing to stop, or by clearing the star it took down.
pub proof fn lemma_star_success_steps(
    network: NetworkId,
    bridge: NetworkInterfaceHandle,
    address: InterfaceAddress,
    stage: StarStage,
    outcome: StarOutcome,
    next: StarStage,
)
    requires
        star_step(network, bridge, address, stage, outcome, next),
        !(stage is Finished),
        next == StarStage::Finished(Ok(())),
    ensures
        (stage is Store && outcome matches StarOutcome::Done(Ok(_))) || (stage is Clear
            && outcome matches StarOutcome::Done(Ok(_))) || (stage is StopCheckActive
            && outcome matches StarOutcome::Active(Ok(None))) || (stage is CheckActive && match outcome {
            StarOutcome::Active(Ok(Some(star))) => star.network.0@ == network.0@,
            _ => false,
        }),
{
}

/// Once a setup step has failed, or a recorded star must be taken down after a failed
/// install, the saga can only end in failure.
pub proof fn lemma_rollback_never_succeeds(
    network: NetworkId,
    bridge: NetworkInterfaceHandle,
    address: InterfaceAddress,
    stage: StarStage,
    outcome: StarOutcome,
    next: StarStage,
)
    requires
        star_step(network, bridge, address, stage, outcome, next),
        stage is UndoNap || stage is UndoAddress || stage is UndoBridge || (stage is Cleanup
            && stage->Cleanup_primary is Some),
    ensures
        next != StarStage::Finished(Ok(())),
        !(next is Release),
{
}

/// A stop takes down only the star it names: the hosted star's network, bridge and address
/// must all match.
pub proof fn lemma_stop_takes_down_only_its_star(
    network: NetworkId,
    bridge: NetworkInterfaceHandle,
    address: InterfaceAddress,
    outcome: StarOutcome,
    next: StarStage,
)
    requires
        star_step(network, bridge, address, StarStage::StopCheckActive, outcome, next),
        next is Cleanup,
    ensures
        match outcome {
            StarOutcome::Active(Ok(Some(star))) => star.network.0@ == network.0@ && star.bridge@ == bridge@
                && same_address(star.address, address) && next->Cleanup_star == star
                && next->Cleanup_primary is None,
            _ => false,
        },
{
}

} // verus!
