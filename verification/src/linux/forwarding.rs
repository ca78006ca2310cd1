use vstd::prelude::*;

use crate::domain::error::{CoreError, ErrorKind};
use crate::text::{
    chars_of, chars_match, debug_quoted, lemma_first_newline_is, lines_of, push_str, str_debug,
    strip_carriage_return, string_from_chars, text_lines, trim_bounds, trim_chars,
};

verus! {

/// What BlueRoute remembers while it holds IPv4 forwarding enabled: the value before it did.
#[derive(Clone, Copy, Debug, PartialEq, Eq, Structural)]
pub struct ForwardingLease {
    pub baseline: bool,
}

pub open spec fn lease_text(lease: ForwardingLease) -> Seq<char> {
    "schema=1\nbaseline="@ + (if lease.baseline {
        "1"@
    } else {
        "0"@
    }) + "\n"@
}

/// The lease that a text holds, or why it holds none: `Err(true)` for a malformed or
/// unsupported schema, `Err(false)` for an invalid baseline.
pub open spec fn lease_parse(contents: Seq<char>) -> Result<bool, bool> {
    let lines = text_lines(contents);
    if lines.len() == 0 || lines[0] != "schema=1"@ || lines.len() > 2 {
        Err(true)
    } else if lines.len() == 2 && lines[1] == "baseline=0"@ {
        Ok(false)
    } else if lines.len() == 2 && lines[1] == "baseline=1"@ {
        Ok(true)
    } else {
        Err(false)
    }
}

impl ForwardingLease {
    /// The lease file's text.
    pub fn serialize(self) -> (text: String)
        ensures
            text@ == lease_text(self),
    {
        let mut text = String::from_str("schema=1\nbaseline=");
        if self.baseline {
            push_str(&mut text, "1");
        } else {
            push_str(&mut text, "0");
        }
        push_str(&mut text, "\n");
        text
    }

    /// Reads a lease file's text; anything but the two expected lines is refused.
    pub fn parse(contents: &str) -> (result: Result<Self, CoreError>)
        ensures
            match (result, lease_parse(contents@)) {
                (Ok(lease), Ok(baseline)) => lease.baseline == baseline,
                (Err(error), Err(malformed)) => error.spec_kind() == ErrorKind::InvalidState
                    && error.spec_diagnostic() == Some(contents@) && error.spec_message() == (
                    if malformed {
                        "BlueRoute IPv4 forwarding lease is malformed or uses an unsupported schema"@
                    } else {
                        "BlueRoute IPv4 forwarding lease has an invalid baseline value"@
                    }),
                _ => false,
            },
    {
        let lines = lines_of(contents);
        proof {
            assert(lines@.len() == text_lines(contents@).len());
            if lines@.len() > 0 {
                assert(lines@[0]@ == text_lines(contents@)[0]);
            }
            if lines@.len() > 1 {
                assert(lines@[1]@ == text_lines(contents@)[1]);
            }
        }
        if lines.len() == 0 || !chars_match(&lines[0], "schema=1") || lines.len() > 2 {
            return Err(
                CoreError::with_diagnostic(
                    ErrorKind::InvalidState,
                    "BlueRoute IPv4 forwarding lease is malformed or uses an unsupported schema",
                    contents,
                ),
            );
        }
        if lines.len() == 2 && chars_match(&lines[1], "baseline=0") {
            return Ok(ForwardingLease { baseline: false });
        }
        if lines.len() == 2 && chars_match(&lines[1], "baseline=1") {
            return Ok(ForwardingLease { baseline: true });
        }
        Err(
            CoreError::with_diagnostic(
                ErrorKind::InvalidState,
                "BlueRoute IPv4 forwarding lease has an invalid baseline value",
                contents,
            ),
        )
    }
}

/// What `serialize` writes, `parse` reads back.
pub proof fn lemma_lease_round_trip(lease: ForwardingLease)
    ensures
        lease_parse(lease_text(lease)) == Ok::<bool, bool>(lease.baseline),
{
    reveal_strlit("schema=1\nbaseline=");
    reveal_strlit("1");
    reveal_strlit("0");
    reveal_strlit("\n");
    reveal_strlit("schema=1");
    reveal_strlit("baseline=0");
    reveal_strlit("baseline=1");
    let s = lease_text(lease);
    assert(s.len() == 20);
    lemma_first_newline_is(s, 8);
    let rest = s.skip(9);
    lemma_first_newline_is(rest, 10);
    assert(rest.skip(11) =~= Seq::<char>::empty());
    assert(text_lines(rest.skip(11)) =~= Seq::<Seq<char>>::empty());
    assert(strip_carriage_return(s.take(8)) =~= "schema=1"@);
    if lease.baseline {
        assert(strip_carriage_return(rest.take(10)) =~= "baseline=1"@);
    } else {
        assert(strip_carriage_return(rest.take(10)) =~= "baseline=0"@);
    }
    assert(text_lines(rest) =~= seq![strip_carriage_return(rest.take(10))]);
    assert(text_lines(s).len() == 2);
}

/// The value of the kernel's forwarding switch that a text holds once trimmed.
pub open spec fn forwarding_value(text: Seq<char>) -> Option<bool> {
    if trim_chars(text) == "0"@ {
        Some(false)
    } else if trim_chars(text) == "1"@ {
        Some(true)
    } else {
        None
    }
}

/// Reads the kernel forwarding switch's text, read from `path`: "0" or "1" once trimmed.
pub fn parse_forwarding_value(text: &str, path: &str) -> (result: Result<bool, CoreError>)
    ensures
        match result {
            Ok(value) => forwarding_value(text@) == Some(value),
            Err(error) => forwarding_value(text@) is None && error.spec_kind()
                == ErrorKind::InvalidState && error.spec_message()
                == "kernel IPv4 forwarding state is not 0 or 1"@ && error.spec_diagnostic() == Some(
                "path="@ + path@ + " value="@ + str_debug(trim_chars(text@)),
            ),
        },
{
    let chars = chars_of(text);
    let (start, end) = trim_bounds(&chars);
    let trimmed = string_from_chars(&chars, start, end);
    let trimmed_chars = chars_of(trimmed.as_str());
    if chars_match(&trimmed_chars, "0") {
        return Ok(false);
    }
    if chars_match(&trimmed_chars, "1") {
        return Ok(true);
    }
    let mut diagnostic = String::from_str("path=");
    push_str(&mut diagnostic, path);
    push_str(&mut diagnostic, " value=");
    let quoted = debug_quoted(trimmed.as_str());
    push_str(&mut diagnostic, quoted.as_str());
    Err(
        CoreError::from_parts(
            ErrorKind::InvalidState,
            String::from_str("kernel IPv4 forwarding state is not 0 or 1"),
            Some(diagnostic),
        ),
    )
}

/// The detail of an error: its diagnostic when it has one, its message otherwise.
pub open spec fn error_detail(error: CoreError) -> Seq<char> {
    match error.spec_diagnostic() {
        Some(text) => text,
        None => error.spec_message(),
    }
}

pub fn error_detail_text(error: &CoreError) -> (text: String)
    ensures
        text@ == error_detail(*error),
{
    match error.diagnostic() {
        Some(text) => String::from_str(text),
        None => error.to_string(),
    }
}

/// The error for a failed forwarding write whose lease could not be rolled back either.
pub fn lease_rollback_failure(write_error: &CoreError, cleanup_error: &CoreError) -> (error:
    CoreError)
    ensures
        error.spec_kind() == ErrorKind::NetworkBackendUnavailable,
        error.spec_message()
            == "failed to enable IPv4 forwarding and could not roll back the BlueRoute forwarding lease"@,
        error.spec_diagnostic() == Some(
            "write-error="@ + error_detail(*write_error) + "; lease-cleanup-error="@ + error_detail(
                *cleanup_error,
            ),
        ),
{
    let mut diagnostic = String::from_str("write-error=");
    let write_detail = error_detail_text(write_error);
    push_str(&mut diagnostic, write_detail.as_str());
    push_str(&mut diagnostic, "; lease-cleanup-error=");
    let cleanup_detail = error_detail_text(cleanup_error);
    push_str(&mut diagnostic, cleanup_detail.as_str());
    CoreError::from_parts(
        ErrorKind::NetworkBackendUnavailable,
        String::from_str(
            "failed to enable IPv4 forwarding and could not roll back the BlueRoute forwarding lease",
        ),
        Some(diagnostic),
    )
}

/// Where a request to enable or release IPv4 forwarding stands.
#[derive(Debug)]
pub enum ForwardingState {
    /// Enabling: read the kernel switch.
    EnableReadCurrent,
    /// Enabling: read the lease, with the switch's current value.
    EnableReadLease { current: bool },
    /// Enabling: no lease exists; create one with the current value as baseline.
    EnableCreateLease { current: bool },
    /// Enabling: write 1 to the switch; `created` tells whether this request made the lease.
    EnableWrite { created: bool },
    /// Enabling failed to write; remove the lease this request made, then report `error`.
    EnableRollback { error: CoreError },
    /// Enabling: read the switch back to confirm the write.
    EnableVerify { created: bool },
    /// Enabling did not take effect; remove the lease this request made.
    EnableVerifyRollback,
    /// Releasing: read the lease.
    ReleaseReadLease,
    /// Releasing: read the switch, with the lease's baseline.
    ReleaseReadCurrent { baseline: bool },
    /// Releasing: write 0 to the switch.
    ReleaseWrite,
    /// Releasing: read the switch back to confirm the write.
    ReleaseVerify,
    /// Releasing: remove the lease.
    ReleaseRemoveLease,
    /// Done, with the request's result.
    Finished(Result<(), CoreError>),
}

/// The outside work the current state asks for.
#[derive(Clone, Copy, Debug, PartialEq, Eq, Structural)]
pub enum ForwardingAction {
    ReadForwarding,
    ReadLease,
    CreateLease(ForwardingLease),
    WriteForwarding(bool),
    RemoveLease,
    Finish,
}

/// What the outside work gave back.
#[derive(Debug)]
pub enum ForwardingOutcome {
    Forwarding(Result<bool, CoreError>),
    Lease(Result<Option<ForwardingLease>, CoreError>),
    LeaseCreated(Result<ForwardingLease, CoreError>),
    Written(Result<(), CoreError>),
    LeaseRemoved(Result<(), CoreError>),
}

/// The state belongs to a release request (or is finished).
pub open spec fn releasing(state: ForwardingState) -> bool {
    match state {
        ForwardingState::ReleaseReadLease
        | ForwardingState::ReleaseReadCurrent { .. }
        | ForwardingState::ReleaseWrite
        | ForwardingState::ReleaseVerify
        | ForwardingState::ReleaseRemoveLease
        | ForwardingState::Finished(_) => true,
        _ => false,
    }
}

/// The state belongs to an enable request (or is finished).
pub open spec fn enabling(state: ForwardingState) -> bool {
    !releasing(state) || state is Finished
}

pub open spec fn action_of(state: ForwardingState) -> ForwardingAction {
    match state {
        ForwardingState::EnableReadCurrent => ForwardingAction::ReadForwarding,
        ForwardingState::EnableReadLease { .. } => ForwardingAction::ReadLease,
        ForwardingState::EnableCreateLease { current } => ForwardingAction::CreateLease(
            ForwardingLease { baseline: current },
        ),
        ForwardingState::EnableWrite { .. } => ForwardingAction::WriteForwarding(true),
        ForwardingState::EnableRollback { .. } => ForwardingAction::RemoveLease,
        ForwardingState::EnableVerify { .. } => ForwardingAction::ReadForwarding,
        ForwardingState::EnableVerifyRollback => ForwardingAction::RemoveLease,
        ForwardingState::ReleaseReadLease => ForwardingAction::ReadLease,
        ForwardingState::ReleaseReadCurrent { .. } => ForwardingAction::ReadForwarding,
        ForwardingState::ReleaseWrite => ForwardingAction::WriteForwarding(false),
        ForwardingState::ReleaseVerify => ForwardingAction::ReadForwarding,
        ForwardingState::ReleaseRemoveLease => ForwardingAction::RemoveLease,
        ForwardingState::Finished(_) => ForwardingAction::Finish,
    }
}

/// `next` is a finished state with an error of this kind and message, and no diagnostic.
pub open spec fn fails_with(next: ForwardingState, kind: ErrorKind, message: Seq<char>) -> bool {
    match next {
        ForwardingState::Finished(Err(error)) => error.spec_kind() == kind && error.spec_message()
            == message && error.spec_diagnostic() is None,
        _ => false,
    }
}

pub open spec fn not_enabled_message() -> Seq<char> {
    "kernel IPv4 forwarding did not become enabled after the requested write"@
}

pub open spec fn still_enabled_message() -> Seq<char> {
    "kernel IPv4 forwarding remained enabled while releasing the BlueRoute forwarding lease"@
}

pub open spec fn mismatch_message() -> Seq<char> {
    "IPv4 forwarding step received the outcome of a different action"@
}

/// How a state moves on with the outcome of its action.
pub open spec fn forwarding_step(state: ForwardingState, outcome: ForwardingOutcome, next: ForwardingState) -> bool {
    match (state, outcome) {
        (ForwardingState::Finished(result), _) => next == ForwardingState::Finished(result),
        (ForwardingState::EnableReadCurrent, ForwardingOutcome::Forwarding(read)) => match read {
            Err(error) => next == ForwardingState::Finished(Err(error)),
            Ok(current) => next == ForwardingState::EnableReadLease { current },
        },
        (ForwardingState::EnableReadLease { current }, ForwardingOutcome::Lease(read)) => match read {
            Err(error) => next == ForwardingState::Finished(Err(error)),
            Ok(Some(_)) => next == if current {
                ForwardingState::Finished(Ok(()))
            } else {
                ForwardingState::EnableWrite { created: false }
            },
            Ok(None) => next == ForwardingState::EnableCreateLease { current },
        },
        (ForwardingState::EnableCreateLease { current }, ForwardingOutcome::LeaseCreated(created)) => match created {
            Err(error) => next == ForwardingState::Finished(Err(error)),
            Ok(_) => next == if current {
                ForwardingState::Finished(Ok(()))
            } else {
                ForwardingState::EnableWrite { created: true }
            },
        },
        (ForwardingState::EnableWrite { created }, ForwardingOutcome::Written(written)) => match written {
            Err(error) => next == if created {
                ForwardingState::EnableRollback { error }
            } else {
                ForwardingState::Finished(Err(error))
            },
            Ok(()) => next == ForwardingState::EnableVerify { created },
        },
        (ForwardingState::EnableRollback { error }, ForwardingOutcome::LeaseRemoved(removed)) => match removed {
            Ok(()) => next == ForwardingState::Finished(Err(error)),
            Err(cleanup) => match next {
                ForwardingState::Finished(Err(combined)) => combined.spec_kind()
                    == ErrorKind::NetworkBackendUnavailable && combined.spec_message()
                    == "failed to enable IPv4 forwarding and could not roll back the BlueRoute forwarding lease"@
                    && combined.spec_diagnostic() == Some(
                    "write-error="@ + error_detail(error) + "; lease-cleanup-error="@ + error_detail(cleanup),
                ),
                _ => false,
            },
        },
        (ForwardingState::EnableVerify { created }, ForwardingOutcome::Forwarding(read)) => match read {
            Err(error) => next == ForwardingState::Finished(Err(error)),
            Ok(true) => next == ForwardingState::Finished(Ok(())),
            Ok(false) => if created {
                next == ForwardingState::EnableVerifyRollback
            } else {
                fails_with(next, ErrorKind::NetworkBackendUnavailable, not_enabled_message())
            },
        },
        (ForwardingState::EnableVerifyRollback, ForwardingOutcome::LeaseRemoved(removed)) => match removed {
            Err(error) => next == ForwardingState::Finished(Err(error)),
            Ok(()) => fails_with(next, ErrorKind::NetworkBackendUnavailable, not_enabled_message()),
        },
        (ForwardingState::ReleaseReadLease, ForwardingOutcome::Lease(read)) => match read {
            Err(error) => next == ForwardingState::Finished(Err(error)),
            Ok(None) => next == ForwardingState::Finished(Ok(())),
            Ok(Some(lease)) => next == ForwardingState::ReleaseReadCurrent { baseline: lease.baseline },
        },
        (ForwardingState::ReleaseReadCurrent { baseline }, ForwardingOutcome::Forwarding(read)) => match read {
            Err(error) => next == ForwardingState::Finished(Err(error)),
            Ok(current) => next == if current && !baseline {
                ForwardingState::ReleaseWrite
            } else {
                ForwardingState::ReleaseRemoveLease
            },
        },
        (ForwardingState::ReleaseWrite, ForwardingOutcome::Written(written)) => match written {
            Err(error) => next == ForwardingState::Finished(Err(error)),
            Ok(()) => next == ForwardingState::ReleaseVerify,
        },
        (ForwardingState::ReleaseVerify, ForwardingOutcome::Forwarding(read)) => match read {
            Err(error) => next == ForwardingState::Finished(Err(error)),
            Ok(true) => fails_with(next, ErrorKind::NetworkBackendUnavailable, still_enabled_message()),
            Ok(false) => next == ForwardingState::ReleaseRemoveLease,
        },
        (ForwardingState::ReleaseRemoveLease, ForwardingOutcome::LeaseRemoved(removed)) => next
            == ForwardingState::Finished(removed),
        _ => fails_with(next, ErrorKind::Internal, mismatch_message()),
    }
}

impl ForwardingState {
    /// The first state of a request to enable (`true`) or release (`false`) forwarding.
    pub fn start(enabled: bool) -> (state: Self)
        ensures
            state == if enabled {
                ForwardingState::EnableReadCurrent
            } else {
                ForwardingState::ReleaseReadLease
            },
    {
        if enabled {
            ForwardingState::EnableReadCurrent
        } else {
            ForwardingState::ReleaseReadLease
        }
    }

    /// The outside work this state asks for. A release never asks to write 1 and an enable
    /// never asks to write 0.
    pub fn action(&self) -> (action: ForwardingAction)
        ensures
            action == action_of(*self),
            releasing(*self) ==> action != ForwardingAction::WriteForwarding(true),
            enabling(*self) ==> action != ForwardingAction::WriteForwarding(false),
    {
        match self {
            ForwardingState::EnableReadCurrent => ForwardingAction::ReadForwarding,
            ForwardingState::EnableReadLease { .. } => ForwardingAction::ReadLease,
            ForwardingState::EnableCreateLease { current } => ForwardingAction::CreateLease(
                ForwardingLease { baseline: *current },
            ),
            ForwardingState::EnableWrite { .. } => ForwardingAction::WriteForwarding(true),
            ForwardingState::EnableRollback { .. } => ForwardingAction::RemoveLease,
            ForwardingState::EnableVerify { .. } => ForwardingAction::ReadForwarding,
            ForwardingState::EnableVerifyRollback => ForwardingAction::RemoveLease,
            ForwardingState::ReleaseReadLease => ForwardingAction::ReadLease,
            ForwardingState::ReleaseReadCurrent { .. } => ForwardingAction::ReadForwarding,
            ForwardingState::ReleaseWrite => ForwardingAction::WriteForwarding(false),
            ForwardingState::ReleaseVerify => ForwardingAction::ReadForwarding,
            ForwardingState::ReleaseRemoveLease => ForwardingAction::RemoveLease,
            ForwardingState::Finished(_) => ForwardingAction::Finish,
        }
    }

    /// Moves on with the outcome of the current action. A release stays a release and an
    /// enable stays an enable.
    pub fn advance(self, outcome: ForwardingOutcome) -> (next: Self)
        ensures
            forwarding_step(self, outcome, next),
            releasing(self) ==> releasing(next),
            enabling(self) ==> enabling(next),
    {
        match (self, outcome) {
            (ForwardingState::Finished(result), _) => ForwardingState::Finished(result),
            (ForwardingState::EnableReadCurrent, ForwardingOutcome::Forwarding(read)) => match read {
                Err(error) => ForwardingState::Finished(Err(error)),
                Ok(current) => ForwardingState::EnableReadLease { current },
            },
            (ForwardingState::EnableReadLease { current }, ForwardingOutcome::Lease(read)) => match read {
                Err(error) => ForwardingState::Finished(Err(error)),
                Ok(Some(_)) => if current {
                    ForwardingState::Finished(Ok(()))
                } else {
                    ForwardingState::EnableWrite { created: false }
                },
                Ok(None) => ForwardingState::EnableCreateLease { current },
            },
            (ForwardingState::EnableCreateLease { current }, ForwardingOutcome::LeaseCreated(created)) => match created {
                Err(error) => ForwardingState::Finished(Err(error)),
                Ok(_) => if current {
                    ForwardingState::Finished(Ok(()))
                } else {
                    ForwardingState::EnableWrite { created: true }
                },
            },
            (ForwardingState::EnableWrite { created }, ForwardingOutcome::Written(written)) => match written {
                Err(error) => if created {
                    ForwardingState::EnableRollback { error }
                } else {
                    ForwardingState::Finished(Err(error))
                },
                Ok(()) => ForwardingState::EnableVerify { created },
            },
            (ForwardingState::EnableRollback { error }, ForwardingOutcome::LeaseRemoved(removed)) => match removed {
                Ok(()) => ForwardingState::Finished(Err(error)),
                Err(cleanup) => ForwardingState::Finished(Err(lease_rollback_failure(&error, &cleanup))),
            },
            (ForwardingState::EnableVerify { created }, ForwardingOutcome::Forwarding(read)) => match read {
                Err(error) => ForwardingState::Finished(Err(error)),
                Ok(true) => ForwardingState::Finished(Ok(())),
                Ok(false) => if created {
                    ForwardingState::EnableVerifyRollback
                } else {
                    ForwardingState::Finished(Err(CoreError::new(
                        ErrorKind::NetworkBackendUnavailable,
                        "kernel IPv4 forwarding did not become enabled after the requested write",
                    )))
                },
            },
            (ForwardingState::EnableVerifyRollback, ForwardingOutcome::LeaseRemoved(removed)) => match removed {
                Err(error) => ForwardingState::Finished(Err(error)),
                Ok(()) => ForwardingState::Finished(Err(CoreError::new(
                    ErrorKind::NetworkBackendUnavailable,
                    "kernel IPv4 forwarding did not become enabled after the requested write",
                ))),
            },
            (ForwardingState::ReleaseReadLease, ForwardingOutcome::Lease(read)) => match read {
                Err(error) => ForwardingState::Finished(Err(error)),
                Ok(None) => ForwardingState::Finished(Ok(())),
                Ok(Some(lease)) => ForwardingState::ReleaseReadCurrent { baseline: lease.baseline },
            },
            (ForwardingState::ReleaseReadCurrent { baseline }, ForwardingOutcome::Forwarding(read)) => match read {
                Err(error) => ForwardingState::Finished(Err(error)),
                Ok(current) => if current && !baseline {
                    ForwardingState::ReleaseWrite
                } else {
                    ForwardingState::ReleaseRemoveLease
                },
            },
            (ForwardingState::ReleaseWrite, ForwardingOutcome::Written(written)) => match written {
                Err(error) => ForwardingState::Finished(Err(error)),
                Ok(()) => ForwardingState::ReleaseVerify,
            },
            (ForwardingState::ReleaseVerify, ForwardingOutcome::Forwarding(read)) => match read {
                Err(error) => ForwardingState::Finished(Err(error)),
                Ok(true) => ForwardingState::Finished(Err(CoreError::new(
                    ErrorKind::NetworkBackendUnavailable,
                    "kernel IPv4 forwarding remained enabled while releasing the BlueRoute forwarding lease",
                ))),
                Ok(false) => ForwardingState::ReleaseRemoveLease,
            },
            (ForwardingState::ReleaseRemoveLease, ForwardingOutcome::LeaseRemoved(removed)) => {
                ForwardingState::Finished(removed)
            },
            _ => ForwardingState::Finished(Err(CoreError::new(
                ErrorKind::Internal,
                "IPv4 forwarding step received the outcome of a different action",
            ))),
        }
    }

    /// The request's result once finished.
    pub fn result(self) -> (result: Option<Result<(), CoreError>>)
        ensures
            match self {
                ForwardingState::Finished(done) => result == Some(done),
                _ => result is None,
            },
    {
        match self {
            ForwardingState::Finished(done) => Some(done),
            _ => None,
        }
    }
}

} // verus!
