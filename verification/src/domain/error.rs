use vstd::prelude::*;

verus! {

/// High-level error categories exposed by the hardware-independent core.
#[derive(Clone, Copy, Debug, PartialEq, Eq, Structural)]
pub enum ErrorKind {
    UnsupportedRuntime,
    MissingAdapter,
    AdapterDisabled,
    CapabilityUnavailable,
    BluezUnavailable,
    NetworkBackendUnavailable,
    PairingFailed,
    AuthenticationFailed,
    PanFailure,
    AddressConflict,
    RouteFailure,
    TopologyFailure,
    ProtocolError,
    InvalidState,
    InvalidInput,
    PersistenceError,
    Internal,
}

/// A typed core error with a friendly message and optional diagnostic context.
#[derive(Clone, Debug)]
pub struct CoreError {
    kind: ErrorKind,
    message: String,
    diagnostic: Option<String>,
}

/// The abstract content of an optional owned string.
pub open spec fn opt_string_view(value: Option<String>) -> Option<Seq<char>> {
    match value {
        Some(text) => Some(text@),
        None => None,
    }
}

impl CoreError {
    pub closed spec fn spec_kind(&self) -> ErrorKind {
        self.kind
    }

    pub closed spec fn spec_message(&self) -> Seq<char> {
        self.message@
    }

    pub closed spec fn spec_diagnostic(&self) -> Option<Seq<char>> {
        opt_string_view(self.diagnostic)
    }

    pub fn new(kind: ErrorKind, message: &str) -> (error: Self)
        ensures
            error.spec_kind() == kind,
            error.spec_message() == message@,
            error.spec_diagnostic() == None::<Seq<char>>,
    {
        CoreError { kind, message: String::from_str(message), diagnostic: None }
    }

    pub fn with_diagnostic(kind: ErrorKind, message: &str, diagnostic: &str) -> (error: Self)
        ensures
            error.spec_kind() == kind,
            error.spec_message() == message@,
            error.spec_diagnostic() == Some(diagnostic@),
    {
        CoreError {
            kind,
            message: String::from_str(message),
            diagnostic: Some(String::from_str(diagnostic)),
        }
    }

    /// Builds an error from already-owned message parts.
    pub fn from_parts(kind: ErrorKind, message: String, diagnostic: Option<String>) -> (error:
        Self)
        ensures
            error.spec_kind() == kind,
            error.spec_message() == message@,
            error.spec_diagnostic() == opt_string_view(diagnostic),
    {
        CoreError { kind, message, diagnostic }
    }

    #[verifier::when_used_as_spec(spec_kind)]
    pub fn kind(&self) -> (kind: ErrorKind)
        ensures
            kind == self.spec_kind(),
    {
        self.kind
    }

    pub fn message(&self) -> (message: &str)
        ensures
            message@ == self.spec_message(),
    {
        self.message.as_str()
    }

    pub fn diagnostic(&self) -> (diagnostic: Option<&str>)
        ensures
            match diagnostic {
                Some(text) => self.spec_diagnostic() == Some(text@),
                None => self.spec_diagnostic() is None,
            },
    {
        match &self.diagnostic {
            Some(text) => Some(text.as_str()),
            None => None,
        }
    }

    /// The user-facing text of the error: its friendly message.
    pub fn to_string(&self) -> (text: String)
        ensures
            text@ == self.spec_message(),
    {
        self.message.clone()
    }
}

} // verus!
