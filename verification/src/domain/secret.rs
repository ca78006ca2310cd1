use vstd::prelude::*;

verus! {

/// The text shown in place of a secret value.
pub const REDACTED: &'static str = "[REDACTED]";

/// A value that must not be exposed through ordinary formatting.
///
/// The contents are only available through `expose`, which makes disclosure an intentional
/// decision at the call site. Its debug and display texts never include the value.
pub struct Secret<T> {
    value: T,
}

impl<T> Secret<T> {
    pub closed spec fn spec_value(&self) -> T {
        self.value
    }

    pub fn new(value: T) -> (secret: Self)
        ensures
            secret.spec_value() == value,
    {
        Secret { value }
    }

    /// Explicitly borrows the wrapped value.
    pub fn expose(&self) -> (value: &T)
        ensures
            *value == self.spec_value(),
    {
        &self.value
    }

    /// The debug text, which names the wrapper and redacts the contents.
    pub fn debug_text(&self) -> (text: String)
        ensures
            text@ == "Secret(\"[REDACTED]\")"@,
    {
        String::from_str("Secret(\"[REDACTED]\")")
    }

    /// The display text: only the redaction marker.
    pub fn to_string(&self) -> (text: String)
        ensures
            text@ == REDACTED@,
    {
        String::from_str(REDACTED)
    }
}

} // verus!
