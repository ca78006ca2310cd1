use vstd::prelude::*;

use crate::domain::error::{CoreError, ErrorKind};
use crate::domain::hex::{decode_hex_id, encode_hex, hex_encode, hex_id_error, parse_hex_id};
use crate::text::{chars_of, lemma_trim_idempotent, string_from_chars, trim_bounds, trim_chars};
use vstd::string::StringSliceAdditionalSpecFns;

verus! {

/// Number of bytes in every BlueRoute identifier.
pub const ID_BYTES: usize = 16;

/// `a` sorts strictly before `b` in lexicographic byte order.
pub open spec fn lex_lt(a: Seq<u8>, b: Seq<u8>) -> bool {
    exists|i: int|
        0 <= i < a.len() && i < b.len() && a[i] < b[i] && (forall|j: int|
            0 <= j < i ==> #[trigger] a[j] == b[j])
}

/// Lexicographic order on identifier bytes is transitive.
pub proof fn lemma_lex_lt_transitive(a: Seq<u8>, b: Seq<u8>, c: Seq<u8>)
    requires
        lex_lt(a, b),
        lex_lt(b, c),
    ensures
        lex_lt(a, c),
{
    let i = choose|i: int|
        0 <= i < a.len() && i < b.len() && a[i] < b[i] && (forall|j: int|
            0 <= j < i ==> #[trigger] a[j] == b[j]);
    let k = choose|k: int|
        0 <= k < b.len() && k < c.len() && b[k] < c[k] && (forall|j: int|
            0 <= j < k ==> #[trigger] b[j] == c[j]);
    if i < k {
        assert(a[i] < c[i]);
        assert(forall|j: int| 0 <= j < i ==> #[trigger] a[j] == c[j]);
    } else {
        assert(a[k] < c[k] || (i == k && a[k] < c[k]));
        assert(forall|j: int| 0 <= j < k ==> #[trigger] a[j] == c[j]);
    }
}

/// Lexicographic order on identifier bytes is irreflexive and asymmetric.
pub proof fn lemma_lex_lt_asymmetric(a: Seq<u8>, b: Seq<u8>)
    requires
        lex_lt(a, b),
    ensures
        !lex_lt(b, a),
        a != b,
{
    let i = choose|i: int|
        0 <= i < a.len() && i < b.len() && a[i] < b[i] && (forall|j: int|
            0 <= j < i ==> #[trigger] a[j] == b[j]);
    if lex_lt(b, a) {
        let k = choose|k: int|
            0 <= k < b.len() && k < a.len() && b[k] < a[k] && (forall|j: int|
                0 <= j < k ==> #[trigger] b[j] == a[j]);
        if i < k {
            assert(b[i] == a[i]);
        } else if k < i {
            assert(a[k] == b[k]);
        }
    }
}

proof fn lemma_first_difference(a: Seq<u8>, b: Seq<u8>, n: int)
    requires
        0 <= n <= a.len(),
        a.len() == b.len(),
    ensures
        (forall|j: int| 0 <= j < n ==> #[trigger] a[j] == b[j]) || (exists|i: int|
            0 <= i < n && a[i] != b[i] && (forall|j: int| 0 <= j < i ==> #[trigger] a[j] == b[j])),
    decreases n,
{
    if n > 0 {
        lemma_first_difference(a, b, n - 1);
        if forall|j: int| 0 <= j < n - 1 ==> #[trigger] a[j] == b[j] {
            if a[n - 1] != b[n - 1] {
                assert(0 <= n - 1 < n && a[n - 1] != b[n - 1] && (forall|j: int|
                    0 <= j < n - 1 ==> #[trigger] a[j] == b[j]));
            }
        }
    }
}

/// Two different identifiers of the same length are ordered one way or the other.
pub proof fn lemma_lex_lt_total(a: Seq<u8>, b: Seq<u8>)
    requires
        a.len() == b.len(),
        a != b,
    ensures
        lex_lt(a, b) || lex_lt(b, a),
{
    lemma_first_difference(a, b, a.len() as int);
    if forall|j: int| 0 <= j < a.len() ==> #[trigger] a[j] == b[j] {
        assert(a =~= b);
    }
    let i = choose|i: int|
        0 <= i < a.len() && a[i] != b[i] && (forall|j: int| 0 <= j < i ==> #[trigger] a[j] == b[j]);
    if a[i] < b[i] {
        assert(lex_lt(a, b));
    } else {
        assert(forall|j: int| 0 <= j < i ==> #[trigger] b[j] == a[j]);
        assert(lex_lt(b, a));
    }
}

/// Compares identifier bytes in lexicographic order.
pub fn bytes_less(a: &[u8; 16], b: &[u8; 16]) -> (less: bool)
    ensures
        less == lex_lt(a@, b@),
{
    let mut i: usize = 0;
    while i < 16
        invariant
            i <= 16,
            a@.len() == 16 && b@.len() == 16,
            forall|j: int| 0 <= j < i ==> #[trigger] a@[j] == b@[j],
        decreases 16 - i,
    {
        if a[i] != b[i] {
            if a[i] < b[i] {
                assert(lex_lt(a@, b@));
                return true;
            } else {
                assert forall|k: int| 0 <= k < a@.len() && k < b@.len() && a@[k] < b@[k] implies !(
                forall|j: int| 0 <= j < k ==> #[trigger] a@[j] == b@[j]) by {
                    if k > i {
                        assert(a@[i as int] == b@[i as int] || !(forall|j: int|
                            0 <= j < k ==> #[trigger] a@[j] == b@[j]));
                    }
                }
                return false;
            }
        }
        i += 1;
    }
    assert(a@ =~= b@);
    false
}

/// Compares identifier bytes for equality.
pub fn bytes_equal(a: &[u8; 16], b: &[u8; 16]) -> (equal: bool)
    ensures
        equal == (a@ == b@),
{
    let mut i: usize = 0;
    while i < 16
        invariant
            i <= 16,
            a@.len() == 16 && b@.len() == 16,
            forall|j: int| 0 <= j < i ==> #[trigger] a@[j] == b@[j],
        decreases 16 - i,
    {
        if a[i] != b[i] {
            assert(a@[i as int] != b@[i as int]);
            return false;
        }
        i += 1;
    }
    assert(a@ =~= b@);
    true
}

/// Stable authorization identity for a BlueRoute node.
#[derive(Clone, Copy, Debug, PartialOrd, Ord, Hash)]
pub struct NodeId(pub [u8; 16]);

impl NodeId {
    pub fn from_bytes(bytes: [u8; 16]) -> (id: Self)
        ensures
            id.0 == bytes,
    {
        NodeId(bytes)
    }

    pub fn as_bytes(&self) -> (bytes: &[u8; 16])
        ensures
            *bytes == self.0,
    {
        &self.0
    }

    /// The canonical lowercase hexadecimal text of the identifier.
    pub fn to_string(&self) -> (text: String)
        ensures
            text@ == hex_encode(self.0@),
    {
        encode_hex(&self.0)
    }

    /// Parses 32 hexadecimal characters of either case.
    pub fn parse(value: &str) -> (result: Result<Self, CoreError>)
        ensures
            match result {
                Ok(id) => parse_hex_id(value.spec_bytes()) == Some(id.0@),
                Err(error) => parse_hex_id(value.spec_bytes()) is None && error.spec_kind()
                    == ErrorKind::InvalidInput && error.spec_message() == hex_id_error(
                    value.spec_bytes(),
                ) && error.spec_diagnostic() is None,
            },
    {
        match decode_hex_id(value) {
            Ok(bytes) => Ok(NodeId(bytes)),
            Err(error) => Err(error),
        }
    }

    /// This identifier sorts strictly before `other`.
    pub fn less_than(&self, other: &Self) -> (less: bool)
        ensures
            less == lex_lt(self.0@, other.0@),
    {
        bytes_less(&self.0, &other.0)
    }
}

impl PartialEq for NodeId {
    fn eq(&self, other: &Self) -> (equal: bool) {
        bytes_equal(&self.0, &other.0)
    }
}

impl Eq for NodeId {

}

impl vstd::std_specs::cmp::PartialEqSpecImpl for NodeId {
    open spec fn obeys_eq_spec() -> bool {
        true
    }

    open spec fn eq_spec(&self, other: &Self) -> bool {
        self.0@ == other.0@
    }
}

impl std::str::FromStr for NodeId {
    type Err = CoreError;

    fn from_str(value: &str) -> (result: Result<Self, CoreError>)
        ensures
            match result {
                Ok(id) => parse_hex_id(value.spec_bytes()) == Some(id.0@),
                Err(error) => parse_hex_id(value.spec_bytes()) is None && error.spec_kind()
                    == ErrorKind::InvalidInput && error.spec_message() == hex_id_error(
                    value.spec_bytes(),
                ) && error.spec_diagnostic() is None,
            },
    {
        Self::parse(value)
    }
}

/// Stable identity for a logical BlueRoute network.
#[derive(Clone, Copy, Debug, PartialOrd, Ord, Hash)]
pub struct NetworkId(pub [u8; 16]);

impl NetworkId {
    pub fn from_bytes(bytes: [u8; 16]) -> (id: Self)
        ensures
            id.0 == bytes,
    {
        NetworkId(bytes)
    }

    pub fn as_bytes(&self) -> (bytes: &[u8; 16])
        ensures
            *bytes == self.0,
    {
        &self.0
    }

    /// The canonical lowercase hexadecimal text of the identifier.
    pub fn to_string(&self) -> (text: String)
        ensures
            text@ == hex_encode(self.0@),
    {
        encode_hex(&self.0)
    }

    /// Parses 32 hexadecimal characters of either case.
    pub fn parse(value: &str) -> (result: Result<Self, CoreError>)
        ensures
            match result {
                Ok(id) => parse_hex_id(value.spec_bytes()) == Some(id.0@),
                Err(error) => parse_hex_id(value.spec_bytes()) is None && error.spec_kind()
                    == ErrorKind::InvalidInput && error.spec_message() == hex_id_error(
                    value.spec_bytes(),
                ) && error.spec_diagnostic() is None,
            },
    {
        match decode_hex_id(value) {
            Ok(bytes) => Ok(NetworkId(bytes)),
            Err(error) => Err(error),
        }
    }

    /// This identifier sorts strictly before `other`.
    pub fn less_than(&self, other: &Self) -> (less: bool)
        ensures
            less == lex_lt(self.0@, other.0@),
    {
        bytes_less(&self.0, &other.0)
    }
}

impl PartialEq for NetworkId {
    fn eq(&self, other: &Self) -> (equal: bool) {
        bytes_equal(&self.0, &other.0)
    }
}

impl Eq for NetworkId {

}

impl vstd::std_specs::cmp::PartialEqSpecImpl for NetworkId {
    open spec fn obeys_eq_spec() -> bool {
        true
    }

    open spec fn eq_spec(&self, other: &Self) -> bool {
        self.0@ == other.0@
    }
}

impl std::str::FromStr for NetworkId {
    type Err = CoreError;

    fn from_str(value: &str) -> (result: Result<Self, CoreError>)
        ensures
            match result {
                Ok(id) => parse_hex_id(value.spec_bytes()) == Some(id.0@),
                Err(error) => parse_hex_id(value.spec_bytes()) is None && error.spec_kind()
                    == ErrorKind::InvalidInput && error.spec_message() == hex_id_error(
                    value.spec_bytes(),
                ) && error.spec_diagnostic() is None,
            },
    {
        Self::parse(value)
    }
}

/// Stable identity for a BlueRoute PAN link observation.
#[derive(Clone, Copy, Debug, PartialOrd, Ord, Hash)]
pub struct LinkId(pub [u8; 16]);

impl LinkId {
    pub fn from_bytes(bytes: [u8; 16]) -> (id: Self)
        ensures
            id.0 == bytes,
    {
        LinkId(bytes)
    }

    pub fn as_bytes(&self) -> (bytes: &[u8; 16])
        ensures
            *bytes == self.0,
    {
        &self.0
    }

    /// The canonical lowercase hexadecimal text of the identifier.
    pub fn to_string(&self) -> (text: String)
        ensures
            text@ == hex_encode(self.0@),
    {
        encode_hex(&self.0)
    }

    /// Parses 32 hexadecimal characters of either case.
    pub fn parse(value: &str) -> (result: Result<Self, CoreError>)
        ensures
            match result {
                Ok(id) => parse_hex_id(value.spec_bytes()) == Some(id.0@),
                Err(error) => parse_hex_id(value.spec_bytes()) is None && error.spec_kind()
                    == ErrorKind::InvalidInput && error.spec_message() == hex_id_error(
                    value.spec_bytes(),
                ) && error.spec_diagnostic() is None,
            },
    {
        match decode_hex_id(value) {
            Ok(bytes) => Ok(LinkId(bytes)),
            Err(error) => Err(error),
        }
    }

    /// This identifier sorts strictly before `other`.
    pub fn less_than(&self, other: &Self) -> (less: bool)
        ensures
            less == lex_lt(self.0@, other.0@),
    {
        bytes_less(&self.0, &other.0)
    }
}

impl PartialEq for LinkId {
    fn eq(&self, other: &Self) -> (equal: bool) {
        bytes_equal(&self.0, &other.0)
    }
}

impl Eq for LinkId {

}

impl vstd::std_specs::cmp::PartialEqSpecImpl for LinkId {
    open spec fn obeys_eq_spec() -> bool {
        true
    }

    open spec fn eq_spec(&self, other: &Self) -> bool {
        self.0@ == other.0@
    }
}

impl std::str::FromStr for LinkId {
    type Err = CoreError;

    fn from_str(value: &str) -> (result: Result<Self, CoreError>)
        ensures
            match result {
                Ok(id) => parse_hex_id(value.spec_bytes()) == Some(id.0@),
                Err(error) => parse_hex_id(value.spec_bytes()) is None && error.spec_kind()
                    == ErrorKind::InvalidInput && error.spec_message() == hex_id_error(
                    value.spec_bytes(),
                ) && error.spec_diagnostic() is None,
            },
    {
        Self::parse(value)
    }
}

/// Stable identity for a routed PAN segment.
#[derive(Clone, Copy, Debug, PartialOrd, Ord, Hash)]
pub struct SegmentId(pub [u8; 16]);

impl SegmentId {
    pub fn from_bytes(bytes: [u8; 16]) -> (id: Self)
        ensures
            id.0 == bytes,
    {
        SegmentId(bytes)
    }

    pub fn as_bytes(&self) -> (bytes: &[u8; 16])
        ensures
            *bytes == self.0,
    {
        &self.0
    }

    /// The canonical lowercase hexadecimal text of the identifier.
    pub fn to_string(&self) -> (text: String)
        ensures
            text@ == hex_encode(self.0@),
    {
        encode_hex(&self.0)
    }

    /// Parses 32 hexadecimal characters of either case.
    pub fn parse(value: &str) -> (result: Result<Self, CoreError>)
        ensures
            match result {
                Ok(id) => parse_hex_id(value.spec_bytes()) == Some(id.0@),
                Err(error) => parse_hex_id(value.spec_bytes()) is None && error.spec_kind()
                    == ErrorKind::InvalidInput && error.spec_message() == hex_id_error(
                    value.spec_bytes(),
                ) && error.spec_diagnostic() is None,
            },
    {
        match decode_hex_id(value) {
            Ok(bytes) => Ok(SegmentId(bytes)),
            Err(error) => Err(error),
        }
    }

    /// This identifier sorts strictly before `other`.
    pub fn less_than(&self, other: &Self) -> (less: bool)
        ensures
            less == lex_lt(self.0@, other.0@),
    {
        bytes_less(&self.0, &other.0)
    }
}

impl PartialEq for SegmentId {
    fn eq(&self, other: &Self) -> (equal: bool) {
        bytes_equal(&self.0, &other.0)
    }
}

impl Eq for SegmentId {

}

impl vstd::std_specs::cmp::PartialEqSpecImpl for SegmentId {
    open spec fn obeys_eq_spec() -> bool {
        true
    }

    open spec fn eq_spec(&self, other: &Self) -> bool {
        self.0@ == other.0@
    }
}

impl std::str::FromStr for SegmentId {
    type Err = CoreError;

    fn from_str(value: &str) -> (result: Result<Self, CoreError>)
        ensures
            match result {
                Ok(id) => parse_hex_id(value.spec_bytes()) == Some(id.0@),
                Err(error) => parse_hex_id(value.spec_bytes()) is None && error.spec_kind()
                    == ErrorKind::InvalidInput && error.spec_message() == hex_id_error(
                    value.spec_bytes(),
                ) && error.spec_diagnostic() is None,
            },
    {
        Self::parse(value)
    }
}

/// Identifier text written by `to_string` is parsed back to the same identifier bytes.
pub proof fn lemma_identifier_text_round_trip(bytes: Seq<u8>, text: &str)
    requires
        bytes.len() == ID_BYTES,
        text@ == hex_encode(bytes),
    ensures
        parse_hex_id(text.spec_bytes()) == Some(bytes),
{
    crate::domain::hex::lemma_hex_encode_is_ascii(bytes);
    crate::domain::hex::lemma_hex_id_round_trip(bytes);
}

/// A user-editable presentation name that is intentionally separate from identity.
#[derive(Debug)]
pub struct DisplayName(String);

/// A display name is 1 to 64 characters once surrounding white space is removed.
pub open spec fn valid_display_name(value: Seq<char>) -> bool {
    1 <= trim_chars(value).len() <= 64
}

/// Why a display name is refused.
pub open spec fn display_name_error(value: Seq<char>) -> Seq<char> {
    if trim_chars(value).len() == 0 {
        "display name cannot be empty"@
    } else {
        "display name cannot exceed 64 characters"@
    }
}

impl View for DisplayName {
    type V = Seq<char>;

    closed spec fn view(&self) -> Seq<char> {
        self.0@
    }
}

impl Clone for DisplayName {
    fn clone(&self) -> Self {
        proof {
            use_type_invariant(self);
        }
        DisplayName(self.0.clone())
    }
}

impl DisplayName {
    /// A display name holds 1 to 64 characters and no surrounding white space.
    #[verifier::type_invariant]
    closed spec fn well_formed(&self) -> bool {
        valid_display_name(self.0@) && trim_chars(self.0@) == self.0@
    }

    pub const MAX_CHARS: usize = 64;

    /// Trims surrounding white space and accepts 1 to 64 remaining characters.
    pub fn new(value: &str) -> (result: Result<Self, CoreError>)
        ensures
            result is Ok <==> valid_display_name(value@),
            match result {
                Ok(name) => name@ == trim_chars(value@),
                Err(error) => error.spec_kind() == ErrorKind::InvalidInput && error.spec_message()
                    == display_name_error(value@) && error.spec_diagnostic() is None,
            },
    {
        let chars = chars_of(value);
        let (start, end) = trim_bounds(&chars);
        let count = end - start;
        if count == 0 {
            return Err(CoreError::new(ErrorKind::InvalidInput, "display name cannot be empty"));
        }
        if count > 64 {
            return Err(
                CoreError::new(ErrorKind::InvalidInput, "display name cannot exceed 64 characters"),
            );
        }
        proof {
            lemma_trim_idempotent(value@);
        }
        Ok(DisplayName(string_from_chars(&chars, start, end)))
    }

    /// An equal, separately owned name.
    pub fn duplicate(&self) -> (copy: Self)
        ensures
            copy@ == self@,
    {
        proof {
            use_type_invariant(self);
        }
        DisplayName(self.0.clone())
    }

    pub fn as_str(&self) -> (text: &str)
        ensures
            text@ == self@,
            valid_display_name(self@),
            trim_chars(self@) == self@,
    {
        proof {
            use_type_invariant(self);
        }
        self.0.as_str()
    }

    pub fn to_string(&self) -> (text: String)
        ensures
            text@ == self@,
    {
        self.0.clone()
    }
}

impl PartialEq for DisplayName {
    fn eq(&self, other: &Self) -> (equal: bool) {
        self.0 == other.0
    }
}

impl Eq for DisplayName {

}

impl vstd::std_specs::cmp::PartialEqSpecImpl for DisplayName {
    open spec fn obeys_eq_spec() -> bool {
        true
    }

    open spec fn eq_spec(&self, other: &Self) -> bool {
        self@ == other@
    }
}

} // verus!
