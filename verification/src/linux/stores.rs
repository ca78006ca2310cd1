use vstd::prelude::*;

use crate::domain::error::{CoreError, ErrorKind};
use crate::domain::hex::{hex_encode, hex_id_error, lemma_hex_encode_is_ascii, lemma_hex_id_round_trip, parse_hex_id};
use crate::domain::id::NodeId;
use crate::text::{chars_of, push_str, string_from_chars};
use vstd::string::StringSliceAdditionalSpecFns;
use vstd::utf8::encode_utf8;

verus! {

/// File-backed registry of known networks and their peers, kept at `path`.
///
/// Reading and writing the file happen outside the library; the format is
/// `serialize_registry` and `parse_registry`.
pub struct NetworkMembershipStore {
    path: String,
}

impl NetworkMembershipStore {
    pub closed spec fn spec_path(&self) -> Seq<char> {
        self.path@
    }

    pub fn new(path: &str) -> (store: Self)
        ensures
            store.spec_path() == path@,
    {
        NetworkMembershipStore { path: String::from_str(path) }
    }

    pub fn path(&self) -> (path: &str)
        ensures
            path@ == self.spec_path(),
    {
        self.path.as_str()
    }
}

/// Storage for secret material: one owner-only file per secret inside `directory`.
pub struct SecretFileStore {
    directory: String,
}

/// A secret's name is one normal path component: not empty, no separator, and neither
/// the current nor the parent directory.
pub open spec fn valid_secret_name(name: Seq<char>) -> bool {
    &&& name.len() > 0
    &&& forall|i: int| 0 <= i < name.len() ==> name[i] != '/'
    &&& name != "."@
    &&& name != ".."@
}

impl SecretFileStore {
    pub closed spec fn spec_directory(&self) -> Seq<char> {
        self.directory@
    }

    pub fn new(directory: &str) -> (store: Self)
        ensures
            store.spec_directory() == directory@,
    {
        SecretFileStore { directory: String::from_str(directory) }
    }

    pub fn directory(&self) -> (directory: &str)
        ensures
            directory@ == self.spec_directory(),
    {
        self.directory.as_str()
    }

    /// Refuses a secret name that could leave the store's directory.
    pub fn check_secret_name(name: &str) -> (result: Result<(), CoreError>)
        ensures
            result is Ok <==> valid_secret_name(name@),
            match result {
                Ok(()) => true,
                Err(error) => error.spec_kind() == ErrorKind::InvalidInput && error.spec_message()
                    == "secret name must be one normal path component"@
                    && error.spec_diagnostic() is None,
            },
    {
        let chars = chars_of(name);
        let mut valid = chars.len() > 0;
        let mut i: usize = 0;
        while i < chars.len()
            invariant
                chars@ == name@,
                i <= chars@.len(),
                valid == (chars@.len() > 0 && forall|j: int| 0 <= j < i ==> chars@[j] != '/'),
            decreases chars@.len() - i,
        {
            if chars[i] == '/' {
                valid = false;
            }
            i += 1;
        }
        proof {
            reveal_strlit(".");
            reveal_strlit("..");
        }
        let dot = chars.len() == 1 && chars[0] == '.';
        let dots = chars.len() == 2 && chars[0] == '.' && chars[1] == '.';
        proof {
            if chars@.len() == 1 && chars@[0] == '.' {
                assert(name@ =~= "."@);
            }
            if chars@.len() == 2 && chars@[0] == '.' && chars@[1] == '.' {
                assert(name@ =~= ".."@);
            }
        }
        if !valid || dot || dots {
            return Err(
                CoreError::new(
                    ErrorKind::InvalidInput,
                    "secret name must be one normal path component",
                ),
            );
        }
        Ok(())
    }
}

/// Makes a stable node identity when none has been persisted yet.
pub trait NodeIdentityGenerator {
    fn generate(&self) -> Result<NodeId, CoreError>;
}

/// File-backed storage of the local node identity, kept at `path`, made by `generator` the
/// first time.
pub struct NodeIdentityStore<G> {
    path: String,
    generator: G,
}

impl<G: NodeIdentityGenerator> NodeIdentityStore<G> {
    pub closed spec fn spec_path(&self) -> Seq<char> {
        self.path@
    }

    pub closed spec fn spec_generator(&self) -> G {
        self.generator
    }

    pub fn with_generator(path: &str, generator: G) -> (store: Self)
        ensures
            store.spec_path() == path@,
            store.spec_generator() == generator,
    {
        NodeIdentityStore { path: String::from_str(path), generator }
    }

    pub fn path(&self) -> (path: &str)
        ensures
            path@ == self.spec_path(),
    {
        self.path.as_str()
    }

    pub fn generator(&self) -> (generator: &G)
        ensures
            *generator == self.spec_generator(),
    {
        &self.generator
    }
}

/// The identity file's text: the identifier's canonical hexadecimal text and a line feed.
pub open spec fn identity_text(id: NodeId) -> Seq<char> {
    hex_encode(id.0@) + seq!['\n']
}

/// The identifier text inside an identity file: one trailing line feed removed.
pub open spec fn identity_value(text: Seq<char>) -> Seq<char> {
    if text.len() > 0 && text.last() == '\n' {
        text.drop_last()
    } else {
        text
    }
}

pub fn format_identity(id: &NodeId) -> (text: String)
    ensures
        text@ == identity_text(*id),
{
    let mut text = id.to_string();
    crate::text::push_char(&mut text, '\n');
    text
}

/// Reads an identity file's text; a malformed file is refused, never replaced.
pub fn parse_identity(text: &str) -> (result: Result<NodeId, CoreError>)
    ensures
        match result {
            Ok(id) => parse_hex_id(encode_utf8(identity_value(text@))) == Some(id.0@),
            Err(error) => parse_hex_id(encode_utf8(identity_value(text@))) is None
                && error.spec_kind() == ErrorKind::PersistenceError && error.spec_message()
                == "stable node identity file is malformed"@ && error.spec_diagnostic() == Some(
                hex_id_error(encode_utf8(identity_value(text@))),
            ),
        },
{
    let chars = chars_of(text);
    let n = chars.len();
    let end = if n > 0 && chars[n - 1] == '\n' {
        n - 1
    } else {
        n
    };
    let value = string_from_chars(&chars, 0, end);
    assert(value@ =~= identity_value(text@));
    match NodeId::parse(value.as_str()) {
        Ok(id) => Ok(id),
        Err(error) => Err(
            CoreError::from_parts(
                ErrorKind::PersistenceError,
                String::from_str("stable node identity file is malformed"),
                Some(error.to_string()),
            ),
        ),
    }
}

/// An identity written by `format_identity` is read back by `parse_identity` unchanged.
pub proof fn lemma_identity_round_trip(id: NodeId)
    ensures
        parse_hex_id(encode_utf8(identity_value(identity_text(id)))) == Some(id.0@),
{
    assert(identity_value(identity_text(id)) =~= hex_encode(id.0@));
    lemma_hex_encode_is_ascii(id.0@);
    lemma_hex_id_round_trip(id.0@);
}

} // verus!
