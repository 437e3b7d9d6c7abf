//! Hash constructions with a flavour of their own, and a utility layer of
//! key derivation and symmetric encryption built on top of them.
use vstd::prelude::*;

pub mod kawaii;
pub mod magical;
pub mod primitives;
pub mod prng;
pub mod tsundere;
pub mod utils;

pub use kawaii::KawaiiHash;
pub use magical::MagicalHash;
pub use tsundere::TsundereHash;

use crate::primitives::base64_len_fits;
use crate::utils::{encrypt_data, is_envelope, IV_SIZE, KEY_SIZE};

verus! {

/// The ways in which an operation of this library can fail.
#[derive(Debug, PartialEq, Eq)]
pub enum NekoError {
    /// Failure while computing derived material (such as reading the clock).
    HashError(String),
    /// A structurally invalid encrypted envelope.
    CryptoError(String),
    /// A key of the wrong length.
    KeyError(String),
    /// Malformed hex or base64 text.
    EncodingError(String),
    /// An empty or zero argument where a non-empty or positive one is needed.
    InvalidInput(String),
}

impl NekoError {
    /// The text that describes this error: its kind, then its message.
    pub open spec fn spec_message(&self) -> Seq<char> {
        match self {
            NekoError::HashError(m) => "Hash error: "@ + m@,
            NekoError::CryptoError(m) => "Crypto error: "@ + m@,
            NekoError::KeyError(m) => "Key error: "@ + m@,
            NekoError::EncodingError(m) => "Encoding error: "@ + m@,
            NekoError::InvalidInput(m) => "Invalid input: "@ + m@,
        }
    }

    /// The text that describes this error: its kind, then its message.
    pub fn message(&self) -> (r: String)
        ensures
            r@ == self.spec_message(),
    {
        match self {
            NekoError::HashError(m) => String::from_str("Hash error: ").concat(m.as_str()),
            NekoError::CryptoError(m) => String::from_str("Crypto error: ").concat(m.as_str()),
            NekoError::KeyError(m) => String::from_str("Key error: ").concat(m.as_str()),
            NekoError::EncodingError(m) => String::from_str("Encoding error: ").concat(m.as_str()),
            NekoError::InvalidInput(m) => String::from_str("Invalid input: ").concat(m.as_str()),
        }
    }
}

/// Result type for the operations of this library.
pub type NekoResult<T> = Result<T, NekoError>;

/// The capability that every hash construction offers.
pub trait NekoHash {
    /// The bytes that `hash` returns for `data`.
    spec fn spec_hash(&self, data: Seq<u8>) -> Seq<u8>;

    /// The number of bytes of every hash.
    spec fn spec_output_size(&self) -> nat;

    /// The name that `identify` returns.
    spec fn spec_name(&self) -> Seq<char>;

    /// Every hash has exactly `spec_output_size` bytes.
    proof fn lemma_hash_len(&self, data: Seq<u8>)
        ensures
            self.spec_hash(data).len() == self.spec_output_size(),
    ;

    /// Hashes `data`.
    fn hash(&self, data: &[u8]) -> (r: Vec<u8>)
        ensures
            r@ == self.spec_hash(data@),
            r@.len() == self.spec_output_size(),
    ;

    /// Hashes `data` and encrypts the hash (see `utils::encrypt_data`).
    fn hash_encrypted(&self, data: &[u8], key: Option<&[u8]>) -> (r: NekoResult<Vec<u8>>)
        requires
            base64_len_fits(self.spec_output_size() + IV_SIZE as nat),
        ensures
            r is Err <==> (key is Some && key->Some_0@.len() != KEY_SIZE),
            r is Err ==> r->Err_0 is KeyError,
            r is Ok ==> exists|k: Seq<u8>|
                #![trigger is_envelope(r->Ok_0@, k, self.spec_hash(data@))]
                k.len() == KEY_SIZE && (key is Some ==> k == key->Some_0@) && is_envelope(
                    r->Ok_0@,
                    k,
                    self.spec_hash(data@),
                ),
    {
        let hash = self.hash(data);
        proof {
            self.lemma_hash_len(data@);
        }
        encrypt_data(hash.as_slice(), key)
    }

    /// The number of bytes of every hash.
    fn output_size(&self) -> (r: usize)
        ensures
            r == self.spec_output_size(),
    ;

    /// The name of the construction.
    fn identify(&self) -> (r: String)
        ensures
            r@ == self.spec_name(),
    ;

    /// Resets any internal state; hashing is not affected.
    fn reset(&mut self)
        ensures
            forall|d: Seq<u8>| #[trigger] final(self).spec_hash(d) == old(self).spec_hash(d),
            final(self).spec_output_size() == old(self).spec_output_size(),
    {
    }
}

/// Hashing is deterministic: for a given hasher, equal data give equal
/// hashes, whichever call of `hash` computes them.
pub proof fn lemma_hash_deterministic<H: NekoHash>(hasher: &H, a: Seq<u8>, b: Seq<u8>)
    requires
        a == b,
    ensures
        hasher.spec_hash(a) == hasher.spec_hash(b),
{
}

/// Every hash has as many bytes as `output_size` returns.
pub proof fn lemma_hash_len_is_output_size<H: NekoHash>(hasher: &H, data: Seq<u8>)
    ensures
        hasher.spec_hash(data).len() == hasher.spec_output_size(),
{
    hasher.lemma_hash_len(data);
}

/// Adds two numbers; the sum must fit in a `u64`.
pub fn add(left: u64, right: u64) -> (r: u64)
    requires
        left + right <= u64::MAX,
    ensures
        r == left + right,
{
    left + right
}

} // verus!
