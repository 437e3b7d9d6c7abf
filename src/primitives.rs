//! The outside services that the utility layer builds on: the system entropy
//! source, the system clock, the AES-256 counter-mode stream cipher and the
//! standard base64 codec.
use aes::Aes256;
use base64::engine::general_purpose::STANDARD;
use base64::Engine;
use ctr::cipher::{KeyIvInit, StreamCipher};
use rand::Rng;
use vstd::prelude::*;
use vstd::utf8::encode_utf8;

verus! {

#[verifier::external_type_specification]
#[verifier::external_body]
pub struct ExDecodeError(base64::DecodeError);

/// The first `len` bytes of the keystream that AES-256 in counter mode, with
/// a 64-bit big-endian counter, produces for `key` and `iv`.
pub uninterp spec fn aes256_ctr_keystream(key: Seq<u8>, iv: Seq<u8>, len: nat) -> Seq<u8>;

/// The text that the standard base64 engine (padded) makes of `bytes`.
pub uninterp spec fn base64_text(bytes: Seq<u8>) -> Seq<char>;

/// What the standard base64 engine decodes from the bytes `text`, or `None`
/// where it refuses them.
pub uninterp spec fn base64_decoded(text: Seq<u8>) -> Option<Seq<u8>>;

/// `data` XORed, byte by byte, with `stream`.
pub open spec fn xor_bytes(data: Seq<u8>, stream: Seq<u8>) -> Seq<u8> {
    Seq::new(data.len(), |i: int| data[i] ^ stream[i])
}

/// `data` XORed with the keystream of `key` and `iv`: counter-mode encryption,
/// and decryption as well.
pub open spec fn ctr_apply(key: Seq<u8>, iv: Seq<u8>, data: Seq<u8>) -> Seq<u8> {
    xor_bytes(data, aes256_ctr_keystream(key, iv, data.len()))
}

/// Whether the padded base64 text of `n` bytes, `4 * ceil(n / 3)` bytes long,
/// can be allocated.
pub open spec fn base64_len_fits(n: nat) -> bool {
    4 * ((n + 2) / 3) <= isize::MAX
}

/// Relies on `rand::thread_rng` and `Rng::fill`: `n` bytes from the
/// thread-local generator, which the system entropy source seeds.
#[verifier::external_body]
pub(crate) fn random_bytes(n: usize) -> (r: Vec<u8>)
    requires
        n <= isize::MAX,
    ensures
        r@.len() == n,
{
    let mut buf = vec![0u8; n];
    rand::thread_rng().fill(&mut buf[..]);
    buf
}

/// Relies on `SystemTime::elapsed` of `UNIX_EPOCH`: whole seconds since the
/// Unix epoch by the system clock, or `None` where the clock is set before it.
#[verifier::external_body]
pub(crate) fn unix_seconds() -> (r: Option<u64>) {
    std::time::UNIX_EPOCH.elapsed().ok().map(|d| d.as_secs())
}

/// Relies on `StreamCipher::apply_keystream` of `ctr::Ctr64BE<aes::Aes256>`,
/// made by `KeyIvInit::new` from `key` and `iv`: the data XORed with the
/// keystream. A fresh cipher has `u64::MAX` blocks of keystream left, more
/// than any slice needs, so the call does not panic.
#[verifier::external_body]
pub(crate) fn apply_ctr_keystream(key: &[u8], iv: &[u8], data: &[u8]) -> (r: Vec<u8>)
    requires
        key@.len() == 32,
        iv@.len() == 16,
    ensures
        r@ == xor_bytes(data@, aes256_ctr_keystream(key@, iv@, data@.len())),
{
    let mut cipher = ctr::Ctr64BE::<Aes256>::new(key.into(), iv.into());
    let mut buf = data.to_vec();
    cipher.apply_keystream(&mut buf);
    buf
}

/// Relies on `Engine::encode` of `base64::engine::general_purpose::STANDARD`:
/// the padded base64 text of `bytes`, which that engine decodes back to
/// `bytes`. It panics only where the text is too long to allocate.
#[verifier::external_body]
pub(crate) fn base64_encode(bytes: &[u8]) -> (r: String)
    requires
        base64_len_fits(bytes@.len()),
    ensures
        r@ == base64_text(bytes@),
        base64_decoded(encode_utf8(r@)) == Some(bytes@),
{
    STANDARD.encode(bytes)
}

/// Relies on `Engine::decode` of `base64::engine::general_purpose::STANDARD`.
#[verifier::external_body]
pub(crate) fn base64_decode(text: &[u8]) -> (r: Result<Vec<u8>, base64::DecodeError>)
    ensures
        r is Ok <==> base64_decoded(text@) is Some,
        r is Ok ==> base64_decoded(text@) == Some(r->Ok_0@),
{
    STANDARD.decode(text)
}

} // verus!
