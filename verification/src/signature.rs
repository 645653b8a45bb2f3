//! The signature authority: keyed message authentication over raw bytes.

use crate::wire::same_bytes;
use vstd::prelude::*;

verus! {

/// The authentication tag of `data` under `key`, as HMAC-SHA256 computes it.
pub uninterp spec fn hmac_tag(key: Seq<u8>, data: Seq<u8>) -> Seq<u8>;

/// Length in bytes of every tag that the authority produces.
pub const TAG_LEN: usize = 32;

/// Calls `hmac_sha256::HMAC::mac`. The result is a function of the key and the
/// message alone, and always 32 bytes long; nothing else is claimed of it.
/// The crate counts the bytes and then the bits of what it hashes in
/// `usize`. The count of bits is exact for a message of less than an eighth
/// of the range of `usize`, which with 64 bits is every message on which
/// SHA-256 is defined; for a longer one the count wraps or, where overflow
/// is checked, ends the call.
#[verifier::external_body]
fn mac(key: &[u8], data: &[u8]) -> (tag: Vec<u8>)
    ensures
        tag@ == hmac_tag(key@, data@),
        tag@.len() == 32,
{
    hmac_sha256::HMAC::mac(data, key).to_vec()
}

/// A secret signing key.
#[derive(Clone)]
pub struct SigKey {
    secret: Vec<u8>,
}

/// A tag over some bytes, as a signing key produced it or as a peer sent it.
#[derive(Clone, Debug)]
pub struct Signature(pub Vec<u8>);

impl View for SigKey {
    type V = Seq<u8>;

    closed spec fn view(&self) -> Seq<u8> {
        self.secret@
    }
}

impl View for Signature {
    type V = Seq<u8>;

    open spec fn view(&self) -> Seq<u8> {
        self.0@
    }
}

impl SigKey {
    /// A key made of the given secret bytes.
    pub fn from_bytes(secret: Vec<u8>) -> (key: SigKey)
        ensures
            key@ == secret@,
    {
        SigKey { secret }
    }

    /// Signs `data`: the same key and bytes always give the same signature.
    pub fn sign(&self, data: &[u8]) -> (sig: Signature)
        ensures
            sig@ == hmac_tag(self@, data@),
            sig@.len() == TAG_LEN,
    {
        Signature(mac(self.secret.as_slice(), data))
    }

    /// Whether `signature` is this key's signature of `data`. A signature of
    /// the wrong length, or made with another key, is simply not accepted.
    pub fn verify(&self, data: &[u8], signature: &Signature) -> (ok: bool)
        ensures
            ok == (signature@ == hmac_tag(self@, data@)),
    {
        let expected = mac(self.secret.as_slice(), data);
        same_bytes(expected.as_slice(), signature.0.as_slice())
    }
}

} // verus!
