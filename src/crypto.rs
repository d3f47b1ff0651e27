//! Digests, keys and signatures held as plain bytes.
use vstd::prelude::*;

verus! {

/// A 32-byte digest that identifies an agenda.
#[derive(Clone, Copy, Debug)]
pub struct Hash256 {
    pub hash: [u8; 32],
}

/// A voter's public key, in the 65-byte uncompressed form.
#[derive(Clone, Copy, Debug)]
pub struct PublicKey {
    pub key: [u8; 65],
}

/// A voter's private key: 32 bytes of secret scalar.
#[derive(Clone, Copy, Debug)]
pub struct PrivateKey {
    pub key: [u8; 32],
}

/// A recoverable ECDSA signature: 64 bytes of `r` and `s`, then the recovery byte.
#[derive(Clone, Copy, Debug)]
pub struct Signature {
    pub signature: [u8; 65],
}

impl View for Hash256 {
    type V = Seq<u8>;

    open spec fn view(&self) -> Seq<u8> {
        self.hash@
    }
}

impl View for PublicKey {
    type V = Seq<u8>;

    open spec fn view(&self) -> Seq<u8> {
        self.key@
    }
}

impl View for PrivateKey {
    type V = Seq<u8>;

    open spec fn view(&self) -> Seq<u8> {
        self.key@
    }
}

impl View for Signature {
    type V = Seq<u8>;

    open spec fn view(&self) -> Seq<u8> {
        self.signature@
    }
}

/// Whether `signature` is a valid signature by the holder of `voter` over `agenda`.
pub uninterp spec fn signature_valid(agenda: Seq<u8>, voter: Seq<u8>, signature: Seq<u8>) -> bool;

/// Whether the bytes form a secret scalar that secp256k1 accepts.
pub uninterp spec fn private_key_usable(key: Seq<u8>) -> bool;

/// The signature that the holder of `key` makes over `agenda`.
pub uninterp spec fn signature_of(agenda: Seq<u8>, key: Seq<u8>) -> Seq<u8>;

/// The uncompressed public key that belongs to the private key `key`.
pub uninterp spec fn public_key_of(key: Seq<u8>) -> Seq<u8>;

/// Relies on simperby_core::Signature::verify, after
/// simperby_core::PublicKey::from_array_uncompressed has read the key: ECDSA
/// verification is a function of the digest, the key and the signature alone.
#[verifier::external_body]
pub(crate) fn verify_signature(agenda: &Hash256, voter: &PublicKey, signature: &Signature) -> (r: bool)
    ensures
        r == signature_valid(agenda@, voter@, signature@),
{
    let key = match simperby_core::PublicKey::from_array_uncompressed(voter.key) {
        Ok(key) => key,
        Err(_) => return false,
    };
    simperby_core::Signature::from_array(signature.signature)
        .verify(simperby_core::Hash256::from_array(agenda.hash), &key)
        .is_ok()
}

/// Relies on simperby_core::Signature::sign: it fails exactly when secp256k1
/// refuses the private key, and otherwise signs with an RFC 6979 nonce, so the
/// signature is a function of the digest and the key alone.
#[verifier::external_body]
pub(crate) fn sign_agenda(agenda: &Hash256, private_key: &PrivateKey) -> (r: Option<Signature>)
    ensures
        r is Some <==> private_key_usable(private_key@),
        r matches Some(s) ==> s@ == signature_of(agenda@, private_key@),
{
    let key = simperby_core::PrivateKey { key: simperby_core::HexSerializedBytes { data: private_key.key } };
    match simperby_core::Signature::sign(simperby_core::Hash256::from_array(agenda.hash), &key) {
        Ok(s) => {
            let mut signature = [0u8; 65];
            signature.copy_from_slice(s.as_ref());
            Some(Signature { signature })
        },
        Err(_) => None,
    }
}

/// Relies on simperby_core::PrivateKey::public_key, which panics unless
/// secp256k1 accepts the private key and otherwise derives its public key.
#[verifier::external_body]
pub(crate) fn derive_public_key(private_key: &PrivateKey) -> (r: PublicKey)
    requires
        private_key_usable(private_key@),
    ensures
        r@ == public_key_of(private_key@),
{
    let key = simperby_core::PrivateKey { key: simperby_core::HexSerializedBytes { data: private_key.key } };
    let mut out = [0u8; 65];
    out.copy_from_slice(key.public_key().as_ref());
    PublicKey { key: out }
}

impl Hash256 {
    /// Whether two digests hold the same bytes.
    pub fn same_as(&self, other: &Hash256) -> (r: bool)
        ensures
            r == (self@ == other@),
    {
        let mut i: usize = 0;
        while i < 32
            invariant
                i <= 32,
                self@.len() == 32,
                other@.len() == 32,
                forall|j: int| 0 <= j < i ==> self@[j] == other@[j],
            decreases 32 - i,
        {
            if self.hash[i] != other.hash[i] {
                return false;
            }
            i = i + 1;
        }
        assert(self@ =~= other@);
        true
    }
}

impl PublicKey {
    /// Whether two public keys hold the same bytes.
    pub fn same_as(&self, other: &PublicKey) -> (r: bool)
        ensures
            r == (self@ == other@),
    {
        let mut i: usize = 0;
        while i < 65
            invariant
                i <= 65,
                self@.len() == 65,
                other@.len() == 65,
                forall|j: int| 0 <= j < i ==> self@[j] == other@[j],
            decreases 65 - i,
        {
            if self.key[i] != other.key[i] {
                return false;
            }
            i = i + 1;
        }
        assert(self@ =~= other@);
        true
    }
}

} // verus!
