//! Key pairs and signing.
//!
//! Real public-key cryptography is an external collaborator of this core
//! and is consumed as an opaque function. Here a key pair derives its
//! public key from the secret by digest, and a signature is a keyed digest
//! over the message, so every rule about when a signature must check is
//! stated exactly and verified; the scheme itself makes no hardness claim.

use vstd::prelude::*;

use crate::block::spec_keyed_digest;
use crate::utils::bytes_eq;
use crate::utils::hex_decode;
use crate::utils::hex_encode;
use crate::utils::sha256;
use crate::utils::sha256_of;
use crate::utils::spec_hex_decode;
use crate::utils::spec_hex_of;
use crate::utils::HexError;

verus! {

/// A signing key pair: the public key is the digest of the secret key.
pub struct KeyPair {
    public: Vec<u8>,
    secret: Vec<u8>,
}

impl KeyPair {
    /// The secret key bytes.
    pub closed spec fn spec_secret(self) -> Seq<u8> {
        self.secret@
    }

    /// The public key bytes: always the digest of the secret.
    pub closed spec fn spec_public(self) -> Seq<u8> {
        self.public@
    }

    #[verifier::type_invariant]
    spec fn inv(self) -> bool {
        self.public@ == sha256_of(self.secret@)
    }

    /// A key pair over the given secret bytes.
    pub fn from_bytes(secret: Vec<u8>) -> (kp: KeyPair)
        ensures
            kp.spec_secret() == secret@,
            kp.spec_public() == sha256_of(secret@),
    {
        let public = sha256(secret.as_slice());
        KeyPair { public, secret }
    }

    /// A key pair over a fresh secret drawn from the operating system's
    /// entropy source.
    pub fn generate() -> (kp: KeyPair)
        ensures
            kp.spec_public() == sha256_of(kp.spec_secret()),
            kp.spec_secret().len() == 32,
    {
        let secret = crate::utils::os_random_bytes32();
        KeyPair::from_bytes(secret)
    }

    /// The public key.
    pub fn public_key(&self) -> (r: &Vec<u8>)
        ensures
            r@ == self.spec_public(),
            r@ == sha256_of(self.spec_secret()),
    {
        proof {
            use_type_invariant(self);
        }
        &self.public
    }

    /// The secret key.
    pub fn secret_key(&self) -> (r: &Vec<u8>)
        ensures
            r@ == self.spec_secret(),
    {
        &self.secret
    }

    /// Signs `message`: the keyed digest of the message under the public
    /// key, which any holder of the public key can check.
    pub fn sign(&self, message: &Vec<u8>) -> (r: Vec<u8>)
        ensures
            r@ == spec_keyed_digest(self.spec_public(), message@),
    {
        crate::block::keyed_digest(&self.public, message)
    }

    /// Checks `signature` over `message` against this key pair's public
    /// key: true exactly for what [`KeyPair::sign`] produces.
    pub fn verify(&self, message: &Vec<u8>, signature: &Vec<u8>) -> (r: bool)
        ensures
            r == (signature@ == spec_keyed_digest(self.spec_public(), message@)),
    {
        let expected = crate::block::keyed_digest(&self.public, message);
        bytes_eq(&expected, signature)
    }

    /// The secret key bytes, from which the pair rebuilds.
    pub fn to_bytes(&self) -> (r: Vec<u8>)
        ensures
            r@ == self.spec_secret(),
    {
        let mut r: Vec<u8> = Vec::new();
        r.extend_from_slice(self.secret.as_slice());
        proof {
            assert(r@ =~= self.secret@);
        }
        r
    }

    /// The secret key spelled in hex.
    pub fn to_hex(&self) -> (r: String)
        ensures
            r@ == spec_hex_of(self.spec_secret()),
    {
        hex_encode(self.secret.as_slice())
    }

    /// A key pair read back from a hex-spelled secret.
    pub fn from_hex(s: &str) -> (r: Result<KeyPair, HexError>)
        ensures
            match r {
                Ok(kp) => spec_hex_decode(s@) == Ok::<Seq<u8>, HexError>(kp.spec_secret()),
                Err(e) => spec_hex_decode(s@) == Err::<Seq<u8>, HexError>(e),
            },
    {
        match hex_decode(s) {
            Ok(secret) => Ok(KeyPair::from_bytes(secret)),
            Err(e) => Err(e),
        }
    }
}

/// Signature verification from the public key alone, as peers do it.
pub fn verify_with_key(public_key: &Vec<u8>, message: &Vec<u8>, signature: &Vec<u8>) -> (r: bool)
    ensures
        r == (signature@ == spec_keyed_digest(public_key@, message@)),
{
    let expected = crate::block::keyed_digest(public_key, message);
    bytes_eq(&expected, signature)
}

} // verus!
