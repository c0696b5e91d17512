use vstd::prelude::*;

use sha2::Digest;

verus! {

/// Byte length of a Dilithium2 public key, which doubles as the account address.
pub const PUBLIC_KEY_SIZE: usize = 1312;

/// Byte length of a Dilithium2 secret key.
pub const PRIVATE_KEY_SIZE: usize = 2560;

/// Byte length of a Dilithium2 detached signature.
pub const SIGNATURE_SIZE: usize = 2420;

/// Whether `signature` is a valid Dilithium2 signature by `public_key` over
/// `message`. Signature verification is a pure function of these three byte
/// strings; what it computes is named here and never spelled out.
pub uninterp spec fn verifies(public_key: Seq<u8>, message: Seq<u8>, signature: Seq<u8>) -> bool;

/// The public key determined by a Dilithium2 secret key: key generation
/// produces the two halves of one keypair together.
pub uninterp spec fn public_key_of(secret_key: Seq<u8>) -> Seq<u8>;

/// Whether a byte string is the secret half of a generated keypair. Signing
/// is only promised to round-trip for such strings: an arbitrary byte string
/// of the right length parses as a secret key but carries an inconsistent
/// public-key digest, and what it signs verifies under no key.
pub uninterp spec fn keypair_secret(secret_key: Seq<u8>) -> bool;

/// Relies on pqcrypto_dilithium::dilithium2::keypair: returns a fresh keypair
/// whose halves belong together, with the documented key sizes.
#[verifier::external_body]
fn dilithium_keypair() -> (r: (Vec<u8>, Vec<u8>))
    ensures
        r.0@.len() == PUBLIC_KEY_SIZE,
        r.1@.len() == PRIVATE_KEY_SIZE,
        r.0@ == public_key_of(r.1@),
        keypair_secret(r.1@),
{
    let (pk, sk) = pqcrypto_dilithium::dilithium2::keypair();
    (
        pqcrypto_traits::sign::PublicKey::as_bytes(&pk).to_vec(),
        pqcrypto_traits::sign::SecretKey::as_bytes(&sk).to_vec(),
    )
}

/// Relies on pqcrypto_dilithium::dilithium2::detached_sign: for the secret
/// half of a generated keypair, the produced detached signature has the
/// documented size and verifies under that keypair's public key (the
/// scheme's round-trip contract, promised of generated keys only).
#[verifier::external_body]
fn dilithium_sign(secret_key: &[u8], message: &[u8]) -> (r: Vec<u8>)
    requires
        secret_key@.len() == PRIVATE_KEY_SIZE,
        keypair_secret(secret_key@),
    ensures
        r@.len() == SIGNATURE_SIZE,
        verifies(public_key_of(secret_key@), message@, r@),
{
    let sk = <pqcrypto_dilithium::dilithium2::SecretKey as pqcrypto_traits::sign::SecretKey>::from_bytes(
        secret_key,
    ).expect("secret key has the wrong length");
    let sig = pqcrypto_dilithium::dilithium2::detached_sign(message, &sk);
    pqcrypto_traits::sign::DetachedSignature::as_bytes(&sig).to_vec()
}

/// Relies on pqcrypto_dilithium::dilithium2::verify_detached_signature (and
/// the from_bytes parsers of pqcrypto_traits): verification is pure and
/// returns false on any malformed input instead of failing. In particular a
/// public key of the wrong length fails its parser, an oversized signature
/// fails its parser, and an undersized one fails the verifier's own length
/// check, so a wrong-length key or signature never verifies.
#[verifier::external_body]
pub fn verify(public_key_bytes: &[u8], message: &[u8], signature_bytes: &[u8]) -> (r: bool)
    ensures
        r == verifies(public_key_bytes@, message@, signature_bytes@),
        public_key_bytes@.len() != PUBLIC_KEY_SIZE ==> r == false,
        signature_bytes@.len() != SIGNATURE_SIZE ==> r == false,
{
    let pk = match <pqcrypto_dilithium::dilithium2::PublicKey as pqcrypto_traits::sign::PublicKey>::from_bytes(
        public_key_bytes,
    ) {
        Ok(pk) => pk,
        Err(_) => return false,
    };
    let sig = match <pqcrypto_dilithium::dilithium2::DetachedSignature as pqcrypto_traits::sign::DetachedSignature>::from_bytes(
        signature_bytes,
    ) {
        Ok(sig) => sig,
        Err(_) => return false,
    };
    pqcrypto_dilithium::dilithium2::verify_detached_signature(&sig, message, &pk).is_ok()
}

/// The SHA-256 digest of a byte string: a pure function of the input, named
/// here and never spelled out.
pub uninterp spec fn sha256_of(data: Seq<u8>) -> Seq<u8>;

/// Relies on sha2::Sha256: the SHA-256 digest is 32 bytes and depends on the
/// input bytes alone.
#[verifier::external_body]
pub(crate) fn sha256(data: &[u8]) -> (r: Vec<u8>)
    ensures
        r@ == sha256_of(data@),
        r@.len() == 32,
{
    sha2::Sha256::digest(data).to_vec()
}

/// A signing keypair. The private half never leaves the structure except
/// through `private_key_bytes`.
pub struct KeyPair {
    public_key: Vec<u8>,
    private_key: Vec<u8>,
}

impl KeyPair {
    #[verifier::type_invariant]
    spec fn wf(self) -> bool {
        &&& self.public_key@.len() == PUBLIC_KEY_SIZE
        &&& self.private_key@.len() == PRIVATE_KEY_SIZE
        &&& self.public_key@ == public_key_of(self.private_key@)
        &&& keypair_secret(self.private_key@)
    }

    /// The public half, as the contracts speak of it.
    pub closed spec fn spec_public_key(self) -> Seq<u8> {
        self.public_key@
    }

    /// The private half, as the contracts speak of it.
    pub closed spec fn spec_private_key(self) -> Seq<u8> {
        self.private_key@
    }

    /// Generates a fresh keypair.
    pub fn new() -> (r: KeyPair)
        ensures
            r.spec_public_key().len() == PUBLIC_KEY_SIZE,
    {
        let (public_key, private_key) = dilithium_keypair();
        KeyPair { public_key, private_key }
    }

    /// Signs `message`; the signature verifies under this keypair's public key.
    pub fn sign(&self, message: &[u8]) -> (r: Vec<u8>)
        ensures
            r@.len() == SIGNATURE_SIZE,
            verifies(self.spec_public_key(), message@, r@),
    {
        proof {
            use_type_invariant(self);
        }
        dilithium_sign(self.private_key.as_slice(), message)
    }

    /// The public key, which is also the account address.
    pub fn public_key_bytes(&self) -> (r: Vec<u8>)
        ensures
            r@ == self.spec_public_key(),
            r@.len() == PUBLIC_KEY_SIZE,
    {
        proof {
            use_type_invariant(self);
        }
        self.public_key.clone()
    }

    /// The private key bytes, for operators that must persist them.
    pub fn private_key_bytes(&self) -> (r: Vec<u8>)
        ensures
            r@ == self.spec_private_key(),
            r@.len() == PRIVATE_KEY_SIZE,
    {
        proof {
            use_type_invariant(self);
        }
        self.private_key.clone()
    }
}

} // verus!
