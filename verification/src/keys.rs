//! RSA keys, modelled for the verifier.
//!
//! The actual keys are values of the `rsa` crate and are opaque here.  The
//! library reads only two things of a key: its modulus size in bytes, held
//! as a plain field, and a ghost identity that ties a private key to the
//! ciphertext blocks only it can open.  The trusted contracts below speak
//! through names for the deterministic outside computations: `rsa_decrypt`
//! for PKCS#1 v1.5 decryption, `rsa_public_der` for the encoding of a
//! key's public half, `rsa_pub_parse` and `rsa_der_key_id` for what a DER
//! document parses to and which private key it pairs with, and
//! `rsa_priv_pem_parse` for the PEM parse of a private key.

use vstd::prelude::*;

use crate::error::Error;

verus! {

#[verifier::external_type_specification]
#[verifier::external_body]
pub struct ExRsaPrivateKey(rsa::RsaPrivateKey);

#[verifier::external_type_specification]
#[verifier::external_body]
pub struct ExRsaPublicKey(rsa::RsaPublicKey);

/// What PKCS#1 v1.5 decryption with the private key identified by `key_id`
/// yields on `block`: the padded chunk, or nothing when the block does not
/// decrypt under that key.
pub uninterp spec fn rsa_decrypt(key_id: Seq<u8>, block: Seq<u8>) -> Option<Seq<u8>>;

/// The PKCS#1 DER encoding of the public half of the private key
/// identified by `key_id`: a deterministic function of the key alone.
pub uninterp spec fn rsa_public_der(key_id: Seq<u8>) -> Seq<u8>;

/// What parsing a PKCS#1 DER document as a public key yields: the parsed
/// key's modulus size in bytes, or nothing when the document is refused.
/// A deterministic function of the bytes alone.
pub uninterp spec fn rsa_pub_parse(der: Seq<u8>) -> Option<usize>;

/// The identity of the private key whose public half a PKCS#1 DER document
/// encodes, where such a key exists; what a key parsed from the document
/// decrypts-matches with.  A deterministic function of the bytes alone.
pub uninterp spec fn rsa_der_key_id(der: Seq<u8>) -> Option<Seq<u8>>;

/// What parsing a PKCS#1 PEM document as a private key yields: the parsed
/// key's modulus size in bytes, or nothing when the document is refused.
/// A deterministic function of the text alone.
pub uninterp spec fn rsa_priv_pem_parse(pem: Seq<char>) -> Option<usize>;

/// A local RSA private key together with its modulus size in bytes.
pub struct PrivateKey {
    raw: rsa::RsaPrivateKey,
    size: usize,
    key_id: Ghost<Seq<u8>>,
}

/// A peer RSA public key together with its modulus size in bytes.
///
/// `pair_id` carries, when known, the identity of the private key this key
/// was derived from; only then does encryption promise anything about
/// decryption.
pub struct PublicKey {
    raw: rsa::RsaPublicKey,
    size: usize,
    pair: Ghost<Option<Seq<u8>>>,
}

impl PrivateKey {
    /// The identity of this key: what `rsa_decrypt` decrypts under.
    pub closed spec fn id(&self) -> Seq<u8> {
        self.key_id@
    }

    /// The modulus size in bytes.
    pub closed spec fn size_spec(&self) -> usize {
        self.size
    }

    /// The modulus size in bytes; ciphertext blocks are exactly this long.
    pub fn size(&self) -> (r: usize)
        ensures
            r == self.size_spec(),
    {
        self.size
    }

    /// Relies on `rsa::pkcs1::DecodeRsaPrivateKey::from_pkcs1_pem` and
    /// `rsa::traits::PublicKeyParts::size`: parses a PKCS#1 PEM document
    /// into a private key.  The parse is a deterministic function of the
    /// text, named by `rsa_priv_pem_parse`.
    #[verifier::external_body]
    pub fn from_pkcs1_pem(pem: &str) -> (r: Result<PrivateKey, Error>)
        ensures
            r is Ok <==> rsa_priv_pem_parse(pem@) is Some,
            r matches Ok(sk) ==> sk.size_spec() == rsa_priv_pem_parse(pem@)->Some_0,
            r matches Err(e) ==> e == Error::Pkcs1,
    {
        match <rsa::RsaPrivateKey as rsa::pkcs1::DecodeRsaPrivateKey>::from_pkcs1_pem(pem) {
            Ok(raw) => {
                let size = rsa::traits::PublicKeyParts::size(&raw);
                Ok(PrivateKey { raw, size, key_id: Ghost(arbitrary()) })
            },
            Err(_) => Err(Error::Pkcs1),
        }
    }

    /// Relies on `rsa::RsaPrivateKey::clone`: the copy is the same key.
    #[verifier::external_body]
    pub fn duplicate(&self) -> (r: PrivateKey)
        ensures
            r.size_spec() == self.size_spec(),
            r.id() == self.id(),
    {
        PrivateKey { raw: self.raw.clone(), size: self.size, key_id: Ghost(arbitrary()) }
    }

    /// Relies on `rsa::RsaPublicKey::from` and
    /// `rsa::pkcs1::EncodeRsaPublicKey::to_pkcs1_der`: the PKCS#1 DER
    /// encoding of the public half of this key, a deterministic function
    /// of the key alone.  Encoding a key this crate holds cannot fail: the
    /// modulus is already validated and any modulus fits a DER length.
    /// The document names this very key, so a peer that parses it obtains
    /// a key whose ciphertext this key opens; and up to the library's
    /// largest accepted modulus, 4096 bits (512 bytes), the document
    /// parses back, to a key of the same modulus size.
    #[verifier::external_body]
    pub fn public_der(&self) -> (r: Result<Vec<u8>, Error>)
        ensures
            r is Ok,
            r matches Ok(d) ==> d@ == rsa_public_der(self.id()),
            r matches Ok(d) ==> rsa_der_key_id(d@) == Some(self.id()),
            r matches Ok(d) ==> (self.size_spec() <= 512 ==> rsa_pub_parse(d@) == Some(
                self.size_spec(),
            )),
    {
        let public = rsa::RsaPublicKey::from(&self.raw);
        match rsa::pkcs1::EncodeRsaPublicKey::to_pkcs1_der(&public) {
            Ok(doc) => Ok(doc.as_bytes().to_vec()),
            Err(_) => Err(Error::Pkcs1),
        }
    }
}

impl PublicKey {
    /// The identity of the matching private key, where one is known.
    pub closed spec fn pair_id(&self) -> Option<Seq<u8>> {
        self.pair@
    }

    /// The modulus size in bytes.
    pub closed spec fn size_spec(&self) -> usize {
        self.size
    }

    /// The modulus size in bytes; ciphertext blocks are exactly this long.
    pub fn size(&self) -> (r: usize)
        ensures
            r == self.size_spec(),
    {
        self.size
    }

    /// Relies on `rsa::pkcs1::DecodeRsaPublicKey::from_pkcs1_der` and
    /// `rsa::traits::PublicKeyParts::size`: parses a PKCS#1 DER document
    /// into a public key.  The parse is a deterministic function of the
    /// bytes, named by `rsa_pub_parse`, and the parsed key is the one the
    /// document names: it pairs with the private key `rsa_der_key_id`
    /// identifies, where one exists.
    #[verifier::external_body]
    pub fn from_pkcs1_der(der: &[u8]) -> (r: Result<PublicKey, Error>)
        ensures
            r is Ok <==> rsa_pub_parse(der@) is Some,
            r matches Ok(pk) ==> pk.size_spec() == rsa_pub_parse(der@)->Some_0,
            r matches Ok(pk) ==> pk.pair_id() == rsa_der_key_id(der@),
            r matches Err(e) ==> e == Error::Pkcs1,
    {
        match <rsa::RsaPublicKey as rsa::pkcs1::DecodeRsaPublicKey>::from_pkcs1_der(der) {
            Ok(raw) => {
                let size = rsa::traits::PublicKeyParts::size(&raw);
                Ok(PublicKey { raw, size, pair: Ghost(arbitrary()) })
            },
            Err(_) => Err(Error::Pkcs1),
        }
    }

    /// Relies on `rsa::pkcs1::DecodeRsaPublicKey::from_pkcs1_pem` and
    /// `rsa::traits::PublicKeyParts::size`: parses a PKCS#1 PEM document
    /// into a public key.
    #[verifier::external_body]
    pub fn from_pkcs1_pem(pem: &str) -> (r: Result<PublicKey, Error>)
        ensures
            r matches Ok(pk) ==> pk.pair_id() is None,
            r matches Err(e) ==> e == Error::Pkcs1,
    {
        match <rsa::RsaPublicKey as rsa::pkcs1::DecodeRsaPublicKey>::from_pkcs1_pem(pem) {
            Ok(raw) => {
                let size = rsa::traits::PublicKeyParts::size(&raw);
                Ok(PublicKey { raw, size, pair: Ghost(arbitrary()) })
            },
            Err(_) => Err(Error::Pkcs1),
        }
    }

    /// Relies on `rsa::RsaPublicKey::clone`: the copy is the same key.
    #[verifier::external_body]
    pub fn duplicate(&self) -> (r: PublicKey)
        ensures
            r.size_spec() == self.size_spec(),
            r.pair_id() == self.pair_id(),
    {
        PublicKey { raw: self.raw.clone(), size: self.size, pair: Ghost(arbitrary()) }
    }
}

/// Relies on `rsa::RsaPrivateKey::new`, `rsa::RsaPublicKey::from` and
/// `rsa::traits::PublicKeyParts::size`: a fresh keypair whose modulus has
/// exactly `bits` bits on success.
#[verifier::external_body]
pub fn generate_keypair(bits: usize) -> (r: Option<(PrivateKey, PublicKey)>)
    ensures
        r matches Some(kp) ==> {
            &&& kp.0.size_spec() == (bits + 7) / 8
            &&& kp.1.size_spec() == kp.0.size_spec()
            &&& kp.1.pair_id() == Some(kp.0.id())
        },
{
    let mut rng = rand::thread_rng();
    match rsa::RsaPrivateKey::new(&mut rng, bits) {
        Ok(raw) => {
            let public = rsa::RsaPublicKey::from(&raw);
            let size = rsa::traits::PublicKeyParts::size(&raw);
            Some(
                (
                    PrivateKey { raw, size, key_id: Ghost(arbitrary()) },
                    PublicKey { raw: public, size, pair: Ghost(arbitrary()) },
                ),
            )
        },
        Err(_) => None,
    }
}

/// Relies on `rsa::RsaPublicKey::encrypt` with PKCS#1 v1.5 padding: the
/// ciphertext is one modulus-sized block, and decrypting it with the
/// matching private key restores the chunk.  Encryption succeeds on every
/// admitted chunk: the only message error is a chunk longer than the
/// modulus size less the padding overhead, which the precondition
/// excludes, and every key this crate holds already passed the library's
/// own validity checks at construction.
#[verifier::external_body]
pub(crate) fn encrypt_block(pk: &PublicKey, chunk: &[u8]) -> (r: Result<Vec<u8>, Error>)
    requires
        chunk@.len() + 11 <= pk.size_spec(),
    ensures
        r is Ok,
        r matches Ok(c) ==> c@.len() == pk.size_spec(),
        r matches Ok(c) ==> (pk.pair_id() matches Some(key_id) ==> rsa_decrypt(key_id, c@)
            == Some(chunk@)),
{
    match pk.raw.encrypt(&mut rand::thread_rng(), rsa::Pkcs1v15Encrypt, chunk) {
        Ok(c) => Ok(c),
        Err(_) => Err(Error::Rsa),
    }
}

/// Relies on `rsa::RsaPrivateKey::decrypt` with PKCS#1 v1.5 padding, a
/// deterministic function of the key and the ciphertext block.
#[verifier::external_body]
pub(crate) fn decrypt_block(sk: &PrivateKey, block: &[u8]) -> (r: Result<Vec<u8>, Error>)
    ensures
        r matches Ok(p) ==> rsa_decrypt(sk.id(), block@) == Some(p@),
        r is Err ==> rsa_decrypt(sk.id(), block@) is None,
        r matches Err(e) ==> e == Error::Rsa,
{
    match sk.raw.decrypt(rsa::Pkcs1v15Encrypt, block) {
        Ok(p) => Ok(p),
        Err(_) => Err(Error::Rsa),
    }
}

} // verus!
