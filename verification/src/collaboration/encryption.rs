//! Encryption of collaboration data with AES-256-GCM, and X25519 key pairs.
//!
//! A sealed message is the 12-byte nonce followed by the ciphertext and its
//! 16-byte authentication tag.
use vstd::prelude::*;
use crate::collaboration::CollaborationError;
use aes_gcm::aead::{Aead, AeadCore, KeyInit, OsRng};
use aes_gcm::{Aes256Gcm, Key, Nonce};
use x25519_dalek::{PublicKey, StaticSecret};

verus! {

/// Length in bytes of an AES-256 key.
pub const KEY_LEN: usize = 32;
/// Length in bytes of a GCM nonce.
pub const NONCE_LEN: usize = 12;
/// Length in bytes of a GCM authentication tag.
pub const TAG_LEN: usize = 16;
/// Longest plaintext that AES-GCM seals (2^36 bytes).
pub const MAX_PLAINTEXT: u64 = 68719476736;

/// Key pair.
#[derive(Debug, Clone)]
pub struct KeyPair {
    pub public_key: Vec<u8>,
    pub private_key: Vec<u8>,
}

/// Cipher type.
#[derive(Debug, Clone, Copy, PartialEq, Eq, Structural)]
pub enum Cipher {
    AES256GCM,
    ChaCha20Poly1305,
}

/// Message envelope.
#[derive(Debug, Clone)]
pub struct MessageEnvelope {
    pub encrypted_data: Vec<u8>,
    pub nonce: Vec<u8>,
    pub tag: Vec<u8>,
}

/// What AES-256-GCM makes of `plaintext` under `key` and `nonce` (no associated
/// data): the ciphertext followed by the tag.
pub uninterp spec fn aes_gcm_sealed(key: Seq<u8>, nonce: Seq<u8>, plaintext: Seq<u8>) -> Seq<u8>;

/// What AES-256-GCM decryption gives for `ciphertext` (tag last) under `key`
/// and `nonce`: `None` where the tag does not authenticate it.
pub uninterp spec fn aes_gcm_opened(key: Seq<u8>, nonce: Seq<u8>, ciphertext: Seq<u8>) -> Option<Seq<u8>>;

/// The X25519 public key of a 32-byte secret.
pub uninterp spec fn x25519_public(secret: Seq<u8>) -> Seq<u8>;

/// `v` is `data` sealed under `key`: a nonce, then what AES-256-GCM made of
/// `data` under that nonce, which opens to `data` again.
pub open spec fn sealed_message(key: Seq<u8>, data: Seq<u8>, v: Seq<u8>) -> bool {
    &&& v.len() == NONCE_LEN + data.len() + TAG_LEN
    &&& aes_gcm_sealed(key, v.subrange(0, NONCE_LEN as int), data) == v.subrange(NONCE_LEN as int, v.len() as int)
    &&& aes_gcm_opened(key, v.subrange(0, NONCE_LEN as int), v.subrange(NONCE_LEN as int, v.len() as int)) == Some(data)
}

/// What a sealed message `v` opens to under `key`.
pub open spec fn opened_message(key: Seq<u8>, v: Seq<u8>) -> Option<Seq<u8>> {
    if v.len() < NONCE_LEN {
        None
    } else {
        aes_gcm_opened(key, v.subrange(0, NONCE_LEN as int), v.subrange(NONCE_LEN as int, v.len() as int))
    }
}

/// `Aes256Gcm::generate_key` with the operating system's random source: 32
/// random bytes. Nothing is claimed of their values. Where the operating
/// system gives no random bytes, `OsRng` panics; that is not stated.
#[verifier::external_body]
fn random_key() -> (r: Vec<u8>)
    ensures r@.len() == KEY_LEN,
{
    Aes256Gcm::generate_key(OsRng).to_vec()
}

/// `Aes256Gcm::generate_nonce` with the operating system's random source: 12
/// random bytes. Nothing is claimed of their values (nor is the panic of
/// `OsRng` where the operating system gives no random bytes).
#[verifier::external_body]
fn random_nonce() -> (r: Vec<u8>)
    ensures r@.len() == NONCE_LEN,
{
    Aes256Gcm::generate_nonce(&mut OsRng).to_vec()
}

/// `Aead::encrypt` of `Aes256Gcm`: it fails only on a plaintext longer than
/// 2^36 bytes; otherwise the result is the ciphertext, as long as the
/// plaintext, followed by the 16-byte tag, and decrypting it under the same
/// key and nonce gives the plaintext back.
#[verifier::external_body]
fn seal(key: &[u8], nonce: &[u8], data: &[u8]) -> (r: Option<Vec<u8>>)
    requires
        key@.len() == KEY_LEN,
        nonce@.len() == NONCE_LEN,
    ensures
        r is Some <==> data@.len() <= MAX_PLAINTEXT,
        r matches Some(c) ==> c@ == aes_gcm_sealed(key@, nonce@, data@),
        r matches Some(c) ==> c@.len() == data@.len() + TAG_LEN,
        r matches Some(c) ==> aes_gcm_opened(key@, nonce@, c@) == Some(data@),
{
    let cipher = Aes256Gcm::new(Key::<Aes256Gcm>::from_slice(key));
    cipher.encrypt(Nonce::from_slice(nonce), data).ok()
}

/// `Aead::decrypt` of `Aes256Gcm`: the plaintext where the tag authenticates
/// the ciphertext, else nothing.
#[verifier::external_body]
fn open(key: &[u8], nonce: &[u8], data: &[u8]) -> (r: Option<Vec<u8>>)
    requires
        key@.len() == KEY_LEN,
        nonce@.len() == NONCE_LEN,
    ensures
        r is None <==> aes_gcm_opened(key@, nonce@, data@) is None,
        r matches Some(p) ==> aes_gcm_opened(key@, nonce@, data@) == Some(p@),
{
    let cipher = Aes256Gcm::new(Key::<Aes256Gcm>::from_slice(key));
    cipher.decrypt(Nonce::from_slice(nonce), data).ok()
}

/// `StaticSecret::random`: 32 random bytes from the operating system's random
/// source. Nothing is claimed of their values (nor is the panic of `OsRng`
/// where the operating system gives no random bytes).
#[verifier::external_body]
fn random_secret() -> (r: Vec<u8>)
    ensures r@.len() == 32,
{
    StaticSecret::random().to_bytes().to_vec()
}

/// `PublicKey::from(&StaticSecret)`: the 32-byte X25519 public key of a secret.
#[verifier::external_body]
fn public_key_of(secret: &[u8]) -> (r: Vec<u8>)
    requires secret@.len() == 32,
    ensures
        r@ == x25519_public(secret@),
        r@.len() == 32,
{
    let mut bytes = [0u8; 32];
    bytes.copy_from_slice(secret);
    PublicKey::from(&StaticSecret::from(bytes)).to_bytes().to_vec()
}

fn sub_bytes(data: &[u8], from: usize, to: usize) -> (r: Vec<u8>)
    requires from <= to <= data@.len(),
    ensures r@ == data@.subrange(from as int, to as int),
{
    let mut r: Vec<u8> = Vec::new();
    let mut i: usize = from;
    while i < to
        invariant
            from <= i <= to <= data@.len(),
            r@ == data@.subrange(from as int, i as int),
        decreases to - i,
    {
        r.push(data[i]);
        i = i + 1;
        assert(r@ =~= data@.subrange(from as int, i as int));
    }
    r
}

/// Encryption manager: a cipher and its key.
pub struct EncryptionManager {
    cipher: Cipher,
    key: Vec<u8>,
}

impl EncryptionManager {
    #[verifier::type_invariant]
    spec fn key_fits(&self) -> bool {
        self.key@.len() == KEY_LEN
    }

    pub closed spec fn cipher_spec(&self) -> Cipher {
        self.cipher
    }

    /// The manager's key.
    pub closed spec fn key_spec(&self) -> Seq<u8> {
        self.key@
    }

    /// A manager using AES-256-GCM, with a fresh random key.
    pub fn new() -> (m: Self)
        ensures
            m.cipher_spec() == Cipher::AES256GCM,
            m.key_spec().len() == KEY_LEN,
    {
        EncryptionManager { cipher: Cipher::AES256GCM, key: random_key() }
    }

    /// Encrypt data: a fresh nonce, then the data sealed under the manager's
    /// key and that nonce. Fails only on data longer than AES-GCM seals.
    pub fn encrypt(&self, data: &[u8]) -> (r: Result<Vec<u8>, CollaborationError>)
        ensures
            r is Ok <==> data@.len() <= MAX_PLAINTEXT,
            r matches Ok(v) ==> sealed_message(self.key_spec(), data@, v@),
            r matches Err(e) ==> e is EncryptionError,
    {
        proof { use_type_invariant(self); }
        let nonce = random_nonce();
        match seal(self.key.as_slice(), nonce.as_slice(), data) {
            Some(sealed) => {
                let mut out = nonce;
                let mut i: usize = 0;
                while i < sealed.len()
                    invariant
                        out@.len() == NONCE_LEN + i,
                        i <= sealed@.len(),
                        out@.subrange(0, NONCE_LEN as int) == nonce@,
                        out@.subrange(NONCE_LEN as int, out@.len() as int) == sealed@.subrange(0, i as int),
                    decreases sealed.len() - i,
                {
                    let ghost before = out@;
                    out.push(sealed[i]);
                    i = i + 1;
                    assert(out@.subrange(0, NONCE_LEN as int) =~= before.subrange(0, NONCE_LEN as int));
                    assert(out@.subrange(NONCE_LEN as int, out@.len() as int) =~= sealed@.subrange(0, i as int));
                }
                assert(sealed@.subrange(0, sealed@.len() as int) =~= sealed@);
                Ok(out)
            },
            None => Err(CollaborationError::EncryptionError("message too long to encrypt".to_string())),
        }
    }

    /// Decrypt data sealed by `encrypt`: fails where it is shorter than a
    /// nonce or its tag does not authenticate it under the manager's key.
    pub fn decrypt(&self, data: &[u8]) -> (r: Result<Vec<u8>, CollaborationError>)
        ensures
            match opened_message(self.key_spec(), data@) {
                Some(p) => r matches Ok(v) && v@ == p,
                None => r matches Err(e) && e is EncryptionError,
            },
    {
        proof { use_type_invariant(self); }
        if data.len() < NONCE_LEN {
            return Err(CollaborationError::EncryptionError("message too short to decrypt".to_string()));
        }
        let nonce = sub_bytes(data, 0, NONCE_LEN);
        let body = sub_bytes(data, NONCE_LEN, data.len());
        match open(self.key.as_slice(), nonce.as_slice(), body.as_slice()) {
            Some(p) => Ok(p),
            None => Err(CollaborationError::EncryptionError("message failed authentication".to_string())),
        }
    }

    /// Generate an X25519 key pair: a random 32-byte secret and its public key.
    pub fn generate_keypair(&self) -> (k: KeyPair)
        ensures
            k.private_key@.len() == 32,
            k.public_key@.len() == 32,
            k.public_key@ == x25519_public(k.private_key@),
    {
        let private_key = random_secret();
        let public_key = public_key_of(private_key.as_slice());
        KeyPair { public_key, private_key }
    }
}

/// Decrypting what a manager encrypted gives the data back.
pub proof fn law_decrypt_undoes_encrypt(m: EncryptionManager, data: Seq<u8>, sealed: Seq<u8>)
    requires sealed_message(m.key_spec(), data, sealed),
    ensures opened_message(m.key_spec(), sealed) == Some(data),
{
}

} // verus!
