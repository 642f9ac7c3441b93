use vstd::prelude::*;

use aes_gcm::aead::Aead;
use aes_gcm::{Aes128Gcm, KeyInit, Nonce};
use hkdf::Hkdf;
use rand::RngCore;
use sha2::Sha256;

verus! {

/// Bytes of the per-blob salt at the start of a sealed blob.
pub const SALT_LEN: usize = 16;

/// Bytes of the nonce that follows the salt.
pub const NONCE_LEN: usize = 12;

/// Bytes of a sealed blob before the ciphertext.
pub const HEADER_LEN: usize = 28;

/// Bytes of the authentication tag that the cipher appends.
pub const TAG_LEN: usize = 16;

/// Bytes of a sealing key, and of the root secret it is derived from.
pub const KEY_LEN: usize = 16;

/// Longest plaintext that AES-GCM accepts: 2^36 bytes.
pub const GCM_MAX_PLAINTEXT: u64 = 68719476736;

/// Longest output that HKDF-SHA256 can expand to: 255 blocks of 32 bytes.
pub const HKDF_MAX_OUTPUT: usize = 8160;

/// HKDF-SHA256 output of `len` bytes for key material `ikm`, `salt` and `info`.
pub uninterp spec fn hkdf_sha256(ikm: Seq<u8>, salt: Seq<u8>, info: Seq<u8>, len: nat) -> Seq<u8>;

/// AES-128-GCM encryption, with the tag appended, of `plaintext` under `key` and `nonce`.
pub uninterp spec fn gcm_seal(key: Seq<u8>, nonce: Seq<u8>, plaintext: Seq<u8>) -> Seq<u8>;

/// AES-128-GCM decryption of `sealed` under `key` and `nonce`: `None` when the tag does not verify.
pub uninterp spec fn gcm_open(key: Seq<u8>, nonce: Seq<u8>, sealed: Seq<u8>) -> Option<Seq<u8>>;

/// The HKDF `info` of sealing keys: the bytes of "sealing".
pub open spec fn sealing_info() -> Seq<u8> {
    seq![115u8, 101u8, 97u8, 108u8, 105u8, 110u8, 103u8]
}

/// The key that seals a blob with the given salt.
pub open spec fn sealing_key(root: Seq<u8>, salt: Seq<u8>) -> Seq<u8> {
    hkdf_sha256(root, salt, sealing_info(), KEY_LEN as nat)
}

/// The blob that sealing `plaintext` with `salt` and `nonce` produces.
pub open spec fn sealed_blob(root: Seq<u8>, salt: Seq<u8>, nonce: Seq<u8>, plaintext: Seq<u8>) -> Seq<
    u8,
> {
    salt + nonce + gcm_seal(sealing_key(root, salt), nonce, plaintext)
}

/// What unsealing `blob` yields.
pub open spec fn unseal_result(root: Seq<u8>, blob: Seq<u8>) -> Result<Seq<u8>, SealError> {
    if blob.len() < HEADER_LEN {
        Err(SealError::SealedFormat)
    } else {
        let salt = blob.subrange(0, SALT_LEN as int);
        let nonce = blob.subrange(SALT_LEN as int, HEADER_LEN as int);
        let sealed = blob.subrange(HEADER_LEN as int, blob.len() as int);
        match gcm_open(sealing_key(root, salt), nonce, sealed) {
            Some(p) => Ok(p),
            None => Err(SealError::SealedIntegrity),
        }
    }
}

/// Failures of sealing and unsealing.
#[derive(Debug, Clone, Copy, PartialEq, Eq, Structural)]
pub enum SealError {
    /// The root secret is not 16 bytes long.
    InvalidRootLength,
    /// The operating system's random source failed.
    RandomSource,
    /// The plaintext is longer than the cipher accepts.
    PlaintextTooLarge,
    /// The blob is too short to hold a salt and a nonce.
    SealedFormat,
    /// The blob's authentication tag does not verify.
    SealedIntegrity,
}

/// The attestation-bound root secret that every sealing key is derived from.
pub struct SealingRoot {
    secret: Vec<u8>,
}

impl SealingRoot {
    pub closed spec fn view(&self) -> Seq<u8> {
        self.secret@
    }

    /// The root has the length that key derivation expects.
    pub closed spec fn wf(&self) -> bool {
        self.secret@.len() == KEY_LEN
    }

    /// Takes the root secret read at startup; it must be 16 bytes.
    pub fn new(secret: Vec<u8>) -> (r: Result<SealingRoot, SealError>)
        ensures
            r is Ok <==> secret@.len() == KEY_LEN,
            r matches Ok(root) ==> root.wf() && root@ == secret@,
            r is Err ==> r == Err::<SealingRoot, SealError>(SealError::InvalidRootLength),
    {
        if secret.len() != KEY_LEN {
            return Err(SealError::InvalidRootLength);
        }
        Ok(SealingRoot { secret })
    }

    fn secret(&self) -> (r: &[u8])
        ensures
            r@ == self@,
    {
        self.secret.as_slice()
    }
}

/// Relies on hkdf's `Hkdf::<Sha256>::new` and `Hkdf::expand`: extract-then-expand
/// per RFC 5869, which fails only for an output longer than 255 hash blocks.
#[verifier::external_body]
fn hkdf_expand(ikm: &[u8], salt: &[u8], info: &[u8], len: usize) -> (r: Option<Vec<u8>>)
    ensures
        r is Some <==> len <= HKDF_MAX_OUTPUT,
        r matches Some(okm) ==> okm@ == hkdf_sha256(ikm@, salt@, info@, len as nat)
            && okm@.len() == len,
{
    let hk = Hkdf::<Sha256>::new(Some(salt), ikm);
    let mut okm = vec![0u8; len];
    hk.expand(info, &mut okm).ok()?;
    Some(okm)
}

/// Relies on aes-gcm's `Aes128Gcm::new_from_slice` and `Aead::encrypt`: the
/// ciphertext with its 16-byte tag appended; only a plaintext over 2^36 bytes is
/// refused; decrypting the result under the same key and nonce gives the
/// plaintext back.
#[verifier::external_body]
fn aes128_gcm_encrypt(key: &[u8], nonce: &[u8], plaintext: &[u8]) -> (r: Option<Vec<u8>>)
    requires
        key@.len() == KEY_LEN,
        nonce@.len() == NONCE_LEN,
    ensures
        r is Some <==> plaintext@.len() <= GCM_MAX_PLAINTEXT,
        r matches Some(c) ==> c@ == gcm_seal(key@, nonce@, plaintext@) && c@.len()
            == plaintext@.len() + TAG_LEN && gcm_open(key@, nonce@, c@) == Some(plaintext@),
{
    let cipher = Aes128Gcm::new_from_slice(key).ok()?;
    cipher.encrypt(Nonce::from_slice(nonce), plaintext).ok()
}

/// Relies on aes-gcm's `Aes128Gcm::new_from_slice` and `Aead::decrypt`: the
/// plaintext when the tag verifies, nothing otherwise.
#[verifier::external_body]
fn aes128_gcm_decrypt(key: &[u8], nonce: &[u8], sealed: &[u8]) -> (r: Option<Vec<u8>>)
    requires
        key@.len() == KEY_LEN,
        nonce@.len() == NONCE_LEN,
    ensures
        match r {
            Some(p) => gcm_open(key@, nonce@, sealed@) == Some(p@),
            None => gcm_open(key@, nonce@, sealed@) is None,
        },
{
    let cipher = Aes128Gcm::new_from_slice(key).ok()?;
    cipher.decrypt(Nonce::from_slice(nonce), sealed).ok()
}

/// Relies on rand's `OsRng::try_fill_bytes`: `n` bytes from the operating
/// system's random source, or nothing when that source fails.
#[verifier::external_body]
fn random_bytes(n: usize) -> (r: Option<Vec<u8>>)
    ensures
        r matches Some(b) ==> b@.len() == n,
{
    let mut b = vec![0u8; n];
    rand::rngs::OsRng.try_fill_bytes(&mut b).ok()?;
    Some(b)
}

/// Appends the bytes of `b` to `out`.
fn extend_bytes(out: &mut Vec<u8>, b: &[u8])
    ensures
        final(out)@ == old(out)@ + b@,
{
    let mut i: usize = 0;
    while i < b.len()
        invariant
            i <= b@.len(),
            out@ == old(out)@ + b@.subrange(0, i as int),
        decreases b.len() - i,
    {
        out.push(b[i]);
        i = i + 1;
        assert(b@.subrange(0, i as int) =~= b@.subrange(0, i - 1) + seq![b@[i - 1]]);
    }
    assert(b@.subrange(0, b@.len() as int) =~= b@);
}

/// Draws a fresh 16-byte salt.
pub fn generate_salt() -> (r: Result<Vec<u8>, SealError>)
    ensures
        r matches Ok(s) ==> s@.len() == SALT_LEN,
        r is Err ==> r == Err::<Vec<u8>, SealError>(SealError::RandomSource),
{
    match random_bytes(SALT_LEN) {
        Some(s) => Ok(s),
        None => Err(SealError::RandomSource),
    }
}

/// Derives the sealing key for `salt`: HKDF-SHA256 over the root secret with
/// info "sealing", 16 bytes long.
pub fn derive_key(root: &SealingRoot, salt: &[u8]) -> (r: Vec<u8>)
    ensures
        r@ == sealing_key(root@, salt@),
        r@.len() == KEY_LEN,
{
    let info: Vec<u8> = vec![115u8, 101u8, 97u8, 108u8, 105u8, 110u8, 103u8];
    assert(info@ =~= sealing_info());
    match hkdf_expand(root.secret(), salt, info.as_slice(), KEY_LEN) {
        Some(k) => k,
        None => {
            assert(false);
            Vec::new()
        },
    }
}

/// Seals `plaintext` with the given salt and nonce: `salt ‖ nonce ‖ ciphertext ‖ tag`.
pub fn seal_data_with(root: &SealingRoot, plaintext: &[u8], salt: &[u8], nonce: &[u8]) -> (r:
    Result<Vec<u8>, SealError>)
    requires
        root.wf(),
        salt@.len() == SALT_LEN,
        nonce@.len() == NONCE_LEN,
    ensures
        r is Ok <==> plaintext@.len() <= GCM_MAX_PLAINTEXT,
        r is Err ==> r == Err::<Vec<u8>, SealError>(SealError::PlaintextTooLarge),
        r matches Ok(blob) ==> blob@ == sealed_blob(root@, salt@, nonce@, plaintext@) && blob@.len()
            == HEADER_LEN + plaintext@.len() + TAG_LEN && unseal_result(root@, blob@) == Ok::<
            Seq<u8>,
            SealError,
        >(plaintext@),
{
    let key = derive_key(root, salt);
    let ciphertext = match aes128_gcm_encrypt(key.as_slice(), nonce, plaintext) {
        Some(c) => c,
        None => return Err(SealError::PlaintextTooLarge),
    };
    let mut sealed: Vec<u8> = Vec::new();
    extend_bytes(&mut sealed, salt);
    extend_bytes(&mut sealed, nonce);
    extend_bytes(&mut sealed, ciphertext.as_slice());
    proof {
        let b = sealed@;
        assert(b.subrange(0, SALT_LEN as int) =~= salt@);
        assert(b.subrange(SALT_LEN as int, HEADER_LEN as int) =~= nonce@);
        assert(b.subrange(HEADER_LEN as int, b.len() as int) =~= ciphertext@);
    }
    Ok(sealed)
}

/// Seals `plaintext` under a fresh random salt and nonce. What comes back
/// unseals to `plaintext` under the same root.
pub fn seal_data(root: &SealingRoot, plaintext: &[u8]) -> (r: Result<Vec<u8>, SealError>)
    requires
        root.wf(),
    ensures
        r matches Ok(blob) ==> unseal_result(root@, blob@) == Ok::<Seq<u8>, SealError>(plaintext@)
            && blob@.len() == HEADER_LEN + plaintext@.len() + TAG_LEN,
        r matches Ok(blob) ==> exists|salt: Seq<u8>, nonce: Seq<u8>|
            salt.len() == SALT_LEN && nonce.len() == NONCE_LEN && blob@ == sealed_blob(
                root@,
                salt,
                nonce,
                plaintext@,
            ),
        plaintext@.len() > GCM_MAX_PLAINTEXT ==> r is Err,
        r is Err ==> r == Err::<Vec<u8>, SealError>(SealError::RandomSource) || (r
            == Err::<Vec<u8>, SealError>(SealError::PlaintextTooLarge) && plaintext@.len()
            > GCM_MAX_PLAINTEXT),
{
    let salt = generate_salt()?;
    let nonce = match random_bytes(NONCE_LEN) {
        Some(n) => n,
        None => return Err(SealError::RandomSource),
    };
    seal_data_with(root, plaintext, salt.as_slice(), nonce.as_slice())
}

/// Unseals a blob: splits off salt and nonce, re-derives the key and decrypts.
/// A blob under 28 bytes is `SealedFormat`; a tag that does not verify is
/// `SealedIntegrity`.
pub fn unseal_data(root: &SealingRoot, blob: &[u8]) -> (r: Result<Vec<u8>, SealError>)
    requires
        root.wf(),
    ensures
        match r {
            Ok(p) => unseal_result(root@, blob@) == Ok::<Seq<u8>, SealError>(p@),
            Err(e) => unseal_result(root@, blob@) == Err::<Seq<u8>, SealError>(e),
        },
{
    if blob.len() < HEADER_LEN {
        return Err(SealError::SealedFormat);
    }
    let (salt, rest) = blob.split_at(SALT_LEN);
    let (nonce, sealed) = rest.split_at(NONCE_LEN);
    proof {
        assert(salt@ =~= blob@.subrange(0, SALT_LEN as int));
        assert(nonce@ =~= blob@.subrange(SALT_LEN as int, HEADER_LEN as int));
        assert(sealed@ =~= blob@.subrange(HEADER_LEN as int, blob@.len() as int));
    }
    let key = derive_key(root, salt);
    match aes128_gcm_decrypt(key.as_slice(), nonce, sealed) {
        Some(p) => Ok(p),
        None => Err(SealError::SealedIntegrity),
    }
}

/// A blob shorter than its salt and nonce is malformed, whatever the root.
pub proof fn lemma_truncated_blob_is_malformed(root: Seq<u8>, blob: Seq<u8>)
    requires
        blob.len() < HEADER_LEN,
    ensures
        unseal_result(root, blob) == Err::<Seq<u8>, SealError>(SealError::SealedFormat),
{
}

} // verus!
